//! What can go wrong with the transcription of one upload.

use crate::decimal::{decimal, push_decimal};
use crate::provider::TranscriptionProvider;
use crate::text::{from_chars, optional_text, push_text};
use vstd::prelude::*;

verus! {

/// How `reqwest` writes a status code out: the number and the reason phrase
/// that belongs to it. `None` for a number that `reqwest` takes for no status
/// code.
pub uninterp spec fn status_display(code: u16) -> Option<Seq<char>>;

/// Calls `reqwest::StatusCode::from_u16` and writes the status out with its
/// `Display`. What is written depends on the number alone.
#[verifier::external_body]
fn display_status(code: u16) -> (r: Option<String>)
    ensures
        optional_text(r) == status_display(code),
{
    match reqwest::StatusCode::from_u16(code) {
        Ok(status) => Some(status.to_string()),
        Err(_) => None,
    }
}

/// The status as it is shown in a message: as `reqwest` writes it out, or
/// the bare number where `reqwest` takes it for no status code.
pub open spec fn status_text(code: u16) -> Seq<char> {
    match status_display(code) {
        Some(written) => written,
        None => decimal(code as nat),
    }
}

/// The status as it is shown in a message, given how `reqwest` writes it
/// out.
pub fn status_from_display(code: u16, written: Option<String>) -> (r: String)
    ensures
        r@ == match written {
            Some(text) => text@,
            None => decimal(code as nat),
        },
{
    match written {
        Some(text) => text,
        None => {
            let mut digits: Vec<char> = Vec::new();
            push_decimal(&mut digits, code as u64);
            from_chars(&digits)
        },
    }
}

/// The step of an exchange at which the network failed.
#[derive(Debug, Clone, Copy, PartialEq, Eq, Structural)]
pub enum TransportPhase {
    /// The request could not be sent, or no response arrived in time.
    Send,
    /// A response arrived, but its body could not be read.
    ReadBody,
}

/// Why one upload gave no transcript.
#[derive(Debug, PartialEq, Eq)]
pub enum TranscriptionError {
    /// The provider could not be reached, or its answer could not be read.
    Transport { provider: TranscriptionProvider, phase: TransportPhase, detail: String },
    /// The provider answered with a status outside 200..=299.
    Provider { provider: TranscriptionProvider, status: u16, body: String },
    /// The provider's answer was no JSON object with a string `text`.
    Decode { provider: TranscriptionProvider },
    /// The worker that held the upload ended abnormally.
    WorkerFault { detail: String },
}

impl TranscriptionError {
    /// The message that describes the error to the user.
    pub open spec fn message_text(self) -> Seq<char> {
        match self {
            TranscriptionError::Transport { provider, phase, detail } => match phase {
                TransportPhase::Send => "Failed to send request to "@ + provider.label_text()
                    + " API"@,
                TransportPhase::ReadBody => "Failed to get response text"@,
            },
            TranscriptionError::Provider { provider, status, body } => provider.label_text()
                + " API error ("@ + status_text(status) + "): "@ + body@,
            TranscriptionError::Decode { provider } => "Failed to parse "@ + provider.label_text()
                + " API response"@,
            TranscriptionError::WorkerFault { detail } => "Task panicked: "@ + detail@,
        }
    }

    /// Appends the message to `acc`.
    pub fn push_message(&self, acc: &mut Vec<char>)
        ensures
            final(acc)@ == old(acc)@ + self.message_text(),
    {
        match self {
            TranscriptionError::Transport { provider, phase, detail } => match phase {
                TransportPhase::Send => {
                    push_text(acc, "Failed to send request to ");
                    push_text(acc, provider.label());
                    push_text(acc, " API");
                },
                TransportPhase::ReadBody => {
                    push_text(acc, "Failed to get response text");
                },
            },
            TranscriptionError::Provider { provider, status, body } => {
                push_text(acc, provider.label());
                push_text(acc, " API error (");
                let shown = status_from_display(*status, display_status(*status));
                push_text(acc, shown.as_str());
                push_text(acc, "): ");
                push_text(acc, body.as_str());
            },
            TranscriptionError::Decode { provider } => {
                push_text(acc, "Failed to parse ");
                push_text(acc, provider.label());
                push_text(acc, " API response");
            },
            TranscriptionError::WorkerFault { detail } => {
                push_text(acc, "Task panicked: ");
                push_text(acc, detail.as_str());
            },
        }
    }

    /// The message that describes the error to the user.
    pub fn message(&self) -> (r: String)
        ensures
            r@ == self.message_text(),
    {
        let mut acc: Vec<char> = Vec::new();
        self.push_message(&mut acc);
        from_chars(&acc)
    }
}

} // verus!
