//! The speech-to-text providers that a recording can be sent to.

use crate::text::{from_chars, lowercase, lowercase_of, push_text, same_text};
use vstd::prelude::*;

verus! {

/// Address that OpenAI takes transcription uploads at.
pub const OPENAI_API_URL: &'static str = "https://api.openai.com/v1/audio/transcriptions";

/// Model that OpenAI is asked to transcribe with.
pub const OPENAI_MODEL: &'static str = "whisper-1";

/// Address that Mistral takes transcription uploads at.
pub const MISTRAL_API_URL: &'static str = "https://api.mistral.ai/v1/audio/transcriptions";

/// Model that Mistral is asked to transcribe with.
pub const MISTRAL_MODEL: &'static str = "voxtral-mini-latest";

/// A speech-to-text provider.
#[derive(Debug, Clone, Copy, PartialEq, Eq, Structural)]
pub enum TranscriptionProvider {
    OpenAI,
    Mistral,
}

impl Default for TranscriptionProvider {
    fn default() -> (r: Self)
        ensures
            r == TranscriptionProvider::OpenAI,
    {
        TranscriptionProvider::OpenAI
    }
}

impl TranscriptionProvider {
    /// The provider's name as it is written in settings and on the command
    /// line.
    pub open spec fn name_text(self) -> Seq<char> {
        match self {
            TranscriptionProvider::OpenAI => "openai"@,
            TranscriptionProvider::Mistral => "mistral"@,
        }
    }

    /// The provider's name as it is shown in messages.
    pub open spec fn label_text(self) -> Seq<char> {
        match self {
            TranscriptionProvider::OpenAI => "OpenAI"@,
            TranscriptionProvider::Mistral => "Mistral"@,
        }
    }

    /// The address that uploads for this provider go to.
    pub open spec fn endpoint_text(self) -> Seq<char> {
        match self {
            TranscriptionProvider::OpenAI => OPENAI_API_URL@,
            TranscriptionProvider::Mistral => MISTRAL_API_URL@,
        }
    }

    /// The model that this provider is asked for.
    pub open spec fn model_text(self) -> Seq<char> {
        match self {
            TranscriptionProvider::OpenAI => OPENAI_MODEL@,
            TranscriptionProvider::Mistral => MISTRAL_MODEL@,
        }
    }

    /// The provider's name as it is written in settings and on the command
    /// line: `openai` or `mistral`.
    pub fn name(&self) -> (r: &'static str)
        ensures
            r@ == self.name_text(),
    {
        match self {
            TranscriptionProvider::OpenAI => "openai",
            TranscriptionProvider::Mistral => "mistral",
        }
    }

    /// The provider's name as a string of its own.
    pub fn to_string(&self) -> (r: String)
        ensures
            r@ == self.name_text(),
    {
        String::from_str(self.name())
    }

    /// The provider's name as it is shown in messages.
    pub fn label(&self) -> (r: &'static str)
        ensures
            r@ == self.label_text(),
    {
        match self {
            TranscriptionProvider::OpenAI => "OpenAI",
            TranscriptionProvider::Mistral => "Mistral",
        }
    }

    /// The address that uploads for this provider go to.
    pub fn endpoint(&self) -> (r: &'static str)
        ensures
            r@ == self.endpoint_text(),
    {
        match self {
            TranscriptionProvider::OpenAI => OPENAI_API_URL,
            TranscriptionProvider::Mistral => MISTRAL_API_URL,
        }
    }

    /// The model that this provider is asked for.
    pub fn model(&self) -> (r: &'static str)
        ensures
            r@ == self.model_text(),
    {
        match self {
            TranscriptionProvider::OpenAI => OPENAI_MODEL,
            TranscriptionProvider::Mistral => MISTRAL_MODEL,
        }
    }
}

/// What is said of a provider name that is not known.
pub open spec fn unknown_provider_text(given: Seq<char>) -> Seq<char> {
    "Unknown provider: "@ + given + ". Use 'openai' or 'mistral'"@
}

/// Whether `r` is what a provider name gives, `lowered` being the name in
/// lower case and `written` the name as it was given.
pub open spec fn provider_parsed(
    lowered: Seq<char>,
    written: Seq<char>,
    r: Result<TranscriptionProvider, String>,
) -> bool {
    if lowered == "openai"@ {
        r == Ok::<TranscriptionProvider, String>(TranscriptionProvider::OpenAI)
    } else if lowered == "mistral"@ {
        r == Ok::<TranscriptionProvider, String>(TranscriptionProvider::Mistral)
    } else {
        r matches Err(message) && message@ == unknown_provider_text(written)
    }
}

/// Picks the provider for a name that has been brought to lower case.
///
/// `openai` and `mistral` give their provider. Any other name gives a message
/// that quotes the name as it was written.
pub fn provider_from_lowercase(lowered: &str, written: &str) -> (r: Result<
    TranscriptionProvider,
    String,
>)
    ensures
        provider_parsed(lowered@, written@, r),
{
    if same_text(lowered, "openai") {
        Ok(TranscriptionProvider::OpenAI)
    } else if same_text(lowered, "mistral") {
        Ok(TranscriptionProvider::Mistral)
    } else {
        let mut message: Vec<char> = Vec::new();
        push_text(&mut message, "Unknown provider: ");
        push_text(&mut message, written);
        push_text(&mut message, ". Use 'openai' or 'mistral'");
        Err(from_chars(&message))
    }
}

/// Reads a provider name, in any letter case.
pub fn parse_provider(s: &str) -> (r: Result<TranscriptionProvider, String>)
    ensures
        provider_parsed(lowercase_of(s@), s@, r),
{
    let lowered = lowercase(s);
    provider_from_lowercase(lowered.as_str(), s)
}

impl std::str::FromStr for TranscriptionProvider {
    type Err = String;

    /// Reads a provider name, in any letter case: `openai` and `mistral`
    /// give their provider, and any other name gives a message that quotes
    /// the name as it was written.
    fn from_str(s: &str) -> (r: Result<Self, String>)
        ensures
            provider_parsed(lowercase_of(s@), s@, r),
    {
        parse_provider(s)
    }
}

} // verus!
