//! The exchange with a provider: what is uploaded, and what a reply means.
//!
//! Nothing here touches the network. A request is a plain value that the
//! caller sends, and the reply comes back as a plain value too.

use crate::decimal::{decimal, push_decimal};
use crate::error::{TranscriptionError, TransportPhase};
use crate::json::{json_text_member, read_text_member};
use crate::merge::ChunkTranscription;
use crate::provider::TranscriptionProvider;
use crate::text::{from_chars, push_text};
use vstd::prelude::*;

verus! {

/// Seconds that one upload may take before it counts as failed.
pub const API_TIMEOUT_SECS: u64 = 300;

/// A slice of a recording that is transcribed on its own.
#[derive(Debug)]
pub struct AudioChunk {
    /// Position of the chunk in the recording.
    pub index: usize,
    /// The encoded audio.
    pub data: Vec<u8>,
    /// Whether the chunk starts with audio that also ends the chunk before it.
    pub has_leading_overlap: bool,
}

/// One upload to a provider: a multipart form that is posted with a bearer
/// token.
#[derive(Debug)]
pub struct ProviderRequest {
    /// Address that the form is posted to.
    pub url: String,
    /// Value of the `Authorization` header.
    pub authorization: String,
    /// Value of the form field `model`.
    pub model: String,
    /// File name of the form field `file`.
    pub file_name: String,
    /// Media type of the form field `file`.
    pub mime_type: String,
    /// Value of the form field `language`; the field is left out for `None`.
    pub language: Option<String>,
    /// Content of the form field `file`.
    pub payload: Vec<u8>,
    /// Seconds after which the exchange is given up.
    pub timeout_secs: u64,
}

/// What came back from one upload.
#[derive(Debug)]
pub enum HttpReply {
    /// The request could not be sent, or no response arrived in time.
    SendFailed { detail: String },
    /// A response arrived. `body` is its text, or why the text could not be
    /// read.
    Response { status: u16, body: Result<String, String> },
}

/// The text of an optional language hint.
pub open spec fn hint_text(language: Option<&str>) -> Option<Seq<char>> {
    match language {
        Some(code) => Some(code@),
        None => None,
    }
}

/// The file name that the audio of a whole recording is uploaded under.
pub open spec fn recording_file_name() -> Seq<char> {
    "audio.mp3"@
}

/// The file name that the chunk with the given index is uploaded under.
pub open spec fn chunk_file_name(index: nat) -> Seq<char> {
    "audio_chunk_"@ + decimal(index) + ".mp3"@
}

/// Whether a status code reports success.
pub open spec fn is_success(status: u16) -> bool {
    200 <= status < 300
}

impl ProviderRequest {
    /// Whether this is the upload of `payload` to `provider` under
    /// `file_name`, with the given key and language hint.
    pub open spec fn carries(
        self,
        provider: TranscriptionProvider,
        api_key: Seq<char>,
        language: Option<Seq<char>>,
        file_name: Seq<char>,
        payload: Seq<u8>,
    ) -> bool {
        &&& self.url@ == provider.endpoint_text()
        &&& self.authorization@ == "Bearer "@ + api_key
        &&& self.model@ == provider.model_text()
        &&& self.file_name@ == file_name
        &&& self.mime_type@ == "audio/mpeg"@
        &&& match language {
            Some(code) => self.language matches Some(hint) && hint@ == code,
            None => self.language is None,
        }
        &&& self.payload@ == payload
        &&& self.timeout_secs == API_TIMEOUT_SECS
    }
}

/// Whether `r` is what the reply to an upload to `provider` means.
///
/// A reply that never came is a transport error. A status outside 200..=299
/// is a provider error that keeps the status and the body as it was sent
/// (`Unknown error` where the body could not be read). A successful reply
/// gives the string member `text` of its JSON body, and is a decoding error
/// where the body holds no such member.
pub open spec fn reply_gives(
    provider: TranscriptionProvider,
    reply: HttpReply,
    r: Result<String, TranscriptionError>,
) -> bool {
    match reply {
        HttpReply::SendFailed { detail } => r == Err::<String, TranscriptionError>(
            TranscriptionError::Transport { provider, phase: TransportPhase::Send, detail },
        ),
        HttpReply::Response { status, body } => if !is_success(status) {
            &&& r matches Err(TranscriptionError::Provider { provider: p, status: s, body: b })
            &&& p == provider
            &&& s == status
            &&& b@ == match body {
                Ok(text) => text@,
                Err(_) => "Unknown error"@,
            }
        } else {
            match body {
                Err(detail) => r == Err::<String, TranscriptionError>(
                    TranscriptionError::Transport {
                        provider,
                        phase: TransportPhase::ReadBody,
                        detail,
                    },
                ),
                Ok(text) => match json_text_member(text@, "text"@) {
                    Some(transcript) => r matches Ok(t) && t@ == transcript,
                    None => r == Err::<String, TranscriptionError>(
                        TranscriptionError::Decode { provider },
                    ),
                },
            }
        },
    }
}

/// Builds the upload of `payload` under `file_name`.
///
/// The form names the provider's model and carries the audio as
/// `audio/mpeg`. The language field is present exactly when a hint is given.
pub fn build_request(
    provider: &TranscriptionProvider,
    api_key: &str,
    language: Option<&str>,
    file_name: String,
    payload: Vec<u8>,
) -> (request: ProviderRequest)
    ensures
        request.carries(*provider, api_key@, hint_text(language), file_name@, payload@),
{
    let mut authorization: Vec<char> = Vec::new();
    push_text(&mut authorization, "Bearer ");
    push_text(&mut authorization, api_key);
    let language = match language {
        Some(code) => Some(String::from_str(code)),
        None => None,
    };
    ProviderRequest {
        url: String::from_str(provider.endpoint()),
        authorization: from_chars(&authorization),
        model: String::from_str(provider.model()),
        file_name,
        mime_type: String::from_str("audio/mpeg"),
        language,
        payload,
        timeout_secs: API_TIMEOUT_SECS,
    }
}

/// Builds the upload of a whole recording.
pub fn request_for_recording(
    provider: &TranscriptionProvider,
    api_key: &str,
    language: Option<&str>,
    audio_data: Vec<u8>,
) -> (request: ProviderRequest)
    ensures
        request.carries(
            *provider,
            api_key@,
            hint_text(language),
            recording_file_name(),
            audio_data@,
        ),
{
    build_request(provider, api_key, language, String::from_str("audio.mp3"), audio_data)
}

/// Builds the upload of one chunk. The file name holds the chunk's index.
pub fn request_for_chunk(
    provider: &TranscriptionProvider,
    api_key: &str,
    language: Option<&str>,
    chunk: AudioChunk,
) -> (request: ProviderRequest)
    ensures
        request.carries(
            *provider,
            api_key@,
            hint_text(language),
            chunk_file_name(chunk.index as nat),
            chunk.data@,
        ),
{
    let mut name: Vec<char> = Vec::new();
    push_text(&mut name, "audio_chunk_");
    push_decimal(&mut name, chunk.index as u64);
    push_text(&mut name, ".mp3");
    build_request(provider, api_key, language, from_chars(&name), chunk.data)
}

/// Tells whether a status code reports success.
pub fn status_is_success(status: u16) -> (r: bool)
    ensures
        r == is_success(status),
{
    200 <= status && status < 300
}

/// The result for a successful reply, given the string member `text` of its
/// body: the member is the transcript, and a body without one is a decoding
/// error.
pub fn transcript_from_member(provider: &TranscriptionProvider, member: Option<String>) -> (r:
    Result<String, TranscriptionError>)
    ensures
        r == match member {
            Some(transcript) => Ok::<String, TranscriptionError>(transcript),
            None => Err::<String, TranscriptionError>(
                TranscriptionError::Decode { provider: *provider },
            ),
        },
{
    match member {
        Some(transcript) => Ok(transcript),
        None => Err(TranscriptionError::Decode { provider: *provider }),
    }
}

/// Reads the transcript, or the error, out of the reply to an upload.
pub fn interpret_reply(provider: &TranscriptionProvider, reply: HttpReply) -> (r: Result<
    String,
    TranscriptionError,
>)
    ensures
        reply_gives(*provider, reply, r),
{
    match reply {
        HttpReply::SendFailed { detail } => Err(
            TranscriptionError::Transport {
                provider: *provider,
                phase: TransportPhase::Send,
                detail,
            },
        ),
        HttpReply::Response { status, body } => {
            if !status_is_success(status) {
                let body = match body {
                    Ok(text) => text,
                    Err(_) => String::from_str("Unknown error"),
                };
                Err(TranscriptionError::Provider { provider: *provider, status, body })
            } else {
                match body {
                    Err(detail) => Err(
                        TranscriptionError::Transport {
                            provider: *provider,
                            phase: TransportPhase::ReadBody,
                            detail,
                        },
                    ),
                    Ok(text) => transcript_from_member(
                        provider,
                        read_text_member(text.as_str(), "text"),
                    ),
                }
            }
        },
    }
}

/// Whether `r` is what one exchange through `send` gave: `send` was handed
/// the upload of `payload` to `provider`, and `r` is what its reply means.
pub open spec fn exchanged<F: FnOnce(ProviderRequest) -> HttpReply>(
    provider: TranscriptionProvider,
    api_key: Seq<char>,
    language: Option<Seq<char>>,
    file_name: Seq<char>,
    payload: Seq<u8>,
    send: F,
    r: Result<String, TranscriptionError>,
) -> bool {
    exists|request: ProviderRequest, reply: HttpReply|
        {
            &&& request.carries(provider, api_key, language, file_name, payload)
            &&& #[trigger] send.ensures((request,), reply)
            &&& reply_gives(provider, reply, r)
        }
}

/// Whether `send` accepts every upload of `payload` to `provider`.
pub open spec fn accepts<F: FnOnce(ProviderRequest) -> HttpReply>(
    provider: TranscriptionProvider,
    api_key: Seq<char>,
    language: Option<Seq<char>>,
    file_name: Seq<char>,
    payload: Seq<u8>,
    send: F,
) -> bool {
    forall|request: ProviderRequest|
        request.carries(provider, api_key, language, file_name, payload)
            ==> #[trigger] send.requires((request,))
}

/// Sends one request through `send` and reads the reply.
fn exchange<F: FnOnce(ProviderRequest) -> HttpReply>(
    provider: &TranscriptionProvider,
    api_key: &str,
    language: Option<&str>,
    file_name: String,
    payload: Vec<u8>,
    send: F,
) -> (r: Result<String, TranscriptionError>)
    requires
        accepts(*provider, api_key@, hint_text(language), file_name@, payload@, send),
    ensures
        exchanged(*provider, api_key@, hint_text(language), file_name@, payload@, send, r),
{
    let request = build_request(provider, api_key, language, file_name, payload);
    let reply = send(request);
    interpret_reply(provider, reply)
}

/// Transcribes a recording with OpenAI. `send` carries the upload out.
pub fn transcribe_openai<F: FnOnce(ProviderRequest) -> HttpReply>(
    api_key: &str,
    language: Option<&str>,
    audio_data: Vec<u8>,
    send: F,
) -> (r: Result<String, TranscriptionError>)
    requires
        accepts(
            TranscriptionProvider::OpenAI,
            api_key@,
            hint_text(language),
            recording_file_name(),
            audio_data@,
            send,
        ),
    ensures
        exchanged(
            TranscriptionProvider::OpenAI,
            api_key@,
            hint_text(language),
            recording_file_name(),
            audio_data@,
            send,
            r,
        ),
{
    exchange(
        &TranscriptionProvider::OpenAI,
        api_key,
        language,
        String::from_str("audio.mp3"),
        audio_data,
        send,
    )
}

/// Transcribes a recording with Mistral. `send` carries the upload out.
pub fn transcribe_mistral<F: FnOnce(ProviderRequest) -> HttpReply>(
    api_key: &str,
    language: Option<&str>,
    audio_data: Vec<u8>,
    send: F,
) -> (r: Result<String, TranscriptionError>)
    requires
        accepts(
            TranscriptionProvider::Mistral,
            api_key@,
            hint_text(language),
            recording_file_name(),
            audio_data@,
            send,
        ),
    ensures
        exchanged(
            TranscriptionProvider::Mistral,
            api_key@,
            hint_text(language),
            recording_file_name(),
            audio_data@,
            send,
            r,
        ),
{
    exchange(
        &TranscriptionProvider::Mistral,
        api_key,
        language,
        String::from_str("audio.mp3"),
        audio_data,
        send,
    )
}

/// Transcribes a recording in one upload.
///
/// The upload for the chosen provider is handed to `send` once, and the
/// result is what the reply means: the transcript as the provider gave it, or
/// the error.
pub fn transcribe_audio<F: FnOnce(ProviderRequest) -> HttpReply>(
    provider: &TranscriptionProvider,
    api_key: &str,
    language: Option<&str>,
    audio_data: Vec<u8>,
    send: F,
) -> (r: Result<String, TranscriptionError>)
    requires
        accepts(
            *provider,
            api_key@,
            hint_text(language),
            recording_file_name(),
            audio_data@,
            send,
        ),
    ensures
        exchanged(
            *provider,
            api_key@,
            hint_text(language),
            recording_file_name(),
            audio_data@,
            send,
            r,
        ),
{
    match provider {
        TranscriptionProvider::OpenAI => transcribe_openai(api_key, language, audio_data, send),
        TranscriptionProvider::Mistral => transcribe_mistral(api_key, language, audio_data, send),
    }
}

/// Whether `r` is what the reply to the upload of a chunk means: the chunk's
/// transcript with the chunk's index and overlap mark, or the error.
pub open spec fn chunk_reply_gives(
    provider: TranscriptionProvider,
    index: usize,
    has_leading_overlap: bool,
    reply: HttpReply,
    r: Result<ChunkTranscription, TranscriptionError>,
) -> bool {
    match r {
        Ok(transcription) => {
            &&& transcription.index == index
            &&& transcription.has_leading_overlap == has_leading_overlap
            &&& reply_gives(provider, reply, Ok(transcription.text))
        },
        Err(error) => reply_gives(provider, reply, Err(error)),
    }
}

/// Reads the reply to the upload of a chunk.
pub fn interpret_chunk_reply(
    provider: &TranscriptionProvider,
    index: usize,
    has_leading_overlap: bool,
    reply: HttpReply,
) -> (r: Result<ChunkTranscription, TranscriptionError>)
    ensures
        chunk_reply_gives(*provider, index, has_leading_overlap, reply, r),
{
    match interpret_reply(provider, reply) {
        Ok(text) => Ok(ChunkTranscription { index, text, has_leading_overlap }),
        Err(error) => Err(error),
    }
}

/// Transcribes one chunk. `send` carries the upload out.
pub fn transcribe_chunk<F: FnOnce(ProviderRequest) -> HttpReply>(
    provider: &TranscriptionProvider,
    api_key: &str,
    language: Option<&str>,
    chunk: AudioChunk,
    send: F,
) -> (r: Result<ChunkTranscription, TranscriptionError>)
    requires
        accepts(
            *provider,
            api_key@,
            hint_text(language),
            chunk_file_name(chunk.index as nat),
            chunk.data@,
            send,
        ),
    ensures
        exists|request: ProviderRequest, reply: HttpReply|
            {
                &&& request.carries(
                    *provider,
                    api_key@,
                    hint_text(language),
                    chunk_file_name(chunk.index as nat),
                    chunk.data@,
                )
                &&& #[trigger] send.ensures((request,), reply)
                &&& chunk_reply_gives(*provider, chunk.index, chunk.has_leading_overlap, reply, r)
            },
{
    let index = chunk.index;
    let has_leading_overlap = chunk.has_leading_overlap;
    let request = request_for_chunk(provider, api_key, language, chunk);
    let reply = send(request);
    interpret_chunk_reply(provider, index, has_leading_overlap, reply)
}

} // verus!
