//! Stored settings, and the rules that new values are held to.

use crate::provider::TranscriptionProvider;
use crate::text::{
    from_chars, lowercase, lowercase_of, push_text, same_text, texts, to_chars, trim,
    trim_chars,
};
use vstd::prelude::*;
use vstd::utf8::{decode_utf8, encode_utf8, encode_utf8_decode_utf8, is_char_boundary};

verus! {

/// Shortest Mistral key that is accepted, in bytes.
pub const MIN_MISTRAL_KEY_BYTES: usize = 20;

/// The settings that are kept between runs.
#[derive(Debug)]
pub struct Settings {
    /// The provider that recordings are sent to.
    pub provider: TranscriptionProvider,
    /// The language hint; `None` lets the provider detect the language.
    pub language: Option<String>,
    /// The stored OpenAI key.
    pub openai_api_key: Option<String>,
    /// The stored Mistral key.
    pub mistral_api_key: Option<String>,
    /// The hotkey of the background service.
    pub shortcut: String,
}

/// What a transcription needs to know: the provider, its key, and the
/// language hint.
#[derive(Debug)]
pub struct TranscriptionConfig {
    pub provider: TranscriptionProvider,
    pub api_key: String,
    pub language: Option<String>,
}

/// No key is known for the chosen provider.
#[derive(Debug, Clone, Copy, PartialEq, Eq, Structural)]
pub struct MissingApiKey {
    pub provider: TranscriptionProvider,
}

impl MissingApiKey {
    /// The name of the argument that sets the provider's key.
    pub open spec fn flag_text(self) -> Seq<char> {
        match self.provider {
            TranscriptionProvider::OpenAI => "--openai-api-key"@,
            TranscriptionProvider::Mistral => "--mistral-api-key"@,
        }
    }

    /// The name of the environment variable that may hold the provider's key.
    pub open spec fn variable_text(self) -> Seq<char> {
        match self.provider {
            TranscriptionProvider::OpenAI => "OPENAI_API_KEY"@,
            TranscriptionProvider::Mistral => "MISTRAL_API_KEY"@,
        }
    }

    /// The lines that tell the user how to supply the key.
    pub open spec fn help(self) -> Seq<Seq<char>> {
        seq![
            "Error: No "@ + self.provider.label_text() + " API key configured."@,
            ""@,
            "Set your key with:"@,
            "  whis config "@ + self.flag_text() + " YOUR_KEY"@,
            ""@,
            "Or set the "@ + self.variable_text() + " environment variable."@,
        ]
    }

    /// Writes the lines that tell the user how to supply the key.
    pub fn help_lines(&self) -> (lines: Vec<String>)
        ensures
            texts(lines@) == self.help(),
    {
        let (flag, variable) = match self.provider {
            TranscriptionProvider::OpenAI => ("--openai-api-key", "OPENAI_API_KEY"),
            TranscriptionProvider::Mistral => ("--mistral-api-key", "MISTRAL_API_KEY"),
        };
        let mut first: Vec<char> = Vec::new();
        push_text(&mut first, "Error: No ");
        push_text(&mut first, self.provider.label());
        push_text(&mut first, " API key configured.");
        let mut fourth: Vec<char> = Vec::new();
        push_text(&mut fourth, "  whis config ");
        push_text(&mut fourth, flag);
        push_text(&mut fourth, " YOUR_KEY");
        let mut last: Vec<char> = Vec::new();
        push_text(&mut last, "Or set the ");
        push_text(&mut last, variable);
        push_text(&mut last, " environment variable.");
        let mut lines: Vec<String> = Vec::new();
        lines.push(from_chars(&first));
        lines.push(String::from_str(""));
        lines.push(String::from_str("Set your key with:"));
        lines.push(from_chars(&fourth));
        lines.push(String::from_str(""));
        lines.push(from_chars(&last));
        lines
    }
}

/// What a language argument asks for.
#[derive(Debug, PartialEq, Eq)]
pub enum LanguageChoice {
    /// Let the provider detect the language.
    Auto,
    /// Hint at the language with this two-letter code.
    Code(String),
    /// The argument is neither `auto` nor a two-letter code.
    Invalid,
}

/// Why a Mistral key is not accepted.
#[derive(Debug, Clone, Copy, PartialEq, Eq, Structural)]
pub enum MistralKeyError {
    /// Nothing is left of the key once it is trimmed.
    Empty,
    /// The trimmed key is shorter than the shortest key that is accepted.
    TooShort,
}

/// The stored key if there is one, else the key from the environment.
pub open spec fn preferred_key(stored: Option<String>, environment: Option<String>) -> Option<
    String,
> {
    match stored {
        Some(key) => Some(key),
        None => environment,
    }
}

/// What the settings and the environment give for a transcription.
pub open spec fn resolved(
    settings: Settings,
    openai_environment: Option<String>,
    mistral_environment: Option<String>,
) -> Result<TranscriptionConfig, MissingApiKey> {
    let key = match settings.provider {
        TranscriptionProvider::OpenAI => preferred_key(
            settings.openai_api_key,
            openai_environment,
        ),
        TranscriptionProvider::Mistral => preferred_key(
            settings.mistral_api_key,
            mistral_environment,
        ),
    };
    match key {
        Some(api_key) => Ok(
            TranscriptionConfig {
                provider: settings.provider,
                api_key,
                language: settings.language,
            },
        ),
        None => Err(MissingApiKey { provider: settings.provider }),
    }
}

/// Finds the provider, key and language hint for a transcription.
///
/// The key is the one stored for the chosen provider. Where none is stored,
/// it is the one that the environment holds for that provider
/// (`OPENAI_API_KEY`, `MISTRAL_API_KEY`). Where neither is there, the key is
/// missing.
pub fn resolve_transcription_config(
    settings: Settings,
    openai_environment: Option<String>,
    mistral_environment: Option<String>,
) -> (r: Result<TranscriptionConfig, MissingApiKey>)
    ensures
        r == resolved(settings, openai_environment, mistral_environment),
{
    let provider = settings.provider;
    let key = match provider {
        TranscriptionProvider::OpenAI => match settings.openai_api_key {
            Some(key) => Some(key),
            None => openai_environment,
        },
        TranscriptionProvider::Mistral => match settings.mistral_api_key {
            Some(key) => Some(key),
            None => mistral_environment,
        },
    };
    match key {
        Some(api_key) => Ok(TranscriptionConfig { provider, api_key, language: settings.language }),
        None => Err(MissingApiKey { provider }),
    }
}

/// Whether a text in lower case is a two-letter language code: two bytes
/// long, each an ASCII lower-case letter.
pub open spec fn is_language_code(lowered: Seq<char>) -> bool {
    &&& encode_utf8(lowered).len() == 2
    &&& forall|i: int| 0 <= i < lowered.len() ==> 'a' <= #[trigger] lowered[i] <= 'z'
}

/// Whether `choice` is what a language argument in lower case asks for.
pub open spec fn language_chosen(lowered: Seq<char>, choice: LanguageChoice) -> bool {
    if lowered == "auto"@ {
        choice == LanguageChoice::Auto
    } else if is_language_code(lowered) {
        choice matches LanguageChoice::Code(code) && code@ == lowered
    } else {
        choice == LanguageChoice::Invalid
    }
}

/// Reads a language argument that has been brought to lower case.
pub fn language_from_lowercase(lowered: &str) -> (r: LanguageChoice)
    ensures
        language_chosen(lowered@, r),
{
    if same_text(lowered, "auto") {
        return LanguageChoice::Auto;
    }
    if lowered.as_bytes().len() != 2 {
        return LanguageChoice::Invalid;
    }
    let chars = to_chars(lowered);
    let mut i: usize = 0;
    while i < chars.len()
        invariant
            i <= chars.len(),
            chars@ == lowered@,
            lowered@ != "auto"@,
            forall|k: int| 0 <= k < i ==> 'a' <= #[trigger] chars@[k] <= 'z',
        decreases chars.len() - i,
    {
        let c = chars[i];
        if !('a' <= c && c <= 'z') {
            return LanguageChoice::Invalid;
        }
        i += 1;
    }
    LanguageChoice::Code(from_chars(&chars))
}

/// Reads a language argument: `auto`, or a two-letter code, in any letter
/// case.
pub fn choose_language(given: &str) -> (r: LanguageChoice)
    ensures
        language_chosen(lowercase_of(given@), r),
{
    let lowered = lowercase(given);
    language_from_lowercase(lowered.as_str())
}

/// Tells whether `text` starts with `prefix`.
pub fn starts_with(text: &str, prefix: &str) -> (r: bool)
    ensures
        r == prefix@.is_prefix_of(text@),
{
    let t = to_chars(text);
    let p = to_chars(prefix);
    if p.len() > t.len() {
        return false;
    }
    let mut i: usize = 0;
    while i < p.len()
        invariant
            i <= p.len() <= t.len(),
            p@ == prefix@,
            t@ == text@,
            forall|k: int| 0 <= k < i ==> p@[k] == t@[k],
        decreases p.len() - i,
    {
        if p[i] != t[i] {
            return false;
        }
        i += 1;
    }
    true
}

/// Whether a text is accepted as an OpenAI key: it starts with `sk-`.
pub open spec fn is_openai_key(key: Seq<char>) -> bool {
    "sk-"@.is_prefix_of(key)
}

/// Tells whether a text is accepted as an OpenAI key.
pub fn openai_key_is_valid(key: &str) -> (r: bool)
    ensures
        r == is_openai_key(key@),
{
    starts_with(key, "sk-")
}

/// Whether `r` is what a Mistral key argument gives: the trimmed key, unless
/// nothing is left of it or it has fewer bytes than are asked for.
pub open spec fn mistral_key_checked(key: Seq<char>, r: Result<String, MistralKeyError>) -> bool {
    let trimmed = trim(key);
    if trimmed.len() == 0 {
        r == Err::<String, MistralKeyError>(MistralKeyError::Empty)
    } else if encode_utf8(trimmed).len() < MIN_MISTRAL_KEY_BYTES {
        r == Err::<String, MistralKeyError>(MistralKeyError::TooShort)
    } else {
        r matches Ok(kept) && kept@ == trimmed
    }
}

/// Checks a Mistral key argument and trims it.
pub fn check_mistral_key(key: &str) -> (r: Result<String, MistralKeyError>)
    ensures
        mistral_key_checked(key@, r),
{
    let trimmed = from_chars(&trim_chars(&to_chars(key)));
    if trimmed.as_str().is_empty() {
        Err(MistralKeyError::Empty)
    } else if trimmed.as_str().as_bytes().len() < MIN_MISTRAL_KEY_BYTES {
        Err(MistralKeyError::TooShort)
    } else {
        Ok(trimmed)
    }
}

/// Whether a key can be masked: a key of more than ten bytes has a character
/// boundary after its sixth byte and before its last four bytes.
pub open spec fn maskable(key: Seq<char>) -> bool {
    let bytes = encode_utf8(key);
    bytes.len() > 10 ==> is_char_boundary(bytes, 6) && is_char_boundary(bytes, bytes.len() - 4)
}

/// A key with its middle left out: its first six bytes, three dots, and its
/// last four bytes. A key of ten bytes or fewer is hidden whole.
pub open spec fn masked(key: Seq<char>) -> Seq<char> {
    let bytes = encode_utf8(key);
    if bytes.len() > 10 {
        decode_utf8(bytes.subrange(0, 6)) + "..."@ + decode_utf8(
            bytes.subrange(bytes.len() - 4, bytes.len() as int),
        )
    } else {
        "***"@
    }
}

/// Tells whether a key can be masked.
pub fn is_maskable(key: &str) -> (r: bool)
    ensures
        r == maskable(key@),
{
    let n = key.as_bytes().len();
    if n > 10 {
        key.is_char_boundary(6) && key.is_char_boundary(n - 4)
    } else {
        true
    }
}

/// Masks a key for display.
pub fn mask_key(key: &str) -> (r: String)
    requires
        maskable(key@),
    ensures
        r@ == masked(key@),
{
    let n = key.as_bytes().len();
    let mut shown: Vec<char> = Vec::new();
    if n > 10 {
        let (head, _) = key.split_at(6);
        let (_, tail) = key.split_at(n - 4);
        proof {
            encode_utf8_decode_utf8(head@);
            encode_utf8_decode_utf8(tail@);
        }
        push_text(&mut shown, head);
        push_text(&mut shown, "...");
        push_text(&mut shown, tail);
    } else {
        push_text(&mut shown, "***");
    }
    from_chars(&shown)
}

} // verus!
