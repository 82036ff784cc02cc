//! Changing and showing the settings.
//!
//! A request is worked off argument by argument: provider, language, OpenAI
//! key, Mistral key. Each accepted argument changes the settings and adds a
//! notice. The first argument that is not accepted ends the request; the
//! notices before it stand. Nothing is read or written here: the plan says
//! what is to be printed and done.

use crate::provider::{parse_provider, unknown_provider_text, TranscriptionProvider};
use crate::settings::{
    check_mistral_key, choose_language, is_language_code, is_openai_key, mask_key, maskable,
    masked, openai_key_is_valid, LanguageChoice, MistralKeyError, Settings,
    MIN_MISTRAL_KEY_BYTES,
};
use crate::text::{from_chars, lowercase_of, optional_text, push_text, texts, trim};
use vstd::prelude::*;
use vstd::utf8::encode_utf8;

verus! {

/// The arguments of a configuration request.
#[derive(Debug)]
pub struct ConfigRequest {
    pub openai_api_key: Option<String>,
    pub mistral_api_key: Option<String>,
    pub provider: Option<String>,
    pub language: Option<String>,
    pub show: bool,
}

/// What is to be done once the notices are printed.
#[derive(Debug)]
pub enum ConfigAction {
    /// Store these settings.
    Save { settings: Settings },
    /// Show these settings.
    Show { settings: Settings },
    /// Nothing was asked for: explain the command and fail.
    Usage,
    /// An argument was not accepted: print the message and fail.
    Reject { message: String },
}

/// What a configuration request leads to.
#[derive(Debug)]
pub struct ConfigPlan {
    /// The lines to print first, in order.
    pub notices: Vec<String>,
    /// What to do then.
    pub action: ConfigAction,
}

/// Settings as plain values.
pub struct SettingsModel {
    pub provider: TranscriptionProvider,
    pub language: Option<Seq<char>>,
    pub openai_api_key: Option<Seq<char>>,
    pub mistral_api_key: Option<Seq<char>>,
    pub shortcut: Seq<char>,
}

/// A request as plain values.
pub struct RequestModel {
    pub openai_api_key: Option<Seq<char>>,
    pub mistral_api_key: Option<Seq<char>>,
    pub provider: Option<Seq<char>>,
    pub language: Option<Seq<char>>,
    pub show: bool,
}

/// An action as plain values.
pub enum ActionModel {
    Save { settings: SettingsModel },
    Show { settings: SettingsModel },
    Usage,
    Reject { message: Seq<char> },
}

/// A plan as plain values.
pub struct PlanModel {
    pub notices: Seq<Seq<char>>,
    pub action: ActionModel,
}

/// A request that is partly worked off.
pub struct DraftModel {
    pub settings: SettingsModel,
    pub notices: Seq<Seq<char>>,
    pub changed: bool,
    pub rejection: Option<Seq<char>>,
}

impl View for Settings {
    type V = SettingsModel;

    open spec fn view(&self) -> SettingsModel {
        SettingsModel {
            provider: self.provider,
            language: optional_text(self.language),
            openai_api_key: optional_text(self.openai_api_key),
            mistral_api_key: optional_text(self.mistral_api_key),
            shortcut: self.shortcut@,
        }
    }
}

impl View for ConfigRequest {
    type V = RequestModel;

    open spec fn view(&self) -> RequestModel {
        RequestModel {
            openai_api_key: optional_text(self.openai_api_key),
            mistral_api_key: optional_text(self.mistral_api_key),
            provider: optional_text(self.provider),
            language: optional_text(self.language),
            show: self.show,
        }
    }
}

impl View for ConfigAction {
    type V = ActionModel;

    open spec fn view(&self) -> ActionModel {
        match *self {
            ConfigAction::Save { settings } => ActionModel::Save { settings: settings@ },
            ConfigAction::Show { settings } => ActionModel::Show { settings: settings@ },
            ConfigAction::Usage => ActionModel::Usage,
            ConfigAction::Reject { message } => ActionModel::Reject { message: message@ },
        }
    }
}

impl View for ConfigPlan {
    type V = PlanModel;

    open spec fn view(&self) -> PlanModel {
        PlanModel { notices: texts(self.notices@), action: self.action@ }
    }
}

/// The draft with one more notice.
pub open spec fn noted(draft: DraftModel, notice: Seq<char>) -> DraftModel {
    DraftModel { notices: draft.notices.push(notice), changed: true, ..draft }
}

/// The draft, ended by an argument that is not accepted.
pub open spec fn rejected(draft: DraftModel, message: Seq<char>) -> DraftModel {
    DraftModel { rejection: Some(message), ..draft }
}

/// The draft after the provider argument.
pub open spec fn with_provider(draft: DraftModel, provider: Option<Seq<char>>) -> DraftModel {
    if draft.rejection is Some || provider is None {
        draft
    } else {
        let given = provider->0;
        let lowered = lowercase_of(given);
        if lowered == "openai"@ {
            noted(
                DraftModel {
                    settings: SettingsModel {
                        provider: TranscriptionProvider::OpenAI,
                        ..draft.settings
                    },
                    ..draft
                },
                "Provider set to: "@ + given,
            )
        } else if lowered == "mistral"@ {
            noted(
                DraftModel {
                    settings: SettingsModel {
                        provider: TranscriptionProvider::Mistral,
                        ..draft.settings
                    },
                    ..draft
                },
                "Provider set to: "@ + given,
            )
        } else {
            rejected(draft, unknown_provider_text(given))
        }
    }
}

/// The draft after the language argument.
pub open spec fn with_language(draft: DraftModel, language: Option<Seq<char>>) -> DraftModel {
    if draft.rejection is Some || language is None {
        draft
    } else {
        let lowered = lowercase_of(language->0);
        if lowered == "auto"@ {
            noted(
                DraftModel {
                    settings: SettingsModel { language: None, ..draft.settings },
                    ..draft
                },
                "Language set to: auto-detect"@,
            )
        } else if is_language_code(lowered) {
            noted(
                DraftModel {
                    settings: SettingsModel { language: Some(lowered), ..draft.settings },
                    ..draft
                },
                "Language set to: "@ + lowered,
            )
        } else {
            rejected(
                draft,
                "Invalid language code. Use ISO-639-1 format (e.g., 'en', 'de', 'fr') or 'auto'"@,
            )
        }
    }
}

/// The draft after the OpenAI key argument.
pub open spec fn with_openai_key(draft: DraftModel, key: Option<Seq<char>>) -> DraftModel {
    if draft.rejection is Some || key is None {
        draft
    } else if is_openai_key(key->0) {
        noted(
            DraftModel {
                settings: SettingsModel { openai_api_key: key, ..draft.settings },
                ..draft
            },
            "OpenAI API key saved"@,
        )
    } else {
        rejected(draft, "Invalid key format. OpenAI keys start with 'sk-'"@)
    }
}

/// The draft after the Mistral key argument.
pub open spec fn with_mistral_key(draft: DraftModel, key: Option<Seq<char>>) -> DraftModel {
    if draft.rejection is Some || key is None {
        draft
    } else {
        let trimmed = trim(key->0);
        if trimmed.len() == 0 {
            rejected(draft, "Invalid Mistral API key: cannot be empty"@)
        } else if encode_utf8(trimmed).len() < MIN_MISTRAL_KEY_BYTES {
            rejected(draft, "Invalid Mistral API key: key appears too short"@)
        } else {
            noted(
                DraftModel {
                    settings: SettingsModel { mistral_api_key: Some(trimmed), ..draft.settings },
                    ..draft
                },
                "Mistral API key saved"@,
            )
        }
    }
}

/// What a request leads to, given the settings as they are stored.
///
/// The arguments are worked off in the order provider, language, OpenAI key,
/// Mistral key. If one is not accepted the request is rejected. If any was
/// accepted the changed settings are saved. Else the settings are shown if
/// that was asked for, and the command is explained if not.
pub open spec fn planned(settings: SettingsModel, request: RequestModel) -> PlanModel {
    let start = DraftModel { settings, notices: Seq::empty(), changed: false, rejection: None };
    let draft = with_mistral_key(
        with_openai_key(
            with_language(with_provider(start, request.provider), request.language),
            request.openai_api_key,
        ),
        request.mistral_api_key,
    );
    PlanModel {
        notices: draft.notices,
        action: match draft.rejection {
            Some(message) => ActionModel::Reject { message },
            None => if draft.changed {
                ActionModel::Save { settings: draft.settings }
            } else if request.show {
                ActionModel::Show { settings: draft.settings }
            } else {
                ActionModel::Usage
            },
        },
    }
}

/// A request that is partly worked off.
struct Draft {
    settings: Settings,
    notices: Vec<String>,
    changed: bool,
    rejection: Option<String>,
}

impl View for Draft {
    type V = DraftModel;

    closed spec fn view(&self) -> DraftModel {
        DraftModel {
            settings: self.settings@,
            notices: texts(self.notices@),
            changed: self.changed,
            rejection: optional_text(self.rejection),
        }
    }
}

impl Draft {
    /// Adds a notice and marks the settings as changed.
    fn note(&mut self, notice: String)
        ensures
            final(self)@ == noted(old(self)@, notice@),
    {
        let ghost before = self.notices@;
        self.notices.push(notice);
        self.changed = true;
        assert(texts(self.notices@) == texts(before).push(notice@));
    }

    /// Ends the request with a message.
    fn reject(&mut self, message: &str)
        ensures
            final(self)@ == rejected(old(self)@, message@),
    {
        self.rejection = Some(String::from_str(message));
    }
}

/// `head` followed by `tail`.
fn joined(head: &str, tail: &str) -> (r: String)
    ensures
        r@ == head@ + tail@,
{
    let mut acc: Vec<char> = Vec::new();
    push_text(&mut acc, head);
    push_text(&mut acc, tail);
    from_chars(&acc)
}

/// Works off the provider argument.
fn apply_provider(draft: &mut Draft, provider: Option<String>)
    ensures
        final(draft)@ == with_provider(old(draft)@, optional_text(provider)),
{
    if draft.rejection.is_some() {
        return;
    }
    if let Some(given) = provider {
        match parse_provider(given.as_str()) {
            Ok(chosen) => {
                draft.settings.provider = chosen;
                draft.note(joined("Provider set to: ", given.as_str()));
            },
            Err(message) => {
                draft.rejection = Some(message);
            },
        }
    }
}

/// Works off the language argument.
fn apply_language(draft: &mut Draft, language: Option<String>)
    ensures
        final(draft)@ == with_language(old(draft)@, optional_text(language)),
{
    if draft.rejection.is_some() {
        return;
    }
    if let Some(given) = language {
        match choose_language(given.as_str()) {
            LanguageChoice::Auto => {
                draft.settings.language = None;
                draft.note(String::from_str("Language set to: auto-detect"));
            },
            LanguageChoice::Code(code) => {
                let notice = joined("Language set to: ", code.as_str());
                draft.settings.language = Some(code);
                draft.note(notice);
            },
            LanguageChoice::Invalid => {
                draft.reject(
                    "Invalid language code. Use ISO-639-1 format (e.g., 'en', 'de', 'fr') or 'auto'",
                );
            },
        }
    }
}

/// Works off the OpenAI key argument.
fn apply_openai_key(draft: &mut Draft, key: Option<String>)
    ensures
        final(draft)@ == with_openai_key(old(draft)@, optional_text(key)),
{
    if draft.rejection.is_some() {
        return;
    }
    if let Some(given) = key {
        if openai_key_is_valid(given.as_str()) {
            draft.settings.openai_api_key = Some(given);
            draft.note(String::from_str("OpenAI API key saved"));
        } else {
            draft.reject("Invalid key format. OpenAI keys start with 'sk-'");
        }
    }
}

/// Works off the Mistral key argument.
fn apply_mistral_key(draft: &mut Draft, key: Option<String>)
    ensures
        final(draft)@ == with_mistral_key(old(draft)@, optional_text(key)),
{
    if draft.rejection.is_some() {
        return;
    }
    if let Some(given) = key {
        match check_mistral_key(given.as_str()) {
            Ok(trimmed) => {
                draft.settings.mistral_api_key = Some(trimmed);
                draft.note(String::from_str("Mistral API key saved"));
            },
            Err(MistralKeyError::Empty) => {
                draft.reject("Invalid Mistral API key: cannot be empty");
            },
            Err(MistralKeyError::TooShort) => {
                draft.reject("Invalid Mistral API key: key appears too short");
            },
        }
    }
}

/// Plans a configuration request against the settings as they are stored.
pub fn plan_config(settings: Settings, request: ConfigRequest) -> (plan: ConfigPlan)
    ensures
        plan@ == planned(settings@, request@),
{
    let show = request.show;
    let mut draft = Draft { settings, notices: Vec::new(), changed: false, rejection: None };
    assert(texts(draft.notices@) == Seq::<Seq<char>>::empty());
    apply_provider(&mut draft, request.provider);
    apply_language(&mut draft, request.language);
    apply_openai_key(&mut draft, request.openai_api_key);
    apply_mistral_key(&mut draft, request.mistral_api_key);
    let action = match draft.rejection {
        Some(message) => ConfigAction::Reject { message },
        None => if draft.changed {
            ConfigAction::Save { settings: draft.settings }
        } else if show {
            ConfigAction::Show { settings: draft.settings }
        } else {
            ConfigAction::Usage
        },
    };
    ConfigPlan { notices: draft.notices, action }
}

/// The line that shows a key, masked, or says that none is stored.
pub open spec fn key_line(label: Seq<char>, variable: Seq<char>, key: Option<Seq<char>>) -> Seq<
    char,
> {
    match key {
        Some(stored) => label + " API key: "@ + masked(stored),
        None => label + " API key: (not set, using $"@ + variable + ")"@,
    }
}

/// The lines that show the settings kept in the file at `config_path`.
pub open spec fn shown(settings: SettingsModel, config_path: Seq<char>) -> Seq<Seq<char>> {
    seq![
        "Config file: "@ + config_path,
        "Provider: "@ + settings.provider.name_text(),
        "Language: "@ + match settings.language {
            Some(code) => code,
            None => "auto-detect"@,
        },
        "Shortcut: "@ + settings.shortcut,
        key_line("OpenAI"@, "OPENAI_API_KEY"@, settings.openai_api_key),
        key_line("Mistral"@, "MISTRAL_API_KEY"@, settings.mistral_api_key),
    ]
}

/// Whether the stored keys can be masked.
pub open spec fn keys_maskable(settings: SettingsModel) -> bool {
    &&& settings.openai_api_key matches Some(key) ==> maskable(key)
    &&& settings.mistral_api_key matches Some(key) ==> maskable(key)
}

/// Writes the line that shows a key.
fn show_key(label: &str, variable: &str, key: &Option<String>) -> (r: String)
    requires
        key matches Some(stored) ==> maskable(stored@),
    ensures
        r@ == key_line(label@, variable@, optional_text(*key)),
{
    let mut line: Vec<char> = Vec::new();
    push_text(&mut line, label);
    match key {
        Some(stored) => {
            push_text(&mut line, " API key: ");
            let hidden = mask_key(stored.as_str());
            push_text(&mut line, hidden.as_str());
        },
        None => {
            push_text(&mut line, " API key: (not set, using $");
            push_text(&mut line, variable);
            push_text(&mut line, ")");
        },
    }
    from_chars(&line)
}

/// Writes the lines that show the settings. Keys are masked.
pub fn show_lines(settings: &Settings, config_path: &str) -> (lines: Vec<String>)
    requires
        keys_maskable(settings@),
    ensures
        texts(lines@) == shown(settings@, config_path@),
{
    let mut lines: Vec<String> = Vec::new();
    lines.push(joined("Config file: ", config_path));
    lines.push(joined("Provider: ", settings.provider.name()));
    let language = match &settings.language {
        Some(code) => joined("Language: ", code.as_str()),
        None => joined("Language: ", "auto-detect"),
    };
    lines.push(language);
    lines.push(joined("Shortcut: ", settings.shortcut.as_str()));
    lines.push(show_key("OpenAI", "OPENAI_API_KEY", &settings.openai_api_key));
    lines.push(show_key("Mistral", "MISTRAL_API_KEY", &settings.mistral_api_key));
    lines
}

/// Tells whether the stored keys can be masked.
pub fn keys_are_maskable(settings: &Settings) -> (r: bool)
    ensures
        r == keys_maskable(settings@),
{
    let openai = match &settings.openai_api_key {
        Some(key) => crate::settings::is_maskable(key.as_str()),
        None => true,
    };
    let mistral = match &settings.mistral_api_key {
        Some(key) => crate::settings::is_maskable(key.as_str()),
        None => true,
    };
    openai && mistral
}

/// The line that confirms that the settings were stored at `config_path`.
pub fn saved_line(config_path: &str) -> (r: String)
    ensures
        r@ == "Config saved to "@ + config_path@,
{
    joined("Config saved to ", config_path)
}

/// The lines that explain the command.
pub open spec fn usage() -> Seq<Seq<char>> {
    seq![
        "Usage:"@,
        "  whis config --provider <openai|mistral>"@,
        "  whis config --language <en|de|fr|...|auto>"@,
        "  whis config --openai-api-key <KEY>"@,
        "  whis config --mistral-api-key <KEY>"@,
        "  whis config --show"@,
    ]
}

/// Writes the lines that explain the command.
pub fn usage_lines() -> (lines: Vec<String>)
    ensures
        texts(lines@) == usage(),
{
    let mut lines: Vec<String> = Vec::new();
    lines.push(String::from_str("Usage:"));
    lines.push(String::from_str("  whis config --provider <openai|mistral>"));
    lines.push(String::from_str("  whis config --language <en|de|fr|...|auto>"));
    lines.push(String::from_str("  whis config --openai-api-key <KEY>"));
    lines.push(String::from_str("  whis config --mistral-api-key <KEY>"));
    lines.push(String::from_str("  whis config --show"));
    lines
}

} // verus!
