use whis::provider::TranscriptionProvider;
use whis::settings::{
    check_mistral_key, choose_language, is_maskable, language_from_lowercase, mask_key,
    openai_key_is_valid, resolve_transcription_config, starts_with, LanguageChoice,
    MissingApiKey, MistralKeyError, Settings,
};

fn settings(
    provider: TranscriptionProvider,
    openai: Option<&str>,
    mistral: Option<&str>,
) -> Settings {
    Settings {
        provider,
        language: Some("en".to_string()),
        openai_api_key: openai.map(|s| s.to_string()),
        mistral_api_key: mistral.map(|s| s.to_string()),
        shortcut: "ctrl+shift+r".to_string(),
    }
}

fn mask_by_bytes(key: &str) -> String {
    if key.len() > 10 {
        format!("{}...{}", &key[..6], &key[key.len() - 4..])
    } else {
        "***".to_string()
    }
}

#[test]
fn stored_key_wins_over_the_environment() {
    let config = resolve_transcription_config(
        settings(TranscriptionProvider::OpenAI, Some("sk-stored"), Some("m-stored")),
        Some("sk-env".to_string()),
        Some("m-env".to_string()),
    )
    .unwrap();
    assert_eq!(config.provider, TranscriptionProvider::OpenAI);
    assert_eq!(config.api_key, "sk-stored");
    assert_eq!(config.language, Some("en".to_string()));
}

#[test]
fn environment_key_is_used_where_none_is_stored() {
    let config = resolve_transcription_config(
        settings(TranscriptionProvider::Mistral, Some("sk-stored"), None),
        Some("sk-env".to_string()),
        Some("m-env".to_string()),
    )
    .unwrap();
    assert_eq!(config.provider, TranscriptionProvider::Mistral);
    assert_eq!(config.api_key, "m-env");
}

#[test]
fn key_of_the_other_provider_does_not_count() {
    let missing = resolve_transcription_config(
        settings(TranscriptionProvider::Mistral, Some("sk-stored"), None),
        Some("sk-env".to_string()),
        None,
    )
    .unwrap_err();
    assert_eq!(missing, MissingApiKey { provider: TranscriptionProvider::Mistral });
    let missing = resolve_transcription_config(
        settings(TranscriptionProvider::OpenAI, None, Some("m")),
        None,
        Some("m-env".to_string()),
    )
    .unwrap_err();
    assert_eq!(missing, MissingApiKey { provider: TranscriptionProvider::OpenAI });
}

#[test]
fn missing_key_help_names_flag_and_variable() {
    let lines = MissingApiKey { provider: TranscriptionProvider::OpenAI }.help_lines();
    assert_eq!(
        lines,
        vec![
            "Error: No OpenAI API key configured.",
            "",
            "Set your key with:",
            "  whis config --openai-api-key YOUR_KEY",
            "",
            "Or set the OPENAI_API_KEY environment variable.",
        ]
    );
    let lines = MissingApiKey { provider: TranscriptionProvider::Mistral }.help_lines();
    assert_eq!(lines[0], "Error: No Mistral API key configured.");
    assert_eq!(lines[3], "  whis config --mistral-api-key YOUR_KEY");
    assert_eq!(lines[5], "Or set the MISTRAL_API_KEY environment variable.");
}

#[test]
fn language_is_auto_or_a_two_letter_code() {
    assert_eq!(choose_language("auto"), LanguageChoice::Auto);
    assert_eq!(choose_language("AUTO"), LanguageChoice::Auto);
    assert_eq!(choose_language("Auto"), LanguageChoice::Auto);
    assert_eq!(choose_language("en"), LanguageChoice::Code("en".to_string()));
    assert_eq!(choose_language("DE"), LanguageChoice::Code("de".to_string()));
    assert_eq!(choose_language("Fr"), LanguageChoice::Code("fr".to_string()));
}

#[test]
fn other_language_arguments_are_invalid() {
    let samples = ["", "e", "eng", "e1", "e ", " en", "\u{e9}", "\u{e9}n", "e\u{e9}", "a-", "auto "];
    for s in samples.iter() {
        assert_eq!(choose_language(s), LanguageChoice::Invalid, "{:?}", s);
    }
}

#[test]
fn lowered_language_is_not_lowered_again() {
    assert_eq!(language_from_lowercase("auto"), LanguageChoice::Auto);
    assert_eq!(language_from_lowercase("de"), LanguageChoice::Code("de".to_string()));
    assert_eq!(language_from_lowercase("DE"), LanguageChoice::Invalid);
    assert_eq!(language_from_lowercase("AUTO"), LanguageChoice::Invalid);
    assert_eq!(language_from_lowercase("az"), LanguageChoice::Code("az".to_string()));
    assert_eq!(language_from_lowercase("a{"), LanguageChoice::Invalid);
    assert_eq!(language_from_lowercase("`a"), LanguageChoice::Invalid);
}

#[test]
fn openai_keys_start_with_sk() {
    assert!(openai_key_is_valid("sk-abc"));
    assert!(openai_key_is_valid("sk-"));
    assert!(!openai_key_is_valid("sk"));
    assert!(!openai_key_is_valid(""));
    assert!(!openai_key_is_valid(" sk-abc"));
    assert!(!openai_key_is_valid("SK-abc"));
    assert!(!openai_key_is_valid("pk-abc"));
}

#[test]
fn prefix_test_matches_the_standard_library() {
    let samples = ["", "a", "ab", "abc", "b", "\u{e9}a", "\u{e9}"];
    for t in samples.iter() {
        for p in samples.iter() {
            assert_eq!(starts_with(t, p), t.starts_with(p));
        }
    }
}

#[test]
fn mistral_key_is_trimmed_and_measured_in_bytes() {
    assert_eq!(check_mistral_key(""), Err(MistralKeyError::Empty));
    assert_eq!(check_mistral_key(" \t\n"), Err(MistralKeyError::Empty));
    assert_eq!(check_mistral_key("short"), Err(MistralKeyError::TooShort));
    assert_eq!(check_mistral_key("1234567890123456789"), Err(MistralKeyError::TooShort));
    assert_eq!(
        check_mistral_key("12345678901234567890"),
        Ok("12345678901234567890".to_string())
    );
    assert_eq!(
        check_mistral_key("  12345678901234567890\n"),
        Ok("12345678901234567890".to_string())
    );
    assert_eq!(
        check_mistral_key("  1234567890123456789   "),
        Err(MistralKeyError::TooShort)
    );
    assert_eq!(
        check_mistral_key("\u{e9}\u{e9}\u{e9}\u{e9}\u{e9}\u{e9}\u{e9}\u{e9}\u{e9}\u{e9}"),
        Ok("\u{e9}\u{e9}\u{e9}\u{e9}\u{e9}\u{e9}\u{e9}\u{e9}\u{e9}\u{e9}".to_string())
    );
    assert_eq!(
        check_mistral_key("\u{e9}\u{e9}\u{e9}\u{e9}\u{e9}\u{e9}\u{e9}\u{e9}\u{e9}9"),
        Err(MistralKeyError::TooShort)
    );
}

#[test]
fn long_keys_show_their_ends() {
    assert_eq!(mask_key("sk-1234567890abcdef"), "sk-123...cdef");
    assert_eq!(mask_key("12345678901"), "123456...8901");
}

#[test]
fn short_keys_are_hidden_whole() {
    assert_eq!(mask_key(""), "***");
    assert_eq!(mask_key("sk-1"), "***");
    assert_eq!(mask_key("1234567890"), "***");
    assert_eq!(mask_key("\u{e9}\u{e9}\u{e9}\u{e9}\u{e9}"), "***");
}

#[test]
fn masking_cuts_at_bytes() {
    let samples = [
        "abcd\u{e9}fghijklmn",
        "\u{e9}\u{e9}\u{e9}middle\u{4e2d}x",
        "abcdef\u{1f600}\u{1f600}",
        "abcdefghi\u{e9}",
        "sk-proj-0123456789",
    ];
    for key in samples.iter() {
        assert!(is_maskable(key), "{:?}", key);
        assert_eq!(mask_key(key), mask_by_bytes(key));
    }
}

#[test]
fn keys_that_cannot_be_cut_are_not_maskable() {
    assert!(!is_maskable("abcde\u{e9}ghijklmn"));
    assert!(!is_maskable("abcdefghijk\u{4e2d}xy"));
    assert!(!is_maskable("\u{1f600}\u{1f600}\u{1f600}"));
    assert!(is_maskable("\u{e9}\u{e9}\u{e9}\u{e9}\u{e9}"));
    assert!(is_maskable("abcde\u{e9}"));
}
