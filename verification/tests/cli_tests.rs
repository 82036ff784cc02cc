use whis::cli::{Cli, Commands, Task, DEFAULT_HOTKEY};
use whis::clipboard::{clipboard_route, session_type, ClipboardRoute, SessionType};

#[test]
fn no_subcommand_records_once() {
    assert_eq!(Cli { verbose: true, command: None }.task(), Task::RecordOnce);
}

#[test]
fn subcommands_name_their_task() {
    let listen = Cli { verbose: false, command: Some(Commands::Listen { hotkey: DEFAULT_HOTKEY.to_string() }) };
    assert_eq!(listen.task(), Task::Listen);
    assert_eq!(Cli { verbose: false, command: Some(Commands::Stop) }.task(), Task::Stop);
    assert_eq!(Cli { verbose: false, command: Some(Commands::Status) }.task(), Task::Status);
    let config = Commands::Config {
        openai_api_key: None,
        mistral_api_key: None,
        provider: None,
        language: None,
        show: true,
    };
    assert_eq!(Cli { verbose: false, command: Some(config) }.task(), Task::Config);
    assert_eq!(DEFAULT_HOTKEY, "ctrl+shift+r");
}

#[test]
fn session_is_read_from_its_name() {
    assert_eq!(session_type(Some("x11")), SessionType::X11);
    assert_eq!(session_type(Some("wayland")), SessionType::Wayland);
    assert_eq!(session_type(Some("tty")), SessionType::Unknown);
    assert_eq!(session_type(Some("X11")), SessionType::Unknown);
    assert_eq!(session_type(Some("")), SessionType::Unknown);
    assert_eq!(session_type(None), SessionType::Unknown);
}

#[test]
fn sessions_have_names() {
    assert_eq!(SessionType::X11.name(), "x11");
    assert_eq!(SessionType::Wayland.name(), "wayland");
    assert_eq!(SessionType::Unknown.name(), "unknown");
}

#[test]
fn flatpak_always_uses_wl_copy() {
    assert_eq!(clipboard_route(true, SessionType::X11), ClipboardRoute::WlCopy);
    assert_eq!(clipboard_route(true, SessionType::Wayland), ClipboardRoute::WlCopy);
    assert_eq!(clipboard_route(true, SessionType::Unknown), ClipboardRoute::WlCopy);
}

#[test]
fn outside_flatpak_the_session_decides() {
    assert_eq!(clipboard_route(false, SessionType::X11), ClipboardRoute::Xclip);
    assert_eq!(clipboard_route(false, SessionType::Wayland), ClipboardRoute::Library);
    assert_eq!(clipboard_route(false, SessionType::Unknown), ClipboardRoute::Library);
}
