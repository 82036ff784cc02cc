//! Choosing how a transcript reaches the clipboard.

use crate::text::same_text;
use vstd::prelude::*;

verus! {

/// The kind of desktop session.
#[derive(Debug, Clone, Copy, PartialEq, Eq, Structural)]
pub enum SessionType {
    X11,
    Wayland,
    Unknown,
}

/// The way a text is put on the clipboard.
#[derive(Debug, Clone, Copy, PartialEq, Eq, Structural)]
pub enum ClipboardRoute {
    /// Through the `wl-copy` program.
    WlCopy,
    /// Through the `xclip` program.
    Xclip,
    /// Through the clipboard library.
    Library,
}

/// The session that a value of `XDG_SESSION_TYPE` stands for.
pub open spec fn session_of(value: Option<&str>) -> SessionType {
    match value {
        Some(name) => if name@ == "x11"@ {
            SessionType::X11
        } else if name@ == "wayland"@ {
            SessionType::Wayland
        } else {
            SessionType::Unknown
        },
        None => SessionType::Unknown,
    }
}

/// The route for a session, inside or outside a Flatpak sandbox.
pub open spec fn route_of(is_flatpak: bool, session: SessionType) -> ClipboardRoute {
    if is_flatpak {
        ClipboardRoute::WlCopy
    } else if session == SessionType::X11 {
        ClipboardRoute::Xclip
    } else {
        ClipboardRoute::Library
    }
}

impl SessionType {
    /// The session's name: `x11`, `wayland` or `unknown`.
    pub open spec fn name_text(self) -> Seq<char> {
        match self {
            SessionType::X11 => "x11"@,
            SessionType::Wayland => "wayland"@,
            SessionType::Unknown => "unknown"@,
        }
    }

    /// The session's name: `x11`, `wayland` or `unknown`.
    pub fn name(&self) -> (r: &'static str)
        ensures
            r@ == self.name_text(),
    {
        match self {
            SessionType::X11 => "x11",
            SessionType::Wayland => "wayland",
            SessionType::Unknown => "unknown",
        }
    }
}

/// Reads the kind of session from the value of `XDG_SESSION_TYPE`. A value
/// other than `x11` and `wayland`, or none, is an unknown session.
pub fn session_type(value: Option<&str>) -> (r: SessionType)
    ensures
        r == session_of(value),
{
    match value {
        Some(name) => {
            if same_text(name, "x11") {
                SessionType::X11
            } else if same_text(name, "wayland") {
                SessionType::Wayland
            } else {
                SessionType::Unknown
            }
        },
        None => SessionType::Unknown,
    }
}

/// Chooses how a text is put on the clipboard.
///
/// Inside a Flatpak sandbox `wl-copy` is used, whatever the session. Outside
/// one, an X11 session uses `xclip` and every other session the clipboard
/// library.
pub fn clipboard_route(is_flatpak: bool, session: SessionType) -> (r: ClipboardRoute)
    ensures
        r == route_of(is_flatpak, session),
{
    if is_flatpak {
        ClipboardRoute::WlCopy
    } else {
        match session {
            SessionType::X11 => ClipboardRoute::Xclip,
            _ => ClipboardRoute::Library,
        }
    }
}

} // verus!
