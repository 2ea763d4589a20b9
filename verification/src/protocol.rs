//! Plain-value model of the display-protocol surface the manager
//! drives: outbound requests the state machine decides to issue, key
//! grabs it wants registered, and the severity of protocol errors.
//!
//! The state machine never talks to the display server itself; it
//! returns values of these types and the surrounding process performs
//! them.

use vstd::prelude::*;

verus! {

/// One outbound display-protocol request, decided by the state
/// machine and performed by the caller.
#[derive(Clone, Copy, Debug, PartialEq, Eq, Structural)]
pub enum WmRequest {
    /// Move and resize a window.
    Configure { window: u32, x: i32, y: i32, width: u32, height: u32 },
    /// Make a window visible.
    MapWindow { window: u32 },
    /// Make a window invisible.
    UnmapWindow { window: u32 },
    /// Ask a client window to close.
    Kill { window: u32 },
}

/// One key grab to register on a screen root: redirect the key with
/// this code, under exactly this modifier mask, to the manager.
#[derive(Clone, Copy, Debug, PartialEq, Eq, Structural)]
pub struct KeyGrab {
    pub root: u32,
    pub mask: u16,
    pub code: u8,
}

/// A resolved keybinding as the configuration collaborator hands it
/// over: the modifier mask and the key code to grab.
#[derive(Clone, Copy, Debug, PartialEq, Eq, Structural)]
pub struct KeyCode {
    pub mask: u16,
    pub code: u8,
}

/// The secondary modifier mask (the numlock-style modifier): every
/// grab is registered once without it and once with it, so bindings
/// keep working whatever its state.
pub const MOD_MASK_SECONDARY: u16 = 16;

/// The kinds of display-protocol error the manager distinguishes.
/// `Access` is the server refusing an attribute change because another
/// client already holds manager privileges; everything else is some
/// request acting on a stale or invalid resource.
#[derive(Clone, Copy, Debug, PartialEq, Eq, Structural)]
pub enum ProtocolErrorKind {
    Access,
    Window,
    Drawable,
    Match,
    Value,
    Other,
}

/// What a failed protocol request means for the process.
#[derive(Clone, Copy, Debug, PartialEq, Eq, Structural)]
pub enum ErrorSeverity {
    /// Another client owns the window-manager role: give up
    /// immediately, before any screen or workspace state is built.
    Fatal,
    /// A benign race (a window disappeared, a stale id): log and
    /// carry on.
    Recoverable,
}

impl ErrorSeverity {
    /// True exactly for the fatal case.
    pub fn is_fatal(&self) -> (r: bool)
        ensures
            r == (*self == ErrorSeverity::Fatal),
    {
        match self {
            ErrorSeverity::Fatal => true,
            ErrorSeverity::Recoverable => false,
        }
    }
}

/// Decides how a failed protocol request is treated: access denied is
/// fatal, because it means another window manager already owns the
/// role; every other error is recoverable and only logged.
pub fn classify_protocol_error(kind: ProtocolErrorKind) -> (r: ErrorSeverity)
    ensures
        r == ErrorSeverity::Fatal <==> kind == ProtocolErrorKind::Access,
{
    match kind {
        ProtocolErrorKind::Access => ErrorSeverity::Fatal,
        _ => ErrorSeverity::Recoverable,
    }
}

} // verus!
