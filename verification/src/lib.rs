//! Core state machine of a tiling window manager.
//!
//! The library models display-server resources (screens, workspaces,
//! managed windows) as plain data, and turns protocol events and user
//! commands into state transitions plus a list of outbound protocol
//! requests.  Everything that talks to the display server itself lives
//! outside the library; the library only decides.

pub mod commands;
pub mod config;
pub mod counter;
pub mod events;
pub mod layout;
pub mod protocol;
pub mod screeninfo;
pub mod state;
pub mod windowmanager;
pub mod workspace;
pub mod windowstate;

pub use commands::{GoToWorkspace, Movement, WmCommands};
pub use config::{Config, WmCommand};
pub use counter::EventCounter;
pub use events::{CommandEffect, IpcEvent, WmActionEvent, WmEvent};
pub use layout::Layout;
pub use protocol::{ErrorSeverity, KeyGrab, ProtocolErrorKind, WmRequest};
pub use screeninfo::ScreenInfo;
pub use state::{Command, Keybinding};
pub use windowmanager::{ScreenSetup, WindowManager, WindowManagerState};
pub use workspace::Workspace;
pub use windowstate::OxideWindow;
