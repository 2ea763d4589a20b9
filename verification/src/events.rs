//! The single dispatch point: each inbound protocol event maps to
//! exactly one manager entry point, each external command to exactly
//! one command handler.  Unrecognised events are silently ignored,
//! and a command whose argument does not parse degrades to a no-op.

use vstd::prelude::*;

use crate::commands::{command_of, goto_of, layout_of, movement_of, GoToWorkspace, WmCommands};
use crate::protocol::WmRequest;
use crate::screeninfo::{
    is_new_workspace_id, is_next_target, is_prev_target, mapped_ws, switch_requests,
    switch_view, with_active, active_ws,
};
use crate::windowmanager::{
    arg_chars, configure_all_requests, configured_screens, enter_target, focused_active_ws,
    focused_screen_of, has_screen, screen_idx, with_focused, WindowManager, WindowManagerView,
};
use crate::workspace::{
    focus_result, layout_result, layout_result_requests, moved_focus, move_window_moved_id,
    move_window_requests, move_window_result, next_layout_of, remap_requests, remove_result,
    remove_result_requests, WorkspaceView,
};

verus! {

/// Mathematical model of an external command request.
#[verifier::ext_equal]
pub ghost struct WmActionEventView {
    pub command: WmCommands,
    pub args: Option<Seq<char>>,
}

/// An external command request: the command kind and its optional
/// argument, as a keybinding or an IPC client submits it.
pub struct WmActionEvent {
    pub command: WmCommands,
    pub args: Option<String>,
}

impl View for WmActionEvent {
    type V = WmActionEventView;

    open spec fn view(&self) -> WmActionEventView {
        WmActionEventView {
            command: self.command,
            args: match self.args {
                Some(ref a) => Some(a@),
                None => None,
            },
        }
    }
}

impl WmActionEvent {
    /// Builds an action event from a command token.  The token must
    /// name a command of the vocabulary; dispatch rejects unknown
    /// tokens before this point.
    pub fn new(command: &str, args: Option<String>) -> (e: WmActionEvent)
        requires
            command_of(command@) is Some,
        ensures
            e@.command == command_of(command@)->0,
            e@.args == arg_chars(args),
    {
        let c = match WmCommands::parse(command) {
            Some(c) => c,
            None => {
                proof {
                    assert(false);
                }
                WmCommands::Quit
            },
        };
        WmActionEvent { command: c, args }
    }
}

/// One message on the control channel: a state query (`status`), or
/// an injected command.
pub struct IpcEvent {
    pub status: bool,
    pub event: Option<WmActionEvent>,
}

impl From<WmActionEvent> for IpcEvent {
    /// Wraps a command as a non-query control message.
    fn from(command: WmActionEvent) -> (r: IpcEvent) {
        IpcEvent { status: false, event: Some(command) }
    }
}

impl vstd::std_specs::convert::FromSpecImpl<WmActionEvent> for IpcEvent {
    open spec fn obeys_from_spec() -> bool {
        true
    }

    open spec fn from_spec(command: WmActionEvent) -> IpcEvent {
        IpcEvent { status: false, event: Some(command) }
    }
}

/// One inbound protocol occurrence, reduced to the plain values the
/// state machine reads.
#[derive(Clone, Copy, Debug, PartialEq, Eq, Structural)]
pub enum WmEvent {
    /// A client asks to be shown; `frame` is the decoration window
    /// freshly allocated for it.
    MapRequest { parent: u32, window: u32, frame: u32 },
    /// A window disappeared.
    UnmapNotify { window: u32 },
    /// The pointer entered a window.
    EnterNotify { window: u32 },
    /// The pointer left the focused window.
    LeaveNotify,
    /// A window's geometry settled; only a status bar's matters.
    ConfigureNotify { window: u32, y: i32, width: u32, height: u32 },
    /// Any protocol event the manager does not react to.
    Ignored,
}

/// What the surrounding process owes after a command was applied to
/// the model: nothing more, spawn a program, reload the
/// configuration and re-grab keys, or shut down.
#[derive(Clone, Debug, PartialEq, Eq)]
pub enum CommandEffect {
    Handled,
    Spawn(String),
    Restart,
    Quit,
}

impl WindowManager {
    /// Routes one protocol event to the one handler that owns it and
    /// returns the requests to issue.  Unrecognised events change
    /// nothing.
    pub fn dispatch_event(&mut self, ev: WmEvent) -> (reqs: Vec<WmRequest>)
        requires
            old(self)@.wf(),
        ensures
            final(self)@.wf(),
            ev matches WmEvent::MapRequest { parent, window, frame } ==> {
                &&& (!has_screen(old(self)@.screens, parent) ==> final(self)@ == old(self)@
                    && reqs@ == Seq::<WmRequest>::empty())
                &&& (has_screen(old(self)@.screens, parent) ==> {
                    let si = screen_idx(old(self)@.screens, parent);
                    let scr = old(self)@.screens[si];
                    &&& final(self)@ == (WindowManagerView {
                        screens: old(self)@.screens.update(
                            si,
                            with_active(scr, mapped_ws(active_ws(scr), window, frame)),
                        ),
                        ..old(self)@
                    })
                    &&& reqs@ == remap_requests(
                        mapped_ws(active_ws(scr), window, frame).windows,
                    )
                })
            },
            ev matches WmEvent::UnmapNotify { window } ==> {
                &&& final(self)@ == with_focused(
                    old(self)@,
                    with_active(
                        focused_screen_of(old(self)@),
                        remove_result(focused_active_ws(old(self)@), window),
                    ),
                )
                &&& reqs@ == remove_result_requests(focused_active_ws(old(self)@), window)
            },
            ev matches WmEvent::EnterNotify { window } ==> {
                &&& final(self)@ == (WindowManagerView {
                    moved_window: None::<u32>,
                    ..with_focused(
                        old(self)@,
                        with_active(
                            focused_screen_of(old(self)@),
                            focus_result(
                                focused_active_ws(old(self)@),
                                enter_target(old(self)@, window),
                            ),
                        ),
                    )
                })
                &&& reqs@ == Seq::<WmRequest>::empty()
            },
            ev == WmEvent::LeaveNotify ==> {
                &&& final(self)@ == with_focused(
                    old(self)@,
                    with_active(
                        focused_screen_of(old(self)@),
                        WorkspaceView {
                            focused_window: None::<u32>,
                            ..focused_active_ws(old(self)@)
                        },
                    ),
                )
                &&& reqs@ == Seq::<WmRequest>::empty()
            },
            ev matches WmEvent::ConfigureNotify { window, y, width, height } ==> {
                &&& final(self)@ == (WindowManagerView {
                    screens: configured_screens(
                        old(self)@.screens,
                        window,
                        y as int,
                        width as int,
                        height as int,
                    ),
                    ..old(self)@
                })
                &&& reqs@ == configure_all_requests(
                    old(self)@.screens,
                    window,
                    y as int,
                    width as int,
                    height as int,
                )
            },
            ev == WmEvent::Ignored ==> final(self)@ == old(self)@ && reqs@ == Seq::<
                WmRequest,
            >::empty(),
    {
        match ev {
            WmEvent::MapRequest { parent, window, frame } => {
                self.handle_map_request(parent, window, frame)
            },
            WmEvent::UnmapNotify { window } => self.handle_event_unmap_notify(window),
            WmEvent::EnterNotify { window } => {
                self.handle_event_enter_notify(window);
                let reqs: Vec<WmRequest> = Vec::new();
                proof {
                    assert(reqs@ =~= Seq::<WmRequest>::empty());
                }
                reqs
            },
            WmEvent::LeaveNotify => {
                self.handle_event_leave_notify();
                let reqs: Vec<WmRequest> = Vec::new();
                proof {
                    assert(reqs@ =~= Seq::<WmRequest>::empty());
                }
                reqs
            },
            WmEvent::ConfigureNotify { window, y, width, height } => {
                self.handle_configure_notify(window, y, width, height)
            },
            WmEvent::Ignored => {
                let reqs: Vec<WmRequest> = Vec::new();
                proof {
                    assert(reqs@ =~= Seq::<WmRequest>::empty());
                }
                reqs
            },
        }
    }

    /// Routes one external command to the one handler that owns it.
    /// The requests to issue come back with what the surrounding
    /// process still owes: spawning a program, restarting with a
    /// fresh configuration, or quitting.
    pub fn dispatch_command(&mut self, cmd: WmActionEvent) -> (r: (
        CommandEffect,
        Vec<WmRequest>,
    ))
        requires
            old(self)@.wf(),
        ensures
            final(self)@.wf(),
            cmd@.command == WmCommands::Focus ==> {
                &&& r.0 == CommandEffect::Handled
                &&& r.1@ == Seq::<WmRequest>::empty()
                &&& (cmd@.args is None ==> final(self)@ == old(self)@)
                &&& (cmd@.args is Some && movement_of(cmd@.args->0) is None ==> final(self)@
                    == old(self)@)
                &&& (cmd@.args is Some && movement_of(cmd@.args->0) is Some ==> final(self)@
                    == with_focused(
                    old(self)@,
                    with_active(
                        focused_screen_of(old(self)@),
                        WorkspaceView {
                            focused_window: moved_focus(
                                focused_active_ws(old(self)@),
                                movement_of(cmd@.args->0)->0,
                            ),
                            ..focused_active_ws(old(self)@)
                        },
                    ),
                ))
            },
            cmd@.command == WmCommands::Move ==> {
                &&& r.0 == CommandEffect::Handled
                &&& (cmd@.args is None ==> final(self)@ == old(self)@ && r.1@ == Seq::<
                    WmRequest,
                >::empty())
                &&& (cmd@.args is Some && movement_of(cmd@.args->0) is None ==> final(self)@
                    == old(self)@ && r.1@ == Seq::<WmRequest>::empty())
                &&& (cmd@.args is Some && movement_of(cmd@.args->0) is Some ==> {
                    let m = movement_of(cmd@.args->0)->0;
                    &&& final(self)@ == (WindowManagerView {
                        moved_window: move_window_moved_id(focused_active_ws(old(self)@), m),
                        ..with_focused(
                            old(self)@,
                            with_active(
                                focused_screen_of(old(self)@),
                                move_window_result(focused_active_ws(old(self)@), m),
                            ),
                        )
                    })
                    &&& r.1@ == move_window_requests(focused_active_ws(old(self)@), m)
                })
            },
            cmd@.command == WmCommands::Kill ==> {
                &&& r.0 == CommandEffect::Handled
                &&& final(self)@ == old(self)@
                &&& (focused_active_ws(old(self)@).focused_window is Some ==> r.1@ == seq![
                    WmRequest::Kill {
                        window: focused_active_ws(old(self)@).focused_window->0,
                    },
                ])
                &&& (focused_active_ws(old(self)@).focused_window is None ==> r.1@ == Seq::<
                    WmRequest,
                >::empty())
            },
            cmd@.command == WmCommands::Layout ==> {
                &&& r.0 == CommandEffect::Handled
                &&& (cmd@.args is None ==> final(self)@ == old(self)@ && r.1@ == Seq::<
                    WmRequest,
                >::empty())
                &&& (cmd@.args is Some && layout_of(cmd@.args->0) is None ==> final(self)@
                    == old(self)@ && r.1@ == Seq::<WmRequest>::empty())
                &&& (cmd@.args is Some && layout_of(cmd@.args->0) is Some ==> {
                    let l = layout_of(cmd@.args->0)->0;
                    &&& final(self)@ == with_focused(
                        old(self)@,
                        with_active(
                            focused_screen_of(old(self)@),
                            layout_result(focused_active_ws(old(self)@), l),
                        ),
                    )
                    &&& r.1@ == layout_result_requests(focused_active_ws(old(self)@), l)
                })
            },
            cmd@.command == WmCommands::NextLayout ==> {
                &&& r.0 == CommandEffect::Handled
                &&& final(self)@ == with_focused(
                    old(self)@,
                    with_active(
                        focused_screen_of(old(self)@),
                        layout_result(
                            focused_active_ws(old(self)@),
                            next_layout_of(focused_active_ws(old(self)@).layout),
                        ),
                    ),
                )
                &&& r.1@ == layout_result_requests(
                    focused_active_ws(old(self)@),
                    next_layout_of(focused_active_ws(old(self)@).layout),
                )
            },
            cmd@.command == WmCommands::GoToWorkspace ==> {
                &&& r.0 == CommandEffect::Handled
                &&& (goto_of(cmd@.args) is None ==> final(self)@ == old(self)@ && r.1@ == Seq::<
                    WmRequest,
                >::empty())
                &&& (goto_of(cmd@.args) is Some ==> {
                    let g = goto_of(cmd@.args)->0;
                    let fs = focused_screen_of(old(self)@);
                    exists|t: u16|
                        {
                            &&& (g == GoToWorkspace::Next ==> is_next_target(
                                fs.workspaces,
                                fs.active_workspace,
                                t,
                            ))
                            &&& (g == GoToWorkspace::Previous ==> is_prev_target(
                                fs.workspaces,
                                fs.active_workspace,
                                t,
                            ))
                            &&& (forall|nn: u16| g == GoToWorkspace::Index(nn) ==> t == nn)
                            &&& final(self)@ == with_focused(
                                old(self)@,
                                #[trigger] switch_view(fs, t),
                            )
                            &&& r.1@ == switch_requests(fs, t)
                        }
                })
            },
            cmd@.command == WmCommands::NewWorkspace ==> {
                &&& r.0 == CommandEffect::Handled
                &&& exists|t: u16|
                    {
                        &&& is_new_workspace_id(focused_screen_of(old(self)@).workspaces, t)
                        &&& final(self)@ == with_focused(
                            old(self)@,
                            #[trigger] switch_view(focused_screen_of(old(self)@), t),
                        )
                        &&& r.1@ == switch_requests(focused_screen_of(old(self)@), t)
                    }
            },
            cmd@.command == WmCommands::Exec || cmd@.command == WmCommands::ExecAlways ==> {
                &&& final(self)@ == old(self)@
                &&& r.1@ == Seq::<WmRequest>::empty()
                &&& (cmd@.args matches Some(a) ==> r.0 matches CommandEffect::Spawn(s) && s@
                    == a)
                &&& (cmd@.args is None ==> r.0 == CommandEffect::Handled)
            },
            cmd@.command == WmCommands::Restart ==> final(self)@ == old(self)@ && r.0
                == CommandEffect::Restart && r.1@ == Seq::<WmRequest>::empty(),
            cmd@.command == WmCommands::Quit ==> final(self)@ == old(self)@ && r.0
                == CommandEffect::Quit && r.1@ == Seq::<WmRequest>::empty(),
    {
        match cmd.command {
            WmCommands::Focus => {
                self.handle_keypress_focus(cmd.args);
                let reqs: Vec<WmRequest> = Vec::new();
                proof {
                    assert(reqs@ =~= Seq::<WmRequest>::empty());
                }
                (CommandEffect::Handled, reqs)
            },
            WmCommands::Move => {
                let reqs = self.handle_keypress_move(cmd.args);
                (CommandEffect::Handled, reqs)
            },
            WmCommands::Kill => {
                let mut reqs: Vec<WmRequest> = Vec::new();
                proof {
                    assert(reqs@ =~= Seq::<WmRequest>::empty());
                }
                match self.handle_keypress_kill() {
                    Some(req) => {
                        reqs.push(req);
                        proof {
                            assert(reqs@ =~= seq![
                                WmRequest::Kill {
                                    window: focused_active_ws(old(self)@).focused_window->0,
                                },
                            ]);
                        }
                    },
                    None => {},
                }
                (CommandEffect::Handled, reqs)
            },
            WmCommands::Layout => {
                let reqs = self.handle_keypress_layout(cmd.args);
                (CommandEffect::Handled, reqs)
            },
            WmCommands::NextLayout => {
                let reqs = self.handle_keypress_next_layout();
                (CommandEffect::Handled, reqs)
            },
            WmCommands::GoToWorkspace => {
                let ghost v = old(self)@;
                let ghost a = cmd@.args;
                let res = self.handle_keypress_go_to_workspace(cmd.args);
                proof {
                    if goto_of(a) is Some {
                        let g = goto_of(a)->0;
                        let fs = focused_screen_of(v);
                        let t = res.0->0;
                        assert(self@ == with_focused(v, switch_view(fs, t)));
                    }
                }
                (CommandEffect::Handled, res.1)
            },
            WmCommands::NewWorkspace => {
                let ghost v = old(self)@;
                let res = self.handle_keypress_new_workspace();
                proof {
                    let t = res.0;
                    assert(self@ == with_focused(v, switch_view(focused_screen_of(v), t)));
                }
                (CommandEffect::Handled, res.1)
            },
            WmCommands::Exec => {
                let reqs: Vec<WmRequest> = Vec::new();
                proof {
                    assert(reqs@ =~= Seq::<WmRequest>::empty());
                }
                match cmd.args {
                    Some(a) => (CommandEffect::Spawn(a), reqs),
                    None => (CommandEffect::Handled, reqs),
                }
            },
            WmCommands::ExecAlways => {
                let reqs: Vec<WmRequest> = Vec::new();
                proof {
                    assert(reqs@ =~= Seq::<WmRequest>::empty());
                }
                match cmd.args {
                    Some(a) => (CommandEffect::Spawn(a), reqs),
                    None => (CommandEffect::Handled, reqs),
                }
            },
            WmCommands::Restart => {
                let reqs: Vec<WmRequest> = Vec::new();
                proof {
                    assert(reqs@ =~= Seq::<WmRequest>::empty());
                }
                (CommandEffect::Restart, reqs)
            },
            WmCommands::Quit => {
                let reqs: Vec<WmRequest> = Vec::new();
                proof {
                    assert(reqs@ =~= Seq::<WmRequest>::empty());
                }
                (CommandEffect::Quit, reqs)
            },
        }
    }
}

} // verus!
