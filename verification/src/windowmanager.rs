//! The top-level orchestrator: owns every screen, dispatches protocol
//! events and user commands into entity mutations, and keeps the
//! short-lived moved-window token that bridges a window move to the
//! enter notification the move provokes.

use vstd::prelude::*;

use crate::commands::{goto_of, layout_of, movement_of, GoToWorkspace, Movement};
use crate::config::{Config, ConfigView};
use crate::protocol::{KeyCode, KeyGrab, WmRequest, MOD_MASK_SECONDARY};
use crate::screeninfo::{
    active_ws, configured_requests, configured_screen, is_new_workspace_id, is_next_target,
    is_prev_target, mapped_ws, switch_requests, switch_view, with_active, ScreenInfo,
    ScreenInfoView,
};
use crate::workspace::{
    focus_result, layout_result, layout_result_requests, moved_focus, move_window_moved_id,
    move_window_requests, move_window_result, remap_requests, remove_result,
    remove_result_requests, WorkspaceView,
};

verus! {

/// One screen as the display server reports it at startup: the root
/// window id and the pixel dimensions.
#[derive(Clone, Copy, Debug, PartialEq, Eq, Structural)]
pub struct ScreenSetup {
    pub root: u32,
    pub width: u16,
    pub height: u16,
}

/// True when no two screens in the sequence share a root window.
pub open spec fn unique_screen_roots(s: Seq<ScreenInfoView>) -> bool {
    forall|i: int, j: int| 0 <= i < j < s.len() ==> s[i].root != s[j].root
}

/// True when some screen in the sequence has this root window.
pub open spec fn has_screen(s: Seq<ScreenInfoView>, root: u32) -> bool {
    exists|i: int| 0 <= i < s.len() && s[i].root == root
}

/// The index of the screen with this root window.
pub open spec fn screen_idx(s: Seq<ScreenInfoView>, root: u32) -> int {
    choose|i: int| 0 <= i < s.len() && s[i].root == root
}

/// Mathematical model of the manager.
#[verifier::ext_equal]
pub ghost struct WindowManagerView {
    pub screens: Seq<ScreenInfoView>,
    pub config: ConfigView,
    pub focused_screen: u32,
    pub moved_window: Option<u32>,
}

impl WindowManagerView {
    /// Well-formedness: root ids are unique, the focused-screen id
    /// resolves, and every screen is itself well formed.
    pub open spec fn wf(self) -> bool {
        &&& unique_screen_roots(self.screens)
        &&& has_screen(self.screens, self.focused_screen)
        &&& forall|i: int| 0 <= i < self.screens.len() ==> (#[trigger] self.screens[i]).wf()
    }
}

/// The focused screen of the manager.
pub open spec fn focused_screen_of(v: WindowManagerView) -> ScreenInfoView {
    v.screens[screen_idx(v.screens, v.focused_screen)]
}

/// The manager with its focused screen replaced by `s`.
pub open spec fn with_focused(v: WindowManagerView, s: ScreenInfoView) -> WindowManagerView {
    WindowManagerView {
        screens: v.screens.update(screen_idx(v.screens, v.focused_screen), s),
        ..v
    }
}

/// The active workspace of the focused screen.
pub open spec fn focused_active_ws(v: WindowManagerView) -> WorkspaceView {
    active_ws(focused_screen_of(v))
}

/// The window an enter notification focuses: the pending moved
/// window if a window move is in flight, else the window the event
/// names.
pub open spec fn enter_target(v: WindowManagerView, window: u32) -> u32 {
    match v.moved_window {
        Some(w) => w,
        None => window,
    }
}

/// The view of an optional string argument.
pub open spec fn arg_chars(args: Option<String>) -> Option<Seq<char>> {
    match args {
        Some(s) => Some(s@),
        None => None,
    }
}

/// The key grabs one screen root needs: every binding once with its
/// own modifier mask and once with the secondary modifier added.
pub open spec fn grabs_for_screen(root: u32, bindings: Seq<KeyCode>) -> Seq<KeyGrab> {
    Seq::new(
        bindings.len(),
        |b: int| KeyGrab { root, mask: bindings[b].mask, code: bindings[b].code },
    ) + Seq::new(
        bindings.len(),
        |b: int| KeyGrab {
            root,
            mask: bindings[b].mask | MOD_MASK_SECONDARY,
            code: bindings[b].code,
        },
    )
}

/// The key grabs the whole manager registers: those of every screen,
/// in screen order.
pub open spec fn grabs_spec(screens: Seq<ScreenInfoView>, bindings: Seq<KeyCode>) -> Seq<KeyGrab>
    decreases screens.len(),
{
    if screens.len() == 0 {
        Seq::<KeyGrab>::empty()
    } else {
        grabs_spec(screens.drop_last(), bindings) + grabs_for_screen(
            screens.last().root,
            bindings,
        )
    }
}

/// Every screen of the manager as a configure notification leaves
/// it; only the screen owning the named bar changes.
pub open spec fn configured_screens(
    s: Seq<ScreenInfoView>,
    window: u32,
    bar_y: int,
    bar_w: int,
    bar_h: int,
) -> Seq<ScreenInfoView> {
    Seq::new(s.len(), |k: int| configured_screen(s[k], window, bar_y, bar_w, bar_h))
}

/// The requests a configure notification issues across all screens,
/// in screen order.
pub open spec fn configure_all_requests(
    s: Seq<ScreenInfoView>,
    window: u32,
    bar_y: int,
    bar_w: int,
    bar_h: int,
) -> Seq<WmRequest>
    decreases s.len(),
{
    if s.len() == 0 {
        Seq::<WmRequest>::empty()
    } else {
        configure_all_requests(s.drop_last(), window, bar_y, bar_w, bar_h) + configured_requests(
            s.last(),
            window,
            bar_y,
            bar_w,
            bar_h,
        )
    }
}

/// Replacing any screen with a well-formed screen that keeps its
/// root window keeps the manager well formed.
pub proof fn lemma_update_screen_preserves_wf(v: WindowManagerView, i: int, s: ScreenInfoView)
    requires
        v.wf(),
        0 <= i < v.screens.len(),
        s.wf(),
        s.root == v.screens[i].root,
    ensures
        (WindowManagerView { screens: v.screens.update(i, s), ..v }).wf(),
{
    let s2 = v.screens.update(i, s);
    assert(forall|k: int|
        0 <= k < s2.len() ==> (#[trigger] s2[k]).root == v.screens[k].root);
    assert(unique_screen_roots(s2));
    let fi = screen_idx(v.screens, v.focused_screen);
    assert(0 <= fi < v.screens.len() && v.screens[fi].root == v.focused_screen);
    assert(s2[fi].root == v.focused_screen);
    assert(has_screen(s2, v.focused_screen));
    assert forall|k: int| 0 <= k < s2.len() implies (#[trigger] s2[k]).wf() by {
        if k != i {
            assert(s2[k] == v.screens[k]);
        }
    }
}

/// Replacing the focused screen with a well-formed screen that keeps
/// its root window keeps the manager well formed.
pub proof fn lemma_with_focused_preserves_wf(v: WindowManagerView, s: ScreenInfoView)
    requires
        v.wf(),
        s.wf(),
        s.root == v.focused_screen,
    ensures
        with_focused(v, s).wf(),
{
    let fi = screen_idx(v.screens, v.focused_screen);
    assert(0 <= fi < v.screens.len() && v.screens[fi].root == v.focused_screen);
    lemma_update_screen_preserves_wf(v, fi, s);
}

/// The live manager.
pub struct WindowManager {
    /// The screens, keyed by their root window ids (unique).
    pub screeninfo: Vec<ScreenInfo>,
    pub config: Config,
    /// The root window id of the screen holding the focus.
    pub focused_screen: u32,
    /// The pending-move token: set when a window move is in flight,
    /// consumed by exactly the next enter notification.
    pub moved_window: Option<u32>,
}

impl View for WindowManager {
    type V = WindowManagerView;

    open spec fn view(&self) -> WindowManagerView {
        WindowManagerView {
            screens: self.screeninfo@.map_values(|s: ScreenInfo| s@),
            config: self.config@,
            focused_screen: self.focused_screen,
            moved_window: self.moved_window,
        }
    }
}

/// Mathematical model of a state snapshot.
#[verifier::ext_equal]
pub ghost struct WindowManagerStateView {
    pub screens: Seq<ScreenInfoView>,
    pub config: ConfigView,
    pub focused_screen: u32,
}

/// An immutable snapshot of the whole entity model, handed to
/// external consumers; it shares no storage with the live state.
pub struct WindowManagerState {
    pub screeninfo: Vec<ScreenInfo>,
    pub config: Config,
    pub focused_screen: u32,
}

impl View for WindowManagerState {
    type V = WindowManagerStateView;

    open spec fn view(&self) -> WindowManagerStateView {
        WindowManagerStateView {
            screens: self.screeninfo@.map_values(|s: ScreenInfo| s@),
            config: self.config@,
            focused_screen: self.focused_screen,
        }
    }
}

impl WindowManager {
    /// Sets up the manager from the screens the display server
    /// reports (their roots are distinct by construction of the
    /// protocol).  The screen set up last holds the focus, and each
    /// screen starts on its workspace 1.
    pub fn new(setups: &Vec<ScreenSetup>, config: Config) -> (wm: WindowManager)
        requires
            setups@.len() >= 1,
            forall|i: int, j: int|
                0 <= i < j < setups@.len() ==> setups@[i].root != setups@[j].root,
        ensures
            wm@.wf(),
            wm@.screens.len() == setups@.len(),
            forall|i: int|
                0 <= i < setups@.len() ==> wm@.screens[i] == ScreenInfo::fresh_view(
                    setups@[i].root,
                    setups@[i].width as int,
                    setups@[i].height as int,
                ),
            wm@.focused_screen == setups@[setups@.len() - 1].root,
            wm@.moved_window == None::<u32>,
            wm@.config == config@,
    {
        let mut screeninfo: Vec<ScreenInfo> = Vec::new();
        let n = setups.len();
        let mut focused: u32 = setups[0].root;
        let mut i: usize = 0;
        while i < n
            invariant
                0 < n == setups@.len(),
                i <= n,
                screeninfo@.len() == i,
                forall|k: int|
                    0 <= k < i ==> (#[trigger] screeninfo@[k])@ == ScreenInfo::fresh_view(
                        setups@[k].root,
                        setups@[k].width as int,
                        setups@[k].height as int,
                    ),
                forall|k: int| 0 <= k < i ==> (#[trigger] screeninfo@[k])@.wf(),
                i > 0 ==> focused == setups@[i - 1].root,
                i == 0 ==> focused == setups@[0].root,
            decreases n - i,
        {
            let setup = setups[i];
            let scr = ScreenInfo::new(setup.root, setup.width as u32, setup.height as u32);
            screeninfo.push(scr);
            focused = setup.root;
            i = i + 1;
        }
        let wm = WindowManager { screeninfo, config, focused_screen: focused, moved_window: None };
        proof {
            assert(forall|k: int|
                0 <= k < n ==> (#[trigger] wm@.screens[k]) == ScreenInfo::fresh_view(
                    setups@[k].root,
                    setups@[k].width as int,
                    setups@[k].height as int,
                ));
            assert(wm@.screens[n - 1].root == wm@.focused_screen);
            assert(has_screen(wm@.screens, wm@.focused_screen));
            assert(unique_screen_roots(wm@.screens)) by {
                assert(forall|k: int|
                    0 <= k < n ==> (#[trigger] wm@.screens[k]).root == setups@[k].root);
            }
            assert(forall|k: int| 0 <= k < n ==> (#[trigger] wm@.screens[k]).wf());
        }
        wm
    }

    /// The index of the screen with this root window, if any.
    fn screen_index_of(&self, root: u32) -> (r: Option<usize>)
        requires
            unique_screen_roots(self@.screens),
        ensures
            match r {
                Some(i) => {
                    &&& 0 <= i < self@.screens.len()
                    &&& self@.screens[i as int].root == root
                    &&& screen_idx(self@.screens, root) == i as int
                    &&& has_screen(self@.screens, root)
                },
                None => !has_screen(self@.screens, root),
            },
    {
        let n = self.screeninfo.len();
        for i in 0..n
            invariant
                n == self.screeninfo@.len(),
                unique_screen_roots(self@.screens),
                forall|k: int| 0 <= k < i ==> self@.screens[k].root != root,
        {
            if self.screeninfo[i].root == root {
                proof {
                    assert(0 <= i < self@.screens.len() && self@.screens[i as int].root == root);
                    let k = screen_idx(self@.screens, root);
                    assert(0 <= k < self@.screens.len() && self@.screens[k].root == root);
                    if k < i as int {
                        assert(self@.screens[k].root != self@.screens[i as int].root);
                    }
                    if k > i as int {
                        assert(self@.screens[i as int].root != self@.screens[k].root);
                    }
                }
                return Some(i);
            }
        }
        None
    }

    /// The index of the focused screen, which always resolves on a
    /// well-formed manager.
    fn focused_index(&self) -> (i: usize)
        requires
            self@.wf(),
        ensures
            0 <= i < self@.screens.len(),
            i as int == screen_idx(self@.screens, self@.focused_screen),
            self@.screens[i as int] == focused_screen_of(self@),
            self@.screens[i as int].wf(),
            self@.screens[i as int].root == self@.focused_screen,
    {
        match self.screen_index_of(self.focused_screen) {
            Some(i) => i,
            None => {
                proof {
                    assert(false);
                }
                0
            },
        }
    }

    /// An immutable deep-copy snapshot of the whole entity model,
    /// for external consumption; it aliases no live mutable state.
    pub fn get_state(&self) -> (st: WindowManagerState)
        ensures
            st@.screens == self@.screens,
            st@.config == self@.config,
            st@.focused_screen == self@.focused_screen,
    {
        let mut screeninfo: Vec<ScreenInfo> = Vec::new();
        let n = self.screeninfo.len();
        for i in 0..n
            invariant
                n == self.screeninfo@.len(),
                screeninfo@.len() == i,
                forall|k: int| 0 <= k < i ==> screeninfo@[k]@ == self@.screens[k],
        {
            screeninfo.push(self.screeninfo[i].duplicate());
        }
        let st = WindowManagerState {
            screeninfo,
            config: self.config.duplicate(),
            focused_screen: self.focused_screen,
        };
        proof {
            assert(st@.screens =~= self@.screens);
        }
        st
    }

    /// The id of the active workspace on the focused screen.
    pub fn get_active_workspace_id(&self) -> (r: u16)
        requires
            self@.wf(),
        ensures
            r == focused_screen_of(self@).active_workspace,
    {
        let fi = self.focused_index();
        self.screeninfo[fi].active_workspace
    }

    /// The active workspace id and its focused window, if any, on
    /// the focused screen.
    pub fn get_focused_window(&self) -> (r: (Option<u16>, Option<u32>))
        requires
            self@.wf(),
        ensures
            r.0 == Some(focused_screen_of(self@).active_workspace),
            r.1 == focused_active_ws(self@).focused_window,
    {
        let fi = self.focused_index();
        let ws = self.screeninfo[fi].get_focused_window();
        (Some(self.screeninfo[fi].active_workspace), ws)
    }

    /// An enter notification: the pointer entered a window, which
    /// takes the focus.  A pending window move redirects the focus to
    /// the moved window (the protocol reports the enter against the
    /// old geometry) and the token is consumed.
    pub fn handle_event_enter_notify(&mut self, window: u32)
        requires
            old(self)@.wf(),
        ensures
            final(self)@.wf(),
            final(self)@ == (WindowManagerView {
                moved_window: None::<u32>,
                ..with_focused(
                    old(self)@,
                    with_active(
                        focused_screen_of(old(self)@),
                        focus_result(
                            focused_active_ws(old(self)@),
                            enter_target(old(self)@, window),
                        ),
                    ),
                )
            }),
    {
        let ghost v = old(self)@;
        let target = match self.moved_window {
            Some(w) => w,
            None => window,
        };
        self.moved_window = None;
        let fi = self.focused_index();
        let scr = &mut self.screeninfo[fi];
        scr.focus_window(target);
        proof {
            let s = with_active(focused_screen_of(v), focus_result(focused_active_ws(v), target));
            assert(self@.screens[fi as int] =~= s);
            assert(self@.screens =~= v.screens.update(fi as int, s));
            assert(self@ =~= WindowManagerView {
                moved_window: None::<u32>,
                ..with_focused(v, s)
            });
            lemma_with_focused_preserves_wf(v, s);
            assert(with_focused(v, s).wf());
            assert(self@.wf());
        }
    }

    /// A leave notification: the pointer left the focused window, so
    /// the active workspace drops its focus pointer.
    pub fn handle_event_leave_notify(&mut self)
        requires
            old(self)@.wf(),
        ensures
            final(self)@.wf(),
            final(self)@ == with_focused(
                old(self)@,
                with_active(
                    focused_screen_of(old(self)@),
                    WorkspaceView {
                        focused_window: None::<u32>,
                        ..focused_active_ws(old(self)@)
                    },
                ),
            ),
    {
        let ghost v = old(self)@;
        let fi = self.focused_index();
        let scr = &mut self.screeninfo[fi];
        scr.unfocus_window();
        proof {
            let s = with_active(
                focused_screen_of(v),
                WorkspaceView { focused_window: None::<u32>, ..focused_active_ws(v) },
            );
            assert(self@.screens[fi as int] =~= s);
            assert(self@.screens =~= v.screens.update(fi as int, s));
            assert(self@ =~= with_focused(v, s));
            lemma_with_focused_preserves_wf(v, s);
        }
    }

    /// An unmap notification: the window is gone, so its record
    /// leaves the active workspace of the focused screen, which
    /// retiles.  A stale id is a benign no-op.
    pub fn handle_event_unmap_notify(&mut self, window: u32) -> (reqs: Vec<WmRequest>)
        requires
            old(self)@.wf(),
        ensures
            final(self)@.wf(),
            final(self)@ == with_focused(
                old(self)@,
                with_active(
                    focused_screen_of(old(self)@),
                    remove_result(focused_active_ws(old(self)@), window),
                ),
            ),
            reqs@ == remove_result_requests(focused_active_ws(old(self)@), window),
    {
        let ghost v = old(self)@;
        let fi = self.focused_index();
        let scr = &mut self.screeninfo[fi];
        let reqs = scr.remove_window(window);
        proof {
            let s = with_active(
                focused_screen_of(v),
                remove_result(focused_active_ws(v), window),
            );
            assert(self@.screens[fi as int] =~= s);
            assert(self@.screens =~= v.screens.update(fi as int, s));
            assert(self@ =~= with_focused(v, s));
            lemma_with_focused_preserves_wf(v, s);
        }
        reqs
    }

    /// A map request: the new window (with the decoration frame the
    /// caller created for it) joins the active workspace of the
    /// screen whose root the event names.  An unknown root drops the
    /// event silently.
    pub fn handle_map_request(&mut self, parent: u32, window: u32, frame: u32) -> (reqs: Vec<
        WmRequest,
    >)
        requires
            old(self)@.wf(),
        ensures
            final(self)@.wf(),
            !has_screen(old(self)@.screens, parent) ==> {
                &&& final(self)@ == old(self)@
                &&& reqs@ == Seq::<WmRequest>::empty()
            },
            has_screen(old(self)@.screens, parent) ==> {
                let si = screen_idx(old(self)@.screens, parent);
                let scr = old(self)@.screens[si];
                &&& final(self)@ == (WindowManagerView {
                    screens: old(self)@.screens.update(
                        si,
                        with_active(scr, mapped_ws(active_ws(scr), window, frame)),
                    ),
                    ..old(self)@
                })
                &&& reqs@ == remap_requests(mapped_ws(active_ws(scr), window, frame).windows)
            },
    {
        let ghost v = old(self)@;
        let si = match self.screen_index_of(parent) {
            Some(i) => i,
            None => {
                let reqs: Vec<WmRequest> = Vec::new();
                proof {
                    assert(reqs@ =~= Seq::<WmRequest>::empty());
                }
                return reqs;
            },
        };
        proof {
            assert(self@.screens[si as int].wf());
        }
        let scr = &mut self.screeninfo[si];
        let reqs = scr.on_map_request(window, frame);
        proof {
            let s = with_active(v.screens[si as int], mapped_ws(active_ws(v.screens[si as int]), window, frame));
            assert(self@.screens[si as int] =~= s);
            assert(self@.screens =~= v.screens.update(si as int, s));
            assert(self@ =~= WindowManagerView { screens: v.screens.update(si as int, s), ..v });
            lemma_update_screen_preserves_wf(v, si as int, s);
        }
        reqs
    }

    /// A configure notification: every screen checks it against its
    /// own status bar; the screen owning the named bar recomputes its
    /// reserved region and moves its workspaces, all others are
    /// untouched.
    pub fn handle_configure_notify(
        &mut self,
        window: u32,
        bar_y: i32,
        bar_width: u32,
        bar_height: u32,
    ) -> (reqs: Vec<WmRequest>)
        requires
            old(self)@.wf(),
        ensures
            final(self)@.wf(),
            final(self)@ == (WindowManagerView {
                screens: configured_screens(
                    old(self)@.screens,
                    window,
                    bar_y as int,
                    bar_width as int,
                    bar_height as int,
                ),
                ..old(self)@
            }),
            reqs@ == configure_all_requests(
                old(self)@.screens,
                window,
                bar_y as int,
                bar_width as int,
                bar_height as int,
            ),
    {
        let ghost v = old(self)@;
        let mut reqs: Vec<WmRequest> = Vec::new();
        let n = self.screeninfo.len();
        let mut k: usize = 0;
        while k < n
            invariant
                v.wf(),
                k <= n,
                n == self.screeninfo@.len(),
                n == v.screens.len(),
                self@ == (WindowManagerView { screens: self@.screens, ..v }),
                forall|j: int|
                    0 <= j < k ==> #[trigger] self@.screens[j] == configured_screen(
                        v.screens[j],
                        window,
                        bar_y as int,
                        bar_width as int,
                        bar_height as int,
                    ),
                forall|j: int|
                    0 <= j < k ==> (#[trigger] self@.screens[j]).wf(),
                forall|j: int| k <= j < n ==> #[trigger] self@.screens[j] == v.screens[j],
                reqs@ == configure_all_requests(
                    v.screens.take(k as int),
                    window,
                    bar_y as int,
                    bar_width as int,
                    bar_height as int,
                ),
            decreases n - k,
        {
            let ghost pre = self@;
            proof {
                assert(pre.screens[k as int].wf());
            }
            let scr = &mut self.screeninfo[k];
            let mut r2 = scr.configure_status_bar(window, bar_y, bar_width, bar_height);
            proof {
                assert(r2@ =~= configured_requests(
                    v.screens[k as int],
                    window,
                    bar_y as int,
                    bar_width as int,
                    bar_height as int,
                ));
            }
            reqs.append(&mut r2);
            proof {
                assert(self@.screens =~= pre.screens.update(k as int, self@.screens[k as int]));
                assert(self@.screens[k as int] =~= configured_screen(
                    v.screens[k as int],
                    window,
                    bar_y as int,
                    bar_width as int,
                    bar_height as int,
                ));
                assert(forall|j: int|
                    0 <= j < n && j != k as int ==> #[trigger] self@.screens[j]
                        == pre.screens[j]);
                let t1 = v.screens.take(k as int);
                let t2 = v.screens.take(k as int + 1);
                assert(t2.drop_last() =~= t1);
                assert(t2.last() == v.screens[k as int]);
                assert(reqs@ =~= configure_all_requests(
                    t2,
                    window,
                    bar_y as int,
                    bar_width as int,
                    bar_height as int,
                ));
            }
            k = k + 1;
        }
        proof {
            assert(v.screens.take(n as int) =~= v.screens);
            let s2 = configured_screens(
                v.screens,
                window,
                bar_y as int,
                bar_width as int,
                bar_height as int,
            );
            assert(self@.screens =~= s2);
            assert(self@ =~= WindowManagerView { screens: s2, ..v });
            assert(self@.wf()) by {
                assert(forall|j: int|
                    0 <= j < s2.len() ==> (#[trigger] s2[j]).root == v.screens[j].root);
                assert(unique_screen_roots(s2));
                let fi = screen_idx(v.screens, v.focused_screen);
                assert(0 <= fi < v.screens.len() && v.screens[fi].root == v.focused_screen);
                assert(s2[fi].root == v.focused_screen);
                assert(has_screen(s2, v.focused_screen));
            }
        }
        reqs
    }

    /// A focus-move command: the focus walks one tiling slot in the
    /// parsed direction on the active workspace.  A missing or
    /// unparseable argument is a no-op.
    pub fn handle_keypress_focus(&mut self, args: Option<String>)
        requires
            old(self)@.wf(),
        ensures
            final(self)@.wf(),
            arg_chars(args) is None ==> final(self)@ == old(self)@,
            arg_chars(args) is Some && movement_of(arg_chars(args)->0) is None ==> final(self)@
                == old(self)@,
            arg_chars(args) is Some && movement_of(arg_chars(args)->0) is Some ==> final(self)@
                == with_focused(
                old(self)@,
                with_active(
                    focused_screen_of(old(self)@),
                    WorkspaceView {
                        focused_window: moved_focus(
                            focused_active_ws(old(self)@),
                            movement_of(arg_chars(args)->0)->0,
                        ),
                        ..focused_active_ws(old(self)@)
                    },
                ),
            ),
    {
        let ghost v = old(self)@;
        let s = match &args {
            Some(s) => s,
            None => {
                return;
            },
        };
        let m = match Movement::parse(s.as_str()) {
            Some(m) => m,
            None => {
                return;
            },
        };
        let fi = self.focused_index();
        let scr = &mut self.screeninfo[fi];
        scr.move_focus(m);
        proof {
            let sv = with_active(
                focused_screen_of(v),
                WorkspaceView {
                    focused_window: moved_focus(focused_active_ws(v), m),
                    ..focused_active_ws(v)
                },
            );
            assert(self@.screens[fi as int] =~= sv);
            assert(self@.screens =~= v.screens.update(fi as int, sv));
            assert(self@ =~= with_focused(v, sv));
            lemma_with_focused_preserves_wf(v, sv);
        }
    }

    /// A window-move command: the focused window trades tiling slots
    /// with its neighbour in the parsed direction, the workspace
    /// retiles, and the moved window's id is left in the pending-move
    /// token for the enter notification the move provokes.  A missing
    /// or unparseable argument is a no-op.
    pub fn handle_keypress_move(&mut self, args: Option<String>) -> (reqs: Vec<WmRequest>)
        requires
            old(self)@.wf(),
        ensures
            final(self)@.wf(),
            arg_chars(args) is None ==> final(self)@ == old(self)@ && reqs@ == Seq::<
                WmRequest,
            >::empty(),
            arg_chars(args) is Some && movement_of(arg_chars(args)->0) is None ==> final(self)@
                == old(self)@ && reqs@ == Seq::<WmRequest>::empty(),
            arg_chars(args) is Some && movement_of(arg_chars(args)->0) is Some ==> {
                let m = movement_of(arg_chars(args)->0)->0;
                &&& final(self)@ == (WindowManagerView {
                    moved_window: move_window_moved_id(focused_active_ws(old(self)@), m),
                    ..with_focused(
                        old(self)@,
                        with_active(
                            focused_screen_of(old(self)@),
                            move_window_result(focused_active_ws(old(self)@), m),
                        ),
                    )
                })
                &&& reqs@ == move_window_requests(focused_active_ws(old(self)@), m)
            },
    {
        let ghost v = old(self)@;
        let empty_reqs: Vec<WmRequest> = Vec::new();
        proof {
            assert(empty_reqs@ =~= Seq::<WmRequest>::empty());
        }
        let s = match &args {
            Some(s) => s,
            None => {
                return empty_reqs;
            },
        };
        let m = match Movement::parse(s.as_str()) {
            Some(m) => m,
            None => {
                return empty_reqs;
            },
        };
        let fi = self.focused_index();
        let scr = &mut self.screeninfo[fi];
        let r = scr.move_window(m);
        self.moved_window = r.0;
        proof {
            let sv = with_active(
                focused_screen_of(v),
                move_window_result(focused_active_ws(v), m),
            );
            assert(self@.screens[fi as int] =~= sv);
            assert(self@.screens =~= v.screens.update(fi as int, sv));
            assert(self@ =~= WindowManagerView {
                moved_window: move_window_moved_id(focused_active_ws(v), m),
                ..with_focused(v, sv)
            });
            lemma_with_focused_preserves_wf(v, sv);
            assert(with_focused(v, sv).wf());
            assert(self@.wf());
        }
        r.1
    }

    /// A kill command: asks the focused window's client to close.
    /// The model is untouched; the record leaves when the unmap
    /// notification arrives.  With nothing focused there is nothing
    /// to kill.
    pub fn handle_keypress_kill(&self) -> (r: Option<WmRequest>)
        requires
            self@.wf(),
        ensures
            focused_active_ws(self@).focused_window is Some ==> r == Some(
                WmRequest::Kill { window: focused_active_ws(self@).focused_window->0 },
            ),
            focused_active_ws(self@).focused_window is None ==> r == None::<WmRequest>,
    {
        let fi = self.focused_index();
        match self.screeninfo[fi].get_focused_window() {
            Some(w) => Some(self.screeninfo[fi].kill_window(w)),
            None => None,
        }
    }

    /// A layout command: switches the active workspace to the parsed
    /// layout and retiles.  A missing or unparseable argument is a
    /// no-op.
    pub fn handle_keypress_layout(&mut self, args: Option<String>) -> (reqs: Vec<WmRequest>)
        requires
            old(self)@.wf(),
        ensures
            final(self)@.wf(),
            arg_chars(args) is None ==> final(self)@ == old(self)@ && reqs@ == Seq::<
                WmRequest,
            >::empty(),
            arg_chars(args) is Some && layout_of(arg_chars(args)->0) is None ==> final(self)@
                == old(self)@ && reqs@ == Seq::<WmRequest>::empty(),
            arg_chars(args) is Some && layout_of(arg_chars(args)->0) is Some ==> {
                let l = layout_of(arg_chars(args)->0)->0;
                &&& final(self)@ == with_focused(
                    old(self)@,
                    with_active(
                        focused_screen_of(old(self)@),
                        layout_result(focused_active_ws(old(self)@), l),
                    ),
                )
                &&& reqs@ == layout_result_requests(focused_active_ws(old(self)@), l)
            },
    {
        let ghost v = old(self)@;
        let empty_reqs: Vec<WmRequest> = Vec::new();
        proof {
            assert(empty_reqs@ =~= Seq::<WmRequest>::empty());
        }
        let s = match &args {
            Some(s) => s,
            None => {
                return empty_reqs;
            },
        };
        let l = match crate::layout::Layout::parse(s.as_str()) {
            Some(l) => l,
            None => {
                return empty_reqs;
            },
        };
        let fi = self.focused_index();
        let scr = &mut self.screeninfo[fi];
        let reqs = scr.set_layout(l);
        proof {
            let sv = with_active(focused_screen_of(v), layout_result(focused_active_ws(v), l));
            assert(self@.screens[fi as int] =~= sv);
            assert(self@.screens =~= v.screens.update(fi as int, sv));
            assert(self@ =~= with_focused(v, sv));
            lemma_with_focused_preserves_wf(v, sv);
        }
        reqs
    }

    /// A layout-cycling command: the active workspace advances to
    /// the next layout mode and retiles.
    pub fn handle_keypress_next_layout(&mut self) -> (reqs: Vec<WmRequest>)
        requires
            old(self)@.wf(),
        ensures
            final(self)@.wf(),
            final(self)@ == with_focused(
                old(self)@,
                with_active(
                    focused_screen_of(old(self)@),
                    layout_result(
                        focused_active_ws(old(self)@),
                        crate::workspace::next_layout_of(focused_active_ws(old(self)@).layout),
                    ),
                ),
            ),
            reqs@ == layout_result_requests(
                focused_active_ws(old(self)@),
                crate::workspace::next_layout_of(focused_active_ws(old(self)@).layout),
            ),
    {
        let ghost v = old(self)@;
        let fi = self.focused_index();
        let scr = &mut self.screeninfo[fi];
        let reqs = scr.next_layout();
        proof {
            let l = crate::workspace::next_layout_of(focused_active_ws(v).layout);
            let sv = with_active(focused_screen_of(v), layout_result(focused_active_ws(v), l));
            assert(self@.screens[fi as int] =~= sv);
            assert(self@.screens =~= v.screens.update(fi as int, sv));
            assert(self@ =~= with_focused(v, sv));
            lemma_with_focused_preserves_wf(v, sv);
        }
        reqs
    }

    /// A workspace-switch command: resolves the parsed target (an
    /// explicit id, or the neighbouring existing id for `next` and
    /// `previous`) and switches the focused screen to it, creating it
    /// if absent.  Returns the resolved target with the switch
    /// requests; a missing or unparseable argument is a no-op.
    pub fn handle_keypress_go_to_workspace(&mut self, args: Option<String>) -> (r: (
        Option<u16>,
        Vec<WmRequest>,
    ))
        requires
            old(self)@.wf(),
        ensures
            final(self)@.wf(),
            goto_of(arg_chars(args)) is None ==> final(self)@ == old(self)@ && r.0 == None::<
                u16,
            > && r.1@ == Seq::<WmRequest>::empty(),
            goto_of(arg_chars(args)) is Some ==> {
                let g = goto_of(arg_chars(args))->0;
                let fs = focused_screen_of(old(self)@);
                &&& r.0 is Some
                &&& (g == GoToWorkspace::Next ==> is_next_target(
                    fs.workspaces,
                    fs.active_workspace,
                    r.0->0,
                ))
                &&& (g == GoToWorkspace::Previous ==> is_prev_target(
                    fs.workspaces,
                    fs.active_workspace,
                    r.0->0,
                ))
                &&& (forall|nn: u16| g == GoToWorkspace::Index(nn) ==> r.0->0 == nn)
                &&& final(self)@ == with_focused(old(self)@, switch_view(fs, r.0->0))
                &&& r.1@ == switch_requests(fs, r.0->0)
            },
    {
        let ghost v = old(self)@;
        let empty_reqs: Vec<WmRequest> = Vec::new();
        proof {
            assert(empty_reqs@ =~= Seq::<WmRequest>::empty());
        }
        let g = match GoToWorkspace::parse(&args) {
            Some(g) => g,
            None => {
                return (None, empty_reqs);
            },
        };
        let fi = self.focused_index();
        let target: u16 = match g {
            GoToWorkspace::Next => self.screeninfo[fi].next_workspace_id(),
            GoToWorkspace::Previous => self.screeninfo[fi].prev_workspace_id(),
            GoToWorkspace::Index(n) => n,
        };
        let scr = &mut self.screeninfo[fi];
        let reqs = scr.set_workspace_create_if_not_exists(target);
        proof {
            let sv = switch_view(focused_screen_of(v), target);
            assert(self@.screens[fi as int] =~= sv);
            assert(self@.screens =~= v.screens.update(fi as int, sv));
            assert(self@ =~= with_focused(v, sv));
            lemma_with_focused_preserves_wf(v, sv);
        }
        (Some(target), reqs)
    }

    /// A new-workspace command: allocates the lowest unused id on the
    /// focused screen, creates that workspace and switches to it.
    pub fn handle_keypress_new_workspace(&mut self) -> (r: (u16, Vec<WmRequest>))
        requires
            old(self)@.wf(),
        ensures
            final(self)@.wf(),
            is_new_workspace_id(focused_screen_of(old(self)@).workspaces, r.0),
            final(self)@ == with_focused(
                old(self)@,
                switch_view(focused_screen_of(old(self)@), r.0),
            ),
            r.1@ == switch_requests(focused_screen_of(old(self)@), r.0),
    {
        let ghost v = old(self)@;
        let fi = self.focused_index();
        let scr = &mut self.screeninfo[fi];
        let r = scr.create_new_workspace();
        proof {
            let sv = switch_view(focused_screen_of(v), r.0);
            assert(self@.screens[fi as int] =~= sv);
            assert(self@.screens =~= v.screens.update(fi as int, sv));
            assert(self@ =~= with_focused(v, sv));
            lemma_with_focused_preserves_wf(v, sv);
        }
        r
    }

    /// The key grabs to register: every resolved binding, on every
    /// screen root, once with its own modifier mask and once with the
    /// secondary modifier added, so a numlock-style modifier cannot
    /// defeat a binding.
    pub fn grab_keys(&self, bindings: &Vec<KeyCode>) -> (grabs: Vec<KeyGrab>)
        ensures
            grabs@ == grabs_spec(self@.screens, bindings@),
    {
        let mut grabs: Vec<KeyGrab> = Vec::new();
        let n = self.screeninfo.len();
        let m = bindings.len();
        let mut i: usize = 0;
        while i < n
            invariant
                i <= n,
                n == self.screeninfo@.len(),
                m == bindings@.len(),
                grabs@ == grabs_spec(self@.screens.take(i as int), bindings@),
            decreases n - i,
        {
            let root = self.screeninfo[i].root;
            let ghost base = grabs@;
            let mut j: usize = 0;
            while j < m
                invariant
                    j <= m,
                    m == bindings@.len(),
                    grabs@.len() == base.len() + j,
                    forall|b: int| 0 <= b < base.len() ==> #[trigger] grabs@[b] == base[b],
                    forall|b: int|
                        0 <= b < j ==> #[trigger] grabs@[base.len() + b] == (KeyGrab {
                            root,
                            mask: bindings@[b].mask,
                            code: bindings@[b].code,
                        }),
                decreases m - j,
            {
                let kc = bindings[j];
                grabs.push(KeyGrab { root, mask: kc.mask, code: kc.code });
                j = j + 1;
            }
            proof {
                let pass1 = Seq::new(
                    bindings@.len(),
                    |b: int| KeyGrab { root, mask: bindings@[b].mask, code: bindings@[b].code },
                );
                assert forall|k: int|
                    0 <= k < grabs@.len() implies grabs@[k] == (base + pass1)[k] by {
                    if k >= base.len() {
                        let b = k - base.len();
                        assert(grabs@[base.len() + b] == (KeyGrab {
                            root,
                            mask: bindings@[b].mask,
                            code: bindings@[b].code,
                        }));
                    }
                }
                assert(grabs@ =~= base + pass1);
            }
            let ghost base2 = grabs@;
            let mut j2: usize = 0;
            while j2 < m
                invariant
                    j2 <= m,
                    m == bindings@.len(),
                    grabs@.len() == base2.len() + j2,
                    forall|b: int| 0 <= b < base2.len() ==> #[trigger] grabs@[b] == base2[b],
                    forall|b: int|
                        0 <= b < j2 ==> #[trigger] grabs@[base2.len() + b] == (KeyGrab {
                            root,
                            mask: bindings@[b].mask | MOD_MASK_SECONDARY,
                            code: bindings@[b].code,
                        }),
                decreases m - j2,
            {
                let kc = bindings[j2];
                grabs.push(KeyGrab { root, mask: kc.mask | MOD_MASK_SECONDARY, code: kc.code });
                j2 = j2 + 1;
            }
            proof {
                let pass2 = Seq::new(
                    bindings@.len(),
                    |b: int| KeyGrab {
                        root,
                        mask: bindings@[b].mask | MOD_MASK_SECONDARY,
                        code: bindings@[b].code,
                    },
                );
                assert forall|k: int|
                    0 <= k < grabs@.len() implies grabs@[k] == (base2 + pass2)[k] by {
                    if k >= base2.len() {
                        let b = k - base2.len();
                        assert(grabs@[base2.len() + b] == (KeyGrab {
                            root,
                            mask: bindings@[b].mask | MOD_MASK_SECONDARY,
                            code: bindings@[b].code,
                        }));
                    }
                }
                assert(grabs@ =~= base2 + pass2);
                assert(grabs@ =~= base + grabs_for_screen(root, bindings@));
                let t1 = self@.screens.take(i as int);
                let t2 = self@.screens.take(i as int + 1);
                assert(t2.drop_last() =~= t1);
                assert(t2.last() == self@.screens[i as int]);
                assert(self@.screens[i as int].root == root);
                assert(grabs@ =~= grabs_spec(t2, bindings@));
            }
            i = i + 1;
        }
        proof {
            assert(self@.screens.take(n as int) =~= self@.screens);
        }
        grabs
    }

    /// A restart: adopts the freshly re-read configuration.  All
    /// screen and workspace state is preserved; a restart changes
    /// policy inputs, not window state.  The caller re-registers the
    /// grabs derived from the new configuration.
    pub fn restart(&mut self, config: Config)
        requires
            old(self)@.wf(),
        ensures
            final(self)@.wf(),
            final(self)@ == (WindowManagerView { config: config@, ..old(self)@ }),
    {
        self.config = config;
        proof {
            assert(self@ =~= WindowManagerView { config: config@, ..old(self)@ });
        }
    }
}

} // verus!
