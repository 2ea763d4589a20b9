//! One physical screen: its root window, its workspaces, the active
//! workspace, and the region left to workspaces after the status bar
//! takes its share.

use vstd::prelude::*;

use crate::commands::Movement;
use crate::layout::Layout;
use crate::protocol::WmRequest;
use crate::windowstate::{OxideWindow, OxideWindowView};
use crate::workspace::{
    contains_window, focus_result, layout_result, layout_result_requests, moved_focus,
    move_window_moved_id, move_window_requests, move_window_result, remap_requests,
    remove_result, remove_result_requests, resized_ws, resized_ws_requests, unmap_requests,
    Workspace, WorkspaceView,
};

verus! {

/// True when no two workspaces in the sequence share an id.
pub open spec fn unique_names(s: Seq<WorkspaceView>) -> bool {
    forall|i: int, j: int| 0 <= i < j < s.len() ==> s[i].name != s[j].name
}

/// True when some workspace in the sequence has id `id`.
pub open spec fn has_workspace(s: Seq<WorkspaceView>, id: u16) -> bool {
    exists|i: int| 0 <= i < s.len() && s[i].name == id
}

/// The index of the workspace with id `id`.
pub open spec fn workspace_idx(s: Seq<WorkspaceView>, id: u16) -> int {
    choose|i: int| 0 <= i < s.len() && s[i].name == id
}

/// A workspace as a switch leaves the one being left: unmapped and
/// unfocused.
pub open spec fn ws_hidden(w: WorkspaceView) -> WorkspaceView {
    WorkspaceView { focused: false, ..w.hidden() }
}

/// A workspace as a switch leaves the one being entered: mapped,
/// tiled and focused.
pub open spec fn ws_shown(w: WorkspaceView) -> WorkspaceView {
    WorkspaceView { focused: true, ..w.shown() }
}

/// The active workspace of a screen.
pub open spec fn active_ws(v: ScreenInfoView) -> WorkspaceView {
    v.workspaces[workspace_idx(v.workspaces, v.active_workspace)]
}

/// The screen with its active workspace replaced by `w`.
pub open spec fn with_active(v: ScreenInfoView, w: WorkspaceView) -> ScreenInfoView {
    ScreenInfoView {
        workspaces: v.workspaces.update(workspace_idx(v.workspaces, v.active_workspace), w),
        ..v
    }
}

/// The screen after a switch to workspace `id`: the active workspace
/// is unmapped and unfocused, `id` is created if absent, made active,
/// remapped and focused.
pub open spec fn switch_view(v: ScreenInfoView, id: u16) -> ScreenInfoView {
    let ai = workspace_idx(v.workspaces, v.active_workspace);
    let s1 = v.workspaces.update(ai, ws_hidden(v.workspaces[ai]));
    let s2 = if has_workspace(s1, id) {
        s1
    } else {
        s1.push(Workspace::fresh_view(id, v.ws_pos_x, v.ws_pos_y, v.ws_width, v.ws_height))
    };
    let ti = workspace_idx(s2, id);
    let s3 = s2.update(ti, ws_shown(s2[ti]));
    ScreenInfoView { workspaces: s3, active_workspace: id, ..v }
}

/// The requests a switch to workspace `id` issues: unmap the old
/// active workspace's windows, then configure and map the new one's.
pub open spec fn switch_requests(v: ScreenInfoView, id: u16) -> Seq<WmRequest> {
    let ai = workspace_idx(v.workspaces, v.active_workspace);
    let s1 = v.workspaces.update(ai, ws_hidden(v.workspaces[ai]));
    let s2 = if has_workspace(s1, id) {
        s1
    } else {
        s1.push(Workspace::fresh_view(id, v.ws_pos_x, v.ws_pos_y, v.ws_width, v.ws_height))
    };
    let ti = workspace_idx(s2, id);
    unmap_requests(v.workspaces[ai].windows) + remap_requests(s2[ti].shown().windows)
}

/// Placeholder width given to a status bar before its first
/// configure notification settles the real geometry.
pub const DEFAULT_BAR_WIDTH: u32 = 1000;

/// Placeholder height given to a status bar before its first
/// configure notification settles the real geometry.
pub const DEFAULT_BAR_HEIGHT: u32 = 20;

/// The record a screen keeps for a window just adopted as its status
/// bar: mapped at the origin with the placeholder geometry.
pub open spec fn initial_bar_view(window: u32) -> OxideWindowView {
    OxideWindowView {
        window,
        frame: window,
        title: Seq::<char>::empty(),
        visible: true,
        urgent: false,
        x: 0,
        y: 0,
        width: DEFAULT_BAR_WIDTH as int,
        height: DEFAULT_BAR_HEIGHT as int,
        border_width: 0,
        titlebar_height: 0,
    }
}

/// The active workspace after a map request: the new window joins
/// the ordering (unless already present) and the workspace retiles
/// and remaps.
pub open spec fn mapped_ws(w: WorkspaceView, window: u32, frame: u32) -> WorkspaceView {
    if contains_window(w.windows, window) {
        w.shown()
    } else {
        (WorkspaceView {
            windows: w.windows.push(OxideWindow::fresh_view(window, frame)),
            ..w
        }).shown()
    }
}

/// Whether a configure notification for `window` concerns this
/// screen's status bar.
pub open spec fn bar_matches(v: ScreenInfoView, window: u32) -> bool {
    match v.status_bar {
        Some(b) => b.window == window,
        None => false,
    }
}

/// Where the reserved workspace region starts once a bar of height
/// `bar_h` reports position `bar_y` on a screen `screen_h` tall: a
/// bottom-anchored bar (`bar_y == screen_h - bar_h`) leaves
/// workspaces the top of the screen, any other position counts as a
/// top anchor and pushes them below the bar.  Either way the region
/// is `screen_h - bar_h` tall.
pub open spec fn reserved_pos_y(screen_h: int, bar_y: int, bar_h: int) -> int {
    if bar_y == screen_h - bar_h {
        0
    } else {
        bar_h
    }
}

/// The bar's own record after its configure notification: the
/// reported size is adopted, and a top-anchored bar is pinned to the
/// origin.
pub open spec fn bar_after(
    b: OxideWindowView,
    screen_h: int,
    bar_y: int,
    bar_w: int,
    bar_h: int,
) -> OxideWindowView {
    let sized = OxideWindowView { width: bar_w, height: bar_h, ..b };
    if bar_y == screen_h - bar_h {
        sized
    } else {
        OxideWindowView { x: 0, y: 0, ..sized }
    }
}

/// The requests issued when every workspace of a screen moves to a
/// new reserved rectangle, in workspace order: visible workspaces
/// remap, hidden ones move silently.
pub open spec fn resize_requests(
    s: Seq<WorkspaceView>,
    x: int,
    y: int,
    wd: int,
    h: int,
) -> Seq<WmRequest>
    decreases s.len(),
{
    if s.len() == 0 {
        Seq::<WmRequest>::empty()
    } else {
        resize_requests(s.drop_last(), x, y, wd, h) + resized_ws_requests(s.last(), x, y, wd, h)
    }
}

/// The screen after a configure notification for `window` reporting
/// the bar at `bar_y` sized `bar_w` by `bar_h`: for the screen's own
/// bar (and a bar no taller than the screen) the reserved region is
/// recomputed and every workspace moves into it; anything else
/// changes nothing.
pub open spec fn configured_screen(
    v: ScreenInfoView,
    window: u32,
    bar_y: int,
    bar_w: int,
    bar_h: int,
) -> ScreenInfoView {
    if bar_matches(v, window) && bar_h <= v.height {
        let ny = reserved_pos_y(v.height, bar_y, bar_h);
        let nh = v.height - bar_h;
        ScreenInfoView {
            workspaces: Seq::new(
                v.workspaces.len(),
                |k: int| resized_ws(v.workspaces[k], v.ws_pos_x, ny, v.ws_width, nh),
            ),
            ws_pos_y: ny,
            ws_height: nh,
            status_bar: Some(bar_after(v.status_bar->0, v.height, bar_y, bar_w, bar_h)),
            ..v
        }
    } else {
        v
    }
}

/// The requests a configure notification issues: the remaps of the
/// workspaces that move, or nothing for a foreign window.
pub open spec fn configured_requests(
    v: ScreenInfoView,
    window: u32,
    bar_y: int,
    bar_w: int,
    bar_h: int,
) -> Seq<WmRequest> {
    if bar_matches(v, window) && bar_h <= v.height {
        resize_requests(
            v.workspaces,
            v.ws_pos_x,
            reserved_pos_y(v.height, bar_y, bar_h),
            v.ws_width,
            v.height - bar_h,
        )
    } else {
        Seq::<WmRequest>::empty()
    }
}

/// What it means for `r` to be the target of a switch to the next
/// workspace: the lowest existing id above the active one, or, when
/// none is above, the lowest existing id overall.
pub open spec fn is_next_target(s: Seq<WorkspaceView>, active: u16, r: u16) -> bool {
    &&& has_workspace(s, r)
    &&& ((exists|id: u16| has_workspace(s, id) && id > active) ==> r > active && (forall|id: u16|
        has_workspace(s, id) && id > active ==> r <= id))
    &&& (!(exists|id: u16| has_workspace(s, id) && id > active) ==> (forall|id: u16|
        has_workspace(s, id) ==> r <= id))
}

/// What it means for `r` to be the target of a switch to the
/// previous workspace: the highest existing id below the active one,
/// or, when none is below, the highest existing id overall.
pub open spec fn is_prev_target(s: Seq<WorkspaceView>, active: u16, r: u16) -> bool {
    &&& has_workspace(s, r)
    &&& ((exists|id: u16| has_workspace(s, id) && id < active) ==> r < active && (forall|id: u16|
        has_workspace(s, id) && id < active ==> r >= id))
    &&& (!(exists|id: u16| has_workspace(s, id) && id < active) ==> (forall|id: u16|
        has_workspace(s, id) ==> r >= id))
}

/// What it means for `r` to be the id a new-workspace command
/// allocates: the lowest id in `1..u16::MAX` not yet present, with
/// `u16::MAX` itself the last resort.
pub open spec fn is_new_workspace_id(s: Seq<WorkspaceView>, r: u16) -> bool {
    &&& 1 <= r
    &&& (r < u16::MAX ==> !has_workspace(s, r))
    &&& (forall|j: u16| 1 <= j < r ==> has_workspace(s, j))
}

/// Mathematical model of one screen.
#[verifier::ext_equal]
pub ghost struct ScreenInfoView {
    pub root: u32,
    pub workspaces: Seq<WorkspaceView>,
    pub active_workspace: u16,
    pub ws_pos_x: int,
    pub ws_pos_y: int,
    pub ws_width: int,
    pub ws_height: int,
    pub width: int,
    pub height: int,
    pub status_bar: Option<OxideWindowView>,
}

impl ScreenInfoView {
    /// Well-formedness: dimensions fit the protocol's 16-bit
    /// coordinate space, workspace ids are unique, the active id
    /// resolves, every workspace is itself well formed and occupies
    /// the screen's reserved rectangle, and only the active workspace
    /// may be visible or focused.
    pub open spec fn wf(self) -> bool {
        &&& 0 <= self.ws_pos_x <= 0xFFFF
        &&& 0 <= self.ws_pos_y <= 0xFFFF
        &&& 0 <= self.ws_width <= 0xFFFF
        &&& 0 <= self.ws_height <= 0xFFFF
        &&& 0 <= self.width <= 0xFFFF
        &&& 0 <= self.height <= 0xFFFF
        &&& unique_names(self.workspaces)
        &&& has_workspace(self.workspaces, self.active_workspace)
        &&& forall|i: int|
            0 <= i < self.workspaces.len() ==> (#[trigger] self.workspaces[i]).wf()
        &&& forall|i: int|
            0 <= i < self.workspaces.len() ==> {
                &&& (#[trigger] self.workspaces[i]).x == self.ws_pos_x
                &&& self.workspaces[i].y == self.ws_pos_y
                &&& self.workspaces[i].width == self.ws_width
                &&& self.workspaces[i].height == self.ws_height
            }
        &&& forall|i: int|
            0 <= i < self.workspaces.len() ==> ((#[trigger] self.workspaces[i]).visible
                ==> self.workspaces[i].name == self.active_workspace)
        &&& forall|i: int|
            0 <= i < self.workspaces.len() ==> ((#[trigger] self.workspaces[i]).focused
                ==> self.workspaces[i].name == self.active_workspace)
    }
}

/// Replacing the active workspace with a well-formed workspace of
/// the same id and rectangle keeps the screen well formed.
pub proof fn lemma_with_active_preserves_wf(v: ScreenInfoView, w: WorkspaceView)
    requires
        v.wf(),
        w.wf(),
        w.name == v.active_workspace,
        w.x == v.ws_pos_x,
        w.y == v.ws_pos_y,
        w.width == v.ws_width,
        w.height == v.ws_height,
    ensures
        with_active(v, w).wf(),
{
    let ai = workspace_idx(v.workspaces, v.active_workspace);
    assert(0 <= ai < v.workspaces.len() && v.workspaces[ai].name == v.active_workspace);
    let s2 = v.workspaces.update(ai, w);
    assert(forall|k: int|
        0 <= k < s2.len() ==> (#[trigger] s2[k]).name == v.workspaces[k].name);
    assert(unique_names(s2));
    assert(s2[ai].name == v.active_workspace);
    assert(has_workspace(s2, v.active_workspace));
    assert forall|k: int| 0 <= k < s2.len() implies (#[trigger] s2[k]).wf() by {
        if k != ai {
            assert(s2[k] == v.workspaces[k]);
        }
    }
    assert forall|k: int|
        0 <= k < s2.len() implies ((#[trigger] s2[k]).visible ==> s2[k].name
        == v.active_workspace) && (s2[k].focused ==> s2[k].name == v.active_workspace) by {
        if k != ai {
            assert(s2[k] == v.workspaces[k]);
        }
    }
}

/// Hiding and re-showing an already-shown workspace restores it
/// exactly: the tiling overwrites every field that hiding touched.
proof fn lemma_ws_shown_hidden_shown(w: WorkspaceView)
    ensures
        ws_shown(ws_hidden(ws_shown(w))) == ws_shown(w),
{
    let a = ws_shown(w);
    let c = ws_shown(ws_hidden(a));
    let n = w.windows.len() as int;
    assert(c.windows.len() == n && a.windows.len() == n);
    assert forall|k: int| 0 <= k < n implies c.windows[k] == a.windows[k] by {
        assert(c.windows[k] =~= a.windows[k]);
    }
    assert(c.windows =~= a.windows);
    assert(c =~= a);
}

/// A switch preserves screen well-formedness and makes the target
/// workspace active.
pub proof fn lemma_switch_preserves_wf(v: ScreenInfoView, id: u16)
    requires
        v.wf(),
    ensures
        switch_view(v, id).wf(),
        switch_view(v, id).active_workspace == id,
        has_workspace(switch_view(v, id).workspaces, id),
{
    let ai = workspace_idx(v.workspaces, v.active_workspace);
    assert(0 <= ai < v.workspaces.len() && v.workspaces[ai].name == v.active_workspace);
    let s1 = v.workspaces.update(ai, ws_hidden(v.workspaces[ai]));
    crate::workspace::lemma_shown_hidden_preserve_wf(v.workspaces[ai]);
    assert(forall|k: int|
        0 <= k < s1.len() ==> (#[trigger] s1[k]).name == v.workspaces[k].name);
    assert(unique_names(s1));
    let fresh = Workspace::fresh_view(id, v.ws_pos_x, v.ws_pos_y, v.ws_width, v.ws_height);
    let s2 = if has_workspace(s1, id) {
        s1
    } else {
        s1.push(fresh)
    };
    assert(unique_names(s2)) by {
        if !has_workspace(s1, id) {
            assert forall|i: int, j: int|
                0 <= i < j < s2.len() implies s2[i].name != s2[j].name by {
                if j < s1.len() {
                    assert(s1[i].name != s1[j].name);
                } else {
                    assert(s2[j].name == id);
                    assert(!(0 <= i < s1.len() && s1[i].name == id));
                }
            }
        }
    }
    assert(has_workspace(s2, id)) by {
        if !has_workspace(s1, id) {
            assert(s2[s1.len() as int].name == id);
        }
    }
    let ti = workspace_idx(s2, id);
    assert(0 <= ti < s2.len() && s2[ti].name == id);
    assert(s2[ti].wf() && s2[ti].x == v.ws_pos_x && s2[ti].y == v.ws_pos_y && s2[ti].width
        == v.ws_width && s2[ti].height == v.ws_height) by {
        if ti < s1.len() {
            if ti == ai {
            } else {
                assert(s2[ti] == v.workspaces[ti]);
            }
        } else {
            assert(s2[ti] == fresh);
        }
    }
    crate::workspace::lemma_shown_hidden_preserve_wf(s2[ti]);
    let s3 = s2.update(ti, ws_shown(s2[ti]));
    let r = switch_view(v, id);
    assert(r.workspaces == s3);
    assert(unique_names(s3)) by {
        assert(forall|k: int|
            0 <= k < s3.len() ==> (#[trigger] s3[k]).name == s2[k].name);
    }
    assert(s3[ti].name == id);
    assert(has_workspace(s3, id));
    assert forall|k: int| 0 <= k < s3.len() implies (#[trigger] s3[k]).wf() by {
        if k == ti {
            assert(ws_shown(s2[ti]).wf());
        } else if k == ai {
            assert(ws_hidden(v.workspaces[ai]).wf());
        } else if k < v.workspaces.len() {
            assert(s3[k] == v.workspaces[k]);
        } else {
            assert(s3[k] == fresh);
        }
    }
    assert forall|k: int|
        0 <= k < s3.len() implies {
        &&& (#[trigger] s3[k]).x == r.ws_pos_x
        &&& s3[k].y == r.ws_pos_y
        &&& s3[k].width == r.ws_width
        &&& s3[k].height == r.ws_height
    } by {
        if k == ti {
        } else if k == ai {
        } else if k < v.workspaces.len() {
            assert(s3[k] == v.workspaces[k]);
        } else {
            assert(s3[k] == fresh);
        }
    }
    assert forall|k: int|
        0 <= k < s3.len() implies ((#[trigger] s3[k]).visible ==> s3[k].name == id) && (
        s3[k].focused ==> s3[k].name == id) by {
        if k == ti {
        } else if k == ai {
            assert(s3[k] == ws_hidden(v.workspaces[ai]));
        } else if k < v.workspaces.len() {
            assert(s3[k] == v.workspaces[k]);
            if v.workspaces[k].visible || v.workspaces[k].focused {
                assert(v.workspaces[k].name == v.active_workspace);
                assert(v.workspaces[ai].name == v.active_workspace);
                assert(k != ai);
                if k < ai {
                    assert(v.workspaces[k].name != v.workspaces[ai].name);
                } else {
                    assert(v.workspaces[ai].name != v.workspaces[k].name);
                }
                assert(false);
            }
        } else {
            assert(s3[k] == fresh);
        }
    }
}

/// Switching to a workspace twice in a row is the same as switching
/// once: the second switch unmaps and remaps the very workspace the
/// first switch left active, restoring every window's geometry and
/// visibility and the active id unchanged.
pub proof fn lemma_switch_idempotent(v: ScreenInfoView, id: u16)
    requires
        v.wf(),
    ensures
        switch_view(switch_view(v, id), id) == switch_view(v, id),
{
    lemma_switch_preserves_wf(v, id);
    let t = switch_view(v, id);
    let ai = workspace_idx(v.workspaces, v.active_workspace);
    let s1 = v.workspaces.update(ai, ws_hidden(v.workspaces[ai]));
    let fresh = Workspace::fresh_view(id, v.ws_pos_x, v.ws_pos_y, v.ws_width, v.ws_height);
    let s2 = if has_workspace(s1, id) {
        s1
    } else {
        s1.push(fresh)
    };
    let ti = workspace_idx(s2, id);
    let s3 = s2.update(ti, ws_shown(s2[ti]));
    assert(t.workspaces == s3 && t.active_workspace == id);
    assert(has_workspace(s2, id)) by {
        if !has_workspace(s1, id) {
            assert(s2[s1.len() as int].name == id);
        }
    }
    assert(0 <= ti < s2.len() && s2[ti].name == id);
    assert(s3[ti].name == id);
    let ai2 = workspace_idx(s3, id);
    assert(has_workspace(s3, id));
    assert(0 <= ai2 < s3.len() && s3[ai2].name == id);
    assert(ai2 == ti) by {
        if ai2 < ti {
            assert(s3[ai2].name != s3[ti].name);
        }
        if ai2 > ti {
            assert(s3[ti].name != s3[ai2].name);
        }
    }
    let u1 = s3.update(ti, ws_hidden(s3[ti]));
    assert(u1[ti].name == id);
    assert(has_workspace(u1, id));
    let ti2 = workspace_idx(u1, id);
    assert(0 <= ti2 < u1.len() && u1[ti2].name == id);
    assert(unique_names(u1)) by {
        assert(forall|k: int|
            0 <= k < u1.len() ==> (#[trigger] u1[k]).name == s3[k].name);
    }
    assert(ti2 == ti) by {
        if ti2 < ti {
            assert(u1[ti2].name != u1[ti].name);
        }
        if ti2 > ti {
            assert(u1[ti].name != u1[ti2].name);
        }
    }
    let u3 = u1.update(ti2, ws_shown(u1[ti2]));
    lemma_ws_shown_hidden_shown(s2[ti]);
    assert(u3[ti] == s3[ti]);
    assert(u3 =~= s3);
    assert(switch_view(t, id) =~= t);
}

/// One physical screen and everything the manager knows about it.
pub struct ScreenInfo {
    /// The root window id: the screen's identity on the wire.
    pub root: u32,
    /// The workspaces of this screen; ids are unique.
    pub workspaces: Vec<Workspace>,
    pub active_workspace: u16,
    /// The rectangle workspaces may occupy: the screen minus the
    /// status-bar reservation.
    pub ws_pos_x: i32,
    pub ws_pos_y: i32,
    pub ws_width: u32,
    pub ws_height: u32,
    /// Full screen pixel dimensions.
    pub width: u32,
    pub height: u32,
    pub status_bar: Option<OxideWindow>,
}

impl View for ScreenInfo {
    type V = ScreenInfoView;

    open spec fn view(&self) -> ScreenInfoView {
        ScreenInfoView {
            root: self.root,
            workspaces: self.workspaces@.map_values(|w: Workspace| w@),
            active_workspace: self.active_workspace,
            ws_pos_x: self.ws_pos_x as int,
            ws_pos_y: self.ws_pos_y as int,
            ws_width: self.ws_width as int,
            ws_height: self.ws_height as int,
            width: self.width as int,
            height: self.height as int,
            status_bar: match self.status_bar {
                Some(w) => Some(w@),
                None => None,
            },
        }
    }
}

impl ScreenInfo {
    /// The model of a freshly set-up screen: the whole screen is
    /// available to workspaces, no status bar, and workspace 1
    /// exists, is active, and is not yet mapped.
    pub open spec fn fresh_view(root: u32, width: int, height: int) -> ScreenInfoView {
        ScreenInfoView {
            root,
            workspaces: seq![Workspace::fresh_view(1, 0, 0, width, height)],
            active_workspace: 1,
            ws_pos_x: 0,
            ws_pos_y: 0,
            ws_width: width,
            ws_height: height,
            width,
            height,
            status_bar: None::<OxideWindowView>,
        }
    }

    /// A fresh screen: the whole screen is available to workspaces,
    /// no status bar yet, and workspace 1 exists and is active
    /// (though not yet mapped).
    pub fn new(root: u32, width: u32, height: u32) -> (s: ScreenInfo)
        requires
            width <= 0xFFFF,
            height <= 0xFFFF,
        ensures
            s@ == ScreenInfo::fresh_view(root, width as int, height as int),
            s@.wf(),
    {
        let mut workspaces: Vec<Workspace> = Vec::new();
        workspaces.push(Workspace::new(1, 0, 0, width, height));
        let s = ScreenInfo {
            root,
            workspaces,
            active_workspace: 1,
            ws_pos_x: 0,
            ws_pos_y: 0,
            ws_width: width,
            ws_height: height,
            width,
            height,
            status_bar: None,
        };
        proof {
            assert(s@.workspaces =~= seq![
                Workspace::fresh_view(1, 0, 0, width as int, height as int)
            ]);
            assert(s@ =~= ScreenInfoView {
                root,
                workspaces: seq![
                    Workspace::fresh_view(1, 0, 0, width as int, height as int)
                ],
                active_workspace: 1,
                ws_pos_x: 0,
                ws_pos_y: 0,
                ws_width: width as int,
                ws_height: height as int,
                width: width as int,
                height: height as int,
                status_bar: None::<OxideWindowView>,
            });
            assert(s@.workspaces[0].name == 1);
            assert(has_workspace(s@.workspaces, 1));
        }
        s
    }

    /// The index of the workspace with this id, if it exists.
    fn workspace_index_of(&self, id: u16) -> (r: Option<usize>)
        requires
            unique_names(self@.workspaces),
        ensures
            match r {
                Some(i) => {
                    &&& 0 <= i < self@.workspaces.len()
                    &&& self@.workspaces[i as int].name == id
                    &&& workspace_idx(self@.workspaces, id) == i as int
                    &&& has_workspace(self@.workspaces, id)
                },
                None => !has_workspace(self@.workspaces, id),
            },
    {
        let n = self.workspaces.len();
        for i in 0..n
            invariant
                n == self.workspaces@.len(),
                unique_names(self@.workspaces),
                forall|k: int| 0 <= k < i ==> self@.workspaces[k].name != id,
        {
            if self.workspaces[i].name == id {
                proof {
                    assert(0 <= i < self@.workspaces.len() && self@.workspaces[i as int].name
                        == id);
                    let k = workspace_idx(self@.workspaces, id);
                    assert(0 <= k < self@.workspaces.len() && self@.workspaces[k].name == id);
                    if k < i as int {
                        assert(self@.workspaces[k].name != self@.workspaces[i as int].name);
                    }
                    if k > i as int {
                        assert(self@.workspaces[i as int].name != self@.workspaces[k].name);
                    }
                }
                return Some(i);
            }
        }
        None
    }

    /// Whether a workspace with this id exists.
    pub fn has_workspace(&self, id: u16) -> (r: bool)
        requires
            unique_names(self@.workspaces),
        ensures
            r == has_workspace(self@.workspaces, id),
    {
        match self.workspace_index_of(id) {
            Some(_) => true,
            None => false,
        }
    }

    /// How many workspaces this screen has.
    pub fn get_workspace_count(&self) -> (r: usize)
        ensures
            r == self@.workspaces.len(),
    {
        self.workspaces.len()
    }

    /// Creates the workspace `id` if it does not exist yet; an
    /// existing workspace is never overwritten.  The new workspace
    /// occupies the screen's current reserved rectangle and stays
    /// hidden until it is switched to.
    pub fn create_workspace(&mut self, id: u16)
        requires
            old(self)@.wf(),
        ensures
            final(self)@.wf(),
            has_workspace(old(self)@.workspaces, id) ==> final(self)@ == old(self)@,
            !has_workspace(old(self)@.workspaces, id) ==> final(self)@ == (ScreenInfoView {
                workspaces: old(self)@.workspaces.push(
                    Workspace::fresh_view(
                        id,
                        old(self)@.ws_pos_x,
                        old(self)@.ws_pos_y,
                        old(self)@.ws_width,
                        old(self)@.ws_height,
                    ),
                ),
                ..old(self)@
            }),
    {
        if self.has_workspace(id) {
            return;
        }
        proof {
            assert(0 <= self.ws_pos_x <= 0xFFFF);
        }
        let ws = Workspace::new(id, self.ws_pos_x, self.ws_pos_y, self.ws_width, self.ws_height);
        self.workspaces.push(ws);
        proof {
            let v = old(self)@;
            let fresh = Workspace::fresh_view(id, v.ws_pos_x, v.ws_pos_y, v.ws_width, v.ws_height);
            assert(self@.workspaces =~= v.workspaces.push(fresh));
            assert(self@ =~= ScreenInfoView { workspaces: v.workspaces.push(fresh), ..v });
            let s2 = self@.workspaces;
            assert(unique_names(s2)) by {
                assert forall|i: int, j: int|
                    0 <= i < j < s2.len() implies s2[i].name != s2[j].name by {
                    if j < v.workspaces.len() {
                        assert(v.workspaces[i].name != v.workspaces[j].name);
                    } else {
                        assert(s2[j].name == id);
                        assert(!(0 <= i < v.workspaces.len() && v.workspaces[i].name == id));
                    }
                }
            }
            let k = workspace_idx(v.workspaces, v.active_workspace);
            assert(0 <= k < v.workspaces.len() && v.workspaces[k].name == v.active_workspace);
            assert(s2[k].name == v.active_workspace);
            assert(has_workspace(s2, v.active_workspace));
        }
    }

    /// The workspace-switch algorithm: unmap and unfocus the active
    /// workspace, create the target if it does not exist, make it
    /// active, remap and focus it.  Switching to the already-active
    /// workspace runs the same sequence and leaves the screen exactly
    /// as it was.
    pub fn set_workspace_create_if_not_exists(&mut self, id: u16) -> (reqs: Vec<WmRequest>)
        requires
            old(self)@.wf(),
        ensures
            final(self)@ == switch_view(old(self)@, id),
            final(self)@.wf(),
            final(self)@.active_workspace == id,
            reqs@ == switch_requests(old(self)@, id),
    {
        let ghost v = old(self)@;
        let ai = match self.workspace_index_of(self.active_workspace) {
            Some(i) => i,
            None => {
                proof {
                    assert(false);
                }
                0
            },
        };
        proof {
            assert(self@.workspaces[ai as int].wf());
        }
        let aws = &mut self.workspaces[ai];
        let mut reqs = aws.unmap_windows();
        aws.focused = false;
        let ghost s1 = v.workspaces.update(ai as int, ws_hidden(v.workspaces[ai as int]));
        proof {
            assert(self@.workspaces[ai as int] =~= ws_hidden(v.workspaces[ai as int]));
            assert(self@.workspaces =~= s1);
            assert(forall|k: int|
                0 <= k < s1.len() ==> (#[trigger] s1[k]).name == v.workspaces[k].name);
            assert(unique_names(s1));
            assert(reqs@ == unmap_requests(v.workspaces[ai as int].windows));
        }
        if !self.has_workspace(id) {
            proof {
                assert(0 <= self.ws_pos_x <= 0xFFFF);
            }
            let ws = Workspace::new(
                id,
                self.ws_pos_x,
                self.ws_pos_y,
                self.ws_width,
                self.ws_height,
            );
            self.workspaces.push(ws);
        }
        let ghost fresh = Workspace::fresh_view(id, v.ws_pos_x, v.ws_pos_y, v.ws_width, v.ws_height);
        let ghost s2 = if has_workspace(s1, id) {
            s1
        } else {
            s1.push(fresh)
        };
        proof {
            assert(self@.workspaces =~= s2);
            assert(unique_names(s2)) by {
                if !has_workspace(s1, id) {
                    assert forall|i: int, j: int|
                        0 <= i < j < s2.len() implies s2[i].name != s2[j].name by {
                        if j < s1.len() {
                            assert(s1[i].name != s1[j].name);
                        } else {
                            assert(s2[j].name == id);
                            assert(!(0 <= i < s1.len() && s1[i].name == id));
                        }
                    }
                }
            }
            assert(has_workspace(s2, id)) by {
                if !has_workspace(s1, id) {
                    assert(s2[s1.len() as int].name == id);
                }
            }
        }
        let ti = match self.workspace_index_of(id) {
            Some(i) => i,
            None => {
                proof {
                    assert(false);
                }
                0
            },
        };
        proof {
            crate::workspace::lemma_shown_hidden_preserve_wf(v.workspaces[ai as int]);
            assert(s2[ti as int].wf()) by {
                if ti as int == ai as int {
                } else if (ti as int) < s1.len() {
                    assert(s2[ti as int] == v.workspaces[ti as int]);
                } else {
                    assert(s2[ti as int] == fresh);
                }
            }
        }
        let tws = &mut self.workspaces[ti];
        let mut reqs2 = tws.remap_windows();
        tws.focused = true;
        self.active_workspace = id;
        reqs.append(&mut reqs2);
        proof {
            let s3 = s2.update(ti as int, ws_shown(s2[ti as int]));
            assert(self@.workspaces[ti as int] =~= ws_shown(s2[ti as int]));
            assert(self@.workspaces =~= s3);
            assert(self@ =~= switch_view(v, id));
            lemma_switch_preserves_wf(v, id);
            assert(reqs@ =~= switch_requests(v, id));
        }
        reqs
    }

    /// The index of the active workspace, which always resolves on a
    /// well-formed screen.
    fn active_index(&self) -> (i: usize)
        requires
            self@.wf(),
        ensures
            0 <= i < self@.workspaces.len(),
            i as int == workspace_idx(self@.workspaces, self@.active_workspace),
            self@.workspaces[i as int] == active_ws(self@),
            self@.workspaces[i as int].wf(),
    {
        match self.workspace_index_of(self.active_workspace) {
            Some(i) => i,
            None => {
                proof {
                    assert(false);
                }
                0
            },
        }
    }

    /// The focused window of the active workspace, if any.
    pub fn get_focused_window(&self) -> (r: Option<u32>)
        requires
            self@.wf(),
        ensures
            r == active_ws(self@).focused_window,
    {
        let ai = self.active_index();
        self.workspaces[ai].get_focused_window()
    }

    /// Focuses `id` on the active workspace; a stale id is a benign
    /// no-op.
    pub fn focus_window(&mut self, id: u32)
        requires
            old(self)@.wf(),
        ensures
            final(self)@.wf(),
            final(self)@ == with_active(old(self)@, focus_result(active_ws(old(self)@), id)),
    {
        let ghost v = old(self)@;
        let ai = self.active_index();
        let aws = &mut self.workspaces[ai];
        aws.focus_window(id);
        proof {
            assert(self@.workspaces[ai as int] =~= focus_result(active_ws(v), id));
            assert(self@ =~= with_active(v, focus_result(active_ws(v), id)));
            lemma_with_active_preserves_wf(v, focus_result(active_ws(v), id));
        }
    }

    /// Clears the focus on the active workspace.
    pub fn unfocus_window(&mut self)
        requires
            old(self)@.wf(),
        ensures
            final(self)@.wf(),
            final(self)@ == with_active(
                old(self)@,
                WorkspaceView { focused_window: None::<u32>, ..active_ws(old(self)@) },
            ),
    {
        let ghost v = old(self)@;
        let ai = self.active_index();
        let aws = &mut self.workspaces[ai];
        aws.unfocus_window();
        proof {
            let w = WorkspaceView { focused_window: None::<u32>, ..active_ws(v) };
            assert(self@.workspaces[ai as int] =~= w);
            assert(self@ =~= with_active(v, w));
            lemma_with_active_preserves_wf(v, w);
        }
    }

    /// Moves the focus on the active workspace one tiling slot in the
    /// given direction.
    pub fn move_focus(&mut self, m: Movement)
        requires
            old(self)@.wf(),
        ensures
            final(self)@.wf(),
            final(self)@ == with_active(
                old(self)@,
                WorkspaceView {
                    focused_window: moved_focus(active_ws(old(self)@), m),
                    ..active_ws(old(self)@)
                },
            ),
    {
        let ghost v = old(self)@;
        let ai = self.active_index();
        let aws = &mut self.workspaces[ai];
        aws.move_focus(m);
        proof {
            let w = WorkspaceView {
                focused_window: moved_focus(active_ws(v), m),
                ..active_ws(v)
            };
            assert(self@.workspaces[ai as int] =~= w);
            assert(self@ =~= with_active(v, w));
            lemma_with_active_preserves_wf(v, w);
        }
    }

    /// Removes `id` from the active workspace, retiling if it is
    /// mapped.  An absent id is a no-op; removing the focused window
    /// clears the focus.
    pub fn remove_window(&mut self, id: u32) -> (reqs: Vec<WmRequest>)
        requires
            old(self)@.wf(),
        ensures
            final(self)@.wf(),
            final(self)@ == with_active(old(self)@, remove_result(active_ws(old(self)@), id)),
            reqs@ == remove_result_requests(active_ws(old(self)@), id),
            active_ws(old(self)@).focused_window == Some(id) ==> active_ws(final(self)@)
                .focused_window == None::<u32>,
    {
        let ghost v = old(self)@;
        let ai = self.active_index();
        let aws = &mut self.workspaces[ai];
        let reqs = aws.remove_window(id);
        proof {
            let w = remove_result(active_ws(v), id);
            assert(self@.workspaces[ai as int] =~= w);
            assert(self@ =~= with_active(v, w));
            lemma_with_active_preserves_wf(v, w);
            assert(reqs@ =~= remove_result_requests(active_ws(v), id));
            assert(workspace_idx(self@.workspaces, self@.active_workspace) == ai as int) by {
                let k = workspace_idx(self@.workspaces, self@.active_workspace);
                assert(self@.workspaces[ai as int].name == self@.active_workspace);
                assert(has_workspace(self@.workspaces, self@.active_workspace));
                assert(0 <= k < self@.workspaces.len() && self@.workspaces[k].name
                    == self@.active_workspace);
                if k < ai as int {
                    assert(self@.workspaces[k].name != self@.workspaces[ai as int].name);
                }
                if k > ai as int {
                    assert(self@.workspaces[ai as int].name != self@.workspaces[k].name);
                }
            }
        }
        reqs
    }

    /// Swaps the focused window of the active workspace with its
    /// neighbour in the given direction, retiling if mapped.  Returns
    /// the moved window's id for the enter-notify bridge.
    pub fn move_window(&mut self, m: Movement) -> (r: (Option<u32>, Vec<WmRequest>))
        requires
            old(self)@.wf(),
        ensures
            final(self)@.wf(),
            final(self)@ == with_active(old(self)@, move_window_result(active_ws(old(self)@), m)),
            r.0 == move_window_moved_id(active_ws(old(self)@), m),
            r.1@ == move_window_requests(active_ws(old(self)@), m),
    {
        let ghost v = old(self)@;
        let ai = self.active_index();
        let aws = &mut self.workspaces[ai];
        let r = aws.move_window(m);
        proof {
            let w = move_window_result(active_ws(v), m);
            assert(self@.workspaces[ai as int] =~= w);
            assert(self@ =~= with_active(v, w));
            lemma_with_active_preserves_wf(v, w);
            assert(r.1@ =~= move_window_requests(active_ws(v), m));
        }
        r
    }

    /// Issues a close request for `id`; the model is untouched until
    /// the matching unmap notification arrives.
    pub fn kill_window(&self, id: u32) -> (r: WmRequest)
        ensures
            r == (WmRequest::Kill { window: id }),
    {
        WmRequest::Kill { window: id }
    }

    /// Switches the active workspace to the given layout, retiling
    /// if mapped.
    pub fn set_layout(&mut self, l: Layout) -> (reqs: Vec<WmRequest>)
        requires
            old(self)@.wf(),
        ensures
            final(self)@.wf(),
            final(self)@ == with_active(old(self)@, layout_result(active_ws(old(self)@), l)),
            reqs@ == layout_result_requests(active_ws(old(self)@), l),
    {
        let ghost v = old(self)@;
        let ai = self.active_index();
        let aws = &mut self.workspaces[ai];
        let reqs = aws.set_layout(l);
        proof {
            let w = layout_result(active_ws(v), l);
            assert(self@.workspaces[ai as int] =~= w);
            assert(self@ =~= with_active(v, w));
            lemma_with_active_preserves_wf(v, w);
            assert(reqs@ =~= layout_result_requests(active_ws(v), l));
        }
        reqs
    }

    /// Allocates the lowest unused workspace id in `1..u16::MAX` by
    /// linear scan (falling back to `u16::MAX` itself when every
    /// lower id is taken), creates that workspace and switches to it.
    /// Returns the allocated id and the switch requests.
    pub fn create_new_workspace(&mut self) -> (r: (u16, Vec<WmRequest>))
        requires
            old(self)@.wf(),
        ensures
            final(self)@.wf(),
            is_new_workspace_id(old(self)@.workspaces, r.0),
            final(self)@ == switch_view(old(self)@, r.0),
            final(self)@.active_workspace == r.0,
            r.1@ == switch_requests(old(self)@, r.0),
    {
        let ghost v = self@;
        let mut index: u16 = u16::MAX;
        let mut i: u16 = 1;
        while i < u16::MAX
            invariant_except_break
                self@ == v,
                v.wf(),
                1 <= i <= u16::MAX,
                index == u16::MAX,
                forall|j: u16| 1 <= j < i ==> has_workspace(v.workspaces, j),
            ensures
                self@ == v,
                1 <= index,
                index < u16::MAX ==> !has_workspace(v.workspaces, index),
                forall|j: u16| 1 <= j < index ==> has_workspace(v.workspaces, j),
            decreases u16::MAX - i,
        {
            if !self.has_workspace(i) {
                index = i;
                break;
            }
            i = i + 1;
        }
        let reqs = self.set_workspace_create_if_not_exists(index);
        (index, reqs)
    }

    /// A map request for `window` on this screen: a record with its
    /// freshly created decoration `frame` joins the active
    /// workspace's ordering, and that workspace retiles and remaps.
    /// No other workspace is affected.
    pub fn on_map_request(&mut self, window: u32, frame: u32) -> (reqs: Vec<WmRequest>)
        requires
            old(self)@.wf(),
        ensures
            final(self)@.wf(),
            final(self)@ == with_active(
                old(self)@,
                mapped_ws(active_ws(old(self)@), window, frame),
            ),
            reqs@ == remap_requests(mapped_ws(active_ws(old(self)@), window, frame).windows),
    {
        let ghost v = old(self)@;
        let ai = self.active_index();
        let aws = &mut self.workspaces[ai];
        aws.new_window(window, frame);
        let reqs = aws.remap_windows();
        proof {
            let w = mapped_ws(active_ws(v), window, frame);
            assert(self@.workspaces[ai as int] =~= w);
            assert(self@ =~= with_active(v, w));
            lemma_with_active_preserves_wf(v, w);
            assert(reqs@ =~= remap_requests(w.windows));
        }
        reqs
    }

    /// Adopts `window` as this screen's status bar: records it and
    /// returns the configure and map requests that place it with the
    /// placeholder geometry, pending its own configure notification.
    pub fn add_status_bar(&mut self, window: u32) -> (reqs: Vec<WmRequest>)
        requires
            old(self)@.wf(),
        ensures
            final(self)@.wf(),
            final(self)@ == (ScreenInfoView {
                status_bar: Some(initial_bar_view(window)),
                ..old(self)@
            }),
            reqs@ == seq![
                WmRequest::Configure {
                    window,
                    x: 0,
                    y: 0,
                    width: DEFAULT_BAR_WIDTH,
                    height: DEFAULT_BAR_HEIGHT,
                },
                WmRequest::MapWindow { window },
            ],
    {
        let bar = OxideWindow {
            window,
            frame: window,
            title: String::new(),
            visible: true,
            urgent: false,
            x: 0,
            y: 0,
            width: DEFAULT_BAR_WIDTH,
            height: DEFAULT_BAR_HEIGHT,
            border_width: 0,
            titlebar_height: 0,
        };
        self.status_bar = Some(bar);
        let mut reqs: Vec<WmRequest> = Vec::new();
        reqs.push(WmRequest::Configure {
            window,
            x: 0,
            y: 0,
            width: DEFAULT_BAR_WIDTH,
            height: DEFAULT_BAR_HEIGHT,
        });
        reqs.push(WmRequest::MapWindow { window });
        proof {
            assert(self@ =~= ScreenInfoView {
                status_bar: Some(initial_bar_view(window)),
                ..old(self)@
            });
            assert(reqs@ =~= seq![
                WmRequest::Configure {
                    window,
                    x: 0,
                    y: 0,
                    width: DEFAULT_BAR_WIDTH,
                    height: DEFAULT_BAR_HEIGHT,
                },
                WmRequest::MapWindow { window },
            ]);
        }
        reqs
    }

    /// A configure notification for the status bar: recomputes the
    /// reserved workspace region from the bar's settled position and
    /// size, and moves every workspace into it.  A bar reporting
    /// `y == height - bar height` is anchored to the bottom, leaving
    /// workspaces the top of the screen; any other position counts
    /// as a top anchor.  Notifications for other windows, or a bar
    /// taller than the screen, change nothing.
    pub fn configure_status_bar(
        &mut self,
        window: u32,
        bar_y: i32,
        bar_width: u32,
        bar_height: u32,
    ) -> (reqs: Vec<WmRequest>)
        requires
            old(self)@.wf(),
        ensures
            final(self)@.wf(),
            !(bar_matches(old(self)@, window) && bar_height <= old(self)@.height) ==> {
                &&& final(self)@ == old(self)@
                &&& reqs@ == Seq::<WmRequest>::empty()
            },
            bar_matches(old(self)@, window) && bar_height <= old(self)@.height ==> {
                let ny = reserved_pos_y(old(self)@.height, bar_y as int, bar_height as int);
                let nh = old(self)@.height - bar_height;
                &&& final(self)@ == (ScreenInfoView {
                    workspaces: Seq::new(
                        old(self)@.workspaces.len(),
                        |k: int| resized_ws(
                            old(self)@.workspaces[k],
                            old(self)@.ws_pos_x,
                            ny,
                            old(self)@.ws_width,
                            nh,
                        ),
                    ),
                    ws_pos_y: ny,
                    ws_height: nh,
                    status_bar: Some(
                        bar_after(
                            old(self)@.status_bar->0,
                            old(self)@.height,
                            bar_y as int,
                            bar_width as int,
                            bar_height as int,
                        ),
                    ),
                    ..old(self)@
                })
                &&& reqs@ == resize_requests(
                    old(self)@.workspaces,
                    old(self)@.ws_pos_x,
                    ny,
                    old(self)@.ws_width,
                    nh,
                )
                &&& final(self)@.ws_height == old(self)@.height - bar_height
                &&& (bar_y == old(self)@.height - bar_height ==> final(self)@.ws_pos_y == 0)
                &&& (bar_y != old(self)@.height - bar_height ==> final(self)@.ws_pos_y
                    == bar_height)
            },
            final(self)@ == configured_screen(
                old(self)@,
                window,
                bar_y as int,
                bar_width as int,
                bar_height as int,
            ),
            reqs@ == configured_requests(
                old(self)@,
                window,
                bar_y as int,
                bar_width as int,
                bar_height as int,
            ),
    {
        let ghost v = old(self)@;
        let matches_bar = match &self.status_bar {
            Some(b) => b.window == window,
            None => false,
        };
        if !matches_bar || bar_height > self.height {
            let reqs: Vec<WmRequest> = Vec::new();
            proof {
                assert(reqs@ =~= Seq::<WmRequest>::empty());
            }
            return reqs;
        }
        let nh: u32 = self.height - bar_height;
        let bottom = bar_y == (nh as i32);
        let ny: i32 = if bottom {
            0
        } else {
            bar_height as i32
        };
        match &mut self.status_bar {
            Some(b) => {
                b.width = bar_width;
                b.height = bar_height;
                if !bottom {
                    b.x = 0;
                    b.y = 0;
                }
            },
            None => {},
        }
        self.ws_pos_y = ny;
        self.ws_height = nh;
        proof {
            assert(self@.status_bar->0 =~= bar_after(
                v.status_bar->0,
                v.height,
                bar_y as int,
                bar_width as int,
                bar_height as int,
            ));
            assert(ny as int == reserved_pos_y(v.height, bar_y as int, bar_height as int));
        }
        let px = self.ws_pos_x;
        let pw = self.ws_width;
        let mut reqs: Vec<WmRequest> = Vec::new();
        let n = self.workspaces.len();
        let mut k: usize = 0;
        while k < n
            invariant
                v.wf(),
                k <= n,
                n == self.workspaces@.len(),
                n == v.workspaces.len(),
                px as int == v.ws_pos_x,
                pw as int == v.ws_width,
                0 <= ny <= 0xFFFF,
                nh <= 0xFFFF,
                ny as int == reserved_pos_y(v.height, bar_y as int, bar_height as int),
                nh as int == v.height - bar_height,
                self@ == (ScreenInfoView {
                    workspaces: self@.workspaces,
                    ws_pos_y: ny as int,
                    ws_height: nh as int,
                    status_bar: Some(
                        bar_after(
                            v.status_bar->0,
                            v.height,
                            bar_y as int,
                            bar_width as int,
                            bar_height as int,
                        ),
                    ),
                    ..v
                }),
                forall|j: int|
                    0 <= j < k ==> #[trigger] self@.workspaces[j] == resized_ws(
                        v.workspaces[j],
                        px as int,
                        ny as int,
                        pw as int,
                        nh as int,
                    ),
                forall|j: int| k <= j < n ==> #[trigger] self@.workspaces[j] == v.workspaces[j],
                reqs@ == resize_requests(
                    v.workspaces.take(k as int),
                    px as int,
                    ny as int,
                    pw as int,
                    nh as int,
                ),
            decreases n - k,
        {
            let ghost pre = self@;
            proof {
                assert(pre.workspaces[k as int].wf());
            }
            let wsr = &mut self.workspaces[k];
            let mut r2 = wsr.update_size(px, ny, pw, nh);
            proof {
                assert(r2@ =~= resized_ws_requests(
                    v.workspaces[k as int],
                    px as int,
                    ny as int,
                    pw as int,
                    nh as int,
                ));
            }
            reqs.append(&mut r2);
            proof {
                assert(self@.workspaces =~= pre.workspaces.update(
                    k as int,
                    self@.workspaces[k as int],
                ));
                assert(self@.workspaces[k as int] =~= resized_ws(
                    v.workspaces[k as int],
                    px as int,
                    ny as int,
                    pw as int,
                    nh as int,
                ));
                assert(forall|j: int|
                    0 <= j < n && j != k as int ==> #[trigger] self@.workspaces[j]
                        == pre.workspaces[j]);
                let t1 = v.workspaces.take(k as int);
                let t2 = v.workspaces.take(k as int + 1);
                assert(t2.drop_last() =~= t1);
                assert(t2.last() == v.workspaces[k as int]);
                assert(reqs@ =~= resize_requests(
                    t2,
                    px as int,
                    ny as int,
                    pw as int,
                    nh as int,
                ));
            }
            k = k + 1;
        }
        proof {
            assert(v.workspaces.take(n as int) =~= v.workspaces);
            let ws2 = Seq::new(
                v.workspaces.len(),
                |j: int| resized_ws(
                    v.workspaces[j],
                    v.ws_pos_x,
                    ny as int,
                    v.ws_width,
                    nh as int,
                ),
            );
            assert(self@.workspaces =~= ws2);
            assert(self@ =~= ScreenInfoView {
                workspaces: ws2,
                ws_pos_y: ny as int,
                ws_height: nh as int,
                status_bar: Some(
                    bar_after(
                        v.status_bar->0,
                        v.height,
                        bar_y as int,
                        bar_width as int,
                        bar_height as int,
                    ),
                ),
                ..v
            });
            assert(self@.wf()) by {
                assert(forall|j: int|
                    0 <= j < ws2.len() ==> (#[trigger] ws2[j]).name == v.workspaces[j].name
                        && ws2[j].visible == v.workspaces[j].visible && ws2[j].focused
                        == v.workspaces[j].focused && ws2[j].wf() && ws2[j].x == v.ws_pos_x
                        && ws2[j].y == ny as int && ws2[j].width == v.ws_width && ws2[j].height
                        == nh as int) by {
                    assert forall|j: int| 0 <= j < ws2.len() implies {
                        &&& (#[trigger] ws2[j]).name == v.workspaces[j].name
                        &&& ws2[j].visible == v.workspaces[j].visible
                        &&& ws2[j].focused == v.workspaces[j].focused
                        &&& ws2[j].wf()
                        &&& ws2[j].x == v.ws_pos_x
                        &&& ws2[j].y == ny as int
                        &&& ws2[j].width == v.ws_width
                        &&& ws2[j].height == nh as int
                    } by {
                        crate::workspace::lemma_resized_preserves_wf(
                            v.workspaces[j],
                            v.ws_pos_x,
                            ny as int,
                            v.ws_width,
                            nh as int,
                        );
                    }
                }
                let k0 = workspace_idx(v.workspaces, v.active_workspace);
                assert(0 <= k0 < v.workspaces.len() && v.workspaces[k0].name
                    == v.active_workspace);
                assert(ws2[k0].name == v.active_workspace);
                assert(has_workspace(ws2, v.active_workspace));
            }
        }
        reqs
    }

    /// The id a workspace switch to `next` targets: the lowest
    /// existing id above the active one, wrapping round to the
    /// lowest existing id overall.
    pub fn next_workspace_id(&self) -> (r: u16)
        requires
            self@.wf(),
        ensures
            is_next_target(self@.workspaces, self@.active_workspace, r),
    {
        let ghost s = self@.workspaces;
        let active = self.active_workspace;
        let n = self.workspaces.len();
        proof {
            let k0 = workspace_idx(s, self@.active_workspace);
            assert(0 <= k0 < s.len());
        }
        let first = self.workspaces[0].name;
        proof {
            assert(s[0].name == first);
        }
        let mut best_all: u16 = first;
        let mut best_above: Option<u16> = if first > active {
            Some(first)
        } else {
            None
        };
        let mut k: usize = 1;
        while k < n
            invariant
                1 <= k <= n,
                n == s.len(),
                s == self@.workspaces,
                active == self@.active_workspace,
                exists|i: int| 0 <= i < k && (#[trigger] s[i]).name == best_all,
                forall|i: int| 0 <= i < k ==> (#[trigger] s[i]).name >= best_all,
                match best_above {
                    Some(b) => {
                        &&& b > active
                        &&& exists|i: int| 0 <= i < k && (#[trigger] s[i]).name == b
                        &&& forall|i: int|
                            0 <= i < k && (#[trigger] s[i]).name > active ==> s[i].name >= b
                    },
                    None => forall|i: int| 0 <= i < k ==> (#[trigger] s[i]).name <= active,
                },
            decreases n - k,
        {
            let name = self.workspaces[k].name;
            proof {
                assert(s[k as int].name == name);
            }
            if name < best_all {
                best_all = name;
            }
            if name > active {
                let take = match best_above {
                    Some(b) => name < b,
                    None => true,
                };
                if take {
                    best_above = Some(name);
                }
            }
            k = k + 1;
        }
        match best_above {
            Some(b) => {
                proof {
                    let wi = choose|i: int| 0 <= i < n && s[i].name == b;
                    assert(0 <= wi < s.len() && s[wi].name == b);
                    assert(has_workspace(s, b));
                    assert(b > active);
                    assert forall|id: u16|
                        has_workspace(s, id) && id > active implies b <= id by {
                        let i = choose|i: int| 0 <= i < s.len() && s[i].name == id;
                        assert(s[i].name >= b);
                    }
                }
                b
            },
            None => {
                proof {
                    assert forall|id: u16| has_workspace(s, id) implies best_all <= id by {
                        let i = choose|i: int| 0 <= i < s.len() && s[i].name == id;
                        assert(s[i].name >= best_all);
                    }
                    if exists|id: u16| has_workspace(s, id) && id > active {
                        let id = choose|id: u16| has_workspace(s, id) && id > active;
                        let i = choose|i: int| 0 <= i < s.len() && s[i].name == id;
                        assert(s[i].name <= active);
                        assert(false);
                    }
                }
                best_all
            },
        }
    }

    /// The id a workspace switch to `previous` targets: the highest
    /// existing id below the active one, wrapping round to the
    /// highest existing id overall.
    pub fn prev_workspace_id(&self) -> (r: u16)
        requires
            self@.wf(),
        ensures
            is_prev_target(self@.workspaces, self@.active_workspace, r),
    {
        let ghost s = self@.workspaces;
        let active = self.active_workspace;
        let n = self.workspaces.len();
        proof {
            let k0 = workspace_idx(s, self@.active_workspace);
            assert(0 <= k0 < s.len());
        }
        let first = self.workspaces[0].name;
        proof {
            assert(s[0].name == first);
        }
        let mut best_all: u16 = first;
        let mut best_below: Option<u16> = if first < active {
            Some(first)
        } else {
            None
        };
        let mut k: usize = 1;
        while k < n
            invariant
                1 <= k <= n,
                n == s.len(),
                s == self@.workspaces,
                active == self@.active_workspace,
                exists|i: int| 0 <= i < k && (#[trigger] s[i]).name == best_all,
                forall|i: int| 0 <= i < k ==> (#[trigger] s[i]).name <= best_all,
                match best_below {
                    Some(b) => {
                        &&& b < active
                        &&& exists|i: int| 0 <= i < k && (#[trigger] s[i]).name == b
                        &&& forall|i: int|
                            0 <= i < k && (#[trigger] s[i]).name < active ==> s[i].name <= b
                    },
                    None => forall|i: int| 0 <= i < k ==> (#[trigger] s[i]).name >= active,
                },
            decreases n - k,
        {
            let name = self.workspaces[k].name;
            proof {
                assert(s[k as int].name == name);
            }
            if name > best_all {
                best_all = name;
            }
            if name < active {
                let take = match best_below {
                    Some(b) => name > b,
                    None => true,
                };
                if take {
                    best_below = Some(name);
                }
            }
            k = k + 1;
        }
        match best_below {
            Some(b) => {
                proof {
                    let wi = choose|i: int| 0 <= i < n && s[i].name == b;
                    assert(0 <= wi < s.len() && s[wi].name == b);
                    assert(has_workspace(s, b));
                    assert(b < active);
                    assert forall|id: u16|
                        has_workspace(s, id) && id < active implies b >= id by {
                        let i = choose|i: int| 0 <= i < s.len() && s[i].name == id;
                        assert(s[i].name <= b);
                    }
                }
                b
            },
            None => {
                proof {
                    assert forall|id: u16| has_workspace(s, id) implies best_all >= id by {
                        let i = choose|i: int| 0 <= i < s.len() && s[i].name == id;
                        assert(s[i].name <= best_all);
                    }
                    if exists|id: u16| has_workspace(s, id) && id < active {
                        let id = choose|id: u16| has_workspace(s, id) && id < active;
                        let i = choose|i: int| 0 <= i < s.len() && s[i].name == id;
                        assert(s[i].name >= active);
                        assert(false);
                    }
                }
                best_all
            },
        }
    }

    /// Deep copy; the copy shares no storage with the original.
    pub fn duplicate(&self) -> (s: ScreenInfo)
        ensures
            s@ == self@,
    {
        let mut workspaces: Vec<Workspace> = Vec::new();
        let n = self.workspaces.len();
        for i in 0..n
            invariant
                n == self.workspaces@.len(),
                workspaces@.len() == i,
                forall|k: int| 0 <= k < i ==> workspaces@[k]@ == self@.workspaces[k],
        {
            workspaces.push(self.workspaces[i].duplicate());
        }
        let status_bar = match &self.status_bar {
            Some(b) => Some(b.duplicate()),
            None => None,
        };
        let s = ScreenInfo {
            root: self.root,
            workspaces,
            active_workspace: self.active_workspace,
            ws_pos_x: self.ws_pos_x,
            ws_pos_y: self.ws_pos_y,
            ws_width: self.ws_width,
            ws_height: self.ws_height,
            width: self.width,
            height: self.height,
            status_bar,
        };
        proof {
            assert(s@.workspaces =~= self@.workspaces);
            assert(s@ =~= self@);
        }
        s
    }

    /// Advances the active workspace to the next layout mode,
    /// retiling if mapped.
    pub fn next_layout(&mut self) -> (reqs: Vec<WmRequest>)
        requires
            old(self)@.wf(),
        ensures
            final(self)@.wf(),
            final(self)@ == with_active(
                old(self)@,
                layout_result(
                    active_ws(old(self)@),
                    crate::workspace::next_layout_of(active_ws(old(self)@).layout),
                ),
            ),
            reqs@ == layout_result_requests(
                active_ws(old(self)@),
                crate::workspace::next_layout_of(active_ws(old(self)@).layout),
            ),
    {
        let ghost v = old(self)@;
        let ai = self.active_index();
        let aws = &mut self.workspaces[ai];
        let reqs = aws.next_layout();
        proof {
            let l = crate::workspace::next_layout_of(active_ws(v).layout);
            let w = layout_result(active_ws(v), l);
            assert(self@.workspaces[ai as int] =~= w);
            assert(self@ =~= with_active(v, w));
            lemma_with_active_preserves_wf(v, w);
            assert(reqs@ =~= layout_result_requests(active_ws(v), l));
        }
        reqs
    }
}

} // verus!
