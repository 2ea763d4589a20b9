//! One workspace: an ordered collection of managed windows, a focus
//! pointer and a layout, scoped to one screen.
//!
//! The window ordering is the tiling order: slot `i` of the layout
//! belongs to the `i`-th window.  Every structural change recomputes
//! the whole arrangement from scratch, so the geometry is always a
//! pure function of the ordered window list and the reserved
//! rectangle.

use vstd::prelude::*;

use crate::commands::Movement;
use crate::layout::{tile_w, tile_x, Layout};
use crate::protocol::WmRequest;
use crate::windowstate::{OxideWindow, OxideWindowView};

verus! {

/// True when no two windows in the sequence share a protocol id.
pub open spec fn unique_windows(s: Seq<OxideWindowView>) -> bool {
    forall|i: int, j: int| 0 <= i < j < s.len() ==> s[i].window != s[j].window
}

/// True when some window in the sequence has protocol id `id`.
pub open spec fn contains_window(s: Seq<OxideWindowView>, id: u32) -> bool {
    exists|i: int| 0 <= i < s.len() && s[i].window == id
}

/// The index of the window with protocol id `id`.
pub open spec fn window_index(s: Seq<OxideWindowView>, id: u32) -> int {
    choose|i: int| 0 <= i < s.len() && s[i].window == id
}

/// Window `w`, as the tiling layout shows it in slot `i` of `n` of
/// the rectangle at `x`, `y` sized `wd` by `h`.
pub open spec fn shown_window(
    w: OxideWindowView,
    i: int,
    n: int,
    x: int,
    y: int,
    wd: int,
    h: int,
) -> OxideWindowView {
    OxideWindowView {
        visible: true,
        x: tile_x(i, n, x, wd),
        y: y,
        width: tile_w(n, wd),
        height: h,
        ..w
    }
}

/// Every window of the sequence, tiled into its slot and visible.
pub open spec fn shown_windows(
    s: Seq<OxideWindowView>,
    x: int,
    y: int,
    wd: int,
    h: int,
) -> Seq<OxideWindowView> {
    Seq::new(s.len(), |i: int| shown_window(s[i], i, s.len() as int, x, y, wd, h))
}

/// Every window of the sequence made invisible; geometry untouched.
pub open spec fn hidden_windows(s: Seq<OxideWindowView>) -> Seq<OxideWindowView> {
    Seq::new(s.len(), |i: int| OxideWindowView { visible: false, ..s[i] })
}

/// The requests a remap issues: for each window in order, a configure
/// to its slot geometry followed by a map.
pub open spec fn remap_requests(s: Seq<OxideWindowView>) -> Seq<WmRequest> {
    Seq::new(
        2 * s.len(),
        |k: int|
            if k % 2 == 0 {
                WmRequest::Configure {
                    window: s[k / 2].window,
                    x: s[k / 2].x as i32,
                    y: s[k / 2].y as i32,
                    width: s[k / 2].width as u32,
                    height: s[k / 2].height as u32,
                }
            } else {
                WmRequest::MapWindow { window: s[k / 2].window }
            },
    )
}

/// The requests an unmap issues: one unmap per window, in order.
pub open spec fn unmap_requests(s: Seq<OxideWindowView>) -> Seq<WmRequest> {
    Seq::new(s.len(), |i: int| WmRequest::UnmapWindow { window: s[i].window })
}

/// Mathematical model of a workspace.
#[verifier::ext_equal]
pub ghost struct WorkspaceView {
    pub name: u16,
    pub visible: bool,
    pub focused: bool,
    pub urgent: bool,
    pub focused_window: Option<u32>,
    pub fullscreen: Option<u32>,
    pub windows: Seq<OxideWindowView>,
    pub layout: Layout,
    pub x: int,
    pub y: int,
    pub width: int,
    pub height: int,
}

impl WorkspaceView {
    /// Well-formedness: the rectangle fits the protocol's 16-bit
    /// coordinate space, window ids are unique, and the focus and
    /// fullscreen pointers refer to present windows.
    pub open spec fn wf(self) -> bool {
        &&& 0 <= self.x <= 0xFFFF
        &&& 0 <= self.y <= 0xFFFF
        &&& 0 <= self.width <= 0xFFFF
        &&& 0 <= self.height <= 0xFFFF
        &&& unique_windows(self.windows)
        &&& match self.focused_window {
            Some(id) => contains_window(self.windows, id),
            None => true,
        }
        &&& match self.fullscreen {
            Some(id) => contains_window(self.windows, id),
            None => true,
        }
    }

    /// The workspace as a remap leaves it: visible, every window
    /// tiled into its slot.
    pub open spec fn shown(self) -> WorkspaceView {
        WorkspaceView {
            visible: true,
            windows: shown_windows(self.windows, self.x, self.y, self.width, self.height),
            ..self
        }
    }

    /// The workspace as an unmap leaves it: invisible, every window
    /// invisible.
    pub open spec fn hidden(self) -> WorkspaceView {
        WorkspaceView { visible: false, windows: hidden_windows(self.windows), ..self }
    }
}

/// The workspace after the window `id` leaves the ordering: the
/// record is gone, and a focus or fullscreen pointer to it is
/// cleared.  Meaningful only when `id` is present.
pub open spec fn removed_view(v: WorkspaceView, id: u32) -> WorkspaceView {
    WorkspaceView {
        windows: v.windows.remove(window_index(v.windows, id)),
        focused_window: if v.focused_window == Some(id) {
            None
        } else {
            v.focused_window
        },
        fullscreen: if v.fullscreen == Some(id) {
            None
        } else {
            v.fullscreen
        },
        ..v
    }
}

/// Where the focus pointer lands after a focus move: the tiling
/// neighbour in the given direction, or unchanged at the edge of the
/// ordering or when nothing is focused.
pub open spec fn moved_focus(v: WorkspaceView, m: Movement) -> Option<u32> {
    match v.focused_window {
        None => None::<u32>,
        Some(id) => {
            let i = window_index(v.windows, id);
            match m {
                Movement::Right => if i + 1 < v.windows.len() {
                    Some(v.windows[i + 1].window)
                } else {
                    Some(id)
                },
                Movement::Down => if i + 1 < v.windows.len() {
                    Some(v.windows[i + 1].window)
                } else {
                    Some(id)
                },
                Movement::Left => if i >= 1 {
                    Some(v.windows[i - 1].window)
                } else {
                    Some(id)
                },
                Movement::Up => if i >= 1 {
                    Some(v.windows[i - 1].window)
                } else {
                    Some(id)
                },
            }
        },
    }
}

/// The slot the focused window would swap with on a window move, if
/// the move is possible: one slot over in the given direction.
pub open spec fn swap_partner(v: WorkspaceView, m: Movement) -> Option<int> {
    match v.focused_window {
        None => None::<int>,
        Some(id) => {
            let i = window_index(v.windows, id);
            match m {
                Movement::Right => if i + 1 < v.windows.len() {
                    Some(i + 1)
                } else {
                    None::<int>
                },
                Movement::Down => if i + 1 < v.windows.len() {
                    Some(i + 1)
                } else {
                    None::<int>
                },
                Movement::Left => if i >= 1 {
                    Some(i - 1)
                } else {
                    None::<int>
                },
                Movement::Up => if i >= 1 {
                    Some(i - 1)
                } else {
                    None::<int>
                },
            }
        },
    }
}

/// The workspace after the focused window trades slots with its
/// neighbour in the given direction; unchanged when no such move is
/// possible.
pub open spec fn swapped_view(v: WorkspaceView, m: Movement) -> WorkspaceView {
    match (v.focused_window, swap_partner(v, m)) {
        (Some(id), Some(j)) => {
            let i = window_index(v.windows, id);
            WorkspaceView {
                windows: v.windows.update(i, v.windows[j]).update(j, v.windows[i]),
                ..v
            }
        },
        _ => v,
    }
}

/// The layout after a layout-cycling command; with a single layout
/// mode the cycle has length one.
pub open spec fn next_layout_of(l: Layout) -> Layout {
    match l {
        Layout::Tiling => Layout::Tiling,
    }
}

/// The workspace after a focus request for `id`: focused when
/// present, untouched when the id is stale.
pub open spec fn focus_result(w: WorkspaceView, id: u32) -> WorkspaceView {
    if contains_window(w.windows, id) {
        WorkspaceView { focused_window: Some(id), ..w }
    } else {
        w
    }
}

/// The workspace after a removal of `id`, remap included.
pub open spec fn remove_result(w: WorkspaceView, id: u32) -> WorkspaceView {
    if !contains_window(w.windows, id) {
        w
    } else if w.visible {
        removed_view(w, id).shown()
    } else {
        removed_view(w, id)
    }
}

/// The requests a removal of `id` issues.
pub open spec fn remove_result_requests(w: WorkspaceView, id: u32) -> Seq<WmRequest> {
    if contains_window(w.windows, id) && w.visible {
        remap_requests(removed_view(w, id).shown().windows)
    } else {
        Seq::<WmRequest>::empty()
    }
}

/// The workspace after a window move, remap included.
pub open spec fn move_window_result(w: WorkspaceView, m: Movement) -> WorkspaceView {
    if swap_partner(w, m) == None::<int> {
        w
    } else if w.visible {
        swapped_view(w, m).shown()
    } else {
        swapped_view(w, m)
    }
}

/// The requests a window move issues.
pub open spec fn move_window_requests(w: WorkspaceView, m: Movement) -> Seq<WmRequest> {
    if swap_partner(w, m) != None::<int> && w.visible {
        remap_requests(swapped_view(w, m).shown().windows)
    } else {
        Seq::<WmRequest>::empty()
    }
}

/// The id a window move hands back for the enter-notify bridge.
pub open spec fn move_window_moved_id(w: WorkspaceView, m: Movement) -> Option<u32> {
    if swap_partner(w, m) == None::<int> {
        None::<u32>
    } else {
        w.focused_window
    }
}

/// The workspace after a layout switch, remap included.
pub open spec fn layout_result(w: WorkspaceView, l: Layout) -> WorkspaceView {
    let changed = WorkspaceView { layout: l, ..w };
    if w.visible {
        changed.shown()
    } else {
        changed
    }
}

/// The requests a layout switch issues.
pub open spec fn layout_result_requests(w: WorkspaceView, l: Layout) -> Seq<WmRequest> {
    if w.visible {
        remap_requests((WorkspaceView { layout: l, ..w }).shown().windows)
    } else {
        Seq::<WmRequest>::empty()
    }
}

/// The workspace after moving to a new reserved rectangle, remap
/// included.
pub open spec fn resized_ws(w: WorkspaceView, x: int, y: int, wd: int, h: int) -> WorkspaceView {
    let moved = WorkspaceView { x, y, width: wd, height: h, ..w };
    if w.visible {
        moved.shown()
    } else {
        moved
    }
}

/// The requests a resize issues: a hidden workspace moves silently,
/// a visible one remaps.
pub open spec fn resized_ws_requests(w: WorkspaceView, x: int, y: int, wd: int, h: int) -> Seq<
    WmRequest,
> {
    if w.visible {
        remap_requests((WorkspaceView { x, y, width: wd, height: h, ..w }).shown().windows)
    } else {
        Seq::<WmRequest>::empty()
    }
}

/// Moving a workspace to a new, in-range rectangle keeps it well
/// formed and touches neither its id nor its flags.
pub proof fn lemma_resized_preserves_wf(w: WorkspaceView, x: int, y: int, wd: int, h: int)
    requires
        w.wf(),
        0 <= x <= 0xFFFF,
        0 <= y <= 0xFFFF,
        0 <= wd <= 0xFFFF,
        0 <= h <= 0xFFFF,
    ensures
        resized_ws(w, x, y, wd, h).wf(),
        resized_ws(w, x, y, wd, h).name == w.name,
        resized_ws(w, x, y, wd, h).visible == w.visible,
        resized_ws(w, x, y, wd, h).focused == w.focused,
        resized_ws(w, x, y, wd, h).x == x,
        resized_ws(w, x, y, wd, h).y == y,
        resized_ws(w, x, y, wd, h).width == wd,
        resized_ws(w, x, y, wd, h).height == h,
{
    let moved = WorkspaceView { x, y, width: wd, height: h, ..w };
    assert(moved.wf());
    lemma_shown_hidden_preserve_wf(moved);
}

/// True when the point `(px, py)` lies inside the window's
/// rectangle.
pub open spec fn point_in(w: OxideWindowView, px: int, py: int) -> bool {
    &&& w.x <= px < w.x + w.width
    &&& w.y <= py < w.y + w.height
}

/// True when the two windows' rectangles share at least one point.
pub open spec fn rects_overlap(a: OxideWindowView, b: OxideWindowView) -> bool {
    exists|px: int, py: int| point_in(a, px, py) && point_in(b, px, py)
}

/// The area of one window's rectangle.
pub open spec fn area_of(w: OxideWindowView) -> int {
    w.width * w.height
}

/// The total area of a sequence of windows' rectangles.
pub open spec fn sum_areas(s: Seq<OxideWindowView>) -> int
    decreases s.len(),
{
    if s.len() == 0 {
        0
    } else {
        sum_areas(s.drop_last()) + area_of(s.last())
    }
}

/// A sequence of equal-area windows sums to count times that area.
proof fn lemma_sum_areas_const(s: Seq<OxideWindowView>, a: int)
    requires
        forall|k: int| 0 <= k < s.len() ==> area_of(#[trigger] s[k]) == a,
    ensures
        sum_areas(s) == s.len() * a,
    decreases s.len(),
{
    if s.len() == 0 {
    } else {
        lemma_sum_areas_const(s.drop_last(), a);
        assert(area_of(s.last()) == a);
        assert(s.len() as int * a == (s.len() - 1) * a + a) by (nonlinear_arith);
    }
}

/// Any two distinct windows of a tiled workspace occupy disjoint
/// rectangles: the tiling algorithm never overlaps windows, whatever
/// the window count.
pub proof fn lemma_tiling_non_overlapping(
    s: Seq<OxideWindowView>,
    x: int,
    y: int,
    w: int,
    h: int,
    i: int,
    j: int,
)
    requires
        0 <= i < j < s.len(),
        0 <= w,
    ensures
        !rects_overlap(shown_windows(s, x, y, w, h)[i], shown_windows(s, x, y, w, h)[j]),
{
    let n = s.len() as int;
    let a = shown_windows(s, x, y, w, h)[i];
    let b = shown_windows(s, x, y, w, h)[j];
    if rects_overlap(a, b) {
        let (px, py) = choose|px: int, py: int| point_in(a, px, py) && point_in(b, px, py);
        crate::layout::lemma_tile_slots_ordered(i, j, n, x, w);
        assert(a.x + a.width <= b.x);
        assert(px < a.x + a.width);
        assert(b.x <= px);
        assert(false);
    }
}

/// The tiled rectangles together cover the reserved rectangle up to
/// rounding: their areas sum to `n * (w / n) * h`, which misses the
/// full `w * h` by exactly `(w % n) * h`, with `w % n < n`.
pub proof fn lemma_tiling_union_area(s: Seq<OxideWindowView>, x: int, y: int, w: int, h: int)
    requires
        0 < s.len(),
        0 <= w,
        0 <= h,
    ensures
        sum_areas(shown_windows(s, x, y, w, h)) == s.len() * (tile_w(s.len() as int, w) * h),
        w * h - sum_areas(shown_windows(s, x, y, w, h)) == (w % (s.len() as int)) * h,
        0 <= w % (s.len() as int) < s.len(),
{
    let n = s.len() as int;
    let sh = shown_windows(s, x, y, w, h);
    assert(forall|k: int| 0 <= k < sh.len() ==> area_of(#[trigger] sh[k]) == tile_w(n, w) * h);
    lemma_sum_areas_const(sh, tile_w(n, w) * h);
    crate::layout::lemma_tile_area(n, w, h);
}

/// Remapping is idempotent: the slot geometry depends only on the
/// ordered window list and the reserved rectangle, so a second remap
/// of an already-tiled workspace changes nothing.
pub proof fn lemma_remap_idempotent(v: WorkspaceView)
    ensures
        v.shown().shown() == v.shown(),
{
    let n = v.windows.len() as int;
    let s1 = shown_windows(v.windows, v.x, v.y, v.width, v.height);
    let s2 = shown_windows(s1, v.x, v.y, v.width, v.height);
    assert forall|k: int| 0 <= k < n implies s2[k] == s1[k] by {
        assert(s2[k] =~= s1[k]);
    }
    assert(s2 =~= s1);
    assert(v.shown().shown() =~= v.shown());
}

/// Removing a window keeps the remaining ids unique and the cleared
/// or surviving pointers valid.
pub proof fn lemma_removed_preserves_wf(v: WorkspaceView, id: u32)
    requires
        v.wf(),
        contains_window(v.windows, id),
    ensures
        removed_view(v, id).wf(),
{
    let s = v.windows;
    let i = window_index(s, id);
    assert(0 <= i < s.len() && s[i].window == id);
    s.remove_ensures(i);
    let s2 = s.remove(i);
    assert(unique_windows(s2)) by {
        assert forall|a: int, b: int|
            0 <= a < b < s2.len() implies s2[a].window != s2[b].window by {
            let a2 = if a < i { a } else { a + 1 };
            let b2 = if b < i { b } else { b + 1 };
            assert(s2[a] == s[a2]);
            assert(s2[b] == s[b2]);
            assert(s[a2].window != s[b2].window);
        }
    }
    let rv = removed_view(v, id);
    if rv.focused_window is Some {
        let f = rv.focused_window->0;
        assert(f != id);
        let k = window_index(s, f);
        assert(0 <= k < s.len() && s[k].window == f);
        assert(k != i);
        if k < i {
            assert(s2[k].window == f);
        } else {
            assert(s2[k - 1] == s[k]);
            assert(s2[k - 1].window == f);
        }
        assert(contains_window(s2, f));
    }
    if rv.fullscreen is Some {
        let f = rv.fullscreen->0;
        assert(f != id);
        let k = window_index(s, f);
        assert(0 <= k < s.len() && s[k].window == f);
        assert(k != i);
        if k < i {
            assert(s2[k].window == f);
        } else {
            assert(s2[k - 1] == s[k]);
            assert(s2[k - 1].window == f);
        }
        assert(contains_window(s2, f));
    }
}

/// Swapping the focused window with its neighbour is a permutation:
/// ids stay unique and both pointers keep referring to present
/// windows.
pub proof fn lemma_swapped_preserves_wf(v: WorkspaceView, m: Movement)
    requires
        v.wf(),
    ensures
        swapped_view(v, m).wf(),
{
    if v.focused_window is Some && swap_partner(v, m) is Some {
        let id = v.focused_window->0;
        let j = swap_partner(v, m)->0;
        let s = v.windows;
        let i = window_index(s, id);
        assert(0 <= i < s.len() && s[i].window == id);
        assert(0 <= j < s.len());
        let s2 = s.update(i, s[j]).update(j, s[i]);
        assert(forall|k: int|
            0 <= k < s2.len() ==> #[trigger] s2[k] == s[
                if k == i {
                    j
                } else if k == j {
                    i
                } else {
                    k
                }
            ]);
        assert(unique_windows(s2)) by {
            assert forall|a: int, b: int|
                0 <= a < b < s2.len() implies s2[a].window != s2[b].window by {
                let a2 = if a == i { j } else if a == j { i } else { a };
                let b2 = if b == i { j } else if b == j { i } else { b };
                assert(s2[a] == s[a2]);
                assert(s2[b] == s[b2]);
                assert(a2 != b2);
                assert(s[a2].window != s[b2].window);
            }
        }
        assert(s2[j].window == id);
        assert(contains_window(s2, id));
        if v.fullscreen is Some {
            let f = v.fullscreen->0;
            let k = window_index(s, f);
            assert(0 <= k < s.len() && s[k].window == f);
            let k2 = if k == i {
                j
            } else if k == j {
                i
            } else {
                k
            };
            assert(s2[k2] == s[k]);
            assert(contains_window(s2, f));
        }
    }
}

/// Showing or hiding a workspace never touches the window ordering,
/// the ids, or the focus pointers, so well-formedness survives both.
pub proof fn lemma_shown_hidden_preserve_wf(v: WorkspaceView)
    requires
        v.wf(),
    ensures
        v.shown().wf(),
        v.hidden().wf(),
{
    let s = v.windows;
    let sh = shown_windows(s, v.x, v.y, v.width, v.height);
    let hi = hidden_windows(s);
    assert(forall|k: int| 0 <= k < s.len() ==> #[trigger] sh[k].window == s[k].window);
    assert(forall|k: int| 0 <= k < s.len() ==> #[trigger] hi[k].window == s[k].window);
    if let Some(id) = v.focused_window {
        let k = window_index(s, id);
        assert(0 <= k < s.len() && s[k].window == id);
        assert(sh[k].window == id);
        assert(hi[k].window == id);
    }
    if let Some(id) = v.fullscreen {
        let k = window_index(s, id);
        assert(0 <= k < s.len() && s[k].window == id);
        assert(sh[k].window == id);
        assert(hi[k].window == id);
    }
}

/// One workspace of one screen.
pub struct Workspace {
    /// The stable, user-visible workspace id.
    pub name: u16,
    pub visible: bool,
    pub focused: bool,
    pub urgent: bool,
    pub focused_window: Option<u32>,
    pub fullscreen: Option<u32>,
    /// Insertion order governs the tiling slot.
    pub windows: Vec<OxideWindow>,
    pub layout: Layout,
    /// The rectangle this workspace may occupy (the screen minus any
    /// reserved status-bar region).
    pub x: i32,
    pub y: i32,
    pub width: u32,
    pub height: u32,
}

impl View for Workspace {
    type V = WorkspaceView;

    open spec fn view(&self) -> WorkspaceView {
        WorkspaceView {
            name: self.name,
            visible: self.visible,
            focused: self.focused,
            urgent: self.urgent,
            focused_window: self.focused_window,
            fullscreen: self.fullscreen,
            windows: self.windows@.map_values(|w: OxideWindow| w@),
            layout: self.layout,
            x: self.x as int,
            y: self.y as int,
            width: self.width as int,
            height: self.height as int,
        }
    }
}

impl Workspace {
    /// The model of a freshly created workspace: empty and hidden.
    pub open spec fn fresh_view(name: u16, x: int, y: int, width: int, height: int)
        -> WorkspaceView {
        WorkspaceView {
            name,
            visible: false,
            focused: false,
            urgent: false,
            focused_window: None::<u32>,
            fullscreen: None::<u32>,
            windows: Seq::<OxideWindowView>::empty(),
            layout: Layout::Tiling,
            x,
            y,
            width,
            height,
        }
    }

    /// An empty, hidden workspace occupying the given rectangle.
    pub fn new(name: u16, x: i32, y: i32, width: u32, height: u32) -> (ws: Workspace)
        requires
            0 <= x <= 0xFFFF,
            0 <= y <= 0xFFFF,
            width <= 0xFFFF,
            height <= 0xFFFF,
        ensures
            ws@ == Workspace::fresh_view(name, x as int, y as int, width as int, height as int),
            ws@.wf(),
    {
        let ws = Workspace {
            name,
            visible: false,
            focused: false,
            urgent: false,
            focused_window: None,
            fullscreen: None,
            windows: Vec::new(),
            layout: Layout::Tiling,
            x,
            y,
            width,
            height,
        };
        proof {
            assert(ws@.windows =~= Seq::<OxideWindowView>::empty());
            assert(ws@ =~= Workspace::fresh_view(
                name,
                x as int,
                y as int,
                width as int,
                height as int,
            ));
        }
        ws
    }

    /// Whether a window with this protocol id is managed here.
    pub fn contains(&self, id: u32) -> (r: bool)
        ensures
            r == contains_window(self@.windows, id),
    {
        let n = self.windows.len();
        for i in 0..n
            invariant
                n == self.windows@.len(),
                forall|k: int| 0 <= k < i ==> self@.windows[k].window != id,
        {
            if self.windows[i].window == id {
                proof {
                    assert(0 <= i < self@.windows.len() && self@.windows[i as int].window == id);
                }
                return true;
            }
        }
        false
    }

    /// Appends a record for a newly mapped client window (with its
    /// decoration frame id) to the tiling order.  A window that is
    /// already present is left alone: the ordering holds each id at
    /// most once.
    pub fn new_window(&mut self, window: u32, frame: u32)
        requires
            old(self)@.wf(),
        ensures
            final(self)@.wf(),
            contains_window(old(self)@.windows, window) ==> final(self)@ == old(self)@,
            !contains_window(old(self)@.windows, window) ==> final(self)@ == (WorkspaceView {
                windows: old(self)@.windows.push(OxideWindow::fresh_view(window, frame)),
                ..old(self)@
            }),
    {
        if self.contains(window) {
            return;
        }
        let w = OxideWindow::new(window, frame);
        self.windows.push(w);
        proof {
            let s1 = old(self)@.windows;
            let s2 = self@.windows;
            assert(s2 =~= s1.push(OxideWindow::fresh_view(window, frame)));
            assert(self@ =~= WorkspaceView {
                windows: s1.push(OxideWindow::fresh_view(window, frame)),
                ..old(self)@
            });
            assert(unique_windows(s2)) by {
                assert forall|i: int, j: int|
                    0 <= i < j < s2.len() implies s2[i].window != s2[j].window by {
                    if j < s1.len() {
                        assert(s1[i].window != s1[j].window);
                    } else {
                        assert(s2[j].window == window);
                        assert(!(0 <= i < s1.len() && s1[i].window == window));
                    }
                }
            }
            if let Some(id) = old(self)@.focused_window {
                let k = window_index(s1, id);
                assert(0 <= k < s1.len() && s1[k].window == id);
                assert(0 <= k < s2.len() && s2[k].window == id);
            }
            if let Some(id) = old(self)@.fullscreen {
                let k = window_index(s1, id);
                assert(0 <= k < s1.len() && s1[k].window == id);
                assert(0 <= k < s2.len() && s2[k].window == id);
            }
        }
    }

    /// The focused window's protocol id, if any window is focused.
    pub fn get_focused_window(&self) -> (r: Option<u32>)
        ensures
            r == self@.focused_window,
    {
        self.focused_window
    }

    /// Focuses the given window.  If the id is not managed here (a
    /// benign race with a just-removed window), nothing changes.
    pub fn focus_window(&mut self, id: u32)
        requires
            old(self)@.wf(),
        ensures
            final(self)@.wf(),
            contains_window(old(self)@.windows, id) ==> final(self)@ == (WorkspaceView {
                focused_window: Some(id),
                ..old(self)@
            }),
            !contains_window(old(self)@.windows, id) ==> final(self)@ == old(self)@,
    {
        if self.contains(id) {
            self.focused_window = Some(id);
            proof {
                assert(self@ =~= WorkspaceView { focused_window: Some(id), ..old(self)@ });
            }
        } else {
            proof {
                assert(self@ =~= old(self)@);
            }
        }
    }

    /// Clears the focus pointer.
    pub fn unfocus_window(&mut self)
        requires
            old(self)@.wf(),
        ensures
            final(self)@.wf(),
            final(self)@ == (WorkspaceView { focused_window: None::<u32>, ..old(self)@ }),
    {
        self.focused_window = None;
        proof {
            assert(self@ =~= WorkspaceView { focused_window: None::<u32>, ..old(self)@ });
        }
    }

    /// Maps the workspace: recomputes every window's tiling slot from
    /// scratch, marks everything visible, and returns the configure
    /// and map requests, one pair per window in tiling order.
    pub fn remap_windows(&mut self) -> (reqs: Vec<WmRequest>)
        requires
            old(self)@.wf(),
        ensures
            final(self)@ == old(self)@.shown(),
            final(self)@.wf(),
            reqs@ == remap_requests(old(self)@.shown().windows),
    {
        let ghost orig = self@;
        let ghost shown = shown_windows(orig.windows, orig.x, orig.y, orig.width, orig.height);
        let mut reqs: Vec<WmRequest> = Vec::new();
        self.visible = true;
        let n = self.windows.len();
        let mut i: usize = 0;
        while i < n
            invariant
                orig.wf(),
                i <= n,
                n == self.windows@.len(),
                n == orig.windows.len(),
                shown == shown_windows(orig.windows, orig.x, orig.y, orig.width, orig.height),
                self@ == (WorkspaceView { visible: true, windows: self@.windows, ..orig }),
                forall|k: int| 0 <= k < i ==> self@.windows[k] == shown[k],
                forall|k: int| i <= k < n ==> self@.windows[k] == orig.windows[k],
                reqs@.len() == 2 * i,
                forall|k: int| 0 <= k < 2 * i ==> reqs@[k] == remap_requests(shown)[k],
            decreases n - i,
        {
            let wid = self.windows[i].window;
            let (sx, sy, sw, sh) = crate::layout::tile_slot(
                i,
                n,
                self.x,
                self.y,
                self.width,
                self.height,
            );
            let wr = &mut self.windows[i];
            wr.visible = true;
            wr.x = sx;
            wr.y = sy;
            wr.width = sw;
            wr.height = sh;
            reqs.push(WmRequest::Configure { window: wid, x: sx, y: sy, width: sw, height: sh });
            reqs.push(WmRequest::MapWindow { window: wid });
            proof {
                assert(self@.windows[i as int] =~= shown[i as int]);
                assert(shown[i as int].window == wid);
                assert(reqs@[2 * i as int] == remap_requests(shown)[2 * i as int]);
                assert(reqs@[2 * i + 1] == remap_requests(shown)[2 * i + 1]);
            }
            i = i + 1;
        }
        proof {
            assert(self@.windows =~= shown);
            assert(self@ =~= orig.shown());
            lemma_shown_hidden_preserve_wf(orig);
            assert(reqs@ =~= remap_requests(shown));
        }
        reqs
    }

    /// Unmaps the workspace: marks everything invisible and returns
    /// one unmap request per window, in tiling order.
    pub fn unmap_windows(&mut self) -> (reqs: Vec<WmRequest>)
        requires
            old(self)@.wf(),
        ensures
            final(self)@ == old(self)@.hidden(),
            final(self)@.wf(),
            reqs@ == unmap_requests(old(self)@.windows),
    {
        let ghost orig = self@;
        let ghost hidden = hidden_windows(orig.windows);
        let mut reqs: Vec<WmRequest> = Vec::new();
        self.visible = false;
        let n = self.windows.len();
        let mut i: usize = 0;
        while i < n
            invariant
                i <= n,
                n == self.windows@.len(),
                n == orig.windows.len(),
                hidden == hidden_windows(orig.windows),
                self@ == (WorkspaceView { visible: false, windows: self@.windows, ..orig }),
                forall|k: int| 0 <= k < i ==> self@.windows[k] == hidden[k],
                forall|k: int| i <= k < n ==> self@.windows[k] == orig.windows[k],
                reqs@.len() == i,
                forall|k: int| 0 <= k < i ==> reqs@[k] == unmap_requests(orig.windows)[k],
            decreases n - i,
        {
            let wid = self.windows[i].window;
            let wr = &mut self.windows[i];
            wr.visible = false;
            reqs.push(WmRequest::UnmapWindow { window: wid });
            proof {
                assert(self@.windows[i as int] =~= hidden[i as int]);
            }
            i = i + 1;
        }
        proof {
            assert(self@.windows =~= hidden);
            assert(self@ =~= orig.hidden());
            lemma_shown_hidden_preserve_wf(orig);
            assert(reqs@ =~= unmap_requests(orig.windows));
        }
        reqs
    }

    /// Asks the client window to close.  The record is not removed
    /// here: removal happens when the unmap notification arrives, so
    /// the model cannot diverge from a client that refuses to die.
    pub fn kill_window(&self, id: u32) -> (r: WmRequest)
        ensures
            r == (WmRequest::Kill { window: id }),
    {
        WmRequest::Kill { window: id }
    }

    /// The tiling-order index of the window with this id, if present.
    fn index_of(&self, id: u32) -> (r: Option<usize>)
        requires
            self@.wf(),
        ensures
            match r {
                Some(i) => {
                    &&& 0 <= i < self@.windows.len()
                    &&& self@.windows[i as int].window == id
                    &&& window_index(self@.windows, id) == i as int
                    &&& contains_window(self@.windows, id)
                },
                None => !contains_window(self@.windows, id),
            },
    {
        let n = self.windows.len();
        for i in 0..n
            invariant
                n == self.windows@.len(),
                unique_windows(self@.windows),
                forall|k: int| 0 <= k < i ==> self@.windows[k].window != id,
        {
            if self.windows[i].window == id {
                proof {
                    assert(0 <= i < self@.windows.len() && self@.windows[i as int].window == id);
                    let k = window_index(self@.windows, id);
                    assert(0 <= k < self@.windows.len() && self@.windows[k].window == id);
                    if k < i as int {
                        assert(self@.windows[k].window != self@.windows[i as int].window);
                    }
                    if k > i as int {
                        assert(self@.windows[i as int].window != self@.windows[k].window);
                    }
                }
                return Some(i);
            }
        }
        None
    }

    /// Removes the window `id` from the ordering.  An absent id is a
    /// no-op; removing the focused window clears the focus.  On a
    /// visible workspace the remaining windows are retiled and the
    /// remap requests returned.
    pub fn remove_window(&mut self, id: u32) -> (reqs: Vec<WmRequest>)
        requires
            old(self)@.wf(),
        ensures
            final(self)@.wf(),
            !contains_window(old(self)@.windows, id) ==> {
                &&& final(self)@ == old(self)@
                &&& reqs@ == Seq::<WmRequest>::empty()
            },
            contains_window(old(self)@.windows, id) && !old(self)@.visible ==> {
                &&& final(self)@ == removed_view(old(self)@, id)
                &&& reqs@ == Seq::<WmRequest>::empty()
            },
            contains_window(old(self)@.windows, id) && old(self)@.visible ==> {
                &&& final(self)@ == removed_view(old(self)@, id).shown()
                &&& reqs@ == remap_requests(removed_view(old(self)@, id).shown().windows)
            },
            old(self)@.focused_window == Some(id) ==> final(self)@.focused_window
                == None::<u32>,
    {
        let ghost orig = self@;
        let idx = match self.index_of(id) {
            None => {
                let reqs: Vec<WmRequest> = Vec::new();
                proof {
                    assert(reqs@ =~= Seq::<WmRequest>::empty());
                }
                return reqs;
            },
            Some(i) => i,
        };
        let removed = self.windows.remove(idx);
        let clear_focus = match self.focused_window {
            Some(f) => f == id,
            None => false,
        };
        if clear_focus {
            self.focused_window = None;
        }
        let clear_fullscreen = match self.fullscreen {
            Some(f) => f == id,
            None => false,
        };
        if clear_fullscreen {
            self.fullscreen = None;
        }
        proof {
            lemma_removed_preserves_wf(orig, id);
            assert(self@.windows =~= orig.windows.remove(window_index(orig.windows, id)));
            assert(self@ =~= removed_view(orig, id));
        }
        if self.visible {
            self.remap_windows()
        } else {
            let reqs: Vec<WmRequest> = Vec::new();
            proof {
                assert(reqs@ =~= Seq::<WmRequest>::empty());
            }
            reqs
        }
    }

    /// Moves the focus pointer to the tiling neighbour in the given
    /// direction.  At the edge of the ordering, or with nothing
    /// focused, the focus stays where it was.
    pub fn move_focus(&mut self, m: Movement)
        requires
            old(self)@.wf(),
        ensures
            final(self)@.wf(),
            final(self)@ == (WorkspaceView {
                focused_window: moved_focus(old(self)@, m),
                ..old(self)@
            }),
    {
        let f = match self.focused_window {
            Some(id) => id,
            None => {
                proof {
                    assert(self@ =~= WorkspaceView {
                        focused_window: moved_focus(old(self)@, m),
                        ..old(self)@
                    });
                }
                return;
            },
        };
        let i = match self.index_of(f) {
            Some(i) => i,
            None => {
                proof {
                    assert(false);
                }
                0
            },
        };
        let n = self.windows.len();
        match m {
            Movement::Right | Movement::Down => {
                if i + 1 < n {
                    let nid = self.windows[i + 1].window;
                    self.focused_window = Some(nid);
                    proof {
                        assert(0 <= i + 1 < self@.windows.len() && self@.windows[i as int
                            + 1].window == nid);
                    }
                }
            },
            Movement::Left | Movement::Up => {
                if i >= 1 {
                    let nid = self.windows[i - 1].window;
                    self.focused_window = Some(nid);
                    proof {
                        assert(0 <= i - 1 < self@.windows.len() && self@.windows[i as int
                            - 1].window == nid);
                    }
                }
            },
        }
        proof {
            assert(self@ =~= WorkspaceView {
                focused_window: moved_focus(old(self)@, m),
                ..old(self)@
            });
        }
    }

    /// Swaps the focused window with its tiling neighbour in the
    /// given direction and, on a visible workspace, retiles.  Returns
    /// the moved window's id so the caller can arm the enter-notify
    /// bridge, together with the remap requests.  With nothing
    /// focused, or at the edge of the ordering, nothing changes.
    pub fn move_window(&mut self, m: Movement) -> (r: (Option<u32>, Vec<WmRequest>))
        requires
            old(self)@.wf(),
        ensures
            final(self)@.wf(),
            swap_partner(old(self)@, m) == None::<int> ==> {
                &&& final(self)@ == old(self)@
                &&& r.0 == None::<u32>
                &&& r.1@ == Seq::<WmRequest>::empty()
            },
            swap_partner(old(self)@, m) != None::<int> ==> {
                &&& r.0 == old(self)@.focused_window
                &&& (old(self)@.visible ==> {
                    &&& final(self)@ == swapped_view(old(self)@, m).shown()
                    &&& r.1@ == remap_requests(swapped_view(old(self)@, m).shown().windows)
                })
                &&& (!old(self)@.visible ==> {
                    &&& final(self)@ == swapped_view(old(self)@, m)
                    &&& r.1@ == Seq::<WmRequest>::empty()
                })
            },
    {
        let ghost orig = self@;
        let empty_reqs: Vec<WmRequest> = Vec::new();
        proof {
            assert(empty_reqs@ =~= Seq::<WmRequest>::empty());
        }
        let f = match self.focused_window {
            Some(id) => id,
            None => {
                return (None, empty_reqs);
            },
        };
        let i = match self.index_of(f) {
            Some(i) => i,
            None => {
                proof {
                    assert(false);
                }
                0
            },
        };
        let n = self.windows.len();
        let j: usize = match m {
            Movement::Right | Movement::Down => {
                if i + 1 < n {
                    i + 1
                } else {
                    return (None, empty_reqs);
                }
            },
            Movement::Left | Movement::Up => {
                if i >= 1 {
                    i - 1
                } else {
                    return (None, empty_reqs);
                }
            },
        };
        let moved = self.windows.remove(i);
        self.windows.insert(j, moved);
        proof {
            assert(self@.windows =~= orig.windows.update(i as int, orig.windows[j as int]).update(
                j as int,
                orig.windows[i as int],
            ));
            assert(self@ =~= swapped_view(orig, m));
            lemma_swapped_preserves_wf(orig, m);
        }
        if self.visible {
            let reqs = self.remap_windows();
            (Some(f), reqs)
        } else {
            (Some(f), empty_reqs)
        }
    }

    /// Switches to the given layout and retiles a visible workspace
    /// immediately, returning the remap requests.
    pub fn set_layout(&mut self, l: Layout) -> (reqs: Vec<WmRequest>)
        requires
            old(self)@.wf(),
        ensures
            final(self)@.wf(),
            !old(self)@.visible ==> {
                &&& final(self)@ == (WorkspaceView { layout: l, ..old(self)@ })
                &&& reqs@ == Seq::<WmRequest>::empty()
            },
            old(self)@.visible ==> {
                &&& final(self)@ == (WorkspaceView { layout: l, ..old(self)@ }).shown()
                &&& reqs@ == remap_requests(
                    (WorkspaceView { layout: l, ..old(self)@ }).shown().windows,
                )
            },
    {
        self.layout = l;
        proof {
            assert(self@ =~= WorkspaceView { layout: l, ..old(self)@ });
        }
        if self.visible {
            self.remap_windows()
        } else {
            let reqs: Vec<WmRequest> = Vec::new();
            proof {
                assert(reqs@ =~= Seq::<WmRequest>::empty());
            }
            reqs
        }
    }

    /// Advances to the next layout mode and retiles a visible
    /// workspace immediately.
    pub fn next_layout(&mut self) -> (reqs: Vec<WmRequest>)
        requires
            old(self)@.wf(),
        ensures
            final(self)@.wf(),
            !old(self)@.visible ==> {
                &&& final(self)@ == (WorkspaceView {
                    layout: next_layout_of(old(self)@.layout),
                    ..old(self)@
                })
                &&& reqs@ == Seq::<WmRequest>::empty()
            },
            old(self)@.visible ==> {
                &&& final(self)@ == (WorkspaceView {
                    layout: next_layout_of(old(self)@.layout),
                    ..old(self)@
                }).shown()
                &&& reqs@ == remap_requests(
                    (WorkspaceView {
                        layout: next_layout_of(old(self)@.layout),
                        ..old(self)@
                    }).shown().windows,
                )
            },
    {
        let next = match self.layout {
            Layout::Tiling => Layout::Tiling,
        };
        self.set_layout(next)
    }

    /// Moves the workspace to a new reserved rectangle (the screen
    /// region left over after status-bar reservation) and retiles a
    /// visible workspace immediately.
    pub fn update_size(&mut self, x: i32, y: i32, width: u32, height: u32) -> (reqs: Vec<
        WmRequest,
    >)
        requires
            old(self)@.wf(),
            0 <= x <= 0xFFFF,
            0 <= y <= 0xFFFF,
            width <= 0xFFFF,
            height <= 0xFFFF,
        ensures
            final(self)@.wf(),
            !old(self)@.visible ==> {
                &&& final(self)@ == (WorkspaceView {
                    x: x as int,
                    y: y as int,
                    width: width as int,
                    height: height as int,
                    ..old(self)@
                })
                &&& reqs@ == Seq::<WmRequest>::empty()
            },
            old(self)@.visible ==> {
                &&& final(self)@ == (WorkspaceView {
                    x: x as int,
                    y: y as int,
                    width: width as int,
                    height: height as int,
                    ..old(self)@
                }).shown()
                &&& reqs@ == remap_requests(
                    (WorkspaceView {
                        x: x as int,
                        y: y as int,
                        width: width as int,
                        height: height as int,
                        ..old(self)@
                    }).shown().windows,
                )
            },
    {
        self.x = x;
        self.y = y;
        self.width = width;
        self.height = height;
        proof {
            assert(self@ =~= WorkspaceView {
                x: x as int,
                y: y as int,
                width: width as int,
                height: height as int,
                ..old(self)@
            });
        }
        if self.visible {
            self.remap_windows()
        } else {
            let reqs: Vec<WmRequest> = Vec::new();
            proof {
                assert(reqs@ =~= Seq::<WmRequest>::empty());
            }
            reqs
        }
    }

    /// Deep copy; the copy shares no storage with the original.
    pub fn duplicate(&self) -> (ws: Workspace)
        ensures
            ws@ == self@,
    {
        let mut windows: Vec<OxideWindow> = Vec::new();
        let n = self.windows.len();
        for i in 0..n
            invariant
                n == self.windows@.len(),
                windows@.len() == i,
                forall|k: int| 0 <= k < i ==> windows@[k]@ == self@.windows[k],
        {
            windows.push(self.windows[i].duplicate());
        }
        let ws = Workspace {
            name: self.name,
            visible: self.visible,
            focused: self.focused,
            urgent: self.urgent,
            focused_window: self.focused_window,
            fullscreen: self.fullscreen,
            windows,
            layout: self.layout,
            x: self.x,
            y: self.y,
            width: self.width,
            height: self.height,
        };
        proof {
            assert(ws@.windows =~= self@.windows);
            assert(ws@ =~= self@);
        }
        ws
    }
}

} // verus!
