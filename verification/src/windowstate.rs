//! One managed top-level window: the client window, its decoration
//! frame, and the geometry the tiling algorithm computed for it.

use vstd::prelude::*;

verus! {

/// Mathematical model of one managed window.
#[verifier::ext_equal]
pub ghost struct OxideWindowView {
    pub window: u32,
    pub frame: u32,
    pub title: Seq<char>,
    pub visible: bool,
    pub urgent: bool,
    pub x: int,
    pub y: int,
    pub width: int,
    pub height: int,
    pub border_width: int,
    pub titlebar_height: int,
}

/// One managed top-level window.
///
/// `window` is the client's own protocol resource id and `frame` the
/// decoration window the manager created around it; both are owned by
/// the workspace holding this record.  The geometry is whatever the
/// tiling algorithm last assigned.
pub struct OxideWindow {
    pub window: u32,
    pub frame: u32,
    pub title: String,
    pub visible: bool,
    pub urgent: bool,
    pub x: i32,
    pub y: i32,
    pub width: u32,
    pub height: u32,
    pub border_width: u32,
    pub titlebar_height: u32,
}

impl View for OxideWindow {
    type V = OxideWindowView;

    open spec fn view(&self) -> OxideWindowView {
        OxideWindowView {
            window: self.window,
            frame: self.frame,
            title: self.title@,
            visible: self.visible,
            urgent: self.urgent,
            x: self.x as int,
            y: self.y as int,
            width: self.width as int,
            height: self.height as int,
            border_width: self.border_width as int,
            titlebar_height: self.titlebar_height as int,
        }
    }
}

impl OxideWindow {
    /// The model of a freshly created record: invisible, untitled,
    /// with no geometry assigned yet.
    pub open spec fn fresh_view(window: u32, frame: u32) -> OxideWindowView {
        OxideWindowView {
            window,
            frame,
            title: Seq::<char>::empty(),
            visible: false,
            urgent: false,
            x: 0,
            y: 0,
            width: 0,
            height: 0,
            border_width: 0,
            titlebar_height: 0,
        }
    }

    /// A freshly mapped window: invisible until the first remap, with
    /// no geometry assigned yet.
    pub fn new(window: u32, frame: u32) -> (w: OxideWindow)
        ensures
            w@ == OxideWindow::fresh_view(window, frame),
    {
        let w = OxideWindow {
            window,
            frame,
            title: String::new(),
            visible: false,
            urgent: false,
            x: 0,
            y: 0,
            width: 0,
            height: 0,
            border_width: 0,
            titlebar_height: 0,
        };
        proof {
            assert(w@ =~= OxideWindow::fresh_view(window, frame));
        }
        w
    }

    /// Deep copy; the copy shares no storage with the original.
    pub fn duplicate(&self) -> (w: OxideWindow)
        ensures
            w@ == self@,
    {
        let w = OxideWindow {
            window: self.window,
            frame: self.frame,
            title: self.title.clone(),
            visible: self.visible,
            urgent: self.urgent,
            x: self.x,
            y: self.y,
            width: self.width,
            height: self.height,
            border_width: self.border_width,
            titlebar_height: self.titlebar_height,
        };
        proof {
            assert(w@ =~= self@);
        }
        w
    }
}

} // verus!
