use vstd::prelude::*;
use crate::geometry::{Event, Geometry, clamp_i32, clamp_to_i32};

verus! {

/// What the windowing platform reports.
#[derive(Debug, Clone, Copy, PartialEq, Eq, Structural)]
pub enum Input {
    Resized { width: u32, height: u32 },
    CursorMoved { x: i32, y: i32 },
    /// The primary mouse button went down (`pressed`) or up.
    MouseButton { pressed: bool },
    RedrawRequested,
    CloseRequested,
}

/// What the frame loop does next.
pub enum Action {
    /// Leave the event loop.
    Exit,
    /// Lay the tree out again for the new size, then redraw.
    Relayout,
    /// Deliver the events to the tree in order, then ask for a redraw.
    Dispatch(Vec<Event>),
    /// Run one frame: lifecycle update, clear the queue, prepare, collect
    /// the text areas, submit, present.
    Render,
    /// Nothing to do.
    Ignore,
}

/// The frame loop's decisions: the window size, the pointer position, and
/// whether the screen is out of date.
pub struct FrameDriver {
    width: i32,
    height: i32,
    cursor_x: i32,
    cursor_y: i32,
    dirty: bool,
}

impl FrameDriver {
    pub closed spec fn size(&self) -> (int, int) {
        (self.width as int, self.height as int)
    }

    pub closed spec fn cursor(&self) -> (i32, i32) {
        (self.cursor_x, self.cursor_y)
    }

    pub closed spec fn is_dirty(&self) -> bool {
        self.dirty
    }

    /// A driver for a window of the given size; the first frame is due.
    pub fn new(width: u32, height: u32) -> (d: FrameDriver)
        ensures
            d.size() == (clamp_i32(width as int), clamp_i32(height as int)),
            d.cursor() == (0i32, 0i32),
            d.is_dirty(),
    {
        FrameDriver {
            width: clamp_to_i32(width as i64),
            height: clamp_to_i32(height as i64),
            cursor_x: 0,
            cursor_y: 0,
            dirty: true,
        }
    }

    /// The root's parent geometry: the whole window.
    pub open spec fn spec_root(&self) -> Geometry {
        Geometry { x: 0, y: 0, width: self.size().0 as i32, height: self.size().1 as i32 }
    }

    pub fn root_geometry(&self) -> (g: Geometry)
        ensures
            g == self.spec_root(),
    {
        Geometry { x: 0, y: 0, width: self.width, height: self.height }
    }

    /// Decides what an input calls for, and records its effect: a resize
    /// to a non-empty size relays out; a pointer move is delivered as a move;
    /// a button press as a press followed at once by a click at the same
    /// point, a release as a release; each of these marks the screen out of
    /// date. A redraw renders only an out-of-date screen, which it brings up
    /// to date.
    pub fn step(&mut self, input: Input) -> (a: Action)
        ensures
            match input {
                Input::Resized { width, height } => if width > 0 && height > 0 {
                    &&& a is Relayout
                    &&& final(self).size() == (clamp_i32(width as int), clamp_i32(height as int))
                    &&& final(self).cursor() == old(self).cursor()
                    &&& final(self).is_dirty()
                } else {
                    &&& a is Ignore
                    &&& *final(self) == *old(self)
                },
                Input::CursorMoved { x, y } => {
                    &&& a is Dispatch
                    &&& a->Dispatch_0@ == seq![Event::MouseMove { x, y }]
                    &&& final(self).size() == old(self).size()
                    &&& final(self).cursor() == (x, y)
                    &&& final(self).is_dirty()
                },
                Input::MouseButton { pressed } => {
                    let (x, y) = old(self).cursor();
                    &&& a is Dispatch
                    &&& a->Dispatch_0@ == if pressed {
                        seq![Event::MouseDown { x, y }, Event::MouseClick { x, y }]
                    } else {
                        seq![Event::MouseUp { x, y }]
                    }
                    &&& final(self).size() == old(self).size()
                    &&& final(self).cursor() == old(self).cursor()
                    &&& final(self).is_dirty()
                },
                Input::RedrawRequested => {
                    &&& (if old(self).is_dirty() {
                        a is Render
                    } else {
                        a is Ignore
                    })
                    &&& final(self).size() == old(self).size()
                    &&& final(self).cursor() == old(self).cursor()
                    &&& !final(self).is_dirty()
                },
                Input::CloseRequested => {
                    &&& a is Exit
                    &&& *final(self) == *old(self)
                },
            },
    {
        match input {
            Input::Resized { width, height } => {
                if width > 0 && height > 0 {
                    self.width = clamp_to_i32(width as i64);
                    self.height = clamp_to_i32(height as i64);
                    self.dirty = true;
                    Action::Relayout
                } else {
                    Action::Ignore
                }
            },
            Input::CursorMoved { x, y } => {
                self.cursor_x = x;
                self.cursor_y = y;
                self.dirty = true;
                let mut events: Vec<Event> = Vec::new();
                events.push(Event::MouseMove { x, y });
                assert(events@ =~= seq![Event::MouseMove { x, y }]);
                Action::Dispatch(events)
            },
            Input::MouseButton { pressed } => {
                let x = self.cursor_x;
                let y = self.cursor_y;
                let mut events: Vec<Event> = Vec::new();
                if pressed {
                    events.push(Event::MouseDown { x, y });
                    events.push(Event::MouseClick { x, y });
                    assert(events@ =~= seq![Event::MouseDown { x, y }, Event::MouseClick { x, y }]);
                } else {
                    events.push(Event::MouseUp { x, y });
                    assert(events@ =~= seq![Event::MouseUp { x, y }]);
                }
                self.dirty = true;
                Action::Dispatch(events)
            },
            Input::RedrawRequested => {
                if self.dirty {
                    self.dirty = false;
                    Action::Render
                } else {
                    Action::Ignore
                }
            },
            Input::CloseRequested => Action::Exit,
        }
    }
}

} // verus!
