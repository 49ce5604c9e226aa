//! The seam between the engine and an output and input device.

use vstd::prelude::*;
use crate::cell::Cell;
use crate::input::KeySets;
use crate::key::Key;

verus! {

/// How the engine brings a device up to date at a frame boundary.
#[derive(Clone, Copy, Debug, PartialEq, Eq, Structural)]
pub enum RenderMode {
    /// The device keeps what it was sent: only the cells that changed since
    /// the last frame are sent again.
    Diffing,
    /// The device wipes its surface every frame: every cell is sent every
    /// frame.
    Direct,
}

/// One request to show a cell at a position of the grid.
#[derive(Clone, Copy, Debug, PartialEq, Eq, Structural)]
pub struct DrawCall {
    pub x: u32,
    pub y: u32,
    pub cell: Cell,
}

/// One request that a device has received.
pub enum Request {
    Init { title: Seq<char>, width: u32, height: u32 },
    SetFps(Option<u32>),
    Draw(DrawCall),
    Flush,
    WaitFrame,
}

/// What a device must offer to the engine.
///
/// The contracts speak of the device through three ghost values: the requests
/// it has received so far, in order; its render mode, which never changes; and
/// the key sets of its last sampling pass, which only `wait_frame` replaces.
/// An implementation that cannot carry out a request does not return.
pub trait Backend {
    /// Every request received so far, oldest first.
    spec fn requests(&self) -> Seq<Request>;

    /// The way this device wants to be brought up to date.
    spec fn mode(&self) -> RenderMode;

    /// The key sets of the last sampling pass.
    spec fn keys(&self) -> KeySets;

    /// Says how this device wants to be brought up to date.
    fn render_mode(&self) -> (m: RenderMode)
        ensures
            m == self.mode(),
    ;

    /// Sets up the output surface for a grid of `width` by `height` cells.
    fn init(&mut self, title: &str, width: u32, height: u32)
        ensures
            final(self).requests() == old(self).requests().push(
                Request::Init { title: title@, width, height },
            ),
            final(self).mode() == old(self).mode(),
            final(self).keys() == old(self).keys(),
    ;

    /// Sets the frame rate to pace to; `None` switches pacing off.
    fn set_fps(&mut self, fps: Option<u32>)
        ensures
            final(self).requests() == old(self).requests().push(Request::SetFps(fps)),
            final(self).mode() == old(self).mode(),
            final(self).keys() == old(self).keys(),
    ;

    /// Shows `cell` at column `x` of row `y`.
    fn draw_cell(&mut self, x: u32, y: u32, cell: &Cell)
        ensures
            final(self).requests() == old(self).requests().push(
                Request::Draw(DrawCall { x, y, cell: *cell }),
            ),
            final(self).mode() == old(self).mode(),
            final(self).keys() == old(self).keys(),
    ;

    /// Makes everything drawn so far visible.
    fn flush(&mut self)
        ensures
            final(self).requests() == old(self).requests().push(Request::Flush),
            final(self).mode() == old(self).mode(),
            final(self).keys() == old(self).keys(),
    ;

    /// Samples the keyboard, then waits out the rest of the frame.
    fn wait_frame(&mut self)
        ensures
            final(self).requests() == old(self).requests().push(Request::WaitFrame),
            final(self).mode() == old(self).mode(),
            final(self).keys().consistent(),
    ;

    fn is_key_pressed(&self, key: Key) -> (r: bool)
        ensures
            r == self.keys().held.contains(key),
    ;

    fn is_key_just_pressed(&self, key: Key) -> (r: bool)
        ensures
            r == self.keys().just_pressed.contains(key),
    ;

    fn is_key_just_released(&self, key: Key) -> (r: bool)
        ensures
            r == self.keys().just_released.contains(key),
    ;
}

/// A boxed backend is a backend: this is how an engine is given a device
/// that is only chosen when the program runs.
impl<B: Backend + ?Sized> Backend for Box<B> {
    open spec fn requests(&self) -> Seq<Request> {
        (**self).requests()
    }

    open spec fn mode(&self) -> RenderMode {
        (**self).mode()
    }

    open spec fn keys(&self) -> KeySets {
        (**self).keys()
    }

    fn render_mode(&self) -> (m: RenderMode) {
        (**self).render_mode()
    }

    fn init(&mut self, title: &str, width: u32, height: u32) {
        (**self).init(title, width, height)
    }

    fn set_fps(&mut self, fps: Option<u32>) {
        (**self).set_fps(fps)
    }

    fn draw_cell(&mut self, x: u32, y: u32, cell: &Cell) {
        (**self).draw_cell(x, y, cell)
    }

    fn flush(&mut self) {
        (**self).flush()
    }

    fn wait_frame(&mut self) {
        (**self).wait_frame()
    }

    fn is_key_pressed(&self, key: Key) -> (r: bool) {
        (**self).is_key_pressed(key)
    }

    fn is_key_just_pressed(&self, key: Key) -> (r: bool) {
        (**self).is_key_just_pressed(key)
    }

    fn is_key_just_released(&self, key: Key) -> (r: bool) {
        (**self).is_key_just_released(key)
    }
}

} // verus!
