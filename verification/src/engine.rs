//! The engine: the grid's buffers, the drawing operations and the frame
//! boundary.

use vstd::prelude::*;
use vstd::std_specs::iter::IteratorSpec;
use vstd::arithmetic::div_mod::lemma_fundamental_div_mod_converse;
use crate::backend::{Backend, DrawCall, RenderMode, Request};
use crate::cell::{Attribute, AttributeSet, Cell, Color};
use crate::grid::{
    as_requests, blank_buffer, call_at, cell_index, changes, changes_upto, drawn, in_bounds,
    is_sent, lemma_changes_are_the_differences, lemma_no_changes_when_flushed, text_drawn,
};
use crate::key::Key;

verus! {

/// The engine. It owns the device and the grid's buffers: `back`, which the
/// draw calls compose, and in diffing mode `front`, which holds what the device
/// was sent last.
pub struct Wobl<B: Backend> {
    width: u32,
    height: u32,
    mode: RenderMode,
    back: Vec<Cell>,
    front: Vec<Cell>,
    backend: B,
}

impl<B: Backend> Wobl<B> {
    /// The buffers have the lengths that the grid's size and the mode ask for.
    /// Every operation keeps this.
    pub closed spec fn wf(&self) -> bool {
        &&& self.width * self.height <= usize::MAX
        &&& self.back@.len() == self.width * self.height
        &&& self.front@.len() == if self.mode == RenderMode::Diffing {
            self.back@.len()
        } else {
            0
        }
    }

    pub closed spec fn spec_width(&self) -> u32 {
        self.width
    }

    pub closed spec fn spec_height(&self) -> u32 {
        self.height
    }

    pub closed spec fn spec_mode(&self) -> RenderMode {
        self.mode
    }

    /// The buffer that the draw calls compose.
    pub closed spec fn spec_back(&self) -> Seq<Cell> {
        self.back@
    }

    /// In diffing mode what the device was sent last; empty in direct mode.
    pub closed spec fn spec_front(&self) -> Seq<Cell> {
        self.front@
    }

    /// The device.
    pub closed spec fn spec_backend(&self) -> B {
        self.backend
    }

    /// Whether `other` differs from `self` in the back buffer at most.
    pub open spec fn same_but_back(&self, other: &Self) -> bool {
        &&& self.spec_width() == other.spec_width()
        &&& self.spec_height() == other.spec_height()
        &&& self.spec_mode() == other.spec_mode()
        &&& self.spec_front() == other.spec_front()
        &&& self.spec_backend() == other.spec_backend()
    }

    /// Whether `other` has the grid's size, the mode and the back buffer of
    /// `self`.
    pub open spec fn same_composition(&self, other: &Self) -> bool {
        &&& self.spec_width() == other.spec_width()
        &&& self.spec_height() == other.spec_height()
        &&& self.spec_mode() == other.spec_mode()
        &&& self.spec_back() == other.spec_back()
    }

    /// Whether `self` is what a flush makes of `before`: the device has been
    /// sent the draw calls for what changed and then told to show them, what
    /// was sent last is the back buffer in diffing mode, and the rest is as
    /// it was.
    pub open spec fn flushed_from(&self, before: &Self) -> bool {
        &&& self.same_composition(before)
        &&& self.spec_front() == if before.spec_mode() == RenderMode::Diffing {
            before.spec_back()
        } else {
            before.spec_front()
        }
        &&& self.spec_backend().requests() == (before.spec_backend().requests() + as_requests(
            changes(
                before.spec_mode(),
                before.spec_width(),
                before.spec_front(),
                before.spec_back(),
            ),
        )).push(Request::Flush)
        &&& self.spec_backend().mode() == before.spec_backend().mode()
        &&& self.spec_backend().keys() == before.spec_backend().keys()
    }

    /// Whether `self` is what a frame boundary makes of `before`: a flush,
    /// and after it the device's sampling and waiting. The key sets are what
    /// the sampling finds, and consistent.
    pub open spec fn frame_boundary_from(&self, before: &Self) -> bool {
        &&& self.same_composition(before)
        &&& self.spec_front() == if before.spec_mode() == RenderMode::Diffing {
            before.spec_back()
        } else {
            before.spec_front()
        }
        &&& self.spec_backend().requests() == (before.spec_backend().requests() + as_requests(
            changes(
                before.spec_mode(),
                before.spec_width(),
                before.spec_front(),
                before.spec_back(),
            ),
        )).push(Request::Flush).push(Request::WaitFrame)
        &&& self.spec_backend().mode() == before.spec_backend().mode()
        &&& self.spec_backend().keys().consistent()
    }

    /// Creates the engine for a grid of `width` by `height` empty cells on the
    /// given device, which is told the frame rate and then set up.
    pub fn new(backend: B, name: &str, width: u32, height: u32, fps: Option<u32>) -> (w: Self)
        requires
            width * height <= usize::MAX,
        ensures
            w.wf(),
            w.spec_width() == width,
            w.spec_height() == height,
            w.spec_mode() == backend.mode(),
            w.spec_back() == blank_buffer((width * height) as nat),
            w.spec_front() == if backend.mode() == RenderMode::Diffing {
                blank_buffer((width * height) as nat)
            } else {
                Seq::<Cell>::empty()
            },
            w.spec_backend().requests() == backend.requests().push(Request::SetFps(fps)).push(
                Request::Init { title: name@, width, height },
            ),
            w.spec_backend().mode() == backend.mode(),
            w.spec_backend().keys() == backend.keys(),
    {
        assert(width * height == (width as usize) * (height as usize));
        let size: usize = (width as usize) * (height as usize);
        let mut backend = backend;
        let mode = backend.render_mode();
        let back = blank_cells(size);
        let front = match mode {
            RenderMode::Diffing => blank_cells(size),
            RenderMode::Direct => Vec::new(),
        };
        backend.set_fps(fps);
        backend.init(name, width, height);
        Wobl { width, height, mode, back, front, backend }
    }

    pub fn width(&self) -> (w: u32)
        ensures
            w == self.spec_width(),
    {
        self.width
    }

    pub fn height(&self) -> (h: u32)
        ensures
            h == self.spec_height(),
    {
        self.height
    }

    pub fn render_mode(&self) -> (m: RenderMode)
        ensures
            m == self.spec_mode(),
    {
        self.mode
    }

    /// The buffer that the draw calls compose, row by row.
    pub fn back(&self) -> (cells: &Vec<Cell>)
        ensures
            cells@ == self.spec_back(),
    {
        &self.back
    }

    /// In diffing mode what the device was sent last, row by row; empty in
    /// direct mode.
    pub fn front(&self) -> (cells: &Vec<Cell>)
        ensures
            cells@ == self.spec_front(),
    {
        &self.front
    }

    /// The device.
    pub fn backend(&self) -> (b: &B)
        ensures
            *b == self.spec_backend(),
    {
        &self.backend
    }

    /// The device, to change it in place. The grid, the mode and the buffers
    /// stay as they are.
    pub fn backend_mut(&mut self) -> (b: &mut B)
        ensures
            *b == old(self).spec_backend(),
            final(self).spec_backend() == *final(b),
            final(self).wf() == old(self).wf(),
            final(self).same_composition(old(self)),
            final(self).spec_front() == old(self).spec_front(),
    {
        &mut self.backend
    }

    /// The place of column `x` of row `y` in the buffers.
    pub fn index(&self, x: u32, y: u32) -> (i: usize)
        requires
            cell_index(self.spec_width(), x as int, y as int) <= usize::MAX,
        ensures
            i == cell_index(self.spec_width(), x as int, y as int),
            self.wf() && in_bounds(self.spec_width(), self.spec_height(), x as int, y as int)
                ==> i < self.spec_back().len(),
    {
        assert(0 <= y * self.width) by (nonlinear_arith);
        proof {
            if in_bounds(self.width, self.height, x as int, y as int) {
                assert(y * self.width + x < self.width * self.height) by (nonlinear_arith)
                    requires
                        0 <= x < self.width,
                        0 <= y < self.height,
                ;
            }
        }
        (y as usize) * (self.width as usize) + (x as usize)
    }

    /// Sets the frame rate that the device paces to; `None` switches pacing
    /// off.
    pub fn set_fps(&mut self, fps: Option<u32>)
        ensures
            final(self).wf() == old(self).wf(),
            final(self).same_composition(old(self)),
            final(self).spec_front() == old(self).spec_front(),
            final(self).spec_backend().requests() == old(self).spec_backend().requests().push(
                Request::SetFps(fps),
            ),
            final(self).spec_backend().mode() == old(self).spec_backend().mode(),
            final(self).spec_backend().keys() == old(self).spec_backend().keys(),
    {
        self.backend.set_fps(fps);
    }

    /// Resets every cell of the back buffer to the empty cell. What the
    /// device was sent last is not touched.
    pub fn clear(&mut self)
        requires
            old(self).wf(),
        ensures
            final(self).wf(),
            final(self).same_but_back(old(self)),
            final(self).spec_back() == blank_buffer(old(self).spec_back().len()),
    {
        self.back = blank_cells(self.back.len());
    }

    /// Brings the device up to date with the back buffer and makes the result
    /// visible. In diffing mode the cells that differ from what the device was
    /// sent last are sent, in direct mode all of them, row by row.
    pub fn flush(&mut self)
        requires
            old(self).wf(),
        ensures
            final(self).wf(),
            final(self).flushed_from(old(self)),
    {
        let total: usize = self.back.len();
        let ghost front0 = self.front@;
        let ghost back0 = self.back@;
        let ghost requests0 = self.backend.requests();
        let mut idx: usize = 0;
        let mut x: u32 = 0;
        let mut y: u32 = 0;
        while idx < total
            invariant
                self.wf(),
                self.same_composition(old(self)),
                self.back@ == back0,
                total == back0.len(),
                idx <= total,
                idx == y * self.width + x,
                total > 0 ==> x < self.width,
                self.front@.len() == front0.len(),
                self.mode == RenderMode::Diffing ==> forall|i: int|
                    0 <= i < idx ==> self.front@[i] == back0[i],
                forall|i: int| idx <= i < front0.len() ==> self.front@[i] == front0[i],
                self.backend.requests() == requests0 + as_requests(
                    changes_upto(self.mode, self.width, front0, back0, idx as nat),
                ),
                self.backend.mode() == old(self).spec_backend().mode(),
                self.backend.keys() == old(self).spec_backend().keys(),
            decreases total - idx,
        {
            let cell = self.back[idx];
            let send = match self.mode {
                RenderMode::Direct => true,
                RenderMode::Diffing => cell != self.front[idx],
            };
            proof {
                lemma_fundamental_div_mod_converse(
                    idx as int,
                    self.width as int,
                    y as int,
                    x as int,
                );
                assert(y < self.height) by (nonlinear_arith)
                    requires
                        y * self.width + x < self.width * self.height,
                        0 <= x,
                        0 <= self.width,
                ;
                assert((y + 1) * self.width == y * self.width + self.width) by (nonlinear_arith);
                assert(send == is_sent(self.mode, front0, back0, idx as int));
            }
            let ghost before = changes_upto(self.mode, self.width, front0, back0, idx as nat);
            if send {
                self.backend.draw_cell(x, y, &cell);
                match self.mode {
                    RenderMode::Diffing => {
                        self.front.set(idx, cell);
                    },
                    RenderMode::Direct => {},
                }
                proof {
                    let call = DrawCall { x, y, cell };
                    assert(call == call_at(self.width, back0, idx as int));
                    assert(as_requests(before.push(call)) =~= as_requests(before).push(
                        Request::Draw(call),
                    ));
                    assert(requests0 + as_requests(before).push(Request::Draw(call)) =~= (requests0
                        + as_requests(before)).push(Request::Draw(call)));
                }
            }
            idx += 1;
            x += 1;
            if x == self.width {
                x = 0;
                y += 1;
            }
        }
        self.backend.flush();
        proof {
            if self.mode == RenderMode::Diffing {
                assert(self.front@ =~= back0);
            } else {
                assert(self.front@ =~= front0);
            }
        }
    }

    /// The frame boundary: brings the device up to date, makes the result
    /// visible, and then lets the device sample the keyboard and wait out the
    /// rest of the frame.
    pub fn wait_frame(&mut self)
        requires
            old(self).wf(),
        ensures
            final(self).wf(),
            final(self).frame_boundary_from(old(self)),
    {
        self.flush();
        self.backend.wait_frame();
    }

    /// Whether `key` is down, as of the last frame boundary.
    pub fn is_key_pressed(&self, key: Key) -> (r: bool)
        ensures
            r == self.spec_backend().keys().held.contains(key),
    {
        self.backend.is_key_pressed(key)
    }

    /// Whether `key` went down during the last frame boundary's sampling.
    pub fn is_key_just_pressed(&self, key: Key) -> (r: bool)
        ensures
            r == self.spec_backend().keys().just_pressed.contains(key),
    {
        self.backend.is_key_just_pressed(key)
    }

    /// Whether `key` went up during the last frame boundary's sampling.
    pub fn is_key_just_released(&self, key: Key) -> (r: bool)
        ensures
            r == self.spec_backend().keys().just_released.contains(key),
    {
        self.backend.is_key_just_released(key)
    }

    /// Draws `text` from column `x` of row `y` on, in the given colours and
    /// with the modifiers that occur in `atr`. A newline goes back to column
    /// `x` on the next row. Nothing wraps: what falls off the grid is not
    /// drawn.
    pub fn draw_text_atr(
        &mut self,
        x: i32,
        y: i32,
        text: &str,
        fg: Color,
        bg: Color,
        atr: &Vec<Attribute>,
    )
        requires
            old(self).wf(),
        ensures
            final(self).wf(),
            final(self).same_but_back(old(self)),
            final(self).spec_back() == text_drawn(
                old(self).spec_back(),
                old(self).spec_width(),
                old(self).spec_height(),
                x as int,
                x as int,
                y as int,
                text@,
                fg,
                bg,
                AttributeSet::of(atr@),
            ),
    {
        broadcast use vstd::string::group_string_axioms;

        let style = AttributeSet::from_vec(atr);
        let mut cx: i64 = x as i64;
        let mut cy: i64 = y as i64;
        let ghost mut col: int = x as int;
        let ghost mut row: int = y as int;
        let ghost mut done: int = 0;
        let mut it = text.chars();
        assert(text@.skip(0) =~= text@);
        loop
            invariant
                self.wf(),
                self.same_but_back(old(self)),
                self.width == old(self).spec_width(),
                self.height == old(self).spec_height(),
                0 <= done <= text@.len(),
                it.remaining() == text@.skip(done),
                x <= col,
                y <= row,
                cx == saturated(col),
                cy == saturated(row),
                text_drawn(
                    self.back@,
                    self.width,
                    self.height,
                    x as int,
                    col,
                    row,
                    text@.skip(done),
                    fg,
                    bg,
                    style,
                ) == text_drawn(
                    old(self).spec_back(),
                    self.width,
                    self.height,
                    x as int,
                    x as int,
                    y as int,
                    text@,
                    fg,
                    bg,
                    style,
                ),
            ensures
                done == text@.len(),
            decreases text@.len() - done,
        {
            let ghost rest = text@.skip(done);
            match it.next() {
                None => {
                    assert(rest.len() == 0);
                    break ;
                },
                Some(ch) => {
                    proof {
                        assert(rest.len() > 0);
                        assert(rest[0] == ch);
                        assert(rest.drop_first() =~= text@.skip(done + 1));
                    }
                    if ch == '\n' {
                        if cy < i64::MAX {
                            cy += 1;
                        }
                        cx = x as i64;
                        proof {
                            row = row + 1;
                            col = x as int;
                        }
                    } else {
                        self.put(cx, cy, Cell::new(ch, fg, bg, style));
                        if cx < i64::MAX {
                            cx += 1;
                        }
                        proof {
                            col = col + 1;
                        }
                    }
                    proof {
                        done = done + 1;
                    }
                },
            }
        }
    }

    /// Draws `text` from column `x` of row `y` on, in the given colours and
    /// with no modifier.
    pub fn draw_text(&mut self, x: i32, y: i32, text: &str, fg: Color, bg: Color)
        requires
            old(self).wf(),
        ensures
            final(self).wf(),
            final(self).same_but_back(old(self)),
            final(self).spec_back() == text_drawn(
                old(self).spec_back(),
                old(self).spec_width(),
                old(self).spec_height(),
                x as int,
                x as int,
                y as int,
                text@,
                fg,
                bg,
                AttributeSet::spec_none(),
            ),
    {
        let atr: Vec<Attribute> = Vec::new();
        assert(AttributeSet::of(atr@) == AttributeSet::spec_none());
        self.draw_text_atr(x, y, text, fg, bg, &atr);
    }

    /// Draws `cell` at column `x` of row `y`. Off the grid this does nothing.
    pub fn draw_cell(&mut self, x: i32, y: i32, cell: &Cell)
        requires
            old(self).wf(),
        ensures
            final(self).wf(),
            final(self).same_but_back(old(self)),
            final(self).spec_back() == drawn(
                old(self).spec_back(),
                old(self).spec_width(),
                old(self).spec_height(),
                x as int,
                y as int,
                *cell,
            ),
            !in_bounds(old(self).spec_width(), old(self).spec_height(), x as int, y as int)
                ==> final(self).spec_back() == old(self).spec_back(),
    {
        self.put(x as i64, y as i64, *cell);
    }

    fn put(&mut self, x: i64, y: i64, cell: Cell)
        requires
            old(self).wf(),
        ensures
            final(self).wf(),
            final(self).same_but_back(old(self)),
            final(self).spec_back() == drawn(
                old(self).spec_back(),
                old(self).spec_width(),
                old(self).spec_height(),
                x as int,
                y as int,
                cell,
            ),
    {
        if x >= 0 && y >= 0 && x < self.width as i64 && y < self.height as i64 {
            assert(0 <= y * self.width && y * self.width + x < self.width * self.height)
                by (nonlinear_arith)
                requires
                    0 <= x < self.width,
                    0 <= y < self.height,
            ;
            let idx: usize = self.index(x as u32, y as u32);
            self.back.set(idx, cell);
        }
    }

    /// In diffing mode the second of two frame boundaries with no draw in
    /// between sends no draw call: the device is only told to show and to
    /// sample and wait.
    pub proof fn lemma_second_frame_boundary_draws_nothing(
        before: &Self,
        first: &Self,
        second: &Self,
    )
        requires
            before.spec_mode() == RenderMode::Diffing,
            first.frame_boundary_from(before),
            second.frame_boundary_from(first),
        ensures
            second.spec_backend().requests() == first.spec_backend().requests().push(
                Request::Flush,
            ).push(Request::WaitFrame),
            second.spec_front() == first.spec_front(),
            second.spec_back() == first.spec_back(),
    {
        lemma_no_changes_when_flushed(first.spec_width(), first.spec_back());
        assert(first.spec_backend().requests() + as_requests(Seq::<DrawCall>::empty())
            =~= first.spec_backend().requests());
    }

    /// The lengths that a well-formed engine's buffers have.
    pub proof fn lemma_shape(&self)
        requires
            self.wf(),
        ensures
            self.spec_back().len() == self.spec_width() * self.spec_height(),
            self.spec_front().len() == if self.spec_mode() == RenderMode::Diffing {
                self.spec_back().len()
            } else {
                0
            },
    {
    }

    /// In diffing mode a frame boundary sends exactly what the draw calls
    /// since the frame boundary before have changed. With `first` the engine
    /// after that earlier boundary and `composed` the engine after the draw
    /// calls, the boundary that follows sends a call for a position of the
    /// grid if and only if the cell composed there differs from the one in
    /// `first`, and that call carries the composed cell.
    pub proof fn lemma_frame_boundary_sends_the_differences(
        start: &Self,
        first: &Self,
        composed: &Self,
        second: &Self,
    )
        requires
            start.spec_mode() == RenderMode::Diffing,
            first.wf(),
            first.frame_boundary_from(start),
            composed.wf(),
            composed.same_but_back(first),
            second.frame_boundary_from(composed),
        ensures
            second.spec_backend().requests() == (composed.spec_backend().requests() + as_requests(
                changes(
                    RenderMode::Diffing,
                    composed.spec_width(),
                    first.spec_back(),
                    composed.spec_back(),
                ),
            )).push(Request::Flush).push(Request::WaitFrame),
            forall|x: int, y: int|
                in_bounds(composed.spec_width(), composed.spec_height(), x, y) ==> (changes(
                    RenderMode::Diffing,
                    composed.spec_width(),
                    first.spec_back(),
                    composed.spec_back(),
                ).contains(
                    DrawCall {
                        x: x as u32,
                        y: y as u32,
                        cell: composed.spec_back()[#[trigger] cell_index(
                            composed.spec_width(),
                            x,
                            y,
                        )],
                    },
                ) <==> composed.spec_back()[cell_index(composed.spec_width(), x, y)]
                    != first.spec_back()[cell_index(composed.spec_width(), x, y)]),
            second.spec_front() == composed.spec_back(),
    {
        first.lemma_shape();
        composed.lemma_shape();
        lemma_changes_are_the_differences(
            composed.spec_width(),
            composed.spec_height(),
            first.spec_back(),
            composed.spec_back(),
        );
    }
}

/// A cursor position as the drawing loop keeps it: exact up to the largest
/// `i64`, which is far off every grid, and held there beyond it.
spec fn saturated(v: int) -> int {
    if v < i64::MAX {
        v
    } else {
        i64::MAX as int
    }
}

/// A buffer of `n` empty cells.
pub fn blank_cells(n: usize) -> (cells: Vec<Cell>)
    ensures
        cells@ == blank_buffer(n as nat),
{
    let mut cells: Vec<Cell> = Vec::with_capacity(n);
    let mut i: usize = 0;
    while i < n
        invariant
            i <= n,
            cells@ == blank_buffer(i as nat),
        decreases n - i,
    {
        cells.push(Cell::empty());
        i += 1;
        assert(cells@ =~= blank_buffer(i as nat));
    }
    cells
}

} // verus!
