//! The grid as a flat sequence of cells, and what a frame boundary sends.

use vstd::prelude::*;
use vstd::arithmetic::div_mod::{lemma_fundamental_div_mod, lemma_fundamental_div_mod_converse};
use crate::backend::{DrawCall, RenderMode, Request};
use crate::cell::{AttributeSet, Cell, Color};

verus! {

/// Whether column `x` of row `y` lies on a grid of `width` by `height` cells.
pub open spec fn in_bounds(width: u32, height: u32, x: int, y: int) -> bool {
    0 <= x < width && 0 <= y < height
}

/// The place of column `x` of row `y` in the flat sequence of a grid that is
/// `width` cells wide.
pub open spec fn cell_index(width: u32, x: int, y: int) -> int {
    y * width + x
}

/// A buffer of `n` empty cells.
pub open spec fn blank_buffer(n: nat) -> Seq<Cell> {
    Seq::new(n, |i: int| Cell::blank())
}

/// The buffer after `cell` is drawn at column `x` of row `y`: off the grid
/// nothing changes, on it the cell takes the place of what was there.
pub open spec fn drawn(buf: Seq<Cell>, width: u32, height: u32, x: int, y: int, cell: Cell) -> Seq<
    Cell,
> {
    if in_bounds(width, height, x, y) {
        buf.update(cell_index(width, x, y), cell)
    } else {
        buf
    }
}

/// The buffer after `text` is drawn from column `cx` of row `cy` on. A newline
/// moves to column `x0` of the next row; any other character is drawn as a
/// cell in the given style and moves one column on.
pub open spec fn text_drawn(
    buf: Seq<Cell>,
    width: u32,
    height: u32,
    x0: int,
    cx: int,
    cy: int,
    text: Seq<char>,
    fg: Color,
    bg: Color,
    atr: AttributeSet,
) -> Seq<Cell>
    decreases text.len(),
{
    if text.len() == 0 {
        buf
    } else if text[0] == '\n' {
        text_drawn(buf, width, height, x0, x0, cy + 1, text.drop_first(), fg, bg, atr)
    } else {
        text_drawn(
            drawn(buf, width, height, cx, cy, Cell { ch: text[0], fg, bg, atr }),
            width,
            height,
            x0,
            cx + 1,
            cy,
            text.drop_first(),
            fg,
            bg,
            atr,
        )
    }
}

/// Whether the cell at place `i` is sent at a frame boundary: always in direct
/// mode, and in diffing mode where it differs from what was sent last.
pub open spec fn is_sent(mode: RenderMode, front: Seq<Cell>, back: Seq<Cell>, i: int) -> bool {
    mode == RenderMode::Direct || back[i] != front[i]
}

/// The request that sends the cell at place `i` of `back`.
pub open spec fn call_at(width: u32, back: Seq<Cell>, i: int) -> DrawCall {
    DrawCall { x: (i % (width as int)) as u32, y: (i / (width as int)) as u32, cell: back[i] }
}

/// The draw calls that a frame boundary makes for the first `n` places, in
/// row-major order.
pub open spec fn changes_upto(
    mode: RenderMode,
    width: u32,
    front: Seq<Cell>,
    back: Seq<Cell>,
    n: nat,
) -> Seq<DrawCall>
    decreases n,
{
    if n == 0 {
        Seq::empty()
    } else {
        let prev = changes_upto(mode, width, front, back, (n - 1) as nat);
        if is_sent(mode, front, back, n - 1) {
            prev.push(call_at(width, back, n - 1))
        } else {
            prev
        }
    }
}

/// The draw calls that a frame boundary makes for the whole grid.
pub open spec fn changes(mode: RenderMode, width: u32, front: Seq<Cell>, back: Seq<Cell>) -> Seq<
    DrawCall,
> {
    changes_upto(mode, width, front, back, back.len())
}

/// The draw calls as requests to a device.
pub open spec fn as_requests(calls: Seq<DrawCall>) -> Seq<Request> {
    calls.map_values(|c: DrawCall| Request::Draw(c))
}

/// The place in the flat sequence that a draw call addresses.
pub open spec fn place(width: u32, call: DrawCall) -> int {
    cell_index(width, call.x as int, call.y as int)
}

/// On a grid of `width` by `height` cells, the call for place `i` addresses
/// place `i`, and lies on the grid.
pub proof fn lemma_call_at_place(width: u32, height: u32, back: Seq<Cell>, i: int)
    requires
        back.len() == width * height,
        0 <= i < back.len(),
    ensures
        place(width, call_at(width, back, i)) == i,
        in_bounds(
            width,
            height,
            call_at(width, back, i).x as int,
            call_at(width, back, i).y as int,
        ),
        call_at(width, back, i).cell == back[i],
{
    let w = width as int;
    assert(w > 0) by (nonlinear_arith)
        requires
            0 <= i < w * height,
            0 <= w,
    ;
    lemma_fundamental_div_mod(i, w);
    assert(0 <= i % w < w);
    assert(0 <= i / w < height) by (nonlinear_arith)
        requires
            i == w * (i / w) + i % w,
            0 <= i % w < w,
            0 <= i < w * height,
    ;
    assert(w * (i / w) == (i / w) * w) by (nonlinear_arith);
}

/// The place of a position on the grid lies in the buffer, and the call for
/// that place addresses the position.
pub proof fn lemma_place_of_position(width: u32, height: u32, back: Seq<Cell>, x: int, y: int)
    requires
        back.len() == width * height,
        in_bounds(width, height, x, y),
    ensures
        0 <= cell_index(width, x, y) < back.len(),
        call_at(width, back, cell_index(width, x, y)) == (DrawCall {
            x: x as u32,
            y: y as u32,
            cell: back[cell_index(width, x, y)],
        }),
{
    let w = width as int;
    assert(0 <= y * w && y * w + x < w * height) by (nonlinear_arith)
        requires
            0 <= x < w,
            0 <= y < height,
    ;
    lemma_fundamental_div_mod_converse(y * w + x, w, y, x);
}

/// What the calls for the first `n` places are: each sends a place below `n`
/// that is to be sent, every such place has its call, and the calls come in
/// the order of their places.
pub proof fn lemma_changes_upto(
    mode: RenderMode,
    width: u32,
    height: u32,
    front: Seq<Cell>,
    back: Seq<Cell>,
    n: nat,
)
    requires
        back.len() == width * height,
        n <= back.len(),
    ensures
        forall|k: int|
            0 <= k < changes_upto(mode, width, front, back, n).len() ==> {
                let call = #[trigger] changes_upto(mode, width, front, back, n)[k];
                &&& 0 <= place(width, call) < n
                &&& is_sent(mode, front, back, place(width, call))
                &&& call == call_at(width, back, place(width, call))
            },
        forall|i: int|
            0 <= i < n && is_sent(mode, front, back, i) ==> changes_upto(
                mode,
                width,
                front,
                back,
                n,
            ).contains(#[trigger] call_at(width, back, i)),
        forall|k: int, l: int|
            0 <= k < l < changes_upto(mode, width, front, back, n).len() ==> place(
                width,
                #[trigger] changes_upto(mode, width, front, back, n)[k],
            ) < place(width, #[trigger] changes_upto(mode, width, front, back, n)[l]),
    decreases n,
{
    if n > 0 {
        let prev = changes_upto(mode, width, front, back, (n - 1) as nat);
        let all = changes_upto(mode, width, front, back, n);
        lemma_changes_upto(mode, width, height, front, back, (n - 1) as nat);
        lemma_call_at_place(width, height, back, n - 1);
        assert forall|i: int| 0 <= i < n && is_sent(mode, front, back, i) implies all.contains(
            #[trigger] call_at(width, back, i),
        ) by {
            if i < n - 1 {
                let k = choose|k: int| 0 <= k < prev.len() && prev[k] == call_at(width, back, i);
                assert(all[k] == call_at(width, back, i));
            } else {
                assert(all[all.len() - 1] == call_at(width, back, i));
            }
        }
    }
}

/// In diffing mode a frame boundary sends exactly the places where the back
/// buffer differs from what was sent last: a position on the grid gets a call
/// if and only if its cell differs, every call carries the back buffer's cell
/// at its position, and the calls come in row-major order, none twice.
pub proof fn lemma_changes_are_the_differences(
    width: u32,
    height: u32,
    front: Seq<Cell>,
    back: Seq<Cell>,
)
    requires
        back.len() == width * height,
        front.len() == back.len(),
    ensures
        forall|x: int, y: int|
            in_bounds(width, height, x, y) ==> (changes(
                RenderMode::Diffing,
                width,
                front,
                back,
            ).contains(
                DrawCall { x: x as u32, y: y as u32, cell: back[#[trigger] cell_index(width, x, y)] },
            ) <==> back[cell_index(width, x, y)] != front[cell_index(width, x, y)]),
        forall|k: int|
            0 <= k < changes(RenderMode::Diffing, width, front, back).len() ==> {
                let call = #[trigger] changes(RenderMode::Diffing, width, front, back)[k];
                &&& in_bounds(width, height, call.x as int, call.y as int)
                &&& call.cell == back[place(width, call)]
                &&& call.cell != front[place(width, call)]
            },
        forall|k: int, l: int|
            0 <= k < l < changes(RenderMode::Diffing, width, front, back).len() ==> place(
                width,
                #[trigger] changes(RenderMode::Diffing, width, front, back)[k],
            ) < place(width, #[trigger] changes(RenderMode::Diffing, width, front, back)[l]),
{
    let calls = changes(RenderMode::Diffing, width, front, back);
    lemma_changes_upto(RenderMode::Diffing, width, height, front, back, back.len());
    assert forall|k: int| 0 <= k < calls.len() implies {
        let call = #[trigger] calls[k];
        &&& in_bounds(width, height, call.x as int, call.y as int)
        &&& call.cell == back[place(width, call)]
        &&& call.cell != front[place(width, call)]
    } by {
        lemma_call_at_place(width, height, back, place(width, calls[k]));
    }
    assert forall|x: int, y: int| in_bounds(width, height, x, y) implies (calls.contains(
        DrawCall { x: x as u32, y: y as u32, cell: back[#[trigger] cell_index(width, x, y)] },
    ) <==> back[cell_index(width, x, y)] != front[cell_index(width, x, y)]) by {
        let i = cell_index(width, x, y);
        let call = DrawCall { x: x as u32, y: y as u32, cell: back[i] };
        lemma_place_of_position(width, height, back, x, y);
        if calls.contains(call) {
            let k = choose|k: int| 0 <= k < calls.len() && calls[k] == call;
            assert(place(width, calls[k]) == i);
        }
    }
}

/// In diffing mode a frame boundary sends nothing when the back buffer is
/// what was sent last: a second frame boundary right after the first makes no
/// draw call.
pub proof fn lemma_no_changes_when_flushed(width: u32, buf: Seq<Cell>)
    ensures
        changes(RenderMode::Diffing, width, buf, buf) == Seq::<DrawCall>::empty(),
{
    lemma_no_changes_upto(width, buf, buf.len());
}

proof fn lemma_no_changes_upto(width: u32, buf: Seq<Cell>, n: nat)
    ensures
        changes_upto(RenderMode::Diffing, width, buf, buf, n) == Seq::<DrawCall>::empty(),
    decreases n,
{
    if n > 0 {
        lemma_no_changes_upto(width, buf, (n - 1) as nat);
    }
}

/// In diffing mode the frame boundary after a clear sends the empty cell to
/// exactly the positions that did not show it: once the device shows nothing
/// but empty cells, clearing sends nothing.
pub proof fn lemma_clear_sends_what_was_not_blank(width: u32, height: u32, front: Seq<Cell>)
    requires
        front.len() == width * height,
    ensures
        forall|x: int, y: int|
            in_bounds(width, height, x, y) ==> (changes(
                RenderMode::Diffing,
                width,
                front,
                blank_buffer(front.len()),
            ).contains(DrawCall { x: x as u32, y: y as u32, cell: Cell::blank() })
                <==> front[#[trigger] cell_index(width, x, y)] != Cell::blank()),
        front == blank_buffer(front.len()) ==> changes(
            RenderMode::Diffing,
            width,
            front,
            blank_buffer(front.len()),
        ) == Seq::<DrawCall>::empty(),
{
    let back = blank_buffer(front.len());
    lemma_changes_are_the_differences(width, height, front, back);
    assert forall|x: int, y: int| in_bounds(width, height, x, y) implies (changes(
        RenderMode::Diffing,
        width,
        front,
        back,
    ).contains(DrawCall { x: x as u32, y: y as u32, cell: Cell::blank() })
        <==> front[#[trigger] cell_index(width, x, y)] != Cell::blank()) by {
        lemma_place_of_position(width, height, back, x, y);
    }
    if front == back {
        lemma_no_changes_when_flushed(width, front);
    }
}

/// In direct mode a frame boundary sends every place of the back buffer, in
/// row-major order, whatever was sent before.
pub proof fn lemma_direct_sends_all(width: u32, front: Seq<Cell>, back: Seq<Cell>)
    ensures
        changes(RenderMode::Direct, width, front, back) == Seq::new(
            back.len(),
            |i: int| call_at(width, back, i),
        ),
{
    lemma_direct_sends_upto(width, front, back, back.len());
}

proof fn lemma_direct_sends_upto(width: u32, front: Seq<Cell>, back: Seq<Cell>, n: nat)
    ensures
        changes_upto(RenderMode::Direct, width, front, back, n) == Seq::new(
            n,
            |i: int| call_at(width, back, i),
        ),
    decreases n,
{
    if n > 0 {
        lemma_direct_sends_upto(width, front, back, (n - 1) as nat);
    }
    assert(changes_upto(RenderMode::Direct, width, front, back, n) =~= Seq::new(
        n,
        |i: int| call_at(width, back, i),
    ));
}

/// Distinct positions of the grid have distinct places.
pub proof fn lemma_places_differ(width: u32, height: u32, x: int, y: int, u: int, v: int)
    requires
        in_bounds(width, height, x, y),
        in_bounds(width, height, u, v),
        cell_index(width, x, y) == cell_index(width, u, v),
    ensures
        x == u,
        y == v,
{
    let w = width as int;
    assert(0 <= y * w && 0 <= v * w) by (nonlinear_arith)
        requires
            0 <= y,
            0 <= v,
            0 <= w,
    ;
    lemma_fundamental_div_mod_converse(y * w + x, w, y, x);
    lemma_fundamental_div_mod_converse(v * w + u, w, v, u);
}

/// What a draw changes: the buffer keeps its length, the cell at the
/// position drawn at is the new one, and every other cell of the grid is as
/// it was.
pub proof fn lemma_drawn(buf: Seq<Cell>, width: u32, height: u32, x: int, y: int, cell: Cell)
    requires
        buf.len() == width * height,
    ensures
        drawn(buf, width, height, x, y, cell).len() == buf.len(),
        forall|u: int, v: int|
            in_bounds(width, height, u, v) ==> drawn(buf, width, height, x, y, cell)[#[trigger] cell_index(
                width,
                u,
                v,
            )] == if u == x && v == y {
                cell
            } else {
                buf[cell_index(width, u, v)]
            },
{
    if in_bounds(width, height, x, y) {
        lemma_place_of_position(width, height, buf, x, y);
    }
    assert forall|u: int, v: int| in_bounds(width, height, u, v) implies drawn(
        buf,
        width,
        height,
        x,
        y,
        cell,
    )[#[trigger] cell_index(width, u, v)] == if u == x && v == y {
        cell
    } else {
        buf[cell_index(width, u, v)]
    } by {
        lemma_place_of_position(width, height, buf, u, v);
        if in_bounds(width, height, x, y) && cell_index(width, u, v) == cell_index(width, x, y) {
            lemma_places_differ(width, height, u, v, x, y);
        }
    }
}

/// A line of text, with no newline in it, drawn from column `cx` of row `cy`
/// on: its characters stand side by side in that row, the first at `cx`, as
/// far as the grid goes, and every other cell is as it was.
pub proof fn lemma_line_drawn(
    buf: Seq<Cell>,
    width: u32,
    height: u32,
    x0: int,
    cx: int,
    cy: int,
    text: Seq<char>,
    fg: Color,
    bg: Color,
    atr: AttributeSet,
)
    requires
        buf.len() == width * height,
        forall|i: int| 0 <= i < text.len() ==> text[i] != '\n',
    ensures
        text_drawn(buf, width, height, x0, cx, cy, text, fg, bg, atr).len() == buf.len(),
        forall|x: int, y: int|
            in_bounds(width, height, x, y) ==> text_drawn(
                buf,
                width,
                height,
                x0,
                cx,
                cy,
                text,
                fg,
                bg,
                atr,
            )[#[trigger] cell_index(width, x, y)] == if y == cy && cx <= x < cx + text.len() {
                Cell { ch: text[x - cx], fg, bg, atr }
            } else {
                buf[cell_index(width, x, y)]
            },
    decreases text.len(),
{
    if text.len() > 0 {
        let first = Cell { ch: text[0], fg, bg, atr };
        let next = drawn(buf, width, height, cx, cy, first);
        let rest = text.drop_first();
        lemma_drawn(buf, width, height, cx, cy, first);
        lemma_line_drawn(next, width, height, x0, cx + 1, cy, rest, fg, bg, atr);
        let all = text_drawn(buf, width, height, x0, cx, cy, text, fg, bg, atr);
        assert(all == text_drawn(next, width, height, x0, cx + 1, cy, rest, fg, bg, atr));
        assert forall|x: int, y: int| in_bounds(width, height, x, y) implies all[#[trigger] cell_index(
            width,
            x,
            y,
        )] == if y == cy && cx <= x < cx + text.len() {
            Cell { ch: text[x - cx], fg, bg, atr }
        } else {
            buf[cell_index(width, x, y)]
        } by {
            if y == cy && cx + 1 <= x < cx + 1 + rest.len() {
                assert(rest[x - cx - 1] == text[x - cx]);
            }
        }
    }
}

/// A draw off the grid leaves the buffer as it was.
pub proof fn lemma_draw_off_grid(
    buf: Seq<Cell>,
    width: u32,
    height: u32,
    x: int,
    y: int,
    cell: Cell,
)
    requires
        x < 0 || y < 0 || x >= width || y >= height,
    ensures
        drawn(buf, width, height, x, y, cell) == buf,
{
}

} // verus!
