//! General laws of the engine, each proved once and for all: the
//! toroidal wrap of neighbor counting, the birth and survival rules,
//! the stability of the 2x2 still-life block, the period-2 blinker,
//! the idempotence of blanking, and the render round trip.

use crate::cells::{
    dead_color_byte, lemma_flat_coords, lemma_row_major_bounds, lemma_row_major_unflatten, Cell,
    Grid, rendered_byte,
};
use vstd::prelude::*;

verus! {

/// Toroidal wrap: each corner of the grid counts the diagonally
/// opposite corner among its eight neighbors, so a live cell there
/// contributes to the corner's neighbor count.
pub proof fn lemma_toroidal_wrap_corners(g: Grid)
    requires
        g.wf(),
    ensures
        g.alive_at(g.height - 1, g.width - 1) ==> g.neighbor_count(0, 0) >= 1,
        g.alive_at(0, 0) ==> g.neighbor_count(g.height - 1, g.width - 1) >= 1,
        g.alive_at(g.height - 1, 0) ==> g.neighbor_count(0, g.width - 1) >= 1,
        g.alive_at(0, g.width - 1) ==> g.neighbor_count(g.height - 1, 0) >= 1,
{
}

/// Toroidal wrap along the edges: a cell on the first row counts its
/// wrapped upper neighbor on the last row, and symmetrically for the
/// last row and for the first and last columns.
pub proof fn lemma_toroidal_wrap_edges(g: Grid, i: int, j: int)
    requires
        g.wf(),
        0 <= i < g.height,
        0 <= j < g.width,
    ensures
        g.alive_at(g.height - 1, j) ==> g.neighbor_count(0, j) >= 1,
        g.alive_at(0, j) ==> g.neighbor_count(g.height - 1, j) >= 1,
        g.alive_at(i, g.width - 1) ==> g.neighbor_count(i, 0) >= 1,
        g.alive_at(i, 0) ==> g.neighbor_count(i, g.width - 1) >= 1,
{
}

/// Birth rule: a dead cell is live after one advance exactly when it
/// has three live neighbors; with any other count it stays dead.
pub proof fn lemma_birth_rule(g: Grid, i: int, j: int)
    requires
        g.wf(),
        0 <= i < g.height,
        0 <= j < g.width,
        !g.alive_at(i, j),
    ensures
        g.next_alive(i, j) <==> g.neighbor_count(i, j) == 3,
{
}

/// Survival rule: a live cell stays live after one advance exactly
/// when it has two or three live neighbors; otherwise it dies.
pub proof fn lemma_survival_rule(g: Grid, i: int, j: int)
    requires
        g.wf(),
        0 <= i < g.height,
        0 <= j < g.width,
        g.alive_at(i, j),
    ensures
        g.next_alive(i, j) <==> (g.neighbor_count(i, j) == 2 || g.neighbor_count(i, j) == 3),
{
}

/// `after` holds the rule applied simultaneously to `before`, on the
/// same field, exactly as `check_rules` guarantees of its two states.
pub open spec fn advanced(before: Grid, after: Grid) -> bool {
    &&& after.width == before.width
    &&& after.height == before.height
    &&& forall|i: int, j: int|
        0 <= i < after.height && 0 <= j < after.width ==> (#[trigger] after.alive_at(i, j))
            == before.next_alive(i, j)
}

/// Exactly the four cells of the 2x2 block whose top-left corner is
/// `(r, c)` are live.
pub open spec fn block_config(g: Grid, r: int, c: int) -> bool {
    forall|i: int, j: int|
        0 <= i < g.height && 0 <= j < g.width ==> ((#[trigger] g.alive_at(i, j)) <==> ((i == r || i
            == r + 1) && (j == c || j == c + 1)))
}

/// Still life: on a grid of at least 4x4, one advance maps the 2x2
/// block on an otherwise dead field to itself, cell for cell.
pub proof fn lemma_block_is_still(g: Grid, r: int, c: int)
    requires
        g.wf(),
        4 <= g.width,
        4 <= g.height,
        0 <= r,
        r + 1 < g.height,
        0 <= c,
        c + 1 < g.width,
        block_config(g, r, c),
    ensures
        forall|i: int, j: int|
            0 <= i < g.height && 0 <= j < g.width ==> ((#[trigger] g.next_alive(i, j)) <==> ((i
                == r || i == r + 1) && (j == c || j == c + 1))),
{
}

/// One advance carried a block forward: if `after` holds the rule
/// applied to `before` (as `check_rules` guarantees) and `before`
/// shows the 2x2 block at `(r, c)`, then so does `after`.
pub proof fn lemma_block_still_life(before: Grid, after: Grid, r: int, c: int)
    requires
        before.wf(),
        after.wf(),
        advanced(before, after),
        4 <= before.width,
        4 <= before.height,
        0 <= r,
        r + 1 < before.height,
        0 <= c,
        c + 1 < before.width,
        block_config(before, r, c),
    ensures
        block_config(after, r, c),
{
    lemma_block_is_still(before, r, c);
}

/// The block at step `t` of a chain of advances, by induction on `t`.
proof fn lemma_block_along_chain(states: Seq<Grid>, r: int, c: int, t: int)
    requires
        forall|u: int| 0 <= u < states.len() ==> (#[trigger] states[u]).wf(),
        forall|u: int| 0 <= u < states.len() - 1 ==> advanced(#[trigger] states[u], states[u + 1]),
        0 < states.len(),
        4 <= states[0].width,
        4 <= states[0].height,
        0 <= r,
        r + 1 < states[0].height,
        0 <= c,
        c + 1 < states[0].width,
        block_config(states[0], r, c),
        0 <= t < states.len(),
    ensures
        states[t].width == states[0].width,
        states[t].height == states[0].height,
        block_config(states[t], r, c),
    decreases t,
{
    if t > 0 {
        lemma_block_along_chain(states, r, c, t - 1);
        assert(advanced(states[t - 1], states[t]));
        lemma_block_still_life(states[t - 1], states[t], r, c);
    }
}

/// Still life under any number of advances: along a chain of states in
/// which each is the advance of the one before it (as `check_rules`
/// guarantees), a 2x2 block shown by the first state is shown by every
/// state of the chain.
pub proof fn lemma_block_still_forever(states: Seq<Grid>, r: int, c: int)
    requires
        forall|u: int| 0 <= u < states.len() ==> (#[trigger] states[u]).wf(),
        forall|u: int| 0 <= u < states.len() - 1 ==> advanced(#[trigger] states[u], states[u + 1]),
        0 < states.len(),
        4 <= states[0].width,
        4 <= states[0].height,
        0 <= r,
        r + 1 < states[0].height,
        0 <= c,
        c + 1 < states[0].width,
        block_config(states[0], r, c),
    ensures
        forall|t: int| 0 <= t < states.len() ==> block_config(#[trigger] states[t], r, c),
{
    assert forall|t: int| 0 <= t < states.len() implies block_config(
        #[trigger] states[t],
        r,
        c,
    ) by {
        lemma_block_along_chain(states, r, c, t);
    }
}

/// Exactly the three cells `(r, c-1)`, `(r, c)`, `(r, c+1)` are live:
/// a horizontal blinker centered at `(r, c)`.
pub open spec fn horizontal_line_config(g: Grid, r: int, c: int) -> bool {
    forall|i: int, j: int|
        0 <= i < g.height && 0 <= j < g.width ==> ((#[trigger] g.alive_at(i, j)) <==> (i == r && c
            - 1 <= j <= c + 1))
}

/// Exactly the three cells `(r-1, c)`, `(r, c)`, `(r+1, c)` are live:
/// a vertical blinker centered at `(r, c)`.
pub open spec fn vertical_line_config(g: Grid, r: int, c: int) -> bool {
    forall|i: int, j: int|
        0 <= i < g.height && 0 <= j < g.width ==> ((#[trigger] g.alive_at(i, j)) <==> (j == c && r
            - 1 <= i <= r + 1))
}

/// One advance turns a horizontal blinker into a vertical one.
proof fn lemma_blinker_h_to_v(g: Grid, r: int, c: int)
    requires
        g.wf(),
        5 <= g.width,
        5 <= g.height,
        2 <= r,
        r + 2 < g.height,
        2 <= c,
        c + 2 < g.width,
        horizontal_line_config(g, r, c),
    ensures
        forall|i: int, j: int|
            0 <= i < g.height && 0 <= j < g.width ==> ((#[trigger] g.next_alive(i, j)) <==> (j == c
                && r - 1 <= i <= r + 1)),
{
}

/// One advance turns a vertical blinker into a horizontal one.
proof fn lemma_blinker_v_to_h(g: Grid, r: int, c: int)
    requires
        g.wf(),
        5 <= g.width,
        5 <= g.height,
        2 <= r,
        r + 2 < g.height,
        2 <= c,
        c + 2 < g.width,
        vertical_line_config(g, r, c),
    ensures
        forall|i: int, j: int|
            0 <= i < g.height && 0 <= j < g.width ==> ((#[trigger] g.next_alive(i, j)) <==> (i == r
                && c - 1 <= j <= c + 1)),
{
}

/// Blinker oscillator: away from the wrap seam of a grid of at least
/// 5x5, a horizontal 3-cell line becomes a vertical one after one
/// advance and is horizontal again after two, where each advance
/// relates the states as `check_rules` guarantees.
pub proof fn lemma_blinker_period_two(g0: Grid, g1: Grid, g2: Grid, r: int, c: int)
    requires
        g0.wf(),
        g1.wf(),
        g2.wf(),
        advanced(g0, g1),
        advanced(g1, g2),
        5 <= g0.width,
        5 <= g0.height,
        2 <= r,
        r + 2 < g0.height,
        2 <= c,
        c + 2 < g0.width,
        horizontal_line_config(g0, r, c),
    ensures
        vertical_line_config(g1, r, c),
        horizontal_line_config(g2, r, c),
{
    lemma_blinker_h_to_v(g0, r, c);
    lemma_blinker_v_to_h(g1, r, c);
}

/// Idempotent clear: a blanked grid is a function of its dimensions
/// and fill color alone, so two grids of the same frame that both
/// satisfy `set_blank`'s postcondition hold identical cells; blanking
/// twice in a row therefore yields the same all-dead state as once.
pub proof fn lemma_set_blank_idempotent(g1: Grid, g2: Grid)
    requires
        g1.wf(),
        g2.wf(),
        g1.same_frame(g2),
        forall|k: int|
            0 <= k < g1.area() ==> #[trigger] g1.cells@[k] == (Cell {
                alive: false,
                color: g1.cells_color,
            }),
        forall|k: int|
            0 <= k < g2.area() ==> #[trigger] g2.cells@[k] == (Cell {
                alive: false,
                color: g2.cells_color,
            }),
    ensures
        g1.cells@ == g2.cells@,
{
    assert(g1.cells@ =~= g2.cells@);
}

/// Render round trip: if exactly the cell at `(r, c)` is live, a
/// buffer that holds the grid's rendered bytes (as `draw` guarantees)
/// shows that cell's color exactly at byte offset
/// `4 * (r * width + c)` and the dead color at every other pixel.
pub proof fn lemma_render_single_cell(g: Grid, buf: Seq<u8>, r: int, c: int)
    requires
        g.wf(),
        0 <= r < g.height,
        0 <= c < g.width,
        forall|i: int, j: int|
            0 <= i < g.height && 0 <= j < g.width ==> ((#[trigger] g.alive_at(i, j)) <==> (i == r
                && j == c)),
        buf.len() == g.area() * 4,
        forall|p: int| 0 <= p < buf.len() ==> #[trigger] buf[p] == rendered_byte(g, p),
    ensures
        forall|b: int|
            0 <= b < 4 ==> #[trigger] buf[4 * (r * g.width + c) + b] == g.cell_at(r, c).color[b],
        forall|k: int, b: int|
            0 <= k < g.area() && k != r * g.width + c && 0 <= b < 4 ==> #[trigger] buf[4 * k + b]
                == dead_color_byte(b),
{
    let w = g.width as int;
    let h = g.height as int;
    let k0 = r * w + c;
    lemma_row_major_bounds(w, h, r, c);
    assert(g.alive_at(r, c));
    assert forall|b: int| 0 <= b < 4 implies #[trigger] buf[4 * k0 + b] == g.cell_at(
        r,
        c,
    ).color[b] by {
        vstd::arithmetic::div_mod::lemma_fundamental_div_mod_converse(4 * k0 + b, 4, k0, b);
    }
    assert forall|k: int, b: int|
        0 <= k < g.area() && k != k0 && 0 <= b < 4 implies #[trigger] buf[4 * k + b]
        == dead_color_byte(b) by {
        lemma_flat_coords(w, h, k);
        let i = k / w;
        let j = k % w;
        lemma_row_major_unflatten(w, i, j);
        assert(!g.alive_at(i, j));
        vstd::arithmetic::div_mod::lemma_fundamental_div_mod_converse(4 * k + b, 4, k, b);
    }
}

} // verus!
