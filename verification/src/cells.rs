//! The grid engine: cell state, toroidal neighbor counting, the
//! birth/survival rule, generation advance and render serialization.

use vstd::arithmetic::div_mod::lemma_fundamental_div_mod_converse;
use vstd::prelude::*;

verus! {

/// One step down with wraparound: `0` maps to `n - 1`.
pub open spec fn wrap_dec(i: int, n: int) -> int
    recommends
        0 <= i < n,
{
    if i == 0 {
        n - 1
    } else {
        i - 1
    }
}

/// One step up with wraparound: `n - 1` maps to `0`.
pub open spec fn wrap_inc(i: int, n: int) -> int
    recommends
        0 <= i < n,
{
    if i == n - 1 {
        0
    } else {
        i + 1
    }
}

/// A live cell counts as one neighbor, a dead one as none.
pub open spec fn ind(b: bool) -> int {
    if b {
        1
    } else {
        0
    }
}

/// The standard Life rule: a cell is alive in the next generation
/// exactly when it has three live neighbors (birth, or survival),
/// or two live neighbors and was already alive (survival).
pub open spec fn life_rule(was_alive: bool, live_neighbors: int) -> bool {
    live_neighbors == 3 || (live_neighbors == 2 && was_alive)
}

/// The RGBA color every fresh cell starts with.
pub open spec fn is_initial_color(c: [u8; 4]) -> bool {
    c[0] == 0 && c[1] == 0xff && c[2] == 0 && c[3] == 0xf0
}

/// The RGBA byte at offset `b` of the fixed color a dead cell renders as.
pub open spec fn dead_color_byte(b: int) -> u8
    recommends
        0 <= b < 4,
{
    if b == 0 {
        0
    } else if b == 1 {
        0xff
    } else if b == 2 {
        0x01
    } else {
        0x05
    }
}

/// Row-major flattening keeps a 2D coordinate inside the flat buffer.
pub proof fn lemma_row_major_bounds(w: int, h: int, i: int, j: int)
    requires
        1 <= w,
        0 <= i < h,
        0 <= j < w,
    ensures
        0 <= i * w + j < h * w,
{
    assert(0 <= i * w + j < h * w) by (nonlinear_arith)
        requires
            1 <= w,
            0 <= i < h,
            0 <= j < w,
    ;
}

/// Row-major flattening is injective on in-range 2D coordinates.
pub proof fn lemma_row_major_injective(w: int, i1: int, j1: int, i2: int, j2: int)
    requires
        1 <= w,
        0 <= i1,
        0 <= i2,
        0 <= j1 < w,
        0 <= j2 < w,
        i1 * w + j1 == i2 * w + j2,
    ensures
        i1 == i2 && j1 == j2,
{
    assert(i1 == i2 && j1 == j2) by (nonlinear_arith)
        requires
            1 <= w,
            0 <= i1,
            0 <= i2,
            0 <= j1 < w,
            0 <= j2 < w,
            i1 * w + j1 == i2 * w + j2,
    ;
}

/// Dividing a row-major flat index by the width recovers the coordinate.
pub proof fn lemma_row_major_unflatten(w: int, i: int, j: int)
    requires
        1 <= w,
        0 <= i,
        0 <= j < w,
    ensures
        (i * w + j) / w == i,
        (i * w + j) % w == j,
{
    lemma_fundamental_div_mod_converse(i * w + j, w, i, j);
}

/// Every flat index of a `h * w` buffer names an in-range 2D coordinate.
pub proof fn lemma_flat_coords(w: int, h: int, k: int)
    requires
        1 <= w,
        1 <= h,
        0 <= k < h * w,
    ensures
        0 <= k / w < h,
        0 <= k % w < w,
        k == (k / w) * w + (k % w),
{
    vstd::arithmetic::div_mod::lemma_fundamental_div_mod(k, w);
    vstd::arithmetic::div_mod::lemma_mod_bound(k, w);
    assert(0 <= k / w < h) by (nonlinear_arith)
        requires
            k == w * (k / w) + (k % w),
            0 <= k % w < w,
            0 <= k < h * w,
            1 <= w,
    ;
}

/// One grid unit: a live/dead flag plus a cosmetic RGBA color.
/// The color never participates in rule evaluation; it only decides
/// what a live cell looks like when the grid is rendered.
#[derive(Clone, Copy)]
pub struct Cell {
    pub alive: bool,
    pub color: [u8; 4],
}

impl Cell {
    pub fn is_alive(self) -> (r: bool)
        ensures
            r == self.alive,
    {
        self.alive
    }

    pub fn set_alive(&mut self)
        ensures
            final(self).alive,
            final(self).color == old(self).color,
    {
        self.alive = true;
    }

    pub fn set_dead(&mut self)
        ensures
            !final(self).alive,
            final(self).color == old(self).color,
    {
        self.alive = false;
    }

    pub fn set_color(&mut self, color: [u8; 4])
        ensures
            final(self).color == color,
            final(self).alive == old(self).alive,
    {
        self.color = color;
    }
}

/// What a cell contributes to the render buffer: a live cell shows its
/// own stored color, a dead one the fixed near-transparent dead color.
pub open spec fn rendered_pixel(c: Cell, b: int) -> u8
    recommends
        0 <= b < 4,
{
    if c.alive {
        c.color[b]
    } else {
        dead_color_byte(b)
    }
}

/// Byte `p` of the RGBA serialization of `g`'s current generation:
/// four bytes per cell, row-major, so byte `p` belongs to channel
/// `p % 4` of cell `p / 4`.
pub open spec fn rendered_byte(g: Grid, p: int) -> u8
    recommends
        0 <= p < g.area() * 4,
{
    rendered_pixel(g.cells@[p / 4], p % 4)
}

impl Default for Cell {
    /// A dead cell in the fixed initial color.
    fn default() -> (c: Cell)
        ensures
            !c.alive,
            is_initial_color(c.color),
    {
        Cell { alive: false, color: [0, 0xff, 0, 0xf0] }
    }
}

/// The simulation state: two equally sized row-major cell buffers over
/// a fixed toroidal `width` x `height` field, plus the RGBA color that
/// is stamped onto cells by mutation and by every generation advance.
///
/// `cells` always holds the authoritative current generation;
/// `swap_cells` is only the write target of an advance and holds stale
/// data at every observable instant.
pub struct Grid {
    pub width: usize,
    pub height: usize,
    pub cells: Vec<Cell>,
    pub swap_cells: Vec<Cell>,
    pub cells_color: [u8; 4],
}

impl Grid {
    /// Number of cells in the field.
    pub open spec fn area(self) -> int {
        self.height * self.width
    }

    /// Well-formedness: positive dimensions, both buffers exactly
    /// `height * width` cells, and a field small enough that a
    /// 4-bytes-per-cell render buffer can be indexed by `usize`.
    pub open spec fn wf(self) -> bool {
        &&& 1 <= self.width
        &&& 1 <= self.height
        &&& self.area() * 4 <= usize::MAX
        &&& self.cells@.len() == self.area()
        &&& self.swap_cells@.len() == self.area()
    }

    /// The current-generation cell at row `i`, column `j`.
    pub open spec fn cell_at(self, i: int, j: int) -> Cell
        recommends
            0 <= i < self.height,
            0 <= j < self.width,
    {
        self.cells@[i * self.width + j]
    }

    /// Whether the current-generation cell at row `i`, column `j` is live.
    pub open spec fn alive_at(self, i: int, j: int) -> bool
        recommends
            0 <= i < self.height,
            0 <= j < self.width,
    {
        self.cell_at(i, j).alive
    }

    /// How many of the eight toroidally wrapped neighbors of
    /// `(i, j)` are live in the current generation.
    pub open spec fn neighbor_count(self, i: int, j: int) -> int
        recommends
            0 <= i < self.height,
            0 <= j < self.width,
    {
        let up = wrap_dec(i, self.height as int);
        let down = wrap_inc(i, self.height as int);
        let left = wrap_dec(j, self.width as int);
        let right = wrap_inc(j, self.width as int);
        ind(self.alive_at(up, left)) + ind(self.alive_at(up, j)) + ind(self.alive_at(up, right))
            + ind(self.alive_at(i, left)) + ind(self.alive_at(i, right)) + ind(
            self.alive_at(down, left),
        ) + ind(self.alive_at(down, j)) + ind(self.alive_at(down, right))
    }

    /// Whether the cell at `(i, j)` is live after one simultaneous
    /// application of the rule to the current generation.
    pub open spec fn next_alive(self, i: int, j: int) -> bool
        recommends
            0 <= i < self.height,
            0 <= j < self.width,
    {
        life_rule(self.alive_at(i, j), self.neighbor_count(i, j))
    }

    /// The dimensions and fill color are as in `other`.
    pub open spec fn same_frame(self, other: Grid) -> bool {
        &&& self.width == other.width
        &&& self.height == other.height
        &&& self.cells_color == other.cells_color
    }

    /// Allocates the two all-dead buffers of a `width` x `height` field.
    /// Every cell starts dead, in the fixed initial color; `cells_color`
    /// only affects later mutations and advances.
    pub fn new(width: u32, height: u32, cells_color: [u8; 4]) -> (g: Grid)
        requires
            1 <= width,
            1 <= height,
            width * height * 4 <= usize::MAX,
        ensures
            g.wf(),
            g.width == width as usize,
            g.height == height as usize,
            g.cells_color == cells_color,
            forall|i: int, j: int|
                0 <= i < g.height && 0 <= j < g.width ==> !(#[trigger] g.alive_at(i, j)),
            forall|i: int, j: int|
                0 <= i < g.height && 0 <= j < g.width ==> is_initial_color(
                    #[trigger] g.cell_at(i, j).color,
                ),
    {
        let w: usize = width as usize;
        let h: usize = height as usize;
        proof {
            assert(h * w == width * height) by (nonlinear_arith)
                requires
                    w == width,
                    h == height,
            ;
        }
        let area: usize = w * h;
        let blank = Cell { alive: false, color: [0, 0xff, 0, 0xf0] };
        let g = Grid {
            width: w,
            height: h,
            cells: filled_cells(area, blank),
            swap_cells: filled_cells(area, blank),
            cells_color,
        };
        proof {
            assert forall|i: int, j: int|
                0 <= i < g.height && 0 <= j < g.width implies !(#[trigger] g.alive_at(i, j)) by {
                lemma_row_major_bounds(g.width as int, g.height as int, i, j);
            }
            assert forall|i: int, j: int|
                0 <= i < g.height && 0 <= j < g.width implies is_initial_color(
                #[trigger] g.cell_at(i, j).color,
            ) by {
                lemma_row_major_bounds(g.width as int, g.height as int, i, j);
            }
        }
        g
    }

    /// Row-major flat index of `(i, j)`, in bounds for both buffers.
    fn index_of(&self, i: usize, j: usize) -> (k: usize)
        requires
            self.wf(),
            i < self.height,
            j < self.width,
        ensures
            k == i * self.width + j,
            k < self.cells@.len(),
            k < self.swap_cells@.len(),
    {
        proof {
            lemma_row_major_bounds(self.width as int, self.height as int, i as int, j as int);
        }
        i * self.width + j
    }

    /// The current-generation cell at row `i`, column `j`.
    pub fn get_cell(&self, i: usize, j: usize) -> (c: Cell)
        requires
            self.wf(),
            i < self.height,
            j < self.width,
        ensures
            c == self.cell_at(i as int, j as int),
    {
        let k: usize = self.index_of(i, j);
        self.cells[k]
    }

    /// Replaces the color stamped onto cells by later mutations and advances.
    pub fn set_cells_color(&mut self, cells_color: [u8; 4])
        ensures
            final(self).cells_color == cells_color,
            final(self).width == old(self).width,
            final(self).height == old(self).height,
            final(self).cells@ == old(self).cells@,
            final(self).swap_cells@ == old(self).swap_cells@,
    {
        self.cells_color = cells_color;
    }

    /// Mutable access to the fill color, so a caller can recolor future
    /// mutations and advances without reconstructing the grid.
    pub fn get_mut_cells_color(&mut self) -> (c: &mut [u8; 4])
        ensures
            *c == old(self).cells_color,
            final(self).cells_color == *final(c),
            final(self).width == old(self).width,
            final(self).height == old(self).height,
            final(self).cells@ == old(self).cells@,
            final(self).swap_cells@ == old(self).swap_cells@,
    {
        &mut self.cells_color
    }

    /// Kills every cell of the current generation and stamps the fill
    /// color onto it; the spare buffer is left alone.
    pub fn set_blank(&mut self)
        requires
            old(self).wf(),
        ensures
            final(self).wf(),
            final(self).same_frame(*old(self)),
            final(self).swap_cells@ == old(self).swap_cells@,
            forall|k: int|
                0 <= k < final(self).area() ==> final(self).cells@[k] == (Cell {
                    alive: false,
                    color: old(self).cells_color,
                }),
            forall|i: int, j: int|
                0 <= i < final(self).height && 0 <= j < final(self).width ==> !(
                #[trigger] final(self).alive_at(i, j)),
    {
        let ghost g0 = *self;
        let mut i: usize = 0;
        while i < self.height
            invariant
                self.wf(),
                self.same_frame(g0),
                self.swap_cells@ == g0.swap_cells@,
                i <= self.height,
                forall|t: int|
                    0 <= t < i * self.width ==> self.cells@[t] == (Cell {
                        alive: false,
                        color: g0.cells_color,
                    }),
            decreases self.height - i,
        {
            let mut j: usize = 0;
            while j < self.width
                invariant
                    self.wf(),
                    self.same_frame(g0),
                    self.swap_cells@ == g0.swap_cells@,
                    i < self.height,
                    j <= self.width,
                    forall|t: int|
                        0 <= t < i * self.width + j ==> self.cells@[t] == (Cell {
                            alive: false,
                            color: g0.cells_color,
                        }),
                decreases self.width - j,
            {
                let k: usize = self.index_of(i, j);
                self.cells[k] = Cell { alive: false, color: self.cells_color };
                j = j + 1;
            }
            proof {
                assert((i + 1) * self.width == i * self.width + self.width) by (nonlinear_arith);
            }
            i = i + 1;
        }
        proof {
            assert(self.height * self.width == self.area());
            assert forall|i2: int, j2: int|
                0 <= i2 < self.height && 0 <= j2 < self.width implies !(#[trigger] self.alive_at(
                i2,
                j2,
            )) by {
                lemma_row_major_bounds(self.width as int, self.height as int, i2, j2);
            }
        }
    }

    /// Sets the live flag of exactly the cell at column `x`, row `y`,
    /// leaving its color and every other cell untouched.
    fn set_pixel(&mut self, x: usize, y: usize, alive: bool)
        requires
            old(self).wf(),
            x < old(self).width,
            y < old(self).height,
        ensures
            final(self).wf(),
            final(self).same_frame(*old(self)),
            final(self).swap_cells@ == old(self).swap_cells@,
            final(self).alive_at(y as int, x as int) == alive,
            final(self).cell_at(y as int, x as int).color == old(self).cell_at(
                y as int,
                x as int,
            ).color,
            forall|i: int, j: int|
                0 <= i < final(self).height && 0 <= j < final(self).width && !(i == y && j == x)
                    ==> #[trigger] final(self).cell_at(i, j) == old(self).cell_at(i, j),
            forall|i: int, j: int|
                0 <= i < final(self).height && 0 <= j < final(self).width && !(i == y && j == x)
                    ==> (#[trigger] final(self).alive_at(i, j)) == old(self).alive_at(i, j),
    {
        let ghost g0 = *self;
        let k: usize = self.index_of(y, x);
        let mut c = self.cells[k];
        if alive {
            c.set_alive();
        } else {
            c.set_dead();
        }
        self.cells[k] = c;
        proof {
            assert forall|i: int, j: int|
                0 <= i < self.height && 0 <= j < self.width && !(i == y && j == x)
                    implies #[trigger] self.cell_at(i, j) == g0.cell_at(i, j) by {
                lemma_row_major_bounds(self.width as int, self.height as int, i, j);
                if i * self.width + j == k {
                    lemma_row_major_injective(self.width as int, i, j, y as int, x as int);
                }
            }
        }
    }

    /// Whether the current-generation cell at row `i`, column `j` is live.
    fn alive(&self, i: usize, j: usize) -> (r: bool)
        requires
            self.wf(),
            i < self.height,
            j < self.width,
        ensures
            r == self.alive_at(i as int, j as int),
    {
        let k: usize = self.index_of(i, j);
        self.cells[k].alive
    }

    /// Counts the live cells among the eight toroidally wrapped
    /// neighbors of `(i, j)` in the current generation.
    fn get_neighbours(&self, i: usize, j: usize) -> (n: usize)
        requires
            self.wf(),
            i < self.height,
            j < self.width,
        ensures
            n == self.neighbor_count(i as int, j as int),
    {
        let up: usize = wrap_sub(i, self.height);
        let down: usize = wrap_add(i, self.height);
        let left: usize = wrap_sub(j, self.width);
        let right: usize = wrap_add(j, self.width);
        let mut n: usize = 0;
        if self.alive(up, left) {
            n = n + 1;
        }
        if self.alive(up, j) {
            n = n + 1;
        }
        if self.alive(up, right) {
            n = n + 1;
        }
        if self.alive(i, left) {
            n = n + 1;
        }
        if self.alive(i, right) {
            n = n + 1;
        }
        if self.alive(down, left) {
            n = n + 1;
        }
        if self.alive(down, j) {
            n = n + 1;
        }
        if self.alive(down, right) {
            n = n + 1;
        }
        n
    }

    /// Applies the Life rule to the cell at `(i, j)`: whether it is
    /// live in the generation that follows the current one.
    fn decide(&self, i: usize, j: usize) -> (r: bool)
        requires
            self.wf(),
            i < self.height,
            j < self.width,
        ensures
            r == self.next_alive(i as int, j as int),
    {
        let cells_alive: usize = self.get_neighbours(i, j);
        cells_alive == 3 || (cells_alive == 2 && self.alive(i, j))
    }

    /// Advances the grid one generation: every cell's next state is
    /// decided from the generation as it stood when the call began,
    /// written into the spare buffer, and the two buffers are swapped.
    /// Newly written cells carry the grid's fill color; the old
    /// generation is parked in the spare buffer.
    pub fn check_rules(&mut self)
        requires
            old(self).wf(),
        ensures
            final(self).wf(),
            final(self).same_frame(*old(self)),
            forall|i: int, j: int|
                0 <= i < final(self).height && 0 <= j < final(self).width ==> (#[trigger] final(
                    self).alive_at(i, j)) == old(self).next_alive(i, j),
            forall|i: int, j: int|
                0 <= i < final(self).height && 0 <= j < final(self).width ==> (#[trigger] final(
                    self).cell_at(i, j).color) == old(self).cells_color,
            final(self).swap_cells@ == old(self).cells@,
    {
        let ghost g0 = *self;
        let mut i: usize = 0;
        while i < self.height
            invariant
                self.wf(),
                self.same_frame(g0),
                self.cells@ == g0.cells@,
                self.swap_cells@.len() == g0.swap_cells@.len(),
                i <= self.height,
                forall|t: int|
                    0 <= t < i * self.width ==> #[trigger] self.swap_cells@[t] == (Cell {
                        alive: g0.next_alive(t / g0.width as int, t % g0.width as int),
                        color: g0.cells_color,
                    }),
            decreases self.height - i,
        {
            let mut j: usize = 0;
            while j < self.width
                invariant
                    self.wf(),
                    self.same_frame(g0),
                    self.cells@ == g0.cells@,
                    self.swap_cells@.len() == g0.swap_cells@.len(),
                    i < self.height,
                    j <= self.width,
                    forall|t: int|
                        0 <= t < i * self.width + j ==> #[trigger] self.swap_cells@[t] == (Cell {
                            alive: g0.next_alive(t / g0.width as int, t % g0.width as int),
                            color: g0.cells_color,
                        }),
                decreases self.width - j,
            {
                let next = self.decide(i, j);
                let k: usize = self.index_of(i, j);
                self.swap_cells[k] = Cell { alive: next, color: self.cells_color };
                proof {
                    lemma_row_major_unflatten(self.width as int, i as int, j as int);
                }
                j = j + 1;
            }
            proof {
                assert((i + 1) * self.width == i * self.width + self.width) by (nonlinear_arith);
            }
            i = i + 1;
        }
        core::mem::swap(&mut self.cells, &mut self.swap_cells);
        proof {
            assert(self.height * self.width == self.area());
            assert forall|i2: int, j2: int|
                0 <= i2 < self.height && 0 <= j2 < self.width implies #[trigger] self.alive_at(
                i2,
                j2,
            ) == g0.next_alive(i2, j2) by {
                lemma_row_major_bounds(self.width as int, self.height as int, i2, j2);
                lemma_row_major_unflatten(self.width as int, i2, j2);
            }
            assert forall|i2: int, j2: int|
                0 <= i2 < self.height && 0 <= j2 < self.width implies #[trigger] self.cell_at(
                i2,
                j2,
            ).color == g0.cells_color by {
                lemma_row_major_bounds(self.width as int, self.height as int, i2, j2);
                lemma_row_major_unflatten(self.width as int, i2, j2);
            }
        }
    }

    /// Serializes the current generation into a caller-owned RGBA
    /// buffer of exactly `4 * width * height` bytes, one 4-byte pixel
    /// per cell in row-major order: live cells emit their stored
    /// color, dead cells the fixed dead color.
    pub fn draw(&self, screen: &mut Vec<u8>)
        requires
            self.wf(),
            old(screen)@.len() == self.area() * 4,
        ensures
            final(screen)@.len() == old(screen)@.len(),
            forall|p: int|
                0 <= p < final(screen)@.len() ==> #[trigger] final(screen)@[p] == rendered_byte(
                    *self,
                    p,
                ),
    {
        let mut i: usize = 0;
        while i < self.height
            invariant
                self.wf(),
                screen@.len() == self.area() * 4,
                i <= self.height,
                forall|p: int|
                    0 <= p < 4 * (i * self.width) ==> #[trigger] screen@[p] == rendered_byte(
                        *self,
                        p,
                    ),
            decreases self.height - i,
        {
            let mut j: usize = 0;
            while j < self.width
                invariant
                    self.wf(),
                    screen@.len() == self.area() * 4,
                    i < self.height,
                    j <= self.width,
                    forall|p: int|
                        0 <= p < 4 * (i * self.width + j) ==> #[trigger] screen@[p]
                            == rendered_byte(*self, p),
                decreases self.width - j,
            {
                let k: usize = self.index_of(i, j);
                let cell = self.cells[k];
                let color: [u8; 4] = if cell.alive {
                    cell.color
                } else {
                    [0, 0xff, 0x01, 0x05]
                };
                let base: usize = 4 * k;
                screen[base] = color[0];
                screen[base + 1] = color[1];
                screen[base + 2] = color[2];
                screen[base + 3] = color[3];
                proof {
                    lemma_fundamental_div_mod_converse(4 * k, 4, k as int, 0);
                    lemma_fundamental_div_mod_converse(4 * k + 1, 4, k as int, 1);
                    lemma_fundamental_div_mod_converse(4 * k + 2, 4, k as int, 2);
                    lemma_fundamental_div_mod_converse(4 * k + 3, 4, k as int, 3);
                }
                j = j + 1;
            }
            proof {
                assert((i + 1) * self.width == i * self.width + self.width) by (nonlinear_arith);
            }
            i = i + 1;
        }
        proof {
            assert(self.height * self.width == self.area());
        }
    }

    /// Overwrites every cell of the current generation with an
    /// independent unbiased coin flip, stamped with the fill color;
    /// the spare buffer is left alone. The live pattern that comes
    /// out is not specified: it depends on the thread's generator.
    pub fn randomize(&mut self)
        requires
            old(self).wf(),
        ensures
            final(self).wf(),
            final(self).same_frame(*old(self)),
            final(self).swap_cells@ == old(self).swap_cells@,
            forall|i: int, j: int|
                0 <= i < final(self).height && 0 <= j < final(self).width ==> (#[trigger] final(
                    self).cell_at(i, j).color) == old(self).cells_color,
    {
        let ghost g0 = *self;
        let mut i: usize = 0;
        while i < self.height
            invariant
                self.wf(),
                self.same_frame(g0),
                self.swap_cells@ == g0.swap_cells@,
                i <= self.height,
                forall|t: int|
                    0 <= t < i * self.width ==> (#[trigger] self.cells@[t].color)
                        == g0.cells_color,
            decreases self.height - i,
        {
            let mut j: usize = 0;
            while j < self.width
                invariant
                    self.wf(),
                    self.same_frame(g0),
                    self.swap_cells@ == g0.swap_cells@,
                    i < self.height,
                    j <= self.width,
                    forall|t: int|
                        0 <= t < i * self.width + j ==> (#[trigger] self.cells@[t].color)
                            == g0.cells_color,
                decreases self.width - j,
            {
                let k: usize = self.index_of(i, j);
                let a: bool = rand::random();
                self.cells[k] = Cell { alive: a, color: self.cells_color };
                j = j + 1;
            }
            proof {
                assert((i + 1) * self.width == i * self.width + self.width) by (nonlinear_arith);
            }
            i = i + 1;
        }
        proof {
            assert(self.height * self.width == self.area());
            assert forall|i2: int, j2: int|
                0 <= i2 < self.height && 0 <= j2 < self.width implies (#[trigger] self.cell_at(
                i2,
                j2,
            ).color) == g0.cells_color by {
                lemma_row_major_bounds(self.width as int, self.height as int, i2, j2);
            }
        }
    }

    /// Makes exactly the cell at column `x`, row `y` live.
    pub fn set_pixel_alive(&mut self, x: usize, y: usize)
        requires
            old(self).wf(),
            x < old(self).width,
            y < old(self).height,
        ensures
            final(self).wf(),
            final(self).same_frame(*old(self)),
            final(self).swap_cells@ == old(self).swap_cells@,
            final(self).alive_at(y as int, x as int),
            final(self).cell_at(y as int, x as int).color == old(self).cell_at(
                y as int,
                x as int,
            ).color,
            forall|i: int, j: int|
                0 <= i < final(self).height && 0 <= j < final(self).width && !(i == y && j == x)
                    ==> #[trigger] final(self).cell_at(i, j) == old(self).cell_at(i, j),
            forall|i: int, j: int|
                0 <= i < final(self).height && 0 <= j < final(self).width && !(i == y && j == x)
                    ==> (#[trigger] final(self).alive_at(i, j)) == old(self).alive_at(i, j),
    {
        self.set_pixel(x, y, true);
    }

    /// Makes exactly the cell at column `x`, row `y` dead.
    pub fn set_pixel_dead(&mut self, x: usize, y: usize)
        requires
            old(self).wf(),
            x < old(self).width,
            y < old(self).height,
        ensures
            final(self).wf(),
            final(self).same_frame(*old(self)),
            final(self).swap_cells@ == old(self).swap_cells@,
            !final(self).alive_at(y as int, x as int),
            final(self).cell_at(y as int, x as int).color == old(self).cell_at(
                y as int,
                x as int,
            ).color,
            forall|i: int, j: int|
                0 <= i < final(self).height && 0 <= j < final(self).width && !(i == y && j == x)
                    ==> #[trigger] final(self).cell_at(i, j) == old(self).cell_at(i, j),
            forall|i: int, j: int|
                0 <= i < final(self).height && 0 <= j < final(self).width && !(i == y && j == x)
                    ==> (#[trigger] final(self).alive_at(i, j)) == old(self).alive_at(i, j),
    {
        self.set_pixel(x, y, false);
    }
}

/// Relies on rand::random: draws a fresh value from the thread-local
/// generator. Nothing is promised of the outcome; every caller must
/// hold for every value that can come back.
pub assume_specification<T>[ rand::random::<T> ]() -> (r: T)
    where
        rand::distributions::Standard: rand::distributions::Distribution<T>,
;

/// A read-only handle on the fill color of a grid owned elsewhere.
#[allow(non_camel_case_types)]
pub struct Grid_color<'a> {
    pub owner: &'a Grid,
}

impl<'a> Grid_color<'a> {
    /// The fill color the owning grid currently stamps onto cells.
    pub fn get_mut_color(&self) -> (c: [u8; 4])
        ensures
            c == self.owner.cells_color,
    {
        self.owner.cells_color
    }
}

/// One step down with wraparound, on machine integers.
fn wrap_sub(i: usize, n: usize) -> (r: usize)
    requires
        1 <= n,
        i < n,
    ensures
        r == wrap_dec(i as int, n as int),
        r < n,
{
    if i == 0 {
        n - 1
    } else {
        i - 1
    }
}

/// One step up with wraparound, on machine integers.
fn wrap_add(i: usize, n: usize) -> (r: usize)
    requires
        1 <= n,
        i < n,
    ensures
        r == wrap_inc(i as int, n as int),
        r < n,
{
    if i + 1 == n {
        0
    } else {
        i + 1
    }
}

/// A vector of `n` copies of `cell`.
fn filled_cells(n: usize, cell: Cell) -> (v: Vec<Cell>)
    ensures
        v@.len() == n,
        forall|k: int| 0 <= k < n ==> v@[k] == cell,
{
    let mut v: Vec<Cell> = Vec::new();
    let mut k: usize = 0;
    while k < n
        invariant
            k <= n,
            v@.len() == k,
            forall|t: int| 0 <= t < k ==> v@[t] == cell,
        decreases n - k,
    {
        v.push(cell);
        k = k + 1;
    }
    v
}

} // verus!
