use vstd::prelude::*;

use crate::cell::{next_cell, spec_toggle, Cell};

verus! {

/// A fixed-size toroidal grid of cells, row-major: row `r`, column `c` live
/// at index `r * width + c`. The dimensions are fixed at construction and
/// the buffer always holds exactly `width * height` cells.
pub struct Universe {
    width: u32,
    height: u32,
    cells: Vec<Cell>,
}

/// Row-major indices respect the row-then-column order of coordinates.
proof fn lemma_index_lt(w: int, r1: int, c1: int, r2: int, c2: int)
    requires
        1 <= w,
        0 <= r1,
        0 <= c1 < w,
        0 <= c2,
        r1 < r2 || (r1 == r2 && c1 < c2),
    ensures
        0 <= r1 * w + c1 < r2 * w + c2,
{
    vstd::arithmetic::mul::lemma_mul_inequality(0, r1, w);
    if r1 < r2 {
        vstd::arithmetic::mul::lemma_mul_inequality(r1, r2 - 1, w);
        assert((r2 - 1) * w == r2 * w - w) by (nonlinear_arith);
    }
}

/// Whether two equally long cell buffers differ anywhere. The scan stops at
/// the first difference; the result reflects the whole buffers.
fn cells_differ(a: &Vec<Cell>, b: &Vec<Cell>) -> (r: bool)
    requires
        a@.len() == b@.len(),
    ensures
        r <==> a@ != b@,
{
    let mut i: usize = 0;
    while i < a.len()
        invariant
            i <= a@.len(),
            a@.len() == b@.len(),
            forall|j: int| 0 <= j < i ==> a@[j] == b@[j],
        decreases a@.len() - i,
    {
        if a[i] != b[i] {
            return true;
        }
        i = i + 1;
    }
    proof {
        assert(a@ =~= b@);
    }
    false
}

/// The buffer after toggling the cell at index `i` once.
pub open spec fn toggled_at(s: Seq<Cell>, i: int) -> Seq<Cell> {
    s.update(i, spec_toggle(s[i]))
}

/// Law (cyclic closure): toggling the same cell three times returns the
/// buffer to its original contents, whatever the cell held before.
pub proof fn lemma_toggle_cell_order_three(s: Seq<Cell>, i: int)
    requires
        0 <= i < s.len(),
    ensures
        toggled_at(toggled_at(toggled_at(s, i), i), i) == s,
{
    assert(toggled_at(toggled_at(toggled_at(s, i), i), i) =~= s);
}

/// Law: forcing a cell `Alive` and then `Dead` leaves it `Dead`, whatever
/// it held before; the result is the same as forcing it `Dead` directly.
pub proof fn lemma_set_alive_then_dead(s: Seq<Cell>, i: int)
    requires
        0 <= i < s.len(),
    ensures
        s.update(i, Cell::Alive).update(i, Cell::Dead)[i] == Cell::Dead,
        s.update(i, Cell::Alive).update(i, Cell::Dead) == s.update(i, Cell::Dead),
{
    assert(s.update(i, Cell::Alive).update(i, Cell::Dead) =~= s.update(i, Cell::Dead));
}

/// Law: forcing a cell `Dead` is idempotent.
pub proof fn lemma_set_dead_idempotent(s: Seq<Cell>, i: int)
    requires
        0 <= i < s.len(),
    ensures
        s.update(i, Cell::Dead).update(i, Cell::Dead) == s.update(i, Cell::Dead),
{
    assert(s.update(i, Cell::Dead).update(i, Cell::Dead) =~= s.update(i, Cell::Dead));
}

/// Every buffer index of an `h` by `w` grid splits into a row and a column:
/// `i == (i / w) * w + i % w`, with both parts in range.
pub proof fn lemma_index_split(w: int, h: int, i: int)
    requires
        1 <= w,
        1 <= h,
        0 <= i < h * w,
    ensures
        0 <= i / w < h,
        0 <= i % w < w,
        i == (i / w) * w + (i % w),
{
    vstd::arithmetic::div_mod::lemma_fundamental_div_mod(i, w);
    vstd::arithmetic::div_mod::lemma_mod_bound(i, w);
    vstd::arithmetic::div_mod::lemma_div_pos_is_pos(i, w);
    vstd::arithmetic::mul::lemma_mul_is_commutative(w, i / w);
    if i / w >= h {
        vstd::arithmetic::mul::lemma_mul_inequality(h, i / w, w);
    }
}

/// The glyph of one cell in the text dump: `Dead` is hollow, any non-dead
/// state is filled.
pub open spec fn glyph(c: Cell) -> char {
    if c is Dead {
        '◻'
    } else {
        '◼'
    }
}

/// Toroidal step one row or column towards zero: `0` wraps to `m - 1`.
pub open spec fn wrap_dec(i: int, m: int) -> int {
    if i == 0 {
        m - 1
    } else {
        i - 1
    }
}

/// Toroidal step one row or column away from zero: `m - 1` wraps to `0`.
pub open spec fn wrap_inc(i: int, m: int) -> int {
    if i + 1 == m {
        0
    } else {
        i + 1
    }
}

/// The toroidal steps agree with the modulo formulation of wrapping: for
/// `0 <= i < m`, one step towards zero lands on `(i + m - 1) % m` and one
/// step away from zero on `(i + 1) % m`.
pub proof fn lemma_wrap_is_mod(i: int, m: int)
    requires
        0 <= i < m,
    ensures
        wrap_dec(i, m) == (i + m - 1) % m,
        wrap_inc(i, m) == (i + 1) % m,
{
    vstd::arithmetic::div_mod::lemma_mod_multiples_vanish(1, i - 1, m);
    if i == 0 {
        vstd::arithmetic::div_mod::lemma_mod_multiples_vanish(1, -1, m);
        vstd::arithmetic::div_mod::lemma_small_mod((m - 1) as nat, m as nat);
    } else {
        vstd::arithmetic::div_mod::lemma_small_mod((i - 1) as nat, m as nat);
    }
    if i + 1 == m {
        vstd::arithmetic::div_mod::lemma_mod_self_0(m);
    } else {
        vstd::arithmetic::div_mod::lemma_small_mod((i + 1) as nat, m as nat);
    }
}

impl Universe {
    /// Well-formedness: nonzero dimensions, the cell count fits in `u32`,
    /// and the buffer length is exactly `width * height`.
    pub open spec fn wf(self) -> bool {
        &&& 1 <= self.spec_width()
        &&& 1 <= self.spec_height()
        &&& (self.spec_height() as int) * (self.spec_width() as int) <= u32::MAX as int
        &&& self.spec_cells().len() == (self.spec_height() as int) * (self.spec_width() as int)
    }

    /// The grid width, in cells.
    pub closed spec fn spec_width(self) -> u32 {
        self.width
    }

    /// The grid height, in cells.
    pub closed spec fn spec_height(self) -> u32 {
        self.height
    }

    /// The cell buffer, as a sequence.
    pub closed spec fn spec_cells(self) -> Seq<Cell> {
        self.cells@
    }

    /// The row-major index of `(row, col)`.
    pub open spec fn spec_index(self, row: int, col: int) -> int {
        row * (self.spec_width() as int) + col
    }

    /// The cell at `(row, col)`.
    pub open spec fn cell_at(self, row: int, col: int) -> Cell {
        self.spec_cells()[self.spec_index(row, col)]
    }

    /// `1` when the cell at `(row, col)` is `Alive`, else `0`.
    pub open spec fn alive_bit(self, row: int, col: int) -> nat {
        if self.cell_at(row, col) is Alive {
            1nat
        } else {
            0nat
        }
    }

    /// The number of `Alive` cells among the eight toroidally wrapped
    /// neighbors of `(row, col)`. Each axis wraps modulo its dimension, so
    /// every cell has exactly eight neighbor positions; the cell itself
    /// (offset `(0, 0)`) is excluded.
    ///
    /// Opaque: proofs that need the eight-term sum reveal it explicitly.
    #[verifier::opaque]
    pub open spec fn spec_live_neighbor_count(self, row: int, col: int) -> nat {
        let h = self.spec_height() as int;
        let w = self.spec_width() as int;
        let up = wrap_dec(row, h);
        let down = wrap_inc(row, h);
        let left = wrap_dec(col, w);
        let right = wrap_inc(col, w);
        self.alive_bit(up, left) + self.alive_bit(up, col) + self.alive_bit(up, right)
            + self.alive_bit(row, left) + self.alive_bit(row, right) + self.alive_bit(down, left)
            + self.alive_bit(down, col) + self.alive_bit(down, right)
    }

    /// A valid coordinate pair.
    pub open spec fn in_bounds(self, row: int, col: int) -> bool {
        0 <= row < self.spec_height() && 0 <= col < self.spec_width()
    }

    /// Law (toroidal wrapping): the up-left neighbor of the corner cell
    /// `(0, 0)` is the opposite corner `(height - 1, width - 1)`, and a live
    /// cell there contributes to the corner's neighbor count.
    pub proof fn lemma_neighbor_count_wraps(self)
        requires
            self.wf(),
        ensures
            wrap_dec(0, self.spec_height() as int) == self.spec_height() - 1,
            wrap_dec(0, self.spec_width() as int) == self.spec_width() - 1,
            self.spec_live_neighbor_count(0, 0) >= self.alive_bit(
                self.spec_height() - 1,
                self.spec_width() - 1,
            ),
    {
        reveal(Universe::spec_live_neighbor_count);
    }

    /// Law: in a fully dead grid every neighbor count is zero and the rule
    /// leaves every cell unchanged, so a tick there is a fixed point.
    pub proof fn lemma_all_dead_is_fixed_point(self)
        requires
            self.wf(),
            forall|i: int| 0 <= i < self.spec_cells().len() ==> self.spec_cells()[i] == Cell::Dead,
        ensures
            forall|r: int, c: int|
                self.in_bounds(r, c) ==> self.spec_live_neighbor_count(r, c) == 0,
            forall|r: int, c: int|
                self.in_bounds(r, c) ==> next_cell(
                    self.cell_at(r, c),
                    self.spec_live_neighbor_count(r, c),
                ) == self.cell_at(r, c),
    {
        reveal(Universe::spec_live_neighbor_count);
        let h = self.spec_height() as int;
        let w = self.spec_width() as int;
        assert forall|r: int, c: int|
            self.in_bounds(r, c) implies self.spec_live_neighbor_count(r, c) == 0 by {
            self.lemma_index_bounds(wrap_dec(r, h), wrap_dec(c, w));
            self.lemma_index_bounds(wrap_dec(r, h), c);
            self.lemma_index_bounds(wrap_dec(r, h), wrap_inc(c, w));
            self.lemma_index_bounds(r, wrap_dec(c, w));
            self.lemma_index_bounds(r, wrap_inc(c, w));
            self.lemma_index_bounds(wrap_inc(r, h), wrap_dec(c, w));
            self.lemma_index_bounds(wrap_inc(r, h), c);
            self.lemma_index_bounds(wrap_inc(r, h), wrap_inc(c, w));
        };
        assert forall|r: int, c: int|
            self.in_bounds(r, c) implies next_cell(
            self.cell_at(r, c),
            self.spec_live_neighbor_count(r, c),
        ) == self.cell_at(r, c) by {
            self.lemma_index_bounds(r, c);
        };
    }

    /// Law: two equally sized grids that agree at every coordinate pair
    /// hold equal buffers. In particular a tick whose rule leaves every
    /// cell unchanged leaves the grid unchanged.
    pub proof fn lemma_same_when_cells_agree(self, other: Universe)
        requires
            self.wf(),
            other.wf(),
            self.spec_width() == other.spec_width(),
            self.spec_height() == other.spec_height(),
            forall|r: int, c: int|
                self.in_bounds(r, c) ==> self.cell_at(r, c) == other.cell_at(r, c),
        ensures
            self.spec_cells() == other.spec_cells(),
    {
        let w = self.spec_width() as int;
        let h = self.spec_height() as int;
        assert forall|i: int|
            0 <= i < self.spec_cells().len() implies self.spec_cells()[i]
            == other.spec_cells()[i] by {
            lemma_index_split(w, h, i);
            let r = i / w;
            let c = i % w;
            assert(self.in_bounds(r, c));
            assert(self.cell_at(r, c) == other.cell_at(r, c));
            assert(self.spec_index(r, c) == i);
        };
        assert(self.spec_cells() =~= other.spec_cells());
    }

    /// The row-major index of a valid coordinate lies inside the buffer.
    pub proof fn lemma_index_bounds(self, row: int, col: int)
        requires
            self.wf(),
            self.in_bounds(row, col),
        ensures
            0 <= self.spec_index(row, col) < self.spec_cells().len(),
    {
        let w = self.spec_width() as int;
        let h = self.spec_height() as int;
        vstd::arithmetic::mul::lemma_mul_inequality(row, h - 1, w);
        assert((h - 1) * w == h * w - w) by (nonlinear_arith);
    }

    /// Create a `width` by `height` grid with every cell `Dead`.
    ///
    /// A degenerate grid is a caller error: both dimensions must be nonzero,
    /// and the cell count must fit in `u32`.
    pub fn new(width: u32, height: u32) -> (u: Universe)
        requires
            1 <= width,
            1 <= height,
            (height as int) * (width as int) <= u32::MAX as int,
        ensures
            u.wf(),
            u.spec_width() == width,
            u.spec_height() == height,
            forall|i: int| 0 <= i < u.spec_cells().len() ==> u.spec_cells()[i] == Cell::Dead,
    {
        proof {
            assert((height as int) * (width as int) == (width as int) * (height as int))
                by (nonlinear_arith);
        }
        let n = width * height;
        let mut cells: Vec<Cell> = Vec::new();
        let mut i: u32 = 0;
        while i < n
            invariant
                i <= n,
                cells@.len() == i,
                forall|j: int| 0 <= j < i ==> cells@[j] == Cell::Dead,
            decreases n - i,
        {
            cells.push(Cell::Dead);
            i = i + 1;
        }
        proof {
            assert((width as int) * (height as int) == (height as int) * (width as int))
                by (nonlinear_arith);
        }
        Universe { width, height, cells }
    }

    /// The row-major index of `(row, column)`.
    pub fn get_index(&self, row: u32, column: u32) -> (idx: usize)
        requires
            self.wf(),
            self.in_bounds(row as int, column as int),
        ensures
            idx == self.spec_index(row as int, column as int),
            idx < self.spec_cells().len(),
    {
        proof {
            self.lemma_index_bounds(row as int, column as int);
        }
        (row * self.width + column) as usize
    }

    /// The grid width, in cells.
    pub fn width(&self) -> (w: u32)
        ensures
            w == self.spec_width(),
    {
        self.width
    }

    /// The grid height, in cells.
    pub fn height(&self) -> (h: u32)
        ensures
            h == self.spec_height(),
    {
        self.height
    }

    /// A read-only view of the cell buffer, row-major, for a renderer.
    pub fn cells(&self) -> (cells: &Vec<Cell>)
        ensures
            cells@ == self.spec_cells(),
    {
        &self.cells
    }

    /// The first `n` glyphs of the text line for row `row`.
    pub open spec fn spec_render_row(self, row: int, n: int) -> Seq<char>
        decreases n,
    {
        if n <= 0 {
            Seq::empty()
        } else {
            self.spec_render_row(row, n - 1).push(glyph(self.cell_at(row, n - 1)))
        }
    }

    /// The text dump of the first `n` rows, one newline-closed line per row.
    pub open spec fn spec_render_rows(self, n: int) -> Seq<char>
        decreases n,
    {
        if n <= 0 {
            Seq::empty()
        } else {
            self.spec_render_rows(n - 1) + self.spec_render_row(
                n - 1,
                self.spec_width() as int,
            ).push('\n')
        }
    }

    /// The whole text dump: one line per grid row, one glyph per cell.
    pub open spec fn spec_render(self) -> Seq<char> {
        self.spec_render_rows(self.spec_height() as int)
    }

    /// A row's line holds one glyph per counted cell.
    proof fn lemma_render_row_len(self, row: int, n: int)
        requires
            0 <= n,
        ensures
            self.spec_render_row(row, n).len() == n,
        decreases n,
    {
        if n > 0 {
            self.lemma_render_row_len(row, n - 1);
        }
    }

    /// Produce the human-readable text dump: one line per grid row, one
    /// glyph per cell (`Dead` hollow, any non-dead state filled), each line
    /// closed by a newline.
    pub fn render(&self) -> (r: String)
        requires
            self.wf(),
        ensures
            r@ == self.spec_render(),
    {
        let mut out = String::from_str("");
        proof {
            reveal_strlit("");
            assert(out@ =~= self.spec_render_rows(0));
        }
        let mut row: u32 = 0;
        while row < self.height
            invariant
                self.wf(),
                row <= self.spec_height(),
                out@ == self.spec_render_rows(row as int),
            decreases self.spec_height() - row,
        {
            proof {
                assert(out@ =~= self.spec_render_rows(row as int) + self.spec_render_row(
                    row as int,
                    0,
                ));
            }
            let mut col: u32 = 0;
            while col < self.width
                invariant
                    self.wf(),
                    row < self.spec_height(),
                    col <= self.spec_width(),
                    out@ == self.spec_render_rows(row as int) + self.spec_render_row(
                        row as int,
                        col as int,
                    ),
                decreases self.spec_width() - col,
            {
                let idx = self.get_index(row, col);
                if self.cells[idx] == Cell::Dead {
                    out.append("◻");
                    proof {
                        reveal_strlit("◻");
                        self.lemma_render_row_len(row as int, col as int);
                        assert(out@ =~= self.spec_render_rows(row as int) + self.spec_render_row(
                            row as int,
                            col as int + 1,
                        ));
                    }
                } else {
                    out.append("◼");
                    proof {
                        reveal_strlit("◼");
                        self.lemma_render_row_len(row as int, col as int);
                        assert(out@ =~= self.spec_render_rows(row as int) + self.spec_render_row(
                            row as int,
                            col as int + 1,
                        ));
                    }
                }
                col = col + 1;
            }
            out.append("\n");
            proof {
                reveal_strlit("\n");
                self.lemma_render_row_len(row as int, self.spec_width() as int);
                assert(out@ =~= self.spec_render_rows(row as int + 1));
            }
            row = row + 1;
        }
        out
    }

    /// Compute the next generation from a frozen snapshot of the current
    /// one: every entry of the result is the rule applied to the current
    /// grid, which this function never modifies.
    fn compute_next(&self) -> (next: Vec<Cell>)
        requires
            self.wf(),
        ensures
            next@.len() == self.spec_cells().len(),
            forall|r: int, c: int|
                self.in_bounds(r, c) ==> next@[self.spec_index(r, c)] == next_cell(
                    self.cell_at(r, c),
                    self.spec_live_neighbor_count(r, c),
                ),
    {
        let ghost w = self.spec_width() as int;
        let mut next: Vec<Cell> = Vec::new();
        let mut row: u32 = 0;
        while row < self.height
            invariant
                self.wf(),
                row <= self.spec_height(),
                next@.len() == row as int * w,
                w == self.spec_width() as int,
                forall|r: int, c: int|
                    0 <= r < row && 0 <= c < w ==> next@[self.spec_index(r, c)] == next_cell(
                        self.cell_at(r, c),
                        self.spec_live_neighbor_count(r, c),
                    ),
            decreases self.spec_height() - row,
        {
            let mut col: u32 = 0;
            while col < self.width
                invariant
                    self.wf(),
                    row < self.spec_height(),
                    col <= self.spec_width(),
                    next@.len() == row as int * w + col as int,
                    w == self.spec_width() as int,
                    forall|r: int, c: int|
                        (0 <= r < row && 0 <= c < w) || (r == row && 0 <= c < col)
                            ==> next@[self.spec_index(r, c)] == next_cell(
                            self.cell_at(r, c),
                            self.spec_live_neighbor_count(r, c),
                        ),
                decreases self.spec_width() - col,
            {
                let idx = self.get_index(row, col);
                let cell = self.cells[idx];
                let live_neighbors = self.live_neighbor_count(row, col);
                let next_cell_value = match cell {
                    Cell::Alive => if 2 <= live_neighbors && live_neighbors <= 3 {
                        Cell::Alive
                    } else {
                        Cell::RecentlyDead
                    },
                    Cell::RecentlyDead => if live_neighbors == 3 {
                        Cell::Alive
                    } else {
                        Cell::Dead
                    },
                    Cell::Dead => if live_neighbors == 3 {
                        Cell::Alive
                    } else {
                        Cell::Dead
                    },
                };
                next.push(next_cell_value);
                proof {
                    assert forall|r: int, c: int|
                        (0 <= r < row && 0 <= c < w) || (r == row && 0 <= c < col as int + 1)
                            implies next@[self.spec_index(r, c)] == next_cell(
                            self.cell_at(r, c),
                            self.spec_live_neighbor_count(r, c),
                        ) by {
                        if r == row && c == col as int {
                            assert(next@[self.spec_index(r, c)] == next_cell_value);
                        } else {
                            lemma_index_lt(w, r, c, row as int, col as int);
                        }
                    };
                }
                col = col + 1;
            }
            proof {
                assert((row as int + 1) * w == row as int * w + w) by (nonlinear_arith);
            }
            row = row + 1;
        }
        next
    }

    /// `1` when the cell at `(row, column)` is `Alive`, else `0`.
    fn alive_at(&self, row: u32, column: u32) -> (b: u8)
        requires
            self.wf(),
            self.in_bounds(row as int, column as int),
        ensures
            b as nat == self.alive_bit(row as int, column as int),
    {
        let idx = self.get_index(row, column);
        if self.cells[idx] == Cell::Alive {
            1
        } else {
            0
        }
    }

    /// Advance the whole grid one generation, applying the rule to every
    /// cell simultaneously: every neighbor count is taken against the
    /// pre-tick grid, never against the partly built next one.
    ///
    /// Returns `true` exactly when at least one cell changed state, i.e.
    /// `false` exactly when the grid reached a fixed point this step.
    pub fn tick(&mut self) -> (changed: bool)
        requires
            old(self).wf(),
        ensures
            final(self).wf(),
            final(self).spec_width() == old(self).spec_width(),
            final(self).spec_height() == old(self).spec_height(),
            forall|r: int, c: int|
                old(self).in_bounds(r, c) ==> final(self).cell_at(r, c) == next_cell(
                    old(self).cell_at(r, c),
                    old(self).spec_live_neighbor_count(r, c),
                ),
            changed <==> final(self).spec_cells() != old(self).spec_cells(),
    {
        let next = self.compute_next();
        let changed = cells_differ(&next, &self.cells);
        self.cells = next;
        changed
    }

    /// Replace every cell independently with `Dead` or `Alive` (never
    /// `RecentlyDead`), one draw per cell: cell `i` becomes `Alive` exactly
    /// when `draws[i]` is true. The draws come from an external random
    /// source; the engine itself performs no seeding.
    pub fn randomize_cells(&mut self, draws: &Vec<bool>)
        requires
            old(self).wf(),
            draws@.len() == old(self).spec_cells().len(),
        ensures
            final(self).wf(),
            final(self).spec_width() == old(self).spec_width(),
            final(self).spec_height() == old(self).spec_height(),
            forall|i: int|
                0 <= i < final(self).spec_cells().len() ==> final(self).spec_cells()[i] == (
                if draws@[i] {
                    Cell::Alive
                } else {
                    Cell::Dead
                }),
            forall|i: int|
                0 <= i < final(self).spec_cells().len() ==> final(self).spec_cells()[i]
                    != Cell::RecentlyDead,
    {
        let mut cells: Vec<Cell> = Vec::new();
        let mut i: usize = 0;
        while i < draws.len()
            invariant
                i <= draws@.len(),
                cells@.len() == i,
                forall|j: int|
                    0 <= j < i ==> cells@[j] == (if draws@[j] {
                        Cell::Alive
                    } else {
                        Cell::Dead
                    }),
            decreases draws@.len() - i,
        {
            if draws[i] {
                cells.push(Cell::Alive);
            } else {
                cells.push(Cell::Dead);
            }
            i = i + 1;
        }
        self.cells = cells;
    }

    /// Count the `Alive` cells among the eight toroidally wrapped neighbors
    /// of `(row, column)`. `RecentlyDead` and `Dead` cells do not count.
    pub fn live_neighbor_count(&self, row: u32, column: u32) -> (count: u8)
        requires
            self.wf(),
            self.in_bounds(row as int, column as int),
        ensures
            count as nat == self.spec_live_neighbor_count(row as int, column as int),
    {
        proof {
            reveal(Universe::spec_live_neighbor_count);
        }
        let up = if row == 0 { self.height - 1 } else { row - 1 };
        let down = if row + 1 == self.height { 0 } else { row + 1 };
        let left = if column == 0 { self.width - 1 } else { column - 1 };
        let right = if column + 1 == self.width { 0 } else { column + 1 };
        self.alive_at(up, left) + self.alive_at(up, column) + self.alive_at(up, right)
            + self.alive_at(row, left) + self.alive_at(row, right) + self.alive_at(down, left)
            + self.alive_at(down, column) + self.alive_at(down, right)
    }

    /// Advance the cell at `(row, column)` one step along the cycle
    /// `Dead -> Alive -> RecentlyDead -> Dead`. No other cell changes.
    pub fn toggle_cell(&mut self, row: u32, column: u32)
        requires
            old(self).wf(),
            old(self).in_bounds(row as int, column as int),
        ensures
            final(self).wf(),
            final(self).spec_width() == old(self).spec_width(),
            final(self).spec_height() == old(self).spec_height(),
            final(self).spec_cells() == toggled_at(
                old(self).spec_cells(),
                old(self).spec_index(row as int, column as int),
            ),
    {
        let idx = self.get_index(row, column);
        let mut cell = self.cells[idx];
        cell.toggle();
        self.cells[idx] = cell;
    }

    /// Force the cell at `(row, column)` to `Alive`. No other cell changes.
    pub fn set_alive(&mut self, row: u32, column: u32)
        requires
            old(self).wf(),
            old(self).in_bounds(row as int, column as int),
        ensures
            final(self).wf(),
            final(self).spec_width() == old(self).spec_width(),
            final(self).spec_height() == old(self).spec_height(),
            final(self).spec_cells() == old(self).spec_cells().update(
                old(self).spec_index(row as int, column as int),
                Cell::Alive,
            ),
    {
        let idx = self.get_index(row, column);
        self.cells[idx] = Cell::Alive;
    }

    /// Force the cell at `(row, column)` to `Dead`. No other cell changes.
    pub fn set_dead(&mut self, row: u32, column: u32)
        requires
            old(self).wf(),
            old(self).in_bounds(row as int, column as int),
        ensures
            final(self).wf(),
            final(self).spec_width() == old(self).spec_width(),
            final(self).spec_height() == old(self).spec_height(),
            final(self).spec_cells() == old(self).spec_cells().update(
                old(self).spec_index(row as int, column as int),
                Cell::Dead,
            ),
    {
        let idx = self.get_index(row, column);
        self.cells[idx] = Cell::Dead;
    }
}

} // verus!
