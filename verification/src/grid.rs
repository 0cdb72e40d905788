//! The cell grid: a dense row-major store of booleans together with
//! population and generation counters, the neighbor-counting rule evaluator,
//! and single-cell mutation with population bookkeeping.

use vstd::prelude::*;

use crate::direction::Direction;

verus! {

/// Number of live cells in a row-major cell store.
pub open spec fn live_count(s: Seq<bool>) -> nat
    decreases s.len(),
{
    if s.len() == 0 {
        0
    } else {
        live_count(s.drop_last()) + if s.last() {
            1nat
        } else {
            0nat
        }
    }
}

/// A live count never exceeds the number of cells.
pub proof fn lemma_live_count_le_len(s: Seq<bool>)
    ensures
        live_count(s) <= s.len(),
    decreases s.len(),
{
    if s.len() > 0 {
        lemma_live_count_le_len(s.drop_last());
    }
}

/// Appending one cell raises the live count exactly when the cell is live.
pub proof fn lemma_live_count_push(s: Seq<bool>, v: bool)
    ensures
        live_count(s.push(v)) == live_count(s) + if v {
            1int
        } else {
            0int
        },
{
    assert(s.push(v).drop_last() =~= s);
}

/// Overwriting one cell changes the live count by the difference between the
/// new and the old value.
pub proof fn lemma_live_count_update(s: Seq<bool>, i: int, v: bool)
    requires
        0 <= i < s.len(),
    ensures
        live_count(s.update(i, v)) == live_count(s) - (if s[i] {
            1int
        } else {
            0int
        }) + (if v {
            1int
        } else {
            0int
        }),
    decreases s.len(),
{
    if i == s.len() - 1 {
        assert(s.update(i, v).drop_last() =~= s.drop_last());
    } else {
        assert(s.update(i, v).drop_last() =~= s.drop_last().update(i, v));
        lemma_live_count_update(s.drop_last(), i, v);
    }
}

/// Live counts of two stores laid end to end simply sum.
pub proof fn lemma_live_count_concat(s: Seq<bool>, t: Seq<bool>)
    ensures
        live_count(s + t) == live_count(s) + live_count(t),
    decreases t.len(),
{
    if t.len() == 0 {
        assert((s + t) =~= s);
    } else {
        assert((s + t).drop_last() =~= s + t.drop_last());
        lemma_live_count_concat(s, t.drop_last());
    }
}

/// A store with no live cell has live count zero.
pub proof fn lemma_live_count_all_dead(s: Seq<bool>)
    requires
        forall|i: int| 0 <= i < s.len() ==> !s[i],
    ensures
        live_count(s) == 0,
    decreases s.len(),
{
    if s.len() > 0 {
        lemma_live_count_all_dead(s.drop_last());
    }
}

/// Within one row, the row-major index stays under the start of the next row.
pub proof fn lemma_row_major_in_row(w: int, y: int, x: int)
    requires
        0 <= x < w,
        0 <= y,
    ensures
        y * w <= y * w + x < (y + 1) * w,
{
    assert(y * w + x < (y + 1) * w) by (nonlinear_arith)
        requires
            0 <= x < w,
    ;
}

/// A cell of an earlier row has a smaller row-major index than any cell of a
/// later row.
pub proof fn lemma_row_major_order(w: int, yy: int, xx: int, y: int)
    requires
        0 <= xx < w,
        0 <= yy < y,
    ensures
        yy * w + xx < y * w,
{
    assert(yy * w + xx < y * w) by (nonlinear_arith)
        requires
            0 <= xx < w,
            0 <= yy < y,
    ;
}

/// Every index below `w * h` is the row-major index of exactly one in-bounds
/// coordinate pair.
pub proof fn lemma_row_major_decompose(w: int, h: int, i: int)
    requires
        0 < w,
        0 <= i < w * h,
    ensures
        0 <= i % w < w,
        0 <= i / w < h,
        i == (i / w) * w + (i % w),
{
    assert(0 <= i % w < w && 0 <= i / w < h && i == (i / w) * w + (i % w)) by (nonlinear_arith)
        requires
            0 < w,
            0 <= i < w * h,
    ;
}

/// The area of a grid with 16-bit extents fits comfortably in a `usize`.
pub proof fn lemma_area_bound(w: int, h: int)
    requires
        0 <= w <= 0xFFFF,
        0 <= h <= 0xFFFF,
    ensures
        0 <= w * h <= 0xFFFF * 0xFFFF,
{
    assert(w * h <= 0xFFFF * 0xFFFF) by (nonlinear_arith)
        requires
            0 <= w <= 0xFFFF,
            0 <= h <= 0xFFFF,
    ;
}

/// A bounded Game of Life grid.
///
/// Cells are stored row-major: position `(x, y)` with `0 <= x < width` and
/// `0 <= y < height` lives at index `y * width + x`. `population` always
/// equals the number of live cells, and `generation` counts completed
/// generation sweeps. The four direction fields alternate the edge that
/// gains or loses the odd extra row or column across resizes.
pub struct Grid {
    pub width: u16,
    pub height: u16,
    pub cells: Vec<bool>,
    pub population: usize,
    pub generation: usize,
    pub width_append_direction: Direction,
    pub height_append_direction: Direction,
    pub width_remove_direction: Direction,
    pub height_remove_direction: Direction,
}

impl Grid {
    /// Number of cells the store must hold.
    pub open spec fn area(self) -> int {
        self.width as int * self.height as int
    }

    /// Row-major index of a coordinate pair.
    pub open spec fn cell_index(self, x: int, y: int) -> int {
        y * self.width as int + x
    }

    /// Whether a coordinate pair lies on the grid.
    pub open spec fn in_bounds(self, x: int, y: int) -> bool {
        0 <= x < self.width as int && 0 <= y < self.height as int
    }

    /// The stored value of an in-bounds cell.
    pub open spec fn cell(self, x: int, y: int) -> bool {
        self.cells@[self.cell_index(x, y)]
    }

    /// Whether a coordinate pair names a live cell; positions off the grid
    /// count as permanently dead.
    pub open spec fn alive_at(self, x: int, y: int) -> bool {
        self.in_bounds(x, y) && self.cell(x, y)
    }

    /// Well-formedness: the store has exactly `width * height` cells, the
    /// population counter matches the store, and each direction field names
    /// an edge of its own axis.
    pub open spec fn wf(self) -> bool {
        &&& self.cells@.len() == self.area()
        &&& self.population == live_count(self.cells@)
        &&& self.width_append_direction.is_horizontal()
        &&& self.width_remove_direction.is_horizontal()
        &&& self.height_append_direction.is_vertical()
        &&& self.height_remove_direction.is_vertical()
    }

    /// Number of live cells among the eight Moore neighbors of `(x, y)`.
    pub open spec fn neighbor_count(self, x: int, y: int) -> int {
        count_one(self.alive_at(x - 1, y - 1)) + count_one(self.alive_at(x - 1, y)) + count_one(
            self.alive_at(x - 1, y + 1),
        ) + count_one(self.alive_at(x, y + 1)) + count_one(self.alive_at(x + 1, y + 1)) + count_one(
            self.alive_at(x + 1, y),
        ) + count_one(self.alive_at(x + 1, y - 1)) + count_one(self.alive_at(x, y - 1))
    }

    /// The birth/death rule, evaluated against the current generation: a live
    /// cell survives with two or three live neighbors, a dead cell is born
    /// with exactly three.
    pub open spec fn next_cell(self, x: int, y: int) -> bool {
        if self.alive_at(x, y) {
            self.neighbor_count(x, y) == 2 || self.neighbor_count(x, y) == 3
        } else {
            self.neighbor_count(x, y) == 3
        }
    }

    /// Creates an all-dead grid with the given extents, population 0,
    /// generation 0, and the resize edges at their starting positions.
    pub fn new(width: u16, height: u16) -> (g: Grid)
        ensures
            g.wf(),
            g.width == width,
            g.height == height,
            g.population == 0,
            g.generation == 0,
            forall|x: int, y: int| g.in_bounds(x, y) ==> !g.cell(x, y),
            g.width_append_direction == Direction::Right,
            g.height_append_direction == Direction::Bottom,
            g.width_remove_direction == Direction::Right,
            g.height_remove_direction == Direction::Bottom,
    {
        proof {
            lemma_area_bound(width as int, height as int);
        }
        let n: usize = (width as usize) * (height as usize);
        let mut cells: Vec<bool> = Vec::new();
        while cells.len() < n
            invariant
                cells@.len() <= n,
                forall|i: int| 0 <= i < cells@.len() ==> !cells@[i],
            decreases n - cells@.len(),
        {
            cells.push(false);
        }
        proof {
            lemma_live_count_all_dead(cells@);
        }
        let g = Grid {
            width,
            height,
            cells,
            population: 0,
            generation: 0,
            width_append_direction: Direction::Right,
            height_append_direction: Direction::Bottom,
            width_remove_direction: Direction::Right,
            height_remove_direction: Direction::Bottom,
        };
        proof {
            assert forall|x: int, y: int| g.in_bounds(x, y) implies !g.cell(x, y) by {
                lemma_row_major_in_row(width as int, y, x);
                lemma_row_major_order_to_area(width as int, height as int, y);
            }
        }
        g
    }

    /// Current liveness of an in-bounds cell.
    pub fn read(&self, x: u16, y: u16) -> (r: bool)
        requires
            self.wf(),
            x < self.width,
            y < self.height,
        ensures
            r == self.cell(x as int, y as int),
    {
        proof {
            lemma_row_major_in_row(self.width as int, y as int, x as int);
            lemma_row_major_order_to_area(self.width as int, self.height as int, y as int);
            lemma_area_bound(self.width as int, self.height as int);
        }
        let idx: usize = (y as usize) * (self.width as usize) + (x as usize);
        self.cells[idx]
    }

    /// Bounds-checked lookup: `None` exactly for positions off the grid.
    pub fn get(&self, width: u16, height: u16) -> (r: Option<&bool>)
        requires
            self.wf(),
        ensures
            match r {
                Some(b) => self.in_bounds(width as int, height as int) && *b == self.cell(
                    width as int,
                    height as int,
                ),
                None => !self.in_bounds(width as int, height as int),
            },
    {
        if width >= self.width || height >= self.height {
            return None;
        }
        proof {
            lemma_row_major_in_row(self.width as int, height as int, width as int);
            lemma_row_major_order_to_area(self.width as int, self.height as int, height as int);
            lemma_area_bound(self.width as int, self.height as int);
        }
        let idx: usize = (height as usize) * (self.width as usize) + (width as usize);
        Some(&self.cells[idx])
    }

    /// Liveness at a possibly negative or out-of-range offset position, which
    /// counts as dead.
    pub(crate) fn alive_checked(&self, x: i32, y: i32) -> (r: bool)
        requires
            self.wf(),
        ensures
            r == self.alive_at(x as int, y as int),
    {
        if x < 0 || y < 0 || x >= self.width as i32 || y >= self.height as i32 {
            return false;
        }
        match self.get(x as u16, y as u16) {
            Some(b) => *b,
            None => false,
        }
    }

    /// Counts the live cells among the eight Moore neighbors of the indexed
    /// cell, treating positions off the grid as dead.
    pub fn count_alive_neighbors(&self, index: (u16, u16)) -> (r: u8)
        requires
            self.wf(),
            index.0 < self.width,
            index.1 < self.height,
        ensures
            r as int == self.neighbor_count(index.0 as int, index.1 as int),
    {
        let x: i32 = index.0 as i32;
        let y: i32 = index.1 as i32;
        let mut count: u8 = 0;
        if self.alive_checked(x - 1, y - 1) {
            count = count + 1;
        }
        if self.alive_checked(x - 1, y) {
            count = count + 1;
        }
        if self.alive_checked(x - 1, y + 1) {
            count = count + 1;
        }
        if self.alive_checked(x, y + 1) {
            count = count + 1;
        }
        if self.alive_checked(x + 1, y + 1) {
            count = count + 1;
        }
        if self.alive_checked(x + 1, y) {
            count = count + 1;
        }
        if self.alive_checked(x + 1, y - 1) {
            count = count + 1;
        }
        if self.alive_checked(x, y - 1) {
            count = count + 1;
        }
        count
    }

    /// Flips one cell and adjusts the population counter by one, never by
    /// re-scanning the store.
    pub fn toggle_cell(&mut self, index: (u16, u16))
        requires
            old(self).wf(),
            index.0 < old(self).width,
            index.1 < old(self).height,
        ensures
            toggle_transition(*old(self), *final(self), index.0 as int, index.1 as int),
    {
        let x = index.0;
        let y = index.1;
        proof {
            lemma_row_major_in_row(self.width as int, y as int, x as int);
            lemma_row_major_order_to_area(self.width as int, self.height as int, y as int);
            lemma_live_count_update(
                self.cells@,
                self.cell_index(x as int, y as int),
                !self.cell(x as int, y as int),
            );
            lemma_live_count_le_len(self.cells@);
            lemma_area_bound(self.width as int, self.height as int);
        }
        let idx: usize = (y as usize) * (self.width as usize) + (x as usize);
        let was: bool = self.cells[idx];
        self.cells.set(idx, !was);
        if !was {
            self.population = self.population + 1;
        } else {
            self.population = self.population - 1;
        }
    }

    /// Runs one full synchronous generation sweep: every cell is rewritten by
    /// the birth/death rule evaluated against the snapshot of the current
    /// generation, the population counter follows the births and deaths, and
    /// the generation counter rises by one.
    #[verifier::loop_isolation(false)]
    pub fn next_generation(&mut self)
        requires
            old(self).wf(),
            old(self).generation < usize::MAX,
        ensures
            advance_transition(*old(self), *final(self)),
    {
        let ghost g0 = *self;
        let w: u16 = self.width;
        let h: u16 = self.height;
        proof {
            lemma_area_bound(w as int, h as int);
        }
        let mut next_cells: Vec<bool> = Vec::new();
        let mut pop: usize = 0;
        let mut y: u16 = 0;
        while y < h
            invariant
                y <= h,
                next_cells@.len() == y as int * w as int,
                pop == live_count(next_cells@),
                pop <= next_cells@.len(),
                forall|xx: int, yy: int|
                    0 <= xx < w as int && 0 <= yy < y as int ==> next_cells@[yy * w as int + xx]
                        == #[trigger] g0.next_cell(xx, yy),
            decreases h - y,
        {
            let mut x: u16 = 0;
            while x < w
                invariant
                    x <= w,
                    y < h,
                    next_cells@.len() == y as int * w as int + x as int,
                    pop == live_count(next_cells@),
                    pop <= next_cells@.len(),
                    forall|xx: int, yy: int|
                        0 <= xx < w as int && 0 <= yy < y as int ==> next_cells@[yy * w as int + xx]
                            == #[trigger] g0.next_cell(xx, yy),
                    forall|xx: int|
                        0 <= xx < x as int ==> next_cells@[y as int * w as int + xx]
                            == #[trigger] g0.next_cell(xx, y as int),
                decreases w - x,
            {
                let alive_neighbors: u8 = self.count_alive_neighbors((x, y));
                let cur: bool = self.read(x, y);
                let next: bool = if cur {
                    alive_neighbors == 2 || alive_neighbors == 3
                } else {
                    alive_neighbors == 3
                };
                proof {
                    lemma_row_major_in_row(w as int, y as int, x as int);
                    lemma_row_major_order_to_area(w as int, h as int, y as int);
                    lemma_live_count_push(next_cells@, next);
                    assert forall|xx: int, yy: int|
                        0 <= xx < w as int && 0 <= yy < y as int implies next_cells@.push(
                        next,
                    )[yy * w as int + xx] == #[trigger] g0.next_cell(xx, yy) by {
                        lemma_row_major_order(w as int, yy, xx, y as int);
                    }
                }
                next_cells.push(next);
                if next {
                    pop = pop + 1;
                }
                x = x + 1;
            }
            proof {
                assert((y as int + 1) * (w as int) == y as int * w as int + w as int)
                    by (nonlinear_arith);
            }
            y = y + 1;
        }
        proof {
            lemma_area_bound(w as int, h as int);
        }
        self.cells = next_cells;
        self.population = pop;
        self.generation = self.generation + 1;
    }
}

/// How `toggle_cell(index)` relates the grid after the call (`post`) to the
/// grid before it (`pre`): the indexed cell is flipped, the population
/// counter follows it, and everything else is unchanged.
pub open spec fn toggle_transition(pre: Grid, post: Grid, x: int, y: int) -> bool {
    &&& post.width == pre.width
    &&& post.height == pre.height
    &&& post.generation == pre.generation
    &&& post.width_append_direction == pre.width_append_direction
    &&& post.height_append_direction == pre.height_append_direction
    &&& post.width_remove_direction == pre.width_remove_direction
    &&& post.height_remove_direction == pre.height_remove_direction
    &&& post.cells@ == pre.cells@.update(pre.cell_index(x, y), !pre.cell(x, y))
    &&& post.population == pre.population as int + (if pre.cell(x, y) {
        -1int
    } else {
        1int
    })
    &&& post.wf()
}

/// How `next_generation()` relates the grid after the call (`post`) to the
/// grid before it (`pre`): every cell holds the birth/death rule's verdict on
/// the `pre` snapshot, the generation counter rises by one, the extents and
/// resize edges are unchanged, and the population counter matches the new
/// store.
pub open spec fn advance_transition(pre: Grid, post: Grid) -> bool {
    &&& post.width == pre.width
    &&& post.height == pre.height
    &&& post.generation == pre.generation + 1
    &&& post.width_append_direction == pre.width_append_direction
    &&& post.height_append_direction == pre.height_append_direction
    &&& post.width_remove_direction == pre.width_remove_direction
    &&& post.height_remove_direction == pre.height_remove_direction
    &&& forall|x: int, y: int|
        #![trigger post.cell(x, y)]
        #![trigger pre.next_cell(x, y)]
        pre.in_bounds(x, y) ==> post.cell(x, y) == pre.next_cell(x, y)
    &&& post.wf()
}

/// One if the cell is live, zero if it is dead.
pub open spec fn count_one(alive: bool) -> int {
    if alive {
        1
    } else {
        0
    }
}

/// All row-major indices of rows below `h` lie under the area.
pub proof fn lemma_row_major_order_to_area(w: int, h: int, y: int)
    requires
        0 <= y < h,
        0 <= w,
    ensures
        (y + 1) * w <= h * w,
        h * w == w * h,
{
    assert((y + 1) * w <= h * w) by (nonlinear_arith)
        requires
            0 <= y < h,
            0 <= w,
    ;
}

} // verus!
