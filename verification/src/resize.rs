//! Resizing the grid in place.
//!
//! Height changes are resolved first, then width changes. A grow puts half of
//! the new dead rows (or columns) at each edge; a shrink discards half from
//! each edge, subtracting the discarded live cells from the population. When
//! the difference is odd, the extra row or column goes to the edge the
//! append direction names (a grow) or leaves from the edge the remove
//! direction names (a shrink), and the two directions of that axis are then
//! exchanged and flipped so that repeated odd-difference resizes treat both
//! edges fairly.

use std::collections::VecDeque;
use vstd::prelude::*;

use crate::direction::Direction;
use crate::grid::Grid;
use crate::grid::lemma_area_bound;
use crate::grid::lemma_live_count_push;
use crate::grid::lemma_row_major_in_row;
use crate::grid::lemma_row_major_order;
use crate::grid::lemma_row_major_order_to_area;
use crate::grid::live_count;

verus! {

/// How many of the rows (or columns) that a grow adds land on the low edge
/// of the axis: the `y = 0` edge for height, the `x = 0` edge for width.
/// Half of the difference does, plus the odd extra one when the append
/// direction names the low edge.
pub open spec fn grown_low(old_len: int, new_len: int, extra_low: bool) -> int {
    if new_len > old_len {
        (new_len - old_len) / 2 + if (new_len - old_len) % 2 == 1 && extra_low {
            1int
        } else {
            0int
        }
    } else {
        0
    }
}

/// How many of the rows (or columns) that a shrink discards leave from the
/// low edge of the axis. Half of the difference does, plus the odd extra one
/// when the remove direction names the low edge.
pub open spec fn shrunk_low(old_len: int, new_len: int, extra_low: bool) -> int {
    if new_len < old_len {
        (old_len - new_len) / 2 + if (old_len - new_len) % 2 == 1 && extra_low {
            1int
        } else {
            0int
        }
    } else {
        0
    }
}

/// The append direction of an axis after a resize of that axis: an
/// odd-difference grow flips it, an odd-difference shrink moves it to the
/// edge the remove direction named, and any other resize leaves it alone.
pub open spec fn next_append_dir(app: Direction, rem: Direction, old_len: int, new_len: int) -> Direction {
    if new_len > old_len && (new_len - old_len) % 2 == 1 {
        app.spec_toggled()
    } else if new_len < old_len && (old_len - new_len) % 2 == 1 {
        rem
    } else {
        app
    }
}

/// The remove direction of an axis after a resize of that axis: an
/// odd-difference grow moves it to the edge that received the extra row or
/// column, an odd-difference shrink flips it, and any other resize leaves it
/// alone.
pub open spec fn next_remove_dir(app: Direction, rem: Direction, old_len: int, new_len: int) -> Direction {
    if new_len > old_len && (new_len - old_len) % 2 == 1 {
        app
    } else if new_len < old_len && (old_len - new_len) % 2 == 1 {
        rem.spec_toggled()
    } else {
        rem
    }
}

/// How `resize(width, height)` relates the grid after the call (`post`) to
/// the grid before it (`pre`): the extents are the new ones, every cell holds
/// the value of its source position in `pre` (dead where the source position
/// lies off the old grid), the population counter matches the new store, the
/// generation counter is untouched, and each axis's append/remove directions
/// move as an odd-difference grow or shrink of that axis dictates.
pub open spec fn resize_transition(pre: Grid, post: Grid, width: u16, height: u16) -> bool {
    &&& post.wf()
    &&& post.width == width
    &&& post.height == height
    &&& post.generation == pre.generation
    &&& forall|x: int, y: int|
        #![trigger post.cell(x, y)]
        #![trigger pre.resized_cell(x, y, width as int, height as int)]
        0 <= x < width as int && 0 <= y < height as int ==> post.cell(x, y) == pre.resized_cell(
            x,
            y,
            width as int,
            height as int,
        )
    &&& post.height_append_direction == next_append_dir(
        pre.height_append_direction,
        pre.height_remove_direction,
        pre.height as int,
        height as int,
    )
    &&& post.height_remove_direction == next_remove_dir(
        pre.height_append_direction,
        pre.height_remove_direction,
        pre.height as int,
        height as int,
    )
    &&& post.width_append_direction == next_append_dir(
        pre.width_append_direction,
        pre.width_remove_direction,
        pre.width as int,
        width as int,
    )
    &&& post.width_remove_direction == next_remove_dir(
        pre.width_append_direction,
        pre.width_remove_direction,
        pre.width as int,
        width as int,
    )
}

impl Grid {
    /// What a resize to height `new_height` adds to a row index to find the
    /// source row: rows discarded from the top shift the origin down, rows
    /// added at the top shift it up.
    pub open spec fn height_shift(self, new_height: int) -> int {
        shrunk_low(
            self.height as int,
            new_height,
            self.height_remove_direction == Direction::Top,
        ) - grown_low(
            self.height as int,
            new_height,
            self.height_append_direction == Direction::Top,
        )
    }

    /// What a resize to width `new_width` adds to a column index to find the
    /// source column.
    pub open spec fn width_shift(self, new_width: int) -> int {
        shrunk_low(
            self.width as int,
            new_width,
            self.width_remove_direction == Direction::Left,
        ) - grown_low(
            self.width as int,
            new_width,
            self.width_append_direction == Direction::Left,
        )
    }

    /// The value a resize to `new_width` by `new_height` gives the cell at
    /// `(x, y)`: the value its source position held, or dead when the source
    /// position lies off the old grid (a freshly added row or column).
    pub open spec fn resized_cell(self, x: int, y: int, new_width: int, new_height: int) -> bool {
        self.alive_at(x + self.width_shift(new_width), y + self.height_shift(new_height))
    }

    /// Reshapes the grid in place to the new extents.
    ///
    /// Every surviving cell keeps its value, added cells are dead, the
    /// population counter ends equal to the live count of the new store, the
    /// generation counter is untouched, and each axis with an odd difference
    /// exchanges and flips its append/remove directions.
    #[verifier::loop_isolation(false)]
    #[verifier::rlimit(50)]
    pub fn resize(&mut self, width: u16, height: u16)
        requires
            old(self).wf(),
        ensures
            resize_transition(*old(self), *final(self), width, height),
    {
        let ghost g0 = *self;
        let old_w: u16 = self.width;
        let old_h: u16 = self.height;

        // How many rows the height change adds to or discards from the top
        // edge, and the same for columns and the left edge.
        let mut added_top: u16 = 0;
        let mut removed_top: u16 = 0;
        if height > old_h {
            let d: u16 = height - old_h;
            added_top = d / 2;
            if d % 2 == 1 && self.height_append_direction == Direction::Top {
                added_top = added_top + 1;
            }
        } else if height < old_h {
            let m: u16 = old_h - height;
            removed_top = m / 2;
            if m % 2 == 1 && self.height_remove_direction == Direction::Top {
                removed_top = removed_top + 1;
            }
        }
        let mut added_left: u16 = 0;
        let mut removed_left: u16 = 0;
        if width > old_w {
            let d: u16 = width - old_w;
            added_left = d / 2;
            if d % 2 == 1 && self.width_append_direction == Direction::Left {
                added_left = added_left + 1;
            }
        } else if width < old_w {
            let m: u16 = old_w - width;
            removed_left = m / 2;
            if m % 2 == 1 && self.width_remove_direction == Direction::Left {
                removed_left = removed_left + 1;
            }
        }
        let y_shift: i32 = removed_top as i32 - added_top as i32;
        let x_shift: i32 = removed_left as i32 - added_left as i32;
        proof {
            assert(y_shift as int == g0.height_shift(height as int));
            assert(x_shift as int == g0.width_shift(width as int));
            lemma_area_bound(width as int, height as int);
        }

        // Rebuild the store row by row against the unchanged old store,
        // counting the live cells that survive.
        let mut next_cells: Vec<bool> = Vec::new();
        let mut pop: usize = 0;
        let mut y: u16 = 0;
        while y < height
            invariant
                y <= height,
                next_cells@.len() == y as int * width as int,
                pop == live_count(next_cells@),
                pop <= next_cells@.len(),
                forall|xx: int, yy: int|
                    0 <= xx < width as int && 0 <= yy < y as int ==> next_cells@[yy * width as int
                        + xx] == #[trigger] g0.resized_cell(xx, yy, width as int, height as int),
            decreases height - y,
        {
            let mut x: u16 = 0;
            while x < width
                invariant
                    x <= width,
                    y < height,
                    next_cells@.len() == y as int * width as int + x as int,
                    pop == live_count(next_cells@),
                    pop <= next_cells@.len(),
                    forall|xx: int, yy: int|
                        0 <= xx < width as int && 0 <= yy < y as int ==> next_cells@[yy * width
                            as int + xx] == #[trigger] g0.resized_cell(
                            xx,
                            yy,
                            width as int,
                            height as int,
                        ),
                    forall|xx: int|
                        0 <= xx < x as int ==> next_cells@[y as int * width as int + xx]
                            == #[trigger] g0.resized_cell(xx, y as int, width as int, height as int),
                decreases width - x,
            {
                let sx: i32 = x as i32 + x_shift;
                let sy: i32 = y as i32 + y_shift;
                let survives: bool = self.alive_checked(sx, sy);
                proof {
                    lemma_row_major_in_row(width as int, y as int, x as int);
                    lemma_row_major_order_to_area(width as int, height as int, y as int);
                    lemma_live_count_push(next_cells@, survives);
                    assert forall|xx: int, yy: int|
                        0 <= xx < width as int && 0 <= yy < y as int implies next_cells@.push(
                        survives,
                    )[yy * width as int + xx] == #[trigger] g0.resized_cell(
                        xx,
                        yy,
                        width as int,
                        height as int,
                    ) by {
                        lemma_row_major_order(width as int, yy, xx, y as int);
                    }
                }
                next_cells.push(survives);
                if survives {
                    pop = pop + 1;
                }
                x = x + 1;
            }
            proof {
                assert((y as int + 1) * (width as int) == y as int * width as int + width as int)
                    by (nonlinear_arith);
            }
            y = y + 1;
        }

        proof {
            assert(height as int * width as int == width as int * height as int)
                by (nonlinear_arith);
        }
        self.cells = next_cells;
        self.population = pop;
        self.height = height;
        self.width = width;

        // Keep the odd extra row or column fair across resizes: after an odd
        // grow the next shrink removes from the edge just extended and the
        // next grow extends the opposite edge; after an odd shrink the next
        // grow extends the edge just cut and the next shrink cuts the
        // opposite edge.
        if height > old_h {
            if (height - old_h) % 2 == 1 {
                self.height_remove_direction = self.height_append_direction;
                self.height_append_direction.toggle();
            }
        } else if height < old_h {
            if (old_h - height) % 2 == 1 {
                self.height_append_direction = self.height_remove_direction;
                self.height_remove_direction.toggle();
            }
        }
        if width > old_w {
            if (width - old_w) % 2 == 1 {
                self.width_remove_direction = self.width_append_direction;
                self.width_append_direction.toggle();
            }
        } else if width < old_w {
            if (old_w - width) % 2 == 1 {
                self.width_append_direction = self.width_remove_direction;
                self.width_remove_direction.toggle();
            }
        }
    }

    /// Number of live cells in one row of cells.
    pub fn row_population(row: VecDeque<bool>) -> (population: usize)
        ensures
            population == live_count(row@),
    {
        let mut population: usize = 0;
        let mut i: usize = 0;
        while i < row.len()
            invariant
                i <= row@.len(),
                population <= i,
                population == live_count(row@.subrange(0, i as int)),
            decreases row@.len() - i,
        {
            proof {
                lemma_live_count_push(row@.subrange(0, i as int), row@[i as int]);
                assert(row@.subrange(0, i as int + 1) =~= row@.subrange(0, i as int).push(
                    row@[i as int],
                ));
            }
            if row[i] {
                population = population + 1;
            }
            i = i + 1;
        }
        proof {
            assert(row@.subrange(0, i as int) =~= row@);
        }
        population
    }
}

} // verus!
