//! Laws the grid obeys across several operations, proved from the
//! operations' contracts alone.

use vstd::prelude::*;

use crate::direction::Direction;
use crate::direction::lemma_toggled_involution;
use crate::grid::Grid;
use crate::grid::advance_transition;
use crate::grid::lemma_live_count_all_dead;
use crate::grid::lemma_live_count_concat;
use crate::grid::lemma_live_count_push;
use crate::grid::lemma_row_major_decompose;
use crate::grid::lemma_row_major_in_row;
use crate::grid::lemma_row_major_order_to_area;
use crate::grid::live_count;
use crate::grid::toggle_transition;
use crate::resize::grown_low;
use crate::resize::next_append_dir;
use crate::resize::next_remove_dir;
use crate::resize::resize_transition;
use crate::resize::shrunk_low;

verus! {

/// Live cells among the coordinates `(0, y)` up to `(x - 1, y)` of one row.
pub open spec fn live_in_row_prefix(g: Grid, y: int, x: int) -> nat
    decreases x,
{
    if x <= 0 {
        0
    } else {
        live_in_row_prefix(g, y, x - 1) + if g.cell(x - 1, y) {
            1nat
        } else {
            0nat
        }
    }
}

/// Live cells among all coordinates of the rows `0` up to `y - 1`: the count
/// a scan of every coordinate of those rows yields.
pub open spec fn live_in_rows(g: Grid, y: int) -> nat
    decreases y,
{
    if y <= 0 {
        0
    } else {
        live_in_rows(g, y - 1) + live_in_row_prefix(g, y - 1, g.width as int)
    }
}

/// One row's coordinate scan matches the live count of that row's slice of
/// the store.
proof fn lemma_row_scan_matches_store(g: Grid, y: int, x: int)
    requires
        g.wf(),
        0 <= y < g.height as int,
        0 <= x <= g.width as int,
    ensures
        live_in_row_prefix(g, y, x) == live_count(
            g.cells@.subrange(y * g.width as int, y * g.width as int + x),
        ),
    decreases x,
{
    let w = g.width as int;
    lemma_row_major_order_to_area(w, g.height as int, y);
    assert(0 <= y * w && y * w + x <= (y + 1) * w) by (nonlinear_arith)
        requires
            0 <= y,
            0 <= w,
            x <= w,
    ;
    if x == 0 {
        assert(g.cells@.subrange(y * w, y * w) =~= Seq::<bool>::empty());
    } else {
        lemma_row_scan_matches_store(g, y, x - 1);
        lemma_row_major_in_row(w, y, x - 1);
        lemma_live_count_push(
            g.cells@.subrange(y * w, y * w + x - 1),
            g.cells@[y * w + x - 1],
        );
        assert(g.cells@.subrange(y * w, y * w + x) =~= g.cells@.subrange(y * w, y * w + x - 1).push(
            g.cells@[y * w + x - 1],
        ));
    }
}

/// The coordinate scan of the first `y` rows matches the live count of the
/// store's first `y * width` cells.
proof fn lemma_rows_scan_matches_store(g: Grid, y: int)
    requires
        g.wf(),
        0 <= y <= g.height as int,
    ensures
        live_in_rows(g, y) == live_count(g.cells@.subrange(0, y * g.width as int)),
    decreases y,
{
    let w = g.width as int;
    let h = g.height as int;
    assert(0 <= y * w <= h * w && h * w == w * h) by (nonlinear_arith)
        requires
            0 <= y <= h,
            0 <= w,
    ;
    if y == 0 {
        assert(g.cells@.subrange(0, 0) =~= Seq::<bool>::empty());
        assert(live_in_rows(g, 0) == 0);
        assert(live_count(g.cells@.subrange(0, 0 * w)) == 0);
    } else {
        lemma_rows_scan_matches_store(g, y - 1);
        lemma_row_scan_matches_store(g, y - 1, w);
        lemma_row_major_order_to_area(w, g.height as int, y - 1);
        assert((y - 1) * w + w == y * w) by (nonlinear_arith);
        lemma_live_count_concat(
            g.cells@.subrange(0, (y - 1) * w),
            g.cells@.subrange((y - 1) * w, y * w),
        );
        assert(g.cells@.subrange(0, y * w) =~= g.cells@.subrange(0, (y - 1) * w) + g.cells@.subrange(
            (y - 1) * w,
            y * w,
        ));
    }
}

/// Population invariant: in every well-formed grid — and every operation of
/// the library leaves the grid well-formed — the population counter equals
/// the count of live cells that a scan of every coordinate yields.
pub proof fn lemma_population_counts_every_coordinate(g: Grid)
    requires
        g.wf(),
    ensures
        g.population == live_in_rows(g, g.height as int),
{
    let w = g.width as int;
    let h = g.height as int;
    lemma_rows_scan_matches_store(g, h);
    assert(h * w == w * h) by (nonlinear_arith);
    assert(g.cells@.subrange(0, h * w) =~= g.cells@);
}

/// Isolated cells die: in a grid where every cell has at most one live
/// neighbor, one generation sweep leaves the population at zero.
pub proof fn lemma_isolated_cells_die(pre: Grid, post: Grid)
    requires
        pre.wf(),
        advance_transition(pre, post),
        forall|x: int, y: int| pre.in_bounds(x, y) ==> #[trigger] pre.neighbor_count(x, y) <= 1,
    ensures
        post.population == 0,
{
    let w = pre.width as int;
    let h = pre.height as int;
    assert forall|i: int| 0 <= i < post.cells@.len() implies !post.cells@[i] by {
        assert(post.cells@.len() == w * h);
        assert(w > 0) by {
            if w <= 0 {
                assert(w * h == 0) by (nonlinear_arith)
                    requires
                        w == 0,
                ;
            }
        }
        lemma_row_major_decompose(w, h, i);
        let x = i % w;
        let y = i / w;
        assert(pre.neighbor_count(x, y) <= 1);
        assert(post.cell(x, y) == pre.next_cell(x, y));
        assert(!pre.next_cell(x, y));
    }
    lemma_live_count_all_dead(post.cells@);
}

/// Toggle round-trip: toggling the same cell twice in succession restores
/// every cell value and leaves the population, the extents, the generation
/// counter and the resize directions unchanged.
pub proof fn lemma_toggle_round_trip(first: Grid, middle: Grid, last: Grid, x: u16, y: u16)
    requires
        first.wf(),
        x < first.width,
        y < first.height,
        toggle_transition(first, middle, x as int, y as int),
        toggle_transition(middle, last, x as int, y as int),
    ensures
        last.cells@ == first.cells@,
        last.population == first.population,
        last.width == first.width,
        last.height == first.height,
        last.generation == first.generation,
        last.width_append_direction == first.width_append_direction,
        last.height_append_direction == first.height_append_direction,
        last.width_remove_direction == first.width_remove_direction,
        last.height_remove_direction == first.height_remove_direction,
{
    lemma_row_major_in_row(first.width as int, y as int, x as int);
    lemma_row_major_order_to_area(first.width as int, first.height as int, y as int);
    let idx = first.cell_index(x as int, y as int);
    assert(middle.cell_index(x as int, y as int) == idx);
    assert(middle.cell(x as int, y as int) == !first.cell(x as int, y as int));
    assert(last.cells@ =~= first.cells@);
}

/// Two well-formed grids of the same extents that agree on every coordinate
/// hold the same store and the same population.
pub proof fn lemma_equal_cells_equal_store(a: Grid, b: Grid)
    requires
        a.wf(),
        b.wf(),
        a.width == b.width,
        a.height == b.height,
        forall|x: int, y: int| a.in_bounds(x, y) ==> a.cell(x, y) == #[trigger] b.cell(x, y),
    ensures
        a.cells@ == b.cells@,
        a.population == b.population,
{
    let w = a.width as int;
    let h = a.height as int;
    assert forall|i: int| 0 <= i < a.cells@.len() implies a.cells@[i] == b.cells@[i] by {
        assert(w > 0) by {
            if w <= 0 {
                assert(w * h == 0) by (nonlinear_arith)
                    requires
                        w == 0,
                ;
            }
        }
        lemma_row_major_decompose(w, h, i);
        let x = i % w;
        let y = i / w;
        assert(a.cell(x, y) == b.cell(x, y));
    }
    assert(a.cells@ =~= b.cells@);
}

/// No-op resize: a resize to the current extents leaves every cell value,
/// the population, the generation counter and all four resize directions
/// unchanged.
pub proof fn lemma_noop_resize(pre: Grid, post: Grid)
    requires
        pre.wf(),
        resize_transition(pre, post, pre.width, pre.height),
    ensures
        post.cells@ == pre.cells@,
        post.population == pre.population,
        post.generation == pre.generation,
        post.width_append_direction == pre.width_append_direction,
        post.height_append_direction == pre.height_append_direction,
        post.width_remove_direction == pre.width_remove_direction,
        post.height_remove_direction == pre.height_remove_direction,
{
    let w = pre.width as int;
    let h = pre.height as int;
    assert forall|x: int, y: int| post.in_bounds(x, y) implies post.cell(x, y) == #[trigger] pre.cell(
        x,
        y,
    ) by {
        assert(post.cell(x, y) == pre.resized_cell(x, y, w, h));
        assert(pre.width_shift(w) == 0);
        assert(pre.height_shift(h) == 0);
    }
    lemma_equal_cells_equal_store(post, pre);
}

/// Growing the height and then shrinking it back by the same amount restores
/// every cell value and the population: the shrink discards exactly the rows
/// the grow added, because an odd-difference grow points the remove
/// direction at the edge that received the extra row.
pub proof fn lemma_grow_shrink_height_round_trip(first: Grid, grown: Grid, last: Grid, taller: u16)
    requires
        first.wf(),
        taller > first.height,
        resize_transition(first, grown, first.width, taller),
        resize_transition(grown, last, first.width, first.height),
    ensures
        last.cells@ == first.cells@,
        last.population == first.population,
        last.generation == first.generation,
{
    let w = first.width as int;
    let h = first.height as int;
    let mid = taller as int;
    let a = grown_low(h, mid, first.height_append_direction == Direction::Top);
    // The shrink discards from the top exactly what the grow added there.
    assert(shrunk_low(mid, h, grown.height_remove_direction == Direction::Top) == a);
    assert forall|x: int, y: int| first.in_bounds(x, y) implies last.cell(x, y)
        == #[trigger] first.cell(x, y) by {
        assert(last.cell(x, y) == grown.resized_cell(x, y, w, h));
        assert(grown.width_shift(w) == 0);
        assert(grown.height_shift(h) == a);
        assert(0 <= a <= mid - h);
        assert(grown.cell(x, y + a) == first.resized_cell(x, y + a, w, mid));
        assert(first.width_shift(w) == 0);
        assert(first.height_shift(mid) == -a);
        assert(first.resized_cell(x, y + a, w, mid) == first.alive_at(x, y));
    }
    lemma_equal_cells_equal_store(last, first);
}

/// Edge alternation fairness: an odd-difference resize of an axis flips the
/// direction toggle it consulted. An odd grow flips the append direction and
/// points the remove direction at the edge that received the extra row or
/// column; an odd shrink flips the remove direction and points the append
/// direction at the edge that lost one. So repeated odd-difference grows
/// (or repeated odd-difference shrinks) never keep extending or cutting the
/// same edge.
pub proof fn lemma_odd_resize_flips_directions(
    app: Direction,
    rem: Direction,
    old_len: int,
    new_len: int,
)
    requires
        old_len != new_len,
        (if new_len > old_len {
            new_len - old_len
        } else {
            old_len - new_len
        }) % 2 == 1,
    ensures
        new_len > old_len ==> {
            &&& next_append_dir(app, rem, old_len, new_len) == app.spec_toggled()
            &&& next_append_dir(app, rem, old_len, new_len) != app
            &&& next_remove_dir(app, rem, old_len, new_len) == app
        },
        new_len < old_len ==> {
            &&& next_remove_dir(app, rem, old_len, new_len) == rem.spec_toggled()
            &&& next_remove_dir(app, rem, old_len, new_len) != rem
            &&& next_append_dir(app, rem, old_len, new_len) == rem
        },
{
    lemma_toggled_involution(app);
    lemma_toggled_involution(rem);
}

} // verus!
