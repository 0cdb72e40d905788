//! The four grid edges, used to alternate where resizing adds or removes
//! rows and columns.

use vstd::prelude::*;

verus! {

/// One edge of the grid. `Left`/`Right` name the vertical edges (the `x = 0`
/// side and the `x = width - 1` side); `Top`/`Bottom` name the horizontal
/// edges (the `y = 0` side and the `y = height - 1` side).
#[derive(Clone, Copy, Debug, PartialEq, Eq, Structural)]
pub enum Direction {
    Left,
    Right,
    Top,
    Bottom,
}

impl Direction {
    /// The opposite edge on the same axis.
    pub open spec fn spec_toggled(self) -> Direction {
        match self {
            Direction::Left => Direction::Right,
            Direction::Right => Direction::Left,
            Direction::Top => Direction::Bottom,
            Direction::Bottom => Direction::Top,
        }
    }

    /// True of the edges of the width axis.
    pub open spec fn is_horizontal(self) -> bool {
        self == Direction::Left || self == Direction::Right
    }

    /// True of the edges of the height axis.
    pub open spec fn is_vertical(self) -> bool {
        self == Direction::Top || self == Direction::Bottom
    }

    /// Replaces the edge by the opposite edge on the same axis.
    pub fn toggle(&mut self)
        ensures
            *final(self) == old(self).spec_toggled(),
    {
        *self = match *self {
            Direction::Left => Direction::Right,
            Direction::Right => Direction::Left,
            Direction::Top => Direction::Bottom,
            Direction::Bottom => Direction::Top,
        };
    }
}

/// Toggling never yields the same edge, toggling twice comes back to the
/// starting edge, and toggling stays on the same axis.
pub proof fn lemma_toggled_involution(d: Direction)
    ensures
        d.spec_toggled() != d,
        d.spec_toggled().spec_toggled() == d,
        d.is_horizontal() ==> d.spec_toggled().is_horizontal(),
        d.is_vertical() ==> d.spec_toggled().is_vertical(),
{
}

} // verus!
