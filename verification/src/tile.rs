use vstd::prelude::*;

verus! {

/// One cell of the grid.
///
/// A tile is a passive value with no identity of its own: `mine` is fixed
/// when the board is generated, `neighbours` is the precomputed count of
/// adjacent mine tiles (0 through 8), and the two player-driven flags start
/// out false.
#[derive(Clone, Copy, PartialEq, Eq, Structural, Debug)]
pub struct Tile {
    pub mine: bool,
    pub neighbours: u8,
    pub revealed: bool,
    pub flagged: bool,
}

impl Tile {
    /// A freshly generated tile: hidden, unflagged, count not yet computed.
    pub fn fresh(mine: bool) -> (t: Tile)
        ensures
            t == (Tile { mine, neighbours: 0u8, revealed: false, flagged: false }),
    {
        Tile { mine, neighbours: 0, revealed: false, flagged: false }
    }
}

} // verus!
