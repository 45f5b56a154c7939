use vstd::prelude::*;
use rand::distributions::Bernoulli;
use crate::grid::adj_flags;
use crate::grid::adj_mines;
use crate::grid::count_adjacent_flags;
use crate::grid::count_adjacent_mines;
use crate::grid::count_mined_neighbours;
use crate::grid::is_neighbour;
use crate::grid::is_neighbour_exec;
use crate::grid::lemma_adj_mines_counts_neighbours;
use crate::grid::lemma_adj_mines_same;
use crate::rng::bernoulli_from_ratio;
use crate::rng::bernoulli_sample;
use crate::tile::Tile;

verus! {

/// The number of mine tiles among the first `n` tiles of the grid.
pub open spec fn count_mines_upto(s: Seq<Tile>, n: int) -> int
    decreases n,
{
    if n <= 0 {
        0
    } else {
        count_mines_upto(s, n - 1) + if s[n - 1].mine {
            1int
        } else {
            0int
        }
    }
}

/// The number of mine tiles of the whole grid.
pub open spec fn count_mines(s: Seq<Tile>) -> int {
    count_mines_upto(s, s.len() as int)
}

/// The number of flagged tiles among the first `n` tiles of the grid.
pub open spec fn count_flags_upto(s: Seq<Tile>, n: int) -> int
    decreases n,
{
    if n <= 0 {
        0
    } else {
        count_flags_upto(s, n - 1) + if s[n - 1].flagged {
            1int
        } else {
            0int
        }
    }
}

/// The number of flagged tiles of the whole grid.
pub open spec fn count_flags(s: Seq<Tile>) -> int {
    count_flags_upto(s, s.len() as int)
}

/// The tile is no obstacle to winning: a mine, or already revealed.
pub open spec fn safe_done(t: Tile) -> bool {
    t.mine || t.revealed
}

/// The win condition: every non-mine tile has been revealed.
pub open spec fn all_safe_revealed(s: Seq<Tile>) -> bool {
    forall|j: int| 0 <= j < s.len() ==> safe_done(#[trigger] s[j])
}

/// The tile with its `revealed` flag set.
pub open spec fn with_revealed(t: Tile) -> Tile {
    Tile { revealed: true, ..t }
}

/// The tile with its `flagged` flag toggled.
pub open spec fn with_flag_toggled(t: Tile) -> Tile {
    Tile { flagged: !t.flagged, ..t }
}

/// What a chord of cell `i` leaves at cell `j`: unflagged non-mine
/// neighbours come up revealed, every other tile keeps its state.
pub open spec fn chorded_tile(s: Seq<Tile>, w: int, h: int, i: int, j: int) -> Tile {
    if is_neighbour(w, h, i, j) && !s[j].flagged && !s[j].mine {
        with_revealed(s[j])
    } else {
        s[j]
    }
}

/// Some unflagged neighbour of `i` holds a mine: a chord of `i` would
/// trigger it.
pub open spec fn chord_hits_mine(s: Seq<Tile>, w: int, h: int, i: int) -> bool {
    exists|j: int| #[trigger] is_neighbour(w, h, i, j) && !s[j].flagged && s[j].mine
}

/// Whether some cell `j < n` is an unflagged mine neighbour of `i`: the
/// loop-sized form of [`chord_hits_mine`].
pub open spec fn mine_hit_upto(s: Seq<Tile>, w: int, h: int, i: int, n: int) -> bool
    decreases n,
{
    if n <= 0 {
        false
    } else {
        mine_hit_upto(s, w, h, i, n - 1) || (is_neighbour(w, h, i, n - 1) && !s[n - 1].flagged
            && s[n - 1].mine)
    }
}

/// How a reveal of one tile ended.
#[derive(Clone, Copy, PartialEq, Eq, Structural, Debug)]
pub enum RevealOutcome {
    /// The action did not apply; nothing changed.
    Ignored,
    /// Tiles were revealed without touching a mine.
    Revealed,
    /// An unflagged mine was triggered; the game is lost.
    MineHit,
}

/// The tile grid: dimensions, tiles in row-major order, the fixed mine
/// count, and the Bernoulli distribution used to (re)generate the layout.
pub struct Board {
    pub tiles: Vec<Tile>,
    pub width: usize,
    pub height: usize,
    pub mines: usize,
    pub distr: Bernoulli,
}

impl Board {
    /// The grid's structural invariant: dimensions are positive and fixed,
    /// the tile count matches them, `mines` counts the mine tiles, and
    /// every tile carries the adjacency count of its neighbourhood.
    pub open spec fn wf(self) -> bool {
        &&& 1 <= self.width
        &&& 1 <= self.height
        &&& self.width * self.height <= usize::MAX
        &&& self.tiles@.len() == self.width * self.height
        &&& self.mines == count_mines(self.tiles@)
        &&& forall|i: int|
            0 <= i < self.tiles@.len() ==> (#[trigger] self.tiles@[i]).neighbours as int
                == adj_mines(
                self.tiles@,
                self.width as int,
                self.height as int,
                i,
            )
    }

    /// Every tile is still face down and unflagged: a board nobody has
    /// played on yet.
    pub open spec fn fresh(self) -> bool {
        forall|i: int|
            0 <= i < self.tiles@.len() ==> !(#[trigger] self.tiles@[i]).revealed
                && !self.tiles@[i].flagged
    }

    /// On every well-formed board, `mines` counts the mine tiles and each
    /// tile's precomputed `neighbours` equals the number of its
    /// neighbouring cells that hold mines, the latter recounted cell by
    /// cell over the whole grid.
    pub proof fn lemma_counts_recounted(self)
        requires
            self.wf(),
        ensures
            self.mines == count_mines(self.tiles@),
            forall|i: int|
                0 <= i < self.tiles@.len() ==> (#[trigger] self.tiles@[i]).neighbours as int
                    == count_mined_neighbours(
                    self.tiles@,
                    self.width as int,
                    self.height as int,
                    i,
                ),
    {
        assert forall|i: int|
            0 <= i < self.tiles@.len() implies (#[trigger] self.tiles@[i]).neighbours as int
            == count_mined_neighbours(self.tiles@, self.width as int, self.height as int, i) by {
            lemma_adj_mines_counts_neighbours(
                self.tiles@,
                self.width as int,
                self.height as int,
                i,
            );
        }
    }

    /// The two boards hold the same value, field by field.
    pub open spec fn same_as(self, other: Board) -> bool {
        &&& self.tiles@ == other.tiles@
        &&& self.width == other.width
        &&& self.height == other.height
        &&& self.mines == other.mines
        &&& self.distr == other.distr
    }
}

/// Count the mine tiles of a grid.
fn count_all_mines(tiles: &Vec<Tile>) -> (m: usize)
    ensures
        m as int == count_mines(tiles@),
{
    let n: usize = tiles.len();
    let mut m: usize = 0;
    let mut k: usize = 0;
    while k < n
        invariant
            n == tiles@.len(),
            k <= n,
            m <= k,
            m as int == count_mines_upto(tiles@, k as int),
        decreases n - k,
    {
        if tiles[k].mine {
            m = m + 1;
        }
        k = k + 1;
    }
    m
}

/// Lay out fresh tiles for a mine layout and precompute every adjacency
/// count.
fn grid_from_layout(width: usize, height: usize, mine_layout: &Vec<bool>) -> (tiles: Vec<Tile>)
    requires
        1 <= width,
        1 <= height,
        width * height <= usize::MAX,
        mine_layout@.len() == width * height,
    ensures
        tiles@.len() == width * height,
        forall|t: int|
            0 <= t < tiles@.len() ==> (#[trigger] tiles@[t]).mine == mine_layout@[t]
                && !tiles@[t].revealed && !tiles@[t].flagged,
        forall|t: int|
            0 <= t < tiles@.len() ==> (#[trigger] tiles@[t]).neighbours as int == adj_mines(
                tiles@,
                width as int,
                height as int,
                t,
            ),
{
    let n: usize = width * height;
    let mut tiles: Vec<Tile> = Vec::new();
    let mut k: usize = 0;
    while k < n
        invariant
            n == mine_layout@.len(),
            k <= n,
            tiles@.len() == k,
            forall|t: int|
                0 <= t < k ==> #[trigger] tiles@[t] == (Tile {
                    mine: mine_layout@[t],
                    neighbours: 0u8,
                    revealed: false,
                    flagged: false,
                }),
        decreases n - k,
    {
        tiles.push(Tile::fresh(mine_layout[k]));
        k = k + 1;
    }
    let mut k: usize = 0;
    while k < n
        invariant
            1 <= width,
            1 <= height,
            width * height <= usize::MAX,
            n == width * height,
            k <= n,
            tiles@.len() == n,
            mine_layout@.len() == n,
            forall|t: int|
                0 <= t < n ==> (#[trigger] tiles@[t]).mine == mine_layout@[t]
                    && !tiles@[t].revealed && !tiles@[t].flagged,
            forall|t: int|
                0 <= t < k ==> (#[trigger] tiles@[t]).neighbours as int == adj_mines(
                    tiles@,
                    width as int,
                    height as int,
                    t,
                ),
        decreases n - k,
    {
        let ghost before = tiles@;
        let count: u8 = count_adjacent_mines(&tiles, width, height, k);
        let mut t: Tile = tiles[k];
        t.neighbours = count;
        tiles.set(k, t);
        proof {
            assert forall|j: int| 0 <= j < n implies adj_mines(
                tiles@,
                width as int,
                height as int,
                j,
            ) == adj_mines(before, width as int, height as int, j) by {
                lemma_adj_mines_same(before, tiles@, width as int, height as int, j);
            }
        }
        k = k + 1;
    }
    tiles
}

impl Board {
    /// Build the board for a forced mine layout: tile `i` holds a mine
    /// exactly when `mine_layout[i]` is true. The ratio
    /// `numerator / denominator` seeds the distribution kept for later
    /// regeneration.
    pub fn from_mines(
        width: usize,
        height: usize,
        mine_layout: Vec<bool>,
        numerator: u32,
        denominator: u32,
    ) -> (b: Board)
        requires
            1 <= width,
            1 <= height,
            width * height <= usize::MAX,
            mine_layout@.len() == width * height,
            numerator <= denominator,
            1 <= denominator,
    ensures
            b.wf(),
            b.fresh(),
            b.width == width,
            b.height == height,
            forall|t: int|
                0 <= t < b.tiles@.len() ==> (#[trigger] b.tiles@[t]).mine == mine_layout@[t],
    {
        let distr = bernoulli_from_ratio(numerator, denominator);
        let tiles = grid_from_layout(width, height, &mine_layout);
        let mines = count_all_mines(&tiles);
        Board { tiles, width, height, mines, distr }
    }

    /// Generate a board: one independent Bernoulli trial with probability
    /// `numerator / denominator` decides each tile's mine, and every
    /// adjacency count is then computed from the layout.
    pub fn new(width: usize, height: usize, numerator: u32, denominator: u32) -> (b: Board)
        requires
            1 <= width,
            1 <= height,
            width * height <= usize::MAX,
            numerator <= denominator,
            1 <= denominator,
        ensures
            b.wf(),
            b.fresh(),
            b.width == width,
            b.height == height,
    {
        let distr = bernoulli_from_ratio(numerator, denominator);
        let n: usize = width * height;
        let mut mine_layout: Vec<bool> = Vec::new();
        let mut k: usize = 0;
        while k < n
            invariant
                k <= n,
                mine_layout@.len() == k,
            decreases n - k,
        {
            mine_layout.push(bernoulli_sample(&distr));
            k = k + 1;
        }
        let tiles = grid_from_layout(width, height, &mine_layout);
        let mines = count_all_mines(&tiles);
        Board { tiles, width, height, mines, distr }
    }

    /// Regenerate the grid in place with the stored distribution: a fresh
    /// independent mine layout on the same dimensions.
    pub fn reset(&mut self)
        requires
            old(self).wf(),
        ensures
            final(self).wf(),
            final(self).fresh(),
            final(self).width == old(self).width,
            final(self).height == old(self).height,
            final(self).distr == old(self).distr,
    {
        let n: usize = self.width * self.height;
        let mut mine_layout: Vec<bool> = Vec::new();
        let mut k: usize = 0;
        while k < n
            invariant
                k <= n,
                mine_layout@.len() == k,
            decreases n - k,
        {
            mine_layout.push(bernoulli_sample(&self.distr));
            k = k + 1;
        }
        let tiles = grid_from_layout(self.width, self.height, &mine_layout);
        let mines = count_all_mines(&tiles);
        self.tiles = tiles;
        self.mines = mines;
    }

    /// The valid neighbour indices of `tile`, in increasing order: grid-edge
    /// clipping leaves between three (a corner) and eight (an inner cell).
    pub fn neighbours(&self, tile: usize) -> (res: Vec<usize>)
        requires
            self.wf(),
            tile < self.tiles@.len(),
        ensures
            forall|k: int|
                0 <= k < res@.len() ==> is_neighbour(
                    self.width as int,
                    self.height as int,
                    tile as int,
                    #[trigger] res@[k] as int,
                ),
            forall|k1: int, k2: int| 0 <= k1 < k2 < res@.len() ==> res@[k1] < res@[k2],
            forall|j: int|
                #[trigger] is_neighbour(self.width as int, self.height as int, tile as int, j)
                    ==> res@.contains(j as usize),
    {
        let n: usize = self.tiles.len();
        let mut res: Vec<usize> = Vec::new();
        let mut j: usize = 0;
        while j < n
            invariant
                self.wf(),
                tile < n,
                n == self.tiles@.len(),
                j <= n,
                forall|k: int|
                    0 <= k < res@.len() ==> (#[trigger] res@[k]) < j && is_neighbour(
                        self.width as int,
                        self.height as int,
                        tile as int,
                        res@[k] as int,
                    ),
                forall|k1: int, k2: int| 0 <= k1 < k2 < res@.len() ==> res@[k1] < res@[k2],
                forall|jj: int|
                    0 <= jj < j && is_neighbour(
                        self.width as int,
                        self.height as int,
                        tile as int,
                        jj,
                    ) ==> res@.contains(jj as usize),
            decreases n - j,
        {
            let ghost before = res@;
            if is_neighbour_exec(self.width, self.height, tile, j) {
                res.push(j);
                proof {
                    assert(res@[res@.len() - 1] == j);
                    assert forall|jj: int|
                        0 <= jj < j && is_neighbour(
                            self.width as int,
                            self.height as int,
                            tile as int,
                            jj,
                        ) implies res@.contains(jj as usize) by {
                        let k = choose|k: int|
                            0 <= k < before.len() && before[k] == jj as usize;
                        assert(res@[k] == jj as usize);
                    }
                }
            }
            j = j + 1;
        }
        proof {
            assert forall|j2: int|
                #[trigger] is_neighbour(self.width as int, self.height as int, tile as int, j2)
                    implies res@.contains(j2 as usize) by {
                assert(0 <= j2 < n);
            }
        }
        res
    }

    /// Whether every non-mine tile has been revealed.
    pub fn check_win(&self) -> (b: bool)
        ensures
            b == all_safe_revealed(self.tiles@),
    {
        let n: usize = self.tiles.len();
        let mut k: usize = 0;
        while k < n
            invariant
                n == self.tiles@.len(),
                k <= n,
                forall|t: int| 0 <= t < k ==> safe_done(#[trigger] self.tiles@[t]),
            decreases n - k,
        {
            let t = self.tiles[k];
            if !t.mine && !t.revealed {
                return false;
            }
            k = k + 1;
        }
        true
    }

    /// `total_mines - count(flagged)`: what the mine-count display shows.
    /// Over-flagging makes it negative, so the result is signed.
    pub fn remaining_mines(&self) -> (r: i128)
        requires
            self.wf(),
        ensures
            r == self.mines - count_flags(self.tiles@),
    {
        let n: usize = self.tiles.len();
        let mut flags: usize = 0;
        let mut k: usize = 0;
        while k < n
            invariant
                n == self.tiles@.len(),
                k <= n,
                flags <= k,
                flags as int == count_flags_upto(self.tiles@, k as int),
            decreases n - k,
        {
            if self.tiles[k].flagged {
                flags = flags + 1;
            }
            k = k + 1;
        }
        self.mines as i128 - flags as i128
    }

    /// Reveal one tile. An already-revealed or flagged tile is left alone;
    /// an unflagged mine reports `MineHit` without mutating the grid (the
    /// caller ends the game); otherwise the tile comes up revealed.
    pub fn reveal_tile(&mut self, i: usize) -> (res: RevealOutcome)
        requires
            old(self).wf(),
            i < old(self).tiles@.len(),
        ensures
            final(self).wf(),
            final(self).width == old(self).width,
            final(self).height == old(self).height,
            final(self).mines == old(self).mines,
            final(self).distr == old(self).distr,
            old(self).tiles@[i as int].revealed || old(self).tiles@[i as int].flagged ==> {
                &&& final(self).tiles@ == old(self).tiles@
                &&& res == RevealOutcome::Ignored
            },
            !old(self).tiles@[i as int].revealed && !old(self).tiles@[i as int].flagged && old(
                self,
            ).tiles@[i as int].mine ==> {
                &&& final(self).tiles@ == old(self).tiles@
                &&& res == RevealOutcome::MineHit
            },
            !old(self).tiles@[i as int].revealed && !old(self).tiles@[i as int].flagged && !old(
                self,
            ).tiles@[i as int].mine ==> {
                &&& final(self).tiles@ == old(self).tiles@.update(
                    i as int,
                    with_revealed(old(self).tiles@[i as int]),
                )
                &&& res == RevealOutcome::Revealed
            },
    {
        let t: Tile = self.tiles[i];
        if t.revealed || t.flagged {
            return RevealOutcome::Ignored;
        }
        if t.mine {
            return RevealOutcome::MineHit;
        }
        let ghost before = self.tiles@;
        let mut t2: Tile = t;
        t2.revealed = true;
        self.tiles.set(i, t2);
        proof {
            lemma_count_mines_upto_same(before, self.tiles@, before.len() as int);
            assert forall|j: int| 0 <= j < self.tiles@.len() implies adj_mines(
                self.tiles@,
                self.width as int,
                self.height as int,
                j,
            ) == adj_mines(before, self.width as int, self.height as int, j) by {
                lemma_adj_mines_same(before, self.tiles@, self.width as int, self.height as int, j);
            }
        }
        RevealOutcome::Revealed
    }

    /// Toggle the flag of one tile; a revealed tile is left alone.
    pub fn toggle_flag(&mut self, i: usize)
        requires
            old(self).wf(),
            i < old(self).tiles@.len(),
        ensures
            final(self).wf(),
            final(self).width == old(self).width,
            final(self).height == old(self).height,
            final(self).mines == old(self).mines,
            final(self).distr == old(self).distr,
            old(self).tiles@[i as int].revealed ==> final(self).tiles@ == old(self).tiles@,
            !old(self).tiles@[i as int].revealed ==> final(self).tiles@ == old(self).tiles@.update(
                i as int,
                with_flag_toggled(old(self).tiles@[i as int]),
            ),
    {
        let t: Tile = self.tiles[i];
        if t.revealed {
            return ;
        }
        let ghost before = self.tiles@;
        let mut t2: Tile = t;
        t2.flagged = !t2.flagged;
        self.tiles.set(i, t2);
        proof {
            lemma_count_mines_upto_same(before, self.tiles@, before.len() as int);
            assert forall|j: int| 0 <= j < self.tiles@.len() implies adj_mines(
                self.tiles@,
                self.width as int,
                self.height as int,
                j,
            ) == adj_mines(before, self.width as int, self.height as int, j) by {
                lemma_adj_mines_same(before, self.tiles@, self.width as int, self.height as int, j);
            }
        }
    }

    /// The flagged-neighbour count of one tile: what a chord compares
    /// against the adjacency count.
    pub fn flagged_neighbours(&self, i: usize) -> (n: u8)
        requires
            self.wf(),
            i < self.tiles@.len(),
        ensures
            n as int == adj_flags(self.tiles@, self.width as int, self.height as int, i as int),
            n <= 8,
    {
        count_adjacent_flags(&self.tiles, self.width, self.height, i)
    }

    /// Chord one tile: applicable only to a revealed, unflagged, non-mine
    /// tile whose flagged-neighbour count equals its adjacency count. One
    /// pass then reveals every unflagged non-mine neighbour; an unflagged
    /// mine neighbour reports `MineHit` and stays face down. A tile that
    /// fails that check is left alone, and nothing cascades.
    pub fn chord(&mut self, i: usize) -> (res: RevealOutcome)
        requires
            old(self).wf(),
            i < old(self).tiles@.len(),
        ensures
            final(self).wf(),
            final(self).width == old(self).width,
            final(self).height == old(self).height,
            final(self).mines == old(self).mines,
            final(self).distr == old(self).distr,
            !chord_applicable(old(self).tiles@, old(self).width as int, old(self).height as int, i as int) ==> {
                &&& final(self).tiles@ == old(self).tiles@
                &&& res == RevealOutcome::Ignored
            },
            chord_applicable(old(self).tiles@, old(self).width as int, old(self).height as int, i as int) ==> {
                &&& final(self).tiles@.len() == old(self).tiles@.len()
                &&& forall|j: int|
                    0 <= j < old(self).tiles@.len() ==> #[trigger] final(self).tiles@[j]
                        == chorded_tile(
                        old(self).tiles@,
                        old(self).width as int,
                        old(self).height as int,
                        i as int,
                        j,
                    )
                &&& res == if chord_hits_mine(
                    old(self).tiles@,
                    old(self).width as int,
                    old(self).height as int,
                    i as int,
                ) {
                    RevealOutcome::MineHit
                } else {
                    RevealOutcome::Revealed
                }
            },
    {
        let t: Tile = self.tiles[i];
        if !t.revealed || t.flagged || t.mine {
            return RevealOutcome::Ignored;
        }
        let flags: u8 = count_adjacent_flags(&self.tiles, self.width, self.height, i);
        if flags != t.neighbours {
            return RevealOutcome::Ignored;
        }
        let ghost s0 = self.tiles@;
        let ghost w = self.width as int;
        let ghost h = self.height as int;
        let n: usize = self.tiles.len();
        let mut hit: bool = false;
        let mut j: usize = 0;
        while j < n
            invariant
                1 <= self.width,
                1 <= self.height,
                self.width * self.height <= usize::MAX,
                self.width == old(self).width,
                self.height == old(self).height,
                self.mines == old(self).mines,
                self.distr == old(self).distr,
                w == self.width as int,
                h == self.height as int,
                n == s0.len(),
                s0.len() == self.width * self.height,
                i < n,
                j <= n,
                self.tiles@.len() == n,
                forall|t2: int| j <= t2 < n ==> #[trigger] self.tiles@[t2] == s0[t2],
                forall|t2: int|
                    0 <= t2 < j ==> #[trigger] self.tiles@[t2] == chorded_tile(s0, w, h, i as int, t2),
                hit == mine_hit_upto(s0, w, h, i as int, j as int),
            decreases n - j,
        {
            if is_neighbour_exec(self.width, self.height, i, j) {
                let t2: Tile = self.tiles[j];
                if !t2.flagged {
                    if t2.mine {
                        hit = true;
                    } else {
                        let mut t3: Tile = t2;
                        t3.revealed = true;
                        self.tiles.set(j, t3);
                    }
                }
            }
            j = j + 1;
        }
        proof {
            lemma_mine_hit_upto_iff(s0, w, h, i as int, n as int);
            lemma_count_mines_upto_same(s0, self.tiles@, s0.len() as int);
            assert forall|j2: int| 0 <= j2 < self.tiles@.len() implies adj_mines(
                self.tiles@,
                w,
                h,
                j2,
            ) == adj_mines(s0, w, h, j2) by {
                lemma_adj_mines_same(s0, self.tiles@, w, h, j2);
            }
        }
        if hit {
            RevealOutcome::MineHit
        } else {
            RevealOutcome::Revealed
        }
    }
}

/// A chord applies to `i` when: the tile is revealed, unflagged, not a mine, and its
/// flagged-neighbour count equals its adjacency count.
pub open spec fn chord_applicable(s: Seq<Tile>, w: int, h: int, i: int) -> bool {
    &&& s[i].revealed
    &&& !s[i].flagged
    &&& !s[i].mine
    &&& adj_flags(s, w, h, i) == s[i].neighbours as int
}

/// Counting mines reads only the mine field of the grid.
proof fn lemma_count_mines_upto_same(s1: Seq<Tile>, s2: Seq<Tile>, n: int)
    requires
        s1.len() == s2.len(),
        forall|t: int| 0 <= t < s1.len() ==> (#[trigger] s1[t]).mine == s2[t].mine,
        n <= s1.len(),
    ensures
        count_mines_upto(s1, n) == count_mines_upto(s2, n),
    decreases n,
{
    if n > 0 {
        lemma_count_mines_upto_same(s1, s2, n - 1);
    }
}

/// The loop-sized mine-hit test agrees with [`chord_hits_mine`] once the
/// whole grid has been walked.
proof fn lemma_mine_hit_upto_iff(s: Seq<Tile>, w: int, h: int, i: int, n: int)
    requires
        s.len() == w * h,
        n == s.len(),
    ensures
        mine_hit_upto(s, w, h, i, n) == chord_hits_mine(s, w, h, i),
{
    if mine_hit_upto(s, w, h, i, n) {
        lemma_mine_hit_upto_exists(s, w, h, i, n);
    }
    if chord_hits_mine(s, w, h, i) {
        let j = choose|j: int| #[trigger] is_neighbour(w, h, i, j) && !s[j].flagged && s[j].mine;
        assert(0 <= j < n);
        lemma_mine_hit_upto_mono(s, w, h, i, j + 1, n);
    }
}

/// If the loop-sized test fires, some unflagged mine neighbour exists.
proof fn lemma_mine_hit_upto_exists(s: Seq<Tile>, w: int, h: int, i: int, n: int)
    requires
        mine_hit_upto(s, w, h, i, n),
    ensures
        chord_hits_mine(s, w, h, i),
    decreases n,
{
    if n > 0 {
        if is_neighbour(w, h, i, n - 1) && !s[n - 1].flagged && s[n - 1].mine {
            assert(is_neighbour(w, h, i, n - 1) && !s[n - 1].flagged && s[n - 1].mine);
        } else {
            lemma_mine_hit_upto_exists(s, w, h, i, n - 1);
        }
    }
}

/// The loop-sized mine-hit test is monotone in its bound.
proof fn lemma_mine_hit_upto_mono(s: Seq<Tile>, w: int, h: int, i: int, n1: int, n2: int)
    requires
        0 <= n1 <= n2,
        mine_hit_upto(s, w, h, i, n1),
    ensures
        mine_hit_upto(s, w, h, i, n2),
    decreases n2 - n1,
{
    if n1 < n2 {
        lemma_mine_hit_upto_mono(s, w, h, i, n1, n2 - 1);
    }
}

} // verus!
