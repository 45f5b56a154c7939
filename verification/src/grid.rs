use vstd::prelude::*;
use vstd::arithmetic::div_mod::lemma_fundamental_div_mod;
use vstd::arithmetic::div_mod::lemma_fundamental_div_mod_converse;
use vstd::arithmetic::div_mod::lemma_mod_division_less_than_divisor;
use crate::tile::Tile;

verus! {

/// Row of cell `i` in a row-major grid of width `w`.
pub open spec fn row_of(i: int, w: int) -> int {
    i / w
}

/// Column of cell `i` in a row-major grid of width `w`.
pub open spec fn col_of(i: int, w: int) -> int {
    i % w
}

/// Cells `i` and `j` are distinct cells of the `w` by `h` grid whose rows
/// and whose columns each differ by at most one.
pub open spec fn is_neighbour(w: int, h: int, i: int, j: int) -> bool {
    &&& 0 <= i < w * h
    &&& 0 <= j < w * h
    &&& i != j
    &&& -1 <= row_of(j, w) - row_of(i, w) <= 1
    &&& -1 <= col_of(j, w) - col_of(i, w) <= 1
}

/// Whether one step `(dr, dc)` away from cell `i` stays on the grid.
pub open spec fn step_on_grid(w: int, h: int, i: int, dr: int, dc: int) -> bool {
    &&& 0 <= row_of(i, w) + dr < h
    &&& 0 <= col_of(i, w) + dc < w
}

/// The cell one step `(dr, dc)` away from cell `i`.
pub open spec fn step_index(w: int, i: int, dr: int, dc: int) -> int {
    (row_of(i, w) + dr) * w + (col_of(i, w) + dc)
}

/// 1 when the step `(dr, dc)` from cell `i` stays on the grid and lands on
/// a mine tile.
pub open spec fn mine_ind(s: Seq<Tile>, w: int, h: int, i: int, dr: int, dc: int) -> int {
    if step_on_grid(w, h, i, dr, dc) && s[step_index(w, i, dr, dc)].mine {
        1
    } else {
        0
    }
}

/// 1 when the step `(dr, dc)` from cell `i` stays on the grid and lands on
/// a flagged tile.
pub open spec fn flag_ind(s: Seq<Tile>, w: int, h: int, i: int, dr: int, dc: int) -> int {
    if step_on_grid(w, h, i, dr, dc) && s[step_index(w, i, dr, dc)].flagged {
        1
    } else {
        0
    }
}

/// The number of mine tiles among the up-to-eight neighbours of cell `i`:
/// one indicator per unit step, clipped at the grid edges.
pub open spec fn adj_mines(s: Seq<Tile>, w: int, h: int, i: int) -> int {
    mine_ind(s, w, h, i, -1, -1) + mine_ind(s, w, h, i, -1, 0) + mine_ind(s, w, h, i, -1, 1)
        + mine_ind(s, w, h, i, 0, -1) + mine_ind(s, w, h, i, 0, 1)
        + mine_ind(s, w, h, i, 1, -1) + mine_ind(s, w, h, i, 1, 0) + mine_ind(s, w, h, i, 1, 1)
}

/// The number of flagged tiles among the up-to-eight neighbours of cell `i`.
pub open spec fn adj_flags(s: Seq<Tile>, w: int, h: int, i: int) -> int {
    flag_ind(s, w, h, i, -1, -1) + flag_ind(s, w, h, i, -1, 0) + flag_ind(s, w, h, i, -1, 1)
        + flag_ind(s, w, h, i, 0, -1) + flag_ind(s, w, h, i, 0, 1)
        + flag_ind(s, w, h, i, 1, -1) + flag_ind(s, w, h, i, 1, 0) + flag_ind(s, w, h, i, 1, 1)
}

/// Bounds of the row/column decomposition of an in-range cell index.
pub proof fn lemma_row_col(w: int, h: int, i: int)
    requires
        1 <= w,
        1 <= h,
        0 <= i < w * h,
    ensures
        0 <= row_of(i, w) < h,
        0 <= col_of(i, w) < w,
        i == row_of(i, w) * w + col_of(i, w),
{
    lemma_fundamental_div_mod(i, w);
    lemma_mod_division_less_than_divisor(i, w);
    let q = i / w;
    let r = i % w;
    assert(0 <= q && q < h && i == q * w + r) by (nonlinear_arith)
        requires
            i == w * q + r,
            0 <= r < w,
            0 <= i,
            i < w * h,
            1 <= w,
            1 <= h,
    ;
}

/// A valid row/column pair flattens to an in-range index.
pub proof fn lemma_index_bound(w: int, h: int, r: int, c: int)
    requires
        1 <= w,
        1 <= h,
        0 <= r < h,
        0 <= c < w,
    ensures
        0 <= r * w + c < w * h,
{
    assert(0 <= r * w + c < w * h) by (nonlinear_arith)
        requires
            1 <= w,
            1 <= h,
            0 <= r < h,
            0 <= c < w,
    ;
}

/// Flattening and splitting are inverse: the cell at row `r`, column `c`
/// has row `r` and column `c`.
pub proof fn lemma_flatten_inverse(w: int, r: int, c: int)
    requires
        1 <= w,
        0 <= r,
        0 <= c < w,
    ensures
        row_of(r * w + c, w) == r,
        col_of(r * w + c, w) == c,
{
    lemma_fundamental_div_mod_converse(r * w + c, w, r, c);
}

/// Any neighbour of `i` is reached from `i` by the unit step
/// between their rows and columns.
pub proof fn lemma_neighbour_step(w: int, h: int, i: int, j: int)
    requires
        1 <= w,
        1 <= h,
        0 <= i < w * h,
        is_neighbour(w, h, i, j),
    ensures
        step_on_grid(w, h, i, row_of(j, w) - row_of(i, w), col_of(j, w) - col_of(i, w)),
        j == step_index(w, i, row_of(j, w) - row_of(i, w), col_of(j, w) - col_of(i, w)),
        !(row_of(j, w) == row_of(i, w) && col_of(j, w) == col_of(i, w)),
{
    lemma_row_col(w, h, i);
    lemma_row_col(w, h, j);
}

/// Flattened index of the cell at row `r`, column `c`.
pub fn cell_index(width: usize, height: usize, r: usize, c: usize) -> (idx: usize)
    requires
        1 <= width,
        1 <= height,
        r < height,
        c < width,
        width * height <= usize::MAX,
    ensures
        idx as int == r as int * width as int + c as int,
        idx < width * height,
{
    proof {
        lemma_index_bound(width as int, height as int, r as int, c as int);
    }
    r * width + c
}

/// Decide whether `j` is one of the up-to-eight neighbours of `i`.
pub fn is_neighbour_exec(width: usize, height: usize, i: usize, j: usize) -> (b: bool)
    requires
        1 <= width,
        1 <= height,
        i < width * height,
        width * height <= usize::MAX,
    ensures
        b == is_neighbour(width as int, height as int, i as int, j as int),
{
    if j >= width * height || i == j {
        return false;
    }
    proof {
        lemma_row_col(width as int, height as int, i as int);
        lemma_row_col(width as int, height as int, j as int);
    }
    let ri: usize = i / width;
    let ci: usize = i % width;
    let rj: usize = j / width;
    let cj: usize = j % width;
    ri + 1 >= rj && rj + 1 >= ri && ci + 1 >= cj && cj + 1 >= ci
}

/// The number of mine tiles among the neighbours of cell `i`, read off the
/// grid with the eight clipped unit steps.
pub fn count_adjacent_mines(tiles: &Vec<Tile>, width: usize, height: usize, i: usize) -> (n: u8)
    requires
        1 <= width,
        1 <= height,
        tiles@.len() == width * height,
        width * height <= usize::MAX,
        i < width * height,
    ensures
        n as int == adj_mines(tiles@, width as int, height as int, i as int),
        n <= 8,
{
    let r: usize = i / width;
    let c: usize = i % width;
    proof {
        lemma_row_col(width as int, height as int, i as int);
    }
    let mut n: u8 = 0;
    if r >= 1 && c >= 1 && tiles[cell_index(width, height, r - 1, c - 1)].mine {
        n = n + 1;
    }
    if r >= 1 && tiles[cell_index(width, height, r - 1, c)].mine {
        n = n + 1;
    }
    if r >= 1 && c + 1 < width && tiles[cell_index(width, height, r - 1, c + 1)].mine {
        n = n + 1;
    }
    if c >= 1 && tiles[cell_index(width, height, r, c - 1)].mine {
        n = n + 1;
    }
    if c + 1 < width && tiles[cell_index(width, height, r, c + 1)].mine {
        n = n + 1;
    }
    if r + 1 < height && c >= 1 && tiles[cell_index(width, height, r + 1, c - 1)].mine {
        n = n + 1;
    }
    if r + 1 < height && tiles[cell_index(width, height, r + 1, c)].mine {
        n = n + 1;
    }
    if r + 1 < height && c + 1 < width && tiles[cell_index(width, height, r + 1, c + 1)].mine {
        n = n + 1;
    }
    n
}

/// The number of flagged tiles among the neighbours of cell `i`: what the
/// chord action checks against the adjacency count.
pub fn count_adjacent_flags(tiles: &Vec<Tile>, width: usize, height: usize, i: usize) -> (n: u8)
    requires
        1 <= width,
        1 <= height,
        tiles@.len() == width * height,
        width * height <= usize::MAX,
        i < width * height,
    ensures
        n as int == adj_flags(tiles@, width as int, height as int, i as int),
        n <= 8,
{
    let r: usize = i / width;
    let c: usize = i % width;
    proof {
        lemma_row_col(width as int, height as int, i as int);
    }
    let mut n: u8 = 0;
    if r >= 1 && c >= 1 && tiles[cell_index(width, height, r - 1, c - 1)].flagged {
        n = n + 1;
    }
    if r >= 1 && tiles[cell_index(width, height, r - 1, c)].flagged {
        n = n + 1;
    }
    if r >= 1 && c + 1 < width && tiles[cell_index(width, height, r - 1, c + 1)].flagged {
        n = n + 1;
    }
    if c >= 1 && tiles[cell_index(width, height, r, c - 1)].flagged {
        n = n + 1;
    }
    if c + 1 < width && tiles[cell_index(width, height, r, c + 1)].flagged {
        n = n + 1;
    }
    if r + 1 < height && c >= 1 && tiles[cell_index(width, height, r + 1, c - 1)].flagged {
        n = n + 1;
    }
    if r + 1 < height && tiles[cell_index(width, height, r + 1, c)].flagged {
        n = n + 1;
    }
    if r + 1 < height && c + 1 < width && tiles[cell_index(width, height, r + 1, c + 1)].flagged {
        n = n + 1;
    }
    n
}

/// The number of cells `j < n` that are mined neighbours of `i`.
pub open spec fn count_mined_neighbours_upto(s: Seq<Tile>, w: int, h: int, i: int, n: int) -> int
    decreases n,
{
    if n <= 0 {
        0
    } else {
        count_mined_neighbours_upto(s, w, h, i, n - 1) + if is_neighbour(w, h, i, n - 1) && s[n
            - 1].mine {
            1int
        } else {
            0int
        }
    }
}

/// The number of mined neighbours of `i`, counted over the whole grid.
pub open spec fn count_mined_neighbours(s: Seq<Tile>, w: int, h: int, i: int) -> int {
    count_mined_neighbours_upto(s, w, h, i, s.len() as int)
}

/// 1 when the step `(dr, dc)` from `i` stays on the grid, lands on a mine
/// tile, and lands below cell `n`: the partial-sum form of [`mine_ind`].
pub open spec fn mine_ind_below(s: Seq<Tile>, w: int, h: int, i: int, dr: int, dc: int, n: int) -> int {
    if step_on_grid(w, h, i, dr, dc) && step_index(w, i, dr, dc) < n && s[step_index(
        w,
        i,
        dr,
        dc,
    )].mine {
        1
    } else {
        0
    }
}

/// The eight-step mine sum restricted to landing cells below `n`.
pub open spec fn adj_mines_below(s: Seq<Tile>, w: int, h: int, i: int, n: int) -> int {
    mine_ind_below(s, w, h, i, -1, -1, n) + mine_ind_below(s, w, h, i, -1, 0, n) + mine_ind_below(
        s,
        w,
        h,
        i,
        -1,
        1,
        n,
    ) + mine_ind_below(s, w, h, i, 0, -1, n) + mine_ind_below(s, w, h, i, 0, 1, n)
        + mine_ind_below(s, w, h, i, 1, -1, n) + mine_ind_below(s, w, h, i, 1, 0, n)
        + mine_ind_below(s, w, h, i, 1, 1, n)
}

/// Establish the row/column decomposition of every on-grid landing cell of
/// the eight unit steps from `i`.
proof fn lemma_step_facts(w: int, h: int, i: int, dr: int, dc: int)
    requires
        1 <= w,
        1 <= h,
        0 <= i < w * h,
        -1 <= dr <= 1,
        -1 <= dc <= 1,
    ensures
        step_on_grid(w, h, i, dr, dc) ==> {
            &&& 0 <= step_index(w, i, dr, dc) < w * h
            &&& row_of(step_index(w, i, dr, dc), w) == row_of(i, w) + dr
            &&& col_of(step_index(w, i, dr, dc), w) == col_of(i, w) + dc
        },
{
    lemma_row_col(w, h, i);
    if step_on_grid(w, h, i, dr, dc) {
        lemma_index_bound(w, h, row_of(i, w) + dr, col_of(i, w) + dc);
        lemma_flatten_inverse(w, row_of(i, w) + dr, col_of(i, w) + dc);
    }
}

/// The partial eight-step sum counts exactly the mined neighbours below
/// `n`: each neighbour is the landing cell of exactly one step.
proof fn lemma_adj_mines_below(s: Seq<Tile>, w: int, h: int, i: int, n: int)
    requires
        1 <= w,
        1 <= h,
        0 <= i < w * h,
        s.len() == w * h,
        0 <= n <= s.len(),
    ensures
        count_mined_neighbours_upto(s, w, h, i, n) == adj_mines_below(s, w, h, i, n),
    decreases n,
{
    lemma_row_col(w, h, i);
    lemma_step_facts(w, h, i, -1, -1);
    lemma_step_facts(w, h, i, -1, 0);
    lemma_step_facts(w, h, i, -1, 1);
    lemma_step_facts(w, h, i, 0, -1);
    lemma_step_facts(w, h, i, 0, 1);
    lemma_step_facts(w, h, i, 1, -1);
    lemma_step_facts(w, h, i, 1, 0);
    lemma_step_facts(w, h, i, 1, 1);
    if n > 0 {
        lemma_adj_mines_below(s, w, h, i, n - 1);
        if is_neighbour(w, h, i, n - 1) {
            lemma_neighbour_step(w, h, i, n - 1);
        }
    }
}

/// Each tile's eight-step adjacency sum equals the number of its
/// neighbours that hold mines, the count recomputed cell by cell over the
/// whole grid.
pub proof fn lemma_adj_mines_counts_neighbours(s: Seq<Tile>, w: int, h: int, i: int)
    requires
        1 <= w,
        1 <= h,
        0 <= i < w * h,
        s.len() == w * h,
    ensures
        adj_mines(s, w, h, i) == count_mined_neighbours(s, w, h, i),
{
    lemma_adj_mines_below(s, w, h, i, s.len() as int);
    lemma_step_facts(w, h, i, -1, -1);
    lemma_step_facts(w, h, i, -1, 0);
    lemma_step_facts(w, h, i, -1, 1);
    lemma_step_facts(w, h, i, 0, -1);
    lemma_step_facts(w, h, i, 0, 1);
    lemma_step_facts(w, h, i, 1, -1);
    lemma_step_facts(w, h, i, 1, 0);
    lemma_step_facts(w, h, i, 1, 1);
}

/// A unit-step indicator reads only the mine field of the grid.
proof fn lemma_mine_ind_same(s1: Seq<Tile>, s2: Seq<Tile>, w: int, h: int, i: int, dr: int, dc: int)
    requires
        1 <= w,
        1 <= h,
        0 <= i < w * h,
        s1.len() == w * h,
        s2.len() == s1.len(),
        forall|t: int| 0 <= t < s1.len() ==> (#[trigger] s1[t]).mine == s2[t].mine,
        -1 <= dr <= 1,
        -1 <= dc <= 1,
    ensures
        mine_ind(s1, w, h, i, dr, dc) == mine_ind(s2, w, h, i, dr, dc),
{
    if step_on_grid(w, h, i, dr, dc) {
        lemma_row_col(w, h, i);
        lemma_index_bound(w, h, row_of(i, w) + dr, col_of(i, w) + dc);
    }
}

/// Adjacency counts depend only on the mine layout: revealing or flagging
/// tiles never changes them.
pub proof fn lemma_adj_mines_same(s1: Seq<Tile>, s2: Seq<Tile>, w: int, h: int, i: int)
    requires
        1 <= w,
        1 <= h,
        0 <= i < w * h,
        s1.len() == w * h,
        s2.len() == s1.len(),
        forall|t: int| 0 <= t < s1.len() ==> (#[trigger] s1[t]).mine == s2[t].mine,
    ensures
        adj_mines(s1, w, h, i) == adj_mines(s2, w, h, i),
{
    lemma_mine_ind_same(s1, s2, w, h, i, -1, -1);
    lemma_mine_ind_same(s1, s2, w, h, i, -1, 0);
    lemma_mine_ind_same(s1, s2, w, h, i, -1, 1);
    lemma_mine_ind_same(s1, s2, w, h, i, 0, -1);
    lemma_mine_ind_same(s1, s2, w, h, i, 0, 1);
    lemma_mine_ind_same(s1, s2, w, h, i, 1, -1);
    lemma_mine_ind_same(s1, s2, w, h, i, 1, 0);
    lemma_mine_ind_same(s1, s2, w, h, i, 1, 1);
}

} // verus!
