//! The board: a fixed-size occupancy grid with per-cell piece identity,
//! full-row detection, and row clearing with downward collapse.

use vstd::prelude::*;

use crate::piece::PieceKind;

verus! {

/// Mathematical model of the board: a sequence of rows, top to bottom,
/// each row a sequence of optional occupant markers, left to right.
pub type GridModel = Seq<Seq<Option<PieceKind>>>;

/// A single row with every cell empty.
pub open spec fn empty_row(w: int) -> Seq<Option<PieceKind>> {
    Seq::new(w as nat, |c: int| None::<PieceKind>)
}

/// A board of `h` rows, every cell empty.
pub open spec fn empty_grid(w: int, h: int) -> GridModel {
    Seq::new(h as nat, |r: int| empty_row(w))
}

/// The model is a well-formed w-by-h board: h rows of w cells each.
pub open spec fn grid_wf(g: GridModel, w: int, h: int) -> bool {
    &&& g.len() == h
    &&& forall|r: int| 0 <= r < g.len() ==> (#[trigger] g[r]).len() == w
    &&& 1 <= w
    &&& 1 <= h
}

/// The cell (c, r) lies on the board and is empty.
pub open spec fn cell_open(g: GridModel, c: int, r: int) -> bool {
    0 <= r < g.len() && 0 <= c < g[r].len() && g[r][c] is None
}

/// The cell (c, r) lies on the board and holds a locked piece's marker.
pub open spec fn occupied_at(g: GridModel, c: int, r: int) -> bool {
    0 <= r < g.len() && 0 <= c < g[r].len() && g[r][c] is Some
}

/// The board with cell (c, r) overwritten by `v`.
pub open spec fn set_cell_model(g: GridModel, c: int, r: int, v: Option<PieceKind>) -> GridModel {
    g.update(r, g[r].update(c, v))
}

/// Every cell of the row is occupied.
pub open spec fn row_full(row: Seq<Option<PieceKind>>) -> bool {
    forall|c: int| 0 <= c < row.len() ==> (#[trigger] row[c]) is Some
}

/// Indices of the full rows among the first `n` rows, in top-to-bottom order.
pub open spec fn full_rows_upto(g: GridModel, n: int) -> Seq<usize>
    decreases n,
{
    if n <= 0 {
        Seq::empty()
    } else {
        full_rows_upto(g, n - 1)
            + if row_full(g[n - 1]) { seq![(n - 1) as usize] } else { Seq::empty() }
    }
}

/// Row `r` is cleared by a request `rows`: it is listed and actually full.
/// Listed rows that are not full are left alone.
pub open spec fn row_cleared(g: GridModel, rows: Seq<usize>, r: int) -> bool {
    rows.contains(r as usize) && row_full(g[r])
}

/// The rows among the first `n` that survive a clear request, in order.
pub open spec fn kept_upto(g: GridModel, rows: Seq<usize>, n: int) -> GridModel
    decreases n,
{
    if n <= 0 {
        Seq::empty()
    } else {
        kept_upto(g, rows, n - 1)
            + if row_cleared(g, rows, n - 1) { Seq::empty() } else { seq![g[n - 1]] }
    }
}

/// How many of the first `n` rows a clear request removes.
pub open spec fn num_cleared_upto(g: GridModel, rows: Seq<usize>, n: int) -> nat
    decreases n,
{
    if n <= 0 {
        0
    } else {
        num_cleared_upto(g, rows, n - 1) + if row_cleared(g, rows, n - 1) { 1nat } else { 0nat }
    }
}

/// The board after clearing the requested full rows: as many fresh empty
/// rows on top as rows were removed, then the surviving rows in order.
/// Rows above a removed row thus shift down by one per removal below them.
pub open spec fn collapse(g: GridModel, rows: Seq<usize>, w: int) -> GridModel {
    Seq::new(num_cleared_upto(g, rows, g.len() as int), |i: int| empty_row(w))
        + kept_upto(g, rows, g.len() as int)
}

/// Number of occupied cells in a row.
pub open spec fn row_count(row: Seq<Option<PieceKind>>) -> nat
    decreases row.len(),
{
    if row.len() == 0 {
        0
    } else {
        row_count(row.drop_last()) + if row.last() is Some { 1nat } else { 0nat }
    }
}

/// Number of occupied cells on the whole board.
pub open spec fn grid_count(g: GridModel) -> nat
    decreases g.len(),
{
    if g.len() == 0 {
        0
    } else {
        grid_count(g.drop_last()) + row_count(g.last())
    }
}

/// Each surviving row is one of the first `n` rows, uncleared, and the
/// counts of kept and cleared rows add up.
proof fn lemma_kept_upto_props(g: GridModel, rows: Seq<usize>, n: int)
    requires
        0 <= n <= g.len(),
    ensures
        kept_upto(g, rows, n).len() + num_cleared_upto(g, rows, n) == n,
        forall|j: int| 0 <= j < kept_upto(g, rows, n).len()
            ==> exists|i: int|
                0 <= i < n && #[trigger] kept_upto(g, rows, n)[j] == g[i] && !row_cleared(g, rows, i),
    decreases n,
{
    if n > 0 {
        lemma_kept_upto_props(g, rows, n - 1);
        let prev = kept_upto(g, rows, n - 1);
        let cur = kept_upto(g, rows, n);
        assert forall|j: int| 0 <= j < cur.len()
            implies exists|i: int|
                0 <= i < n && #[trigger] cur[j] == g[i] && !row_cleared(g, rows, i) by {
            if j < prev.len() {
                assert(cur[j] == prev[j]);
                let i = choose|i: int|
                    0 <= i < n - 1 && #[trigger] prev[j] == g[i] && !row_cleared(g, rows, i);
                assert(0 <= i < n && cur[j] == g[i] && !row_cleared(g, rows, i));
            } else {
                assert(!row_cleared(g, rows, n - 1));
                assert(cur[j] == g[n - 1]);
            }
        }
    }
}

/// Clearing a request that names no full row keeps the first `n` rows as
/// they are.
proof fn lemma_kept_upto_noop(g: GridModel, rows: Seq<usize>, n: int)
    requires
        0 <= n <= g.len(),
        forall|r: int| 0 <= r < g.len() ==> !row_cleared(g, rows, r),
    ensures
        kept_upto(g, rows, n) == g.subrange(0, n),
        num_cleared_upto(g, rows, n) == 0,
    decreases n,
{
    if n <= 0 {
        assert(kept_upto(g, rows, n) =~= g.subrange(0, n));
    } else {
        lemma_kept_upto_noop(g, rows, n - 1);
        assert(kept_upto(g, rows, n) =~= g.subrange(0, n));
    }
}

/// Clearing a set of rows none of which is full is a no-op.
pub proof fn lemma_collapse_noop(g: GridModel, rows: Seq<usize>, w: int)
    requires
        forall|r: int| 0 <= r < g.len() ==> !row_cleared(g, rows, r),
    ensures
        collapse(g, rows, w) == g,
{
    lemma_kept_upto_noop(g, rows, g.len() as int);
    assert(collapse(g, rows, w) =~= g);
}

/// Collapsing preserves the board's dimensions.
pub proof fn lemma_collapse_wf(g: GridModel, rows: Seq<usize>, w: int, h: int)
    requires
        grid_wf(g, w, h),
    ensures
        grid_wf(collapse(g, rows, w), w, h),
{
    lemma_kept_upto_props(g, rows, g.len() as int);
    let res = collapse(g, rows, w);
    let fresh = num_cleared_upto(g, rows, g.len() as int);
    assert(res.len() == h);
    assert forall|r: int| 0 <= r < res.len() implies (#[trigger] res[r]).len() == w by {
        if r < fresh {
            assert(res[r] == empty_row(w));
        } else {
            let kept = kept_upto(g, rows, g.len() as int);
            let j = r - fresh;
            assert(res[r] == kept[j]);
            let i = choose|i: int|
                0 <= i < g.len() && #[trigger] kept[j] == g[i] && !row_cleared(g, rows, i);
        }
    }
}

/// After clearing every currently full row, no full row remains.
pub proof fn lemma_collapse_clears_all(g: GridModel, rows: Seq<usize>, w: int, h: int)
    requires
        grid_wf(g, w, h),
        forall|r: int| 0 <= r < g.len() && row_full(#[trigger] g[r]) ==> rows.contains(r as usize),
    ensures
        forall|r: int|
            0 <= r < collapse(g, rows, w).len() ==> !row_full(#[trigger] collapse(g, rows, w)[r]),
{
    lemma_kept_upto_props(g, rows, g.len() as int);
    let res = collapse(g, rows, w);
    let fresh = num_cleared_upto(g, rows, g.len() as int);
    let kept = kept_upto(g, rows, g.len() as int);
    assert forall|r: int| 0 <= r < res.len() implies !row_full(#[trigger] res[r]) by {
        if r < fresh {
            assert(res[r] == empty_row(w));
            assert(res[r][0] is None);
        } else {
            let j = r - fresh;
            assert(res[r] == kept[j]);
            let i = choose|i: int|
                0 <= i < g.len() && #[trigger] kept[j] == g[i] && !row_cleared(g, rows, i);
            if row_full(g[i]) {
                assert(rows.contains(i as usize));
                assert(row_cleared(g, rows, i));
            }
        }
    }
}

/// A full row has an index in `full_rows_upto`, and only full rows do.
pub proof fn lemma_full_rows_upto_membership(g: GridModel, n: int, r: int)
    requires
        0 <= r < n <= g.len(),
        g.len() <= usize::MAX,
    ensures
        full_rows_upto(g, n).contains(r as usize) <==> row_full(g[r]),
    decreases n,
{
    let cur = full_rows_upto(g, n);
    let prev = full_rows_upto(g, n - 1);
    if r == n - 1 {
        lemma_full_rows_upto_range(g, n - 1);
        if row_full(g[r]) {
            assert(cur[prev.len() as int] == (r as usize));
            assert(cur.contains(r as usize));
        } else {
            if cur.contains(r as usize) {
                let i = choose|i: int| 0 <= i < cur.len() && cur[i] == (r as usize);
                assert(prev[i] == (r as usize));
                assert(prev.contains(r as usize));
            }
        }
    } else {
        lemma_full_rows_upto_membership(g, n - 1, r);
        if row_full(g[r]) {
            let i = choose|i: int| 0 <= i < prev.len() && prev[i] == (r as usize);
            assert(cur[i] == (r as usize));
            assert(cur.contains(r as usize));
        } else {
            if cur.contains(r as usize) {
                let i = choose|i: int| 0 <= i < cur.len() && cur[i] == (r as usize);
                if i < prev.len() {
                    assert(prev.contains(r as usize));
                } else {
                    assert(cur[i] == ((n - 1) as usize));
                }
            }
        }
    }
}

/// Every listed index is below `n`.
proof fn lemma_full_rows_upto_range(g: GridModel, n: int)
    requires
        0 <= n,
    ensures
        forall|i: int| 0 <= i < full_rows_upto(g, n).len()
            ==> (#[trigger] full_rows_upto(g, n)[i]) < n,
    decreases n,
{
    if n > 0 {
        lemma_full_rows_upto_range(g, n - 1);
        let cur = full_rows_upto(g, n);
        let prev = full_rows_upto(g, n - 1);
        assert forall|i: int| 0 <= i < cur.len() implies (#[trigger] cur[i]) < n by {
            if i < prev.len() {
                assert(cur[i] == prev[i]);
            }
        }
    }
}

/// The board after writing `v` into each of the first `n` cells of `cells`.
pub open spec fn place_cells(
    g: GridModel,
    cells: Seq<(int, int)>,
    k: PieceKind,
    n: int,
) -> GridModel
    decreases n,
{
    if n <= 0 {
        g
    } else {
        let prev = place_cells(g, cells, k, n - 1);
        set_cell_model(prev, cells[n - 1].0, cells[n - 1].1, Some(k))
    }
}

/// Writing an occupant into an empty cell raises the row's count by one.
proof fn lemma_row_count_update(row: Seq<Option<PieceKind>>, c: int, k: PieceKind)
    requires
        0 <= c < row.len(),
        row[c] is None,
    ensures
        row_count(row.update(c, Some(k))) == row_count(row) + 1,
    decreases row.len(),
{
    let upd = row.update(c, Some(k));
    if c == row.len() - 1 {
        assert(upd.drop_last() =~= row.drop_last());
    } else {
        assert(upd.drop_last() =~= row.drop_last().update(c, Some(k)));
        lemma_row_count_update(row.drop_last(), c, k);
    }
}

/// Replacing one row changes the board's count by the rows' difference.
proof fn lemma_grid_count_update(g: GridModel, r: int, row: Seq<Option<PieceKind>>)
    requires
        0 <= r < g.len(),
    ensures
        grid_count(g.update(r, row)) + row_count(g[r]) == grid_count(g) + row_count(row),
    decreases g.len(),
{
    let upd = g.update(r, row);
    if r == g.len() - 1 {
        assert(upd.drop_last() =~= g.drop_last());
    } else {
        assert(upd.drop_last() =~= g.drop_last().update(r, row));
        lemma_grid_count_update(g.drop_last(), r, row);
    }
}

/// Writing an occupant into an open cell raises the board's count by one,
/// and touches no other cell.
proof fn lemma_set_cell_count(g: GridModel, c: int, r: int, k: PieceKind)
    requires
        cell_open(g, c, r),
    ensures
        grid_count(set_cell_model(g, c, r, Some(k))) == grid_count(g) + 1,
        set_cell_model(g, c, r, Some(k)).len() == g.len(),
        forall|y: int|
            0 <= y < g.len() ==> (#[trigger] set_cell_model(g, c, r, Some(k))[y]).len()
                == g[y].len(),
        forall|x: int, y: int|
            !(x == c && y == r) && 0 <= y < g.len() && 0 <= x < g[y].len()
                ==> #[trigger] set_cell_model(g, c, r, Some(k))[y][x] == g[y][x],
{
    lemma_row_count_update(g[r], c, k);
    lemma_grid_count_update(g, r, g[r].update(c, Some(k)));
}

/// Writing `n` pairwise-distinct open cells raises the count by exactly
/// `n` and leaves every other cell unchanged.
pub proof fn lemma_place_cells_count(g: GridModel, cells: Seq<(int, int)>, k: PieceKind, n: int)
    requires
        0 <= n <= cells.len(),
        forall|i: int| 0 <= i < n ==> cell_open(g, (#[trigger] cells[i]).0, cells[i].1),
        forall|i: int, j: int|
            0 <= i < n && 0 <= j < n && i != j ==> #[trigger] cells[i] != #[trigger] cells[j],
    ensures
        grid_count(place_cells(g, cells, k, n)) == grid_count(g) + n,
        place_cells(g, cells, k, n).len() == g.len(),
        forall|y: int|
            0 <= y < g.len() ==> (#[trigger] place_cells(g, cells, k, n)[y]).len() == g[y].len(),
        forall|x: int, y: int|
            (forall|i: int| 0 <= i < n ==> #[trigger] cells[i] != (x, y))
                && 0 <= y < g.len() && 0 <= x < g[y].len()
                ==> #[trigger] place_cells(g, cells, k, n)[y][x] == g[y][x],
    decreases n,
{
    if n > 0 {
        lemma_place_cells_count(g, cells, k, n - 1);
        let prev = place_cells(g, cells, k, n - 1);
        let cur = place_cells(g, cells, k, n);
        let (c, r) = cells[n - 1];
        assert(forall|i: int| 0 <= i < n - 1 ==> #[trigger] cells[i] != (c, r));
        assert(cell_open(prev, c, r));
        lemma_set_cell_count(prev, c, r, k);
        assert forall|x: int, y: int|
            (forall|i: int| 0 <= i < n ==> #[trigger] cells[i] != (x, y))
                && 0 <= y < g.len() && 0 <= x < g[y].len()
            implies #[trigger] cur[y][x] == g[y][x] by {
            assert(cells[n - 1] != (x, y));
            assert(!(x == c && y == r));
            assert(prev[y][x] == g[y][x]);
        }
    }
}

/// The board: a w-by-h occupancy grid.
pub struct Grid {
    width: usize,
    height: usize,
    rows: Vec<Vec<Option<PieceKind>>>,
}

impl Grid {
    /// The mathematical contents of the board.
    pub closed spec fn contents(&self) -> GridModel {
        self.rows@.map_values(|r: Vec<Option<PieceKind>>| r@)
    }

    pub closed spec fn width_spec(&self) -> usize {
        self.width
    }

    pub closed spec fn height_spec(&self) -> usize {
        self.height
    }

    /// The stored dimensions match the stored rows.
    pub closed spec fn wf(&self) -> bool {
        &&& grid_wf(self.contents(), self.width as int, self.height as int)
        &&& self.width <= 0x7fff_ffff
        &&& self.height <= 0x7fff_ffff
    }

    /// A well-formed board has a well-formed model.
    pub proof fn lemma_wf(&self)
        requires
            self.wf(),
        ensures
            grid_wf(self.contents(), self.width_spec() as int, self.height_spec() as int),
            self.width_spec() <= 0x7fff_ffff,
            self.height_spec() <= 0x7fff_ffff,
    {
    }

    /// A fresh, empty w-by-h board.
    pub fn new(width: usize, height: usize) -> (g: Grid)
        requires
            1 <= width <= 0x7fff_ffff,
            1 <= height <= 0x7fff_ffff,
        ensures
            g.wf(),
            g.width_spec() == width,
            g.height_spec() == height,
            g.contents() == empty_grid(width as int, height as int),
    {
        let rows = make_empty_rows(width, height);
        let g = Grid { width, height, rows };
        proof {
            assert(g.contents() =~= empty_grid(width as int, height as int));
        }
        g
    }

    pub fn width(&self) -> (w: usize)
        ensures
            w == self.width_spec(),
    {
        self.width
    }

    pub fn height(&self) -> (h: usize)
        ensures
            h == self.height_spec(),
    {
        self.height
    }

    /// Whether (col, row) lies on the board.
    pub fn is_within_bounds(&self, col: i64, row: i64) -> (b: bool)
        requires
            self.wf(),
        ensures
            b == (0 <= col < self.width_spec() && 0 <= row < self.height_spec()),
    {
        0 <= col && col < self.width as i64 && 0 <= row && row < self.height as i64
    }

    /// Whether (col, row) is on the board and occupied. Out-of-bounds
    /// coordinates count as unoccupied, never as an error.
    pub fn is_occupied(&self, col: i64, row: i64) -> (b: bool)
        requires
            self.wf(),
        ensures
            b == occupied_at(self.contents(), col as int, row as int),
    {
        if 0 <= col && col < self.width as i64 && 0 <= row && row < self.height as i64 {
            proof {
                assert(self.contents()[row as int] == self.rows@[row as int]@);
            }
            let r = &self.rows[row as usize];
            r[col as usize].is_some()
        } else {
            false
        }
    }

    /// Whether (col, row) is on the board and empty.
    pub fn cell_is_open(&self, col: i64, row: i64) -> (b: bool)
        requires
            self.wf(),
        ensures
            b == cell_open(self.contents(), col as int, row as int),
    {
        if 0 <= col && col < self.width as i64 && 0 <= row && row < self.height as i64 {
            proof {
                assert(self.contents()[row as int] == self.rows@[row as int]@);
            }
            let r = &self.rows[row as usize];
            r[col as usize].is_none()
        } else {
            false
        }
    }

    /// The occupant of a cell.
    pub fn cell(&self, col: usize, row: usize) -> (v: Option<PieceKind>)
        requires
            self.wf(),
            col < self.width_spec(),
            row < self.height_spec(),
        ensures
            v == self.contents()[row as int][col as int],
    {
        proof {
            assert(self.contents()[row as int] == self.rows@[row as int]@);
        }
        let r = &self.rows[row];
        r[col]
    }

    /// Overwrite a cell with an occupant marker.
    pub fn set_cell(&mut self, col: usize, row: usize, occupant: PieceKind)
        requires
            old(self).wf(),
            col < old(self).width_spec(),
            row < old(self).height_spec(),
        ensures
            final(self).wf(),
            final(self).width_spec() == old(self).width_spec(),
            final(self).height_spec() == old(self).height_spec(),
            final(self).contents() == set_cell_model(
                old(self).contents(),
                col as int,
                row as int,
                Some(occupant),
            ),
    {
        proof {
            assert(self.contents()[row as int] == self.rows@[row as int]@);
        }
        let mut newrow = copy_row(&self.rows[row]);
        newrow.set(col, Some(occupant));
        self.rows.set(row, newrow);
        proof {
            assert(self.contents() =~= set_cell_model(
                old(self).contents(),
                col as int,
                row as int,
                Some(occupant),
            ));
        }
    }

    /// Empty a cell.
    pub fn clear_cell(&mut self, col: usize, row: usize)
        requires
            old(self).wf(),
            col < old(self).width_spec(),
            row < old(self).height_spec(),
        ensures
            final(self).wf(),
            final(self).width_spec() == old(self).width_spec(),
            final(self).height_spec() == old(self).height_spec(),
            final(self).contents() == set_cell_model(old(self).contents(), col as int, row as int, None),
    {
        proof {
            assert(self.contents()[row as int] == self.rows@[row as int]@);
        }
        let mut newrow = copy_row(&self.rows[row]);
        newrow.set(col, None);
        self.rows.set(row, newrow);
        proof {
            assert(self.contents() =~= set_cell_model(
                old(self).contents(),
                col as int,
                row as int,
                None,
            ));
        }
    }

    /// Whether row `row` is completely occupied.
    pub fn row_is_full(&self, row: usize) -> (b: bool)
        requires
            self.wf(),
            row < self.height_spec(),
        ensures
            b == row_full(self.contents()[row as int]),
    {
        let r = &self.rows[row];
        let mut c: usize = 0;
        while c < self.width
            invariant
                self.wf(),
                row < self.height_spec(),
                r == &self.rows[row as int],
                c <= self.width,
                forall|j: int| 0 <= j < c ==> (#[trigger] self.contents()[row as int][j]) is Some,
            decreases self.width - c,
        {
            if r[c].is_none() {
                assert(self.contents()[row as int][c as int] is None);
                return false;
            }
            c += 1;
        }
        true
    }

    /// Indices of all completely occupied rows, top to bottom.
    pub fn full_rows(&self) -> (res: Vec<usize>)
        requires
            self.wf(),
        ensures
            res@ == full_rows_upto(self.contents(), self.height_spec() as int),
    {
        let mut res: Vec<usize> = Vec::new();
        let mut r: usize = 0;
        while r < self.height
            invariant
                self.wf(),
                r <= self.height,
                res@ == full_rows_upto(self.contents(), r as int),
            decreases self.height - r,
        {
            if self.row_is_full(r) {
                res.push(r);
                assert(res@ =~= full_rows_upto(self.contents(), r + 1));
            } else {
                assert(res@ =~= full_rows_upto(self.contents(), r + 1));
            }
            r += 1;
        }
        res
    }

    /// Remove the listed rows that are full, shift what is above each
    /// removed row down by one per removal, and refill the top with empty
    /// rows. Listed rows that are not full are left untouched, so the
    /// operation is a no-op on a request with no full rows.
    pub fn clear_rows_and_collapse(&mut self, rows: &Vec<usize>)
        requires
            old(self).wf(),
        ensures
            final(self).wf(),
            final(self).width_spec() == old(self).width_spec(),
            final(self).height_spec() == old(self).height_spec(),
            final(self).contents() == collapse(old(self).contents(), rows@, old(self).width_spec() as int),
    {
        let ghost g0 = self.contents();
        let mut kept: Vec<Vec<Option<PieceKind>>> = Vec::new();
        let mut r: usize = 0;
        while r < self.height
            invariant
                self.wf(),
                *self == *old(self),
                g0 == self.contents(),
                r <= self.height,
                kept@.map_values(|v: Vec<Option<PieceKind>>| v@) == kept_upto(g0, rows@, r as int),
                kept@.len() + num_cleared_upto(g0, rows@, r as int) == r,
            decreases self.height - r,
        {
            let full = self.row_is_full(r);
            let listed = contains_index(rows, r);
            if !(full && listed) {
                kept.push(copy_row(&self.rows[r]));
                proof {
                    assert(!row_cleared(g0, rows@, r as int));
                    assert(kept@.map_values(|v: Vec<Option<PieceKind>>| v@)
                        =~= kept_upto(g0, rows@, r + 1));
                }
            } else {
                proof {
                    assert(row_cleared(g0, rows@, r as int));
                    assert(kept@.map_values(|v: Vec<Option<PieceKind>>| v@)
                        =~= kept_upto(g0, rows@, r + 1));
                }
            }
            r += 1;
        }
        let cleared = self.height - kept.len();
        let mut fresh: Vec<Vec<Option<PieceKind>>> = Vec::new();
        let mut i: usize = 0;
        while i < cleared
            invariant
                i <= cleared,
                self.width_spec() == old(self).width_spec(),
                fresh@.len() == i,
                forall|j: int|
                    0 <= j < i ==> (#[trigger] fresh@[j])@ == empty_row(self.width_spec() as int),
            decreases cleared - i,
        {
            fresh.push(make_empty_row(self.width));
            i += 1;
        }
        let mut kept = kept;
        fresh.append(&mut kept);
        self.rows = fresh;
        proof {
            assert(self.contents() =~= collapse(g0, rows@, old(self).width_spec() as int));
            lemma_collapse_wf(
                g0,
                rows@,
                old(self).width_spec() as int,
                old(self).height_spec() as int,
            );
        }
    }

    /// Empty the whole board.
    pub fn clear_all(&mut self)
        requires
            old(self).wf(),
        ensures
            final(self).wf(),
            final(self).width_spec() == old(self).width_spec(),
            final(self).height_spec() == old(self).height_spec(),
            final(self).contents() == empty_grid(
                old(self).width_spec() as int,
                old(self).height_spec() as int,
            ),
    {
        self.rows = make_empty_rows(self.width, self.height);
        proof {
            assert(self.contents() =~= empty_grid(
                old(self).width_spec() as int,
                old(self).height_spec() as int,
            ));
        }
    }
}

/// A fresh row of `width` empty cells.
fn make_empty_row(width: usize) -> (v: Vec<Option<PieceKind>>)
    ensures
        v@ == empty_row(width as int),
{
    let mut v: Vec<Option<PieceKind>> = Vec::new();
    let mut c: usize = 0;
    while c < width
        invariant
            c <= width,
            v@.len() == c,
            forall|j: int| 0 <= j < c ==> (#[trigger] v@[j]) is None,
        decreases width - c,
    {
        v.push(None);
        c += 1;
    }
    proof {
        assert(v@ =~= empty_row(width as int));
    }
    v
}

/// `height` fresh empty rows of `width` cells each.
fn make_empty_rows(width: usize, height: usize) -> (rows: Vec<Vec<Option<PieceKind>>>)
    ensures
        rows@.map_values(|r: Vec<Option<PieceKind>>| r@) == empty_grid(width as int, height as int),
{
    let mut rows: Vec<Vec<Option<PieceKind>>> = Vec::new();
    let mut r: usize = 0;
    while r < height
        invariant
            r <= height,
            rows@.len() == r,
            forall|j: int| 0 <= j < r ==> (#[trigger] rows@[j])@ == empty_row(width as int),
        decreases height - r,
    {
        rows.push(make_empty_row(width));
        r += 1;
    }
    proof {
        assert(rows@.map_values(|r: Vec<Option<PieceKind>>| r@)
            =~= empty_grid(width as int, height as int));
    }
    rows
}

/// An exact copy of one row.
fn copy_row(src: &Vec<Option<PieceKind>>) -> (v: Vec<Option<PieceKind>>)
    ensures
        v@ == src@,
{
    let mut v: Vec<Option<PieceKind>> = Vec::new();
    let mut c: usize = 0;
    while c < src.len()
        invariant
            c <= src@.len(),
            v@.len() == c,
            forall|j: int| 0 <= j < c ==> #[trigger] v@[j] == src@[j],
        decreases src@.len() - c,
    {
        v.push(src[c]);
        c += 1;
    }
    proof {
        assert(v@ =~= src@);
    }
    v
}

/// Whether a list of row indices mentions `x`.
fn contains_index(v: &Vec<usize>, x: usize) -> (b: bool)
    ensures
        b == v@.contains(x),
{
    let mut i: usize = 0;
    while i < v.len()
        invariant
            i <= v@.len(),
            forall|j: int| 0 <= j < i ==> #[trigger] v@[j] != x,
        decreases v@.len() - i,
    {
        if v[i] == x {
            return true;
        }
        i += 1;
    }
    false
}

} // verus!
