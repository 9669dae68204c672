//! Collision rules: the single authority consulted before committing any
//! move, rotation or spawn, and the conversion of a placed piece into
//! permanent grid occupancy.

use vstd::prelude::*;

use crate::grid::{
    cell_open, grid_count, place_cells, Grid, GridModel,
};
use crate::piece::{
    lemma_piece_cells_distinct, lemma_piece_cells_len, piece_cells, piece_wf, Piece, PieceKind,
};

verus! {

/// A piece may stand here: every one of its cells is on the board and empty.
pub open spec fn can_place_spec(g: GridModel, p: Piece) -> bool {
    forall|i: int|
        0 <= i < piece_cells(p).len()
            ==> cell_open(g, (#[trigger] piece_cells(p)[i]).0, piece_cells(p)[i].1)
}

/// True iff every cell the piece would cover is within bounds and
/// unoccupied; bounds are always checked before occupancy.
pub fn can_place(grid: &Grid, p: &Piece) -> (ok: bool)
    requires
        grid.wf(),
        piece_wf(*p),
    ensures
        ok == can_place_spec(grid.contents(), *p),
{
    proof {
        lemma_piece_cells_len(*p);
    }
    let mut i: usize = 0;
    while i < 4
        invariant
            grid.wf(),
            piece_wf(*p),
            piece_cells(*p).len() == 4,
            i <= 4,
            forall|j: int|
                0 <= j < i
                    ==> cell_open(
                        grid.contents(),
                        (#[trigger] piece_cells(*p)[j]).0,
                        piece_cells(*p)[j].1,
                    ),
        decreases 4 - i,
    {
        let o = crate::piece::offset_at(p.kind, p.rot, i);
        let c: i64 = p.col as i64 + o.0 as i64;
        let r: i64 = p.row as i64 + o.1 as i64;
        proof {
            assert(piece_cells(*p)[i as int] == (p.col + o.0 as int, p.row + o.1 as int));
        }
        if !grid.cell_is_open(c, r) {
            return false;
        }
        i += 1;
    }
    true
}

/// Write every cell of a placed piece into the grid with the piece's
/// marker. The piece must satisfy the collision rules; locking converts it
/// into permanent occupancy and raises the occupied-cell count by exactly
/// the piece's four cells.
pub fn lock_piece(grid: &mut Grid, p: &Piece)
    requires
        old(grid).wf(),
        piece_wf(*p),
        can_place_spec(old(grid).contents(), *p),
    ensures
        final(grid).wf(),
        final(grid).width_spec() == old(grid).width_spec(),
        final(grid).height_spec() == old(grid).height_spec(),
        final(grid).contents() == place_cells(old(grid).contents(), piece_cells(*p), p.kind, 4),
        grid_count(final(grid).contents()) == grid_count(old(grid).contents()) + 4,
{
    proof {
        lemma_piece_cells_len(*p);
        lemma_lock_conserves_count(old(grid).contents(), *p);
    }
    let ghost g0 = grid.contents();
    let ghost cells = piece_cells(*p);
    let mut i: usize = 0;
    while i < 4
        invariant
            grid.wf(),
            piece_wf(*p),
            grid.width_spec() == old(grid).width_spec(),
            grid.height_spec() == old(grid).height_spec(),
            g0 == old(grid).contents(),
            cells == piece_cells(*p),
            cells.len() == 4,
            can_place_spec(g0, *p),
            i <= 4,
            grid.contents() == place_cells(g0, cells, p.kind, i as int),
        decreases 4 - i,
    {
        let o = crate::piece::offset_at(p.kind, p.rot, i);
        let c: i64 = p.col as i64 + o.0 as i64;
        let r: i64 = p.row as i64 + o.1 as i64;
        proof {
            assert(cells[i as int] == (p.col + o.0 as int, p.row + o.1 as int));
            assert(cell_open(g0, c as int, r as int));
            lemma_piece_cells_distinct(*p);
            lemma_place_preserves_open(g0, cells, p.kind, i as int);
            assert(cell_open(grid.contents(), c as int, r as int));
            grid.lemma_wf();
        }
        grid.set_cell(c as usize, r as usize, p.kind);
        i += 1;
        proof {
            assert(grid.contents() == place_cells(g0, cells, p.kind, i as int));
        }
    }
}

/// While the first `n` cells of a placed piece are being written, every
/// later cell is still open: the cells are pairwise distinct.
proof fn lemma_place_preserves_open(g: GridModel, cells: Seq<(int, int)>, k: PieceKind, n: int)
    requires
        0 <= n <= cells.len(),
        forall|i: int| 0 <= i < cells.len() ==> cell_open(g, (#[trigger] cells[i]).0, cells[i].1),
        forall|i: int, j: int|
            0 <= i < cells.len() && 0 <= j < cells.len() && i != j
                ==> #[trigger] cells[i] != #[trigger] cells[j],
    ensures
        forall|j: int|
            n <= j < cells.len()
                ==> cell_open(place_cells(g, cells, k, n), (#[trigger] cells[j]).0, cells[j].1),
{
    crate::grid::lemma_place_cells_count(g, cells, k, n);
    let placed = place_cells(g, cells, k, n);
    assert forall|j: int|
        n <= j < cells.len()
        implies cell_open(placed, (#[trigger] cells[j]).0, cells[j].1) by {
        let (x, y) = cells[j];
        assert(cell_open(g, x, y));
        assert(forall|i: int| 0 <= i < n ==> #[trigger] cells[i] != (x, y));
        assert(placed[y][x] == g[y][x]);
    }
}

/// Locking a piece changes the occupied-cell count by exactly the piece's
/// cell count: its four cells are distinct and were all empty.
pub proof fn lemma_lock_conserves_count(g: GridModel, p: Piece)
    requires
        piece_wf(p),
        can_place_spec(g, p),
    ensures
        grid_count(place_cells(g, piece_cells(p), p.kind, 4))
            == grid_count(g) + 4,
{
    lemma_piece_cells_len(p);
    lemma_piece_cells_distinct(p);
    crate::grid::lemma_place_cells_count(g, piece_cells(p), p.kind, 4);
}

} // verus!
