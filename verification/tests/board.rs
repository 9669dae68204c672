use tetris_core::grid::Grid;
use tetris_core::piece::{Piece, PieceKind};
use tetris_core::rules::{can_place, lock_piece};

fn empty_board() -> Grid {
    Grid::new(10, 20)
}

fn occupied_count(g: &Grid) -> usize {
    let mut n = 0usize;
    for row in 0..g.height() {
        for col in 0..g.width() {
            if g.cell(col, row).is_some() {
                n += 1;
            }
        }
    }
    n
}

#[test]
fn spawned_i_piece_fits_on_an_empty_board() {
    // Empty 10 by 20 well: the I piece lying at columns 3 to 6 of row 0 fits.
    let g = empty_board();
    let p = Piece { kind: PieceKind::I, rot: 0, col: 3, row: 0 };
    assert!(can_place(&g, &p));
}

#[test]
fn can_place_rejects_out_of_bounds_anchors() {
    let g = empty_board();
    let left = Piece { kind: PieceKind::I, rot: 0, col: -1, row: 0 };
    assert!(!can_place(&g, &left));
    let below = Piece { kind: PieceKind::I, rot: 0, col: 3, row: 20 };
    assert!(!can_place(&g, &below));
    let right = Piece { kind: PieceKind::I, rot: 0, col: 7, row: 0 };
    assert!(!can_place(&g, &right));
    let bottom_row = Piece { kind: PieceKind::I, rot: 0, col: 3, row: 19 };
    assert!(can_place(&g, &bottom_row));
}

#[test]
fn can_place_rejects_occupied_cells() {
    let mut g = empty_board();
    g.set_cell(4, 19, PieceKind::L);
    let p = Piece { kind: PieceKind::I, rot: 0, col: 3, row: 19 };
    assert!(!can_place(&g, &p));
    let above = Piece { kind: PieceKind::I, rot: 0, col: 3, row: 18 };
    assert!(can_place(&g, &above));
}

#[test]
fn is_occupied_is_false_out_of_bounds() {
    let mut g = empty_board();
    g.set_cell(0, 0, PieceKind::S);
    assert!(g.is_occupied(0, 0));
    assert!(!g.is_occupied(-1, 0));
    assert!(!g.is_occupied(0, 20));
    assert!(!g.is_occupied(10, 5));
}

#[test]
fn set_and_clear_cell_round_trip() {
    let mut g = empty_board();
    g.set_cell(7, 13, PieceKind::Z);
    assert_eq!(g.cell(7, 13), Some(PieceKind::Z));
    g.clear_cell(7, 13);
    assert_eq!(g.cell(7, 13), None);
}

#[test]
fn locking_adds_exactly_the_pieces_cells() {
    let mut g = empty_board();
    g.set_cell(0, 19, PieceKind::L);
    let before = occupied_count(&g);
    let p = Piece { kind: PieceKind::T, rot: 0, col: 4, row: 18 };
    assert!(can_place(&g, &p));
    lock_piece(&mut g, &p);
    assert_eq!(occupied_count(&g), before + 4);
}

#[test]
fn full_rows_reports_exactly_the_full_rows() {
    let mut g = empty_board();
    for col in 0..10 {
        g.set_cell(col, 19, PieceKind::J);
        g.set_cell(col, 17, PieceKind::J);
    }
    g.set_cell(0, 18, PieceKind::J);
    assert_eq!(g.full_rows(), vec![17, 19]);
}

#[test]
fn clearing_non_full_rows_is_a_no_op() {
    let mut g = empty_board();
    g.set_cell(2, 10, PieceKind::S);
    g.set_cell(9, 19, PieceKind::Z);
    let request = vec![0usize, 10, 19];
    g.clear_rows_and_collapse(&request);
    assert_eq!(g.cell(2, 10), Some(PieceKind::S));
    assert_eq!(g.cell(9, 19), Some(PieceKind::Z));
    assert_eq!(occupied_count(&g), 2);
}

#[test]
fn clearing_all_full_rows_leaves_no_full_row() {
    let mut g = empty_board();
    for col in 0..10 {
        g.set_cell(col, 18, PieceKind::I);
        g.set_cell(col, 19, PieceKind::O);
    }
    g.set_cell(3, 17, PieceKind::T);
    let full = g.full_rows();
    assert_eq!(full, vec![18, 19]);
    g.clear_rows_and_collapse(&full);
    assert!(g.full_rows().is_empty());
    // The cell above the cleared rows fell by two.
    assert_eq!(g.cell(3, 19), Some(PieceKind::T));
    assert_eq!(occupied_count(&g), 1);
}

#[test]
fn four_simultaneous_rows_collapse_in_one_pass() {
    // Rows 5 to 8 are full; markers above and between shift down by the
    // number of cleared rows below them, in a single pass.
    let mut g = empty_board();
    for row in 5..9 {
        for col in 0..10 {
            g.set_cell(col, row, PieceKind::L);
        }
    }
    g.set_cell(0, 4, PieceKind::T);
    g.set_cell(6, 12, PieceKind::S);
    let full = g.full_rows();
    assert_eq!(full, vec![5, 6, 7, 8]);
    g.clear_rows_and_collapse(&full);
    // The marker above the block fell by four rows.
    assert_eq!(g.cell(0, 8), Some(PieceKind::T));
    assert_eq!(g.cell(0, 4), None);
    // The marker below the block did not move.
    assert_eq!(g.cell(6, 12), Some(PieceKind::S));
    assert_eq!(occupied_count(&g), 2);
}

#[test]
fn clear_all_empties_the_board() {
    let mut g = empty_board();
    for col in 0..10 {
        g.set_cell(col, 19, PieceKind::I);
    }
    g.clear_all();
    assert_eq!(occupied_count(&g), 0);
}
