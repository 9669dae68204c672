use tetris_core::piece::{offset_at, Piece, PieceKind};

const ALL_KINDS: [PieceKind; 7] = [
    PieceKind::I,
    PieceKind::O,
    PieceKind::T,
    PieceKind::S,
    PieceKind::Z,
    PieceKind::J,
    PieceKind::L,
];

fn offsets(kind: PieceKind, rot: u8) -> Vec<(i32, i32)> {
    let mut v = Vec::new();
    let mut i = 0usize;
    while i < 4 {
        v.push(offset_at(kind, rot, i));
        i += 1;
    }
    v
}

#[test]
fn rotation_cycle_returns_to_original() {
    for kind in ALL_KINDS {
        let p = Piece { kind, rot: 0, col: 4, row: 7 };
        let q = p.rotated().rotated().rotated().rotated();
        assert_eq!(p, q);
    }
}

#[test]
fn o_piece_cell_set_is_rotation_invariant() {
    for rot in 0u8..4 {
        let mut a = offsets(PieceKind::O, rot);
        let mut b = offsets(PieceKind::O, (rot + 1) % 4);
        a.sort();
        b.sort();
        assert_eq!(a, b);
    }
}

#[test]
fn every_rotation_state_has_four_distinct_cells() {
    for kind in ALL_KINDS {
        for rot in 0u8..4 {
            let mut cells = offsets(kind, rot);
            cells.sort();
            cells.dedup();
            assert_eq!(cells.len(), 4);
        }
    }
}

#[test]
fn i_piece_spawn_orientation_is_a_horizontal_bar() {
    assert_eq!(offsets(PieceKind::I, 0), vec![(0, 0), (1, 0), (2, 0), (3, 0)]);
}

#[test]
fn translated_shifts_the_anchor() {
    let p = Piece { kind: PieceKind::T, rot: 0, col: 4, row: 7 };
    let q = p.translated(-1, 1);
    assert_eq!((q.col, q.row), (3, 8));
    assert_eq!(q.kind, p.kind);
    assert_eq!(q.rot, p.rot);
}

#[test]
fn rotated_advances_the_rotation_state_modulo_four() {
    let p = Piece { kind: PieceKind::J, rot: 3, col: 0, row: 0 };
    assert_eq!(p.rotated().rot, 0);
    let p = Piece { kind: PieceKind::J, rot: 1, col: 0, row: 0 };
    assert_eq!(p.rotated().rot, 2);
}

#[test]
fn cells_at_lists_anchor_plus_offsets() {
    let p = Piece { kind: PieceKind::S, rot: 0, col: 2, row: 3 };
    assert_eq!(p.cells_at(), vec![(3, 3), (4, 3), (2, 4), (3, 4)]);
}
