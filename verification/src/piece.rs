//! Tetromino kinds, their cell offsets, and the active piece with its
//! anchor position and rotation state.

use vstd::prelude::*;

verus! {

/// The seven standard tetromino shapes.
#[derive(Clone, Copy, Debug, PartialEq, Eq, Structural)]
pub enum PieceKind {
    I,
    O,
    T,
    S,
    Z,
    J,
    L,
}

/// Side length of the square box in which a kind's cells rotate.
pub open spec fn box_size(k: PieceKind) -> int {
    match k {
        PieceKind::I => 4,
        PieceKind::O => 2,
        _ => 3,
    }
}

/// Cell offsets of a kind in its spawn orientation, relative to the anchor
/// (the top-left corner of the rotation box). Columns grow rightward and
/// rows grow downward.
pub open spec fn base_offsets(k: PieceKind) -> Seq<(int, int)> {
    match k {
        PieceKind::I => seq![(0int, 0int), (1int, 0int), (2int, 0int), (3int, 0int)],
        PieceKind::O => seq![(0int, 0int), (1int, 0int), (0int, 1int), (1int, 1int)],
        PieceKind::T => seq![(0int, 0int), (1int, 0int), (2int, 0int), (1int, 1int)],
        PieceKind::S => seq![(1int, 0int), (2int, 0int), (0int, 1int), (1int, 1int)],
        PieceKind::Z => seq![(0int, 0int), (1int, 0int), (1int, 1int), (2int, 1int)],
        PieceKind::J => seq![(0int, 0int), (0int, 1int), (1int, 1int), (2int, 1int)],
        PieceKind::L => seq![(2int, 0int), (0int, 1int), (1int, 1int), (2int, 1int)],
    }
}

/// One quarter turn clockwise inside an n-by-n box.
pub open spec fn rotate_cw(n: int, o: (int, int)) -> (int, int) {
    (n - 1 - o.1, o.0)
}

/// Cell offsets after `r` clockwise quarter turns from the spawn orientation.
pub open spec fn offsets_after(k: PieceKind, r: int) -> Seq<(int, int)>
    decreases r,
{
    if r <= 0 {
        base_offsets(k)
    } else {
        offsets_after(k, r - 1).map_values(|o: (int, int)| rotate_cw(box_size(k), o))
    }
}

pub proof fn lemma_offsets_len(k: PieceKind, r: int)
    requires
        0 <= r,
    ensures
        offsets_after(k, r).len() == 4,
    decreases r,
{
    if r == 0 {
        match k {
            PieceKind::I => assert(base_offsets(k).len() == 4),
            PieceKind::O => assert(base_offsets(k).len() == 4),
            PieceKind::T => assert(base_offsets(k).len() == 4),
            PieceKind::S => assert(base_offsets(k).len() == 4),
            PieceKind::Z => assert(base_offsets(k).len() == 4),
            PieceKind::J => assert(base_offsets(k).len() == 4),
            PieceKind::L => assert(base_offsets(k).len() == 4),
        }
    } else {
        lemma_offsets_len(k, r - 1);
    }
}

/// All offsets stay inside the kind's rotation box.
pub proof fn lemma_offsets_in_box(k: PieceKind, r: int)
    requires
        0 <= r,
    ensures
        forall|i: int| 0 <= i < offsets_after(k, r).len()
            ==> 0 <= (#[trigger] offsets_after(k, r)[i]).0 < box_size(k)
                && 0 <= offsets_after(k, r)[i].1 < box_size(k),
    decreases r,
{
    lemma_offsets_len(k, r);
    if r == 0 {
        assert forall|i: int| 0 <= i < offsets_after(k, r).len()
            implies 0 <= (#[trigger] offsets_after(k, r)[i]).0 < box_size(k)
                && 0 <= offsets_after(k, r)[i].1 < box_size(k) by {
            match k {
                PieceKind::I => assert(0 <= base_offsets(k)[i].0 < 4 && 0 <= base_offsets(k)[i].1 < 4),
                PieceKind::O => assert(0 <= base_offsets(k)[i].0 < 2 && 0 <= base_offsets(k)[i].1 < 2),
                PieceKind::T => assert(0 <= base_offsets(k)[i].0 < 3 && 0 <= base_offsets(k)[i].1 < 3),
                PieceKind::S => assert(0 <= base_offsets(k)[i].0 < 3 && 0 <= base_offsets(k)[i].1 < 3),
                PieceKind::Z => assert(0 <= base_offsets(k)[i].0 < 3 && 0 <= base_offsets(k)[i].1 < 3),
                PieceKind::J => assert(0 <= base_offsets(k)[i].0 < 3 && 0 <= base_offsets(k)[i].1 < 3),
                PieceKind::L => assert(0 <= base_offsets(k)[i].0 < 3 && 0 <= base_offsets(k)[i].1 < 3),
            }
        }
    } else {
        lemma_offsets_in_box(k, r - 1);
        lemma_offsets_len(k, r - 1);
    }
}

/// The four offsets of any rotation state are pairwise distinct.
pub proof fn lemma_offsets_distinct(k: PieceKind, r: int)
    requires
        0 <= r,
    ensures
        forall|i: int, j: int|
            0 <= i < offsets_after(k, r).len() && 0 <= j < offsets_after(k, r).len() && i != j
                ==> #[trigger] offsets_after(k, r)[i] != #[trigger] offsets_after(k, r)[j],
    decreases r,
{
    lemma_offsets_len(k, r);
    if r == 0 {
        assert forall|i: int, j: int|
            0 <= i < offsets_after(k, r).len() && 0 <= j < offsets_after(k, r).len() && i != j
            implies #[trigger] offsets_after(k, r)[i] != #[trigger] offsets_after(k, r)[j] by {
            match k {
                PieceKind::I => assert(base_offsets(k)[i] != base_offsets(k)[j]),
                PieceKind::O => assert(base_offsets(k)[i] != base_offsets(k)[j]),
                PieceKind::T => assert(base_offsets(k)[i] != base_offsets(k)[j]),
                PieceKind::S => assert(base_offsets(k)[i] != base_offsets(k)[j]),
                PieceKind::Z => assert(base_offsets(k)[i] != base_offsets(k)[j]),
                PieceKind::J => assert(base_offsets(k)[i] != base_offsets(k)[j]),
                PieceKind::L => assert(base_offsets(k)[i] != base_offsets(k)[j]),
            }
        }
    } else {
        lemma_offsets_distinct(k, r - 1);
        lemma_offsets_len(k, r - 1);
        assert forall|i: int, j: int|
            0 <= i < offsets_after(k, r).len() && 0 <= j < offsets_after(k, r).len() && i != j
            implies #[trigger] offsets_after(k, r)[i] != #[trigger] offsets_after(k, r)[j] by {
            let prev = offsets_after(k, r - 1);
            assert(offsets_after(k, r)[i] == rotate_cw(box_size(k), prev[i]));
            assert(offsets_after(k, r)[j] == rotate_cw(box_size(k), prev[j]));
            assert(prev[i] != prev[j]);
        }
    }
}

/// An active piece: kind, rotation state and anchor cell in grid space.
#[derive(Clone, Copy, Debug, PartialEq, Eq, Structural)]
pub struct Piece {
    pub kind: PieceKind,
    pub rot: u8,
    pub col: i32,
    pub row: i32,
}

/// A piece's rotation index is always one of the four rotation states.
pub open spec fn piece_wf(p: Piece) -> bool {
    p.rot < 4
}

/// Absolute grid cells covered by a piece: each offset added to the anchor.
pub open spec fn piece_cells(p: Piece) -> Seq<(int, int)> {
    offsets_after(p.kind, p.rot as int).map_values(|o: (int, int)| (p.col + o.0, p.row + o.1))
}

pub proof fn lemma_piece_cells_len(p: Piece)
    requires
        piece_wf(p),
    ensures
        piece_cells(p).len() == 4,
{
    lemma_offsets_len(p.kind, p.rot as int);
}

/// Distinct offsets stay distinct after adding the anchor.
pub proof fn lemma_piece_cells_distinct(p: Piece)
    requires
        piece_wf(p),
    ensures
        forall|i: int, j: int|
            0 <= i < piece_cells(p).len() && 0 <= j < piece_cells(p).len() && i != j
                ==> #[trigger] piece_cells(p)[i] != #[trigger] piece_cells(p)[j],
{
    lemma_offsets_len(p.kind, p.rot as int);
    lemma_offsets_distinct(p.kind, p.rot as int);
}

fn box_size_exec(k: PieceKind) -> (n: i32)
    ensures
        n as int == box_size(k),
{
    match k {
        PieceKind::I => 4,
        PieceKind::O => 2,
        _ => 3,
    }
}

fn base_offset_at(k: PieceKind, i: usize) -> (o: (i32, i32))
    requires
        i < 4,
    ensures
        (o.0 as int, o.1 as int) == base_offsets(k)[i as int],
{
    match k {
        PieceKind::I => {
            if i == 0 { (0, 0) } else if i == 1 { (1, 0) } else if i == 2 { (2, 0) } else { (3, 0) }
        },
        PieceKind::O => {
            if i == 0 { (0, 0) } else if i == 1 { (1, 0) } else if i == 2 { (0, 1) } else { (1, 1) }
        },
        PieceKind::T => {
            if i == 0 { (0, 0) } else if i == 1 { (1, 0) } else if i == 2 { (2, 0) } else { (1, 1) }
        },
        PieceKind::S => {
            if i == 0 { (1, 0) } else if i == 1 { (2, 0) } else if i == 2 { (0, 1) } else { (1, 1) }
        },
        PieceKind::Z => {
            if i == 0 { (0, 0) } else if i == 1 { (1, 0) } else if i == 2 { (1, 1) } else { (2, 1) }
        },
        PieceKind::J => {
            if i == 0 { (0, 0) } else if i == 1 { (0, 1) } else if i == 2 { (1, 1) } else { (2, 1) }
        },
        PieceKind::L => {
            if i == 0 { (2, 0) } else if i == 1 { (0, 1) } else if i == 2 { (1, 1) } else { (2, 1) }
        },
    }
}

/// The i-th cell offset of a kind after `rot` quarter turns.
pub fn offset_at(k: PieceKind, rot: u8, i: usize) -> (o: (i32, i32))
    requires
        rot < 4,
        i < 4,
    ensures
        (o.0 as int, o.1 as int) == offsets_after(k, rot as int)[i as int],
{
    let n = box_size_exec(k);
    let mut o = base_offset_at(k, i);
    let mut j: u8 = 0;
    proof {
        lemma_offsets_len(k, 0);
        lemma_offsets_in_box(k, 0);
    }
    while j < rot
        invariant
            j <= rot,
            rot < 4,
            i < 4,
            n as int == box_size(k),
            (o.0 as int, o.1 as int) == offsets_after(k, j as int)[i as int],
            0 <= (o.0 as int) < (n as int),
            0 <= (o.1 as int) < (n as int),
        decreases rot - j,
    {
        o = (n - 1 - o.1, o.0);
        j = j + 1;
        proof {
            lemma_offsets_len(k, j - 1);
            lemma_offsets_in_box(k, j as int);
            assert(offsets_after(k, j as int)[i as int]
                == rotate_cw(box_size(k), offsets_after(k, j - 1)[i as int]));
        }
    }
    o
}

/// The rotation state that one clockwise turn reaches.
pub open spec fn spec_rotated(p: Piece) -> Piece {
    Piece { kind: p.kind, rot: ((p.rot + 1) % 4) as u8, col: p.col, row: p.row }
}

/// The piece reached from `p` by `n` clockwise turns.
pub open spec fn rotated_n(p: Piece, n: nat) -> Piece
    decreases n,
{
    if n == 0 {
        p
    } else {
        spec_rotated(rotated_n(p, (n - 1) as nat))
    }
}

impl Piece {
    /// The same piece with its anchor shifted by (dx, dy).
    pub fn translated(&self, dx: i32, dy: i32) -> (q: Piece)
        requires
            i32::MIN <= self.col + dx <= i32::MAX,
            i32::MIN <= self.row + dy <= i32::MAX,
        ensures
            q.kind == self.kind,
            q.rot == self.rot,
            q.col as int == self.col + dx,
            q.row as int == self.row + dy,
    {
        Piece { kind: self.kind, rot: self.rot, col: self.col + dx, row: self.row + dy }
    }

    /// The absolute grid cells this piece covers, anchor plus offsets.
    pub fn cells_at(&self) -> (v: Vec<(i64, i64)>)
        requires
            piece_wf(*self),
        ensures
            v@.len() == 4,
            forall|i: int|
                0 <= i < 4
                    ==> ((#[trigger] v@[i]).0 as int, v@[i].1 as int) == piece_cells(*self)[i],
    {
        proof {
            lemma_piece_cells_len(*self);
        }
        let mut v: Vec<(i64, i64)> = Vec::new();
        let mut i: usize = 0;
        while i < 4
            invariant
                i <= 4,
                piece_wf(*self),
                piece_cells(*self).len() == 4,
                v@.len() == i,
                forall|j: int|
                    0 <= j < i
                        ==> ((#[trigger] v@[j]).0 as int, v@[j].1 as int) == piece_cells(*self)[j],
            decreases 4 - i,
        {
            let o = offset_at(self.kind, self.rot, i);
            v.push((self.col as i64 + o.0 as i64, self.row as i64 + o.1 as i64));
            i += 1;
        }
        v
    }

    /// The same piece turned one quarter turn clockwise at the same anchor.
    pub fn rotated(&self) -> (q: Piece)
        requires
            piece_wf(*self),
        ensures
            q == spec_rotated(*self),
            piece_wf(q),
    {
        Piece { kind: self.kind, rot: (self.rot + 1) % 4, col: self.col, row: self.row }
    }
}

/// Rotation is a cyclic action: four quarter turns bring a piece back to
/// exactly its original state, and hence to its original cell set.
pub proof fn lemma_rotation_cycle(p: Piece)
    requires
        piece_wf(p),
    ensures
        rotated_n(p, 4) == p,
        piece_cells(rotated_n(p, 4)) == piece_cells(p),
{
    let p1 = rotated_n(p, 1);
    let p2 = rotated_n(p, 2);
    let p3 = rotated_n(p, 3);
    let p4 = rotated_n(p, 4);
    assert(rotated_n(p, 0) == p);
    assert(p1 == spec_rotated(rotated_n(p, 0)));
    assert(p2 == spec_rotated(p1));
    assert(p3 == spec_rotated(p2));
    assert(p4 == spec_rotated(p3));
    assert(p4.rot == p.rot);
}

/// The O piece occupies the same cell set in every rotation state.
pub proof fn lemma_o_rotation_symmetric(p: Piece)
    requires
        piece_wf(p),
        p.kind == PieceKind::O,
    ensures
        forall|c: (int, int)|
            piece_cells(spec_rotated(p)).contains(c) <==> piece_cells(p).contains(c),
{
    let q = spec_rotated(p);
    let sp = offsets_after(PieceKind::O, p.rot as int);
    let sq = offsets_after(PieceKind::O, q.rot as int);
    lemma_piece_cells_len(p);
    lemma_piece_cells_len(q);
    lemma_o_offsets_box(p.rot as int);
    lemma_o_offsets_box(q.rot as int);
    assert forall|c: (int, int)|
        piece_cells(q).contains(c) implies piece_cells(p).contains(c) by {
        let i = choose|i: int| 0 <= i < piece_cells(q).len() && piece_cells(q)[i] == c;
        let o = sq[i];
        assert(sq.contains(o));
        assert(sp.contains(o));
        let j = choose|j: int| 0 <= j < sp.len() && sp[j] == o;
        assert(piece_cells(p)[j] == c);
        assert(piece_cells(p).contains(c));
    }
    assert forall|c: (int, int)|
        piece_cells(p).contains(c) implies piece_cells(q).contains(c) by {
        let i = choose|i: int| 0 <= i < piece_cells(p).len() && piece_cells(p)[i] == c;
        let o = sp[i];
        assert(sp.contains(o));
        assert(sq.contains(o));
        let j = choose|j: int| 0 <= j < sq.len() && sq[j] == o;
        assert(piece_cells(q)[j] == c);
        assert(piece_cells(q).contains(c));
    }
}

/// In every rotation state the O piece's offsets are exactly the four cells
/// of its two-by-two box, merely listed in a different order.
proof fn lemma_o_offsets_box(r: int)
    requires
        0 <= r < 4,
    ensures
        forall|o: (int, int)|
            #[trigger] offsets_after(PieceKind::O, r).contains(o)
                <==> (o == (0int, 0int) || o == (1int, 0int) || o == (0int, 1int) || o == (1int, 1int)),
{
    let s0 = offsets_after(PieceKind::O, 0);
    let s1 = offsets_after(PieceKind::O, 1);
    let s2 = offsets_after(PieceKind::O, 2);
    let s3 = offsets_after(PieceKind::O, 3);
    assert(s0 =~= seq![(0int, 0int), (1int, 0int), (0int, 1int), (1int, 1int)]);
    assert(s1 =~= seq![(1int, 0int), (1int, 1int), (0int, 0int), (0int, 1int)]) by {
        assert(s1.len() == 4);
        assert(s1[0] == rotate_cw(2, s0[0]));
        assert(s1[1] == rotate_cw(2, s0[1]));
        assert(s1[2] == rotate_cw(2, s0[2]));
        assert(s1[3] == rotate_cw(2, s0[3]));
    }
    assert(s2 =~= seq![(1int, 1int), (0int, 1int), (1int, 0int), (0int, 0int)]) by {
        assert(s2.len() == 4);
        assert(s2[0] == rotate_cw(2, s1[0]));
        assert(s2[1] == rotate_cw(2, s1[1]));
        assert(s2[2] == rotate_cw(2, s1[2]));
        assert(s2[3] == rotate_cw(2, s1[3]));
    }
    assert(s3 =~= seq![(0int, 1int), (0int, 0int), (1int, 1int), (1int, 0int)]) by {
        assert(s3.len() == 4);
        assert(s3[0] == rotate_cw(2, s2[0]));
        assert(s3[1] == rotate_cw(2, s2[1]));
        assert(s3[2] == rotate_cw(2, s2[2]));
        assert(s3[3] == rotate_cw(2, s2[3]));
    }
    let s = offsets_after(PieceKind::O, r);
    assert forall|o: (int, int)| #[trigger] s.contains(o)
        implies (o == (0int, 0int) || o == (1int, 0int) || o == (0int, 1int) || o == (1int, 1int)) by {
        let i = choose|i: int| 0 <= i < s.len() && s[i] == o;
    }
    assert forall|o: (int, int)|
        (o == (0int, 0int) || o == (1int, 0int) || o == (0int, 1int) || o == (1int, 1int))
        implies s.contains(o) by {
        if r == 0 {
            if o == (0int, 0int) { assert(s[0] == o); }
            if o == (1int, 0int) { assert(s[1] == o); }
            if o == (0int, 1int) { assert(s[2] == o); }
            if o == (1int, 1int) { assert(s[3] == o); }
        } else if r == 1 {
            if o == (0int, 0int) { assert(s[2] == o); }
            if o == (1int, 0int) { assert(s[0] == o); }
            if o == (0int, 1int) { assert(s[3] == o); }
            if o == (1int, 1int) { assert(s[1] == o); }
        } else if r == 2 {
            if o == (0int, 0int) { assert(s[3] == o); }
            if o == (1int, 0int) { assert(s[2] == o); }
            if o == (0int, 1int) { assert(s[1] == o); }
            if o == (1int, 1int) { assert(s[0] == o); }
        } else {
            if o == (0int, 0int) { assert(s[1] == o); }
            if o == (1int, 0int) { assert(s[3] == o); }
            if o == (0int, 1int) { assert(s[0] == o); }
            if o == (1int, 1int) { assert(s[2] == o); }
        }
    }
}

} // verus!
