//! The game session: one board, at most one active piece, the queued next
//! kind, score and line count, the top-level phase machine and the
//! tick-driven spawn / gravity / lock / line-clear cycle.

use vstd::prelude::*;

use crate::grid::{
    collapse, empty_grid, full_rows_upto, grid_wf, place_cells, Grid, GridModel,
};
use crate::piece::{piece_cells, piece_wf, Piece, PieceKind};
use crate::rules::{can_place, can_place_spec, lock_piece};

verus! {

/// Board width of a standard well.
pub const BOARD_WIDTH: usize = 10;

/// Board height of a standard well.
pub const BOARD_HEIGHT: usize = 20;

/// Spawn anchor: top centre, spawn rotation.
pub const SPAWN_COL: i32 = 3;

/// Spawn anchor row: the top of the well.
pub const SPAWN_ROW: i32 = 0;

/// Ticks between two automatic downward steps.
pub const GRAVITY_PERIOD_TICKS: u64 = 10;

/// Ticks a grounded piece may still be adjusted before it locks.
pub const LOCK_DELAY_TICKS: u64 = 3;

/// Top-level phase of the application.
#[derive(Clone, Copy, Debug, PartialEq, Eq, Structural)]
pub enum GamePhase {
    MainMenu,
    Playing,
    Paused,
    GameOver,
    Restarted,
}

/// Sub-state of a running game.
#[derive(Clone, Copy, Debug, PartialEq, Eq, Structural)]
pub enum PlayState {
    /// A piece is in flight (or about to spawn); gravity and input apply.
    Falling,
    /// The piece is grounded; a short settle delay runs before it locks.
    Locking,
    /// The locked piece's rows are examined and full ones removed.
    ClearingLines,
}

/// A discrete input intent. Intents outside the accepting phase are
/// silently ignored, never an error.
#[derive(Clone, Copy, Debug, PartialEq, Eq, Structural)]
pub enum Intent {
    MoveLeft,
    MoveRight,
    RotateCw,
    SoftDrop,
    Pause,
    Resume,
    Restart,
    ReturnToMenu,
}

/// A discrete notification a collaborator (audio, effects) may react to.
#[derive(Clone, Copy, Debug, PartialEq, Eq, Structural)]
pub enum GameEvent {
    PieceLocked,
    LinesCleared(u64),
    GameOver,
}

/// The mathematical state of a session.
#[verifier::ext_equal]
pub struct SessionModel {
    pub grid: GridModel,
    pub active: Option<Piece>,
    pub next: PieceKind,
    pub rng: u64,
    pub score: u64,
    pub lines: u64,
    pub phase: GamePhase,
    pub play: PlayState,
    pub gravity_timer: u64,
    pub lock_timer: u64,
}

/// The linear-congruential step behind the next-piece draw: a seedable,
/// deterministic source, so tests can fix the sequence of kinds.
pub open spec fn rng_next(s: u64) -> u64 {
    (((s as int) * 0x5851_f42d_4c95_7f2d + 0x1405_7b7e_f767_814f) % 0x1_0000_0000_0000_0000) as u64
}

/// The kind drawn from one random word: uniform over the seven kinds.
pub open spec fn kind_for(r: u64) -> PieceKind {
    let i = (r as int) % 7;
    if i == 0 {
        PieceKind::I
    } else if i == 1 {
        PieceKind::O
    } else if i == 2 {
        PieceKind::T
    } else if i == 3 {
        PieceKind::S
    } else if i == 4 {
        PieceKind::Z
    } else if i == 5 {
        PieceKind::J
    } else {
        PieceKind::L
    }
}

/// Addition on scores and counters that stops at the top of the range.
pub open spec fn sat_add_spec(a: u64, b: u64) -> u64 {
    if a + b > u64::MAX {
        u64::MAX
    } else {
        (a + b) as u64
    }
}

/// Score awarded for clearing `n` rows at once. Clearing several rows
/// together is worth more than clearing them one at a time.
pub open spec fn line_score(n: int) -> u64 {
    if n <= 0 {
        0
    } else if n == 1 {
        100
    } else if n == 2 {
        300
    } else if n == 3 {
        500
    } else {
        800
    }
}

/// The piece a spawn produces: queued kind, spawn rotation, top centre.
pub open spec fn spawn_piece(next: PieceKind) -> Piece {
    Piece { kind: next, rot: 0, col: SPAWN_COL, row: SPAWN_ROW }
}

/// A piece one row further down.
pub open spec fn piece_down(p: Piece) -> Piece {
    Piece { kind: p.kind, rot: p.rot, col: p.col, row: (p.row + 1) as i32 }
}

/// Every reachable session satisfies this invariant: the board is a
/// well-formed standard well, an active piece always stands where the
/// collision rules allow it, the timers stay below their periods, a
/// grounded (locking) piece exists, and no piece is in flight while rows
/// are being cleared.
pub open spec fn session_inv(m: SessionModel) -> bool {
    &&& grid_wf(m.grid, BOARD_WIDTH as int, BOARD_HEIGHT as int)
    &&& (m.active matches Some(p) ==> piece_wf(p) && can_place_spec(m.grid, p))
    &&& m.gravity_timer < GRAVITY_PERIOD_TICKS
    &&& m.lock_timer < LOCK_DELAY_TICKS
    &&& (m.play is Locking ==> m.active is Some)
    &&& (m.play is ClearingLines ==> m.active is None)
}

/// The state a session reset produces: empty board, no piece, zeroed
/// score, lines and timers; the draw sequence continues from where it was.
pub open spec fn reset_model(m: SessionModel, ph: GamePhase) -> SessionModel {
    SessionModel {
        grid: empty_grid(BOARD_WIDTH as int, BOARD_HEIGHT as int),
        active: None,
        score: 0,
        lines: 0,
        phase: ph,
        play: PlayState::Falling,
        gravity_timer: 0,
        lock_timer: 0,
        ..m
    }
}

/// Spawning: place the queued kind at the spawn anchor; if the collision
/// rules reject even that, the well is blocked and the game is over.
pub open spec fn tick_spawn(m: SessionModel) -> (SessionModel, Option<GameEvent>) {
    let p = spawn_piece(m.next);
    if can_place_spec(m.grid, p) {
        (
            SessionModel {
                active: Some(p),
                next: kind_for(rng_next(m.rng)),
                rng: rng_next(m.rng),
                gravity_timer: 0,
                ..m
            },
            None,
        )
    } else {
        (SessionModel { phase: GamePhase::GameOver, ..m }, Some(GameEvent::GameOver))
    }
}

/// Gravity: when the period elapses, step down if possible, else the piece
/// is grounded and the settle delay starts.
pub open spec fn tick_gravity(m: SessionModel, p: Piece) -> (SessionModel, Option<GameEvent>) {
    if m.gravity_timer + 1 >= GRAVITY_PERIOD_TICKS {
        if can_place_spec(m.grid, piece_down(p)) {
            (SessionModel { active: Some(piece_down(p)), gravity_timer: 0, ..m }, None)
        } else {
            (
                SessionModel {
                    play: PlayState::Locking,
                    gravity_timer: 0,
                    lock_timer: 0,
                    ..m
                },
                None,
            )
        }
    } else {
        (SessionModel { gravity_timer: (m.gravity_timer + 1) as u64, ..m }, None)
    }
}

/// Settling: a piece freed by a late move falls again; otherwise, when the
/// delay elapses, its cells become permanent occupancy.
pub open spec fn tick_locking(m: SessionModel, p: Piece) -> (SessionModel, Option<GameEvent>) {
    if can_place_spec(m.grid, piece_down(p)) {
        (
            SessionModel { play: PlayState::Falling, gravity_timer: 0, lock_timer: 0, ..m },
            None,
        )
    } else if m.lock_timer + 1 >= LOCK_DELAY_TICKS {
        (
            SessionModel {
                grid: place_cells(m.grid, piece_cells(p), p.kind, 4),
                active: None,
                play: PlayState::ClearingLines,
                lock_timer: 0,
                ..m
            },
            Some(GameEvent::PieceLocked),
        )
    } else {
        (SessionModel { lock_timer: (m.lock_timer + 1) as u64, ..m }, None)
    }
}

/// Line clear: remove all full rows in one pass, count them, and award the
/// simultaneous-clear score.
pub open spec fn tick_clearing(m: SessionModel) -> (SessionModel, Option<GameEvent>) {
    let fulls = full_rows_upto(m.grid, m.grid.len() as int);
    if fulls.len() > 0 {
        (
            SessionModel {
                grid: collapse(m.grid, fulls, BOARD_WIDTH as int),
                lines: sat_add_spec(m.lines, fulls.len() as u64),
                score: sat_add_spec(m.score, line_score(fulls.len() as int)),
                play: PlayState::Falling,
                ..m
            },
            Some(GameEvent::LinesCleared(fulls.len() as u64)),
        )
    } else {
        (SessionModel { play: PlayState::Falling, ..m }, None)
    }
}

/// One scheduler tick. Nothing moves outside Playing; a Restarted session
/// resumes play; within Playing the sub-state machine runs one step.
pub open spec fn tick_model(m: SessionModel) -> (SessionModel, Option<GameEvent>) {
    match m.phase {
        GamePhase::MainMenu => (m, None),
        GamePhase::Paused => (m, None),
        GamePhase::GameOver => (m, None),
        GamePhase::Restarted => (SessionModel { phase: GamePhase::Playing, ..m }, None),
        GamePhase::Playing => match m.play {
            PlayState::Falling => match m.active {
                None => tick_spawn(m),
                Some(p) => tick_gravity(m, p),
            },
            PlayState::Locking => match m.active {
                None => (SessionModel { play: PlayState::Falling, ..m }, None),
                Some(p) => tick_locking(m, p),
            },
            PlayState::ClearingLines => tick_clearing(m),
        },
    }
}

/// A lateral or downward step: committed only where the collision rules
/// allow it, otherwise a silent no-op.
pub open spec fn shift_model(m: SessionModel, dx: int, dy: int) -> SessionModel {
    if m.phase is Playing {
        match m.active {
            Some(p) => {
                let q = Piece {
                    kind: p.kind,
                    rot: p.rot,
                    col: (p.col + dx) as i32,
                    row: (p.row + dy) as i32,
                };
                if can_place_spec(m.grid, q) {
                    SessionModel { active: Some(q), ..m }
                } else {
                    m
                }
            },
            None => m,
        }
    } else {
        m
    }
}

/// A clockwise rotation at the same anchor: no wall-kick search; a
/// rotation that would only fit elsewhere is rejected outright.
pub open spec fn rotate_model(m: SessionModel) -> SessionModel {
    if m.phase is Playing {
        match m.active {
            Some(p) => {
                let q = crate::piece::spec_rotated(p);
                if can_place_spec(m.grid, q) {
                    SessionModel { active: Some(q), ..m }
                } else {
                    m
                }
            },
            None => m,
        }
    } else {
        m
    }
}

/// A soft drop: one immediate downward step that also resets the gravity
/// timer, so gravity is not applied twice; a freed piece falls again.
pub open spec fn soft_drop_model(m: SessionModel) -> SessionModel {
    if m.phase is Playing {
        match m.active {
            Some(p) => {
                let q = piece_down(p);
                if can_place_spec(m.grid, q) {
                    SessionModel {
                        active: Some(q),
                        gravity_timer: 0,
                        lock_timer: 0,
                        play: PlayState::Falling,
                        ..m
                    }
                } else {
                    m
                }
            },
            None => m,
        }
    } else {
        m
    }
}

/// How one input intent transforms the session.
pub open spec fn intent_model(m: SessionModel, it: Intent) -> SessionModel {
    match it {
        Intent::MoveLeft => shift_model(m, -1, 0),
        Intent::MoveRight => shift_model(m, 1, 0),
        Intent::RotateCw => rotate_model(m),
        Intent::SoftDrop => soft_drop_model(m),
        Intent::Pause => if m.phase is Playing {
            SessionModel { phase: GamePhase::Paused, ..m }
        } else {
            m
        },
        Intent::Resume => if m.phase is Paused {
            SessionModel { phase: GamePhase::Playing, ..m }
        } else {
            m
        },
        Intent::Restart => reset_model(m, GamePhase::Restarted),
        Intent::ReturnToMenu => if m.phase is GameOver || m.phase is Paused {
            reset_model(m, GamePhase::MainMenu)
        } else {
            m
        },
    }
}

/// The state a fresh session starts in: main menu, empty board, first
/// queued kind drawn from the seed.
pub open spec fn initial_model(seed: u64) -> SessionModel {
    SessionModel {
        grid: empty_grid(BOARD_WIDTH as int, BOARD_HEIGHT as int),
        active: None,
        next: kind_for(rng_next(seed)),
        rng: rng_next(seed),
        score: 0,
        lines: 0,
        phase: GamePhase::MainMenu,
        play: PlayState::Falling,
        gravity_timer: 0,
        lock_timer: 0,
    }
}

/// Within a session, score and lines never decrease across a tick.
pub proof fn lemma_tick_monotonic(m: SessionModel)
    ensures
        tick_model(m).0.score >= m.score,
        tick_model(m).0.lines >= m.lines,
{
}

/// An intent either leaves score and lines untouched, or it is a session
/// reset (restart or return to the menu) and both drop to zero together.
pub proof fn lemma_intent_score_reset(m: SessionModel, it: Intent)
    ensures
        (intent_model(m, it).score == m.score && intent_model(m, it).lines == m.lines)
            || ((it is Restart || it is ReturnToMenu)
                && intent_model(m, it).score == 0 && intent_model(m, it).lines == 0),
{
}

/// The invariant holds of a fresh session and is preserved by every tick
/// and by every intent.
pub proof fn lemma_inv_preserved(m: SessionModel, it: Intent, seed: u64)
    requires
        session_inv(m),
    ensures
        session_inv(initial_model(seed)),
        session_inv(tick_model(m).0),
        session_inv(intent_model(m, it)),
{
    lemma_empty_grid_wf();
    lemma_tick_inv(m);
    lemma_intent_inv(m, it);
}

proof fn lemma_empty_grid_wf()
    ensures
        grid_wf(
            empty_grid(BOARD_WIDTH as int, BOARD_HEIGHT as int),
            BOARD_WIDTH as int,
            BOARD_HEIGHT as int,
        ),
{
}

proof fn lemma_tick_inv(m: SessionModel)
    requires
        session_inv(m),
    ensures
        session_inv(tick_model(m).0),
{
    let m2 = tick_model(m).0;
    if m.phase is Playing {
        match m.play {
            PlayState::Falling => {
                match m.active {
                    None => {
                        let p = spawn_piece(m.next);
                        if can_place_spec(m.grid, p) {
                            assert(piece_wf(p));
                        }
                    },
                    Some(p) => {
                        if m.gravity_timer + 1 >= GRAVITY_PERIOD_TICKS {
                            if can_place_spec(m.grid, piece_down(p)) {
                                assert(piece_wf(piece_down(p)));
                            }
                        }
                    },
                }
            },
            PlayState::Locking => {
                match m.active {
                    None => {},
                    Some(p) => {
                        if !can_place_spec(m.grid, piece_down(p))
                            && m.lock_timer + 1 >= LOCK_DELAY_TICKS {
                            crate::piece::lemma_piece_cells_len(p);
                            crate::piece::lemma_piece_cells_distinct(p);
                            crate::grid::lemma_place_cells_count(m.grid, piece_cells(p), p.kind, 4);
                            assert(grid_wf(m2.grid, BOARD_WIDTH as int, BOARD_HEIGHT as int));
                        }
                    },
                }
            },
            PlayState::ClearingLines => {
                let fulls = full_rows_upto(m.grid, m.grid.len() as int);
                if fulls.len() > 0 {
                    crate::grid::lemma_collapse_wf(
                        m.grid,
                        fulls,
                        BOARD_WIDTH as int,
                        BOARD_HEIGHT as int,
                    );
                }
            },
        }
    }
}

proof fn lemma_intent_inv(m: SessionModel, it: Intent)
    requires
        session_inv(m),
    ensures
        session_inv(intent_model(m, it)),
{
    lemma_empty_grid_wf();
}

/// The line-clear step clears every currently full row in a single pass:
/// immediately after it, the board has no full row at all.
pub proof fn lemma_clearing_leaves_no_full_row(m: SessionModel)
    requires
        session_inv(m),
    ensures
        forall|r: int|
            0 <= r < tick_clearing(m).0.grid.len()
                ==> !crate::grid::row_full(#[trigger] tick_clearing(m).0.grid[r]),
{
    let fulls = full_rows_upto(m.grid, m.grid.len() as int);
    assert forall|r: int|
        0 <= r < m.grid.len() && crate::grid::row_full(#[trigger] m.grid[r])
        implies fulls.contains(r as usize) by {
        crate::grid::lemma_full_rows_upto_membership(m.grid, m.grid.len() as int, r);
    }
    if fulls.len() > 0 {
        crate::grid::lemma_collapse_clears_all(m.grid, fulls, BOARD_WIDTH as int, BOARD_HEIGHT as int);
    } else {
        assert forall|r: int|
            0 <= r < m.grid.len() implies !crate::grid::row_full(#[trigger] m.grid[r]) by {
            if crate::grid::row_full(m.grid[r]) {
                assert(fulls.contains(r as usize));
            }
        }
    }
}

/// Bounds on the anchor of any piece the collision rules accept on a
/// standard well: enough room that one further step stays within i32.
pub proof fn lemma_active_piece_bounds(g: GridModel, p: Piece)
    requires
        grid_wf(g, BOARD_WIDTH as int, BOARD_HEIGHT as int),
        piece_wf(p),
        can_place_spec(g, p),
    ensures
        -4 < p.col < BOARD_WIDTH,
        -4 < p.row < BOARD_HEIGHT,
{
    crate::piece::lemma_piece_cells_len(p);
    crate::piece::lemma_offsets_in_box(p.kind, p.rot as int);
    let c0 = piece_cells(p)[0];
    assert(crate::grid::cell_open(g, c0.0, c0.1));
    let o0 = crate::piece::offsets_after(p.kind, p.rot as int)[0];
    assert(c0 == (p.col + o0.0, p.row + o0.1));
    assert(0 <= c0.1 < g.len());
    assert(g[c0.1].len() == BOARD_WIDTH as int);
    assert(0 <= c0.0 < BOARD_WIDTH as int);
    assert(0 <= o0.0 < crate::piece::box_size(p.kind));
    assert(0 <= o0.1 < crate::piece::box_size(p.kind));
    assert(crate::piece::box_size(p.kind) <= 4);
}

/// One running game session.
pub struct GameSession {
    grid: Grid,
    active: Option<Piece>,
    next: PieceKind,
    rng: u64,
    score: u64,
    lines: u64,
    phase: GamePhase,
    play: PlayState,
    gravity_timer: u64,
    lock_timer: u64,
}

impl View for GameSession {
    type V = SessionModel;

    closed spec fn view(&self) -> SessionModel {
        SessionModel {
            grid: self.grid.contents(),
            active: self.active,
            next: self.next,
            rng: self.rng,
            score: self.score,
            lines: self.lines,
            phase: self.phase,
            play: self.play,
            gravity_timer: self.gravity_timer,
            lock_timer: self.lock_timer,
        }
    }
}

impl GameSession {
    /// The session's board is a real well of the standard dimensions and
    /// the abstract invariant holds.
    pub closed spec fn wf(&self) -> bool {
        &&& self.grid.wf()
        &&& self.grid.width_spec() == BOARD_WIDTH
        &&& self.grid.height_spec() == BOARD_HEIGHT
        &&& session_inv(self@)
    }

    /// A fresh session: main menu, empty board, next kind drawn from the
    /// seed. The same seed always yields the same sequence of kinds.
    pub fn new(seed: u64) -> (s: GameSession)
        ensures
            s.wf(),
            session_inv(s@),
            s@ == initial_model(seed),
    {
        let r1 = rng_step(seed);
        let s = GameSession {
            grid: Grid::new(BOARD_WIDTH, BOARD_HEIGHT),
            active: None,
            next: kind_from(r1),
            rng: r1,
            score: 0,
            lines: 0,
            phase: GamePhase::MainMenu,
            play: PlayState::Falling,
            gravity_timer: 0,
            lock_timer: 0,
        };
        proof {
            s.grid.lemma_wf();
            assert(s@ =~= initial_model(seed));
        }
        s
    }

    /// Resume a session from a snapshot: a well-formed board, an active
    /// piece the collision rules accept (or none), and the counters.
    pub fn from_state(
        grid: Grid,
        active: Option<Piece>,
        next: PieceKind,
        score: u64,
        lines: u64,
        seed: u64,
    ) -> (s: GameSession)
        requires
            grid.wf(),
            grid.width_spec() == BOARD_WIDTH,
            grid.height_spec() == BOARD_HEIGHT,
            (active matches Some(p) ==> piece_wf(p) && can_place_spec(grid.contents(), p)),
        ensures
            s.wf(),
            session_inv(s@),
            s@ == (SessionModel {
                grid: grid.contents(),
                active,
                next,
                rng: seed,
                score,
                lines,
                phase: GamePhase::Playing,
                play: PlayState::Falling,
                gravity_timer: 0,
                lock_timer: 0,
            }),
    {
        let s = GameSession {
            grid,
            active,
            next,
            rng: seed,
            score,
            lines,
            phase: GamePhase::Playing,
            play: PlayState::Falling,
            gravity_timer: 0,
            lock_timer: 0,
        };
        proof {
            s.grid.lemma_wf();
        }
        s
    }

    pub fn score(&self) -> (v: u64)
        ensures
            v == self@.score,
    {
        self.score
    }

    pub fn lines_cleared(&self) -> (v: u64)
        ensures
            v == self@.lines,
    {
        self.lines
    }

    pub fn phase(&self) -> (v: GamePhase)
        ensures
            v == self@.phase,
    {
        self.phase
    }

    pub fn play_state(&self) -> (v: PlayState)
        ensures
            v == self@.play,
    {
        self.play
    }

    pub fn next_piece_kind(&self) -> (v: PieceKind)
        ensures
            v == self@.next,
    {
        self.next
    }

    pub fn active_piece(&self) -> (v: Option<Piece>)
        ensures
            v == self@.active,
    {
        self.active
    }

    /// One cell of the board snapshot.
    pub fn grid_cell(&self, col: usize, row: usize) -> (v: Option<PieceKind>)
        requires
            self.wf(),
            col < BOARD_WIDTH,
            row < BOARD_HEIGHT,
        ensures
            v == self@.grid[row as int][col as int],
    {
        self.grid.cell(col, row)
    }

    /// The cells of the active piece with its colour marker, or an empty
    /// list when no piece is in flight.
    pub fn active_piece_cells(&self) -> (v: Vec<(usize, usize, PieceKind)>)
        requires
            self.wf(),
        ensures
            (match self@.active {
                None => v@.len() == 0,
                Some(p) => {
                    &&& v@.len() == 4
                    &&& forall|i: int|
                        0 <= i < 4
                            ==> ((#[trigger] v@[i]).0 as int, v@[i].1 as int) == piece_cells(p)[i]
                                && v@[i].2 == p.kind
                },
            }),
    {
        match self.active {
            None => Vec::new(),
            Some(p) => {
                proof {
                    self.grid.lemma_wf();
                    crate::piece::lemma_piece_cells_len(p);
                }
                let mut v: Vec<(usize, usize, PieceKind)> = Vec::new();
                let mut i: usize = 0;
                while i < 4
                    invariant
                        i <= 4,
                        piece_wf(p),
                        can_place_spec(self@.grid, p),
                        grid_wf(self@.grid, BOARD_WIDTH as int, BOARD_HEIGHT as int),
                        piece_cells(p).len() == 4,
                        v@.len() == i,
                        forall|j: int|
                            0 <= j < i
                                ==> ((#[trigger] v@[j]).0 as int, v@[j].1 as int)
                                    == piece_cells(p)[j] && v@[j].2 == p.kind,
                    decreases 4 - i,
                {
                    let o = crate::piece::offset_at(p.kind, p.rot, i);
                    let c: i64 = p.col as i64 + o.0 as i64;
                    let r: i64 = p.row as i64 + o.1 as i64;
                    proof {
                        assert(piece_cells(p)[i as int] == (p.col + o.0 as int, p.row + o.1 as int));
                        assert(crate::grid::cell_open(self@.grid, c as int, r as int));
                        assert(self@.grid[r as int].len() == BOARD_WIDTH as int);
                    }
                    v.push((c as usize, r as usize, p.kind));
                    i += 1;
                }
                v
            },
        }
    }

    /// One scheduler tick: gravity, settling, locking and line clearing,
    /// exactly as `tick_model` describes.
    pub fn tick(&mut self) -> (ev: Option<GameEvent>)
        requires
            old(self).wf(),
        ensures
            final(self).wf(),
            session_inv(final(self)@),
            final(self)@ == tick_model(old(self)@).0,
            ev == tick_model(old(self)@).1,
    {
        proof {
            self.grid.lemma_wf();
            lemma_tick_inv(self@);
        }
        match self.phase {
            GamePhase::MainMenu => None,
            GamePhase::Paused => None,
            GamePhase::GameOver => None,
            GamePhase::Restarted => {
                self.phase = GamePhase::Playing;
                proof {
                    assert(self@ =~= tick_model(old(self)@).0);
                }
                None
            },
            GamePhase::Playing => {
                match self.play {
                    PlayState::Falling => {
                        match self.active {
                            None => {
                                let p = Piece {
                                    kind: self.next,
                                    rot: 0,
                                    col: SPAWN_COL,
                                    row: SPAWN_ROW,
                                };
                                if can_place(&self.grid, &p) {
                                    self.active = Some(p);
                                    let r2 = rng_step(self.rng);
                                    self.rng = r2;
                                    self.next = kind_from(r2);
                                    self.gravity_timer = 0;
                                    proof {
                                        assert(self@ =~= tick_model(old(self)@).0);
                                    }
                                    None
                                } else {
                                    self.phase = GamePhase::GameOver;
                                    proof {
                                        assert(self@ =~= tick_model(old(self)@).0);
                                    }
                                    Some(GameEvent::GameOver)
                                }
                            },
                            Some(p) => {
                                proof {
                                    lemma_active_piece_bounds(self@.grid, p);
                                }
                                if self.gravity_timer + 1 >= GRAVITY_PERIOD_TICKS {
                                    let q = p.translated(0, 1);
                                    if can_place(&self.grid, &q) {
                                        self.active = Some(q);
                                        self.gravity_timer = 0;
                                        proof {
                                            assert(q == piece_down(p));
                                            assert(self@ =~= tick_model(old(self)@).0);
                                        }
                                        None
                                    } else {
                                        self.play = PlayState::Locking;
                                        self.gravity_timer = 0;
                                        self.lock_timer = 0;
                                        proof {
                                            assert(q == piece_down(p));
                                            assert(self@ =~= tick_model(old(self)@).0);
                                        }
                                        None
                                    }
                                } else {
                                    self.gravity_timer = self.gravity_timer + 1;
                                    proof {
                                        assert(self@ =~= tick_model(old(self)@).0);
                                    }
                                    None
                                }
                            },
                        }
                    },
                    PlayState::Locking => {
                        match self.active {
                            None => {
                                self.play = PlayState::Falling;
                                proof {
                                    assert(self@ =~= tick_model(old(self)@).0);
                                }
                                None
                            },
                            Some(p) => {
                                proof {
                                    lemma_active_piece_bounds(self@.grid, p);
                                }
                                let q = p.translated(0, 1);
                                proof {
                                    assert(q == piece_down(p));
                                }
                                if can_place(&self.grid, &q) {
                                    self.play = PlayState::Falling;
                                    self.gravity_timer = 0;
                                    self.lock_timer = 0;
                                    proof {
                                        assert(self@ =~= tick_model(old(self)@).0);
                                    }
                                    None
                                } else if self.lock_timer + 1 >= LOCK_DELAY_TICKS {
                                    lock_piece(&mut self.grid, &p);
                                    self.active = None;
                                    self.play = PlayState::ClearingLines;
                                    self.lock_timer = 0;
                                    proof {
                                        self.grid.lemma_wf();
                                        assert(self@ =~= tick_model(old(self)@).0);
                                    }
                                    Some(GameEvent::PieceLocked)
                                } else {
                                    self.lock_timer = self.lock_timer + 1;
                                    proof {
                                        assert(self@ =~= tick_model(old(self)@).0);
                                    }
                                    None
                                }
                            },
                        }
                    },
                    PlayState::ClearingLines => {
                        let fulls = self.grid.full_rows();
                        let n = fulls.len();
                        if n > 0 {
                            self.grid.clear_rows_and_collapse(&fulls);
                            self.lines = sat_add_u64(self.lines, n as u64);
                            self.score = sat_add_u64(self.score, line_score_for(n));
                            self.play = PlayState::Falling;
                            proof {
                                self.grid.lemma_wf();
                                assert(self@ =~= tick_model(old(self)@).0);
                            }
                            Some(GameEvent::LinesCleared(n as u64))
                        } else {
                            self.play = PlayState::Falling;
                            proof {
                                assert(self@ =~= tick_model(old(self)@).0);
                            }
                            None
                        }
                    },
                }
            },
        }
    }

    /// Apply one input intent, exactly as `intent_model` describes:
    /// rejected moves and rotations are silent no-ops.
    pub fn apply_intent(&mut self, intent: Intent)
        requires
            old(self).wf(),
        ensures
            final(self).wf(),
            session_inv(final(self)@),
            final(self)@ == intent_model(old(self)@, intent),
    {
        proof {
            self.grid.lemma_wf();
            lemma_intent_inv(self@, intent);
        }
        match intent {
            Intent::MoveLeft => self.try_shift(-1, 0),
            Intent::MoveRight => self.try_shift(1, 0),
            Intent::RotateCw => self.try_rotate(),
            Intent::SoftDrop => self.try_soft_drop(),
            Intent::Pause => {
                if matches!(self.phase, GamePhase::Playing) {
                    self.phase = GamePhase::Paused;
                }
                proof {
                    assert(self@ =~= intent_model(old(self)@, intent));
                }
            },
            Intent::Resume => {
                if matches!(self.phase, GamePhase::Paused) {
                    self.phase = GamePhase::Playing;
                }
                proof {
                    assert(self@ =~= intent_model(old(self)@, intent));
                }
            },
            Intent::Restart => {
                self.reset(GamePhase::Restarted);
                proof {
                    assert(self@ =~= intent_model(old(self)@, intent));
                }
            },
            Intent::ReturnToMenu => {
                if matches!(self.phase, GamePhase::GameOver)
                    || matches!(self.phase, GamePhase::Paused) {
                    self.reset(GamePhase::MainMenu);
                    proof {
                        assert(self@ =~= intent_model(old(self)@, intent));
                    }
                } else {
                    proof {
                        assert(self@ =~= intent_model(old(self)@, intent));
                    }
                }
            },
        }
    }

    /// Atomic session reset: board cleared, piece gone, score and lines
    /// zeroed, timers zeroed, before the phase flips.
    fn reset(&mut self, ph: GamePhase)
        requires
            old(self).wf(),
        ensures
            final(self).wf(),
            final(self)@ == reset_model(old(self)@, ph),
    {
        self.grid.clear_all();
        self.active = None;
        self.score = 0;
        self.lines = 0;
        self.phase = ph;
        self.play = PlayState::Falling;
        self.gravity_timer = 0;
        self.lock_timer = 0;
        proof {
            self.grid.lemma_wf();
            assert(self@ =~= reset_model(old(self)@, ph));
        }
    }

    fn try_shift(&mut self, dx: i32, dy: i32)
        requires
            old(self).wf(),
            -1 <= dx <= 1,
            0 <= dy <= 1,
        ensures
            final(self).wf(),
            final(self)@ == shift_model(old(self)@, dx as int, dy as int),
    {
        proof {
            self.grid.lemma_wf();
            lemma_intent_inv_shift(self@, dx as int, dy as int);
        }
        if matches!(self.phase, GamePhase::Playing) {
            match self.active {
                Some(p) => {
                    proof {
                        lemma_active_piece_bounds(self@.grid, p);
                    }
                    let q = p.translated(dx, dy);
                    if can_place(&self.grid, &q) {
                        self.active = Some(q);
                    }
                    proof {
                        assert(self@ =~= shift_model(old(self)@, dx as int, dy as int));
                    }
                },
                None => {
                    proof {
                        assert(self@ =~= shift_model(old(self)@, dx as int, dy as int));
                    }
                },
            }
        } else {
            proof {
                assert(self@ =~= shift_model(old(self)@, dx as int, dy as int));
            }
        }
    }

    fn try_rotate(&mut self)
        requires
            old(self).wf(),
        ensures
            final(self).wf(),
            final(self)@ == rotate_model(old(self)@),
    {
        proof {
            self.grid.lemma_wf();
        }
        if matches!(self.phase, GamePhase::Playing) {
            match self.active {
                Some(p) => {
                    let q = p.rotated();
                    if can_place(&self.grid, &q) {
                        self.active = Some(q);
                    }
                    proof {
                        assert(self@ =~= rotate_model(old(self)@));
                    }
                },
                None => {
                    proof {
                        assert(self@ =~= rotate_model(old(self)@));
                    }
                },
            }
        } else {
            proof {
                assert(self@ =~= rotate_model(old(self)@));
            }
        }
    }

    fn try_soft_drop(&mut self)
        requires
            old(self).wf(),
        ensures
            final(self).wf(),
            final(self)@ == soft_drop_model(old(self)@),
    {
        proof {
            self.grid.lemma_wf();
        }
        if matches!(self.phase, GamePhase::Playing) {
            match self.active {
                Some(p) => {
                    proof {
                        lemma_active_piece_bounds(self@.grid, p);
                    }
                    let q = p.translated(0, 1);
                    proof {
                        assert(q == piece_down(p));
                    }
                    if can_place(&self.grid, &q) {
                        self.active = Some(q);
                        self.gravity_timer = 0;
                        self.lock_timer = 0;
                        self.play = PlayState::Falling;
                    }
                    proof {
                        assert(self@ =~= soft_drop_model(old(self)@));
                    }
                },
                None => {
                    proof {
                        assert(self@ =~= soft_drop_model(old(self)@));
                    }
                },
            }
        } else {
            proof {
                assert(self@ =~= soft_drop_model(old(self)@));
            }
        }
    }
}

proof fn lemma_intent_inv_shift(m: SessionModel, dx: int, dy: int)
    requires
        session_inv(m),
    ensures
        session_inv(shift_model(m, dx, dy)),
{
}

/// The linear-congruential step, computed exactly in 128-bit arithmetic.
fn rng_step(s: u64) -> (r: u64)
    ensures
        r == rng_next(s),
{
    let wide: u128 = (s as u128) * 0x5851_f42d_4c95_7f2d + 0x1405_7b7e_f767_814f;
    proof {
        assert((s as int) * 0x5851_f42d_4c95_7f2d <= (u64::MAX as int) * 0x5851_f42d_4c95_7f2d)
            by (nonlinear_arith)
            requires s <= u64::MAX;
    }
    (wide % 0x1_0000_0000_0000_0000) as u64
}

/// The kind one random word selects.
fn kind_from(r: u64) -> (k: PieceKind)
    ensures
        k == kind_for(r),
{
    let i: u64 = r % 7;
    if i == 0 {
        PieceKind::I
    } else if i == 1 {
        PieceKind::O
    } else if i == 2 {
        PieceKind::T
    } else if i == 3 {
        PieceKind::S
    } else if i == 4 {
        PieceKind::Z
    } else if i == 5 {
        PieceKind::J
    } else {
        PieceKind::L
    }
}

/// Saturating addition on 64-bit counters.
fn sat_add_u64(a: u64, b: u64) -> (r: u64)
    ensures
        r == sat_add_spec(a, b),
{
    if a > u64::MAX - b {
        u64::MAX
    } else {
        a + b
    }
}

/// Score awarded for `n` rows cleared at once.
fn line_score_for(n: usize) -> (v: u64)
    ensures
        v == line_score(n as int),
{
    if n == 0 {
        0
    } else if n == 1 {
        100
    } else if n == 2 {
        300
    } else if n == 3 {
        500
    } else {
        800
    }
}

} // verus!
