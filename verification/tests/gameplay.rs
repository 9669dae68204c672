use tetris_core::grid::Grid;
use tetris_core::piece::{Piece, PieceKind};
use tetris_core::session::{GameEvent, GamePhase, GameSession, Intent, PlayState};

fn empty_board() -> Grid {
    Grid::new(10, 20)
}

fn session_occupied_count(s: &GameSession) -> usize {
    let mut n = 0usize;
    for row in 0..20 {
        for col in 0..10 {
            if s.grid_cell(col, row).is_some() {
                n += 1;
            }
        }
    }
    n
}

/// Ticks the session until the piece in flight has locked and its rows
/// have been examined, returning the events seen.
fn run_until_after_clear(s: &mut GameSession, max_ticks: usize) -> Vec<GameEvent> {
    let mut events = Vec::new();
    for _ in 0..max_ticks {
        if let Some(ev) = s.tick() {
            let done = matches!(ev, GameEvent::LinesCleared(_));
            events.push(ev);
            if done {
                return events;
            }
        }
    }
    events
}

#[test]
fn completing_the_bottom_row_clears_one_line_and_scores() {
    // Bottom row full except its two rightmost cells; an O piece whose
    // bottom cells complete the row clears exactly one line for 100 points.
    let mut g = empty_board();
    for col in 0..8 {
        g.set_cell(col, 19, PieceKind::J);
    }
    let o = Piece { kind: PieceKind::O, rot: 0, col: 8, row: 18 };
    let mut s = GameSession::from_state(g, Some(o), PieceKind::T, 0, 0, 1);
    let before = session_occupied_count(&s);
    let events = run_until_after_clear(&mut s, 40);
    assert_eq!(events, vec![GameEvent::PieceLocked, GameEvent::LinesCleared(1)]);
    assert_eq!(s.lines_cleared(), 1);
    assert_eq!(s.score(), 100);
    // The surviving two cells of the O fell onto the new bottom row.
    assert_eq!(s.grid_cell(8, 19), Some(PieceKind::O));
    assert_eq!(s.grid_cell(9, 19), Some(PieceKind::O));
    assert_eq!(session_occupied_count(&s), before + 4 - 10);
}

#[test]
fn locking_changes_the_occupied_count_by_exactly_four() {
    let mut g = empty_board();
    g.set_cell(0, 19, PieceKind::S);
    let t = Piece { kind: PieceKind::T, rot: 0, col: 4, row: 18 };
    let mut s = GameSession::from_state(g, Some(t), PieceKind::T, 0, 0, 1);
    let before = session_occupied_count(&s);
    let mut locked = false;
    for _ in 0..40 {
        if s.tick() == Some(GameEvent::PieceLocked) {
            locked = true;
            break;
        }
    }
    assert!(locked);
    assert_eq!(session_occupied_count(&s), before + 4);
}

#[test]
fn blocked_spawn_ends_the_game_with_no_active_piece() {
    // The spawn cells are occupied: the first tick that tries to spawn
    // moves straight to GameOver and no piece appears.
    let mut g = empty_board();
    g.set_cell(4, 0, PieceKind::Z);
    let mut s = GameSession::from_state(g, None, PieceKind::I, 0, 0, 1);
    let ev = s.tick();
    assert_eq!(ev, Some(GameEvent::GameOver));
    assert_eq!(s.phase(), GamePhase::GameOver);
    assert_eq!(s.active_piece(), None);
    assert!(s.active_piece_cells().is_empty());
}

#[test]
fn move_left_at_the_wall_is_a_silent_no_op() {
    let t = Piece { kind: PieceKind::T, rot: 0, col: 0, row: 0 };
    let mut s = GameSession::from_state(empty_board(), Some(t), PieceKind::T, 0, 0, 1);
    s.apply_intent(Intent::MoveLeft);
    assert_eq!(s.active_piece(), Some(t));
    s.apply_intent(Intent::MoveRight);
    assert_eq!(s.active_piece(), Some(Piece { kind: PieceKind::T, rot: 0, col: 1, row: 0 }));
}

#[test]
fn four_simultaneous_clears_score_the_tetris_bonus() {
    // Rows 5 to 8 are full; the piece locks far above them, the four rows
    // clear together, and the bonus is 800, not four times 100.
    let mut g = empty_board();
    for row in 5..9 {
        for col in 0..10 {
            g.set_cell(col, row, PieceKind::L);
        }
    }
    let o = Piece { kind: PieceKind::O, rot: 0, col: 0, row: 0 };
    let mut s = GameSession::from_state(g, Some(o), PieceKind::T, 0, 0, 1);
    // Soft-drop until the piece rests on the filled block.
    for _ in 0..3 {
        s.apply_intent(Intent::SoftDrop);
    }
    let events = run_until_after_clear(&mut s, 40);
    assert_eq!(events, vec![GameEvent::PieceLocked, GameEvent::LinesCleared(4)]);
    assert_eq!(s.lines_cleared(), 4);
    assert_eq!(s.score(), 800);
    // Everything above row 5 fell by four rows: the O now sits at rows 7
    // and 8, and nothing else remains.
    assert_eq!(s.grid_cell(0, 7), Some(PieceKind::O));
    assert_eq!(s.grid_cell(1, 7), Some(PieceKind::O));
    assert_eq!(s.grid_cell(0, 8), Some(PieceKind::O));
    assert_eq!(s.grid_cell(1, 8), Some(PieceKind::O));
    assert_eq!(session_occupied_count(&s), 4);
}

#[test]
fn two_simultaneous_clears_score_three_hundred() {
    let mut g = empty_board();
    for col in 0..8 {
        g.set_cell(col, 18, PieceKind::J);
        g.set_cell(col, 19, PieceKind::J);
    }
    let o = Piece { kind: PieceKind::O, rot: 0, col: 8, row: 18 };
    let mut s = GameSession::from_state(g, Some(o), PieceKind::T, 0, 0, 1);
    let events = run_until_after_clear(&mut s, 40);
    assert_eq!(events, vec![GameEvent::PieceLocked, GameEvent::LinesCleared(2)]);
    assert_eq!(s.lines_cleared(), 2);
    assert_eq!(s.score(), 300);
    assert_eq!(session_occupied_count(&s), 0);
}

#[test]
fn gravity_moves_the_piece_one_row_per_period() {
    let i = Piece { kind: PieceKind::I, rot: 0, col: 3, row: 0 };
    let mut s = GameSession::from_state(empty_board(), Some(i), PieceKind::T, 0, 0, 1);
    for _ in 0..10 {
        s.tick();
    }
    assert_eq!(s.active_piece().map(|p| p.row), Some(1));
    for _ in 0..10 {
        s.tick();
    }
    assert_eq!(s.active_piece().map(|p| p.row), Some(2));
}

#[test]
fn soft_drop_moves_down_immediately_and_stops_at_the_stack() {
    let i = Piece { kind: PieceKind::I, rot: 0, col: 3, row: 0 };
    let mut s = GameSession::from_state(empty_board(), Some(i), PieceKind::T, 0, 0, 1);
    s.apply_intent(Intent::SoftDrop);
    assert_eq!(s.active_piece().map(|p| p.row), Some(1));
    for _ in 0..30 {
        s.apply_intent(Intent::SoftDrop);
    }
    // The bar rests on the floor and soft drops become no-ops.
    assert_eq!(s.active_piece().map(|p| p.row), Some(19));
}

#[test]
fn blocked_rotation_is_a_silent_no_op() {
    let mut g = empty_board();
    g.set_cell(9, 1, PieceKind::Z);
    let t = Piece { kind: PieceKind::T, rot: 0, col: 7, row: 0 };
    let mut s = GameSession::from_state(g, Some(t), PieceKind::T, 0, 0, 1);
    s.apply_intent(Intent::RotateCw);
    assert_eq!(s.active_piece(), Some(t));
}

#[test]
fn allowed_rotation_commits_at_the_same_anchor() {
    let t = Piece { kind: PieceKind::T, rot: 0, col: 7, row: 0 };
    let mut s = GameSession::from_state(empty_board(), Some(t), PieceKind::T, 0, 0, 1);
    s.apply_intent(Intent::RotateCw);
    assert_eq!(s.active_piece(), Some(Piece { kind: PieceKind::T, rot: 1, col: 7, row: 0 }));
}

#[test]
fn pause_freezes_the_session_and_resume_restores_it() {
    let i = Piece { kind: PieceKind::I, rot: 0, col: 3, row: 0 };
    let mut s = GameSession::from_state(empty_board(), Some(i), PieceKind::T, 0, 0, 1);
    s.apply_intent(Intent::Pause);
    assert_eq!(s.phase(), GamePhase::Paused);
    for _ in 0..25 {
        assert_eq!(s.tick(), None);
    }
    s.apply_intent(Intent::MoveRight);
    assert_eq!(s.active_piece(), Some(i));
    s.apply_intent(Intent::Resume);
    assert_eq!(s.phase(), GamePhase::Playing);
    for _ in 0..10 {
        s.tick();
    }
    assert_eq!(s.active_piece().map(|p| p.row), Some(1));
}

#[test]
fn restart_resets_score_lines_and_board_before_play_resumes() {
    let mut g = empty_board();
    for col in 0..8 {
        g.set_cell(col, 19, PieceKind::J);
    }
    let o = Piece { kind: PieceKind::O, rot: 0, col: 8, row: 18 };
    let mut s = GameSession::from_state(g, Some(o), PieceKind::T, 0, 0, 1);
    run_until_after_clear(&mut s, 40);
    assert_eq!(s.score(), 100);
    s.apply_intent(Intent::Restart);
    assert_eq!(s.phase(), GamePhase::Restarted);
    assert_eq!(s.score(), 0);
    assert_eq!(s.lines_cleared(), 0);
    assert_eq!(s.active_piece(), None);
    assert_eq!(session_occupied_count(&s), 0);
    assert_eq!(s.tick(), None);
    assert_eq!(s.phase(), GamePhase::Playing);
    // The next tick spawns a fresh piece at the top of the well.
    s.tick();
    assert!(s.active_piece().is_some());
    assert_eq!(s.play_state(), PlayState::Falling);
}

#[test]
fn return_to_menu_from_game_over_resets_the_session() {
    let mut g = empty_board();
    g.set_cell(4, 0, PieceKind::Z);
    let mut s = GameSession::from_state(g, None, PieceKind::I, 7, 3, 1);
    s.tick();
    assert_eq!(s.phase(), GamePhase::GameOver);
    s.apply_intent(Intent::ReturnToMenu);
    assert_eq!(s.phase(), GamePhase::MainMenu);
    assert_eq!(s.score(), 0);
    assert_eq!(s.lines_cleared(), 0);
    assert_eq!(session_occupied_count(&s), 0);
    // The menu is quiescent.
    assert_eq!(s.tick(), None);
    assert_eq!(s.phase(), GamePhase::MainMenu);
}

#[test]
fn score_and_lines_never_decrease_within_a_session() {
    let mut g = empty_board();
    for col in 0..8 {
        g.set_cell(col, 19, PieceKind::J);
    }
    let o = Piece { kind: PieceKind::O, rot: 0, col: 8, row: 18 };
    let mut s = GameSession::from_state(g, Some(o), PieceKind::T, 0, 0, 5);
    let mut last_score = s.score();
    let mut last_lines = s.lines_cleared();
    let intents = [Intent::MoveLeft, Intent::SoftDrop, Intent::MoveRight, Intent::RotateCw];
    for step in 0..200 {
        if step % 3 == 0 {
            s.apply_intent(intents[(step / 3) % intents.len()]);
        } else {
            s.tick();
        }
        assert!(s.score() >= last_score);
        assert!(s.lines_cleared() >= last_lines);
        last_score = s.score();
        last_lines = s.lines_cleared();
    }
}

#[test]
fn same_seed_yields_the_same_piece_sequence() {
    let mut a = GameSession::new(42);
    let mut b = GameSession::new(42);
    assert_eq!(a.next_piece_kind(), b.next_piece_kind());
    a.apply_intent(Intent::Restart);
    b.apply_intent(Intent::Restart);
    for _ in 0..300 {
        let ea = a.tick();
        let eb = b.tick();
        assert_eq!(ea, eb);
        assert_eq!(a.next_piece_kind(), b.next_piece_kind());
        assert_eq!(a.active_piece(), b.active_piece());
    }
}

#[test]
fn new_session_starts_in_the_main_menu_with_zeroed_counters() {
    let s = GameSession::new(7);
    assert_eq!(s.phase(), GamePhase::MainMenu);
    assert_eq!(s.score(), 0);
    assert_eq!(s.lines_cleared(), 0);
    assert_eq!(s.active_piece(), None);
    assert_eq!(session_occupied_count(&s), 0);
}

#[test]
fn active_piece_cells_report_position_and_kind() {
    let t = Piece { kind: PieceKind::T, rot: 0, col: 3, row: 5 };
    let s = GameSession::from_state(empty_board(), Some(t), PieceKind::T, 0, 0, 1);
    let cells = s.active_piece_cells();
    assert_eq!(cells, vec![
        (3, 5, PieceKind::T),
        (4, 5, PieceKind::T),
        (5, 5, PieceKind::T),
        (4, 6, PieceKind::T),
    ]);
}
