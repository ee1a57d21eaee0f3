use kekchess::driver::{Deepening, IterationReport};
use kekchess::eval::{evaluate, INF, MATE, MATED, NEG_INF};
use kekchess::moves::Move;
use kekchess::position::Position;
use kekchess::quiescence::{neg, quiesce};
use kekchess::search::{Engine, TABLE_SLOTS};
use kekchess::signal::StopSignal;

const NONE: Move = Move { from: 0, to: 0, promotion: None };

fn fen(text: &str) -> Position {
    Position::from_fen(text).expect("a position")
}

fn quiet(from: u8, to: u8) -> Move {
    Move { from, to, promotion: None }
}

fn engine() -> Engine {
    Engine::with_capacity(1 << 16, 1 << 12)
}

fn play(pos: &Position, moves: &[Move]) -> (Position, Vec<u64>) {
    let mut history = Vec::new();
    let mut pos = *pos;
    for m in moves {
        history.push(pos.key());
        pos = pos.try_move(*m).expect("a legal move");
    }
    (pos, history)
}

#[test]
fn negation_turns_the_lowest_score_into_the_highest() {
    assert_eq!(neg(5), -5);
    assert_eq!(neg(-MATE), MATE);
    assert_eq!(neg(0), 0);
    assert_eq!(neg(i32::MAX), i32::MIN + 1);
    assert_eq!(neg(i32::MIN), i32::MAX);
    assert_eq!(neg(NEG_INF), INF);
}

#[test]
fn quiescence_stands_pat_without_captures() {
    let pos = Position::startpos();
    assert_eq!(quiesce(NEG_INF, INF, &pos), 0);
    assert_eq!(quiesce(NEG_INF, INF, &pos), evaluate(&pos));
    // At or above beta the node is worth beta.
    assert_eq!(quiesce(-50, -10, &pos), -10);
    assert_eq!(quiesce(-50, 0, &pos), 0);
    // Below alpha and without captures it is worth its static score.
    assert_eq!(quiesce(30, 60, &pos), 0);
}

#[test]
fn quiescence_takes_what_hangs() {
    // White pawn e4 can take the queen on d5.
    let pos = fen("4k3/8/8/3q4/4P3/8/8/4K3 w - - 0 1");
    let stand = evaluate(&pos);
    // The queen on d5 reads the table at d4: 900 for the queen, 5 for the
    // square.
    assert_eq!(stand, 120 - 905);
    // After exd5: pawn on d5 is worth 100 + 25, and Black has nothing left.
    assert_eq!(quiesce(NEG_INF, INF, &pos), 125);
    assert_eq!(quiesce(NEG_INF, 50, &pos), 50);
}

#[test]
fn quiescence_sees_the_recapture() {
    // Knight takes pawn on e5, pawn d6 takes back.
    let pos = fen("4k3/8/3p4/4p3/8/5N2/8/4K3 w - - 0 1");
    let stand = evaluate(&pos);
    assert_eq!(quiesce(NEG_INF, INF, &pos), stand);
}

#[test]
fn a_new_engine_has_counted_nothing() {
    let e = engine();
    assert_eq!(e.pos_counter, 0);
    assert_eq!(e.cut_off_counter, 0);
    assert_eq!(e.nodes(), 0);
    assert_eq!(e.cutoffs(), 0);
    assert!(!e.stopped());
    assert_eq!(TABLE_SLOTS, 33_554_432);
}

#[test]
fn depth_one_from_the_start() {
    let mut e = engine();
    let pos = Position::startpos();
    let (score, best) = e.search(&pos, NEG_INF, INF, 1, &StopSignal::new());
    assert!(pos.legal_moves().contains(&best));
    assert!(e.nodes() >= 21);
    assert_eq!(e.nodes(), e.pos_counter);
    // The best first move by the tables brings a knight from b1 or g1
    // (-40) to c3 or f3 (10).
    assert_eq!(score, 50);
    assert!(best == quiet(1, 18) || best == quiet(6, 21));
    assert!(!e.stopped());
}

#[test]
fn mate_in_one() {
    let mut e = engine();
    let pos = fen("6k1/5ppp/8/8/8/8/5PPP/R5K1 w - - 0 1");
    for depth in 1..=3u16 {
        let (score, best) = e.search(&pos, NEG_INF, INF, depth, &StopSignal::new());
        assert_eq!(best, quiet(0, 56));
        assert!(score >= MATE);
    }
}

#[test]
fn a_mated_side_scores_the_mate() {
    let mated = fen("R5k1/5ppp/8/8/8/8/5PPP/6K1 b - - 0 1");
    for depth in 0..=3u16 {
        let mut e = engine();
        let (score, best) = e.search(&mated, NEG_INF, INF, depth, &StopSignal::new());
        assert_eq!(score, MATED);
        assert_eq!(score, -MATE);
        assert_eq!(best, NONE);
        assert_eq!(e.nodes(), 1);
    }
}

#[test]
fn stalemate_is_drawn() {
    let stale = fen("7k/5Q2/6K1/8/8/8/8/8 b - - 0 1");
    assert_eq!(stale.legal_moves().len(), 0);
    assert!(!stale.in_check());
    for depth in 0..=2u16 {
        let mut e = engine();
        let (score, best) = e.search(&stale, NEG_INF, INF, depth, &StopSignal::new());
        assert_eq!(score, 0);
        assert_eq!(best, NONE);
    }
    // From the parent: the move Qf7 leads to the stalemate and is worth 0
    // there, though White is a queen up.
    let parent = fen("7k/8/6K1/8/8/8/8/5Q2 w - - 0 1");
    let child = parent.try_move(quiet(5, 53)).expect("a legal move");
    assert_eq!(child.key(), stale.key());
    let mut e = engine();
    let (score, _) = e.search(&child, NEG_INF, INF, 1, &StopSignal::new());
    assert_eq!(score, 0);
}

#[test]
fn the_knight_does_not_take_the_guarded_pawn() {
    let pos = fen("rnbqkbnr/ppp2ppp/8/3pp3/4P3/5N2/PPPP1PPP/RNBQKB1R w KQkq - 0 3");
    for depth in 2..=3u16 {
        let mut e = engine();
        let (_, best) = e.search(&pos, NEG_INF, INF, depth, &StopSignal::new());
        assert!(pos.legal_moves().contains(&best));
        assert_ne!(best, quiet(21, 36));
    }
}

#[test]
fn a_third_visit_is_drawn() {
    let mut e = engine();
    let pos = fen("4k3/8/8/8/8/8/8/4KQ2 w - - 0 1");
    let key = pos.key();
    e.enter(key);
    e.enter(key);
    let before = e.nodes();
    let (score, best) = e.search(&pos, NEG_INF, INF, 3, &StopSignal::new());
    assert_eq!(score, 0);
    assert_eq!(best, NONE);
    assert_eq!(e.nodes(), before + 1);
    // With one visit behind it the position is searched.
    let mut e = engine();
    e.enter(key);
    let (score, best) = e.search(&pos, NEG_INF, INF, 1, &StopSignal::new());
    assert!(score > 800);
    assert!(pos.legal_moves().contains(&best));
}

#[test]
fn a_move_back_to_a_position_seen_twice_is_worth_nothing() {
    let start = Position::startpos();
    let round = [quiet(6, 21), quiet(62, 45), quiet(21, 6), quiet(45, 62)];
    let mut moves = Vec::new();
    moves.extend_from_slice(&round);
    moves.extend_from_slice(&round);
    let (root, history) = play(&start, &moves);
    assert_eq!(root.key(), start.key());
    assert_eq!(history.len(), 8);
    let mut e = engine();
    e.prepare(&history, root.key());
    // After Nf3 the position has been on the board twice.
    let child = root.try_move(quiet(6, 21)).expect("a legal move");
    let (score, best) = e.search(&child, NEG_INF, INF, 2, &StopSignal::new());
    assert_eq!(score, 0);
    assert_eq!(best, NONE);
    // After e4 it has not.
    let other = root.try_move(quiet(12, 28)).expect("a legal move");
    let (_, best) = e.search(&other, NEG_INF, INF, 1, &StopSignal::new());
    assert!(other.legal_moves().contains(&best));
    // The root itself is searched, and does not pick a move that repeats.
    let reports = e.iterative_deepening(2, &root, &history, &StopSignal::new());
    assert_eq!(reports.len(), 2);
    assert!(root.legal_moves().contains(&reports[1].best_move));
}

#[test]
fn the_table_settles_a_node_searched_before() {
    let mut e = engine();
    let pos = fen("6k1/5ppp/8/8/8/8/5PPP/R5K1 w - - 0 1");
    let signal = StopSignal::new();
    let first = e.search(&pos, NEG_INF, INF, 2, &signal);
    let nodes = e.nodes();
    let cutoffs = e.cutoffs();
    let second = e.search(&pos, NEG_INF, INF, 2, &signal);
    assert_eq!(first, second);
    assert_eq!(e.nodes(), nodes + 1);
    assert_eq!(e.cutoffs(), cutoffs + 1);
    assert_eq!(e.cutoffs(), e.cut_off_counter);
    // A deeper search is not settled by the shallower result.
    let before = e.nodes();
    e.search(&pos, NEG_INF, INF, 3, &signal);
    assert!(e.nodes() > before + 1);
}

#[test]
fn a_raised_signal_stops_the_search_at_once() {
    let mut e = engine();
    let signal = StopSignal::new();
    let other = signal.clone();
    other.raise();
    assert!(signal.is_raised());
    let (score, best) = e.search(&Position::startpos(), NEG_INF, INF, 4, &signal);
    assert_eq!((score, best), (0, NONE));
    assert!(e.stopped());
    assert_eq!(e.nodes(), 0);
    // A stopped engine stays stopped, whatever the signal says.
    let (score, best) = e.search(&Position::startpos(), NEG_INF, INF, 1, &StopSignal::new());
    assert_eq!((score, best), (0, NONE));
    assert_eq!(e.nodes(), 0);
    e.resume();
    assert!(!e.stopped());
    let (_, best) = e.search(&Position::startpos(), NEG_INF, INF, 1, &StopSignal::new());
    assert_ne!(best, NONE);
}

#[test]
fn every_depth_is_reported_in_rising_order() {
    let mut e = engine();
    let pos = Position::startpos();
    let reports = e.iterative_deepening(3, &pos, &Vec::new(), &StopSignal::new());
    assert_eq!(reports.len(), 3);
    let mut nodes = 0;
    for (i, r) in reports.iter().enumerate() {
        assert_eq!(r.depth as usize, i + 1);
        assert!(pos.legal_moves().contains(&r.best_move));
        assert!(r.nodes > nodes);
        nodes = r.nodes;
    }
    assert!(reports[0].nodes >= 21);
    assert_eq!(reports[0].score, 50);
    assert_eq!(e.nodes(), nodes);
    assert!(!e.stopped());
}

#[test]
fn no_depth_is_reported_after_the_signal() {
    let mut e = engine();
    let signal = StopSignal::new();
    signal.raise();
    let reports = e.iterative_deepening(5, &Position::startpos(), &Vec::new(), &signal);
    assert!(reports.is_empty());
    assert!(e.stopped());
    let reports = e.iterative_deepening(5, &Position::startpos(), &Vec::new(), &StopSignal::new());
    assert!(reports.is_empty());
}

#[test]
fn depth_zero_runs_no_iteration() {
    let mut e = engine();
    let reports = e.iterative_deepening(0, &Position::startpos(), &Vec::new(), &StopSignal::new());
    assert!(reports.is_empty());
    assert_eq!(e.nodes(), 0);
    assert!(Deepening::new(0).finished());
}

#[test]
fn a_run_steps_through_the_depths() {
    let mut e = engine();
    let pos = fen("6k1/5ppp/8/8/8/8/5PPP/R5K1 w - - 0 1");
    let signal = StopSignal::new();
    let history = Vec::new();
    let mut run = Deepening::new(2);
    assert!(!run.finished());
    let first = run.step(&mut e, &pos, &history, &signal).expect("a report");
    assert_eq!(first.depth, 1);
    assert_eq!(first.best_move, quiet(0, 56));
    assert!(first.score >= MATE);
    assert_eq!(first.nodes, e.nodes());
    let second = run.step(&mut e, &pos, &history, &signal).expect("a report");
    assert_eq!(second.depth, 2);
    assert!(run.finished());
    let nodes = e.nodes();
    assert_eq!(run.step(&mut e, &pos, &history, &signal), None);
    assert_eq!(e.nodes(), nodes);
}

#[test]
fn a_run_ends_when_the_signal_is_raised() {
    let mut e = engine();
    let pos = Position::startpos();
    let signal = StopSignal::new();
    let history = Vec::new();
    let mut run = Deepening::new(10);
    let first = run.step(&mut e, &pos, &history, &signal);
    assert!(matches!(first, Some(IterationReport { depth: 1, .. })));
    signal.raise();
    assert_eq!(run.step(&mut e, &pos, &history, &signal), None);
    assert!(run.finished());
    assert!(e.stopped());
    assert_eq!(run.step(&mut e, &pos, &history, &StopSignal::new()), None);
}

#[test]
fn prepare_sets_the_counts_anew() {
    let mut e = engine();
    let pos = Position::startpos();
    let key = pos.key();
    e.enter(key);
    e.enter(key);
    e.prepare(&Vec::new(), key);
    let (_, best) = e.search(&pos, NEG_INF, INF, 1, &StopSignal::new());
    assert_ne!(best, NONE);
    // The root is left out of the history.
    e.prepare(&vec![key, key, key], key);
    let (_, best) = e.search(&pos, NEG_INF, INF, 1, &StopSignal::new());
    assert_ne!(best, NONE);
    // Another key entered twice is drawn.
    let other = pos.try_move(quiet(12, 28)).expect("a legal move");
    e.prepare(&vec![other.key(), 5, other.key()], key);
    let (score, best) = e.search(&other, NEG_INF, INF, 1, &StopSignal::new());
    assert_eq!((score, best), (0, NONE));
}

#[test]
fn the_principal_variation_is_read_off_the_table() {
    let mut e = engine();
    let pos = fen("6k1/5ppp/8/8/8/8/5PPP/R5K1 w - - 0 1");
    assert!(e.principal_variation(&pos, 5).is_empty());
    e.search(&pos, NEG_INF, INF, 2, &StopSignal::new());
    let line = e.principal_variation(&pos, 5);
    assert_eq!(line, vec![quiet(0, 56)]);
    assert!(e.principal_variation(&pos, 0).is_empty());
    // A longer line follows the stored moves from position to position.
    let start = Position::startpos();
    let mut e = engine();
    e.search(&start, NEG_INF, INF, 3, &StopSignal::new());
    let line = e.principal_variation(&start, 2);
    assert!(!line.is_empty() && line.len() <= 2);
    let mut pos = start;
    for m in line {
        pos = pos.try_move(m).expect("a legal move");
    }
}
