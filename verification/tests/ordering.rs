use kekchess::moves::Move;
use kekchess::ordering::{capture_moves, captures, gain_of, order_moves, sorted_by_gain, value_on};
use kekchess::position::Position;

fn fen(text: &str) -> Position {
    Position::from_fen(text).expect("a position")
}

fn quiet(from: u8, to: u8) -> Move {
    Move { from, to, promotion: None }
}

// White king g1, queen d1, pawn e4, knight f3; black king e8, rook d8, pawn
// d5, queen e5.
const TARGETS: &str = "3rk3/8/8/3pq3/4P3/5N2/8/3Q2K1 w - - 0 1";

#[test]
fn values_are_read_off_the_board() {
    let p = fen(TARGETS).placement();
    assert_eq!(value_on(&p, 3), 900);
    assert_eq!(value_on(&p, 28), 100);
    assert_eq!(value_on(&p, 21), 320);
    assert_eq!(value_on(&p, 59), 500);
    assert_eq!(value_on(&p, 6), 20000);
    assert_eq!(value_on(&p, 0), 0);
}

#[test]
fn gain_is_victim_less_attacker() {
    let p = fen(TARGETS).placement();
    // Knight takes queen: 900 - 320.
    assert_eq!(gain_of(&p, &quiet(21, 36)), 580);
    // Pawn takes pawn: 100 - 100.
    assert_eq!(gain_of(&p, &quiet(28, 35)), 0);
    // Queen takes pawn: 100 - 900.
    assert_eq!(gain_of(&p, &quiet(3, 35)), -800);
    // A move to an empty square gains nothing and costs the piece.
    assert_eq!(gain_of(&p, &quiet(3, 11)), -900);
}

#[test]
fn a_capture_lands_on_the_other_side() {
    let p = fen(TARGETS).placement();
    assert!(captures(&p, &quiet(21, 36)));
    assert!(captures(&p, &quiet(3, 35)));
    assert!(!captures(&p, &quiet(3, 11)));
    // Landing on an own piece is no capture.
    assert!(!captures(&p, &quiet(3, 6)));
}

#[test]
fn captures_come_by_falling_gain() {
    let pos = fen(TARGETS);
    let p = pos.placement();
    let caps = capture_moves(&p, &pos.legal_moves());
    assert_eq!(caps, vec![quiet(21, 36), quiet(28, 35), quiet(3, 35)]);
}

#[test]
fn sorting_keeps_the_order_of_equal_gains() {
    let p = fen(TARGETS).placement();
    // Gains: -900, 580, -900, 0, -800.
    let moves = vec![quiet(3, 11), quiet(21, 36), quiet(3, 10), quiet(28, 35), quiet(3, 35)];
    let sorted = sorted_by_gain(&p, &moves);
    assert_eq!(
        sorted,
        vec![quiet(21, 36), quiet(28, 35), quiet(3, 35), quiet(3, 11), quiet(3, 10)]
    );
    assert_eq!(sorted_by_gain(&p, &Vec::new()), Vec::new());
}

#[test]
fn ordered_moves_are_the_legal_moves() {
    let pos = fen(TARGETS);
    let p = pos.placement();
    let legal = pos.legal_moves();
    let ordered = order_moves(&p, &legal, Move { from: 0, to: 0, promotion: None });
    assert_eq!(ordered.len(), legal.len());
    for m in legal.iter() {
        assert_eq!(ordered.iter().filter(|o| *o == m).count(), 1);
    }
    assert_eq!(&ordered[..3], &[quiet(21, 36), quiet(28, 35), quiet(3, 35)]);
    // The other moves keep the order of the generator.
    let quiets: Vec<Move> = legal.iter().filter(|m| !captures(&p, m)).cloned().collect();
    assert_eq!(&ordered[3..], &quiets[..]);
}

#[test]
fn the_hint_leads_and_is_not_repeated() {
    let pos = fen(TARGETS);
    let p = pos.placement();
    let legal = pos.legal_moves();
    let hint = quiet(3, 11);
    assert!(legal.contains(&hint));
    let ordered = order_moves(&p, &legal, hint);
    assert_eq!(ordered[0], hint);
    assert_eq!(ordered.len(), legal.len());
    assert_eq!(ordered.iter().filter(|m| **m == hint).count(), 1);
    assert_eq!(&ordered[1..4], &[quiet(21, 36), quiet(28, 35), quiet(3, 35)]);
    // A capture as hint leaves the list of captures.
    let ordered = order_moves(&p, &legal, quiet(3, 35));
    assert_eq!(&ordered[..3], &[quiet(3, 35), quiet(21, 36), quiet(28, 35)]);
    assert_eq!(ordered.len(), legal.len());
}

#[test]
fn a_hint_that_is_not_legal_is_left_out() {
    let pos = fen(TARGETS);
    let p = pos.placement();
    let legal = pos.legal_moves();
    let plain = order_moves(&p, &legal, Move { from: 0, to: 0, promotion: None });
    let hinted = order_moves(&p, &legal, quiet(3, 60));
    assert_eq!(plain, hinted);
    assert!(!hinted.contains(&quiet(3, 60)));
}

#[test]
fn the_start_has_no_captures() {
    let pos = Position::startpos();
    let legal = pos.legal_moves();
    assert!(capture_moves(&pos.placement(), &legal).is_empty());
    let none = Move { from: 0, to: 0, promotion: None };
    assert_eq!(order_moves(&pos.placement(), &legal, none), legal);
}
