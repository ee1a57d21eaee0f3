use kekchess::moves::Move;
use kekchess::fen::check_fen;
use kekchess::placement::{bit_at, count_squares};
use kekchess::position::Position;

const START_FEN: &str = "rnbqkbnr/pppppppp/8/8/8/8/PPPPPPPP/RNBQKBNR w KQkq - 0 1";

fn quiet(from: u8, to: u8) -> Move {
    Move { from, to, promotion: None }
}

#[test]
fn startpos_has_the_initial_placement() {
    let p = Position::startpos().placement();
    assert_eq!(p.colors, [0x0000_0000_0000_FFFF, 0xFFFF_0000_0000_0000]);
    assert_eq!(
        p.pieces,
        [
            0x00FF_0000_0000_FF00,
            0x4200_0000_0000_0042,
            0x2400_0000_0000_0024,
            0x8100_0000_0000_0081,
            0x0800_0000_0000_0008,
            0x1000_0000_0000_0010,
        ]
    );
    assert!(p.white_to_move);
    assert_eq!(p.castling, [3, 3]);
    assert_eq!(p.en_passant, None);
}

#[test]
fn fen_of_the_start_reads_as_startpos() {
    let a = Position::startpos();
    let b = Position::from_fen(START_FEN).expect("a position");
    assert_eq!(a.placement().colors, b.placement().colors);
    assert_eq!(a.placement().pieces, b.placement().pieces);
    assert_eq!(a.key(), b.key());
}

#[test]
fn fen_reads_side_castling_and_placement() {
    let pos = Position::from_fen("4k3/8/8/8/4P3/8/8/R3K3 b Q - 0 1").expect("a position");
    let p = pos.placement();
    assert!(!p.white_to_move);
    assert_eq!(p.castling, [2, 0]);
    assert_eq!(p.colors[0], (1u64 << 0) | (1u64 << 4) | (1u64 << 28));
    assert_eq!(p.colors[1], 1u64 << 60);
    assert_eq!(p.pieces[0], 1u64 << 28);
    assert_eq!(p.pieces[3], 1u64 << 0);
    assert_eq!(p.pieces[5], (1u64 << 4) | (1u64 << 60));
    assert_eq!(p.kind_on(28), Some(0));
    assert_eq!(p.kind_on(0), Some(3));
    assert_eq!(p.kind_on(4), Some(5));
    assert_eq!(p.kind_on(27), None);
    assert_eq!(p.count_pieces(), 4);
}

#[test]
fn bad_fen_gives_nothing() {
    assert!(Position::from_fen("not a position").is_none());
    assert!(Position::from_fen("").is_none());
    // No kings on the board.
    assert!(Position::from_fen("8/8/8/8/8/8/8/8 w - - 0 1").is_none());
    // One king only.
    assert!(Position::from_fen("8/8/8/8/8/8/8/4K3 w - - 0 1").is_none());
    assert!(Position::from_fen("4k3/8/8/8/8/8/8/8 w - - 0 1").is_none());
    // Seven ranks, nine ranks, a rank of seven squares, a rank of nine.
    assert!(Position::from_fen("4k3/8/8/8/8/8/4K3 w - - 0 1").is_none());
    assert!(Position::from_fen("4k3/8/8/8/8/8/8/8/4K3 w - - 0 1").is_none());
    assert!(Position::from_fen("4k3/8/8/8/8/8/8/4K2 w - - 0 1").is_none());
    assert!(Position::from_fen("4k3/8/8/8/8/8/8/4K4 w - - 0 1").is_none());
    // A king that a ninth piece of its rank would stand on.
    assert!(Position::from_fen("kppppppp/8/8/8/8/8/8/KPPPPPPPP w - - 0 1").is_none());
    // A letter that names no piece, a digit that names no run.
    assert!(Position::from_fen("4k3/8/8/8/8/8/8/4Kx2 w - - 0 1").is_none());
    assert!(Position::from_fen("4k3/9/8/8/8/8/8/4K3 w - - 0 1").is_none());
    assert!(Position::from_fen("4k3/0p7/8/8/8/8/8/4K3 w - - 0 1").is_none());
    // Not plain ASCII.
    assert!(Position::from_fen("4k3/8/8/8/8/8/8/4K3 w - \u{e9} 0 1").is_none());
    // Readable, but no side to move, or too few fields.
    assert!(Position::from_fen("4k3/8/8/8/8/8/8/4K3 x - - 0 1").is_none());
    assert!(Position::from_fen("4k3/8/8/8/8/8/8/4K3").is_none());
    // Readable, but the side that has moved is in check.
    assert!(Position::from_fen("4k3/8/8/8/8/8/8/4RK2 w - - 0 1").is_none());
    // Readable, but two white kings.
    assert!(Position::from_fen("4k3/8/8/8/8/8/8/2K1K3 w - - 0 1").is_none());
}

#[test]
fn a_side_with_more_than_sixteen_men_gives_nothing() {
    // Seventeen white men: sound by the rules library, but its move generator
    // has no room for them.
    let crowded = "4k3/8/8/8/8/NNNNNNNN/NNNNNNNN/4K3 w - - 0 1";
    assert!(Position::from_fen(crowded).is_none());
    let full = "4k3/8/8/8/8/8/NNNNNNNN/NNNNKNNN w - - 0 1";
    let pos = Position::from_fen(full).expect("a position");
    assert_eq!(pos.placement().count_pieces(), 17);
    assert!(pos.legal_moves().len() > 0);
}

#[test]
fn startpos_has_twenty_legal_moves() {
    let moves = Position::startpos().legal_moves();
    assert_eq!(moves.len(), 20);
    for m in moves.iter() {
        assert!(m.from < 64 && m.to < 64);
        assert_eq!(m.promotion, None);
        assert!(m.from >= 1 && m.from < 16);
    }
    assert!(moves.contains(&quiet(12, 28)));
    assert!(moves.contains(&quiet(6, 21)));
}

#[test]
fn promotions_are_numbered_by_piece() {
    let pos = Position::from_fen("8/P6k/8/8/8/8/8/K7 w - - 0 1").expect("a position");
    let moves = pos.legal_moves();
    for piece in 1u8..=4 {
        assert!(moves.contains(&Move { from: 48, to: 56, promotion: Some(piece) }));
    }
    let queened = pos.make_move(Move { from: 48, to: 56, promotion: Some(4) }).expect("playable");
    assert_eq!(queened.placement().kind_on(56), Some(4));
    let knighted = pos.make_move(Move { from: 48, to: 56, promotion: Some(1) }).expect("playable");
    assert_eq!(knighted.placement().kind_on(56), Some(1));
}

#[test]
fn make_move_moves_the_piece_and_passes_the_turn() {
    let pos = Position::startpos();
    let next = pos.make_move(quiet(12, 28)).expect("playable");
    let p = next.placement();
    assert!(!p.white_to_move);
    assert!(bit_at(p.colors[0], 28));
    assert!(!bit_at(p.colors[0], 12));
    assert_eq!(p.kind_on(28), Some(0));
    assert_eq!(p.kind_on(12), None);
    assert_eq!(p.count_pieces(), 32);
    assert_ne!(pos.key(), next.key());
}

#[test]
fn try_move_takes_legal_moves_only() {
    let pos = Position::startpos();
    assert!(pos.try_move(quiet(12, 28)).is_some());
    assert!(pos.try_move(quiet(12, 36)).is_none());
    assert!(pos.try_move(Move { from: 0, to: 0, promotion: None }).is_none());
    assert!(pos.try_move(Move { from: 200, to: 3, promotion: Some(9) }).is_none());
    let next = pos.try_move(quiet(6, 21)).expect("a legal move");
    assert_eq!(next.key(), pos.make_move(quiet(6, 21)).expect("playable").key());
}

#[test]
fn key_is_the_same_for_the_same_position() {
    let start = Position::startpos();
    let mut pos = start;
    for m in [quiet(6, 21), quiet(62, 45), quiet(21, 6), quiet(45, 62)] {
        pos = pos.make_move(m).expect("playable");
    }
    assert_eq!(pos.key(), start.key());
    assert_eq!(pos.placement().colors, start.placement().colors);
}

#[test]
fn in_check_is_told() {
    assert!(!Position::startpos().in_check());
    let checked = Position::from_fen("4k3/8/8/8/8/8/8/4RK2 b - - 0 1").expect("a position");
    assert!(checked.in_check());
    let mated = Position::from_fen("R5k1/5ppp/8/8/8/8/5PPP/6K1 b - - 0 1").expect("a position");
    assert!(mated.in_check());
    assert_eq!(mated.legal_moves().len(), 0);
}

#[test]
fn a_capture_leaves_one_piece_fewer() {
    let pos = Position::from_fen("4k3/8/8/3p4/4P3/8/8/4K3 w - - 0 1").expect("a position");
    let next = pos.make_move(quiet(28, 35)).expect("playable");
    assert_eq!(pos.placement().count_pieces(), 4);
    assert_eq!(next.placement().count_pieces(), 3);
}

#[test]
fn positions_handed_out_are_playable() {
    assert!(Position::startpos().is_playable());
    let pos = Position::from_fen("4k3/8/8/3p4/4P3/8/8/4K3 w - - 0 1").expect("a position");
    assert!(pos.is_playable());
    for m in pos.legal_moves() {
        assert!(pos.make_move(m).expect("playable").is_playable());
    }
}

#[test]
fn squares_are_counted() {
    assert_eq!(count_squares(0), 0);
    assert_eq!(count_squares(1), 1);
    assert_eq!(count_squares(1u64 << 63), 1);
    assert_eq!(count_squares(0xFFFF), 16);
    assert_eq!(count_squares(u64::MAX), 64);
    assert_eq!(count_squares(0x8100_0000_0000_0081), 4);
    let p = Position::startpos().placement();
    assert!(p.few_enough_men());
    assert_eq!(p.count_pieces(), 32);
}

#[test]
fn fen_records_are_held_to_their_form() {
    assert!(check_fen(b"rnbqkbnr/pppppppp/8/8/8/8/PPPPPPPP/RNBQKBNR w KQkq - 0 1"));
    assert!(check_fen(b"4k3/8/8/8/8/8/8/4K3"));
    assert!(check_fen(b"4k3/8/8/8/8/8/8/4K3 anything at all"));
    assert!(check_fen(b"k7/8/8/8/8/8/8/7K w - - 0 1"));
    assert!(check_fen(b"1k1p1p1p/8/8/8/8/8/8/PPPPPPPK w"));
    assert!(!check_fen(b""));
    assert!(!check_fen(b" 4k3/8/8/8/8/8/8/4K3 w - - 0 1"));
    assert!(!check_fen(b"4k3/8/8/8/8/8/8/4K3/ w - - 0 1"));
    assert!(!check_fen(b"/4k3/8/8/8/8/8/8/4K3 w - - 0 1"));
    assert!(!check_fen(b"4k3//8/8/8/8/8/4K3 w - - 0 1"));
    assert!(!check_fen(b"4k3/8/8/8/8/8/8/8 w - - 0 1"));
    assert!(!check_fen(b"8/8/8/8/8/8/8/4K3 w - - 0 1"));
    assert!(!check_fen(b"4k3/8/8/8/8/8/8/4K3 w - - 0 \xc3\xa9"));
    assert!(!check_fen(b"4k3/8/8/8/8/8/8/4K3\tw - - 0 1"));
    // The kings must stand in the first field.
    assert!(!check_fen(b"8/8/8/8/8/8/8/8 w Kk - 0 1"));
}
