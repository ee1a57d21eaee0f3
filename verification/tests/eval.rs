use kekchess::eval::{evaluate, evaluate_placement, evaluate_white, mirrored};
use kekchess::position::Position;

fn fen(text: &str) -> Position {
    Position::from_fen(text).expect("a position")
}

#[test]
fn the_start_is_level() {
    assert_eq!(evaluate(&Position::startpos()), 0);
    assert_eq!(evaluate_white(&Position::startpos().placement()), 0);
}

#[test]
fn a_pawn_is_worth_its_value_and_its_square() {
    // White pawn on e4: 100 for the pawn, 20 for the square. Both kings
    // stand on squares that earn nothing.
    let pos = fen("4k3/8/8/8/4P3/8/8/4K3 w - - 0 1");
    assert_eq!(evaluate_white(&pos.placement()), 120);
    assert_eq!(evaluate(&pos), 120);
    let black_to_move = fen("4k3/8/8/8/4P3/8/8/4K3 b - - 0 1");
    assert_eq!(evaluate_white(&black_to_move.placement()), 120);
    assert_eq!(evaluate(&black_to_move), -120);
}

#[test]
fn a_black_piece_reads_the_table_mirrored() {
    // Black pawn on e5 is a white pawn on e4 seen from the other side.
    let pos = fen("4k3/8/8/4p3/8/8/8/4K3 w - - 0 1");
    assert_eq!(evaluate_white(&pos.placement()), -120);
    // Black pawn on a7 has not moved: 100 for the pawn, 5 for the square.
    let pos = fen("4k3/p7/8/8/8/8/8/4K3 w - - 0 1");
    assert_eq!(evaluate_white(&pos.placement()), -105);
}

#[test]
fn every_kind_counts() {
    // Knight b1 (-40), bishop c1 (-10), rook a1 (0), queen d1 (-5), king
    // g1 (30) against a bare king on e8 (0).
    let pos = fen("4k3/8/8/8/8/8/8/RNBQ2K1 w - - 0 1");
    assert_eq!(evaluate_white(&pos.placement()), 320 - 40 + 330 - 10 + 500 + 900 - 5 + 30);
}

#[test]
fn the_king_is_no_material() {
    let pos = fen("4k3/8/8/8/8/8/8/6K1 w - - 0 1");
    assert_eq!(evaluate_white(&pos.placement()), 30);
}

#[test]
fn mirroring_negates_the_score() {
    for text in [
        "rnbqkbnr/pppppppp/8/8/8/8/PPPPPPPP/RNBQKBNR w KQkq - 0 1",
        "4k3/8/8/8/4P3/8/8/4K3 w - - 0 1",
        "r3k2r/p1ppqpb1/bn2pnp1/3PN3/1p2P3/2N2Q1p/PPPBBPPP/R3K2R w KQkq - 0 1",
        "6k1/5ppp/8/8/8/8/5PPP/R5K1 b - - 0 1",
        "rnbqkbnr/ppp2ppp/8/3pp3/4P3/5N2/PPPP1PPP/RNBQKB1R w KQkq - 0 3",
    ] {
        let p = fen(text).placement();
        let m = mirrored(&p);
        assert_eq!(evaluate_placement(&m), -evaluate_placement(&p));
        assert_eq!(evaluate_white(&m), -evaluate_white(&p));
        assert_eq!(m.white_to_move, p.white_to_move);
        let back = mirrored(&m);
        assert_eq!(back.colors, p.colors);
        assert_eq!(back.pieces, p.pieces);
    }
}

#[test]
fn mirroring_turns_the_board_and_the_colors() {
    let p = fen("4k3/8/8/8/4P3/8/8/R3K3 w Q - 0 1").placement();
    let m = mirrored(&p);
    // The white pawn on e4 is a black pawn on e5, the rook on a1 one on a8.
    assert_eq!(m.colors[1], (1u64 << 36) | (1u64 << 56) | (1u64 << 60));
    assert_eq!(m.colors[0], 1u64 << 4);
    assert_eq!(m.pieces[0], 1u64 << 36);
    assert_eq!(m.pieces[3], 1u64 << 56);
    assert_eq!(m.castling, [0, 2]);
}
