//! Static evaluation: material and piece-square bonuses.
//!
//! Every piece but the king is worth its material value, and every piece
//! earns a bonus for the square it stands on. The bonus tables are written
//! from White's side, first rank first; a black piece reads them at the
//! square mirrored across the middle of the board.

use vstd::prelude::*;
use crate::placement::{bit, bit_at, count_below, Placement};
use crate::position::Position;

verus! {

/// Centipawns.
pub type Score = i32;

/// The score of a checkmate.
pub const MATE: i32 = 10_000_000;

/// The score of the side that is checkmated.
pub const MATED: i32 = -10_000_000;

/// Above every score.
pub const INF: i32 = i32::MAX;

/// Below every score.
pub const NEG_INF: i32 = i32::MIN;

/// The value of a pawn, knight, bishop, rook, queen and king. The king's
/// value only ranks captures; it is no material.
pub const PIECE_VALUES: [i32; 6] = [100, 320, 330, 500, 900, 20000];

/// The bonus of a white pawn on each square, a1 first.
pub const PAWN_SQUARES: [i32; 64] = [
    0, 0, 0, 0, 0, 0, 0, 0,
    5, 10, 10, -20, -20, 10, 10, 5,
    5, -5, -10, 0, 0, -10, -5, 5,
    0, 0, 0, 20, 20, 0, 0, 0,
    5, 5, 10, 25, 25, 10, 5, 5,
    10, 10, 20, 30, 30, 20, 10, 10,
    50, 50, 50, 50, 50, 50, 50, 50,
    0, 0, 0, 0, 0, 0, 0, 0,
];

/// The bonus of a white knight on each square, a1 first.
pub const KNIGHT_SQUARES: [i32; 64] = [
    -50, -40, -30, -30, -30, -30, -40, -50,
    -40, -20, 0, 5, 5, 0, -20, -40,
    -30, 5, 10, 15, 15, 10, 5, -30,
    -30, 0, 15, 20, 20, 15, 0, -30,
    -30, 5, 15, 20, 20, 15, 5, -30,
    -30, 0, 10, 15, 15, 10, 0, -30,
    -40, -20, 0, 0, 0, 0, -20, -40,
    -50, -40, -30, -30, -30, -30, -40, -50,
];

/// The bonus of a white bishop on each square, a1 first.
pub const BISHOP_SQUARES: [i32; 64] = [
    -20, -10, -10, -10, -10, -10, -10, -20,
    -10, 5, 0, 0, 0, 0, 5, -10,
    -10, 10, 10, 10, 10, 10, 10, -10,
    -10, 0, 10, 10, 10, 10, 0, -10,
    -10, 5, 5, 10, 10, 5, 5, -10,
    -10, 0, 5, 10, 10, 5, 0, -10,
    -10, 0, 0, 0, 0, 0, 0, -10,
    -20, -10, -10, -10, -10, -10, -10, -20,
];

/// The bonus of a white rook on each square, a1 first.
pub const ROOK_SQUARES: [i32; 64] = [
    0, 0, 0, 5, 5, 0, 0, 0,
    -5, 0, 0, 0, 0, 0, 0, -5,
    -5, 0, 0, 0, 0, 0, 0, -5,
    -5, 0, 0, 0, 0, 0, 0, -5,
    -5, 0, 0, 0, 0, 0, 0, -5,
    -5, 0, 0, 0, 0, 0, 0, -5,
    5, 10, 10, 10, 10, 10, 10, 5,
    0, 0, 0, 0, 0, 0, 0, 0,
];

/// The bonus of a white queen on each square, a1 first.
pub const QUEEN_SQUARES: [i32; 64] = [
    -20, -10, -10, -5, -5, -10, -10, -20,
    -10, 0, 5, 0, 0, 0, 0, -10,
    -10, 5, 5, 5, 5, 5, 0, -10,
    0, 0, 5, 5, 5, 5, 0, -5,
    -5, 0, 5, 5, 5, 5, 0, -5,
    -10, 0, 5, 5, 5, 5, 0, -10,
    -10, 0, 0, 0, 0, 0, 0, -10,
    -20, -10, -10, -5, -5, -10, -10, -20,
];

/// The bonus of a white king on each square, a1 first.
pub const KING_SQUARES: [i32; 64] = [
    20, 30, 10, 0, 0, 10, 30, 20,
    20, 20, 0, 0, 0, 0, 20, 20,
    -10, -20, -20, -20, -20, -20, -20, -10,
    -20, -30, -30, -40, -40, -30, -30, -20,
    -30, -40, -40, -50, -50, -40, -40, -30,
    -30, -40, -40, -50, -50, -40, -40, -30,
    -30, -40, -40, -50, -50, -40, -40, -30,
    -30, -40, -40, -50, -50, -40, -40, -30,
];

/// The material value of a piece of kind `kind`: its value, and nothing for
/// the king.
pub open spec fn material(kind: int) -> int {
    if 0 <= kind < 5 {
        PIECE_VALUES[kind] as int
    } else {
        0
    }
}

/// The bonus of a white piece of kind `kind` on square `sq`.
pub open spec fn bonus(kind: int, sq: int) -> int {
    if kind == 0 {
        PAWN_SQUARES[sq] as int
    } else if kind == 1 {
        KNIGHT_SQUARES[sq] as int
    } else if kind == 2 {
        BISHOP_SQUARES[sq] as int
    } else if kind == 3 {
        ROOK_SQUARES[sq] as int
    } else if kind == 4 {
        QUEEN_SQUARES[sq] as int
    } else {
        KING_SQUARES[sq] as int
    }
}

/// What a white piece of kind `kind` on square `sq` adds to the score.
pub open spec fn worth(kind: int, sq: int) -> int {
    material(kind) + bonus(kind, sq)
}

/// The square mirrored across the middle of the board: same file, ranks
/// counted from the other side.
pub open spec fn flip_square(sq: int) -> int {
    sq + 56 - 16 * (sq / 8)
}

/// What square `sq` adds to the score as White sees it: the worth of a white
/// piece there, less the worth of a black piece there read at the mirrored
/// square.
#[verifier::opaque]
pub open spec fn square_score(p: Placement, sq: int) -> int {
    match p.kind_at(sq) {
        Some(k) => (if bit(p.white(), sq) {
            worth(k, sq)
        } else {
            0
        }) - (if bit(p.black(), sq) {
            worth(k, flip_square(sq))
        } else {
            0
        }),
        None => 0,
    }
}

/// The sum of `square_score` over the squares below `n`.
pub open spec fn score_below(p: Placement, n: int) -> int
    decreases n,
{
    if n <= 0 {
        0
    } else {
        score_below(p, n - 1) + square_score(p, n - 1)
    }
}

/// The score of a placement as White sees it.
pub open spec fn white_score(p: Placement) -> int {
    score_below(p, 64)
}

/// The score of a placement as the side to move sees it.
pub open spec fn relative_score(p: Placement) -> int {
    if p.white_to_move {
        white_score(p)
    } else {
        -white_score(p)
    }
}

/// The worth of a piece lies between -50 and 950.
proof fn lemma_worth_bounds(kind: int, sq: int)
    requires
        0 <= kind < 6,
        0 <= sq < 64,
    ensures
        -50 <= worth(kind, sq) <= 950,
{
}

/// The mirrored square is on the board, and mirroring twice leads back.
proof fn lemma_flip_square(sq: int)
    requires
        0 <= sq < 64,
    ensures
        0 <= flip_square(sq) < 64,
        flip_square(flip_square(sq)) == sq,
{
}

/// No square adds more than 950 to the score, or takes more from it.
proof fn lemma_square_score_bounds(p: Placement, sq: int)
    requires
        0 <= sq < 64,
    ensures
        -950 <= square_score(p, sq) <= 950,
{
    reveal(square_score);
    match p.kind_at(sq) {
        Some(k) => {
            lemma_flip_square(sq);
            lemma_worth_bounds(k, sq);
            lemma_worth_bounds(k, flip_square(sq));
        },
        None => {},
    }
}

/// The sum over the squares below `n` stays within 950 per square.
pub proof fn lemma_score_below_bounds(p: Placement, n: int)
    requires
        0 <= n <= 64,
    ensures
        -950 * n <= score_below(p, n) <= 950 * n,
    decreases n,
{
    if n > 0 {
        lemma_score_below_bounds(p, n - 1);
        lemma_square_score_bounds(p, n - 1);
    }
}

/// Looks up the worth of a white piece of kind `kind` on square `sq`.
fn worth_of(kind: usize, sq: usize) -> (w: i32)
    requires
        kind < 6,
        sq < 64,
    ensures
        w == worth(kind as int, sq as int),
{
    if kind == 0 {
        PIECE_VALUES[0] + PAWN_SQUARES[sq]
    } else if kind == 1 {
        PIECE_VALUES[1] + KNIGHT_SQUARES[sq]
    } else if kind == 2 {
        PIECE_VALUES[2] + BISHOP_SQUARES[sq]
    } else if kind == 3 {
        PIECE_VALUES[3] + ROOK_SQUARES[sq]
    } else if kind == 4 {
        PIECE_VALUES[4] + QUEEN_SQUARES[sq]
    } else {
        KING_SQUARES[sq]
    }
}

/// Mirrors a square across the middle of the board.
fn flipped(sq: u8) -> (f: u8)
    requires
        sq < 64,
    ensures
        f == flip_square(sq as int),
        f < 64,
{
    sq + 56 - 16 * (sq / 8)
}

/// Computes the score of a placement as White sees it.
pub fn evaluate_white(p: &Placement) -> (score: i32)
    ensures
        score == white_score(*p),
{
    let mut total: i32 = 0;
    let mut sq: u8 = 0;
    while sq < 64
        invariant
            sq <= 64,
            total == score_below(*p, sq as int),
            -950 * sq <= total <= 950 * sq,
        decreases 64 - sq,
    {
        proof {
            reveal(square_score);
            lemma_square_score_bounds(*p, sq as int);
        }
        match p.kind_on(sq) {
            Some(k) => {
                if bit_at(p.colors[0], sq) {
                    proof {
                        lemma_worth_bounds(k as int, sq as int);
                    }
                    total = total + worth_of(k, sq as usize);
                }
                if bit_at(p.colors[1], sq) {
                    let f = flipped(sq);
                    proof {
                        lemma_worth_bounds(k as int, f as int);
                    }
                    total = total - worth_of(k, f as usize);
                }
            },
            None => {},
        }
        sq = sq + 1;
    }
    total
}

/// Computes the score of a placement as the side to move sees it.
pub fn evaluate_placement(p: &Placement) -> (score: i32)
    ensures
        score == relative_score(*p),
        -MATE < score < MATE,
{
    proof {
        lemma_score_below_bounds(*p, 64);
    }
    let white = evaluate_white(p);
    if p.white_to_move {
        white
    } else {
        -white
    }
}

/// How many more pieces of kind `kind` White has than Black, on the squares
/// below `n`.
pub open spec fn balance_below(p: Placement, kind: int, n: int) -> int {
    count_below(p.pieces[kind] & p.white(), n) - count_below(p.pieces[kind] & p.black(), n)
}

/// The material on the squares below `n` as White sees it: for each kind but
/// the king, its value times the number of pieces that White has more than
/// Black.
pub open spec fn material_below(p: Placement, n: int) -> int {
    100 * balance_below(p, 0, n) + 320 * balance_below(p, 1, n) + 330 * balance_below(p, 2, n)
        + 500 * balance_below(p, 3, n) + 900 * balance_below(p, 4, n)
}

/// What the square of a piece adds to the score as White sees it: the bonus
/// of a white piece there, less the bonus of a black piece there read at the
/// mirrored square.
pub open spec fn square_bonus(p: Placement, sq: int) -> int {
    match p.kind_at(sq) {
        Some(k) => (if bit(p.white(), sq) {
            bonus(k, sq)
        } else {
            0
        }) - (if bit(p.black(), sq) {
            bonus(k, flip_square(sq))
        } else {
            0
        }),
        None => 0,
    }
}

/// The sum of `square_bonus` over the squares below `n`.
pub open spec fn bonus_below(p: Placement, n: int) -> int
    decreases n,
{
    if n <= 0 {
        0
    } else {
        bonus_below(p, n - 1) + square_bonus(p, n - 1)
    }
}

/// No square holds pieces of two kinds.
pub open spec fn one_kind_per_square(p: Placement) -> bool {
    forall|sq: int, j: int, k: int|
        0 <= sq < 64 && 0 <= j < k < 6 ==> !(bit(p.pieces[j], sq) && bit(p.pieces[k], sq))
}

proof fn lemma_bit_of_both(a: u64, b: u64, sq: u64)
    by (bit_vector)
    requires
        sq < 64,
    ensures
        ((a & b) >> sq) & 1 == 1 <==> ((a >> sq) & 1 == 1 && (b >> sq) & 1 == 1),
{
}

proof fn lemma_balance_step(p: Placement, kind: int, sq: int)
    requires
        0 <= kind < 6,
        0 <= sq < 64,
    ensures
        balance_below(p, kind, sq + 1) == balance_below(p, kind, sq) + (if bit(p.pieces[kind], sq)
            && bit(p.white(), sq) {
            1int
        } else {
            0int
        }) - (if bit(p.pieces[kind], sq) && bit(p.black(), sq) {
            1int
        } else {
            0int
        }),
{
    lemma_bit_of_both(p.pieces[kind], p.white(), sq as u64);
    lemma_bit_of_both(p.pieces[kind], p.black(), sq as u64);
}

/// Where no square holds pieces of two kinds, the score is the material
/// counted kind by kind, plus the bonuses of the squares.
pub proof fn lemma_score_is_material_and_bonus(p: Placement, n: int)
    requires
        one_kind_per_square(p),
        0 <= n <= 64,
    ensures
        score_below(p, n) == material_below(p, n) + bonus_below(p, n),
    decreases n,
{
    if n > 0 {
        let sq = n - 1;
        lemma_score_is_material_and_bonus(p, sq);
        reveal(square_score);
        lemma_balance_step(p, 0, sq);
        lemma_balance_step(p, 1, sq);
        lemma_balance_step(p, 2, sq);
        lemma_balance_step(p, 3, sq);
        lemma_balance_step(p, 4, sq);
        assert(forall|j: int, k: int|
            0 <= j < k < 6 ==> !(bit(p.pieces[j], sq) && bit(p.pieces[k], sq)));
    }
}

/// The set mirrored across the middle of the board: the eight ranks in
/// reverse order.
pub open spec fn flip_set(s: u64) -> u64 {
    (s & 0xff) << 56 | (s & 0xff00) << 40 | (s & 0xff_0000) << 24 | (s & 0xff00_0000) << 8 | (s
        >> 8) & 0xff00_0000 | (s >> 24) & 0xff_0000 | (s >> 40) & 0xff00 | (s >> 56) & 0xff
}

/// The placement with the colors of the pieces exchanged and the board
/// mirrored across its middle. The side to move stays.
pub open spec fn mirror(p: Placement) -> Placement {
    Placement {
        colors: [flip_set(p.colors[1]), flip_set(p.colors[0])],
        pieces: [
            flip_set(p.pieces[0]),
            flip_set(p.pieces[1]),
            flip_set(p.pieces[2]),
            flip_set(p.pieces[3]),
            flip_set(p.pieces[4]),
            flip_set(p.pieces[5]),
        ],
        white_to_move: p.white_to_move,
        castling: [p.castling[1], p.castling[0]],
        en_passant: match p.en_passant {
            Some(sq) => Some(
                if sq < 64 {
                    flip_square(sq as int) as u8
                } else {
                    sq
                },
            ),
            None => None,
        },
    }
}

/// Mirrors a set of squares across the middle of the board.
fn flipped_set(s: u64) -> (f: u64)
    ensures
        f == flip_set(s),
{
    (s & 0xff) << 56 | (s & 0xff00) << 40 | (s & 0xff_0000) << 24 | (s & 0xff00_0000) << 8 | (s
        >> 8) & 0xff00_0000 | (s >> 24) & 0xff_0000 | (s >> 40) & 0xff00 | (s >> 56) & 0xff
}

/// Exchanges the colors of the pieces and mirrors the board across its
/// middle.
pub fn mirrored(p: &Placement) -> (m: Placement)
    ensures
        m == mirror(*p),
{
    let en_passant = match p.en_passant {
        Some(sq) => Some(
            if sq < 64 {
                flipped(sq)
            } else {
                sq
            },
        ),
        None => None,
    };
    Placement {
        colors: [flipped_set(p.colors[1]), flipped_set(p.colors[0])],
        pieces: [
            flipped_set(p.pieces[0]),
            flipped_set(p.pieces[1]),
            flipped_set(p.pieces[2]),
            flipped_set(p.pieces[3]),
            flipped_set(p.pieces[4]),
            flipped_set(p.pieces[5]),
        ],
        white_to_move: p.white_to_move,
        castling: [p.castling[1], p.castling[0]],
        en_passant,
    }
}

proof fn lemma_flip_bits(s: u64, sq: u64)
    by (bit_vector)
    requires
        sq < 64,
    ensures
        sq ^ 56 == sq + 56 - 16 * (sq / 8),
        ((flip_set(s) >> sq) & 1 == 1) == ((s >> (sq ^ 56)) & 1 == 1),
{
}

/// A square is in the mirrored set exactly when the mirrored square is in
/// the set.
proof fn lemma_flip_set(s: u64, sq: int)
    requires
        0 <= sq < 64,
    ensures
        bit(flip_set(s), sq) == bit(s, flip_square(sq)),
{
    lemma_flip_bits(s, sq as u64);
}

/// What a square adds to the score of the mirrored placement is what the
/// mirrored square takes from the score of the placement.
proof fn lemma_square_score_mirror(p: Placement, sq: int)
    requires
        0 <= sq < 64,
    ensures
        square_score(mirror(p), sq) == -square_score(p, flip_square(sq)),
{
    reveal(square_score);
    let m = mirror(p);
    lemma_flip_square(sq);
    lemma_flip_set(p.colors[0], sq);
    lemma_flip_set(p.colors[1], sq);
    lemma_flip_set(p.pieces[0], sq);
    lemma_flip_set(p.pieces[1], sq);
    lemma_flip_set(p.pieces[2], sq);
    lemma_flip_set(p.pieces[3], sq);
    lemma_flip_set(p.pieces[4], sq);
    lemma_flip_set(p.pieces[5], sq);
    assert(m.kind_at(sq) == p.kind_at(flip_square(sq)));
}

/// The sum of `square_score` over the eight squares of rank `r`.
pub open spec fn rank_score(p: Placement, r: int) -> int {
    square_score(p, 8 * r) + square_score(p, 8 * r + 1) + square_score(p, 8 * r + 2)
        + square_score(p, 8 * r + 3) + square_score(p, 8 * r + 4) + square_score(p, 8 * r + 5)
        + square_score(p, 8 * r + 6) + square_score(p, 8 * r + 7)
}

proof fn lemma_score_by_rank(p: Placement, r: int)
    requires
        0 <= r < 8,
    ensures
        score_below(p, 8 * r + 8) == score_below(p, 8 * r) + rank_score(p, r),
{
    reveal_with_fuel(score_below, 9);
}

proof fn lemma_square_score_mirror_at(p: Placement, r: int, f: int)
    requires
        0 <= r < 8,
        0 <= f < 8,
    ensures
        square_score(mirror(p), 8 * r + f) == -square_score(p, 8 * (7 - r) + f),
{
    lemma_square_score_mirror(p, 8 * r + f);
    assert((8 * r + f) / 8 == r);
}

proof fn lemma_rank_score_mirror(p: Placement, r: int)
    requires
        0 <= r < 8,
    ensures
        rank_score(mirror(p), r) == -rank_score(p, 7 - r),
{
    lemma_square_score_mirror_at(p, r, 0);
    lemma_square_score_mirror_at(p, r, 1);
    lemma_square_score_mirror_at(p, r, 2);
    lemma_square_score_mirror_at(p, r, 3);
    lemma_square_score_mirror_at(p, r, 4);
    lemma_square_score_mirror_at(p, r, 5);
    lemma_square_score_mirror_at(p, r, 6);
    lemma_square_score_mirror_at(p, r, 7);
}

proof fn lemma_score_is_sum_of_ranks(p: Placement)
    ensures
        white_score(p) == rank_score(p, 0) + rank_score(p, 1) + rank_score(p, 2) + rank_score(p, 3)
            + rank_score(p, 4) + rank_score(p, 5) + rank_score(p, 6) + rank_score(p, 7),
{
    lemma_score_by_rank(p, 0);
    lemma_score_by_rank(p, 1);
    lemma_score_by_rank(p, 2);
    lemma_score_by_rank(p, 3);
    lemma_score_by_rank(p, 4);
    lemma_score_by_rank(p, 5);
    lemma_score_by_rank(p, 6);
    lemma_score_by_rank(p, 7);
}

/// Evaluation is symmetric in the colors: exchanging the colors of the
/// pieces and mirroring the board negates the score, both as White sees it
/// and as the side to move sees it.
pub proof fn lemma_mirror_negates_score(p: Placement)
    ensures
        white_score(mirror(p)) == -white_score(p),
        relative_score(mirror(p)) == -relative_score(p),
{
    lemma_score_is_sum_of_ranks(p);
    lemma_score_is_sum_of_ranks(mirror(p));
    lemma_rank_score_mirror(p, 0);
    lemma_rank_score_mirror(p, 1);
    lemma_rank_score_mirror(p, 2);
    lemma_rank_score_mirror(p, 3);
    lemma_rank_score_mirror(p, 4);
    lemma_rank_score_mirror(p, 5);
    lemma_rank_score_mirror(p, 6);
    lemma_rank_score_mirror(p, 7);
}

/// A placement that is its own mirror image scores 0.
pub proof fn lemma_symmetric_scores_zero(p: Placement)
    requires
        mirror(p) == p,
    ensures
        white_score(p) == 0,
        relative_score(p) == 0,
{
    lemma_mirror_negates_score(p);
}

/// The static evaluation of a position: material and piece-square bonuses,
/// as the side to move sees them.
pub fn evaluate(pos: &Position) -> (score: i32)
    ensures
        score == relative_score(pos@),
        -MATE < score < MATE,
{
    let p = pos.placement();
    evaluate_placement(&p)
}

} // verus!
