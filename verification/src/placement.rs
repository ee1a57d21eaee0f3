//! Placements: what stands where, as plain values.
//!
//! A placement is what the rest of the library reads: the evaluation sums
//! over its squares, the move ordering looks up victims and attackers in it.
//! Which moves it allows is for the rules to say.

use vstd::prelude::*;

verus! {

/// What stands where, and what else the rules need to know.
///
/// A set of squares is a `u64` with bit `n` set for square `n` (a1 = 0,
/// b1 = 1, ..., h8 = 63). `colors` holds the squares of the white pieces and
/// those of the black pieces, `pieces` the squares of the pawns, knights,
/// bishops, rooks, queens and kings of both sides. `castling` holds the
/// rights of White and of Black (0 none, 1 king side, 2 queen side, 3 both),
/// `en_passant` the square of a pawn that has just gone two squares and can
/// be taken in passing.
#[derive(Clone, Copy, Debug)]
pub struct Placement {
    pub colors: [u64; 2],
    pub pieces: [u64; 6],
    pub white_to_move: bool,
    pub castling: [u8; 2],
    pub en_passant: Option<u8>,
}

/// Whether square `sq` is in the set.
pub open spec fn bit(set: u64, sq: int) -> bool {
    (set >> (sq as u64)) & 1 == 1
}

/// Tells whether square `sq` is in the set.
pub fn bit_at(set: u64, sq: u8) -> (b: bool)
    requires
        sq < 64,
    ensures
        b == bit(set, sq as int),
{
    (set >> (sq as u64)) & 1 == 1
}

impl Placement {
    /// The squares of the white pieces.
    pub open spec fn white(self) -> u64 {
        self.colors[0]
    }

    /// The squares of the black pieces.
    pub open spec fn black(self) -> u64 {
        self.colors[1]
    }

    /// The squares of the pieces of the other side.
    pub open spec fn opposing(self) -> u64 {
        if self.white_to_move {
            self.colors[1]
        } else {
            self.colors[0]
        }
    }

    /// The kind of the piece on square `sq` (0 pawn, 1 knight, 2 bishop,
    /// 3 rook, 4 queen, 5 king), if a piece stands there.
    pub open spec fn kind_at(self, sq: int) -> Option<int> {
        if bit(self.pieces[0], sq) {
            Some(0)
        } else if bit(self.pieces[1], sq) {
            Some(1)
        } else if bit(self.pieces[2], sq) {
            Some(2)
        } else if bit(self.pieces[3], sq) {
            Some(3)
        } else if bit(self.pieces[4], sq) {
            Some(4)
        } else if bit(self.pieces[5], sq) {
            Some(5)
        } else {
            None
        }
    }

    /// Finds the kind of the piece on square `sq`.
    pub fn kind_on(&self, sq: u8) -> (k: Option<usize>)
        requires
            sq < 64,
        ensures
            k matches Some(n) ==> self.kind_at(sq as int) == Some(n as int) && n < 6,
            k is None ==> self.kind_at(sq as int) is None,
    {
        if bit_at(self.pieces[0], sq) {
            Some(0)
        } else if bit_at(self.pieces[1], sq) {
            Some(1)
        } else if bit_at(self.pieces[2], sq) {
            Some(2)
        } else if bit_at(self.pieces[3], sq) {
            Some(3)
        } else if bit_at(self.pieces[4], sq) {
            Some(4)
        } else if bit_at(self.pieces[5], sq) {
            Some(5)
        } else {
            None
        }
    }
}

/// How many of the squares below `n` are in the set.
pub open spec fn count_below(set: u64, n: int) -> nat
    decreases n,
{
    if n <= 0 {
        0
    } else {
        count_below(set, n - 1) + if bit(set, n - 1) {
            1nat
        } else {
            0nat
        }
    }
}

/// Counts the squares in the set.
pub fn count_squares(set: u64) -> (n: u8)
    ensures
        n == count_below(set, 64),
        n <= 64,
{
    let mut n: u8 = 0;
    let mut sq: u8 = 0;
    while sq < 64
        invariant
            sq <= 64,
            n <= sq,
            n == count_below(set, sq as int),
        decreases 64 - sq,
    {
        if bit_at(set, sq) {
            n = n + 1;
        }
        sq = sq + 1;
    }
    n
}

/// Leaving out squares that are not in the set takes nothing from the
/// count, and every further square adds one at most.
pub proof fn lemma_count_between(set: u64, m: int, n: int)
    requires
        0 <= m <= n,
    ensures
        count_below(set, m) <= count_below(set, n) <= count_below(set, m) + (n - m),
        (forall|k: int| m <= k < n ==> !bit(set, k)) ==> count_below(set, n) == count_below(set, m),
    decreases n - m,
{
    if m < n {
        lemma_count_between(set, m, n - 1);
    }
}

impl Placement {
    /// The number of pieces on the board.
    pub open spec fn piece_count(self) -> nat {
        count_below(self.colors[0] | self.colors[1], 64)
    }

    /// The number of men of White (`side` 0) or of Black (`side` 1).
    pub open spec fn men(self, side: int) -> nat {
        count_below(self.colors[side], 64)
    }

    /// Counts the pieces on the board.
    pub fn count_pieces(&self) -> (n: u8)
        ensures
            n == self.piece_count(),
            n <= 64,
    {
        count_squares(self.colors[0] | self.colors[1])
    }

    /// Tells whether neither side has more than 16 men.
    pub fn few_enough_men(&self) -> (b: bool)
        ensures
            b == (self.men(0) <= 16 && self.men(1) <= 16),
    {
        count_squares(self.colors[0]) <= 16 && count_squares(self.colors[1]) <= 16
    }
}

} // verus!
