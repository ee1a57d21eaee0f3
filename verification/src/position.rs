//! Positions, and the rules of chess.
//!
//! The rules themselves (which moves are legal, what a move does to the
//! board, whether the side to move is in check, the hash of a position) are
//! the business of the `chess` crate. A position holds that crate's board
//! for the calls into it, and beside the board the placement read off it,
//! which is what the rest of the library works on.
//!
//! The functions at the end of this file are the calls into the `chess`
//! crate. What they promise is taken from its source and is not proved
//! here.

use vstd::prelude::*;
use vstd::string::StringSliceAdditionalSpecFns;
use chess::{Board, ChessMove, Color, MoveGen, ALL_COLORS, ALL_PIECES, ALL_SQUARES};
use crate::fen::{check_fen, fen_is_readable};
use crate::moves::Move;
use crate::placement::{bit, lemma_count_between, Placement};

verus! {

/// `chess::Board`, taken as it is. Nothing is read off a board here but
/// what the functions at the end of this file hand over.
#[verifier::external_type_specification]
#[verifier::external_body]
pub struct ExBoard(Board);

/// A position of a game. Its view is the placement read off the board when
/// the position was made; the two are never changed apart.
#[derive(Clone, Copy, Debug)]
pub struct Position {
    board: Board,
    placement: Placement,
}

impl View for Position {
    type V = Placement;

    closed spec fn view(&self) -> Placement {
        self.placement
    }
}

proof fn lemma_low_squares(set: u64, k: u64)
    by (bit_vector)
    requires
        set <= 0xFFFF,
        16 <= k < 64,
    ensures
        (set >> k) & 1 == 0,
{
}

proof fn lemma_high_squares(set: u64, k: u64)
    by (bit_vector)
    requires
        set & 0x0000_FFFF_FFFF_FFFF == 0,
        k < 48,
    ensures
        (set >> k) & 1 == 0,
{
}

/// At the start of a game each side has 16 men at most.
pub proof fn lemma_initial_men()
    ensures
        initial_placement().men(0) <= 16,
        initial_placement().men(1) <= 16,
{
    let white = initial_placement().colors[0];
    let black = initial_placement().colors[1];
    assert forall|k: int| 16 <= k < 64 implies !bit(white, k) by {
        lemma_low_squares(white, k as u64);
    }
    lemma_count_between(white, 0, 16);
    lemma_count_between(white, 16, 64);
    assert(black & 0x0000_FFFF_FFFF_FFFF == 0) by (bit_vector)
        requires
            black == 0xFFFF_0000_0000_0000u64,
    ;
    assert forall|k: int| 0 <= k < 48 implies !bit(black, k) by {
        lemma_high_squares(black, k as u64);
    }
    lemma_count_between(black, 0, 48);
    lemma_count_between(black, 48, 64);
}

impl Placement {
    /// A placement that the rules can be asked about: the rules library
    /// holds it to be sound, and neither side has more than 16 men. The move
    /// generator of the rules library has room for the moves of 16 men and
    /// no more.
    pub open spec fn playable(self) -> bool {
        &&& sane_of(self)
        &&& self.men(0) <= 16
        &&& self.men(1) <= 16
    }
}

/// The placement that `Position::from_fen` reads from a FEN record: what the
/// rules library makes of the record, where the record is readable and
/// neither side has more than 16 men.
pub open spec fn position_of_fen(fen: Seq<char>) -> Option<Placement> {
    if fen_is_readable(vstd::utf8::encode_utf8(fen)) && fen_placement(fen) is Some
        && fen_placement(fen)->0.men(0) <= 16 && fen_placement(fen)->0.men(1) <= 16 {
        fen_placement(fen)
    } else {
        None
    }
}

impl Position {
    /// The position at the start of a game.
    pub fn startpos() -> (pos: Position)
        ensures
            pos@ == initial_placement(),
            pos@.playable(),
    {
        proof {
            lemma_initial_men();
        }
        rules_startpos()
    }

    /// Reads a position from a FEN record.
    ///
    /// The record must be readable: plain ASCII, with a first field that
    /// sets out eight ranks of eight squares and a king of each color. The
    /// rules library must take it for a position that can arise in a game,
    /// and neither side may have more than 16 men. Any other record gives
    /// nothing.
    pub fn from_fen(fen: &str) -> (r: Option<Position>)
        ensures
            r is Some == position_of_fen(fen@) is Some,
            r matches Some(pos) ==> position_of_fen(fen@) == Some(pos@) && pos@.playable(),
    {
        if !check_fen(fen.as_bytes()) {
            return None;
        }
        match rules_from_fen(fen) {
            Some(pos) => {
                if pos.placement.few_enough_men() {
                    Some(pos)
                } else {
                    None
                }
            },
            None => None,
        }
    }

    /// The placement of this position.
    pub fn placement(&self) -> (p: Placement)
        ensures
            p == self@,
    {
        self.placement
    }

    /// Tells whether the rules can be asked about this position. Every
    /// position that this library hands out is playable; the test is for
    /// code that cannot know where a position came from.
    pub fn is_playable(&self) -> (b: bool)
        ensures
            b == self@.playable(),
    {
        rules_is_sane(self) && self.placement.few_enough_men()
    }

    /// The legal moves, in the order of the move generator.
    pub fn legal_moves(&self) -> (moves: Vec<Move>)
        requires
            self@.playable(),
        ensures
            moves@ == legal_moves_of(self@),
            forall|i: int| 0 <= i < moves@.len() ==> (#[trigger] moves@[i]).wf(),
    {
        rules_legal_moves(self)
    }

    /// The position after a legal move, if it is one that the rules can be
    /// asked about in turn. The rules library leads from playable positions
    /// to playable ones; here that is tested, not taken on trust.
    pub fn make_move(&self, m: Move) -> (r: Option<Position>)
        requires
            self@.playable(),
            legal_moves_of(self@).contains(m),
            m.wf(),
        ensures
            r is Some == placement_after(self@, m).playable(),
            r matches Some(next) ==> next@ == placement_after(self@, m),
    {
        let next = rules_make_move(self, m);
        if rules_is_sane(&next) && next.placement.few_enough_men() {
            Some(next)
        } else {
            None
        }
    }

    /// The position after `m`, if `m` is a legal move here and leads to a
    /// position that the rules can be asked about in turn.
    pub fn try_move(&self, m: Move) -> (r: Option<Position>)
        requires
            self@.playable(),
        ensures
            r is Some == (legal_moves_of(self@).contains(m) && placement_after(
                self@,
                m,
            ).playable()),
            r matches Some(next) ==> next@ == placement_after(self@, m),
    {
        let moves = rules_legal_moves(self);
        let mut i: usize = 0;
        while i < moves.len()
            invariant
                i <= moves.len(),
                self@.playable(),
                moves@ == legal_moves_of(self@),
                forall|k: int| 0 <= k < moves@.len() ==> (#[trigger] moves@[k]).wf(),
                forall|k: int| 0 <= k < i ==> moves@[k] != m,
            decreases moves.len() - i,
        {
            if moves[i] == m {
                return self.make_move(m);
            }
            i = i + 1;
        }
        None
    }

    /// The Zobrist hash of the position.
    pub fn key(&self) -> (k: u64)
        ensures
            k == zobrist_of(self@),
    {
        rules_hash(self)
    }

    /// Tells whether the side to move is in check.
    pub fn in_check(&self) -> (b: bool)
        ensures
            b == in_check_of(self@),
    {
        rules_checkers(self) != 0
    }
}

/// The placement at the start of a game.
pub open spec fn initial_placement() -> Placement {
    Placement {
        colors: [0x0000_0000_0000_FFFF, 0xFFFF_0000_0000_0000],
        pieces: [
            0x00FF_0000_0000_FF00,
            0x4200_0000_0000_0042,
            0x2400_0000_0000_0024,
            0x8100_0000_0000_0081,
            0x0800_0000_0000_0008,
            0x1000_0000_0000_0010,
        ],
        white_to_move: true,
        castling: [3, 3],
        en_passant: None,
    }
}

/// The placement that a FEN record describes, if it describes a position
/// that can arise in a game.
pub uninterp spec fn fen_placement(fen: Seq<char>) -> Option<Placement>;

/// The legal moves of a position, in the order in which the move generator
/// hands them out.
pub uninterp spec fn legal_moves_of(p: Placement) -> Seq<Move>;

/// The position that a legal move leads to.
pub uninterp spec fn placement_after(p: Placement, m: Move) -> Placement;

/// The Zobrist hash of a position.
pub uninterp spec fn zobrist_of(p: Placement) -> u64;

/// The squares of the pieces that give check to the side to move.
pub uninterp spec fn checkers_of(p: Placement) -> u64;

/// Whether the side to move is in check.
pub open spec fn in_check_of(p: Placement) -> bool {
    checkers_of(p) != 0
}

/// Whether the rules library holds the placement to be sound: no square
/// holds two pieces, each side has one king, the side that has moved is not
/// in check, and castling rights and en-passant square fit the pieces.
pub uninterp spec fn sane_of(p: Placement) -> bool;

/// `Board::default`: the position at the start of a game, which the rules
/// library reads from its FEN record and holds to be sound.
#[verifier::external_body]
fn rules_startpos() -> (p: Position)
    ensures
        p@ == initial_placement(),
        sane_of(p@),
{
    let b = Board::default();
    Position {
        board: b,
        placement: Placement {
            colors: ALL_COLORS.map(|c| b.color_combined(c).0),
            pieces: ALL_PIECES.map(|p| b.pieces(p).0),
            white_to_move: matches!(b.side_to_move(), Color::White),
            castling: ALL_COLORS.map(|c| b.castle_rights(c).to_index() as u8),
            en_passant: b.en_passant().map(|s| s.to_int()),
        },
    }
}

/// `Board::from_str`: the position that a FEN record describes. The rules
/// library turns down a record that it cannot read, and one whose board it
/// does not hold to be sound. On a record that is not plain ASCII it may
/// panic, and on one that leaves a side without a king it reads outside its
/// tables: both are left out.
#[verifier::external_body]
fn rules_from_fen(fen: &str) -> (r: Option<Position>)
    requires
        fen_is_readable(fen.spec_bytes()),
    ensures
        r matches Some(p) ==> fen_placement(fen@) == Some(p@) && sane_of(p@),
        r is None ==> fen_placement(fen@) is None,
{
    let b = <Board as core::str::FromStr>::from_str(fen).ok()?;
    Some(Position {
        board: b,
        placement: Placement {
            colors: ALL_COLORS.map(|c| b.color_combined(c).0),
            pieces: ALL_PIECES.map(|p| b.pieces(p).0),
            white_to_move: matches!(b.side_to_move(), Color::White),
            castling: ALL_COLORS.map(|c| b.castle_rights(c).to_index() as u8),
            en_passant: b.en_passant().map(|s| s.to_int()),
        },
    })
}

/// `MoveGen::new_legal`, drained: the legal moves of the position, each with
/// its squares as numbers below 64 and its promotion piece, if any, as the
/// number of a knight, bishop, rook or queen. The generator keeps one entry
/// per man of the side to move, and two more, in a list of 18 that it does
/// not guard; it looks the kings up without a test.
#[verifier::external_body]
fn rules_legal_moves(pos: &Position) -> (r: Vec<Move>)
    requires
        pos@.playable(),
    ensures
        r@ == legal_moves_of(pos@),
        forall|i: int| 0 <= i < r@.len() ==> (#[trigger] r@[i]).wf(),
{
    MoveGen::new_legal(&pos.board).map(|m| Move {
        from: m.get_source().to_int(),
        to: m.get_dest().to_int(),
        promotion: m.get_promotion().map(|p| p.to_index() as u8),
    }).collect()
}

/// `Board::make_move_new`: the position after a move. The move must be one
/// of the legal moves of the position: on another the rules library panics,
/// or leaves a board without a king.
#[verifier::external_body]
fn rules_make_move(pos: &Position, m: Move) -> (r: Position)
    requires
        pos@.playable(),
        legal_moves_of(pos@).contains(m),
        m.wf(),
    ensures
        r@ == placement_after(pos@, m),
{
    let promotion = m.promotion.map(|p| ALL_PIECES[p as usize]);
    let (from, to) = (ALL_SQUARES[m.from as usize], ALL_SQUARES[m.to as usize]);
    let b = pos.board.make_move_new(ChessMove::new(from, to, promotion));
    Position {
        board: b,
        placement: Placement {
            colors: ALL_COLORS.map(|c| b.color_combined(c).0),
            pieces: ALL_PIECES.map(|p| b.pieces(p).0),
            white_to_move: matches!(b.side_to_move(), Color::White),
            castling: ALL_COLORS.map(|c| b.castle_rights(c).to_index() as u8),
            en_passant: b.en_passant().map(|s| s.to_int()),
        },
    }
}

/// `Board::is_sane`: whether the rules library holds the board to be sound.
#[verifier::external_body]
fn rules_is_sane(pos: &Position) -> (b: bool)
    ensures
        b == sane_of(pos@),
{
    pos.board.is_sane()
}

/// `Board::get_hash`: the Zobrist hash of the position.
#[verifier::external_body]
fn rules_hash(pos: &Position) -> (h: u64)
    ensures
        h == zobrist_of(pos@),
{
    pos.board.get_hash()
}

/// `Board::checkers`: the squares of the pieces that give check to the side
/// to move.
#[verifier::external_body]
fn rules_checkers(pos: &Position) -> (set: u64)
    ensures
        set == checkers_of(pos@),
{
    pos.board.checkers().0
}

} // verus!
