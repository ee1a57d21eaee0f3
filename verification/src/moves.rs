//! Moves as plain values: two squares and an optional promotion piece.

use vstd::prelude::*;
use vstd::string::{StrSliceExecFns, StringExecFns};

verus! {

/// A move: the square left, the square reached, and the piece a pawn turns
/// into when it reaches the last rank.
///
/// Squares are numbered 0 to 63, a1 = 0, b1 = 1, ..., h8 = 63. A promotion
/// piece is numbered 1 (knight), 2 (bishop), 3 (rook) or 4 (queen).
#[derive(Clone, Copy, Debug, PartialEq, Eq, PartialOrd, Structural)]
pub struct Move {
    pub from: u8,
    pub to: u8,
    pub promotion: Option<u8>,
}

impl Move {
    /// The empty move, which fills a slot that holds no move. It is never a
    /// move of the game: it leaves and reaches the same square.
    pub open spec fn none() -> Move {
        Move { from: 0, to: 0, promotion: None }
    }

    /// A move is well formed when its squares are on the board and its
    /// promotion piece, if any, is one a pawn may turn into.
    pub open spec fn wf(self) -> bool {
        &&& self.from < 64
        &&& self.to < 64
        &&& self.promotion matches Some(p) ==> 1 <= p <= 4
    }

    /// Returns the empty move.
    pub fn empty() -> (m: Move)
        ensures
            m == Move::none(),
    {
        Move { from: 0, to: 0, promotion: None }
    }

    /// Tells whether this is the empty move.
    pub fn is_none(&self) -> (b: bool)
        ensures
            b == (*self == Move::none()),
    {
        self.from == 0 && self.to == 0 && self.promotion.is_none()
    }
}

/// The letter of file `f`, counted from 0.
pub open spec fn file_char(f: int) -> char {
    if f == 0 {
        'a'
    } else if f == 1 {
        'b'
    } else if f == 2 {
        'c'
    } else if f == 3 {
        'd'
    } else if f == 4 {
        'e'
    } else if f == 5 {
        'f'
    } else if f == 6 {
        'g'
    } else {
        'h'
    }
}

/// The digit of rank `r`, counted from 0.
pub open spec fn rank_char(r: int) -> char {
    if r == 0 {
        '1'
    } else if r == 1 {
        '2'
    } else if r == 2 {
        '3'
    } else if r == 3 {
        '4'
    } else if r == 4 {
        '5'
    } else if r == 5 {
        '6'
    } else if r == 6 {
        '7'
    } else {
        '8'
    }
}

/// The letter of promotion piece `p`.
pub open spec fn piece_char(p: int) -> char {
    if p == 1 {
        'n'
    } else if p == 2 {
        'b'
    } else if p == 3 {
        'r'
    } else {
        'q'
    }
}

/// The file that a letter names, if it names one.
pub open spec fn file_of(c: char) -> Option<u8> {
    if c == 'a' {
        Some(0)
    } else if c == 'b' {
        Some(1)
    } else if c == 'c' {
        Some(2)
    } else if c == 'd' {
        Some(3)
    } else if c == 'e' {
        Some(4)
    } else if c == 'f' {
        Some(5)
    } else if c == 'g' {
        Some(6)
    } else if c == 'h' {
        Some(7)
    } else {
        None
    }
}

/// The rank that a digit names, if it names one.
pub open spec fn rank_of(c: char) -> Option<u8> {
    if c == '1' {
        Some(0)
    } else if c == '2' {
        Some(1)
    } else if c == '3' {
        Some(2)
    } else if c == '4' {
        Some(3)
    } else if c == '5' {
        Some(4)
    } else if c == '6' {
        Some(5)
    } else if c == '7' {
        Some(6)
    } else if c == '8' {
        Some(7)
    } else {
        None
    }
}

/// The promotion piece that a letter names, if it names one.
pub open spec fn piece_of(c: char) -> Option<u8> {
    if c == 'n' {
        Some(1)
    } else if c == 'b' {
        Some(2)
    } else if c == 'r' {
        Some(3)
    } else if c == 'q' {
        Some(4)
    } else {
        None
    }
}

/// The square that a file letter and a rank digit name, if they name one.
pub open spec fn square_of(file: char, rank: char) -> Option<u8> {
    match (file_of(file), rank_of(rank)) {
        (Some(f), Some(r)) => Some((8 * r + f) as u8),
        _ => None,
    }
}

/// The text of a move: the square left, the square reached, and the letter
/// of the promotion piece if there is one, as in `e2e4` and `e7e8q`.
pub open spec fn move_text(m: Move) -> Seq<char> {
    let squares = seq![
        file_char(m.from as int % 8),
        rank_char(m.from as int / 8),
        file_char(m.to as int % 8),
        rank_char(m.to as int / 8),
    ];
    match m.promotion {
        Some(p) => squares.push(piece_char(p as int)),
        None => squares,
    }
}

/// The move that a text names: four characters for the two squares, and a
/// fifth for the promotion piece where there is one. Any other text names
/// no move.
pub open spec fn move_of_text(text: Seq<char>) -> Option<Move> {
    if text.len() != 4 && text.len() != 5 {
        None
    } else {
        match (square_of(text[0], text[1]), square_of(text[2], text[3])) {
            (Some(from), Some(to)) => {
                if text.len() == 4 {
                    Some(Move { from, to, promotion: None })
                } else {
                    match piece_of(text[4]) {
                        Some(p) => Some(Move { from, to, promotion: Some(p) }),
                        None => None,
                    }
                }
            },
            _ => None,
        }
    }
}

/// The text of a well-formed move names that move.
pub proof fn lemma_text_names_the_move(m: Move)
    requires
        m.wf(),
    ensures
        move_of_text(move_text(m)) == Some(m),
{
    let t = move_text(m);
    assert(square_of(t[0], t[1]) == Some(m.from));
    assert(square_of(t[2], t[3]) == Some(m.to));
}

fn file_name(f: u8) -> (name: &'static str)
    requires
        f < 8,
    ensures
        name@ == seq![file_char(f as int)],
{
    proof {
        reveal_strlit("a");
        reveal_strlit("b");
        reveal_strlit("c");
        reveal_strlit("d");
        reveal_strlit("e");
        reveal_strlit("f");
        reveal_strlit("g");
        reveal_strlit("h");
    }
    let name = if f == 0 {
        "a"
    } else if f == 1 {
        "b"
    } else if f == 2 {
        "c"
    } else if f == 3 {
        "d"
    } else if f == 4 {
        "e"
    } else if f == 5 {
        "f"
    } else if f == 6 {
        "g"
    } else {
        "h"
    };
    assert(name@ =~= seq![file_char(f as int)]);
    name
}

fn rank_name(r: u8) -> (name: &'static str)
    requires
        r < 8,
    ensures
        name@ == seq![rank_char(r as int)],
{
    proof {
        reveal_strlit("1");
        reveal_strlit("2");
        reveal_strlit("3");
        reveal_strlit("4");
        reveal_strlit("5");
        reveal_strlit("6");
        reveal_strlit("7");
        reveal_strlit("8");
    }
    let name = if r == 0 {
        "1"
    } else if r == 1 {
        "2"
    } else if r == 2 {
        "3"
    } else if r == 3 {
        "4"
    } else if r == 4 {
        "5"
    } else if r == 5 {
        "6"
    } else if r == 6 {
        "7"
    } else {
        "8"
    };
    assert(name@ =~= seq![rank_char(r as int)]);
    name
}

fn piece_name(p: u8) -> (name: &'static str)
    requires
        1 <= p <= 4,
    ensures
        name@ == seq![piece_char(p as int)],
{
    proof {
        reveal_strlit("n");
        reveal_strlit("b");
        reveal_strlit("r");
        reveal_strlit("q");
    }
    let name = if p == 1 {
        "n"
    } else if p == 2 {
        "b"
    } else if p == 3 {
        "r"
    } else {
        "q"
    };
    assert(name@ =~= seq![piece_char(p as int)]);
    name
}

fn file_index(c: char) -> (f: Option<u8>)
    ensures
        f == file_of(c),
{
    if c == 'a' {
        Some(0)
    } else if c == 'b' {
        Some(1)
    } else if c == 'c' {
        Some(2)
    } else if c == 'd' {
        Some(3)
    } else if c == 'e' {
        Some(4)
    } else if c == 'f' {
        Some(5)
    } else if c == 'g' {
        Some(6)
    } else if c == 'h' {
        Some(7)
    } else {
        None
    }
}

fn rank_index(c: char) -> (r: Option<u8>)
    ensures
        r == rank_of(c),
{
    if c == '1' {
        Some(0)
    } else if c == '2' {
        Some(1)
    } else if c == '3' {
        Some(2)
    } else if c == '4' {
        Some(3)
    } else if c == '5' {
        Some(4)
    } else if c == '6' {
        Some(5)
    } else if c == '7' {
        Some(6)
    } else if c == '8' {
        Some(7)
    } else {
        None
    }
}

fn piece_index(c: char) -> (p: Option<u8>)
    ensures
        p == piece_of(c),
{
    if c == 'n' {
        Some(1)
    } else if c == 'b' {
        Some(2)
    } else if c == 'r' {
        Some(3)
    } else if c == 'q' {
        Some(4)
    } else {
        None
    }
}

fn square_index(file: char, rank: char) -> (sq: Option<u8>)
    ensures
        sq == square_of(file, rank),
{
    match (file_index(file), rank_index(rank)) {
        (Some(f), Some(r)) => Some(8 * r + f),
        _ => None,
    }
}

impl Move {
    /// Writes the move as text, as in `e2e4` and `e7e8q`. The empty move
    /// reads `a1a1`.
    pub fn to_uci(&self) -> (text: String)
        requires
            self.wf(),
        ensures
            text@ == move_text(*self),
    {
        let mut text = String::new();
        text.append(file_name(self.from % 8));
        text.append(rank_name(self.from / 8));
        text.append(file_name(self.to % 8));
        text.append(rank_name(self.to / 8));
        match self.promotion {
            Some(p) => {
                text.append(piece_name(p));
            },
            None => {},
        }
        assert(text@ =~= move_text(*self));
        text
    }

    /// Reads a move from its text. A text that names no move gives nothing.
    pub fn from_uci(text: &str) -> (r: Option<Move>)
        ensures
            r == move_of_text(text@),
            r matches Some(m) ==> m.wf(),
    {
        let n = text.unicode_len();
        if n != 4 && n != 5 {
            return None;
        }
        let from = square_index(text.get_char(0), text.get_char(1));
        let to = square_index(text.get_char(2), text.get_char(3));
        match (from, to) {
            (Some(from), Some(to)) => {
                if n == 4 {
                    Some(Move { from, to, promotion: None })
                } else {
                    match piece_index(text.get_char(4)) {
                        Some(p) => Some(Move { from, to, promotion: Some(p) }),
                        None => None,
                    }
                }
            },
            _ => None,
        }
    }
}

} // verus!
