//! FEN records, as far as this library reads them itself.
//!
//! A record is handed to the rules library to be read. That library trusts
//! the first field to set out a board with both kings; here the field is
//! held to that before it gets there.

use vstd::prelude::*;

verus! {

/// The byte of a blank, which parts the fields of a FEN record.
pub const BLANK: u8 = 32;

/// The byte of a slash, which parts the ranks of a placement field.
pub const SLASH: u8 = 47;

/// The byte of `K`, the white king.
pub const WHITE_KING: u8 = 75;

/// The byte of `k`, the black king.
pub const BLACK_KING: u8 = 107;

/// Whether the byte is the letter of a piece: one of `PNBRQK` or `pnbrqk`.
pub open spec fn is_piece_letter(c: u8) -> bool {
    c == 80 || c == 78 || c == 66 || c == 82 || c == 81 || c == 75 || c == 112 || c == 110 || c
        == 98 || c == 114 || c == 113 || c == 107
}

/// Whether the byte is one of the digits 1 to 8.
pub open spec fn is_run_digit(c: u8) -> bool {
    49 <= c <= 56
}

/// Where the field that starts at `from` ends: at the next blank, or at the
/// end of the text.
pub open spec fn field_end(text: Seq<u8>, from: int) -> int
    decreases text.len() - from,
{
    if from < 0 || from >= text.len() || text[from] == BLANK {
        from
    } else {
        field_end(text, from + 1)
    }
}

/// Whether the bytes from `i` to `end` finish a placement field of which
/// `ranks` ranks are done and `files` squares of the current rank are
/// filled: every rank fills eight squares, by piece letters and by digits
/// for runs of empty squares, and there are eight ranks.
pub open spec fn ranks_ok(text: Seq<u8>, i: int, end: int, ranks: int, files: int) -> bool
    decreases end - i,
{
    if i < 0 || i >= end {
        ranks == 7 && files == 8
    } else if text[i] == SLASH {
        files == 8 && ranks < 7 && ranks_ok(text, i + 1, end, ranks + 1, 0)
    } else if is_piece_letter(text[i]) {
        files < 8 && ranks_ok(text, i + 1, end, ranks, files + 1)
    } else if is_run_digit(text[i]) {
        files + (text[i] - 48) <= 8 && ranks_ok(text, i + 1, end, ranks, files + (text[i] - 48))
    } else {
        false
    }
}

/// Whether the byte occurs before `end`.
pub open spec fn occurs_before(text: Seq<u8>, end: int, c: u8) -> bool {
    exists|k: int| 0 <= k < end && k < text.len() && text[k] == c
}

/// A FEN record that can be handed to the rules library: it is plain ASCII,
/// and its first field sets out eight ranks of eight squares with a king of
/// each color among the pieces.
pub open spec fn fen_is_readable(text: Seq<u8>) -> bool {
    let end = field_end(text, 0);
    &&& forall|k: int| 0 <= k < text.len() ==> text[k] < 128
    &&& ranks_ok(text, 0, end, 0, 0)
    &&& occurs_before(text, end, WHITE_KING)
    &&& occurs_before(text, end, BLACK_KING)
}

/// Tells whether a FEN record can be handed to the rules library.
pub fn check_fen(text: &[u8]) -> (ok: bool)
    ensures
        ok == fen_is_readable(text@),
{
    let n = text.len();
    let mut i: usize = 0;
    while i < n
        invariant
            i <= n,
            n == text@.len(),
            forall|k: int| 0 <= k < i ==> text@[k] < 128,
        decreases n - i,
    {
        if text[i] >= 128 {
            return false;
        }
        i = i + 1;
    }
    let mut ranks: u8 = 0;
    let mut files: u8 = 0;
    let mut white_king = false;
    let mut black_king = false;
    i = 0;
    proof {
        lemma_field_end_bounds(text@, 0);
    }
    while i < n && text[i] != BLANK
        invariant
            i <= n,
            n == text@.len(),
            ranks <= 7,
            files <= 8,
            forall|k: int| 0 <= k < text@.len() ==> text@[k] < 128,
            field_end(text@, 0) == field_end(text@, i as int),
            i <= field_end(text@, 0) <= n,
            ranks_ok(text@, 0, field_end(text@, 0), 0, 0) == ranks_ok(
                text@,
                i as int,
                field_end(text@, 0),
                ranks as int,
                files as int,
            ),
            white_king == occurs_before(text@, i as int, WHITE_KING),
            black_king == occurs_before(text@, i as int, BLACK_KING),
        decreases n - i,
    {
        let c = text[i];
        proof {
            lemma_field_end_bounds(text@, i as int + 1);
        }
        if c == SLASH {
            if files != 8 || ranks >= 7 {
                return false;
            }
            ranks = ranks + 1;
            files = 0;
        } else if c == 80 || c == 78 || c == 66 || c == 82 || c == 81 || c == 75 || c == 112 || c
            == 110 || c == 98 || c == 114 || c == 113 || c == 107 {
            if files >= 8 {
                return false;
            }
            files = files + 1;
        } else if 49 <= c && c <= 56 {
            if files + (c - 48) > 8 {
                return false;
            }
            files = files + (c - 48);
        } else {
            return false;
        }
        if c == WHITE_KING {
            white_king = true;
        }
        if c == BLACK_KING {
            black_king = true;
        }
        i = i + 1;
    }
    ranks == 7 && files == 8 && white_king && black_king
}

/// The end of a field lies between its start and the end of the text.
proof fn lemma_field_end_bounds(text: Seq<u8>, from: int)
    requires
        0 <= from <= text.len(),
    ensures
        from <= field_end(text, from) <= text.len(),
    decreases text.len() - from,
{
    if from < text.len() && text[from] != BLANK {
        lemma_field_end_bounds(text, from + 1);
    }
}

} // verus!
