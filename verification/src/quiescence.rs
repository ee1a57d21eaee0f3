//! Quiescence search: past the horizon, captures are played out before the
//! position is judged, so that a piece left hanging is not counted as won.

use vstd::prelude::*;
use crate::eval::{evaluate, relative_score};
use crate::moves::Move;
use crate::ordering::{
    capture_moves,
    capture_test,
    lemma_filter_members,
    lemma_sort_keeps_moves,
    ordered_captures,
};
use crate::placement::Placement;
use crate::position::{legal_moves_of, placement_after, Position};

verus! {

/// The score seen from the other side. The lowest score turns into the
/// highest one, which has no exact opposite.
pub open spec fn negated(x: i32) -> i32 {
    if x == i32::MIN {
        i32::MAX
    } else {
        (-x) as i32
    }
}

/// Turns a score into the score seen from the other side.
pub fn neg(x: i32) -> (y: i32)
    ensures
        y == negated(x),
{
    if x == i32::MIN {
        i32::MAX
    } else {
        -x
    }
}

/// The greater of two scores.
pub open spec fn raised(a: i32, s: i32) -> i32 {
    if s > a {
        s
    } else {
        a
    }
}

/// The value of a position once the captures are played out, inside the
/// window from `alpha` to `beta`.
///
/// The side to move may stand pat on the static score. A score at or above
/// `beta` ends the node with `beta`. Where there is no capture, the static
/// score is the value.
pub open spec fn quiesced(p: Placement, alpha: i32, beta: i32) -> i32
    decreases p.piece_count(), 1int, 0int,
{
    let stand = relative_score(p) as i32;
    if stand >= beta {
        beta
    } else {
        let caps = ordered_captures(p, legal_moves_of(p));
        if caps.len() == 0 {
            stand
        } else {
            quiesced_from(p, caps, 0, raised(alpha, stand), beta)
        }
    }
}

/// The value of a position after the captures from the `i`-th on were tried
/// in turn, with `alpha` raised by those before. A capture is followed only
/// where it leads to a playable position with fewer pieces on the board, as
/// every capture does.
pub open spec fn quiesced_from(
    p: Placement,
    caps: Seq<Move>,
    i: int,
    alpha: i32,
    beta: i32,
) -> i32
    decreases p.piece_count(), 0int, caps.len() - i,
{
    if i < 0 || i >= caps.len() {
        alpha
    } else {
        let child = placement_after(p, caps[i]);
        if child.playable() && child.piece_count() < p.piece_count() {
            let s = negated(quiesced(child, negated(beta), negated(alpha)));
            if s >= beta {
                beta
            } else {
                quiesced_from(p, caps, i + 1, raised(alpha, s), beta)
            }
        } else {
            quiesced_from(p, caps, i + 1, alpha, beta)
        }
    }
}

/// Every ordered capture is a legal move.
pub proof fn lemma_captures_are_legal(p: Placement, m: Move)
    requires
        ordered_captures(p, legal_moves_of(p)).contains(m),
    ensures
        legal_moves_of(p).contains(m),
{
    let legal = legal_moves_of(p);
    lemma_sort_keeps_moves(p, legal.filter(capture_test(p)), m);
    lemma_filter_members(legal, capture_test(p), m);
}

/// Quiescence search: the value of the position once the captures are played
/// out, inside the window from `alpha` to `beta`.
pub fn quiesce(alpha: i32, beta: i32, pos: &Position) -> (score: i32)
    requires
        pos@.playable(),
    ensures
        score == quiesced(pos@, alpha, beta),
    decreases pos@.piece_count(),
{
    let stand = evaluate(pos);
    if stand >= beta {
        return beta;
    }
    let p = pos.placement();
    let legal = pos.legal_moves();
    let caps = capture_moves(&p, &legal);
    if caps.len() == 0 {
        return stand;
    }
    let pieces = p.count_pieces();
    let mut a = if stand > alpha {
        stand
    } else {
        alpha
    };
    let mut i: usize = 0;
    while i < caps.len()
        invariant
            i <= caps.len(),
            p == pos@,
            p.playable(),
            pieces == p.piece_count(),
            caps@ == ordered_captures(p, legal_moves_of(p)),
            crate::ordering::all_wf(caps@),
            quiesced_from(p, caps@, i as int, a, beta) == quiesced(pos@, alpha, beta),
        decreases caps.len() - i,
    {
        let m = caps[i];
        proof {
            assert(caps@.contains(m));
            lemma_captures_are_legal(p, m);
        }
        match pos.make_move(m) {
            Some(child) => {
                if child.placement().count_pieces() < pieces {
                    let s = neg(quiesce(neg(beta), neg(a), &child));
                    if s >= beta {
                        return beta;
                    }
                    if s > a {
                        a = s;
                    }
                }
            },
            None => {},
        }
        i = i + 1;
    }
    a
}

} // verus!
