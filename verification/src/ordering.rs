//! Move ordering: the moves most likely to refute a position come first.
//!
//! The move remembered by the transposition table leads, where it is legal.
//! Captures follow, the most valuable victim taken by the least valuable
//! attacker first. The other moves keep the order of the move generator.

use vstd::prelude::*;
use vstd::seq_lib::*;
use crate::eval::PIECE_VALUES;
use crate::moves::Move;
use crate::placement::{bit, bit_at, Placement};

verus! {

/// The value of the piece on square `sq`, and 0 for an empty square.
pub open spec fn value_at(p: Placement, sq: int) -> int {
    match p.kind_at(sq) {
        Some(k) => PIECE_VALUES[k] as int,
        None => 0,
    }
}

/// What a capture wins at first sight: the value of the piece taken less the
/// value of the piece that takes.
pub open spec fn gain(p: Placement, m: Move) -> int {
    value_at(p, m.to as int) - value_at(p, m.from as int)
}

/// A capture is a move onto a square held by the other side.
pub open spec fn is_capture(p: Placement, m: Move) -> bool {
    bit(p.opposing(), m.to as int)
}

/// The test for captures in `p`.
pub open spec fn capture_test(p: Placement) -> spec_fn(Move) -> bool {
    |m: Move| is_capture(p, m)
}

/// The test for moves in `p` that capture nothing.
pub open spec fn quiet_test(p: Placement) -> spec_fn(Move) -> bool {
    |m: Move| !is_capture(p, m)
}

/// The test for moves other than `hint`.
pub open spec fn other_test(hint: Move) -> spec_fn(Move) -> bool {
    |m: Move| m != hint
}

/// Where `m` goes in a list sorted by falling gain: behind every move that
/// gains at least as much.
pub open spec fn insert_point(p: Placement, sorted: Seq<Move>, m: Move) -> int
    decreases sorted.len(),
{
    if sorted.len() == 0 {
        0
    } else if gain(p, sorted[0]) >= gain(p, m) {
        1 + insert_point(p, sorted.drop_first(), m)
    } else {
        0
    }
}

/// The moves sorted by falling gain; moves of equal gain keep their order.
pub open spec fn sort_by_gain(p: Placement, moves: Seq<Move>) -> Seq<Move>
    decreases moves.len(),
{
    if moves.len() == 0 {
        Seq::empty()
    } else {
        let sorted = sort_by_gain(p, moves.drop_last());
        sorted.insert(insert_point(p, sorted, moves.last()), moves.last())
    }
}

/// The gains never rise along the list.
pub open spec fn gains_fall(p: Placement, moves: Seq<Move>) -> bool {
    forall|i: int, j: int| 0 <= i <= j < moves.len() ==> gain(p, moves[i]) >= gain(p, moves[j])
}

/// The captures among `moves`, sorted by falling gain.
pub open spec fn ordered_captures(p: Placement, moves: Seq<Move>) -> Seq<Move> {
    sort_by_gain(p, moves.filter(capture_test(p)))
}

/// The moves in the order in which the search tries them: `hint` first if it
/// is among them, then the captures by falling gain, then the other moves as
/// they came.
pub open spec fn ordered_moves(p: Placement, moves: Seq<Move>, hint: Move) -> Seq<Move> {
    if moves.contains(hint) {
        let rest = moves.filter(other_test(hint));
        seq![hint] + ordered_captures(p, rest) + rest.filter(quiet_test(p))
    } else {
        ordered_captures(p, moves) + moves.filter(quiet_test(p))
    }
}

/// The insert point lies in the list, behind moves that gain at least as
/// much and before a move that gains less.
proof fn lemma_insert_point(p: Placement, sorted: Seq<Move>, m: Move)
    ensures
        0 <= insert_point(p, sorted, m) <= sorted.len(),
        forall|k: int|
            0 <= k < insert_point(p, sorted, m) ==> gain(p, #[trigger] sorted[k]) >= gain(p, m),
        insert_point(p, sorted, m) < sorted.len() ==> gain(
            p,
            sorted[insert_point(p, sorted, m)],
        ) < gain(p, m),
    decreases sorted.len(),
{
    if sorted.len() > 0 && gain(p, sorted[0]) >= gain(p, m) {
        let rest = sorted.drop_first();
        lemma_insert_point(p, rest, m);
        assert forall|k: int| 0 <= k < insert_point(p, sorted, m) implies gain(
            p,
            #[trigger] sorted[k],
        ) >= gain(p, m) by {
            if k > 0 {
                assert(sorted[k] == rest[k - 1]);
            }
        }
        if insert_point(p, sorted, m) < sorted.len() {
            assert(sorted[insert_point(p, sorted, m)] == rest[insert_point(p, rest, m)]);
        }
    }
}

/// Sorting keeps every move, as often as it occurs, and puts the gains in
/// falling order.
pub proof fn lemma_sort_by_gain(p: Placement, moves: Seq<Move>)
    ensures
        sort_by_gain(p, moves).to_multiset() == moves.to_multiset(),
        sort_by_gain(p, moves).len() == moves.len(),
        gains_fall(p, sort_by_gain(p, moves)),
    decreases moves.len(),
{
    broadcast use {to_multiset_build, to_multiset_insert};

    if moves.len() == 0 {
        assert(sort_by_gain(p, moves) =~= moves);
    } else {
        let front = moves.drop_last();
        let m = moves.last();
        let sorted = sort_by_gain(p, front);
        let at = insert_point(p, sorted, m);
        lemma_sort_by_gain(p, front);
        lemma_insert_point(p, sorted, m);
        let out = sorted.insert(at, m);
        assert(moves =~= front.push(m));
        assert(out.to_multiset() == sorted.to_multiset().insert(m));
        assert(moves.to_multiset() == front.to_multiset().insert(m));
        assert forall|i: int, j: int| 0 <= i <= j < out.len() implies gain(p, out[i]) >= gain(
            p,
            out[j],
        ) by {
            if i < at && j > at {
                assert(out[j] == sorted[j - 1]);
                assert(gain(p, sorted[at]) < gain(p, m));
                assert(gain(p, sorted[at]) >= gain(p, sorted[j - 1]));
            } else if i < at && j < at {
            } else if i < at && j == at {
            } else if i == at && j > at {
                assert(out[j] == sorted[j - 1]);
                assert(gain(p, sorted[at]) >= gain(p, sorted[j - 1]));
            } else if i > at {
                assert(out[i] == sorted[i - 1]);
                assert(out[j] == sorted[j - 1]);
            }
        }
    }
}

/// A move is in the sorted list exactly when it is in the list.
pub proof fn lemma_sort_keeps_moves(p: Placement, moves: Seq<Move>, m: Move)
    ensures
        sort_by_gain(p, moves).contains(m) == moves.contains(m),
{
    lemma_sort_by_gain(p, moves);
    to_multiset_contains(sort_by_gain(p, moves), m);
    to_multiset_contains(moves, m);
}

/// Looks up the value of the piece on square `sq`.
pub fn value_on(p: &Placement, sq: u8) -> (v: i32)
    requires
        sq < 64,
    ensures
        v == value_at(*p, sq as int),
        0 <= v <= 20000,
{
    match p.kind_on(sq) {
        Some(k) => PIECE_VALUES[k],
        None => 0,
    }
}

/// Computes what a capture wins at first sight.
pub fn gain_of(p: &Placement, m: &Move) -> (g: i32)
    requires
        m.wf(),
    ensures
        g == gain(*p, *m),
{
    value_on(p, m.to) - value_on(p, m.from)
}

/// Tells whether a move lands on a piece of the other side.
pub fn captures(p: &Placement, m: &Move) -> (b: bool)
    requires
        m.wf(),
    ensures
        b == is_capture(*p, *m),
{
    if p.white_to_move {
        bit_at(p.colors[1], m.to)
    } else {
        bit_at(p.colors[0], m.to)
    }
}

/// Every move of the list is well formed.
pub open spec fn all_wf(moves: Seq<Move>) -> bool {
    forall|i: int| 0 <= i < moves.len() ==> (#[trigger] moves[i]).wf()
}

/// A move is among the filtered moves exactly when it is among the moves and
/// passes the test.
pub proof fn lemma_filter_members(moves: Seq<Move>, test: spec_fn(Move) -> bool, m: Move)
    ensures
        moves.filter(test).contains(m) == (moves.contains(m) && test(m)),
{
    let kept = moves.filter(test);
    if kept.contains(m) {
        moves.lemma_filter_contains_rev(test, m);
        let i = choose|i: int| 0 <= i < kept.len() && kept[i] == m;
        moves.lemma_filter_pred(test, i);
    }
    if moves.contains(m) && test(m) {
        let i = choose|i: int| 0 <= i < moves.len() && moves[i] == m;
        moves.lemma_filter_contains(test, i);
    }
}

/// The ordered moves are the moves: whatever is in one list is in the other.
pub proof fn lemma_ordered_moves_members(p: Placement, moves: Seq<Move>, hint: Move, m: Move)
    ensures
        ordered_moves(p, moves, hint).contains(m) == moves.contains(m),
{
    let rest = if moves.contains(hint) {
        moves.filter(other_test(hint))
    } else {
        moves
    };
    let head: Seq<Move> = if moves.contains(hint) {
        seq![hint]
    } else {
        Seq::empty()
    };
    let caps = ordered_captures(p, rest);
    let quiets = rest.filter(quiet_test(p));
    assert(ordered_moves(p, moves, hint) =~= head + caps + quiets);
    lemma_filter_members(moves, other_test(hint), m);
    lemma_filter_members(rest, capture_test(p), m);
    lemma_filter_members(rest, quiet_test(p), m);
    lemma_sort_keeps_moves(p, rest.filter(capture_test(p)), m);
    lemma_seq_concat_contains_all_elements(head, caps, m);
    lemma_seq_concat_contains_all_elements(head + caps, quiets, m);
    if moves.contains(hint) {
        assert(head[0] == hint);
        assert(head.contains(m) == (m == hint));
    } else {
        assert(!head.contains(m));
    }
}

/// Puts `m` into a list sorted by falling gain, behind the moves that gain
/// at least as much.
fn insert_by_gain(sorted: &mut Vec<Move>, p: &Placement, m: Move)
    requires
        m.wf(),
        all_wf(old(sorted)@),
    ensures
        final(sorted)@ == old(sorted)@.insert(insert_point(*p, old(sorted)@, m), m),
        all_wf(final(sorted)@),
{
    let g = gain_of(p, &m);
    let mut j: usize = 0;
    proof {
        assert(sorted@.skip(0) =~= sorted@);
    }
    while j < sorted.len() && gain_of(p, &sorted[j]) >= g
        invariant
            j <= sorted.len(),
            sorted@ == old(sorted)@,
            all_wf(sorted@),
            g == gain(*p, m),
            insert_point(*p, sorted@, m) == j + insert_point(*p, sorted@.skip(j as int), m),
        decreases sorted.len() - j,
    {
        proof {
            let tail = sorted@.skip(j as int);
            assert(tail[0] == sorted@[j as int]);
            assert(tail.drop_first() =~= sorted@.skip(j + 1));
        }
        j = j + 1;
    }
    proof {
        let tail = sorted@.skip(j as int);
        if j < sorted.len() {
            assert(tail[0] == sorted@[j as int]);
        }
        assert(insert_point(*p, tail, m) == 0);
    }
    sorted.insert(j, m);
    proof {
        assert forall|i: int| 0 <= i < sorted@.len() implies (#[trigger] sorted@[i]).wf() by {
            if i < j {
                assert(sorted@[i] == old(sorted)@[i]);
            } else if i > j {
                assert(sorted@[i] == old(sorted)@[i - 1]);
            }
        }
    }
}

/// Sorts moves by falling gain; moves of equal gain keep their order.
pub fn sorted_by_gain(p: &Placement, moves: &Vec<Move>) -> (sorted: Vec<Move>)
    requires
        all_wf(moves@),
    ensures
        sorted@ == sort_by_gain(*p, moves@),
        all_wf(sorted@),
{
    let mut sorted: Vec<Move> = Vec::new();
    let mut i: usize = 0;
    while i < moves.len()
        invariant
            i <= moves.len(),
            all_wf(moves@),
            all_wf(sorted@),
            sorted@ == sort_by_gain(*p, moves@.take(i as int)),
        decreases moves.len() - i,
    {
        proof {
            let next = moves@.take(i + 1);
            assert(next.drop_last() =~= moves@.take(i as int));
            assert(next.last() == moves@[i as int]);
        }
        insert_by_gain(&mut sorted, p, moves[i]);
        i = i + 1;
    }
    proof {
        assert(moves@.take(i as int) =~= moves@);
    }
    sorted
}

/// Keeps the captures among `moves`, in their order.
fn select_captures(p: &Placement, moves: &Vec<Move>) -> (kept: Vec<Move>)
    requires
        all_wf(moves@),
    ensures
        kept@ == moves@.filter(capture_test(*p)),
        all_wf(kept@),
{
    let mut kept: Vec<Move> = Vec::new();
    let mut i: usize = 0;
    proof {
        reveal(Seq::filter);
    }
    while i < moves.len()
        invariant
            i <= moves.len(),
            all_wf(moves@),
            all_wf(kept@),
            kept@ == moves@.take(i as int).filter(capture_test(*p)),
        decreases moves.len() - i,
    {
        proof {
            moves@.lemma_take_succ_push(i as int);
            moves@.take(i as int).lemma_filter_push(moves@[i as int], capture_test(*p));
        }
        if captures(p, &moves[i]) {
            kept.push(moves[i]);
        }
        i = i + 1;
    }
    proof {
        assert(moves@.take(i as int) =~= moves@);
    }
    kept
}

/// Keeps the moves among `moves` that capture nothing, in their order.
fn select_quiets(p: &Placement, moves: &Vec<Move>) -> (kept: Vec<Move>)
    requires
        all_wf(moves@),
    ensures
        kept@ == moves@.filter(quiet_test(*p)),
        all_wf(kept@),
{
    let mut kept: Vec<Move> = Vec::new();
    let mut i: usize = 0;
    proof {
        reveal(Seq::filter);
    }
    while i < moves.len()
        invariant
            i <= moves.len(),
            all_wf(moves@),
            all_wf(kept@),
            kept@ == moves@.take(i as int).filter(quiet_test(*p)),
        decreases moves.len() - i,
    {
        proof {
            moves@.lemma_take_succ_push(i as int);
            moves@.take(i as int).lemma_filter_push(moves@[i as int], quiet_test(*p));
        }
        if !captures(p, &moves[i]) {
            kept.push(moves[i]);
        }
        i = i + 1;
    }
    proof {
        assert(moves@.take(i as int) =~= moves@);
    }
    kept
}

/// Takes `hint` out of `moves` and tells whether it was there.
fn without_hint(moves: &Vec<Move>, hint: Move) -> (r: (Vec<Move>, bool))
    requires
        all_wf(moves@),
    ensures
        r.0@ == moves@.filter(other_test(hint)),
        r.1 == moves@.contains(hint),
        all_wf(r.0@),
{
    let mut kept: Vec<Move> = Vec::new();
    let mut found = false;
    let mut i: usize = 0;
    proof {
        reveal(Seq::filter);
    }
    while i < moves.len()
        invariant
            i <= moves.len(),
            all_wf(moves@),
            all_wf(kept@),
            kept@ == moves@.take(i as int).filter(other_test(hint)),
            found == moves@.take(i as int).contains(hint),
        decreases moves.len() - i,
    {
        proof {
            moves@.lemma_take_succ_push(i as int);
            moves@.take(i as int).lemma_filter_push(moves@[i as int], other_test(hint));
            lemma_seq_contains_after_push(moves@.take(i as int), moves@[i as int], hint);
        }
        if moves[i] == hint {
            found = true;
        } else {
            kept.push(moves[i]);
        }
        i = i + 1;
    }
    proof {
        assert(moves@.take(i as int) =~= moves@);
    }
    (kept, found)
}

/// The captures among `moves`, the most valuable victim taken by the least
/// valuable attacker first.
pub fn capture_moves(p: &Placement, moves: &Vec<Move>) -> (caps: Vec<Move>)
    requires
        all_wf(moves@),
    ensures
        caps@ == ordered_captures(*p, moves@),
        all_wf(caps@),
{
    let caps = select_captures(p, moves);
    sorted_by_gain(p, &caps)
}

/// Puts `moves` in the order in which the search tries them: `hint` first if
/// it is among them, then the captures by falling gain, then the other moves
/// as they came.
pub fn order_moves(p: &Placement, moves: &Vec<Move>, hint: Move) -> (ordered: Vec<Move>)
    requires
        all_wf(moves@),
    ensures
        ordered@ == ordered_moves(*p, moves@, hint),
        all_wf(ordered@),
{
    let (rest, found) = without_hint(moves, hint);
    let mut ordered: Vec<Move> = Vec::new();
    let mut caps = if found {
        ordered.push(hint);
        capture_moves(p, &rest)
    } else {
        capture_moves(p, moves)
    };
    let mut quiets = if found {
        select_quiets(p, &rest)
    } else {
        select_quiets(p, moves)
    };
    ordered.append(&mut caps);
    ordered.append(&mut quiets);
    ordered
}

} // verus!
