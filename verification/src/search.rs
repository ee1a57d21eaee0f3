//! The search: negamax with alpha-beta pruning and principal-variation
//! windows, over a transposition table and a repetition table.
//!
//! `searched` says what a node returns and what it leaves in the tables;
//! `Engine::search` computes exactly that, unless the stop signal ends it.

use vstd::prelude::*;
use crate::eval::{MATED, NEG_INF};
use crate::moves::Move;
use crate::ordering::{all_wf, lemma_ordered_moves_members, order_moves, ordered_moves};
use crate::placement::Placement;
use crate::position::{in_check_of, legal_moves_of, placement_after, zobrist_of, Position};
use crate::quiescence::{neg, negated, quiesce, quiesced, raised};
use crate::signal::StopSignal;
use crate::tables::{
    count_of,
    entered,
    is_capacity,
    left,
    lookup,
    written,
    NodeType,
    RepetitionTable,
    TTEntry,
    TranspositionTable,
};

verus! {

/// What a search works on, beside the position: the two counters and the
/// slots of the two tables.
pub struct SearchState {
    pub nodes: u64,
    pub cutoffs: u64,
    pub results: Seq<(u64, TTEntry)>,
    pub counts: Seq<(u64, u16)>,
}

/// What a node hands back: the score, the best move, and the state it
/// leaves.
pub struct Outcome {
    pub state: SearchState,
    pub score: i32,
    pub best: Move,
}

/// The outcome made of a state, a score and a move.
pub open spec fn outcome(state: SearchState, score: i32, best: Move) -> Outcome {
    Outcome { state, score, best }
}

/// A counter one further, which stays at the largest number it can hold.
pub open spec fn bumped(n: u64) -> u64 {
    if n < u64::MAX {
        (n + 1) as u64
    } else {
        n
    }
}

/// The score just above, which stays at the highest score.
pub open spec fn above(x: i32) -> i32 {
    if x < i32::MAX {
        (x + 1) as i32
    } else {
        x
    }
}

/// Whether a stored result settles a node of depth `depth` with the window
/// from `alpha` to `beta`: it was searched at least as deep, and it is exact,
/// or a lower bound at or above `beta`, or an upper bound at or below `alpha`.
pub open spec fn settles(e: TTEntry, alpha: i32, beta: i32, depth: nat) -> bool {
    &&& e.depth >= depth
    &&& (e.kind == NodeType::PV || (e.kind == NodeType::Cut && e.score >= beta) || (e.kind
        == NodeType::All && e.score <= alpha))
}

/// The move that a stored result suggests trying first.
pub open spec fn hint_of(found: Option<TTEntry>) -> Move {
    match found {
        Some(e) => e.best,
        None => Move::none(),
    }
}

/// The state after a node with `key` was left through a cutoff: one cutoff
/// more, one visit of `key` less.
pub open spec fn after_cutoff(st: SearchState, key: u64) -> SearchState {
    SearchState { cutoffs: bumped(st.cutoffs), counts: left(st.counts, key), ..st }
}

/// What a node returns and leaves behind.
///
/// The node is counted. Without legal moves it is lost if the side to move
/// is in check, and drawn if not. A position that lies twice on the path
/// already is drawn. Otherwise the visit is counted in the repetition table
/// for as long as the node lasts. At depth 0 the node is worth its quiescence
/// value. A stored result that settles the node is returned as it is. Else
/// the moves are tried in order.
#[verifier::opaque]
pub open spec fn searched(
    st: SearchState,
    p: Placement,
    alpha: i32,
    beta: i32,
    depth: nat,
) -> Outcome
    decreases depth, 2int, 0int,
{
    let counted = SearchState { nodes: bumped(st.nodes), ..st };
    let moves = legal_moves_of(p);
    let key = zobrist_of(p);
    if moves.len() == 0 {
        Outcome {
            state: counted,
            score: if in_check_of(p) {
                MATED
            } else {
                0
            },
            best: Move::none(),
        }
    } else if count_of(counted.counts, key) >= 2 {
        Outcome { state: counted, score: 0, best: Move::none() }
    } else {
        let inside = SearchState { counts: entered(counted.counts, key), ..counted };
        if depth == 0 {
            Outcome {
                state: SearchState { counts: left(inside.counts, key), ..inside },
                score: quiesced(p, alpha, beta),
                best: Move::none(),
            }
        } else {
            let found = lookup(inside.results, key);
            if found is Some && settles(found->0, alpha, beta, depth) {
                Outcome {
                    state: after_cutoff(inside, key),
                    score: found->0.score,
                    best: found->0.best,
                }
            } else {
                try_moves(
                    inside,
                    p,
                    ordered_moves(p, moves, hint_of(found)),
                    0,
                    alpha,
                    alpha,
                    beta,
                    depth,
                    NEG_INF,
                    Move::none(),
                )
            }
        }
    }
}

/// The score of the `i`-th move, and the state after it was searched. The
/// first move gets the full window. Every later move gets a window of width
/// one just above `alpha`, and the full window up from its score if that
/// score falls strictly inside the window.
pub open spec fn try_one(
    st: SearchState,
    p: Placement,
    m: Move,
    i: int,
    alpha: i32,
    beta: i32,
    depth: nat,
) -> Outcome
    decreases depth, 0int, 0int,
{
    if depth == 0 {
        Outcome { state: st, score: 0, best: m }
    } else {
        let child = placement_after(p, m);
        if i == 0 {
            let full = searched(st, child, negated(beta), negated(alpha), (depth - 1) as nat);
            Outcome { state: full.state, score: negated(full.score), best: m }
        } else {
            let narrow = searched(
                st,
                child,
                negated(above(alpha)),
                negated(alpha),
                (depth - 1) as nat,
            );
            let s = negated(narrow.score);
            if alpha < s && s < beta {
                let full = searched(
                    narrow.state,
                    child,
                    negated(beta),
                    negated(s),
                    (depth - 1) as nat,
                );
                Outcome { state: full.state, score: negated(full.score), best: m }
            } else {
                Outcome { state: narrow.state, score: s, best: m }
            }
        }
    }
}

/// The result that a node stores when all its moves were tried: an upper
/// bound if no move came above the `alpha` the node began with, and an exact
/// score otherwise.
pub open spec fn final_entry(
    key: u64,
    best: Move,
    score: i32,
    depth: nat,
    alpha0: i32,
) -> TTEntry {
    TTEntry {
        key,
        best,
        score,
        depth: depth as u16,
        kind: if score <= alpha0 {
            NodeType::All
        } else {
            NodeType::PV
        },
    }
}

/// What a node returns when its moves are tried from the `i`-th on, with
/// `alpha` raised by the moves before, of which `best` with `best_score` was
/// the best.
///
/// A move that scores at or above `beta` ends the node: a lower bound `beta`
/// is stored with the move, and both are returned. When no move is left, the
/// best score and move are stored and returned. A move that leads to a
/// position that is not playable is passed over; the rules of chess know no
/// such move.
pub open spec fn try_moves(
    st: SearchState,
    p: Placement,
    ordered: Seq<Move>,
    i: int,
    alpha: i32,
    alpha0: i32,
    beta: i32,
    depth: nat,
    best_score: i32,
    best: Move,
) -> Outcome
    decreases depth, 1int, ordered.len() - i,
{
    let key = zobrist_of(p);
    if i < 0 || i >= ordered.len() {
        let st1 = SearchState {
            results: written(st.results, key, final_entry(key, best, best_score, depth, alpha0)),
            counts: left(st.counts, key),
            ..st
        };
        Outcome { state: st1, score: best_score, best }
    } else if !placement_after(p, ordered[i]).playable() {
        try_moves(st, p, ordered, i + 1, alpha, alpha0, beta, depth, best_score, best)
    } else {
        let m = ordered[i];
        let tried = try_one(st, p, m, i, alpha, beta, depth);
        let s = tried.score;
        if s >= beta {
            let cut = TTEntry {
                key,
                best: m,
                score: beta,
                depth: depth as u16,
                kind: NodeType::Cut,
            };
            let st1 = SearchState {
                results: written(tried.state.results, key, cut),
                ..after_cutoff(tried.state, key)
            };
            Outcome { state: st1, score: beta, best: m }
        } else if s > best_score {
            try_moves(tried.state, p, ordered, i + 1, raised(alpha, s), alpha0, beta, depth, s, m)
        } else {
            try_moves(
                tried.state,
                p,
                ordered,
                i + 1,
                raised(alpha, s),
                alpha0,
                beta,
                depth,
                best_score,
                best,
            )
        }
    }
}

/// The node as it is once it is counted.
pub open spec fn counted(st: SearchState) -> SearchState {
    SearchState { nodes: bumped(st.nodes), ..st }
}

/// A position without legal moves is lost for the side to move if it is in
/// check, and drawn if it is not, whatever the depth, the window and the
/// tables. The node is counted and nothing else changes.
pub proof fn lemma_no_legal_move(st: SearchState, p: Placement, alpha: i32, beta: i32, depth: nat)
    requires
        legal_moves_of(p).len() == 0,
    ensures
        in_check_of(p) ==> searched(st, p, alpha, beta, depth).score == MATED,
        !in_check_of(p) ==> searched(st, p, alpha, beta, depth).score == 0,
        searched(st, p, alpha, beta, depth).best == Move::none(),
        searched(st, p, alpha, beta, depth).state == counted(st),
{
    reveal(searched);
}

/// A position that lies twice on the path already is drawn at its third
/// visit: the node scores 0 and goes no deeper. It is counted and nothing
/// else changes.
pub proof fn lemma_third_visit_is_drawn(
    st: SearchState,
    p: Placement,
    alpha: i32,
    beta: i32,
    depth: nat,
)
    requires
        legal_moves_of(p).len() > 0,
        count_of(st.counts, zobrist_of(p)) >= 2,
    ensures
        searched(st, p, alpha, beta, depth) == outcome(counted(st), 0, Move::none()),
{
    reveal(searched);
}

/// Two visits of a key that was not on the path put it on the path twice, so
/// that a third visit is drawn.
pub proof fn lemma_two_visits_then_drawn(
    st: SearchState,
    p: Placement,
    alpha: i32,
    beta: i32,
    depth: nat,
)
    requires
        st.counts.len() > 0,
        legal_moves_of(p).len() > 0,
        count_of(st.counts, zobrist_of(p)) == 0,
    ensures
        searched(
            SearchState {
                counts: entered(entered(st.counts, zobrist_of(p)), zobrist_of(p)),
                ..st
            },
            p,
            alpha,
            beta,
            depth,
        ).score == 0,
{
    let key = zobrist_of(p);
    let twice = SearchState { counts: entered(entered(st.counts, key), key), ..st };
    crate::tables::lemma_enter_then_leave(st.counts, key);
    crate::tables::lemma_enter_then_leave(entered(st.counts, key), key);
    lemma_third_visit_is_drawn(twice, p, alpha, beta, depth);
}

/// The score of a move in a node of depth 1 or more is never the lowest
/// score.
proof fn lemma_try_one_above_lowest(
    st: SearchState,
    p: Placement,
    m: Move,
    i: int,
    alpha: i32,
    beta: i32,
    depth: nat,
)
    requires
        depth > 0,
    ensures
        try_one(st, p, m, i, alpha, beta, depth).score > i32::MIN,
        try_one(st, p, m, i, alpha, beta, depth).best == m,
{
}

/// Whether one of the moves from the `i`-th on leads to a playable
/// position.
pub open spec fn playable_from(p: Placement, ordered: Seq<Move>, i: int) -> bool {
    exists|k: int| i <= k < ordered.len() && placement_after(p, #[trigger] ordered[k]).playable()
}

/// Trying the moves of a node returns one of them: the move that ends the
/// node, or the best of those tried.
pub proof fn lemma_try_moves_returns_a_move(
    st: SearchState,
    p: Placement,
    ordered: Seq<Move>,
    i: int,
    alpha: i32,
    alpha0: i32,
    beta: i32,
    depth: nat,
    best_score: i32,
    best: Move,
)
    requires
        depth > 0,
        0 <= i <= ordered.len(),
        ordered.contains(best) || (best_score == i32::MIN && playable_from(p, ordered, i)),
    ensures
        ordered.contains(
            try_moves(st, p, ordered, i, alpha, alpha0, beta, depth, best_score, best).best,
        ),
    decreases ordered.len() - i,
{
    if i < ordered.len() {
        let m = ordered[i];
        if !placement_after(p, m).playable() {
            if !ordered.contains(best) {
                let k = choose|k: int|
                    i <= k < ordered.len() && placement_after(p, #[trigger] ordered[k]).playable();
                assert(i + 1 <= k < ordered.len());
            }
            lemma_try_moves_returns_a_move(
                st,
                p,
                ordered,
                i + 1,
                alpha,
                alpha0,
                beta,
                depth,
                best_score,
                best,
            );
        } else {
            let tried = try_one(st, p, m, i, alpha, beta, depth);
            let s = tried.score;
            lemma_try_one_above_lowest(st, p, m, i, alpha, beta, depth);
            assert(ordered.contains(m));
            if s >= beta {
            } else if s > best_score {
                lemma_try_moves_returns_a_move(
                    tried.state,
                    p,
                    ordered,
                    i + 1,
                    raised(alpha, s),
                    alpha0,
                    beta,
                    depth,
                    s,
                    m,
                );
            } else {
                lemma_try_moves_returns_a_move(
                    tried.state,
                    p,
                    ordered,
                    i + 1,
                    raised(alpha, s),
                    alpha0,
                    beta,
                    depth,
                    best_score,
                    best,
                );
            }
        }
    }
}

/// Whether the stored result for `p`, if there is one that settles the node,
/// names a legal move of `p`.
pub open spec fn stored_move_is_sound(
    st: SearchState,
    p: Placement,
    alpha: i32,
    beta: i32,
    depth: nat,
) -> bool {
    let found = lookup(st.results, zobrist_of(p));
    found is Some && settles(found->0, alpha, beta, depth) ==> legal_moves_of(p).contains(
        found->0.best,
    )
}

/// Whether the position has a legal move that leads to a playable position,
/// as every position with legal moves has by the rules of chess.
pub open spec fn leads_on(p: Placement) -> bool {
    exists|m: Move| #[trigger] legal_moves_of(p).contains(m) && placement_after(p, m).playable()
}

/// A search of depth 1 or more returns a legal move of the position, where
/// the position has a legal move that leads to a playable position, does not
/// lie twice on the path already, and the transposition table does not
/// settle the node with a move that is not legal here.
pub proof fn lemma_best_move_is_legal(
    st: SearchState,
    p: Placement,
    alpha: i32,
    beta: i32,
    depth: nat,
)
    requires
        depth >= 1,
        leads_on(p),
        count_of(st.counts, zobrist_of(p)) < 2,
        stored_move_is_sound(st, p, alpha, beta, depth),
    ensures
        legal_moves_of(p).contains(searched(st, p, alpha, beta, depth).best),
{
    reveal(searched);
    let key = zobrist_of(p);
    let moves = legal_moves_of(p);
    let inside = SearchState { counts: entered(counted(st).counts, key), ..counted(st) };
    let found = lookup(inside.results, key);
    if found is Some && settles(found->0, alpha, beta, depth) {
    } else {
        let ordered = ordered_moves(p, moves, hint_of(found));
        let good = choose|m: Move| #[trigger]
            moves.contains(m) && placement_after(p, m).playable();
        lemma_ordered_moves_members(p, moves, hint_of(found), good);
        let k = choose|k: int| 0 <= k < ordered.len() && ordered[k] == good;
        assert(placement_after(p, ordered[k]).playable());
        lemma_try_moves_returns_a_move(
            inside,
            p,
            ordered,
            0,
            alpha,
            alpha,
            beta,
            depth,
            NEG_INF,
            Move::none(),
        );
        let best = searched(st, p, alpha, beta, depth).best;
        lemma_ordered_moves_members(p, moves, hint_of(found), best);
    }
}

/// The number of slots of each table of a new engine.
pub const TABLE_SLOTS: usize = 33_554_432;

/// The engine: the two tables, the counters, and whether the stop signal was
/// seen.
pub struct Engine {
    /// The nodes visited so far.
    pub pos_counter: u64,
    /// The nodes left early so far: by a stored result that settled them, or
    /// by a move that scored at or above `beta`.
    pub cut_off_counter: u64,
    transposition_table: TranspositionTable,
    repeat_table: RepetitionTable,
    stopped: bool,
}

impl View for Engine {
    type V = SearchState;

    closed spec fn view(&self) -> SearchState {
        SearchState {
            nodes: self.pos_counter,
            cutoffs: self.cut_off_counter,
            results: self.transposition_table@,
            counts: self.repeat_table@,
        }
    }
}

/// Counts one further, and stays at the largest number.
fn bump(n: u64) -> (m: u64)
    ensures
        m == bumped(n),
{
    if n < u64::MAX {
        n + 1
    } else {
        n
    }
}

/// The score just above, which stays at the highest score.
fn next_above(x: i32) -> (y: i32)
    ensures
        y == above(x),
{
    if x < i32::MAX {
        x + 1
    } else {
        x
    }
}

/// Tells whether a stored result settles a node.
fn settles_node(e: &TTEntry, alpha: i32, beta: i32, depth: u16) -> (b: bool)
    ensures
        b == settles(*e, alpha, beta, depth as nat),
{
    e.depth >= depth && (e.kind == NodeType::PV || (e.kind == NodeType::Cut && e.score >= beta)
        || (e.kind == NodeType::All && e.score <= alpha))
}

impl Engine {
    /// Both tables are well formed.
    pub closed spec fn wf(&self) -> bool {
        &&& self.transposition_table.wf()
        &&& self.repeat_table.wf()
    }

    /// Whether the engine has seen the stop signal.
    pub closed spec fn is_stopped(&self) -> bool {
        self.stopped
    }

    /// The number of slots of the transposition table.
    pub closed spec fn result_slots(&self) -> usize {
        self.transposition_table.slot_count()
    }

    /// The number of slots of the repetition table.
    pub closed spec fn counter_slots(&self) -> usize {
        self.repeat_table.slot_count()
    }

    /// The same tables, of the same sizes.
    pub open spec fn same_shape(&self, other: &Engine) -> bool {
        &&& self.result_slots() == other.result_slots()
        &&& self.counter_slots() == other.counter_slots()
    }

    /// In a well-formed engine each table has as many slots as it was made
    /// with.
    pub proof fn lemma_wf(&self)
        requires
            self.wf(),
        ensures
            self@.results.len() == self.result_slots(),
            self@.counts.len() == self.counter_slots(),
            is_capacity(self.result_slots()),
            is_capacity(self.counter_slots()),
    {
        self.transposition_table.lemma_wf();
        self.repeat_table.lemma_wf();
    }

    /// Makes an engine with tables of `TABLE_SLOTS` slots each.
    pub fn new() -> (engine: Engine)
        ensures
            engine.wf(),
            !engine.is_stopped(),
            engine.result_slots() == TABLE_SLOTS,
            engine.counter_slots() == TABLE_SLOTS,
            engine@ == fresh_state(TABLE_SLOTS as nat, TABLE_SLOTS as nat),
    {
        assert(is_capacity(TABLE_SLOTS)) by {
            assert(0x200_0000usize & ((0x200_0000usize - 1) as usize) == 0) by (bit_vector);
        }
        Engine::with_capacity(TABLE_SLOTS, TABLE_SLOTS)
    }

    /// Makes an engine with a transposition table of `results` slots and a
    /// repetition table of `counters` slots.
    pub fn with_capacity(results: usize, counters: usize) -> (engine: Engine)
        requires
            is_capacity(results),
            is_capacity(counters),
        ensures
            engine.wf(),
            !engine.is_stopped(),
            engine.result_slots() == results,
            engine.counter_slots() == counters,
            engine@ == fresh_state(results as nat, counters as nat),
    {
        Engine {
            pos_counter: 0,
            cut_off_counter: 0,
            transposition_table: TranspositionTable::new(results),
            repeat_table: RepetitionTable::new(counters),
            stopped: false,
        }
    }

    /// Tells whether the engine has seen the stop signal.
    pub fn stopped(&self) -> (b: bool)
        ensures
            b == self.is_stopped(),
    {
        self.stopped
    }

    /// The nodes visited so far.
    pub fn nodes(&self) -> (n: u64)
        ensures
            n == self@.nodes,
    {
        self.pos_counter
    }

    /// The nodes left early so far.
    pub fn cutoffs(&self) -> (n: u64)
        ensures
            n == self@.cutoffs,
    {
        self.cut_off_counter
    }

    /// Notes that the stop signal was seen.
    pub fn stop(&mut self)
        requires
            old(self).wf(),
        ensures
            final(self).wf(),
            final(self).same_shape(old(self)),
            final(self).is_stopped(),
            final(self)@ == old(self)@,
    {
        self.stopped = true;
    }

    /// Forgets that the stop signal was seen, so that the engine can search
    /// again.
    pub fn resume(&mut self)
        requires
            old(self).wf(),
        ensures
            final(self).wf(),
            final(self).same_shape(old(self)),
            !final(self).is_stopped(),
            final(self)@ == old(self)@,
    {
        self.stopped = false;
    }

    /// Sets every count of the repetition table to 0.
    pub fn reset_counts(&mut self)
        requires
            old(self).wf(),
        ensures
            final(self).wf(),
            final(self).same_shape(old(self)),
            final(self).is_stopped() == old(self).is_stopped(),
            final(self)@ == (SearchState {
                counts: Seq::new(old(self)@.counts.len(), |i: int| (0u64, 0u16)),
                ..old(self)@
            }),
    {
        proof {
            self.repeat_table.lemma_wf();
        }
        self.repeat_table = RepetitionTable::new(self.repeat_table.capacity());
    }

    /// Counts one more visit of `key` in the repetition table.
    pub fn enter(&mut self, key: u64)
        requires
            old(self).wf(),
        ensures
            final(self).wf(),
            final(self).same_shape(old(self)),
            final(self).is_stopped() == old(self).is_stopped(),
            final(self)@ == (SearchState { counts: entered(old(self)@.counts, key), ..old(self)@ }),
    {
        self.repeat_table.enter(key);
    }

    /// Searches `pos` to `depth` inside the window from `alpha` to `beta`,
    /// and returns the score, as the side to move sees it, with the best
    /// move.
    ///
    /// The stop signal is looked at once per node. An engine that has seen it
    /// does no more work: every node returns at once, and what it returns
    /// means nothing. Otherwise the search returns what `searched` says, and
    /// in particular:
    ///
    /// - without legal moves, the score of a mate if the side to move is in
    ///   check and 0 if not;
    /// - with legal moves in a position that lies twice on the path already,
    ///   0, and nothing but the node count changes;
    /// - at depth 1 or more, in a position not twice on the path, a legal
    ///   move, unless no move leads to a playable position or the
    ///   transposition table settles the node with a move that is not legal
    ///   here.
    pub fn search(
        &mut self,
        pos: &Position,
        alpha: i32,
        beta: i32,
        depth: u16,
        signal: &StopSignal,
    ) -> (r: (i32, Move))
        requires
            old(self).wf(),
            pos@.playable(),
        ensures
            final(self).wf(),
            final(self).same_shape(old(self)),
            old(self).is_stopped() ==> final(self).is_stopped() && final(self)@ == old(self)@,
            final(self).is_stopped() ==> r == (0i32, Move::none()),
            !final(self).is_stopped() ==> outcome(final(self)@, r.0, r.1) == searched(
                old(self)@,
                pos@,
                alpha,
                beta,
                depth as nat,
            ),
            !final(self).is_stopped() && legal_moves_of(pos@).len() == 0 ==> r.1 == Move::none()
                && r.0 == (if in_check_of(pos@) {
                MATED
            } else {
                0
            }),
            !final(self).is_stopped() && legal_moves_of(pos@).len() > 0 && count_of(
                old(self)@.counts,
                zobrist_of(pos@),
            ) >= 2 ==> r == (0i32, Move::none()) && final(self)@ == counted(old(self)@),
            !final(self).is_stopped() && depth >= 1 && count_of(
                old(self)@.counts,
                zobrist_of(pos@),
            ) < 2 && stored_move_is_sound(old(self)@, pos@, alpha, beta, depth as nat)
                && leads_on(pos@) ==> legal_moves_of(pos@).contains(r.1),
    {
        let r = self.node(pos, alpha, beta, depth, signal);
        proof {
            let st = old(self)@;
            let p = pos@;
            if legal_moves_of(p).len() == 0 {
                lemma_no_legal_move(st, p, alpha, beta, depth as nat);
            } else if count_of(st.counts, zobrist_of(p)) >= 2 {
                lemma_third_visit_is_drawn(st, p, alpha, beta, depth as nat);
            } else if depth >= 1 && stored_move_is_sound(st, p, alpha, beta, depth as nat)
                && leads_on(p) {
                lemma_best_move_is_legal(st, p, alpha, beta, depth as nat);
            }
        }
        r
    }

    /// One node of the search, and all the nodes below it.
    fn node(
        &mut self,
        pos: &Position,
        alpha: i32,
        beta: i32,
        depth: u16,
        signal: &StopSignal,
    ) -> (r: (i32, Move))
        requires
            old(self).wf(),
            pos@.playable(),
        ensures
            final(self).wf(),
            final(self).same_shape(old(self)),
            old(self).is_stopped() ==> final(self).is_stopped() && final(self)@ == old(self)@,
            final(self).is_stopped() ==> r == (0i32, Move::none()),
            !final(self).is_stopped() ==> outcome(final(self)@, r.0, r.1) == searched(
                old(self)@,
                pos@,
                alpha,
                beta,
                depth as nat,
            ),
        decreases depth, 1int,
    {
        proof {
            reveal(searched);
        }
        if self.stopped {
            return (0, Move::empty());
        }
        if signal.is_raised() {
            self.stopped = true;
            return (0, Move::empty());
        }
        self.pos_counter = bump(self.pos_counter);
        let moves = pos.legal_moves();
        if moves.len() == 0 {
            let score = if pos.in_check() {
                MATED
            } else {
                0
            };
            return (score, Move::empty());
        }
        let key = pos.key();
        if self.repeat_table.get(key) >= 2 {
            return (0, Move::empty());
        }
        self.repeat_table.enter(key);
        if depth == 0 {
            let score = quiesce(alpha, beta, pos);
            self.repeat_table.leave(key);
            return (score, Move::empty());
        }
        let found = self.transposition_table.probe(key);
        let mut hint = Move::empty();
        match found {
            Some(e) => {
                if settles_node(&e, alpha, beta, depth) {
                    self.repeat_table.leave(key);
                    self.cut_off_counter = bump(self.cut_off_counter);
                    return (e.score, e.best);
                }
                hint = e.best;
            },
            None => {},
        }
        let p = pos.placement();
        let ordered = order_moves(&p, &moves, hint);
        let ghost goal = searched(old(self)@, p, alpha, beta, depth as nat);
        let mut best_score = NEG_INF;
        let mut best = Move::empty();
        let mut a = alpha;
        let mut i: usize = 0;
        while i < ordered.len()
            invariant
                i <= ordered.len(),
                depth > 0,
                p == pos@,
                p.playable(),
                key == zobrist_of(p),
                self.wf(),
                self.same_shape(old(self)),
                !self.is_stopped(),
                !old(self).is_stopped(),
                all_wf(ordered@),
                ordered@ == ordered_moves(p, legal_moves_of(p), hint),
                goal == searched(old(self)@, p, alpha, beta, depth as nat),
                goal == try_moves(
                    self@,
                    p,
                    ordered@,
                    i as int,
                    a,
                    alpha,
                    beta,
                    depth as nat,
                    best_score,
                    best,
                ),
            decreases ordered.len() - i,
        {
            let m = ordered[i];
            proof {
                assert(ordered@.contains(m));
                lemma_ordered_moves_members(p, legal_moves_of(p), hint, m);
            }
            match pos.make_move(m) {
                Some(child) => {
                    let s = self.score_move(pos, m, &child, i, a, beta, depth, signal);
                    if self.stopped {
                        return (0, Move::empty());
                    }
                    if s >= beta {
                        let cut = TTEntry { key, best: m, score: beta, depth, kind: NodeType::Cut };
                        self.transposition_table.store(key, cut);
                        self.repeat_table.leave(key);
                        self.cut_off_counter = bump(self.cut_off_counter);
                        return (beta, m);
                    }
                    if s > best_score {
                        best_score = s;
                        best = m;
                    }
                    if s > a {
                        a = s;
                    }
                },
                None => {},
            }
            i = i + 1;
        }
        let kind = if best_score <= alpha {
            NodeType::All
        } else {
            NodeType::PV
        };
        self.transposition_table.store(key, TTEntry { key, best, score: best_score, depth, kind });
        self.repeat_table.leave(key);
        (best_score, best)
    }

    /// Scores the `i`-th move of a node of depth `depth`: the first with the
    /// full window, every later one with a window of width one and, if its
    /// score falls strictly inside the window, with the full window again.
    fn score_move(
        &mut self,
        pos: &Position,
        m: Move,
        child: &Position,
        i: usize,
        alpha: i32,
        beta: i32,
        depth: u16,
        signal: &StopSignal,
    ) -> (s: i32)
        requires
            old(self).wf(),
            !old(self).is_stopped(),
            depth > 0,
            child@ == placement_after(pos@, m),
            child@.playable(),
        ensures
            final(self).wf(),
            final(self).same_shape(old(self)),
            !final(self).is_stopped() ==> outcome(final(self)@, s, m) == try_one(
                old(self)@,
                pos@,
                m,
                i as int,
                alpha,
                beta,
                depth as nat,
            ),
        decreases depth, 0int,
    {
        proof {
            reveal(searched);
        }
        if i == 0 {
            let full = self.node(child, neg(beta), neg(alpha), depth - 1, signal);
            return neg(full.0);
        }
        let narrow = self.node(child, neg(next_above(alpha)), neg(alpha), depth - 1, signal);
        if self.stopped {
            return 0;
        }
        let s = neg(narrow.0);
        if alpha < s && s < beta {
            let full = self.node(child, neg(beta), neg(s), depth - 1, signal);
            return neg(full.0);
        }
        s
    }
}

/// The line of best moves that the stored results hold from `p` on: the
/// move stored for `p`, the move stored for the position after it, and so
/// on. The line ends after `limit` moves, at a position that it has passed
/// before, where nothing is stored, and where the stored move cannot be
/// made.
pub open spec fn line_from(
    results: Seq<(u64, TTEntry)>,
    p: Placement,
    seen: Seq<u64>,
    limit: nat,
) -> Seq<Move>
    decreases limit,
{
    let key = zobrist_of(p);
    let found = lookup(results, key);
    if limit == 0 || seen.contains(key) || found is None {
        Seq::empty()
    } else {
        let m = found->0.best;
        if legal_moves_of(p).contains(m) && placement_after(p, m).playable() {
            seq![m] + line_from(results, placement_after(p, m), seen.push(key), (limit - 1) as nat)
        } else {
            Seq::empty()
        }
    }
}

/// Tells whether `key` is among `keys`.
fn is_among(keys: &Vec<u64>, key: u64) -> (b: bool)
    ensures
        b == keys@.contains(key),
{
    let mut i: usize = 0;
    while i < keys.len()
        invariant
            i <= keys.len(),
            forall|k: int| 0 <= k < i ==> keys@[k] != key,
        decreases keys.len() - i,
    {
        if keys[i] == key {
            return true;
        }
        i = i + 1;
    }
    false
}

impl Engine {
    /// Reads the principal variation off the transposition table: the line
    /// of stored best moves from `pos` on, `limit` moves at most.
    pub fn principal_variation(&self, pos: &Position, limit: usize) -> (line: Vec<Move>)
        requires
            self.wf(),
            pos@.playable(),
        ensures
            line@ == line_from(self@.results, pos@, Seq::empty(), limit as nat),
    {
        let mut line: Vec<Move> = Vec::new();
        let mut seen: Vec<u64> = Vec::new();
        let mut current = *pos;
        let mut left = limit;
        let mut ended = false;
        while left > 0 && !ended
            invariant
                self.wf(),
                current@.playable(),
                line_from(self@.results, pos@, Seq::empty(), limit as nat) == line@ + line_from(
                    self@.results,
                    current@,
                    seen@,
                    left as nat,
                ),
                ended ==> line_from(self@.results, current@, seen@, left as nat) == Seq::<
                    Move,
                >::empty(),
            decreases left, if ended { 0int } else { 1int },
        {
            let key = current.key();
            let next = if is_among(&seen, key) {
                None
            } else {
                match self.transposition_table.probe(key) {
                    Some(e) => match current.try_move(e.best) {
                        Some(next) => Some((e.best, next)),
                        None => None,
                    },
                    None => None,
                }
            };
            match next {
                Some((m, next)) => {
                    proof {
                        let rest = line_from(
                            self@.results,
                            next@,
                            seen@.push(key),
                            (left - 1) as nat,
                        );
                        assert(line@ + (seq![m] + rest) =~= line@.push(m) + rest);
                    }
                    line.push(m);
                    seen.push(key);
                    current = next;
                    left = left - 1;
                },
                None => {
                    ended = true;
                },
            }
        }
        proof {
            assert(line_from(self@.results, current@, seen@, left as nat) =~= Seq::<Move>::empty());
            assert(line@ + Seq::<Move>::empty() =~= line@);
        }
        line
    }
}

/// The state of a new engine: nothing counted, every slot of the
/// transposition table blank, every count 0.
pub open spec fn fresh_state(results: nat, counters: nat) -> SearchState {
    SearchState {
        nodes: 0,
        cutoffs: 0,
        results: Seq::new(results, |i: int| (0u64, crate::tables::blank_entry())),
        counts: Seq::new(counters, |i: int| (0u64, 0u16)),
    }
}

} // verus!
