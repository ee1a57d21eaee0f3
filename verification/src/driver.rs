//! Iterative deepening: the position is searched to depth 1, 2, 3 and so on,
//! and every completed depth is reported.
//!
//! `Deepening` decides which depth comes next and when the run is over;
//! whoever drives it passes each report on as it comes. A run is over when
//! the last depth is done or when the engine has seen the stop signal, and a
//! run that is over reports nothing more.

use vstd::prelude::*;
use crate::eval::{INF, NEG_INF};
use crate::moves::Move;
use crate::placement::Placement;
use crate::position::{legal_moves_of, zobrist_of, Position};
use crate::search::{
    leads_on,
    lemma_best_move_is_legal,
    searched,
    stored_move_is_sound,
    Engine,
    Outcome,
    SearchState,
};
use crate::signal::StopSignal;
use crate::tables::{count_of, entered_all, lemma_others_entered};

verus! {

/// What is reported when a depth is completed.
#[derive(Clone, Copy, Debug, PartialEq, Eq, Structural)]
pub struct IterationReport {
    /// The depth that was completed.
    pub depth: u16,
    /// The score of the position, as the side to move sees it.
    pub score: i32,
    /// The best move found.
    pub best_move: Move,
    /// The nodes that the engine has visited so far.
    pub nodes: u64,
}

/// The test for keys other than `root`.
pub open spec fn earlier_test(root: u64) -> spec_fn(u64) -> bool {
    |k: u64| k != root
}

/// The counts at the start of an iteration: a table of `capacity` slots in
/// which every earlier position of the game was entered once per occurrence.
/// The position to search is left out, so that it is searched in any case.
pub open spec fn seeded_counts(capacity: nat, history: Seq<u64>, root: u64) -> Seq<(u64, u16)> {
    entered_all(Seq::new(capacity, |i: int| (0u64, 0u16)), history.filter(earlier_test(root)))
}

/// The state in which an iteration starts: the counts seeded anew, the rest
/// as it was.
pub open spec fn prepared(st: SearchState, history: Seq<u64>, root: u64) -> SearchState {
    SearchState { counts: seeded_counts(st.counts.len(), history, root), ..st }
}

/// What the iteration of depth `depth` returns and leaves behind: the search
/// of the position with the widest window, from the prepared state.
pub open spec fn iteration(
    st: SearchState,
    p: Placement,
    history: Seq<u64>,
    depth: nat,
) -> Outcome {
    searched(prepared(st, history, zobrist_of(p)), p, NEG_INF, INF, depth)
}

/// The state after the iterations of depth 1 to `n`.
pub open spec fn deepened(st: SearchState, p: Placement, history: Seq<u64>, n: nat) -> SearchState
    decreases n,
{
    if n == 0 {
        st
    } else {
        iteration(deepened(st, p, history, (n - 1) as nat), p, history, n).state
    }
}

/// The report of the iteration of depth `n`, in a run that starts from `st`.
pub open spec fn report_of(
    st: SearchState,
    p: Placement,
    history: Seq<u64>,
    n: nat,
) -> IterationReport {
    let run = iteration(deepened(st, p, history, (n - 1) as nat), p, history, n);
    IterationReport {
        depth: n as u16,
        score: run.score,
        best_move: run.best,
        nodes: run.state.nodes,
    }
}

/// In the prepared state the position to search is not on the path.
pub proof fn lemma_prepared_root_count(st: SearchState, history: Seq<u64>, root: u64)
    requires
        st.counts.len() > 0,
    ensures
        count_of(prepared(st, history, root).counts, root) == 0,
        prepared(st, history, root).counts.len() == st.counts.len(),
{
    let keys = history.filter(earlier_test(root));
    assert forall|i: int| 0 <= i < keys.len() implies keys[i] != root by {
        history.lemma_filter_pred(earlier_test(root), i);
    }
    lemma_others_entered(Seq::new(st.counts.len(), |i: int| (0u64, 0u16)), keys, root);
}

/// An iteration of depth 1 or more reports a legal move of the position,
/// where the position has a legal move that leads to a playable position and
/// the transposition table does not settle the search with a move that is
/// not legal here. The earlier positions of the game do not matter: the
/// position to search is never counted among them.
pub proof fn lemma_iteration_move_is_legal(
    st: SearchState,
    p: Placement,
    history: Seq<u64>,
    depth: nat,
)
    requires
        depth >= 1,
        st.counts.len() > 0,
        leads_on(p),
        stored_move_is_sound(st, p, NEG_INF, INF, depth),
    ensures
        legal_moves_of(p).contains(iteration(st, p, history, depth).best),
{
    lemma_prepared_root_count(st, history, zobrist_of(p));
    lemma_best_move_is_legal(prepared(st, history, zobrist_of(p)), p, NEG_INF, INF, depth);
}

impl Engine {
    /// Gets the engine ready for an iteration: every count is set to 0, and
    /// the earlier positions of the game are entered, but for the position
    /// to search.
    pub fn prepare(&mut self, history: &Vec<u64>, root: u64)
        requires
            old(self).wf(),
        ensures
            final(self).wf(),
            final(self).same_shape(old(self)),
            final(self).is_stopped() == old(self).is_stopped(),
            final(self)@ == prepared(old(self)@, history@, root),
    {
        proof {
            self.lemma_wf();
            reveal(Seq::filter);
        }
        self.reset_counts();
        let mut i: usize = 0;
        while i < history.len()
            invariant
                i <= history.len(),
                self.wf(),
                self.same_shape(old(self)),
                self.is_stopped() == old(self).is_stopped(),
                self@.nodes == old(self)@.nodes,
                self@.cutoffs == old(self)@.cutoffs,
                self@.results == old(self)@.results,
                self@.counts == seeded_counts(
                    old(self)@.counts.len(),
                    history@.take(i as int),
                    root,
                ),
            decreases history.len() - i,
        {
            proof {
                history@.lemma_take_succ_push(i as int);
                history@.take(i as int).lemma_filter_push(history@[i as int], earlier_test(root));
                let kept = history@.take(i as int).filter(earlier_test(root));
                assert(kept.push(history@[i as int]).drop_last() =~= kept);
            }
            if history[i] != root {
                self.enter(history[i]);
            }
            i = i + 1;
        }
        proof {
            assert(history@.take(i as int) =~= history@);
        }
    }

    /// Runs the iteration of depth `depth` and reports it, unless the engine
    /// has seen the stop signal by the end of it: then nothing is reported.
    pub fn deepen(
        &mut self,
        pos: &Position,
        history: &Vec<u64>,
        depth: u16,
        signal: &StopSignal,
    ) -> (r: Option<IterationReport>)
        requires
            old(self).wf(),
            pos@.playable(),
        ensures
            final(self).wf(),
            final(self).same_shape(old(self)),
            old(self).is_stopped() ==> final(self).is_stopped() && final(self)@ == old(self)@,
            final(self).is_stopped() == (r is None),
            r matches Some(report) ==> {
                &&& report.depth == depth
                &&& report.score == iteration(old(self)@, pos@, history@, depth as nat).score
                &&& report.best_move == iteration(old(self)@, pos@, history@, depth as nat).best
                &&& report.nodes == final(self)@.nodes
                &&& final(self)@ == iteration(old(self)@, pos@, history@, depth as nat).state
            },
    {
        if self.stopped() {
            return None;
        }
        self.prepare(history, pos.key());
        let (score, best_move) = self.search(pos, NEG_INF, INF, depth, signal);
        if self.stopped() {
            return None;
        }
        if signal.is_raised() {
            self.stop();
            return None;
        }
        Some(IterationReport { depth, score, best_move, nodes: self.nodes() })
    }
}

/// A run of iterative deepening: which depth comes next, which is the last,
/// and whether the run is over.
pub struct Deepening {
    next: u16,
    last: u16,
    over: bool,
}

impl Deepening {
    /// The depth of the next iteration.
    pub closed spec fn next_depth(&self) -> u16 {
        self.next
    }

    /// The depth of the last iteration.
    pub closed spec fn last_depth(&self) -> u16 {
        self.last
    }

    /// Whether the run is over: the last depth is behind it, or the engine
    /// had seen the stop signal when a step ended.
    pub closed spec fn is_over(&self) -> bool {
        self.over || self.next > self.last || self.next == 0
    }

    /// Starts a run of the depths 1 to `last`.
    pub fn new(last: u16) -> (run: Deepening)
        ensures
            run.next_depth() == 1,
            run.last_depth() == last,
            run.is_over() == (last == 0),
    {
        Deepening { next: 1, last, over: false }
    }

    /// Tells whether the run is over.
    pub fn finished(&self) -> (b: bool)
        ensures
            b == self.is_over(),
    {
        self.over || self.next > self.last || self.next == 0
    }

    /// Runs the next iteration and reports it.
    ///
    /// A run that is over reports nothing and leaves the engine alone.
    /// Otherwise the next depth is searched. If the engine has seen the stop
    /// signal by the end of it, nothing is reported and the run is over; else
    /// the depth is reported and the run moves on to the depth after it.
    pub fn step(
        &mut self,
        engine: &mut Engine,
        pos: &Position,
        history: &Vec<u64>,
        signal: &StopSignal,
    ) -> (r: Option<IterationReport>)
        requires
            old(engine).wf(),
            pos@.playable(),
        ensures
            final(engine).wf(),
            final(engine).same_shape(old(engine)),
            final(self).last_depth() == old(self).last_depth(),
            old(self).is_over() ==> r is None && final(self).is_over() && final(engine)@ == old(
                engine,
            )@ && final(engine).is_stopped() == old(engine).is_stopped(),
            old(engine).is_stopped() ==> final(engine).is_stopped() && final(engine)@ == old(
                engine,
            )@,
            final(engine).is_stopped() ==> r is None,
            !old(self).is_over() ==> final(engine).is_stopped() == (r is None),
            r is None ==> final(self).is_over(),
            r matches Some(report) ==> {
                &&& !old(self).is_over()
                &&& report.depth == old(self).next_depth()
                &&& final(self).is_over() == (report.depth == old(self).last_depth())
                &&& !final(self).is_over() ==> final(self).next_depth() == report.depth + 1
                &&& report.score == iteration(
                    old(engine)@,
                    pos@,
                    history@,
                    report.depth as nat,
                ).score
                &&& report.best_move == iteration(
                    old(engine)@,
                    pos@,
                    history@,
                    report.depth as nat,
                ).best
                &&& report.nodes == final(engine)@.nodes
                &&& final(engine)@ == iteration(
                    old(engine)@,
                    pos@,
                    history@,
                    report.depth as nat,
                ).state
            },
    {
        if self.finished() {
            self.over = true;
            return None;
        }
        let r = engine.deepen(pos, history, self.next, signal);
        match r {
            Some(_) => {
                if self.next < self.last {
                    self.next = self.next + 1;
                } else {
                    self.over = true;
                }
            },
            None => {
                self.over = true;
            },
        }
        r
    }
}

impl Engine {
    /// Searches `pos` to depth 1, 2, and so on up to `depth`, and returns the
    /// reports of the completed depths, in rising order.
    ///
    /// `history` holds the keys of the earlier positions of the game. The
    /// run ends early when the engine sees the stop signal; the depth it was
    /// at is not reported, and no later depth is started.
    pub fn iterative_deepening(
        &mut self,
        depth: u16,
        pos: &Position,
        history: &Vec<u64>,
        signal: &StopSignal,
    ) -> (reports: Vec<IterationReport>)
        requires
            old(self).wf(),
            pos@.playable(),
        ensures
            final(self).wf(),
            final(self).same_shape(old(self)),
            reports@.len() <= depth,
            forall|i: int|
                0 <= i < reports@.len() ==> #[trigger] reports@[i] == report_of(
                    old(self)@,
                    pos@,
                    history@,
                    (i + 1) as nat,
                ),
            old(self).is_stopped() ==> reports@.len() == 0 && final(self)@ == old(self)@,
            final(self).is_stopped() || reports@.len() == depth,
            !final(self).is_stopped() ==> final(self)@ == deepened(
                old(self)@,
                pos@,
                history@,
                depth as nat,
            ),
    {
        let mut reports: Vec<IterationReport> = Vec::new();
        let mut run = Deepening::new(depth);
        while !run.finished()
            invariant
                self.wf(),
                pos@.playable(),
                self.same_shape(old(self)),
                run.last_depth() == depth,
                !run.is_over() ==> run.next_depth() == reports@.len() + 1,
                run.is_over() ==> self.is_stopped() || reports@.len() == depth,
                reports@.len() <= depth,
                forall|i: int|
                    0 <= i < reports@.len() ==> #[trigger] reports@[i] == report_of(
                        old(self)@,
                        pos@,
                        history@,
                        (i + 1) as nat,
                    ),
                old(self).is_stopped() ==> self.is_stopped() && reports@.len() == 0 && self@
                    == old(self)@,
                !self.is_stopped() ==> self@ == deepened(
                    old(self)@,
                    pos@,
                    history@,
                    reports@.len() as nat,
                ),
                self.is_stopped() ==> run.is_over() || old(self).is_stopped(),
            decreases depth - reports@.len(), if run.is_over() { 0int } else { 1int },
        {
            let ghost before = self@;
            let ghost n = reports@.len();
            match run.step(self, pos, history, signal) {
                Some(report) => {
                    reports.push(report);
                    proof {
                        assert(before == deepened(old(self)@, pos@, history@, n as nat));
                        assert(report == report_of(old(self)@, pos@, history@, (n + 1) as nat));
                    }
                },
                None => {},
            }
        }
        reports
    }
}

} // verus!
