//! The execution of a run, one program at a time. Each program's record is written
//! as soon as it is settled, so an interrupted run leaves a trace of what it did.

use crate::benchmark::experiment::plan::ResolvedRun;
use crate::benchmark::experiment::progress;
use crate::benchmark::experiment::progress::{
    ProgramRecord, ProgramState, ProgramStep, Receipt, RunStatus,
};
use crate::benchmark::stats::ProgramEvalStats;
use crate::text;
use vstd::prelude::*;

verus! {

/// How far a run has come: the states that the records of its first programs tell.
#[derive(Debug)]
pub struct RunProgress {
    pub states: Vec<ProgramState>,
}

/// The states of programs that all have a record.
pub open spec fn recorded(states: Seq<ProgramState>) -> Seq<Option<ProgramState>> {
    states.map_values(|s: ProgramState| Some(s))
}

/// How many of the programs are done.
pub open spec fn done_in(states: Seq<ProgramState>) -> int {
    progress::done_count(recorded(states), states.len() as int)
}

proof fn done_count_reads_a_prefix(
    a: Seq<Option<ProgramState>>,
    b: Seq<Option<ProgramState>>,
    n: int,
)
    requires
        0 <= n <= a.len(),
        n <= b.len(),
        forall|i: int| 0 <= i < n ==> a[i] == b[i],
    ensures
        progress::done_count(a, n) == progress::done_count(b, n),
    decreases n,
{
    if n > 0 {
        done_count_reads_a_prefix(a, b, n - 1);
    }
}

/// One more program counts as done if its state is one of those that are.
pub(crate) proof fn done_in_push(states: Seq<ProgramState>, s: ProgramState)
    ensures
        done_in(states.push(s)) == done_in(states) + (if progress::is_done_state(s) {
            1int
        } else {
            0int
        }),
{
    done_count_reads_a_prefix(
        recorded(states.push(s)),
        recorded(states),
        states.len() as int,
    );
}

proof fn done_in_bound(states: Seq<Option<ProgramState>>, n: int)
    requires
        0 <= n <= states.len(),
    ensures
        0 <= progress::done_count(states, n) <= n,
    decreases n,
{
    if n > 0 {
        done_in_bound(states, n - 1);
    }
}

impl RunProgress {
    /// Nothing is settled.
    pub fn new() -> (r: RunProgress)
        ensures
            r.states@ == Seq::<ProgramState>::empty(),
    {
        RunProgress { states: Vec::new() }
    }

    /// The program whose turn it is, if any is left.
    pub fn next_program<'a>(&self, run: &'a ResolvedRun) -> (r: Option<&'a str>)
        ensures
            (match r {
                Some(p) => self.states@.len() < run.programs@.len() && p@
                    == run.programs@[self.states@.len() as int]@,
                None => self.states@.len() >= run.programs@.len(),
            }),
    {
        if self.states.len() < run.programs.len() {
            Some(run.programs[self.states.len()].as_str())
        } else {
            None
        }
    }

    /// Settles the program whose turn it is without running it: it is done already,
    /// or it is blocked. A program that is to run is not settled by that.
    pub fn settle(&mut self, prior: &Option<ProgramRecord>, step: &ProgramStep) -> (r: bool)
        ensures
            (match (*step, *prior) {
                (ProgramStep::Skip, Some(rec)) => r && final(self).states@ == old(
                    self,
                ).states@.push(rec.state),
                (ProgramStep::Block(rec), _) => r && final(self).states@ == old(
                    self,
                ).states@.push(rec.state),
                _ => !r && final(self).states@ == old(self).states@,
            }),
    {
        match (step, prior) {
            (ProgramStep::Skip, Some(rec)) => {
                self.states.push(rec.state);
                true
            },
            (ProgramStep::Block(rec), _) => {
                self.states.push(rec.state);
                true
            },
            _ => false,
        }
    }

    /// Settles the program whose turn it is by what its run came to. The result is
    /// the record to write.
    pub fn ran(&mut self, stats: &ProgramEvalStats) -> (r: ProgramRecord)
        ensures
            progress::records(r, *stats),
            final(self).states@ == old(self).states@.push(progress::class_of(*stats)),
    {
        let record = progress::record_from_stats(stats);
        self.states.push(record.state);
        record
    }

    /// How many programs are done.
    pub fn done(&self) -> (r: usize)
        ensures
            r == done_in(self.states@),
    {
        let ghost all = recorded(self.states@);
        let mut n: usize = 0;
        let mut i: usize = 0;
        while i < self.states.len()
            invariant
                i <= self.states@.len(),
                all == recorded(self.states@),
                n <= i,
                n == progress::done_count(all, i as int),
            decreases self.states@.len() - i,
        {
            assert(all[i as int] == Some(self.states@[i as int]));
            if progress::state_is_done(self.states[i]) {
                n = n + 1;
            }
            i = i + 1;
        }
        n
    }

    /// The receipt of the run as far as it has come.
    pub fn receipt(&self, run: &ResolvedRun, harvest_version: &str) -> (r: Receipt)
        ensures
            progress::is_receipt(r, *run, done_in(self.states@), harvest_version@),
    {
        progress::receipt_of(run, self.done(), harvest_version)
    }
}

// ── Laws ─────────────────────────────────────────────────────────────────

/// The receipt of a finished run agrees with its status: both count the same
/// programs as done.
pub proof fn receipt_agrees_with_status(
    p: RunProgress,
    run: ResolvedRun,
    receipt: Receipt,
    st: RunStatus,
    version: Seq<char>,
)
    requires
        p.states@.len() == run.programs@.len(),
        progress::is_receipt(receipt, run, done_in(p.states@), version),
        progress::tells_status(st, run.id@, text::texts(run.programs@), recorded(p.states@)),
    ensures
        receipt.programs_done == st.done,
        receipt.programs_total == st.total,
        st.missing@.len() == 0,
{
    let programs = text::texts(run.programs@);
    let states = recorded(p.states@);
    none_missing(programs, states);
    assert(text::texts(st.missing@).len() == st.missing@.len());
}

proof fn none_missing(programs: Seq<Seq<char>>, states: Seq<Option<ProgramState>>)
    requires
        forall|i: int| 0 <= i < states.len() ==> (#[trigger] states[i]) is Some,
    ensures
        progress::programs_in(programs, states, None).len() == 0,
    decreases programs.len(),
{
    if programs.len() > 0 && states.len() >= programs.len() {
        none_missing(programs.drop_last(), states);
        assert(states[programs.len() - 1] is Some);
    }
}

/// Executing a run again never redoes a program that is done, whatever is forced:
/// its step is to skip it, and it settles in the state that it had. A program that
/// did not finish is run again, in a cleared directory, unless it is blocked.
pub proof fn finished_work_is_kept(
    p: RunProgress,
    run: ResolvedRun,
    program: Seq<char>,
    prior: ProgramRecord,
    has_snapshot: bool,
    force: bool,
    step: ProgramStep,
)
    requires
        progress::is_step(step, run, program, Some(prior), has_snapshot, force),
    ensures
        progress::is_done_state(prior.state) <==> step is Skip,
        step is Skip ==> done_in(p.states@.push(prior.state)) == done_in(p.states@) + 1,
        !progress::is_done_state(prior.state) && (!run.resumes || has_snapshot) ==> (step matches
            ProgramStep::Run { force: f, .. } && f),
{
    done_in_push(p.states@, prior.state);
}

/// No more programs are done than are settled.
pub proof fn done_is_bounded(states: Seq<ProgramState>)
    ensures
        0 <= done_in(states) <= states.len(),
{
    done_in_bound(recorded(states), states.len() as int);
}

} // verus!
