//! How far the runs of a set have come: records of programs, what they count as,
//! and what is still to be done.

use crate::benchmark::experiment::plan;
use crate::benchmark::experiment::plan::ResolvedRun;
use crate::benchmark::stats::ProgramEvalStats;
use crate::path;
use crate::text;
use crate::text_map;
use crate::text_map::TextMap;
use vstd::prelude::*;
use vstd::string::*;

verus! {

/// Directory, inside a run's output root, that holds its records.
pub const SWEEP_META_DIR: &'static str = ".harvest-sweep";

/// Directory of the per-program records.
pub const PROGRAMS_SUBDIR: &'static str = "programs";

/// The run's receipt: what was declared, and the arguments it became.
pub const RECEIPT_FILE: &'static str = "receipt.json";

/// State of one program within one run.
#[derive(Debug, Clone, Copy, PartialEq, Eq, Structural)]
pub enum ProgramState {
    /// Invoked, without a terminal record: the process died in between.
    Started,
    /// Ran to completion. Says nothing about whether its tests passed.
    Complete,
    /// Ran, and reported a failure of its own.
    Failed,
    /// Could not run because its parent produced no snapshot for it.
    Blocked,
    /// The harness refused to run it, such as for a populated output directory.
    Infra,
}

pub open spec fn is_done_state(s: ProgramState) -> bool {
    s == ProgramState::Complete || s == ProgramState::Failed || s == ProgramState::Blocked
}

/// Whether a program in this state is not to be run again.
pub fn state_is_done(s: ProgramState) -> (r: bool)
    ensures
        r == is_done_state(s),
{
    s == ProgramState::Complete || s == ProgramState::Failed || s == ProgramState::Blocked
}

/// One program's progress record.
#[derive(Debug)]
pub struct ProgramRecord {
    pub program: String,
    pub state: ProgramState,
    pub error: Option<String>,
    pub translation_success: Option<bool>,
    pub build_success: Option<bool>,
    pub total_tests: Option<usize>,
    pub passed_tests: Option<usize>,
    pub skipped_tests: Option<usize>,
}

impl ProgramRecord {
    /// Whether this record means that the program is not to be run again. A
    /// refusal of the harness is a condition to clear and retry, not a result;
    /// counting it as done would freeze it as a permanent failure.
    pub fn is_done(&self) -> (r: bool)
        ensures
            r == is_done_state(self.state),
    {
        state_is_done(self.state)
    }

    /// A record that tells nothing but a state.
    pub open spec fn tells_only(&self, program: Seq<char>, state: ProgramState) -> bool {
        &&& self.program@ == program
        &&& self.state == state
        &&& self.translation_success is None
        &&& self.build_success is None
        &&& self.total_tests is None
        &&& self.passed_tests is None
        &&& self.skipped_tests is None
    }
}

fn bare_record(program: &str, state: ProgramState, error: Option<String>) -> (r: ProgramRecord)
    ensures
        r.tells_only(program@, state),
        r.error == error,
{
    ProgramRecord {
        program: program.to_owned(),
        state,
        error,
        translation_success: None,
        build_success: None,
        total_tests: None,
        passed_tests: None,
        skipped_tests: None,
    }
}

/// The directory of the records of a run.
pub fn programs_dir(run_root: &str) -> (r: String)
    ensures
        r@ == path::joined(path::joined(run_root@, SWEEP_META_DIR@), PROGRAMS_SUBDIR@),
{
    let dir = path::join(run_root, SWEEP_META_DIR);
    path::join(dir.as_str(), PROGRAMS_SUBDIR)
}

/// The record of a program.
pub fn record_path(run_root: &str, program: &str) -> (r: String)
    ensures
        r@ == path::joined(
            path::joined(path::joined(run_root@, SWEEP_META_DIR@), PROGRAMS_SUBDIR@),
            program@ + ".json"@,
        ),
{
    let dir = programs_dir(run_root);
    let mut name = program.to_owned();
    name.append(".json");
    path::join(dir.as_str(), name.as_str())
}

/// What a finished program counts as. Every early return of a run produces
/// statistics, so a refusal of the harness has to be recognized by its message
/// and kept out of what is done. Any other error is a failure of the program's
/// own: in its translation, its build or its grading.
pub open spec fn class_of(stats: ProgramEvalStats) -> ProgramState {
    if stats.error_message is Some && text::contains_text(stats.error_message->0@, "is not empty"@) {
        ProgramState::Infra
    } else if stats.error_message is Some || !stats.translation_success
        || !stats.rust_build_success {
        ProgramState::Failed
    } else {
        ProgramState::Complete
    }
}

pub fn classify(stats: &ProgramEvalStats) -> (r: ProgramState)
    ensures
        r == class_of(*stats),
{
    if let Some(e) = &stats.error_message {
        if text::contains(e.as_str(), "is not empty") {
            return ProgramState::Infra;
        }
        return ProgramState::Failed;
    }
    if !stats.translation_success || !stats.rust_build_success {
        return ProgramState::Failed;
    }
    ProgramState::Complete
}

/// Whether a record tells what a program came to.
pub open spec fn records(r: ProgramRecord, stats: ProgramEvalStats) -> bool {
    &&& r.program@ == stats.program_name@
    &&& r.state == class_of(stats)
    &&& text::opt_text(r.error) == text::opt_text(stats.error_message)
    &&& r.translation_success == Some(stats.translation_success)
    &&& r.build_success == Some(stats.rust_build_success)
    &&& r.total_tests == Some(stats.total_tests)
    &&& r.passed_tests == Some(stats.passed_tests)
    &&& r.skipped_tests == Some(stats.skipped_tests)
}

/// The record of a finished program.
pub fn record_from_stats(stats: &ProgramEvalStats) -> (r: ProgramRecord)
    ensures
        records(r, *stats),
{
    ProgramRecord {
        program: stats.program_name.clone(),
        state: classify(stats),
        error: text::copy_opt(&stats.error_message),
        translation_success: Some(stats.translation_success),
        build_success: Some(stats.rust_build_success),
        total_tests: Some(stats.total_tests),
        passed_tests: Some(stats.passed_tests),
        skipped_tests: Some(stats.skipped_tests),
    }
}

/// A refusal of the harness is never done, and neither is a program that was
/// only started.
pub proof fn refusals_are_not_done(stats: ProgramEvalStats)
    ensures
        class_of(stats) == ProgramState::Infra ==> !is_done_state(class_of(stats)),
        stats.error_message is Some && text::contains_text(
            stats.error_message->0@,
            "is not empty"@,
        ) ==> !is_done_state(class_of(stats)),
        !is_done_state(ProgramState::Started),
{
}

/// A program is complete just where it was translated and built and nothing
/// of its run reported an error, its grading included. What its tests came to
/// does not count.
pub proof fn complete_programs_report_no_error(stats: ProgramEvalStats)
    ensures
        class_of(stats) == ProgramState::Complete <==> stats.translation_success
            && stats.rust_build_success && stats.error_message is None,
{
}

// ── Receipts ─────────────────────────────────────────────────────────────

/// A run's receipt: what produced its results, without parsing any directory
/// name.
#[derive(Debug)]
pub struct Receipt {
    pub schema_version: u32,
    pub id: String,
    pub labels: TextMap,
    pub programs: Vec<String>,
    pub from: Option<String>,
    /// The arguments the run was lowered to.
    pub argv: Vec<String>,
    /// Overrides in resolution order.
    pub config: Vec<String>,
    pub harvest_version: String,
    pub programs_total: usize,
    pub programs_done: usize,
}

/// Whether a receipt is that of a run of which so many programs are done.
pub open spec fn is_receipt(r: Receipt, run: ResolvedRun, done: int, version: Seq<char>) -> bool {
    &&& r.schema_version == plan::SCHEMA_VERSION
    &&& r.id@ == run.id@
    &&& r.labels.pairs() == run.labels.pairs()
    &&& text::texts(r.programs@) == text::texts(run.programs@)
    &&& text::opt_text(r.from) == text::opt_text(run.from)
    &&& text::texts(r.argv@) == text::texts(run.argv@)
    &&& text::texts(r.config@) == text::texts(run.config@)
    &&& r.harvest_version@ == version
    &&& r.programs_total == run.programs@.len()
    &&& r.programs_done == done
}

/// The receipt of a run of which so many programs are done.
pub fn receipt_of(run: &ResolvedRun, done: usize, harvest_version: &str) -> (r: Receipt)
    ensures
        is_receipt(r, *run, done as int, harvest_version@),
{
    Receipt {
        schema_version: plan::SCHEMA_VERSION,
        id: run.id.clone(),
        labels: TextMap { entries: text_map::copy_pairs(&run.labels.entries) },
        programs: text::copy_texts(&run.programs),
        from: text::copy_opt(&run.from),
        argv: text::copy_texts(&run.argv),
        config: text::copy_texts(&run.config),
        harvest_version: harvest_version.to_owned(),
        programs_total: run.programs.len(),
        programs_done: done,
    }
}

// ── Status ───────────────────────────────────────────────────────────────

/// What is told of one run.
#[derive(Debug)]
pub struct RunStatus {
    pub id: String,
    pub total: usize,
    pub done: usize,
    /// Programs invoked, without a terminal record.
    pub interrupted: Vec<String>,
    /// Programs the harness refused to run.
    pub infra: Vec<String>,
    pub failed: Vec<String>,
    pub blocked: Vec<String>,
    pub missing: Vec<String>,
}

impl RunStatus {
    pub open spec fn all_done(&self) -> bool {
        self.done == self.total && self.total > 0
    }

    pub fn is_complete(&self) -> (r: bool)
        ensures
            r == self.all_done(),
    {
        self.done == self.total && self.total > 0
    }
}

/// The state that each program's record tells, if there is a record.
pub open spec fn states_of(records: Seq<Option<ProgramRecord>>) -> Seq<Option<ProgramState>> {
    records.map_values(
        |r: Option<ProgramRecord>|
            match r {
                Some(x) => Some(x.state),
                None => None,
            },
    )
}

/// The programs in a state, in order.
pub open spec fn programs_in(
    programs: Seq<Seq<char>>,
    states: Seq<Option<ProgramState>>,
    want: Option<ProgramState>,
) -> Seq<Seq<char>>
    decreases programs.len(),
{
    if programs.len() == 0 || states.len() < programs.len() {
        seq![]
    } else {
        let before = programs_in(programs.drop_last(), states, want);
        if states[programs.len() - 1] == want {
            before.push(programs.last())
        } else {
            before
        }
    }
}

/// How many of the first `n` programs are done.
pub open spec fn done_count(states: Seq<Option<ProgramState>>, n: int) -> int
    decreases n,
{
    if n <= 0 {
        0
    } else {
        done_count(states, n - 1) + match states[n - 1] {
            Some(s) => if is_done_state(s) {
                1int
            } else {
                0int
            },
            None => 0int,
        }
    }
}

pub open spec fn tells_status(
    st: RunStatus,
    id: Seq<char>,
    programs: Seq<Seq<char>>,
    states: Seq<Option<ProgramState>>,
) -> bool {
    &&& st.id@ == id
    &&& st.total == programs.len()
    &&& st.done == done_count(states, programs.len() as int)
    &&& text::texts(st.interrupted@) == programs_in(programs, states, Some(ProgramState::Started))
    &&& text::texts(st.infra@) == programs_in(programs, states, Some(ProgramState::Infra))
    &&& text::texts(st.failed@) == programs_in(programs, states, Some(ProgramState::Failed))
    &&& text::texts(st.blocked@) == programs_in(programs, states, Some(ProgramState::Blocked))
    &&& text::texts(st.missing@) == programs_in(programs, states, None)
}

proof fn programs_in_prefix(
    programs: Seq<Seq<char>>,
    states: Seq<Option<ProgramState>>,
    want: Option<ProgramState>,
    n: int,
)
    requires
        0 <= n < programs.len() <= states.len(),
    ensures
        programs_in(programs.take(n + 1), states, want) == (if states[n] == want {
            programs_in(programs.take(n), states, want).push(programs[n])
        } else {
            programs_in(programs.take(n), states, want)
        }),
{
    assert(programs.take(n + 1).drop_last() =~= programs.take(n));
}

fn status_of(run: &ResolvedRun, records: &Vec<Option<ProgramRecord>>) -> (r: RunStatus)
    requires
        records@.len() >= run.programs@.len(),
    ensures
        tells_status(r, run.id@, text::texts(run.programs@), states_of(records@)),
{
    broadcast use text::group_texts;

    let ghost all = text::texts(run.programs@);
    let ghost states = states_of(records@);
    let mut done: usize = 0;
    let mut interrupted: Vec<String> = Vec::new();
    let mut infra: Vec<String> = Vec::new();
    let mut failed: Vec<String> = Vec::new();
    let mut blocked: Vec<String> = Vec::new();
    let mut missing: Vec<String> = Vec::new();
    let mut i: usize = 0;
    proof {
        assert(all.take(0) =~= seq![]);
        assert(text::texts(interrupted@) =~= seq![]);
    }
    while i < run.programs.len()
        invariant
            i <= run.programs@.len() <= records@.len(),
            all == text::texts(run.programs@),
            states == states_of(records@),
            done <= i,
            done == done_count(states, i as int),
            text::texts(interrupted@) == programs_in(
                all.take(i as int),
                states,
                Some(ProgramState::Started),
            ),
            text::texts(infra@) == programs_in(
                all.take(i as int),
                states,
                Some(ProgramState::Infra),
            ),
            text::texts(failed@) == programs_in(
                all.take(i as int),
                states,
                Some(ProgramState::Failed),
            ),
            text::texts(blocked@) == programs_in(
                all.take(i as int),
                states,
                Some(ProgramState::Blocked),
            ),
            text::texts(missing@) == programs_in(all.take(i as int), states, None),
        decreases run.programs@.len() - i,
    {
        proof {
            programs_in_prefix(all, states, Some(ProgramState::Started), i as int);
            programs_in_prefix(all, states, Some(ProgramState::Infra), i as int);
            programs_in_prefix(all, states, Some(ProgramState::Failed), i as int);
            programs_in_prefix(all, states, Some(ProgramState::Blocked), i as int);
            programs_in_prefix(all, states, None, i as int);
            assert(all[i as int] == run.programs@[i as int]@);
        }
        let p = run.programs[i].clone();
        match &records[i] {
            None => {
                assert(states[i as int] is None);
                missing.push(p);
            },
            Some(rec) => {
                assert(states[i as int] == Some(rec.state));
                if rec.is_done() {
                    done = done + 1;
                }
                match rec.state {
                    ProgramState::Started => {
                        interrupted.push(p);
                    },
                    ProgramState::Infra => {
                        infra.push(p);
                    },
                    ProgramState::Failed => {
                        failed.push(p);
                    },
                    ProgramState::Blocked => {
                        blocked.push(p);
                    },
                    ProgramState::Complete => {},
                }
            },
        }
        i = i + 1;
    }
    assert(all.take(i as int) =~= all);
    RunStatus {
        id: run.id.clone(),
        total: run.programs.len(),
        done,
        interrupted,
        infra,
        failed,
        blocked,
        missing,
    }
}

/// Reports each declared run's progress from the records of its programs.
/// `records` holds, run by run, the record of each program as far as there is
/// one.
pub fn status(runs: &Vec<ResolvedRun>, records: &Vec<Vec<Option<ProgramRecord>>>) -> (r: Vec<
    RunStatus,
>)
    requires
        records@.len() >= runs@.len(),
        forall|i: int|
            0 <= i < runs@.len() ==> (#[trigger] records@[i])@.len() >= runs@[i].programs@.len(),
    ensures
        r@.len() == runs@.len(),
        forall|i: int|
            0 <= i < runs@.len() ==> tells_status(
                #[trigger] r@[i],
                runs@[i].id@,
                text::texts(runs@[i].programs@),
                states_of(records@[i]@),
            ),
{
    let mut out: Vec<RunStatus> = Vec::new();
    let mut i: usize = 0;
    while i < runs.len()
        invariant
            i <= runs@.len() <= records@.len(),
            out@.len() == i,
            forall|k: int|
                0 <= k < runs@.len() ==> (#[trigger] records@[k])@.len()
                    >= runs@[k].programs@.len(),
            forall|k: int|
                0 <= k < i ==> tells_status(
                    #[trigger] out@[k],
                    runs@[k].id@,
                    text::texts(runs@[k].programs@),
                    states_of(records@[k]@),
                ),
        decreases runs@.len() - i,
    {
        assert(records@[i as int]@.len() >= runs@[i as int].programs@.len());
        out.push(status_of(&runs[i], &records[i]));
        i = i + 1;
    }
    out
}

proof fn counts_partition(programs: Seq<Seq<char>>, states: Seq<Option<ProgramState>>, n: int)
    requires
        0 <= n <= programs.len() <= states.len(),
    ensures
        done_count(states, n) == programs_in(
            programs.take(n),
            states,
            Some(ProgramState::Complete),
        ).len() + programs_in(programs.take(n), states, Some(ProgramState::Failed)).len()
            + programs_in(programs.take(n), states, Some(ProgramState::Blocked)).len(),
        n == done_count(states, n) + programs_in(
            programs.take(n),
            states,
            Some(ProgramState::Started),
        ).len() + programs_in(programs.take(n), states, Some(ProgramState::Infra)).len()
            + programs_in(programs.take(n), states, None).len(),
    decreases n,
{
    if n == 0 {
        assert(programs.take(0) =~= seq![]);
    } else {
        counts_partition(programs, states, n - 1);
        programs_in_prefix(programs, states, Some(ProgramState::Complete), n - 1);
        programs_in_prefix(programs, states, Some(ProgramState::Failed), n - 1);
        programs_in_prefix(programs, states, Some(ProgramState::Blocked), n - 1);
        programs_in_prefix(programs, states, Some(ProgramState::Started), n - 1);
        programs_in_prefix(programs, states, Some(ProgramState::Infra), n - 1);
        programs_in_prefix(programs, states, None, n - 1);
    }
}

/// Every program is counted once: as done, or as interrupted, refused or
/// missing. Failed and blocked programs are among those that are done.
pub proof fn status_partitions_programs(
    st: RunStatus,
    id: Seq<char>,
    programs: Seq<Seq<char>>,
    states: Seq<Option<ProgramState>>,
)
    requires
        programs.len() <= states.len(),
        tells_status(st, id, programs, states),
    ensures
        st.total == st.done + st.interrupted@.len() + st.infra@.len() + st.missing@.len(),
        st.failed@.len() + st.blocked@.len() <= st.done,
        st.all_done() ==> st.interrupted@.len() == 0 && st.infra@.len() == 0 && st.missing@.len()
            == 0,
{
    counts_partition(programs, states, programs.len() as int);
    assert(programs.take(programs.len() as int) =~= programs);
    assert(text::texts(st.interrupted@).len() == st.interrupted@.len());
    assert(text::texts(st.infra@).len() == st.infra@.len());
    assert(text::texts(st.failed@).len() == st.failed@.len());
    assert(text::texts(st.blocked@).len() == st.blocked@.len());
    assert(text::texts(st.missing@).len() == st.missing@.len());
}

// ── Tables ───────────────────────────────────────────────────────────────

/// The part of a line on programs of one sort.
pub open spec fn note_of(label: Seq<char>, programs: Seq<Seq<char>>) -> Seq<Seq<char>> {
    if programs.len() > 0 {
        seq![label + ": "@ + text::join_of(programs, ","@)]
    } else {
        seq![]
    }
}

pub open spec fn notes_of(st: RunStatus) -> Seq<Seq<char>> {
    note_of("interrupted"@, text::texts(st.interrupted@)) + note_of(
        "infra"@,
        text::texts(st.infra@),
    ) + note_of("failed"@, text::texts(st.failed@)) + note_of(
        "blocked"@,
        text::texts(st.blocked@),
    ) + note_of("missing"@, text::texts(st.missing@))
}

pub open spec fn status_line_of(st: RunStatus) -> Seq<char> {
    text::padded_right(st.id@, 34) + " "@ + text::padded_left(text::decimal_of(st.done as nat), 4)
        + "/"@ + text::padded_right(text::decimal_of(st.total as nat), 4) + "  "@ + if notes_of(
        st,
    ).len() == 0 {
        "-"@
    } else {
        text::join_of(notes_of(st), "  "@)
    }
}

fn push_note(notes: &mut Vec<String>, label: &str, programs: &Vec<String>)
    ensures
        text::texts(final(notes)@) == text::texts(old(notes)@) + note_of(
            label@,
            text::texts(programs@),
        ),
{
    broadcast use text::group_texts;

    let ghost before = text::texts(notes@);
    if programs.len() > 0 {
        let mut s = label.to_owned();
        s.append(": ");
        s.append(text::join(programs, ",").as_str());
        notes.push(s);
    }
    assert(text::texts(notes@) =~= before + note_of(label@, text::texts(programs@)));
}

/// The line of a run in the status table.
pub fn status_line(st: &RunStatus) -> (r: String)
    ensures
        r@ == status_line_of(*st),
{
    let mut notes: Vec<String> = Vec::new();
    assert(text::texts(notes@) =~= seq![]);
    push_note(&mut notes, "interrupted", &st.interrupted);
    push_note(&mut notes, "infra", &st.infra);
    push_note(&mut notes, "failed", &st.failed);
    push_note(&mut notes, "blocked", &st.blocked);
    push_note(&mut notes, "missing", &st.missing);
    assert(text::texts(notes@) =~= notes_of(*st));
    let mut s = text::pad_right(st.id.as_str(), 34);
    s.append(" ");
    s.append(text::pad_left(text::decimal(st.done as u64).as_str(), 4).as_str());
    s.append("/");
    s.append(text::pad_right(text::decimal(st.total as u64).as_str(), 4).as_str());
    s.append("  ");
    if notes.len() == 0 {
        s.append("-");
    } else {
        s.append(text::join(&notes, "  ").as_str());
    }
    s
}

/// The head of the status table.
pub open spec fn status_head_of() -> Seq<char> {
    text::padded_right("RUN"@, 34) + " "@ + text::padded_left("PROGRESS"@, 9)
        + "  OUTSTANDING (interrupted/infra/failed/blocked/missing)"@
}

pub open spec fn status_lines_of(all: Seq<RunStatus>) -> Seq<Seq<char>> {
    all.map_values(|st: RunStatus| status_line_of(st))
}

/// The status table, and whether every declared run is complete.
pub fn print_status(all: &Vec<RunStatus>) -> (r: (Vec<String>, bool))
    ensures
        text::texts(r.0@) == seq![status_head_of()] + status_lines_of(all@),
        r.1 == forall|i: int| 0 <= i < all@.len() ==> (#[trigger] all@[i]).all_done(),
{
    broadcast use text::group_texts;

    let mut head = text::pad_right("RUN", 34);
    head.append(" ");
    head.append(text::pad_left("PROGRESS", 9).as_str());
    head.append("  OUTSTANDING (interrupted/infra/failed/blocked/missing)");
    let mut out: Vec<String> = vec![head];
    let mut complete = true;
    let ghost lines = status_lines_of(all@);
    let mut i: usize = 0;
    assert(text::texts(out@) =~= seq![status_head_of()] + lines.take(0));
    while i < all.len()
        invariant
            i <= all@.len(),
            lines == status_lines_of(all@),
            text::texts(out@) == seq![status_head_of()] + lines.take(i as int),
            complete == forall|k: int| 0 <= k < i ==> (#[trigger] all@[k]).all_done(),
        decreases all@.len() - i,
    {
        if !all[i].is_complete() {
            assert(!all@[i as int].all_done());
            complete = false;
        }
        let line = status_line(&all[i]);
        assert(lines[i as int] == line@);
        assert(seq![status_head_of()] + lines.take(i + 1) =~= (seq![status_head_of()]
            + lines.take(i as int)).push(line@));
        out.push(line);
        i = i + 1;
    }
    assert(lines.take(i as int) =~= lines);
    (out, complete)
}

/// `a=1 b=2`
pub open spec fn label_texts(labels: Seq<(Seq<char>, Seq<char>)>) -> Seq<Seq<char>> {
    labels.map_values(|l: (Seq<char>, Seq<char>)| l.0 + "="@ + l.1)
}

pub open spec fn run_lines_of(r: plan::ResolvedView) -> Seq<Seq<char>> {
    seq!["["@ + r.id + "]"@, "  programs : "@ + text::join_of(r.programs, ", "@)] + (match r.from {
        Some(f) => seq!["  from     : "@ + f],
        None => seq![],
    }) + seq![
        "  input    : "@ + r.input_root,
        "  output   : "@ + r.output_root,
        "  argv     : "@ + text::join_of(r.argv, " "@),
    ] + (if r.labels.len() > 0 {
        seq!["  labels   : "@ + text::join_of(label_texts(r.labels), " "@)]
    } else {
        seq![]
    }) + seq![""@]
}

fn labelled(head: &str, value: &str) -> (r: String)
    ensures
        r@ == head@ + value@,
{
    let mut s = head.to_owned();
    s.append(value);
    s
}

fn show_labels(labels: &TextMap) -> (r: String)
    ensures
        r@ == text::join_of(label_texts(labels.pairs()), " "@),
{
    broadcast use text::group_texts;

    let ghost all = label_texts(labels.pairs());
    let mut parts: Vec<String> = Vec::new();
    let mut i: usize = 0;
    while i < labels.entries.len()
        invariant
            i <= labels.entries@.len(),
            all == label_texts(labels.pairs()),
            text::texts(parts@) == all.take(i as int),
        decreases labels.entries@.len() - i,
    {
        let mut s = labels.entries[i].0.clone();
        s.append("=");
        s.append(labels.entries[i].1.as_str());
        assert(all[i as int] == s@);
        assert(all.take(i + 1) =~= all.take(i as int).push(s@));
        parts.push(s);
        i = i + 1;
    }
    assert(all.take(i as int) =~= all);
    text::join(&parts, " ")
}

/// The lines of a run in the plan.
pub fn run_lines(run: &ResolvedRun) -> (r: Vec<String>)
    ensures
        text::texts(r@) == run_lines_of(run.view()),
{
    broadcast use text::group_texts;

    let mut title = labelled("[", run.id.as_str());
    title.append("]");
    let mut out: Vec<String> = vec![
        title,
        labelled("  programs : ", text::join(&run.programs, ", ").as_str()),
    ];
    if let Some(f) = &run.from {
        out.push(labelled("  from     : ", f.as_str()));
    }
    out.push(labelled("  input    : ", run.input_root.as_str()));
    out.push(labelled("  output   : ", run.output_root.as_str()));
    out.push(labelled("  argv     : ", text::join(&run.argv, " ").as_str()));
    if run.labels.entries.len() > 0 {
        out.push(labelled("  labels   : ", show_labels(&run.labels).as_str()));
    }
    out.push("".to_owned());
    assert(text::texts(out@) =~= run_lines_of(run.view()));
    out
}

pub open spec fn all_run_lines(runs: Seq<plan::ResolvedView>) -> Seq<Seq<char>>
    decreases runs.len(),
{
    if runs.len() == 0 {
        seq![]
    } else {
        all_run_lines(runs.drop_last()) + run_lines_of(runs.last())
    }
}

/// The number of programs of all runs.
pub open spec fn program_count(runs: Seq<plan::ResolvedView>) -> int
    decreases runs.len(),
{
    if runs.len() == 0 {
        0
    } else {
        program_count(runs.drop_last()) + runs.last().programs.len()
    }
}

pub open spec fn plan_head_of(runs: Seq<plan::ResolvedView>) -> Seq<char> {
    text::decimal_of(runs.len()) + " declared run(s), "@ + text::decimal_of(
        crate::num::sat(program_count(runs)) as nat,
    ) + " program invocation(s) total\n"@
}

/// The resolved plan, line by line. Nothing is run.
pub fn print_plan(runs: &Vec<ResolvedRun>) -> (r: Vec<String>)
    ensures
        text::texts(r@) == seq![plan_head_of(plan::run_views(runs@))] + all_run_lines(
            plan::run_views(runs@),
        ),
{
    let ghost all = plan::run_views(runs@);
    let mut count: usize = 0;
    let mut lines: Vec<String> = Vec::new();
    let mut i: usize = 0;
    assert(all.take(0) =~= seq![]);
    assert(text::texts(lines@) =~= seq![]);
    while i < runs.len()
        invariant
            i <= runs@.len(),
            all == plan::run_views(runs@),
            count == crate::num::sat(program_count(all.take(i as int))),
            program_count(all.take(i as int)) >= 0,
            text::texts(lines@) == all_run_lines(all.take(i as int)),
        decreases runs@.len() - i,
    {
        assert(all.take(i + 1).drop_last() =~= all.take(i as int));
        assert(all.take(i + 1).last() == runs@[i as int].view());
        count = count.saturating_add(runs[i].programs.len());
        let more = run_lines(&runs[i]);
        text::push_texts(&mut lines, &more);
        i = i + 1;
    }
    assert(all.take(i as int) =~= all);
    let mut head = text::decimal(runs.len() as u64);
    head.append(" declared run(s), ");
    head.append(text::decimal(count as u64).as_str());
    head.append(" program invocation(s) total\n");
    let mut out: Vec<String> = vec![head];
    assert(text::texts(out@) =~= seq![plan_head_of(all)]);
    text::push_texts(&mut out, &lines);
    out
}

// ── Execution ────────────────────────────────────────────────────────────

/// The runs that are selected: all of them, or those that `only` names.
pub open spec fn is_selected(id: Seq<char>, only: Seq<Seq<char>>) -> bool {
    only.len() == 0 || only.contains(id)
}

pub open spec fn selected_of(runs: Seq<plan::ResolvedView>, only: Seq<Seq<char>>) -> Seq<int>
    decreases runs.len(),
{
    if runs.len() == 0 {
        seq![]
    } else {
        let before = selected_of(runs.drop_last(), only);
        if is_selected(runs.last().id, only) {
            before.push(runs.len() - 1)
        } else {
            before
        }
    }
}

pub open spec fn run_ids(runs: Seq<plan::ResolvedView>) -> Seq<Seq<char>> {
    runs.map_values(|r: plan::ResolvedView| r.id)
}

pub open spec fn places(v: Seq<usize>) -> Seq<int> {
    v.map_values(|i: usize| i as int)
}

/// The places of the runs that are selected. None being selected is an error.
pub fn select_runs(runs: &Vec<ResolvedRun>, only: &Vec<String>) -> (r: Result<Vec<usize>, String>)
    ensures
        (match r {
            Ok(v) => places(v@) == selected_of(plan::run_views(runs@), text::texts(only@))
                && v@.len() > 0,
            Err(e) => selected_of(plan::run_views(runs@), text::texts(only@)).len() == 0 && e@
                == "--only matched no declared run; available ids: "@ + text::join_of(
                run_ids(plan::run_views(runs@)),
                ", "@,
            ),
        }),
{
    broadcast use text::group_texts;

    let ghost all = plan::run_views(runs@);
    let ghost names = run_ids(all);
    let mut out: Vec<usize> = Vec::new();
    let mut ids: Vec<String> = Vec::new();
    let mut i: usize = 0;
    assert(all.take(0) =~= seq![]);
    assert(places(out@) =~= seq![]);
    while i < runs.len()
        invariant
            i <= runs@.len(),
            all == plan::run_views(runs@),
            names == run_ids(all),
            places(out@) == selected_of(all.take(i as int), text::texts(only@)),
            text::texts(ids@) == names.take(i as int),
        decreases runs@.len() - i,
    {
        assert(all.take(i + 1).drop_last() =~= all.take(i as int));
        assert(all.take(i + 1).last() == runs@[i as int].view());
        if only.len() == 0 || text::holds(only, runs[i].id.as_str()) {
            let ghost before = places(out@);
            out.push(i);
            assert(places(out@) =~= before.push(i as int));
        }
        let id = runs[i].id.clone();
        assert(names.take(i + 1) =~= names.take(i as int).push(id@));
        ids.push(id);
        i = i + 1;
    }
    assert(all.take(i as int) =~= all);
    assert(names.take(i as int) =~= names);
    if out.len() == 0 {
        let mut e = "--only matched no declared run; available ids: ".to_owned();
        e.append(text::join(&ids, ", ").as_str());
        return Err(e);
    }
    Ok(out)
}

/// What to do about one program of a run.
#[derive(Debug)]
pub enum ProgramStep {
    /// It is done already.
    Skip,
    /// Its parent produced nothing for it: write this record and go on.
    Block(ProgramRecord),
    /// Write this record, then run it. With `force`, its populated output
    /// directory is cleared first.
    Run { started: ProgramRecord, force: bool },
}

/// Whether a step is what is to be done about a program with this prior record.
pub open spec fn is_step(
    r: ProgramStep,
    run: ResolvedRun,
    program: Seq<char>,
    prior: Option<ProgramRecord>,
    has_snapshot: bool,
    force: bool,
) -> bool {
    match prior {
        Some(rec) if is_done_state(rec.state) => r is Skip,
        _ => if run.resumes && !has_snapshot {
            &&& r matches ProgramStep::Block(rec)
            &&& rec.tells_only(program, ProgramState::Blocked)
            &&& text::opt_text(rec.error) == Some(
                "no snapshot at "@ + path::joined(run.input_root@, program),
            )
        } else {
            &&& r matches ProgramStep::Run { started, force: f }
            &&& started.tells_only(program, ProgramState::Started)
            &&& started.error is None
            &&& f == (force || prior is Some)
        },
    }
}

/// Decides about one program. One that is done is never run again. A program
/// whose last attempt did not finish left a partial output directory behind; only
/// that program's directory is cleared, never all of them. `has_snapshot` tells
/// whether the input root holds a snapshot of the program.
pub fn program_step(
    run: &ResolvedRun,
    program: &str,
    prior: &Option<ProgramRecord>,
    has_snapshot: bool,
    force: bool,
) -> (r: ProgramStep)
    ensures
        is_step(r, *run, program@, *prior, has_snapshot, force),
{
    if let Some(rec) = prior {
        if rec.is_done() {
            return ProgramStep::Skip;
        }
    }
    if run.resumes && !has_snapshot {
        let mut e = "no snapshot at ".to_owned();
        e.append(path::join(run.input_root.as_str(), program).as_str());
        return ProgramStep::Block(bare_record(program, ProgramState::Blocked, Some(e)));
    }
    ProgramStep::Run {
        started: bare_record(program, ProgramState::Started, None),
        force: force || prior.is_some(),
    }
}

} // verus!
