//! GoogleTest validation: the log lines that the events of a suite become, and
//! the results that its verdicts become.

use crate::benchmark::stats;
use crate::benchmark::stats::{TestResult, TestResultView};
use crate::num;
use crate::text;
use vstd::prelude::*;
use vstd::string::*;

verus! {

/// Directory that holds the suite.
pub const GTEST_SUITE_DIR: &'static str = "gtest_suite";

/// Where the suite is built, relative to the translated output.
pub const GTEST_BUILD_SUBDIR: &'static str = "target/gtest_build";

/// How tests are run.
#[derive(Debug, Clone, Copy, PartialEq, Eq, Structural)]
pub enum InvocationMode {
    /// Many tests in one process.
    Suite,
    /// One test in its own process.
    Case,
}

/// One process that runs tests.
#[derive(Debug)]
pub struct PlannedInvocation {
    pub mode: InvocationMode,
    pub filter: String,
    pub tests: Vec<String>,
    pub timeout_secs: u64,
    pub note: Option<String>,
}

#[derive(Debug, Clone, Copy, PartialEq, Eq, Structural)]
pub enum TestStatus {
    Passed,
    Skipped,
    Failed,
}

/// The verdict on one test.
#[derive(Debug)]
pub struct TestVerdict {
    pub name: String,
    pub status: TestStatus,
    /// What went wrong, if it failed.
    pub failure: String,
}

/// How many tests of an invocation passed and were skipped.
#[derive(Debug, Clone, Copy, PartialEq, Eq, Structural)]
pub struct InvocationOutcome {
    pub passed: usize,
    pub skipped: usize,
    pub total: usize,
}

/// What the runner of a suite tells while it runs.
#[derive(Debug)]
pub enum Event {
    SuiteBuildStarted,
    SuiteBuilt { gtest_bin: String },
    TestsDiscovered { count: usize },
    /// The plan, and the name of the suite's file that it was read from, if it was.
    PlanReady { invocations: Vec<PlannedInvocation>, read_from: Option<String> },
    InvocationStarted { invocation: PlannedInvocation },
    TestFinished { verdict: TestVerdict },
    InvocationFinished { invocation: PlannedInvocation, outcome: InvocationOutcome },
    /// Something that is not told.
    Other,
}

// ── Rendering ────────────────────────────────────────────────────────────

/// What is remembered between events. Batches and per-case invocations are
/// numbered separately.
#[derive(Debug)]
pub struct Renderer {
    pub batch_total: usize,
    pub case_total: usize,
    pub batch_i: usize,
    pub case_i: usize,
    pub in_batch: bool,
    /// Lines on tests of the current batch, held until the batch ends.
    pub noteworthy: Vec<String>,
}

pub struct RendererView {
    pub batch_total: usize,
    pub case_total: usize,
    pub batch_i: usize,
    pub case_i: usize,
    pub in_batch: bool,
    pub noteworthy: Seq<Seq<char>>,
}

impl Renderer {
    pub open spec fn view(&self) -> RendererView {
        RendererView {
            batch_total: self.batch_total,
            case_total: self.case_total,
            batch_i: self.batch_i,
            case_i: self.case_i,
            in_batch: self.in_batch,
            noteworthy: text::texts(self.noteworthy@),
        }
    }
}

pub open spec fn batch_count(invocations: Seq<PlannedInvocation>) -> int
    decreases invocations.len(),
{
    if invocations.len() == 0 {
        0
    } else {
        batch_count(invocations.drop_last()) + if invocations.last().mode == InvocationMode::Suite {
            1int
        } else {
            0int
        }
    }
}

pub open spec fn dec(n: usize) -> Seq<char> {
    text::decimal_of(n as nat)
}

pub open spec fn note_text(note: Option<String>) -> Seq<char> {
    match note {
        Some(n) => "; "@ + n@,
        None => ""@,
    }
}

pub open spec fn batch_line(i: PlannedInvocation, number: usize, total: usize) -> Seq<char> {
    "Running gtest batch '"@ + i.filter@ + "' ("@ + dec(i.tests@.len() as usize) + " tests, "@
        + dec(number) + " of "@ + dec(total) + ", timeout "@ + text::decimal_of(
        i.timeout_secs as nat,
    ) + "s"@ + note_text(i.note) + ")..."@
}

pub open spec fn case_line(i: PlannedInvocation, number: usize, total: usize) -> Seq<char> {
    "Running gtest "@ + i.filter@ + " ("@ + dec(number) + " of "@ + dec(total) + ", timeout "@
        + text::decimal_of(i.timeout_secs as nat) + "s)..."@
}

/// The lines on a test inside a batch: only those that need attention have one.
pub open spec fn batched_test(v: TestVerdict) -> Seq<Seq<char>> {
    match v.status {
        TestStatus::Skipped => seq![
            "  \u{23ed}\u{fe0f}  Test "@ + v.name@ + " skipped (GTEST_SKIP)"@,
        ],
        TestStatus::Passed => seq![],
        TestStatus::Failed => seq!["  \u{274c} Test "@ + v.name@ + " failed"@],
    }
}

/// The line on a test that ran alone.
pub open spec fn single_test(v: TestVerdict) -> Seq<char> {
    match v.status {
        TestStatus::Skipped => "Skipping gtest "@ + v.name@ + " (GTEST_SKIP)"@,
        TestStatus::Passed => "\u{2705} Test "@ + v.name@ + " passed"@,
        TestStatus::Failed => "\u{274c} Test "@ + v.name@ + " failed"@,
    }
}

/// How many tests of a batch did not fail.
pub open spec fn unfailed(o: InvocationOutcome) -> usize {
    num::sat(o.passed + o.skipped)
}

/// The lines that end a batch: what was held, a count of the tests that passed
/// silently, and the verdict on the batch.
pub open spec fn batch_end(held: Seq<Seq<char>>, i: PlannedInvocation, o: InvocationOutcome) -> Seq<
    Seq<char>,
> {
    held + (if 0 < o.passed < o.total {
        seq!["  \u{2705} "@ + dec(o.passed) + " other test(s) passed"@]
    } else {
        seq![]
    }) + seq![
        (if unfailed(o) == o.total {
            "\u{2705}"@
        } else {
            "\u{274c}"@
        }) + " Batch '"@ + i.filter@ + "': "@ + dec(unfailed(o)) + "/"@ + dec(o.total)
            + " passed"@,
    ]
}

/// Where the plan comes from.
pub open spec fn source_lines(read_from: Option<Seq<char>>) -> Seq<Seq<char>> {
    match read_from {
        Some(name) => seq!["Using invocation plan from "@ + name],
        None => seq![],
    }
}

/// The lines an event becomes.
pub open spec fn lines_of(s: RendererView, e: Event) -> Seq<Seq<char>> {
    match e {
        Event::SuiteBuildStarted => seq!["Configuring and building GoogleTest suite..."@],
        Event::SuiteBuilt { gtest_bin } => seq!["GoogleTest suite built at: "@ + gtest_bin@],
        Event::TestsDiscovered { count } => seq![
            "Discovered "@ + dec(count) + " GoogleTest test(s)"@,
        ],
        Event::PlanReady { invocations, read_from } => {
            let batches = batch_count(invocations@);
            source_lines(text::opt_text(read_from)) + seq![
                "Execution plan: "@ + text::decimal_of(batches as nat) + " batch invocation(s), "@
                    + text::decimal_of((invocations@.len() - batches) as nat)
                    + " per-case invocation(s)"@,
                "Validating library outputs against GoogleTest suite..."@,
            ]
        },
        Event::InvocationStarted { invocation } => match invocation.mode {
            InvocationMode::Suite => seq![
                batch_line(invocation, num::sat(s.batch_i + 1), s.batch_total),
            ],
            InvocationMode::Case => seq![
                case_line(invocation, num::sat(s.case_i + 1), s.case_total),
            ],
        },
        Event::TestFinished { verdict } => if s.in_batch {
            seq![]
        } else {
            seq![single_test(verdict)]
        },
        Event::InvocationFinished { invocation, outcome } => match invocation.mode {
            InvocationMode::Suite => batch_end(s.noteworthy, invocation, outcome),
            InvocationMode::Case => seq![],
        },
        Event::Other => seq![],
    }
}

/// What is remembered after an event.
pub open spec fn after_event(s: RendererView, e: Event) -> RendererView {
    match e {
        Event::PlanReady { invocations, .. } => RendererView {
            batch_total: batch_count(invocations@) as usize,
            case_total: (invocations@.len() - batch_count(invocations@)) as usize,
            ..s
        },
        Event::InvocationStarted { invocation } => match invocation.mode {
            InvocationMode::Suite => RendererView {
                batch_i: num::sat(s.batch_i + 1),
                in_batch: true,
                noteworthy: seq![],
                ..s
            },
            InvocationMode::Case => RendererView {
                case_i: num::sat(s.case_i + 1),
                in_batch: false,
                ..s
            },
        },
        Event::TestFinished { verdict } => if s.in_batch {
            RendererView { noteworthy: s.noteworthy + batched_test(verdict), ..s }
        } else {
            s
        },
        Event::InvocationFinished { invocation, .. } => match invocation.mode {
            InvocationMode::Suite => RendererView { noteworthy: seq![], ..s },
            InvocationMode::Case => s,
        },
        _ => s,
    }
}

fn join2(a: &str, b: &str) -> (r: String)
    ensures
        r@ == a@ + b@,
{
    let mut s = a.to_owned();
    s.append(b);
    s
}

fn join3(a: &str, b: &str, c: &str) -> (r: String)
    ensures
        r@ == a@ + b@ + c@,
{
    let mut s = a.to_owned();
    s.append(b);
    s.append(c);
    s
}

fn one_line(s: String) -> (r: Vec<String>)
    ensures
        text::texts(r@) == seq![s@],
{
    let r: Vec<String> = vec![s];
    assert(text::texts(r@) =~= seq![r@[0]@]);
    r
}

fn no_lines() -> (r: Vec<String>)
    ensures
        text::texts(r@) == Seq::<Seq<char>>::empty(),
{
    let r: Vec<String> = Vec::new();
    assert(text::texts(r@) =~= seq![]);
    r
}

fn count_batches(invocations: &Vec<PlannedInvocation>) -> (r: usize)
    ensures
        r == batch_count(invocations@),
        r <= invocations@.len(),
{
    let mut n: usize = 0;
    let mut i: usize = 0;
    assert(invocations@.take(0) =~= seq![]);
    while i < invocations.len()
        invariant
            n <= i <= invocations@.len(),
            n == batch_count(invocations@.take(i as int)),
        decreases invocations@.len() - i,
    {
        assert(invocations@.take(i + 1).drop_last() =~= invocations@.take(i as int));
        if invocations[i].mode == InvocationMode::Suite {
            n = n + 1;
        }
        i = i + 1;
    }
    assert(invocations@.take(i as int) =~= invocations@);
    n
}

fn render_batch_line(i: &PlannedInvocation, number: usize, total: usize) -> (r: String)
    ensures
        r@ == batch_line(*i, number, total),
{
    let mut s = "Running gtest batch '".to_owned();
    s.append(i.filter.as_str());
    s.append("' (");
    s.append(text::decimal(i.tests.len() as u64).as_str());
    s.append(" tests, ");
    s.append(text::decimal(number as u64).as_str());
    s.append(" of ");
    s.append(text::decimal(total as u64).as_str());
    s.append(", timeout ");
    s.append(text::decimal(i.timeout_secs).as_str());
    s.append("s");
    let note = match &i.note {
        Some(n) => join2("; ", n.as_str()),
        None => "".to_owned(),
    };
    s.append(note.as_str());
    s.append(")...");
    s
}

fn render_case_line(i: &PlannedInvocation, number: usize, total: usize) -> (r: String)
    ensures
        r@ == case_line(*i, number, total),
{
    let mut s = "Running gtest ".to_owned();
    s.append(i.filter.as_str());
    s.append(" (");
    s.append(text::decimal(number as u64).as_str());
    s.append(" of ");
    s.append(text::decimal(total as u64).as_str());
    s.append(", timeout ");
    s.append(text::decimal(i.timeout_secs).as_str());
    s.append("s)...");
    s
}

fn render_single_test(v: &TestVerdict) -> (r: String)
    ensures
        r@ == single_test(*v),
{
    match v.status {
        TestStatus::Skipped => join3("Skipping gtest ", v.name.as_str(), " (GTEST_SKIP)"),
        TestStatus::Passed => join3("\u{2705} Test ", v.name.as_str(), " passed"),
        TestStatus::Failed => join3("\u{274c} Test ", v.name.as_str(), " failed"),
    }
}

fn render_plan(
    invocations: &Vec<PlannedInvocation>,
    read_from: &Option<String>,
    batches: usize,
) -> (r: Vec<String>)
    requires
        batches == batch_count(invocations@),
        batches <= invocations@.len(),
    ensures
        text::texts(r@) == source_lines(text::opt_text(*read_from)) + seq![
            "Execution plan: "@ + text::decimal_of(batch_count(invocations@) as nat)
                + " batch invocation(s), "@ + text::decimal_of(
                (invocations@.len() - batch_count(invocations@)) as nat,
            ) + " per-case invocation(s)"@,
            "Validating library outputs against GoogleTest suite..."@,
        ],
{
    broadcast use text::group_texts;

    let mut out: Vec<String> = Vec::new();
    assert(text::texts(out@) =~= seq![]);
    if let Some(name) = read_from {
        out.push(join2("Using invocation plan from ", name.as_str()));
    }
    let mut s = "Execution plan: ".to_owned();
    s.append(text::decimal(batches as u64).as_str());
    s.append(" batch invocation(s), ");
    s.append(text::decimal((invocations.len() - batches) as u64).as_str());
    s.append(" per-case invocation(s)");
    let ghost planned = s@;
    out.push(s);
    out.push("Validating library outputs against GoogleTest suite...".to_owned());
    assert(text::texts(out@) =~= source_lines(text::opt_text(*read_from)) + seq![
        planned, "Validating library outputs against GoogleTest suite..."@]);
    out
}

fn render_batch_end(held: &Vec<String>, i: &PlannedInvocation, o: &InvocationOutcome) -> (r: Vec<
    String,
>)
    ensures
        text::texts(r@) == batch_end(text::texts(held@), *i, *o),
{
    broadcast use text::group_texts;

    let ghost start = text::texts(held@);
    let mut out = text::copy_texts(held);
    if o.passed > 0 && o.passed < o.total {
        let shown = text::decimal(o.passed as u64);
        out.push(join3("  \u{2705} ", shown.as_str(), " other test(s) passed"));
    }
    let passed = o.passed.saturating_add(o.skipped);
    let mut s = if passed == o.total {
        "\u{2705}".to_owned()
    } else {
        "\u{274c}".to_owned()
    };
    s.append(" Batch '");
    s.append(i.filter.as_str());
    s.append("': ");
    s.append(text::decimal(passed as u64).as_str());
    s.append("/");
    s.append(text::decimal(o.total as u64).as_str());
    s.append(" passed");
    out.push(s);
    assert(text::texts(out@) =~= batch_end(start, *i, *o));
    out
}

impl Renderer {
    pub fn new() -> (r: Renderer)
        ensures
            r.view() == (RendererView {
                batch_total: 0,
                case_total: 0,
                batch_i: 0,
                case_i: 0,
                in_batch: false,
                noteworthy: seq![],
            }),
    {
        let noteworthy: Vec<String> = Vec::new();
        assert(text::texts(noteworthy@) =~= seq![]);
        Renderer {
            batch_total: 0,
            case_total: 0,
            batch_i: 0,
            case_i: 0,
            in_batch: false,
            noteworthy,
        }
    }

    fn hold(&mut self, v: &TestVerdict)
        ensures
            final(self).view() == (RendererView {
                noteworthy: old(self).view().noteworthy + batched_test(*v),
                ..old(self).view()
            }),
    {
        broadcast use text::group_texts;

        let ghost before = text::texts(self.noteworthy@);
        match v.status {
            TestStatus::Skipped => {
                self.noteworthy.push(
                    join3(
                        "  \u{23ed}\u{fe0f}  Test ",
                        v.name.as_str(),
                        " skipped (GTEST_SKIP)",
                    ),
                );
            },
            TestStatus::Passed => {},
            TestStatus::Failed => {
                self.noteworthy.push(join3("  \u{274c} Test ", v.name.as_str(), " failed"));
            },
        }
        assert(text::texts(self.noteworthy@) =~= before + batched_test(*v));
    }

    /// Renders one event as log lines. The formats are what other tools look for
    /// in a log, so they must not drift. Tests that run alone always have a line
    /// of their own. Inside a batch only the tests that need attention have one,
    /// followed by a count of those that passed silently.
    pub fn render(&mut self, event: &Event) -> (r: Vec<String>)
        ensures
            text::texts(r@) == lines_of(old(self).view(), *event),
            final(self).view() == after_event(old(self).view(), *event),
    {
        match event {
            Event::SuiteBuildStarted => one_line(
                "Configuring and building GoogleTest suite...".to_owned(),
            ),
            Event::SuiteBuilt { gtest_bin } => one_line(
                join2("GoogleTest suite built at: ", gtest_bin.as_str()),
            ),
            Event::TestsDiscovered { count } => {
                let shown = text::decimal(*count as u64);
                one_line(join3("Discovered ", shown.as_str(), " GoogleTest test(s)"))
            },
            Event::PlanReady { invocations, read_from } => {
                let batches = count_batches(invocations);
                self.batch_total = batches;
                self.case_total = invocations.len() - batches;
                render_plan(invocations, read_from, batches)
            },
            Event::InvocationStarted { invocation } => match invocation.mode {
                InvocationMode::Suite => {
                    self.batch_i = self.batch_i.saturating_add(1);
                    self.in_batch = true;
                    self.noteworthy = Vec::new();
                    assert(text::texts(self.noteworthy@) =~= seq![]);
                    one_line(render_batch_line(invocation, self.batch_i, self.batch_total))
                },
                InvocationMode::Case => {
                    self.case_i = self.case_i.saturating_add(1);
                    self.in_batch = false;
                    one_line(render_case_line(invocation, self.case_i, self.case_total))
                },
            },
            Event::TestFinished { verdict } => {
                if self.in_batch {
                    self.hold(verdict);
                    no_lines()
                } else {
                    one_line(render_single_test(verdict))
                }
            },
            Event::InvocationFinished { invocation, outcome } => {
                if invocation.mode == InvocationMode::Suite {
                    let lines = render_batch_end(&self.noteworthy, invocation, outcome);
                    self.noteworthy = Vec::new();
                    assert(text::texts(self.noteworthy@) =~= seq![]);
                    lines
                } else {
                    no_lines()
                }
            },
            Event::Other => no_lines(),
        }
    }
}

// ── Laws ─────────────────────────────────────────────────────────────────

/// What is remembered after some events.
pub open spec fn after_events(s: RendererView, es: Seq<Event>) -> RendererView
    decreases es.len(),
{
    if es.len() == 0 {
        s
    } else {
        after_event(after_events(s, es.drop_last()), es.last())
    }
}

/// The lines that some events become.
pub open spec fn all_lines(s: RendererView, es: Seq<Event>) -> Seq<Seq<char>>
    decreases es.len(),
{
    if es.len() == 0 {
        seq![]
    } else {
        all_lines(s, es.drop_last()) + lines_of(after_events(s, es.drop_last()), es.last())
    }
}

/// The tests of one invocation.
pub open spec fn test_events(verdicts: Seq<TestVerdict>) -> Seq<Event> {
    verdicts.map_values(|v: TestVerdict| Event::TestFinished { verdict: v })
}

/// What the tests of a batch leave to be told at its end.
pub open spec fn held_lines(verdicts: Seq<TestVerdict>) -> Seq<Seq<char>>
    decreases verdicts.len(),
{
    if verdicts.len() == 0 {
        seq![]
    } else {
        held_lines(verdicts.drop_last()) + batched_test(verdicts.last())
    }
}

proof fn batch_is_silent(s: RendererView, verdicts: Seq<TestVerdict>)
    requires
        s.in_batch,
    ensures
        all_lines(s, test_events(verdicts)) == Seq::<Seq<char>>::empty(),
        after_events(s, test_events(verdicts)) == (RendererView {
            noteworthy: s.noteworthy + held_lines(verdicts),
            ..s
        }),
    decreases verdicts.len(),
{
    let es = test_events(verdicts);
    if verdicts.len() == 0 {
        assert(es =~= seq![]);
        assert(s.noteworthy + held_lines(verdicts) =~= s.noteworthy);
    } else {
        batch_is_silent(s, verdicts.drop_last());
        assert(es.drop_last() =~= test_events(verdicts.drop_last()));
        assert(es.last() == (Event::TestFinished { verdict: verdicts.last() }));
        assert(s.noteworthy + held_lines(verdicts) =~= s.noteworthy + held_lines(
            verdicts.drop_last(),
        ) + batched_test(verdicts.last()));
    }
}

/// The lines of a batch: its header, then the tests that need attention, then the
/// count and the verdict. What was remembered of earlier batches does not appear,
/// and nothing of this batch is remembered for later ones.
pub proof fn batch_lines_are_its_own(
    s: RendererView,
    i: PlannedInvocation,
    verdicts: Seq<TestVerdict>,
    o: InvocationOutcome,
)
    requires
        i.mode == InvocationMode::Suite,
    ensures
        ({
            let es = seq![Event::InvocationStarted { invocation: i }] + test_events(verdicts)
                + seq![Event::InvocationFinished { invocation: i, outcome: o }];
            &&& all_lines(s, es) == seq![batch_line(i, num::sat(s.batch_i + 1), s.batch_total)]
                + batch_end(held_lines(verdicts), i, o)
            &&& after_events(s, es).noteworthy.len() == 0
        }),
{
    let start = Event::InvocationStarted { invocation: i };
    let end = Event::InvocationFinished { invocation: i, outcome: o };
    let head = seq![start];
    let tests = test_events(verdicts);
    let es = head + tests + seq![end];
    assert(es.drop_last() =~= head + tests);
    assert(es.last() == end);
    let t = after_event(s, start);
    split_events(s, head, tests);
    assert(head.drop_last() =~= seq![]);
    assert(after_events(s, head.drop_last()) == s);
    assert(all_lines(s, head.drop_last()) =~= seq![]);
    assert(after_events(s, head) == t);
    assert(all_lines(s, head) =~= lines_of(s, start));
    batch_is_silent(t, verdicts);
    assert(seq![] + held_lines(verdicts) =~= held_lines(verdicts));
    assert(all_lines(s, es) =~= seq![batch_line(i, num::sat(s.batch_i + 1), s.batch_total)]
        + batch_end(held_lines(verdicts), i, o));
}

proof fn split_events(s: RendererView, a: Seq<Event>, b: Seq<Event>)
    ensures
        after_events(s, a + b) == after_events(after_events(s, a), b),
        all_lines(s, a + b) == all_lines(s, a) + all_lines(after_events(s, a), b),
    decreases b.len(),
{
    if b.len() == 0 {
        assert(a + b =~= a);
        assert(all_lines(s, a) + all_lines(after_events(s, a), b) =~= all_lines(s, a));
    } else {
        split_events(s, a, b.drop_last());
        assert((a + b).drop_last() =~= a + b.drop_last());
        assert((a + b).last() == b.last());
        assert(all_lines(s, a + b) =~= all_lines(s, a) + all_lines(after_events(s, a), b));
    }
}

/// Tests that passed in a batch are never named.
pub proof fn passing_tests_are_silent_in_a_batch(v: TestVerdict)
    requires
        v.status == TestStatus::Passed,
    ensures
        batched_test(v).len() == 0,
{
}

/// A test that runs alone always has exactly one line, whatever its verdict.
pub proof fn single_tests_are_told(s: RendererView, v: TestVerdict)
    requires
        !s.in_batch,
    ensures
        lines_of(s, Event::TestFinished { verdict: v }) == seq![single_test(v)],
        after_event(s, Event::TestFinished { verdict: v }) == s,
{
}

// ── Results ──────────────────────────────────────────────────────────────

/// The result that a verdict becomes. A skipped test counts as passed and is told
/// as skipped.
pub open spec fn result_of(v: TestVerdict) -> TestResultView {
    TestResultView {
        filename: v.name@,
        passed: v.status != TestStatus::Failed,
        skipped: v.status == TestStatus::Skipped,
    }
}

pub open spec fn results_of(verdicts: Seq<TestVerdict>) -> Seq<TestResultView> {
    verdicts.map_values(|v: TestVerdict| result_of(v))
}

pub open spec fn failures_of(verdicts: Seq<TestVerdict>) -> Seq<Seq<char>>
    decreases verdicts.len(),
{
    if verdicts.len() == 0 {
        seq![]
    } else {
        let before = failures_of(verdicts.drop_last());
        let v = verdicts.last();
        if v.status == TestStatus::Failed {
            before.push("gtest "@ + v.name@ + " failed:\n"@ + v.failure@)
        } else {
            before
        }
    }
}

/// The results and the error messages that the verdicts of a suite become, one
/// result per test.
pub fn gtest_results(verdicts: &Vec<TestVerdict>) -> (r: (Vec<TestResult>, Vec<String>))
    ensures
        stats::result_views(r.0@) == results_of(verdicts@),
        text::texts(r.1@) == failures_of(verdicts@),
{
    broadcast use {text::group_texts, stats::result_views_push};

    let ghost want = results_of(verdicts@);
    let mut results: Vec<TestResult> = Vec::new();
    let mut errors: Vec<String> = Vec::new();
    let mut i: usize = 0;
    assert(verdicts@.take(0) =~= seq![]);
    assert(text::texts(errors@) =~= seq![]);
    assert(stats::result_views(results@) =~= want.take(0));
    while i < verdicts.len()
        invariant
            i <= verdicts@.len(),
            want == results_of(verdicts@),
            stats::result_views(results@) == want.take(i as int),
            text::texts(errors@) == failures_of(verdicts@.take(i as int)),
        decreases verdicts@.len() - i,
    {
        assert(verdicts@.take(i + 1).drop_last() =~= verdicts@.take(i as int));
        let v = &verdicts[i];
        if v.status == TestStatus::Failed {
            let mut e = join3("gtest ", v.name.as_str(), " failed:\n");
            e.append(v.failure.as_str());
            errors.push(e);
        }
        let row = TestResult {
            filename: v.name.clone(),
            passed: v.status != TestStatus::Failed,
            skipped: v.status == TestStatus::Skipped,
        };
        assert(row.view() == want[i as int]);
        assert(want.take(i + 1) =~= want.take(i as int).push(row.view()));
        results.push(row);
        i = i + 1;
    }
    assert(verdicts@.take(i as int) =~= verdicts@);
    assert(want.take(i as int) =~= want);
    (results, errors)
}

} // verus!
