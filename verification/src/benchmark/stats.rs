//! Statistics of benchmark runs.

use crate::num;
use crate::text;
use vstd::prelude::*;
use vstd::string::*;

verus! {

/// The outcome of a single test of a program.
#[derive(Debug)]
pub struct TestResult {
    pub filename: String,
    pub passed: bool,
    pub skipped: bool,
}

pub struct TestResultView {
    pub filename: Seq<char>,
    pub passed: bool,
    pub skipped: bool,
}

impl TestResult {
    pub open spec fn view(&self) -> TestResultView {
        TestResultView { filename: self.filename@, passed: self.passed, skipped: self.skipped }
    }
}

pub open spec fn result_views(v: Seq<TestResult>) -> Seq<TestResultView> {
    v.map_values(|r: TestResult| r.view())
}

pub broadcast proof fn result_views_push(v: Seq<TestResult>, r: TestResult)
    ensures
        #[trigger] result_views(v.push(r)) == result_views(v).push(r.view()),
{
    assert(result_views(v.push(r)) =~= result_views(v).push(r.view()));
}

/// Statistics for running many tests on a single program.
#[derive(Debug)]
pub struct ProgramEvalStats {
    pub program_name: String,
    pub translation_success: bool,
    pub rust_build_success: bool,
    pub total_tests: usize,
    pub passed_tests: usize,
    pub skipped_tests: usize,
    pub error_message: Option<String>,
    /// Individual test results, in the order in which the tests ran.
    pub test_results: Vec<TestResult>,
}

pub struct StatsView {
    pub program_name: Seq<char>,
    pub translation_success: bool,
    pub rust_build_success: bool,
    pub total_tests: int,
    pub passed_tests: int,
    pub skipped_tests: int,
    pub error_message: Option<Seq<char>>,
    pub test_results: Seq<TestResultView>,
}

impl ProgramEvalStats {
    pub open spec fn view(&self) -> StatsView {
        StatsView {
            program_name: self.program_name@,
            translation_success: self.translation_success,
            rust_build_success: self.rust_build_success,
            total_tests: self.total_tests as int,
            passed_tests: self.passed_tests as int,
            skipped_tests: self.skipped_tests as int,
            error_message: text::opt_text(self.error_message),
            test_results: result_views(self.test_results@),
        }
    }
}

/// `a - b`, or 0 where that is negative.
pub open spec fn minus(a: int, b: int) -> int {
    if a > b {
        a - b
    } else {
        0
    }
}

impl ProgramEvalStats {
    pub fn new(program_name: &str) -> (r: Self)
        ensures
            r.program_name@ == program_name@,
            !r.translation_success,
            !r.rust_build_success,
            r.total_tests == 0,
            r.passed_tests == 0,
            r.skipped_tests == 0,
            r.error_message is None,
            r.test_results@.len() == 0,
    {
        ProgramEvalStats {
            program_name: program_name.to_owned(),
            translation_success: false,
            rust_build_success: false,
            total_tests: 0,
            passed_tests: 0,
            skipped_tests: 0,
            error_message: None,
            test_results: Vec::new(),
        }
    }

    pub open spec fn evaluated(&self) -> int {
        minus(self.total_tests as int, self.skipped_tests as int)
    }

    /// Number of tests that were actually evaluated, which is to say not skipped.
    pub fn evaluated_tests(&self) -> (r: usize)
        ensures
            r == self.evaluated(),
    {
        self.total_tests.saturating_sub(self.skipped_tests)
    }

    /// Number of evaluated tests that failed.
    pub fn failed_tests(&self) -> (r: usize)
        ensures
            r == minus(self.evaluated(), self.passed_tests as int),
    {
        self.evaluated_tests().saturating_sub(self.passed_tests)
    }

    pub open spec fn passed_all(&self) -> bool {
        self.evaluated() > 0 && self.passed_tests == self.evaluated()
    }

    /// Whether this program passed its whole suite. A program that evaluated no
    /// tests, such as one that did not build, does not count.
    pub fn all_tests_passed(&self) -> (r: bool)
        ensures
            r == self.passed_all(),
    {
        let evaluated = self.evaluated_tests();
        evaluated > 0 && self.passed_tests == evaluated
    }
}

/// Summary statistics across all program runs. Test outcomes exist at two levels,
/// because suites differ widely in how many tests they expose: the number of
/// programs that passed their whole suite, and the pooled counts of tests.
#[derive(Debug, Clone, Copy, PartialEq, Eq, Structural)]
pub struct SummaryStats {
    pub num_programs: usize,
    pub successful_translations: usize,
    pub successful_rust_builds: usize,
    pub total_tests: usize,
    pub total_skipped_tests: usize,
    pub total_passed_tests: usize,
    pub programs_all_tests_passed: usize,
    pub min_evaluated_tests: usize,
    pub max_evaluated_tests: usize,
}

/// How many programs have a property.
pub open spec fn count_where(
    results: Seq<ProgramEvalStats>,
    has: spec_fn(ProgramEvalStats) -> bool,
) -> nat
    decreases results.len(),
{
    if results.len() == 0 {
        0
    } else {
        count_where(results.drop_last(), has) + if has(results.last()) {
            1nat
        } else {
            0nat
        }
    }
}

/// The sum of a number over all programs.
pub open spec fn sum_over(
    results: Seq<ProgramEvalStats>,
    value: spec_fn(ProgramEvalStats) -> int,
) -> int
    decreases results.len(),
{
    if results.len() == 0 {
        0
    } else {
        sum_over(results.drop_last(), value) + value(results.last())
    }
}

pub open spec fn sum_total(results: Seq<ProgramEvalStats>) -> int {
    sum_over(results, |r: ProgramEvalStats| r.total_tests as int)
}

pub open spec fn sum_skipped(results: Seq<ProgramEvalStats>) -> int {
    sum_over(results, |r: ProgramEvalStats| r.skipped_tests as int)
}

pub open spec fn sum_passed(results: Seq<ProgramEvalStats>) -> int {
    sum_over(results, |r: ProgramEvalStats| r.passed_tests as int)
}

/// Whether `n` is the least positive number of evaluated tests, or 0 if there is
/// none.
pub open spec fn is_least_evaluated(results: Seq<ProgramEvalStats>, n: int) -> bool {
    if n > 0 {
        &&& exists|i: int| 0 <= i < results.len() && #[trigger] results[i].evaluated() == n
        &&& forall|i: int|
            0 <= i < results.len() && #[trigger] results[i].evaluated() > 0 ==> n
                <= results[i].evaluated()
    } else {
        n == 0 && forall|i: int|
            0 <= i < results.len() ==> #[trigger] results[i].evaluated() == 0
    }
}

/// Whether `n` is the greatest number of evaluated tests, or 0 if there is none.
pub open spec fn is_most_evaluated(results: Seq<ProgramEvalStats>, n: int) -> bool {
    &&& n >= 0
    &&& forall|i: int| 0 <= i < results.len() ==> #[trigger] results[i].evaluated() <= n
    &&& n > 0 ==> exists|i: int| 0 <= i < results.len() && #[trigger] results[i].evaluated() == n
}

pub open spec fn summary_counts(results: Seq<ProgramEvalStats>, s: SummaryStats) -> bool {
    &&& s.num_programs == results.len()
    &&& s.successful_translations == count_where(
        results,
        |r: ProgramEvalStats| r.translation_success,
    )
    &&& s.successful_rust_builds == count_where(
        results,
        |r: ProgramEvalStats| r.rust_build_success,
    )
    &&& s.total_tests == num::sat(sum_total(results))
    &&& s.total_skipped_tests == num::sat(sum_skipped(results))
    &&& s.total_passed_tests == num::sat(sum_passed(results))
    &&& s.programs_all_tests_passed == count_where(results, |r: ProgramEvalStats| r.passed_all())
}

impl SummaryStats {
    pub open spec fn evaluated(&self) -> int {
        minus(self.total_tests as int, self.total_skipped_tests as int)
    }

    /// Number of tests that were actually evaluated, which is to say not skipped.
    pub fn evaluated_tests(&self) -> (r: usize)
        ensures
            r == self.evaluated(),
    {
        self.total_tests.saturating_sub(self.total_skipped_tests)
    }

    /// Number of evaluated tests that failed.
    pub fn failed_tests(&self) -> (r: usize)
        ensures
            r == minus(self.evaluated(), self.total_passed_tests as int),
    {
        self.evaluated_tests().saturating_sub(self.total_passed_tests)
    }

    /// Sums up the programs. The spread of suite sizes is taken over programs
    /// that actually evaluated something; programs that never got to run would
    /// otherwise pin the minimum at 0. A total that does not fit stays at the
    /// greatest number that does.
    pub fn from_results(results: &[ProgramEvalStats]) -> (r: Self)
        ensures
            summary_counts(results@, r),
            is_least_evaluated(results@, r.min_evaluated_tests as int),
            is_most_evaluated(results@, r.max_evaluated_tests as int),
    {
        let mut s = SummaryStats {
            num_programs: 0,
            successful_translations: 0,
            successful_rust_builds: 0,
            total_tests: 0,
            total_skipped_tests: 0,
            total_passed_tests: 0,
            programs_all_tests_passed: 0,
            min_evaluated_tests: 0,
            max_evaluated_tests: 0,
        };
        let mut i: usize = 0;
        assert(results@.take(0) =~= seq![]);
        while i < results.len()
            invariant
                i <= results@.len(),
                summary_counts(results@.take(i as int), s),
                s.num_programs == i,
                is_least_evaluated(results@.take(i as int), s.min_evaluated_tests as int),
                is_most_evaluated(results@.take(i as int), s.max_evaluated_tests as int),
                count_where(results@.take(i as int), |r: ProgramEvalStats| r.translation_success)
                    <= i,
                count_where(results@.take(i as int), |r: ProgramEvalStats| r.rust_build_success)
                    <= i,
                count_where(results@.take(i as int), |r: ProgramEvalStats| r.passed_all()) <= i,
                sum_total(results@.take(i as int)) >= 0,
                sum_skipped(results@.take(i as int)) >= 0,
                sum_passed(results@.take(i as int)) >= 0,
            decreases results@.len() - i,
        {
            let ghost before = results@.take(i as int);
            let ghost after = results@.take(i + 1);
            assert(after.drop_last() =~= before);
            assert(after.last() == results@[i as int]);
            let r = &results[i];
            if r.translation_success {
                s.successful_translations = s.successful_translations + 1;
            }
            if r.rust_build_success {
                s.successful_rust_builds = s.successful_rust_builds + 1;
            }
            s.total_tests = s.total_tests.saturating_add(r.total_tests);
            s.total_skipped_tests = s.total_skipped_tests.saturating_add(r.skipped_tests);
            s.total_passed_tests = s.total_passed_tests.saturating_add(r.passed_tests);
            if r.all_tests_passed() {
                s.programs_all_tests_passed = s.programs_all_tests_passed + 1;
            }
            let n = r.evaluated_tests();
            let ghost least = s.min_evaluated_tests;
            let ghost most = s.max_evaluated_tests;
            if n > 0 && (s.min_evaluated_tests == 0 || n < s.min_evaluated_tests) {
                s.min_evaluated_tests = n;
            }
            if n > s.max_evaluated_tests {
                s.max_evaluated_tests = n;
            }
            s.num_programs = s.num_programs + 1;
            i = i + 1;
            assert(forall|k: int|
                0 <= k < before.len() ==> #[trigger] after[k].evaluated() == before[k].evaluated());
            assert(after[i - 1].evaluated() == n);
            assert(is_least_evaluated(after, s.min_evaluated_tests as int)) by {
                if least > 0 {
                    let k = choose|k: int|
                        0 <= k < before.len() && #[trigger] before[k].evaluated() == least;
                    assert(after[k].evaluated() == least);
                }
                assert forall|k: int| 0 <= k < after.len() && #[trigger] after[k].evaluated()
                    > 0 implies s.min_evaluated_tests <= after[k].evaluated() by {
                    if k < before.len() {
                        assert(before[k].evaluated() > 0);
                    }
                }
            }
            assert(is_most_evaluated(after, s.max_evaluated_tests as int)) by {
                if most > 0 {
                    let k = choose|k: int|
                        0 <= k < before.len() && #[trigger] before[k].evaluated() == most;
                    assert(after[k].evaluated() == most);
                }
            }
        }
        assert(results@.take(i as int) =~= results@);
        s
    }
}

/// Programs are counted the same however many tests their suites have: two runs
/// whose programs agree on which of them passed their whole suites agree on how
/// many did.
pub proof fn headline_ignores_suite_sizes(a: Seq<ProgramEvalStats>, b: Seq<ProgramEvalStats>)
    requires
        a.len() == b.len(),
        forall|i: int|
            0 <= i < a.len() ==> (#[trigger] a[i]).passed_all() == b[i].passed_all(),
    ensures
        count_where(a, |r: ProgramEvalStats| r.passed_all()) == count_where(
            b,
            |r: ProgramEvalStats| r.passed_all(),
        ),
    decreases a.len(),
{
    if a.len() > 0 {
        let x = a.drop_last();
        let y = b.drop_last();
        assert forall|i: int| 0 <= i < x.len() implies (#[trigger] x[i]).passed_all()
            == y[i].passed_all() by {
            assert(x[i] == a[i]);
        }
        headline_ignores_suite_sizes(x, y);
        assert(a[a.len() - 1].passed_all() == b[b.len() - 1].passed_all());
    }
}

/// A program that passed its whole suite has no failed tests, and evaluated at
/// least one.
pub proof fn passing_all_means_no_failures(r: ProgramEvalStats)
    requires
        r.passed_all(),
    ensures
        r.evaluated() > 0,
        minus(r.evaluated(), r.passed_tests as int) == 0,
{
}

} // verus!
