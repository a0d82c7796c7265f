//! The summary of a run: the counts of the outcomes, the score, and the mutants that
//! survived.

use vstd::prelude::*;
use vstd::string::*;
use crate::mutants::{copy_lines, MutantResult, MutantResultView, MutantStatus};

verus! {

/// A mutant that the tests did not detect, as it is reported.
#[derive(Debug)]
pub struct SurvivedMutant {
    /// The reference of the mutant in the report: `m1`, `m2`, and so on.
    pub ref_id: String,
    /// The source file, as the user named it.
    pub file: String,
    pub line: usize,
    pub column: usize,
    pub operator: String,
    pub original: String,
    pub replacement: String,
    pub diff: String,
    pub context_before: Vec<String>,
    pub context_after: Vec<String>,
}

/// The mathematical value of a [`SurvivedMutant`].
pub struct SurvivedMutantView {
    pub ref_id: Seq<char>,
    pub file: Seq<char>,
    pub line: int,
    pub column: int,
    pub operator: Seq<char>,
    pub original: Seq<char>,
    pub replacement: Seq<char>,
    pub diff: Seq<char>,
    pub context_before: Seq<Seq<char>>,
    pub context_after: Seq<Seq<char>>,
}

impl View for SurvivedMutant {
    type V = SurvivedMutantView;

    open spec fn view(&self) -> SurvivedMutantView {
        SurvivedMutantView {
            ref_id: self.ref_id@,
            file: self.file@,
            line: self.line as int,
            column: self.column as int,
            operator: self.operator@,
            original: self.original@,
            replacement: self.replacement@,
            diff: self.diff@,
            context_before: self.context_before.deep_view(),
            context_after: self.context_after.deep_view(),
        }
    }
}

impl DeepView for SurvivedMutant {
    type V = SurvivedMutantView;

    open spec fn deep_view(&self) -> SurvivedMutantView {
        self@
    }
}

/// The score of a run as a fraction.
#[derive(Debug, Clone, Copy, PartialEq, Eq, Structural)]
pub struct Score {
    pub numerator: usize,
    pub denominator: usize,
}

/// The outcome of a run in numbers, with the mutants that survived.
#[derive(Debug)]
pub struct RunSummary {
    pub total: usize,
    pub killed: usize,
    pub survived: usize,
    pub timeout: usize,
    pub unviable: usize,
    pub duration_ms: u64,
    pub survived_mutants: Vec<SurvivedMutant>,
}

/// The text of one decimal digit.
pub open spec fn digit_text(d: nat) -> Seq<char> {
    if d == 0 {
        "0"@
    } else if d == 1 {
        "1"@
    } else if d == 2 {
        "2"@
    } else if d == 3 {
        "3"@
    } else if d == 4 {
        "4"@
    } else if d == 5 {
        "5"@
    } else if d == 6 {
        "6"@
    } else if d == 7 {
        "7"@
    } else if d == 8 {
        "8"@
    } else {
        "9"@
    }
}

/// The decimal text of a number.
pub open spec fn decimal(n: nat) -> Seq<char>
    decreases n,
{
    if n < 10 {
        digit_text(n)
    } else {
        decimal(n / 10) + digit_text(n % 10)
    }
}

fn digit_str(d: usize) -> (r: &'static str)
    requires
        d < 10,
    ensures
        r@ == digit_text(d as nat),
{
    if d == 0 {
        "0"
    } else if d == 1 {
        "1"
    } else if d == 2 {
        "2"
    } else if d == 3 {
        "3"
    } else if d == 4 {
        "4"
    } else if d == 5 {
        "5"
    } else if d == 6 {
        "6"
    } else if d == 7 {
        "7"
    } else if d == 8 {
        "8"
    } else {
        "9"
    }
}

/// The decimal text of a number.
pub fn decimal_text(n: usize) -> (r: String)
    ensures
        r@ == decimal(n as nat),
    decreases n,
{
    if n < 10 {
        digit_str(n).to_owned()
    } else {
        let mut text = decimal_text(n / 10);
        text.append(digit_str(n % 10));
        text
    }
}

/// The number of results with the given status.
pub open spec fn count_status(results: Seq<MutantResultView>, status: MutantStatus) -> nat
    decreases results.len(),
{
    if results.len() == 0 {
        0
    } else {
        count_status(results.drop_last(), status) + if results.last().status == status {
            1nat
        } else {
            0nat
        }
    }
}

/// The time of all test runs together.
pub open spec fn total_duration(results: Seq<MutantResultView>) -> int
    decreases results.len(),
{
    if results.len() == 0 {
        0
    } else {
        total_duration(results.drop_last()) + results.last().duration_ms
    }
}

/// The report of the surviving mutant `result` under the number `number`.
pub open spec fn survivor(result: MutantResultView, number: nat, file: Seq<char>)
    -> SurvivedMutantView {
    SurvivedMutantView {
        ref_id: "m"@ + decimal(number),
        file,
        line: result.mutation.line,
        column: result.mutation.column,
        operator: result.mutation.operator,
        original: result.mutation.original,
        replacement: result.mutation.replacement,
        diff: result.diff,
        context_before: result.mutation.context_before,
        context_after: result.mutation.context_after,
    }
}

/// The mutants that survived, in the order of the results, numbered from 1.
pub open spec fn survivors(results: Seq<MutantResultView>, file: Seq<char>) -> Seq<
    SurvivedMutantView,
>
    decreases results.len(),
{
    if results.len() == 0 {
        seq![]
    } else {
        let rest = survivors(results.drop_last(), file);
        if results.last().status == MutantStatus::Survived {
            rest.push(survivor(results.last(), rest.len() + 1, file))
        } else {
            rest
        }
    }
}

/// The score of a run: the killed mutants among those that could be tested, and one
/// where none could be tested.
pub open spec fn spec_score(killed: int, total: int, unviable: int) -> (int, int) {
    if total > unviable {
        (killed, total - unviable)
    } else {
        (1, 1)
    }
}

/// A number of milliseconds, held at the largest value where it would go beyond it.
pub open spec fn clamped(ms: int) -> int {
    if ms > u64::MAX {
        u64::MAX as int
    } else {
        ms
    }
}

/// There are as many survivors as results with the status survived.
pub proof fn lemma_survivors_len(results: Seq<MutantResultView>, file: Seq<char>)
    ensures
        survivors(results, file).len() == count_status(results, MutantStatus::Survived),
    decreases results.len(),
{
    if results.len() > 0 {
        lemma_survivors_len(results.drop_last(), file);
    }
}

/// Every result has one of the four statuses: the four counts add up to the number of
/// results.
pub proof fn lemma_counts_add_up(results: Seq<MutantResultView>)
    ensures
        count_status(results, MutantStatus::Killed) + count_status(
            results,
            MutantStatus::Survived,
        ) + count_status(results, MutantStatus::Timeout) + count_status(
            results,
            MutantStatus::Unviable,
        ) == results.len(),
    decreases results.len(),
{
    if results.len() > 0 {
        lemma_counts_add_up(results.drop_last());
    }
}

/// No count is greater than the number of results.
pub proof fn lemma_count_bound(results: Seq<MutantResultView>, status: MutantStatus)
    ensures
        count_status(results, status) <= results.len(),
    decreases results.len(),
{
    if results.len() > 0 {
        lemma_count_bound(results.drop_last(), status);
    }
}

impl RunSummary {
    /// The summary is that of the given results, reported for the given file.
    pub open spec fn summarizes(&self, results: Seq<MutantResultView>, file: Seq<char>) -> bool {
        &&& self.total == results.len()
        &&& self.killed == count_status(results, MutantStatus::Killed)
        &&& self.survived == count_status(results, MutantStatus::Survived)
        &&& self.timeout == count_status(results, MutantStatus::Timeout)
        &&& self.unviable == count_status(results, MutantStatus::Unviable)
        &&& self.duration_ms == clamped(total_duration(results))
        &&& self.survived_mutants.deep_view() == survivors(results, file)
    }

    /// The summary of the results of a run, reported for `file`. The time is the sum of
    /// the test times, held at the largest value that fits.
    pub fn of_results(results: &Vec<MutantResult>, file: &str) -> (r: RunSummary)
        ensures
            r.summarizes(results.deep_view(), file@),
            r.killed + r.survived + r.timeout + r.unviable == r.total,
    {
        let ghost all = results.deep_view();
        let mut summary = RunSummary {
            total: 0,
            killed: 0,
            survived: 0,
            timeout: 0,
            unviable: 0,
            duration_ms: 0,
            survived_mutants: Vec::new(),
        };
        let mut k: usize = 0;
        proof {
            assert(all.take(0) =~= Seq::<MutantResultView>::empty());
            assert(summary.survived_mutants.deep_view() =~= Seq::<SurvivedMutantView>::empty());
        }
        while k < results.len()
            invariant
                0 <= k <= results.len(),
                all == results.deep_view(),
                summary.total == k,
                summary.summarizes(all.take(k as int), file@),
            decreases results.len() - k,
        {
            let result = &results[k];
            let ghost before = all.take(k as int);
            let ghost listed = summary.survived_mutants.deep_view();
            proof {
                assert(all.take(k + 1).drop_last() =~= before);
                assert(all.take(k + 1).last() == result@);
                lemma_count_bound(before, MutantStatus::Killed);
                lemma_count_bound(before, MutantStatus::Survived);
                lemma_count_bound(before, MutantStatus::Timeout);
                lemma_count_bound(before, MutantStatus::Unviable);
                lemma_survivors_len(before, file@);
            }
            match result.status {
                MutantStatus::Killed => {
                    summary.killed = summary.killed + 1;
                },
                MutantStatus::Survived => {
                    let mut ref_id = "m".to_owned();
                    ref_id.append(decimal_text(summary.survived + 1).as_str());
                    let mutant = SurvivedMutant {
                        ref_id,
                        file: file.to_owned(),
                        line: result.mutation.line,
                        column: result.mutation.column,
                        operator: result.mutation.operator.clone(),
                        original: result.mutation.original.clone(),
                        replacement: result.mutation.replacement.clone(),
                        diff: result.diff.clone(),
                        context_before: copy_lines(&result.mutation.context_before),
                        context_after: copy_lines(&result.mutation.context_after),
                    };
                    summary.survived_mutants.push(mutant);
                    summary.survived = summary.survived + 1;
                    proof {
                        assert(summary.survived_mutants.deep_view() =~= listed.push(
                            survivor(result@, listed.len() + 1, file@),
                        ));
                    }
                },
                MutantStatus::Timeout => {
                    summary.timeout = summary.timeout + 1;
                },
                MutantStatus::Unviable => {
                    summary.unviable = summary.unviable + 1;
                },
            }
            summary.duration_ms = if summary.duration_ms > u64::MAX - result.duration_ms {
                u64::MAX
            } else {
                summary.duration_ms + result.duration_ms
            };
            summary.total = summary.total + 1;
            proof {
                lemma_duration_not_negative(before);
            }
            k = k + 1;
        }
        proof {
            assert(all.take(k as int) =~= all);
            lemma_counts_add_up(all);
        }
        summary
    }

    /// The score: the share of the killed mutants among those that could be tested, as
    /// a fraction; one out of one where no mutant could be tested. A mutant that timed
    /// out counts as tested and not as killed.
    pub fn score(&self) -> (r: Score)
        requires
            self.unviable <= self.total,
        ensures
            (r.numerator as int, r.denominator as int) == spec_score(
                self.killed as int,
                self.total as int,
                self.unviable as int,
            ),
            r.denominator > 0,
    {
        if self.total > self.unviable {
            Score { numerator: self.killed, denominator: self.total - self.unviable }
        } else {
            Score { numerator: 1, denominator: 1 }
        }
    }
}

/// The time of test runs is never negative.
pub proof fn lemma_duration_not_negative(results: Seq<MutantResultView>)
    requires
        forall|k: int| 0 <= k < results.len() ==> (#[trigger] results[k]).duration_ms >= 0,
    ensures
        total_duration(results) >= 0,
    decreases results.len(),
{
    if results.len() > 0 {
        assert forall|k: int| 0 <= k < results.drop_last().len() implies (
        #[trigger] results.drop_last()[k]).duration_ms >= 0 by {
            assert(results.drop_last()[k] == results[k]);
        }
        lemma_duration_not_negative(results.drop_last());
    }
}

} // verus!
