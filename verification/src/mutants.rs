//! The records that discovery produces and that the executor consumes.

use vstd::prelude::*;
use crate::text::bytes_of;

verus! {

/// One proposed edit of a source text.
#[derive(Debug, Clone)]
pub struct Mutation {
    /// Line of the edit, counted from 1.
    pub line: usize,
    /// Column of the edit, counted from 1.
    pub column: usize,
    /// First byte of the replaced range.
    pub start_byte: usize,
    /// First byte after the replaced range.
    pub end_byte: usize,
    /// Symbolic name of the kind of edit.
    pub operator: String,
    /// The text that the range holds in the source.
    pub original: String,
    /// The text that takes its place.
    pub replacement: String,
    /// Up to two lines above the edited line.
    pub context_before: Vec<String>,
    /// Up to two lines below the edited line.
    pub context_after: Vec<String>,
}

/// The mathematical value of a [`Mutation`].
pub struct MutationView {
    pub line: int,
    pub column: int,
    pub start_byte: int,
    pub end_byte: int,
    pub operator: Seq<char>,
    pub original: Seq<char>,
    pub replacement: Seq<char>,
    pub context_before: Seq<Seq<char>>,
    pub context_after: Seq<Seq<char>>,
}

impl View for Mutation {
    type V = MutationView;

    open spec fn view(&self) -> MutationView {
        MutationView {
            line: self.line as int,
            column: self.column as int,
            start_byte: self.start_byte as int,
            end_byte: self.end_byte as int,
            operator: self.operator@,
            original: self.original@,
            replacement: self.replacement@,
            context_before: self.context_before.deep_view(),
            context_after: self.context_after.deep_view(),
        }
    }
}

impl DeepView for Mutation {
    type V = MutationView;

    open spec fn deep_view(&self) -> MutationView {
        self@
    }
}

impl MutationView {
    /// The edit names a range of `source` that holds its `original` text.
    pub open spec fn fits(self, source: Seq<char>) -> bool {
        &&& 0 <= self.start_byte <= self.end_byte <= bytes_of(source).len()
        &&& bytes_of(source).subrange(self.start_byte, self.end_byte) == bytes_of(self.original)
    }
}

/// How the test run of one mutant ended.
#[derive(Debug, Clone, Copy, PartialEq, Eq, Structural)]
pub enum MutantStatus {
    /// The tests failed: the edit was detected.
    Killed,
    /// The tests passed in spite of the edit.
    Survived,
    /// The test run exceeded its time budget and was terminated.
    Timeout,
    /// The mutant could not be tested at all.
    Unviable,
}

/// The outcome of one mutant.
#[derive(Debug, Clone)]
pub struct MutantResult {
    pub mutation: Mutation,
    pub status: MutantStatus,
    pub duration_ms: u64,
    pub diff: String,
}

/// The mathematical value of a [`MutantResult`].
pub struct MutantResultView {
    pub mutation: MutationView,
    pub status: MutantStatus,
    pub duration_ms: int,
    pub diff: Seq<char>,
}

impl View for MutantResult {
    type V = MutantResultView;

    open spec fn view(&self) -> MutantResultView {
        MutantResultView {
            mutation: self.mutation@,
            status: self.status,
            duration_ms: self.duration_ms as int,
            diff: self.diff@,
        }
    }
}

impl DeepView for MutantResult {
    type V = MutantResultView;

    open spec fn deep_view(&self) -> MutantResultView {
        self@
    }
}

/// A copy of a list of lines.
pub fn copy_lines(lines: &Vec<String>) -> (r: Vec<String>)
    ensures
        r.deep_view() == lines.deep_view(),
{
    let mut out: Vec<String> = Vec::new();
    let mut i: usize = 0;
    while i < lines.len()
        invariant
            0 <= i <= lines.len(),
            out.len() == i,
            forall|k: int| 0 <= k < i ==> out[k]@ == lines[k]@,
        decreases lines.len() - i,
    {
        out.push(lines[i].clone());
        i = i + 1;
    }
    assert(out.deep_view() =~= lines.deep_view());
    out
}

/// A copy of a mutation.
pub fn copy_mutation(m: &Mutation) -> (r: Mutation)
    ensures
        r@ == m@,
{
    Mutation {
        line: m.line,
        column: m.column,
        start_byte: m.start_byte,
        end_byte: m.end_byte,
        operator: m.operator.clone(),
        original: m.original.clone(),
        replacement: m.replacement.clone(),
        context_before: copy_lines(&m.context_before),
        context_after: copy_lines(&m.context_after),
    }
}

} // verus!
