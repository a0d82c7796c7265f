//! The parts of a test run: how a mutant is made and compared with the original, how
//! the test command is invoked, and how the end of a test run is classified.

use vstd::prelude::*;
use vstd::string::*;
use crate::mutants::{MutantStatus, Mutation, MutationView};
use crate::text::{
    bytes_of, contains, ends_with, has_part, has_suffix, is_valid_span, lemma_bytes_of_concat,
    span, span_text, valid_span,
};
use crate::Language;

verus! {

/// How the test run on the unchanged source ended.
#[derive(Debug)]
pub enum BaselineResult {
    /// The tests passed, in the given time.
    Passed { duration_ms: u64 },
    /// The tests failed, or could not be run; the text says how.
    Failed(String),
}

/// The outcome of a baseline run that came to an end: passed, with its time, where the
/// tests succeeded; failed, with what the tests printed, where they did not.
pub open spec fn baseline_outcome(
    success: bool,
    duration_ms: u64,
    stdout: Seq<char>,
    stderr: Seq<char>,
) -> BaselineView {
    if success {
        BaselineView::Passed { duration_ms }
    } else {
        BaselineView::Failed(stdout + "\n"@ + stderr)
    }
}

/// The mathematical value of a [`BaselineResult`].
pub enum BaselineView {
    Passed { duration_ms: u64 },
    Failed(Seq<char>),
}

impl View for BaselineResult {
    type V = BaselineView;

    open spec fn view(&self) -> BaselineView {
        match self {
            BaselineResult::Passed { duration_ms } => BaselineView::Passed {
                duration_ms: *duration_ms,
            },
            BaselineResult::Failed(text) => BaselineView::Failed(text@),
        }
    }
}

/// The outcome of a baseline run that came to an end.
pub fn baseline_result(success: bool, duration_ms: u64, stdout: &str, stderr: &str) -> (r:
    BaselineResult)
    ensures
        r@ == baseline_outcome(success, duration_ms, stdout@, stderr@),
{
    if success {
        BaselineResult::Passed { duration_ms }
    } else {
        let mut text = stdout.to_owned();
        text.append("\n");
        text.append(stderr);
        BaselineResult::Failed(text)
    }
}

/// The outcome of a baseline run whose test command could not be run: failed, with the
/// command and the error.
pub fn baseline_not_run(test_cmd: &str, error: &str) -> (r: BaselineResult)
    ensures
        r@ == BaselineView::Failed("Failed to run "@ + test_cmd@ + ": "@ + error@),
{
    let mut text = "Failed to run ".to_owned();
    text.append(test_cmd);
    text.append(": ");
    text.append(error);
    BaselineResult::Failed(text)
}

/// The time that every test run of a mutant gets on top of the scaled baseline time,
/// in milliseconds.
pub const FIXED_OVERHEAD_MS: u64 = 2000;

/// The time budget of the test run of a mutant: the baseline time, scaled by the
/// timeout multiplier, and the fixed overhead on top; held at the largest value that
/// fits where the sum would go beyond it.
pub fn timeout_budget(scaled_baseline_ms: u64) -> (r: u64)
    ensures
        r == if scaled_baseline_ms + FIXED_OVERHEAD_MS > u64::MAX {
            u64::MAX as int
        } else {
            scaled_baseline_ms + FIXED_OVERHEAD_MS
        },
{
    if scaled_baseline_ms > u64::MAX - FIXED_OVERHEAD_MS {
        u64::MAX
    } else {
        scaled_baseline_ms + FIXED_OVERHEAD_MS
    }
}

/// Both ends of the range of `m` lie in `source`, on character boundaries.
pub open spec fn can_splice(source: Seq<char>, m: MutationView) -> bool {
    &&& valid_span(bytes_of(source), 0, m.start_byte)
    &&& valid_span(bytes_of(source), m.end_byte, bytes_of(source).len() as int)
}

/// Every edit of `edits` can be applied to `source`: the ends of its range lie in
/// `source`, on character boundaries.
pub open spec fn all_apply(edits: Seq<MutationView>, source: Seq<char>) -> bool {
    forall|k: int| 0 <= k < edits.len() ==> can_splice(source, #[trigger] edits[k])
}

/// The mutant: `source` up to the start of the range of `m`, the replacement of `m`,
/// and `source` from the end of the range on.
pub open spec fn spliced(source: Seq<char>, m: MutationView) -> Seq<char> {
    span_text(source, 0, m.start_byte) + m.replacement + span_text(
        source,
        m.end_byte,
        bytes_of(source).len() as int,
    )
}

/// Whether `mutation` can be applied to `source`.
pub fn can_apply(source: &str, mutation: &Mutation) -> (r: bool)
    ensures
        r == can_splice(source@, mutation@),
{
    let total = source.as_bytes().len();
    is_valid_span(source, 0, mutation.start_byte) && is_valid_span(source, mutation.end_byte, total)
}

/// The source with the range of `mutation` replaced by its replacement.
pub fn apply_mutation(source: &str, mutation: &Mutation) -> (r: String)
    requires
        can_splice(source@, mutation@),
    ensures
        r@ == spliced(source@, mutation@),
        bytes_of(r@) == bytes_of(source@).subrange(0, mutation.start_byte as int) + bytes_of(
            mutation.replacement@,
        ) + bytes_of(source@).subrange(mutation.end_byte as int, bytes_of(source@).len() as int),
{
    let total = source.as_bytes().len();
    let head = span(source, 0, mutation.start_byte);
    let tail = span(source, mutation.end_byte, total);
    let mut result = head.to_owned();
    result.append(mutation.replacement.as_str());
    result.append(tail);
    proof {
        lemma_bytes_of_concat(head@, mutation.replacement@);
        lemma_bytes_of_concat(head@ + mutation.replacement@, tail@);
    }
    result
}

/// An edit that fits a source and puts the original text back in its place leaves the
/// source as it is.
pub proof fn lemma_splice_original(source: Seq<char>, m: MutationView)
    requires
        m.fits(source),
        can_splice(source, m),
        m.replacement == m.original,
    ensures
        spliced(source, m) == source,
{
    let bytes = bytes_of(source);
    let head = span_text(source, 0, m.start_byte);
    let tail = span_text(source, m.end_byte, bytes.len() as int);
    vstd::utf8::encode_utf8_valid_utf8(source);
    vstd::utf8::valid_utf8_split(bytes, m.start_byte);
    vstd::utf8::valid_utf8_split(bytes, m.end_byte);
    vstd::utf8::decode_utf8_encode_utf8(bytes.subrange(0, m.start_byte));
    vstd::utf8::decode_utf8_encode_utf8(bytes.subrange(m.end_byte, bytes.len() as int));
    lemma_bytes_of_concat(head, m.replacement);
    lemma_bytes_of_concat(head + m.replacement, tail);
    assert(bytes_of(spliced(source, m)) =~= bytes);
    crate::text::lemma_bytes_determine_text(spliced(source, m), source);
}

/// What a line of a comparison of two texts says of the line.
#[derive(Debug, Clone, Copy, PartialEq, Eq, Structural)]
pub enum ChangeKind {
    /// The line stands in both texts.
    Equal,
    /// The line stands in the first text only.
    Delete,
    /// The line stands in the second text only.
    Insert,
}

/// One line of a comparison of two texts.
#[derive(Debug)]
pub struct LineChange {
    pub kind: ChangeKind,
    /// The line, with its line ending where it has one.
    pub text: String,
}

/// The mathematical value of a [`LineChange`].
pub struct LineChangeView {
    pub kind: ChangeKind,
    pub text: Seq<char>,
}

impl View for LineChange {
    type V = LineChangeView;

    open spec fn view(&self) -> LineChangeView {
        LineChangeView { kind: self.kind, text: self.text@ }
    }
}

impl DeepView for LineChange {
    type V = LineChangeView;

    open spec fn deep_view(&self) -> LineChangeView {
        self@
    }
}

/// The lines of the comparison of `original` and `mutated`, as
/// `similar::TextDiff::from_lines` finds them.
pub uninterp spec fn line_changes(original: Seq<char>, mutated: Seq<char>) -> Seq<LineChangeView>;

/// `similar::TextDiff::from_lines` and `TextDiff::iter_all_changes`: the line-by-line
/// comparison of two texts, each line with its tag and its text. The comparison runs
/// without a deadline and depends on the two texts alone; the contract only names it.
#[verifier::external_body]
fn diff_lines(original: &str, mutated: &str) -> (r: Vec<LineChange>)
    ensures
        r.deep_view() == line_changes(original@, mutated@),
{
    let diff = similar::TextDiff::from_lines(original, mutated);
    let mut out = Vec::new();
    for change in diff.iter_all_changes() {
        let kind = match change.tag() {
            similar::ChangeTag::Equal => ChangeKind::Equal,
            similar::ChangeTag::Delete => ChangeKind::Delete,
            similar::ChangeTag::Insert => ChangeKind::Insert,
        };
        out.push(LineChange { kind, text: change.to_string_lossy().into_owned() });
    }
    out
}

/// A line with a line feed after it, unless it ends in a line feed or a carriage
/// return already.
pub open spec fn closed_line(text: Seq<char>) -> Seq<char> {
    if has_suffix(bytes_of(text), bytes_of("\n"@)) || has_suffix(bytes_of(text), bytes_of("\r"@)) {
        text
    } else {
        text + "\n"@
    }
}

/// What one line of a comparison adds to the report: a deleted line after `- `, an
/// inserted line after `+ `, an unchanged line nothing.
pub open spec fn rendered_change(change: LineChangeView) -> Seq<char> {
    match change.kind {
        ChangeKind::Equal => Seq::<char>::empty(),
        ChangeKind::Delete => "- "@ + closed_line(change.text),
        ChangeKind::Insert => "+ "@ + closed_line(change.text),
    }
}

/// The report of a comparison: what its lines add, in order.
pub open spec fn rendered(changes: Seq<LineChangeView>) -> Seq<char>
    decreases changes.len(),
{
    if changes.len() == 0 {
        Seq::<char>::empty()
    } else {
        rendered(changes.drop_last()) + rendered_change(changes.last())
    }
}

/// The report of the comparison of `original` and `mutated`.
pub open spec fn diff_text(original: Seq<char>, mutated: Seq<char>) -> Seq<char> {
    rendered(line_changes(original, mutated))
}

fn push_closed_line(out: &mut String, text: &str)
    ensures
        final(out)@ == old(out)@ + closed_line(text@),
{
    out.append(text);
    if !ends_with(text, "\n") && !ends_with(text, "\r") {
        out.append("\n");
    }
}

/// The report of a comparison: the deleted lines after `- `, the inserted lines after
/// `+ `, in the order of the comparison.
pub fn render_diff(changes: &Vec<LineChange>) -> (r: String)
    ensures
        r@ == rendered(changes.deep_view()),
{
    let ghost all = changes.deep_view();
    let mut out = String::new();
    let mut k: usize = 0;
    assert(all.take(0) =~= Seq::<LineChangeView>::empty());
    while k < changes.len()
        invariant
            0 <= k <= changes.len(),
            all == changes.deep_view(),
            out@ == rendered(all.take(k as int)),
        decreases changes.len() - k,
    {
        let change = &changes[k];
        proof {
            assert(all.take(k + 1).drop_last() =~= all.take(k as int));
            assert(all.take(k + 1).last() == change@);
        }
        match change.kind {
            ChangeKind::Equal => {
                assert(out@ + Seq::<char>::empty() =~= out@);
            },
            ChangeKind::Delete => {
                let ghost before = out@;
                out.append("- ");
                push_closed_line(&mut out, change.text.as_str());
                assert(out@ =~= before + ("- "@ + closed_line(change.text@)));
            },
            ChangeKind::Insert => {
                let ghost before = out@;
                out.append("+ ");
                push_closed_line(&mut out, change.text.as_str());
                assert(out@ =~= before + ("+ "@ + closed_line(change.text@)));
            },
        }
        k = k + 1;
    }
    assert(all.take(k as int) =~= all);
    out
}

/// The report of the line-by-line comparison of `original` and `mutated`: each line
/// that only `original` has after `- `, each line that only `mutated` has after `+ `.
pub fn generate_diff(original: &str, mutated: &str) -> (r: String)
    ensures
        r@ == diff_text(original@, mutated@),
{
    let changes = diff_lines(original, mutated);
    render_diff(&changes)
}

/// The words of `text`, as `str::split_whitespace` gives them.
pub uninterp spec fn whitespace_words(text: Seq<char>) -> Seq<Seq<char>>;

/// `str::split_whitespace` of std: the parts of `text` between runs of white space
/// (Unicode `White_Space`), none of them empty. The contract only names the result.
#[verifier::external_body]
fn split_words(text: &str) -> (r: Vec<String>)
    ensures
        r.deep_view() == whitespace_words(text@),
{
    text.split_whitespace().map(String::from).collect()
}

/// The program and the arguments of a command line with the given words: the first
/// word and the other words, or, where there are not two words, the whole line and no
/// arguments.
pub open spec fn command_of(cmd: Seq<char>, words: Seq<Seq<char>>) -> (Seq<char>, Seq<Seq<char>>) {
    if words.len() > 1 {
        (words[0], words.skip(1))
    } else {
        (cmd, Seq::<Seq<char>>::empty())
    }
}

/// The program and the arguments of the command line `cmd`, whose words are `words`.
pub fn command_from_words(cmd: &str, words: &Vec<String>) -> (r: (String, Vec<String>))
    ensures
        (r.0@, r.1.deep_view()) == command_of(cmd@, words.deep_view()),
{
    if words.len() > 1 {
        let args = crate::text::copy_range(words, 1, words.len());
        assert(words.deep_view().subrange(1, words.len() as int) =~= words.deep_view().skip(1));
        (words[0].clone(), args)
    } else {
        let args: Vec<String> = Vec::new();
        assert(args.deep_view() =~= Seq::<Seq<char>>::empty());
        (cmd.to_owned(), args)
    }
}

/// The program and the arguments of a test command: the command is split at white
/// space; a command of a single word is taken as it stands.
pub fn parse_test_cmd(cmd: &str) -> (r: (String, Vec<String>))
    ensures
        (r.0@, r.1.deep_view()) == command_of(cmd@, whitespace_words(cmd@)),
{
    let words = split_words(cmd);
    command_from_words(cmd, &words)
}

/// Whether the test file is handed to the test command: it is, unless the command
/// names `cargo`.
pub fn passes_test_file(test_cmd: &str) -> (r: bool)
    ensures
        r == !has_part(bytes_of(test_cmd@), bytes_of("cargo"@)),
{
    !contains(test_cmd, "cargo")
}

/// The arguments that the test command of a language gets on the baseline run.
pub open spec fn spec_baseline_arguments(language: Language) -> Seq<Seq<char>> {
    match language {
        Language::Python => seq!["-x"@, "-q"@, "--tb=short"@, "--no-header"@],
        Language::Rust => seq!["--"@, "--test-threads=1"@],
        _ => seq!["--bail"@],
    }
}

/// The arguments that the test command of a language gets on the run of a mutant.
pub open spec fn spec_mutation_arguments(language: Language) -> Seq<Seq<char>> {
    match language {
        Language::Python => seq![
            "-x"@,
            "-q"@,
            "--tb=no"@,
            "--no-header"@,
            "-p"@,
            "no:cacheprovider"@,
        ],
        Language::Rust => seq!["--"@, "--test-threads=1"@],
        _ => seq!["--bail"@],
    }
}

/// The arguments that the test command of a language gets on the baseline run.
pub fn baseline_arguments(language: Language) -> (r: Vec<&'static str>)
    ensures
        r.deep_view() == spec_baseline_arguments(language),
{
    let r = match language {
        Language::Python => vec!["-x", "-q", "--tb=short", "--no-header"],
        Language::Rust => vec!["--", "--test-threads=1"],
        _ => vec!["--bail"],
    };
    assert(r.deep_view() =~= spec_baseline_arguments(language));
    r
}

/// The arguments that the test command of a language gets on the run of a mutant.
pub fn mutation_arguments(language: Language) -> (r: Vec<&'static str>)
    ensures
        r.deep_view() == spec_mutation_arguments(language),
{
    let r = match language {
        Language::Python => vec!["-x", "-q", "--tb=no", "--no-header", "-p", "no:cacheprovider"],
        Language::Rust => vec!["--", "--test-threads=1"],
        _ => vec!["--bail"],
    };
    assert(r.deep_view() =~= spec_mutation_arguments(language));
    r
}

/// The error output of a run that failed for a reason other than a failing test: the
/// mutant could not be parsed or imported.
pub open spec fn tells_broken_mutant(stderr: Seq<char>) -> bool {
    let bytes = bytes_of(stderr);
    ||| has_part(bytes, bytes_of("SyntaxError"@))
    ||| has_part(bytes, bytes_of("IndentationError"@))
    ||| has_part(bytes, bytes_of("ImportError"@))
    ||| has_part(bytes, bytes_of("ModuleNotFoundError"@))
}

/// The status of a mutant whose test run came to an end by itself.
pub open spec fn spec_classify_exit(success: bool, stderr: Seq<char>) -> MutantStatus {
    if success {
        MutantStatus::Survived
    } else if tells_broken_mutant(stderr) {
        MutantStatus::Unviable
    } else {
        MutantStatus::Killed
    }
}

/// The status of a mutant whose test run came to an end by itself: survived where the
/// run succeeded, unviable where its error output tells of a mutant that could not be
/// parsed or imported, killed otherwise.
pub fn classify_exit(success: bool, stderr: &str) -> (r: MutantStatus)
    ensures
        r == spec_classify_exit(success, stderr@),
{
    if success {
        MutantStatus::Survived
    } else if contains(stderr, "SyntaxError") || contains(stderr, "IndentationError") || contains(
        stderr,
        "ImportError",
    ) || contains(stderr, "ModuleNotFoundError") {
        MutantStatus::Unviable
    } else {
        MutantStatus::Killed
    }
}

/// Whether an entry of a bytecode cache belongs to the source file with the given
/// stem: its name begins with the stem and ends in `.pyc`.
pub fn is_cache_entry_of(name: &str, stem: &str) -> (r: bool)
    ensures
        r == (crate::text::has_prefix(bytes_of(name@), bytes_of(stem@)) && has_suffix(
            bytes_of(name@),
            bytes_of(".pyc"@),
        )),
{
    crate::text::starts_with(name, stem) && ends_with(name, ".pyc")
}

/// Whether a command has to be looked up on disk: it does where it holds a `/`.
pub fn names_a_path(cmd: &str) -> (r: bool)
    ensures
        r == has_part(bytes_of(cmd@), bytes_of("/"@)),
{
    contains(cmd, "/")
}

/// The command to run for `cmd`: `cmd` itself where it is absolute or names no path;
/// else the place where it was found from the original working directory; else the
/// place where it was found from the root of the copy; else `cmd` itself.
pub open spec fn resolved_command(
    cmd: Seq<char>,
    absolute: bool,
    from_cwd: Option<Seq<char>>,
    from_root: Option<Seq<char>>,
) -> Seq<char> {
    if absolute || !has_part(bytes_of(cmd), bytes_of("/"@)) {
        cmd
    } else if from_cwd is Some {
        from_cwd->0
    } else if from_root is Some {
        from_root->0
    } else {
        cmd
    }
}

/// The command to run for the test command `cmd`. `absolute` says whether `cmd` is an
/// absolute path; `from_cwd` and `from_root` hold the path of `cmd` under the original
/// working directory and under the root of the copy, each where something exists
/// there.
pub fn resolve_cmd(cmd: &str, absolute: bool, from_cwd: Option<String>, from_root: Option<String>)
    -> (r: String)
    ensures
        r@ == resolved_command(
            cmd@,
            absolute,
            match from_cwd {
                Some(p) => Some(p@),
                None => None,
            },
            match from_root {
                Some(p) => Some(p@),
                None => None,
            },
        ),
{
    if absolute || !names_a_path(cmd) {
        cmd.to_owned()
    } else {
        match from_cwd {
            Some(p) => p,
            None => match from_root {
                Some(p) => p,
                None => cmd.to_owned(),
            },
        }
    }
}

} // verus!
