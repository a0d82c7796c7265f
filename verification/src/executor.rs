//! The run of the mutants as a state machine: each step takes what the outside world
//! reports and says what to do next. The machine makes every decision of a run; the
//! caller writes files, starts and watches the test process, and reports back.

use vstd::prelude::*;
use crate::mutants::{
    copy_mutation, MutantResult, MutantResultView, MutantStatus, Mutation, MutationView,
};
use crate::runner::{
    all_apply, apply_mutation, can_apply, can_splice, classify_exit, diff_text, generate_diff,
    spec_classify_exit, spliced,
};

verus! {

/// The pause between two looks at a running test process, in milliseconds.
pub const POLL_INTERVAL_MS: u64 = 10;

/// Where a run stands.
#[derive(Debug, Clone, Copy, PartialEq, Eq, Structural)]
pub enum Phase {
    /// Nothing was asked for yet.
    Ready,
    /// The mutant is being written to the source file.
    Writing,
    /// The test process is being started.
    Launching,
    /// The test process is being looked at.
    Polling,
    /// The run pauses before the next look.
    Sleeping,
    /// The test process is being terminated.
    Killing,
    /// The source file is being put back.
    Restoring,
    /// Every mutant has its result.
    Done,
}

/// What the outside world reports to the machine.
#[derive(Debug)]
pub enum Event {
    /// The run begins.
    Begin,
    /// The source file was written, or could not be.
    Wrote { ok: bool },
    /// The test process was started, or could not be.
    Launched { ok: bool, elapsed_ms: u64 },
    /// The test process has ended.
    Exited { success: bool, stderr: String, elapsed_ms: u64 },
    /// The test process is still running.
    Running { elapsed_ms: u64 },
    /// The test process could not be looked at.
    PollFailed { elapsed_ms: u64 },
    /// The pause is over.
    Slept,
    /// The test process was terminated.
    Killed { elapsed_ms: u64 },
    /// The source file was put back.
    Restored,
}

/// The mathematical value of an [`Event`].
pub enum EventView {
    Begin,
    Wrote { ok: bool },
    Launched { ok: bool, elapsed_ms: u64 },
    Exited { success: bool, stderr: Seq<char>, elapsed_ms: u64 },
    Running { elapsed_ms: u64 },
    PollFailed { elapsed_ms: u64 },
    Slept,
    Killed { elapsed_ms: u64 },
    Restored,
}

impl View for Event {
    type V = EventView;

    open spec fn view(&self) -> EventView {
        match self {
            Event::Begin => EventView::Begin,
            Event::Wrote { ok } => EventView::Wrote { ok: *ok },
            Event::Launched { ok, elapsed_ms } => EventView::Launched {
                ok: *ok,
                elapsed_ms: *elapsed_ms,
            },
            Event::Exited { success, stderr, elapsed_ms } => EventView::Exited {
                success: *success,
                stderr: stderr@,
                elapsed_ms: *elapsed_ms,
            },
            Event::Running { elapsed_ms } => EventView::Running { elapsed_ms: *elapsed_ms },
            Event::PollFailed { elapsed_ms } => EventView::PollFailed { elapsed_ms: *elapsed_ms },
            Event::Slept => EventView::Slept,
            Event::Killed { elapsed_ms } => EventView::Killed { elapsed_ms: *elapsed_ms },
            Event::Restored => EventView::Restored,
        }
    }
}

/// What the machine asks the outside world to do.
#[derive(Debug)]
pub enum Action {
    /// Write this text, a mutant, to the source file.
    Write(String),
    /// Drop the compiled-artifact cache of the source file and start the test process.
    Launch,
    /// Look whether the test process has ended.
    Poll,
    /// Pause for this many milliseconds.
    Sleep(u64),
    /// Terminate the test process.
    Kill,
    /// Write this text, the original source, to the source file and drop its
    /// compiled-artifact cache.
    Restore(String),
    /// Stop: the run is over.
    Finish,
}

/// The mathematical value of an [`Action`].
pub enum ActionView {
    Write(Seq<char>),
    Launch,
    Poll,
    Sleep(u64),
    Kill,
    Restore(Seq<char>),
    Finish,
}

impl View for Action {
    type V = ActionView;

    open spec fn view(&self) -> ActionView {
        match self {
            Action::Write(text) => ActionView::Write(text@),
            Action::Launch => ActionView::Launch,
            Action::Poll => ActionView::Poll,
            Action::Sleep(ms) => ActionView::Sleep(*ms),
            Action::Kill => ActionView::Kill,
            Action::Restore(text) => ActionView::Restore(text@),
            Action::Finish => ActionView::Finish,
        }
    }
}

/// What the machine makes of a report while a mutant is under test.
#[derive(Debug, Clone, Copy, PartialEq, Eq, Structural)]
pub enum Decision {
    /// Start the test process.
    Launch,
    /// Look at the test process.
    Poll,
    /// Pause, then look again.
    Sleep,
    /// Terminate the test process: its time is up.
    Kill,
    /// The mutant has its status, after a test run of the given time.
    Settle(MutantStatus, u64),
}

/// What the machine makes of the report `event` in the phase `phase`, with the given
/// time budget for a test run. A report that does not answer what the phase asked for
/// settles the mutant as unviable.
pub open spec fn spec_decide(phase: Phase, event: EventView, timeout_ms: u64) -> Decision {
    match (phase, event) {
        (Phase::Writing, EventView::Wrote { ok: true }) => Decision::Launch,
        (Phase::Launching, EventView::Launched { ok: true, elapsed_ms }) => Decision::Poll,
        (Phase::Launching, EventView::Launched { ok: false, elapsed_ms }) => Decision::Settle(
            MutantStatus::Unviable,
            elapsed_ms,
        ),
        (Phase::Polling, EventView::Exited { success, stderr, elapsed_ms }) => Decision::Settle(
            spec_classify_exit(success, stderr),
            elapsed_ms,
        ),
        (Phase::Polling, EventView::Running { elapsed_ms }) => if elapsed_ms > timeout_ms {
            Decision::Kill
        } else {
            Decision::Sleep
        },
        (Phase::Polling, EventView::PollFailed { elapsed_ms }) => Decision::Settle(
            MutantStatus::Unviable,
            elapsed_ms,
        ),
        (Phase::Sleeping, EventView::Slept) => Decision::Poll,
        (Phase::Killing, EventView::Killed { elapsed_ms }) => Decision::Settle(
            MutantStatus::Timeout,
            elapsed_ms,
        ),
        _ => Decision::Settle(MutantStatus::Unviable, 0),
    }
}

/// What the machine makes of a report while a mutant is under test.
pub fn decide(phase: Phase, event: &Event, timeout_ms: u64) -> (r: Decision)
    ensures
        r == spec_decide(phase, event@, timeout_ms),
{
    match (phase, event) {
        (Phase::Writing, Event::Wrote { ok: true }) => Decision::Launch,
        (Phase::Launching, Event::Launched { ok: true, elapsed_ms }) => Decision::Poll,
        (Phase::Launching, Event::Launched { ok: false, elapsed_ms }) => Decision::Settle(
            MutantStatus::Unviable,
            *elapsed_ms,
        ),
        (Phase::Polling, Event::Exited { success, stderr, elapsed_ms }) => Decision::Settle(
            classify_exit(*success, stderr.as_str()),
            *elapsed_ms,
        ),
        (Phase::Polling, Event::Running { elapsed_ms }) => {
            if *elapsed_ms > timeout_ms {
                Decision::Kill
            } else {
                Decision::Sleep
            }
        },
        (Phase::Polling, Event::PollFailed { elapsed_ms }) => Decision::Settle(
            MutantStatus::Unviable,
            *elapsed_ms,
        ),
        (Phase::Sleeping, Event::Slept) => Decision::Poll,
        (Phase::Killing, Event::Killed { elapsed_ms }) => Decision::Settle(
            MutantStatus::Timeout,
            *elapsed_ms,
        ),
        _ => Decision::Settle(MutantStatus::Unviable, 0),
    }
}

/// The mathematical value of an [`Executor`].
pub struct ExecutorView {
    /// The unchanged source.
    pub original: Seq<char>,
    /// The mutations of the run, in their order.
    pub mutations: Seq<MutationView>,
    /// The time budget of one test run.
    pub timeout_ms: u64,
    /// Where the run stands.
    pub phase: Phase,
    /// The status and the test time of the mutant under test, once it is settled.
    pub settled: (MutantStatus, u64),
    /// The results so far: one for each mutant that is through.
    pub results: Seq<MutantResultView>,
}

impl ExecutorView {
    /// The index of the mutant that is under test, or comes next.
    pub open spec fn next(self) -> int {
        self.results.len() as int
    }

    /// The phase is one in which a mutant is under test.
    pub open spec fn testing(self) -> bool {
        self.phase != Phase::Ready && self.phase != Phase::Done
    }

    /// The result of mutant `k` with the given status and test time: it holds the
    /// mutation and the report of the comparison of the original and the mutant.
    pub open spec fn result_of(self, k: int, status: MutantStatus, duration_ms: u64)
        -> MutantResultView {
        MutantResultView {
            mutation: self.mutations[k],
            status,
            duration_ms: duration_ms as int,
            diff: diff_text(self.original, spliced(self.original, self.mutations[k])),
        }
    }

    /// Every mutation can be applied to the original, and there is one result for each
    /// mutant that is through, in the order of the mutations, each with its mutation
    /// and its report.
    pub open spec fn in_order(self) -> bool {
        &&& all_apply(self.mutations, self.original)
        &&& self.results.len() <= self.mutations.len()
        &&& forall|k: int|
            0 <= k < self.results.len() ==> (#[trigger] self.results[k]).mutation
                == self.mutations[k] && self.results[k].diff == diff_text(
                self.original,
                spliced(self.original, self.mutations[k]),
            )
    }

    /// The machine is consistent: its results are in order, a mutant is under test only
    /// while one is left, and the run is over only when none is left.
    pub open spec fn consistent(self) -> bool {
        &&& self.in_order()
        &&& self.testing() ==> self.results.len() < self.mutations.len()
        &&& self.phase == Phase::Done ==> self.results.len() == self.mutations.len()
    }

    /// The machine with the phase `phase`.
    pub open spec fn at(self, phase: Phase) -> ExecutorView {
        ExecutorView { phase, ..self }
    }

    /// The start of the next mutant, or the end of the run where none is left.
    pub open spec fn begin_next(self) -> (ExecutorView, ActionView) {
        if self.next() < self.mutations.len() {
            (
                self.at(Phase::Writing),
                ActionView::Write(spliced(self.original, self.mutations[self.next()])),
            )
        } else {
            (self.at(Phase::Done), ActionView::Finish)
        }
    }

    /// The machine after the report `event`, and what it asks for next.
    pub open spec fn step(self, event: EventView) -> (ExecutorView, ActionView) {
        match self.phase {
            Phase::Ready => self.begin_next(),
            Phase::Done => (self, ActionView::Finish),
            Phase::Restoring => (ExecutorView {
                results: self.results.push(
                    self.result_of(self.next(), self.settled.0, self.settled.1),
                ),
                ..self
            }).begin_next(),
            _ => match spec_decide(self.phase, event, self.timeout_ms) {
                Decision::Launch => (self.at(Phase::Launching), ActionView::Launch),
                Decision::Poll => (self.at(Phase::Polling), ActionView::Poll),
                Decision::Sleep => (self.at(Phase::Sleeping), ActionView::Sleep(POLL_INTERVAL_MS)),
                Decision::Kill => (self.at(Phase::Killing), ActionView::Kill),
                Decision::Settle(status, duration_ms) => (
                    ExecutorView { phase: Phase::Restoring, settled: (status, duration_ms), ..self },
                    ActionView::Restore(self.original),
                ),
            },
        }
    }
}

/// The state of a run of mutants.
#[derive(Debug)]
pub struct Executor {
    original: String,
    mutations: Vec<Mutation>,
    timeout_ms: u64,
    phase: Phase,
    settled: (MutantStatus, u64),
    diff: String,
    results: Vec<MutantResult>,
}

impl View for Executor {
    type V = ExecutorView;

    closed spec fn view(&self) -> ExecutorView {
        ExecutorView {
            original: self.original@,
            mutations: self.mutations.deep_view(),
            timeout_ms: self.timeout_ms,
            phase: self.phase,
            settled: self.settled,
            results: self.results.deep_view(),
        }
    }
}

impl Executor {
    /// The machine is consistent, and it holds the report of the mutant under test.
    pub closed spec fn wf(&self) -> bool {
        &&& self@.consistent()
        &&& self@.testing() ==> self.diff@ == diff_text(
            self.original@,
            spliced(self.original@, self.mutations.deep_view()[self@.next()]),
        )
    }

    /// A consistent machine has a consistent value.
    pub proof fn lemma_wf(&self)
        requires
            self.wf(),
        ensures
            self@.consistent(),
    {
    }

    /// A machine for a run of `mutations` on `original`, each test run with the time
    /// budget `timeout_ms`; `None` where one of the mutations cannot be applied to
    /// `original`.
    pub fn new(original: &str, mutations: Vec<Mutation>, timeout_ms: u64) -> (r: Option<Executor>)
        ensures
            r is Some <==> all_apply(mutations.deep_view(), original@),
            r matches Some(e) ==> e.wf() && e@ == (ExecutorView {
                original: original@,
                mutations: mutations.deep_view(),
                timeout_ms,
                phase: Phase::Ready,
                settled: (MutantStatus::Unviable, 0),
                results: Seq::<MutantResultView>::empty(),
            }),
    {
        let mut k: usize = 0;
        while k < mutations.len()
            invariant
                0 <= k <= mutations.len(),
                forall|j: int| 0 <= j < k ==> can_splice(original@, #[trigger] mutations[j]@),
            decreases mutations.len() - k,
        {
            if !can_apply(original, &mutations[k]) {
                assert(mutations.deep_view()[k as int] == mutations[k as int]@);
                return None;
            }
            k = k + 1;
        }
        assert forall|j: int| 0 <= j < mutations.deep_view().len() implies can_splice(
            original@,
            #[trigger] mutations.deep_view()[j],
        ) by {
            assert(mutations.deep_view()[j] == mutations[j]@);
        }
        let results: Vec<MutantResult> = Vec::new();
        let e = Executor {
            original: original.to_owned(),
            mutations,
            timeout_ms,
            phase: Phase::Ready,
            settled: (MutantStatus::Unviable, 0),
            diff: String::new(),
            results,
        };
        proof {
            assert(e.results.deep_view() =~= Seq::<MutantResultView>::empty());
            assert forall|j: int| 0 <= j < e@.mutations.len() implies can_splice(
                e@.original,
                #[trigger] e@.mutations[j],
            ) by {
                assert(e@.mutations[j] == e.mutations[j]@);
            }
        }
        Some(e)
    }

    /// Where the run stands.
    pub fn phase(&self) -> (r: Phase)
        ensures
            r == self@.phase,
    {
        self.phase
    }

    /// The results so far: one for each mutant that is through, in the order of the
    /// mutations.
    pub fn results(&self) -> (r: &Vec<MutantResult>)
        ensures
            r.deep_view() == self@.results,
    {
        &self.results
    }

    /// The results of the run, once it is over or given up.
    pub fn into_results(self) -> (r: Vec<MutantResult>)
        ensures
            r.deep_view() == self@.results,
    {
        self.results
    }

    fn begin_next(&mut self) -> (action: Action)
        requires
            old(self)@.in_order(),
        ensures
            final(self).wf(),
            (final(self)@, action@) == old(self)@.begin_next(),
    {
        let next = self.results.len();
        proof {
            assert(self.results.deep_view().len() == self.results.len());
            assert(self.mutations.deep_view().len() == self.mutations.len());
        }
        if next < self.mutations.len() {
            assert(self.mutations.deep_view()[next as int] == self.mutations[next as int]@);
            let mutated = apply_mutation(self.original.as_str(), &self.mutations[next]);
            self.diff = generate_diff(self.original.as_str(), mutated.as_str());
            self.phase = Phase::Writing;
            Action::Write(mutated)
        } else {
            self.phase = Phase::Done;
            Action::Finish
        }
    }

    /// Takes the report `event` and says what to do next.
    pub fn step(&mut self, event: &Event) -> (action: Action)
        requires
            old(self).wf(),
        ensures
            final(self).wf(),
            (final(self)@, action@) == old(self)@.step(event@),
    {
        match self.phase {
            Phase::Ready => self.begin_next(),
            Phase::Done => Action::Finish,
            Phase::Restoring => {
                let next = self.results.len();
                proof {
                    assert(self.results.deep_view().len() == self.results.len());
                    assert(self.mutations.deep_view().len() == self.mutations.len());
                    assert(self.mutations.deep_view()[next as int] == self.mutations[next as int]@);
                }
                let ghost before = self@;
                let mut diff = String::new();
                std::mem::swap(&mut diff, &mut self.diff);
                let result = MutantResult {
                    mutation: copy_mutation(&self.mutations[next]),
                    status: self.settled.0,
                    duration_ms: self.settled.1,
                    diff,
                };
                self.results.push(result);
                proof {
                    assert(self.results.deep_view() =~= before.results.push(
                        before.result_of(before.next(), before.settled.0, before.settled.1),
                    ));
                    assert(self@.mutations == before.mutations);
                    assert(self@.in_order());
                }
                self.begin_next()
            },
            _ => match decide(self.phase, event, self.timeout_ms) {
                Decision::Launch => {
                    self.phase = Phase::Launching;
                    Action::Launch
                },
                Decision::Poll => {
                    self.phase = Phase::Polling;
                    Action::Poll
                },
                Decision::Sleep => {
                    self.phase = Phase::Sleeping;
                    Action::Sleep(POLL_INTERVAL_MS)
                },
                Decision::Kill => {
                    self.phase = Phase::Killing;
                    Action::Kill
                },
                Decision::Settle(status, duration_ms) => {
                    self.settled = (status, duration_ms);
                    self.phase = Phase::Restoring;
                    Action::Restore(self.original.clone())
                },
            },
        }
    }
}

/// A step keeps a consistent machine consistent, and never touches the original or the
/// list of mutations.
pub proof fn lemma_step_consistent(s: ExecutorView, event: EventView)
    requires
        s.consistent(),
    ensures
        s.step(event).0.consistent(),
        s.step(event).0.original == s.original,
        s.step(event).0.mutations == s.mutations,
        s.step(event).0.timeout_ms == s.timeout_ms,
{
}

/// The source file is put back after every mutant: a step leaves the phases in which
/// a mutant is under test only from the phase in which the machine waits for the
/// source file to be put back, and it enters that phase only by asking to write the
/// original text. Whatever was reported while the mutant was under test, the machine
/// neither starts the next mutant nor ends the run before that.
pub proof fn lemma_restored_before_next(s: ExecutorView, event: EventView)
    requires
        s.consistent(),
    ensures
        s.testing() && s.phase != Phase::Restoring ==> s.step(event).0.testing() && !(s.step(
            event,
        ).1 is Write) && !(s.step(event).1 is Finish),
        s.step(event).0.phase == Phase::Restoring ==> s.step(event).1 == ActionView::Restore(
            s.original,
        ),
        s.step(event).1 is Restore ==> s.step(event).1 == ActionView::Restore(s.original),
{
}

/// The text that the source file holds after an action, where it held `file` before and
/// every write succeeds.
pub open spec fn file_after(file: Seq<char>, action: ActionView) -> Seq<char> {
    match action {
        ActionView::Write(text) => text,
        ActionView::Restore(text) => text,
        _ => file,
    }
}

/// The machine and the source file after a series of reports, each answered by the
/// action that the machine asks for.
pub open spec fn run(s: ExecutorView, file: Seq<char>, events: Seq<EventView>) -> (
    ExecutorView,
    Seq<char>,
)
    decreases events.len(),
{
    if events.len() == 0 {
        (s, file)
    } else {
        let before = run(s, file, events.drop_last());
        let step = before.0.step(events.last());
        (step.0, file_after(before.1, step.1))
    }
}

/// The source file holds its original text whenever no mutant is under test: a run that
/// starts on the original text has it back in the phase of putting back, from the
/// moment the machine asks for it, and at the end of the run, whatever was reported on
/// the way. Writes are taken to succeed; what an interruption from outside leaves
/// behind is not the machine's to say.
pub proof fn lemma_run_restores(s: ExecutorView, events: Seq<EventView>)
    requires
        s.consistent(),
        s.phase == Phase::Ready,
    ensures
        run(s, s.original, events).0.consistent(),
        run(s, s.original, events).0.original == s.original,
        !run(s, s.original, events).0.testing() || run(s, s.original, events).0.phase
            == Phase::Restoring ==> run(s, s.original, events).1 == s.original,
    decreases events.len(),
{
    if events.len() > 0 {
        lemma_run_restores(s, events.drop_last());
        let before = run(s, s.original, events.drop_last());
        lemma_step_consistent(before.0, events.last());
        lemma_restored_before_next(before.0, events.last());
    }
}

/// Each step through the phase of putting back adds the result of one mutant, and no
/// other step changes the results: the results come one per mutation, in the order of
/// the mutations.
pub proof fn lemma_results_in_order(s: ExecutorView, event: EventView)
    requires
        s.consistent(),
    ensures
        s.phase == Phase::Restoring ==> s.step(event).0.results == s.results.push(
            s.result_of(s.next(), s.settled.0, s.settled.1),
        ),
        s.phase != Phase::Restoring ==> s.step(event).0.results == s.results,
        s.step(event).0.phase == Phase::Done ==> s.step(event).0.results.len()
            == s.mutations.len(),
{
}

} // verus!
