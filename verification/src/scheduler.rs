//! Scheduling the units of work of a run, serially or on a bounded pool of
//! workers.
//!
//! The scheduler is a state machine. The caller owns the workers: it asks
//! what to do next, starts the unit it is told to start, and reports each
//! unit's outcome when it arrives. The scheduler keeps the range order,
//! bounds the number of units in flight, and in shared mode frames the whole
//! sequence between capturing the repository's HEAD and restoring it.

use vstd::prelude::*;

use crate::commit::CommitId;
use crate::outcome::{ExecutionOutcome, OutcomeView};
use crate::range::CommitSequence;
use crate::report::{AggregatorView, ResultAggregator, RunReport};
use crate::workspace::Mode;

verus! {

/// Why a configuration is refused.
#[derive(Clone, Copy, Debug, PartialEq, Eq, Structural)]
pub enum ConfigError {
    /// A run needs at least one worker.
    NoWorkers,
    /// Shared workspaces change the repository itself: they cannot be used
    /// by more than one worker.
    SharedNeedsSerial,
}

/// The mathematical value of a [`Dispatch`].
pub struct DispatchView {
    pub mode: Mode,
    pub workers: nat,
}

impl DispatchView {
    /// At least one worker, and exactly one where workspaces are shared.
    pub open spec fn valid(self) -> bool {
        &&& self.workers >= 1
        &&& self.mode == Mode::SharedInPlace ==> self.workers == 1
    }
}

/// The dispatch that `mode` and `concurrency` ask for, or why there is none.
pub open spec fn dispatch_for(mode: Mode, concurrency: nat) -> Result<DispatchView, ConfigError> {
    if concurrency == 0 {
        Err(ConfigError::NoWorkers)
    } else if mode == Mode::SharedInPlace && concurrency > 1 {
        Err(ConfigError::SharedNeedsSerial)
    } else {
        Ok(DispatchView { mode, workers: concurrency })
    }
}

/// The number of workers for a run: one where serial execution is asked
/// for or the host's parallelism is unknown (zero), else the host's
/// parallelism.
pub open spec fn concurrency_for(single: bool, host_parallelism: nat) -> nat {
    if single || host_parallelism == 0 {
        1
    } else {
        host_parallelism
    }
}

/// The provisioning mode of a run with `workers` workers: a serial run works
/// in the repository's own working directory, a concurrent one on isolated
/// copies.
pub open spec fn mode_for(workers: nat) -> Mode {
    if workers <= 1 {
        Mode::SharedInPlace
    } else {
        Mode::Isolated
    }
}

/// The number of workers for a run.
pub fn concurrency(single: bool, host_parallelism: usize) -> (workers: usize)
    ensures
        workers == concurrency_for(single, host_parallelism as nat),
{
    if single || host_parallelism == 0 {
        1
    } else {
        host_parallelism
    }
}

/// A validated choice of provisioning mode and number of workers.
#[derive(Clone, Copy, Debug)]
pub struct Dispatch {
    mode: Mode,
    workers: usize,
}

impl View for Dispatch {
    type V = DispatchView;

    closed spec fn view(&self) -> DispatchView {
        DispatchView { mode: self.mode, workers: self.workers as nat }
    }
}

impl Dispatch {
    #[verifier::type_invariant]
    spec fn valid(&self) -> bool {
        self@.valid()
    }

    /// Checks a configuration. Concurrent dispatch with shared workspaces is
    /// refused, not quietly made serial.
    pub fn configure(mode: Mode, concurrency: usize) -> (dispatch: Result<Dispatch, ConfigError>)
        ensures
            match dispatch_for(mode, concurrency as nat) {
                Ok(view) => dispatch is Ok && dispatch->Ok_0@ == view && view.valid(),
                Err(error) => dispatch == Err::<Dispatch, ConfigError>(error),
            },
    {
        if concurrency == 0 {
            Err(ConfigError::NoWorkers)
        } else if concurrency > 1 && mode == Mode::SharedInPlace {
            Err(ConfigError::SharedNeedsSerial)
        } else {
            Ok(Dispatch { mode, workers: concurrency })
        }
    }

    /// The dispatch of a run for which nothing but the number of workers was
    /// chosen: one worker where `single` asks for serial execution or the
    /// host's parallelism is unknown, else as many as the host runs in
    /// parallel; and the mode that goes with that number. It is always a
    /// valid configuration.
    pub fn for_run(single: bool, host_parallelism: usize) -> (dispatch: Dispatch)
        ensures
            dispatch@.workers == concurrency_for(single, host_parallelism as nat),
            dispatch@.mode == mode_for(dispatch@.workers),
            dispatch@.valid(),
            dispatch_for(dispatch@.mode, dispatch@.workers) == Ok::<DispatchView, ConfigError>(
                dispatch@,
            ),
    {
        let workers = concurrency(single, host_parallelism);
        let mode = if workers <= 1 {
            Mode::SharedInPlace
        } else {
            Mode::Isolated
        };
        Dispatch { mode, workers }
    }

    /// The provisioning mode.
    pub fn mode(&self) -> (mode: Mode)
        ensures
            mode == self@.mode,
            self@.valid(),
    {
        proof {
            use_type_invariant(self);
        }
        self.mode
    }

    /// The number of workers.
    pub fn workers(&self) -> (workers: usize)
        ensures
            workers == self@.workers,
            self@.valid(),
    {
        proof {
            use_type_invariant(self);
        }
        self.workers
    }
}

/// Where a run stands.
#[derive(Clone, Copy, Debug, PartialEq, Eq, Structural)]
pub enum RunPhase {
    /// Shared mode only: the repository's HEAD is yet to be captured.
    Capture,
    /// Shared mode only: the capture of HEAD is under way.
    Capturing,
    /// Units of work are started and their outcomes collected.
    Dispatching,
    /// Shared mode only: the restoring of HEAD is under way.
    Restoring,
    /// The run is over.
    Finished,
}

/// What a run has done with the repository's HEAD.
#[derive(Clone, Copy, Debug, PartialEq, Eq, Structural)]
pub enum HeadState {
    /// Not touched: the run is isolated, or has not begun.
    Untouched,
    /// Captured, and since then moved or about to be.
    Captured,
    /// It could not be captured. No commit was checked out.
    Unavailable,
    /// Put back where it was.
    Restored,
    /// It could not be put back.
    RestoreFailed,
}

/// What the caller reports to the scheduler.
#[derive(Debug)]
pub enum RunEvent {
    /// The capture of HEAD ended, well or not.
    HeadCaptured { ok: bool },
    /// The unit of work of the commit at `index` ended with `outcome`.
    UnitFinished { index: usize, outcome: ExecutionOutcome },
    /// The restoring of HEAD ended, well or not.
    HeadRestored { ok: bool },
    /// The run is to stop: no further unit is started.
    Interrupted,
}

/// The mathematical value of a [`RunEvent`].
pub enum RunEventView {
    HeadCaptured { ok: bool },
    UnitFinished { index: nat, outcome: OutcomeView },
    HeadRestored { ok: bool },
    Interrupted,
}

impl View for RunEvent {
    type V = RunEventView;

    open spec fn view(&self) -> RunEventView {
        match self {
            RunEvent::HeadCaptured { ok } => RunEventView::HeadCaptured { ok: *ok },
            RunEvent::UnitFinished { index, outcome } => RunEventView::UnitFinished {
                index: *index as nat,
                outcome: outcome@,
            },
            RunEvent::HeadRestored { ok } => RunEventView::HeadRestored { ok: *ok },
            RunEvent::Interrupted => RunEventView::Interrupted,
        }
    }
}

/// Why an event was not taken in.
#[derive(Clone, Copy, Debug, PartialEq, Eq, Structural)]
pub enum EventError {
    /// Nothing of that kind was under way.
    OutOfTurn,
    /// The range has no commit at that position.
    OutOfRange,
    /// The unit of that commit was never started.
    NotStarted,
    /// The outcome is that of another commit than the one at that position.
    WrongCommit,
    /// The outcome of that commit is already known.
    AlreadyRecorded,
}

/// What the scheduler asks of the caller.
#[derive(Debug, PartialEq, Eq)]
pub enum RunAction {
    /// Capture the repository's HEAD and report how that went.
    CaptureHead,
    /// Start the unit of work of the commit at `index` on a free worker.
    Start { index: usize, commit: CommitId },
    /// Wait for what is under way and report it.
    Wait,
    /// Restore the repository's HEAD and report how that went.
    RestoreHead,
    /// The run is over: take its end.
    Finish,
}

/// The mathematical value of a [`RunAction`].
pub enum RunActionView {
    CaptureHead,
    Start { index: nat, commit: Seq<u8> },
    Wait,
    RestoreHead,
    Finish,
}

impl View for RunAction {
    type V = RunActionView;

    open spec fn view(&self) -> RunActionView {
        match self {
            RunAction::CaptureHead => RunActionView::CaptureHead,
            RunAction::Start { index, commit } => RunActionView::Start {
                index: *index as nat,
                commit: commit@,
            },
            RunAction::Wait => RunActionView::Wait,
            RunAction::RestoreHead => RunActionView::RestoreHead,
            RunAction::Finish => RunActionView::Finish,
        }
    }
}

/// How many of the first `upto` positions hold no outcome.
pub open spec fn vacant(slots: Seq<Option<OutcomeView>>, upto: int) -> nat
    decreases upto,
{
    if upto <= 0 {
        0
    } else {
        vacant(slots, upto - 1) + if slots[upto - 1] is None {
            1nat
        } else {
            0nat
        }
    }
}

/// The mathematical value of a [`Scheduler`].
pub struct SchedulerView {
    /// The commits of the range, oldest first.
    pub commits: Seq<Seq<u8>>,
    /// The provisioning mode.
    pub mode: Mode,
    /// The number of workers.
    pub workers: nat,
    /// How many units have been started: those of the first `next` commits.
    pub next: nat,
    /// For each position, the outcome reported so far.
    pub slots: Seq<Option<OutcomeView>>,
    /// How many outcomes have been presented: those of the first `shown`
    /// commits.
    pub shown: nat,
    /// Where the run stands.
    pub phase: RunPhase,
    /// Whether the run was interrupted.
    pub stopping: bool,
    /// What has been done with the repository's HEAD.
    pub head: HeadState,
}

impl SchedulerView {
    /// The run over `commits` before anything was done.
    pub open spec fn fresh(commits: Seq<Seq<u8>>, dispatch: DispatchView) -> SchedulerView {
        SchedulerView {
            commits,
            mode: dispatch.mode,
            workers: dispatch.workers,
            next: 0,
            slots: Seq::new(commits.len(), |i: int| None::<OutcomeView>),
            shown: 0,
            phase: if dispatch.mode == Mode::SharedInPlace {
                RunPhase::Capture
            } else {
                RunPhase::Dispatching
            },
            stopping: false,
            head: HeadState::Untouched,
        }
    }

    /// The outcomes collected so far, by position.
    pub open spec fn aggregate(self) -> AggregatorView {
        AggregatorView { commits: self.commits, slots: self.slots }
    }

    /// The number of units that were started and have not reported yet.
    pub open spec fn in_flight(self) -> nat {
        vacant(self.slots, self.next as int)
    }

    /// Whether nothing is left to start: every commit's unit was started, or
    /// the run was interrupted.
    pub open spec fn drained(self) -> bool {
        self.next == self.commits.len() || self.stopping
    }

    /// What holds of a run at every moment.
    pub open spec fn wf(self) -> bool {
        &&& self.aggregate().aligned()
        &&& (DispatchView { mode: self.mode, workers: self.workers }).valid()
        &&& self.next <= self.commits.len()
        &&& forall|i: int| self.next <= i < self.slots.len() ==> (#[trigger] self.slots[i]) is None
        &&& forall|i: int| 0 <= i < self.shown ==> (#[trigger] self.slots[i]) is Some
        &&& self.shown <= self.next
        &&& self.in_flight() <= self.workers
        &&& match self.phase {
            RunPhase::Capture | RunPhase::Capturing => self.mode == Mode::SharedInPlace
                && self.next == 0 && self.head == HeadState::Untouched,
            RunPhase::Dispatching => self.head == if self.mode == Mode::SharedInPlace {
                HeadState::Captured
            } else {
                HeadState::Untouched
            },
            RunPhase::Restoring => self.mode == Mode::SharedInPlace && self.head
                == HeadState::Captured && self.in_flight() == 0 && self.drained(),
            RunPhase::Finished => self.in_flight() == 0 && match self.head {
                HeadState::Untouched => self.mode == Mode::Isolated && self.drained(),
                HeadState::Captured => false,
                HeadState::Unavailable => self.mode == Mode::SharedInPlace && self.next == 0,
                HeadState::Restored | HeadState::RestoreFailed => self.mode
                    == Mode::SharedInPlace && self.drained(),
            },
        }
    }

    /// The run with `phase` and `head` changed.
    pub open spec fn moved(self, phase: RunPhase, head: HeadState) -> SchedulerView {
        SchedulerView { phase, head, ..self }
    }

    /// What is to be done next, and the run once that was asked for.
    ///
    /// While dispatching, the unit of the next commit in range order is
    /// started as long as a worker is free and the run was not interrupted.
    /// When nothing is left to start and nothing is in flight, a shared run
    /// restores HEAD and an isolated one is over.
    pub open spec fn advance(self) -> (SchedulerView, RunActionView) {
        match self.phase {
            RunPhase::Capture => (
                self.moved(RunPhase::Capturing, self.head),
                RunActionView::CaptureHead,
            ),
            RunPhase::Capturing | RunPhase::Restoring => (self, RunActionView::Wait),
            RunPhase::Dispatching => if !self.drained() && self.in_flight() < self.workers {
                (
                    SchedulerView { next: self.next + 1, ..self },
                    RunActionView::Start { index: self.next, commit: self.commits[self.next as int] },
                )
            } else if self.in_flight() > 0 {
                (self, RunActionView::Wait)
            } else if self.mode == Mode::SharedInPlace {
                (self.moved(RunPhase::Restoring, self.head), RunActionView::RestoreHead)
            } else {
                (self.moved(RunPhase::Finished, self.head), RunActionView::Finish)
            },
            RunPhase::Finished => (self, RunActionView::Finish),
        }
    }

    /// Why the outcome of the commit at `index` cannot be taken in, if it
    /// cannot.
    pub open spec fn refusal(self, index: nat, outcome: OutcomeView) -> Option<EventError> {
        if index >= self.commits.len() {
            Some(EventError::OutOfRange)
        } else if index >= self.next {
            Some(EventError::NotStarted)
        } else if outcome.commit != self.commits[index as int] {
            Some(EventError::WrongCommit)
        } else if self.slots[index as int] is Some {
            Some(EventError::AlreadyRecorded)
        } else {
            None
        }
    }

    /// The run after `event`, and why the event was not taken in, if it was
    /// not. An event that is not taken in changes nothing.
    ///
    /// No outcome, whatever its status, changes what is started next: the
    /// run goes on to every commit of the range.
    pub open spec fn notify(self, event: RunEventView) -> (SchedulerView, Option<EventError>) {
        match event {
            RunEventView::HeadCaptured { ok } => if self.phase == RunPhase::Capturing {
                if ok {
                    (self.moved(RunPhase::Dispatching, HeadState::Captured), None)
                } else {
                    (self.moved(RunPhase::Finished, HeadState::Unavailable), None)
                }
            } else {
                (self, Some(EventError::OutOfTurn))
            },
            RunEventView::UnitFinished { index, outcome } => match self.refusal(index, outcome) {
                Some(error) => (self, Some(error)),
                None => (
                    SchedulerView { slots: self.slots.update(index as int, Some(outcome)), ..self },
                    None,
                ),
            },
            RunEventView::HeadRestored { ok } => if self.phase == RunPhase::Restoring {
                (
                    self.moved(
                        RunPhase::Finished,
                        if ok {
                            HeadState::Restored
                        } else {
                            HeadState::RestoreFailed
                        },
                    ),
                    None,
                )
            } else {
                (self, Some(EventError::OutOfTurn))
            },
            RunEventView::Interrupted => (SchedulerView { stopping: true, ..self }, None),
        }
    }

    /// The outcome that is to be presented next, if it is in: that of the
    /// first commit whose outcome was not presented yet. Outcomes are
    /// presented in range order, so one that arrived early waits for those
    /// before it.
    pub open spec fn ready(self) -> Option<OutcomeView> {
        if self.shown < self.slots.len() {
            self.slots[self.shown as int]
        } else {
            None
        }
    }

    /// The run after the outcome that was ready has been presented. Where
    /// none was ready nothing changes.
    pub open spec fn presented(self) -> SchedulerView {
        if self.ready() is Some {
            SchedulerView { shown: self.shown + 1, ..self }
        } else {
            self
        }
    }

    /// What went wrong with the run as a whole, if anything did.
    pub open spec fn fault(self) -> Option<RunFault> {
        if self.phase != RunPhase::Finished {
            Some(RunFault::Unfinished)
        } else if self.head == HeadState::Unavailable {
            Some(RunFault::HeadUnavailable)
        } else if self.head == HeadState::RestoreFailed {
            Some(RunFault::RestoreFailed)
        } else if !self.aggregate().complete() {
            Some(RunFault::Interrupted)
        } else {
            None
        }
    }

    /// The report of the run, where there is one: the run is over and every
    /// commit has its outcome.
    pub open spec fn report(self) -> Option<Seq<OutcomeView>> {
        if self.phase == RunPhase::Finished && self.aggregate().complete() {
            Some(self.aggregate().report())
        } else {
            None
        }
    }
}

/// What went wrong with a run as a whole.
#[derive(Clone, Copy, Debug, PartialEq, Eq, Structural)]
pub enum RunFault {
    /// The run was asked for its end before it was over.
    Unfinished,
    /// The repository's HEAD could not be captured: nothing was run.
    HeadUnavailable,
    /// The repository's HEAD could not be restored: the repository may not
    /// be as it was found.
    RestoreFailed,
    /// The run was interrupted before every commit had its outcome.
    Interrupted,
}

/// No more positions are vacant than there are positions.
pub proof fn lemma_vacant_bound(slots: Seq<Option<OutcomeView>>, upto: int)
    ensures
        vacant(slots, upto) <= if upto > 0 {
            upto
        } else {
            0
        },
    decreases upto,
{
    if upto > 0 {
        lemma_vacant_bound(slots, upto - 1);
    }
}

/// None of the first `upto` positions is vacant exactly when each holds an
/// outcome.
pub proof fn lemma_vacant_zero(slots: Seq<Option<OutcomeView>>, upto: int)
    ensures
        vacant(slots, upto) == 0 <==> forall|i: int| 0 <= i < upto ==> (#[trigger] slots[i]) is Some,
    decreases upto,
{
    if upto > 0 {
        lemma_vacant_zero(slots, upto - 1);
    }
}

/// An outcome that arrives for a vacant position among the first `upto`
/// leaves one vacant position less there; one that arrives elsewhere
/// changes nothing there.
pub proof fn lemma_vacant_update(
    slots: Seq<Option<OutcomeView>>,
    upto: int,
    index: int,
    outcome: OutcomeView,
)
    requires
        0 <= index < slots.len(),
        0 <= upto <= slots.len(),
    ensures
        vacant(slots.update(index, Some(outcome)), upto) == vacant(slots, upto) - if index < upto
            && slots[index] is None {
            1int
        } else {
            0int
        },
    decreases upto,
{
    if upto > 0 {
        lemma_vacant_update(slots, upto - 1, index, outcome);
        lemma_vacant_bound(slots, upto - 1);
    }
}

/// A run that has not begun is well formed.
pub proof fn lemma_fresh_wf(commits: Seq<Seq<u8>>, dispatch: DispatchView)
    requires
        dispatch.valid(),
    ensures
        SchedulerView::fresh(commits, dispatch).wf(),
        SchedulerView::fresh(commits, dispatch).in_flight() == 0,
{
}

/// Asking what is next keeps a run well formed.
pub proof fn lemma_advance_keeps_wf(run: SchedulerView)
    requires
        run.wf(),
    ensures
        run.advance().0.wf(),
        run.advance().0.commits == run.commits,
        run.advance().0.slots == run.slots,
        run.advance().0.shown == run.shown,
{
    let (after, action) = run.advance();
}

/// Taking an event in keeps a run well formed.
pub proof fn lemma_notify_keeps_wf(run: SchedulerView, event: RunEventView)
    requires
        run.wf(),
    ensures
        run.notify(event).0.wf(),
        run.notify(event).0.commits == run.commits,
        run.notify(event).0.shown == run.shown,
        run.notify(event).1 is Some ==> run.notify(event).0 == run,
        forall|i: int|
            0 <= i < run.slots.len() && (#[trigger] run.slots[i]) is Some ==> run.notify(
                event,
            ).0.slots[i] == run.slots[i],
{
    match event {
        RunEventView::UnitFinished { index, outcome } => {
            if run.notify(event).1 is None {
                lemma_vacant_update(run.slots, run.next as int, index as int, outcome);
                lemma_vacant_zero(run.slots, run.next as int);
            }
        },
        _ => {},
    }
}

/// Presenting an outcome keeps a run well formed and changes nothing but
/// the count of what was presented.
pub proof fn lemma_presented_keeps_wf(run: SchedulerView)
    requires
        run.wf(),
    ensures
        run.presented().wf(),
        run.presented().commits == run.commits,
        run.presented().slots == run.slots,
        run.presented().next == run.next,
        run.presented().advance().1 == run.advance().1,
{
}

/// The pool is bounded: never more units in flight than there are workers,
/// and in shared mode never more than one workspace checked out.
pub proof fn lemma_in_flight_is_bounded(run: SchedulerView)
    requires
        run.wf(),
    ensures
        run.in_flight() <= run.workers,
        run.mode == Mode::SharedInPlace ==> run.in_flight() <= 1,
        run.advance().1 is Start ==> run.in_flight() < run.workers,
{
}

/// The range order is the dispatch order: the unit that is started is that
/// of the first commit not started yet, and no commit is skipped.
pub proof fn lemma_starts_in_range_order(run: SchedulerView)
    requires
        run.wf(),
    ensures
        run.advance().1 matches RunActionView::Start { index, commit } ==> index == run.next
            && index < run.commits.len() && commit == run.commits[index as int]
            && run.advance().0.next == run.next + 1,
        !(run.advance().1 is Start) ==> run.advance().0.next == run.next,
{
}

/// The caller is never told to wait for nothing: when the answer is to
/// wait, a unit is in flight or HEAD is being captured or restored.
pub proof fn lemma_wait_has_a_cause(run: SchedulerView)
    requires
        run.wf(),
        run.advance().1 is Wait,
    ensures
        run.in_flight() > 0 || run.phase == RunPhase::Capturing || run.phase
            == RunPhase::Restoring,
{
}

/// No outcome aborts the run: whatever a unit's outcome is, the run goes on
/// to the same next action.
pub proof fn lemma_outcomes_do_not_steer(
    run: SchedulerView,
    index: nat,
    one: OutcomeView,
    other: OutcomeView,
)
    requires
        run.wf(),
        one.commit == other.commit,
    ensures
        ({
            let with_one = run.notify(RunEventView::UnitFinished { index, outcome: one });
            let with_other = run.notify(RunEventView::UnitFinished { index, outcome: other });
            &&& with_one.1 == with_other.1
            &&& with_one.0.next == with_other.0.next
            &&& with_one.0.phase == with_other.0.phase
            &&& with_one.0.stopping == with_other.0.stopping
            &&& with_one.0.advance().1 == with_other.0.advance().1
        }),
{
    if run.refusal(index, one) is None {
        lemma_vacant_update(run.slots, run.next as int, index as int, one);
        lemma_vacant_update(run.slots, run.next as int, index as int, other);
    }
}

/// Outcomes may arrive in any order: two that arrive for different
/// positions leave the same run behind, whichever comes first.
pub proof fn lemma_arrival_order_is_immaterial(
    run: SchedulerView,
    i: nat,
    first: OutcomeView,
    j: nat,
    second: OutcomeView,
)
    requires
        run.wf(),
        i != j,
    ensures
        ({
            let one_way = run.notify(RunEventView::UnitFinished { index: i, outcome: first }).0.notify(
                RunEventView::UnitFinished { index: j, outcome: second },
            ).0;
            let other_way = run.notify(
                RunEventView::UnitFinished { index: j, outcome: second },
            ).0.notify(RunEventView::UnitFinished { index: i, outcome: first }).0;
            one_way == other_way
        }),
{
    let a = run.notify(RunEventView::UnitFinished { index: i, outcome: first }).0;
    let b = run.notify(RunEventView::UnitFinished { index: j, outcome: second }).0;
    let one_way = a.notify(RunEventView::UnitFinished { index: j, outcome: second }).0;
    let other_way = b.notify(RunEventView::UnitFinished { index: i, outcome: first }).0;
    assert(one_way.slots =~= other_way.slots);
}

/// A run that was not interrupted ends with an outcome for every commit:
/// the report is as long as the range and follows its order. Only an
/// interruption, or a HEAD that could not be captured, leaves commits
/// without one.
pub proof fn lemma_finished_run_is_complete(run: SchedulerView)
    requires
        run.wf(),
        run.phase == RunPhase::Finished,
    ensures
        !run.stopping && run.head != HeadState::Unavailable ==> run.report() is Some,
        run.report() matches Some(report) ==> report.len() == run.commits.len() && forall|i: int|
            0 <= i < report.len() ==> (#[trigger] report[i]).commit == run.commits[i],
        run.commits.len() == 0 ==> run.report() == Some(Seq::<OutcomeView>::empty()),
{
    lemma_vacant_zero(run.slots, run.next as int);
}

/// Once every commit has its outcome, presenting them one by one comes to
/// the end of the range: nothing is ready any more exactly when all were
/// presented.
pub proof fn lemma_everything_gets_presented(run: SchedulerView)
    requires
        run.wf(),
        run.aggregate().complete(),
    ensures
        run.ready() is None <==> run.shown == run.commits.len(),
{
}

/// In shared mode the whole sequence lies between the capture of HEAD and
/// its restoring: no unit is started before HEAD was captured, HEAD is
/// restored only when no workspace is checked out any more, and a run that
/// checked anything out is not over before the restoring was tried.
pub proof fn lemma_head_frames_the_sequence(run: SchedulerView)
    requires
        run.wf(),
        run.mode == Mode::SharedInPlace,
    ensures
        run.advance().1 is Start ==> run.head == HeadState::Captured,
        run.advance().1 is RestoreHead ==> run.in_flight() == 0 && run.drained(),
        run.phase == RunPhase::Finished ==> run.head == HeadState::Restored || run.head
            == HeadState::RestoreFailed || (run.head == HeadState::Unavailable && run.next == 0),
        run.advance().1 is Finish ==> run.phase == RunPhase::Finished,
{
}

/// Runs agree: two finished runs over the same range whose units ended
/// alike commit by commit report the same commit, status and exit code at
/// every position. It holds of a serial run and a concurrent one, with
/// whatever numbers of workers and whatever order of arrival, and of a run
/// and its repetition.
pub proof fn lemma_reports_agree(serial: SchedulerView, concurrent: SchedulerView)
    requires
        serial.wf(),
        concurrent.wf(),
        serial.commits == concurrent.commits,
        serial.report() is Some,
        concurrent.report() is Some,
        forall|i: int|
            0 <= i < serial.commits.len() ==> (#[trigger] serial.slots[i])->0.status
                == concurrent.slots[i]->0.status && serial.slots[i]->0.exit_code
                == concurrent.slots[i]->0.exit_code,
    ensures
        serial.report()->0.len() == concurrent.report()->0.len(),
        forall|i: int|
            0 <= i < serial.commits.len() ==> {
                let a = #[trigger] serial.report()->0[i];
                let b = concurrent.report()->0[i];
                a.commit == b.commit && a.status == b.status && a.exit_code == b.exit_code
            },
{
}

/// One exchange between the caller and the scheduler.
pub enum RunStep {
    /// The caller asks what is to be done next.
    Ask,
    /// The caller reports an event.
    Tell(RunEventView),
    /// The caller presents the outcome that is ready, if one is.
    Present,
}

/// What a run has handed out so far.
pub struct RunTrace {
    /// The positions of the units that were started, in the order in which
    /// they were.
    pub started: Seq<nat>,
    /// The outcomes that were presented, in the order in which they were.
    pub presented: Seq<OutcomeView>,
}

/// The run after a series of exchanges, with what it handed out on the way.
pub open spec fn run_after(run: SchedulerView, steps: Seq<RunStep>) -> (SchedulerView, RunTrace)
    decreases steps.len(),
{
    if steps.len() == 0 {
        (run, RunTrace { started: Seq::empty(), presented: Seq::empty() })
    } else {
        let (before, trace) = run_after(run, steps.drop_last());
        match steps.last() {
            RunStep::Ask => {
                let (after, action) = before.advance();
                (
                    after,
                    match action {
                        RunActionView::Start { index, commit } => RunTrace {
                            started: trace.started.push(index),
                            ..trace
                        },
                        _ => trace,
                    },
                )
            },
            RunStep::Tell(event) => (before.notify(event).0, trace),
            RunStep::Present => (
                before.presented(),
                match before.ready() {
                    Some(outcome) => RunTrace { presented: trace.presented.push(outcome), ..trace },
                    None => trace,
                },
            ),
        }
    }
}

/// Whatever the caller asks, reports and presents, and in whatever order:
/// the run stays well formed and its range stays as it was; the units it
/// starts are those of the first commits of the range, one after the other,
/// none twice and none skipped; and what is presented is the beginning of
/// the report, outcome by outcome in range order, each once and as it will
/// stand in the report.
pub proof fn lemma_every_run_follows_the_range(
    commits: Seq<Seq<u8>>,
    dispatch: DispatchView,
    steps: Seq<RunStep>,
)
    requires
        dispatch.valid(),
    ensures
        ({
            let (run, trace) = run_after(SchedulerView::fresh(commits, dispatch), steps);
            &&& run.wf()
            &&& run.commits == commits
            &&& run.mode == dispatch.mode
            &&& run.workers == dispatch.workers
            &&& trace.started == Seq::new(run.next, |i: int| i as nat)
            &&& trace.presented == Seq::new(run.shown, |i: int| run.slots[i]->0)
            &&& run.report() is Some ==> trace.presented == run.report()->0.take(run.shown as int)
        }),
    decreases steps.len(),
{
    let fresh = SchedulerView::fresh(commits, dispatch);
    let (run, trace) = run_after(fresh, steps);
    if steps.len() == 0 {
        lemma_fresh_wf(commits, dispatch);
    } else {
        lemma_every_run_follows_the_range(commits, dispatch, steps.drop_last());
        let (before, earlier) = run_after(fresh, steps.drop_last());
        match steps.last() {
            RunStep::Ask => {
                lemma_advance_keeps_wf(before);
            },
            RunStep::Tell(event) => {
                lemma_notify_keeps_wf(before, event);
            },
            RunStep::Present => {
                lemma_presented_keeps_wf(before);
            },
        }
    }
    if run.report() is Some {
        assert(trace.presented =~= run.report()->0.take(run.shown as int));
    }
}

/// How much is left to do in a run: the units not started yet count twice
/// (each is yet to be started and to report), those in flight once, and so
/// do every outcome that is yet to be presented and every phase that is yet
/// to be gone through.
pub open spec fn work_left(run: SchedulerView) -> nat {
    2 * (run.commits.len() - run.next) as nat + run.in_flight() + (run.commits.len()
        - run.shown) as nat + match run.phase {
        RunPhase::Capture => 4nat,
        RunPhase::Capturing => 3nat,
        RunPhase::Dispatching => 2nat,
        RunPhase::Restoring => 1nat,
        RunPhase::Finished => 0nat,
    }
}

/// A run comes to its end: every answer other than "wait" and "finish",
/// every event that is taken in other than an interruption, and every
/// outcome that is presented leaves less to do.
pub proof fn lemma_run_makes_progress(run: SchedulerView, event: RunEventView)
    requires
        run.wf(),
    ensures
        run.ready() is Some ==> work_left(run.presented()) < work_left(run),
        !(run.advance().1 is Wait) && !(run.advance().1 is Finish) ==> work_left(run.advance().0)
            < work_left(run),
        run.advance().1 is Wait || (run.advance().1 is Finish && run.phase == RunPhase::Finished)
            ==> run.advance().0 == run,
        run.notify(event).1 is None && !(event is Interrupted) ==> work_left(run.notify(event).0)
            < work_left(run),
{
    match event {
        RunEventView::UnitFinished { index, outcome } => {
            if run.notify(event).1 is None {
                lemma_vacant_update(run.slots, run.next as int, index as int, outcome);
            }
        },
        _ => {},
    }
}

/// How a run ended.
#[derive(Debug)]
pub struct RunEnd {
    /// The report, where every commit has its outcome. It is there even
    /// where HEAD could not be restored afterwards.
    pub report: Option<RunReport>,
    /// What went wrong with the run as a whole, if anything did.
    pub fault: Option<RunFault>,
}

/// The scheduler of one run.
#[derive(Debug)]
pub struct Scheduler {
    mode: Mode,
    workers: usize,
    aggregator: ResultAggregator,
    next: usize,
    active: usize,
    shown: usize,
    phase: RunPhase,
    stopping: bool,
    head: HeadState,
}

impl View for Scheduler {
    type V = SchedulerView;

    closed spec fn view(&self) -> SchedulerView {
        SchedulerView {
            commits: self.aggregator@.commits,
            mode: self.mode,
            workers: self.workers as nat,
            next: self.next as nat,
            slots: self.aggregator@.slots,
            shown: self.shown as nat,
            phase: self.phase,
            stopping: self.stopping,
            head: self.head,
        }
    }
}

impl Scheduler {
    /// Whether the scheduler is in order: its value is well formed and its
    /// count of units in flight is right. Every scheduler that `new` made is,
    /// and stays so.
    pub closed spec fn wf(&self) -> bool {
        &&& self@.wf()
        &&& self.active == self@.in_flight()
    }

    /// A well-formed scheduler has a well-formed value.
    pub proof fn lemma_wf(&self)
        requires
            self.wf(),
        ensures
            self@.wf(),
    {
    }

    /// The scheduler of a run over `sequence`.
    pub fn new(sequence: &CommitSequence, dispatch: Dispatch) -> (scheduler: Scheduler)
        ensures
            scheduler.wf(),
            scheduler@ == SchedulerView::fresh(sequence@, dispatch@),
    {
        let mode = dispatch.mode();
        let workers = dispatch.workers();
        let aggregator = ResultAggregator::new(sequence);
        let phase = match mode {
            Mode::SharedInPlace => RunPhase::Capture,
            Mode::Isolated => RunPhase::Dispatching,
        };
        let scheduler = Scheduler {
            mode,
            workers,
            aggregator,
            next: 0,
            active: 0,
            shown: 0,
            phase,
            stopping: false,
            head: HeadState::Untouched,
        };
        scheduler
    }

    /// Where the run stands.
    pub fn phase(&self) -> (phase: RunPhase)
        ensures
            phase == self@.phase,
    {
        self.phase
    }

    /// What has been done with the repository's HEAD.
    pub fn head(&self) -> (head: HeadState)
        ensures
            head == self@.head,
    {
        self.head
    }

    /// How many units have been started.
    pub fn started(&self) -> (n: usize)
        ensures
            n == self@.next,
    {
        self.next
    }

    /// How many units were started and have not reported yet.
    pub fn in_flight(&self) -> (n: usize)
        requires
            self.wf(),
        ensures
            n == self@.in_flight(),
            n <= self@.workers,
    {
        self.active
    }

    /// How many outcomes have been presented.
    pub fn shown(&self) -> (n: usize)
        ensures
            n == self@.shown,
    {
        self.shown
    }

    /// The outcome that is to be presented next, if it is in.
    pub fn ready(&self) -> (outcome: Option<&ExecutionOutcome>)
        requires
            self.wf(),
        ensures
            match self@.ready() {
                Some(ready) => outcome is Some && outcome->0@ == ready,
                None => outcome is None,
            },
    {
        self.aggregator.get(self.shown)
    }

    /// Notes that the outcome that was ready has been presented, so that the
    /// next one comes up. Where none was ready nothing changes.
    pub fn presented(&mut self)
        requires
            old(self).wf(),
        ensures
            final(self).wf(),
            final(self)@ == old(self)@.presented(),
    {
        if self.aggregator.is_recorded(self.shown) {
            self.shown = self.shown + 1;
        }
    }

    /// What is to be done next.
    pub fn next_action(&mut self) -> (action: RunAction)
        requires
            old(self).wf(),
        ensures
            final(self).wf(),
            (final(self)@, action@) == old(self)@.advance(),
    {
        match self.phase {
            RunPhase::Capture => {
                self.phase = RunPhase::Capturing;
                RunAction::CaptureHead
            },
            RunPhase::Capturing => RunAction::Wait,
            RunPhase::Restoring => RunAction::Wait,
            RunPhase::Finished => RunAction::Finish,
            RunPhase::Dispatching => {
                let total = self.aggregator.len();
                if !self.stopping && self.next < total && self.active < self.workers {
                    match self.aggregator.commit_at(self.next) {
                        Some(commit) => {
                            let index = self.next;
                            self.next = self.next + 1;
                            self.active = self.active + 1;
                            return RunAction::Start { index, commit };
                        },
                        None => {},
                    }
                }
                if self.active > 0 {
                    RunAction::Wait
                } else {
                    match self.mode {
                        Mode::SharedInPlace => {
                            self.phase = RunPhase::Restoring;
                            RunAction::RestoreHead
                        },
                        Mode::Isolated => {
                            self.phase = RunPhase::Finished;
                            RunAction::Finish
                        },
                    }
                }
            },
        }
    }

    /// Takes `event` in. An event that does not fit is refused and changes
    /// nothing.
    pub fn notify(&mut self, event: RunEvent) -> (taken: Result<(), EventError>)
        requires
            old(self).wf(),
        ensures
            final(self).wf(),
            final(self)@ == old(self)@.notify(event@).0,
            match old(self)@.notify(event@).1 {
                Some(error) => taken == Err::<(), EventError>(error),
                None => taken is Ok,
            },
    {
        match event {
            RunEvent::HeadCaptured { ok } => match self.phase {
                RunPhase::Capturing => {
                    if ok {
                        self.phase = RunPhase::Dispatching;
                        self.head = HeadState::Captured;
                    } else {
                        self.phase = RunPhase::Finished;
                        self.head = HeadState::Unavailable;
                    }
                    Ok(())
                },
                _ => Err(EventError::OutOfTurn),
            },
            RunEvent::HeadRestored { ok } => match self.phase {
                RunPhase::Restoring => {
                    self.phase = RunPhase::Finished;
                    self.head = if ok {
                        HeadState::Restored
                    } else {
                        HeadState::RestoreFailed
                    };
                    Ok(())
                },
                _ => Err(EventError::OutOfTurn),
            },
            RunEvent::Interrupted => {
                self.stopping = true;
                Ok(())
            },
            RunEvent::UnitFinished { index, outcome } => {
                if index >= self.aggregator.len() {
                    return Err(EventError::OutOfRange);
                }
                if index >= self.next {
                    return Err(EventError::NotStarted);
                }
                proof {
                    lemma_vacant_update(
                        self@.slots,
                        self.next as int,
                        index as int,
                        outcome@,
                    );
                    lemma_vacant_bound(self@.slots, self.next as int);
                }
                match self.aggregator.record(index, outcome) {
                    Ok(()) => {
                        self.active = self.active - 1;
                        Ok(())
                    },
                    Err(crate::report::RecordError::WrongCommit) => Err(EventError::WrongCommit),
                    Err(crate::report::RecordError::AlreadyRecorded) => Err(
                        EventError::AlreadyRecorded,
                    ),
                    Err(crate::report::RecordError::OutOfRange) => Err(EventError::OutOfRange),
                }
            },
        }
    }

    /// The end of the run: the report, where every commit has its outcome,
    /// and what went wrong with the run as a whole, if anything did.
    pub fn finish(self) -> (end: RunEnd)
        requires
            self.wf(),
        ensures
            end.fault == self@.fault(),
            match self@.report() {
                Some(report) => end.report is Some && end.report->0@ == report && report.len()
                    == self@.commits.len(),
                None => end.report is None,
            },
    {
        let phase = self.phase;
        let head = self.head;
        let report = match phase {
            RunPhase::Finished => self.aggregator.finalize(),
            _ => None,
        };
        let fault = match phase {
            RunPhase::Finished => match head {
                HeadState::Unavailable => Some(RunFault::HeadUnavailable),
                HeadState::RestoreFailed => Some(RunFault::RestoreFailed),
                _ => match report {
                    Some(_) => None,
                    None => Some(RunFault::Interrupted),
                },
            },
            _ => Some(RunFault::Unfinished),
        };
        RunEnd { report, fault }
    }
}

} // verus!
