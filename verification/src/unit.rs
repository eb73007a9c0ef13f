//! One commit's unit of work: provision, run, capture, release, emit.
//!
//! The unit is a state machine. The caller does the outside work (lays out
//! the workspace, spawns the command, removes the directory) and reports
//! what came of it as an event; the unit answers with what is to be done
//! next.

use vstd::prelude::*;
use vstd::string::*;

use crate::commit::CommitId;
use crate::outcome::{
    outcome_of_error,
    outcome_of_exit,
    ExecutionOutcome,
    OutcomeView,
    ProcessExit,
};
use crate::workspace::{
    plan_provision,
    provision_plan,
    release_plan,
    CleanupGuard,
    GuardState,
    GuardView,
    Mode,
    ProvisionPlan,
    ReleasePlan,
    Workspace,
    WorkspaceView,
};

verus! {

/// How the command text is run: it is handed to the shell `bash` as the
/// argument of `-c`, so that pipelines and redirections mean what the user
/// meant.
pub open spec fn shell_words(command: Seq<char>) -> Seq<Seq<char>> {
    seq!["bash"@, "-c"@, command]
}

/// The program to spawn for `command`, followed by its arguments.
pub fn shell_invocation(command: &str) -> (words: Vec<String>)
    ensures
        words@.map_values(|word: String| word@) == shell_words(command@),
{
    let mut words: Vec<String> = Vec::new();
    words.push(String::from_str("bash"));
    words.push(String::from_str("-c"));
    words.push(String::from_str(command));
    words
}

/// Where a unit of work stands.
#[derive(Clone, Copy, Debug, PartialEq, Eq, Structural)]
pub enum UnitPhase {
    /// The workspace is being laid out.
    Provisioning,
    /// The command is running in the workspace.
    Running,
    /// The outcome is known and the workspace is being given up.
    Releasing,
    /// The outcome has been handed out.
    Finished,
}

/// What the caller reports to a unit of work.
#[derive(Debug)]
pub enum UnitEvent {
    /// The workspace lies ready at `path`.
    Provisioned { path: String },
    /// The workspace could not be laid out.
    ProvisionFailed { diagnostics: Vec<u8> },
    /// The command could not be spawned.
    SpawnFailed { diagnostics: Vec<u8> },
    /// The command ended.
    Exited { exit: ProcessExit, stdout: Vec<u8>, stderr: Vec<u8> },
    /// The release plan was carried out; `clean` says whether all of it
    /// went well.
    Released { clean: bool },
    /// The whole run is being interrupted.
    Interrupted,
}

/// The mathematical value of a [`UnitEvent`].
pub enum UnitEventView {
    Provisioned { path: Seq<char> },
    ProvisionFailed { diagnostics: Seq<u8> },
    SpawnFailed { diagnostics: Seq<u8> },
    Exited { exit: ProcessExit, stdout: Seq<u8>, stderr: Seq<u8> },
    Released { clean: bool },
    Interrupted,
}

impl View for UnitEvent {
    type V = UnitEventView;

    open spec fn view(&self) -> UnitEventView {
        match self {
            UnitEvent::Provisioned { path } => UnitEventView::Provisioned { path: path@ },
            UnitEvent::ProvisionFailed { diagnostics } => UnitEventView::ProvisionFailed {
                diagnostics: diagnostics@,
            },
            UnitEvent::SpawnFailed { diagnostics } => UnitEventView::SpawnFailed {
                diagnostics: diagnostics@,
            },
            UnitEvent::Exited { exit, stdout, stderr } => UnitEventView::Exited {
                exit: *exit,
                stdout: stdout@,
                stderr: stderr@,
            },
            UnitEvent::Released { clean } => UnitEventView::Released { clean: *clean },
            UnitEvent::Interrupted => UnitEventView::Interrupted,
        }
    }
}

/// What a unit of work asks of the caller.
#[derive(Debug)]
pub enum UnitAction {
    /// Spawn the command with this workspace as its working directory, wait
    /// for it, and report how it ended.
    Run(Workspace),
    /// End the running command and all its descendants, then report how it
    /// ended.
    Terminate,
    /// Give the workspace up as the plan says, and report that it was done.
    Release(ReleasePlan),
    /// The unit is over: this is its outcome.
    Emit(ExecutionOutcome),
    /// Nothing new: go on with what is under way.
    Wait,
}

/// The mathematical value of a [`UnitAction`].
pub enum UnitActionView {
    Run(WorkspaceView),
    Terminate,
    Release(ReleasePlan),
    Emit(OutcomeView),
    Wait,
}

impl View for UnitAction {
    type V = UnitActionView;

    open spec fn view(&self) -> UnitActionView {
        match self {
            UnitAction::Run(workspace) => UnitActionView::Run(workspace@),
            UnitAction::Terminate => UnitActionView::Terminate,
            UnitAction::Release(plan) => UnitActionView::Release(*plan),
            UnitAction::Emit(outcome) => UnitActionView::Emit(outcome@),
            UnitAction::Wait => UnitActionView::Wait,
        }
    }
}

/// The mathematical value of a [`Unit`].
pub struct UnitView {
    pub commit: Seq<u8>,
    pub guard: GuardView,
    pub phase: UnitPhase,
    pub cancelled: bool,
    pub pending: Option<OutcomeView>,
}

impl UnitView {
    /// A unit of work for `commit` that has just asked for its workspace.
    pub open spec fn fresh(commit: Seq<u8>, mode: Mode) -> UnitView {
        UnitView {
            commit,
            guard: GuardView { mode, state: GuardState::Provisioned },
            phase: UnitPhase::Provisioning,
            cancelled: false,
            pending: None,
        }
    }

    /// The guard follows the phase, and an outcome waits exactly while the
    /// workspace is being given up.
    pub open spec fn wf(self) -> bool {
        match self.phase {
            UnitPhase::Provisioning => self.guard.state == GuardState::Provisioned
                && self.pending is None,
            UnitPhase::Running => self.guard.state == GuardState::InUse && self.pending is None,
            UnitPhase::Releasing => self.guard.state == GuardState::Released
                && self.pending is Some && self.pending->0.commit == self.commit,
            UnitPhase::Finished => self.guard.state == GuardState::Released
                && self.pending is None,
        }
    }

    /// The unit once `outcome` is known: the workspace is given up, and the
    /// outcome waits for that to be done.
    pub open spec fn conclude(self, outcome: OutcomeView) -> (UnitView, UnitActionView) {
        (
            UnitView {
                guard: self.guard.release().0,
                phase: UnitPhase::Releasing,
                pending: Some(outcome),
                ..self
            },
            UnitActionView::Release(release_plan(self.guard.mode)),
        )
    }

    /// The unit with the interruption noted.
    pub open spec fn cancel(self) -> UnitView {
        UnitView { cancelled: true, ..self }
    }

    /// The unit given up, from whatever phase: its workspace is released
    /// now if it was not before, and the unit is over without an outcome of
    /// its own. The plan is handed out only where the workspace had not
    /// been released.
    pub open spec fn abort(self) -> (UnitView, Option<ReleasePlan>) {
        (
            UnitView {
                guard: self.guard.release().0,
                phase: UnitPhase::Finished,
                pending: None,
                ..self
            },
            self.guard.release().1,
        )
    }

    /// The unit after `event`, and what it asks for next.
    ///
    /// While the workspace is laid out: once it lies ready the command runs
    /// in it, unless the run was interrupted meanwhile; a failure to lay it
    /// out is the unit's outcome. While the command runs: its end, or the
    /// failure to spawn it, is the outcome; an interruption has the command
    /// terminated first. Every outcome has the workspace released before it
    /// is handed out, and whether the release went well changes nothing in
    /// it. An event that does not fit the phase is passed over.
    pub open spec fn step(self, event: UnitEventView) -> (UnitView, UnitActionView) {
        match self.phase {
            UnitPhase::Provisioning => match event {
                UnitEventView::Provisioned { path } => if self.cancelled {
                    self.conclude(outcome_of_error(self.commit, Seq::empty()))
                } else {
                    (
                        UnitView {
                            guard: self.guard.enter().0,
                            phase: UnitPhase::Running,
                            ..self
                        },
                        UnitActionView::Run(
                            WorkspaceView { path, commit: self.commit, mode: self.guard.mode },
                        ),
                    )
                },
                UnitEventView::ProvisionFailed { diagnostics } => self.conclude(
                    outcome_of_error(self.commit, diagnostics),
                ),
                UnitEventView::Interrupted => (self.cancel(), UnitActionView::Wait),
                _ => (self, UnitActionView::Wait),
            },
            UnitPhase::Running => match event {
                UnitEventView::Exited { exit, stdout, stderr } => self.conclude(
                    outcome_of_exit(self.commit, exit, stdout, stderr),
                ),
                UnitEventView::SpawnFailed { diagnostics } => self.conclude(
                    outcome_of_error(self.commit, diagnostics),
                ),
                UnitEventView::Interrupted => (self.cancel(), UnitActionView::Terminate),
                _ => (self, UnitActionView::Wait),
            },
            UnitPhase::Releasing => match event {
                UnitEventView::Released { clean } => (
                    UnitView { phase: UnitPhase::Finished, pending: None, ..self },
                    UnitActionView::Emit(self.pending->0),
                ),
                UnitEventView::Interrupted => (self.cancel(), UnitActionView::Wait),
                _ => (self, UnitActionView::Wait),
            },
            UnitPhase::Finished => (self, UnitActionView::Wait),
        }
    }
}

/// What can happen to a unit of work: an event reaches it, or it is given
/// up.
pub enum UnitMove {
    Event(UnitEventView),
    Abort,
}

/// The unit after a series of moves, with the number of release plans and
/// the number of outcomes it handed out on the way.
pub open spec fn unit_after(unit: UnitView, moves: Seq<UnitMove>) -> (UnitView, nat, nat)
    decreases moves.len(),
{
    if moves.len() == 0 {
        (unit, 0, 0)
    } else {
        let (before, releases, outcomes) = unit_after(unit, moves.drop_last());
        match moves.last() {
            UnitMove::Event(event) => {
                let (after, action) = before.step(event);
                (
                    after,
                    releases + if action is Release {
                        1nat
                    } else {
                        0nat
                    },
                    outcomes + if action is Emit {
                        1nat
                    } else {
                        0nat
                    },
                )
            },
            UnitMove::Abort => {
                let (after, plan) = before.abort();
                (
                    after,
                    releases + if plan is Some {
                        1nat
                    } else {
                        0nat
                    },
                    outcomes,
                )
            },
        }
    }
}

/// Every step keeps a unit well formed, and what it hands out is the
/// outcome of its own commit.
pub proof fn lemma_step_keeps_wf(unit: UnitView, event: UnitEventView)
    requires
        unit.wf(),
    ensures
        unit.step(event).0.wf(),
        unit.step(event).0.commit == unit.commit,
        unit.step(event).0.guard.mode == unit.guard.mode,
        unit.step(event).1 matches UnitActionView::Emit(outcome) ==> outcome.commit == unit.commit,
{
}

/// Whatever happens to a unit of work, and in whatever order: it asks for
/// its workspace to be released at most once and hands out at most one
/// outcome. The workspace has been released exactly when the guard says so,
/// which it does of every unit that is over; and no outcome is handed out
/// before the release.
pub proof fn lemma_unit_releases_once(commit: Seq<u8>, mode: Mode, moves: Seq<UnitMove>)
    ensures
        ({
            let (unit, releases, outcomes) = unit_after(UnitView::fresh(commit, mode), moves);
            &&& unit.wf()
            &&& unit.commit == commit
            &&& releases == if unit.guard.state == GuardState::Released {
                1nat
            } else {
                0nat
            }
            &&& unit.phase == UnitPhase::Finished ==> releases == 1
            &&& outcomes <= 1
            &&& outcomes == 1 ==> unit.phase == UnitPhase::Finished
            &&& outcomes <= releases
        }),
    decreases moves.len(),
{
    if moves.len() > 0 {
        lemma_unit_releases_once(commit, mode, moves.drop_last());
        let (before, releases, outcomes) = unit_after(
            UnitView::fresh(commit, mode),
            moves.drop_last(),
        );
        match moves.last() {
            UnitMove::Event(event) => {
                lemma_step_keeps_wf(before, event);
            },
            UnitMove::Abort => {},
        }
    }
}

/// An interruption never has a workspace released under a running command:
/// the command is terminated, and the release waits for its end.
pub proof fn lemma_interrupt_terminates_first(unit: UnitView)
    requires
        unit.wf(),
    ensures
        !(unit.step(UnitEventView::Interrupted).1 is Release),
        unit.phase == UnitPhase::Running ==> unit.step(UnitEventView::Interrupted).1 is Terminate
            && unit.step(UnitEventView::Interrupted).0.guard.state == GuardState::InUse,
{
}

/// A release that went badly changes neither the outcome nor what follows.
pub proof fn lemma_cleanup_failure_is_not_escalated(unit: UnitView)
    ensures
        unit.step(UnitEventView::Released { clean: false }) == unit.step(
            UnitEventView::Released { clean: true },
        ),
{
}

/// One commit's unit of work.
#[derive(Debug)]
pub struct Unit {
    commit: CommitId,
    guard: CleanupGuard,
    phase: UnitPhase,
    cancelled: bool,
    pending: Option<ExecutionOutcome>,
}

impl View for Unit {
    type V = UnitView;

    closed spec fn view(&self) -> UnitView {
        UnitView {
            commit: self.commit@,
            guard: self.guard@,
            phase: self.phase,
            cancelled: self.cancelled,
            pending: match self.pending {
                Some(outcome) => Some(outcome@),
                None => None,
            },
        }
    }
}

impl Unit {
    /// Begins the unit of work for `commit`: the guard is attached, and the
    /// plan says how the workspace is to be laid out. `nonce` is the random
    /// disambiguator of an isolated workspace's directory.
    pub fn start(commit: CommitId, mode: Mode, nonce: u64) -> (started: (Unit, ProvisionPlan))
        ensures
            started.0@ == UnitView::fresh(commit@, mode),
            started.0@.wf(),
            started.1@ == provision_plan(commit@, mode, nonce),
    {
        let plan = plan_provision(&commit, mode, nonce);
        let unit = Unit {
            commit,
            guard: CleanupGuard::new(mode),
            phase: UnitPhase::Provisioning,
            cancelled: false,
            pending: None,
        };
        (unit, plan)
    }

    /// Where the unit stands.
    pub fn phase(&self) -> (phase: UnitPhase)
        ensures
            phase == self@.phase,
    {
        self.phase
    }

    /// Where its workspace is in its life.
    pub fn guard_state(&self) -> (state: GuardState)
        ensures
            state == self@.guard.state,
    {
        self.guard.state()
    }

    fn conclude(&mut self, outcome: ExecutionOutcome) -> (action: UnitAction)
        requires
            old(self)@.guard.state != GuardState::Released,
        ensures
            (final(self)@, action@) == old(self)@.conclude(outcome@),
    {
        let released = self.guard.release();
        self.phase = UnitPhase::Releasing;
        self.pending = Some(outcome);
        match released {
            Some(plan) => UnitAction::Release(plan),
            None => UnitAction::Wait,
        }
    }

    /// Gives the unit up, from whatever phase. Where its workspace was not
    /// released yet it is now, and the plan for that is returned; the unit
    /// is over and hands out no outcome any more.
    pub fn abort(&mut self) -> (plan: Option<ReleasePlan>)
        requires
            old(self)@.wf(),
        ensures
            final(self)@.wf(),
            (final(self)@, plan) == old(self)@.abort(),
    {
        let plan = self.guard.release();
        self.phase = UnitPhase::Finished;
        self.pending = None;
        plan
    }

    /// Takes `event` in and returns what is to be done next.
    pub fn step(&mut self, event: UnitEvent) -> (action: UnitAction)
        requires
            old(self)@.wf(),
        ensures
            final(self)@.wf(),
            (final(self)@, action@) == old(self)@.step(event@),
    {
        match self.phase {
            UnitPhase::Provisioning => match event {
                UnitEvent::Provisioned { path } => {
                    if self.cancelled {
                        let outcome = ExecutionOutcome::errored(self.commit, Vec::new());
                        self.conclude(outcome)
                    } else {
                        let mode = self.guard.mode();
                        self.guard.enter();
                        self.phase = UnitPhase::Running;
                        UnitAction::Run(Workspace { path, commit: self.commit, mode })
                    }
                },
                UnitEvent::ProvisionFailed { diagnostics } => {
                    let outcome = ExecutionOutcome::errored(self.commit, diagnostics);
                    self.conclude(outcome)
                },
                UnitEvent::Interrupted => {
                    self.cancelled = true;
                    UnitAction::Wait
                },
                _ => UnitAction::Wait,
            },
            UnitPhase::Running => match event {
                UnitEvent::Exited { exit, stdout, stderr } => {
                    let outcome = ExecutionOutcome::from_exit(self.commit, exit, stdout, stderr);
                    self.conclude(outcome)
                },
                UnitEvent::SpawnFailed { diagnostics } => {
                    let outcome = ExecutionOutcome::errored(self.commit, diagnostics);
                    self.conclude(outcome)
                },
                UnitEvent::Interrupted => {
                    self.cancelled = true;
                    UnitAction::Terminate
                },
                _ => UnitAction::Wait,
            },
            UnitPhase::Releasing => match event {
                UnitEvent::Released { clean } => {
                    let pending = self.pending.take();
                    self.phase = UnitPhase::Finished;
                    match pending {
                        Some(outcome) => UnitAction::Emit(outcome),
                        None => UnitAction::Wait,
                    }
                },
                UnitEvent::Interrupted => {
                    self.cancelled = true;
                    UnitAction::Wait
                },
                _ => UnitAction::Wait,
            },
            UnitPhase::Finished => UnitAction::Wait,
        }
    }
}

} // verus!
