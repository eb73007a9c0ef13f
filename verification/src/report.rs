//! Collecting one outcome per commit, in range order.

use vstd::prelude::*;

use crate::commit::CommitId;
use crate::outcome::{ExecutionOutcome, OutcomeView, Status};
use crate::range::{ids_of, CommitSequence};

verus! {

/// The mathematical values of a list of outcomes.
pub open spec fn outcomes_of(outcomes: Seq<ExecutionOutcome>) -> Seq<OutcomeView> {
    outcomes.map_values(|o: ExecutionOutcome| o@)
}

/// How many of `outcomes` ended with `status`.
pub open spec fn count_status(outcomes: Seq<OutcomeView>, status: Status) -> nat
    decreases outcomes.len(),
{
    if outcomes.len() == 0 {
        0
    } else {
        count_status(outcomes.drop_last(), status) + if outcomes.last().status == status {
            1nat
        } else {
            0nat
        }
    }
}

/// Whether every one of `outcomes` is a success.
pub open spec fn all_succeeded(outcomes: Seq<OutcomeView>) -> bool {
    forall|i: int| 0 <= i < outcomes.len() ==> (#[trigger] outcomes[i]).status == Status::Success
}

/// Every outcome has exactly one of the three statuses.
pub proof fn lemma_counts_partition(outcomes: Seq<OutcomeView>)
    ensures
        count_status(outcomes, Status::Success) + count_status(outcomes, Status::Failure)
            + count_status(outcomes, Status::ProvisionError) == outcomes.len(),
    decreases outcomes.len(),
{
    if outcomes.len() > 0 {
        lemma_counts_partition(outcomes.drop_last());
    }
}

/// No count exceeds the number of outcomes, and the count of a status
/// reaches it exactly when every outcome has that status.
pub proof fn lemma_count_bounds(outcomes: Seq<OutcomeView>, status: Status)
    ensures
        count_status(outcomes, status) <= outcomes.len(),
        count_status(outcomes, status) == outcomes.len() <==> forall|i: int|
            0 <= i < outcomes.len() ==> (#[trigger] outcomes[i]).status == status,
    decreases outcomes.len(),
{
    if outcomes.len() > 0 {
        let init = outcomes.drop_last();
        lemma_count_bounds(init, status);
        if count_status(outcomes, status) == outcomes.len() {
            assert forall|i: int| 0 <= i < outcomes.len() implies (#[trigger] outcomes[i]).status
                == status by {
                if i < init.len() {
                    assert(init[i].status == status);
                }
            }
        }
    }
}

/// The outcomes of a run, one per commit of the range and in its order, with
/// the number of commits that ended in each status.
#[derive(Debug)]
pub struct RunReport {
    outcomes: Vec<ExecutionOutcome>,
    succeeded: usize,
    failed: usize,
    errored: usize,
}

impl View for RunReport {
    type V = Seq<OutcomeView>;

    closed spec fn view(&self) -> Seq<OutcomeView> {
        outcomes_of(self.outcomes@)
    }
}

impl RunReport {
    #[verifier::type_invariant]
    spec fn counted(&self) -> bool {
        &&& self.succeeded == count_status(outcomes_of(self.outcomes@), Status::Success)
        &&& self.failed == count_status(outcomes_of(self.outcomes@), Status::Failure)
        &&& self.errored == count_status(outcomes_of(self.outcomes@), Status::ProvisionError)
    }

    /// The report on `outcomes`, which are taken to be in range order.
    pub fn from_outcomes(outcomes: Vec<ExecutionOutcome>) -> (report: RunReport)
        ensures
            report@ == outcomes_of(outcomes@),
    {
        let ghost all = outcomes_of(outcomes@);
        let mut succeeded: usize = 0;
        let mut failed: usize = 0;
        let mut errored: usize = 0;
        let mut i: usize = 0;
        while i < outcomes.len()
            invariant
                i <= outcomes@.len(),
                all == outcomes_of(outcomes@),
                succeeded == count_status(all.take(i as int), Status::Success),
                failed == count_status(all.take(i as int), Status::Failure),
                errored == count_status(all.take(i as int), Status::ProvisionError),
            decreases outcomes@.len() - i,
        {
            proof {
                let next = all.take(i as int + 1);
                assert(next.drop_last() =~= all.take(i as int));
                lemma_count_bounds(all.take(i as int), Status::Success);
                lemma_count_bounds(all.take(i as int), Status::Failure);
                lemma_count_bounds(all.take(i as int), Status::ProvisionError);
            }
            match outcomes[i].status() {
                Status::Success => {
                    succeeded += 1;
                },
                Status::Failure => {
                    failed += 1;
                },
                Status::ProvisionError => {
                    errored += 1;
                },
            }
            i += 1;
        }
        assert(all.take(outcomes@.len() as int) =~= all);
        RunReport { outcomes, succeeded, failed, errored }
    }

    /// The number of outcomes, which is the number of commits in the range.
    pub fn len(&self) -> (n: usize)
        ensures
            n == self@.len(),
    {
        self.outcomes.len()
    }

    /// The outcome of the commit at `index` of the range.
    pub fn get(&self, index: usize) -> (outcome: Option<&ExecutionOutcome>)
        ensures
            outcome is Some <==> index < self@.len(),
            outcome matches Some(o) ==> o@ == self@[index as int],
    {
        if index < self.outcomes.len() {
            Some(&self.outcomes[index])
        } else {
            None
        }
    }

    /// How many commits the command succeeded on.
    pub fn succeeded(&self) -> (n: usize)
        ensures
            n == count_status(self@, Status::Success),
    {
        proof {
            use_type_invariant(self);
        }
        self.succeeded
    }

    /// How many commits the command failed on.
    pub fn failed(&self) -> (n: usize)
        ensures
            n == count_status(self@, Status::Failure),
    {
        proof {
            use_type_invariant(self);
        }
        self.failed
    }

    /// How many commits are left without a verdict.
    pub fn errored(&self) -> (n: usize)
        ensures
            n == count_status(self@, Status::ProvisionError),
    {
        proof {
            use_type_invariant(self);
        }
        self.errored
    }

    /// Whether the run passed: true exactly when every outcome is a success.
    /// A run over an empty range passes.
    pub fn passed(&self) -> (passed: bool)
        ensures
            passed == all_succeeded(self@),
    {
        proof {
            use_type_invariant(self);
            lemma_count_bounds(self@, Status::Success);
        }
        self.succeeded == self.outcomes.len()
    }

    /// The exit code of the whole process after a run that was reported:
    /// always zero. Commits that failed show in the report and in the lines
    /// printed for them, never in the exit code.
    pub fn process_exit_code(&self) -> (code: i32)
        ensures
            code == 0,
    {
        0
    }
}

/// Why an outcome was not taken into the report.
#[derive(Clone, Copy, Debug, PartialEq, Eq, Structural)]
pub enum RecordError {
    /// The range has no commit at that position.
    OutOfRange,
    /// The outcome is that of another commit than the one at that position.
    WrongCommit,
    /// The position already holds an outcome.
    AlreadyRecorded,
}

/// The mathematical value of a [`ResultAggregator`]: the commits of the
/// range and, for each position, the outcome recorded there so far.
pub struct AggregatorView {
    pub commits: Seq<Seq<u8>>,
    pub slots: Seq<Option<OutcomeView>>,
}

impl AggregatorView {
    /// Why `outcome` cannot be recorded at `index`, if it cannot.
    pub open spec fn refusal(self, index: int, outcome: OutcomeView) -> Option<RecordError> {
        if !(0 <= index < self.slots.len()) {
            Some(RecordError::OutOfRange)
        } else if outcome.commit != self.commits[index] {
            Some(RecordError::WrongCommit)
        } else if self.slots[index] is Some {
            Some(RecordError::AlreadyRecorded)
        } else {
            None
        }
    }

    /// The aggregator after `outcome` was recorded at `index`.
    pub open spec fn record(self, index: int, outcome: OutcomeView) -> AggregatorView {
        AggregatorView { commits: self.commits, slots: self.slots.update(index, Some(outcome)) }
    }

    /// Whether every position holds an outcome.
    pub open spec fn complete(self) -> bool {
        forall|i: int| 0 <= i < self.slots.len() ==> (#[trigger] self.slots[i]) is Some
    }

    /// The outcomes in range order, once every position holds one.
    pub open spec fn report(self) -> Seq<OutcomeView> {
        Seq::new(self.slots.len(), |i: int| self.slots[i]->0)
    }

    /// One slot per commit, and each outcome at the position of its commit.
    pub open spec fn aligned(self) -> bool {
        &&& self.slots.len() == self.commits.len()
        &&& forall|i: int|
            0 <= i < self.slots.len() && (#[trigger] self.slots[i]) is Some ==> self.slots[i]->0.commit
                == self.commits[i]
    }
}

/// Outcomes are kept by position, not by arrival: two that are recorded at
/// different positions leave the same aggregator behind, whichever comes
/// first, and neither stands in the other's way.
pub proof fn lemma_record_order_is_immaterial(
    aggregator: AggregatorView,
    i: int,
    first: OutcomeView,
    j: int,
    second: OutcomeView,
)
    requires
        i != j,
        aggregator.refusal(i, first) is None,
        aggregator.refusal(j, second) is None,
    ensures
        aggregator.record(i, first).refusal(j, second) is None,
        aggregator.record(j, second).refusal(i, first) is None,
        aggregator.record(i, first).record(j, second) == aggregator.record(j, second).record(
            i,
            first,
        ),
{
    assert(aggregator.record(i, first).record(j, second).slots =~= aggregator.record(
        j,
        second,
    ).record(i, first).slots);
}

/// The report has one outcome per commit, each at the position of its
/// commit.
pub proof fn lemma_report_is_aligned(aggregator: AggregatorView)
    requires
        aggregator.aligned(),
        aggregator.complete(),
    ensures
        aggregator.report().len() == aggregator.commits.len(),
        forall|i: int|
            0 <= i < aggregator.commits.len() ==> (#[trigger] aggregator.report()[i]).commit
                == aggregator.commits[i],
{
}

/// Two runs whose commits ended with the same statuses, position by
/// position, have the same counts and pass or fail alike.
pub proof fn lemma_summary_follows_statuses(one: Seq<OutcomeView>, other: Seq<OutcomeView>)
    requires
        one.len() == other.len(),
        forall|i: int| 0 <= i < one.len() ==> (#[trigger] one[i]).status == other[i].status,
    ensures
        forall|status: Status| count_status(one, status) == count_status(other, status),
        all_succeeded(one) == all_succeeded(other),
    decreases one.len(),
{
    if one.len() > 0 {
        lemma_summary_follows_statuses(one.drop_last(), other.drop_last());
    }
    assert forall|status: Status| count_status(one, status) == count_status(other, status) by {
        if one.len() > 0 {
            assert(count_status(one.drop_last(), status) == count_status(
                other.drop_last(),
                status,
            ));
        }
    }
    if all_succeeded(one) {
        assert forall|i: int| 0 <= i < other.len() implies (#[trigger] other[i]).status
            == Status::Success by {
            assert(one[i].status == other[i].status);
        }
    }
}

/// Collects the outcomes of a run by position in the range, in whatever
/// order they arrive.
#[derive(Debug)]
pub struct ResultAggregator {
    commits: Vec<CommitId>,
    slots: Vec<Option<ExecutionOutcome>>,
}

/// The mathematical values of a list of slots.
pub open spec fn slots_of(slots: Seq<Option<ExecutionOutcome>>) -> Seq<Option<OutcomeView>> {
    slots.map_values(
        |s: Option<ExecutionOutcome>|
            match s {
                Some(o) => Some(o@),
                None => None,
            },
    )
}

impl View for ResultAggregator {
    type V = AggregatorView;

    closed spec fn view(&self) -> AggregatorView {
        AggregatorView { commits: ids_of(self.commits@), slots: slots_of(self.slots@) }
    }
}

fn reversed<T>(items: Vec<T>) -> (r: Vec<T>)
    ensures
        r@ == items@.reverse(),
{
    let ghost all = items@;
    let mut items = items;
    let mut r: Vec<T> = Vec::new();
    while items.len() > 0
        invariant
            items@.len() <= all.len(),
            items@ == all.take(items@.len() as int),
            r@.len() == all.len() - items@.len(),
            forall|k: int| 0 <= k < r@.len() ==> r@[k] == all[all.len() - 1 - k],
        decreases items@.len(),
    {
        let last = items.pop();
        match last {
            Some(item) => {
                r.push(item);
            },
            None => {},
        }
    }
    r
}

impl ResultAggregator {
    /// An aggregator for a run over `sequence`, with no outcome recorded.
    pub fn new(sequence: &CommitSequence) -> (aggregator: ResultAggregator)
        ensures
            aggregator@.commits == sequence@,
            aggregator@.slots == Seq::new(sequence@.len(), |i: int| None::<OutcomeView>),
            aggregator@.aligned(),
    {
        let mut commits: Vec<CommitId> = Vec::new();
        let mut slots: Vec<Option<ExecutionOutcome>> = Vec::new();
        let mut i: usize = 0;
        while i < sequence.len()
            invariant
                i <= sequence@.len(),
                commits@.len() == i,
                slots@.len() == i,
                forall|k: int| 0 <= k < i ==> (#[trigger] commits@[k])@ == sequence@[k],
                forall|k: int| 0 <= k < i ==> (#[trigger] slots@[k]) is None,
            decreases sequence@.len() - i,
        {
            match sequence.get(i) {
                Some(commit) => {
                    commits.push(commit);
                    slots.push(None);
                },
                None => {},
            }
            i += 1;
        }
        let aggregator = ResultAggregator { commits, slots };
        aggregator
    }

    /// The number of positions, which is the number of commits in the range.
    pub fn len(&self) -> (n: usize)
        ensures
            n == self@.slots.len(),
    {
        self.slots.len()
    }

    /// The commit at `index` of the range.
    pub fn commit_at(&self, index: usize) -> (commit: Option<CommitId>)
        ensures
            commit is Some <==> index < self@.commits.len(),
            commit matches Some(c) ==> c@ == self@.commits[index as int],
    {
        if index < self.commits.len() {
            Some(self.commits[index])
        } else {
            None
        }
    }

    /// Whether the position `index` holds an outcome.
    pub fn is_recorded(&self, index: usize) -> (recorded: bool)
        ensures
            recorded == (index < self@.slots.len() && self@.slots[index as int] is Some),
    {
        if index < self.slots.len() {
            self.slots[index].is_some()
        } else {
            false
        }
    }

    /// The outcome recorded at `index`, if there is one.
    pub fn get(&self, index: usize) -> (outcome: Option<&ExecutionOutcome>)
        ensures
            match outcome {
                Some(o) => index < self@.slots.len() && self@.slots[index as int] == Some(o@),
                None => index >= self@.slots.len() || self@.slots[index as int] is None,
            },
    {
        if index < self.slots.len() {
            self.slots[index].as_ref()
        } else {
            None
        }
    }

    /// Records `outcome` as that of the commit at `index` of the range.
    ///
    /// It is refused, and the aggregator left as it was, where the range has
    /// no such position, where the outcome belongs to another commit, or
    /// where the position already holds an outcome.
    pub fn record(&mut self, index: usize, outcome: ExecutionOutcome) -> (recorded: Result<
        (),
        RecordError,
    >)
        requires
            old(self)@.aligned(),
        ensures
            final(self)@.aligned(),
            match old(self)@.refusal(index as int, outcome@) {
                Some(error) => recorded == Err::<(), RecordError>(error) && final(self)@ == old(
                    self,
                )@,
                None => recorded is Ok && final(self)@ == old(self)@.record(index as int, outcome@),
            },
    {
        if index >= self.slots.len() {
            return Err(RecordError::OutOfRange);
        }
        if outcome.commit() != self.commits[index] {
            return Err(RecordError::WrongCommit);
        }
        if self.slots[index].is_some() {
            return Err(RecordError::AlreadyRecorded);
        }
        let ghost stored = outcome@;
        self.slots.set(index, Some(outcome));
        assert(self@.slots =~= old(self)@.slots.update(index as int, Some(stored)));
        Ok(())
    }

    /// Whether every position holds an outcome.
    pub fn is_complete(&self) -> (complete: bool)
        ensures
            complete == self@.complete(),
    {
        let mut i: usize = 0;
        while i < self.slots.len()
            invariant
                i <= self.slots@.len(),
                forall|k: int| 0 <= k < i ==> (#[trigger] self@.slots[k]) is Some,
            decreases self.slots@.len() - i,
        {
            if self.slots[i].is_none() {
                assert(self@.slots[i as int] is None);
                return false;
            }
            i += 1;
        }
        true
    }

    /// The report of the run, once every commit has its outcome: the
    /// outcomes in range order, whatever the order they were recorded in.
    /// Before that there is no report.
    pub fn finalize(self) -> (report: Option<RunReport>)
        requires
            self@.aligned(),
        ensures
            report is Some <==> self@.complete(),
            report matches Some(r) ==> {
                &&& r@ == self@.report()
                &&& r@.len() == self@.commits.len()
                &&& forall|i: int| 0 <= i < r@.len() ==> (#[trigger] r@[i]).commit == self@.commits[i]
            },
    {
        if !self.is_complete() {
            return None;
        }
        let ghost view = self@;
        let ResultAggregator { commits, slots } = self;
        let ghost all = slots@;
        let mut stack = reversed(slots);
        let mut outcomes: Vec<ExecutionOutcome> = Vec::new();
        while stack.len() > 0
            invariant
                view.slots == slots_of(all),
                view.complete(),
                stack@.len() + outcomes@.len() == all.len(),
                stack@ == all.reverse().take(stack@.len() as int),
                forall|k: int| 0 <= k < outcomes@.len() ==> Some(#[trigger] outcomes@[k]) == all[k],
            decreases stack@.len(),
        {
            let ghost position = outcomes@.len() as int;
            let top = stack.pop();
            assert(view.slots[position] is Some);
            match top {
                Some(Some(outcome)) => {
                    outcomes.push(outcome);
                },
                // Never taken: every position holds an outcome.
                _ => {
                    return None;
                },
            }
        }
        let report = RunReport::from_outcomes(outcomes);
        assert(report@ =~= view.report());
        Some(report)
    }
}

} // verus!
