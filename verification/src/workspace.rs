//! Workspaces: where a commit's tree is laid out, and the guard that sees
//! to it that the place is given up again, once.

use vstd::prelude::*;
use vstd::string::*;

use crate::commit::CommitId;
use crate::text::{append_decimal_u64, digits_of, hex_char, hex_digits, hex_of};

verus! {

/// How a commit's tree is made available to the command.
#[derive(Clone, Copy, Debug, PartialEq, Eq, Structural, Hash)]
pub enum Mode {
    /// A fresh, independent copy of the repository per commit. Any number of
    /// them may exist side by side.
    Isolated,
    /// The commit is checked out in the source repository's own working
    /// directory. One commit at a time.
    SharedInPlace,
}

/// The name of the directory for an isolated workspace: the commit's
/// hexadecimal identifier, a hyphen, and the disambiguator in decimal.
pub open spec fn directory_name(commit: Seq<u8>, nonce: u64) -> Seq<char> {
    hex_of(commit) + seq!['-'] + digits_of(nonce as nat)
}

/// The number that a text of decimal digits stands for.
pub open spec fn digits_value(text: Seq<char>) -> nat
    decreases text.len(),
{
    if text.len() == 0 {
        0
    } else {
        digits_value(text.drop_last()) * 10 + digit_value(text.last())
    }
}

/// The value of one digit.
pub open spec fn digit_value(c: char) -> nat {
    if '0' <= c <= '9' {
        (c as u32 - '0' as u32) as nat
    } else {
        0
    }
}

/// The decimal digits of a number stand for that number.
pub proof fn lemma_digits_value(n: nat)
    ensures
        digits_value(digits_of(n)) == n,
    decreases n,
{
    if n < 10 {
        assert(digits_value(digits_of(n).drop_last()) == 0);
    } else {
        assert(digits_of(n).drop_last() =~= digits_of(n / 10));
        lemma_digits_value(n / 10);
    }
}

/// The value of one hexadecimal digit.
pub open spec fn nibble_value(c: char) -> int {
    if '0' <= c <= '9' {
        c as u32 - '0' as u32
    } else {
        c as u32 - 'a' as u32 + 10
    }
}

/// The hexadecimal text of a byte sequence determines the bytes.
pub proof fn lemma_hex_injective(a: Seq<u8>, b: Seq<u8>)
    requires
        hex_of(a) == hex_of(b),
    ensures
        a == b,
{
    assert(a.len() == b.len()) by {
        assert(hex_of(a).len() == 2 * a.len());
        assert(hex_of(b).len() == 2 * b.len());
    }
    assert forall|i: int| 0 <= i < a.len() implies a[i] == b[i] by {
        // The two digits of a byte give its two halves back.
        assert(nibble_value(hex_of(a)[2 * i]) == a[i] as int / 16);
        assert(nibble_value(hex_of(a)[2 * i + 1]) == a[i] as int % 16);
        assert(nibble_value(hex_of(b)[2 * i]) == b[i] as int / 16);
        assert(nibble_value(hex_of(b)[2 * i + 1]) == b[i] as int % 16);
    }
}

/// No two isolated workspaces share a directory name unless they are for the
/// same commit with the same disambiguator.
pub proof fn lemma_directory_name_injective(a: CommitId, nonce_a: u64, b: CommitId, nonce_b: u64)
    requires
        directory_name(a@, nonce_a) == directory_name(b@, nonce_b),
    ensures
        a@ == b@,
        nonce_a == nonce_b,
{
    a.lemma_len();
    b.lemma_len();
    let name_a = directory_name(a@, nonce_a);
    let name_b = directory_name(b@, nonce_b);
    assert(hex_of(a@) =~= name_a.subrange(0, 40));
    assert(hex_of(b@) =~= name_b.subrange(0, 40));
    lemma_hex_injective(a@, b@);
    assert(digits_of(nonce_a as nat) =~= name_a.subrange(41, name_a.len() as int));
    assert(digits_of(nonce_b as nat) =~= name_b.subrange(41, name_b.len() as int));
    lemma_digits_value(nonce_a as nat);
    lemma_digits_value(nonce_b as nat);
}

/// The name of the directory for an isolated workspace of `commit`. The
/// caller draws `nonce` at random, so that two runs on one commit do not
/// meet in one directory.
pub fn isolated_directory_name(commit: &CommitId, nonce: u64) -> (name: String)
    ensures
        name@ == directory_name(commit@, nonce),
{
    proof {
        reveal_strlit("-");
    }
    let mut name = commit.to_hex();
    name.append("-");
    append_decimal_u64(&mut name, nonce);
    name
}

/// A directory that holds one commit's tree, ready for the command.
#[derive(Debug)]
pub struct Workspace {
    /// Where the tree lies.
    pub path: String,
    /// The commit that is checked out there.
    pub commit: CommitId,
    /// How the workspace was provisioned.
    pub mode: Mode,
}

/// The mathematical value of a [`Workspace`].
pub struct WorkspaceView {
    pub path: Seq<char>,
    pub commit: Seq<u8>,
    pub mode: Mode,
}

impl View for Workspace {
    type V = WorkspaceView;

    open spec fn view(&self) -> WorkspaceView {
        WorkspaceView { path: self.path@, commit: self.commit@, mode: self.mode }
    }
}

/// What the provisioner is asked to do for one commit.
#[derive(Debug)]
pub struct ProvisionPlan {
    /// The provisioning strategy.
    pub mode: Mode,
    /// For an isolated workspace, the name of the fresh directory to copy
    /// the repository into. A shared workspace has none: it is the source
    /// repository's own working directory.
    pub directory: Option<String>,
    /// The commit to check out there, detached, in hexadecimal.
    pub revision: String,
    /// Whether the checkout discards uncommitted local changes.
    pub forced: bool,
}

/// The mathematical value of a [`ProvisionPlan`].
pub struct ProvisionPlanView {
    pub mode: Mode,
    pub directory: Option<Seq<char>>,
    pub revision: Seq<char>,
    pub forced: bool,
}

impl View for ProvisionPlan {
    type V = ProvisionPlanView;

    open spec fn view(&self) -> ProvisionPlanView {
        ProvisionPlanView {
            mode: self.mode,
            directory: match self.directory {
                Some(name) => Some(name@),
                None => None,
            },
            revision: self.revision@,
            forced: self.forced,
        }
    }
}

/// How `commit` is provisioned in `mode`. An isolated workspace gets a
/// directory of its own, named after the commit and `nonce`. A shared one is
/// checked out in place, and by force: what is uncommitted there is lost.
pub open spec fn provision_plan(commit: Seq<u8>, mode: Mode, nonce: u64) -> ProvisionPlanView {
    ProvisionPlanView {
        mode,
        directory: if mode == Mode::Isolated {
            Some(directory_name(commit, nonce))
        } else {
            None
        },
        revision: hex_of(commit),
        forced: mode == Mode::SharedInPlace,
    }
}

/// The plan for provisioning `commit` in `mode`.
pub fn plan_provision(commit: &CommitId, mode: Mode, nonce: u64) -> (plan: ProvisionPlan)
    ensures
        plan@ == provision_plan(commit@, mode, nonce),
{
    match mode {
        Mode::Isolated => ProvisionPlan {
            mode,
            directory: Some(isolated_directory_name(commit, nonce)),
            revision: commit.to_hex(),
            forced: false,
        },
        Mode::SharedInPlace => ProvisionPlan {
            mode,
            directory: None,
            revision: commit.to_hex(),
            forced: true,
        },
    }
}

/// What giving a workspace up consists of.
#[derive(Clone, Copy, Debug, PartialEq, Eq, Structural)]
pub struct ReleasePlan {
    /// Whether the workspace's directory is removed.
    pub remove_directory: bool,
    /// Whether the copy's registration is pruned from the source
    /// repository's metadata.
    pub prune_registration: bool,
}

/// What giving up a workspace of `mode` consists of. An isolated workspace
/// owns its directory and its registration, and both go. A shared one is the
/// source repository's own working directory, which stays.
pub open spec fn release_plan(mode: Mode) -> ReleasePlan {
    ReleasePlan {
        remove_directory: mode == Mode::Isolated,
        prune_registration: mode == Mode::Isolated,
    }
}

/// The life of a workspace.
#[derive(Clone, Copy, Debug, PartialEq, Eq, Structural)]
pub enum GuardState {
    /// The workspace is being laid out, or lies ready.
    Provisioned,
    /// The command is running in the workspace.
    InUse,
    /// The workspace has been given up.
    Released,
}

/// The mathematical value of a [`CleanupGuard`].
pub struct GuardView {
    pub mode: Mode,
    pub state: GuardState,
}

impl GuardView {
    /// The guard after the command was started in its workspace. Only a
    /// workspace that lies ready can be entered.
    pub open spec fn enter(self) -> (GuardView, bool) {
        if self.state == GuardState::Provisioned {
            (GuardView { state: GuardState::InUse, ..self }, true)
        } else {
            (self, false)
        }
    }

    /// The guard after its workspace was given up, and what is to be done
    /// for that. From every state the guard ends up released; the plan is
    /// handed out on the first release only.
    pub open spec fn release(self) -> (GuardView, Option<ReleasePlan>) {
        (
            GuardView { state: GuardState::Released, ..self },
            if self.state == GuardState::Released {
                None
            } else {
                Some(release_plan(self.mode))
            },
        )
    }
}

/// One step in the life of a guard.
pub enum GuardStep {
    Enter,
    Release,
}

/// The guard after `steps`, and how many release plans it handed out on the
/// way.
pub open spec fn guard_after(guard: GuardView, steps: Seq<GuardStep>) -> (GuardView, nat)
    decreases steps.len(),
{
    if steps.len() == 0 {
        (guard, 0)
    } else {
        let (before, plans) = guard_after(guard, steps.drop_last());
        match steps.last() {
            GuardStep::Enter => (before.enter().0, plans),
            GuardStep::Release => (
                before.release().0,
                plans + if before.release().1 is Some {
                    1nat
                } else {
                    0nat
                },
            ),
        }
    }
}

/// A workspace is released exactly once: whatever is done with a fresh
/// guard, and in whatever order, it hands out one release plan if it is
/// released at all, and never a second one. Once released it stays so.
pub proof fn lemma_released_exactly_once(mode: Mode, steps: Seq<GuardStep>)
    ensures
        ({
            let fresh = GuardView { mode, state: GuardState::Provisioned };
            let (guard, plans) = guard_after(fresh, steps);
            &&& guard.mode == mode
            &&& (exists|i: int| 0 <= i < steps.len() && steps[i] is Release) ==> plans == 1
                && guard.state == GuardState::Released
            &&& !(exists|i: int| 0 <= i < steps.len() && steps[i] is Release) ==> plans == 0
                && guard.state != GuardState::Released
        }),
    decreases steps.len(),
{
    if steps.len() > 0 {
        let init = steps.drop_last();
        lemma_released_exactly_once(mode, init);
        if exists|i: int| 0 <= i < init.len() && init[i] is Release {
            let i = choose|i: int| 0 <= i < init.len() && init[i] is Release;
            assert(steps[i] is Release);
        } else if steps.last() is Release {
            assert(steps[steps.len() - 1] is Release);
        } else {
            assert forall|i: int| 0 <= i < steps.len() implies !(steps[i] is Release) by {
                if i < init.len() {
                    assert(init[i] == steps[i]);
                }
            }
        }
    }
}

/// The owner of a workspace's resources. It sees to it that they are given
/// up exactly once, whichever way the unit of work ends.
#[derive(Debug)]
pub struct CleanupGuard {
    mode: Mode,
    state: GuardState,
}

impl View for CleanupGuard {
    type V = GuardView;

    closed spec fn view(&self) -> GuardView {
        GuardView { mode: self.mode, state: self.state }
    }
}

impl CleanupGuard {
    /// The guard of a workspace of `mode` that is about to be laid out.
    pub fn new(mode: Mode) -> (guard: CleanupGuard)
        ensures
            guard@ == (GuardView { mode, state: GuardState::Provisioned }),
    {
        CleanupGuard { mode, state: GuardState::Provisioned }
    }

    /// How the workspace was provisioned.
    pub fn mode(&self) -> (mode: Mode)
        ensures
            mode == self@.mode,
    {
        self.mode
    }

    /// Where the workspace is in its life.
    pub fn state(&self) -> (state: GuardState)
        ensures
            state == self@.state,
    {
        self.state
    }

    /// Marks the workspace as in use. Returns whether it was ready for that.
    pub fn enter(&mut self) -> (entered: bool)
        ensures
            final(self)@ == old(self)@.enter().0,
            entered == old(self)@.enter().1,
    {
        match self.state {
            GuardState::Provisioned => {
                self.state = GuardState::InUse;
                true
            },
            _ => false,
        }
    }

    /// Gives the workspace up. The first call, from whatever state, returns
    /// what is to be done; every later one returns nothing.
    pub fn release(&mut self) -> (plan: Option<ReleasePlan>)
        ensures
            final(self)@ == old(self)@.release().0,
            plan == old(self)@.release().1,
    {
        let plan = match self.state {
            GuardState::Released => None,
            _ => Some(
                ReleasePlan {
                    remove_directory: self.mode == Mode::Isolated,
                    prune_registration: self.mode == Mode::Isolated,
                },
            ),
        };
        self.state = GuardState::Released;
        plan
    }
}

} // verus!
