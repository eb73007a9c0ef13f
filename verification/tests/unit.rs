use commit_runner::commit::CommitId;
use commit_runner::outcome::{ProcessExit, Status};
use commit_runner::unit::{shell_invocation, Unit, UnitAction, UnitEvent, UnitPhase};
use commit_runner::workspace::{GuardState, Mode, ReleasePlan};

fn id(seed: u8) -> CommitId {
    CommitId::from_bytes(&[seed; 20]).unwrap()
}

fn exited(code: i32, stderr: &[u8]) -> UnitEvent {
    UnitEvent::Exited {
        exit: ProcessExit { code: Some(code), signal: None },
        stdout: Vec::new(),
        stderr: stderr.to_vec(),
    }
}

const ISOLATED_RELEASE: ReleasePlan = ReleasePlan { remove_directory: true, prune_registration: true };
const SHARED_RELEASE: ReleasePlan = ReleasePlan { remove_directory: false, prune_registration: false };

#[test]
fn command_is_handed_to_the_shell() {
    assert_eq!(shell_invocation("exit 1"), vec!["bash", "-c", "exit 1"]);
    assert_eq!(shell_invocation("make test | tee log"), vec!["bash", "-c", "make test | tee log"]);
    assert_eq!(shell_invocation(""), vec!["bash", "-c", ""]);
}

#[test]
fn unit_starts_by_asking_for_its_workspace() {
    let (unit, plan) = Unit::start(id(0xaa), Mode::Isolated, 5);
    assert_eq!(unit.phase(), UnitPhase::Provisioning);
    assert_eq!(unit.guard_state(), GuardState::Provisioned);
    assert_eq!(plan.mode, Mode::Isolated);
    assert_eq!(plan.directory.as_deref(), Some("aaaaaaaaaaaaaaaaaaaaaaaaaaaaaaaaaaaaaaaa-5"));
    assert_eq!(plan.revision, "aaaaaaaaaaaaaaaaaaaaaaaaaaaaaaaaaaaaaaaa");
}

#[test]
fn unit_provisions_runs_releases_and_emits() {
    let (mut unit, _plan) = Unit::start(id(1), Mode::Isolated, 0);
    match unit.step(UnitEvent::Provisioned { path: String::from("/tmp/ws/one") }) {
        UnitAction::Run(workspace) => {
            assert_eq!(workspace.path, "/tmp/ws/one");
            assert_eq!(workspace.commit, id(1));
            assert_eq!(workspace.mode, Mode::Isolated);
        }
        other => panic!("{:?}", other),
    }
    assert_eq!(unit.phase(), UnitPhase::Running);
    assert_eq!(unit.guard_state(), GuardState::InUse);

    match unit.step(exited(0, b"")) {
        UnitAction::Release(plan) => assert_eq!(plan, ISOLATED_RELEASE),
        other => panic!("{:?}", other),
    }
    assert_eq!(unit.phase(), UnitPhase::Releasing);
    assert_eq!(unit.guard_state(), GuardState::Released);

    match unit.step(UnitEvent::Released { clean: true }) {
        UnitAction::Emit(outcome) => {
            assert_eq!(outcome.commit(), id(1));
            assert_eq!(outcome.status(), Status::Success);
            assert_eq!(outcome.exit_code(), 0);
        }
        other => panic!("{:?}", other),
    }
    assert_eq!(unit.phase(), UnitPhase::Finished);
    assert_eq!(unit.guard_state(), GuardState::Released);
}

#[test]
fn failed_command_is_released_like_any_other() {
    let (mut unit, _plan) = Unit::start(id(2), Mode::SharedInPlace, 0);
    assert!(matches!(unit.step(UnitEvent::Provisioned { path: String::from(".") }), UnitAction::Run(_)));
    match unit.step(exited(1, b"nope\n")) {
        UnitAction::Release(plan) => assert_eq!(plan, SHARED_RELEASE),
        other => panic!("{:?}", other),
    }
    match unit.step(UnitEvent::Released { clean: true }) {
        UnitAction::Emit(outcome) => {
            assert_eq!(outcome.status(), Status::Failure);
            assert_eq!(outcome.exit_code(), 1);
            assert_eq!(outcome.stderr(), &b"nope\n".to_vec());
        }
        other => panic!("{:?}", other),
    }
}

#[test]
fn provisioning_error_is_the_outcome_and_the_workspace_is_released() {
    let (mut unit, _plan) = Unit::start(id(3), Mode::Isolated, 0);
    match unit.step(UnitEvent::ProvisionFailed { diagnostics: b"no space left".to_vec() }) {
        UnitAction::Release(plan) => assert_eq!(plan, ISOLATED_RELEASE),
        other => panic!("{:?}", other),
    }
    assert_eq!(unit.guard_state(), GuardState::Released);
    match unit.step(UnitEvent::Released { clean: true }) {
        UnitAction::Emit(outcome) => {
            assert_eq!(outcome.commit(), id(3));
            assert_eq!(outcome.status(), Status::ProvisionError);
            assert_eq!(outcome.exit_code(), 1);
            assert_eq!(outcome.stderr(), &b"no space left".to_vec());
        }
        other => panic!("{:?}", other),
    }
}

#[test]
fn spawn_failure_is_the_outcome_and_the_workspace_is_released() {
    let (mut unit, _plan) = Unit::start(id(4), Mode::Isolated, 0);
    unit.step(UnitEvent::Provisioned { path: String::from("/w") });
    assert!(matches!(
        unit.step(UnitEvent::SpawnFailed { diagnostics: b"bash: not found".to_vec() }),
        UnitAction::Release(_)
    ));
    match unit.step(UnitEvent::Released { clean: true }) {
        UnitAction::Emit(outcome) => {
            assert_eq!(outcome.status(), Status::ProvisionError);
            assert_eq!(outcome.stderr(), &b"bash: not found".to_vec());
        }
        other => panic!("{:?}", other),
    }
}

#[test]
fn failed_cleanup_does_not_change_the_outcome() {
    let mut outcomes = Vec::new();
    for clean in [true, false] {
        let (mut unit, _plan) = Unit::start(id(5), Mode::Isolated, 0);
        unit.step(UnitEvent::Provisioned { path: String::from("/w") });
        unit.step(exited(3, b"x"));
        match unit.step(UnitEvent::Released { clean }) {
            UnitAction::Emit(outcome) => {
                outcomes.push((outcome.status(), outcome.exit_code(), outcome.stderr().clone()))
            }
            other => panic!("{:?}", other),
        }
        assert_eq!(unit.phase(), UnitPhase::Finished);
    }
    assert_eq!(outcomes[0], outcomes[1]);
    assert_eq!(outcomes[0], (Status::Failure, 3, b"x".to_vec()));
}

#[test]
fn interruption_terminates_the_command_before_the_release() {
    let (mut unit, _plan) = Unit::start(id(6), Mode::Isolated, 0);
    unit.step(UnitEvent::Provisioned { path: String::from("/w") });
    assert!(matches!(unit.step(UnitEvent::Interrupted), UnitAction::Terminate));
    // The workspace is still in use until the command has ended.
    assert_eq!(unit.phase(), UnitPhase::Running);
    assert_eq!(unit.guard_state(), GuardState::InUse);
    let killed = UnitEvent::Exited {
        exit: ProcessExit { code: None, signal: Some(15) },
        stdout: Vec::new(),
        stderr: Vec::new(),
    };
    assert!(matches!(unit.step(killed), UnitAction::Release(_)));
    match unit.step(UnitEvent::Released { clean: true }) {
        UnitAction::Emit(outcome) => {
            assert_eq!(outcome.status(), Status::Failure);
            assert_eq!(outcome.exit_code(), 143);
        }
        other => panic!("{:?}", other),
    }
}

#[test]
fn interruption_while_provisioning_skips_the_command() {
    let (mut unit, _plan) = Unit::start(id(7), Mode::Isolated, 0);
    assert!(matches!(unit.step(UnitEvent::Interrupted), UnitAction::Wait));
    assert_eq!(unit.phase(), UnitPhase::Provisioning);
    match unit.step(UnitEvent::Provisioned { path: String::from("/w") }) {
        UnitAction::Release(plan) => assert_eq!(plan, ISOLATED_RELEASE),
        other => panic!("{:?}", other),
    }
    match unit.step(UnitEvent::Released { clean: true }) {
        UnitAction::Emit(outcome) => assert_eq!(outcome.status(), Status::ProvisionError),
        other => panic!("{:?}", other),
    }
}

#[test]
fn events_that_do_not_fit_are_passed_over() {
    let (mut unit, _plan) = Unit::start(id(8), Mode::Isolated, 0);
    assert!(matches!(unit.step(exited(0, b"")), UnitAction::Wait));
    assert!(matches!(unit.step(UnitEvent::Released { clean: true }), UnitAction::Wait));
    assert!(matches!(unit.step(UnitEvent::SpawnFailed { diagnostics: Vec::new() }), UnitAction::Wait));
    assert_eq!(unit.phase(), UnitPhase::Provisioning);
    assert_eq!(unit.guard_state(), GuardState::Provisioned);
    unit.step(UnitEvent::Provisioned { path: String::from("/w") });
    assert!(matches!(unit.step(UnitEvent::Provisioned { path: String::from("/v") }), UnitAction::Wait));
    assert!(matches!(unit.step(UnitEvent::ProvisionFailed { diagnostics: Vec::new() }), UnitAction::Wait));
    assert!(matches!(unit.step(UnitEvent::Released { clean: true }), UnitAction::Wait));
    assert_eq!(unit.phase(), UnitPhase::Running);
}

#[test]
fn workspace_is_released_once_whatever_happens() {
    let scripts: Vec<Vec<u8>> = vec![
        vec![0, 3, 4],
        vec![5, 0, 4, 4],
        vec![1, 4, 1, 4],
        vec![0, 5, 5, 3, 5, 4, 4, 3],
        vec![0, 2, 3, 4, 0, 1, 2, 3, 4, 5],
        vec![3, 4, 0, 3, 3, 4, 4],
        vec![5, 1, 0, 4],
    ];
    for script in scripts {
        let (mut unit, _plan) = Unit::start(id(9), Mode::Isolated, 0);
        let mut releases = 0;
        let mut outcomes = 0;
        for step in script {
            let event = match step {
                0 => UnitEvent::Provisioned { path: String::from("/w") },
                1 => UnitEvent::ProvisionFailed { diagnostics: Vec::new() },
                2 => UnitEvent::SpawnFailed { diagnostics: Vec::new() },
                3 => exited(0, b""),
                4 => UnitEvent::Released { clean: false },
                _ => UnitEvent::Interrupted,
            };
            match unit.step(event) {
                UnitAction::Release(_) => {
                    assert_eq!(outcomes, 0);
                    releases += 1
                }
                UnitAction::Emit(_) => outcomes += 1,
                _ => {}
            }
        }
        assert_eq!(releases, 1);
        assert_eq!(outcomes, 1);
        assert_eq!(unit.phase(), UnitPhase::Finished);
        assert_eq!(unit.guard_state(), GuardState::Released);
    }
}

#[test]
fn finished_unit_does_nothing_more() {
    let (mut unit, _plan) = Unit::start(id(10), Mode::Isolated, 0);
    unit.step(UnitEvent::Provisioned { path: String::from("/w") });
    unit.step(exited(0, b""));
    unit.step(UnitEvent::Released { clean: true });
    for event in [
        UnitEvent::Provisioned { path: String::from("/w") },
        exited(1, b""),
        UnitEvent::Released { clean: true },
        UnitEvent::Interrupted,
    ] {
        assert!(matches!(unit.step(event), UnitAction::Wait));
        assert_eq!(unit.phase(), UnitPhase::Finished);
    }
}

#[test]
fn aborted_unit_releases_its_workspace_once() {
    let (mut provisioning, _plan) = Unit::start(id(11), Mode::Isolated, 0);
    assert_eq!(provisioning.abort(), Some(ISOLATED_RELEASE));
    assert_eq!(provisioning.phase(), UnitPhase::Finished);
    assert_eq!(provisioning.guard_state(), GuardState::Released);
    assert_eq!(provisioning.abort(), None);

    let (mut running, _plan) = Unit::start(id(11), Mode::SharedInPlace, 0);
    running.step(UnitEvent::Provisioned { path: String::from(".") });
    assert_eq!(running.abort(), Some(SHARED_RELEASE));
    assert_eq!(running.abort(), None);
    assert!(matches!(running.step(exited(0, b"")), UnitAction::Wait));
    assert!(matches!(running.step(UnitEvent::Released { clean: true }), UnitAction::Wait));
}

#[test]
fn abort_after_the_release_asks_for_no_second_one() {
    let (mut releasing, _plan) = Unit::start(id(12), Mode::Isolated, 0);
    releasing.step(UnitEvent::Provisioned { path: String::from("/w") });
    assert!(matches!(releasing.step(exited(1, b"")), UnitAction::Release(_)));
    assert_eq!(releasing.abort(), None);
    assert_eq!(releasing.phase(), UnitPhase::Finished);
    // The outcome that waited is gone with the unit.
    assert!(matches!(releasing.step(UnitEvent::Released { clean: true }), UnitAction::Wait));

    let (mut finished, _plan) = Unit::start(id(12), Mode::Isolated, 0);
    finished.step(UnitEvent::Provisioned { path: String::from("/w") });
    finished.step(exited(0, b""));
    finished.step(UnitEvent::Released { clean: true });
    assert_eq!(finished.abort(), None);
}
