use commit_runner::commit::CommitId;
use commit_runner::workspace::{
    isolated_directory_name, plan_provision, CleanupGuard, GuardState, Mode, ReleasePlan,
};

fn id(seed: u8) -> CommitId {
    CommitId::from_bytes(&[seed; 20]).unwrap()
}

#[test]
fn directory_name_is_hex_hyphen_nonce() {
    assert_eq!(
        isolated_directory_name(&id(0xab), 0),
        "abababababababababababababababababababab-0"
    );
    assert_eq!(
        isolated_directory_name(&id(0x01), 1234567890),
        "0101010101010101010101010101010101010101-1234567890"
    );
    assert_eq!(
        isolated_directory_name(&id(0), u64::MAX),
        "0000000000000000000000000000000000000000-18446744073709551615"
    );
}

#[test]
fn directory_names_do_not_collide() {
    let mut seen = std::collections::HashSet::new();
    for seed in 0..20u8 {
        for nonce in [0u64, 1, 9, 10, 11, 99, 100, 1 << 32, u64::MAX - 1, u64::MAX] {
            assert!(seen.insert(isolated_directory_name(&id(seed), nonce)));
        }
    }
}

#[test]
fn isolated_plan_names_a_fresh_directory() {
    let plan = plan_provision(&id(0x12), Mode::Isolated, 77);
    assert_eq!(plan.mode, Mode::Isolated);
    assert_eq!(plan.directory.as_deref(), Some("1212121212121212121212121212121212121212-77"));
    assert_eq!(plan.revision, "1212121212121212121212121212121212121212");
    assert!(!plan.forced);
}

#[test]
fn shared_plan_checks_out_in_place_and_by_force() {
    let plan = plan_provision(&id(0x34), Mode::SharedInPlace, 77);
    assert_eq!(plan.mode, Mode::SharedInPlace);
    assert_eq!(plan.directory, None);
    assert_eq!(plan.revision, "3434343434343434343434343434343434343434");
    assert!(plan.forced);
}

#[test]
fn guard_goes_from_provisioned_to_in_use_to_released() {
    let mut guard = CleanupGuard::new(Mode::Isolated);
    assert_eq!(guard.state(), GuardState::Provisioned);
    assert_eq!(guard.mode(), Mode::Isolated);
    assert!(guard.enter());
    assert_eq!(guard.state(), GuardState::InUse);
    assert!(!guard.enter());
    assert_eq!(guard.state(), GuardState::InUse);
    assert_eq!(
        guard.release(),
        Some(ReleasePlan { remove_directory: true, prune_registration: true })
    );
    assert_eq!(guard.state(), GuardState::Released);
}

#[test]
fn guard_releases_exactly_once() {
    let mut guard = CleanupGuard::new(Mode::Isolated);
    guard.enter();
    assert!(guard.release().is_some());
    for _ in 0..5 {
        assert_eq!(guard.release(), None);
        assert!(!guard.enter());
        assert_eq!(guard.state(), GuardState::Released);
    }
}

#[test]
fn guard_can_be_released_from_every_state() {
    let mut never_used = CleanupGuard::new(Mode::Isolated);
    assert!(never_used.release().is_some());
    assert_eq!(never_used.state(), GuardState::Released);
    assert_eq!(never_used.release(), None);

    let mut in_use = CleanupGuard::new(Mode::SharedInPlace);
    in_use.enter();
    assert!(in_use.release().is_some());
    assert_eq!(in_use.state(), GuardState::Released);
}

#[test]
fn shared_workspace_keeps_its_directory() {
    let mut guard = CleanupGuard::new(Mode::SharedInPlace);
    assert_eq!(guard.mode(), Mode::SharedInPlace);
    guard.enter();
    assert_eq!(
        guard.release(),
        Some(ReleasePlan { remove_directory: false, prune_registration: false })
    );
    assert_eq!(guard.release(), None);
}
