//! Snapshot confirmation walked through a small discovered set.

use std::collections::HashMap;

use widgem::review::{Mode, Reviewer, SingleSnapshotFile, SingleSnapshotFiles};

fn file(name: &str) -> SingleSnapshotFile {
    SingleSnapshotFile { full_name: String::from(name), description: String::from(name) }
}

fn reviewer() -> Reviewer {
    let mut first: HashMap<u64, SingleSnapshotFiles> = HashMap::new();
    first.insert(1, SingleSnapshotFiles { confirmed: Some(file("a1.png")), unconfirmed: None });
    first.insert(2, SingleSnapshotFiles {
        confirmed: Some(file("a2.png")),
        unconfirmed: Some(file("a2.new.png")),
    });
    let mut second: HashMap<u64, SingleSnapshotFiles> = HashMap::new();
    second.insert(1, SingleSnapshotFiles { confirmed: None, unconfirmed: Some(file("b1.new.png")) });
    Reviewer::new(
        vec![String::from("first_case"), String::from("second_case")],
        vec![first, second],
    )
}

#[test]
fn reviewer_navigation() {
    let mut r = reviewer();
    assert_eq!(r.test_cases().len(), 2);
    assert_eq!(r.current_test_case(), Some(&String::from("first_case")));
    // Snapshot 1 is confirmed-only, so it opens in Confirmed mode.
    assert_eq!(r.current_state().mode, Mode::Confirmed);
    assert!(!r.has_unconfirmed());
    assert!(r.go_to_next_snapshot());
    assert_eq!(r.current_state().mode, Mode::New);
    assert!(r.has_unconfirmed());
    assert!(!r.go_to_next_snapshot());
    assert!(r.go_to_previous_snapshot());
    assert!(!r.go_to_previous_snapshot());
    assert!(r.go_to_next_test_case());
    assert_eq!(r.current_test_case(), Some(&String::from("second_case")));
    assert!(!r.go_to_next_test_case());
}

#[test]
fn reviewer_modes() {
    let mut r = reviewer();
    assert!(r.go_to_next_snapshot());
    // Snapshot 2 has both files and a confirmed predecessor.
    assert!(r.is_mode_allowed(Mode::New));
    assert!(r.is_mode_allowed(Mode::Confirmed));
    assert!(r.is_mode_allowed(Mode::DiffWithConfirmed));
    assert!(r.is_mode_allowed(Mode::DiffWithPreviousConfirmed));
    r.set_mode(Mode::DiffWithConfirmed);
    assert_eq!(r.current_state().mode, Mode::DiffWithConfirmed);
    // Back on snapshot 1 there is nothing unconfirmed: New is refused.
    assert!(r.go_to_previous_snapshot());
    assert!(!r.is_mode_allowed(Mode::New));
    r.set_mode(Mode::New);
    assert_eq!(r.current_state().mode, Mode::Confirmed);
    assert_eq!(Mode::New.ui_name(), "New");
    assert_eq!(Mode::DiffWithPreviousConfirmed.ui_name(), "Diff with previous confirmed");
}

#[test]
fn reviewer_finds_unconfirmed() {
    let mut r = reviewer();
    assert!(!r.has_unconfirmed());
    assert!(r.go_to_next_unconfirmed_file());
    assert!(r.has_unconfirmed());
    let state = r.current_state();
    assert_eq!(state.test_case_index, Some(0));
    assert_eq!(state.snapshot_index, Some(2));
}
