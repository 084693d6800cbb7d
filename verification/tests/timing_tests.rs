use asgn::submission::{
    check_grace_request, grace_spent, path_join, turn_in_time, SubmissionSlot, SubmissionStatus,
};

fn status(turn_in: Option<i64>) -> SubmissionStatus {
    SubmissionStatus { turn_in_time: turn_in, grace_days: 0, extension_days: 0 }
}

#[test]
fn versus_without_due_date() {
    assert_eq!(status(Some(100)).versus(None, 0), "Submitted");
    assert_eq!(status(None).versus(None, 0), "Not Submitted");
}

#[test]
fn versus_missing_submission() {
    // Before the due date a missing submission is simply not submitted yet.
    assert_eq!(status(None).versus(Some(1000), 999), "Not Submitted");
    assert_eq!(status(None).versus(Some(1000), 1000), "Not Submitted");
    // After the due date it is missing.
    assert_eq!(status(None).versus(Some(1000), 1001), "Missing");
}

#[test]
fn versus_late_decomposition() {
    // 1 day, 2 hours, 3 minutes and 4 seconds past due.
    let delta = 86400 + 2 * 3600 + 3 * 60 + 4;
    assert_eq!(status(Some(10_000 + delta)).versus(Some(10_000), 0), "Late 1d 2h 3m");
}

#[test]
fn versus_early_decomposition() {
    let delta = 86400 + 2 * 3600 + 3 * 60 + 4;
    assert_eq!(status(Some(10_000)).versus(Some(10_000 + delta), 0), "Early 1d 2h 3m");
}

#[test]
fn versus_on_the_dot() {
    assert_eq!(status(Some(500)).versus(Some(500), 0), "Early 0d 0h 0m");
}

#[test]
fn versus_swap_flips_label_keeps_magnitude() {
    let a = 2_000_000;
    let b = 1_900_000;
    let late = status(Some(a)).versus(Some(b), 0);
    let early = status(Some(b)).versus(Some(a), 0);
    assert!(late.starts_with("Late "));
    assert!(early.starts_with("Early "));
    assert_eq!(&late["Late ".len()..], &early["Early ".len()..]);
}

#[test]
fn time_past_is_signed() {
    assert_eq!(status(Some(150)).time_past(100), Some(50));
    assert_eq!(status(Some(100)).time_past(150), Some(-50));
    assert_eq!(status(None).time_past(150), None);
}

#[test]
fn turn_in_time_needs_every_file() {
    assert_eq!(turn_in_time(&vec![Some(10), Some(30), Some(20)]), Some(30));
    assert_eq!(turn_in_time(&vec![Some(10), None, Some(20)]), None);
    // The fold starts at zero, as the slot's scan of mtimes does.
    assert_eq!(turn_in_time(&vec![]), Some(0));
    assert_eq!(turn_in_time(&vec![Some(-5)]), Some(0));
}

#[test]
fn grace_budget_boundary() {
    // Course total 5, 2 already spent on another assignment, nothing recorded
    // here yet: 4 more would overdraw, 3 exactly exhausts the budget.
    assert!(check_grace_request(Some(5), None, 2, 0, 4).is_err());
    assert!(check_grace_request(Some(5), None, 2, 0, 3).is_ok());
}

#[test]
fn grace_error_kinds() {
    let no_budget = check_grace_request(None, None, 0, 0, 1).unwrap_err();
    assert_eq!(no_budget.description, "This course does not provide grace days.");
    let over_limit = check_grace_request(Some(10), Some(2), 0, 0, 3).unwrap_err();
    assert_eq!(
        over_limit.description,
        "The number of grace days requested exceeds the per-assignment grace day limit."
    );
    let insufficient = check_grace_request(Some(5), Some(5), 4, 0, 2).unwrap_err();
    assert_eq!(
        insufficient.description,
        "There aren't enough free grace days to provide such an extension."
    );
}

#[test]
fn grace_replaces_current_grant() {
    // 3 of the 4 spent days sit on this very assignment, so asking for 4
    // replaces them: 4 - 3 + 4 = 5 fits the total exactly.
    assert!(check_grace_request(Some(5), None, 4, 3, 4).is_ok());
    assert!(check_grace_request(Some(5), None, 4, 3, 5).is_err());
}

#[test]
fn grace_spent_sums_slots() {
    assert_eq!(grace_spent(&vec![1, 2, 3]), 6);
    assert_eq!(grace_spent(&vec![]), 0);
}

#[test]
fn slot_paths() {
    let slot = SubmissionSlot::for_user(
        "/course",
        "hw1",
        "alice",
        &vec!["main.cpp".to_owned(), "notes.txt".to_owned()],
    );
    assert_eq!(slot.base_path, "/course/hw1/alice");
    assert_eq!(slot.grace_path(), "/course/hw1/alice/.grace");
    assert_eq!(slot.extension_path(), "/course/hw1/alice/.extension");
    assert_eq!(
        slot.file_paths(),
        vec![
            "/course/hw1/alice/main.cpp".to_owned(),
            "/course/hw1/alice/notes.txt".to_owned()
        ]
    );
    assert_eq!(path_join("a", "b"), "a/b");
}

#[test]
fn extension_owner_trust() {
    assert!(SubmissionSlot::check_extension_owner("prof", "prof", "/p/.extension").is_ok());
    let err = SubmissionSlot::check_extension_owner("mallory", "prof", "/p/.extension")
        .unwrap_err();
    assert_eq!(err.description, "File not found: /p/.extension");
}

#[test]
fn stats_currency_tolerance() {
    assert!(asgn::stats::stats_current(101, 100));
    assert!(asgn::stats::stats_current(100, 100));
    assert!(asgn::stats::stats_current(99, 100));
    assert!(!asgn::stats::stats_current(102, 100));
    // A snapshot far ahead of the live time is stale too, not "current":
    // the tolerance is a magnitude, not a one-sided cutoff.
    assert!(!asgn::stats::stats_current(90, 100));
}
