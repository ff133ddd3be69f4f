use cullrs::records::{DecisionState, GroupType, ReasonCode, ScanStatus};

#[test]
fn scan_status_text_forms() {
    assert_eq!(ScanStatus::NotStarted.to_text(), "not_started");
    assert_eq!(ScanStatus::InProgress.to_text(), "in_progress");
    assert_eq!(ScanStatus::Completed.to_text(), "completed");
    assert_eq!(ScanStatus::Cancelled.to_text(), "cancelled");
    assert_eq!(ScanStatus::Failed("disk full".to_string()).to_text(), "failed:disk full");

    assert_eq!(ScanStatus::from_text("not_started"), ScanStatus::NotStarted);
    assert_eq!(ScanStatus::from_text("in_progress"), ScanStatus::InProgress);
    assert_eq!(ScanStatus::from_text("completed"), ScanStatus::Completed);
    assert_eq!(ScanStatus::from_text("cancelled"), ScanStatus::Cancelled);
    assert_eq!(ScanStatus::from_text("failed:disk full"), ScanStatus::Failed("disk full".to_string()));
    assert_eq!(ScanStatus::from_text("failed:"), ScanStatus::Failed(String::new()));
    assert_eq!(ScanStatus::from_text("failed"), ScanStatus::NotStarted);
    assert_eq!(ScanStatus::from_text("something else"), ScanStatus::NotStarted);
    assert_eq!(ScanStatus::from_text(""), ScanStatus::NotStarted);
}

#[test]
fn scan_status_round_trip() {
    for status in [
        ScanStatus::NotStarted,
        ScanStatus::InProgress,
        ScanStatus::Completed,
        ScanStatus::Cancelled,
        ScanStatus::Failed("why: because".to_string()),
    ] {
        assert_eq!(ScanStatus::from_text(&status.to_text()), status);
    }
}

#[test]
fn group_type_text_forms() {
    assert_eq!(GroupType::Exact.to_text(), "exact");
    assert_eq!(GroupType::Similar.to_text(), "similar");
    assert_eq!(GroupType::from_text("exact"), GroupType::Exact);
    assert_eq!(GroupType::from_text("similar"), GroupType::Similar);
    assert_eq!(GroupType::from_text("other"), GroupType::Exact);
}

#[test]
fn decision_state_text_forms() {
    for state in [DecisionState::Keep, DecisionState::Remove, DecisionState::Undecided] {
        assert_eq!(DecisionState::from_text(&state.to_text()), state);
    }
    assert_eq!(DecisionState::Keep.to_text(), "keep");
    assert_eq!(DecisionState::Remove.to_text(), "remove");
    assert_eq!(DecisionState::Undecided.to_text(), "undecided");
    assert_eq!(DecisionState::from_text("Keep"), DecisionState::Undecided);
}

#[test]
fn reason_code_text_forms() {
    let all = [
        (ReasonCode::ExactDuplicate, "exact_duplicate"),
        (ReasonCode::HigherResolution, "higher_resolution"),
        (ReasonCode::NewerTimestamp, "newer_timestamp"),
        (ReasonCode::LargerFilesize, "larger_filesize"),
        (ReasonCode::UserOverrideKeep, "user_override_keep"),
        (ReasonCode::UserOverrideRemove, "user_override_remove"),
        (ReasonCode::ManualNoReason, "manual_no_reason"),
    ];
    for (reason, text) in all {
        assert_eq!(reason.to_text(), text);
        assert_eq!(ReasonCode::from_text(text), reason);
    }
    assert_eq!(ReasonCode::from_text("unheard of"), ReasonCode::ManualNoReason);
}
