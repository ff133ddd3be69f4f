use cullrs::decision::{
    assets_in_state, decision_stats, DecisionBook, DecisionError, DecisionStats,
};
use cullrs::records::{Asset, Decision, DecisionState, ReasonCode};

fn asset(id: &str) -> Asset {
    Asset {
        id: id.to_string(),
        project_id: "prj".to_string(),
        path: format!("/test/{}.jpg", id),
        thumbnail_path: None,
        hash: Some("hash123".to_string()),
        perceptual_hash: None,
        size: 1024000,
        width: 1920,
        height: 1080,
        exif_data: None,
        created_at: "t".to_string(),
        updated_at: "t".to_string(),
    }
}

fn decision(id: &str, state: &str) -> Decision {
    Decision {
        asset_id: id.to_string(),
        state: state.to_string(),
        reason: "manual_no_reason".to_string(),
        notes: None,
        decided_at: "t".to_string(),
    }
}

#[test]
fn test_create_decision() {
    let catalog = vec![asset("ast_1")];
    let mut book = DecisionBook::new();
    let at = book
        .record_decision(
            &catalog,
            "ast_1",
            DecisionState::Keep,
            ReasonCode::UserOverrideKeep,
            Some("User selected this image".to_string()),
            "2024-01-01T00:00:00Z",
        )
        .unwrap();
    let decision = &book.decisions()[at];

    assert_eq!(decision.asset_id, "ast_1");
    assert_eq!(decision.state, DecisionState::Keep.to_text());
    assert_eq!(decision.reason, ReasonCode::UserOverrideKeep.to_text());
    assert_eq!(decision.notes, Some("User selected this image".to_string()));
    assert_eq!(decision.decided_at, "2024-01-01T00:00:00Z");
}

#[test]
fn test_update_decision() {
    let catalog = vec![asset("ast_0"), asset("ast_1")];
    let mut book = DecisionBook::new();
    book.record_decision(&catalog, "ast_0", DecisionState::Keep, ReasonCode::ExactDuplicate, None, "t0")
        .unwrap();
    book.record_decision(
        &catalog,
        "ast_1",
        DecisionState::Undecided,
        ReasonCode::ManualNoReason,
        None,
        "t1",
    )
    .unwrap();

    let at = book
        .record_decision(
            &catalog,
            "ast_1",
            DecisionState::Remove,
            ReasonCode::UserOverrideRemove,
            Some("Changed mind".to_string()),
            "t2",
        )
        .unwrap();
    let updated = &book.decisions()[at];

    assert_eq!(updated.state, DecisionState::Remove.to_text());
    assert_eq!(updated.reason, ReasonCode::UserOverrideRemove.to_text());
    assert_eq!(updated.notes, Some("Changed mind".to_string()));
    assert_eq!(book.decisions().len(), 2);
    assert_eq!(book.decisions()[0].asset_id, "ast_0");
    assert_eq!(book.decisions()[0].state, "keep");
}

#[test]
fn a_decision_needs_a_known_asset() {
    let catalog = vec![asset("ast_1")];
    let mut book = DecisionBook::new();
    let result = book.record_decision(
        &catalog,
        "ast_2",
        DecisionState::Keep,
        ReasonCode::ManualNoReason,
        None,
        "t",
    );
    assert_eq!(result, Err(DecisionError::UnknownAsset));
    assert!(book.decisions().is_empty());
}

#[test]
fn test_decision_stats() {
    let mut decisions = Vec::new();
    for i in 1..=5 {
        let state = match i {
            1..=2 => DecisionState::Keep,
            3..=4 => DecisionState::Remove,
            _ => DecisionState::Undecided,
        };
        decisions.push(decision(&format!("ast_{}", i), &state.to_text()));
    }

    let stats = decision_stats(&decisions);
    assert_eq!(stats.keep, 2);
    assert_eq!(stats.remove, 2);
    assert_eq!(stats.undecided, 1);
    assert_eq!(stats.total, 5);
}

#[test]
fn unknown_states_count_as_undecided() {
    let decisions = vec![decision("a", "keep"), decision("b", "KEEP"), decision("c", "")];
    assert_eq!(
        decision_stats(&decisions),
        DecisionStats { keep: 1, remove: 0, undecided: 2, total: 3 }
    );
    assert_eq!(decision_stats(&vec![]), DecisionStats { keep: 0, remove: 0, undecided: 0, total: 0 });
}

#[test]
fn test_find_by_state() {
    let mut decisions = Vec::new();
    for i in 1..=3 {
        decisions.push(decision(&format!("ast_{}", i), "keep"));
    }
    decisions.push(decision("ast_4", "remove"));

    let keep = assets_in_state(&decisions, DecisionState::Keep);
    assert_eq!(keep.len(), 3);
    assert_eq!(keep, vec!["ast_1".to_string(), "ast_2".to_string(), "ast_3".to_string()]);
    assert_eq!(assets_in_state(&decisions, DecisionState::Remove), vec!["ast_4".to_string()]);
    assert!(assets_in_state(&decisions, DecisionState::Undecided).is_empty());
}

#[test]
fn decisions_are_found_and_taken_back() {
    let catalog = vec![asset("a"), asset("b"), asset("c")];
    let mut book = DecisionBook::new();
    for id in ["a", "b", "c"] {
        book.record_decision(&catalog, id, DecisionState::Keep, ReasonCode::ManualNoReason, None, "t")
            .unwrap();
    }
    assert_eq!(book.position("b"), Some(1));
    assert_eq!(book.position("z"), None);
    assert!(book.delete_by_asset_id("b"));
    assert!(!book.delete_by_asset_id("b"));
    assert_eq!(book.position("b"), None);
    let ids: Vec<&str> = book.decisions().iter().map(|d| d.asset_id.as_str()).collect();
    assert_eq!(ids, vec!["a", "c"]);
}
