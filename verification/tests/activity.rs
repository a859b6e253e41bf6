use codex_halo::activity::{activity_from_line, ActiveTurns, CodexActivity, CodexActivityRecord};
use codex_halo::state::HaloState;

#[test]
fn recognizes_lifecycle_records_without_parsing_payloads() {
    assert_eq!(
        activity_from_line(
            r#"{"type":"event_msg","payload":{"type":"task_started","turn_id":"turn-1"}}"#
        ),
        Some(CodexActivityRecord {
            activity: CodexActivity::Started,
            turn_id: "turn-1".to_owned(),
        })
    );
    assert_eq!(
        activity_from_line(
            r#"{"type":"event_msg","payload":{"type":"task_complete","turn_id":"turn-1"}}"#
        ),
        Some(CodexActivityRecord {
            activity: CodexActivity::Completed,
            turn_id: "turn-1".to_owned(),
        })
    );
    assert_eq!(activity_from_line(r#"{"type":"response_item"}"#), None);
}

#[test]
fn keeps_breathing_until_all_overlapping_turns_finish() {
    let mut turns = ActiveTurns::default();
    let record = |activity, turn_id: &str| CodexActivityRecord {
        activity,
        turn_id: turn_id.to_owned(),
    };

    assert_eq!(
        turns.apply(vec![record(CodexActivity::Started, "turn-1")]),
        Some(CodexActivity::Started)
    );
    assert_eq!(
        turns.apply(vec![
            record(CodexActivity::Started, "turn-2"),
            record(CodexActivity::Completed, "turn-1"),
        ]),
        None
    );
    assert_eq!(
        turns.apply(vec![record(CodexActivity::Completed, "turn-2")]),
        Some(CodexActivity::Completed)
    );
}

#[test]
fn ignores_complete_historical_turn_batches() {
    let mut turns = ActiveTurns::default();
    assert_eq!(
        turns.apply(vec![
            CodexActivityRecord {
                activity: CodexActivity::Started,
                turn_id: "old-turn".to_owned(),
            },
            CodexActivityRecord {
                activity: CodexActivity::Completed,
                turn_id: "old-turn".to_owned(),
            },
        ]),
        None
    );
}

#[test]
fn turn_id_is_cut_at_the_next_quote_and_must_not_be_empty() {
    assert_eq!(
        activity_from_line(
            r#"{"type":"event_msg","payload":{"type":"task_started","turn_id":"","x":"y"}}"#
        ),
        None
    );
    assert_eq!(
        activity_from_line(r#"{"type":"event_msg","payload":{"type":"task_started","turn_id":"open"#),
        None
    );
    assert_eq!(
        activity_from_line(r#"{"type":"event_msg","payload":{"type":"task_started"}}"#),
        None
    );
    let record = activity_from_line(
        r#"{"turn_id":"first","type":"event_msg","payload":{"type":"task_complete","turn_id":"second"}}"#,
    )
    .unwrap();
    assert_eq!(record.turn_id, "first");
    assert_eq!(record.activity, CodexActivity::Completed);
}

#[test]
fn non_ascii_payloads_keep_character_positions() {
    let record = activity_from_line(
        "{\"note\":\"héllo ✓\",\"type\":\"event_msg\",\"payload\":{\"type\":\"task_started\",\"turn_id\":\"tür-✓\"}}",
    )
    .unwrap();
    assert_eq!(record.turn_id, "tür-✓");
    assert_eq!(record.activity, CodexActivity::Started);
}

#[test]
fn started_marker_wins_over_completed_marker() {
    let record = activity_from_line(
        r#"{"type":"event_msg","payload":{"type":"task_complete"} {"type":"event_msg","payload":{"type":"task_started","turn_id":"t"}}"#,
    )
    .unwrap();
    assert_eq!(record.activity, CodexActivity::Started);
}

#[test]
fn user_text_that_mentions_a_marker_is_escaped_and_ignored() {
    assert_eq!(
        activity_from_line(
            r#"{"type":"response_item","payload":{"text":"{\"type\":\"event_msg\",\"payload\":{\"type\":\"task_started\",\"turn_id\":\"x\"}"}}"#
        ),
        None
    );
}

#[test]
fn activities_map_to_halo_states() {
    assert_eq!(CodexActivity::Started.halo_state(), HaloState::Working);
    assert_eq!(CodexActivity::Completed.halo_state(), HaloState::Completed);
}

#[test]
fn batches_compose_like_one_batch() {
    let record = |activity, turn_id: &str| CodexActivityRecord {
        activity,
        turn_id: turn_id.to_owned(),
    };
    let mut split = ActiveTurns::new();
    split.apply(vec![record(CodexActivity::Started, "a"), record(CodexActivity::Started, "b")]);
    split.apply(vec![record(CodexActivity::Completed, "a")]);
    let mut whole = ActiveTurns::new();
    whole.apply(vec![
        record(CodexActivity::Started, "a"),
        record(CodexActivity::Started, "b"),
        record(CodexActivity::Completed, "a"),
    ]);
    assert!(split.is_working());
    assert!(whole.is_working());
    assert_eq!(split.apply(vec![record(CodexActivity::Completed, "b")]), Some(CodexActivity::Completed));
    assert_eq!(whole.apply(vec![record(CodexActivity::Completed, "b")]), Some(CodexActivity::Completed));
}

#[test]
fn duplicate_starts_count_once() {
    let mut turns = ActiveTurns::new();
    let start = CodexActivityRecord { activity: CodexActivity::Started, turn_id: "t".to_owned() };
    let done = CodexActivityRecord { activity: CodexActivity::Completed, turn_id: "t".to_owned() };
    assert_eq!(turns.apply(vec![start.clone(), start.clone()]), Some(CodexActivity::Started));
    assert_eq!(turns.apply(vec![done.clone()]), Some(CodexActivity::Completed));
    assert!(!turns.is_working());
    assert_eq!(turns.apply(vec![done]), None);
}
