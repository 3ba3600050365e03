use log_explorer::aggregate::{aggregate, sort_entries, SourceOutcome};
use log_explorer::entry::{entry_leq_exec, normalize_record, render_record, Entry, RawRecord};
use log_explorer::{get_empty_log_form, get_log_form};

fn narrative(date_added: &str, message: Option<&str>) -> RawRecord {
    RawRecord::Narrative {
        date_added: date_added.to_string(),
        message_text: message.map(|m| m.to_string()),
    }
}

fn exposure(date_added: Option<&str>, message: Option<&str>) -> RawRecord {
    RawRecord::Exposure {
        date_added: date_added.map(|d| d.to_string()),
        message_text: message.map(|m| m.to_string()),
    }
}

fn block(date_added: &str, block_id: &str, message: Option<&str>) -> RawRecord {
    RawRecord::Block {
        date_added: date_added.to_string(),
        block_id: block_id.to_string(),
        message: message.map(|m| m.to_string()),
    }
}

#[test]
fn narrative_renders_its_message() {
    assert_eq!(render_record(&narrative("2024-03-01T15:00:00", Some("calibration run"))), "calibration run");
}

#[test]
fn failed_render_substitutes_fallback_text() {
    assert_eq!(render_record(&narrative("2024-03-01T15:00:00", None)), "Failed to render message.");
    assert_eq!(render_record(&exposure(None, None)), "Failed to render message.");
    assert_eq!(
        render_record(&block("2024-03-01T15:00:00", "BL42", None)),
        "Failed to render message."
    );
}

#[test]
fn block_render_carries_its_block_id() {
    assert_eq!(
        render_record(&block("2024-03-01T15:00:00", "BL42", Some("slew started"))),
        "[BL42] slew started"
    );
}

#[test]
fn undated_record_takes_window_start_as_sort_key() {
    let e = normalize_record(&exposure(None, Some("B1")), "2024-03-01T12:00:00");
    assert_eq!(e.sort_key, "2024-03-01T12:00:00");
    assert_eq!(e.rendered_text, "B1");
    let e = normalize_record(&exposure(Some("2024-03-01T18:30:00"), Some("B2")), "2024-03-01T12:00:00");
    assert_eq!(e.sort_key, "2024-03-01T18:30:00");
}

#[test]
fn entry_comparison_is_key_then_text() {
    let a = Entry { sort_key: "2024-03-01T10:00:00".to_string(), rendered_text: "x".to_string() };
    let b = Entry { sort_key: "2024-03-01T11:00:00".to_string(), rendered_text: "a".to_string() };
    assert!(entry_leq_exec(&a, &b));
    assert!(!entry_leq_exec(&b, &a));
    let c = Entry { sort_key: "2024-03-01T10:00:00".to_string(), rendered_text: "y".to_string() };
    assert!(entry_leq_exec(&a, &c));
    assert!(!entry_leq_exec(&c, &a));
    assert!(entry_leq_exec(&a, &a));
}

#[test]
fn sort_is_newest_first_with_text_tiebreak() {
    let es = vec![
        Entry { sort_key: "2024-03-01T13:00:00".to_string(), rendered_text: "m1".to_string() },
        Entry { sort_key: "2024-03-01T15:00:00".to_string(), rendered_text: "m2".to_string() },
        Entry { sort_key: "2024-03-01T15:00:00".to_string(), rendered_text: "m3".to_string() },
        Entry { sort_key: "2024-03-01T14:00:00".to_string(), rendered_text: "m4".to_string() },
    ];
    let sorted = sort_entries(es);
    let texts: Vec<String> = sorted.into_iter().map(|e| e.rendered_text).collect();
    assert_eq!(texts, vec!["m3", "m2", "m4", "m1"]);
}

#[test]
fn two_sources_merge_in_chronological_order() {
    let source_a = SourceOutcome::Records(vec![narrative("2024-03-01T15:00:00", Some("A1"))]);
    let source_b = SourceOutcome::Records(vec![exposure(None, Some("B1"))]);
    let feed = aggregate("2024-03-01", &vec![source_a, source_b]);
    assert_eq!(feed, vec!["A1", "B1"]);
}

#[test]
fn failing_sources_leave_survivor_intact() {
    let source_a = SourceOutcome::Unavailable;
    let source_b = SourceOutcome::Records(vec![
        narrative("2024-03-01T13:00:00", Some("first")),
        narrative("2024-03-01T16:00:00", Some("second")),
    ]);
    let feed = aggregate("2024-03-01", &vec![source_a, source_b]);
    assert_eq!(feed, vec!["second", "first"]);
    let alone = aggregate(
        "2024-03-01",
        &vec![SourceOutcome::Records(vec![
            narrative("2024-03-01T13:00:00", Some("first")),
            narrative("2024-03-01T16:00:00", Some("second")),
        ])],
    );
    assert_eq!(feed, alone);
}

#[test]
fn unrenderable_record_keeps_its_slot_in_the_timeline() {
    let records = SourceOutcome::Records(vec![
        narrative("2024-03-01T13:00:00", Some("m1")),
        narrative("2024-03-01T14:00:00", None),
        narrative("2024-03-01T15:00:00", Some("m3")),
    ]);
    let feed = aggregate("2024-03-01", &vec![records]);
    assert_eq!(feed, vec!["m3", "Failed to render message.", "m1"]);
}

#[test]
fn invalid_date_yields_empty_feed_despite_records() {
    let records = SourceOutcome::Records(vec![narrative("2024-03-01T13:00:00", Some("m1"))]);
    assert_eq!(aggregate("2024-03-32", &vec![records]).len(), 0);
    let records = SourceOutcome::Records(vec![narrative("2024-03-01T13:00:00", Some("m1"))]);
    assert_eq!(aggregate("yesterday", &vec![records]).len(), 0);
}

#[test]
fn identical_inputs_yield_identical_feeds() {
    let make = || {
        vec![
            SourceOutcome::Records(vec![
                narrative("2024-03-01T15:00:00", Some("A1")),
                narrative("2024-03-01T13:00:00", Some("A2")),
            ]),
            SourceOutcome::Unavailable,
            SourceOutcome::Records(vec![
                exposure(None, Some("B1")),
                block("2024-03-01T14:00:00", "BL1", Some("go")),
            ]),
        ]
    };
    let first = aggregate("2024-03-01", &make());
    let second = aggregate("2024-03-01", &make());
    assert_eq!(first, second);
    assert_eq!(first, vec!["A1", "[BL1] go", "A2", "B1"]);
}

#[test]
fn empty_log_form_has_no_messages() {
    assert_eq!(get_empty_log_form().logmessages.len(), 0);
}

#[test]
fn log_form_wraps_the_aggregated_feed() {
    let outcomes = vec![SourceOutcome::Records(vec![narrative(
        "2024-03-01T15:00:00",
        Some("A1"),
    )])];
    let form = get_log_form("2024-03-01", &outcomes);
    assert_eq!(form.logmessages, vec!["A1"]);
    let form = get_log_form("03/01/2024", &outcomes);
    assert_eq!(form.logmessages.len(), 0);
}
