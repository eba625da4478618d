use nats_stream_dump::args::DumpArgs;
use nats_stream_dump::dump::{matched_message, output_label, parse_filter, progress_plan, DumpSession, ProgressPlan};
use nats_stream_dump::filter::MessageFilter;
use nats_stream_dump::stream_reader::{Error, RawMessage};

fn event(id: u64, severity: &str) -> RawMessage {
    RawMessage {
        subject: "test.filter".to_string(),
        payload: format!("{{\"id\":{id},\"severity\":\"{severity}\"}}"),
        timestamp: None,
        sequence: id,
    }
}

fn dump_args(filter: Option<&str>) -> DumpArgs {
    DumpArgs {
        stream: "S".to_string(),
        output: None,
        count: None,
        pretty: false,
        filter: filter.map(|f| f.to_string()),
    }
}

#[test]
fn parse_filter_gives_none_without_filter() {
    assert!(parse_filter(&dump_args(None)).unwrap().is_none());
    assert!(parse_filter(&dump_args(Some("$[?@.sequence > 1]"))).unwrap().is_some());
}

#[test]
fn parse_filter_reports_invalid_expression() {
    match parse_filter(&dump_args(Some("$[?@.invalid ==="))) {
        Err(Error::Message(text)) => assert!(text.starts_with("Invalid filter expression: at position")),
        _ => panic!("expected an error"),
    }
}

#[test]
fn progress_is_hidden_on_stdout() {
    assert_eq!(progress_plan(false, 10, true), ProgressPlan::Hidden);
}

#[test]
fn progress_bar_shows_matches_with_a_filter() {
    assert_eq!(
        progress_plan(true, 10, true),
        ProgressPlan::Bar {
            total: 10,
            template: "[{bar:40}] {pos}/{len} messages ({msg}) ({per_sec})".to_string(),
            progress_chars: "=> ".to_string(),
            message: Some("0 matched".to_string()),
        }
    );
    assert_eq!(
        progress_plan(true, 3, false),
        ProgressPlan::Bar {
            total: 3,
            template: "[{bar:40}] {pos}/{len} messages ({per_sec})".to_string(),
            progress_chars: "=> ".to_string(),
            message: None,
        }
    );
    assert_eq!(matched_message(15), "15 matched");
}

#[test]
fn output_label_names_the_file_or_stdout() {
    assert_eq!(output_label(&Some("dump.json".to_string())), "dump.json");
    assert_eq!(output_label(&None), "stdout");
}

#[test]
fn session_writes_only_matching_messages_in_order() {
    let filter = MessageFilter::new("$[?@.payload.severity == 'critical']").unwrap();
    let (mut session, mut out) = DumpSession::start(Some(filter), false, "critical.json");
    let mut progress = Vec::new();
    for m in [event(1, "critical"), event(2, "info"), event(3, "critical"), event(4, "warning")] {
        let step = session.on_message(&m).unwrap();
        if let Some(text) = step.output {
            out.push_str(&text);
        }
        if let Some(p) = step.progress_message {
            progress.push(p);
        }
    }
    assert_eq!(session.handled(), 4);
    let (closing, summary) = session.finish();
    out.push_str(&closing);
    let parsed: serde_json::Value = serde_json::from_str(&out).unwrap();
    let array = parsed.as_array().unwrap();
    assert_eq!(array.len(), 2);
    assert_eq!(array[0]["payload"]["id"], 1);
    assert_eq!(array[1]["payload"]["id"], 3);
    assert_eq!(progress, vec!["1 matched".to_string(), "2 matched".to_string()]);
    assert_eq!(summary, "Wrote 2 messages to critical.json");
}

#[test]
fn session_without_filter_writes_everything() {
    let (mut session, mut out) = DumpSession::start(None, false, "stdout");
    for id in 0..3 {
        let step = session.on_message(&event(id, "info")).unwrap();
        assert!(step.progress_message.is_none());
        out.push_str(&step.output.unwrap());
    }
    let (closing, summary) = session.finish();
    out.push_str(&closing);
    let parsed: serde_json::Value = serde_json::from_str(&out).unwrap();
    assert_eq!(parsed.as_array().unwrap().len(), 3);
    assert_eq!(summary, "Wrote 3 messages to stdout");
}

#[test]
fn session_with_filter_matching_nothing_writes_empty_array() {
    let filter = MessageFilter::new("$[?@.payload.severity == 'critical']").unwrap();
    let (mut session, mut out) = DumpSession::start(Some(filter), false, "x");
    for m in [event(1, "info"), event(2, "warning")] {
        let step = session.on_message(&m).unwrap();
        assert!(step.output.is_none());
    }
    let (closing, _) = session.finish();
    out.push_str(&closing);
    assert_eq!(out, "[]");
}

#[test]
fn session_fails_on_unwritable_message() {
    let (mut session, _) = DumpSession::start(None, true, "x");
    let mut bad = event(1, "info");
    bad.payload = "not json".to_string();
    assert_eq!(
        session.on_message(&bad),
        Err(Error::Message(
            "Failed to write message: payload is not a JSON document".to_string()
        ))
    );
    assert_eq!(session.handled(), 0);
}

/// Runs a session over `messages` and returns the whole output.
fn run_session(filter: Option<&str>, pretty: bool, messages: &[RawMessage]) -> String {
    let filter = filter.map(|f| MessageFilter::new(f).unwrap());
    let (mut session, mut out) = DumpSession::start(filter, pretty, "x");
    for m in messages {
        if let Some(text) = session.on_message(m).unwrap().output {
            out.push_str(&text);
        }
    }
    out.push_str(&session.finish().0);
    out
}

#[test]
fn dump_of_two_stretches_holds_both_in_order() {
    let first = [event(1, "critical"), event(2, "info")];
    let second = [event(3, "critical"), event(4, "critical")];
    let all: Vec<RawMessage> = first.iter().chain(second.iter()).cloned().collect();
    let filter = Some("$[?@.payload.severity == 'critical']");
    let whole: serde_json::Value = serde_json::from_str(&run_session(filter, false, &all)).unwrap();
    let a: serde_json::Value = serde_json::from_str(&run_session(filter, false, &first)).unwrap();
    let b: serde_json::Value = serde_json::from_str(&run_session(filter, false, &second)).unwrap();
    let mut joined = a.as_array().unwrap().clone();
    joined.extend(b.as_array().unwrap().iter().cloned());
    assert_eq!(whole.as_array().unwrap(), &joined);
}

#[test]
fn unfiltered_dump_keeps_every_message() {
    let msgs = [event(1, "a"), event(2, "b"), event(3, "c")];
    let out: serde_json::Value = serde_json::from_str(&run_session(None, true, &msgs)).unwrap();
    let ids: Vec<u64> = out
        .as_array()
        .unwrap()
        .iter()
        .map(|m| m["sequence"].as_u64().unwrap())
        .collect();
    assert_eq!(ids, vec![1, 2, 3]);
}

#[test]
fn filter_sees_the_message_as_dumped() {
    let m = event(5, "critical");
    let single = run_session(None, false, &[m.clone()]);
    assert_eq!(
        single,
        "[{\"subject\":\"test.filter\",\"payload\":{\"id\":5,\"severity\":\"critical\"},\"sequence\":5}]"
    );
    let by_path = MessageFilter::new("$[?@.payload.id == 5 && @.subject == 'test.filter']").unwrap();
    assert!(by_path.matches(&m));
}

#[test]
fn session_decides_on_the_query_count() {
    let filter = MessageFilter::new("$[?@.payload.severity == 'critical']").unwrap();
    let (mut session, mut out) = DumpSession::start(Some(filter), false, "x");
    let skipped = session.on_counted(&event(1, "critical"), Some(0)).unwrap();
    assert!(skipped.output.is_none());
    assert!(skipped.progress_message.is_none());
    let kept = session.on_counted(&event(2, "info"), Some(2)).unwrap();
    out.push_str(&kept.output.unwrap());
    assert_eq!(kept.progress_message, Some(matched_message(1)));
    let unread = session.on_counted(&event(3, "critical"), None).unwrap();
    assert!(unread.output.is_none());
    assert_eq!(session.handled(), 3);
    let (closing, _) = session.finish();
    out.push_str(&closing);
    assert_eq!(
        out,
        "[{\"subject\":\"test.filter\",\"payload\":{\"id\":2,\"severity\":\"info\"},\"sequence\":2}]"
    );

    let (mut plain, _) = DumpSession::start(None, false, "x");
    let step = plain.on_counted(&event(4, "info"), None).unwrap();
    assert!(step.output.is_some());
    assert!(step.progress_message.is_none());
}
