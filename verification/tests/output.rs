use nats_stream_dump::output::{JsonArrayWriter, OutputError};
use nats_stream_dump::stream_reader::RawMessage;

fn make_message(seq: u64) -> RawMessage {
    RawMessage {
        subject: "test.subject".to_string(),
        payload: format!("{{\"count\":{seq}}}"),
        timestamp: Some("2026-03-30T12:00:00Z".to_string()),
        sequence: seq,
    }
}

/// Runs a writer over `messages` and returns the whole output and the summary.
fn dump(messages: &[RawMessage], pretty: bool, path: &str) -> (String, String) {
    let (mut writer, mut out) = JsonArrayWriter::new(pretty, path);
    for m in messages {
        out.push_str(&writer.write(m).unwrap());
    }
    let (closing, summary) = writer.finish();
    out.push_str(&closing);
    (out, summary)
}

#[test]
fn should_write_empty_array_when_no_messages() {
    let mut buf: Vec<u8> = Vec::new();
    let (writer, opening) = JsonArrayWriter::new(false, "test.json");
    buf.extend_from_slice(opening.as_bytes());
    let (closing, _summary) = writer.finish();
    buf.extend_from_slice(closing.as_bytes());

    let output = String::from_utf8(buf).unwrap();
    assert_eq!(output, "[]");
}

#[test]
fn should_write_single_message_as_json_array() {
    let (output, _) = dump(&[make_message(1)], false, "test.json");
    let parsed: serde_json::Value = serde_json::from_str(&output).unwrap();
    let array = parsed.as_array().unwrap();
    assert_eq!(array.len(), 1);
}

#[test]
fn should_write_multiple_messages_as_valid_json_array() {
    let (output, _) = dump(
        &[make_message(1), make_message(2), make_message(3)],
        false,
        "test.json",
    );
    let parsed: serde_json::Value = serde_json::from_str(&output).unwrap();
    let array = parsed.as_array().unwrap();
    assert_eq!(array.len(), 3);
}

#[test]
fn should_produce_indented_output_in_pretty_mode() {
    let (output, _) = dump(&[make_message(1)], true, "test.json");
    // Pretty mode should have indentation
    assert!(output.contains("  "));
    // Should still be valid JSON
    let parsed: serde_json::Value = serde_json::from_str(&output).unwrap();
    assert!(parsed.is_array());
}

#[test]
fn should_emit_summary_via_tracing_on_finish() {
    let (_, summary) = dump(&[make_message(1), make_message(2)], false, "test.json");
    assert!(summary.contains("Wrote 2 messages to test.json"));
}

#[test]
fn should_preserve_message_content_in_output() {
    let msg = RawMessage {
        subject: "my.subject".to_string(),
        payload: "{\"key\": \"value\", \"nested\": {\"a\": 1}}".to_string(),
        timestamp: Some("2026-03-30T12:00:00Z".to_string()),
        sequence: 42,
    };
    let (output, _) = dump(&[msg.clone()], false, "test.json");

    let parsed: serde_json::Value = serde_json::from_str(&output).unwrap();
    let first = &parsed.as_array().unwrap()[0];
    let read_back = RawMessage {
        subject: first["subject"].as_str().unwrap().to_string(),
        payload: first["payload"].to_string(),
        timestamp: first["timestamp"].as_str().map(|s| s.to_string()),
        sequence: first["sequence"].as_u64().unwrap(),
    };
    let expected_payload: serde_json::Value = serde_json::from_str(&msg.payload).unwrap();
    assert_eq!(read_back.subject, msg.subject);
    assert_eq!(read_back.payload, expected_payload.to_string());
    assert_eq!(read_back.timestamp, msg.timestamp);
    assert_eq!(read_back.sequence, msg.sequence);
}

#[test]
fn output_compact_message_has_fields_in_declaration_order() {
    let (output, summary) = dump(&[make_message(7)], false, "out.json");
    assert_eq!(
        output,
        "[{\"subject\":\"test.subject\",\"payload\":{\"count\":7},\"timestamp\":\"2026-03-30T12:00:00Z\",\"sequence\":7}]"
    );
    assert_eq!(summary, "Wrote 1 messages to out.json");
}

#[test]
fn output_leaves_out_a_missing_timestamp() {
    let mut m = make_message(3);
    m.timestamp = None;
    let (output, _) = dump(&[m], false, "x");
    assert_eq!(
        output,
        "[{\"subject\":\"test.subject\",\"payload\":{\"count\":3},\"sequence\":3}]"
    );
}

#[test]
fn output_separates_entries_with_commas() {
    let (output, summary) = dump(&[make_message(1), make_message(2)], false, "f");
    assert_eq!(
        output,
        "[{\"subject\":\"test.subject\",\"payload\":{\"count\":1},\"timestamp\":\"2026-03-30T12:00:00Z\",\"sequence\":1},{\"subject\":\"test.subject\",\"payload\":{\"count\":2},\"timestamp\":\"2026-03-30T12:00:00Z\",\"sequence\":2}]"
    );
    assert_eq!(summary, "Wrote 2 messages to f");
}

#[test]
fn output_pretty_layout_matches_indented_json() {
    let (output, _) = dump(&[make_message(1), make_message(2)], true, "f");
    let expected = "[\n  {\n    \"subject\": \"test.subject\",\n    \"payload\": {\n      \"count\": 1\n    },\n    \"timestamp\": \"2026-03-30T12:00:00Z\",\n    \"sequence\": 1\n  }\n,\n  {\n    \"subject\": \"test.subject\",\n    \"payload\": {\n      \"count\": 2\n    },\n    \"timestamp\": \"2026-03-30T12:00:00Z\",\n    \"sequence\": 2\n  }\n]\n";
    assert_eq!(output, expected);
    let parsed: serde_json::Value = serde_json::from_str(&output).unwrap();
    assert_eq!(parsed.as_array().unwrap().len(), 2);
}

#[test]
fn output_pretty_empty_array() {
    let (output, summary) = dump(&[], true, "stdout");
    assert_eq!(output, "[\n]\n");
    assert_eq!(summary, "Wrote 0 messages to stdout");
}

#[test]
fn output_escapes_strings_as_json() {
    let m = RawMessage {
        subject: "a\"b\\c\nd\u{1}é".to_string(),
        payload: "null".to_string(),
        timestamp: None,
        sequence: 18446744073709551615,
    };
    let (output, _) = dump(&[m], false, "x");
    assert_eq!(
        output,
        "[{\"subject\":\"a\\\"b\\\\c\\nd\\u0001é\",\"payload\":null,\"sequence\":18446744073709551615}]"
    );
}

#[test]
fn output_refuses_a_payload_that_is_no_json() {
    let (mut writer, _) = JsonArrayWriter::new(false, "x");
    let mut m = make_message(1);
    m.payload = "{not json".to_string();
    assert_eq!(writer.write(&m), Err(OutputError::PayloadNotJson));
    assert_eq!(writer.count(), 0);
    assert_eq!(OutputError::PayloadNotJson.message(), "payload is not a JSON document");
    let chunk = writer.write(&make_message(2)).unwrap();
    assert!(!chunk.starts_with(','));
    assert_eq!(writer.count(), 1);
}

#[test]
fn output_reencodes_payload_compactly() {
    let mut m = make_message(1);
    m.payload = "{ \"b\" : [1, 2] ,\"a\":true }".to_string();
    let (output, _) = dump(&[m], false, "x");
    assert!(output.contains("\"payload\":{\"a\":true,\"b\":[1,2]}"));
}

#[test]
fn output_writes_payload_floats_as_serde_json_reads_them_once() {
    let mut m = make_message(1);
    m.payload = "[0.1,2.5e-3,1e300]".to_string();
    let (output, _) = dump(&[m.clone()], false, "x");
    let once: serde_json::Value = serde_json::from_str(&m.payload).unwrap();
    assert!(output.contains(&format!("\"payload\":{once}")));
}

#[test]
fn output_does_not_depend_on_the_path() {
    let messages = [make_message(1), make_message(2), make_message(3)];
    for pretty in [false, true] {
        let (a, sa) = dump(&messages, pretty, "a.json");
        let (b, sb) = dump(&messages, pretty, "stdout");
        assert_eq!(a, b);
        assert_eq!(sa, "Wrote 3 messages to a.json");
        assert_eq!(sb, "Wrote 3 messages to stdout");
    }
}
