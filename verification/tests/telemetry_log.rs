use xybrid_cli::summary::{
    event_counts, policy_counts, policy_evaluations, routing_decisions, severity_counts,
    stage_completions, total_latency_ms, trace_summary,
};
use xybrid_cli::telemetry::{
    entries_from_lines, entry_from_fields, entry_from_json, parse_log_line, read_log_fields, EntryError, LogFields,
    TelemetryLogEntry,
};

const STAGE_LINE: &str = r#"{"timestamp":1000,"severity":"INFO","event":"stage_complete","message":"done","attributes":{"stage":"asr","target":"local","latency_ms":42}}"#;

#[test]
fn parse_full_line() {
    let e = parse_log_line(STAGE_LINE).expect("entry");
    assert_eq!(e.timestamp, 1000);
    assert_eq!(e.severity, "INFO");
    assert_eq!(e.event, "stage_complete");
    assert_eq!(e.message, "done");
    assert_eq!(e.stage.as_deref(), Some("asr"));
    assert_eq!(e.target.as_deref(), Some("local"));
    assert_eq!(e.latency_ms, Some(42));
    assert_eq!(e.allowed, None);
    assert_eq!(e.reason, None);
}

#[test]
fn parse_policy_line() {
    let line = r#"{"timestamp":7,"severity":"WARN","event":"policy_evaluation","attributes":{"stage":"llm","allowed":false,"reason":"pii detected"}}"#;
    let e = parse_log_line(line).expect("entry");
    assert_eq!(e.allowed, Some(false));
    assert_eq!(e.reason.as_deref(), Some("pii detected"));
    assert_eq!(e.message, "");
}

#[test]
fn parse_fills_defaults() {
    let e = parse_log_line(r#"{"timestamp":5,"event":"x"}"#).expect("entry");
    assert_eq!(e.severity, "UNKNOWN");
    assert_eq!(e.message, "");
    assert_eq!(e.stage, None);
    let e = parse_log_line(r#"{"timestamp":5,"event":3}"#).expect("entry");
    assert_eq!(e.event, "unknown");
}

#[test]
fn parse_narrows_latency_to_u32() {
    let e = parse_log_line(r#"{"timestamp":1,"event":"e","attributes":{"latency_ms":4294967297}}"#)
        .expect("entry");
    assert_eq!(e.latency_ms, Some(1));
}

#[test]
fn parse_skips_lines_without_entry() {
    assert!(parse_log_line("").is_none());
    assert!(parse_log_line("   \t ").is_none());
    assert!(parse_log_line("not json").is_none());
    assert!(parse_log_line(r#"{"timestamp":1}"#).is_none());
    assert!(parse_log_line(r#"{"event":"x"}"#).is_none());
    assert!(parse_log_line(r#"{"event":"x","timestamp":-5}"#).is_none());
    assert!(parse_log_line(r#"{"event":"x","timestamp":1.5}"#).is_none());
    assert!(parse_log_line(r#"[1,2]"#).is_none());
}

#[test]
fn parse_skips_routing_engine_lines() {
    assert!(parse_log_line(r#"  {"stage":"asr","target":"cloud","timestamp":1}"#).is_none());
    let e = parse_log_line(r#"{"stage":"asr","event":"routing_decision","timestamp":3}"#)
        .expect("a stage line with an event is read");
    assert_eq!(e.event, "routing_decision");
    assert_eq!(e.stage, None);
}

#[test]
fn fields_without_timestamp_are_an_error() {
    let f = read_log_fields(r#"{"event":"x","severity":"INFO"}"#);
    assert_eq!(f.timestamp, None);
    assert_eq!(f.severity.as_deref(), Some("INFO"));
    match entry_from_fields(f) {
        Err(e) => assert_eq!(e, EntryError::MissingTimestamp),
        Ok(_) => panic!("an entry without timestamp"),
    }
}

#[test]
fn entry_from_fields_builds_entry() {
    let f = LogFields {
        timestamp: Some(9),
        severity: None,
        event: Some("stage_start".to_string()),
        message: None,
        stage: Some("tts".to_string()),
        target: None,
        latency_ms: Some(5_000_000_000),
        allowed: Some(true),
        reason: None,
    };
    let e = entry_from_fields(f).expect("entry");
    assert_eq!(e.timestamp, 9);
    assert_eq!(e.severity, "UNKNOWN");
    assert_eq!(e.event, "stage_start");
    assert_eq!(e.latency_ms, Some((5_000_000_000u64 % (1u64 << 32)) as u32));
    assert_eq!(e.allowed, Some(true));
}

fn line(ts: u64, event: &str, tag: &str) -> String {
    format!(r#"{{"timestamp":{},"event":"{}","message":"{}"}}"#, ts, event, tag)
}

#[test]
fn entries_sorted_by_timestamp_stably() {
    let lines = vec![
        line(30, "a", "first30"),
        String::new(),
        line(10, "b", "first10"),
        r#"{"stage":"x","target":"local"}"#.to_string(),
        line(30, "c", "second30"),
        "garbage".to_string(),
        line(20, "d", "only20"),
        line(10, "e", "second10"),
    ];
    let entries = entries_from_lines(&lines);
    let got: Vec<(u64, &str)> = entries.iter().map(|e| (e.timestamp, e.message.as_str())).collect();
    assert_eq!(
        got,
        vec![(10, "first10"), (10, "second10"), (20, "only20"), (30, "first30"), (30, "second30")]
    );
}

#[test]
fn entries_from_no_lines() {
    assert!(entries_from_lines(&vec![]).is_empty());
}

fn e(ts: u64, sev: &str, event: &str) -> TelemetryLogEntry {
    TelemetryLogEntry {
        timestamp: ts,
        severity: sev.to_string(),
        event: event.to_string(),
        message: String::new(),
        stage: None,
        target: None,
        latency_ms: None,
        allowed: None,
        reason: None,
    }
}

fn sample() -> Vec<TelemetryLogEntry> {
    let mut a = e(1, "INFO", "stage_complete");
    a.stage = Some("asr".to_string());
    a.target = Some("local".to_string());
    a.latency_ms = Some(40);
    let mut b = e(2, "WARN", "policy_evaluation");
    b.allowed = Some(true);
    let mut c = e(3, "INFO", "policy_evaluation");
    c.allowed = Some(false);
    let d = e(4, "DEBUG", "policy_evaluation");
    let mut r = e(5, "INFO", "routing_decision");
    r.stage = Some("llm".to_string());
    r.target = Some("cloud".to_string());
    r.reason = Some("battery low".to_string());
    let mut f = e(6, "INFO", "stage_complete");
    f.latency_ms = Some(250);
    vec![a, b, c, d, r, f]
}

#[test]
fn records_of_each_kind() {
    let s = sample();
    let sc = stage_completions(&s);
    assert_eq!(sc.len(), 2);
    assert_eq!(sc[0].stage.as_deref(), Some("asr"));
    assert_eq!(sc[1].latency_ms, Some(250));
    let pe = policy_evaluations(&s);
    assert_eq!(pe.len(), 3);
    let rd = routing_decisions(&s);
    assert_eq!(rd.len(), 1);
    assert_eq!(rd[0].reason.as_deref(), Some("battery low"));
}

#[test]
fn policy_counts_partition() {
    let pe = policy_evaluations(&sample());
    let c = policy_counts(&pe);
    assert_eq!(c.allowed, 1);
    assert_eq!(c.denied, 2);
    assert_eq!(c.allowed + c.denied, pe.len());
}

#[test]
fn tallies_count_each_value_once() {
    let s = sample();
    let sev: Vec<(String, usize)> =
        severity_counts(&s).into_iter().map(|k| (k.key, k.count)).collect();
    assert_eq!(
        sev,
        vec![("INFO".to_string(), 4), ("WARN".to_string(), 1), ("DEBUG".to_string(), 1)]
    );
    let ev = event_counts(&s);
    let total: usize = ev.iter().map(|k| k.count).sum();
    assert_eq!(total, s.len());
    assert_eq!(ev.len(), 3);
}

#[test]
fn total_latency_sums_or_overflows() {
    assert_eq!(total_latency_ms(&sample()), Some(290));
    assert_eq!(total_latency_ms(&vec![]), Some(0));
    let mut a = e(1, "INFO", "x");
    a.latency_ms = Some(u32::MAX);
    let mut b = e(2, "INFO", "x");
    b.latency_ms = Some(1);
    assert_eq!(total_latency_ms(&vec![a, b]), None);
}

#[test]
fn trace_summary_of_sample() {
    let s = sample();
    let t = trace_summary(&s);
    assert_eq!(t.total_events, 6);
    assert_eq!(t.total_latency_ms, 290);
    assert_eq!(t.first_timestamp, Some(1));
    assert_eq!(t.last_timestamp, Some(6));
    assert_eq!(t.stage_completions.len(), 2);
    assert_eq!(t.policy_evaluations.len(), 3);
    assert_eq!(t.routing_decisions.len(), 1);
    assert_eq!(t.severity_counts.len(), 3);
    assert_eq!(t.event_counts.len(), 3);
    let empty = trace_summary(&vec![]);
    assert_eq!(empty.first_timestamp, None);
    assert_eq!(empty.last_timestamp, None);
}

#[test]
fn entry_from_json_needs_an_event() {
    let f = read_log_fields(STAGE_LINE);
    assert!(entry_from_json(false, f).is_none());
    let e = entry_from_json(true, read_log_fields(STAGE_LINE)).expect("entry");
    assert_eq!(e.stage.as_deref(), Some("asr"));
    assert!(entry_from_json(true, read_log_fields(r#"{"event":"x"}"#)).is_none());
}
