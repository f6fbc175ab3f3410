use xybrid_cli::format::{can_truncate, format_relative_timestamp, truncate};
use xybrid_cli::sessions::{
    collect_sessions, format_system_time, latest_session, session_file_name,
    session_id_from_file_name, sessions_newest_first, timestamp_text_or_unknown, DirEntryInfo,
    SessionFile,
};
use xybrid_cli::text::{decimal_string, padded_right, zero_padded};

#[test]
fn relative_timestamp_below_a_minute() {
    assert_eq!(format_relative_timestamp(0), "0.000s");
    assert_eq!(format_relative_timestamp(1234), "1.234s");
    assert_eq!(format_relative_timestamp(59_999), "59.999s");
}

#[test]
fn relative_timestamp_minutes() {
    assert_eq!(format_relative_timestamp(60_000), "01:00.000");
    assert_eq!(format_relative_timestamp(61_001), "01:01.001");
    assert_eq!(format_relative_timestamp(3_599_999), "59:59.999");
}

#[test]
fn relative_timestamp_hours() {
    assert_eq!(format_relative_timestamp(3_600_000), "01:00:00.000");
    assert_eq!(format_relative_timestamp(3_723_004), "01:02:03.004");
    assert_eq!(format_relative_timestamp(360_000_000), "100:00:00.000");
}

#[test]
fn truncate_keeps_short_text() {
    assert_eq!(truncate("hello", 10), "hello");
    assert_eq!(truncate("hello", 5), "hello");
    assert_eq!(truncate("", 0), "");
}

#[test]
fn truncate_cuts_long_text_with_dots() {
    assert_eq!(truncate("hello world", 8), "hello...");
    assert_eq!(truncate("stage_complete_with_suffix", 20), "stage_complete_wi...");
    assert_eq!(truncate("abcdef", 2), "ab");
    assert_eq!(truncate("abcdef", 0), "");
    assert_eq!(truncate("abcd", 3), "...");
}

#[test]
fn truncate_result_fits() {
    for max in 0..12usize {
        let r = truncate("a fairly long piece of text", max);
        assert!(r.len() <= max);
    }
}

#[test]
fn truncate_counts_bytes_of_multibyte_text() {
    assert!(can_truncate("héllo wörld", 4));
    assert_eq!(truncate("héllo wörld", 4), "h...");
    assert!(!can_truncate("éééé", 4));
    assert!(!can_truncate("éééé", 1));
    assert!(can_truncate("éééé", 2));
    assert_eq!(truncate("éééé", 2), "é");
    assert!(can_truncate("éééé", 8));
    assert_eq!(truncate("éééé", 8), "éééé");
    assert!(can_truncate("éééé", 5));
    assert_eq!(truncate("éééé", 5), "é...");
}

#[test]
fn session_ids_come_from_log_files() {
    assert_eq!(session_id_from_file_name("abc.log"), Some("abc".to_string()));
    assert_eq!(session_id_from_file_name("a.b.log"), Some("a.b".to_string()));
    assert_eq!(session_id_from_file_name(".log"), None);
    assert_eq!(session_id_from_file_name("x.txt"), None);
    assert_eq!(session_id_from_file_name("log"), None);
    assert_eq!(session_id_from_file_name("x.log.bak"), None);
    assert_eq!(session_id_from_file_name("x."), None);
    assert_eq!(session_id_from_file_name("x.LOG"), None);
}

#[test]
fn session_file_name_round_trip() {
    for id in ["s1", "2024-01-01-run", "a.b", "é"] {
        let name = session_file_name(id);
        assert_eq!(name, format!("{}.log", id));
        assert_eq!(session_id_from_file_name(&name), Some(id.to_string()));
    }
}

fn entry(name: &str, is_file: bool, modified: Option<i128>) -> DirEntryInfo {
    DirEntryInfo { file_name: name.to_string(), is_file, modified_nanos: modified }
}

#[test]
fn collect_sessions_keeps_readable_log_files() {
    let entries = vec![
        entry("a.log", true, Some(10)),
        entry("b.txt", true, Some(20)),
        entry("c.log", false, Some(30)),
        entry("d.log", true, None),
        entry("e.log", true, Some(-5)),
    ];
    let s = collect_sessions(&entries);
    let ids: Vec<(&str, i128)> = s.iter().map(|f| (f.id.as_str(), f.modified_nanos)).collect();
    assert_eq!(ids, vec![("a", 10), ("e", -5)]);
}

fn session(id: &str, modified: i128) -> SessionFile {
    SessionFile { id: id.to_string(), modified_nanos: modified }
}

#[test]
fn sessions_sort_newest_first_and_stable() {
    let sorted = sessions_newest_first(vec![
        session("old", 1),
        session("new", 9),
        session("mid1", 5),
        session("mid2", 5),
    ]);
    let ids: Vec<&str> = sorted.iter().map(|f| f.id.as_str()).collect();
    assert_eq!(ids, vec!["new", "mid1", "mid2", "old"]);
}

#[test]
fn latest_session_is_first_newest() {
    assert_eq!(latest_session(&vec![]), None);
    let v = vec![session("a", 3), session("b", 7), session("c", 7), session("d", 2)];
    assert_eq!(latest_session(&v), Some("b".to_string()));
    let first = sessions_newest_first(v);
    assert_eq!(first[0].id, "b");
}

#[test]
fn system_time_formats_in_utc() {
    assert_eq!(format_system_time(Some(0)), "1970-01-01 00:00:00 UTC");
    assert_eq!(format_system_time(Some(1_431_648_000)), "2015-05-15 00:00:00 UTC");
    assert_eq!(format_system_time(Some(86_399)), "1970-01-01 23:59:59 UTC");
    assert_eq!(format_system_time(None), "unknown");
}

#[test]
fn system_time_out_of_range_is_unknown() {
    assert_eq!(format_system_time(Some(i64::MAX as u64)), "unknown");
}

#[test]
fn number_text() {
    assert_eq!(decimal_string(0), "0");
    assert_eq!(decimal_string(1234567890), "1234567890");
    assert_eq!(zero_padded(7, 2), "07");
    assert_eq!(zero_padded(123, 2), "123");
    assert_eq!(zero_padded(5, 3), "005");
    assert_eq!(padded_right("ab", 5), "ab   ");
    assert_eq!(padded_right("abcdef", 3), "abcdef");
    assert_eq!(padded_right("é", 3), "é  ");
}


#[test]
fn unformatted_time_is_unknown() {
    assert_eq!(timestamp_text_or_unknown(None), "unknown");
    assert_eq!(timestamp_text_or_unknown(Some("2015-05-15 00:00:00 UTC".to_string())), "2015-05-15 00:00:00 UTC");
}

fn read_back(t: &str) -> u64 {
    let num = |s: &str| s.parse::<u64>().unwrap();
    if let Some(rest) = t.strip_suffix('s') {
        let (s, m) = rest.split_once('.').unwrap();
        num(s) * 1000 + num(m)
    } else {
        let (hms, m) = t.split_once('.').unwrap();
        let parts: Vec<&str> = hms.split(':').collect();
        let (h, mi, s) = if parts.len() == 3 {
            (num(parts[0]), num(parts[1]), num(parts[2]))
        } else {
            (0, num(parts[0]), num(parts[1]))
        };
        h * 3_600_000 + mi * 60_000 + s * 1000 + num(m)
    }
}

#[test]
fn relative_timestamp_reads_back() {
    let mut seen = std::collections::HashSet::new();
    for ts in [0u64, 1, 999, 1000, 59_999, 60_000, 61_001, 3_599_999, 3_600_000, 3_723_004, 86_400_000, 360_000_001, u64::MAX] {
        let t = format_relative_timestamp(ts);
        assert_eq!(read_back(&t), ts);
        assert!(seen.insert(t));
    }
}
