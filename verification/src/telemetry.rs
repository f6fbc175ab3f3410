//! Telemetry log entries: reading them from the lines of a trace log and
//! putting them in timestamp order.
use vstd::prelude::*;
use crate::text::{chars_of, trim_chars, chars_start_with, chars_contain, trim, starts_with, contains_seq};
use crate::json_fields::{
    json_has, json_u64, json_str, json_nested_str, json_nested_u64, json_nested_bool, json_has_field,
    json_u64_field, json_str_field, json_nested_str_field, json_nested_u64_field,
    json_nested_bool_field,
};

verus! {

/// One telemetry event read from a trace log.
#[derive(Debug, Clone)]
pub struct TelemetryLogEntry {
    pub timestamp: u64,
    pub severity: String,
    pub event: String,
    pub message: String,
    pub stage: Option<String>,
    pub target: Option<String>,
    pub latency_ms: Option<u32>,
    pub allowed: Option<bool>,
    pub reason: Option<String>,
}

/// The mathematical content of a [`TelemetryLogEntry`].
pub struct EntryModel {
    pub timestamp: u64,
    pub severity: Seq<char>,
    pub event: Seq<char>,
    pub message: Seq<char>,
    pub stage: Option<Seq<char>>,
    pub target: Option<Seq<char>>,
    pub latency_ms: Option<u32>,
    pub allowed: Option<bool>,
    pub reason: Option<Seq<char>>,
}

impl View for TelemetryLogEntry {
    type V = EntryModel;

    open spec fn view(&self) -> EntryModel {
        EntryModel {
            timestamp: self.timestamp,
            severity: self.severity@,
            event: self.event@,
            message: self.message@,
            stage: self.stage.deep_view(),
            target: self.target.deep_view(),
            latency_ms: self.latency_ms,
            allowed: self.allowed,
            reason: self.reason.deep_view(),
        }
    }
}

/// The fields of one JSON log line that an entry is built from, each absent
/// where the line lacks it or holds a value of another kind.
pub struct LogFields {
    pub timestamp: Option<u64>,
    pub severity: Option<String>,
    pub event: Option<String>,
    pub message: Option<String>,
    pub stage: Option<String>,
    pub target: Option<String>,
    pub latency_ms: Option<u64>,
    pub allowed: Option<bool>,
    pub reason: Option<String>,
}

/// The mathematical content of [`LogFields`].
pub struct LogFieldsModel {
    pub timestamp: Option<u64>,
    pub severity: Option<Seq<char>>,
    pub event: Option<Seq<char>>,
    pub message: Option<Seq<char>>,
    pub stage: Option<Seq<char>>,
    pub target: Option<Seq<char>>,
    pub latency_ms: Option<u64>,
    pub allowed: Option<bool>,
    pub reason: Option<Seq<char>>,
}

impl View for LogFields {
    type V = LogFieldsModel;

    open spec fn view(&self) -> LogFieldsModel {
        LogFieldsModel {
            timestamp: self.timestamp,
            severity: self.severity.deep_view(),
            event: self.event.deep_view(),
            message: self.message.deep_view(),
            stage: self.stage.deep_view(),
            target: self.target.deep_view(),
            latency_ms: self.latency_ms,
            allowed: self.allowed,
            reason: self.reason.deep_view(),
        }
    }
}

/// Why a JSON log line gave no entry.
#[derive(Debug, Clone, Copy, PartialEq, Eq, Structural)]
pub enum EntryError {
    /// The line has no `timestamp` that is a non-negative integer.
    MissingTimestamp,
}

/// The text of `o`, or `d` where it is absent.
pub open spec fn text_or(o: Option<Seq<char>>, d: Seq<char>) -> Seq<char> {
    match o {
        Some(s) => s,
        None => d,
    }
}

/// A latency in milliseconds narrowed to `u32` as `as u32` does: the low 32 bits.
pub open spec fn latency_u32(l: u64) -> u32 {
    (l % 0x1_0000_0000) as u32
}

/// The entry that `f` describes: none without a timestamp; a missing severity
/// reads `UNKNOWN`, a missing event `unknown`, a missing message is empty.
pub open spec fn entry_of_fields(f: LogFieldsModel) -> Option<EntryModel> {
    match f.timestamp {
        None => None,
        Some(ts) => Some(
            EntryModel {
                timestamp: ts,
                severity: text_or(f.severity, "UNKNOWN"@),
                event: text_or(f.event, "unknown"@),
                message: text_or(f.message, ""@),
                stage: f.stage,
                target: f.target,
                latency_ms: match f.latency_ms {
                    Some(l) => Some(latency_u32(l)),
                    None => None,
                },
                allowed: f.allowed,
                reason: f.reason,
            },
        ),
    }
}

fn string_or(o: Option<String>, d: &str) -> (r: String)
    ensures
        r@ == text_or(o.deep_view(), d@),
{
    match o {
        Some(s) => s,
        None => String::from_str(d),
    }
}

/// Builds an entry from the fields of a JSON log line.
pub fn entry_from_fields(f: LogFields) -> (r: Result<TelemetryLogEntry, EntryError>)
    ensures
        match r {
            Ok(e) => entry_of_fields(f@) == Some(e@),
            Err(err) => entry_of_fields(f@) is None && err == EntryError::MissingTimestamp,
        },
{
    let ghost fm = f@;
    let timestamp = match f.timestamp {
        Some(t) => t,
        None => {
            return Err(EntryError::MissingTimestamp);
        },
    };
    let latency_ms = match f.latency_ms {
        Some(l) => Some((l % 0x1_0000_0000u64) as u32),
        None => None,
    };
    let e = TelemetryLogEntry {
        timestamp,
        severity: string_or(f.severity, "UNKNOWN"),
        event: string_or(f.event, "unknown"),
        message: string_or(f.message, ""),
        stage: f.stage,
        target: f.target,
        latency_ms,
        allowed: f.allowed,
        reason: f.reason,
    };
    assert(entry_of_fields(fm) == Some(e@));
    Ok(e)
}

/// What the JSON readers find in the line `text`.
pub open spec fn fields_of_line(text: Seq<char>) -> LogFieldsModel {
    LogFieldsModel {
        timestamp: json_u64_field(text, "timestamp"@),
        severity: json_str_field(text, "severity"@),
        event: json_str_field(text, "event"@),
        message: json_str_field(text, "message"@),
        stage: json_nested_str_field(text, "attributes"@, "stage"@),
        target: json_nested_str_field(text, "attributes"@, "target"@),
        latency_ms: json_nested_u64_field(text, "attributes"@, "latency_ms"@),
        allowed: json_nested_bool_field(text, "attributes"@, "allowed"@),
        reason: json_nested_str_field(text, "attributes"@, "reason"@),
    }
}

/// Reads the fields of an entry from one JSON log line.
pub fn read_log_fields(line: &str) -> (r: LogFields)
    ensures
        r@ == fields_of_line(line@),
{
    LogFields {
        timestamp: json_u64(line, "timestamp"),
        severity: json_str(line, "severity"),
        event: json_str(line, "event"),
        message: json_str(line, "message"),
        stage: json_nested_str(line, "attributes", "stage"),
        target: json_nested_str(line, "attributes", "target"),
        latency_ms: json_nested_u64(line, "attributes", "latency_ms"),
        allowed: json_nested_bool(line, "attributes", "allowed"),
        reason: json_nested_str(line, "attributes", "reason"),
    }
}

/// A routing-engine decision written into the log in its own format: after
/// trimming it starts with `{"stage":` and it never mentions `"event"`.
pub open spec fn is_routing_decision_line(text: Seq<char>) -> bool {
    starts_with(trim(text), "{\"stage\":"@) && !contains_seq(text, "\"event\""@)
}

/// A line that is not read as an event at all: blank, or a routing decision.
pub open spec fn is_skipped_line(text: Seq<char>) -> bool {
    trim(text).len() == 0 || is_routing_decision_line(text)
}

/// The entry that one log line gives, if any: a line that is not skipped,
/// that is JSON with an `event` field, and whose fields make an entry.
pub open spec fn entry_of_line(text: Seq<char>) -> Option<EntryModel> {
    if is_skipped_line(text) {
        None
    } else if !json_has_field(text, "event"@) {
        None
    } else {
        entry_of_fields(fields_of_line(text))
    }
}

/// The content of an optional entry.
pub open spec fn entry_opt_view(o: Option<TelemetryLogEntry>) -> Option<EntryModel> {
    match o {
        Some(e) => Some(e@),
        None => None,
    }
}

/// The entry of a JSON log line from what was read of it: none where it has
/// no `event` field or its fields make no entry.
pub fn entry_from_json(has_event: bool, fields: LogFields) -> (r: Option<TelemetryLogEntry>)
    ensures
        entry_opt_view(r) == if has_event {
            entry_of_fields(fields@)
        } else {
            None
        },
{
    if !has_event {
        return None;
    }
    match entry_from_fields(fields) {
        Ok(e) => Some(e),
        Err(_) => None,
    }
}

/// Reads one line of a trace log.
pub fn parse_log_line(line: &str) -> (r: Option<TelemetryLogEntry>)
    ensures
        entry_opt_view(r) == entry_of_line(line@),
{
    let chars = chars_of(line);
    let trimmed = trim_chars(&chars);
    if trimmed.len() == 0 {
        return None;
    }
    let prefix = chars_of("{\"stage\":");
    let event_key = chars_of("\"event\"");
    if chars_start_with(&trimmed, &prefix) && !chars_contain(&chars, &event_key) {
        return None;
    }
    if !json_has(line, "event") {
        return None;
    }
    entry_from_json(true, read_log_fields(line))
}

/// The contents of a sequence of entries.
pub open spec fn entries_view(v: Seq<TelemetryLogEntry>) -> Seq<EntryModel> {
    Seq::new(v.len(), |i: int| v[i]@)
}

/// The texts of a sequence of lines.
pub open spec fn lines_view(v: Seq<String>) -> Seq<Seq<char>> {
    Seq::new(v.len(), |i: int| v[i]@)
}

/// The entries that `lines` give, in line order.
pub open spec fn parsed_entries(lines: Seq<Seq<char>>) -> Seq<EntryModel>
    decreases lines.len(),
{
    if lines.len() == 0 {
        Seq::empty()
    } else {
        let rest = parsed_entries(lines.drop_last());
        match entry_of_line(lines.last()) {
            Some(e) => rest.push(e),
            None => rest,
        }
    }
}

/// `e` put after every entry of `s`, counted from the end, whose timestamp is
/// greater: into a sorted `s`, after all entries with a timestamp not above its own.
pub open spec fn insert_by_timestamp(s: Seq<EntryModel>, e: EntryModel) -> Seq<EntryModel>
    decreases s.len(),
{
    if s.len() == 0 {
        seq![e]
    } else if s.last().timestamp <= e.timestamp {
        s.push(e)
    } else {
        insert_by_timestamp(s.drop_last(), e).push(s.last())
    }
}

/// `s` sorted by timestamp, entries with equal timestamps in their order in `s`.
pub open spec fn sort_by_timestamp(s: Seq<EntryModel>) -> Seq<EntryModel>
    decreases s.len(),
{
    if s.len() == 0 {
        s
    } else {
        insert_by_timestamp(sort_by_timestamp(s.drop_last()), s.last())
    }
}

/// What a trace log with these lines reads as: its entries in timestamp order.
pub open spec fn log_entries(lines: Seq<Seq<char>>) -> Seq<EntryModel> {
    sort_by_timestamp(parsed_entries(lines))
}

proof fn lemma_insert_at(s: Seq<EntryModel>, e: EntryModel, j: int)
    requires
        0 <= j <= s.len(),
        forall|k: int| j <= k < s.len() ==> s[k].timestamp > e.timestamp,
        j == 0 || s[j - 1].timestamp <= e.timestamp,
    ensures
        insert_by_timestamp(s, e) == s.insert(j, e),
    decreases s.len(),
{
    if s.len() == 0 {
        assert(s.insert(j, e) =~= seq![e]);
    } else if j == s.len() {
        assert(s.insert(j, e) =~= s.push(e));
    } else {
        lemma_insert_at(s.drop_last(), e, j);
        assert(s.drop_last().insert(j, e).push(s.last()) =~= s.insert(j, e));
    }
}

fn insert_entry(out: &mut Vec<TelemetryLogEntry>, e: TelemetryLogEntry)
    ensures
        entries_view(final(out)@) == insert_by_timestamp(entries_view(old(out)@), e@),
{
    let mut j = out.len();
    while j > 0 && out[j - 1].timestamp > e.timestamp
        invariant
            j <= out@.len(),
            forall|k: int| j <= k < out@.len() ==> out@[k].timestamp > e.timestamp,
        decreases j,
    {
        j = j - 1;
    }
    proof {
        lemma_insert_at(entries_view(out@), e@, j as int);
    }
    let ghost before = out@;
    out.insert(j, e);
    assert(entries_view(out@) =~= entries_view(before).insert(j as int, e@));
}

/// Reads the lines of a trace log: each line that gives an entry
/// contributes it, and the entries come out in timestamp order, entries with
/// equal timestamps in line order.
pub fn entries_from_lines(lines: &Vec<String>) -> (r: Vec<TelemetryLogEntry>)
    ensures
        entries_view(r@) == log_entries(lines_view(lines@)),
{
    let mut out: Vec<TelemetryLogEntry> = Vec::new();
    let n = lines.len();
    for i in 0..n
        invariant
            n == lines@.len(),
            entries_view(out@) == sort_by_timestamp(
                parsed_entries(lines_view(lines@).take(i as int)),
            ),
    {
        let ghost ls = lines_view(lines@);
        assert(ls.take(i + 1).drop_last() =~= ls.take(i as int));
        assert(ls.take(i + 1).last() == lines@[i as int]@);
        let ghost prev = parsed_entries(ls.take(i as int));
        match parse_log_line(lines[i].as_str()) {
            Some(e) => {
                assert(parsed_entries(ls.take(i + 1)) == prev.push(e@));
                assert(prev.push(e@).drop_last() =~= prev);
                insert_entry(&mut out, e);
            },
            None => {
                assert(parsed_entries(ls.take(i + 1)) == prev);
            },
        }
    }
    assert(lines_view(lines@).take(n as int) =~= lines_view(lines@));
    out
}

/// Entries sorted by timestamp, not decreasing.
pub open spec fn sorted_by_timestamp(s: Seq<EntryModel>) -> bool {
    forall|i: int, j: int| 0 <= i <= j < s.len() ==> s[i].timestamp <= s[j].timestamp
}

/// The entries of `s` whose timestamp is `t`, in their order in `s`.
pub open spec fn with_timestamp(s: Seq<EntryModel>, t: u64) -> Seq<EntryModel>
    decreases s.len(),
{
    if s.len() == 0 {
        s
    } else {
        let rest = with_timestamp(s.drop_last(), t);
        if s.last().timestamp == t {
            rest.push(s.last())
        } else {
            rest
        }
    }
}

proof fn lemma_insert_bounded(s: Seq<EntryModel>, e: EntryModel, b: u64)
    requires
        forall|k: int| 0 <= k < s.len() ==> s[k].timestamp <= b,
        e.timestamp <= b,
    ensures
        forall|k: int|
            0 <= k < insert_by_timestamp(s, e).len() ==> #[trigger] insert_by_timestamp(
                s,
                e,
            )[k].timestamp <= b,
        insert_by_timestamp(s, e).len() == s.len() + 1,
    decreases s.len(),
{
    if s.len() > 0 && s.last().timestamp > e.timestamp {
        lemma_insert_bounded(s.drop_last(), e, b);
    }
}

proof fn lemma_insert_sorted(s: Seq<EntryModel>, e: EntryModel)
    requires
        sorted_by_timestamp(s),
    ensures
        sorted_by_timestamp(insert_by_timestamp(s, e)),
        insert_by_timestamp(s, e).len() == s.len() + 1,
    decreases s.len(),
{
    if s.len() > 0 && s.last().timestamp > e.timestamp {
        let d = s.drop_last();
        lemma_insert_sorted(d, e);
        lemma_insert_bounded(d, e, s.last().timestamp);
    }
}

/// Law: what `entries_from_lines` gives is in timestamp order.
pub proof fn lemma_log_entries_sorted(lines: Seq<Seq<char>>)
    ensures
        sorted_by_timestamp(log_entries(lines)),
{
    lemma_sort_sorted(parsed_entries(lines));
}

/// Law: sorting by timestamp gives entries in timestamp order.
pub proof fn lemma_sort_sorted(s: Seq<EntryModel>)
    ensures
        sorted_by_timestamp(sort_by_timestamp(s)),
        sort_by_timestamp(s).len() == s.len(),
    decreases s.len(),
{
    if s.len() > 0 {
        lemma_sort_sorted(s.drop_last());
        lemma_insert_sorted(sort_by_timestamp(s.drop_last()), s.last());
    }
}

proof fn lemma_insert_classes(s: Seq<EntryModel>, e: EntryModel, t: u64)
    ensures
        with_timestamp(insert_by_timestamp(s, e), t) == if e.timestamp == t {
            with_timestamp(s, t).push(e)
        } else {
            with_timestamp(s, t)
        },
    decreases s.len(),
{
    if s.len() == 0 {
        assert(seq![e].drop_last() =~= s);
    } else if s.last().timestamp <= e.timestamp {
        assert(s.push(e).drop_last() =~= s);
    } else {
        let d = s.drop_last();
        lemma_insert_classes(d, e, t);
        let ins = insert_by_timestamp(d, e);
        assert(ins.push(s.last()).drop_last() =~= ins);
    }
}

/// Law (stability): sorting keeps, for every timestamp, the entries with that
/// timestamp in the order they had before.
pub proof fn lemma_sort_keeps_order_of_equal_timestamps(s: Seq<EntryModel>, t: u64)
    ensures
        with_timestamp(sort_by_timestamp(s), t) == with_timestamp(s, t),
    decreases s.len(),
{
    if s.len() > 0 {
        lemma_sort_keeps_order_of_equal_timestamps(s.drop_last(), t);
        lemma_insert_classes(sort_by_timestamp(s.drop_last()), s.last(), t);
    }
}

proof fn lemma_insert_multiset(s: Seq<EntryModel>, e: EntryModel)
    ensures
        insert_by_timestamp(s, e).to_multiset() == s.to_multiset().insert(e),
    decreases s.len(),
{
    broadcast use vstd::seq_lib::group_to_multiset_ensures;

    if s.len() == 0 {
        assert(seq![e] =~= s.push(e));
    } else if s.last().timestamp <= e.timestamp {
    } else {
        let d = s.drop_last();
        lemma_insert_multiset(d, e);
        assert(d.push(s.last()) =~= s);
        assert(insert_by_timestamp(s, e).to_multiset() =~= s.to_multiset().insert(e));
    }
}

/// Law: sorting neither loses nor adds entries.
pub proof fn lemma_sort_permutes(s: Seq<EntryModel>)
    ensures
        sort_by_timestamp(s).to_multiset() == s.to_multiset(),
    decreases s.len(),
{
    broadcast use vstd::seq_lib::group_to_multiset_ensures;

    if s.len() > 0 {
        let d = s.drop_last();
        lemma_sort_permutes(d);
        lemma_insert_multiset(sort_by_timestamp(d), s.last());
        assert(d.push(s.last()) =~= s);
    }
}

proof fn lemma_parsed_entries_filter(lines: Seq<Seq<char>>)
    ensures
        parsed_entries(lines) == lines.filter(|l: Seq<char>| entry_of_line(l) is Some).map_values(
            |l: Seq<char>| entry_of_line(l)->0,
        ),
    decreases lines.len(),
{
    reveal(Seq::filter);
    let p = |l: Seq<char>| entry_of_line(l) is Some;
    let f = |l: Seq<char>| entry_of_line(l)->0;
    if lines.len() > 0 {
        lemma_parsed_entries_filter(lines.drop_last());
        let sub = lines.drop_last().filter(p);
        if p(lines.last()) {
            assert(lines.filter(p) == sub.push(lines.last()));
            assert(sub.push(lines.last()).map_values(f) =~= sub.map_values(f).push(f(lines.last())));
        } else {
            assert(lines.filter(p) == sub);
        }
    } else {
        assert(lines.filter(p).map_values(f) =~= Seq::<EntryModel>::empty());
    }
}

/// Law: reading a log loses and invents no entry: what it gives is, up to
/// order, the entries of the lines that give one, one per such line, whatever
/// their timestamps.
pub proof fn lemma_log_entries_are_the_lines_entries(lines: Seq<Seq<char>>)
    ensures
        log_entries(lines).to_multiset() == lines.filter(
            |l: Seq<char>| entry_of_line(l) is Some,
        ).map_values(|l: Seq<char>| entry_of_line(l)->0).to_multiset(),
        log_entries(lines).len() == lines.filter(|l: Seq<char>| entry_of_line(l) is Some).len(),
{
    lemma_parsed_entries_filter(lines);
    lemma_sort_permutes(parsed_entries(lines));
    lemma_sort_sorted(parsed_entries(lines));
}

} // verus!
