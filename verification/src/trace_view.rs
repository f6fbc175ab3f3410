//! The trace report: the table of telemetry events and the summary
//! statistics, as styled lines.
use vstd::prelude::*;
use crate::text::{
    decimal, pad_right, padded_right, starts_with, str_eq, str_starts_with, push_decimal,
    repeat_char, push_repeat,
};
use crate::format::{
    relative_timestamp_text, format_relative_timestamp, truncation, truncation_ok, truncate,
    can_truncate,
};
use crate::style::{
    Span, SpanModel, Cell, CellModel, Line, LineModel, Style, Color, cell, out_line, blank_line,
    plain, colored, lines_model, cells_model, push_cell, push_str_cell, push_line, push_blank,
    plain_style, color_style,
};
use crate::telemetry::{TelemetryLogEntry, EntryModel, entries_view, text_or};
use crate::sessions::{
    SessionFile, SessionModel, sessions_view, newest_first, sessions_newest_first,
    format_system_time, utc_timestamp_text_of, as_i64,
};
use crate::summary::{
    StageCompletion, StageCompletionModel, PolicyEvaluationModel, RoutingDecision,
    RoutingDecisionModel, stage_completions, policy_evaluations, routing_decisions,
    stage_completions_of, policy_evaluations_of, routing_decisions_of, stage_completions_view,
    policy_evaluations_view, routing_decisions_view, allowed_count, policy_counts,
};

verus! {

/// Bold text without a color.
pub open spec fn bold() -> Style {
    Style { color: None, bold: true }
}

fn bold_style() -> (r: Style)
    ensures
        r == bold(),
{
    Style { color: None, bold: true }
}

/// A span.
pub open spec fn span(text: Seq<char>, style: Style) -> SpanModel {
    SpanModel { text, style }
}

/// The contents of spans.
pub open spec fn spans_model(v: Seq<Span>) -> Seq<SpanModel> {
    Seq::new(v.len(), |i: int| v[i]@)
}

fn push_span(spans: &mut Vec<Span>, text: String, style: Style)
    ensures
        spans_model(final(spans)@) == spans_model(old(spans)@).push(span(text@, style)),
{
    spans.push(Span { text, style });
    assert(spans_model(spans@) =~= spans_model(old(spans)@).push(span(text@, style)));
}

/// The icon shown before a severity.
pub open spec fn severity_icon(severity: Seq<char>) -> Seq<char> {
    if severity == "INFO"@ {
        "ℹ️"@
    } else if severity == "DEBUG"@ {
        "🔍"@
    } else if severity == "WARN"@ {
        "⚠️"@
    } else if severity == "ERROR"@ {
        "❌"@
    } else {
        "•"@
    }
}

/// The color of a severity.
pub open spec fn severity_color(severity: Seq<char>) -> Color {
    if severity == "INFO"@ {
        Color::BrightGreen
    } else if severity == "DEBUG"@ {
        Color::BrightBlue
    } else if severity == "WARN"@ {
        Color::BrightYellow
    } else if severity == "ERROR"@ {
        Color::BrightRed
    } else {
        Color::White
    }
}

/// The icon of a severity and the severity in its color.
pub fn severity_display(severity: &str) -> (r: (String, Span))
    ensures
        r.0@ == severity_icon(severity@),
        r.1@ == span(severity@, colored(severity_color(severity@))),
{
    let (icon, color) = if str_eq(severity, "INFO") {
        ("ℹ️", Color::BrightGreen)
    } else if str_eq(severity, "DEBUG") {
        ("🔍", Color::BrightBlue)
    } else if str_eq(severity, "WARN") {
        ("⚠️", Color::BrightYellow)
    } else if str_eq(severity, "ERROR") {
        ("❌", Color::BrightRed)
    } else {
        ("•", Color::White)
    };
    (String::from_str(icon), Span { text: String::from_str(severity), style: color_style(color, false) })
}

/// The color of an event name.
pub open spec fn event_color(event: Seq<char>) -> Color {
    if event == "stage_complete"@ {
        Color::BrightGreen
    } else if event == "stage_start"@ {
        Color::BrightCyan
    } else if event == "policy_evaluation"@ {
        Color::BrightMagenta
    } else if event == "routing_decision"@ {
        Color::BrightBlue
    } else if event == "execution_complete"@ {
        Color::Green
    } else if event == "execution_start"@ {
        Color::Cyan
    } else {
        Color::White
    }
}

/// `display` in the color of the event `event`.
pub fn color_event(display: &str, event: &str) -> (r: Span)
    ensures
        r@ == span(display@, colored(event_color(event@))),
{
    let color = if str_eq(event, "stage_complete") {
        Color::BrightGreen
    } else if str_eq(event, "stage_start") {
        Color::BrightCyan
    } else if str_eq(event, "policy_evaluation") {
        Color::BrightMagenta
    } else if str_eq(event, "routing_decision") {
        Color::BrightBlue
    } else if str_eq(event, "execution_complete") {
        Color::Green
    } else if str_eq(event, "execution_start") {
        Color::Cyan
    } else {
        Color::White
    };
    Span { text: String::from_str(display), style: color_style(color, false) }
}

/// The color of a latency: green below 50 ms, yellow below 200 ms, red from there.
pub open spec fn latency_color(l: u32) -> Color {
    if l < 50 {
        Color::BrightGreen
    } else if l < 200 {
        Color::BrightYellow
    } else {
        Color::BrightRed
    }
}

fn latency_color_of(l: u32) -> (r: Color)
    ensures
        r == latency_color(l),
{
    if l < 50 {
        Color::BrightGreen
    } else if l < 200 {
        Color::BrightYellow
    } else {
        Color::BrightRed
    }
}

/// The color of an execution target in the event table: green for `local`,
/// blue for `cloud`, yellow for a fallback, white otherwise.
pub open spec fn table_target_color(target: Seq<char>) -> Color {
    if target == "local"@ {
        Color::BrightGreen
    } else if target == "cloud"@ {
        Color::BrightBlue
    } else if starts_with(target, "fallback"@) {
        Color::BrightYellow
    } else {
        Color::White
    }
}

/// The color of an execution target in the summary: green for `local`,
/// blue for `cloud`, white otherwise.
pub open spec fn target_color(target: Seq<char>) -> Color {
    if target == "local"@ {
        Color::BrightGreen
    } else if target == "cloud"@ {
        Color::BrightBlue
    } else {
        Color::White
    }
}

fn target_color_of(target: &str, fallback_yellow: bool) -> (r: Color)
    ensures
        r == if fallback_yellow {
            table_target_color(target@)
        } else {
            target_color(target@)
        },
{
    if str_eq(target, "local") {
        Color::BrightGreen
    } else if str_eq(target, "cloud") {
        Color::BrightBlue
    } else if fallback_yellow && str_starts_with(target, "fallback") {
        Color::BrightYellow
    } else {
        Color::White
    }
}

/// `n` followed by `ms`.
pub open spec fn millis_text(n: u32) -> Seq<char> {
    decimal(n as nat) + "ms"@
}

fn millis_string(n: u32) -> (r: String)
    ensures
        r@ == millis_text(n),
{
    let mut s = String::new();
    push_decimal(&mut s, n as u64);
    s.append("ms");
    assert(s@ =~= millis_text(n));
    s
}

/// The details of an entry: its latency, its policy verdict and its reason
/// (shortened to 30 bytes), each where present; a muted `-` where none is.
pub open spec fn details_spans(e: EntryModel) -> Seq<SpanModel> {
    let a = match e.latency_ms {
        Some(l) => seq![span(millis_text(l), colored(latency_color(l))), span(" "@, plain())],
        None => Seq::empty(),
    };
    let b = match e.allowed {
        Some(x) => seq![
            span(
                if x {
                    "Policy: ✓"@
                } else {
                    "Policy: ✗"@
                },
                colored(
                    if x {
                        Color::BrightGreen
                    } else {
                        Color::BrightRed
                    },
                ),
            ),
            span(" "@, plain()),
        ],
        None => Seq::empty(),
    };
    let c = match e.reason {
        Some(r) => seq![span("Reason: "@, plain()), span(truncation(r, 30), colored(Color::BrightBlack))],
        None => Seq::empty(),
    };
    let d = a + b + c;
    if d.len() == 0 {
        seq![span("-"@, colored(Color::BrightBlack))]
    } else {
        d
    }
}

/// The details of an entry can be shown: its reason, if any, can be cut
/// between characters at 30 bytes.
pub open spec fn details_displayable(e: EntryModel) -> bool {
    match e.reason {
        Some(r) => truncation_ok(r, 30),
        None => true,
    }
}

/// The table row of an entry can be shown: its event can be cut between
/// characters at 20 bytes, its stage (or `-`) at 25, and its details.
pub open spec fn entry_displayable(e: EntryModel) -> bool {
    &&& truncation_ok(e.event, 20)
    &&& truncation_ok(text_or(e.stage, "-"@), 25)
    &&& details_displayable(e)
}

/// Every entry's table row can be shown.
pub open spec fn table_displayable(s: Seq<EntryModel>) -> bool {
    forall|i: int| 0 <= i < s.len() ==> entry_displayable(#[trigger] s[i])
}

/// A routing decision can be listed: its reason (or `N/A`) can be cut
/// between characters at 40 bytes.
pub open spec fn routing_displayable(d: RoutingDecisionModel) -> bool {
    truncation_ok(text_or(d.reason, "N/A"@), 40)
}

/// Every routing decision among the entries can be listed.
pub open spec fn routing_list_displayable(s: Seq<EntryModel>) -> bool {
    forall|i: int|
        0 <= i < routing_decisions_of(s).len() ==> routing_displayable(
            #[trigger] routing_decisions_of(s)[i],
        )
}

/// A session report can be shown: its table rows and its routing list.
pub open spec fn entries_displayable(s: Seq<EntryModel>) -> bool {
    table_displayable(s) && routing_list_displayable(s)
}

/// Builds the details of an entry.
pub fn build_details_string(e: &TelemetryLogEntry) -> (r: Vec<Span>)
    requires
        details_displayable(e@),
    ensures
        spans_model(r@) == details_spans(e@),
{
    let mut spans: Vec<Span> = Vec::new();
    match e.latency_ms {
        Some(l) => {
            push_span(&mut spans, millis_string(l), color_style(latency_color_of(l), false));
            push_span(&mut spans, String::from_str(" "), plain_style());
        },
        None => {},
    }
    match e.allowed {
        Some(x) => {
            if x {
                push_span(&mut spans, String::from_str("Policy: ✓"), color_style(Color::BrightGreen, false));
            } else {
                push_span(&mut spans, String::from_str("Policy: ✗"), color_style(Color::BrightRed, false));
            }
            push_span(&mut spans, String::from_str(" "), plain_style());
        },
        None => {},
    }
    match &e.reason {
        Some(r) => {
            push_span(&mut spans, String::from_str("Reason: "), plain_style());
            push_span(&mut spans, truncate(r.as_str(), 30), color_style(Color::BrightBlack, false));
        },
        None => {},
    }
    if spans.len() == 0 {
        push_span(&mut spans, String::from_str("-"), color_style(Color::BrightBlack, false));
    }
    assert(spans_model(spans@) =~= details_spans(e@));
    spans
}

/// `n` copies of `c` in a color, on a line of their own.
pub open spec fn rule_line(c: char, n: nat) -> LineModel {
    out_line(seq![cell(repeat_char(c, n), colored(Color::BrightBlack))])
}

fn push_rule(lines: &mut Vec<Line>, c: char, n: u128)
    ensures
        lines_model(final(lines)@) == lines_model(old(lines)@).push(rule_line(c, n as nat)),
{
    let mut t = String::new();
    push_repeat(&mut t, c, n);
    let mut cells: Vec<Cell> = Vec::new();
    push_cell(&mut cells, t, color_style(Color::BrightBlack, false));
    assert(cells_model(cells@) =~= rule_line(c, n as nat).cells);
    push_line(lines, cells);
}

/// `n - first`, or 0 where `first` is later.
pub open spec fn since(n: u64, first: u64) -> nat {
    if n >= first {
        (n - first) as nat
    } else {
        0
    }
}

/// The table row of an entry, its time taken from the first entry's.
pub open spec fn event_row(e: EntryModel, first: u64) -> LineModel {
    let stage = text_or(e.stage, "-"@);
    let target = text_or(e.target, "-"@);
    out_line(
        seq![
            cell(pad_right(relative_timestamp_text(since(e.timestamp, first)), 12), colored(Color::BrightBlack)),
            cell(" "@, plain()),
            CellModel {
                spans: seq![
                    span(severity_icon(e.severity), plain()),
                    span(" "@, plain()),
                    span(e.severity, colored(severity_color(e.severity))),
                ],
                width: 8,
            },
            cell(" "@, plain()),
            cell(pad_right(truncation(e.event, 20), 20), colored(event_color(e.event))),
            cell(" "@, plain()),
            cell(pad_right(truncation(stage, 25), 25), colored(Color::Cyan)),
            cell(" "@, plain()),
            cell(pad_right(target, 15), colored(table_target_color(target))),
            cell(" "@, plain()),
            CellModel { spans: details_spans(e), width: 20 },
        ],
    )
}

/// The column headings of the event table, bold.
pub open spec fn event_table_heading() -> LineModel {
    out_line(
        seq![
            cell(pad_right("Timestamp"@, 12), bold()),
            cell(" "@, plain()),
            cell(pad_right("Severity"@, 8), bold()),
            cell(" "@, plain()),
            cell(pad_right("Event"@, 20), bold()),
            cell(" "@, plain()),
            cell(pad_right("Stage"@, 25), bold()),
            cell(" "@, plain()),
            cell(pad_right("Target"@, 15), bold()),
            cell(" "@, plain()),
            cell(pad_right("Details"@, 20), bold()),
        ],
    )
}

/// The timestamp of the first entry, or 0.
pub open spec fn first_timestamp_or_zero(s: Seq<EntryModel>) -> u64 {
    if s.len() == 0 {
        0
    } else {
        s[0].timestamp
    }
}

/// The event table: its title, rules, headings and one row per entry.
pub open spec fn telemetry_table_lines(s: Seq<EntryModel>) -> Seq<LineModel> {
    seq![
        out_line(seq![cell("📋 Telemetry Events:"@, Style { color: Some(Color::Cyan), bold: true })]),
        rule_line('=', 100),
        event_table_heading(),
        rule_line('-', 100),
    ] + Seq::new(s.len(), |i: int| event_row(s[i], first_timestamp_or_zero(s))) + seq![
        rule_line('=', 100),
        blank_line(),
    ]
}

fn push_bold_padded(cells: &mut Vec<Cell>, text: &str, width: u128)
    ensures
        cells_model(final(cells)@) == cells_model(old(cells)@).push(cell(pad_right(text@, width as nat), bold())),
{
    push_cell(cells, padded_right(text, width), bold_style());
}

fn event_row_line(e: &TelemetryLogEntry, first: u64) -> (r: Line)
    requires
        entry_displayable(e@),
    ensures
        r@ == event_row(e@, first),
{
    let rel = if e.timestamp >= first {
        e.timestamp - first
    } else {
        0
    };
    let mut cells: Vec<Cell> = Vec::new();
    push_cell(
        &mut cells,
        padded_right(format_relative_timestamp(rel).as_str(), 12),
        color_style(Color::BrightBlack, false),
    );
    push_str_cell(&mut cells, " ", plain_style());
    let (icon, sev) = severity_display(e.severity.as_str());
    let mut sev_spans: Vec<Span> = Vec::new();
    push_span(&mut sev_spans, icon, plain_style());
    push_span(&mut sev_spans, String::from_str(" "), plain_style());
    let ghost sev_m = sev@;
    let ghost pre = spans_model(sev_spans@);
    sev_spans.push(sev);
    assert(spans_model(sev_spans@) =~= pre.push(sev_m));
    assert(spans_model(sev_spans@) =~= seq![
        span(severity_icon(e@.severity), plain()),
        span(" "@, plain()),
        span(e@.severity, colored(severity_color(e@.severity))),
    ]);
    let sev_cell = Cell { spans: sev_spans, width: 8 };
    assert(sev_cell@.spans =~= spans_model(sev_spans@));
    let ghost before = cells_model(cells@);
    cells.push(sev_cell);
    assert(cells_model(cells@) =~= before.push(sev_cell@));
    push_str_cell(&mut cells, " ", plain_style());
    let ev = truncate(e.event.as_str(), 20);
    let ev_colored = color_event(padded_right(ev.as_str(), 20).as_str(), e.event.as_str());
    push_cell(&mut cells, ev_colored.text, ev_colored.style);
    push_str_cell(&mut cells, " ", plain_style());
    let stage: &str = match &e.stage {
        Some(s) => s.as_str(),
        None => "-",
    };
    let target: &str = match &e.target {
        Some(t) => t.as_str(),
        None => "-",
    };
    push_cell(&mut cells, padded_right(truncate(stage, 25).as_str(), 25), color_style(Color::Cyan, false));
    push_str_cell(&mut cells, " ", plain_style());
    push_cell(&mut cells, padded_right(target, 15), color_style(target_color_of(target, true), false));
    push_str_cell(&mut cells, " ", plain_style());
    let details = build_details_string(e);
    let details_cell = Cell { spans: details, width: 20 };
    assert(details_cell@.spans =~= spans_model(details@));
    let ghost before2 = cells_model(cells@);
    cells.push(details_cell);
    assert(cells_model(cells@) =~= before2.push(details_cell@));
    assert(cells_model(cells@) =~= event_row(e@, first).cells);
    crate::style::stdout_line(cells)
}

/// Shows the table of telemetry events.
pub fn display_telemetry_table(entries: &Vec<TelemetryLogEntry>) -> (r: Vec<Line>)
    requires
        table_displayable(entries_view(entries@)),
    ensures
        lines_model(r@) == telemetry_table_lines(entries_view(entries@)),
{
    let ghost s = entries_view(entries@);
    let mut lines: Vec<Line> = Vec::new();
    let mut title: Vec<Cell> = Vec::new();
    push_str_cell(&mut title, "📋 Telemetry Events:", color_style(Color::Cyan, true));
    assert(cells_model(title@) =~= seq![cell("📋 Telemetry Events:"@, Style { color: Some(Color::Cyan), bold: true })]);
    push_line(&mut lines, title);
    push_rule(&mut lines, '=', 100);
    let mut head: Vec<Cell> = Vec::new();
    push_bold_padded(&mut head, "Timestamp", 12);
    push_str_cell(&mut head, " ", plain_style());
    push_bold_padded(&mut head, "Severity", 8);
    push_str_cell(&mut head, " ", plain_style());
    push_bold_padded(&mut head, "Event", 20);
    push_str_cell(&mut head, " ", plain_style());
    push_bold_padded(&mut head, "Stage", 25);
    push_str_cell(&mut head, " ", plain_style());
    push_bold_padded(&mut head, "Target", 15);
    push_str_cell(&mut head, " ", plain_style());
    push_bold_padded(&mut head, "Details", 20);
    assert(cells_model(head@) =~= event_table_heading().cells);
    push_line(&mut lines, head);
    push_rule(&mut lines, '-', 100);
    let first: u64 = if entries.len() == 0 {
        0
    } else {
        entries[0].timestamp
    };
    let ghost top = lines_model(lines@);
    assert(top =~= seq![
        out_line(seq![cell("📋 Telemetry Events:"@, Style { color: Some(Color::Cyan), bold: true })]),
        rule_line('=', 100),
        event_table_heading(),
        rule_line('-', 100),
    ]);
    let n = entries.len();
    for i in 0..n
        invariant
            n == entries@.len(),
            s == entries_view(entries@),
            table_displayable(s),
            first == first_timestamp_or_zero(s),
            lines_model(lines@) == top + Seq::new(i as nat, |q: int| event_row(s[q], first)),
    {
        assert(entry_displayable(s[i as int]));
        crate::style::push_built(&mut lines, event_row_line(&entries[i], first));
        assert(lines_model(lines@) =~= top + Seq::new((i + 1) as nat, |q: int| event_row(s[q], first)));
    }
    push_rule(&mut lines, '=', 100);
    push_blank(&mut lines);
    assert(lines_model(lines@) =~= telemetry_table_lines(s));
    lines
}

/// Whether every entry's table row can be shown (see [`table_displayable`]);
/// where not, showing the table panics as slicing a string off a character
/// boundary does.
pub fn can_show_table(entries: &Vec<TelemetryLogEntry>) -> (r: bool)
    ensures
        r == table_displayable(entries_view(entries@)),
{
    let ghost s = entries_view(entries@);
    let n = entries.len();
    for i in 0..n
        invariant
            n == entries@.len(),
            s == entries_view(entries@),
            forall|j: int| 0 <= j < i ==> entry_displayable(#[trigger] s[j]),
    {
        let e = &entries[i];
        let stage_or_dash: &str = match &e.stage {
            Some(x) => x.as_str(),
            None => "-",
        };
        let reason_ok = match &e.reason {
            Some(x) => can_truncate(x.as_str(), 30),
            None => true,
        };
        if !(can_truncate(e.event.as_str(), 20) && can_truncate(stage_or_dash, 25) && reason_ok) {
            assert(!entry_displayable(s[i as int]));
            return false;
        }
        assert(entry_displayable(s[i as int]));
    }
    true
}

/// Whether every routing decision can be listed (see
/// [`routing_list_displayable`]); where not, listing them panics as slicing a
/// string off a character boundary does.
pub fn can_show_routing(entries: &Vec<TelemetryLogEntry>) -> (r: bool)
    ensures
        r == routing_list_displayable(entries_view(entries@)),
{
    let ds = routing_decisions(entries);
    let ghost dm = routing_decisions_view(ds@);
    let n = ds.len();
    for i in 0..n
        invariant
            n == ds@.len(),
            dm == routing_decisions_view(ds@),
            dm == routing_decisions_of(entries_view(entries@)),
            forall|j: int| 0 <= j < i ==> routing_displayable(#[trigger] dm[j]),
    {
        let reason_or_na: &str = match &ds[i].reason {
            Some(x) => x.as_str(),
            None => "N/A",
        };
        assert(ds@[i as int]@ == dm[i as int]);
        if !can_truncate(reason_or_na, 40) {
            assert(!routing_displayable(dm[i as int]));
            return false;
        }
    }
    true
}

/// Whether a session report on these entries can be shown (see
/// [`entries_displayable`]).
pub fn can_display(entries: &Vec<TelemetryLogEntry>) -> (r: bool)
    ensures
        r == entries_displayable(entries_view(entries@)),
{
    can_show_table(entries) && can_show_routing(entries)
}

fn push_text_line(lines: &mut Vec<Line>, text: &str, style: Style)
    ensures
        lines_model(final(lines)@) == lines_model(old(lines)@).push(out_line(seq![cell(text@, style)])),
{
    let mut cells: Vec<Cell> = Vec::new();
    push_str_cell(&mut cells, text, style);
    assert(cells_model(cells@) =~= seq![cell(text@, style)]);
    push_line(lines, cells);
}

/// The summary line of a completed stage: stage, target and latency.
pub open spec fn stage_completion_line(c: StageCompletionModel) -> LineModel {
    let stage = text_or(c.stage, "unknown"@);
    let target = text_or(c.target, "unknown"@);
    let latency = match c.latency_ms {
        Some(l) => millis_text(l),
        None => "N/A"@,
    };
    let latency_style = match c.latency_ms {
        Some(l) => colored(latency_color(l)),
        None => colored(Color::White),
    };
    out_line(
        seq![
            cell("  "@, plain()),
            cell("•"@, colored(Color::BrightCyan)),
            cell(" "@, plain()),
            cell(stage, colored(Color::Cyan)),
            cell(" → "@, plain()),
            cell(target, colored(target_color(target))),
            cell(" ("@, plain()),
            cell(latency, latency_style),
            cell(")"@, plain()),
        ],
    )
}

/// The stage-completion section: nothing without completions.
pub open spec fn stage_completion_lines(cs: Seq<StageCompletionModel>) -> Seq<LineModel> {
    if cs.len() == 0 {
        Seq::empty()
    } else {
        seq![out_line(seq![cell("Stage Completions:"@, bold())])] + Seq::new(
            cs.len(),
            |i: int| stage_completion_line(cs[i]),
        ) + seq![blank_line()]
    }
}

fn stage_line(c: &StageCompletion) -> (r: Line)
    ensures
        r@ == stage_completion_line(c@),
{
    let stage: &str = match &c.stage {
        Some(x) => x.as_str(),
        None => "unknown",
    };
    let target: &str = match &c.target {
        Some(x) => x.as_str(),
        None => "unknown",
    };
    let (latency, lstyle) = match c.latency_ms {
        Some(l) => (millis_string(l), color_style(latency_color_of(l), false)),
        None => (String::from_str("N/A"), color_style(Color::White, false)),
    };
    let mut cells: Vec<Cell> = Vec::new();
    push_str_cell(&mut cells, "  ", plain_style());
    push_str_cell(&mut cells, "•", color_style(Color::BrightCyan, false));
    push_str_cell(&mut cells, " ", plain_style());
    push_str_cell(&mut cells, stage, color_style(Color::Cyan, false));
    push_str_cell(&mut cells, " → ", plain_style());
    push_str_cell(&mut cells, target, color_style(target_color_of(target, false), false));
    push_str_cell(&mut cells, " (", plain_style());
    push_cell(&mut cells, latency, lstyle);
    push_str_cell(&mut cells, ")", plain_style());
    assert(cells_model(cells@) =~= stage_completion_line(c@).cells);
    crate::style::stdout_line(cells)
}

/// Shows the completed stages.
pub fn display_stage_completions(entries: &Vec<TelemetryLogEntry>) -> (r: Vec<Line>)
    ensures
        lines_model(r@) == stage_completion_lines(stage_completions_of(entries_view(entries@))),
{
    let cs = stage_completions(entries);
    let ghost cm = stage_completions_view(cs@);
    let mut lines: Vec<Line> = Vec::new();
    if cs.len() == 0 {
        assert(lines_model(lines@) =~= stage_completion_lines(cm));
        return lines;
    }
    push_text_line(&mut lines, "Stage Completions:", bold_style());
    let ghost top = lines_model(lines@);
    let n = cs.len();
    for i in 0..n
        invariant
            n == cs@.len(),
            cm == stage_completions_view(cs@),
            lines_model(lines@) == top + Seq::new(i as nat, |q: int| stage_completion_line(cm[q])),
    {
        crate::style::push_built(&mut lines, stage_line(&cs[i]));
        assert(lines_model(lines@) =~= top + Seq::new((i + 1) as nat, |q: int| stage_completion_line(cm[q])));
    }
    push_blank(&mut lines);
    assert(lines_model(lines@) =~= stage_completion_lines(cm));
    lines
}

/// The policy section: how many evaluations allowed and how many denied;
/// nothing without evaluations.
pub open spec fn policy_lines(ps: Seq<PolicyEvaluationModel>) -> Seq<LineModel> {
    if ps.len() == 0 {
        Seq::empty()
    } else {
        let a = allowed_count(ps);
        let d = (ps.len() - a) as nat;
        seq![
            out_line(seq![cell("Policy Evaluations:"@, bold())]),
            out_line(
                seq![
                    cell("  "@, plain()),
                    cell("•"@, colored(Color::BrightCyan)),
                    cell(" Allowed: "@, plain()),
                    cell(decimal(a), colored(Color::BrightGreen)),
                ],
            ),
            out_line(
                seq![
                    cell("  "@, plain()),
                    cell("•"@, colored(Color::BrightCyan)),
                    cell(" Denied: "@, plain()),
                    cell(decimal(d), colored(Color::BrightRed)),
                ],
            ),
            blank_line(),
        ]
    }
}

fn count_line(label: &str, n: usize, color: Color) -> (r: Line)
    ensures
        r@ == out_line(
            seq![
                cell("  "@, plain()),
                cell("•"@, colored(Color::BrightCyan)),
                cell(label@, plain()),
                cell(decimal(n as nat), colored(color)),
            ],
        ),
{
    let mut cells: Vec<Cell> = Vec::new();
    push_str_cell(&mut cells, "  ", plain_style());
    push_str_cell(&mut cells, "•", color_style(Color::BrightCyan, false));
    push_str_cell(&mut cells, label, plain_style());
    push_cell(&mut cells, crate::text::decimal_string(n as u64), color_style(color, false));
    assert(cells_model(cells@) =~= seq![
        cell("  "@, plain()),
        cell("•"@, colored(Color::BrightCyan)),
        cell(label@, plain()),
        cell(decimal(n as nat), colored(color)),
    ]);
    crate::style::stdout_line(cells)
}

/// Shows how many policy evaluations allowed and denied.
pub fn display_policy_evaluations(entries: &Vec<TelemetryLogEntry>) -> (r: Vec<Line>)
    ensures
        lines_model(r@) == policy_lines(policy_evaluations_of(entries_view(entries@))),
{
    let ps = policy_evaluations(entries);
    let ghost pm = policy_evaluations_view(ps@);
    let mut lines: Vec<Line> = Vec::new();
    if ps.len() == 0 {
        assert(lines_model(lines@) =~= policy_lines(pm));
        return lines;
    }
    let counts = policy_counts(&ps);
    push_text_line(&mut lines, "Policy Evaluations:", bold_style());
    crate::style::push_built(&mut lines, count_line(" Allowed: ", counts.allowed, Color::BrightGreen));
    crate::style::push_built(&mut lines, count_line(" Denied: ", counts.denied, Color::BrightRed));
    push_blank(&mut lines);
    assert(lines_model(lines@) =~= policy_lines(pm));
    lines
}

/// The summary line of a routing decision: stage, target and reason (shortened to 40 bytes).
pub open spec fn routing_line(d: RoutingDecisionModel) -> LineModel {
    let stage = text_or(d.stage, "unknown"@);
    let target = text_or(d.target, "unknown"@);
    let reason = text_or(d.reason, "N/A"@);
    out_line(
        seq![
            cell("  "@, plain()),
            cell("•"@, colored(Color::BrightCyan)),
            cell(" "@, plain()),
            cell(stage, colored(Color::Cyan)),
            cell(" → "@, plain()),
            cell(target, colored(target_color(target))),
            cell(" ("@, plain()),
            cell(truncation(reason, 40), colored(Color::BrightBlack)),
            cell(")"@, plain()),
        ],
    )
}

/// The routing section: nothing without routing decisions.
pub open spec fn routing_lines(ds: Seq<RoutingDecisionModel>) -> Seq<LineModel> {
    if ds.len() == 0 {
        Seq::empty()
    } else {
        seq![out_line(seq![cell("Routing Decisions:"@, bold())])] + Seq::new(
            ds.len(),
            |i: int| routing_line(ds[i]),
        ) + seq![blank_line()]
    }
}

fn routing_decision_line(d: &RoutingDecision) -> (r: Line)
    requires
        truncation_ok(text_or(d@.reason, "N/A"@), 40),
    ensures
        r@ == routing_line(d@),
{
    let stage: &str = match &d.stage {
        Some(x) => x.as_str(),
        None => "unknown",
    };
    let target: &str = match &d.target {
        Some(x) => x.as_str(),
        None => "unknown",
    };
    let reason: &str = match &d.reason {
        Some(x) => x.as_str(),
        None => "N/A",
    };
    let mut cells: Vec<Cell> = Vec::new();
    push_str_cell(&mut cells, "  ", plain_style());
    push_str_cell(&mut cells, "•", color_style(Color::BrightCyan, false));
    push_str_cell(&mut cells, " ", plain_style());
    push_str_cell(&mut cells, stage, color_style(Color::Cyan, false));
    push_str_cell(&mut cells, " → ", plain_style());
    push_str_cell(&mut cells, target, color_style(target_color_of(target, false), false));
    push_str_cell(&mut cells, " (", plain_style());
    push_cell(&mut cells, truncate(reason, 40), color_style(Color::BrightBlack, false));
    push_str_cell(&mut cells, ")", plain_style());
    assert(cells_model(cells@) =~= routing_line(d@).cells);
    crate::style::stdout_line(cells)
}

/// Shows the routing decisions.
pub fn display_routing_decisions(entries: &Vec<TelemetryLogEntry>) -> (r: Vec<Line>)
    requires
        routing_list_displayable(entries_view(entries@)),
    ensures
        lines_model(r@) == routing_lines(routing_decisions_of(entries_view(entries@))),
{
    let ds = routing_decisions(entries);
    let ghost dm = routing_decisions_view(ds@);
    let mut lines: Vec<Line> = Vec::new();
    if ds.len() == 0 {
        assert(lines_model(lines@) =~= routing_lines(dm));
        return lines;
    }
    push_text_line(&mut lines, "Routing Decisions:", bold_style());
    let ghost top = lines_model(lines@);
    let n = ds.len();
    for i in 0..n
        invariant
            n == ds@.len(),
            dm == routing_decisions_view(ds@),
            dm == routing_decisions_of(entries_view(entries@)),
            routing_list_displayable(entries_view(entries@)),
            lines_model(lines@) == top + Seq::new(i as nat, |q: int| routing_line(dm[q])),
    {
        assert(ds@[i as int]@ == dm[i as int]);
        assert(routing_displayable(dm[i as int]));
        crate::style::push_built(&mut lines, routing_decision_line(&ds[i]));
        assert(lines_model(lines@) =~= top + Seq::new((i + 1) as nat, |q: int| routing_line(dm[q])));
    }
    push_blank(&mut lines);
    assert(lines_model(lines@) =~= routing_lines(dm));
    lines
}

/// The summary statistics: the title, the three sections, and the event count.
pub open spec fn summary_lines(s: Seq<EntryModel>) -> Seq<LineModel> {
    seq![
        out_line(seq![cell("📊 Summary Statistics:"@, Style { color: Some(Color::Cyan), bold: true })]),
        rule_line('=', 60),
        blank_line(),
    ] + stage_completion_lines(stage_completions_of(s)) + policy_lines(policy_evaluations_of(s))
        + routing_lines(routing_decisions_of(s)) + seq![
        out_line(
            seq![
                cell("Total Events:"@, bold()),
                cell(" "@, plain()),
                cell(decimal(s.len()), colored(Color::BrightCyan)),
            ],
        ),
    ]
}

/// Shows the summary statistics of a session.
pub fn display_summary(entries: &Vec<TelemetryLogEntry>) -> (r: Vec<Line>)
    requires
        routing_list_displayable(entries_view(entries@)),
    ensures
        lines_model(r@) == summary_lines(entries_view(entries@)),
{
    let ghost s = entries_view(entries@);
    let mut lines: Vec<Line> = Vec::new();
    push_text_line(&mut lines, "📊 Summary Statistics:", color_style(Color::Cyan, true));
    push_rule(&mut lines, '=', 60);
    push_blank(&mut lines);
    crate::style::append_lines(&mut lines, display_stage_completions(entries));
    crate::style::append_lines(&mut lines, display_policy_evaluations(entries));
    crate::style::append_lines(&mut lines, display_routing_decisions(entries));
    let mut cells: Vec<Cell> = Vec::new();
    push_str_cell(&mut cells, "Total Events:", bold_style());
    push_str_cell(&mut cells, " ", plain_style());
    push_cell(&mut cells, crate::text::decimal_string(entries.len() as u64), color_style(Color::BrightCyan, false));
    assert(cells_model(cells@) =~= seq![
        cell("Total Events:"@, bold()),
        cell(" "@, plain()),
        cell(decimal(s.len()), colored(Color::BrightCyan)),
    ]);
    push_line(&mut lines, cells);
    assert(lines_model(lines@) =~= summary_lines(s));
    lines
}


/// The banner of the trace command: its title and a rule of 60 `=`.
pub open spec fn trace_banner_lines() -> Seq<LineModel> {
    seq![
        out_line(seq![cell("📊 Xybrid Trace Analyzer"@, plain())]),
        out_line(seq![cell(repeat_char('=', 60), plain())]),
        blank_line(),
    ]
}

/// Prints the banner of the trace command.
pub fn trace_banner() -> (r: Vec<Line>)
    ensures
        lines_model(r@) == trace_banner_lines(),
{
    let mut lines: Vec<Line> = Vec::new();
    push_text_line(&mut lines, "📊 Xybrid Trace Analyzer", plain_style());
    let mut rule = String::new();
    push_repeat(&mut rule, '=', 60);
    let mut cells: Vec<Cell> = Vec::new();
    push_cell(&mut cells, rule, plain_style());
    assert(cells_model(cells@) =~= seq![cell(repeat_char('=', 60), plain())]);
    push_line(&mut lines, cells);
    push_blank(&mut lines);
    assert(lines_model(lines@) =~= trace_banner_lines());
    lines
}

/// The first lines of analysing a session: which session is being loaded.
pub open spec fn session_loading_lines(session_id: Seq<char>) -> Seq<LineModel> {
    seq![
        out_line(seq![cell("🔍 Loading telemetry for session: "@ + session_id, plain())]),
        blank_line(),
    ]
}

/// Says which session is being loaded.
pub fn session_loading(session_id: &str) -> (r: Vec<Line>)
    ensures
        lines_model(r@) == session_loading_lines(session_id@),
{
    let mut lines: Vec<Line> = Vec::new();
    let mut t = String::from_str("🔍 Loading telemetry for session: ");
    t.append(session_id);
    let mut cells: Vec<Cell> = Vec::new();
    push_cell(&mut cells, t, plain_style());
    assert(cells_model(cells@) =~= seq![cell("🔍 Loading telemetry for session: "@ + session_id@, plain())]);
    push_line(&mut lines, cells);
    push_blank(&mut lines);
    assert(lines_model(lines@) =~= session_loading_lines(session_id@));
    lines
}

/// What analysing a session prints once its log is read: a loading line,
/// then a warning where the log has no entries, else the event table and
/// the summary.
pub open spec fn session_report_lines(session_id: Seq<char>, s: Seq<EntryModel>) -> Seq<LineModel> {
    let head = session_loading_lines(session_id);
    if s.len() == 0 {
        head + seq![out_line(seq![cell("⚠️  No telemetry entries found in session."@, plain())])]
    } else {
        head + telemetry_table_lines(s) + summary_lines(s)
    }
}

/// The report on a session's entries.
pub fn session_report(session_id: &str, entries: &Vec<TelemetryLogEntry>) -> (r: Vec<Line>)
    requires
        entries_displayable(entries_view(entries@)),
    ensures
        lines_model(r@) == session_report_lines(session_id@, entries_view(entries@)),
{
    let mut lines = session_loading(session_id);
    if entries.len() == 0 {
        push_text_line(&mut lines, "⚠️  No telemetry entries found in session.", plain_style());
        assert(lines_model(lines@) =~= session_report_lines(session_id@, entries_view(entries@)));
        return lines;
    }
    crate::style::append_lines(&mut lines, display_telemetry_table(entries));
    crate::style::append_lines(&mut lines, display_summary(entries));
    assert(lines_model(lines@) =~= session_report_lines(session_id@, entries_view(entries@)));
    lines
}

/// Whole seconds after the Unix epoch of a time given in nanoseconds from it;
/// none for a time before the epoch.
pub open spec fn epoch_seconds(nanos: i128) -> Option<u64> {
    if nanos >= 0 {
        Some((nanos / 1_000_000_000) as u64)
    } else {
        None
    }
}

/// The text of a modification time.
pub open spec fn modified_text(nanos: i128) -> Seq<char> {
    match epoch_seconds(nanos) {
        None => "unknown"@,
        Some(secs) => match utc_timestamp_text_of(as_i64(secs)) {
            Some(t) => t,
            None => "unknown"@,
        },
    }
}

/// The line of a session in the list.
pub open spec fn session_list_line(m: SessionModel) -> LineModel {
    out_line(
        seq![
            cell("  • "@ + m.id + " (last modified: "@ + modified_text(m.modified_nanos) + ")"@, plain()),
        ],
    )
}

/// The list of sessions: a note where there is none; else the sessions,
/// newest first, and how to analyse one.
pub open spec fn session_list_lines(s: Seq<SessionModel>) -> Seq<LineModel> {
    if s.len() == 0 {
        seq![
            out_line(seq![cell("ℹ️  No sessions found."@, plain())]),
            out_line(seq![cell("   Sessions will be created when pipelines are executed."@, plain())]),
        ]
    } else {
        let sorted = newest_first(s);
        seq![
            out_line(seq![cell("📋 Available Sessions:"@, plain())]),
            out_line(seq![cell(repeat_char('=', 60), plain())]),
            blank_line(),
        ] + Seq::new(sorted.len(), |i: int| session_list_line(sorted[i])) + seq![
            blank_line(),
            out_line(seq![cell("Usage: xybrid trace --session <session-id>"@, plain())]),
        ]
    }
}

fn session_line(f: &SessionFile) -> (r: Line)
    ensures
        r@ == session_list_line(f@),
{
    let secs: Option<u64> = if f.modified_nanos >= 0 {
        Some(#[verifier::truncate] ((f.modified_nanos / 1_000_000_000) as u64))
    } else {
        None
    };
    let mut t = String::from_str("  • ");
    t.append(f.id.as_str());
    t.append(" (last modified: ");
    t.append(format_system_time(secs).as_str());
    t.append(")");
    let mut cells: Vec<Cell> = Vec::new();
    push_cell(&mut cells, t, plain_style());
    assert(cells_model(cells@) =~= session_list_line(f@).cells);
    crate::style::stdout_line(cells)
}

/// Lists the sessions, newest first.
pub fn list_sessions(sessions: Vec<SessionFile>) -> (r: Vec<Line>)
    ensures
        lines_model(r@) == session_list_lines(sessions_view(sessions@)),
{
    let ghost s = sessions_view(sessions@);
    let mut lines: Vec<Line> = Vec::new();
    if sessions.len() == 0 {
        push_text_line(&mut lines, "ℹ️  No sessions found.", plain_style());
        push_text_line(&mut lines, "   Sessions will be created when pipelines are executed.", plain_style());
        assert(lines_model(lines@) =~= session_list_lines(s));
        return lines;
    }
    let sorted = sessions_newest_first(sessions);
    let ghost sm = sessions_view(sorted@);
    push_text_line(&mut lines, "📋 Available Sessions:", plain_style());
    let mut rule = String::new();
    push_repeat(&mut rule, '=', 60);
    let mut cells: Vec<Cell> = Vec::new();
    push_cell(&mut cells, rule, plain_style());
    assert(cells_model(cells@) =~= seq![cell(repeat_char('=', 60), plain())]);
    push_line(&mut lines, cells);
    push_blank(&mut lines);
    let ghost top = lines_model(lines@);
    let n = sorted.len();
    for i in 0..n
        invariant
            n == sorted@.len(),
            sm == sessions_view(sorted@),
            lines_model(lines@) == top + Seq::new(i as nat, |q: int| session_list_line(sm[q])),
    {
        crate::style::push_built(&mut lines, session_line(&sorted[i]));
        assert(lines_model(lines@) =~= top + Seq::new((i + 1) as nat, |q: int| session_list_line(sm[q])));
    }
    push_blank(&mut lines);
    push_text_line(&mut lines, "Usage: xybrid trace --session <session-id>", plain_style());
    assert(lines_model(lines@) =~= session_list_lines(s));
    lines
}

/// What listing sessions prints where the traces directory is missing.
pub open spec fn no_traces_directory_lines(path: Seq<char>) -> Seq<LineModel> {
    seq![
        out_line(seq![cell("ℹ️  No traces directory found at: "@ + path, plain())]),
        out_line(seq![cell("   Sessions will be created when pipelines are executed."@, plain())]),
    ]
}

/// Says that there is no traces directory at `path`.
pub fn no_traces_directory(path: &str) -> (r: Vec<Line>)
    ensures
        lines_model(r@) == no_traces_directory_lines(path@),
{
    let mut t = String::from_str("ℹ️  No traces directory found at: ");
    t.append(path);
    let mut cells: Vec<Cell> = Vec::new();
    push_cell(&mut cells, t, plain_style());
    assert(cells_model(cells@) =~= seq![cell("ℹ️  No traces directory found at: "@ + path@, plain())]);
    let mut lines: Vec<Line> = Vec::new();
    push_line(&mut lines, cells);
    push_text_line(&mut lines, "   Sessions will be created when pipelines are executed.", plain_style());
    assert(lines_model(lines@) =~= no_traces_directory_lines(path@));
    lines
}

/// The error of a session whose log is missing: its name and where it was looked for.
pub fn session_not_found_message(session_id: &str, log_path: &str) -> (r: String)
    ensures
        r@ == "Session '"@ + session_id@ + "' not found.\n  Looked in: "@ + log_path@,
{
    let mut t = String::from_str("Session '");
    t.append(session_id);
    t.append("' not found.\n  Looked in: ");
    t.append(log_path);
    t
}

/// What the trace command prints once it has written the summary to `path`.
pub open spec fn export_done_lines(path: Seq<char>) -> Seq<LineModel> {
    seq![out_line(seq![cell("💾 Trace summary exported to: "@ + path, plain())]), blank_line()]
}

/// Says where the trace summary was exported.
pub fn export_done(path: &str) -> (r: Vec<Line>)
    ensures
        lines_model(r@) == export_done_lines(path@),
{
    let mut t = String::from_str("💾 Trace summary exported to: ");
    t.append(path);
    let mut cells: Vec<Cell> = Vec::new();
    push_cell(&mut cells, t, plain_style());
    assert(cells_model(cells@) =~= seq![cell("💾 Trace summary exported to: "@ + path@, plain())]);
    let mut lines: Vec<Line> = Vec::new();
    push_line(&mut lines, cells);
    push_blank(&mut lines);
    assert(lines_model(lines@) =~= export_done_lines(path@));
    lines
}

/// Law: the event table has a line per entry between its six fixed lines,
/// and row `i` shows, from the left, the time since the first entry, the
/// event (shortened to 20 bytes), the stage or `-` (25 bytes), and the target
/// or `-`.
pub proof fn lemma_table_row_fields(s: Seq<EntryModel>, i: int)
    requires
        0 <= i < s.len(),
    ensures
        telemetry_table_lines(s).len() == s.len() + 6,
        telemetry_table_lines(s)[4 + i].cells[0] == cell(
            pad_right(
                relative_timestamp_text(
                    if s[i].timestamp >= s[0].timestamp {
                        (s[i].timestamp - s[0].timestamp) as nat
                    } else {
                        0
                    },
                ),
                12,
            ),
            colored(Color::BrightBlack),
        ),
        telemetry_table_lines(s)[4 + i].cells[2].spans[2].text == s[i].severity,
        telemetry_table_lines(s)[4 + i].cells[10].spans == details_spans(s[i]),
        telemetry_table_lines(s)[4 + i].cells[4].spans[0].text == pad_right(truncation(s[i].event, 20), 20),
        telemetry_table_lines(s)[4 + i].cells[6].spans[0].text == pad_right(
            truncation(
                match s[i].stage {
                    Some(x) => x,
                    None => "-"@,
                },
                25,
            ),
            25,
        ),
        telemetry_table_lines(s)[4 + i].cells[8].spans[0].text == pad_right(
            match s[i].target {
                Some(x) => x,
                None => "-"@,
            },
            15,
        ),
{
}

/// Law: a session modified at `n` nanoseconds after the epoch is listed with
/// the UTC time of the whole second `n` falls in; one modified before the
/// epoch, with `unknown`.
pub proof fn lemma_session_line_time(m: SessionModel, secs: u64)
    ensures
        0 <= secs * 1_000_000_000 <= m.modified_nanos < secs * 1_000_000_000 + 1_000_000_000
            ==> session_list_line(m).cells == seq![
            cell(
                "  • "@ + m.id + " (last modified: "@ + match utc_timestamp_text_of(secs as i64) {
                    Some(t) => t,
                    None => "unknown"@,
                } + ")"@,
                plain(),
            ),
        ],
        m.modified_nanos < 0 ==> session_list_line(m).cells == seq![
            cell("  • "@ + m.id + " (last modified: unknown)"@, plain()),
        ],
{
    reveal_strlit(" (last modified: unknown)");
    reveal_strlit(" (last modified: ");
    reveal_strlit("unknown");
    reveal_strlit(")");
    let n = m.modified_nanos;
    if 0 <= secs * 1_000_000_000 <= n < secs * 1_000_000_000 + 1_000_000_000 {
        assert(n / 1_000_000_000 == secs) by (nonlinear_arith)
            requires
                0 <= secs * 1_000_000_000 <= n < secs * 1_000_000_000 + 1_000_000_000,
        ;
        assert(epoch_seconds(n) == Some(secs));
    }
    if n < 0 {
        assert("  • "@ + m.id + " (last modified: "@ + "unknown"@ + ")"@ =~= "  • "@ + m.id
            + " (last modified: unknown)"@);
    }
}

/// Law: the details of an entry start with its latency (`Nms`, green below
/// 50, yellow below 200, red from there) where it has one, else with its
/// verdict where it has one; they end with its reason cut to 30 bytes, where
/// it has one; an entry with none of the three shows a muted `-` alone.
pub proof fn lemma_details_content(e: EntryModel)
    ensures
        details_spans(e).len() >= 1,
        e.latency_ms is Some ==> details_spans(e)[0] == span(
            decimal(e.latency_ms->0 as nat) + "ms"@,
            colored(
                if e.latency_ms->0 < 50 {
                    Color::BrightGreen
                } else if e.latency_ms->0 < 200 {
                    Color::BrightYellow
                } else {
                    Color::BrightRed
                },
            ),
        ),
        e.latency_ms is None && e.allowed is Some ==> details_spans(e)[0] == span(
            if e.allowed->0 {
                "Policy: ✓"@
            } else {
                "Policy: ✗"@
            },
            colored(
                if e.allowed->0 {
                    Color::BrightGreen
                } else {
                    Color::BrightRed
                },
            ),
        ),
        e.reason is Some ==> details_spans(e).last() == span(
            truncation(e.reason->0, 30),
            colored(Color::BrightBlack),
        ),
        e.latency_ms is None && e.allowed is None && e.reason is None ==> details_spans(e) == seq![
            span("-"@, colored(Color::BrightBlack)),
        ],
{
}

/// Law: the policy section counts, as allowed, the evaluations whose verdict
/// is `Some(true)` and, as denied, all the others.
pub proof fn lemma_policy_lines_counts(ps: Seq<PolicyEvaluationModel>)
    ensures
        ps.len() == 0 ==> policy_lines(ps).len() == 0,
        ps.len() > 0 ==> policy_lines(ps).len() == 4 && policy_lines(ps)[1].cells[3].spans[0].text
            == decimal(ps.filter(|p: PolicyEvaluationModel| p.allowed == Some(true)).len())
            && policy_lines(ps)[2].cells[3].spans[0].text == decimal(
            ps.filter(|p: PolicyEvaluationModel| p.allowed != Some(true)).len(),
        ),
{
    crate::summary::lemma_allowed_count_counts(ps);
}

/// Law: a stage-completion line shows the stage, the target and the latency
/// (`Nms`, or `N/A`), `unknown` for a missing stage or target; a routing line
/// shows the stage, the target and the reason cut to 40 bytes (`N/A` where
/// there is none).
pub proof fn lemma_summary_line_fields(c: StageCompletionModel, d: RoutingDecisionModel)
    ensures
        stage_completion_line(c).cells[3].spans[0].text == text_or(c.stage, "unknown"@),
        stage_completion_line(c).cells[5].spans[0].text == text_or(c.target, "unknown"@),
        stage_completion_line(c).cells[7].spans[0].text == match c.latency_ms {
            Some(l) => decimal(l as nat) + "ms"@,
            None => "N/A"@,
        },
        routing_line(d).cells[3].spans[0].text == text_or(d.stage, "unknown"@),
        routing_line(d).cells[5].spans[0].text == text_or(d.target, "unknown"@),
        routing_line(d).cells[7].spans[0].text == truncation(text_or(d.reason, "N/A"@), 40),
{
}

/// Law: the summary ends with the number of events, and lists as many
/// sessions as there are, each once, newest first.
pub proof fn lemma_summary_total_and_session_list(s: Seq<EntryModel>, ss: Seq<SessionModel>)
    ensures
        summary_lines(s).last().cells[2].spans[0].text == decimal(s.len()),
        ss.len() > 0 ==> session_list_lines(ss).len() == ss.len() + 5,
        forall|k: int|
            0 <= k < ss.len() ==> session_list_lines(ss)[3 + k] == session_list_line(
                #[trigger] newest_first(ss)[k],
            ),
        forall|i: int, j: int|
            0 <= i <= j < ss.len() ==> newest_first(ss)[i].modified_nanos
                >= newest_first(ss)[j].modified_nanos,
        newest_first(ss).to_multiset() == ss.to_multiset(),
{
    crate::sessions::lemma_newest_first_sorted(ss);
}

} // verus!
