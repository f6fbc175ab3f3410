use xybrid_cli::cache_view::{
    cache_status_rows, clear_cache_done, clear_cache_intro, list_cache, show_cache_status,
    CacheListing, CachedModel,
};
use xybrid_cli::sessions::SessionFile;
use xybrid_cli::style::{Color, Line, Style};
use xybrid_cli::telemetry::TelemetryLogEntry;
use xybrid_cli::trace_view::{
    build_details_string, can_display, can_show_routing, can_show_table, color_event, display_policy_evaluations,
    display_routing_decisions, display_stage_completions, display_summary,
    display_telemetry_table, export_done, list_sessions, no_traces_directory, session_report,
    session_not_found_message, severity_display, trace_banner,
};
use xybrid_cli::ui::{
    accent, brand, brand_with_version, bullet, dim, err, error, footer, header, hint, kv, kv_accent,
    ok, panel, secondary, section, sub, success, value, warn, warning, Table,
};

fn line_text(l: &Line) -> String {
    let mut out = String::new();
    for c in &l.cells {
        let mut s = String::new();
        for sp in &c.spans {
            s.push_str(&sp.text);
        }
        let n = s.chars().count();
        if c.width > n {
            s.push_str(&" ".repeat(c.width - n));
        }
        out.push_str(&s);
    }
    out
}

fn texts(lines: &[Line]) -> Vec<String> {
    lines.iter().map(line_text).collect()
}

fn rgb(r: u8, g: u8, b: u8, bold: bool) -> Style {
    Style { color: Some(Color::Rgb(r, g, b)), bold }
}

#[test]
fn brand_spans() {
    let a = accent("kokoro");
    assert_eq!(a.text, "kokoro");
    assert_eq!(a.style, rgb(120, 180, 255, true));
    assert_eq!(dim("p").style, rgb(120, 120, 130, false));
    assert_eq!(value("3").style, rgb(100, 220, 220, false));
    assert_eq!(secondary("s").style, rgb(180, 140, 255, false));
    assert_eq!(success("s").style, rgb(80, 220, 140, true));
    assert_eq!(warn("w").style, rgb(240, 190, 60, false));
    assert_eq!(error("e").text, "e");
    assert_eq!(error("e").style, rgb(240, 80, 80, true));
}

#[test]
fn status_lines() {
    assert_eq!(texts(&ok("done")), vec!["  ✔ done"]);
    assert_eq!(texts(&warning("careful")), vec!["  ! careful"]);
    assert_eq!(texts(&hint("try this")), vec!["  › try this"]);
    let e = err("broken");
    assert_eq!(texts(&e), vec!["  ✖ broken"]);
    assert!(e[0].to_stderr);
    assert!(!ok("x")[0].to_stderr);
    assert_eq!(e[0].cells[1].spans[0].style, rgb(240, 80, 80, true));
}

#[test]
fn key_value_lines() {
    assert_eq!(texts(&kv("Directory", "/tmp/x")), vec!["  Directory        /tmp/x"]);
    assert_eq!(
        texts(&kv("A very long key name", "v")),
        vec!["  A very long key name v"]
    );
    for key in ["Id", "Model", "Sixteen chars ok"] {
        let t = texts(&kv(key, "#"));
        assert_eq!(t[0].chars().position(|c| c == '#'), Some(19));
    }
    let l = kv_accent("Model", "kokoro");
    assert_eq!(l[0].cells[3].spans[0].style, rgb(120, 180, 255, true));
}

#[test]
fn bullet_sub_footer() {
    assert_eq!(texts(&bullet("kokoro", "tts")), vec!["  ▸ kokoro  tts"]);
    assert_eq!(texts(&sub("detail")), vec!["      detail"]);
    assert_eq!(texts(&footer("3 models")), vec!["", "  3 models", ""]);
}

#[test]
fn header_rule_is_four_narrower_than_terminal() {
    assert_eq!(
        texts(&header("Model Cache", 10)),
        vec!["".to_string(), "  xybrid · Model Cache".to_string(), format!("  {}", "─".repeat(6))]
    );
    assert_eq!(texts(&header("T", 3))[2], "  ");
}

#[test]
fn section_trail_widths() {
    assert_eq!(
        texts(&section("Text", 80)),
        vec!["".to_string(), format!("  ── Text {}", "─".repeat(68))]
    );
    assert_eq!(texts(&section("Text", 10))[1], format!("  ── Text {}", "─".repeat(4)));
}

#[test]
fn panel_frames_widest_line() {
    let lines = vec!["ab".to_string(), "abcd".to_string()];
    assert_eq!(
        texts(&panel(&lines)),
        vec!["  ╭──────╮", "  │ ab   │", "  │ abcd │", "  ╰──────╯"]
    );
}

#[test]
fn panel_measures_visible_width() {
    let lines = vec!["\u{1b}[31mab\u{1b}[0m".to_string(), "abc".to_string()];
    let t = texts(&panel(&lines));
    assert_eq!(t[0], "  ╭─────╮");
    assert_eq!(t[1], "  │ \u{1b}[31mab\u{1b}[0m  │");
    assert_eq!(t[2], "  │ abc │");
}

#[test]
fn panel_aligns_multibyte_rows() {
    let lines = vec![
        "kokoro-82m".to_string(),
        "Task: text-to-speech".to_string(),
        "Size: 328 MB · Cached".to_string(),
    ];
    let t = texts(&panel(&lines));
    assert_eq!(t[0], format!("  ╭{}╮", "─".repeat(23)));
    assert_eq!(t[3], "  │ Size: 328 MB · Cached │");
    let widths: Vec<usize> = t.iter().map(|l| l.chars().count()).collect();
    assert!(widths.iter().all(|w| *w == widths[0]));
}

#[test]
fn empty_panel() {
    assert_eq!(texts(&panel(&vec![])), vec!["  ╭──╮", "  ╰──╯"]);
}

#[test]
fn table_aligns_columns() {
    let mut t = Table::new(vec!["Model", "Size"]);
    t.row(vec!["kokoro-82m", "328 MB"]);
    t.row(vec!["x", "1 KB", "extra"]);
    assert_eq!(
        texts(&t.print()),
        vec![
            "  Model       Size    ",
            "  ────────────────────",
            "  kokoro-82m  328 MB  ",
            "  x           1 KB    extra  ",
        ]
    );
}

#[test]
fn table_without_rows() {
    let t = Table::new(vec!["A", "BB"]);
    assert_eq!(texts(&t.print()), vec!["  A  BB  ", "  ───────"]);
}

#[test]
fn wordmark_rows() {
    let b = brand();
    assert_eq!(b.len(), 7);
    assert_eq!(line_text(&b[0]), "");
    assert_eq!(line_text(&b[1]), "                 ___        __    ___");
    let first = &b[1].cells[16];
    assert_eq!(first.spans[0].text, "_");
    assert_eq!(first.spans[0].style, Style { color: Some(Color::Ramp(15, 34)), bold: true });
    let shadow = &b[1].cells[18];
    assert_eq!(shadow.spans[0].text, "_");
    assert_eq!(shadow.spans[0].style, rgb(45, 42, 55, false));
    let v = brand_with_version("1.2.3");
    assert_eq!(v.len(), 8);
    assert_eq!(line_text(&v[7]), "  v1.2.3");
}

fn entry(ts: u64, sev: &str, event: &str) -> TelemetryLogEntry {
    TelemetryLogEntry {
        timestamp: ts,
        severity: sev.to_string(),
        event: event.to_string(),
        message: String::new(),
        stage: None,
        target: None,
        latency_ms: None,
        allowed: None,
        reason: None,
    }
}

#[test]
fn severity_icons_and_colors() {
    let (icon, s) = severity_display("INFO");
    assert_eq!(icon, "ℹ️");
    assert_eq!(s.style.color, Some(Color::BrightGreen));
    assert_eq!(severity_display("DEBUG").0, "🔍");
    assert_eq!(severity_display("WARN").1.style.color, Some(Color::BrightYellow));
    assert_eq!(severity_display("ERROR").0, "❌");
    let (icon, s) = severity_display("TRACE");
    assert_eq!(icon, "•");
    assert_eq!(s.style.color, Some(Color::White));
}

#[test]
fn event_colors() {
    assert_eq!(color_event("x", "stage_complete").style.color, Some(Color::BrightGreen));
    assert_eq!(color_event("x", "stage_start").style.color, Some(Color::BrightCyan));
    assert_eq!(color_event("x", "policy_evaluation").style.color, Some(Color::BrightMagenta));
    assert_eq!(color_event("x", "routing_decision").style.color, Some(Color::BrightBlue));
    assert_eq!(color_event("x", "execution_complete").style.color, Some(Color::Green));
    assert_eq!(color_event("x", "execution_start").style.color, Some(Color::Cyan));
    assert_eq!(color_event("shown", "other").text, "shown");
    assert_eq!(color_event("x", "other").style.color, Some(Color::White));
}

#[test]
fn details_of_an_entry() {
    let mut e = entry(1, "INFO", "x");
    let d = build_details_string(&e);
    assert_eq!(d.len(), 1);
    assert_eq!(d[0].text, "-");
    assert_eq!(d[0].style.color, Some(Color::BrightBlack));
    e.latency_ms = Some(120);
    e.allowed = Some(false);
    e.reason = Some("a reason that is rather longer than thirty bytes".to_string());
    let d = build_details_string(&e);
    let texts: Vec<&str> = d.iter().map(|s| s.text.as_str()).collect();
    assert_eq!(
        texts,
        vec!["120ms", " ", "Policy: ✗", " ", "Reason: ", "a reason that is rather lon..."]
    );
    assert_eq!(d[0].style.color, Some(Color::BrightYellow));
    assert_eq!(d[2].style.color, Some(Color::BrightRed));
    e.latency_ms = Some(10);
    assert_eq!(build_details_string(&e)[0].style.color, Some(Color::BrightGreen));
    e.latency_ms = Some(200);
    assert_eq!(build_details_string(&e)[0].style.color, Some(Color::BrightRed));
}

#[test]
fn telemetry_table_rows() {
    let mut a = entry(1000, "INFO", "stage_complete");
    a.stage = Some("asr".to_string());
    a.target = Some("fallback-cloud".to_string());
    a.latency_ms = Some(42);
    let b = entry(62_500, "ERROR", "a_really_long_event_name_here");
    let entries = vec![a, b];
    assert!(can_display(&entries));
    let lines = display_telemetry_table(&entries);
    assert_eq!(lines.len(), 8);
    let t = texts(&lines);
    assert_eq!(t[0], "📋 Telemetry Events:");
    assert_eq!(t[1], "=".repeat(100));
    assert_eq!(
        t[2],
        "Timestamp    Severity Event                Stage                     Target          Details             "
    );
    assert_eq!(t[3], "-".repeat(100));
    assert_eq!(
        t[4],
        "0.000s       ℹ️ INFO  stage_complete       asr                       fallback-cloud  42ms                "
    );
    assert_eq!(
        t[5],
        "01:01.500    ❌ ERROR  a_really_long_eve... -                         -               -                   "
    );
    assert_eq!(lines[4].cells[8].spans[0].style.color, Some(Color::BrightYellow));
    assert_eq!(t[6], "=".repeat(100));
    assert_eq!(t[7], "");
}

#[test]
fn entries_that_cannot_be_shown() {
    let e = entry(1, "INFO", "ééééééééééé");
    assert!(!can_display(&vec![e]));
    let mut e = entry(1, "INFO", "ok");
    e.reason = Some("é".repeat(20));
    assert!(!can_display(&vec![e]));
}

#[test]
fn only_the_cut_texts_need_char_boundaries() {
    let mut d = entry(1, "INFO", &format!("{}é{}", "a".repeat(16), "b".repeat(4)));
    assert_eq!(build_details_string(&d)[0].text, "-");
    d.reason = Some("r".to_string());
    assert_eq!(build_details_string(&d)[1].text, "r");

    let mut p = entry(1, "INFO", "policy_evaluation");
    p.reason = Some(format!("{}é{}", "a".repeat(36), "b".repeat(5)));
    let entries = vec![p];
    assert!(can_show_table(&entries));
    assert!(can_show_routing(&entries));
    assert!(can_display(&entries));
    assert_eq!(display_telemetry_table(&entries).len(), 7);
    assert_eq!(texts(&display_summary(&entries)).len(), 3 + 4 + 1);

    let mut r = entry(1, "INFO", "routing_decision");
    r.reason = Some(format!("{}é{}", "a".repeat(36), "b".repeat(3)));
    let bad_event = entry(2, "INFO", &"é".repeat(11));
    let entries = vec![r, bad_event];
    assert!(!can_show_routing(&entries));
    assert!(!can_show_table(&entries));
    let mut r = entry(1, "INFO", "routing_decision");
    r.reason = Some(format!("{}é", "a".repeat(39)));
    let entries = vec![r, entry(2, "INFO", &"é".repeat(11))];
    assert!(can_show_routing(&entries));
    assert_eq!(
        texts(&display_routing_decisions(&entries)),
        vec![
            "Routing Decisions:".to_string(),
            format!("  • unknown → unknown ({}...)", "a".repeat(37)),
            String::new()
        ]
    );
}

#[test]
fn summary_sections() {
    let mut a = entry(1, "INFO", "stage_complete");
    a.stage = Some("asr".to_string());
    a.target = Some("local".to_string());
    a.latency_ms = Some(30);
    let b = entry(2, "INFO", "stage_complete");
    let mut p1 = entry(3, "INFO", "policy_evaluation");
    p1.allowed = Some(true);
    let p2 = entry(4, "INFO", "policy_evaluation");
    let mut r = entry(5, "INFO", "routing_decision");
    r.stage = Some("llm".to_string());
    r.target = Some("cloud".to_string());
    let entries = vec![a, b, p1, p2, r];
    assert_eq!(
        texts(&display_stage_completions(&entries)),
        vec!["Stage Completions:", "  • asr → local (30ms)", "  • unknown → unknown (N/A)", ""]
    );
    assert_eq!(
        texts(&display_policy_evaluations(&entries)),
        vec!["Policy Evaluations:", "  • Allowed: 1", "  • Denied: 1", ""]
    );
    assert_eq!(
        texts(&display_routing_decisions(&entries)),
        vec!["Routing Decisions:", "  • llm → cloud (N/A)", ""]
    );
    let s = texts(&display_summary(&entries));
    assert_eq!(s[0], "📊 Summary Statistics:");
    assert_eq!(s[1], "=".repeat(60));
    assert_eq!(s.len(), 3 + 4 + 4 + 3 + 1);
    assert_eq!(s[s.len() - 1], "Total Events: 5");
}

#[test]
fn summary_without_sections() {
    let entries = vec![entry(1, "INFO", "other")];
    assert!(display_stage_completions(&entries).is_empty());
    assert!(display_policy_evaluations(&entries).is_empty());
    assert!(display_routing_decisions(&entries).is_empty());
    assert_eq!(texts(&display_summary(&entries)).len(), 4);
}

#[test]
fn session_report_without_entries() {
    assert_eq!(
        texts(&session_report("s1", &vec![])),
        vec!["🔍 Loading telemetry for session: s1", "", "⚠️  No telemetry entries found in session."]
    );
    let r = session_report("s1", &vec![entry(1, "INFO", "x")]);
    assert_eq!(r.len(), 2 + 8 - 1 + 4);
}

#[test]
fn banner_and_messages() {
    assert_eq!(texts(&trace_banner()), vec!["📊 Xybrid Trace Analyzer".to_string(), "=".repeat(60), String::new()]);
    assert_eq!(
        session_not_found_message("abc", "/home/u/.xybrid/traces/abc.log"),
        "Session 'abc' not found.\n  Looked in: /home/u/.xybrid/traces/abc.log"
    );
    assert_eq!(
        texts(&export_done("out.json")),
        vec!["💾 Trace summary exported to: out.json", ""]
    );
    assert_eq!(
        texts(&no_traces_directory("/t")),
        vec![
            "ℹ️  No traces directory found at: /t",
            "   Sessions will be created when pipelines are executed."
        ]
    );
}

#[test]
fn session_list_newest_first() {
    assert_eq!(
        texts(&list_sessions(vec![])),
        vec!["ℹ️  No sessions found.", "   Sessions will be created when pipelines are executed."]
    );
    let s = vec![
        SessionFile { id: "old".to_string(), modified_nanos: 0 },
        SessionFile { id: "new".to_string(), modified_nanos: 1_431_648_000_000_000_000 },
        SessionFile { id: "pre".to_string(), modified_nanos: -1 },
    ];
    assert_eq!(
        texts(&list_sessions(s)),
        vec![
            "📋 Available Sessions:".to_string(),
            "=".repeat(60),
            String::new(),
            "  • new (last modified: 2015-05-15 00:00:00 UTC)".to_string(),
            "  • old (last modified: 1970-01-01 00:00:00 UTC)".to_string(),
            "  • pre (last modified: unknown)".to_string(),
            String::new(),
            "Usage: xybrid trace --session <session-id>".to_string(),
        ]
    );
}

#[test]
fn cache_listing_empty() {
    let l = CacheListing {
        directory: "/c".to_string(),
        model_count: 0,
        directory_exists: true,
        models: vec![],
        total_size: "0 B".to_string(),
    };
    assert_eq!(
        texts(&list_cache(&l, 10)),
        vec![
            "".to_string(),
            "  xybrid · Model Cache".to_string(),
            format!("  {}", "─".repeat(6)),
            "  Directory        /c".to_string(),
            "".to_string(),
            "  › Cache is empty.".to_string(),
            "  › Use 'xybrid fetch --model <id>' to download models.".to_string(),
        ]
    );
}

#[test]
fn cache_listing_with_models() {
    let l = CacheListing {
        directory: "/c".to_string(),
        model_count: 2,
        directory_exists: true,
        models: vec![
            CachedModel { name: "kokoro".to_string(), size: "328 MB".to_string() },
            CachedModel { name: "mnist".to_string(), size: "26 KB".to_string() },
        ],
        total_size: "328 MB".to_string(),
    };
    let t = texts(&list_cache(&l, 8));
    assert_eq!(
        t[5..].to_vec(),
        vec![
            "  Model   Size    ",
            "  ────────────────",
            "  kokoro  328 MB  ",
            "  mnist   26 KB   ",
            "",
            "  2 models · 328 MB",
            "",
        ]
    );
    let gone = CacheListing { directory_exists: false, ..l };
    let t = texts(&list_cache(&gone, 8));
    assert_eq!(t[5..].to_vec(), vec!["", "  2 models · 328 MB", ""]);
}

#[test]
fn cache_status_screen() {
    let rows = cache_status_rows(3, "1.2 GB", "/c");
    let plain: Vec<String> = rows
        .iter()
        .map(|r| r.iter().map(|s| s.text.clone()).collect::<Vec<_>>().join(""))
        .collect();
    assert_eq!(plain, vec!["Models  3", "Size    1.2 GB", "Path    /c"]);
    assert_eq!(rows[0][2].style, rgb(100, 220, 220, false));
    assert_eq!(rows[2][2].style, rgb(120, 120, 130, false));
    let t = texts(&show_cache_status(&plain, false, 6));
    assert_eq!(
        t,
        vec![
            "",
            "  xybrid · Cache Status",
            "  ──",
            "  ╭────────────────╮",
            "  │ Models  3      │",
            "  │ Size    1.2 GB │",
            "  │ Path    /c     │",
            "  ╰────────────────╯",
            "",
            "  › Cache directory does not exist yet.",
            "  › It will be created when you download your first model.",
            "",
        ]
    );
    assert_eq!(texts(&show_cache_status(&plain, true, 6)).len(), 9);
}

#[test]
fn clearing_the_cache() {
    assert_eq!(
        texts(&clear_cache_intro(&Some("kokoro".to_string()), 4)),
        vec!["", "  xybrid · Clear Cache · kokoro", "  "]
    );
    assert_eq!(
        texts(&clear_cache_intro(&None, 4)),
        vec![
            "",
            "  xybrid · Clear All Cache",
            "  ",
            "",
            "  ! This will delete ALL cached models.",
            "  › Press Enter to continue or Ctrl+C to cancel...",
        ]
    );
    assert_eq!(
        texts(&clear_cache_done(&Some("kokoro".to_string()))),
        vec!["  ✔ Cache cleared for model 'kokoro'", ""]
    );
    assert_eq!(texts(&clear_cache_done(&None)), vec!["  ✔ All cached models cleared", ""]);
}
