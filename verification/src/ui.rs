//! Terminal UI building blocks: the brand palette, the wordmark, headers,
//! panels, key-value rows, status lines, tables and footers, each given as
//! the styled lines it writes.
use vstd::prelude::*;
use crate::text::{
    pad_right, padded_right, repeat_seq, repeat_char, push_repeat_str, push_repeat, push_char,
    byte_len, byte_len_wide, chars_of,
};
use crate::style::{
    Span, SpanModel, Cell, CellModel, Line, LineModel, Style, Color, cell, out_line, blank_line,
    plain, rgb, rgb_bold, lines_model, cells_model, push_cell, push_str_cell, push_line,
    push_blank, plain_style, rgb_style,
};

verus! {

// ── Brand colors ─────────────────────────────────────────────

/// Accent color for primary highlights (model names, commands).
pub fn accent(s: &str) -> (r: Span)
    ensures
        r@ == (SpanModel { text: s@, style: rgb_bold(120, 180, 255) }),
{
    Span { text: String::from_str(s), style: rgb_style(120, 180, 255, true) }
}

/// Secondary accent for labels and categories.
pub fn secondary(s: &str) -> (r: Span)
    ensures
        r@ == (SpanModel { text: s@, style: rgb(180, 140, 255) }),
{
    Span { text: String::from_str(s), style: rgb_style(180, 140, 255, false) }
}

/// Muted text for paths, hashes, timestamps, secondary info.
pub fn dim(s: &str) -> (r: Span)
    ensures
        r@ == (SpanModel { text: s@, style: rgb(120, 120, 130) }),
{
    Span { text: String::from_str(s), style: rgb_style(120, 120, 130, false) }
}

/// Success indicator.
pub fn success(s: &str) -> (r: Span)
    ensures
        r@ == (SpanModel { text: s@, style: rgb_bold(80, 220, 140) }),
{
    Span { text: String::from_str(s), style: rgb_style(80, 220, 140, true) }
}

/// Warning indicator.
pub fn warn(s: &str) -> (r: Span)
    ensures
        r@ == (SpanModel { text: s@, style: rgb(240, 190, 60) }),
{
    Span { text: String::from_str(s), style: rgb_style(240, 190, 60, false) }
}

/// Error indicator.
pub fn error(s: &str) -> (r: Span)
    ensures
        r@ == (SpanModel { text: s@, style: rgb_bold(240, 80, 80) }),
{
    Span { text: String::from_str(s), style: rgb_style(240, 80, 80, true) }
}

/// Value highlight (counts, sizes, metrics).
pub fn value(s: &str) -> (r: Span)
    ensures
        r@ == (SpanModel { text: s@, style: rgb(100, 220, 220) }),
{
    Span { text: String::from_str(s), style: rgb_style(100, 220, 220, false) }
}

/// The muted style.
pub open spec fn dim_style() -> Style {
    rgb(120, 120, 130)
}

/// The style of rules and frames.
pub open spec fn rule_style() -> Style {
    rgb(60, 60, 70)
}

// ── Status lines and list items ──────────────────────────────

/// `msg` behind a marker: two spaces, the marker, a space.
pub open spec fn marked_line(marker: Seq<char>, style: Style, msg: Seq<char>, msg_style: Style) -> LineModel {
    out_line(seq![cell("  "@, plain()), cell(marker, style), cell(" "@, plain()), cell(msg, msg_style)])
}

fn marked_cells(marker: &str, style: Style, msg: &str, msg_style: Style) -> (r: Vec<Cell>)
    ensures
        cells_model(r@) == marked_line(marker@, style, msg@, msg_style).cells,
{
    let mut cells: Vec<Cell> = Vec::new();
    push_str_cell(&mut cells, "  ", plain_style());
    push_str_cell(&mut cells, marker, style);
    push_str_cell(&mut cells, " ", plain_style());
    push_str_cell(&mut cells, msg, msg_style);
    assert(cells_model(cells@) =~= seq![cell("  "@, plain()), cell(marker@, style), cell(" "@, plain()), cell(msg@, msg_style)]);
    cells
}

fn marked(marker: &str, style: Style, msg: &str, msg_style: Style) -> (r: Vec<Line>)
    ensures
        lines_model(r@) == seq![marked_line(marker@, style, msg@, msg_style)],
{
    let mut cells: Vec<Cell> = Vec::new();
    push_str_cell(&mut cells, "  ", plain_style());
    push_str_cell(&mut cells, marker, style);
    push_str_cell(&mut cells, " ", plain_style());
    push_str_cell(&mut cells, msg, msg_style);
    assert(cells_model(cells@) =~= seq![cell("  "@, plain()), cell(marker@, style), cell(" "@, plain()), cell(msg@, msg_style)]);
    let mut lines: Vec<Line> = Vec::new();
    push_line(&mut lines, cells);
    assert(lines_model(lines@) =~= seq![marked_line(marker@, style, msg@, msg_style)]);
    lines
}

/// Prints a success message: a check mark, then the message.
pub fn ok(msg: &str) -> (r: Vec<Line>)
    ensures
        lines_model(r@) == seq![marked_line("✔"@, rgb_bold(80, 220, 140), msg@, plain())],
{
    marked("✔", rgb_style(80, 220, 140, true), msg, plain_style())
}

/// Prints a warning message: an exclamation mark, then the message.
pub fn warning(msg: &str) -> (r: Vec<Line>)
    ensures
        lines_model(r@) == seq![marked_line("!"@, rgb(240, 190, 60), msg@, plain())],
{
    marked("!", rgb_style(240, 190, 60, false), msg, plain_style())
}

/// Prints an error message, to the standard error: a cross, then the message.
pub fn err(msg: &str) -> (r: Vec<Line>)
    ensures
        r@.len() == 1,
        r@[0]@.to_stderr,
        r@[0]@.cells == marked_line("✖"@, rgb_bold(240, 80, 80), msg@, plain()).cells,
{
    let cells = marked_cells("✖", rgb_style(240, 80, 80, true), msg, plain_style());
    let e = Line { to_stderr: true, cells };
    assert(e@.cells =~= cells_model(cells@));
    let mut out: Vec<Line> = Vec::new();
    out.push(e);
    out
}

/// Prints an info/hint message, all of it muted.
pub fn hint(msg: &str) -> (r: Vec<Line>)
    ensures
        lines_model(r@) == seq![marked_line("›"@, dim_style(), msg@, dim_style())],
{
    marked("›", rgb_style(120, 120, 130, false), msg, rgb_style(120, 120, 130, false))
}

/// The line of a key and its value: the key muted and padded to 16 characters.
pub open spec fn kv_line(key: Seq<char>, val: Seq<char>, val_style: Style) -> LineModel {
    out_line(
        seq![
            cell("  "@, plain()),
            cell(pad_right(key, 16), dim_style()),
            cell(" "@, plain()),
            cell(val, val_style),
        ],
    )
}

/// Law: values line up: behind a key of at most 16 characters the value
/// starts 19 characters into the line.
pub proof fn lemma_kv_value_column(key: Seq<char>, val: Seq<char>, val_style: Style)
    requires
        key.len() <= 16,
    ensures
        kv_line(key, val, val_style).cells[0].spans[0].text.len() + kv_line(key, val, val_style).cells[1].spans[0].text.len()
            + kv_line(key, val, val_style).cells[2].spans[0].text.len() == 19,
{
    reveal_strlit("  ");
    reveal_strlit(" ");
}

fn kv_with(key: &str, val: &str, val_style: Style) -> (r: Vec<Line>)
    ensures
        lines_model(r@) == seq![kv_line(key@, val@, val_style)],
{
    let mut cells: Vec<Cell> = Vec::new();
    push_str_cell(&mut cells, "  ", plain_style());
    push_cell(&mut cells, padded_right(key, 16u128), rgb_style(120, 120, 130, false));
    push_str_cell(&mut cells, " ", plain_style());
    push_str_cell(&mut cells, val, val_style);
    assert(cells_model(cells@) =~= kv_line(key@, val@, val_style).cells);
    let mut lines: Vec<Line> = Vec::new();
    push_line(&mut lines, cells);
    assert(lines_model(lines@) =~= seq![kv_line(key@, val@, val_style)]);
    lines
}

/// Prints a key-value pair with consistent alignment.
pub fn kv(key: &str, val: &str) -> (r: Vec<Line>)
    ensures
        lines_model(r@) == seq![kv_line(key@, val@, plain())],
{
    kv_with(key, val, plain_style())
}

/// Prints a key-value pair where the value is highlighted.
pub fn kv_accent(key: &str, val: &str) -> (r: Vec<Line>)
    ensures
        lines_model(r@) == seq![kv_line(key@, val@, rgb_bold(120, 180, 255))],
{
    kv_with(key, val, rgb_style(120, 180, 255, true))
}

/// The line of a bullet-point list item.
pub open spec fn bullet_line(primary: Seq<char>, secondary_text: Seq<char>) -> LineModel {
    out_line(
        seq![
            cell("  "@, plain()),
            cell("▸"@, rgb(120, 180, 255)),
            cell(" "@, plain()),
            cell(primary, rgb_bold(120, 180, 255)),
            cell("  "@, plain()),
            cell(secondary_text, dim_style()),
        ],
    )
}

/// Prints a bullet-point list item.
pub fn bullet(primary: &str, secondary_text: &str) -> (r: Vec<Line>)
    ensures
        lines_model(r@) == seq![bullet_line(primary@, secondary_text@)],
{
    let mut cells: Vec<Cell> = Vec::new();
    push_str_cell(&mut cells, "  ", plain_style());
    push_str_cell(&mut cells, "▸", rgb_style(120, 180, 255, false));
    push_str_cell(&mut cells, " ", plain_style());
    push_str_cell(&mut cells, primary, rgb_style(120, 180, 255, true));
    push_str_cell(&mut cells, "  ", plain_style());
    push_str_cell(&mut cells, secondary_text, rgb_style(120, 120, 130, false));
    assert(cells_model(cells@) =~= bullet_line(primary@, secondary_text@).cells);
    let mut lines: Vec<Line> = Vec::new();
    push_line(&mut lines, cells);
    assert(lines_model(lines@) =~= seq![bullet_line(primary@, secondary_text@)]);
    lines
}

/// The line of muted text behind an indent.
pub open spec fn indented_dim_line(indent: Seq<char>, text: Seq<char>) -> LineModel {
    out_line(seq![cell(indent, plain()), cell(text, dim_style())])
}

fn indented_dim(indent: &str, text: &str) -> (r: Line)
    ensures
        r@ == indented_dim_line(indent@, text@),
{
    let mut cells: Vec<Cell> = Vec::new();
    push_str_cell(&mut cells, indent, plain_style());
    push_str_cell(&mut cells, text, rgb_style(120, 120, 130, false));
    assert(cells_model(cells@) =~= indented_dim_line(indent@, text@).cells);
    crate::style::stdout_line(cells)
}

/// Prints a sub-item (indented under a bullet).
pub fn sub(text: &str) -> (r: Vec<Line>)
    ensures
        lines_model(r@) == seq![indented_dim_line("      "@, text@)],
{
    let mut lines: Vec<Line> = Vec::new();
    crate::style::push_built(&mut lines, indented_dim("      ", text));
    assert(lines_model(lines@) =~= seq![indented_dim_line("      "@, text@)]);
    lines
}

/// Prints a footer summary line between two empty lines.
pub fn footer(text: &str) -> (r: Vec<Line>)
    ensures
        lines_model(r@) == seq![blank_line(), indented_dim_line("  "@, text@), blank_line()],
{
    let mut lines: Vec<Line> = Vec::new();
    push_blank(&mut lines);
    crate::style::push_built(&mut lines, indented_dim("  ", text));
    push_blank(&mut lines);
    assert(lines_model(lines@) =~= seq![blank_line(), indented_dim_line("  "@, text@), blank_line()]);
    lines
}


// ── Brand wordmark ───────────────────────────────────────────

/// A line of the wordmark.
pub open spec fn logo_line(k: int) -> Seq<char> {
    if k == 0 {
        r"               __         _     __"@
    } else if k == 1 {
        r"   _  ____  __/ /_  _____(_)___/ /"@
    } else if k == 2 {
        r"  | |/_/ / / / __ \/ ___/ / __  / "@
    } else if k == 3 {
        r" _>  </ /_/ / /_/ / /  / / /_/ /  "@
    } else if k == 4 {
        r"/_/|_|\__, /_.___/_/  /_/\__,_/   "@
    } else {
        r"     /____/                       "@
    }
}

/// A line of the wordmark's shadow: the wordmark shifted right by one column.
pub open spec fn shadow_line(k: int) -> Seq<char> {
    if k == 0 {
        r"                __         _     __"@
    } else if k == 1 {
        r"    _  ____  __/ /_  _____(_)___/ /"@
    } else if k == 2 {
        r"   | |/_/ / / / __ \/ ___/ / __  / "@
    } else if k == 3 {
        r"  _>  </ /_/ / /_/ / /  / / /_/ /  "@
    } else if k == 4 {
        r" /_/|_|\__, /_.___/_/  /_/\__,_/   "@
    } else {
        r"      /____/                       "@
    }
}

fn logo_str(k: usize) -> (r: &'static str)
    ensures
        r@ == logo_line(k as int),
{
    if k == 0 {
        r"               __         _     __"
    } else if k == 1 {
        r"   _  ____  __/ /_  _____(_)___/ /"
    } else if k == 2 {
        r"  | |/_/ / / / __ \/ ___/ / __  / "
    } else if k == 3 {
        r" _>  </ /_/ / /_/ / /  / / /_/ /  "
    } else if k == 4 {
        r"/_/|_|\__, /_.___/_/  /_/\__,_/   "
    } else {
        r"     /____/                       "
    }
}

fn shadow_str(k: usize) -> (r: &'static str)
    ensures
        r@ == shadow_line(k as int),
{
    if k == 0 {
        r"                __         _     __"
    } else if k == 1 {
        r"    _  ____  __/ /_  _____(_)___/ /"
    } else if k == 2 {
        r"   | |/_/ / / / __ \/ ___/ / __  / "
    } else if k == 3 {
        r"  _>  </ /_/ / /_/ / /  / / /_/ /  "
    } else if k == 4 {
        r" /_/|_|\__, /_.___/_/  /_/\__,_/   "
    } else {
        r"      /____/                       "
    }
}

/// The widest of the first `n` wordmark lines, in bytes.
pub open spec fn logo_width(n: nat) -> nat
    decreases n,
{
    if n == 0 {
        0
    } else {
        let w = logo_width((n - 1) as nat);
        let b = byte_len(logo_line(n - 1));
        if b > w {
            b
        } else {
            w
        }
    }
}

/// The cell of column `i` of a wordmark row: the wordmark's character in the
/// bold gradient, else the shadow's in a dark gray, else a space.
pub open spec fn brand_cell(fg: Seq<char>, bg: Seq<char>, i: int, width: nat) -> CellModel {
    let fc = if i < fg.len() {
        fg[i]
    } else {
        ' '
    };
    let bc = if i < bg.len() {
        bg[i]
    } else {
        ' '
    };
    if fc != ' ' {
        cell(seq![fc], Style { color: Some(Color::Ramp(i as usize, width as u128)), bold: true })
    } else if bc != ' ' {
        cell(seq![bc], rgb(45, 42, 55))
    } else {
        cell(seq![' '], plain())
    }
}

/// A row of the wordmark over its shadow, indented by two spaces.
pub open spec fn brand_row(fg: Seq<char>, bg: Seq<char>, width: nat) -> LineModel {
    let n = if fg.len() >= bg.len() {
        fg.len()
    } else {
        bg.len()
    };
    out_line(seq![cell("  "@, plain())] + Seq::new(n, |i: int| brand_cell(fg, bg, i, width)))
}

/// The wordmark: an empty line, then its six rows.
pub open spec fn brand_lines() -> Seq<LineModel> {
    seq![blank_line()] + Seq::new(6, |k: int| brand_row(logo_line(k), shadow_line(k), logo_width(6)))
}

fn one_char(c: char) -> (r: String)
    ensures
        r@ == seq![c],
{
    let mut t = String::new();
    push_char(&mut t, c);
    assert(t@ =~= seq![c]);
    t
}

fn brand_row_line(fg: &Vec<char>, bg: &Vec<char>, width: u128) -> (r: Line)
    ensures
        r@ == brand_row(fg@, bg@, width as nat),
{
    let n = if fg.len() >= bg.len() {
        fg.len()
    } else {
        bg.len()
    };
    let mut cells: Vec<Cell> = Vec::new();
    push_str_cell(&mut cells, "  ", plain_style());
    let ghost head = seq![cell("  "@, plain())];
    assert(cells_model(cells@) =~= head + Seq::new(0, |j: int| brand_cell(fg@, bg@, j, width as nat)));
    for i in 0..n
        invariant
            cells_model(cells@) == head + Seq::new(
                i as nat,
                |j: int| brand_cell(fg@, bg@, j, width as nat),
            ),
    {
        let fc = if i < fg.len() {
            fg[i]
        } else {
            ' '
        };
        let bc = if i < bg.len() {
            bg[i]
        } else {
            ' '
        };
        if fc != ' ' {
            push_cell(
                &mut cells,
                one_char(fc),
                crate::style::color_style(Color::Ramp(i, width), true),
            );
        } else if bc != ' ' {
            push_cell(&mut cells, one_char(bc), rgb_style(45, 42, 55, false));
        } else {
            push_cell(&mut cells, one_char(' '), plain_style());
        }
        assert(cells_model(cells@) =~= head + Seq::new(
            (i + 1) as nat,
            |j: int| brand_cell(fg@, bg@, j, width as nat),
        ));
    }
    crate::style::stdout_line(cells)
}

/// Prints the branded xybrid wordmark with gradient and depth shadow.
pub fn brand() -> (r: Vec<Line>)
    ensures
        lines_model(r@) == brand_lines(),
{
    let mut width: u128 = 0;
    for k in 0..6usize
        invariant
            width == logo_width(k as nat),
    {
        let b = byte_len_wide(logo_str(k));
        if b > width {
            width = b;
        }
    }
    let mut lines: Vec<Line> = Vec::new();
    push_blank(&mut lines);
    for k in 0..6usize
        invariant
            width == logo_width(6),
            lines_model(lines@) == seq![blank_line()] + Seq::new(
                k as nat,
                |q: int| brand_row(logo_line(q), shadow_line(q), logo_width(6)),
            ),
    {
        let fg = chars_of(logo_str(k));
        let bg = chars_of(shadow_str(k));
        crate::style::push_built(&mut lines, brand_row_line(&fg, &bg, width));
        assert(lines_model(lines@) =~= seq![blank_line()] + Seq::new(
            (k + 1) as nat,
            |q: int| brand_row(logo_line(q), shadow_line(q), logo_width(6)),
        ));
    }
    assert(lines_model(lines@) =~= brand_lines());
    lines
}

/// The version subtitle under the wordmark.
pub open spec fn version_line(version: Seq<char>) -> LineModel {
    out_line(seq![cell("  "@, plain()), cell("v"@ + version, rgb(80, 80, 100))])
}

/// Prints the branded wordmark with a version subtitle.
pub fn brand_with_version(version: &str) -> (r: Vec<Line>)
    ensures
        lines_model(r@) == brand_lines().push(version_line(version@)),
{
    let mut lines = brand();
    let mut cells: Vec<Cell> = Vec::new();
    push_str_cell(&mut cells, "  ", plain_style());
    let mut v = String::from_str("v");
    v.append(version);
    push_cell(&mut cells, v, rgb_style(80, 80, 100, false));
    assert(cells_model(cells@) =~= version_line(version@).cells);
    push_line(&mut lines, cells);
    lines
}

// ── Box drawing ──────────────────────────────────────────────

/// `a - b`, or 0 where `b` is larger.
pub open spec fn saturating_sub(a: nat, b: nat) -> nat {
    if a >= b {
        (a - b) as nat
    } else {
        0
    }
}

/// A header: an empty line, `xybrid · title`, and a rule four columns
/// narrower than the terminal.
pub open spec fn header_lines(title: Seq<char>, term_width: nat) -> Seq<LineModel> {
    seq![
        blank_line(),
        out_line(
            seq![
                cell("  "@, plain()),
                cell("xybrid"@, rgb_bold(120, 180, 255)),
                cell(" "@, plain()),
                cell("·"@, rgb(80, 80, 90)),
                cell(" "@, plain()),
                cell(title, rgb(200, 200, 210)),
            ],
        ),
        out_line(
            seq![cell("  "@, plain()), cell(repeat_seq("─"@, saturating_sub(term_width, 4)), rule_style())],
        ),
    ]
}

/// Prints a branded header with the xybrid name and a section title, for a
/// terminal `term_width` columns wide.
pub fn header(title: &str, term_width: usize) -> (r: Vec<Line>)
    ensures
        lines_model(r@) == header_lines(title@, term_width as nat),
{
    let mut lines: Vec<Line> = Vec::new();
    push_blank(&mut lines);
    let mut cells: Vec<Cell> = Vec::new();
    push_str_cell(&mut cells, "  ", plain_style());
    push_str_cell(&mut cells, "xybrid", rgb_style(120, 180, 255, true));
    push_str_cell(&mut cells, " ", plain_style());
    push_str_cell(&mut cells, "·", rgb_style(80, 80, 90, false));
    push_str_cell(&mut cells, " ", plain_style());
    push_str_cell(&mut cells, title, rgb_style(200, 200, 210, false));
    assert(cells_model(cells@) =~= header_lines(title@, term_width as nat)[1].cells);
    push_line(&mut lines, cells);
    let mut rule = String::new();
    let n: usize = if term_width >= 4 {
        term_width - 4
    } else {
        0
    };
    push_repeat_str(&mut rule, "─", n as u128);
    let mut cells2: Vec<Cell> = Vec::new();
    push_str_cell(&mut cells2, "  ", plain_style());
    push_cell(&mut cells2, rule, rgb_style(60, 60, 70, false));
    assert(cells_model(cells2@) =~= header_lines(title@, term_width as nat)[2].cells);
    push_line(&mut lines, cells2);
    assert(lines_model(lines@) =~= header_lines(title@, term_width as nat));
    lines
}

/// The length of the trailing rule of a section divider: the terminal width
/// less four, less the label's bytes and four more; four where that leaves nothing.
pub open spec fn section_trail(label: Seq<char>, term_width: nat) -> nat {
    let w = saturating_sub(term_width, 4);
    let label_len = byte_len(label) + 4;
    if w > label_len {
        (w - label_len) as nat
    } else {
        4
    }
}

/// A section divider: an empty line and `── label ─────`.
pub open spec fn section_lines(label: Seq<char>, term_width: nat) -> Seq<LineModel> {
    seq![
        blank_line(),
        out_line(
            seq![
                cell("  "@, plain()),
                cell("──"@, rule_style()),
                cell(" "@, plain()),
                cell(label, rgb_bold(180, 140, 255)),
                cell(" "@, plain()),
                cell(repeat_seq("─"@, section_trail(label, term_width)), rule_style()),
            ],
        ),
    ]
}

/// Prints a section divider with a label, for a terminal `term_width` columns wide.
pub fn section(label: &str, term_width: usize) -> (r: Vec<Line>)
    ensures
        lines_model(r@) == section_lines(label@, term_width as nat),
{
    let w: u128 = if term_width >= 4 {
        (term_width - 4) as u128
    } else {
        0
    };
    let label_len: u128 = byte_len_wide(label) + 4;
    let trail: u128 = if w > label_len {
        w - label_len
    } else {
        4
    };
    let mut lines: Vec<Line> = Vec::new();
    push_blank(&mut lines);
    let mut rule = String::new();
    push_repeat_str(&mut rule, "─", trail);
    let mut cells: Vec<Cell> = Vec::new();
    push_str_cell(&mut cells, "  ", plain_style());
    push_str_cell(&mut cells, "──", rgb_style(60, 60, 70, false));
    push_str_cell(&mut cells, " ", plain_style());
    push_str_cell(&mut cells, label, rgb_style(180, 140, 255, true));
    push_str_cell(&mut cells, " ", plain_style());
    push_cell(&mut cells, rule, rgb_style(60, 60, 70, false));
    assert(cells_model(cells@) =~= section_lines(label@, term_width as nat)[1].cells);
    push_line(&mut lines, cells);
    assert(lines_model(lines@) =~= section_lines(label@, term_width as nat));
    lines
}

/// Text without its terminal escape sequences, as `console::strip_ansi_codes` gives it.
pub uninterp spec fn ansi_stripped(s: Seq<char>) -> Seq<char>;

/// `console::strip_ansi_codes`: claimed to depend on `s` alone, and to leave
/// text with neither ESC (U+001B) nor CSI (U+009B) unchanged, which its scan
/// for those two characters shows.
#[verifier::external_body]
fn strip_ansi(s: &str) -> (r: String)
    ensures
        r@ == ansi_stripped(s@),
        !s@.contains('\u{1b}') && !s@.contains('\u{9b}') ==> r@ == s@,
{
    console::strip_ansi_codes(s).to_string()
}

/// The width of a line on screen, as the panel measures it: the characters
/// left after stripping escape sequences.
pub open spec fn visible_len(l: Seq<char>) -> nat {
    ansi_stripped(l).len()
}

/// `l` holds no escape character (neither ESC nor CSI).
pub open spec fn no_escapes(l: Seq<char>) -> bool {
    !l.contains('\u{1b}') && !l.contains('\u{9b}')
}

/// The widest of the lines, by [`visible_len`].
pub open spec fn max_visible(ls: Seq<Seq<char>>) -> nat
    decreases ls.len(),
{
    if ls.len() == 0 {
        0
    } else {
        let m = max_visible(ls.drop_last());
        let v = visible_len(ls.last());
        if v > m {
            v
        } else {
            m
        }
    }
}

/// A top or bottom border of a panel.
pub open spec fn border_line(left: Seq<char>, right: Seq<char>, inner_w: nat) -> LineModel {
    out_line(seq![cell("  "@ + left + repeat_seq("─"@, inner_w) + right, rule_style())])
}

/// A line inside a panel, padded with `pad` spaces before the right frame.
pub open spec fn panel_content_line(line: Seq<char>, pad: nat) -> LineModel {
    out_line(
        seq![
            cell("  "@, plain()),
            cell("│"@, rule_style()),
            cell(" "@, plain()),
            cell(line, plain()),
            cell(repeat_char(' ', pad), plain()),
            cell("│"@, rule_style()),
        ],
    )
}

/// The padding of a panel line of visible width `vis` in a panel `inner_w` wide.
pub open spec fn panel_pad(inner_w: nat, vis: nat) -> nat {
    saturating_sub(inner_w, vis + 1)
}

/// A framed panel: the widest line plus one space on each side inside the frame.
pub open spec fn panel_lines(ls: Seq<Seq<char>>) -> Seq<LineModel> {
    let inner_w = max_visible(ls) + 2;
    seq![border_line("╭"@, "╮"@, inner_w)] + Seq::new(
        ls.len(),
        |i: int| panel_content_line(ls[i], panel_pad(inner_w, visible_len(ls[i]))),
    ) + seq![border_line("╰"@, "╯"@, inner_w)]
}

/// The texts of the lines.
pub open spec fn strings_view(v: Seq<String>) -> Seq<Seq<char>> {
    Seq::new(v.len(), |i: int| v[i]@)
}

fn border(left: &str, right: &str, inner_w: u128) -> (r: Line)
    ensures
        r@ == border_line(left@, right@, inner_w as nat),
{
    let mut t = String::from_str("  ");
    t.append(left);
    push_repeat_str(&mut t, "─", inner_w);
    t.append(right);
    let mut cells: Vec<Cell> = Vec::new();
    push_cell(&mut cells, t, rgb_style(60, 60, 70, false));
    assert(cells_model(cells@) =~= border_line(left@, right@, inner_w as nat).cells);
    crate::style::stdout_line(cells)
}

/// Prints a framed panel with content lines.
pub fn panel(lines: &Vec<String>) -> (r: Vec<Line>)
    ensures
        lines_model(r@) == panel_lines(strings_view(lines@)),
        forall|i: int|
            0 <= i < lines@.len() && no_escapes(lines@[i]@) ==> visible_len(#[trigger] lines@[i]@)
                == lines@[i]@.len(),
{
    let ghost ls = strings_view(lines@);
    let n = lines.len();
    let mut visible: Vec<u128> = Vec::new();
    let mut max_len: u128 = 0;
    for i in 0..n
        invariant
            n == lines@.len(),
            ls == strings_view(lines@),
            visible@.len() == i,
            forall|j: int| 0 <= j < i ==> visible@[j] == visible_len(#[trigger] ls[j]),
            forall|j: int| 0 <= j < i && no_escapes(ls[j]) ==> visible_len(#[trigger] ls[j]) == ls[j].len(),
            max_len == max_visible(ls.take(i as int)),
            max_len <= usize::MAX,
    {
        assert(ls.take(i + 1).drop_last() =~= ls.take(i as int));
        let stripped = strip_ansi(lines[i].as_str());
        let v = stripped.unicode_len() as u128;
        visible.push(v);
        if v > max_len {
            max_len = v;
        }
    }
    assert(ls.take(n as int) =~= ls);
    proof {
        lemma_max_visible_bounds(ls);
    }
    let inner_w: u128 = max_len + 2;
    let mut out: Vec<Line> = Vec::new();
    crate::style::push_built(&mut out, border("╭", "╮", inner_w));
    for i in 0..n
        invariant
            n == lines@.len(),
            ls == strings_view(lines@),
            visible@.len() == n,
            forall|j: int| 0 <= j < n ==> visible@[j] == visible_len(#[trigger] ls[j]),
            forall|j: int| 0 <= j < n ==> visible_len(#[trigger] ls[j]) <= max_len,
            forall|j: int| 0 <= j < n && no_escapes(ls[j]) ==> visible_len(#[trigger] ls[j]) == ls[j].len(),
            inner_w == max_visible(ls) + 2,
            max_len == max_visible(ls),
            lines_model(out@) == seq![border_line("╭"@, "╮"@, inner_w as nat)] + Seq::new(
                i as nat,
                |q: int| panel_content_line(ls[q], panel_pad(inner_w as nat, visible_len(ls[q]))),
            ),
    {
        let v = visible[i];
        assert(v == visible_len(ls[i as int]));
        let pad: u128 = inner_w - (v + 1);
        let mut spaces = String::new();
        push_repeat(&mut spaces, ' ', pad);
        let mut cells: Vec<Cell> = Vec::new();
        push_str_cell(&mut cells, "  ", plain_style());
        push_str_cell(&mut cells, "│", rgb_style(60, 60, 70, false));
        push_str_cell(&mut cells, " ", plain_style());
        push_str_cell(&mut cells, lines[i].as_str(), plain_style());
        push_cell(&mut cells, spaces, plain_style());
        push_str_cell(&mut cells, "│", rgb_style(60, 60, 70, false));
        assert(cells_model(cells@) =~= panel_content_line(
            ls[i as int],
            panel_pad(inner_w as nat, visible_len(ls[i as int])),
        ).cells);
        push_line(&mut out, cells);
        assert(lines_model(out@) =~= seq![border_line("╭"@, "╮"@, inner_w as nat)] + Seq::new(
            (i + 1) as nat,
            |q: int| panel_content_line(ls[q], panel_pad(inner_w as nat, visible_len(ls[q]))),
        ));
    }
    crate::style::push_built(&mut out, border("╰", "╯", inner_w));
    assert(lines_model(out@) =~= panel_lines(ls));
    assert forall|i: int|
        0 <= i < lines@.len() && no_escapes(lines@[i]@) implies visible_len(#[trigger] lines@[i]@)
            == lines@[i]@.len() by {
        assert(ls[i] == lines@[i]@);
    }
    out
}

proof fn lemma_max_visible_bounds(ls: Seq<Seq<char>>)
    ensures
        forall|j: int| 0 <= j < ls.len() ==> visible_len(#[trigger] ls[j]) <= max_visible(ls),
    decreases ls.len(),
{
    if ls.len() > 0 {
        lemma_max_visible_bounds(ls.drop_last());
        assert forall|j: int| 0 <= j < ls.len() implies visible_len(#[trigger] ls[j]) <= max_visible(ls) by {
            if j < ls.len() - 1 {
                assert(ls.drop_last()[j] == ls[j]);
            }
        }
    }
}

/// Law: the right frame of every panel line stands in the same column: the
/// line's visible width in characters, the space before it and its padding
/// make the panel's inner width, which is also the width of its borders.
pub proof fn lemma_panel_lines_aligned(ls: Seq<Seq<char>>, i: int)
    requires
        0 <= i < ls.len(),
    ensures
        visible_len(ls[i]) + 1 + panel_pad(max_visible(ls) + 2, visible_len(ls[i])) == max_visible(ls) + 2,
{
    lemma_max_visible_bounds(ls);
}


// ── Table ────────────────────────────────────────────────────

/// A simple column-aligned table.
pub struct Table {
    headers: Vec<String>,
    rows: Vec<Vec<String>>,
    col_widths: Vec<u128>,
}

/// The content of a [`Table`]: its headers and rows.
pub struct TableModel {
    pub headers: Seq<Seq<char>>,
    pub rows: Seq<Seq<Seq<char>>>,
}

/// The width of column `i`: the most bytes of its header and of the cells of
/// the rows that reach it.
pub open spec fn column_width(headers: Seq<Seq<char>>, rows: Seq<Seq<Seq<char>>>, i: int) -> nat
    decreases rows.len(),
{
    if rows.len() == 0 {
        byte_len(headers[i])
    } else {
        let w = column_width(headers, rows.drop_last(), i);
        let r = rows.last();
        if i < r.len() && byte_len(r[i]) > w {
            byte_len(r[i])
        } else {
            w
        }
    }
}

/// The rows of a table as text.
pub open spec fn rows_view(rows: Seq<Vec<String>>) -> Seq<Seq<Seq<char>>> {
    Seq::new(rows.len(), |i: int| strings_view(rows[i]@))
}

/// The texts of string slices.
pub open spec fn strs_view(v: Seq<&str>) -> Seq<Seq<char>> {
    Seq::new(v.len(), |i: int| v[i]@)
}

impl View for Table {
    type V = TableModel;

    closed spec fn view(&self) -> TableModel {
        TableModel { headers: strings_view(self.headers@), rows: rows_view(self.rows@) }
    }
}

/// Strings one after another.
pub open spec fn joined(parts: Seq<Seq<char>>) -> Seq<char>
    decreases parts.len(),
{
    if parts.len() == 0 {
        Seq::empty()
    } else {
        joined(parts.drop_last()) + parts.last()
    }
}

/// The header line of a table: each header padded to its column's width plus two.
pub open spec fn table_header_text(t: TableModel) -> Seq<char> {
    joined(
        Seq::new(
            t.headers.len(),
            |i: int| pad_right(t.headers[i], column_width(t.headers, t.rows, i) + 2),
        ),
    )
}

/// The separator line of a table: a rule as wide as each column plus two.
pub open spec fn table_separator_text(t: TableModel) -> Seq<char> {
    joined(
        Seq::new(
            t.headers.len(),
            |i: int| repeat_seq("─"@, column_width(t.headers, t.rows, i) + 2),
        ),
    )
}

/// A row of a table: each cell padded to its column's width plus two; a cell
/// beyond the headers to its own width plus two.
pub open spec fn table_row_text(t: TableModel, r: Seq<Seq<char>>) -> Seq<char> {
    joined(
        Seq::new(
            r.len(),
            |i: int|
                pad_right(
                    r[i],
                    (if i < t.headers.len() {
                        column_width(t.headers, t.rows, i)
                    } else {
                        byte_len(r[i])
                    }) + 2,
                ),
        ),
    )
}

/// The lines of a table: the muted header and separator, then the rows.
pub open spec fn table_lines(t: TableModel) -> Seq<LineModel> {
    seq![
        out_line(seq![cell("  "@, plain()), cell(table_header_text(t), dim_style())]),
        out_line(seq![cell("  "@, plain()), cell(table_separator_text(t), dim_style())]),
    ] + Seq::new(
        t.rows.len(),
        |k: int| out_line(seq![cell("  "@, plain()), cell(table_row_text(t, t.rows[k]), plain())]),
    )
}

/// Law: a column is as wide as the widest of its header and of the cells
/// that reach it, in bytes: no wider than all of them and narrower than none.
pub proof fn lemma_column_width_is_widest(headers: Seq<Seq<char>>, rows: Seq<Seq<Seq<char>>>, i: int)
    requires
        0 <= i < headers.len(),
    ensures
        byte_len(headers[i]) <= column_width(headers, rows, i),
        forall|k: int|
            0 <= k < rows.len() && i < rows[k].len() ==> byte_len(#[trigger] rows[k][i])
                <= column_width(headers, rows, i),
        column_width(headers, rows, i) == byte_len(headers[i]) || exists|k: int|
            0 <= k < rows.len() && i < rows[k].len() && column_width(headers, rows, i) == byte_len(
                #[trigger] rows[k][i],
            ),
    decreases rows.len(),
{
    if rows.len() > 0 {
        let front = rows.drop_last();
        lemma_column_width_is_widest(headers, front, i);
        assert forall|k: int|
            0 <= k < rows.len() && i < rows[k].len() implies byte_len(#[trigger] rows[k][i])
                <= column_width(headers, rows, i) by {
            if k < rows.len() - 1 {
                assert(front[k] == rows[k]);
            }
        }
        if column_width(headers, rows, i) != byte_len(headers[i]) {
            if column_width(headers, rows, i) == column_width(headers, front, i) {
                let k = choose|k: int|
                    0 <= k < front.len() && i < front[k].len() && column_width(headers, front, i)
                        == byte_len(#[trigger] front[k][i]);
                assert(rows[k] == front[k]);
            } else {
                assert(rows[rows.len() - 1] == rows.last());
            }
        }
    }
}

/// The width of every column of a table, in bytes (see [`column_width`]).
pub open spec fn table_widths(t: TableModel) -> Seq<nat> {
    Seq::new(t.headers.len(), |i: int| column_width(t.headers, t.rows, i))
}

/// Law: after any sequence of rows, the width a table keeps for a column is
/// the widest, in bytes, of its header and of the cells that reach it.
pub proof fn lemma_table_widths_are_widest(t: TableModel, i: int)
    requires
        0 <= i < t.headers.len(),
    ensures
        table_widths(t)[i] >= byte_len(t.headers[i]),
        forall|k: int|
            0 <= k < t.rows.len() && i < t.rows[k].len() ==> table_widths(t)[i] >= byte_len(
                #[trigger] t.rows[k][i],
            ),
        table_widths(t)[i] == byte_len(t.headers[i]) || exists|k: int|
            0 <= k < t.rows.len() && i < t.rows[k].len() && table_widths(t)[i] == byte_len(
                #[trigger] t.rows[k][i],
            ),
{
    lemma_column_width_is_widest(t.headers, t.rows, i);
}

impl Table {
    /// The column widths the table keeps.
    pub closed spec fn widths(&self) -> Seq<nat> {
        Seq::new(self.col_widths@.len(), |i: int| self.col_widths@[i] as nat)
    }

    /// The stored widths are the column widths.
    #[verifier::type_invariant]
    spec fn well_formed(&self) -> bool {
        &&& self.col_widths@.len() == self.headers@.len()
        &&& forall|i: int| 0 <= i < self.col_widths@.len() ==> self.col_widths@[i] <= 4 * usize::MAX
        &&& forall|i: int|
            0 <= i < self.col_widths@.len() ==> self.col_widths@[i] == column_width(
                strings_view(self.headers@),
                rows_view(self.rows@),
                i,
            )
    }

    /// A table with these headers and no rows.
    pub fn new(headers: Vec<&str>) -> (r: Self)
        ensures
            r@ == (TableModel { headers: strs_view(headers@), rows: Seq::empty() }),
            r.widths() == table_widths(r@),
    {
        let mut hs: Vec<String> = Vec::new();
        let mut widths: Vec<u128> = Vec::new();
        let n = headers.len();
        for i in 0..n
            invariant
                n == headers@.len(),
                hs@.len() == i,
                widths@.len() == i,
                forall|j: int| 0 <= j < i ==> #[trigger] hs@[j]@ == headers@[j]@,
                forall|j: int| 0 <= j < i ==> #[trigger] widths@[j] == byte_len(headers@[j]@),
                forall|j: int| 0 <= j < i ==> #[trigger] widths@[j] <= 4 * usize::MAX,
        {
            widths.push(byte_len_wide(headers[i]));
            hs.push(String::from_str(headers[i]));
        }
        let rows: Vec<Vec<String>> = Vec::new();
        let t = Table { headers: hs, rows, col_widths: widths };
        assert(strings_view(t.headers@) =~= strs_view(headers@));
        assert(rows_view(t.rows@) =~= Seq::<Seq<Seq<char>>>::empty());
        assert(t.widths() =~= table_widths(t@));
        t
    }

    /// Adds a row, widening the columns that its cells overflow.
    pub fn row(&mut self, cells: Vec<&str>)
        ensures
            final(self)@ == (TableModel {
                headers: old(self)@.headers,
                rows: old(self)@.rows.push(strs_view(cells@)),
            }),
            final(self).widths() == table_widths(final(self)@),
    {
        proof {
            use_type_invariant(&*self);
        }
        let mut taken = Table { headers: Vec::new(), rows: Vec::new(), col_widths: Vec::new() };
        std::mem::swap(self, &mut taken);
        proof {
            use_type_invariant(&taken);
        }
        let Table { headers, mut rows, mut col_widths } = taken;
        let ghost hv = strings_view(headers@);
        let ghost rv = rows_view(rows@);
        let ghost cv = strs_view(cells@);
        let n = cells.len();
        let nw = col_widths.len();
        for i in 0..n
            invariant
                n == cells@.len(),
                nw == col_widths@.len() == headers@.len(),
                hv == strings_view(headers@),
                rv == rows_view(rows@),
                cv == strs_view(cells@),
                forall|j: int| 0 <= j < nw ==> #[trigger] col_widths@[j] <= 4 * usize::MAX,
                forall|j: int|
                    0 <= j < nw ==> #[trigger] col_widths@[j] == if j < i {
                        column_width(hv, rv.push(cv), j)
                    } else {
                        column_width(hv, rv, j)
                    },
        {
            if i < nw {
                let b = byte_len_wide(cells[i]);
                if b > col_widths[i] {
                    col_widths.set(i, b);
                }
                assert(rv.push(cv).drop_last() =~= rv);
            }
        }
        assert forall|j: int| 0 <= j < nw implies #[trigger] col_widths@[j] == column_width(
            hv,
            rv.push(cv),
            j,
        ) by {
            if j >= n {
                assert(rv.push(cv).drop_last() =~= rv);
            }
        }
        let mut owned: Vec<String> = Vec::new();
        for i in 0..n
            invariant
                n == cells@.len(),
                owned@.len() == i,
                forall|j: int| 0 <= j < i ==> #[trigger] owned@[j]@ == cells@[j]@,
        {
            owned.push(String::from_str(cells[i]));
        }
        assert(strings_view(owned@) =~= cv);
        rows.push(owned);
        assert(rows_view(rows@) =~= rv.push(cv));
        *self = Table { headers, rows, col_widths };
        assert(self.widths() =~= table_widths(self@));
    }

    /// The lines that printing the table writes.
    pub fn print(&self) -> (r: Vec<Line>)
        ensures
            lines_model(r@) == table_lines(self@),
    {
        proof {
            use_type_invariant(self);
        }
        let ghost t = self@;
        let nh = self.headers.len();
        let mut head = String::new();
        let mut sep = String::new();
        let ghost hparts = Seq::new(
            t.headers.len(),
            |i: int| pad_right(t.headers[i], column_width(t.headers, t.rows, i) + 2),
        );
        let ghost sparts = Seq::new(
            t.headers.len(),
            |i: int| repeat_seq("─"@, column_width(t.headers, t.rows, i) + 2),
        );
        assert(head@ =~= joined(hparts.take(0)));
        assert(sep@ =~= joined(sparts.take(0)));
        for i in 0..nh
            invariant
                nh == self.headers@.len() == self.col_widths@.len(),
                self.well_formed(),
                t == self@,
                hparts.len() == nh,
                sparts.len() == nh,
                hparts == Seq::new(
                    t.headers.len(),
                    |i: int| pad_right(t.headers[i], column_width(t.headers, t.rows, i) + 2),
                ),
                sparts == Seq::new(
                    t.headers.len(),
                    |i: int| repeat_seq("─"@, column_width(t.headers, t.rows, i) + 2),
                ),
                head@ == joined(hparts.take(i as int)),
                sep@ == joined(sparts.take(i as int)),
        {
            let w = self.col_widths[i];
            assert(w == column_width(t.headers, t.rows, i as int));
            let cellw = padded_right(self.headers[i].as_str(), w + 2);
            head.append(cellw.as_str());
            push_repeat_str(&mut sep, "─", w + 2);
            assert(hparts.take(i + 1).drop_last() =~= hparts.take(i as int));
            assert(sparts.take(i + 1).drop_last() =~= sparts.take(i as int));
        }
        assert(hparts.take(nh as int) =~= hparts);
        assert(sparts.take(nh as int) =~= sparts);
        let mut out: Vec<Line> = Vec::new();
        let mut c1: Vec<Cell> = Vec::new();
        push_str_cell(&mut c1, "  ", plain_style());
        push_cell(&mut c1, head, rgb_style(120, 120, 130, false));
        assert(cells_model(c1@) =~= table_lines(t)[0].cells);
        push_line(&mut out, c1);
        let mut c2: Vec<Cell> = Vec::new();
        push_str_cell(&mut c2, "  ", plain_style());
        push_cell(&mut c2, sep, rgb_style(120, 120, 130, false));
        assert(cells_model(c2@) =~= table_lines(t)[1].cells);
        push_line(&mut out, c2);
        let nr = self.rows.len();
        for k in 0..nr
            invariant
                nr == self.rows@.len(),
                nh == self.headers@.len() == self.col_widths@.len(),
                self.well_formed(),
                t == self@,
                lines_model(out@) == table_lines(t).take(k + 2),
        {
            let line = self.row_text(k);
            let mut c: Vec<Cell> = Vec::new();
            push_str_cell(&mut c, "  ", plain_style());
            push_cell(&mut c, line, plain_style());
            assert(cells_model(c@) =~= table_lines(t)[k + 2].cells);
            push_line(&mut out, c);
            assert(lines_model(out@) =~= table_lines(t).take(k + 3));
        }
        assert(table_lines(t).take(nr + 2) =~= table_lines(t));
        out
    }

    fn row_text(&self, k: usize) -> (r: String)
        requires
            self.well_formed(),
            k < self.rows@.len(),
        ensures
            r@ == table_row_text(self@, self@.rows[k as int]),
    {
        let ghost t = self@;
        let row = &self.rows[k];
        let ghost rw = t.rows[k as int];
        assert(rw == strings_view(row@));
        let ghost parts = Seq::new(
            rw.len(),
            |i: int|
                pad_right(
                    rw[i],
                    (if i < t.headers.len() {
                        column_width(t.headers, t.rows, i)
                    } else {
                        byte_len(rw[i])
                    }) + 2,
                ),
        );
        let mut out = String::new();
        assert(out@ =~= joined(parts.take(0)));
        let n = row.len();
        let nh = self.col_widths.len();
        for i in 0..n
            invariant
                n == row@.len() == rw.len(),
                nh == self.col_widths@.len() == t.headers.len(),
                self.well_formed(),
                t == self@,
                rw == strings_view(row@),
                parts.len() == n,
                parts == Seq::new(
                    rw.len(),
                    |i: int|
                        pad_right(
                            rw[i],
                            (if i < t.headers.len() {
                                column_width(t.headers, t.rows, i)
                            } else {
                                byte_len(rw[i])
                            }) + 2,
                        ),
                ),
                out@ == joined(parts.take(i as int)),
        {
            let w: u128 = if i < nh {
                self.col_widths[i]
            } else {
                byte_len_wide(row[i].as_str())
            };
            let cellw = padded_right(row[i].as_str(), w + 2);
            out.append(cellw.as_str());
            assert(parts.take(i + 1).drop_last() =~= parts.take(i as int));
        }
        assert(parts.take(n as int) =~= parts);
        out
    }
}

} // verus!
