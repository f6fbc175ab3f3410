//! The screens of the model-cache commands: listing, status and clearing.
use vstd::prelude::*;
use crate::text::decimal;
use crate::style::{
    Span, SpanModel, Cell, Line, LineModel, cell, out_line, blank_line, plain, lines_model,
    cells_model, push_blank, append_lines,
};
use crate::ui::{
    header, header_lines, kv, kv_line, hint, marked_line, dim_style, Table, TableModel,
    table_lines, footer, indented_dim_line, panel, panel_lines, strings_view, strs_view, ok, warning,
    dim, value,
};

verus! {

/// A cached model and its size, as text.
pub struct CachedModel {
    pub name: String,
    pub size: String,
}

/// What the cache listing shows: the cache directory, how many models the
/// registry counts, whether the directory exists, the models found in it and
/// the total size as text.
pub struct CacheListing {
    pub directory: String,
    pub model_count: usize,
    pub directory_exists: bool,
    pub models: Vec<CachedModel>,
    pub total_size: String,
}

/// The rows of the model table.
pub open spec fn model_rows(models: Seq<CachedModel>) -> Seq<Seq<Seq<char>>> {
    Seq::new(models.len(), |i: int| seq![models[i].name@, models[i].size@])
}

/// The footer of the listing: `N models · SIZE`.
pub open spec fn cache_footer_text(count: nat, total: Seq<char>) -> Seq<char> {
    decimal(count) + " models · "@ + total
}

/// The listing of the model cache: a header and the directory; two hints
/// where the cache is empty; else the table of models (where the directory
/// exists) and a footer with the count and total size.
pub open spec fn cache_list_lines(l: CacheListing, term_width: nat) -> Seq<LineModel> {
    let head = header_lines("Model Cache"@, term_width) + seq![kv_line("Directory"@, l.directory@, plain()), blank_line()];
    if l.model_count == 0 {
        head + seq![
            marked_line("›"@, dim_style(), "Cache is empty."@, dim_style()),
            marked_line("›"@, dim_style(), "Use 'xybrid fetch --model <id>' to download models."@, dim_style()),
        ]
    } else {
        let table = if l.directory_exists {
            table_lines(TableModel { headers: seq!["Model"@, "Size"@], rows: model_rows(l.models@) })
        } else {
            Seq::empty()
        };
        head + table + seq![
            blank_line(),
            indented_dim_line("  "@, cache_footer_text(l.model_count as nat, l.total_size@)),
            blank_line(),
        ]
    }
}

/// Lists the cached models.
pub fn list_cache(l: &CacheListing, term_width: usize) -> (r: Vec<Line>)
    ensures
        lines_model(r@) == cache_list_lines(*l, term_width as nat),
{
    let mut lines = header("Model Cache", term_width);
    append_lines(&mut lines, kv("Directory", l.directory.as_str()));
    push_blank(&mut lines);
    if l.model_count == 0 {
        append_lines(&mut lines, hint("Cache is empty."));
        append_lines(&mut lines, hint("Use 'xybrid fetch --model <id>' to download models."));
        assert(lines_model(lines@) =~= cache_list_lines(*l, term_width as nat));
        return lines;
    }
    let ghost head = lines_model(lines@);
    if l.directory_exists {
        let hdrs: Vec<&str> = vec!["Model", "Size"];
        let mut table = Table::new(hdrs);
        assert(strs_view(hdrs@) =~= seq!["Model"@, "Size"@]);
        assert(model_rows(l.models@).take(0) =~= Seq::<Seq<Seq<char>>>::empty());
        let n = l.models.len();
        for i in 0..n
            invariant
                n == l.models@.len(),
                table@ == (TableModel { headers: seq!["Model"@, "Size"@], rows: model_rows(l.models@).take(i as int) }),
        {
            let m = &l.models[i];
            let cells: Vec<&str> = vec![m.name.as_str(), m.size.as_str()];
            assert(strs_view(cells@) =~= seq![m.name@, m.size@]);
            table.row(cells);
            assert(model_rows(l.models@).take(i + 1) =~= model_rows(l.models@).take(i as int).push(
                seq![m.name@, m.size@],
            ));
        }
        assert(model_rows(l.models@).take(n as int) =~= model_rows(l.models@));
        append_lines(&mut lines, table.print());
    }
    let mut text = crate::text::decimal_string(l.model_count as u64);
    text.append(" models · ");
    text.append(l.total_size.as_str());
    append_lines(&mut lines, footer(text.as_str()));
    assert(lines_model(lines@) =~= cache_list_lines(*l, term_width as nat));
    lines
}

/// The contents of rows of spans.
pub open spec fn span_rows_view(v: Seq<Vec<Span>>) -> Seq<Seq<SpanModel>> {
    Seq::new(v.len(), |i: int| Seq::new(v[i]@.len(), |j: int| v[i]@[j]@))
}

/// The rows of the cache status panel, before they are rendered: the muted
/// label, spaces, and the value.
pub open spec fn cache_status_row_spans(count: nat, size: Seq<char>, path: Seq<char>) -> Seq<Seq<SpanModel>> {
    seq![
        seq![
            SpanModel { text: "Models"@, style: dim_style() },
            SpanModel { text: "  "@, style: plain() },
            SpanModel { text: decimal(count), style: crate::style::rgb(100, 220, 220) },
        ],
        seq![
            SpanModel { text: "Size"@, style: dim_style() },
            SpanModel { text: "    "@, style: plain() },
            SpanModel { text: size, style: crate::style::rgb(100, 220, 220) },
        ],
        seq![
            SpanModel { text: "Path"@, style: dim_style() },
            SpanModel { text: "    "@, style: plain() },
            SpanModel { text: path, style: dim_style() },
        ],
    ]
}

fn span_row(a: Span, gap: &str, b: Span) -> (r: Vec<Span>)
    ensures
        r@.len() == 3,
        r@[0]@ == a@,
        r@[1]@ == (SpanModel { text: gap@, style: plain() }),
        r@[2]@ == b@,
{
    let mut v: Vec<Span> = Vec::new();
    v.push(a);
    v.push(Span { text: String::from_str(gap), style: crate::style::plain_style() });
    v.push(b);
    v
}

/// The three rows of the cache status panel.
pub fn cache_status_rows(model_count: usize, size: &str, path: &str) -> (r: Vec<Vec<Span>>)
    ensures
        span_rows_view(r@) == cache_status_row_spans(model_count as nat, size@, path@),
{
    let count = crate::text::decimal_string(model_count as u64);
    let mut rows: Vec<Vec<Span>> = Vec::new();
    rows.push(span_row(dim("Models"), "  ", value(count.as_str())));
    rows.push(span_row(dim("Size"), "    ", value(size)));
    rows.push(span_row(dim("Path"), "    ", dim(path)));
    assert(span_rows_view(rows@) =~= cache_status_row_spans(model_count as nat, size@, path@)) by {
        assert(span_rows_view(rows@)[0] =~= cache_status_row_spans(model_count as nat, size@, path@)[0]);
        assert(span_rows_view(rows@)[1] =~= cache_status_row_spans(model_count as nat, size@, path@)[1]);
        assert(span_rows_view(rows@)[2] =~= cache_status_row_spans(model_count as nat, size@, path@)[2]);
    }
    rows
}

/// The cache status: a header, the panel of the rendered rows, two hints
/// where the cache directory does not exist yet, and an empty line.
pub open spec fn cache_status_lines(rows: Seq<Seq<char>>, directory_exists: bool, term_width: nat) -> Seq<LineModel> {
    let notes = if directory_exists {
        Seq::empty()
    } else {
        seq![
            blank_line(),
            marked_line("›"@, dim_style(), "Cache directory does not exist yet."@, dim_style()),
            marked_line("›"@, dim_style(), "It will be created when you download your first model."@, dim_style()),
        ]
    };
    header_lines("Cache Status"@, term_width) + panel_lines(rows) + notes + seq![blank_line()]
}

/// Shows the cache status from the rendered panel rows.
pub fn show_cache_status(rows: &Vec<String>, directory_exists: bool, term_width: usize) -> (r: Vec<Line>)
    ensures
        lines_model(r@) == cache_status_lines(strings_view(rows@), directory_exists, term_width as nat),
{
    let mut lines = header("Cache Status", term_width);
    append_lines(&mut lines, panel(rows));
    if !directory_exists {
        push_blank(&mut lines);
        append_lines(&mut lines, hint("Cache directory does not exist yet."));
        append_lines(&mut lines, hint("It will be created when you download your first model."));
    }
    push_blank(&mut lines);
    assert(lines_model(lines@) =~= cache_status_lines(strings_view(rows@), directory_exists, term_width as nat));
    lines
}

/// What clearing the cache shows before it clears: for one model a header
/// naming it; for all, a header, a warning and the prompt to confirm.
pub open spec fn clear_cache_intro_lines(model_id: Option<Seq<char>>, term_width: nat) -> Seq<LineModel> {
    match model_id {
        Some(id) => header_lines("Clear Cache · "@ + id, term_width),
        None => header_lines("Clear All Cache"@, term_width) + seq![
            blank_line(),
            marked_line("!"@, crate::style::rgb(240, 190, 60), "This will delete ALL cached models."@, plain()),
            marked_line("›"@, dim_style(), "Press Enter to continue or Ctrl+C to cancel..."@, dim_style()),
        ],
    }
}

/// Shows what clearing the cache is about to do.
pub fn clear_cache_intro(model_id: &Option<String>, term_width: usize) -> (r: Vec<Line>)
    ensures
        lines_model(r@) == clear_cache_intro_lines(model_id.deep_view(), term_width as nat),
{
    match model_id {
        Some(id) => {
            let mut t = String::from_str("Clear Cache · ");
            t.append(id.as_str());
            header(t.as_str(), term_width)
        },
        None => {
            let mut lines = header("Clear All Cache", term_width);
            push_blank(&mut lines);
            append_lines(&mut lines, warning("This will delete ALL cached models."));
            append_lines(&mut lines, hint("Press Enter to continue or Ctrl+C to cancel..."));
            assert(lines_model(lines@) =~= clear_cache_intro_lines(model_id.deep_view(), term_width as nat));
            lines
        },
    }
}

/// What clearing the cache shows once it has cleared.
pub open spec fn clear_cache_done_lines(model_id: Option<Seq<char>>) -> Seq<LineModel> {
    let msg = match model_id {
        Some(id) => "Cache cleared for model '"@ + id + "'"@,
        None => "All cached models cleared"@,
    };
    seq![marked_line("✔"@, crate::style::rgb_bold(80, 220, 140), msg, plain()), blank_line()]
}

/// Shows that the cache was cleared.
pub fn clear_cache_done(model_id: &Option<String>) -> (r: Vec<Line>)
    ensures
        lines_model(r@) == clear_cache_done_lines(model_id.deep_view()),
{
    let msg = match model_id {
        Some(id) => {
            let mut t = String::from_str("Cache cleared for model '");
            t.append(id.as_str());
            t.append("'");
            t
        },
        None => String::from_str("All cached models cleared"),
    };
    let mut lines = ok(msg.as_str());
    push_blank(&mut lines);
    assert(lines_model(lines@) =~= clear_cache_done_lines(model_id.deep_view()));
    lines
}

} // verus!
