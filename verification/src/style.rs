//! Styled terminal text, as plain values: what to write and in which colors.
//! Rendering the styles as terminal escape codes is left to the caller.
use vstd::prelude::*;

verus! {

/// A text color.
#[derive(Clone, Copy, Debug, PartialEq, Eq, Structural)]
pub enum Color {
    /// A 24-bit color.
    Rgb(u8, u8, u8),
    /// The bold brand gradient at a column of the wordmark, given with the
    /// wordmark's width in bytes: from (90, 160, 255) at the left edge to
    /// (180, 110, 255) at the right.
    Ramp(usize, u128),
    Green,
    Cyan,
    White,
    BrightBlack,
    BrightRed,
    BrightGreen,
    BrightYellow,
    BrightBlue,
    BrightMagenta,
    BrightCyan,
}

/// A color, if any, and whether the text is bold.
#[derive(Clone, Copy, Debug, PartialEq, Eq, Structural)]
pub struct Style {
    pub color: Option<Color>,
    pub bold: bool,
}

/// A piece of text in one style.
pub struct Span {
    pub text: String,
    pub style: Style,
}

/// Spans written one after the other, the whole then padded with spaces to
/// `width` characters (no padding when `width` is 0 or already reached).
pub struct Cell {
    pub spans: Vec<Span>,
    pub width: usize,
}

/// One line of output, to the standard output or to the standard error.
pub struct Line {
    pub to_stderr: bool,
    pub cells: Vec<Cell>,
}

/// The content of a [`Span`].
pub struct SpanModel {
    pub text: Seq<char>,
    pub style: Style,
}

/// The content of a [`Cell`].
pub struct CellModel {
    pub spans: Seq<SpanModel>,
    pub width: nat,
}

/// The content of a [`Line`].
pub struct LineModel {
    pub to_stderr: bool,
    pub cells: Seq<CellModel>,
}

impl View for Span {
    type V = SpanModel;

    open spec fn view(&self) -> SpanModel {
        SpanModel { text: self.text@, style: self.style }
    }
}

impl View for Cell {
    type V = CellModel;

    open spec fn view(&self) -> CellModel {
        CellModel { spans: Seq::new(self.spans@.len(), |i: int| self.spans@[i]@), width: self.width as nat }
    }
}

impl View for Line {
    type V = LineModel;

    open spec fn view(&self) -> LineModel {
        LineModel { to_stderr: self.to_stderr, cells: Seq::new(self.cells@.len(), |i: int| self.cells@[i]@) }
    }
}

/// The contents of lines.
pub open spec fn lines_model(v: Seq<Line>) -> Seq<LineModel> {
    Seq::new(v.len(), |i: int| v[i]@)
}

/// The contents of cells.
pub open spec fn cells_model(v: Seq<Cell>) -> Seq<CellModel> {
    Seq::new(v.len(), |i: int| v[i]@)
}

/// No color, not bold.
pub open spec fn plain() -> Style {
    Style { color: None, bold: false }
}

/// A 24-bit color, not bold.
pub open spec fn rgb(r: u8, g: u8, b: u8) -> Style {
    Style { color: Some(Color::Rgb(r, g, b)), bold: false }
}

/// A 24-bit color, bold.
pub open spec fn rgb_bold(r: u8, g: u8, b: u8) -> Style {
    Style { color: Some(Color::Rgb(r, g, b)), bold: true }
}

/// A named color, not bold.
pub open spec fn colored(c: Color) -> Style {
    Style { color: Some(c), bold: false }
}

/// A cell of one span, not padded.
pub open spec fn cell(text: Seq<char>, style: Style) -> CellModel {
    CellModel { spans: seq![SpanModel { text, style }], width: 0 }
}

/// A line to the standard output.
pub open spec fn out_line(cells: Seq<CellModel>) -> LineModel {
    LineModel { to_stderr: false, cells }
}

/// The empty line.
pub open spec fn blank_line() -> LineModel {
    out_line(Seq::empty())
}

/// The style with no color, not bold.
pub fn plain_style() -> (r: Style)
    ensures
        r == plain(),
{
    Style { color: None, bold: false }
}

/// A 24-bit color, bold or not.
pub fn rgb_style(r: u8, g: u8, b: u8, bold: bool) -> (s: Style)
    ensures
        s == (Style { color: Some(Color::Rgb(r, g, b)), bold }),
{
    Style { color: Some(Color::Rgb(r, g, b)), bold }
}

/// A named color, bold or not.
pub fn color_style(c: Color, bold: bool) -> (s: Style)
    ensures
        s == (Style { color: Some(c), bold }),
{
    Style { color: Some(c), bold }
}

/// A cell of one span.
pub fn text_cell(text: String, style: Style) -> (r: Cell)
    ensures
        r@ == cell(text@, style),
{
    let mut spans: Vec<Span> = Vec::new();
    spans.push(Span { text, style });
    let r = Cell { spans, width: 0 };
    assert(r@.spans =~= seq![SpanModel { text: text@, style }]);
    r
}

/// Appends a cell of one span.
pub fn push_cell(cells: &mut Vec<Cell>, text: String, style: Style)
    ensures
        cells_model(final(cells)@) == cells_model(old(cells)@).push(cell(text@, style)),
{
    let c = text_cell(text, style);
    cells.push(c);
    assert(cells_model(cells@) =~= cells_model(old(cells)@).push(cell(text@, style)));
}

/// Appends a cell of one span whose text is a copy of `text`.
pub fn push_str_cell(cells: &mut Vec<Cell>, text: &str, style: Style)
    ensures
        cells_model(final(cells)@) == cells_model(old(cells)@).push(cell(text@, style)),
{
    push_cell(cells, String::from_str(text), style);
}

/// A line to the standard output.
pub fn stdout_line(cells: Vec<Cell>) -> (r: Line)
    ensures
        r@ == out_line(cells_model(cells@)),
{
    let r = Line { to_stderr: false, cells };
    assert(r@.cells =~= cells_model(cells@));
    r
}

/// Appends a line to the standard output.
pub fn push_line(lines: &mut Vec<Line>, cells: Vec<Cell>)
    ensures
        lines_model(final(lines)@) == lines_model(old(lines)@).push(out_line(cells_model(cells@))),
{
    let l = stdout_line(cells);
    lines.push(l);
    assert(lines_model(lines@) =~= lines_model(old(lines)@).push(out_line(cells_model(cells@))));
}

/// Appends a line.
pub fn push_built(lines: &mut Vec<Line>, l: Line)
    ensures
        lines_model(final(lines)@) == lines_model(old(lines)@).push(l@),
{
    let ghost m = l@;
    lines.push(l);
    assert(lines_model(lines@) =~= lines_model(old(lines)@).push(m));
}

/// Appends lines.
pub fn append_lines(lines: &mut Vec<Line>, more: Vec<Line>)
    ensures
        lines_model(final(lines)@) == lines_model(old(lines)@) + lines_model(more@),
{
    let ghost start = lines_model(lines@);
    let ghost all = lines_model(more@);
    let mut rest = more;
    let mut i: usize = 0;
    assert(all.skip(0) =~= all);
    assert(start =~= start + all.take(0));
    assert(all.len() == rest.len());
    while rest.len() > 0
        invariant
            i + rest@.len() == all.len(),
            all.len() <= usize::MAX,
            lines_model(rest@) == all.skip(i as int),
            lines_model(lines@) == start + all.take(i as int),
        decreases rest@.len(),
    {
        let ghost rv = rest@;
        let l = rest.remove(0);
        assert(lines_model(rv)[0] == all.skip(i as int)[0]);
        assert(lines_model(rest@) =~= all.skip(i + 1)) by {
            assert forall|q: int| 0 <= q < rest@.len() implies #[trigger] lines_model(rest@)[q]
                == all.skip(i + 1)[q] by {
                assert(lines_model(rv)[q + 1] == all.skip(i as int)[q + 1]);
            }
        }
        push_built(lines, l);
        assert(all.take(i + 1) =~= all.take(i as int).push(all[i as int]));
        assert(lines_model(lines@) =~= start + all.take(i + 1));
        i = i + 1;
    }
    assert(all.take(i as int) =~= all);
}

/// Appends the empty line.
pub fn push_blank(lines: &mut Vec<Line>)
    ensures
        lines_model(final(lines)@) == lines_model(old(lines)@).push(blank_line()),
{
    let cells: Vec<Cell> = Vec::new();
    assert(cells_model(cells@) =~= Seq::<CellModel>::empty());
    push_line(lines, cells);
}

} // verus!
