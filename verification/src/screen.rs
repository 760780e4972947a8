//! Styled lines of text, and how wide texts are on a terminal.

use vstd::prelude::*;

use crate::text::{chars_of, repeat_char, run_of, slice_text, two};

verus! {

/// A terminal color.
#[derive(Clone, Copy, Debug, PartialEq, Eq, Structural)]
pub enum Color {
    Reset,
    White,
    Yellow,
    Cyan,
    Rgb(u8, u8, u8),
}

/// How a piece of text is drawn.
#[derive(Clone, Copy, Debug, PartialEq, Eq, Structural)]
pub struct Style {
    pub fg: Option<Color>,
    pub bg: Option<Color>,
    pub bold: bool,
    pub dim: bool,
}

#[verifier::allow_in_spec]
pub fn grey() -> (out: Color)
    returns
        Color::Rgb(145, 145, 155),
{
    Color::Rgb(145, 145, 155)
}

#[verifier::allow_in_spec]
pub fn green() -> (out: Color)
    returns
        Color::Rgb(0, 220, 150),
{
    Color::Rgb(0, 220, 150)
}

#[verifier::allow_in_spec]
pub fn red() -> (out: Color)
    returns
        Color::Rgb(255, 90, 100),
{
    Color::Rgb(255, 90, 100)
}

#[verifier::allow_in_spec]
pub fn yellow() -> (out: Color)
    returns
        Color::Rgb(245, 205, 45),
{
    Color::Rgb(245, 205, 45)
}

#[verifier::allow_in_spec]
pub fn cyan() -> (out: Color)
    returns
        Color::Rgb(125, 207, 255),
{
    Color::Rgb(125, 207, 255)
}

#[verifier::allow_in_spec]
pub fn blue() -> (out: Color)
    returns
        Color::Rgb(122, 162, 247),
{
    Color::Rgb(122, 162, 247)
}

#[verifier::allow_in_spec]
pub fn dim_grey() -> (out: Color)
    returns
        Color::Rgb(86, 95, 137),
{
    Color::Rgb(86, 95, 137)
}

/// Amber, for what expires soonest.
#[verifier::allow_in_spec]
pub fn amber() -> (out: Color)
    returns
        Color::Rgb(245, 175, 45),
{
    Color::Rgb(245, 175, 45)
}

/// The blue of efficiency figures.
#[verifier::allow_in_spec]
pub fn sky() -> (out: Color)
    returns
        Color::Rgb(66, 165, 245),
{
    Color::Rgb(66, 165, 245)
}

/// The background of a selected row.
#[verifier::allow_in_spec]
pub fn selection() -> (out: Color)
    returns
        Color::Rgb(28, 42, 60),
{
    Color::Rgb(28, 42, 60)
}

#[verifier::allow_in_spec]
pub fn plain() -> (out: Style)
    returns
        (Style { fg: None, bg: None, bold: false, dim: false }),
{
    Style { fg: None, bg: None, bold: false, dim: false }
}

#[verifier::allow_in_spec]
pub fn paint(color: Color) -> (out: Style)
    returns
        (Style { fg: Some(color), bg: None, bold: false, dim: false }),
{
    Style { fg: Some(color), bg: None, bold: false, dim: false }
}

#[verifier::allow_in_spec]
pub fn strong(color: Color) -> (out: Style)
    returns
        (Style { fg: Some(color), bg: None, bold: true, dim: false }),
{
    Style { fg: Some(color), bg: None, bold: true, dim: false }
}

#[verifier::allow_in_spec]
pub fn faint(color: Color) -> (out: Style)
    returns
        (Style { fg: Some(color), bg: None, bold: false, dim: true }),
{
    Style { fg: Some(color), bg: None, bold: false, dim: true }
}

/// The style with the background of a selected row where the row is selected.
#[verifier::allow_in_spec]
pub fn lit(style: Style, selected: bool) -> (out: Style)
    returns
        (Style {
            bg: if selected {
                Some(selection())
            } else {
                style.bg
            },
            ..style
        }),
{
    let bg = if selected {
        Some(selection())
    } else {
        style.bg
    };
    Style { fg: style.fg, bg, bold: style.bold, dim: style.dim }
}

/// The style made bold where the row is selected.
#[verifier::allow_in_spec]
pub fn stressed(style: Style, yes: bool) -> (out: Style)
    returns
        (Style { bold: style.bold || yes, ..style }),
{
    Style { fg: style.fg, bg: style.bg, bold: style.bold || yes, dim: style.dim }
}

#[verifier::allow_in_spec]
pub fn dimmed(style: Style, yes: bool) -> (out: Style)
    returns
        (Style { dim: style.dim || yes, ..style }),
{
    Style { fg: style.fg, bg: style.bg, bold: style.bold, dim: style.dim || yes }
}

/// A piece of text in one style.
#[derive(Debug)]
pub struct Span {
    pub content: String,
    pub style: Style,
}

/// What a `Span` shows.
pub struct SpanView {
    pub content: Seq<char>,
    pub style: Style,
}

impl View for Span {
    type V = SpanView;

    open spec fn view(&self) -> SpanView {
        SpanView { content: self.content@, style: self.style }
    }
}

pub open spec fn span_views(spans: Seq<Span>) -> Seq<SpanView> {
    spans.map_values(|span: Span| span@)
}

/// A text in a style.
pub open spec fn cell(content: Seq<char>, style: Style) -> SpanView {
    SpanView { content, style }
}

/// A text without a style.
pub open spec fn raw(content: Seq<char>) -> SpanView {
    SpanView { content, style: plain() }
}

/// The two spaces between columns.
pub open spec fn gap() -> SpanView {
    raw("  "@)
}

/// One line of the screen.
#[derive(Debug)]
pub struct Line {
    pub spans: Vec<Span>,
}

impl View for Line {
    type V = Seq<SpanView>;

    open spec fn view(&self) -> Seq<SpanView> {
        span_views(self.spans@)
    }
}

impl Line {
    pub fn new() -> (out: Line)
        ensures
            out@ == Seq::<SpanView>::empty(),
    {
        let out = Line { spans: Vec::new() };
        assert(out@ =~= Seq::<SpanView>::empty());
        out
    }

    pub fn put(&mut self, content: String, style: Style)
        ensures
            final(self)@ == old(self)@.push(cell(content@, style)),
    {
        let ghost before = self@;
        self.spans.push(Span { content, style });
        assert(self@ =~= before.push(cell(content@, style)));
    }

    pub fn cell(&mut self, content: &str, style: Style)
        ensures
            final(self)@ == old(self)@.push(cell(content@, style)),
    {
        self.put(content.to_owned(), style);
    }

    pub fn raw(&mut self, content: &str)
        ensures
            final(self)@ == old(self)@.push(raw(content@)),
    {
        self.put(content.to_owned(), plain());
    }

    pub fn gap(&mut self)
        ensures
            final(self)@ == old(self)@.push(gap()),
    {
        self.raw("  ");
    }

    /// The text fitted to a column.
    pub fn column(&mut self, content: &str, width: usize, style: Style)
        ensures
            final(self)@ == old(self)@.push(cell(fitted(content@, width as nat), style)),
    {
        self.put(fit(content, width), style);
    }

    pub fn extend(&mut self, more: Line)
        ensures
            final(self)@ == old(self)@ + more@,
    {
        let ghost before = self@;
        let mut more = more;
        let ghost rest = more@;
        self.spans.append(&mut more.spans);
        assert(self@ =~= before + rest);
    }

    /// The text of the line without its styles.
    pub open spec fn text_of(spans: Seq<SpanView>) -> Seq<char>
        decreases spans.len(),
    {
        if spans.len() == 0 {
            Seq::empty()
        } else {
            Line::text_of(spans.drop_last()) + spans.last().content
        }
    }

    pub fn text(&self) -> (out: String)
        ensures
            out@ == Line::text_of(self@),
    {
        let mut out = String::new();
        let mut i: usize = 0;
        assert(out@ =~= Line::text_of(self@.take(0)));
        while i < self.spans.len()
            invariant
                i <= self.spans@.len(),
                out@ == Line::text_of(self@.take(i as int)),
            decreases self.spans@.len() - i,
        {
            assert(self@.take(i + 1).drop_last() =~= self@.take(i as int));
            assert(self@.take(i + 1).last() == self.spans@[i as int]@);
            out.append(self.spans[i].content.as_str());
            i = i + 1;
        }
        assert(self@.take(i as int) =~= self@);
        out
    }
}

/// Lines of the screen, from the top down.
#[derive(Debug)]
pub struct Page {
    pub lines: Vec<Line>,
}

pub open spec fn line_views(lines: Seq<Line>) -> Seq<Seq<SpanView>> {
    lines.map_values(|line: Line| line@)
}

impl View for Page {
    type V = Seq<Seq<SpanView>>;

    open spec fn view(&self) -> Seq<Seq<SpanView>> {
        line_views(self.lines@)
    }
}

/// A line of one text.
pub open spec fn single(content: Seq<char>, style: Style) -> Seq<SpanView> {
    seq![cell(content, style)]
}

/// A line with nothing on it.
pub open spec fn blank() -> Seq<SpanView> {
    Seq::empty()
}

impl Page {
    pub fn new() -> (out: Page)
        ensures
            out@ == Seq::<Seq<SpanView>>::empty(),
    {
        let out = Page { lines: Vec::new() };
        assert(out@ =~= Seq::<Seq<SpanView>>::empty());
        out
    }

    pub fn line(&mut self, line: Line)
        ensures
            final(self)@ == old(self)@.push(line@),
    {
        let ghost before = self@;
        self.lines.push(line);
        assert(self@ =~= before.push(line@));
    }

    pub fn blank(&mut self)
        ensures
            final(self)@ == old(self)@.push(blank()),
    {
        self.line(Line::new());
    }

    pub fn single(&mut self, content: &str, style: Style)
        ensures
            final(self)@ == old(self)@.push(single(content@, style)),
    {
        let mut line = Line::new();
        line.cell(content, style);
        self.line(line);
    }

    pub fn extend(&mut self, more: Page)
        ensures
            final(self)@ == old(self)@ + more@,
    {
        let ghost before = self@;
        let mut more = more;
        let ghost rest = more@;
        self.lines.append(&mut more.lines);
        assert(self@ =~= before + rest);
    }
}

/// How many columns a text takes on a terminal.
pub uninterp spec fn text_columns(text: Seq<char>) -> usize;

/// `unicode_width::UnicodeWidthStr::width`: the columns that the text takes.
/// The width rests on the text alone; how it is found is not stated.
#[verifier::external_body]
pub(crate) fn str_width(text: &str) -> (out: usize)
    ensures
        out == text_columns(text@),
{
    unicode_width::UnicodeWidthStr::width(text)
}

/// How many columns a character takes on a terminal, where it is no control
/// character.
pub uninterp spec fn char_columns(c: char) -> Option<usize>;

/// `unicode_width::UnicodeWidthChar::width`: the columns that the character
/// takes, none for a control character. How the width is found is not stated.
#[verifier::external_body]
fn char_width(c: char) -> (out: Option<usize>)
    ensures
        out == char_columns(c),
{
    unicode_width::UnicodeWidthChar::width(c)
}

pub open spec fn columns_of(c: char) -> nat {
    match char_columns(c) {
        Some(columns) => columns as nat,
        None => 0,
    }
}

/// Where a text must be cut so that the characters from `at` on take no more
/// than `room` columns.
pub open spec fn cut(text: Seq<char>, at: int, room: int) -> int
    decreases text.len() - at,
{
    if at < 0 || at >= text.len() {
        at
    } else if columns_of(text[at]) > room {
        at
    } else {
        cut(text, at + 1, room - columns_of(text[at]))
    }
}

/// The text made to fill `width` columns: with spaces behind it, or cut short
/// before an ellipsis.
pub open spec fn fitted(text: Seq<char>, width: nat) -> Seq<char> {
    let shortened = text.take(cut(text, 0, width - 1)).push('…');
    if width == 0 {
        Seq::empty()
    } else if text_columns(text) <= width {
        text + run_of(' ', (width - text_columns(text)) as nat)
    } else if width == 1 {
        "…"@
    } else if text_columns(shortened) < width {
        shortened + run_of(' ', (width - text_columns(shortened)) as nat)
    } else {
        shortened
    }
}

pub fn fit(text: &str, width: usize) -> (out: String)
    ensures
        out@ == fitted(text@, width as nat),
{
    if width == 0 {
        let out = String::new();
        assert(out@ =~= Seq::<char>::empty());
        return out;
    }
    let columns: usize = str_width(text);
    if columns <= width {
        return two(text, repeat_char(' ', width - columns).as_str());
    }
    if width == 1 {
        return "…".to_owned();
    }
    let chars = chars_of(text);
    let total: usize = chars.len();
    let mut at: usize = 0;
    let mut room: usize = width - 1;
    while at < total
        invariant_except_break
            at <= total,
            total == chars@.len(),
            chars@ == text@,
            cut(text@, at as int, room as int) == cut(text@, 0, width - 1),
        ensures
            at <= total,
            at == cut(text@, 0, width - 1),
        decreases total - at,
    {
        let columns: usize = match char_width(chars[at]) {
            Some(columns) => columns,
            None => 0,
        };
        if columns > room {
            break ;
        }
        room = room - columns;
        at = at + 1;
    }
    let mut out = slice_text(chars.as_slice(), 0, at);
    assert(text@.subrange(0, at as int) =~= text@.take(at as int));
    out.push('…');
    let columns: usize = str_width(out.as_str());
    if columns < width {
        out.append(repeat_char(' ', width - columns).as_str());
    }
    out
}

/// A banner, and a rule behind it to the edge of the screen.
pub open spec fn ruled(banner: Seq<char>, style: Style, width: nat) -> Seq<SpanView> {
    let rest: nat = if text_columns(banner) < width {
        (width - text_columns(banner)) as nat
    } else {
        0
    };
    seq![cell(banner, style), cell(run_of('─', rest), paint(dim_grey()))]
}

pub fn rule_behind(banner: &str, style: Style, width: usize) -> (out: Line)
    ensures
        out@ == ruled(banner@, style, width as nat),
{
    let columns: usize = str_width(banner);
    let rest: usize = if columns < width {
        width - columns
    } else {
        0
    };
    let mut out = Line::new();
    out.cell(banner, style);
    out.put(repeat_char('─', rest), paint(dim_grey()));
    out
}

/// A rule across the screen.
pub open spec fn rule(width: nat, color: Color) -> Seq<SpanView> {
    single(run_of('─', width), paint(color))
}

pub fn rule_line(width: usize, color: Color) -> (out: Line)
    ensures
        out@ == rule(width as nat, color),
{
    let mut out = Line::new();
    out.put(repeat_char('─', width), paint(color));
    out
}

/// The mark before a row, which stands out where the row is selected.
pub open spec fn cursor(selected: bool) -> SpanView {
    if selected {
        cell("▶ "@, strong(Color::Yellow))
    } else {
        cell("  "@, strong(Color::Reset))
    }
}

pub fn put_cursor(line: &mut Line, selected: bool)
    ensures
        final(line)@ == old(line)@.push(cursor(selected)),
{
    if selected {
        line.cell("▶ ", strong(Color::Yellow));
    } else {
        line.cell("  ", strong(Color::Reset));
    }
}

/// The columns that the characters take one by one.
pub open spec fn taken_columns(text: Seq<char>) -> nat
    decreases text.len(),
{
    if text.len() == 0 {
        0
    } else {
        taken_columns(text.drop_last()) + columns_of(text.last())
    }
}

proof fn lemma_cut(text: Seq<char>, at: int, room: int)
    requires
        0 <= at <= text.len(),
        room >= 0,
    ensures
        at <= cut(text, at, room) <= text.len(),
        taken_columns(text.take(cut(text, at, room))) <= taken_columns(text.take(at)) + room,
        cut(text, at, room) < text.len() ==> taken_columns(
            text.take(cut(text, at, room) + 1),
        ) > taken_columns(text.take(at)) + room,
    decreases text.len() - at,
{
    if at < text.len() {
        assert(text.take(at + 1).drop_last() =~= text.take(at));
        if columns_of(text[at]) <= room {
            lemma_cut(text, at + 1, room - columns_of(text[at]));
        }
    }
}

/// A text that fits is kept whole, with nothing but blanks behind it.
pub proof fn law_fitting_text_is_kept(text: Seq<char>, width: nat, i: int)
    requires
        width > 0,
        text_columns(text) <= width,
    ensures
        fitted(text, width).len() == text.len() + (width - text_columns(text)),
        0 <= i < text.len() ==> fitted(text, width)[i] == text[i],
        text.len() <= i < fitted(text, width).len() ==> fitted(text, width)[i] == ' ',
{
}

/// A text that does not fit keeps as many of its first characters as leave a column
/// free, and the mark that something was left out stands behind them.
pub proof fn law_cut_text_keeps_its_start(text: Seq<char>, width: nat) -> (kept: int)
    requires
        width > 1,
        text_columns(text) > width,
    ensures
        0 <= kept <= text.len(),
        kept < fitted(text, width).len(),
        fitted(text, width).take(kept) == text.take(kept),
        fitted(text, width)[kept] == '…',
        forall|i: int|
            kept < i < fitted(text, width).len() ==> #[trigger] fitted(text, width)[i] == ' ',
        taken_columns(text.take(kept)) < width,
        kept < text.len() ==> taken_columns(text.take(kept + 1)) >= width,
{
    let kept = cut(text, 0, width - 1);
    lemma_cut(text, 0, width - 1);
    assert(taken_columns(text.take(0)) == 0);
    assert(fitted(text, width).take(kept) =~= text.take(kept));
    kept
}

} // verus!
