//! What stands around the body of the screen: header, footer, scrolling; and
//! the settings screen.

use vstd::prelude::*;

use crate::credentials::Credentials;
use crate::labels::{age, age_text, color_of_name, name_color};
use crate::limits::{provider_views, Availability, ProviderSnapshot, ProviderView, SourceHealth};
use crate::monitor::{refresh_interval, refresh_seconds, setup_word, App, AppView, Tab};
use crate::registry::{display_name, shown_name};
use crate::screen::{blank, blue, cell, cyan, dim_grey, fitted, gap, green, grey, paint, raw, red};
use crate::screen::{rule, rule_line, single, str_width, stressed, strong, text_columns, yellow};
use crate::screen::{Color, Line, Page, SpanView, Style};
use crate::setup::{credential_of, credential_spec, CredentialSpec, SettingsState, SettingsView};
use crate::text::{char_count, contains, decimal, decimal_text, has_text, maybe_str, repeat_char};
use crate::text::{run_of, same, three, two};

verus! {

/// The columns that a line takes.
pub open spec fn line_columns(spans: Seq<SpanView>) -> int
    decreases spans.len(),
{
    if spans.len() == 0 {
        0
    } else {
        line_columns(spans.drop_last()) + text_columns(spans.last().content)
    }
}

pub(crate) fn line_width(line: &Line) -> (out: u128)
    requires
        line@.len() <= 1000,
    ensures
        out == line_columns(line@),
        out <= 1000 * 0xffff_ffff_ffff_ffff,
{
    let ghost views = line@;
    let mut out: u128 = 0;
    let mut i: usize = 0;
    assert(line_columns(views.take(0)) == 0);
    while i < line.spans.len()
        invariant
            i <= line.spans@.len() <= 1000,
            views == line@,
            out == line_columns(views.take(i as int)),
            out <= i * 0xffff_ffff_ffff_ffff,
        decreases line.spans@.len() - i,
    {
        assert(views.take(i + 1).drop_last() =~= views.take(i as int));
        assert(views.take(i + 1).last() == line.spans@[i as int]@);
        out = out + str_width(line.spans[i].content.as_str()) as u128;
        i = i + 1;
    }
    assert(views.take(i as int) =~= views);
    out
}

/// The columns that are left of a width.
pub open spec fn columns_left(width: int, used: int) -> int {
    if used < width {
        width - used
    } else {
        0
    }
}

/// How many rows are ready, need attention or hold money, and when the last of
/// them was collected.
pub struct Census {
    pub ready: nat,
    pub attention: nat,
    pub wallets: nat,
    pub updated_at: i64,
}

pub open spec fn ready(row: ProviderView) -> bool {
    row.availability is Available && row.source_health is Connected
}

pub open spec fn census(rows: Seq<ProviderView>) -> Census
    decreases rows.len(),
{
    if rows.len() == 0 {
        Census { ready: 0, attention: 0, wallets: 0, updated_at: 0 }
    } else {
        let before = census(rows.drop_last());
        let row = rows.last();
        Census {
            ready: if ready(row) {
                before.ready + 1
            } else {
                before.ready
            },
            attention: if ready(row) {
                before.attention
            } else {
                before.attention + 1
            },
            wallets: if row.holds_credit() || row.pay_as_you_go() {
                before.wallets + 1
            } else {
                before.wallets
            },
            updated_at: if rows.len() == 1 || row.collected_at_ms > before.updated_at {
                row.collected_at_ms
            } else {
                before.updated_at
            },
        }
    }
}

fn count_rows(rows: &Vec<ProviderSnapshot>) -> (out: (usize, usize, usize, i64))
    ensures
        out.0 == census(provider_views(rows@)).ready,
        out.1 == census(provider_views(rows@)).attention,
        out.2 == census(provider_views(rows@)).wallets,
        out.3 == census(provider_views(rows@)).updated_at,
{
    let ghost views = provider_views(rows@);
    let mut ready: usize = 0;
    let mut attention: usize = 0;
    let mut wallets: usize = 0;
    let mut updated_at: i64 = 0;
    let mut i: usize = 0;
    while i < rows.len()
        invariant
            i <= rows@.len(),
            views == provider_views(rows@),
            ready == census(views.take(i as int)).ready,
            attention == census(views.take(i as int)).attention,
            wallets == census(views.take(i as int)).wallets,
            updated_at == census(views.take(i as int)).updated_at,
            ready <= i,
            attention <= i,
            wallets <= i,
        decreases rows@.len() - i,
    {
        let row = &rows[i];
        assert(views.take(i + 1).drop_last() =~= views.take(i as int));
        assert(views.take(i + 1).last() == row@);
        if row.availability == Availability::Available && row.source_health
            == SourceHealth::Connected {
            ready = ready + 1;
        } else {
            attention = attention + 1;
        }
        if row.has_credits() || row.payg() {
            wallets = wallets + 1;
        }
        if i == 0 || row.collected_at_ms > updated_at {
            updated_at = row.collected_at_ms;
        }
        i = i + 1;
    }
    assert(views.take(i as int) =~= views);
    (ready, attention, wallets, updated_at)
}

/// A refresh is under way, or was asked for less than a second and a half ago.
pub open spec fn refreshing(app: AppView, tick_ms: u64) -> bool {
    ||| app.ui.tab is Consumption && app.ui.usage_busy
    ||| !(app.ui.tab is Consumption) && app.ui.limits_busy
    ||| tick_ms - app.ui.last_refresh_ms < 1500
}

fn is_refreshing(app: &App, tick_ms: u64) -> (yes: bool)
    ensures
        yes == refreshing(app@, tick_ms),
{
    let busy = if app.ui.tab == Tab::Consumption {
        app.ui.usage_busy
    } else {
        app.ui.limits_busy
    };
    busy || tick_ms < app.ui.last_refresh_ms || tick_ms - app.ui.last_refresh_ms < 1500
}

pub open spec fn tab_style(active: bool) -> Style {
    if active {
        strong(cyan())
    } else {
        paint(grey())
    }
}

fn style_of_tab(active: bool) -> (out: Style)
    ensures
        out == tab_style(active),
{
    if active {
        strong(cyan())
    } else {
        paint(grey())
    }
}

/// The name of the monitor and its screens.
pub open spec fn brand_cells(tab: Tab) -> Seq<SpanView> {
    seq![
        cell("TOKEN MONITOR"@, strong(Color::White)),
        raw("  "@),
        cell("[1] Limits"@, tab_style(tab is Limits)),
        raw(" "@),
        cell("[2] Ledger"@, tab_style(tab is Consumption)),
        raw(" "@),
        cell("[3] Config"@, tab_style(tab is Settings)),
    ]
}

fn brand_line(tab: Tab) -> (out: Line)
    ensures
        out@ == brand_cells(tab),
        out@.len() == 7,
{
    let mut line = Line::new();
    line.cell("TOKEN MONITOR", strong(Color::White));
    line.raw("  ");
    line.cell("[1] Limits", style_of_tab(tab == Tab::Limits));
    line.raw(" ");
    line.cell("[2] Ledger", style_of_tab(tab == Tab::Consumption));
    line.raw(" ");
    line.cell("[3] Config", style_of_tab(tab == Tab::Settings));
    line
}

/// That a refresh is under way, or how often there is one.
pub open spec fn refresh_cell(refreshing: bool, seconds: u64) -> SpanView {
    if refreshing {
        cell("↻ refreshing..."@, strong(yellow()))
    } else {
        cell("↻ "@ + decimal(refresh_interval(seconds) as nat) + "s"@, paint(grey()))
    }
}

fn put_refresh(line: &mut Line, refreshing: bool, seconds: u64)
    ensures
        final(line)@ == old(line)@.push(refresh_cell(refreshing, seconds)),
{
    if refreshing {
        line.cell("↻ refreshing...", strong(yellow()));
    } else {
        line.put(
            three("↻ ", decimal_text(refresh_seconds(seconds)).as_str(), "s"),
            paint(grey()),
        );
    }
}

/// The counts of the rows, and the refresh.
pub open spec fn summary_cells(counts: Census, refreshing: bool, seconds: u64) -> Seq<SpanView> {
    seq![
        cell("● "@ + decimal(counts.ready) + " ready"@, paint(green())),
        raw(" · "@),
        cell(
            "▲ "@ + decimal(counts.attention) + " attention"@,
            paint(
                if counts.attention > 0 {
                    yellow()
                } else {
                    grey()
                },
            ),
        ),
        raw(" · "@),
        cell("◈ "@ + decimal(counts.wallets) + " wallets"@, paint(blue())),
        raw(" · "@),
        refresh_cell(refreshing, seconds),
    ]
}

fn summary_line(
    ready: usize,
    attention: usize,
    wallets: usize,
    refreshing: bool,
    seconds: u64,
) -> (out: Line)
    ensures
        out@ == summary_cells(
            (Census {
                ready: ready as nat,
                attention: attention as nat,
                wallets: wallets as nat,
                updated_at: 0,
            }),
            refreshing,
            seconds,
        ),
        out@.len() == 7,
{
    let mut line = Line::new();
    line.put(three("● ", decimal_text(ready as u64).as_str(), " ready"), paint(green()));
    line.raw(" · ");
    let color = if attention > 0 {
        yellow()
    } else {
        grey()
    };
    line.put(three("▲ ", decimal_text(attention as u64).as_str(), " attention"), paint(color));
    line.raw(" · ");
    line.put(three("◈ ", decimal_text(wallets as u64).as_str(), " wallets"), paint(blue()));
    line.raw(" · ");
    put_refresh(&mut line, refreshing, seconds);
    line
}

/// The first line: the brand, and to the right as much as there is room for.
pub open spec fn title_line(app: AppView, width: int, seconds: u64, tick_ms: u64) -> Seq<SpanView> {
    let brand = brand_cells(app.ui.tab);
    let now = refreshing(app, tick_ms);
    let counts = Census { updated_at: 0, ..census(app.providers) };
    let summary = summary_cells(counts, now, seconds);
    let refresh = refresh_cell(now, seconds);
    let full = columns_left(width, line_columns(brand) + line_columns(summary));
    let compact = columns_left(width, line_columns(brand) + text_columns(refresh.content));
    if width >= 105 && full > 1 {
        brand.push(raw(run_of(' ', full as nat))) + summary
    } else if width >= 55 && compact > 1 {
        brand.push(raw(run_of(' ', compact as nat))).push(refresh)
    } else {
        brand
    }
}

fn left_of(width: u16, used: u128) -> (out: usize)
    ensures
        out == columns_left(width as int, used as int),
{
    if used < width as u128 {
        (width as u128 - used) as usize
    } else {
        0
    }
}

fn title_of(app: &App, width: u16, seconds: u64, tick_ms: u64) -> (out: Line)
    ensures
        out@ == title_line(app@, width as int, seconds, tick_ms),
{
    let now = is_refreshing(app, tick_ms);
    let (ready, attention, wallets, _) = count_rows(&app.providers);
    let mut line = brand_line(app.ui.tab);
    let summary = summary_line(ready, attention, wallets, now, seconds);
    let mut refresh = Line::new();
    put_refresh(&mut refresh, now, seconds);
    let brand_width: u128 = line_width(&line);
    let full: usize = left_of(width, brand_width + line_width(&summary));
    let ghost single_cell = refresh@;
    assert(single_cell.drop_last() =~= Seq::<SpanView>::empty());
    assert(line_columns(single_cell.drop_last()) == 0);
    let compact: usize = left_of(width, brand_width + line_width(&refresh));
    if width >= 105 && full > 1 {
        line.raw(repeat_char(' ', full).as_str());
        line.extend(summary);
    } else if width >= 55 && compact > 1 {
        line.raw(repeat_char(' ', compact).as_str());
        put_refresh(&mut line, now, seconds);
    }
    line
}

/// What the monitor collects from.
pub open spec fn mode_words(app: AppView) -> Seq<char> {
    if app.ui.live {
        "native collector · live read-only"@
    } else if app.ui.refreshes == 0 {
        "native collector · fixture"@
    } else {
        "native collector · refreshed"@
    }
}

/// The second line: how many rows are shown and how old they are.
pub open spec fn subtitle_line(app: AppView, tick_ms: u64, now_ms: i64) -> Seq<SpanView> {
    let shown = decimal(app.visible().len()) + "/"@ + decimal(app.providers.len());
    seq![
        cell(
            shown + " shown · updated "@ + age(census(app.providers).updated_at, now_ms) + " · "@,
            paint(dim_grey()),
        ),
        if refreshing(app, tick_ms) {
            cell("↻ refreshing..."@, strong(yellow()))
        } else {
            cell(mode_words(app), paint(dim_grey()))
        },
    ]
}

fn subtitle_of(app: &App, tick_ms: u64, now_ms: i64) -> (out: Line)
    ensures
        out@ == subtitle_line(app@, tick_ms, now_ms),
{
    let visible: usize = {
        let rows = app.visible_providers();
        assert(crate::labels::row_views(rows@).len() == rows@.len());
        rows.len()
    };
    let total: usize = app.providers.len();
    assert(app@.providers.len() == total);
    let (_, _, _, updated_at) = count_rows(&app.providers);
    let shown = three(
        decimal_text(visible as u64).as_str(),
        "/",
        decimal_text(total as u64).as_str(),
    );
    let age = age_text(updated_at, now_ms);
    let mut line = Line::new();
    let words = crate::text::four(shown.as_str(), " shown · updated ", age.as_str(), " · ");
    line.put(words, paint(dim_grey()));
    if is_refreshing(app, tick_ms) {
        line.cell("↻ refreshing...", strong(yellow()));
    } else if app.ui.live {
        line.cell("native collector · live read-only", paint(dim_grey()));
    } else if app.ui.refreshes == 0 {
        line.cell("native collector · fixture", paint(dim_grey()));
    } else {
        line.cell("native collector · refreshed", paint(dim_grey()));
    }
    line
}

/// The header: two lines.
pub open spec fn header(app: AppView, width: int, seconds: u64, tick_ms: u64, now_ms: i64) -> Seq<
    Seq<SpanView>,
> {
    seq![title_line(app, width, seconds, tick_ms), subtitle_line(app, tick_ms, now_ms)]
}

pub fn header_lines(app: &App, width: u16, seconds: u64, tick_ms: u64, now_ms: i64) -> (out: Page)
    ensures
        out@ == header(app@, width as int, seconds, tick_ms, now_ms),
{
    let mut page = Page::new();
    page.line(title_of(app, width, seconds, tick_ms));
    page.line(subtitle_of(app, tick_ms, now_ms));
    page
}

/// While a refresh is under way, both lines of a header with room for it say
/// so.
pub proof fn law_header_shows_refreshes(
    app: AppView,
    width: int,
    seconds: u64,
    tick_ms: u64,
    now_ms: i64,
)
    requires
        refreshing(app, tick_ms),
        width >= 55,
        columns_left(
            width,
            line_columns(brand_cells(app.ui.tab)) + text_columns("↻ refreshing..."@),
        ) > 1,
    ensures
        header(app, width, seconds, tick_ms, now_ms)[0].last().content == "↻ refreshing..."@,
        header(app, width, seconds, tick_ms, now_ms)[1].last().content == "↻ refreshing..."@,
{
}

/// The keys that the screen answers to.
pub open spec fn footer(app: AppView, width: int) -> Seq<char> {
    let query = app.search_query;
    let window = app.ui.ledger_window.name();
    if app.ui.searching {
        "  FILTER: /"@ + query + "█  (Enter to lock · Esc to cancel)"@
    } else if query.len() > 0 {
        if width < 110 {
            "[1] Limits  [2] Ledger  [3] Config │ Filter: \""@ + query
                + "\"*  [Esc] Clear │ [Enter] Detail  [q] Quit"@
        } else {
            "[1] Limits  [2] Ledger  [3] Config │ Filter: \""@ + query
                + "\"*  [Esc] Clear  [/] Edit │ [j/k] Select  [Enter] Detail  [q] Quit"@
        }
    } else if width < 110 {
        if app.ui.tab is Consumption {
            "[1] Limits  [2] Ledger*  [3] Config │ [h/l] Win:"@ + window
                + "  [r] Ref  [Enter] Detail  [q] Quit"@
        } else if app.ui.tab is Settings {
            "[1] Limits  [2] Ledger  [3] Config* │ [Enter] Edit  [r] Ref  [Esc] Back  [q] Quit"@
        } else {
            "[1] Limits*  [2] Ledger  [3] Config │ [/] Filter  [Enter] Detail  [r] Ref  [q] Quit"@
        }
    } else {
        if app.ui.tab is Consumption {
            "[1] Limits  [2] Ledger*  [3] Config │ [h/l / ←/→] Window: "@ + window
                + "  [/] Filter  [m] Metric  [Enter] Detail  [r] Refresh  [q] Quit"@
        } else if app.ui.tab is Settings {
            "[1] Limits  [2] Ledger  [3] Config* │ [Enter] Edit  [d] Delete  [r] Refresh  [Esc] Back  [q] Quit"@
        } else {
            "[1] Limits*  [2] Ledger  [3] Config │ [/] Filter  [j/k] Select  [Enter] Detail  [a] Attn  [c] Credits  [r] Refresh  [q] Quit"@
        }
    }
}

pub fn footer_text(app: &App, width: u16) -> (out: String)
    ensures
        out@ == footer(app@, width as int),
{
    let query = app.search_query.as_str();
    let window = app.ui.ledger_window.label();
    if app.ui.searching {
        three("  FILTER: /", query, "█  (Enter to lock · Esc to cancel)")
    } else if char_count(query) > 0 {
        if width < 110 {
            three(
                "[1] Limits  [2] Ledger  [3] Config │ Filter: \"",
                query,
                "\"*  [Esc] Clear │ [Enter] Detail  [q] Quit",
            )
        } else {
            three(
                "[1] Limits  [2] Ledger  [3] Config │ Filter: \"",
                query,
                "\"*  [Esc] Clear  [/] Edit │ [j/k] Select  [Enter] Detail  [q] Quit",
            )
        }
    } else if width < 110 {
        match app.ui.tab {
            Tab::Consumption => three(
                "[1] Limits  [2] Ledger*  [3] Config │ [h/l] Win:",
                window,
                "  [r] Ref  [Enter] Detail  [q] Quit",
            ),
            Tab::Settings => "[1] Limits  [2] Ledger  [3] Config* │ [Enter] Edit  [r] Ref  [Esc] Back  [q] Quit".to_owned(),
            Tab::Limits => "[1] Limits*  [2] Ledger  [3] Config │ [/] Filter  [Enter] Detail  [r] Ref  [q] Quit".to_owned(),
        }
    } else {
        match app.ui.tab {
            Tab::Consumption => three(
                "[1] Limits  [2] Ledger*  [3] Config │ [h/l / ←/→] Window: ",
                window,
                "  [/] Filter  [m] Metric  [Enter] Detail  [r] Refresh  [q] Quit",
            ),
            Tab::Settings => "[1] Limits  [2] Ledger  [3] Config* │ [Enter] Edit  [d] Delete  [r] Refresh  [Esc] Back  [q] Quit".to_owned(),
            Tab::Limits => "[1] Limits*  [2] Ledger  [3] Config │ [/] Filter  [j/k] Select  [Enter] Detail  [a] Attn  [c] Credits  [r] Refresh  [q] Quit".to_owned(),
        }
    }
}

/// Some text of the line marks the selection.
pub open spec fn marked(line: Seq<SpanView>) -> bool {
    exists|i: int|
        0 <= i < line.len() && (contains((#[trigger] line[i]).content, "▶"@) || contains(
            line[i].content,
            "›"@,
        ))
}

/// The first line, from `from` on, that marks the selection.
pub open spec fn cursor_line(lines: Seq<Seq<SpanView>>, from: int) -> Option<int>
    decreases lines.len() - from,
{
    if from < 0 || from >= lines.len() {
        None
    } else if marked(lines[from]) {
        Some(from)
    } else {
        cursor_line(lines, from + 1)
    }
}

/// How far the body is scrolled: not at all where it fits, else so that the
/// selected line is visible and the last page is not left.
pub open spec fn effective_scroll(lines: Seq<Seq<SpanView>>, scroll: u16, viewport: u16) -> int {
    let total = lines.len() % 0x1_0000;
    let most = total - viewport;
    let wanted = match cursor_line(lines, 0) {
        Some(at) => {
            let line = (at as nat) % 0x1_0000;
            if line < scroll {
                line as int
            } else if line >= scroll + viewport {
                line + 1 - viewport
            } else {
                scroll as int
            }
        },
        None => scroll as int,
    };
    if total <= viewport {
        0
    } else if wanted < most {
        wanted
    } else {
        most
    }
}

fn is_marked(line: &Line) -> (yes: bool)
    ensures
        yes == marked(line@),
{
    let ghost views = line@;
    let mut i: usize = 0;
    while i < line.spans.len()
        invariant
            i <= line.spans@.len(),
            views == line@,
            forall|k: int|
                0 <= k < i ==> !(contains((#[trigger] views[k]).content, "▶"@) || contains(
                    views[k].content,
                    "›"@,
                )),
        decreases line.spans@.len() - i,
    {
        let content = line.spans[i].content.as_str();
        assert(views[i as int].content == content@);
        if has_text(content, "▶") || has_text(content, "›") {
            return true;
        }
        i = i + 1;
    }
    false
}

fn find_cursor(page: &Page) -> (out: Option<usize>)
    ensures
        cursor_line(page@, 0) == match out {
            Some(at) => Some(at as int),
            None => None,
        },
{
    let ghost views = page@;
    let mut i: usize = 0;
    while i < page.lines.len()
        invariant
            i <= page.lines@.len(),
            views == page@,
            cursor_line(views, 0) == cursor_line(views, i as int),
        decreases page.lines@.len() - i,
    {
        assert(views[i as int] == page.lines@[i as int]@);
        if is_marked(&page.lines[i]) {
            return Some(i);
        }
        i = i + 1;
    }
    None
}

pub fn scroll_of(page: &Page, scroll: u16, viewport: u16) -> (out: u16)
    ensures
        out == effective_scroll(page@, scroll, viewport),
{
    assert(page@.len() == page.lines@.len());
    let total: u32 = (page.lines.len() % 0x1_0000) as u32;
    if total <= viewport as u32 {
        return 0;
    }
    let most: u32 = total - viewport as u32;
    let wanted: u32 = match find_cursor(page) {
        Some(at) => {
            let line: u32 = (at % 0x1_0000) as u32;
            if line < scroll as u32 {
                line
            } else if line >= scroll as u32 + viewport as u32 {
                line + 1 - viewport as u32
            } else {
                scroll as u32
            }
        },
        None => scroll as u32,
    };
    if wanted < most {
        wanted as u16
    } else {
        most as u16
    }
}

/// Nothing is scrolled where all lines fit; a screen is never scrolled past its
/// last page; and the selected line is on the screen.
pub proof fn law_scroll_shows_the_selection(
    lines: Seq<Seq<SpanView>>,
    scroll: u16,
    viewport: u16,
)
    requires
        lines.len() < 0x1_0000,
        viewport > 0,
    ensures
        lines.len() <= viewport ==> effective_scroll(lines, scroll, viewport) == 0,
        lines.len() > viewport ==> effective_scroll(lines, scroll, viewport) + viewport
            <= lines.len(),
        lines.len() > viewport && cursor_line(lines, 0) is Some ==> {
            let top = effective_scroll(lines, scroll, viewport);
            top <= cursor_line(lines, 0)->0 < top + viewport
        },
{
    lemma_cursor_line(lines, 0);
}

proof fn lemma_cursor_line(lines: Seq<Seq<SpanView>>, from: int)
    requires
        from >= 0,
    ensures
        cursor_line(lines, from) matches Some(at) ==> from <= at < lines.len(),
    decreases lines.len() - from,
{
    if from < lines.len() && !marked(lines[from]) {
        lemma_cursor_line(lines, from + 1);
    }
}

/// The style of a setup state.
pub open spec fn setup_style(status: Seq<char>) -> Style {
    if status == "connected"@ || status == "saved · refresh"@ {
        paint(green())
    } else if status == "unauthorized"@ || status == "error"@ || status == "exhausted"@ || status
        == "blocked"@ {
        paint(red())
    } else if status == "stale"@ {
        paint(yellow())
    } else {
        paint(grey())
    }
}

pub fn settings_status_style(status: &str) -> (out: Style)
    ensures
        out == setup_style(status@),
{
    if same(status, "connected") || same(status, "saved · refresh") {
        paint(green())
    } else if same(status, "unauthorized") || same(status, "error") || same(status, "exhausted")
        || same(status, "blocked") {
        paint(red())
    } else if same(status, "stale") {
        paint(yellow())
    } else {
        paint(grey())
    }
}

/// What is entered, masked.
pub open spec fn masked_input(input: Seq<char>) -> Seq<char> {
    if input.len() == 0 {
        "(empty)"@
    } else {
        run_of('•', input.len())
    }
}

/// A message below the rest, where there is one.
pub open spec fn message_lines(message: Seq<char>) -> Seq<Seq<SpanView>> {
    if message.len() > 0 {
        seq![single(message, paint(yellow()))]
    } else {
        Seq::empty()
    }
}

/// What a provider's credential is and where to get it.
pub open spec fn edit_head(spec: CredentialSpec, provider: Seq<char>) -> Seq<Seq<SpanView>> {
    seq![
        single("SETTINGS · configure "@ + shown_name(provider), strong(Color::White)),
        blank(),
        seq![raw("credential type · "@ + spec.kind.name())],
        seq![raw("provider page · https://"@ + spec.url@)],
        seq![raw("flow · open page → copy credential → paste here → Enter"@)],
        single(spec.instruction@, paint(grey())),
    ]
}

/// How a credential starts, where that is known.
pub open spec fn edit_prefix(spec: CredentialSpec) -> Seq<Seq<SpanView>> {
    if spec.prefix@.len() > 0 {
        seq![seq![raw("expected prefix · "@ + spec.prefix@)]]
    } else {
        Seq::empty()
    }
}

/// The line on which a credential is entered.
pub open spec fn secret_line(input: Seq<char>) -> Seq<SpanView> {
    seq![cell("secret · "@, paint(grey())), cell(masked_input(input), paint(Color::White))]
}

/// What is entered and where it will be stored.
pub open spec fn edit_rest(input: Seq<char>, path: Option<Seq<char>>) -> Seq<Seq<SpanView>> {
    seq![
        blank(),
        secret_line(input),
        seq![
            raw(
                "store · "@ + match path {
                    Some(path) => path,
                    None => "unavailable"@,
                },
            ),
        ],
        seq![raw("Enter save · Esc cancel · paste is accepted directly"@)],
    ]
}

/// The screen on which a credential is entered.
pub open spec fn edit_page(
    settings: SettingsView,
    spec: CredentialSpec,
    provider: Seq<char>,
    path: Option<Seq<char>>,
) -> Seq<Seq<SpanView>> {
    edit_head(spec, provider) + edit_prefix(spec) + edit_rest(settings.input, path)
        + message_lines(settings.message)
}

fn put_raw(page: &mut Page, content: &str)
    ensures
        final(page)@ == old(page)@.push(seq![raw(content@)]),
{
    let mut line = Line::new();
    line.raw(content);
    page.line(line);
}

fn show_edit_head(spec: &CredentialSpec, provider: &str) -> (out: Page)
    ensures
        out@ == edit_head(*spec, provider@),
{
    let mut page = Page::new();
    page.single(
        two("SETTINGS · configure ", display_name(provider)).as_str(),
        strong(Color::White),
    );
    page.blank();
    put_raw(&mut page, two("credential type · ", spec.kind.label()).as_str());
    put_raw(&mut page, two("provider page · https://", spec.url).as_str());
    put_raw(&mut page, "flow · open page → copy credential → paste here → Enter");
    page.single(spec.instruction, paint(grey()));
    page
}

fn show_edit_prefix(spec: &CredentialSpec) -> (out: Page)
    ensures
        out@ == edit_prefix(*spec),
{
    let mut page = Page::new();
    if char_count(spec.prefix) > 0 {
        put_raw(&mut page, two("expected prefix · ", spec.prefix).as_str());
    }
    page
}

fn show_secret(input: &str) -> (out: Line)
    ensures
        out@ == secret_line(input@),
{
    let mut line = Line::new();
    line.cell("secret · ", paint(grey()));
    let count: usize = char_count(input);
    if count == 0 {
        line.cell("(empty)", paint(Color::White));
    } else {
        line.put(repeat_char('•', count), paint(Color::White));
    }
    line
}

fn show_edit_rest(input: &str, path: Option<&str>) -> (out: Page)
    ensures
        out@ == edit_rest(input@, maybe_str(path)),
{
    let mut page = Page::new();
    page.blank();
    page.line(show_secret(input));
    let place = match path {
        Some(path) => path,
        None => "unavailable",
    };
    put_raw(&mut page, two("store · ", place).as_str());
    put_raw(&mut page, "Enter save · Esc cancel · paste is accepted directly");
    page
}

fn show_edit(settings: &SettingsState, spec: &CredentialSpec, provider: &str, path: Option<&str>) -> (out:
    Page)
    ensures
        out@ == edit_page(settings@, *spec, provider@, maybe_str(path)),
{
    let mut page = show_edit_head(spec, provider);
    page.extend(show_edit_prefix(spec));
    page.extend(show_edit_rest(settings.input.as_str(), path));
    page.extend(show_message(settings.message.as_str()));
    page
}

fn show_message(message: &str) -> (out: Page)
    ensures
        out@ == message_lines(message@),
{
    let mut page = Page::new();
    if char_count(message) > 0 {
        page.single(message, paint(yellow()));
    }
    page
}

/// The widths of the columns of the settings screen.
#[verifier::allow_in_spec]
pub fn setup_provider_width(width: u16) -> (out: usize)
    returns
        (if width >= 100 {
            28usize
        } else {
            22usize
        }),
{
    if width >= 100 {
        28
    } else {
        22
    }
}

#[verifier::allow_in_spec]
pub fn setup_auth_width(width: u16) -> (out: usize)
    returns
        (if width >= 100 {
            20usize
        } else {
            16usize
        }),
{
    if width >= 100 {
        20
    } else {
        16
    }
}

/// What kind of credential a provider takes.
pub open spec fn auth_words(id: Seq<char>) -> Seq<char> {
    match credential_of(id) {
        Some(spec) => spec.kind.name(),
        None => "auto-discover"@,
    }
}

/// A provider on the settings screen.
pub open spec fn setup_line(id: Seq<char>, selected: bool, status: Seq<char>, width: u16) -> Seq<
    SpanView,
> {
    seq![
        cell(
            if selected {
                "▶ "@
            } else {
                "  "@
            },
            paint(Color::White),
        ),
        cell(
            fitted(shown_name(id), (setup_provider_width(width) - 2) as nat),
            stressed(paint(name_color(id)), selected),
        ),
        gap(),
        cell(fitted(auth_words(id), setup_auth_width(width) as nat), paint(grey())),
        gap(),
        cell(status, setup_style(status)),
    ]
}

fn show_setup(id: &str, selected: bool, status: &str, width: u16) -> (out: Line)
    ensures
        out@ == setup_line(id@, selected, status@, width),
{
    let mut line = Line::new();
    if selected {
        line.cell("▶ ", paint(Color::White));
    } else {
        line.cell("  ", paint(Color::White));
    }
    line.column(
        display_name(id),
        setup_provider_width(width) - 2,
        stressed(paint(color_of_name(id)), selected),
    );
    line.gap();
    let auth = match credential_spec(id) {
        Some(spec) => spec.kind.label(),
        None => "auto-discover",
    };
    line.column(auth, setup_auth_width(width), paint(grey()));
    line.gap();
    line.cell(status, settings_status_style(status));
    line
}

/// The first `n` providers on the settings screen.
pub open spec fn setup_lines(
    app: AppView,
    own: Map<Seq<char>, Seq<char>>,
    desktop: Map<Seq<char>, Seq<char>>,
    width: u16,
    n: int,
) -> Seq<Seq<SpanView>> {
    Seq::new(
        n as nat,
        |i: int|
            {
                let id = app.settings.provider_ids[i];
                setup_line(
                    id,
                    i == app.settings.selected,
                    setup_word(app.providers, id, own, desktop),
                    width,
                )
            },
    )
}

/// The headings of the columns of the settings screen.
pub open spec fn setup_columns(width: u16) -> Seq<SpanView> {
    seq![
        cell(fitted("PROVIDER"@, setup_provider_width(width) as nat), paint(grey())),
        gap(),
        cell(fitted("AUTH"@, setup_auth_width(width) as nat), paint(grey())),
        raw("  STATUS"@),
    ]
}

fn show_setup_columns(width: u16) -> (out: Line)
    ensures
        out@ == setup_columns(width),
{
    let mut line = Line::new();
    line.column("PROVIDER", setup_provider_width(width), paint(grey()));
    line.gap();
    line.column("AUTH", setup_auth_width(width), paint(grey()));
    line.raw("  STATUS");
    line
}

/// The heading of the settings screen.
pub open spec fn setup_head(width: u16) -> Seq<Seq<SpanView>> {
    seq![
        single("SETTINGS · credentials"@, strong(Color::White)),
        single(
            "Enter edit · d remove · ↑/↓ choose · Esc back · credentials stay local"@,
            paint(grey()),
        ),
        blank(),
        setup_columns(width),
        rule(width as nat, grey()),
    ]
}

fn show_setup_head(width: u16) -> (out: Page)
    ensures
        out@ == setup_head(width),
{
    let mut page = Page::new();
    page.single("SETTINGS · credentials", strong(Color::White));
    page.single(
        "Enter edit · d remove · ↑/↓ choose · Esc back · credentials stay local",
        paint(grey()),
    );
    page.blank();
    page.line(show_setup_columns(width));
    page.line(rule_line(width as usize, grey()));
    page
}

/// The settings screen.
pub open spec fn settings_page(
    app: AppView,
    own: Map<Seq<char>, Seq<char>>,
    desktop: Map<Seq<char>, Seq<char>>,
    path: Option<Seq<char>>,
    width: u16,
) -> Seq<Seq<SpanView>> {
    let settings = app.settings;
    let id = if settings.selected < settings.provider_ids.len() {
        settings.provider_ids[settings.selected as int]
    } else {
        "unknown"@
    };
    if settings.editing {
        match credential_of(id) {
            Some(spec) => edit_page(settings, spec, id, path),
            None => seq![seq![raw("This provider is auto-discovered; press Esc."@)]],
        }
    } else {
        let list = setup_head(width) + setup_lines(
            app,
            own,
            desktop,
            width,
            settings.provider_ids.len() as int,
        );
        if settings.message.len() > 0 {
            list.push(blank()) + message_lines(settings.message)
        } else {
            list
        }
    }
}

fn show_providers(app: &App, own: &Credentials, desktop: &Credentials, width: u16) -> (out: Page)
    requires
        own.well_formed(),
        desktop.well_formed(),
    ensures
        out@ == setup_lines(
            app@,
            own@,
            desktop@,
            width,
            app@.settings.provider_ids.len() as int,
        ),
{
    let ghost ids = app@.settings.provider_ids;
    let mut page = Page::new();
    let mut i: usize = 0;
    assert(page@ =~= setup_lines(app@, own@, desktop@, width, 0));
    while i < app.settings.provider_ids.len()
        invariant
            i <= app.settings.provider_ids@.len(),
            ids == app@.settings.provider_ids,
            own.well_formed(),
            desktop.well_formed(),
            page@ == setup_lines(app@, own@, desktop@, width, i as int),
        decreases app.settings.provider_ids@.len() - i,
    {
        let ghost before = page@;
        let id = app.settings.provider_ids[i].as_str();
        assert(ids[i as int] == id@);
        let status = app.settings_status(id, own, desktop);
        page.line(show_setup(id, i == app.settings.selected, status.as_str(), width));
        i = i + 1;
        assert(page@ =~= setup_lines(app@, own@, desktop@, width, i as int));
    }
    page
}

pub fn settings_lines(
    app: &App,
    own: &Credentials,
    desktop: &Credentials,
    path: Option<&str>,
    width: u16,
) -> (out: Page)
    requires
        own.well_formed(),
        desktop.well_formed(),
    ensures
        out@ == settings_page(app@, own@, desktop@, maybe_str(path), width),
{
    let settings = &app.settings;
    let ghost ids = app@.settings.provider_ids;
    if settings.editing {
        let id = if settings.selected < settings.provider_ids.len() {
            assert(ids[settings.selected as int]
                == settings.provider_ids@[settings.selected as int]@);
            settings.provider_ids[settings.selected].as_str()
        } else {
            "unknown"
        };
        match credential_spec(id) {
            Some(spec) => show_edit(settings, &spec, id, path),
            None => {
                let mut page = Page::new();
                put_raw(&mut page, "This provider is auto-discovered; press Esc.");
                page
            },
        }
    } else {
        let mut page = show_setup_head(width);
        page.extend(show_providers(app, own, desktop, width));
        if char_count(settings.message.as_str()) > 0 {
            page.blank();
            page.extend(show_message(settings.message.as_str()));
        }
        page
    }
}

/// While a credential is entered, the screen shows one dot for each of its
/// characters and none of the characters themselves: two entries of the same
/// length look the same.
pub proof fn law_entered_secret_is_masked(
    settings: SettingsView,
    other: Seq<char>,
    spec: CredentialSpec,
    provider: Seq<char>,
    path: Option<Seq<char>>,
)
    requires
        other.len() == settings.input.len(),
    ensures
        edit_page(settings, spec, provider, path) == edit_page(
            SettingsView { input: other, ..settings },
            spec,
            provider,
            path,
        ),
{
}

/// The header counts every row once, as ready or as needing attention: ready are
/// the available rows of connected sources. Wallets are the rows that hold
/// credits or are paid as they are used.
pub proof fn law_header_counts_every_row(rows: Seq<ProviderView>)
    ensures
        census(rows).ready == rows.filter(
            |row: ProviderView| row.availability is Available && row.source_health is Connected,
        ).len(),
        census(rows).ready + census(rows).attention == rows.len(),
        census(rows).wallets == rows.filter(
            |row: ProviderView| row.holds_credit() || row.pay_as_you_go(),
        ).len(),
    decreases rows.len(),
{
    let well = |row: ProviderView|
        row.availability is Available && row.source_health is Connected;
    let paid = |row: ProviderView| row.holds_credit() || row.pay_as_you_go();
    if rows.len() == 0 {
        reveal(Seq::filter);
    } else {
        let before = rows.drop_last();
        law_header_counts_every_row(before);
        assert(rows =~= before.push(rows.last()));
        before.lemma_filter_push(rows.last(), well);
        before.lemma_filter_push(rows.last(), paid);
    }
}

/// The rows were updated when the latest of them was collected.
pub proof fn law_latest_row_dates_the_header(rows: Seq<ProviderView>)
    requires
        rows.len() > 0,
    ensures
        forall|i: int|
            0 <= i < rows.len() ==> (#[trigger] rows[i]).collected_at_ms <= census(rows).updated_at,
        exists|i: int|
            0 <= i < rows.len() && (#[trigger] rows[i]).collected_at_ms == census(rows).updated_at,
    decreases rows.len(),
{
    let before = rows.drop_last();
    assert(rows[rows.len() - 1] == rows.last());
    if before.len() > 0 {
        law_latest_row_dates_the_header(before);
        assert forall|i: int| 0 <= i < rows.len() implies (#[trigger] rows[i]).collected_at_ms
            <= census(rows).updated_at by {
            if i < before.len() {
                assert(before[i] == rows[i]);
            }
        }
        let k = choose|k: int|
            0 <= k < before.len() && (#[trigger] before[k]).collected_at_ms == census(
                before,
            ).updated_at;
        assert(rows[k] == before[k]);
    }
}

/// The screen says that it refreshes while the page that is shown waits for an
/// answer, and for a second and a half after one was asked for.
pub proof fn law_screen_says_that_it_refreshes(app: AppView, tick_ms: u64)
    ensures
        app.ui.tab is Consumption && app.ui.usage_busy ==> refreshing(app, tick_ms),
        app.ui.tab is Limits && app.ui.limits_busy ==> refreshing(app, tick_ms),
        tick_ms - app.ui.last_refresh_ms < 1_500 ==> refreshing(app, tick_ms),
        app.ui.tab is Limits && !app.ui.limits_busy && tick_ms - app.ui.last_refresh_ms >= 1_500
            ==> !refreshing(app, tick_ms),
        app.ui.tab is Consumption && !app.ui.usage_busy && tick_ms - app.ui.last_refresh_ms
            >= 1_500 ==> !refreshing(app, tick_ms),
{
}

} // verus!
