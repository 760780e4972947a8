//! The lines of the ledger screen.

use vstd::prelude::*;

use crate::labels::{client_brand_color, client_color, color_of_name, name_color};
use crate::ledger::{by_frequency, client_rows, client_views, clients_ranked, consumption_rows};
use crate::ledger::{model_consumption_rows, model_rows, model_views, models_ranked, query_of};
use crate::ledger::{rank_clients, rank_models, ClientView, ConsumptionRow, LedgerWindow};
use crate::ledger::{ModelConsumptionRow, ModelView, TemporalUsageBucket};
use crate::limits_page::{buckets_of, shown_buckets};
use crate::monitor::{App, AppView, Context};
use crate::numerals::{cost, cost_text, coverage, coverage_text, dollar_text, dollars, efficiency};
use crate::numerals::{efficiency_text, fill_usage, format_tokens, thirtyfold, thirtyfold_text};
use crate::numerals::{token_count, usage_fill};
use crate::quantity::{Quantity, ZERO};
use crate::report::ConsumptionReport;
use crate::screen::{blank, cell, cursor, cyan, dim_grey, fitted, gap, grey, lit, paint, put_cursor};
use crate::screen::{raw, rule, rule_behind, rule_line, ruled, single, sky, stressed, strong};
use crate::screen::{yellow, Color, Line, Page, SpanView, Style};
use crate::sort::{first_where, lemma_is_first_where};
use crate::text::{contains, decimal, decimal_text, has_text, lower, repeat_char, run_of, three};
use crate::text::{to_lower, trimmed, two};

verus! {

/// The bucket that stands for a day: that of the last 24 hours, else the first.
pub open spec fn daily(buckets: Seq<TemporalUsageBucket>) -> Option<TemporalUsageBucket> {
    match first_where(buckets, |bucket: TemporalUsageBucket| bucket.window is Last24h, 0) {
        Some(at) => Some(buckets[at]),
        None => if buckets.len() > 0 {
            Some(buckets[0])
        } else {
            None
        },
    }
}

fn daily_bucket(buckets: &Vec<TemporalUsageBucket>) -> (out: Option<TemporalUsageBucket>)
    ensures
        out == daily(buckets@),
{
    let ghost wanted = |bucket: TemporalUsageBucket| bucket.window is Last24h;
    let mut i: usize = 0;
    while i < buckets.len()
        invariant
            i <= buckets@.len(),
            wanted == |bucket: TemporalUsageBucket| bucket.window is Last24h,
            forall|k: int| 0 <= k < i ==> !wanted(#[trigger] buckets@[k]),
        decreases buckets@.len() - i,
    {
        if buckets[i].window == LedgerWindow::Last24h {
            proof {
                lemma_is_first_where(buckets@, wanted, Some(i as int));
            }
            return Some(buckets[i]);
        }
        i = i + 1;
    }
    proof {
        lemma_is_first_where(buckets@, wanted, None);
    }
    if buckets.len() > 0 {
        Some(buckets[0])
    } else {
        None
    }
}

/// Thirty times a count, within the range of a count.
pub open spec fn month_of(tokens: i64) -> i64 {
    if tokens * 30 > i64::MAX {
        i64::MAX
    } else if tokens * 30 < i64::MIN {
        i64::MIN
    } else {
        (tokens * 30) as i64
    }
}

fn monthly(tokens: i64) -> (out: i64)
    ensures
        out == month_of(tokens),
{
    let wide: i128 = tokens as i128 * 30;
    if wide > i64::MAX as i128 {
        i64::MAX
    } else if wide < i64::MIN as i128 {
        i64::MIN
    } else {
        wide as i64
    }
}

/// What the ledger screen says of a day: its tokens and what they would cost.
pub struct Day {
    pub tokens: i64,
    pub usd: Quantity,
}

pub open spec fn day_of(buckets: Seq<TemporalUsageBucket>) -> Day {
    match daily(buckets) {
        Some(bucket) => Day { tokens: bucket.tokens, usd: bucket.api_usd },
        None => Day { tokens: 0, usd: Quantity { bits: ZERO } },
    }
}

/// The burn of a day and of a month, on a wide screen.
pub open spec fn burn_wide(day: Day) -> Seq<SpanView> {
    seq![
        cell("BURN VELOCITY (24h): "@, strong(grey())),
        cell("≈ "@ + token_count(day.tokens) + "/day"@, strong(cyan())),
        cell(" ("@ + dollars(day.usd, 2) + "/day)"@, strong(yellow())),
        raw("  ·  "@),
        cell("PROJECTED: "@, strong(grey())),
        cell("≈ "@ + token_count(month_of(day.tokens)) + "/mo"@, strong(cyan())),
        cell(" ($"@ + thirtyfold(day.usd) + "/mo)"@, strong(yellow())),
        raw("  ·  "@),
        cell("EFFICIENCY: "@, paint(grey())),
        cell(efficiency(day.tokens, day.usd), strong(sky())),
        raw("  ·  actual "@),
        cell("—"@, paint(grey())),
    ]
}

fn show_burn_wide(day: &Day) -> (out: Line)
    ensures
        out@ == burn_wide(*day),
{
    let mut line = Line::new();
    line.cell("BURN VELOCITY (24h): ", strong(grey()));
    line.put(three("≈ ", format_tokens(day.tokens).as_str(), "/day"), strong(cyan()));
    line.put(three(" (", dollar_text(day.usd, 2).as_str(), "/day)"), strong(yellow()));
    line.raw("  ·  ");
    line.cell("PROJECTED: ", strong(grey()));
    line.put(three("≈ ", format_tokens(monthly(day.tokens)).as_str(), "/mo"), strong(cyan()));
    line.put(three(" ($", thirtyfold_text(day.usd).as_str(), "/mo)"), strong(yellow()));
    line.raw("  ·  ");
    line.cell("EFFICIENCY: ", paint(grey()));
    line.put(efficiency_text(day.tokens, day.usd), strong(sky()));
    line.raw("  ·  actual ");
    line.cell("—", paint(grey()));
    line
}

/// The burn of a day and of a month, on a narrow screen.
pub open spec fn burn_narrow(day: Day) -> Seq<SpanView> {
    seq![
        cell("24h Burn: "@, strong(grey())),
        cell("≈ "@ + token_count(day.tokens) + "/d"@, strong(cyan())),
        cell(" ("@ + dollars(day.usd, 2) + "/d)"@, strong(yellow())),
        raw("  ·  "@),
        cell("Proj: "@, strong(grey())),
        cell("≈ "@ + token_count(month_of(day.tokens)) + "/mo"@, strong(cyan())),
        cell(" ($"@ + thirtyfold(day.usd) + "/mo)"@, strong(yellow())),
        raw("  ·  "@),
        cell(efficiency(day.tokens, day.usd), paint(sky())),
        raw("  ·  actual "@),
        cell("—"@, paint(grey())),
    ]
}

fn show_burn_narrow(day: &Day) -> (out: Line)
    ensures
        out@ == burn_narrow(*day),
{
    let mut line = Line::new();
    line.cell("24h Burn: ", strong(grey()));
    line.put(three("≈ ", format_tokens(day.tokens).as_str(), "/d"), strong(cyan()));
    line.put(three(" (", dollar_text(day.usd, 2).as_str(), "/d)"), strong(yellow()));
    line.raw("  ·  ");
    line.cell("Proj: ", strong(grey()));
    line.put(three("≈ ", format_tokens(monthly(day.tokens)).as_str(), "/mo"), strong(cyan()));
    line.put(three(" ($", thirtyfold_text(day.usd).as_str(), "/mo)"), strong(yellow()));
    line.raw("  ·  ");
    line.put(efficiency_text(day.tokens, day.usd), paint(sky()));
    line.raw("  ·  actual ");
    line.cell("—", paint(grey()));
    line
}

/// The headings of the windows.
pub open spec fn window_headings(width: nat) -> Seq<SpanView> {
    seq![
        cell(fitted("WINDOW"@, 12), strong(grey())),
        gap(),
        cell(fitted("TOTAL TOKENS"@, width), strong(cyan())),
        gap(),
        cell(fitted("INPUT"@, width), strong(grey())),
        gap(),
        cell(fitted("OUTPUT"@, width), strong(grey())),
        gap(),
        cell(fitted("CACHE"@, width), strong(grey())),
        gap(),
        cell(fitted("API-EQ"@, 10), strong(yellow())),
        gap(),
        cell(fitted("TOK/$ EFF"@, 10), strong(sky())),
        gap(),
        cell(fitted("RECORDS"@, 8), strong(dim_grey())),
    ]
}

fn show_window_headings(width: usize) -> (out: Line)
    ensures
        out@ == window_headings(width as nat),
{
    let mut line = Line::new();
    line.column("WINDOW", 12, strong(grey()));
    line.gap();
    line.column("TOTAL TOKENS", width, strong(cyan()));
    line.gap();
    line.column("INPUT", width, strong(grey()));
    line.gap();
    line.column("OUTPUT", width, strong(grey()));
    line.gap();
    line.column("CACHE", width, strong(grey()));
    line.gap();
    line.column("API-EQ", 10, strong(yellow()));
    line.gap();
    line.column("TOK/$ EFF", 10, strong(sky()));
    line.gap();
    line.column("RECORDS", 8, strong(dim_grey()));
    line
}

/// The color of a window, and whether it is set in bold.
pub open spec fn window_color(window: LedgerWindow) -> (Color, bool) {
    match window {
        LedgerWindow::Today => (sky(), true),
        LedgerWindow::Last24h => (cyan(), true),
        LedgerWindow::Last7d => (yellow(), false),
        LedgerWindow::Last30d => (Color::Rgb(187, 154, 247), false),
        LedgerWindow::AllTime => (Color::White, false),
    }
}

/// How a window is set: the active one in white, the selected one lit.
pub open spec fn window_style(window: LedgerWindow, active: bool, selected: bool) -> Style {
    let (color, bold) = window_color(window);
    lit(
        if active {
            strong(Color::White)
        } else if bold {
            strong(color)
        } else {
            paint(color)
        },
        selected,
    )
}

fn style_of_window(window: LedgerWindow, active: bool, selected: bool) -> (out: Style)
    ensures
        out == window_style(window, active, selected),
{
    let (color, bold) = match window {
        LedgerWindow::Today => (sky(), true),
        LedgerWindow::Last24h => (cyan(), true),
        LedgerWindow::Last7d => (yellow(), false),
        LedgerWindow::Last30d => (Color::Rgb(187, 154, 247), false),
        LedgerWindow::AllTime => (Color::White, false),
    };
    let style = if active {
        strong(Color::White)
    } else if bold {
        strong(color)
    } else {
        paint(color)
    };
    lit(style, selected)
}

/// The line of a window.
pub open spec fn window_line(
    bucket: TemporalUsageBucket,
    active: bool,
    selected: bool,
    width: nat,
) -> Seq<SpanView> {
    let mark = if active {
        "● "@
    } else {
        "  "@
    };
    seq![
        cursor(selected),
        cell(fitted(mark + bucket.window.name(), 12), window_style(bucket.window, active, selected)),
        gap(),
        cell(fitted(token_count(bucket.tokens), width), strong(cyan())),
        gap(),
        cell(fitted(token_count(bucket.input), width), paint(grey())),
        gap(),
        cell(fitted(token_count(bucket.output), width), paint(grey())),
        gap(),
        cell(fitted(token_count(bucket.cache), width), paint(grey())),
        gap(),
        cell(fitted(cost(bucket.api_usd), 10), strong(yellow())),
        gap(),
        cell(fitted(efficiency(bucket.tokens, bucket.api_usd), 10), paint(sky())),
        gap(),
        cell(fitted(decimal(bucket.records as nat), 8), paint(dim_grey())),
    ]
}

fn show_window(bucket: TemporalUsageBucket, active: bool, selected: bool, width: usize) -> (out: Line)
    ensures
        out@ == window_line(bucket, active, selected, width as nat),
{
    let mark = if active {
        "● "
    } else {
        "  "
    };
    let mut line = Line::new();
    put_cursor(&mut line, selected);
    line.column(
        two(mark, bucket.window.label()).as_str(),
        12,
        style_of_window(bucket.window, active, selected),
    );
    line.gap();
    line.column(format_tokens(bucket.tokens).as_str(), width, strong(cyan()));
    line.gap();
    line.column(format_tokens(bucket.input).as_str(), width, paint(grey()));
    line.gap();
    line.column(format_tokens(bucket.output).as_str(), width, paint(grey()));
    line.gap();
    line.column(format_tokens(bucket.cache).as_str(), width, paint(grey()));
    line.gap();
    line.column(cost_text(bucket.api_usd).as_str(), 10, strong(yellow()));
    line.gap();
    line.column(efficiency_text(bucket.tokens, bucket.api_usd).as_str(), 10, paint(sky()));
    line.gap();
    line.column(decimal_text(bucket.records as u64).as_str(), 8, paint(dim_grey()));
    line
}

/// The lines of the first `n` windows; the active one is selected where the
/// selection stands on the windows.
pub open spec fn window_lines(
    buckets: Seq<TemporalUsageBucket>,
    active: LedgerWindow,
    selected: bool,
    width: nat,
    n: nat,
) -> Seq<Seq<SpanView>> {
    Seq::new(
        n,
        |i: int|
            window_line(buckets[i], i == active.place(), selected && i == active.place(), width),
    )
}

fn show_windows(
    buckets: &Vec<TemporalUsageBucket>,
    active: LedgerWindow,
    selected: bool,
    width: usize,
) -> (out: Page)
    ensures
        out@ == window_lines(buckets@, active, selected, width as nat, buckets@.len()),
{
    let place: usize = active.index();
    let mut page = Page::new();
    let mut i: usize = 0;
    while i < buckets.len()
        invariant
            i <= buckets@.len(),
            place == active.place(),
            page@ == window_lines(buckets@, active, selected, width as nat, i as nat),
        decreases buckets@.len() - i,
    {
        let here = i == place;
        page.line(show_window(buckets[i], here, selected && here, width));
        i = i + 1;
    }
    page
}

/// The heading of the ledger screen and of its windows.
pub open spec fn windows_head(day: Day, width: int) -> Seq<Seq<SpanView>> {
    seq![
        blank(),
        if width >= 115 {
            burn_wide(day)
        } else {
            burn_narrow(day)
        },
        blank(),
        ruled(
            if width >= 115 {
                "── TOKEN USAGE BY TIME WINDOW ── [h/l or ←/→: switch window · Enter: detail] "@
            } else {
                "── TOKEN USAGE BY TIME WINDOW ── [h/l: win · Enter: detail] "@
            },
            strong(grey()),
            width as nat,
        ),
        window_headings(
            if width >= 115 {
                13
            } else {
                10
            },
        ),
        rule(width as nat, dim_grey()),
    ]
}

fn show_windows_head(day: &Day, width: u16) -> (out: Page)
    ensures
        out@ == windows_head(*day, width as int),
{
    let mut page = Page::new();
    page.blank();
    if width >= 115 {
        page.line(show_burn_wide(day));
    } else {
        page.line(show_burn_narrow(day));
    }
    page.blank();
    let banner = if width >= 115 {
        "── TOKEN USAGE BY TIME WINDOW ── [h/l or ←/→: switch window · Enter: detail] "
    } else {
        "── TOKEN USAGE BY TIME WINDOW ── [h/l: win · Enter: detail] "
    };
    page.line(rule_behind(banner, strong(grey()), width as usize));
    page.line(
        show_window_headings(
            if width >= 115 {
                13
            } else {
                10
            },
        ),
    );
    page.line(rule_line(width as usize, dim_grey()));
    page
}

/// The bar of a row: its tokens as a share of the most tokens.
pub open spec fn usage_bar(tokens: i64, most: i64, width: nat, color: Color) -> Seq<SpanView> {
    let full = usage_fill(tokens, most, width);
    seq![
        cell(run_of('█', full), paint(color)),
        cell(run_of('░', (width - full) as nat), paint(dim_grey())),
    ]
}

fn show_usage_bar(tokens: i64, most: i64, width: usize, color: Color) -> (out: Line)
    ensures
        out@ == usage_bar(tokens, most, width as nat, color),
{
    let full: usize = fill_usage(tokens, most, width);
    let mut line = Line::new();
    line.put(repeat_char('█', full), paint(color));
    line.put(repeat_char('░', width - full), paint(dim_grey()));
    line
}

/// What is left of a width, within two bounds.
pub open spec fn rest_within(width: int, used: int, least: int, most: int) -> nat {
    let rest = width - used;
    (if rest < least {
        least
    } else if rest > most {
        most
    } else {
        rest
    }) as nat
}

fn rest_between(width: u16, used: usize, least: usize, most: usize) -> (out: usize)
    requires
        least <= most,
    ensures
        out == rest_within(width as int, used as int, least as int, most as int),
{
    let wide: usize = width as usize;
    if wide < used || wide - used < least {
        least
    } else if wide - used > most {
        most
    } else {
        wide - used
    }
}

/// The most tokens of any of the first `n` rows; none where there is no row.
pub open spec fn most_tokens(totals: Seq<i64>) -> i64
    decreases totals.len(),
{
    if totals.len() == 0 {
        0
    } else if totals.len() == 1 {
        totals[0]
    } else {
        let before = most_tokens(totals.drop_last());
        if totals.last() >= before {
            totals.last()
        } else {
            before
        }
    }
}

fn largest(totals: &Vec<i64>) -> (out: i64)
    ensures
        out == most_tokens(totals@),
{
    if totals.len() == 0 {
        return 0;
    }
    let mut most: i64 = totals[0];
    let mut i: usize = 1;
    assert(totals@.take(1).drop_last() =~= Seq::<i64>::empty());
    while i < totals.len()
        invariant
            1 <= i <= totals@.len(),
            most == most_tokens(totals@.take(i as int)),
        decreases totals@.len() - i,
    {
        assert(totals@.take(i + 1).drop_last() =~= totals@.take(i as int));
        assert(totals@.take(i + 1).last() == totals@[i as int]);
        if totals[i] >= most {
            most = totals[i];
        }
        i = i + 1;
    }
    assert(totals@.take(i as int) =~= totals@);
    most
}

/// The totals of the clients.
pub open spec fn client_totals(rows: Seq<ClientView>) -> Seq<i64> {
    rows.map_values(|row: ClientView| row.tokens.reported())
}

fn totals_of_clients(rows: &Vec<ConsumptionRow>) -> (out: Vec<i64>)
    ensures
        out@ == client_totals(client_views(rows@)),
{
    let mut out: Vec<i64> = Vec::new();
    let mut i: usize = 0;
    while i < rows.len()
        invariant
            i <= rows@.len(),
            out@.len() == i,
            forall|k: int| 0 <= k < i ==> #[trigger] out@[k] == rows@[k]@.tokens.reported(),
        decreases rows@.len() - i,
    {
        out.push(rows[i].token_total());
        i = i + 1;
    }
    out
}

/// The widths of the client columns: the name and the bar.
pub open spec fn client_widths(width: int) -> (nat, nat) {
    let name: int = if width >= 120 {
        26
    } else {
        20
    };
    (name as nat, rest_within(width, name + 12 + 12 + 12 + 8, 6, 18))
}

/// The headings of the clients.
pub open spec fn client_headings(name: nat) -> Seq<SpanView> {
    seq![
        cell(fitted("SOURCE"@, name), paint(grey())),
        gap(),
        cell(fitted("TOKENS"@, 12), paint(grey())),
        gap(),
        cell(fitted("API-EQ"@, 12), paint(grey())),
        gap(),
        cell(fitted("PRICED"@, 12), paint(grey())),
        gap(),
        cell("USAGE"@, paint(grey())),
    ]
}

fn show_client_headings(name: usize) -> (out: Line)
    ensures
        out@ == client_headings(name as nat),
{
    let mut line = Line::new();
    line.column("SOURCE", name, paint(grey()));
    line.gap();
    line.column("TOKENS", 12, paint(grey()));
    line.gap();
    line.column("API-EQ", 12, paint(grey()));
    line.gap();
    line.column("PRICED", 12, paint(grey()));
    line.gap();
    line.cell("USAGE", paint(grey()));
    line
}

/// The cells of a client in front of its bar.
pub open spec fn client_cells(row: ClientView, selected: bool, name: nat) -> Seq<SpanView> {
    let color = client_color(row.client);
    let total = row.tokens.reported();
    seq![
        cursor(selected),
        cell(
            fitted(row.client, (name - 2) as nat),
            lit(stressed(paint(color), selected), selected),
        ),
        gap(),
        cell(fitted(token_count(total), 12), paint(Color::Cyan)),
        gap(),
        cell(fitted(row.api(), 12), paint(yellow())),
        gap(),
        cell(fitted(coverage(row.priced_tokens, total), 12), paint(grey())),
        gap(),
    ]
}

fn show_client_cells(row: &ConsumptionRow, selected: bool, name: usize) -> (out: Line)
    requires
        name >= 2,
    ensures
        out@ == client_cells(row@, selected, name as nat),
{
    let color = client_brand_color(row.client.as_str());
    let total: i64 = row.token_total();
    let mut line = Line::new();
    put_cursor(&mut line, selected);
    line.column(row.client.as_str(), name - 2, lit(stressed(paint(color), selected), selected));
    line.gap();
    line.column(format_tokens(total).as_str(), 12, paint(Color::Cyan));
    line.gap();
    line.column(row.api_text().as_str(), 12, paint(yellow()));
    line.gap();
    line.column(coverage_text(row.priced_tokens, total).as_str(), 12, paint(grey()));
    line.gap();
    line
}

/// The line of a client.
pub open spec fn client_line(row: ClientView, most: i64, selected: bool, widths: (nat, nat)) -> Seq<
    SpanView,
> {
    client_cells(row, selected, widths.0) + usage_bar(
        row.tokens.reported(),
        most,
        widths.1,
        client_color(row.client),
    )
}

fn show_client(row: &ConsumptionRow, most: i64, selected: bool, name: usize, bar: usize) -> (out: Line)
    requires
        name >= 2,
    ensures
        out@ == client_line(row@, most, selected, (name as nat, bar as nat)),
{
    let mut line = show_client_cells(row, selected, name);
    let color = client_brand_color(row.client.as_str());
    line.extend(show_usage_bar(row.token_total(), most, bar, color));
    line
}

/// The lines of the first `n` clients.
pub open spec fn client_lines(
    rows: Seq<ClientView>,
    most: i64,
    selected: int,
    widths: (nat, nat),
    n: nat,
) -> Seq<Seq<SpanView>> {
    Seq::new(n, |i: int| client_line(rows[i], most, selected == 1 + i, widths))
}

/// The heading of the clients.
pub open spec fn clients_head(window: LedgerWindow, width: int) -> Seq<Seq<SpanView>> {
    seq![
        blank(),
        ruled(
            "── PER-CLIENT & SUBSCRIPTION BREAKDOWN [WINDOW: "@ + window.name()
                + "] ── [w] Switch Window "@,
            strong(grey()),
            width as nat,
        ),
    ]
}

fn show_clients_head(window: LedgerWindow, width: u16) -> (out: Page)
    ensures
        out@ == clients_head(window, width as int),
{
    let mut page = Page::new();
    page.blank();
    page.line(
        rule_behind(
            three(
                "── PER-CLIENT & SUBSCRIPTION BREAKDOWN [WINDOW: ",
                window.label(),
                "] ── [w] Switch Window ",
            ).as_str(),
            strong(grey()),
            width as usize,
        ),
    );
    page
}

/// The clients under their headings, or that there are none.
pub open spec fn clients_body(
    rows: Seq<ClientView>,
    window: LedgerWindow,
    selected: int,
    width: int,
) -> Seq<Seq<SpanView>> {
    if rows.len() == 0 {
        seq![single("No local usage records in "@ + window.name() + " window."@, paint(grey()))]
    } else {
        seq![client_headings(client_widths(width).0), rule(width as nat, grey())] + client_lines(
            rows,
            most_tokens(client_totals(rows)),
            selected,
            client_widths(width),
            rows.len(),
        )
    }
}

fn show_client_table(name: usize, width: u16) -> (out: Page)
    ensures
        out@ == seq![client_headings(name as nat), rule(width as nat, grey())],
{
    let mut page = Page::new();
    page.line(show_client_headings(name));
    page.line(rule_line(width as usize, grey()));
    page
}

fn show_clients(
    rows: &Vec<ConsumptionRow>,
    window: LedgerWindow,
    selected: usize,
    width: u16,
) -> (out: Page)
    ensures
        out@ == clients_body(client_views(rows@), window, selected as int, width as int),
{
    let ghost views = client_views(rows@);
    if rows.len() == 0 {
        let mut page = Page::new();
        page.single(
            three("No local usage records in ", window.label(), " window.").as_str(),
            paint(grey()),
        );
        return page;
    }
    let name: usize = if width >= 120 {
        26
    } else {
        20
    };
    let bar: usize = rest_between(width, name + 44, 6, 18);
    let most: i64 = largest(&totals_of_clients(rows));
    let mut page = show_client_table(name, width);
    let mut body = Page::new();
    let mut i: usize = 0;
    while i < rows.len()
        invariant
            i <= rows@.len(),
            views == client_views(rows@),
            name >= 2,
            body@ == client_lines(
                views,
                most,
                selected as int,
                (name as nat, bar as nat),
                i as nat,
            ),
        decreases rows@.len() - i,
    {
        assert(views[i as int] == rows@[i as int]@);
        let here = selected >= 1 && selected - 1 == i;
        body.line(show_client(&rows[i], most, here, name, bar));
        i = i + 1;
    }
    page.extend(body);
    page
}

/// The totals of the models.
pub open spec fn model_totals(rows: Seq<ModelView>) -> Seq<i64> {
    rows.map_values(|row: ModelView| row.tokens.reported())
}

fn totals_of_models(rows: &Vec<ModelConsumptionRow>) -> (out: Vec<i64>)
    ensures
        out@ == model_totals(model_views(rows@)),
{
    let mut out: Vec<i64> = Vec::new();
    let mut i: usize = 0;
    while i < rows.len()
        invariant
            i <= rows@.len(),
            out@.len() == i,
            forall|k: int| 0 <= k < i ==> #[trigger] out@[k] == rows@[k]@.tokens.reported(),
        decreases rows@.len() - i,
    {
        out.push(rows[i].token_total());
        i = i + 1;
    }
    out
}

/// The widths of the model columns: the name, the clients and the bar.
pub open spec fn model_widths(width: int) -> (nat, nat, nat) {
    let name: int = if width >= 120 {
        28
    } else {
        22
    };
    let clients: int = if width >= 120 {
        18
    } else {
        14
    };
    (
        name as nat,
        clients as nat,
        rest_within(width, name + clients + 12 + 10 + 11 + 10, 4, 18),
    )
}

/// The headings of the models.
pub open spec fn model_headings(name: nat, clients: nat) -> Seq<SpanView> {
    seq![
        cell(fitted("MODEL"@, name), paint(grey())),
        gap(),
        cell(fitted("HARNESS"@, clients), paint(grey())),
        gap(),
        cell(fitted("TOKENS"@, 12), paint(grey())),
        gap(),
        cell(fitted("API-EQ"@, 10), paint(grey())),
        gap(),
        cell(fitted("TOK/$ EFF"@, 11), paint(grey())),
        gap(),
        cell("USAGE"@, paint(grey())),
    ]
}

fn show_model_headings(name: usize, clients: usize) -> (out: Line)
    ensures
        out@ == model_headings(name as nat, clients as nat),
{
    let mut line = Line::new();
    line.column("MODEL", name, paint(grey()));
    line.gap();
    line.column("HARNESS", clients, paint(grey()));
    line.gap();
    line.column("TOKENS", 12, paint(grey()));
    line.gap();
    line.column("API-EQ", 10, paint(grey()));
    line.gap();
    line.column("TOK/$ EFF", 11, paint(grey()));
    line.gap();
    line.cell("USAGE", paint(grey()));
    line
}

/// The cells of a model in front of its bar.
pub open spec fn model_cells(row: ModelView, selected: bool, name: nat, clients: nat) -> Seq<
    SpanView,
> {
    let color = name_color(row.model);
    let total = row.tokens.reported();
    seq![
        cursor(selected),
        cell(
            fitted(row.model, (name - 2) as nat),
            lit(stressed(paint(color), selected), selected),
        ),
        gap(),
        cell(
            fitted(by_frequency(row.clients), clients),
            paint(client_color(by_frequency(row.clients))),
        ),
        gap(),
        cell(fitted(token_count(total), 12), paint(cyan())),
        gap(),
        cell(fitted(cost(row.api_value_usd), 10), paint(yellow())),
        gap(),
        cell(fitted(efficiency(total, row.api_value_usd), 11), paint(sky())),
        gap(),
    ]
}

fn show_model_cells(row: &ModelConsumptionRow, selected: bool, name: usize, clients: usize) -> (out:
    Line)
    requires
        name >= 2,
    ensures
        out@ == model_cells(row@, selected, name as nat, clients as nat),
{
    let color = color_of_name(row.model.as_str());
    let total: i64 = row.token_total();
    let mut line = Line::new();
    put_cursor(&mut line, selected);
    line.column(row.model.as_str(), name - 2, lit(stressed(paint(color), selected), selected));
    line.gap();
    let harness = row.primary_client();
    line.column(harness.as_str(), clients, paint(client_brand_color(harness.as_str())));
    line.gap();
    line.column(format_tokens(total).as_str(), 12, paint(cyan()));
    line.gap();
    line.column(cost_text(row.api_value_usd).as_str(), 10, paint(yellow()));
    line.gap();
    line.column(efficiency_text(total, row.api_value_usd).as_str(), 11, paint(sky()));
    line.gap();
    line
}

/// The line of a model.
pub open spec fn model_line(
    row: ModelView,
    most: i64,
    selected: bool,
    widths: (nat, nat, nat),
) -> Seq<SpanView> {
    model_cells(row, selected, widths.0, widths.1) + usage_bar(
        row.tokens.reported(),
        most,
        widths.2,
        name_color(row.model),
    )
}

fn show_model(
    row: &ModelConsumptionRow,
    most: i64,
    selected: bool,
    name: usize,
    clients: usize,
    bar: usize,
) -> (out: Line)
    requires
        name >= 2,
    ensures
        out@ == model_line(row@, most, selected, (name as nat, clients as nat, bar as nat)),
{
    let mut line = show_model_cells(row, selected, name, clients);
    let color = color_of_name(row.model.as_str());
    line.extend(show_usage_bar(row.token_total(), most, bar, color));
    line
}

/// The lines of the first `n` models, which are listed behind the clients.
pub open spec fn model_lines(
    rows: Seq<ModelView>,
    most: i64,
    selected: int,
    before: int,
    widths: (nat, nat, nat),
    n: nat,
) -> Seq<Seq<SpanView>> {
    Seq::new(n, |i: int| model_line(rows[i], most, selected == 1 + before + i, widths))
}

/// The heading of the models.
pub open spec fn models_head(window: LedgerWindow, width: int) -> Seq<Seq<SpanView>> {
    seq![
        blank(),
        ruled(
            "── TOP MODEL MIX [WINDOW: "@ + window.name() + "] ── "@,
            strong(grey()),
            width as nat,
        ),
        model_headings(model_widths(width).0, model_widths(width).1),
        rule(width as nat, dim_grey()),
    ]
}

fn show_models_head(window: LedgerWindow, width: u16, name: usize, clients: usize) -> (out: Page)
    requires
        name == model_widths(width as int).0,
        clients == model_widths(width as int).1,
    ensures
        out@ == models_head(window, width as int),
{
    let mut page = Page::new();
    page.blank();
    page.line(
        rule_behind(
            three("── TOP MODEL MIX [WINDOW: ", window.label(), "] ── ").as_str(),
            strong(grey()),
            width as usize,
        ),
    );
    page.line(show_model_headings(name, clients));
    page.line(rule_line(width as usize, dim_grey()));
    page
}

/// The ten largest models.
pub open spec fn models_part(
    rows: Seq<ModelView>,
    window: LedgerWindow,
    selected: int,
    before: int,
    width: int,
) -> Seq<Seq<SpanView>> {
    models_head(window, width) + model_lines(
        rows,
        most_tokens(model_totals(rows)),
        selected,
        before,
        model_widths(width),
        if rows.len() < 10 {
            rows.len()
        } else {
            10
        },
    )
}

fn show_models(
    rows: &Vec<ModelConsumptionRow>,
    window: LedgerWindow,
    selected: usize,
    before: usize,
    width: u16,
) -> (out: Page)
    ensures
        out@ == models_part(
            model_views(rows@),
            window,
            selected as int,
            before as int,
            width as int,
        ),
{
    let ghost views = model_views(rows@);
    let (name, clients): (usize, usize) = if width >= 120 {
        (28, 18)
    } else {
        (22, 14)
    };
    let bar: usize = rest_between(width, name + clients + 43, 4, 18);
    let most: i64 = largest(&totals_of_models(rows));
    let shown: usize = if rows.len() < 10 {
        rows.len()
    } else {
        10
    };
    let mut page = show_models_head(window, width, name, clients);
    let mut body = Page::new();
    let mut i: usize = 0;
    while i < shown
        invariant
            i <= shown <= rows@.len(),
            shown <= 10,
            views == model_views(rows@),
            name >= 2,
            body@ == model_lines(
                views,
                most,
                selected as int,
                before as int,
                (name as nat, clients as nat, bar as nat),
                i as nat,
            ),
        decreases shown - i,
    {
        assert(views[i as int] == rows@[i as int]@);
        let here = selected > before && selected - before - 1 == i;
        body.line(show_model(&rows[i], most, here, name, clients, bar));
        i = i + 1;
    }
    page.extend(body);
    page
}

/// The clients that a search finds by name or provider.
pub open spec fn clients_found(rows: Seq<ClientView>, query: Seq<char>) -> Seq<ClientView>
    decreases rows.len(),
{
    if rows.len() == 0 {
        Seq::empty()
    } else {
        let before = clients_found(rows.drop_last(), query);
        let row = rows.last();
        if contains(lower(row.client), query) || contains(lower(row.provider), query) {
            before.push(row)
        } else {
            before
        }
    }
}

/// The models that a search finds by name.
pub open spec fn models_found(rows: Seq<ModelView>, query: Seq<char>) -> Seq<ModelView>
    decreases rows.len(),
{
    if rows.len() == 0 {
        Seq::empty()
    } else {
        let before = models_found(rows.drop_last(), query);
        if contains(lower(rows.last().model), query) {
            before.push(rows.last())
        } else {
            before
        }
    }
}

fn copy_clients(rows: &Vec<ConsumptionRow>) -> (out: Vec<ConsumptionRow>)
    ensures
        client_views(out@) == client_views(rows@),
{
    let mut out: Vec<ConsumptionRow> = Vec::new();
    let mut i: usize = 0;
    while i < rows.len()
        invariant
            i <= rows@.len(),
            out@.len() == i,
            forall|k: int| 0 <= k < i ==> (#[trigger] out@[k])@ == rows@[k]@,
        decreases rows@.len() - i,
    {
        out.push(rows[i].clone());
        i = i + 1;
    }
    assert(client_views(out@) =~= client_views(rows@));
    out
}

fn copy_models(rows: &Vec<ModelConsumptionRow>) -> (out: Vec<ModelConsumptionRow>)
    ensures
        model_views(out@) == model_views(rows@),
{
    let mut out: Vec<ModelConsumptionRow> = Vec::new();
    let mut i: usize = 0;
    while i < rows.len()
        invariant
            i <= rows@.len(),
            out@.len() == i,
            forall|k: int| 0 <= k < i ==> (#[trigger] out@[k])@ == rows@[k]@,
        decreases rows@.len() - i,
    {
        out.push(rows[i].clone());
        i = i + 1;
    }
    assert(model_views(out@) =~= model_views(rows@));
    out
}

fn find_clients(rows: &Vec<ConsumptionRow>, query: &str) -> (out: Vec<ConsumptionRow>)
    ensures
        client_views(out@) == clients_found(client_views(rows@), query@),
{
    let ghost views = client_views(rows@);
    let mut out: Vec<ConsumptionRow> = Vec::new();
    let mut i: usize = 0;
    assert(client_views(out@) =~= clients_found(views.take(0), query@));
    while i < rows.len()
        invariant
            i <= rows@.len(),
            views == client_views(rows@),
            client_views(out@) == clients_found(views.take(i as int), query@),
        decreases rows@.len() - i,
    {
        let row = &rows[i];
        assert(views.take(i + 1).drop_last() =~= views.take(i as int));
        assert(views.take(i + 1).last() == row@);
        if has_text(to_lower(row.client.as_str()).as_str(), query) || has_text(
            to_lower(row.provider.as_str()).as_str(),
            query,
        ) {
            let ghost before = client_views(out@);
            out.push(row.clone());
            assert(client_views(out@) =~= before.push(row@));
        }
        i = i + 1;
    }
    assert(views.take(i as int) =~= views);
    out
}

fn find_models(rows: &Vec<ModelConsumptionRow>, query: &str) -> (out: Vec<ModelConsumptionRow>)
    ensures
        model_views(out@) == models_found(model_views(rows@), query@),
{
    let ghost views = model_views(rows@);
    let mut out: Vec<ModelConsumptionRow> = Vec::new();
    let mut i: usize = 0;
    assert(model_views(out@) =~= models_found(views.take(0), query@));
    while i < rows.len()
        invariant
            i <= rows@.len(),
            views == model_views(rows@),
            model_views(out@) == models_found(views.take(i as int), query@),
        decreases rows@.len() - i,
    {
        let row = &rows[i];
        assert(views.take(i + 1).drop_last() =~= views.take(i as int));
        assert(views.take(i + 1).last() == row@);
        if has_text(to_lower(row.model.as_str()).as_str(), query) {
            let ghost before = model_views(out@);
            out.push(row.clone());
            assert(model_views(out@) =~= before.push(row@));
        }
        i = i + 1;
    }
    assert(views.take(i as int) =~= views);
    out
}

/// The clients that the ledger screen lists: those kept for the window, ranked
/// anew and searched, or those of the report.
pub open spec fn shown_clients(app: AppView, report: ConsumptionReport, context: Context) -> Seq<
    ClientView,
> {
    match app.cached_ledger {
        Some(ledger) => clients_found(
            clients_ranked(
                client_views(ledger.clients@[app.ui.ledger_window.place()]@),
                app.ui.consumption_metric,
            ),
            query_of(app.search_query),
        ),
        None => client_rows(
            report,
            context.pricing,
            app.ui.consumption_metric,
            app.scope(context.clock),
        ),
    }
}

/// The models that the ledger screen lists.
pub open spec fn shown_models(app: AppView, report: ConsumptionReport, context: Context) -> Seq<
    ModelView,
> {
    match app.cached_ledger {
        Some(ledger) => models_found(
            models_ranked(
                model_views(ledger.models@[app.ui.ledger_window.place()]@),
                app.ui.consumption_metric,
            ),
            query_of(app.search_query),
        ),
        None => model_rows(
            report,
            context.pricing,
            app.ui.consumption_metric,
            app.scope(context.clock),
        ),
    }
}

fn clients_of(app: &App, report: &ConsumptionReport, context: &Context) -> (out: Vec<ConsumptionRow>)
    requires
        app@.cached_ledger matches Some(ledger) ==> ledger.well_formed(),
    ensures
        client_views(out@) == shown_clients(app@, *report, *context),
{
    match &app.cached_ledger {
        Some(ledger) => {
            let query = to_lower(trimmed(app.search_query.as_str()).as_str());
            let mut rows = copy_clients(&ledger.clients[app.ui.ledger_window.index()]);
            rank_clients(&mut rows, app.ui.consumption_metric);
            find_clients(&rows, query.as_str())
        },
        None => consumption_rows(
            report,
            &context.pricing,
            app.ui.consumption_metric,
            app.ui.ledger_window,
            app.search_query.as_str(),
            &context.clock,
        ),
    }
}

fn models_of(app: &App, report: &ConsumptionReport, context: &Context) -> (out: Vec<
    ModelConsumptionRow,
>)
    requires
        app@.cached_ledger matches Some(ledger) ==> ledger.well_formed(),
    ensures
        model_views(out@) == shown_models(app@, *report, *context),
{
    match &app.cached_ledger {
        Some(ledger) => {
            let query = to_lower(trimmed(app.search_query.as_str()).as_str());
            let mut rows = copy_models(&ledger.models[app.ui.ledger_window.index()]);
            rank_models(&mut rows, app.ui.consumption_metric);
            find_models(&rows, query.as_str())
        },
        None => model_consumption_rows(
            report,
            &context.pricing,
            app.ui.consumption_metric,
            app.ui.ledger_window,
            app.search_query.as_str(),
            &context.clock,
        ),
    }
}

/// The windows of the ledger screen, under their heading.
pub open spec fn windows_part(
    buckets: Seq<TemporalUsageBucket>,
    active: LedgerWindow,
    selected: int,
    width: int,
) -> Seq<Seq<SpanView>> {
    windows_head(day_of(buckets), width) + window_lines(
        buckets,
        active,
        selected == 0,
        if width >= 115 {
            13
        } else {
            10
        },
        buckets.len(),
    )
}

fn show_windows_part(
    buckets: &Vec<TemporalUsageBucket>,
    active: LedgerWindow,
    selected: usize,
    width: u16,
) -> (out: Page)
    ensures
        out@ == windows_part(buckets@, active, selected as int, width as int),
{
    let day = match daily_bucket(buckets) {
        Some(bucket) => Day { tokens: bucket.tokens, usd: bucket.api_usd },
        None => Day { tokens: 0, usd: Quantity { bits: ZERO } },
    };
    let mut page = show_windows_head(&day, width);
    let column: usize = if width >= 115 {
        13
    } else {
        10
    };
    page.extend(show_windows(buckets, active, selected == 0, column));
    page
}

/// The ledger screen: the windows, the clients and the models.
pub open spec fn ledger_page(app: AppView, width: int, context: Context) -> Seq<Seq<SpanView>> {
    match app.consumption {
        Some(report) => {
            let window = app.ui.ledger_window;
            let selected = app.ui.consumption_selected as int;
            let clients = shown_clients(app, report, context);
            windows_part(shown_buckets(app, report, context), window, selected, width)
                + clients_head(window, width) + clients_body(clients, window, selected, width)
                + models_part(
                shown_models(app, report, context),
                window,
                selected,
                clients.len() as int,
                width,
            )
        },
        None => seq![single("Loading local consumption ledger..."@, paint(grey()))],
    }
}

pub fn consumption_lines(app: &App, width: u16, context: &Context) -> (out: Page)
    requires
        app@.cached_ledger matches Some(ledger) ==> ledger.well_formed(),
    ensures
        out@ == ledger_page(app@, width as int, *context),
{
    match &app.consumption {
        Some(report) => {
            let window = app.ui.ledger_window;
            let selected: usize = app.ui.consumption_selected;
            let buckets = buckets_of(app, report, context);
            let clients = clients_of(app, report, context);
            let models = models_of(app, report, context);
            let mut page = show_windows_part(&buckets, window, selected, width);
            page.extend(show_clients_head(window, width));
            page.extend(show_clients(&clients, window, selected, width));
            page.extend(show_models(&models, window, selected, clients.len(), width));
            page
        },
        None => {
            let mut page = Page::new();
            page.single("Loading local consumption ledger...", paint(grey()));
            page
        },
    }
}

/// A kept ledger shows the same windows as the report it was made from, as
/// they were at that moment.
pub proof fn law_kept_ledger_shows_the_report(
    app: AppView,
    report: ConsumptionReport,
    context: Context,
)
    requires
        app.cached_ledger is Some,
        app.cached_ledger->0.keeps(report, context.pricing, context.clock),
    ensures
        shown_buckets(app, report, context) == shown_buckets(
            AppView { cached_ledger: None, ..app },
            report,
            context,
        ),
{
}

/// A search of kept rows shows only rows that it finds.
pub proof fn law_search_keeps_what_it_finds(rows: Seq<ModelView>, query: Seq<char>, i: int)
    requires
        0 <= i < models_found(rows, query).len(),
    ensures
        contains(lower(models_found(rows, query)[i].model), query),
        rows.contains(models_found(rows, query)[i]),
    decreases rows.len(),
{
    let before = models_found(rows.drop_last(), query);
    if i < before.len() {
        law_search_keeps_what_it_finds(rows.drop_last(), query, i);
        let at = choose|at: int| 0 <= at < rows.drop_last().len() && rows.drop_last()[at] == before[i];
        assert(rows[at] == before[i]);
    } else {
        assert(rows[rows.len() - 1] == rows.last());
    }
}

/// The bars are drawn against the most tokens: no row holds more, and one row holds
/// as many.
pub proof fn law_longest_bar_has_the_most_tokens(totals: Seq<i64>)
    requires
        totals.len() > 0,
    ensures
        forall|i: int| 0 <= i < totals.len() ==> #[trigger] totals[i] <= most_tokens(totals),
        totals.contains(most_tokens(totals)),
    decreases totals.len(),
{
    let before = totals.drop_last();
    assert(totals[totals.len() - 1] == totals.last());
    if before.len() > 0 {
        law_longest_bar_has_the_most_tokens(before);
        assert forall|i: int| 0 <= i < totals.len() implies #[trigger] totals[i] <= most_tokens(
            totals,
        ) by {
            if i < before.len() {
                assert(before[i] == totals[i]);
            }
        }
        let k = choose|k: int| 0 <= k < before.len() && before[k] == most_tokens(before);
        assert(totals[k] == before[k]);
    }
}

/// A search keeps the clients whose own name or whose provider's name holds the
/// query, in their order.
pub proof fn law_search_keeps_the_named_clients(rows: Seq<ClientView>, query: Seq<char>)
    ensures
        clients_found(rows, query) == rows.filter(
            |row: ClientView| contains(lower(row.client), query) || contains(
                lower(row.provider),
                query,
            ),
        ),
    decreases rows.len(),
{
    let kept = |row: ClientView|
        contains(lower(row.client), query) || contains(lower(row.provider), query);
    if rows.len() == 0 {
        reveal(Seq::filter);
        assert(clients_found(rows, query) =~= rows.filter(kept));
    } else {
        let before = rows.drop_last();
        law_search_keeps_the_named_clients(before, query);
        assert(rows =~= before.push(rows.last()));
        before.lemma_filter_push(rows.last(), kept);
    }
}

/// A search keeps the models whose name holds the query, in their order.
pub proof fn law_search_keeps_the_named_models(rows: Seq<ModelView>, query: Seq<char>)
    ensures
        models_found(rows, query) == rows.filter(
            |row: ModelView| contains(lower(row.model), query),
        ),
    decreases rows.len(),
{
    let kept = |row: ModelView| contains(lower(row.model), query);
    if rows.len() == 0 {
        reveal(Seq::filter);
        assert(models_found(rows, query) =~= rows.filter(kept));
    } else {
        let before = rows.drop_last();
        law_search_keeps_the_named_models(before, query);
        assert(rows =~= before.push(rows.last()));
        before.lemma_filter_push(rows.last(), kept);
    }
}

/// A month is projected as thirty days of tokens, as far as they can be counted.
pub proof fn law_month_is_thirty_days(tokens: i64, more: i64)
    requires
        tokens <= more,
    ensures
        i64::MIN <= 30 * tokens <= i64::MAX ==> month_of(tokens) == 30 * tokens,
        month_of(tokens) <= month_of(more),
        0 <= tokens ==> tokens <= month_of(tokens) <= 30 * tokens,
{
}

} // verus!
