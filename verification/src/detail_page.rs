//! The lines of the detail view.

use vstd::prelude::*;

use crate::detail::{client_item_views, harness, harnesses, portion, portions, ClientItemView};
use crate::detail::{DetailModal, DetailView, HarnessView, PortionView, WindowClientItem};
use crate::labels::{availability_name, availability_word, brand, capitals, client_brand_color};
use crate::labels::{client_color, color_of_name, kind_name, kind_word, masked_account_label};
use crate::labels::{masked_label, name_color, provider_brand_color, reset_shown, reset_text};
use crate::labels::uppercase;
use crate::ledger::LedgerWindow;
use crate::limits::{window_views, Availability, LimitWindow, ProviderSnapshot, ProviderView};
use crate::limits::WindowView;
use crate::numerals::{cost, cost_text, dollar_text, dollars, efficiency, efficiency_text, fixed};
use crate::numerals::{fixed_text, format_tokens, token_count};
use crate::quantity::Quantity;
use crate::screen::{blank, cell, cyan, dim_grey, faint, fit, fitted, gap, green, grey, paint, raw};
use crate::screen::{red, rule, rule_line, single, sky, strong, yellow, Color, Line, Page, SpanView};
use crate::screen::Style;
use crate::text::{align_right, decimal, decimal_text, four, right_aligned, texts, three, two};
use crate::usage::UsageTokens;

verus! {

/// The room for texts within the frame of the detail view.
pub open spec fn room(width: int) -> nat {
    if width < 4 {
        0
    } else {
        (width - 4) as nat
    }
}

fn room_of(width: u16) -> (out: usize)
    ensures
        out == room(width as int),
{
    if width < 4 {
        0
    } else {
        width as usize - 4
    }
}

/// The smaller of two widths.
pub open spec fn narrower(a: nat, b: nat) -> nat {
    if a < b {
        a
    } else {
        b
    }
}

fn narrow(a: usize, b: usize) -> (out: usize)
    ensures
        out == narrower(a as nat, b as nat),
{
    if a < b {
        a
    } else {
        b
    }
}

/// The first line on a provider.
pub open spec fn provider_line(row: ProviderView) -> Seq<SpanView> {
    seq![
        cell("PROVIDER: "@ + capitals(row.provider_id) + " "@, strong(brand(row.provider_id))),
        raw(" · Plan: "@),
        cell(row.plan, strong(Color::White)),
        raw(" · Status: "@),
        cell(
            availability_word(row.availability),
            paint(
                if row.availability is Available {
                    green()
                } else {
                    red()
                },
            ),
        ),
    ]
}

fn show_provider(row: &ProviderSnapshot) -> (out: Line)
    ensures
        out@ == provider_line(row@),
{
    let mut line = Line::new();
    line.put(
        three("PROVIDER: ", uppercase(row.provider_id.as_str()).as_str(), " "),
        strong(provider_brand_color(row.provider_id.as_str())),
    );
    line.raw(" · Plan: ");
    line.cell(row.plan.as_str(), strong(Color::White));
    line.raw(" · Status: ");
    let color = if row.availability == Availability::Available {
        green()
    } else {
        red()
    };
    line.cell(availability_name(row.availability), paint(color));
    line
}

/// The amount that is left in a window, in its currency.
pub open spec fn amount_left(window: WindowView) -> Seq<char> {
    match window.remaining_amount {
        Some(amount) => (match window.currency {
            Some(currency) => currency,
            None => "$"@,
        }) + fixed(amount, 2),
        None => Seq::empty(),
    }
}

fn amount_text(window: &LimitWindow) -> (out: String)
    ensures
        out@ == amount_left(window@),
{
    match window.remaining_amount {
        Some(amount) => {
            let shown = fixed_text(amount, 2);
            match &window.currency {
                Some(currency) => two(currency.as_str(), shown.as_str()),
                None => two("$", shown.as_str()),
            }
        },
        None => String::new(),
    }
}

/// The share that is left in a window, aligned.
pub open spec fn share_left(window: WindowView) -> Seq<char> {
    match window.remaining_percent {
        Some(percent) => right_aligned(fixed(percent, 1), 5) + "%"@,
        None => "   — "@,
    }
}

fn share_text(window: &LimitWindow) -> (out: String)
    ensures
        out@ == share_left(window@),
{
    match window.remaining_percent {
        Some(percent) => two(align_right(fixed_text(percent, 1).as_str(), 5).as_str(), "%"),
        None => "   — ".to_owned(),
    }
}

/// The line of a window of a provider.
pub open spec fn limit_line(window: WindowView, color: Color, now_ms: i64) -> Seq<SpanView> {
    seq![
        cell(
            fitted("  • ["@ + kind_word(window.kind) + "] "@ + window.label, 24),
            paint(Color::White),
        ),
        raw(" "@),
        cell(share_left(window), strong(color)),
        gap(),
        cell(fitted(amount_left(window), 10), paint(yellow())),
        raw("  resets in "@),
        cell(reset_shown(window, now_ms), paint(cyan())),
    ]
}

fn show_limit(window: &LimitWindow, color: Color, now_ms: i64) -> (out: Line)
    ensures
        out@ == limit_line(window@, color, now_ms),
{
    let mut line = Line::new();
    line.column(
        four("  • [", kind_name(window.kind), "] ", window.label.as_str()).as_str(),
        24,
        paint(Color::White),
    );
    line.raw(" ");
    line.put(share_text(window), strong(color));
    line.gap();
    line.column(amount_text(window).as_str(), 10, paint(yellow()));
    line.raw("  resets in ");
    line.put(reset_text(window, now_ms), paint(cyan()));
    line
}

/// The lines of the first `n` windows of a provider.
pub open spec fn limit_lines(windows: Seq<WindowView>, color: Color, now_ms: i64, n: nat) -> Seq<
    Seq<SpanView>,
> {
    Seq::new(n, |i: int| limit_line(windows[i], color, now_ms))
}

fn show_limits(windows: &Vec<LimitWindow>, color: Color, now_ms: i64) -> (out: Page)
    ensures
        out@ == limit_lines(window_views(windows@), color, now_ms, windows@.len()),
{
    let ghost views = window_views(windows@);
    let mut page = Page::new();
    let mut i: usize = 0;
    while i < windows.len()
        invariant
            i <= windows@.len(),
            views == window_views(windows@),
            page@ == limit_lines(views, color, now_ms, i as nat),
        decreases windows@.len() - i,
    {
        assert(views[i as int] == windows@[i as int]@);
        page.line(show_limit(&windows[i], color, now_ms));
        i = i + 1;
    }
    page
}

/// The lines of the first `n` diagnostics.
pub open spec fn note_lines(notes: Seq<Seq<char>>, width: nat, n: nat) -> Seq<Seq<SpanView>> {
    Seq::new(n, |i: int| single("  • "@ + fitted(notes[i], width), paint(grey())))
}

/// The diagnostics under their heading, where there are any.
pub open spec fn notes_part(notes: Seq<Seq<char>>, width: nat) -> Seq<Seq<SpanView>> {
    if notes.len() == 0 {
        Seq::empty()
    } else {
        seq![blank(), single("DIAGNOSTICS & DETAILS:"@, strong(grey()))] + note_lines(
            notes,
            width,
            notes.len(),
        )
    }
}

/// A blank line and a heading.
fn show_heading(heading: &str) -> (out: Page)
    ensures
        out@ == seq![blank(), single(heading@, strong(grey()))],
{
    let mut page = Page::new();
    page.blank();
    page.single(heading, strong(grey()));
    page
}

fn show_notes(notes: &Vec<String>, width: usize) -> (out: Page)
    ensures
        out@ == notes_part(texts(notes@), width as nat),
{
    let ghost views = texts(notes@);
    if notes.len() == 0 {
        return Page::new();
    }
    let mut page = show_heading("DIAGNOSTICS & DETAILS:");
    let mut body = Page::new();
    let mut i: usize = 0;
    while i < notes.len()
        invariant
            i <= notes@.len(),
            views == texts(notes@),
            body@ == note_lines(views, width as nat, i as nat),
        decreases notes@.len() - i,
    {
        assert(views[i as int] == notes@[i as int]@);
        body.single(
            two("  • ", fit(notes[i].as_str(), width).as_str()).as_str(),
            paint(grey()),
        );
        i = i + 1;
    }
    page.extend(body);
    page
}

/// How to leave the detail view.
pub open spec fn closing(hint: Seq<char>) -> Seq<Seq<SpanView>> {
    seq![blank(), single(hint, faint(grey()))]
}

fn show_closing(hint: &str) -> (out: Page)
    ensures
        out@ == closing(hint@),
{
    let mut page = Page::new();
    page.blank();
    page.single(hint, faint(grey()));
    page
}

/// The account as it is shown: masked, unless it may be read.
pub open spec fn account_shown(row: ProviderView, show_account: bool) -> Seq<char> {
    if show_account {
        row.account_label
    } else {
        masked_label(row)
    }
}

/// The head of the detail of a provider.
pub open spec fn provider_head(row: ProviderView, show_account: bool) -> Seq<Seq<SpanView>> {
    seq![
        provider_line(row),
        single("Account: "@ + account_shown(row, show_account), paint(grey())),
        blank(),
        single("RATE LIMIT WINDOWS:"@, strong(grey())),
    ]
}

fn show_provider_head(row: &ProviderSnapshot, show_account: bool) -> (out: Page)
    ensures
        out@ == provider_head(row@, show_account),
{
    let account = if show_account {
        row.account_label.clone()
    } else {
        masked_account_label(row)
    };
    let mut page = Page::new();
    page.line(show_provider(row));
    page.single(two("Account: ", account.as_str()).as_str(), paint(grey()));
    page.blank();
    page.single("RATE LIMIT WINDOWS:", strong(grey()));
    page
}

/// The detail of a provider.
pub open spec fn provider_page(
    row: ProviderView,
    width: int,
    show_account: bool,
    now_ms: i64,
) -> Seq<Seq<SpanView>> {
    provider_head(row, show_account) + limit_lines(
        row.windows,
        brand(row.provider_id),
        now_ms,
        row.windows.len(),
    ) + notes_part(row.diagnostics, room(width)) + closing("[Esc / Enter / Space to close]"@)
}

fn show_provider_page(row: &ProviderSnapshot, width: u16, show_account: bool, now_ms: i64) -> (out:
    Page)
    ensures
        out@ == provider_page(row@, width as int, show_account, now_ms),
{
    let color = provider_brand_color(row.provider_id.as_str());
    let mut page = show_provider_head(row, show_account);
    page.extend(show_limits(&row.windows, color, now_ms));
    page.extend(show_notes(&row.diagnostics, room_of(width)));
    page.extend(show_closing("[Esc / Enter / Space to close]"));
    page
}

/// The first line on some usage: its title, its tokens and what they would
/// cost.
pub open spec fn usage_line(
    title: SpanView,
    tokens_style: Style,
    unit: Seq<char>,
    total: i64,
    usd: Quantity,
) -> Seq<SpanView> {
    seq![
        title,
        raw(" · "@),
        cell(token_count(total), tokens_style),
        cell(unit, paint(grey())),
        raw(" · API-EQ "@),
        cell(dollars(usd, 2), strong(yellow())),
        raw(" · Eff: "@),
        cell(efficiency(total, usd), strong(sky())),
    ]
}

fn show_usage(
    title: String,
    style: Style,
    tokens_style: Style,
    unit: &str,
    total: i64,
    usd: Quantity,
) -> (out: Line)
    ensures
        out@ == usage_line(cell(title@, style), tokens_style, unit@, total, usd),
{
    let mut line = Line::new();
    line.put(title, style);
    line.raw(" · ");
    line.put(format_tokens(total), tokens_style);
    line.cell(unit, paint(grey()));
    line.raw(" · API-EQ ");
    line.put(dollar_text(usd, 2), strong(yellow()));
    line.raw(" · Eff: ");
    line.put(efficiency_text(total, usd), strong(sky()));
    line
}

/// The tokens by kind.
pub open spec fn kinds_line(tokens: UsageTokens) -> Seq<SpanView> {
    seq![
        cell("  Input: "@, paint(grey())),
        cell(token_count(tokens.input), paint(Color::White)),
        raw("    Output: "@),
        cell(token_count(tokens.output), paint(Color::White)),
        raw("    Cache Read: "@),
        cell(token_count(tokens.cache_read), paint(Color::White)),
        raw("    Reasoning: "@),
        cell(token_count(tokens.reasoning), paint(Color::White)),
    ]
}

fn show_kinds(tokens: &UsageTokens) -> (out: Line)
    ensures
        out@ == kinds_line(*tokens),
{
    let mut line = Line::new();
    line.cell("  Input: ", paint(grey()));
    line.put(format_tokens(tokens.input), paint(Color::White));
    line.raw("    Output: ");
    line.put(format_tokens(tokens.output), paint(Color::White));
    line.raw("    Cache Read: ");
    line.put(format_tokens(tokens.cache_read), paint(Color::White));
    line.raw("    Reasoning: ");
    line.put(format_tokens(tokens.reasoning), paint(Color::White));
    line
}

/// The head of the detail of some usage, up to the tokens by kind.
pub open spec fn usage_head(first: Seq<SpanView>, records: usize, tokens: UsageTokens) -> Seq<
    Seq<SpanView>,
> {
    seq![
        first,
        single("Total logged requests in this window: "@ + decimal(records as nat), paint(grey())),
        blank(),
        single("TOKEN TYPE BREAKDOWN:"@, strong(grey())),
        kinds_line(tokens),
        blank(),
    ]
}

fn show_usage_head(first: Line, records: usize, tokens: &UsageTokens) -> (out: Page)
    ensures
        out@ == usage_head(first@, records, *tokens),
{
    let mut page = Page::new();
    page.line(first);
    page.single(
        two(
            "Total logged requests in this window: ",
            decimal_text(records as u64).as_str(),
        ).as_str(),
        paint(grey()),
    );
    page.blank();
    page.single("TOKEN TYPE BREAKDOWN:", strong(grey()));
    page.line(show_kinds(tokens));
    page.blank();
    page
}

/// The headings of a table of parts.
pub open spec fn part_headings(name: Seq<char>, width: nat) -> Seq<SpanView> {
    seq![
        cell(fitted(name, width), paint(grey())),
        gap(),
        cell(fitted("TOKENS"@, 12), paint(grey())),
        gap(),
        cell(fitted("API-EQ"@, 10), paint(grey())),
        gap(),
        cell(fitted("TOK/$"@, 10), paint(grey())),
        gap(),
        cell(fitted("CALLS"@, 8), paint(grey())),
    ]
}

fn show_part_headings(name: &str, width: usize) -> (out: Line)
    ensures
        out@ == part_headings(name@, width as nat),
{
    let mut line = Line::new();
    line.column(name, width, paint(grey()));
    line.gap();
    line.column("TOKENS", 12, paint(grey()));
    line.gap();
    line.column("API-EQ", 10, paint(grey()));
    line.gap();
    line.column("TOK/$", 10, paint(grey()));
    line.gap();
    line.column("CALLS", 8, paint(grey()));
    line
}

/// How the cells of a part are set: its name, its tokens and its cost.
pub struct PartStyles {
    pub name: Style,
    pub tokens: Style,
    pub cost: Style,
}

/// The line of a part.
pub open spec fn part_line(
    name: Seq<char>,
    width: nat,
    tokens: i64,
    usd: Quantity,
    calls: usize,
    styles: PartStyles,
) -> Seq<SpanView> {
    seq![
        cell(fitted(name, width), styles.name),
        gap(),
        cell(fitted(token_count(tokens), 12), styles.tokens),
        gap(),
        cell(fitted(cost(usd), 10), styles.cost),
        gap(),
        cell(fitted(efficiency(tokens, usd), 10), paint(sky())),
        gap(),
        cell(fitted(decimal(calls as nat), 8), paint(dim_grey())),
    ]
}

fn show_part(
    name: &str,
    width: usize,
    tokens: i64,
    usd: Quantity,
    calls: usize,
    styles: PartStyles,
) -> (out: Line)
    ensures
        out@ == part_line(name@, width as nat, tokens, usd, calls, styles),
{
    let mut line = Line::new();
    line.column(name, width, styles.name);
    line.gap();
    line.column(format_tokens(tokens).as_str(), 12, styles.tokens);
    line.gap();
    line.column(cost_text(usd).as_str(), 10, styles.cost);
    line.gap();
    line.column(efficiency_text(tokens, usd).as_str(), 10, paint(sky()));
    line.gap();
    line.column(decimal_text(calls as u64).as_str(), 8, paint(dim_grey()));
    line
}

/// The line of a model under its client.
pub open spec fn sub_line(part: PortionView) -> Seq<SpanView> {
    part_line(
        "  └─ "@ + part.name,
        32,
        part.tokens,
        part.api_usd,
        part.calls,
        PartStyles {
            name: paint(name_color(part.name)),
            tokens: paint(cyan()),
            cost: paint(yellow()),
        },
    )
}

fn show_sub(part: &(String, i64, Quantity, usize)) -> (out: Line)
    ensures
        out@ == sub_line(portion(*part)),
{
    let name = two("  └─ ", part.0.as_str());
    let styles = PartStyles {
        name: paint(color_of_name(part.0.as_str())),
        tokens: paint(cyan()),
        cost: paint(yellow()),
    };
    show_part(name.as_str(), 32, part.1, part.2, part.3, styles)
}

/// The line of a client above its models.
pub open spec fn parent_line(item: ClientItemView) -> Seq<SpanView> {
    part_line(
        "▼ "@ + item.client,
        32,
        item.tokens,
        item.api_usd,
        item.calls,
        PartStyles {
            name: strong(client_color(item.client)),
            tokens: strong(cyan()),
            cost: strong(yellow()),
        },
    )
}

fn show_parent(item: &WindowClientItem) -> (out: Line)
    ensures
        out@ == parent_line(item@),
{
    let name = two("▼ ", item.client.as_str());
    let styles = PartStyles {
        name: strong(client_brand_color(item.client.as_str())),
        tokens: strong(cyan()),
        cost: strong(yellow()),
    };
    show_part(name.as_str(), 32, item.tokens, item.api_usd, item.calls, styles)
}

/// How many of some rows are shown.
pub open spec fn shown_of(rows: nat, most: nat) -> nat {
    narrower(rows, most)
}

/// A client and its five largest models.
pub open spec fn family(item: ClientItemView) -> Seq<Seq<SpanView>> {
    seq![parent_line(item)] + Seq::new(
        shown_of(item.models.len(), 5),
        |i: int| sub_line(item.models[i]),
    )
}

fn show_family(item: &WindowClientItem) -> (out: Page)
    ensures
        out@ == family(item@),
{
    let ghost views = portions(item.models@);
    let shown: usize = narrow(item.models.len(), 5);
    let mut page = Page::new();
    page.line(show_parent(item));
    let mut i: usize = 0;
    while i < shown
        invariant
            i <= shown <= item.models@.len(),
            views == portions(item.models@),
            page@ == seq![parent_line(item@)] + Seq::new(i as nat, |k: int| sub_line(views[k])),
        decreases shown - i,
    {
        assert(views[i as int] == portion(item.models@[i as int]));
        page.line(show_sub(&item.models[i]));
        i = i + 1;
    }
    page
}

/// The first `n` clients with their models.
pub open spec fn families(items: Seq<ClientItemView>, n: int) -> Seq<Seq<SpanView>>
    decreases n,
{
    if n <= 0 {
        Seq::empty()
    } else {
        families(items, n - 1) + family(items[n - 1])
    }
}

fn show_families(items: &Vec<WindowClientItem>) -> (out: Page)
    ensures
        out@ == families(client_item_views(items@), shown_of(items@.len(), 6) as int),
{
    let ghost views = client_item_views(items@);
    let shown: usize = narrow(items.len(), 6);
    let mut page = Page::new();
    let mut i: usize = 0;
    while i < shown
        invariant
            i <= shown <= items@.len(),
            views == client_item_views(items@),
            page@ == families(views, i as int),
        decreases shown - i,
    {
        assert(views[i as int] == items@[i as int]@);
        page.extend(show_family(&items[i]));
        i = i + 1;
    }
    page
}

/// The headings of the models with their clients.
pub open spec fn harness_headings() -> Seq<SpanView> {
    seq![
        cell(fitted("MODEL"@, 26), paint(grey())),
        gap(),
        cell(fitted("PARENT HARNESS"@, 18), paint(grey())),
        gap(),
        cell(fitted("TOKENS"@, 12), paint(grey())),
        gap(),
        cell(fitted("API-EQ"@, 10), paint(grey())),
        gap(),
        cell(fitted("TOK/$"@, 10), paint(grey())),
        gap(),
        cell(fitted("CALLS"@, 6), paint(grey())),
    ]
}

fn show_harness_headings() -> (out: Line)
    ensures
        out@ == harness_headings(),
{
    let mut line = Line::new();
    line.column("MODEL", 26, paint(grey()));
    line.gap();
    line.column("PARENT HARNESS", 18, paint(grey()));
    line.gap();
    line.column("TOKENS", 12, paint(grey()));
    line.gap();
    line.column("API-EQ", 10, paint(grey()));
    line.gap();
    line.column("TOK/$", 10, paint(grey()));
    line.gap();
    line.column("CALLS", 6, paint(grey()));
    line
}

/// The line of a model with its clients.
pub open spec fn harness_line(item: HarnessView) -> Seq<SpanView> {
    seq![
        cell(fitted(item.model, 26), paint(name_color(item.model))),
        gap(),
        cell(fitted(item.harness, 18), paint(client_color(item.harness))),
        gap(),
        cell(fitted(token_count(item.tokens), 12), paint(cyan())),
        gap(),
        cell(fitted(cost(item.api_usd), 10), paint(yellow())),
        gap(),
        cell(fitted(efficiency(item.tokens, item.api_usd), 10), paint(sky())),
        gap(),
        cell(fitted(decimal(item.calls as nat), 6), paint(dim_grey())),
    ]
}

fn show_harness(item: &(String, String, i64, Quantity, usize)) -> (out: Line)
    ensures
        out@ == harness_line(harness(*item)),
{
    let mut line = Line::new();
    line.column(item.0.as_str(), 26, paint(color_of_name(item.0.as_str())));
    line.gap();
    line.column(item.1.as_str(), 18, paint(client_brand_color(item.1.as_str())));
    line.gap();
    line.column(format_tokens(item.2).as_str(), 12, paint(cyan()));
    line.gap();
    line.column(cost_text(item.3).as_str(), 10, paint(yellow()));
    line.gap();
    line.column(efficiency_text(item.2, item.3).as_str(), 10, paint(sky()));
    line.gap();
    line.column(decimal_text(item.4 as u64).as_str(), 6, paint(dim_grey()));
    line
}

/// The head of the models of a window.
pub open spec fn harness_head(width: int) -> Seq<Seq<SpanView>> {
    seq![
        blank(),
        single("TOP MODELS IN THIS WINDOW (WITH PARENT HARNESS):"@, strong(grey())),
        harness_headings(),
        rule(narrower(room(width), 90), dim_grey()),
    ]
}

fn show_harness_head(width: u16) -> (out: Page)
    ensures
        out@ == harness_head(width as int),
{
    let mut page = Page::new();
    page.blank();
    page.single("TOP MODELS IN THIS WINDOW (WITH PARENT HARNESS):", strong(grey()));
    page.line(show_harness_headings());
    page.line(rule_line(narrow(room_of(width), 90), dim_grey()));
    page
}

/// The eight largest models of a window, where there are any.
pub open spec fn harness_part(items: Seq<HarnessView>, width: int) -> Seq<Seq<SpanView>> {
    if items.len() == 0 {
        Seq::empty()
    } else {
        harness_head(width) + Seq::new(shown_of(items.len(), 8), |i: int| harness_line(items[i]))
    }
}

fn show_harnesses(items: &Vec<(String, String, i64, Quantity, usize)>, width: u16) -> (out: Page)
    ensures
        out@ == harness_part(harnesses(items@), width as int),
{
    let ghost views = harnesses(items@);
    if items.len() == 0 {
        return Page::new();
    }
    let shown: usize = narrow(items.len(), 8);
    let mut page = show_harness_head(width);
    let mut body = Page::new();
    let mut i: usize = 0;
    while i < shown
        invariant
            i <= shown <= items@.len(),
            views == harnesses(items@),
            body@ == Seq::new(i as nat, |k: int| harness_line(views[k])),
        decreases shown - i,
    {
        assert(views[i as int] == harness(items@[i as int]));
        body.line(show_harness(&items[i]));
        i = i + 1;
    }
    page.extend(body);
    page
}

/// The head of the clients of a window.
pub open spec fn families_head(width: int) -> Seq<Seq<SpanView>> {
    seq![
        blank(),
        single(
            "CLIENT / HARNESS & SUB-MODEL HIERARCHY (PARENT ➔ CHILDREN):"@,
            strong(grey()),
        ),
        part_headings("CLIENT / SUB-MODEL"@, 32),
        rule(narrower(room(width), 78), dim_grey()),
    ]
}

fn show_families_head(width: u16) -> (out: Page)
    ensures
        out@ == families_head(width as int),
{
    let mut page = Page::new();
    page.blank();
    page.single("CLIENT / HARNESS & SUB-MODEL HIERARCHY (PARENT ➔ CHILDREN):", strong(grey()));
    page.line(show_part_headings("CLIENT / SUB-MODEL", 32));
    page.line(rule_line(narrow(room_of(width), 78), dim_grey()));
    page
}

/// The first line on a window.
pub open spec fn window_title(window: LedgerWindow, tokens: UsageTokens, usd: Quantity) -> Seq<
    SpanView,
> {
    usage_line(
        cell("TIME WINDOW: "@ + capitals(window.name()) + " "@, strong(cyan())),
        strong(Color::White),
        " tokens"@,
        tokens.reported(),
        usd,
    )
}

/// The detail of a window.
pub open spec fn window_page(
    window: LedgerWindow,
    records: usize,
    tokens: UsageTokens,
    usd: Quantity,
    clients: Seq<ClientItemView>,
    models: Seq<HarnessView>,
    width: int,
) -> Seq<Seq<SpanView>> {
    usage_head(window_title(window, tokens, usd), records, tokens) + families_head(width)
        + families(clients, shown_of(clients.len(), 6) as int) + harness_part(models, width)
        + closing(
        "[Esc / Enter / Space to close · ↑/↓/j/k to scroll · press 'w' in ledger to switch active window]"@,
    )
}

fn show_window_page(
    window: LedgerWindow,
    records: usize,
    tokens: &UsageTokens,
    usd: Quantity,
    clients: &Vec<WindowClientItem>,
    models: &Vec<(String, String, i64, Quantity, usize)>,
    width: u16,
) -> (out: Page)
    ensures
        out@ == window_page(
            window,
            records,
            *tokens,
            usd,
            client_item_views(clients@),
            harnesses(models@),
            width as int,
        ),
{
    let total: i64 = tokens.reported_total_without_reasoning();
    let first = show_usage(
        three("TIME WINDOW: ", uppercase(window.label()).as_str(), " "),
        strong(cyan()),
        strong(Color::White),
        " tokens",
        total,
        usd,
    );
    let mut page = show_usage_head(first, records, tokens);
    page.extend(show_families_head(width));
    page.extend(show_families(clients));
    page.extend(show_harnesses(models, width));
    page.extend(
        show_closing(
            "[Esc / Enter / Space to close · ↑/↓/j/k to scroll · press 'w' in ledger to switch active window]",
        ),
    );
    page
}

/// The head of the models of a client.
pub open spec fn called_head(width: int) -> Seq<Seq<SpanView>> {
    seq![
        single("MODELS CALLED BY THIS CLIENT:"@, strong(grey())),
        part_headings("MODEL"@, 28),
        rule(narrower(room(width), 74), dim_grey()),
    ]
}

fn show_called_head(width: u16) -> (out: Page)
    ensures
        out@ == called_head(width as int),
{
    let mut page = Page::new();
    page.single("MODELS CALLED BY THIS CLIENT:", strong(grey()));
    page.line(show_part_headings("MODEL", 28));
    page.line(rule_line(narrow(room_of(width), 74), dim_grey()));
    page
}

/// The line of a model of a client.
pub open spec fn called_line(part: PortionView) -> Seq<SpanView> {
    part_line(
        part.name,
        28,
        part.tokens,
        part.api_usd,
        part.calls,
        PartStyles {
            name: paint(name_color(part.name)),
            tokens: paint(cyan()),
            cost: paint(yellow()),
        },
    )
}

fn show_called(part: &(String, i64, Quantity, usize)) -> (out: Line)
    ensures
        out@ == called_line(portion(*part)),
{
    let styles = PartStyles {
        name: paint(color_of_name(part.0.as_str())),
        tokens: paint(cyan()),
        cost: paint(yellow()),
    };
    show_part(part.0.as_str(), 28, part.1, part.2, part.3, styles)
}

/// The first line on a client.
pub open spec fn client_title(
    client: Seq<char>,
    window: LedgerWindow,
    tokens: UsageTokens,
    usd: Quantity,
) -> Seq<SpanView> {
    usage_line(
        cell("CLIENT / HARNESS: "@ + capitals(client) + " "@, strong(client_color(client))),
        strong(cyan()),
        " tokens ("@ + window.name() + ")"@,
        tokens.reported(),
        usd,
    )
}

/// The detail of a client.
pub open spec fn client_page(
    client: Seq<char>,
    window: LedgerWindow,
    records: usize,
    tokens: UsageTokens,
    usd: Quantity,
    models: Seq<PortionView>,
    width: int,
) -> Seq<Seq<SpanView>> {
    usage_head(client_title(client, window, tokens, usd), records, tokens) + called_head(width)
        + Seq::new(shown_of(models.len(), 8), |i: int| called_line(models[i])) + closing(
        "[Esc / Enter / Space to close]"@,
    )
}

fn show_client_page(
    client: &str,
    window: LedgerWindow,
    records: usize,
    tokens: &UsageTokens,
    usd: Quantity,
    models: &Vec<(String, i64, Quantity, usize)>,
    width: u16,
) -> (out: Page)
    ensures
        out@ == client_page(
            client@,
            window,
            records,
            *tokens,
            usd,
            portions(models@),
            width as int,
        ),
{
    let ghost views = portions(models@);
    let unit = three(" tokens (", window.label(), ")");
    let first = show_usage(
        three("CLIENT / HARNESS: ", uppercase(client).as_str(), " "),
        strong(client_brand_color(client)),
        strong(cyan()),
        unit.as_str(),
        tokens.reported_total_without_reasoning(),
        usd,
    );
    let mut page = show_usage_head(first, records, tokens);
    page.extend(show_called_head(width));
    let shown: usize = narrow(models.len(), 8);
    let mut body = Page::new();
    let mut i: usize = 0;
    while i < shown
        invariant
            i <= shown <= models@.len(),
            views == portions(models@),
            body@ == Seq::new(i as nat, |k: int| called_line(views[k])),
        decreases shown - i,
    {
        assert(views[i as int] == portion(models@[i as int]));
        body.line(show_called(&models[i]));
        i = i + 1;
    }
    page.extend(body);
    page.extend(show_closing("[Esc / Enter / Space to close]"));
    page
}

/// The headings of the clients of a model.
pub open spec fn caller_headings() -> Seq<SpanView> {
    seq![
        cell(fitted("CLIENT"@, 24), paint(grey())),
        gap(),
        cell(fitted("TOKENS"@, 12), paint(grey())),
        gap(),
        cell(fitted("API-EQ"@, 10), paint(grey())),
        gap(),
        cell(fitted("CALLS"@, 8), paint(grey())),
    ]
}

fn show_caller_headings() -> (out: Line)
    ensures
        out@ == caller_headings(),
{
    let mut line = Line::new();
    line.column("CLIENT", 24, paint(grey()));
    line.gap();
    line.column("TOKENS", 12, paint(grey()));
    line.gap();
    line.column("API-EQ", 10, paint(grey()));
    line.gap();
    line.column("CALLS", 8, paint(grey()));
    line
}

/// The line of a client of a model.
pub open spec fn caller_line(part: PortionView) -> Seq<SpanView> {
    seq![
        cell(fitted(part.name, 24), strong(client_color(part.name))),
        gap(),
        cell(fitted(token_count(part.tokens), 12), paint(cyan())),
        gap(),
        cell(fitted(cost(part.api_usd), 10), paint(yellow())),
        gap(),
        cell(fitted(decimal(part.calls as nat), 8), paint(dim_grey())),
    ]
}

fn show_caller(part: &(String, i64, Quantity, usize)) -> (out: Line)
    ensures
        out@ == caller_line(portion(*part)),
{
    let mut line = Line::new();
    line.column(part.0.as_str(), 24, strong(client_brand_color(part.0.as_str())));
    line.gap();
    line.column(format_tokens(part.1).as_str(), 12, paint(cyan()));
    line.gap();
    line.column(cost_text(part.2).as_str(), 10, paint(yellow()));
    line.gap();
    line.column(decimal_text(part.3 as u64).as_str(), 8, paint(dim_grey()));
    line
}

/// The head of the clients of a model.
pub open spec fn callers_head(width: int) -> Seq<Seq<SpanView>> {
    seq![
        single("CLIENTS / HARNESSES INVOKING THIS MODEL:"@, strong(grey())),
        caller_headings(),
        rule(narrower(room(width), 60), dim_grey()),
    ]
}

fn show_callers_head(width: u16) -> (out: Page)
    ensures
        out@ == callers_head(width as int),
{
    let mut page = Page::new();
    page.single("CLIENTS / HARNESSES INVOKING THIS MODEL:", strong(grey()));
    page.line(show_caller_headings());
    page.line(rule_line(narrow(room_of(width), 60), dim_grey()));
    page
}

/// The first line on a model.
pub open spec fn model_title(
    model: Seq<char>,
    window: LedgerWindow,
    tokens: UsageTokens,
    usd: Quantity,
) -> Seq<SpanView> {
    usage_line(
        cell("MODEL: "@ + model + " "@, strong(name_color(model))),
        strong(cyan()),
        " tokens ("@ + window.name() + ")"@,
        tokens.reported(),
        usd,
    )
}

/// The detail of a model.
pub open spec fn model_page(
    model: Seq<char>,
    window: LedgerWindow,
    records: usize,
    tokens: UsageTokens,
    usd: Quantity,
    clients: Seq<PortionView>,
    width: int,
) -> Seq<Seq<SpanView>> {
    usage_head(model_title(model, window, tokens, usd), records, tokens) + callers_head(width)
        + Seq::new(shown_of(clients.len(), 8), |i: int| caller_line(clients[i])) + closing(
        "[Esc / Enter / Space to close]"@,
    )
}

fn show_model_page(
    model: &str,
    window: LedgerWindow,
    records: usize,
    tokens: &UsageTokens,
    usd: Quantity,
    clients: &Vec<(String, i64, Quantity, usize)>,
    width: u16,
) -> (out: Page)
    ensures
        out@ == model_page(
            model@,
            window,
            records,
            *tokens,
            usd,
            portions(clients@),
            width as int,
        ),
{
    let ghost views = portions(clients@);
    let unit = three(" tokens (", window.label(), ")");
    let first = show_usage(
        three("MODEL: ", model, " "),
        strong(color_of_name(model)),
        strong(cyan()),
        unit.as_str(),
        tokens.reported_total_without_reasoning(),
        usd,
    );
    let mut page = show_usage_head(first, records, tokens);
    page.extend(show_callers_head(width));
    let shown: usize = narrow(clients.len(), 8);
    let mut body = Page::new();
    let mut i: usize = 0;
    while i < shown
        invariant
            i <= shown <= clients@.len(),
            views == portions(clients@),
            body@ == Seq::new(i as nat, |k: int| caller_line(views[k])),
        decreases shown - i,
    {
        assert(views[i as int] == portion(clients@[i as int]));
        body.line(show_caller(&clients[i]));
        i = i + 1;
    }
    page.extend(body);
    page.extend(show_closing("[Esc / Enter / Space to close]"));
    page
}

/// The lines of the detail view.
pub open spec fn detail_page(
    detail: DetailView,
    width: int,
    show_account: bool,
    now_ms: i64,
) -> Seq<Seq<SpanView>> {
    match detail {
        DetailView::Closed => Seq::empty(),
        DetailView::LimitsProvider(row) => provider_page(row, width, show_account, now_ms),
        DetailView::ConsumptionWindow {
            window,
            records,
            tokens,
            api_usd,
            clients,
            models,
        } => window_page(window, records, tokens, api_usd, clients, models, width),
        DetailView::ConsumptionClient {
            client,
            window,
            records,
            tokens,
            api_usd,
            models,
        } => client_page(client, window, records, tokens, api_usd, models, width),
        DetailView::ConsumptionModel {
            model,
            window,
            records,
            tokens,
            api_usd,
            clients,
        } => model_page(model, window, records, tokens, api_usd, clients, width),
    }
}

pub fn modal_lines(modal: &DetailModal, width: u16, show_account: bool, now_ms: i64) -> (out: Page)
    ensures
        out@ == detail_page(modal@, width as int, show_account, now_ms),
{
    match modal {
        DetailModal::Closed => Page::new(),
        DetailModal::LimitsProvider(row) => show_provider_page(row, width, show_account, now_ms),
        DetailModal::ConsumptionWindow {
            window,
            records,
            tokens,
            api_usd,
            clients,
            models,
        } => show_window_page(*window, *records, tokens, *api_usd, clients, models, width),
        DetailModal::ConsumptionClient {
            client,
            window,
            records,
            tokens,
            api_usd,
            models,
        } => show_client_page(client.as_str(), *window, *records, tokens, *api_usd, models, width),
        DetailModal::ConsumptionModel {
            model,
            window,
            records,
            tokens,
            api_usd,
            clients,
        } => show_model_page(model.as_str(), *window, *records, tokens, *api_usd, clients, width),
    }
}

/// Every page of the detail view ends with how to leave it.
pub proof fn law_detail_says_how_to_leave(
    detail: DetailView,
    width: int,
    show_account: bool,
    now_ms: i64,
)
    requires
        !(detail is Closed),
    ensures
        ({
            let page = detail_page(detail, width, show_account, now_ms);
            let hint = if detail is ConsumptionWindow {
                "[Esc / Enter / Space to close · ↑/↓/j/k to scroll · press 'w' in ledger to switch active window]"@
            } else {
                "[Esc / Enter / Space to close]"@
            };
            page.len() >= 2 && page.last() == single(hint, faint(grey()))
        }),
{
}

/// The detail of a provider names the account, masked unless it may be read:
/// without leave, rows that differ in nothing but what the mask hides have the
/// same page.
pub proof fn law_detail_masks_the_account(
    row: ProviderView,
    other: ProviderView,
    width: int,
    now_ms: i64,
)
    requires
        other == (ProviderView { account_label: other.account_label, ..row }),
        masked_label(row) == masked_label(other),
    ensures
        detail_page(DetailView::LimitsProvider(row), width, false, now_ms) == detail_page(
            DetailView::LimitsProvider(other),
            width,
            false,
            now_ms,
        ),
        detail_page(DetailView::LimitsProvider(row), width, false, now_ms)[1] == single(
            "Account: "@ + masked_label(row),
            paint(grey()),
        ),
{
}

} // verus!
