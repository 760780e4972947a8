//! The lines of the limits screen.

use vstd::prelude::*;

use crate::labels::{brand, dims, provider_brand_color, provider_title_base, reset_shown};
use crate::labels::{reset_text, row_dimmed, row_views, status_style, status_style_for, title_base};
use crate::ledger::{buckets, compute_temporal_usage, TemporalUsageBucket};
use crate::limits::{window_views, Availability, LimitWindow, ProviderSnapshot, ProviderView};
use crate::limits::{WindowKind, WindowView};
use crate::matrix::{burn_first, calculate_matrix_columns, dual_reset};
use crate::matrix::{find_burn_first_recommendation, format_dual_reset, format_matrix_status};
use crate::matrix::{format_quota_cell, matrix, maybe_burn, maybe_verdict, maybe_window};
use crate::matrix::{quota_cells, rest_or, status_cell, BurnRecommendation, BurnView, MatrixColumns};
use crate::matrix::Verdict;
use crate::monitor::{pick_rows, rows_of_kind, App, AppView, Context};
use crate::numerals::{cost, cost_text, efficiency, efficiency_text, fixed, fixed_text};
use crate::numerals::{format_tokens, token_count};
use crate::quantity::{HUNDRED, Quantity, ZERO};
use crate::report::ConsumptionReport;
use crate::screen::{amber, blank, blue, cell, cursor, cyan, dim_grey, faint, fitted, gap, green};
use crate::screen::{grey, lit, paint, put_cursor, raw, red, rule, rule_behind, rule_line, ruled};
use crate::screen::{single, sky, str_width, strong, text_columns, yellow, Color, Line, Page};
use crate::screen::{SpanView, Style};
use crate::sort::{first_where, lemma_is_first_where};
use crate::text::{char_count, contains, decimal, decimal_text, five, has_prefix, has_text, lower};
use crate::text::{same, starts_with, three, to_lower, to_upper, two, upper};

verus! {

/// What is looked for among the windows of a row.
#[derive(Clone, Copy, Debug, PartialEq, Eq, Structural)]
pub enum Sought {
    GeminiSession,
    GeminiCycle,
    ClaudeSession,
    ClaudeCycle,
    CursorModels,
    OtherModels,
    Session,
    Cycle,
    Amount,
    Percent,
    Reset,
}

impl Sought {
    pub open spec fn fits(self, window: WindowView) -> bool {
        let l = lower(window.label);
        let claude = contains(l, "anthropic"@) || contains(l, "gpt"@);
        let short = contains(l, "5h"@) || window.kind is Session;
        let long = contains(l, "7d"@) || window.kind is Weekly;
        match self {
            Sought::GeminiSession => contains(l, "gemini"@) && short,
            Sought::GeminiCycle => contains(l, "gemini"@) && long,
            Sought::ClaudeSession => claude && short,
            Sought::ClaudeCycle => claude && long,
            Sought::CursorModels => contains(l, "cursor"@),
            Sought::OtherModels => contains(l, "other"@),
            Sought::Session => !window.metric.credit() && (short || contains(l, "session"@)),
            Sought::Cycle => !window.metric.credit() && (long || window.kind is Monthly
                || window.kind is Daily || contains(l, "weekly"@) || contains(l, "daily"@)),
            Sought::Amount => window.remaining_amount is Some,
            Sought::Percent => window.remaining_percent is Some,
            Sought::Reset => window.resets_at_ms is Some,
        }
    }

    fn suits(self, window: &LimitWindow) -> (yes: bool)
        ensures
            yes == self.fits(window@),
    {
        let label = to_lower(window.label.as_str());
        let l = label.as_str();
        let claude = has_text(l, "anthropic") || has_text(l, "gpt");
        let short = has_text(l, "5h") || window.kind == WindowKind::Session;
        let long = has_text(l, "7d") || window.kind == WindowKind::Weekly;
        match self {
            Sought::GeminiSession => has_text(l, "gemini") && short,
            Sought::GeminiCycle => has_text(l, "gemini") && long,
            Sought::ClaudeSession => claude && short,
            Sought::ClaudeCycle => claude && long,
            Sought::CursorModels => has_text(l, "cursor"),
            Sought::OtherModels => has_text(l, "other"),
            Sought::Session => !window.metric.is_credit() && (short || has_text(l, "session")),
            Sought::Cycle => !window.metric.is_credit() && (long || window.kind
                == WindowKind::Monthly || window.kind == WindowKind::Daily || has_text(l, "weekly")
                || has_text(l, "daily")),
            Sought::Amount => window.remaining_amount.is_some(),
            Sought::Percent => window.remaining_percent.is_some(),
            Sought::Reset => window.resets_at_ms.is_some(),
        }
    }

    /// The first window that fits.
    pub open spec fn among(self, windows: Seq<WindowView>) -> Option<WindowView> {
        match first_where(windows, |window: WindowView| self.fits(window), 0) {
            Some(at) => Some(windows[at]),
            None => None,
        }
    }

    fn find<'a>(self, windows: &'a Vec<LimitWindow>) -> (out: Option<&'a LimitWindow>)
        ensures
            maybe_window(out) == self.among(window_views(windows@)),
    {
        let ghost views = window_views(windows@);
        let ghost wanted = |window: WindowView| self.fits(window);
        let mut i: usize = 0;
        while i < windows.len()
            invariant
                i <= windows@.len(),
                views == window_views(windows@),
                wanted == |window: WindowView| self.fits(window),
                forall|k: int| 0 <= k < i ==> !wanted(#[trigger] views[k]),
            decreases windows@.len() - i,
        {
            assert(views[i as int] == windows@[i as int]@);
            if self.suits(&windows[i]) {
                proof {
                    lemma_is_first_where(views, wanted, Some(i as int));
                }
                return Some(&windows[i]);
            }
            i = i + 1;
        }
        proof {
            lemma_is_first_where(views, wanted, None);
        }
        None
    }
}

/// The share that is left is exactly so many percent.
pub open spec fn at_percent(window: Option<WindowView>, bits: u64) -> bool {
    window is Some && window->0.remaining_percent is Some
        && window->0.remaining_percent->0.equals(Quantity { bits })
}

fn is_at_percent(window: Option<&LimitWindow>, bits: u64) -> (yes: bool)
    ensures
        yes == at_percent(maybe_window(window), bits),
{
    match window {
        Some(window) => match window.remaining_percent {
            Some(percent) => percent.is_equal(Quantity { bits }),
            None => false,
        },
        None => false,
    }
}

/// The text of a banner of the limits screen.
pub open spec fn burn_banner(burn: Option<BurnView>, width: int) -> Seq<char> {
    match burn {
        Some(burn) => {
            let percent = burn.remaining_pct.truncated();
            let shown = decimal(
                (if percent > u32::MAX {
                    u32::MAX as int
                } else if percent < 0 {
                    0
                } else {
                    percent
                }) as nat,
            );
            if width >= 115 {
                "── AI SUBSCRIPTIONS & ROLLING RATE-LIMITS ── 🔥 Burn First: "@
                    + burn.provider_title + " ("@ + shown + ("% left, resets in "@
                    + burn.resets_in + ") "@)
            } else {
                "── AI SUBSCRIPTIONS ── 🔥 Burn First: "@ + burn.provider_title + " ("@ + shown + (
                "%, ↻ "@ + burn.resets_in + ") "@)
            }
        },
        None => if width >= 115 {
            "── AI SUBSCRIPTIONS & ROLLING RATE-LIMITS "@
        } else {
            "── AI SUBSCRIPTIONS "@
        },
    }
}

fn burn_banner_text(burn: &Option<BurnRecommendation>, width: u16) -> (out: String)
    ensures
        out@ == burn_banner(maybe_burn(*burn), width as int),
{
    match burn {
        Some(burn) => {
            let percent: i64 = burn.remaining_pct.truncate();
            let held: u64 = if percent > 0xffff_ffff {
                0xffff_ffff
            } else if percent < 0 {
                0
            } else {
                percent as u64
            };
            let shown = decimal_text(held);
            if width >= 115 {
                let end = three("% left, resets in ", burn.resets_in.as_str(), ") ");
                five(
                    "── AI SUBSCRIPTIONS & ROLLING RATE-LIMITS ── 🔥 Burn First: ",
                    burn.provider_title.as_str(),
                    " (",
                    shown.as_str(),
                    end.as_str(),
                )
            } else {
                let end = three("%, ↻ ", burn.resets_in.as_str(), ") ");
                five(
                    "── AI SUBSCRIPTIONS ── 🔥 Burn First: ",
                    burn.provider_title.as_str(),
                    " (",
                    shown.as_str(),
                    end.as_str(),
                )
            }
        },
        None => if width >= 115 {
            "── AI SUBSCRIPTIONS & ROLLING RATE-LIMITS ".to_owned()
        } else {
            "── AI SUBSCRIPTIONS ".to_owned()
        },
    }
}

/// The banner of the subscriptions: cut where it is too long, else with a rule
/// behind it.
pub open spec fn burn_line(burn: Option<BurnView>, width: int) -> Seq<SpanView> {
    let banner = burn_banner(burn, width);
    let style = strong(
        if burn is Some {
            amber()
        } else {
            grey()
        },
    );
    if text_columns(banner) >= width {
        single(fitted(banner, width as nat), style)
    } else {
        ruled(banner, style, width as nat)
    }
}

fn show_burn(burn: &Option<BurnRecommendation>, width: u16) -> (out: Line)
    ensures
        out@ == burn_line(maybe_burn(*burn), width as int),
{
    let banner = burn_banner_text(burn, width);
    let color = if burn.is_some() {
        amber()
    } else {
        grey()
    };
    if str_width(banner.as_str()) >= width as usize {
        let mut line = Line::new();
        line.column(banner.as_str(), width as usize, strong(color));
        line
    } else {
        rule_behind(banner.as_str(), strong(color), width as usize)
    }
}

/// The headings of the subscriptions.
pub open spec fn subscription_columns(cols: MatrixColumns) -> Seq<SpanView> {
    seq![
        cell(fitted("SUBSCRIPTION / POOL"@, cols.provider as nat), strong(grey())),
        gap(),
        cell(fitted("SESSION (5H)"@, cols.session as nat), strong(grey())),
        gap(),
        cell(fitted("CYCLE (7D)"@, cols.cycle as nat), strong(grey())),
        gap(),
        cell(fitted("RESETS (5H │ 7D)"@, cols.reset as nat), strong(grey())),
        gap(),
        cell(fitted("STATUS / BURN"@, cols.status as nat), strong(grey())),
    ]
}

fn show_subscription_columns(cols: MatrixColumns) -> (out: Line)
    ensures
        out@ == subscription_columns(cols),
{
    let mut line = Line::new();
    line.column("SUBSCRIPTION / POOL", cols.provider, strong(grey()));
    line.gap();
    line.column("SESSION (5H)", cols.session, strong(grey()));
    line.gap();
    line.column("CYCLE (7D)", cols.cycle, strong(grey()));
    line.gap();
    line.column("RESETS (5H │ 7D)", cols.reset, strong(grey()));
    line.gap();
    line.column("STATUS / BURN", cols.status, strong(grey()));
    line
}

/// The start of a row: the selection, the state's sign and the title.
pub open spec fn row_head(
    row: ProviderView,
    color: Color,
    title: Style,
    selected: bool,
    width: int,
) -> Seq<SpanView> {
    seq![
        cursor(selected),
        cell(
            seq![row.availability.sign()] + " "@,
            if row.availability is Available {
                paint(color)
            } else {
                status_style(row)
            },
        ),
        cell(fitted(title_base(row), rest_or(width, 4, 0) as nat), lit(title, selected)),
        gap(),
    ]
}

fn less(width: usize, by: usize) -> (out: usize)
    ensures
        out == rest_or(width as int, by as int, 0),
{
    if width < by {
        0
    } else {
        width - by
    }
}

fn show_row_head(
    row: &ProviderSnapshot,
    color: Color,
    title: Style,
    selected: bool,
    width: usize,
) -> (out: Line)
    ensures
        out@ == row_head(row@, color, title, selected, width as int),
{
    let mut line = Line::new();
    put_cursor(&mut line, selected);
    let mut sign = String::new();
    sign.push(row.availability.marker());
    assert(sign@ =~= seq![row.availability.sign()]);
    let style = if row.availability == Availability::Available {
        paint(color)
    } else {
        status_style_for(row)
    };
    line.put(two(sign.as_str(), " "), style);
    line.column(provider_title_base(row).as_str(), less(width, 4), lit(title, selected));
    line.gap();
    line
}

/// The end of a row: its quotas, its resets and its state.
#[verifier::opaque]
pub open spec fn row_tail(
    session: Option<WindowView>,
    cycle: Option<WindowView>,
    resets: (Option<WindowView>, Option<WindowView>),
    cols: MatrixColumns,
    color: Color,
    dim: bool,
    now_ms: i64,
    status: SpanView,
) -> Seq<SpanView> {
    quota_cells(session, cols.bar_width as nat, cols.session as nat, color, dim) + seq![gap()]
        + quota_cells(cycle, cols.bar_width as nat, cols.cycle as nat, color, dim) + seq![gap()]
        + dual_reset(resets.0, resets.1, cols.reset as nat, now_ms, dim) + seq![gap()] + seq![
        status,
    ]
}

fn put_gap(line: &mut Line)
    ensures
        final(line)@ == old(line)@ + seq![gap()],
{
    line.gap();
}

fn show_row_tail(
    row: &ProviderSnapshot,
    session: Option<&LimitWindow>,
    cycle: Option<&LimitWindow>,
    resets: (Option<&LimitWindow>, Option<&LimitWindow>),
    cols: MatrixColumns,
    color: Color,
    dim: bool,
    now_ms: i64,
    verdict: Option<(&str, Color)>,
    burns: bool,
) -> (out: Line)
    ensures
        out@ == row_tail(
            maybe_window(session),
            maybe_window(cycle),
            (maybe_window(resets.0), maybe_window(resets.1)),
            cols,
            color,
            dim,
            now_ms,
            status_cell(row@, maybe_verdict(verdict), cols.status as nat, burns),
        ),
{
    let mut line = format_quota_cell(session, cols.bar_width, cols.session, color, dim);
    put_gap(&mut line);
    line.extend(format_quota_cell(cycle, cols.bar_width, cols.cycle, color, dim));
    put_gap(&mut line);
    line.extend(format_dual_reset(resets.0, resets.1, cols.reset, now_ms, dim));
    put_gap(&mut line);
    format_matrix_status(&mut line, row, verdict, cols.status, burns);
    proof {
        reveal(row_tail);
    }
    line
}

/// The row of Antigravity itself, above its pools.
pub open spec fn pools_line(
    row: ProviderView,
    cols: MatrixColumns,
    selected: bool,
    now_ms: i64,
) -> Seq<SpanView> {
    let color = brand("antigravity"@);
    let session = Sought::GeminiSession.among(row.windows);
    let cycle = Sought::GeminiCycle.among(row.windows);
    row_head(row, color, strong(color), selected, cols.provider as int) + seq![
        cell(fitted("2 pools active"@, cols.session as nat), paint(cyan())),
    ] + seq![gap()] + seq![
        cell(fitted("CLI (port 57388)"@, cols.cycle as nat), paint(dim_grey())),
    ] + seq![gap()] + dual_reset(session, cycle, cols.reset as nat, now_ms, false) + seq![gap()]
        + seq![
        status_cell(
            row,
            Some(Verdict { words: "ready"@, color: green() }),
            cols.status as nat,
            false,
        ),
    ]
}

fn show_pools(row: &ProviderSnapshot, cols: MatrixColumns, selected: bool, now_ms: i64) -> (out: Line)
    ensures
        out@ == pools_line(row@, cols, selected, now_ms),
{
    let color = provider_brand_color("antigravity");
    let session = Sought::GeminiSession.find(&row.windows);
    let cycle = Sought::GeminiCycle.find(&row.windows);
    let mut line = show_row_head(row, color, strong(color), selected, cols.provider);
    line.column("2 pools active", cols.session, paint(cyan()));
    line.gap();
    line.column("CLI (port 57388)", cols.cycle, paint(dim_grey()));
    line.gap();
    line.extend(format_dual_reset(session, cycle, cols.reset, now_ms, false));
    line.gap();
    format_matrix_status(&mut line, row, Some(("ready", green())), cols.status, false);
    line
}

/// The start of a pool's row.
pub open spec fn pool_head(name: Seq<char>, color: Color, width: int) -> Seq<SpanView> {
    seq![raw("  "@), cell(fitted(name, rest_or(width, 2, 0) as nat), strong(color)), gap()]
}

fn show_pool_head(name: &str, color: Color, width: usize) -> (out: Line)
    ensures
        out@ == pool_head(name@, color, width as int),
{
    let mut line = Line::new();
    line.raw("  ");
    line.column(name, less(width, 2), strong(color));
    line.gap();
    line
}

/// The pool of the Gemini models.
pub open spec fn gemini_line(row: ProviderView, cols: MatrixColumns, now_ms: i64) -> Seq<SpanView> {
    let color = sky();
    let session = Sought::GeminiSession.among(row.windows);
    let cycle = Sought::GeminiCycle.among(row.windows);
    let capped = at_percent(session, ZERO);
    let verdict = if capped {
        Verdict { words: "5h capped"@, color: yellow() }
    } else {
        Verdict { words: "smooth"@, color: grey() }
    };
    pool_head("├─ Gemini Pool (Flash/Pro)"@, color, cols.provider as int) + row_tail(
        session,
        cycle,
        (session, cycle),
        cols,
        color,
        capped,
        now_ms,
        status_cell(row, Some(verdict), cols.status as nat, false),
    )
}

fn show_gemini(row: &ProviderSnapshot, cols: MatrixColumns, now_ms: i64) -> (out: Line)
    ensures
        out@ == gemini_line(row@, cols, now_ms),
{
    let color = sky();
    let session = Sought::GeminiSession.find(&row.windows);
    let cycle = Sought::GeminiCycle.find(&row.windows);
    let capped = is_at_percent(session, ZERO);
    let mut line = show_pool_head("├─ Gemini Pool (Flash/Pro)", color, cols.provider);
    let verdict = if capped {
        ("5h capped", yellow())
    } else {
        ("smooth", grey())
    };
    line.extend(
        show_row_tail(
            row,
            session,
            cycle,
            (session, cycle),
            cols,
            color,
            capped,
            now_ms,
            Some(verdict),
            false,
        ),
    );
    line
}

/// The second pool, below that of the Gemini models.
pub open spec fn claude_line(row: ProviderView, cols: MatrixColumns, now_ms: i64) -> Seq<SpanView> {
    let color = Color::Rgb(217, 119, 87);
    let session = Sought::ClaudeSession.among(row.windows);
    let cycle = Sought::ClaudeCycle.among(row.windows);
    let capped = at_percent(session, ZERO);
    let verdict = if at_percent(session, HUNDRED) {
        Verdict { words: "READY (FULL)"@, color: green() }
    } else if capped {
        Verdict { words: "5h capped"@, color: yellow() }
    } else {
        Verdict { words: "ready"@, color: green() }
    };
    pool_head("└─ Anthropic/GPT Pool (Sonnet)"@, color, cols.provider as int) + row_tail(
        session,
        cycle,
        (session, cycle),
        cols,
        color,
        capped,
        now_ms,
        status_cell(row, Some(verdict), cols.status as nat, false),
    )
}

fn show_claude(row: &ProviderSnapshot, cols: MatrixColumns, now_ms: i64) -> (out: Line)
    ensures
        out@ == claude_line(row@, cols, now_ms),
{
    let color = Color::Rgb(217, 119, 87);
    let session = Sought::ClaudeSession.find(&row.windows);
    let cycle = Sought::ClaudeCycle.find(&row.windows);
    let capped = is_at_percent(session, ZERO);
    let mut line = show_pool_head("└─ Anthropic/GPT Pool (Sonnet)", color, cols.provider);
    let verdict = if is_at_percent(session, HUNDRED) {
        ("READY (FULL)", green())
    } else if capped {
        ("5h capped", yellow())
    } else {
        ("ready", green())
    };
    line.extend(
        show_row_tail(
            row,
            session,
            cycle,
            (session, cycle),
            cols,
            color,
            capped,
            now_ms,
            Some(verdict),
            false,
        ),
    );
    line
}

/// The row of Cursor: its own models and the others in place of session and
/// cycle.
pub open spec fn cursor_row(
    row: ProviderView,
    cols: MatrixColumns,
    selected: bool,
    now_ms: i64,
) -> Seq<SpanView> {
    let color = brand("cursor"@);
    let own = Sought::CursorModels.among(row.windows);
    let other = Sought::OtherModels.among(row.windows);
    let reset = if own is Some {
        own
    } else {
        other
    };
    row_head(row, color, strong(color), selected, cols.provider as int) + row_tail(
        own,
        other,
        (None, reset),
        cols,
        color,
        dims(row),
        now_ms,
        status_cell(row, None, cols.status as nat, false),
    )
}

fn show_cursor_row(row: &ProviderSnapshot, cols: MatrixColumns, selected: bool, now_ms: i64) -> (out:
    Line)
    ensures
        out@ == cursor_row(row@, cols, selected, now_ms),
{
    let color = provider_brand_color("cursor");
    let own = Sought::CursorModels.find(&row.windows);
    let other = Sought::OtherModels.find(&row.windows);
    let reset = if own.is_some() {
        own
    } else {
        other
    };
    let mut line = show_row_head(row, color, strong(color), selected, cols.provider);
    let dim = row_dimmed(row);
    line.extend(
        show_row_tail(row, own, other, (None, reset), cols, color, dim, now_ms, None, false),
    );
    line
}

/// What a subscription's quotas say of its state.
pub open spec fn cap_verdict(
    row: ProviderView,
    session: Option<WindowView>,
    cycle: Option<WindowView>,
) -> Option<Verdict> {
    if at_percent(session, ZERO) && row.availability is Available {
        Some(Verdict { words: "5h capped"@, color: yellow() })
    } else if at_percent(cycle, ZERO) && row.availability is Available {
        Some(Verdict { words: "weekly cap"@, color: red() })
    } else {
        None
    }
}

fn cap_verdict_of(
    row: &ProviderSnapshot,
    session: Option<&LimitWindow>,
    cycle: Option<&LimitWindow>,
) -> (out: Option<(&'static str, Color)>)
    ensures
        maybe_verdict(out) == cap_verdict(row@, maybe_window(session), maybe_window(cycle)),
{
    let open = row.availability == Availability::Available;
    if is_at_percent(session, ZERO) && open {
        Some(("5h capped", yellow()))
    } else if is_at_percent(cycle, ZERO) && open {
        Some(("weekly cap", red()))
    } else {
        None
    }
}

/// The row of any other subscription.
pub open spec fn standard_row(
    row: ProviderView,
    cols: MatrixColumns,
    selected: bool,
    burn: Option<BurnView>,
    now_ms: i64,
) -> Seq<SpanView> {
    let color = brand(row.provider_id);
    let session = Sought::Session.among(row.windows);
    let cycle = Sought::Cycle.among(row.windows);
    let dim = dims(row);
    let title = if dim {
        faint(color)
    } else {
        strong(color)
    };
    let burns = burn is Some && burn->0.provider_title == title_base(row);
    row_head(row, color, title, selected, cols.provider as int) + row_tail(
        session,
        cycle,
        (session, cycle),
        cols,
        color,
        dim,
        now_ms,
        status_cell(row, cap_verdict(row, session, cycle), cols.status as nat, burns),
    )
}

fn show_standard(
    row: &ProviderSnapshot,
    cols: MatrixColumns,
    selected: bool,
    burn: &Option<BurnRecommendation>,
    now_ms: i64,
) -> (out: Line)
    ensures
        out@ == standard_row(row@, cols, selected, maybe_burn(*burn), now_ms),
{
    let color = provider_brand_color(row.provider_id.as_str());
    let session = Sought::Session.find(&row.windows);
    let cycle = Sought::Cycle.find(&row.windows);
    let dim = row_dimmed(row);
    let title = if dim {
        faint(color)
    } else {
        strong(color)
    };
    let burns = match burn {
        Some(burn) => same(burn.provider_title.as_str(), provider_title_base(row).as_str()),
        None => false,
    };
    let mut line = show_row_head(row, color, title, selected, cols.provider);
    let verdict = cap_verdict_of(row, session, cycle);
    line.extend(
        show_row_tail(
            row,
            session,
            cycle,
            (session, cycle),
            cols,
            color,
            dim,
            now_ms,
            verdict,
            burns,
        ),
    );
    line
}

/// The lines of a subscription.
#[verifier::opaque]
pub open spec fn subscription_rows(
    row: ProviderView,
    cols: MatrixColumns,
    selected: bool,
    burn: Option<BurnView>,
    now_ms: i64,
) -> Seq<Seq<SpanView>> {
    let id = lower(row.provider_id);
    if id == "antigravity"@ {
        seq![
            pools_line(row, cols, selected, now_ms),
            gemini_line(row, cols, now_ms),
            claude_line(row, cols, now_ms),
        ]
    } else if id == "cursor"@ {
        seq![cursor_row(row, cols, selected, now_ms)]
    } else {
        seq![standard_row(row, cols, selected, burn, now_ms)]
    }
}

fn show_subscription(
    row: &ProviderSnapshot,
    cols: MatrixColumns,
    selected: bool,
    burn: &Option<BurnRecommendation>,
    now_ms: i64,
) -> (out: Page)
    ensures
        out@ == subscription_rows(row@, cols, selected, maybe_burn(*burn), now_ms),
{
    proof {
        reveal(subscription_rows);
    }
    let id = to_lower(row.provider_id.as_str());
    let mut page = Page::new();
    if same(id.as_str(), "antigravity") {
        page.line(show_pools(row, cols, selected, now_ms));
        page.line(show_gemini(row, cols, now_ms));
        page.line(show_claude(row, cols, now_ms));
    } else if same(id.as_str(), "cursor") {
        page.line(show_cursor_row(row, cols, selected, now_ms));
    } else {
        page.line(show_standard(row, cols, selected, burn, now_ms));
    }
    page
}

/// The lines of the first `n` subscriptions.
pub open spec fn subscriptions_over(
    rows: Seq<ProviderView>,
    cols: MatrixColumns,
    selected: int,
    burn: Option<BurnView>,
    now_ms: i64,
    n: int,
) -> Seq<Seq<SpanView>>
    decreases n,
{
    if n <= 0 {
        Seq::empty()
    } else {
        subscriptions_over(rows, cols, selected, burn, now_ms, n - 1) + subscription_rows(
            rows[n - 1],
            cols,
            selected == n - 1,
            burn,
            now_ms,
        )
    }
}

/// The section of the subscriptions.
pub open spec fn subscription_section(
    rows: Seq<ProviderView>,
    selected: int,
    width: int,
    now_ms: i64,
) -> Seq<Seq<SpanView>> {
    let cols = matrix(width);
    let burn = burn_first(rows, now_ms);
    if rows.len() == 0 {
        Seq::empty()
    } else {
        seq![burn_line(burn, width), subscription_columns(cols), rule(width as nat, dim_grey())]
            + subscriptions_over(rows, cols, selected, burn, now_ms, rows.len() as int)
    }
}

fn show_subscription_head(burn: &Option<BurnRecommendation>, cols: MatrixColumns, width: u16) -> (out: Page)
    ensures
        out@ == seq![
            burn_line(maybe_burn(*burn), width as int),
            subscription_columns(cols),
            rule(width as nat, dim_grey()),
        ],
{
    let mut page = Page::new();
    page.line(show_burn(burn, width));
    page.line(show_subscription_columns(cols));
    page.line(rule_line(width as usize, dim_grey()));
    page
}

fn show_subscriptions(
    rows: &Vec<&ProviderSnapshot>,
    selected: usize,
    width: u16,
    now_ms: i64,
) -> (out: Page)
    ensures
        out@ == subscription_section(row_views(rows@), selected as int, width as int, now_ms),
{
    let ghost views = row_views(rows@);
    if rows.len() == 0 {
        return Page::new();
    }
    let cols = calculate_matrix_columns(width);
    let burn = find_burn_first_recommendation(rows, now_ms);
    let ghost burn_g = maybe_burn(burn);
    let mut page = show_subscription_head(&burn, cols, width);
    let mut body = Page::new();
    let mut i: usize = 0;
    while i < rows.len()
        invariant
            i <= rows@.len(),
            views == row_views(rows@),
            burn_g == maybe_burn(burn),
            body@ == subscriptions_over(views, cols, selected as int, burn_g, now_ms, i as int),
        decreases rows@.len() - i,
    {
        let row = rows[i];
        assert(views[i as int] == row@);
        body.extend(show_subscription(row, cols, selected == i, &burn, now_ms));
        i = i + 1;
    }
    page.extend(body);
    page
}

/// The widths of the wallet columns: account, balance, kind and reset.
pub open spec fn wallet_widths(width: int) -> (int, int, int, int) {
    if width >= 150 {
        (38, 22, 32, 18)
    } else if width >= 120 {
        (32, 18, 26, 15)
    } else if width >= 95 {
        (26, 16, 22, 13)
    } else {
        (20, 14, 18, 11)
    }
}

/// The widths of the wallet columns, and what is left for the state.
#[derive(Clone, Copy, Debug, PartialEq, Eq, Structural)]
pub struct WalletColumns {
    pub provider: usize,
    pub balance: usize,
    pub kind: usize,
    pub reset: usize,
    pub status: usize,
}

pub open spec fn wallet_columns(width: int) -> WalletColumns {
    let (a, b, c, d) = wallet_widths(width);
    WalletColumns {
        provider: a as usize,
        balance: b as usize,
        kind: c as usize,
        reset: d as usize,
        status: rest_or(width, a + b + c + d + 8, 10) as usize,
    }
}

fn size_wallets(width: u16) -> (out: WalletColumns)
    ensures
        out == wallet_columns(width as int),
        out.provider >= 20,
{
    let (a, b, c, d): (usize, usize, usize, usize) = if width >= 150 {
        (38, 22, 32, 18)
    } else if width >= 120 {
        (32, 18, 26, 15)
    } else if width >= 95 {
        (26, 16, 22, 13)
    } else {
        (20, 14, 18, 11)
    };
    let used: usize = a + b + c + d + 8;
    let rest: usize = less(width as usize, used);
    let status: usize = if rest < 10 {
        10
    } else {
        rest
    };
    WalletColumns { provider: a, balance: b, kind: c, reset: d, status }
}

/// The headings of the wallets.
pub open spec fn wallet_headings(cols: WalletColumns) -> Seq<SpanView> {
    seq![
        cell(fitted("PROVIDER / ACCOUNT"@, cols.provider as nat), strong(grey())),
        gap(),
        cell(fitted("BALANCE"@, cols.balance as nat), strong(grey())),
        gap(),
        cell(fitted("GRANT TYPE"@, cols.kind as nat), strong(grey())),
        gap(),
        cell(fitted("NEXT RESET"@, cols.reset as nat), strong(grey())),
        gap(),
        cell(fitted("STATUS"@, cols.status as nat), strong(grey())),
    ]
}

fn show_wallet_headings(cols: WalletColumns) -> (out: Line)
    ensures
        out@ == wallet_headings(cols),
{
    let mut line = Line::new();
    line.column("PROVIDER / ACCOUNT", cols.provider, strong(grey()));
    line.gap();
    line.column("BALANCE", cols.balance, strong(grey()));
    line.gap();
    line.column("GRANT TYPE", cols.kind, strong(grey()));
    line.gap();
    line.column("NEXT RESET", cols.reset, strong(grey()));
    line.gap();
    line.column("STATUS", cols.status, strong(grey()));
    line
}

/// The name of a wallet: a Modal workspace by its label, another by its title,
/// with the account where it may be shown.
pub open spec fn wallet_name(row: ProviderView, show_account: bool) -> Seq<char> {
    let label = row.account_label;
    if lower(row.provider_id) == "modal"@ {
        if label.len() == 0 {
            "Modal · "@ + "Default"@
        } else if starts_with(label, "Modal · "@) {
            "Modal · "@ + label.skip("Modal · "@.len() as int)
        } else {
            "Modal · "@ + label
        }
    } else if show_account && label.len() > 0 {
        title_base(row) + " · "@ + label
    } else {
        title_base(row)
    }
}

fn wallet_name_text(row: &ProviderSnapshot, show_account: bool) -> (out: String)
    ensures
        out@ == wallet_name(row@, show_account),
{
    let label = row.account_label.as_str();
    if same(to_lower(row.provider_id.as_str()).as_str(), "modal") {
        if char_count(label) == 0 {
            two("Modal · ", "Default")
        } else if has_prefix(label, "Modal · ") {
            let chars = crate::text::chars_of(label);
            let total: usize = chars.len();
            let skipped: usize = char_count("Modal · ");
            let rest = crate::text::slice_text(chars.as_slice(), skipped, total);
            assert(rest@ =~= label@.skip("Modal · "@.len() as int));
            two("Modal · ", rest.as_str())
        } else {
            two("Modal · ", label)
        }
    } else if show_account && char_count(label) > 0 {
        three(provider_title_base(row).as_str(), " · ", label)
    } else {
        provider_title_base(row)
    }
}

/// The sign of a currency where it has one.
pub open spec fn currency_sign(currency: Option<Seq<char>>) -> Seq<char> {
    match currency {
        Some(currency) => {
            let c = upper(currency);
            if c == "USD"@ || c == "$"@ {
                "$"@
            } else if c == "CNY"@ || c == "RMB"@ || c == "¥"@ {
                "¥"@
            } else {
                currency
            }
        },
        None => "$"@,
    }
}

fn sign_of_currency(currency: &Option<String>) -> (out: String)
    ensures
        out@ == currency_sign(crate::text::maybe_text(*currency)),
{
    match currency {
        Some(currency) => {
            let c = to_upper(currency.as_str());
            if same(c.as_str(), "USD") || same(c.as_str(), "$") {
                "$".to_owned()
            } else if same(c.as_str(), "CNY") || same(c.as_str(), "RMB") || same(c.as_str(), "¥") {
                "¥".to_owned()
            } else {
                currency.clone()
            }
        },
        None => "$".to_owned(),
    }
}

/// What is left in a wallet.
pub open spec fn balance(row: ProviderView) -> Seq<char> {
    match Sought::Amount.among(row.windows) {
        Some(window) => {
            let amount = match window.remaining_amount {
                Some(amount) => amount,
                None => Quantity { bits: ZERO },
            };
            let shown = currency_sign(window.currency) + fixed(amount, 2);
            match window.remaining_percent {
                Some(percent) => shown + " ("@ + fixed(percent, 0) + "%)"@,
                None => shown,
            }
        },
        None => match Sought::Percent.among(row.windows) {
            Some(window) => match window.remaining_percent {
                Some(percent) => fixed(percent, 1) + "%"@,
                None => "—"@,
            },
            None => "—"@,
        },
    }
}

fn balance_text(row: &ProviderSnapshot) -> (out: String)
    ensures
        out@ == balance(row@),
{
    match Sought::Amount.find(&row.windows) {
        Some(window) => {
            let amount = match window.remaining_amount {
                Some(amount) => amount,
                None => Quantity { bits: ZERO },
            };
            let shown = two(
                sign_of_currency(&window.currency).as_str(),
                fixed_text(amount, 2).as_str(),
            );
            match window.remaining_percent {
                Some(percent) => crate::text::four(
                    shown.as_str(),
                    " (",
                    fixed_text(percent, 0).as_str(),
                    "%)",
                ),
                None => shown,
            }
        },
        None => match Sought::Percent.find(&row.windows) {
            Some(window) => match window.remaining_percent {
                Some(percent) => two(fixed_text(percent, 1).as_str(), "%"),
                None => "—".to_owned(),
            },
            None => "—".to_owned(),
        },
    }
}

/// When a wallet is filled up next.
pub open spec fn wallet_reset(row: ProviderView, now_ms: i64) -> Seq<char> {
    match Sought::Reset.among(row.windows) {
        Some(window) => {
            let shown = reset_shown(window, now_ms);
            if shown.len() == 0 || shown == "—"@ {
                "—"@
            } else {
                "↻ "@ + shown
            }
        },
        None => "—"@,
    }
}

fn wallet_reset_text(row: &ProviderSnapshot, now_ms: i64) -> (out: String)
    ensures
        out@ == wallet_reset(row@, now_ms),
{
    match Sought::Reset.find(&row.windows) {
        Some(window) => {
            let shown = reset_text(window, now_ms);
            if char_count(shown.as_str()) == 0 || same(shown.as_str(), "—") {
                "—".to_owned()
            } else {
                two("↻ ", shown.as_str())
            }
        },
        None => "—".to_owned(),
    }
}

/// What kind of money a wallet holds.
pub open spec fn grant_kind(id: Seq<char>) -> Seq<char> {
    if id == "modal"@ {
        "$30.00 Monthly Allowance"@
    } else if id == "vast"@ || id == "vastai"@ {
        "Prepaid Instance Credit"@
    } else {
        "Prepaid API Balance"@
    }
}

fn grant_kind_text(id: &str) -> (out: &'static str)
    ensures
        out@ == grant_kind(id@),
{
    if same(id, "modal") {
        "$30.00 Monthly Allowance"
    } else if same(id, "vast") || same(id, "vastai") {
        "Prepaid Instance Credit"
    } else {
        "Prepaid API Balance"
    }
}

/// The row of a wallet.
pub open spec fn wallet_row(
    row: ProviderView,
    cols: WalletColumns,
    selected: bool,
    show_account: bool,
    now_ms: i64,
) -> Seq<SpanView> {
    let id = lower(row.provider_id);
    let color = brand(row.provider_id);
    seq![
        cursor(selected),
        cell("● "@, paint(color)),
        cell(
            fitted(wallet_name(row, show_account), rest_or(cols.provider as int, 4, 0) as nat),
            lit(strong(color), selected),
        ),
        gap(),
        cell(fitted(balance(row), cols.balance as nat), strong(color)),
        gap(),
        cell(fitted(grant_kind(id), cols.kind as nat), paint(grey())),
        gap(),
        cell(fitted(wallet_reset(row, now_ms), cols.reset as nat), paint(grey())),
        gap(),
        if id == "modal"@ {
            cell(fitted("active"@, cols.status as nat), strong(green()))
        } else {
            cell(fitted("PAYG"@, cols.status as nat), strong(blue()))
        },
    ]
}

fn show_wallet(
    row: &ProviderSnapshot,
    cols: WalletColumns,
    selected: bool,
    show_account: bool,
    now_ms: i64,
) -> (out: Line)
    ensures
        out@ == wallet_row(row@, cols, selected, show_account, now_ms),
{
    let id = to_lower(row.provider_id.as_str());
    let color = provider_brand_color(row.provider_id.as_str());
    let mut line = Line::new();
    put_cursor(&mut line, selected);
    line.cell("● ", paint(color));
    line.column(
        wallet_name_text(row, show_account).as_str(),
        less(cols.provider, 4),
        lit(strong(color), selected),
    );
    line.gap();
    line.column(balance_text(row).as_str(), cols.balance, strong(color));
    line.gap();
    line.column(grant_kind_text(id.as_str()), cols.kind, paint(grey()));
    line.gap();
    line.column(wallet_reset_text(row, now_ms).as_str(), cols.reset, paint(grey()));
    line.gap();
    if same(id.as_str(), "modal") {
        line.column("active", cols.status, strong(green()));
    } else {
        line.column("PAYG", cols.status, strong(blue()));
    }
    line
}

/// The lines of the first `n` wallets, which are listed behind `before` rows.
pub open spec fn wallets_over(
    rows: Seq<ProviderView>,
    cols: WalletColumns,
    selected: int,
    before: int,
    show_account: bool,
    now_ms: i64,
    n: int,
) -> Seq<Seq<SpanView>>
    decreases n,
{
    if n <= 0 {
        Seq::empty()
    } else {
        wallets_over(rows, cols, selected, before, show_account, now_ms, n - 1).push(
            wallet_row(rows[n - 1], cols, selected == before + n - 1, show_account, now_ms),
        )
    }
}

/// The heading of the wallets.
pub open spec fn wallet_head(width: int) -> Seq<Seq<SpanView>> {
    seq![
        blank(),
        ruled("── CREDIT GRANTS & PREPAID WALLETS "@, strong(grey()), width as nat),
        wallet_headings(wallet_columns(width)),
        rule(width as nat, dim_grey()),
    ]
}

fn show_wallet_head(width: u16, cols: WalletColumns) -> (out: Page)
    requires
        cols == wallet_columns(width as int),
    ensures
        out@ == wallet_head(width as int),
{
    let mut page = Page::new();
    page.blank();
    page.line(
        rule_behind("── CREDIT GRANTS & PREPAID WALLETS ", strong(grey()), width as usize),
    );
    page.line(show_wallet_headings(cols));
    page.line(rule_line(width as usize, dim_grey()));
    page
}

/// The section of the wallets.
pub open spec fn wallet_section(
    rows: Seq<ProviderView>,
    before: int,
    selected: int,
    show_account: bool,
    width: int,
    now_ms: i64,
) -> Seq<Seq<SpanView>> {
    if rows.len() == 0 {
        Seq::empty()
    } else {
        wallet_head(width) + wallets_over(
            rows,
            wallet_columns(width),
            selected,
            before,
            show_account,
            now_ms,
            rows.len() as int,
        )
    }
}

fn show_wallets(
    rows: &Vec<&ProviderSnapshot>,
    before: usize,
    selected: usize,
    show_account: bool,
    width: u16,
    now_ms: i64,
) -> (out: Page)
    ensures
        out@ == wallet_section(
            row_views(rows@),
            before as int,
            selected as int,
            show_account,
            width as int,
            now_ms,
        ),
{
    let ghost views = row_views(rows@);
    if rows.len() == 0 {
        return Page::new();
    }
    let cols = size_wallets(width);
    let mut page = show_wallet_head(width, cols);
    let mut body = Page::new();
    let mut i: usize = 0;
    while i < rows.len()
        invariant
            i <= rows@.len(),
            views == row_views(rows@),
            body@ == wallets_over(
                views,
                cols,
                selected as int,
                before as int,
                show_account,
                now_ms,
                i as int,
            ),
        decreases rows@.len() - i,
    {
        let row = rows[i];
        assert(views[i as int] == row@);
        let at = selected >= before && selected - before == i;
        body.line(show_wallet(row, cols, at, show_account, now_ms));
        i = i + 1;
    }
    page.extend(body);
    page
}

/// The heading of the velocity section.
pub open spec fn velocity_banner(width: int) -> Seq<char> {
    if width >= 120 {
        "── TOKEN CONSUMPTION & VELOCITY ── [Press '2' for Full Ledger] "@
    } else {
        "── TOKEN VELOCITY ['2' for Ledger] "@
    }
}

/// The widths of the velocity columns: the window, and each of the others.
pub open spec fn velocity_widths(width: int) -> (nat, nat) {
    (
        if width >= 140 {
            14
        } else {
            10
        },
        if width >= 140 {
            18
        } else if width >= 115 {
            14
        } else {
            10
        },
    )
}

/// The headings of the velocity section.
pub open spec fn velocity_headings(widths: (nat, nat)) -> Seq<SpanView> {
    seq![
        cell(fitted("WINDOW"@, widths.0), strong(grey())),
        gap(),
        cell(fitted("TOTAL TOKENS"@, widths.1), strong(cyan())),
        gap(),
        cell(fitted("INPUT"@, widths.1), strong(grey())),
        gap(),
        cell(fitted("OUTPUT"@, widths.1), strong(grey())),
        gap(),
        cell(fitted("CACHE"@, widths.1), strong(grey())),
        gap(),
        cell(fitted("API-EQ"@, 10), strong(yellow())),
        gap(),
        cell(fitted("TOK/$ EFF"@, 10), strong(sky())),
    ]
}

fn show_velocity_headings(first: usize, other: usize) -> (out: Line)
    ensures
        out@ == velocity_headings((first as nat, other as nat)),
{
    let mut line = Line::new();
    line.column("WINDOW", first, strong(grey()));
    line.gap();
    line.column("TOTAL TOKENS", other, strong(cyan()));
    line.gap();
    line.column("INPUT", other, strong(grey()));
    line.gap();
    line.column("OUTPUT", other, strong(grey()));
    line.gap();
    line.column("CACHE", other, strong(grey()));
    line.gap();
    line.column("API-EQ", 10, strong(yellow()));
    line.gap();
    line.column("TOK/$ EFF", 10, strong(sky()));
    line
}

/// The line of a window in the velocity section.
pub open spec fn velocity_line(bucket: TemporalUsageBucket, widths: (nat, nat)) -> Seq<SpanView> {
    seq![
        cell(fitted(bucket.window.name(), widths.0), strong(Color::Cyan)),
        gap(),
        cell(fitted(token_count(bucket.tokens), widths.1), strong(Color::White)),
        gap(),
        cell(fitted(token_count(bucket.input), widths.1), paint(grey())),
        gap(),
        cell(fitted(token_count(bucket.output), widths.1), paint(grey())),
        gap(),
        cell(fitted(token_count(bucket.cache), widths.1), paint(Color::Rgb(100, 210, 106))),
        gap(),
        cell(fitted(cost(bucket.api_usd), 10), strong(yellow())),
        gap(),
        cell(fitted(efficiency(bucket.tokens, bucket.api_usd), 10), paint(sky())),
    ]
}

fn show_velocity(bucket: TemporalUsageBucket, first: usize, other: usize) -> (out: Line)
    ensures
        out@ == velocity_line(bucket, (first as nat, other as nat)),
{
    let mut line = Line::new();
    line.column(bucket.window.label(), first, strong(Color::Cyan));
    line.gap();
    line.column(format_tokens(bucket.tokens).as_str(), other, strong(Color::White));
    line.gap();
    line.column(format_tokens(bucket.input).as_str(), other, paint(grey()));
    line.gap();
    line.column(format_tokens(bucket.output).as_str(), other, paint(grey()));
    line.gap();
    line.column(format_tokens(bucket.cache).as_str(), other, paint(Color::Rgb(100, 210, 106)));
    line.gap();
    line.column(cost_text(bucket.api_usd).as_str(), 10, strong(yellow()));
    line.gap();
    line.column(efficiency_text(bucket.tokens, bucket.api_usd).as_str(), 10, paint(sky()));
    line
}

/// The heading of the velocity section.
pub open spec fn velocity_head(width: int) -> Seq<Seq<SpanView>> {
    seq![
        blank(),
        ruled(velocity_banner(width), strong(Color::Rgb(100, 180, 255)), width as nat),
        velocity_headings(velocity_widths(width)),
        rule(width as nat, dim_grey()),
    ]
}

fn show_velocity_head(width: u16, first: usize, other: usize) -> (out: Page)
    requires
        (first as nat, other as nat) == velocity_widths(width as int),
    ensures
        out@ == velocity_head(width as int),
{
    let mut page = Page::new();
    page.blank();
    let banner = if width >= 120 {
        "── TOKEN CONSUMPTION & VELOCITY ── [Press '2' for Full Ledger] "
    } else {
        "── TOKEN VELOCITY ['2' for Ledger] "
    };
    page.line(rule_behind(banner, strong(Color::Rgb(100, 180, 255)), width as usize));
    page.line(show_velocity_headings(first, other));
    page.line(rule_line(width as usize, dim_grey()));
    page
}

/// The first `n` windows, from the first on.
pub open spec fn velocities(buckets: Seq<TemporalUsageBucket>, widths: (nat, nat), n: nat) -> Seq<
    Seq<SpanView>,
> {
    Seq::new(n, |i: int| velocity_line(buckets[i], widths))
}

/// The section on how fast tokens are used.
pub open spec fn velocity_section(
    buckets: Seq<TemporalUsageBucket>,
    width: int,
    height: int,
) -> Seq<Seq<SpanView>> {
    let most: nat = if height >= 36 {
        3
    } else {
        2
    };
    velocity_head(width) + velocities(
        buckets,
        velocity_widths(width),
        if buckets.len() < most {
            buckets.len()
        } else {
            most
        },
    )
}

fn show_velocities(buckets: &Vec<TemporalUsageBucket>, width: u16, height: u16) -> (out: Page)
    ensures
        out@ == velocity_section(buckets@, width as int, height as int),
{
    let first: usize = if width >= 140 {
        14
    } else {
        10
    };
    let other: usize = if width >= 140 {
        18
    } else if width >= 115 {
        14
    } else {
        10
    };
    let most: usize = if height >= 36 {
        3
    } else {
        2
    };
    let shown: usize = if buckets.len() < most {
        buckets.len()
    } else {
        most
    };
    let mut page = show_velocity_head(width, first, other);
    let mut body = Page::new();
    let mut i: usize = 0;
    while i < shown
        invariant
            i <= shown <= buckets@.len(),
            body@ == velocities(buckets@, (first as nat, other as nat), i as nat),
        decreases shown - i,
    {
        body.line(show_velocity(buckets[i], first, other));
        i = i + 1;
    }
    page.extend(body);
    page
}

/// The buckets that the screens show: those kept with the ledger, or new ones.
pub open spec fn shown_buckets(
    app: AppView,
    report: ConsumptionReport,
    context: Context,
) -> Seq<TemporalUsageBucket> {
    match app.cached_ledger {
        Some(ledger) => ledger.buckets@,
        None => buckets(report, context.pricing, context.clock),
    }
}

pub(crate) fn buckets_of(app: &App, report: &ConsumptionReport, context: &Context) -> (out: Vec<
    TemporalUsageBucket,
>)
    ensures
        out@ == shown_buckets(app@, *report, *context),
{
    match &app.cached_ledger {
        Some(ledger) => {
            let mut out: Vec<TemporalUsageBucket> = Vec::new();
            let mut i: usize = 0;
            while i < ledger.buckets.len()
                invariant
                    i <= ledger.buckets@.len(),
                    out@ == ledger.buckets@.take(i as int),
                decreases ledger.buckets@.len() - i,
            {
                out.push(ledger.buckets[i]);
                assert(ledger.buckets@.take(i + 1) =~= ledger.buckets@.take(i as int).push(
                    ledger.buckets@[i as int],
                ));
                i = i + 1;
            }
            assert(ledger.buckets@.take(i as int) =~= ledger.buckets@);
            out
        },
        None => compute_temporal_usage(report, &context.pricing, &context.clock),
    }
}

/// The velocity section where there is room and something to show.
pub open spec fn velocity_part(
    app: AppView,
    rows: nat,
    width: int,
    height: int,
    context: Context,
) -> Seq<Seq<SpanView>> {
    match app.consumption {
        Some(report) => if height >= 28 && rows <= 18 {
            velocity_section(shown_buckets(app, report, context), width, height)
        } else {
            Seq::empty()
        },
        None => Seq::empty(),
    }
}

fn show_velocity_part(app: &App, rows: usize, width: u16, height: u16, context: &Context) -> (out: Page)
    ensures
        out@ == velocity_part(app@, rows as nat, width as int, height as int, *context),
{
    match &app.consumption {
        Some(report) => if height >= 28 && rows <= 18 {
            show_velocities(&buckets_of(app, report, context), width, height)
        } else {
            Page::new()
        },
        None => Page::new(),
    }
}

/// The limits screen: the subscriptions, the wallets, and the velocity.
pub open spec fn limits_page(app: AppView, width: int, height: int, context: Context) -> Seq<
    Seq<SpanView>,
> {
    let visible = app.visible();
    let subscriptions = rows_of_kind(visible, false);
    let wallets = rows_of_kind(visible, true);
    let selected = app.ui.limits_selected as int;
    let now_ms = context.clock.now_ms;
    if visible.len() == 0 {
        seq![single("No providers match this filter."@, paint(grey()))]
    } else {
        subscription_section(subscriptions, selected, width, now_ms) + wallet_section(
            wallets,
            subscriptions.len() as int,
            selected,
            app.ui.show_account,
            width,
            now_ms,
        ) + velocity_part(app, subscriptions.len() + wallets.len(), width, height, context)
    }
}

pub fn limits_matrix_lines(app: &App, width: u16, height: u16, context: &Context) -> (out: Page)
    ensures
        out@ == limits_page(app@, width as int, height as int, *context),
{
    let visible = app.visible_providers();
    if visible.len() == 0 {
        let mut page = Page::new();
        page.single("No providers match this filter.", paint(grey()));
        return page;
    }
    let subscriptions = pick_rows(&visible, false);
    let wallets = pick_rows(&visible, true);
    proof {
        lemma_kinds_share_rows(row_views(visible@));
    }
    let now_ms: i64 = context.clock.now_ms;
    let selected: usize = app.ui.limits_selected;
    let mut page = show_subscriptions(&subscriptions, selected, width, now_ms);
    page.extend(
        show_wallets(
            &wallets,
            subscriptions.len(),
            selected,
            app.ui.show_account,
            width,
            now_ms,
        ),
    );
    let rows: usize = subscriptions.len() + wallets.len();
    page.extend(show_velocity_part(app, rows, width, height, context));
    page
}

/// Every row is a subscription or a wallet, and none is both.
pub proof fn lemma_kinds_share_rows(rows: Seq<ProviderView>)
    ensures
        rows_of_kind(rows, false).len() + rows_of_kind(rows, true).len() == rows.len(),
    decreases rows.len(),
{
    if rows.len() > 0 {
        lemma_kinds_share_rows(rows.drop_last());
    }
}

/// Where the filter lets no row through, the screen says so and nothing else.
pub proof fn law_empty_filter_says_so(app: AppView, width: int, height: int, context: Context)
    requires
        app.visible().len() == 0,
    ensures
        limits_page(app, width, height, context) == seq![
            single("No providers match this filter."@, paint(grey())),
        ],
{
}

/// The row of a wallet is marked exactly where the selection lies on it.
pub proof fn law_selected_wallet_is_marked(
    rows: Seq<ProviderView>,
    width: int,
    before: int,
    selected: int,
    show_account: bool,
    now_ms: i64,
    n: int,
    i: int,
)
    requires
        0 <= i < n <= rows.len(),
    ensures
        wallets_over(rows, wallet_columns(width), selected, before, show_account, now_ms, n).len()
            == n,
        wallets_over(rows, wallet_columns(width), selected, before, show_account, now_ms, n)[i][0]
            == cursor(selected == before + i),
    decreases n,
{
    let cols = wallet_columns(width);
    if n > 1 {
        if i < n - 1 {
            law_selected_wallet_is_marked(
                rows,
                width,
                before,
                selected,
                show_account,
                now_ms,
                n - 1,
                i,
            );
        } else {
            law_selected_wallet_is_marked(
                rows,
                width,
                before,
                selected,
                show_account,
                now_ms,
                n - 1,
                0,
            );
        }
    } else {
        assert(wallets_over(rows, cols, selected, before, show_account, now_ms, 0).len() == 0);
    }
}

/// A session that is capped says so while its row is available, and before a
/// week that is; a row with something left of both has no verdict.
pub proof fn law_capped_session_is_told_first(
    row: ProviderView,
    session: WindowView,
    cycle: WindowView,
)
    requires
        session.remaining_percent is Some,
        cycle.remaining_percent is Some,
        !session.remaining_percent->0.nan(),
        !cycle.remaining_percent->0.nan(),
    ensures
        ({
            let verdict = cap_verdict(row, Some(session), Some(cycle));
            let session_left = session.remaining_percent->0.rank();
            let cycle_left = cycle.remaining_percent->0.rank();
            &&& !(row.availability is Available) ==> verdict is None
            &&& row.availability is Available && session_left == 0 ==> verdict is Some
                && verdict->0.words == "5h capped"@
            &&& row.availability is Available && session_left != 0 && cycle_left == 0
                ==> verdict is Some && verdict->0.words == "weekly cap"@
            &&& session_left != 0 && cycle_left != 0 ==> verdict is None
        }),
{
}

/// What is sought among windows is the first that fits.
pub proof fn law_first_fitting_window_is_found(sought: Sought, windows: Seq<WindowView>, i: int)
    requires
        0 <= i < windows.len(),
        sought.fits(windows[i]),
        forall|k: int| 0 <= k < i ==> !sought.fits(#[trigger] windows[k]),
    ensures
        sought.among(windows) == Some(windows[i]),
{
    let fits = |window: WindowView| sought.fits(window);
    lemma_is_first_where(windows, fits, Some(i));
}

/// A quota of a session is the session, a quota of a day, a week or a month the
/// cycle; what holds money is neither.
pub proof fn law_windows_fit_their_columns(window: WindowView)
    ensures
        window.metric is Quota && window.kind is Session ==> Sought::Session.fits(window),
        window.metric is Quota && (window.kind is Weekly || window.kind is Monthly
            || window.kind is Daily) ==> Sought::Cycle.fits(window),
        window.metric is Credits || window.metric is Spend ==> !Sought::Session.fits(window)
            && !Sought::Cycle.fits(window),
        Sought::Amount.fits(window) <==> window.remaining_amount is Some,
        Sought::Percent.fits(window) <==> window.remaining_percent is Some,
        Sought::Reset.fits(window) <==> window.resets_at_ms is Some,
{
}

} // verus!
