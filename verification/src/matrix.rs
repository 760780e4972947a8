//! The limits screen: subscriptions with their session and cycle quotas, and
//! wallets with their balances.

use vstd::prelude::*;

use crate::labels::{brand, byte_length, count_bytes, is_wallet_provider, provider_title_base};
use crate::labels::{reset_shown, reset_text, row_views, title_base, wallet};
use crate::limits::{Availability, LimitWindow, ProviderSnapshot, ProviderView, WindowKind};
use crate::limits::WindowView;
use crate::numerals::{fixed, fixed_text, meter, meter_view};
use crate::quantity::{Quantity, TEN, TWENTY, ZERO};
use crate::screen::{amber, cell, dim_grey, dimmed, faint, fitted, green, grey, paint, raw, red};
use crate::screen::{str_width, stressed, strong, text_columns, yellow, Color, Line, SpanView};
use crate::screen::Style;
use crate::text::{align_right, char_count, contains, has_text, lower, repeat_char, right_aligned};
use crate::text::{run_of, same, texts, three, to_lower, trim, trimmed, two, words, words_of};

verus! {

/// The widths of the columns of the limits screen.
#[derive(Clone, Copy, Debug, PartialEq, Eq, Structural)]
pub struct MatrixColumns {
    pub provider: usize,
    pub session: usize,
    pub cycle: usize,
    pub reset: usize,
    pub status: usize,
    pub bar_width: usize,
}

/// What is left of a width, but at least so much.
pub open spec fn rest_or(width: int, used: int, least: int) -> int {
    if width - used < least {
        least
    } else {
        width - used
    }
}

fn rest_or_least(width: usize, used: usize, least: usize) -> (out: usize)
    ensures
        out == rest_or(width as int, used as int, least as int),
{
    if width < used || width - used < least {
        least
    } else {
        width - used
    }
}

/// The widths for a screen: wider columns on a wider screen, the rest for the
/// state.
pub open spec fn matrix(width: int) -> MatrixColumns {
    if width >= 150 {
        MatrixColumns {
            provider: 38,
            session: 22,
            cycle: 22,
            reset: 26,
            status: rest_or(width, 116, 18) as usize,
            bar_width: 12,
        }
    } else if width >= 120 {
        MatrixColumns {
            provider: 32,
            session: 18,
            cycle: 18,
            reset: 24,
            status: rest_or(width, 100, 14) as usize,
            bar_width: 8,
        }
    } else if width >= 95 {
        MatrixColumns {
            provider: 26,
            session: 15,
            cycle: 15,
            reset: 20,
            status: rest_or(width, 84, 12) as usize,
            bar_width: 6,
        }
    } else if width >= 75 {
        MatrixColumns {
            provider: 20,
            session: 13,
            cycle: 13,
            reset: 15,
            status: rest_or(width, 69, 10) as usize,
            bar_width: 4,
        }
    } else {
        MatrixColumns {
            provider: 16,
            session: 12,
            cycle: 12,
            reset: 12,
            status: rest_or(width, 60, 6) as usize,
            bar_width: 4,
        }
    }
}

pub fn calculate_matrix_columns(width: u16) -> (out: MatrixColumns)
    ensures
        out == matrix(width as int),
{
    let w: usize = width as usize;
    if w >= 150 {
        MatrixColumns {
            provider: 38,
            session: 22,
            cycle: 22,
            reset: 26,
            status: rest_or_least(w, 116, 18),
            bar_width: 12,
        }
    } else if w >= 120 {
        MatrixColumns {
            provider: 32,
            session: 18,
            cycle: 18,
            reset: 24,
            status: rest_or_least(w, 100, 14),
            bar_width: 8,
        }
    } else if w >= 95 {
        MatrixColumns {
            provider: 26,
            session: 15,
            cycle: 15,
            reset: 20,
            status: rest_or_least(w, 84, 12),
            bar_width: 6,
        }
    } else if w >= 75 {
        MatrixColumns {
            provider: 20,
            session: 13,
            cycle: 13,
            reset: 15,
            status: rest_or_least(w, 69, 10),
            bar_width: 4,
        }
    } else {
        MatrixColumns {
            provider: 16,
            session: 12,
            cycle: 12,
            reset: 12,
            status: rest_or_least(w, 60, 6),
            bar_width: 4,
        }
    }
}

/// The columns fill the screen, and from 66 columns on they exceed it by no
/// more than four.
pub proof fn law_matrix_fills_the_screen(width: int)
    requires
        0 <= width <= 65535,
    ensures
        ({
            let m = matrix(width);
            let used = m.provider + m.session + m.cycle + m.reset + m.status + 8;
            width <= used && (width >= 66 ==> used <= width + 4)
        }),
{
}

/// A window that may be missing, as it is said.
pub open spec fn maybe_window(window: Option<&LimitWindow>) -> Option<WindowView> {
    match window {
        Some(window) => Some(window@),
        None => None,
    }
}

/// The share of a quota cell, with a decimal where there is room.
pub open spec fn cell_percent(value: Quantity, col_width: nat) -> Seq<char> {
    if col_width < 18 {
        fixed(value, 0) + "%"@
    } else {
        right_aligned(fixed(value, 1), 5) + "%"@
    }
}

/// The style of a share: red where nothing is left, yellow below a fifth.
pub open spec fn share_style(value: Quantity, brand: Color, dim: bool) -> Style {
    let none = value.at_most(Quantity { bits: ZERO });
    let color = if none {
        red()
    } else if value.below(Quantity { bits: TWENTY }) {
        yellow()
    } else {
        brand
    };
    stressed(dimmed(paint(color), dim || none), none)
}

fn style_of_share(value: Quantity, brand: Color, dim: bool) -> (out: Style)
    ensures
        out == share_style(value, brand, dim),
{
    let none = value.is_at_most(Quantity { bits: ZERO });
    let color = if none {
        red()
    } else if value.is_below(Quantity { bits: TWENTY }) {
        yellow()
    } else {
        brand
    };
    stressed(dimmed(paint(color), dim || none), none)
}

/// The meter and the share of a quota.
pub open spec fn share_cells(value: Quantity, bar_width: nat, col_width: nat, style: Style) -> Seq<
    SpanView,
> {
    seq![
        cell("["@ + meter_view(value, bar_width) + "]"@, style),
        raw(" "@),
        cell(cell_percent(value, col_width), style),
    ]
}

/// A quota in its column, filled up with spaces.
pub open spec fn padded_share(value: Quantity, bar_width: nat, col_width: nat, style: Style) -> Seq<
    SpanView,
> {
    let cells = share_cells(value, bar_width, col_width, style);
    let used = text_columns("["@ + meter_view(value, bar_width) + "]"@) + text_columns(" "@)
        + text_columns(cell_percent(value, col_width));
    if used < col_width {
        cells.push(raw(run_of(' ', (col_width - used) as nat)))
    } else {
        cells
    }
}

fn show_share(value: Quantity, bar_width: usize, col_width: usize, style: Style) -> (out: Line)
    ensures
        out@ == padded_share(value, bar_width as nat, col_width as nat, style),
{
    let bar = three("[", meter(value, bar_width).as_str(), "]");
    let share = if col_width < 18 {
        two(fixed_text(value, 0).as_str(), "%")
    } else {
        two(align_right(fixed_text(value, 1).as_str(), 5).as_str(), "%")
    };
    let used: u128 = str_width(bar.as_str()) as u128 + str_width(" ") as u128 + str_width(
        share.as_str(),
    ) as u128;
    let mut line = Line::new();
    line.put(bar, style);
    line.raw(" ");
    line.put(share, style);
    assert(line@ =~= share_cells(value, bar_width as nat, col_width as nat, style));
    if used < col_width as u128 {
        line.raw(repeat_char(' ', col_width - used as usize).as_str());
    }
    line
}

/// A dash in a column.
pub open spec fn dash_cell(col_width: nat) -> SpanView {
    cell(fitted("—"@, col_width), paint(dim_grey()))
}

/// A quota in its column: its meter and share, or its amount, or a dash.
pub open spec fn quota_cells(
    window: Option<WindowView>,
    bar_width: nat,
    col_width: nat,
    brand: Color,
    dim: bool,
) -> Seq<SpanView> {
    match window {
        Some(window) => match window.remaining_percent {
            Some(value) => padded_share(
                value,
                bar_width,
                col_width,
                share_style(value, brand, dim),
            ),
            None => match window.remaining_amount {
                Some(amount) => {
                    let currency = match window.currency {
                        Some(currency) => currency,
                        None => "$"@,
                    };
                    seq![cell(
                        fitted(currency + fixed(amount, 2), col_width),
                        dimmed(paint(brand), dim),
                    )]
                },
                None => seq![dash_cell(col_width)],
            },
        },
        None => seq![dash_cell(col_width)],
    }
}

pub fn format_quota_cell(
    window: Option<&LimitWindow>,
    bar_width: usize,
    col_width: usize,
    brand: Color,
    dim: bool,
) -> (out: Line)
    ensures
        out@ == quota_cells(maybe_window(window), bar_width as nat, col_width as nat, brand, dim),
{
    let mut line = Line::new();
    match window {
        Some(window) => match window.remaining_percent {
            Some(value) => {
                return show_share(
                    value,
                    bar_width,
                    col_width,
                    style_of_share(value, brand, dim),
                );
            },
            None => match window.remaining_amount {
                Some(amount) => {
                    let text = match &window.currency {
                        Some(currency) => two(currency.as_str(), fixed_text(amount, 2).as_str()),
                        None => two("$", fixed_text(amount, 2).as_str()),
                    };
                    line.column(text.as_str(), col_width, dimmed(paint(brand), dim));
                },
                None => {
                    line.column("—", col_width, paint(dim_grey()));
                },
            },
        },
        None => {
            line.column("—", col_width, paint(dim_grey()));
        },
    }
    line
}

/// What should be used first: the quota of a subscription that is lost soonest.
#[derive(Debug)]
pub struct BurnRecommendation {
    pub provider_title: String,
    pub remaining_pct: Quantity,
    pub resets_in: String,
    pub reset_ms: i64,
}

/// What a `BurnRecommendation` says.
pub struct BurnView {
    pub provider_title: Seq<char>,
    pub remaining_pct: Quantity,
    pub resets_in: Seq<char>,
    pub reset_ms: i64,
}

impl View for BurnRecommendation {
    type V = BurnView;

    open spec fn view(&self) -> BurnView {
        BurnView {
            provider_title: self.provider_title@,
            remaining_pct: self.remaining_pct,
            resets_in: self.resets_in@,
            reset_ms: self.reset_ms,
        }
    }
}

pub open spec fn maybe_burn(burn: Option<BurnRecommendation>) -> Option<BurnView> {
    match burn {
        Some(burn) => Some(burn@),
        None => None,
    }
}

/// A weekly or monthly quota of which more than a tenth is left, and which
/// resets within five days.
pub open spec fn worth_burning(window: WindowView, now_ms: i64) -> bool {
    &&& window.kind is Weekly || window.kind is Monthly || contains(lower(window.label), "7d"@)
    &&& !window.metric.credit()
    &&& window.remaining_percent is Some
    &&& window.resets_at_ms is Some
    &&& (Quantity { bits: TEN }).below(window.remaining_percent->0)
    &&& window.resets_at_ms->0 > now_ms
    &&& window.resets_at_ms->0 - now_ms < 432_000_000
}

fn is_worth_burning(window: &LimitWindow, now_ms: i64) -> (out: Option<(Quantity, i64)>)
    ensures
        match out {
            Some((percent, reset)) => worth_burning(window@, now_ms)
                && window@.remaining_percent == Some(percent) && window@.resets_at_ms == Some(
                reset,
            ),
            None => !worth_burning(window@, now_ms),
        },
{
    let long = window.kind == WindowKind::Weekly || window.kind == WindowKind::Monthly || has_text(
        to_lower(window.label.as_str()).as_str(),
        "7d",
    );
    if !long || window.metric.is_credit() {
        return None;
    }
    match window.remaining_percent {
        Some(percent) => match window.resets_at_ms {
            Some(reset) => if (Quantity { bits: TEN }).is_below(percent) && reset > now_ms && (
            reset as i128 - now_ms as i128) < 432_000_000 {
                Some((percent, reset))
            } else {
                None
            },
            None => None,
        },
        None => None,
    }
}

/// The best of the windows of a row, and of what was found before.
pub open spec fn burn_in(
    before: Option<BurnView>,
    title: Seq<char>,
    windows: Seq<WindowView>,
    now_ms: i64,
) -> Option<BurnView>
    decreases windows.len(),
{
    if windows.len() == 0 {
        before
    } else {
        let sofar = burn_in(before, title, windows.drop_last(), now_ms);
        let window = windows.last();
        if worth_burning(window, now_ms) && (sofar is None || window.resets_at_ms->0
            < sofar->0.reset_ms) {
            Some(
                BurnView {
                    provider_title: title,
                    remaining_pct: window.remaining_percent->0,
                    resets_in: reset_shown(window, now_ms),
                    reset_ms: window.resets_at_ms->0,
                },
            )
        } else {
            sofar
        }
    }
}

/// The quota that is lost soonest; of several the first.
pub open spec fn burn_first(rows: Seq<ProviderView>, now_ms: i64) -> Option<BurnView>
    decreases rows.len(),
{
    if rows.len() == 0 {
        None
    } else {
        let before = burn_first(rows.drop_last(), now_ms);
        if wallet(rows.last()) {
            before
        } else {
            burn_in(before, title_base(rows.last()), rows.last().windows, now_ms)
        }
    }
}

fn find_burn_in(
    before: Option<BurnRecommendation>,
    row: &ProviderSnapshot,
    now_ms: i64,
) -> (out: Option<BurnRecommendation>)
    ensures
        maybe_burn(out) == burn_in(maybe_burn(before), title_base(row@), row@.windows, now_ms),
{
    let ghost start = maybe_burn(before);
    let ghost views = row@.windows;
    let mut best = before;
    let mut i: usize = 0;
    assert(views.take(0) =~= Seq::<WindowView>::empty());
    while i < row.windows.len()
        invariant
            i <= row.windows@.len(),
            views == row@.windows,
            maybe_burn(best) == burn_in(start, title_base(row@), views.take(i as int), now_ms),
        decreases row.windows@.len() - i,
    {
        let window = &row.windows[i];
        assert(views.take(i + 1).drop_last() =~= views.take(i as int));
        assert(views.take(i + 1).last() == window@);
        match is_worth_burning(window, now_ms) {
            Some((percent, reset)) => {
                let sooner = match &best {
                    Some(sofar) => reset < sofar.reset_ms,
                    None => true,
                };
                if sooner {
                    best = Some(
                        BurnRecommendation {
                            provider_title: provider_title_base(row),
                            remaining_pct: percent,
                            resets_in: reset_text(window, now_ms),
                            reset_ms: reset,
                        },
                    );
                }
            },
            None => {},
        }
        i = i + 1;
    }
    assert(views.take(i as int) =~= views);
    best
}

pub fn find_burn_first_recommendation(rows: &Vec<&ProviderSnapshot>, now_ms: i64) -> (out: Option<
    BurnRecommendation,
>)
    ensures
        maybe_burn(out) == burn_first(row_views(rows@), now_ms),
{
    let ghost views = row_views(rows@);
    let mut best: Option<BurnRecommendation> = None;
    let mut i: usize = 0;
    assert(views.take(0) =~= Seq::<ProviderView>::empty());
    while i < rows.len()
        invariant
            i <= rows@.len(),
            views == row_views(rows@),
            maybe_burn(best) == burn_first(views.take(i as int), now_ms),
        decreases rows@.len() - i,
    {
        let row = rows[i];
        assert(views.take(i + 1).drop_last() =~= views.take(i as int));
        assert(views.take(i + 1).last() == row@);
        if !is_wallet_provider(row) {
            best = find_burn_in(best, row, now_ms);
        }
        i = i + 1;
    }
    assert(views.take(i as int) =~= views);
    best
}

/// When a window resets, behind a sign; a dash where that is not known.
pub open spec fn reset_sign(window: Option<WindowView>, now_ms: i64) -> Seq<char> {
    match window {
        Some(window) => {
            let shown = reset_shown(window, now_ms);
            if shown.len() > 0 && shown != "—"@ {
                "↻ "@ + shown
            } else {
                "—"@
            }
        },
        None => "—"@,
    }
}

fn reset_sign_text(window: Option<&LimitWindow>, now_ms: i64) -> (out: String)
    ensures
        out@ == reset_sign(maybe_window(window), now_ms),
{
    match window {
        Some(window) => {
            let shown = reset_text(window, now_ms);
            if char_count(shown.as_str()) > 0 && !same(shown.as_str(), "—") {
                two("↻ ", shown.as_str())
            } else {
                "—".to_owned()
            }
        },
        None => "—".to_owned(),
    }
}

/// More than a tenth is left of the window, and it resets within two days.
pub open spec fn urgent(window: Option<WindowView>, now_ms: i64) -> bool {
    match window {
        Some(window) => window.resets_at_ms is Some && window.remaining_percent is Some && 0
            < window.resets_at_ms->0 - now_ms <= 172_800_000 && (Quantity { bits: TEN }).below(
            window.remaining_percent->0,
        ),
        None => false,
    }
}

fn is_urgent(window: Option<&LimitWindow>, now_ms: i64) -> (yes: bool)
    ensures
        yes == urgent(maybe_window(window), now_ms),
{
    match window {
        Some(window) => match window.resets_at_ms {
            Some(reset) => match window.remaining_percent {
                Some(percent) => {
                    let left: i128 = reset as i128 - now_ms as i128;
                    0 < left && left <= 172_800_000 && (Quantity { bits: TEN }).is_below(percent)
                },
                None => false,
            },
            None => false,
        },
        None => false,
    }
}

/// The session reset shortened to its first two words in a narrow column.
pub open spec fn short_session(text: Seq<char>, col_width: nat) -> Seq<char> {
    let parts = words(text);
    if col_width <= 18 && byte_length(text) > 6 && contains(text, "h"@) && contains(text, "m"@)
        && parts.len() >= 2 {
        parts[0] + " "@ + parts[1]
    } else {
        text
    }
}

fn shorten_session(text: String, col_width: usize) -> (out: String)
    ensures
        out@ == short_session(text@, col_width as nat),
{
    if col_width <= 18 && count_bytes(text.as_str()) > 6 && has_text(text.as_str(), "h")
        && has_text(text.as_str(), "m") {
        let parts = words_of(text.as_str());
        let ghost views = texts(parts@);
        if parts.len() >= 2 {
            assert(views[0] == parts@[0]@ && views[1] == parts@[1]@);
            return three(parts[0].as_str(), " ", parts[1].as_str());
        }
    }
    text
}

/// The widths of the two resets in their column.
pub open spec fn reset_widths(col_width: int) -> (int, int) {
    if col_width >= 24 {
        (10, rest_or(col_width, 13, 0))
    } else if col_width >= 20 {
        (8, rest_or(col_width, 11, 0))
    } else if col_width >= 16 {
        (6, rest_or(col_width, 9, 0))
    } else {
        (5, rest_or(col_width, 8, 0))
    }
}

/// The resets of the session and of the cycle side by side.
pub open spec fn dual_reset(
    session: Option<WindowView>,
    cycle: Option<WindowView>,
    col_width: nat,
    now_ms: i64,
    dim: bool,
) -> Seq<SpanView> {
    let first = reset_sign(session, now_ms);
    let second = reset_sign(cycle, now_ms);
    let soon = urgent(cycle, now_ms);
    let first_color = if contains(first, "m"@) {
        yellow()
    } else {
        grey()
    };
    let second_color = if soon {
        amber()
    } else if contains(second, "d"@) {
        grey()
    } else {
        yellow()
    };
    let (a, b) = reset_widths(col_width as int);
    seq![
        cell(
            fitted(short_session(first, col_width), a as nat),
            dimmed(paint(first_color), dim),
        ),
        cell(" │ "@, paint(dim_grey())),
        cell(fitted(second, b as nat), dimmed(stressed(paint(second_color), soon), dim)),
    ]
}

pub fn format_dual_reset(
    session: Option<&LimitWindow>,
    cycle: Option<&LimitWindow>,
    col_width: usize,
    now_ms: i64,
    dim: bool,
) -> (out: Line)
    ensures
        out@ == dual_reset(
            maybe_window(session),
            maybe_window(cycle),
            col_width as nat,
            now_ms,
            dim,
        ),
{
    let first = reset_sign_text(session, now_ms);
    let second = reset_sign_text(cycle, now_ms);
    let soon = is_urgent(cycle, now_ms);
    let first_color = if has_text(first.as_str(), "m") {
        yellow()
    } else {
        grey()
    };
    let second_color = if soon {
        amber()
    } else if has_text(second.as_str(), "d") {
        grey()
    } else {
        yellow()
    };
    let (a, b): (usize, usize) = if col_width >= 24 {
        (10, rest_or_least(col_width, 13, 0))
    } else if col_width >= 20 {
        (8, rest_or_least(col_width, 11, 0))
    } else if col_width >= 16 {
        (6, rest_or_least(col_width, 9, 0))
    } else {
        (5, rest_or_least(col_width, 8, 0))
    };
    let mut line = Line::new();
    line.column(
        shorten_session(first, col_width).as_str(),
        a,
        dimmed(paint(first_color), dim),
    );
    line.cell(" │ ", paint(dim_grey()));
    line.column(second.as_str(), b, dimmed(stressed(paint(second_color), soon), dim));
    line
}

/// A reset alone in its column.
pub open spec fn cycle_reset(window: Option<WindowView>, col_width: nat, now_ms: i64, dim: bool) -> SpanView {
    match window {
        Some(window) => {
            let shown = reset_shown(window, now_ms);
            let soon = urgent(Some(window), now_ms);
            let color = if soon {
                amber()
            } else if contains(shown, "d"@) {
                grey()
            } else {
                yellow()
            };
            if trim(shown).len() == 0 || shown == "—"@ {
                dash_cell(col_width)
            } else {
                cell(
                    fitted("↻ "@ + shown, col_width),
                    dimmed(stressed(paint(color), soon), dim),
                )
            }
        },
        None => dash_cell(col_width),
    }
}

pub fn format_cycle_reset(
    line: &mut Line,
    window: Option<&LimitWindow>,
    col_width: usize,
    now_ms: i64,
    dim: bool,
)
    ensures
        final(line)@ == old(line)@.push(
            cycle_reset(maybe_window(window), col_width as nat, now_ms, dim),
        ),
{
    match window {
        Some(known) => {
            let shown = reset_text(known, now_ms);
            if char_count(trimmed(shown.as_str()).as_str()) == 0 || same(shown.as_str(), "—") {
                line.column("—", col_width, paint(dim_grey()));
            } else {
                let soon = is_urgent(window, now_ms);
                let color = if soon {
                    amber()
                } else if has_text(shown.as_str(), "d") {
                    grey()
                } else {
                    yellow()
                };
                line.column(
                    two("↻ ", shown.as_str()).as_str(),
                    col_width,
                    dimmed(stressed(paint(color), soon), dim),
                );
            }
        },
        None => {
            line.column("—", col_width, paint(dim_grey()));
        },
    }
}

/// A reset alone in its column, by its unit.
pub open spec fn matrix_reset(window: Option<WindowView>, col_width: nat, now_ms: i64) -> SpanView {
    match window {
        Some(window) => {
            let shown = reset_shown(window, now_ms);
            let color = if !contains(shown, "m"@) && contains(shown, "d"@) {
                grey()
            } else {
                yellow()
            };
            if trim(shown).len() == 0 || shown == "—"@ {
                dash_cell(col_width)
            } else {
                cell(fitted("↻ "@ + shown, col_width), paint(color))
            }
        },
        None => dash_cell(col_width),
    }
}

pub fn format_matrix_reset(
    line: &mut Line,
    window: Option<&LimitWindow>,
    col_width: usize,
    now_ms: i64,
)
    ensures
        final(line)@ == old(line)@.push(
            matrix_reset(maybe_window(window), col_width as nat, now_ms),
        ),
{
    match window {
        Some(known) => {
            let shown = reset_text(known, now_ms);
            if char_count(trimmed(shown.as_str()).as_str()) == 0 || same(shown.as_str(), "—") {
                line.column("—", col_width, paint(dim_grey()));
            } else {
                let color = if !has_text(shown.as_str(), "m") && has_text(shown.as_str(), "d") {
                    grey()
                } else {
                    yellow()
                };
                line.column(two("↻ ", shown.as_str()).as_str(), col_width, paint(color));
            }
        },
        None => {
            line.column("—", col_width, paint(dim_grey()));
        },
    }
}

/// A diagnostic tells of a reset credit.
pub open spec fn has_reset_credit(diagnostics: Seq<Seq<char>>) -> bool {
    exists|i: int|
        0 <= i < diagnostics.len() && (contains(
            lower(#[trigger] diagnostics[i]),
            "reset credit"@,
        ) || contains(diagnostics[i], "★"@))
}

fn tells_reset_credit(diagnostics: &Vec<String>) -> (yes: bool)
    ensures
        yes == has_reset_credit(texts(diagnostics@)),
{
    let ghost views = texts(diagnostics@);
    let mut i: usize = 0;
    while i < diagnostics.len()
        invariant
            i <= diagnostics@.len(),
            views == texts(diagnostics@),
            forall|k: int|
                0 <= k < i ==> !(contains(lower(#[trigger] views[k]), "reset credit"@)
                    || contains(views[k], "★"@)),
        decreases diagnostics@.len() - i,
    {
        let said = diagnostics[i].as_str();
        assert(views[i as int] == said@);
        if has_text(to_lower(said).as_str(), "reset credit") || has_text(said, "★") {
            return true;
        }
        i = i + 1;
    }
    false
}

/// A state in words and its color.
pub struct Verdict {
    pub words: Seq<char>,
    pub color: Color,
}

/// The state of a row: what to burn first, a verdict given, or what the row
/// itself says.
pub open spec fn status_cell(
    row: ProviderView,
    verdict: Option<Verdict>,
    col_width: nat,
    burn: bool,
) -> SpanView {
    if burn && row.availability is Available {
        cell(fitted("🔥 BURN FIRST"@, col_width), strong(amber()))
    } else {
        match verdict {
            Some(verdict) => cell(fitted(verdict.words, col_width), strong(verdict.color)),
            None => match row.availability {
                Availability::Exhausted => if has_reset_credit(row.diagnostics) {
                    cell(fitted("exhausted (★1 credit)"@, col_width), faint(red()))
                } else {
                    cell(fitted("exhausted"@, col_width), faint(red()))
                },
                Availability::AgentBlocked => cell(fitted("blocked"@, col_width), faint(red())),
                Availability::Available => cell(fitted("ready"@, col_width), strong(green())),
                Availability::Unknown => cell(fitted("unknown"@, col_width), faint(grey())),
            },
        }
    }
}

pub open spec fn maybe_verdict(verdict: Option<(&str, Color)>) -> Option<Verdict> {
    match verdict {
        Some((words, color)) => Some(Verdict { words: words@, color }),
        None => None,
    }
}

pub fn format_matrix_status(
    line: &mut Line,
    row: &ProviderSnapshot,
    verdict: Option<(&str, Color)>,
    col_width: usize,
    burn: bool,
)
    ensures
        final(line)@ == old(line)@.push(
            status_cell(row@, maybe_verdict(verdict), col_width as nat, burn),
        ),
{
    if burn && row.availability == Availability::Available {
        line.column("🔥 BURN FIRST", col_width, strong(amber()));
        return ;
    }
    match verdict {
        Some((words, color)) => {
            line.column(words, col_width, strong(color));
        },
        None => match row.availability {
            Availability::Exhausted => {
                if tells_reset_credit(&row.diagnostics) {
                    line.column("exhausted (★1 credit)", col_width, faint(red()));
                } else {
                    line.column("exhausted", col_width, faint(red()));
                }
            },
            Availability::AgentBlocked => {
                line.column("blocked", col_width, faint(red()));
            },
            Availability::Available => {
                line.column("ready", col_width, strong(green()));
            },
            Availability::Unknown => {
                line.column("unknown", col_width, faint(grey()));
            },
        },
    }
}

/// A window is worth burning where it lasts a week or a month, counts a quota of
/// which more than ten percent is left, and comes back within five days.
pub proof fn law_windows_worth_burning(window: WindowView, now_ms: i64)
    ensures
        worth_burning(window, now_ms) <==> {
            &&& window.kind is Weekly || window.kind is Monthly || contains(
                lower(window.label),
                "7d"@,
            )
            &&& window.metric is Quota
            &&& window.remaining_percent is Some
            &&& !window.remaining_percent->0.nan()
            &&& window.remaining_percent->0.rank() > 0x4024_0000_0000_0000
            &&& window.resets_at_ms is Some
            &&& 0 < window.resets_at_ms->0 - now_ms < 5 * 24 * 60 * 60 * 1000
        },
{
}

/// The recommendation is the window worth burning that comes back first among
/// those of all subscriptions: none comes back earlier, and it is one of them.
/// Wallets are never recommended.
pub proof fn law_first_reset_is_recommended(rows: Seq<ProviderView>, now_ms: i64)
    ensures
        forall|i: int, k: int|
            0 <= i < rows.len() && !wallet(rows[i]) && 0 <= k < rows[i].windows.len()
                && worth_burning(#[trigger] rows[i].windows[k], now_ms) ==> burn_first(
                rows,
                now_ms,
            ) is Some && burn_first(rows, now_ms)->0.reset_ms
                <= rows[i].windows[k].resets_at_ms->0,
        burn_first(rows, now_ms) matches Some(burn) ==> exists|i: int, k: int|
            {
                &&& 0 <= i < rows.len()
                &&& !wallet(rows[i])
                &&& 0 <= k < rows[i].windows.len()
                &&& worth_burning(#[trigger] rows[i].windows[k], now_ms)
                &&& rows[i].windows[k].resets_at_ms == Some(burn.reset_ms)
                &&& rows[i].windows[k].remaining_percent == Some(burn.remaining_pct)
                &&& burn.provider_title == title_base(rows[i])
                &&& burn.resets_in == reset_shown(rows[i].windows[k], now_ms)
            },
    decreases rows.len(),
{
    if rows.len() > 0 {
        let before = rows.drop_last();
        law_first_reset_is_recommended(before, now_ms);
        let last = rows.last();
        let sofar = burn_first(before, now_ms);
        let out = burn_first(rows, now_ms);
        if !wallet(last) {
            lemma_burn_in(sofar, title_base(last), last.windows, now_ms);
        }
        assert forall|i: int, k: int|
            0 <= i < rows.len() && !wallet(rows[i]) && 0 <= k < rows[i].windows.len()
                && worth_burning(#[trigger] rows[i].windows[k], now_ms) implies out is Some
            && out->0.reset_ms <= rows[i].windows[k].resets_at_ms->0 by {
            if i < before.len() {
                assert(before[i] == rows[i]);
                assert(worth_burning(before[i].windows[k], now_ms));
            } else {
                assert(worth_burning(last.windows[k], now_ms));
            }
        }
        if out is Some {
            if out == sofar {
                let (i, k) = choose|i: int, k: int|
                    {
                        &&& 0 <= i < before.len()
                        &&& !wallet(before[i])
                        &&& 0 <= k < before[i].windows.len()
                        &&& worth_burning(#[trigger] before[i].windows[k], now_ms)
                        &&& before[i].windows[k].resets_at_ms == Some(sofar->0.reset_ms)
                        &&& before[i].windows[k].remaining_percent == Some(sofar->0.remaining_pct)
                        &&& sofar->0.provider_title == title_base(before[i])
                        &&& sofar->0.resets_in == reset_shown(before[i].windows[k], now_ms)
                    };
                assert(worth_burning(rows[i].windows[k], now_ms));
            } else {
                let k = choose|k: int|
                    {
                        &&& 0 <= k < last.windows.len()
                        &&& worth_burning(#[trigger] last.windows[k], now_ms)
                        &&& last.windows[k].resets_at_ms == Some(out->0.reset_ms)
                        &&& last.windows[k].remaining_percent == Some(out->0.remaining_pct)
                        &&& out->0.provider_title == title_base(last)
                        &&& out->0.resets_in == reset_shown(last.windows[k], now_ms)
                    };
                assert(worth_burning(rows[rows.len() - 1].windows[k], now_ms));
            }
        }
    }
}

proof fn lemma_burn_in(
    before: Option<BurnView>,
    title: Seq<char>,
    windows: Seq<WindowView>,
    now_ms: i64,
)
    ensures
        before is Some ==> burn_in(before, title, windows, now_ms) is Some && burn_in(
            before,
            title,
            windows,
            now_ms,
        )->0.reset_ms <= before->0.reset_ms,
        forall|k: int|
            0 <= k < windows.len() && worth_burning(#[trigger] windows[k], now_ms) ==> burn_in(
                before,
                title,
                windows,
                now_ms,
            ) is Some && burn_in(before, title, windows, now_ms)->0.reset_ms
                <= windows[k].resets_at_ms->0,
        burn_in(before, title, windows, now_ms) != before ==> burn_in(
            before,
            title,
            windows,
            now_ms,
        ) is Some && exists|k: int|
            {
                let burn = burn_in(before, title, windows, now_ms)->0;
                &&& 0 <= k < windows.len()
                &&& worth_burning(#[trigger] windows[k], now_ms)
                &&& windows[k].resets_at_ms == Some(burn.reset_ms)
                &&& windows[k].remaining_percent == Some(burn.remaining_pct)
                &&& burn.provider_title == title
                &&& burn.resets_in == reset_shown(windows[k], now_ms)
            },
    decreases windows.len(),
{
    if windows.len() > 0 {
        let rest = windows.drop_last();
        lemma_burn_in(before, title, rest, now_ms);
        let sofar = burn_in(before, title, rest, now_ms);
        let out = burn_in(before, title, windows, now_ms);
        assert forall|k: int|
            0 <= k < windows.len() && worth_burning(#[trigger] windows[k], now_ms) implies out is Some
            && out->0.reset_ms <= windows[k].resets_at_ms->0 by {
            if k < rest.len() {
                assert(worth_burning(rest[k], now_ms));
            }
        }
        if out != before {
            if out == sofar {
                let k = choose|k: int|
                    {
                        &&& 0 <= k < rest.len()
                        &&& worth_burning(#[trigger] rest[k], now_ms)
                        &&& rest[k].resets_at_ms == Some(sofar->0.reset_ms)
                        &&& rest[k].remaining_percent == Some(sofar->0.remaining_pct)
                        &&& sofar->0.provider_title == title
                        &&& sofar->0.resets_in == reset_shown(rest[k], now_ms)
                    };
                assert(worth_burning(windows[k], now_ms));
            } else {
                assert(worth_burning(windows[windows.len() - 1], now_ms));
            }
        }
    }
}

/// A reset is urgent within two days, while more than ten percent is left.
pub proof fn law_urgent_resets_are_near(window: WindowView, now_ms: i64)
    ensures
        urgent(Some(window), now_ms) <==> {
            &&& window.resets_at_ms is Some
            &&& window.remaining_percent is Some
            &&& 0 < window.resets_at_ms->0 - now_ms <= 2 * 24 * 60 * 60 * 1000
            &&& !window.remaining_percent->0.nan()
            &&& window.remaining_percent->0.rank() > 0x4024_0000_0000_0000
        },
        !urgent(None, now_ms),
{
}

/// A share of nothing is red, one below twenty percent yellow, and any other in
/// the colour of its brand.
pub proof fn law_low_shares_change_colour(value: Quantity, brand: Color, dim: bool)
    requires
        !value.nan(),
    ensures
        value.rank() <= 0 ==> share_style(value, brand, dim) == stressed(
            dimmed(paint(red()), true),
            true,
        ),
        0 < value.rank() < 0x4034_0000_0000_0000 ==> share_style(value, brand, dim) == stressed(
            dimmed(paint(yellow()), dim),
            false,
        ),
        value.rank() >= 0x4034_0000_0000_0000 ==> share_style(value, brand, dim) == stressed(
            dimmed(paint(brand), dim),
            false,
        ),
{
}

/// An available row that is recommended says so before all else; then a verdict
/// counts; then the row says what its availability is.
pub proof fn law_recommended_row_says_so(row: ProviderView, verdict: Option<Verdict>, width: nat)
    ensures
        row.availability is Available ==> status_cell(row, verdict, width, true).content == fitted(
            "🔥 BURN FIRST"@,
            width,
        ),
        verdict matches Some(verdict) ==> status_cell(row, Some(verdict), width, false).content
            == fitted(verdict.words, width),
        row.availability is Available ==> status_cell(row, None, width, false).content == fitted(
            "ready"@,
            width,
        ),
        row.availability is AgentBlocked ==> status_cell(row, None, width, false).content == fitted(
            "blocked"@,
            width,
        ),
        row.availability is Unknown ==> status_cell(row, None, width, false).content == fitted(
            "unknown"@,
            width,
        ),
        row.availability is Exhausted && !has_reset_credit(row.diagnostics) ==> status_cell(
            row,
            None,
            width,
            false,
        ).content == fitted("exhausted"@, width),
{
}

} // verus!
