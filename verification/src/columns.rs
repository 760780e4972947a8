//! The columns of the detailed limits table, and the texts in its cells.

use vstd::prelude::*;

use crate::labels::{age, age_text, dims, palette, reset_shown, reset_text, row_dimmed, row_views};
use crate::labels::{status_label, status_word};
use crate::limits::{window_views, Availability, LimitWindow, ProviderSnapshot, ProviderView};
use crate::limits::WindowView;
use crate::numerals::{dollar_text, dollars, fixed, fixed_text, format_percent, meter, meter_view};
use crate::numerals::percent;
use crate::quantity::{Quantity, TEN, TWENTY_FIVE, ZERO};
use crate::screen::{dimmed, fit, fitted, paint, raw, red, str_width, text_columns, yellow, Line};
use crate::screen::{Page, SpanView, Style};
use crate::text::{align_left, align_right, char_count, chars_of, decimal, decimal_text, five, four};
use crate::text::{has_prefix, join, join_texts, left_aligned, lower, maybe_text, repeat_char};
use crate::text::{right_aligned, run_of, same, slice_text, starts_with, texts, three, to_lower};
use crate::text::{trim, trimmed, two};

verus! {

/// The amount that is left, in dollars or behind the name of its currency.
pub open spec fn amount(window: WindowView) -> Option<Seq<char>> {
    match window.remaining_amount {
        Some(value) => Some(
            match window.currency {
                Some(currency) => if currency == "USD"@ || currency.len() == 0 {
                    dollars(value, 2)
                } else {
                    currency + " "@ + fixed(value, 2)
                },
                None => dollars(value, 2),
            },
        ),
        None => None,
    }
}

fn amount_text(window: &LimitWindow) -> (out: Option<String>)
    ensures
        maybe_text(out) == amount(window@),
{
    match window.remaining_amount {
        Some(value) => Some(
            match &window.currency {
                Some(currency) => if same(currency.as_str(), "USD") || char_count(currency.as_str())
                    == 0 {
                    dollar_text(value, 2)
                } else {
                    three(currency.as_str(), " ", fixed_text(value, 2).as_str())
                },
                None => dollar_text(value, 2),
            },
        ),
        None => None,
    }
}

/// The percentage that is left, or a dash.
pub open spec fn percent_or_dash(window: WindowView) -> Seq<char> {
    match window.remaining_percent {
        Some(value) => percent(value),
        None => "—"@,
    }
}

fn percent_text(window: &LimitWindow) -> (out: String)
    ensures
        out@ == percent_or_dash(window@),
{
    match window.remaining_percent {
        Some(value) => format_percent(value),
        None => "—".to_owned(),
    }
}

/// A window in a cell: a quota with its meter, an amount with its share.
pub open spec fn window_shown(window: WindowView, wide: bool) -> Seq<char> {
    let share = percent_or_dash(window);
    match (window.remaining_percent, amount(window)) {
        (Some(value), None) => if wide && !window.metric.credit() {
            window.label + " "@ + right_aligned(share, 5) + " ["@ + (meter_view(value, 8) + "]"@)
        } else {
            window.label + " "@ + share
        },
        (Some(value), Some(amount)) => if wide && !window.metric.credit() {
            window.label + " "@ + right_aligned(share, 5) + " ["@ + (meter_view(value, 8) + "]"@)
        } else if wide {
            amount + " "@ + share + " "@ + meter_view(value, 5)
        } else {
            amount + " "@ + share
        },
        (None, Some(amount)) => if wide && window.metric.credit() {
            amount
        } else {
            window.label + " "@ + amount
        },
        (None, None) => window.label + " "@ + share,
    }
}

pub fn window_text(window: &LimitWindow, wide: bool) -> (out: String)
    ensures
        out@ == window_shown(window@, wide),
{
    let share = percent_text(window);
    let credit = window.metric.is_credit();
    match window.remaining_percent {
        Some(value) => {
            if wide && !credit {
                let shown = two(meter(value, 8).as_str(), "]");
                return five(
                    window.label.as_str(),
                    " ",
                    align_right(share.as_str(), 5).as_str(),
                    " [",
                    shown.as_str(),
                );
            }
            match amount_text(window) {
                Some(amount) => if wide {
                    five(amount.as_str(), " ", share.as_str(), " ", meter(value, 5).as_str())
                } else {
                    three(amount.as_str(), " ", share.as_str())
                },
                None => three(window.label.as_str(), " ", share.as_str()),
            }
        },
        None => match amount_text(window) {
            Some(amount) => if wide && credit {
                amount
            } else {
                three(window.label.as_str(), " ", amount.as_str())
            },
            None => three(window.label.as_str(), " ", share.as_str()),
        },
    }
}

/// A label shortened where the cell is narrow.
pub open spec fn short_label(label: Seq<char>, width: nat) -> Seq<char> {
    let l = lower(label);
    if width >= 26 {
        label
    } else if l == "cursor models"@ {
        "Cursor"@
    } else if l == "other models"@ {
        "Other"@
    } else if starts_with(l, "gemini "@) {
        "G"@ + label.skip(7)
    } else if starts_with(l, "anthropic/gpt "@) {
        "A"@ + label.skip(14)
    } else if starts_with(l, "anthropic "@) {
        "A"@ + label.skip(10)
    } else if l == "requests"@ {
        "Req"@
    } else {
        label
    }
}

fn behind(label: &str, skipped: usize) -> (out: String)
    requires
        skipped <= label@.len(),
    ensures
        out@ == label@.skip(skipped as int),
{
    let chars = chars_of(label);
    let total: usize = chars.len();
    let out = slice_text(chars.as_slice(), skipped, total);
    assert(out@ =~= label@.skip(skipped as int));
    out
}

pub fn short_window_label(label: &str, width: usize) -> (out: String)
    ensures
        out@ == short_label(label@, width as nat),
{
    if width >= 26 {
        return label.to_owned();
    }
    let l = to_lower(label);
    let l = l.as_str();
    proof {
        reveal_strlit("gemini ");
        reveal_strlit("anthropic/gpt ");
        reveal_strlit("anthropic ");
        assert(lower(label@).len() == label@.len());
    }
    if same(l, "cursor models") {
        "Cursor".to_owned()
    } else if same(l, "other models") {
        "Other".to_owned()
    } else if has_prefix(l, "gemini ") {
        two("G", behind(label, 7).as_str())
    } else if has_prefix(l, "anthropic/gpt ") {
        two("A", behind(label, 14).as_str())
    } else if has_prefix(l, "anthropic ") {
        two("A", behind(label, 10).as_str())
    } else if same(l, "requests") {
        "Req".to_owned()
    } else {
        label.to_owned()
    }
}

/// A quota in its cell: label, percentage, and a meter where there is room.
pub open spec fn quota_shown(window: WindowView, width: nat, label_width: nat) -> Seq<char> {
    let base = left_aligned(short_label(window.label, width), label_width) + " "@ + right_aligned(
        percent_or_dash(window),
        5,
    );
    let room = width - (base.len() + 3);
    match window.remaining_percent {
        Some(value) => if room >= 6 {
            base + " ["@ + meter_view(
                value,
                if room < 8 {
                    room as nat
                } else {
                    8
                },
            ) + "]"@
        } else if room >= 3 {
            base + " "@ + meter_view(value, room as nat)
        } else {
            base
        },
        None => base,
    }
}

pub fn quota_summary(window: &LimitWindow, width: usize, label_width: usize) -> (out: String)
    ensures
        out@ == quota_shown(window@, width as nat, label_width as nat),
{
    let label = short_window_label(window.label.as_str(), width);
    let base = three(
        align_left(label.as_str(), label_width).as_str(),
        " ",
        align_right(percent_text(window).as_str(), 5).as_str(),
    );
    match window.remaining_percent {
        Some(value) => {
            let used: usize = char_count(base.as_str());
            if width < 3 || used > width - 3 {
                return base;
            }
            let room: usize = width - 3 - used;
            if room >= 6 {
                let size: usize = if room < 8 {
                    room
                } else {
                    8
                };
                four(base.as_str(), " [", meter(value, size).as_str(), "]")
            } else if room >= 3 {
                three(base.as_str(), " ", meter(value, room).as_str())
            } else {
                base
            }
        },
        None => base,
    }
}

/// What is left of a credit, in words.
pub open spec fn credit_words(window: WindowView) -> Seq<char> {
    match (amount(window), window.remaining_percent) {
        (Some(amount), Some(value)) => amount + " "@ + percent(value),
        (Some(amount), None) => amount,
        (None, Some(value)) => window.label + " "@ + percent(value),
        (None, None) => window.label,
    }
}

/// A credit in its cell, with a meter where there is room.
pub open spec fn credit_shown(window: WindowView, width: nat) -> Seq<char> {
    let words = credit_words(window);
    let room = width - (words.len() + 1);
    match window.remaining_percent {
        Some(value) => if width >= words.len() + 4 {
            words + " "@ + meter_view(
                value,
                if room < 5 {
                    room as nat
                } else {
                    5
                },
            )
        } else {
            words
        },
        None => words,
    }
}

pub fn credit_summary(window: &LimitWindow, width: usize) -> (out: String)
    ensures
        out@ == credit_shown(window@, width as nat),
{
    let words = match amount_text(window) {
        Some(amount) => match window.remaining_percent {
            Some(value) => three(amount.as_str(), " ", format_percent(value).as_str()),
            None => amount,
        },
        None => match window.remaining_percent {
            Some(value) => three(window.label.as_str(), " ", format_percent(value).as_str()),
            None => window.label.clone(),
        },
    };
    match window.remaining_percent {
        Some(value) => {
            let used: usize = char_count(words.as_str());
            if width >= 4 && used <= width - 4 {
                let room: usize = width - used - 1;
                let size: usize = if room < 5 {
                    room
                } else {
                    5
                };
                three(words.as_str(), " ", meter(value, size).as_str())
            } else {
                words
            }
        },
        None => words,
    }
}

/// Lines being packed: those that are full, and the one that is not.
pub struct Packing {
    pub full: Seq<Seq<char>>,
    pub current: Seq<char>,
}

/// Texts put side by side, as many as a line holds; one that alone is too long
/// is cut.
pub open spec fn packing(values: Seq<Seq<char>>, width: nat) -> Packing
    decreases values.len(),
{
    if values.len() == 0 {
        Packing { full: Seq::empty(), current: Seq::empty() }
    } else {
        let before = packing(values.drop_last(), width);
        let value = values.last();
        let longer = before.current + "  "@ + value;
        if before.current.len() > 0 {
            if longer.len() > width {
                Packing { full: before.full.push(before.current), current: value }
            } else {
                Packing { full: before.full, current: longer }
            }
        } else if value.len() > width {
            Packing { full: before.full.push(fitted(value, width)), current: before.current }
        } else {
            Packing { full: before.full, current: value }
        }
    }
}

pub open spec fn packed(values: Seq<Seq<char>>, width: nat) -> Seq<Seq<char>> {
    let all = packing(values, width);
    if all.current.len() > 0 {
        all.full.push(all.current)
    } else {
        all.full
    }
}

pub fn pack_texts(values: &Vec<String>, width: usize) -> (out: Vec<String>)
    ensures
        texts(out@) == packed(texts(values@), width as nat),
{
    let ghost views = texts(values@);
    let mut full: Vec<String> = Vec::new();
    let mut current = String::new();
    let mut i: usize = 0;
    assert(texts(full@) =~= packing(views.take(0), width as nat).full);
    assert(current@ =~= Seq::<char>::empty());
    while i < values.len()
        invariant
            i <= values@.len(),
            views == texts(values@),
            texts(full@) == packing(views.take(i as int), width as nat).full,
            current@ == packing(views.take(i as int), width as nat).current,
        decreases values@.len() - i,
    {
        let ghost before = texts(full@);
        assert(views.take(i + 1).drop_last() =~= views.take(i as int));
        assert(views.take(i + 1).last() == values@[i as int]@);
        if char_count(current.as_str()) > 0 {
            let longer = three(current.as_str(), "  ", values[i].as_str());
            if char_count(longer.as_str()) > width {
                let line = current;
                full.push(line);
                assert(texts(full@) =~= before.push(line@));
                current = values[i].clone();
            } else {
                current = longer;
            }
        } else if char_count(values[i].as_str()) > width {
            let line = fit(values[i].as_str(), width);
            full.push(line);
            assert(texts(full@) =~= before.push(line@));
        } else {
            current = values[i].clone();
        }
        i = i + 1;
    }
    assert(views.take(i as int) =~= views);
    let ghost before = texts(full@);
    if char_count(current.as_str()) > 0 {
        full.push(current);
        assert(texts(full@) =~= before.push(current@));
    }
    full
}

/// A window that a row waits for: one that lasts and is used up.
pub open spec fn awaited(window: WindowView) -> bool {
    !window.metric.credit() && window.kind.lasts() && window.used_up()
}

/// The window with the earliest reset, the first of several; among the awaited
/// ones only, where that is asked for.
pub open spec fn earliest_reset(windows: Seq<WindowView>, awaited_only: bool) -> Option<int>
    decreases windows.len(),
{
    if windows.len() == 0 {
        None
    } else {
        let before = earliest_reset(windows.drop_last(), awaited_only);
        let last = windows.last();
        if last.resets_at_ms is Some && (!awaited_only || awaited(last)) {
            match before {
                Some(at) => if last.resets_at_ms->0 < windows[at].resets_at_ms->0 {
                    Some(windows.len() - 1)
                } else {
                    before
                },
                None => Some(windows.len() - 1),
            }
        } else {
            before
        }
    }
}

/// When a row resets next: a blocked row by a window that it waits for, where
/// there is one, and else by any window.
pub open spec fn reset_of(row: ProviderView, now_ms: i64) -> Option<Seq<char>> {
    let first = earliest_reset(row.windows, !(row.availability is Available));
    let at = if first is Some {
        first
    } else {
        earliest_reset(row.windows, false)
    };
    match at {
        Some(at) => Some(reset_shown(row.windows[at], now_ms)),
        None => None,
    }
}

proof fn lemma_earliest_reset(windows: Seq<WindowView>, awaited_only: bool)
    ensures
        earliest_reset(windows, awaited_only) matches Some(at) ==> 0 <= at < windows.len()
            && windows[at].resets_at_ms is Some,
    decreases windows.len(),
{
    if windows.len() > 0 {
        lemma_earliest_reset(windows.drop_last(), awaited_only);
    }
}

fn find_earliest_reset(windows: &Vec<LimitWindow>, awaited_only: bool) -> (out: Option<usize>)
    ensures
        earliest_reset(window_views(windows@), awaited_only) == match out {
            Some(at) => Some(at as int),
            None => None,
        },
        out matches Some(at) ==> at < windows@.len(),
{
    let ghost views = window_views(windows@);
    let mut best: Option<(usize, i64)> = None;
    let mut i: usize = 0;
    assert(views.take(0) =~= Seq::<WindowView>::empty());
    while i < windows.len()
        invariant
            i <= windows@.len(),
            views == window_views(windows@),
            match best {
                Some((at, reset)) => at < i && earliest_reset(views.take(i as int), awaited_only)
                    == Some(at as int) && views[at as int].resets_at_ms == Some(reset),
                None => earliest_reset(views.take(i as int), awaited_only) is None,
            },
        decreases windows@.len() - i,
    {
        let window = &windows[i];
        proof {
            assert(views.take(i + 1).drop_last() =~= views.take(i as int));
            assert(views.take(i + 1).last() == window@);
            lemma_earliest_reset(views.take(i as int), awaited_only);
        }
        match window.resets_at_ms {
            Some(reset) => {
                let counts = !awaited_only || (!window.metric.is_credit() && window.kind.durable()
                    && window.effectively_exhausted());
                if counts {
                    match best {
                        Some((_, sofar)) => {
                            if reset < sofar {
                                best = Some((i, reset));
                            }
                        },
                        None => {
                            best = Some((i, reset));
                        },
                    }
                }
            },
            None => {},
        }
        i = i + 1;
    }
    assert(views.take(i as int) =~= views);
    match best {
        Some((at, _)) => Some(at),
        None => None,
    }
}

pub fn next_reset(row: &ProviderSnapshot, now_ms: i64) -> (out: Option<String>)
    ensures
        maybe_text(out) == reset_of(row@, now_ms),
{
    let ghost views = row@.windows;
    let first = find_earliest_reset(&row.windows, row.availability != Availability::Available);
    let at = if first.is_some() {
        first
    } else {
        find_earliest_reset(&row.windows, false)
    };
    match at {
        Some(at) => {
            assert(views[at as int] == row.windows@[at as int]@);
            Some(reset_text(&row.windows[at], now_ms))
        },
        None => None,
    }
}

/// Where the figures of a row come from, and how old they are.
pub open spec fn source_shown(row: ProviderView, now_ms: i64) -> Seq<char> {
    let source = if trim(row.source).len() == 0 {
        "—"@
    } else {
        trim(row.source)
    };
    if row.collected_at_ms <= 0 {
        source
    } else {
        source + " · "@ + age(row.collected_at_ms, now_ms)
    }
}

pub fn source_display(row: &ProviderSnapshot, now_ms: i64) -> (out: String)
    ensures
        out@ == source_shown(row@, now_ms),
{
    let bare = trimmed(row.source.as_str());
    let source = if char_count(bare.as_str()) == 0 {
        "—".to_owned()
    } else {
        bare
    };
    if row.collected_at_ms <= 0 {
        source
    } else {
        three(source.as_str(), " · ", age_text(row.collected_at_ms, now_ms).as_str())
    }
}

/// The widths of the columns, zero for one that is left out.
#[derive(Clone, Copy, Debug, PartialEq, Eq, Structural)]
pub struct Columns {
    pub account: usize,
    pub status: usize,
    pub limits: usize,
    pub credits: usize,
    pub reset: usize,
    pub source: usize,
    pub total: usize,
}

/// The number held between two bounds.
pub open spec fn held_within(value: int, low: int, high: int) -> int {
    if value < low {
        low
    } else if value > high {
        high
    } else {
        value
    }
}

fn hold_within(value: usize, low: usize, high: usize) -> (out: usize)
    requires
        low <= high,
    ensures
        out == held_within(value as int, low as int, high as int),
{
    if value < low {
        low
    } else if value > high {
        high
    } else {
        value
    }
}

pub open spec fn larger(a: int, b: int) -> int {
    if a < b {
        b
    } else {
        a
    }
}

/// The largest measure of any window.
pub open spec fn widest_in(windows: Seq<WindowView>, measure: spec_fn(WindowView) -> int) -> int
    decreases windows.len(),
{
    if windows.len() == 0 {
        0
    } else {
        larger(widest_in(windows.drop_last(), measure), measure(windows.last()))
    }
}

/// The largest measure of any window of any row.
pub open spec fn widest_of(rows: Seq<ProviderView>, measure: spec_fn(WindowView) -> int) -> int
    decreases rows.len(),
{
    if rows.len() == 0 {
        0
    } else {
        larger(widest_of(rows.drop_last(), measure), widest_in(rows.last().windows, measure))
    }
}

/// The largest measure of any row.
pub open spec fn widest_row(rows: Seq<ProviderView>, measure: spec_fn(ProviderView) -> int) -> int
    decreases rows.len(),
{
    if rows.len() == 0 {
        0
    } else {
        larger(widest_row(rows.drop_last(), measure), measure(rows.last()))
    }
}

pub open spec fn longest(texts: Seq<Seq<char>>) -> int
    decreases texts.len(),
{
    if texts.len() == 0 {
        0
    } else {
        larger(longest(texts.drop_last()), texts.last().len() as int)
    }
}

fn longest_text(values: &Vec<String>) -> (out: usize)
    ensures
        out == longest(texts(values@)),
{
    let ghost views = texts(values@);
    let mut out: usize = 0;
    let mut i: usize = 0;
    assert(longest(views.take(0)) == 0);
    while i < values.len()
        invariant
            i <= values@.len(),
            views == texts(values@),
            out == longest(views.take(i as int)),
        decreases values@.len() - i,
    {
        assert(views.take(i + 1).drop_last() =~= views.take(i as int));
        assert(views.take(i + 1).last() == values@[i as int]@);
        let count: usize = char_count(values[i].as_str());
        if out < count {
            out = count;
        }
        i = i + 1;
    }
    assert(views.take(i as int) =~= views);
    out
}

fn widest_window<F: Fn(&LimitWindow) -> usize>(
    windows: &Vec<LimitWindow>,
    count: &F,
    Ghost(measure): Ghost<spec_fn(WindowView) -> int>,
) -> (out: usize)
    requires
        forall|window: LimitWindow| #[trigger] count.requires((&window,)),
        forall|window: LimitWindow, size: usize| #[trigger]
            count.ensures((&window,), size) ==> size == measure(window@),
    ensures
        out == widest_in(window_views(windows@), measure),
{
    let ghost views = window_views(windows@);
    let mut out: usize = 0;
    let mut i: usize = 0;
    assert(widest_in(views.take(0), measure) == 0);
    while i < windows.len()
        invariant
            i <= windows@.len(),
            views == window_views(windows@),
            out == widest_in(views.take(i as int), measure),
            forall|window: LimitWindow| #[trigger] count.requires((&window,)),
            forall|window: LimitWindow, size: usize| #[trigger]
                count.ensures((&window,), size) ==> size == measure(window@),
        decreases windows@.len() - i,
    {
        assert(views.take(i + 1).drop_last() =~= views.take(i as int));
        assert(views.take(i + 1).last() == windows@[i as int]@);
        let size: usize = count(&windows[i]);
        if out < size {
            out = size;
        }
        i = i + 1;
    }
    assert(views.take(i as int) =~= views);
    out
}

fn widest_of_rows<F: Fn(&LimitWindow) -> usize>(
    rows: &Vec<&ProviderSnapshot>,
    count: F,
    Ghost(measure): Ghost<spec_fn(WindowView) -> int>,
) -> (out: usize)
    requires
        forall|window: LimitWindow| #[trigger] count.requires((&window,)),
        forall|window: LimitWindow, size: usize| #[trigger]
            count.ensures((&window,), size) ==> size == measure(window@),
    ensures
        out == widest_of(row_views(rows@), measure),
{
    let ghost views = row_views(rows@);
    let mut out: usize = 0;
    let mut i: usize = 0;
    assert(widest_of(views.take(0), measure) == 0);
    while i < rows.len()
        invariant
            i <= rows@.len(),
            views == row_views(rows@),
            out == widest_of(views.take(i as int), measure),
            forall|window: LimitWindow| #[trigger] count.requires((&window,)),
            forall|window: LimitWindow, size: usize| #[trigger]
                count.ensures((&window,), size) ==> size == measure(window@),
        decreases rows@.len() - i,
    {
        assert(views.take(i + 1).drop_last() =~= views.take(i as int));
        assert(views.take(i + 1).last() == rows@[i as int]@);
        let size: usize = widest_window(&rows[i].windows, &count, Ghost(measure));
        if out < size {
            out = size;
        }
        i = i + 1;
    }
    assert(views.take(i as int) =~= views);
    out
}

fn widest_of_row<F: Fn(&ProviderSnapshot) -> usize>(
    rows: &Vec<&ProviderSnapshot>,
    count: F,
    Ghost(measure): Ghost<spec_fn(ProviderView) -> int>,
) -> (out: usize)
    requires
        forall|row: ProviderSnapshot| #[trigger] count.requires((&row,)),
        forall|row: ProviderSnapshot, size: usize| #[trigger]
            count.ensures((&row,), size) ==> size == measure(row@),
    ensures
        out == widest_row(row_views(rows@), measure),
{
    let ghost views = row_views(rows@);
    let mut out: usize = 0;
    let mut i: usize = 0;
    assert(widest_row(views.take(0), measure) == 0);
    while i < rows.len()
        invariant
            i <= rows@.len(),
            views == row_views(rows@),
            out == widest_row(views.take(i as int), measure),
            forall|row: ProviderSnapshot| #[trigger] count.requires((&row,)),
            forall|row: ProviderSnapshot, size: usize| #[trigger]
                count.ensures((&row,), size) ==> size == measure(row@),
        decreases rows@.len() - i,
    {
        assert(views.take(i + 1).drop_last() =~= views.take(i as int));
        assert(views.take(i + 1).last() == rows@[i as int]@);
        let size: usize = count(rows[i]);
        if out < size {
            out = size;
        }
        i = i + 1;
    }
    assert(views.take(i as int) =~= views);
    out
}

/// The columns of all sizes side by side, with two spaces between any two.
pub open spec fn columns_total(
    account: int,
    status: int,
    limits: int,
    credits: int,
    reset: int,
    source: int,
) -> int {
    account + status + limits + credits + reset + source + 2 * (2 + (if credits > 0 {
        1int
    } else {
        0
    }) + (if reset > 0 {
        1int
    } else {
        0
    }) + (if source > 0 {
        1int
    } else {
        0
    }))
}

fn total_of(
    account: usize,
    status: usize,
    limits: usize,
    credits: usize,
    reset: usize,
    source: usize,
) -> (out: usize)
    requires
        account <= 1000,
        status <= 1000,
        limits <= 1000,
        credits <= 1000,
        reset <= 1000,
        source <= 1000,
    ensures
        out == columns_total(
            account as int,
            status as int,
            limits as int,
            credits as int,
            reset as int,
            source as int,
        ),
{
    let mut gaps: usize = 2;
    if credits > 0 {
        gaps = gaps + 1;
    }
    if reset > 0 {
        gaps = gaps + 1;
    }
    if source > 0 {
        gaps = gaps + 1;
    }
    account + status + limits + credits + reset + source + 2 * gaps
}

/// The widths that the contents of the columns ask for.
pub struct Wishes {
    pub account: int,
    pub status: int,
    pub credits: int,
    pub reset: int,
    pub source: int,
    pub quota_min: int,
    pub limits: int,
}

pub open spec fn smallest_quota(width: int) -> int {
    if width >= 120 {
        24
    } else {
        18
    }
}

pub open spec fn largest_quota(width: int) -> int {
    if width >= 140 {
        56
    } else if width >= 110 {
        48
    } else {
        34
    }
}

pub open spec fn one_for(yes: bool) -> int {
    if yes {
        1
    } else {
        0
    }
}

/// The width of the labels in the quota column.
pub open spec fn label_width(rows: Seq<ProviderView>, width: int) -> int {
    widest_of(
        rows,
        |window: WindowView|
            if window.metric.credit() {
                0
            } else {
                short_label(window.label, largest_quota(width) as nat).len() as int
            },
    )
}

/// The width of the state column.
pub open spec fn status_column(rows: Seq<ProviderView>) -> int {
    held_within(widest_row(rows, |row: ProviderView| 2 + status_word(row).len() as int), 6, 16)
}

/// The width of the credit column, which is there where any window holds
/// credit.
pub open spec fn credit_column(rows: Seq<ProviderView>) -> int {
    if widest_of(rows, |window: WindowView| one_for(window.metric.credit())) > 0 {
        held_within(
            widest_of(
                rows,
                |window: WindowView|
                    if window.metric.credit() {
                        window_shown(window, true).len() as int
                    } else {
                        0
                    },
            ),
            12,
            20,
        )
    } else {
        0
    }
}

/// The width of the reset column, which is there where any window has a reset.
pub open spec fn reset_column(rows: Seq<ProviderView>, now_ms: i64) -> int {
    if widest_of(
        rows,
        |window: WindowView| one_for(window.resets_at_ms is Some || window.reset_text is Some),
    ) > 0 {
        held_within(
            widest_of(rows, |window: WindowView| reset_shown(window, now_ms).len() as int),
            8,
            10,
        )
    } else {
        0
    }
}

/// The width of the source column, which is there on a wide screen where any
/// row names its source.
pub open spec fn source_column(rows: Seq<ProviderView>, width: int, now_ms: i64) -> int {
    if width >= 132 && widest_row(rows, |row: ProviderView| one_for(row.source.len() > 0)) > 0 {
        held_within(
            widest_row(rows, |row: ProviderView| source_shown(row, now_ms).len() as int),
            8,
            18,
        )
    } else {
        0
    }
}

/// The width of the quota column.
pub open spec fn quota_column(rows: Seq<ProviderView>, width: int) -> int {
    let most = largest_quota(width);
    let labels = label_width(rows, width);
    held_within(
        widest_of(
            rows,
            |window: WindowView|
                if window.metric.credit() {
                    0
                } else {
                    quota_shown(window, most as nat, labels as nat).len() as int
                },
        ),
        smallest_quota(width),
        most,
    )
}

pub open spec fn wishes(
    rows: Seq<ProviderView>,
    titles: Seq<Seq<char>>,
    width: int,
    now_ms: i64,
) -> Wishes {
    Wishes {
        account: held_within(longest(titles) + 2, 18, 34),
        status: status_column(rows),
        credits: credit_column(rows),
        reset: reset_column(rows, now_ms),
        source: source_column(rows, width, now_ms),
        quota_min: smallest_quota(width),
        limits: quota_column(rows, width),
    }
}

/// The layout for a width. Where the columns do not fit, the source goes first,
/// then the reset, then the credits; at last title and state shrink.
pub open spec fn layout(wish: Wishes, width: int) -> Columns {
    let w = wish;
    let source = if columns_total(w.account, w.status, w.quota_min, w.credits, w.reset, w.source)
        > width {
        0
    } else {
        w.source
    };
    let reset = if columns_total(w.account, w.status, w.quota_min, w.credits, w.reset, source)
        > width {
        0
    } else {
        w.reset
    };
    let credits = if columns_total(w.account, w.status, w.quota_min, w.credits, reset, source)
        > width {
        0
    } else {
        w.credits
    };
    let tight = columns_total(w.account, w.status, w.quota_min, credits, reset, source) > width;
    let account = if tight {
        18
    } else {
        w.account
    };
    let status = if tight {
        6
    } else {
        w.status
    };
    let rest = width - columns_total(account, status, 0, credits, reset, source);
    let limits = larger(
        if w.limits < rest {
            w.limits
        } else {
            rest
        },
        1,
    );
    Columns {
        account: account as usize,
        status: status as usize,
        limits: limits as usize,
        credits: credits as usize,
        reset: reset as usize,
        source: source as usize,
        total: columns_total(account, status, limits, credits, reset, source) as usize,
    }
}

fn size_status(rows: &Vec<&ProviderSnapshot>) -> (out: usize)
    ensures
        out == status_column(row_views(rows@)),
{
    let measure = |row: &ProviderSnapshot| -> (size: usize)
        ensures
            size == 2 + status_word(row@).len(),
        { status_width(row) };
    let widest: usize = widest_of_row(
        rows,
        measure,
        Ghost(|row: ProviderView| 2 + status_word(row).len() as int),
    );
    hold_within(widest, 6, 16)
}

fn size_credits(rows: &Vec<&ProviderSnapshot>) -> (out: usize)
    ensures
        out == credit_column(row_views(rows@)),
{
    let present = |window: &LimitWindow| -> (size: usize)
        ensures
            size == one_for(window@.metric.credit()),
        {
            if window.metric.is_credit() {
                1
            } else {
                0
            }
        };
    let any: usize = widest_of_rows(
        rows,
        present,
        Ghost(|window: WindowView| one_for(window.metric.credit())),
    );
    if any == 0 {
        return 0;
    }
    let measure = |window: &LimitWindow| -> (size: usize)
        ensures
            size == if window@.metric.credit() {
                window_shown(window@, true).len() as int
            } else {
                0
            },
        {
            if window.metric.is_credit() {
                char_count(window_text(window, true).as_str())
            } else {
                0
            }
        };
    let widest: usize = widest_of_rows(
        rows,
        measure,
        Ghost(
            |window: WindowView|
                if window.metric.credit() {
                    window_shown(window, true).len() as int
                } else {
                    0
                },
        ),
    );
    hold_within(widest, 12, 20)
}

fn size_reset(rows: &Vec<&ProviderSnapshot>, now_ms: i64) -> (out: usize)
    ensures
        out == reset_column(row_views(rows@), now_ms),
{
    let present = |window: &LimitWindow| -> (size: usize)
        ensures
            size == one_for(window@.resets_at_ms is Some || window@.reset_text is Some),
        {
            if window.resets_at_ms.is_some() || window.reset_text.is_some() {
                1
            } else {
                0
            }
        };
    let any: usize = widest_of_rows(
        rows,
        present,
        Ghost(
            |window: WindowView| one_for(window.resets_at_ms is Some || window.reset_text is Some),
        ),
    );
    if any == 0 {
        return 0;
    }
    let measure = |window: &LimitWindow| -> (size: usize)
        ensures
            size == reset_shown(window@, now_ms).len(),
        { char_count(reset_text(window, now_ms).as_str()) };
    let widest: usize = widest_of_rows(
        rows,
        measure,
        Ghost(|window: WindowView| reset_shown(window, now_ms).len() as int),
    );
    hold_within(widest, 8, 10)
}

fn size_source(rows: &Vec<&ProviderSnapshot>, width: usize, now_ms: i64) -> (out: usize)
    ensures
        out == source_column(row_views(rows@), width as int, now_ms),
{
    if width < 132 {
        return 0;
    }
    let present = |row: &ProviderSnapshot| -> (size: usize)
        ensures
            size == one_for(row@.source.len() > 0),
        {
            if char_count(row.source.as_str()) > 0 {
                1
            } else {
                0
            }
        };
    let any: usize = widest_of_row(
        rows,
        present,
        Ghost(|row: ProviderView| one_for(row.source.len() > 0)),
    );
    if any == 0 {
        return 0;
    }
    let measure = |row: &ProviderSnapshot| -> (size: usize)
        ensures
            size == source_shown(row@, now_ms).len(),
        { char_count(source_display(row, now_ms).as_str()) };
    let widest: usize = widest_of_row(
        rows,
        measure,
        Ghost(|row: ProviderView| source_shown(row, now_ms).len() as int),
    );
    hold_within(widest, 8, 18)
}

fn size_labels(rows: &Vec<&ProviderSnapshot>, width: usize, most: usize) -> (out: usize)
    requires
        most == largest_quota(width as int),
    ensures
        out == label_width(row_views(rows@), width as int),
{
    let measure = |window: &LimitWindow| -> (size: usize)
        ensures
            size == if window@.metric.credit() {
                0
            } else {
                short_label(window@.label, most as nat).len() as int
            },
        {
            if window.metric.is_credit() {
                0
            } else {
                char_count(short_window_label(window.label.as_str(), most).as_str())
            }
        };
    widest_of_rows(
        rows,
        measure,
        Ghost(
            |window: WindowView|
                if window.metric.credit() {
                    0
                } else {
                    short_label(window.label, largest_quota(width as int) as nat).len() as int
                },
        ),
    )
}

fn size_quotas(rows: &Vec<&ProviderSnapshot>, width: usize, least: usize, most: usize) -> (out: usize)
    requires
        least == smallest_quota(width as int),
        most == largest_quota(width as int),
    ensures
        out == quota_column(row_views(rows@), width as int),
{
    let labels: usize = size_labels(rows, width, most);
    let ghost views = row_views(rows@);
    let ghost most_g = largest_quota(width as int);
    let ghost labels_g = label_width(views, width as int);
    let measure = |window: &LimitWindow| -> (size: usize)
        ensures
            size == if window@.metric.credit() {
                0
            } else {
                quota_shown(window@, most as nat, labels as nat).len() as int
            },
        {
            if window.metric.is_credit() {
                0
            } else {
                char_count(quota_summary(window, most, labels).as_str())
            }
        };
    let widest: usize = widest_of_rows(
        rows,
        measure,
        Ghost(
            |window: WindowView|
                if window.metric.credit() {
                    0
                } else {
                    quota_shown(window, most_g as nat, labels_g as nat).len() as int
                },
        ),
    );
    hold_within(widest, least, most)
}

fn lay_out(
    width: usize,
    account: usize,
    status: usize,
    credits: usize,
    reset: usize,
    source: usize,
    quota_min: usize,
    preferred: usize,
) -> (out: Columns)
    requires
        width <= 65535,
        account <= 100,
        status <= 100,
        credits <= 100,
        reset <= 100,
        source <= 100,
        quota_min <= 100,
        preferred <= 100,
    ensures
        out == layout(
            (Wishes {
                account: account as int,
                status: status as int,
                credits: credits as int,
                reset: reset as int,
                source: source as int,
                quota_min: quota_min as int,
                limits: preferred as int,
            }),
            width as int,
        ),
{
    let mut account: usize = account;
    let mut status: usize = status;
    let mut credits: usize = credits;
    let mut reset: usize = reset;
    let mut source: usize = source;
    if total_of(account, status, quota_min, credits, reset, source) > width {
        source = 0;
    }
    if total_of(account, status, quota_min, credits, reset, source) > width {
        reset = 0;
    }
    if total_of(account, status, quota_min, credits, reset, source) > width {
        credits = 0;
    }
    if total_of(account, status, quota_min, credits, reset, source) > width {
        account = 18;
        status = 6;
    }
    let used: usize = total_of(account, status, 0, credits, reset, source);
    let rest: usize = if used < width {
        width - used
    } else {
        0
    };
    let mut limits: usize = if preferred < rest {
        preferred
    } else {
        rest
    };
    if limits < 1 {
        limits = 1;
    }
    let total: usize = total_of(account, status, limits, credits, reset, source);
    Columns { account, status, limits, credits, reset, source, total }
}

pub fn columns(
    rows: &Vec<&ProviderSnapshot>,
    titles: &Vec<String>,
    width: u16,
    now_ms: i64,
) -> (out: Columns)
    ensures
        out == layout(wishes(row_views(rows@), texts(titles@), width as int, now_ms), width as int),
{
    let wide: usize = width as usize;
    let longest_title: usize = longest_text(titles);
    let account: usize = if longest_title >= 32 {
        34
    } else {
        hold_within(longest_title + 2, 18, 34)
    };
    let quota_min: usize = if wide >= 120 {
        24
    } else {
        18
    };
    let quota_max: usize = if wide >= 140 {
        56
    } else if wide >= 110 {
        48
    } else {
        34
    };
    let status: usize = size_status(rows);
    let credits: usize = size_credits(rows);
    let reset: usize = size_reset(rows, now_ms);
    let source: usize = size_source(rows, wide, now_ms);
    let limits: usize = size_quotas(rows, wide, quota_min, quota_max);
    lay_out(wide, account, status, credits, reset, source, quota_min, limits)
}

/// The table leaves the quota cell at least one column, and drops or keeps each
/// of the optional columns as a whole.
pub proof fn law_layout_keeps_quotas(wish: Wishes, width: int)
    requires
        0 <= width <= 65535,
        18 <= wish.account <= 34,
        6 <= wish.status <= 16,
        0 <= wish.credits <= 20,
        0 <= wish.reset <= 10,
        0 <= wish.source <= 18,
        18 <= wish.quota_min <= wish.limits <= 56,
    ensures
        layout(wish, width).limits >= 1,
        layout(wish, width).credits == 0 || layout(wish, width).credits == wish.credits,
        layout(wish, width).reset == 0 || layout(wish, width).reset == wish.reset,
        layout(wish, width).source == 0 || layout(wish, width).source == wish.source,
        width >= 47 ==> layout(wish, width).total <= width,
{
}

fn status_width(row: &ProviderSnapshot) -> (out: usize)
    ensures
        out == 2 + status_word(row@).len(),
{
    let word = status_label(row);
    proof {
        reveal_strlit("stale");
        reveal_strlit("connected");
        reveal_strlit("exhausted");
        reveal_strlit("blocked");
        reveal_strlit("unknown");
        reveal_strlit("unauthorized");
        reveal_strlit("unavailable");
        reveal_strlit("error");
    }
    2 + char_count(word)
}

/// Some window states a percentage.
pub open spec fn states_percent(windows: Seq<WindowView>) -> bool {
    exists|i: int| 0 <= i < windows.len() && (#[trigger] windows[i]).remaining_percent is Some
}

/// A quota on the compact line.
pub open spec fn compact_quota(window: WindowView, width: nat) -> Seq<char> {
    let share = percent_or_dash(window);
    if width >= 58 {
        short_label(window.label, width) + " "@ + share + " ["@ + (meter_view(
            match window.remaining_percent {
                Some(value) => value,
                None => Quantity { bits: ZERO },
            },
            5,
        ) + "]"@)
    } else {
        short_label(window.label, 20) + " "@ + share
    }
}

/// The quotas of a row on the compact line: those with a percentage where
/// there are any.
pub open spec fn compact_quotas(windows: Seq<WindowView>, stated_only: bool, width: nat) -> Seq<
    Seq<char>,
>
    decreases windows.len(),
{
    if windows.len() == 0 {
        Seq::empty()
    } else {
        let before = compact_quotas(windows.drop_last(), stated_only, width);
        let last = windows.last();
        if !last.metric.credit() && (!stated_only || last.remaining_percent is Some) {
            before.push(compact_quota(last, width))
        } else {
            before
        }
    }
}

/// The credits of a row on the compact line.
pub open spec fn compact_credits(windows: Seq<WindowView>, width: nat) -> Seq<Seq<char>>
    decreases windows.len(),
{
    if windows.len() == 0 {
        Seq::empty()
    } else {
        let before = compact_credits(windows.drop_last(), width);
        if windows.last().metric.credit() {
            before.push(window_shown(windows.last(), width >= 58))
        } else {
            before
        }
    }
}

/// What the compact line could show: quotas, or else credits, or else that
/// there is nothing.
pub open spec fn compact_values(row: ProviderView, width: nat) -> Seq<Seq<char>> {
    let quotas = compact_quotas(row.windows, states_percent(row.windows), width);
    let credits = compact_credits(row.windows, width);
    if quotas.len() > 0 {
        quotas
    } else if credits.len() > 0 {
        credits
    } else {
        seq!["no quota data"@]
    }
}

/// The first `shown` values, and how many more there are.
pub open spec fn compact_segments(values: Seq<Seq<char>>, shown: int, width: nat) -> Seq<char> {
    let hidden = values.len() - shown;
    let count = "+"@ + decimal(hidden as nat);
    let segments = if hidden <= 0 {
        values.take(shown)
    } else if width < 48 {
        values.take(shown).push(count)
    } else {
        values.take(shown).push(count + " more"@)
    };
    join(segments, "  "@)
}

/// The compact line with as many values, of at most `shown`, as fit. The reset
/// is dropped only where not even one value fits beside it.
pub open spec fn compact_line(
    prefix: Seq<char>,
    values: Seq<Seq<char>>,
    suffix: Seq<char>,
    shown: int,
    width: nat,
) -> Seq<char>
    decreases shown,
{
    let bare = prefix + compact_segments(values, shown, width);
    let line = bare + suffix;
    if text_columns(line) <= width {
        line
    } else if shown > 1 {
        compact_line(prefix, values, suffix, shown - 1, width)
    } else if suffix.len() > 0 && text_columns(bare) <= width {
        bare
    } else {
        fitted(line, width)
    }
}

pub open spec fn status_prefix(row: ProviderView) -> Seq<char> {
    if dims(row) {
        status_word(row) + " · "@
    } else {
        Seq::empty()
    }
}

pub open spec fn reset_suffix(row: ProviderView, now_ms: i64) -> Seq<char> {
    match reset_of(row, now_ms) {
        Some(reset) => "  ↻"@ + reset,
        None => Seq::empty(),
    }
}

/// A row on one line.
pub open spec fn compact(row: ProviderView, width: nat, now_ms: i64) -> Seq<char> {
    let values = compact_values(row, width);
    let most: int = if width >= 42 {
        2
    } else {
        1
    };
    compact_line(
        status_prefix(row),
        values,
        reset_suffix(row, now_ms),
        if values.len() < most {
            values.len() as int
        } else {
            most
        },
        width,
    )
}

fn has_percent(windows: &Vec<LimitWindow>) -> (yes: bool)
    ensures
        yes == states_percent(window_views(windows@)),
{
    let ghost views = window_views(windows@);
    let mut i: usize = 0;
    while i < windows.len()
        invariant
            i <= windows@.len(),
            views == window_views(windows@),
            forall|k: int| 0 <= k < i ==> !((#[trigger] views[k]).remaining_percent is Some),
        decreases windows@.len() - i,
    {
        assert(views[i as int] == windows@[i as int]@);
        if windows[i].remaining_percent.is_some() {
            return true;
        }
        i = i + 1;
    }
    false
}

fn compact_quota_text(window: &LimitWindow, width: usize) -> (out: String)
    ensures
        out@ == compact_quota(window@, width as nat),
{
    let share = percent_text(window);
    if width >= 58 {
        let value = match window.remaining_percent {
            Some(value) => value,
            None => Quantity { bits: ZERO },
        };
        let shown = two(meter(value, 5).as_str(), "]");
        five(
            short_window_label(window.label.as_str(), width).as_str(),
            " ",
            share.as_str(),
            " [",
            shown.as_str(),
        )
    } else {
        three(short_window_label(window.label.as_str(), 20).as_str(), " ", share.as_str())
    }
}

fn quota_texts(windows: &Vec<LimitWindow>, stated_only: bool, width: usize) -> (out: Vec<String>)
    ensures
        texts(out@) == compact_quotas(window_views(windows@), stated_only, width as nat),
{
    let ghost views = window_views(windows@);
    let mut out: Vec<String> = Vec::new();
    let mut i: usize = 0;
    assert(texts(out@) =~= compact_quotas(views.take(0), stated_only, width as nat));
    while i < windows.len()
        invariant
            i <= windows@.len(),
            views == window_views(windows@),
            texts(out@) == compact_quotas(views.take(i as int), stated_only, width as nat),
        decreases windows@.len() - i,
    {
        let ghost before = texts(out@);
        assert(views.take(i + 1).drop_last() =~= views.take(i as int));
        assert(views.take(i + 1).last() == windows@[i as int]@);
        if !windows[i].metric.is_credit() && (!stated_only
            || windows[i].remaining_percent.is_some()) {
            let value = compact_quota_text(&windows[i], width);
            out.push(value);
            assert(texts(out@) =~= before.push(value@));
        }
        i = i + 1;
    }
    assert(views.take(i as int) =~= views);
    out
}

fn credit_texts(windows: &Vec<LimitWindow>, width: usize) -> (out: Vec<String>)
    ensures
        texts(out@) == compact_credits(window_views(windows@), width as nat),
{
    let ghost views = window_views(windows@);
    let mut out: Vec<String> = Vec::new();
    let mut i: usize = 0;
    assert(texts(out@) =~= compact_credits(views.take(0), width as nat));
    while i < windows.len()
        invariant
            i <= windows@.len(),
            views == window_views(windows@),
            texts(out@) == compact_credits(views.take(i as int), width as nat),
        decreases windows@.len() - i,
    {
        let ghost before = texts(out@);
        assert(views.take(i + 1).drop_last() =~= views.take(i as int));
        assert(views.take(i + 1).last() == windows@[i as int]@);
        if windows[i].metric.is_credit() {
            let value = window_text(&windows[i], width >= 58);
            out.push(value);
            assert(texts(out@) =~= before.push(value@));
        }
        i = i + 1;
    }
    assert(views.take(i as int) =~= views);
    out
}

fn value_texts(row: &ProviderSnapshot, width: usize) -> (out: Vec<String>)
    ensures
        texts(out@) == compact_values(row@, width as nat),
        out@.len() > 0,
{
    let quotas = quota_texts(&row.windows, has_percent(&row.windows), width);
    assert(texts(quotas@).len() == quotas@.len());
    if quotas.len() > 0 {
        return quotas;
    }
    let credits = credit_texts(&row.windows, width);
    assert(texts(credits@).len() == credits@.len());
    if credits.len() > 0 {
        return credits;
    }
    let mut out: Vec<String> = Vec::new();
    out.push("no quota data".to_owned());
    assert(texts(out@) =~= seq!["no quota data"@]);
    out
}

fn segments_text(values: &Vec<String>, shown: usize, width: usize) -> (out: String)
    requires
        shown <= values@.len(),
    ensures
        out@ == compact_segments(texts(values@), shown as int, width as nat),
{
    let ghost views = texts(values@);
    let mut segments: Vec<String> = Vec::new();
    let mut i: usize = 0;
    while i < shown
        invariant
            i <= shown <= values@.len(),
            views == texts(values@),
            texts(segments@) == views.take(i as int),
        decreases shown - i,
    {
        let ghost before = texts(segments@);
        let value = values[i].clone();
        segments.push(value);
        assert(texts(segments@) =~= before.push(value@));
        i = i + 1;
        assert(texts(segments@) =~= views.take(i as int));
    }
    let hidden: usize = values.len() - shown;
    if hidden > 0 {
        let ghost before = texts(segments@);
        let count = two("+", decimal_text(hidden as u64).as_str());
        let marker = if width < 48 {
            count
        } else {
            two(count.as_str(), " more")
        };
        segments.push(marker);
        assert(texts(segments@) =~= before.push(marker@));
    }
    join_texts(segments.as_slice(), "  ")
}

fn compact_text(
    prefix: &str,
    values: &Vec<String>,
    suffix: &str,
    shown: usize,
    width: usize,
) -> (out: String)
    requires
        shown <= values@.len(),
    ensures
        out@ == compact_line(prefix@, texts(values@), suffix@, shown as int, width as nat),
    decreases shown,
{
    let bare = two(prefix, segments_text(values, shown, width).as_str());
    let line = two(bare.as_str(), suffix);
    if str_width(line.as_str()) <= width {
        line
    } else if shown > 1 {
        compact_text(prefix, values, suffix, shown - 1, width)
    } else if char_count(suffix) > 0 && str_width(bare.as_str()) <= width {
        bare
    } else {
        fit(line.as_str(), width)
    }
}

pub fn compact_metric(row: &ProviderSnapshot, width: usize, now_ms: i64) -> (out: String)
    ensures
        out@ == compact(row@, width as nat, now_ms),
{
    let values = value_texts(row, width);
    let most: usize = if width >= 42 {
        2
    } else {
        1
    };
    let shown: usize = if values.len() < most {
        values.len()
    } else {
        most
    };
    let prefix = if row_dimmed(row) {
        two(status_label(row), " · ")
    } else {
        let out = String::new();
        assert(out@ =~= Seq::<char>::empty());
        out
    };
    let suffix = match next_reset(row, now_ms) {
        Some(reset) => two("  ↻", reset.as_str()),
        None => {
            let out = String::new();
            assert(out@ =~= Seq::<char>::empty());
            out
        },
    };
    compact_text(prefix.as_str(), &values, suffix.as_str(), shown, width)
}

/// The style of a window: red and yellow where little is left, else the
/// account's own color.
pub open spec fn window_style(row: ProviderView, window: Option<WindowView>) -> Style {
    let color = match window {
        Some(window) => match window.remaining_percent {
            Some(value) => if value.at_most(Quantity { bits: TEN }) {
                red()
            } else if value.at_most(Quantity { bits: TWENTY_FIVE }) {
                yellow()
            } else {
                palette(row.hue)
            },
            None => palette(row.hue),
        },
        None => palette(row.hue),
    };
    dimmed(paint(color), dims(row))
}

pub fn window_value_style(row: &ProviderSnapshot, window: Option<&LimitWindow>) -> (out: Style)
    ensures
        out == window_style(
            row@,
            match window {
                Some(window) => Some(window@),
                None => None,
            },
        ),
{
    let percent = match window {
        Some(window) => window.remaining_percent,
        None => None,
    };
    let color = match percent {
        Some(value) => if value.is_at_most(Quantity { bits: TEN }) {
            red()
        } else if value.is_at_most(Quantity { bits: TWENTY_FIVE }) {
            yellow()
        } else {
            palette(row.hue)
        },
        None => palette(row.hue),
    };
    dimmed(paint(color), row_dimmed(row))
}

/// A window in its cell of the detailed table.
pub open spec fn detail_cell(window: WindowView, width: nat, labels: nat) -> Seq<char> {
    if window.metric.credit() {
        credit_shown(window, width)
    } else {
        quota_shown(window, width, labels)
    }
}

/// The cells of the quotas, or of the credits, of a row.
pub open spec fn detail_cells(windows: Seq<WindowView>, width: nat, labels: nat, credit: bool) -> Seq<
    Seq<char>,
>
    decreases windows.len(),
{
    if windows.len() == 0 {
        Seq::empty()
    } else {
        let before = detail_cells(windows.drop_last(), width, labels, credit);
        if windows.last().metric.credit() == credit {
            before.push(detail_cell(windows.last(), width, labels))
        } else {
            before
        }
    }
}

/// The resets of the quotas, or of the credits, of a row.
pub open spec fn detail_resets(windows: Seq<WindowView>, credit: bool, now_ms: i64) -> Seq<Seq<char>>
    decreases windows.len(),
{
    if windows.len() == 0 {
        Seq::empty()
    } else {
        let before = detail_resets(windows.drop_last(), credit, now_ms);
        if windows.last().metric.credit() == credit {
            before.push(reset_shown(windows.last(), now_ms))
        } else {
            before
        }
    }
}

/// A text, and the reset beside it where there is a column for it.
pub struct DetailLine {
    pub text: Seq<char>,
    pub reset: Option<Seq<char>>,
}

pub open spec fn detail_lines(items: Seq<(String, Option<String>)>) -> Seq<DetailLine> {
    items.map_values(
        |item: (String, Option<String>)| DetailLine { text: item.0@, reset: maybe_text(item.1) },
    )
}

/// The lines of a row in the detailed table: one for each window where there
/// is a column for resets, else as many windows side by side as fit.
pub open spec fn detailed(
    row: ProviderView,
    width: nat,
    labels: nat,
    reset_enabled: bool,
    credit: bool,
    now_ms: i64,
) -> Seq<DetailLine> {
    let cells = detail_cells(row.windows, width, labels, credit);
    let resets = detail_resets(row.windows, credit, now_ms);
    if reset_enabled {
        Seq::new(cells.len(), |i: int| DetailLine { text: cells[i], reset: Some(resets[i]) })
    } else {
        packed(cells, width).map_values(|text: Seq<char>| DetailLine { text, reset: None })
    }
}

pub fn detailed_window_lines(
    row: &ProviderSnapshot,
    width: usize,
    labels: usize,
    reset_enabled: bool,
    credit: bool,
    now_ms: i64,
) -> (out: Vec<(String, Option<String>)>)
    ensures
        detail_lines(out@) == detailed(
            row@,
            width as nat,
            labels as nat,
            reset_enabled,
            credit,
            now_ms,
        ),
{
    let ghost views = row@.windows;
    let mut cells: Vec<String> = Vec::new();
    let mut resets: Vec<String> = Vec::new();
    let mut i: usize = 0;
    assert(texts(cells@) =~= detail_cells(views.take(0), width as nat, labels as nat, credit));
    assert(texts(resets@) =~= detail_resets(views.take(0), credit, now_ms));
    while i < row.windows.len()
        invariant
            i <= row.windows@.len(),
            views == row@.windows,
            texts(cells@) == detail_cells(
                views.take(i as int),
                width as nat,
                labels as nat,
                credit,
            ),
            texts(resets@) == detail_resets(views.take(i as int), credit, now_ms),
            cells@.len() == resets@.len(),
        decreases row.windows@.len() - i,
    {
        let window = &row.windows[i];
        let ghost cells_before = texts(cells@);
        let ghost resets_before = texts(resets@);
        assert(views.take(i + 1).drop_last() =~= views.take(i as int));
        assert(views.take(i + 1).last() == window@);
        if window.metric.is_credit() == credit {
            let cell = if credit {
                credit_summary(window, width)
            } else {
                quota_summary(window, width, labels)
            };
            let reset = reset_text(window, now_ms);
            cells.push(cell);
            resets.push(reset);
            assert(texts(cells@) =~= cells_before.push(cell@));
            assert(texts(resets@) =~= resets_before.push(reset@));
        }
        i = i + 1;
    }
    assert(views.take(i as int) =~= views);
    let mut out: Vec<(String, Option<String>)> = Vec::new();
    if reset_enabled {
        let mut j: usize = 0;
        while j < cells.len()
            invariant
                j <= cells@.len(),
                cells@.len() == resets@.len(),
                out@.len() == j,
                forall|k: int|
                    0 <= k < j ==> (#[trigger] out@[k]).0@ == cells@[k]@ && maybe_text(out@[k].1)
                        == Some(resets@[k]@),
            decreases cells@.len() - j,
        {
            out.push((cells[j].clone(), Some(resets[j].clone())));
            j = j + 1;
        }
        let ghost cell_views = texts(cells@);
        let ghost reset_views = texts(resets@);
        assert(detail_lines(out@) =~= Seq::new(
            cell_views.len(),
            |i: int| DetailLine { text: cell_views[i], reset: Some(reset_views[i]) },
        ));
    } else {
        let lines = pack_texts(&cells, width);
        let mut j: usize = 0;
        while j < lines.len()
            invariant
                j <= lines@.len(),
                out@.len() == j,
                forall|k: int|
                    0 <= k < j ==> (#[trigger] out@[k]).0@ == lines@[k]@ && out@[k].1 is None,
            decreases lines@.len() - j,
        {
            out.push((lines[j].clone(), None));
            j = j + 1;
        }
        assert(detail_lines(out@) =~= texts(lines@).map_values(
            |text: Seq<char>| DetailLine { text, reset: None },
        ));
    }
    out
}

/// Lines moved right.
pub open spec fn indented(lines: Seq<Seq<SpanView>>, indent: nat) -> Seq<Seq<SpanView>> {
    if indent == 0 {
        lines
    } else {
        lines.map_values(|line: Seq<SpanView>| seq![raw(run_of(' ', indent))] + line)
    }
}

pub fn indent_lines(page: Page, indent: usize) -> (out: Page)
    ensures
        out@ == indented(page@, indent as nat),
{
    if indent == 0 {
        return page;
    }
    let ghost views = page@;
    let ghost start = page.lines@;
    let mut rest = page.lines;
    let mut out = Page::new();
    while rest.len() > 0
        invariant
            out@.len() + rest@.len() == start.len(),
            views == crate::screen::line_views(start),
            forall|k: int| 0 <= k < rest@.len() ==> #[trigger] rest@[k] == start[out@.len() + k],
            forall|k: int|
                0 <= k < out@.len() ==> #[trigger] out@[k] == seq![
                    raw(run_of(' ', indent as nat)),
                ] + views[k],
        decreases rest@.len(),
    {
        let ghost done = out@.len();
        let line = rest.remove(0);
        assert(line == start[done as int]);
        assert(views[done as int] == line@);
        let mut moved = Line::new();
        moved.raw(repeat_char(' ', indent).as_str());
        moved.extend(line);
        out.line(moved);
        assert(out@[done as int] == seq![raw(run_of(' ', indent as nat))] + views[done as int]);
    }
    assert(out@ =~= indented(views, indent as nat));
    out
}

/// The reset that is looked for is the first of those that are known: where one is
/// found, no other comes before it, and of two at the same moment the window listed
/// first is taken. None is found only where none is known.
pub proof fn law_first_known_reset_is_found(windows: Seq<WindowView>, awaited_only: bool)
    ensures
        match earliest_reset(windows, awaited_only) {
            Some(at) => {
                &&& 0 <= at < windows.len()
                &&& windows[at].resets_at_ms is Some
                &&& awaited_only ==> awaited(windows[at])
                &&& forall|i: int|
                    0 <= i < windows.len() && (#[trigger] windows[i]).resets_at_ms is Some && (
                    !awaited_only || awaited(windows[i])) ==> windows[at].resets_at_ms->0
                        <= windows[i].resets_at_ms->0 && (i < at ==> windows[at].resets_at_ms->0
                        < windows[i].resets_at_ms->0)
            },
            None => forall|i: int|
                0 <= i < windows.len() ==> (#[trigger] windows[i]).resets_at_ms is None || (
                awaited_only && !awaited(windows[i])),
        },
    decreases windows.len(),
{
    if windows.len() > 0 {
        let before = windows.drop_last();
        law_first_known_reset_is_found(before, awaited_only);
        assert(windows.last() == windows[windows.len() - 1]);
        assert forall|i: int| 0 <= i < before.len() implies #[trigger] windows[i] == before[i] by {}
    }
}

/// A row that can be used shows the first reset of all its windows. One that cannot
/// shows the first of the windows that it waits for: those that last, count no
/// credits and are used up.
pub proof fn law_row_shows_its_first_reset(row: ProviderView, at: int, now_ms: i64)
    requires
        0 <= at < row.windows.len(),
        row.windows[at].resets_at_ms is Some,
        !(row.availability is Available) ==> !row.windows[at].metric.credit()
            && row.windows[at].kind.lasts() && row.windows[at].used_up(),
        forall|i: int|
            0 <= i < row.windows.len() && i != at && (#[trigger] row.windows[i]).resets_at_ms is Some
                && (row.availability is Available || (!row.windows[i].metric.credit()
                && row.windows[i].kind.lasts() && row.windows[i].used_up()))
                ==> row.windows[at].resets_at_ms->0 < row.windows[i].resets_at_ms->0,
    ensures
        reset_of(row, now_ms) == Some(reset_shown(row.windows[at], now_ms)),
{
    law_first_known_reset_is_found(row.windows, !(row.availability is Available));
    match earliest_reset(row.windows, !(row.availability is Available)) {
        Some(found) => {
            assert(row.windows[at].resets_at_ms is Some);
            assert(row.windows[found].resets_at_ms is Some);
        },
        None => {
            assert(row.windows[at].resets_at_ms is None || !awaited(row.windows[at]));
        },
    }
}

/// A column is as wide as its widest text: none is wider, and one is as wide where
/// any has a width.
pub proof fn law_widest_text_gives_the_width(texts: Seq<Seq<char>>)
    ensures
        forall|i: int| 0 <= i < texts.len() ==> (#[trigger] texts[i]).len() <= longest(texts),
        longest(texts) > 0 ==> exists|i: int|
            0 <= i < texts.len() && (#[trigger] texts[i]).len() == longest(texts),
        longest(texts) >= 0,
    decreases texts.len(),
{
    if texts.len() > 0 {
        let before = texts.drop_last();
        law_widest_text_gives_the_width(before);
        assert(texts.last() == texts[texts.len() - 1]);
        assert forall|i: int| 0 <= i < texts.len() implies (#[trigger] texts[i]).len() <= longest(
            texts,
        ) by {
            if i < before.len() {
                assert(before[i] == texts[i]);
            }
        }
        if longest(before) > 0 {
            let k = choose|k: int|
                0 <= k < before.len() && (#[trigger] before[k]).len() == longest(before);
            assert(texts[k] == before[k]);
        }
    }
}

} // verus!
