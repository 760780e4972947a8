//! The quota model: windows, provider rows, and the burn-first order.

use vstd::prelude::*;

use crate::quantity::{FIFTEEN_HUNDREDTHS, HUNDRED_AND_ONE, Quantity, TENTH, ZERO};
use crate::sort::{first_where, lemma_is_first_where, lemma_sorted_contains, lemma_sorted_in_order};
use crate::sort::{lemma_sorted_keeps_items, lemma_sorted_map, lemma_sorted_same};
use crate::sort::{lemma_sorted_stable, orders, sort_by, sorted};
use crate::text::{comes_before, contains, copy_maybe, copy_texts, has_text, join, join_texts};
use crate::text::{lemma_precedes_total, lemma_precedes_transitive, lower, maybe_text, precedes};
use crate::text::{same, texts, to_lower, trim, trimmed};

verus! {

/// How the last refresh of a source went.
#[derive(Clone, Copy, Debug, PartialEq, Eq, Structural)]
pub enum SourceHealth {
    Connected,
    Stale,
    Unauthorized,
    Unavailable,
    Error,
}

/// Whether a source can take requests.
#[derive(Clone, Copy, Debug, PartialEq, Eq, Structural)]
pub enum Availability {
    Available,
    Exhausted,
    AgentBlocked,
    Unknown,
}

/// The period over which a window refills.
#[derive(Clone, Copy, Debug, PartialEq, Eq, Structural)]
pub enum WindowKind {
    Session,
    Daily,
    Weekly,
    Monthly,
    Billing,
}

/// What a window counts.
#[derive(Clone, Copy, Debug, PartialEq, Eq, Structural)]
pub enum WindowMetric {
    Quota,
    Credits,
    Spend,
}

impl SourceHealth {
    pub open spec fn name(self) -> Seq<char> {
        match self {
            SourceHealth::Connected => "connected"@,
            SourceHealth::Stale => "stale"@,
            SourceHealth::Unauthorized => "unauthorized"@,
            SourceHealth::Unavailable => "unavailable"@,
            SourceHealth::Error => "error"@,
        }
    }

    pub fn label(self) -> (out: &'static str)
        ensures
            out@ == self.name(),
    {
        match self {
            SourceHealth::Connected => "connected",
            SourceHealth::Stale => "stale",
            SourceHealth::Unauthorized => "unauthorized",
            SourceHealth::Unavailable => "unavailable",
            SourceHealth::Error => "error",
        }
    }
}

impl Availability {
    pub open spec fn name(self) -> Seq<char> {
        match self {
            Availability::Available => "connected"@,
            Availability::Exhausted => "exhausted"@,
            Availability::AgentBlocked => "blocked"@,
            Availability::Unknown => "unknown"@,
        }
    }

    /// Every state but `Available` is shown dimmed.
    pub fn dimmed(self) -> (yes: bool)
        ensures
            yes == !(self is Available),
    {
        !matches!(self, Availability::Available)
    }

    pub open spec fn sign(self) -> char {
        match self {
            Availability::Available => '●',
            Availability::Exhausted => '✕',
            Availability::AgentBlocked => '▲',
            Availability::Unknown => '·',
        }
    }

    pub fn marker(self) -> (out: char)
        ensures
            out == self.sign(),
    {
        match self {
            Availability::Available => '●',
            Availability::Exhausted => '✕',
            Availability::AgentBlocked => '▲',
            Availability::Unknown => '·',
        }
    }

    pub fn label(self) -> (out: &'static str)
        ensures
            out@ == self.name(),
    {
        match self {
            Availability::Available => "connected",
            Availability::Exhausted => "exhausted",
            Availability::AgentBlocked => "blocked",
            Availability::Unknown => "unknown",
        }
    }
}

impl WindowKind {
    /// A window that lasts longer than one session.
    pub open spec fn lasts(self) -> bool {
        !(self is Session)
    }

    pub fn durable(self) -> (yes: bool)
        ensures
            yes == self.lasts(),
    {
        !matches!(self, WindowKind::Session)
    }
}

impl WindowMetric {
    pub open spec fn credit(self) -> bool {
        self is Credits || self is Spend
    }

    pub fn is_credit(self) -> (yes: bool)
        ensures
            yes == self.credit(),
    {
        matches!(self, WindowMetric::Credits | WindowMetric::Spend)
    }
}

/// One allowance of a provider and what is left of it.
#[derive(Debug)]
pub struct LimitWindow {
    pub label: String,
    pub kind: WindowKind,
    pub metric: WindowMetric,
    pub remaining_percent: Option<Quantity>,
    pub remaining_amount: Option<Quantity>,
    pub currency: Option<String>,
    pub resets_at_ms: Option<i64>,
    pub reset_text: Option<String>,
    pub estimated: bool,
}

/// What a `LimitWindow` says.
pub struct WindowView {
    pub label: Seq<char>,
    pub kind: WindowKind,
    pub metric: WindowMetric,
    pub remaining_percent: Option<Quantity>,
    pub remaining_amount: Option<Quantity>,
    pub currency: Option<Seq<char>>,
    pub resets_at_ms: Option<i64>,
    pub reset_text: Option<Seq<char>>,
    pub estimated: bool,
}

impl View for LimitWindow {
    type V = WindowView;

    open spec fn view(&self) -> WindowView {
        WindowView {
            label: self.label@,
            kind: self.kind,
            metric: self.metric,
            remaining_percent: self.remaining_percent,
            remaining_amount: self.remaining_amount,
            currency: maybe_text(self.currency),
            resets_at_ms: self.resets_at_ms,
            reset_text: maybe_text(self.reset_text),
            estimated: self.estimated,
        }
    }
}

impl Clone for LimitWindow {
    fn clone(&self) -> (out: LimitWindow)
        ensures
            out == *self,
            out@ == self@,
    {
        LimitWindow {
            label: self.label.clone(),
            kind: self.kind,
            metric: self.metric,
            remaining_percent: self.remaining_percent,
            remaining_amount: self.remaining_amount,
            currency: copy_maybe(&self.currency),
            resets_at_ms: self.resets_at_ms,
            reset_text: copy_maybe(&self.reset_text),
            estimated: self.estimated,
        }
    }
}

impl WindowView {
    /// A credit window is used up when nothing is left of its amount; a quota
    /// window when its percentage, shown to one decimal, is at most 0.1. The
    /// percentages shown so are those below 0.15.
    pub open spec fn used_up(self) -> bool {
        ||| self.metric.credit() && self.remaining_amount is Some
            && self.remaining_amount->0.at_most(Quantity { bits: ZERO })
        ||| !self.metric.credit() && self.remaining_percent is Some
            && self.remaining_percent->0.below(Quantity { bits: FIFTEEN_HUNDREDTHS })
    }

    /// Something is left that a request could spend.
    pub open spec fn can_spend(self) -> bool {
        &&& !self.used_up()
        &&& {
            ||| self.remaining_percent is Some && Quantity { bits: TENTH }.below(
                self.remaining_percent->0,
            )
            ||| self.metric.credit() && self.remaining_amount is Some && Quantity {
                bits: ZERO,
            }.below(self.remaining_amount->0)
        }
    }

    /// Windows that outlast a session, or that hold money.
    pub open spec fn lasting(self) -> bool {
        self.kind.lasts() || self.metric.credit()
    }

    /// The moment by which what is left should be used. A lasting window is
    /// never due before now; a used-up session window is due now.
    pub open spec fn deadline(self, now_ms: i64) -> Option<i64> {
        if self.lasting() {
            match self.resets_at_ms {
                Some(at) => Some(if at < now_ms { now_ms } else { at }),
                None => None,
            }
        } else if self.used_up() {
            Some(now_ms)
        } else {
            self.resets_at_ms
        }
    }
}

impl LimitWindow {
    pub fn effectively_exhausted(&self) -> (yes: bool)
        ensures
            yes == self@.used_up(),
    {
        if self.metric.is_credit() {
            match self.remaining_amount {
                Some(amount) => amount.is_at_most(Quantity { bits: ZERO }),
                None => false,
            }
        } else {
            match self.remaining_percent {
                Some(percent) => percent.is_below(Quantity { bits: FIFTEEN_HUNDREDTHS }),
                None => false,
            }
        }
    }

    pub fn spendable(&self) -> (yes: bool)
        ensures
            yes == self@.can_spend(),
    {
        if self.effectively_exhausted() {
            return false;
        }
        let percent_left = match self.remaining_percent {
            Some(percent) => (Quantity { bits: TENTH }).is_below(percent),
            None => false,
        };
        let amount_left = match self.remaining_amount {
            Some(amount) => self.metric.is_credit() && (Quantity { bits: ZERO }).is_below(amount),
            None => false,
        };
        percent_left || amount_left
    }

    pub fn deadline_ms(&self, now_ms: i64) -> (out: Option<i64>)
        ensures
            out == self@.deadline(now_ms),
    {
        if self.kind.durable() || self.metric.is_credit() {
            return match self.resets_at_ms {
                Some(at) => Some(
                    if at < now_ms {
                        now_ms
                    } else {
                        at
                    },
                ),
                None => None,
            };
        }
        if self.effectively_exhausted() {
            return Some(now_ms);
        }
        self.resets_at_ms
    }
}

/// One account of a provider as its last refresh left it.
#[derive(Debug)]
pub struct ProviderSnapshot {
    pub provider_id: String,
    pub account_key: String,
    pub account_label: String,
    pub plan: String,
    pub source: String,
    pub collected_at_ms: i64,
    pub source_health: SourceHealth,
    pub availability: Availability,
    pub windows: Vec<LimitWindow>,
    pub diagnostics: Vec<String>,
    pub hue: u8,
}

/// What a `ProviderSnapshot` says.
pub struct ProviderView {
    pub provider_id: Seq<char>,
    pub account_key: Seq<char>,
    pub account_label: Seq<char>,
    pub plan: Seq<char>,
    pub source: Seq<char>,
    pub collected_at_ms: i64,
    pub source_health: SourceHealth,
    pub availability: Availability,
    pub windows: Seq<WindowView>,
    pub diagnostics: Seq<Seq<char>>,
    pub hue: u8,
}

/// What a run of windows says.
pub open spec fn window_views(windows: Seq<LimitWindow>) -> Seq<WindowView> {
    windows.map_values(|window: LimitWindow| window@)
}

/// What a run of rows says.
pub open spec fn provider_views(rows: Seq<ProviderSnapshot>) -> Seq<ProviderView> {
    rows.map_values(|row: ProviderSnapshot| row@)
}

impl View for ProviderSnapshot {
    type V = ProviderView;

    open spec fn view(&self) -> ProviderView {
        ProviderView {
            provider_id: self.provider_id@,
            account_key: self.account_key@,
            account_label: self.account_label@,
            plan: self.plan@,
            source: self.source@,
            collected_at_ms: self.collected_at_ms,
            source_health: self.source_health,
            availability: self.availability,
            windows: window_views(self.windows@),
            diagnostics: texts(self.diagnostics@),
            hue: self.hue,
        }
    }
}

pub fn copy_windows(windows: &Vec<LimitWindow>) -> (out: Vec<LimitWindow>)
    ensures
        out@ == windows@,
{
    let mut out: Vec<LimitWindow> = Vec::new();
    let mut i: usize = 0;
    while i < windows.len()
        invariant
            i <= windows@.len(),
            out@ == windows@.take(i as int),
        decreases windows@.len() - i,
    {
        out.push(windows[i].clone());
        i = i + 1;
    }
    out
}

impl Clone for ProviderSnapshot {
    fn clone(&self) -> (out: ProviderSnapshot)
        ensures
            out@ == self@,
    {
        ProviderSnapshot {
            provider_id: self.provider_id.clone(),
            account_key: self.account_key.clone(),
            account_label: self.account_label.clone(),
            plan: self.plan.clone(),
            source: self.source.clone(),
            collected_at_ms: self.collected_at_ms,
            source_health: self.source_health,
            availability: self.availability,
            windows: copy_windows(&self.windows),
            diagnostics: copy_texts(&self.diagnostics),
            hue: self.hue,
        }
    }
}

/// The windows that a deadline is looked for among.
#[derive(Clone, Copy, Debug, PartialEq, Eq, Structural)]
pub enum Lane {
    Lasting,
    Spendable,
    SpendableLasting,
    Every,
}

impl Lane {
    pub open spec fn holds(self, window: WindowView) -> bool {
        match self {
            Lane::Lasting => window.lasting(),
            Lane::Spendable => window.can_spend(),
            Lane::SpendableLasting => window.can_spend() && window.lasting(),
            Lane::Every => true,
        }
    }
}

/// The earlier of two moments that may be missing.
pub open spec fn earlier(left: Option<i64>, right: Option<i64>) -> Option<i64> {
    match (left, right) {
        (Some(a), Some(b)) => Some(if b < a { b } else { a }),
        (Some(a), None) => Some(a),
        (None, right) => right,
    }
}

/// The earliest deadline among the windows of a lane.
pub open spec fn lane_deadline(windows: Seq<WindowView>, lane: Lane, now_ms: i64) -> Option<i64>
    decreases windows.len(),
{
    if windows.len() == 0 {
        None
    } else {
        let rest = lane_deadline(windows.drop_last(), lane, now_ms);
        if lane.holds(windows.last()) {
            earlier(rest, windows.last().deadline(now_ms))
        } else {
            rest
        }
    }
}

/// The lowest percentage that any of the windows states.
pub open spec fn lowest_percent(windows: Seq<WindowView>) -> Option<Quantity>
    decreases windows.len(),
{
    if windows.len() == 0 {
        None
    } else {
        match (lowest_percent(windows.drop_last()), windows.last().remaining_percent) {
            (Some(least), Some(percent)) => Some(least.smaller(percent)),
            (None, percent) => percent,
            (least, None) => least,
        }
    }
}

impl ProviderView {
    pub open spec fn holds_credit(self) -> bool {
        exists|i: int| 0 <= i < self.windows.len() && (#[trigger] self.windows[i]).metric.credit()
    }

    /// Marked exhausted, or with a lasting window that is used up.
    pub open spec fn exhausted(self) -> bool {
        ||| self.availability is Exhausted
        ||| exists|i: int|
            0 <= i < self.windows.len() && (#[trigger] self.windows[i]).lasting()
                && self.windows[i].used_up()
    }

    /// For an exhausted row the first moment at which a lasting window comes
    /// back (any window where none does); else the first moment by which
    /// something spendable is lost.
    pub open spec fn deadline(self, now_ms: i64) -> Option<i64> {
        if self.exhausted() {
            match lane_deadline(self.windows, Lane::Lasting, now_ms) {
                Some(at) => Some(at),
                None => lane_deadline(self.windows, Lane::Every, now_ms),
            }
        } else {
            lane_deadline(self.windows, Lane::Spendable, now_ms)
        }
    }

    /// The part of the deadline that lasting windows set: none where only
    /// sessions set it.
    pub open spec fn lasting_deadline(self, now_ms: i64) -> Option<i64> {
        if self.exhausted() {
            lane_deadline(self.windows, Lane::Lasting, now_ms)
        } else {
            lane_deadline(self.windows, Lane::SpendableLasting, now_ms)
        }
    }

    /// A wallet that is topped up rather than a subscription.
    pub open spec fn pay_as_you_go(self) -> bool {
        let id = lower(self.provider_id);
        id == "deepseek"@ || id == "openrouter"@ || id == "vast"@ || id == "vastai"@ || contains(
            lower(self.plan),
            "pay-as-you-go"@,
        )
    }

    /// The diagnostics say that nothing was ever set up for this row.
    pub open spec fn never_configured(self) -> bool {
        let said = lower(join(self.diagnostics, " "@));
        ||| contains(said, "not configured"@)
        ||| contains(said, "credentials not found"@)
        ||| contains(said, "session credentials not found"@)
        ||| contains(said, "auth.json not found"@)
        ||| contains(said, "cookie not configured"@)
        ||| contains(said, "api key not configured"@)
        ||| contains(said, "access token not configured"@)
        ||| contains(said, "oauth credentials not found"@)
        ||| contains(said, "cli unavailable"@)
        ||| contains(said, "no modal profile"@)
        ||| contains(said, "no coding plan"@)
        ||| contains(said, "不存在coding plan"@)
    }

    /// A row that was set up and that has something to show or to explain.
    pub open spec fn shown_by_default(self) -> bool {
        &&& !self.never_configured()
        &&& {
            ||| self.windows.len() > 0
            ||| trim(self.account_key).len() > 0
            ||| self.source_health is Unauthorized
            ||| self.source_health is Connected
        }
    }

    /// The percentage that the burn-first order goes by.
    pub open spec fn burn_percent(self) -> Quantity {
        match lowest_percent(self.windows) {
            Some(percent) => percent,
            None => Quantity { bits: HUNDRED_AND_ONE },
        }
    }

    /// The percentage is a number, so that any two rows can be compared.
    pub open spec fn comparable(self) -> bool {
        !self.burn_percent().nan()
    }
}

impl ProviderSnapshot {
    pub fn has_credits(&self) -> (yes: bool)
        ensures
            yes == self@.holds_credit(),
    {
        let mut i: usize = 0;
        while i < self.windows.len()
            invariant
                i <= self.windows@.len(),
                forall|k: int| 0 <= k < i ==> !(#[trigger] self@.windows[k]).metric.credit(),
            decreases self.windows@.len() - i,
        {
            assert(self@.windows[i as int] == self.windows@[i as int]@);
            if self.windows[i].metric.is_credit() {
                return true;
            }
            i = i + 1;
        }
        false
    }

    pub fn lowest_remaining_percent(&self) -> (out: Option<Quantity>)
        ensures
            out == lowest_percent(self@.windows),
    {
        let mut least: Option<Quantity> = None;
        let mut i: usize = 0;
        while i < self.windows.len()
            invariant
                i <= self.windows@.len(),
                least == lowest_percent(self@.windows.take(i as int)),
            decreases self.windows@.len() - i,
        {
            proof {
                let next = self@.windows.take(i + 1);
                assert(next.drop_last() =~= self@.windows.take(i as int));
                assert(next.last() == self.windows@[i as int]@);
            }
            least =
            match (least, self.windows[i].remaining_percent) {
                (Some(a), Some(b)) => Some(a.min(b)),
                (None, percent) => percent,
                (kept, None) => kept,
            };
            i = i + 1;
        }
        assert(self@.windows.take(i as int) =~= self@.windows);
        least
    }

    pub fn is_exhausted(&self) -> (yes: bool)
        ensures
            yes == self@.exhausted(),
    {
        if self.availability == Availability::Exhausted {
            return true;
        }
        let mut i: usize = 0;
        while i < self.windows.len()
            invariant
                i <= self.windows@.len(),
                !(self@.availability is Exhausted),
                forall|k: int|
                    0 <= k < i ==> !((#[trigger] self@.windows[k]).lasting()
                        && self@.windows[k].used_up()),
            decreases self.windows@.len() - i,
        {
            assert(self@.windows[i as int] == self.windows@[i as int]@);
            let window = &self.windows[i];
            if (window.kind.durable() || window.metric.is_credit())
                && window.effectively_exhausted() {
                return true;
            }
            i = i + 1;
        }
        false
    }

    fn deadline_in(&self, lane: Lane, now_ms: i64) -> (out: Option<i64>)
        ensures
            out == lane_deadline(self@.windows, lane, now_ms),
    {
        let mut first: Option<i64> = None;
        let mut i: usize = 0;
        while i < self.windows.len()
            invariant
                i <= self.windows@.len(),
                first == lane_deadline(self@.windows.take(i as int), lane, now_ms),
            decreases self.windows@.len() - i,
        {
            proof {
                let next = self@.windows.take(i + 1);
                assert(next.drop_last() =~= self@.windows.take(i as int));
                assert(next.last() == self.windows@[i as int]@);
            }
            let window = &self.windows[i];
            let held = match lane {
                Lane::Lasting => window.kind.durable() || window.metric.is_credit(),
                Lane::Spendable => window.spendable(),
                Lane::SpendableLasting => window.spendable() && (window.kind.durable()
                    || window.metric.is_credit()),
                Lane::Every => true,
            };
            if held {
                first =
                match (first, window.deadline_ms(now_ms)) {
                    (Some(a), Some(b)) => Some(
                        if b < a {
                            b
                        } else {
                            a
                        },
                    ),
                    (Some(a), None) => Some(a),
                    (None, at) => at,
                };
            }
            i = i + 1;
        }
        assert(self@.windows.take(i as int) =~= self@.windows);
        first
    }

    pub fn earliest_deadline_ms(&self, now_ms: i64) -> (out: Option<i64>)
        ensures
            out == self@.deadline(now_ms),
    {
        if self.is_exhausted() {
            match self.deadline_in(Lane::Lasting, now_ms) {
                Some(at) => Some(at),
                None => self.deadline_in(Lane::Every, now_ms),
            }
        } else {
            self.deadline_in(Lane::Spendable, now_ms)
        }
    }

    fn lasting_deadline_ms(&self, now_ms: i64) -> (out: Option<i64>)
        ensures
            out == self@.lasting_deadline(now_ms),
    {
        if self.is_exhausted() {
            self.deadline_in(Lane::Lasting, now_ms)
        } else {
            self.deadline_in(Lane::SpendableLasting, now_ms)
        }
    }

    pub fn payg(&self) -> (yes: bool)
        ensures
            yes == self@.pay_as_you_go(),
    {
        let id = to_lower(self.provider_id.as_str());
        same(id.as_str(), "deepseek") || same(id.as_str(), "openrouter") || same(
            id.as_str(),
            "vast",
        ) || same(id.as_str(), "vastai") || has_text(
            to_lower(self.plan.as_str()).as_str(),
            "pay-as-you-go",
        )
    }

    pub fn visible_by_default(&self) -> (yes: bool)
        ensures
            yes == self@.shown_by_default(),
    {
        let all = join_texts(&self.diagnostics, " ");
        let said = to_lower(all.as_str());
        let said = said.as_str();
        if has_text(said, "not configured") || has_text(said, "credentials not found")
            || has_text(said, "session credentials not found") || has_text(
            said,
            "auth.json not found",
        ) || has_text(said, "cookie not configured") || has_text(said, "api key not configured")
            || has_text(said, "access token not configured") || has_text(
            said,
            "oauth credentials not found",
        ) || has_text(said, "cli unavailable") || has_text(said, "no modal profile") || has_text(
            said,
            "no coding plan",
        ) || has_text(said, "不存在coding plan") {
            return false;
        }
        let key = trimmed(self.account_key.as_str());
        self.windows.len() > 0 || !key.as_str().is_empty() || self.source_health
            == SourceHealth::Unauthorized || self.source_health == SourceHealth::Connected
    }
}

/// The first of two moments comes before the second; any moment comes before
/// none.
pub open spec fn sooner(left: Option<i64>, right: Option<i64>) -> bool {
    match (left, right) {
        (Some(a), Some(b)) => a < b,
        (Some(_), None) => true,
        (None, _) => false,
    }
}

fn is_sooner(left: Option<i64>, right: Option<i64>) -> (yes: bool)
    ensures
        yes == sooner(left, right),
{
    match (left, right) {
        (Some(a), Some(b)) => a < b,
        (Some(_), None) => true,
        (None, _) => false,
    }
}

/// The burn-first order: subscriptions before wallets, usable rows before
/// exhausted ones, then the earliest deadline of a lasting window, which
/// outranks the resets of sessions, then the earliest deadline of all, then the
/// lowest percentage, then the account's name. Rows without a deadline come
/// behind those with one.
pub open spec fn burns_before(left: ProviderView, right: ProviderView, now_ms: i64) -> bool {
    if left.pay_as_you_go() != right.pay_as_you_go() {
        right.pay_as_you_go()
    } else if left.exhausted() != right.exhausted() {
        right.exhausted()
    } else if left.lasting_deadline(now_ms) != right.lasting_deadline(now_ms) {
        sooner(left.lasting_deadline(now_ms), right.lasting_deadline(now_ms))
    } else if left.deadline(now_ms) != right.deadline(now_ms) {
        sooner(left.deadline(now_ms), right.deadline(now_ms))
    } else if left.burn_percent().below(right.burn_percent()) {
        true
    } else if right.burn_percent().below(left.burn_percent()) {
        false
    } else {
        precedes(left.account_label, right.account_label)
    }
}

pub fn burns_first(left: &ProviderSnapshot, right: &ProviderSnapshot, now_ms: i64) -> (yes: bool)
    ensures
        yes == burns_before(left@, right@, now_ms),
{
    let left_payg = left.payg();
    let right_payg = right.payg();
    if left_payg != right_payg {
        return right_payg;
    }
    let left_exhausted = left.is_exhausted();
    let right_exhausted = right.is_exhausted();
    if left_exhausted != right_exhausted {
        return right_exhausted;
    }
    let left_lasting = left.lasting_deadline_ms(now_ms);
    let right_lasting = right.lasting_deadline_ms(now_ms);
    if is_sooner(left_lasting, right_lasting) {
        return true;
    }
    if is_sooner(right_lasting, left_lasting) {
        return false;
    }
    let left_deadline = left.earliest_deadline_ms(now_ms);
    let right_deadline = right.earliest_deadline_ms(now_ms);
    if is_sooner(left_deadline, right_deadline) {
        return true;
    }
    if is_sooner(right_deadline, left_deadline) {
        return false;
    }
    let left_percent = left.lowest_remaining_percent().unwrap_or(Quantity { bits: HUNDRED_AND_ONE });
    let right_percent = right.lowest_remaining_percent().unwrap_or(
        Quantity { bits: HUNDRED_AND_ONE },
    );
    if left_percent.is_below(right_percent) {
        return true;
    }
    if right_percent.is_below(left_percent) {
        return false;
    }
    comes_before(left.account_label.as_str(), right.account_label.as_str())
}

/// A deadline that a lasting window sets outranks the reset of a session, even
/// one that comes sooner.
pub proof fn law_lasting_deadlines_outrank_sessions(
    left: ProviderView,
    right: ProviderView,
    now_ms: i64,
)
    requires
        left.pay_as_you_go() == right.pay_as_you_go(),
        left.exhausted() == right.exhausted(),
        left.lasting_deadline(now_ms) is Some,
        right.lasting_deadline(now_ms) is None,
    ensures
        burns_before(left, right, now_ms),
        !burns_before(right, left, now_ms),
{
}

/// The rows in burn-first order, ties as they stood.
pub open spec fn burn_sorted(rows: Seq<ProviderView>, now_ms: i64) -> Seq<ProviderView> {
    sorted(rows, |a: ProviderView, b: ProviderView| burns_before(a, b, now_ms))
}

/// Sorts rows burn-first.
pub fn sort_burn_first(providers: &mut Vec<ProviderSnapshot>, now_ms: i64)
    ensures
        provider_views(final(providers)@) == burn_sorted(provider_views(old(providers)@), now_ms),
{
    let ghost start = providers@;
    let ghost before = |a: ProviderSnapshot, b: ProviderSnapshot| burns_before(a@, b@, now_ms);
    let less = |a: &ProviderSnapshot, b: &ProviderSnapshot| -> (yes: bool)
        ensures
            yes == burns_before(a@, b@, now_ms),
        { burns_first(a, b, now_ms) };
    sort_by(providers, less, Ghost(before));
    proof {
        lemma_sorted_map(
            start,
            before,
            |row: ProviderSnapshot| row@,
            |a: ProviderView, b: ProviderView| burns_before(a, b, now_ms),
        );
    }
}

/// Sorting burn-first keeps every row, and only the rows there were.
pub proof fn law_burn_order_keeps_rows(rows: Seq<ProviderView>, now_ms: i64)
    ensures
        burn_sorted(rows, now_ms).to_multiset() == rows.to_multiset(),
        burn_sorted(rows, now_ms).len() == rows.len(),
{
    lemma_sorted_keeps_items(
        rows,
        |a: ProviderView, b: ProviderView| burns_before(a, b, now_ms),
    );
}

/// The burn-first order with every bit pattern of a percentage in one line.
spec fn burns_before_by_rank(left: ProviderView, right: ProviderView, now_ms: i64) -> bool {
    if left.pay_as_you_go() != right.pay_as_you_go() {
        right.pay_as_you_go()
    } else if left.exhausted() != right.exhausted() {
        right.exhausted()
    } else if left.lasting_deadline(now_ms) != right.lasting_deadline(now_ms) {
        sooner(left.lasting_deadline(now_ms), right.lasting_deadline(now_ms))
    } else if left.deadline(now_ms) != right.deadline(now_ms) {
        sooner(left.deadline(now_ms), right.deadline(now_ms))
    } else if left.burn_percent().rank() != right.burn_percent().rank() {
        left.burn_percent().rank() < right.burn_percent().rank()
    } else {
        precedes(left.account_label, right.account_label)
    }
}

proof fn lemma_rank_order(now_ms: i64)
    ensures
        orders(|a: ProviderView, b: ProviderView| burns_before_by_rank(a, b, now_ms)),
{
    let before = |a: ProviderView, b: ProviderView| burns_before_by_rank(a, b, now_ms);
    assert forall|a: ProviderView, b: ProviderView| #[trigger] before(a, b) implies !before(b, a) by {
        lemma_precedes_total(a.account_label, b.account_label);
    }
    assert forall|a: ProviderView, b: ProviderView, c: ProviderView|
        #![trigger before(a, b), before(b, c)]
        before(a, b) && before(b, c) implies before(a, c) by {
        if precedes(a.account_label, b.account_label) && precedes(b.account_label, c.account_label) {
            lemma_precedes_transitive(a.account_label, b.account_label, c.account_label);
        }
    }
    assert forall|a: ProviderView, b: ProviderView, c: ProviderView|
        #![trigger before(a, b), before(b, c)]
        !before(a, b) && !before(b, c) implies !before(a, c) by {
        lemma_precedes_total(a.account_label, b.account_label);
        lemma_precedes_total(b.account_label, c.account_label);
        if precedes(c.account_label, b.account_label) && precedes(b.account_label, a.account_label) {
            lemma_precedes_transitive(c.account_label, b.account_label, a.account_label);
        }
        lemma_precedes_total(a.account_label, c.account_label);
    }
}

/// After sorting, no row burns before one that stands ahead of it, as long as
/// every percentage is a number.
pub proof fn law_burn_order_sorts(rows: Seq<ProviderView>, now_ms: i64)
    requires
        forall|i: int| 0 <= i < rows.len() ==> (#[trigger] rows[i]).comparable(),
    ensures
        forall|i: int, j: int|
            0 <= i < j < rows.len() ==> !burns_before(
                #[trigger] burn_sorted(rows, now_ms)[j],
                #[trigger] burn_sorted(rows, now_ms)[i],
                now_ms,
            ),
{
    let before = |a: ProviderView, b: ProviderView| burns_before(a, b, now_ms);
    let ranked = |a: ProviderView, b: ProviderView| burns_before_by_rank(a, b, now_ms);
    lemma_rank_order(now_ms);
    lemma_sorted_same(rows, before, ranked);
    lemma_sorted_in_order(rows, ranked);
    lemma_sorted_contains(rows, before);
    let out = burn_sorted(rows, now_ms);
    assert forall|i: int, j: int| 0 <= i < j < rows.len() implies !burns_before(
        #[trigger] out[j],
        #[trigger] out[i],
        now_ms,
    ) by {
        assert(rows.contains(out[i]) && rows.contains(out[j]));
        assert(!ranked(out[j], out[i]));
    }
}

/// Wallets stand below every subscription, and among the subscriptions (as
/// among the wallets) exhausted rows stand below usable ones.
pub proof fn law_wallets_and_exhausted_rows_sink(rows: Seq<ProviderView>, now_ms: i64, i: int, j: int)
    requires
        forall|k: int| 0 <= k < rows.len() ==> (#[trigger] rows[k]).comparable(),
        0 <= i < j < rows.len(),
    ensures
        burn_sorted(rows, now_ms)[i].pay_as_you_go() ==> burn_sorted(rows, now_ms)[j].pay_as_you_go(),
        burn_sorted(rows, now_ms)[i].pay_as_you_go() == burn_sorted(rows, now_ms)[j].pay_as_you_go()
            && burn_sorted(rows, now_ms)[i].exhausted() ==> burn_sorted(rows, now_ms)[j].exhausted(),
{
    law_burn_order_sorts(rows, now_ms);
    let out = burn_sorted(rows, now_ms);
    assert(!burns_before(out[j], out[i], now_ms));
}

/// Rows of which none burns before another keep the order they stood in.
pub proof fn law_burn_order_is_stable(
    rows: Seq<ProviderView>,
    now_ms: i64,
    class: spec_fn(ProviderView) -> bool,
)
    requires
        forall|a: ProviderView, b: ProviderView|
            class(a) && class(b) ==> !#[trigger] burns_before(a, b, now_ms),
    ensures
        burn_sorted(rows, now_ms).filter(class) == rows.filter(class),
{
    lemma_sorted_stable(
        rows,
        |a: ProviderView, b: ProviderView| burns_before(a, b, now_ms),
        class,
    );
}

/// A used-up window is never spendable, and a lasting one is never due before
/// now.
pub proof fn law_window_state(window: WindowView, now_ms: i64)
    ensures
        window.used_up() ==> !window.can_spend(),
        window.lasting() && window.deadline(now_ms) is Some ==> window.deadline(now_ms)->0 >= now_ms,
{
}

/// A row of the last good refresh that stands in for a failed one.
pub open spec fn stands_in(candidate: ProviderView, row: ProviderView) -> bool {
    &&& candidate.provider_id == row.provider_id
    &&& row.account_key.len() == 0 || candidate.account_key == row.account_key
    &&& candidate.windows.len() > 0
}

/// What is kept of the last good row where a refresh brought nothing.
pub open spec fn kept_row(good: ProviderView, row: ProviderView) -> ProviderView {
    ProviderView {
        source_health: SourceHealth::Stale,
        diagnostics: if row.diagnostics.len() > 0 {
            row.diagnostics
        } else {
            seq![row.source_health.name() + " refresh returned no quota data"@]
        },
        ..good
    }
}

/// The row that a refresh leaves: the fresh one where it is connected or has
/// windows or nothing can stand in for it, else the last good one, marked
/// stale.
pub open spec fn merged_row(previous: Seq<ProviderView>, row: ProviderView) -> ProviderView {
    if row.windows.len() > 0 || row.source_health is Connected {
        row
    } else {
        match first_where(previous, |candidate: ProviderView| stands_in(candidate, row), 0) {
            Some(at) => kept_row(previous[at], row),
            None => row,
        }
    }
}

pub open spec fn merged_rows(previous: Seq<ProviderView>, fresh: Seq<ProviderView>) -> Seq<
    ProviderView,
> {
    fresh.map_values(|row: ProviderView| merged_row(previous, row))
}

fn find_stand_in(previous: &[ProviderSnapshot], row: &ProviderSnapshot) -> (out: Option<usize>)
    ensures
        match out {
            Some(at) => at < previous@.len() && first_where(
                provider_views(previous@),
                |candidate: ProviderView| stands_in(candidate, row@),
                0,
            ) == Some(at as int),
            None => first_where(
                provider_views(previous@),
                |candidate: ProviderView| stands_in(candidate, row@),
                0,
            ) is None,
        },
{
    let ghost rows = provider_views(previous@);
    let ghost wanted = |candidate: ProviderView| stands_in(candidate, row@);
    let mut i: usize = 0;
    while i < previous.len()
        invariant
            i <= previous@.len(),
            rows == provider_views(previous@),
            wanted == |candidate: ProviderView| stands_in(candidate, row@),
            forall|k: int| 0 <= k < i ==> !wanted(#[trigger] rows[k]),
        decreases previous@.len() - i,
    {
        assert(rows[i as int] == previous@[i as int]@);
        let candidate = &previous[i];
        if same(candidate.provider_id.as_str(), row.provider_id.as_str()) && (
        row.account_key.as_str().is_empty() || same(
            candidate.account_key.as_str(),
            row.account_key.as_str(),
        )) && candidate.windows.len() > 0 {
            proof {
                lemma_is_first_where(rows, wanted, Some(i as int));
            }
            return Some(i);
        }
        i = i + 1;
    }
    proof {
        lemma_is_first_where(rows, wanted, None);
    }
    None
}

fn merge_row(previous: &[ProviderSnapshot], row: ProviderSnapshot) -> (out: ProviderSnapshot)
    ensures
        out@ == merged_row(provider_views(previous@), row@),
{
    if row.windows.len() > 0 || row.source_health == SourceHealth::Connected {
        return row;
    }
    match find_stand_in(previous, &row) {
        Some(at) => {
            let mut kept = previous[at].clone();
            let health = row.source_health;
            kept.source_health = SourceHealth::Stale;
            kept.diagnostics = row.diagnostics;
            if kept.diagnostics.len() == 0 {
                let mut said = health.label().to_owned();
                said.append(" refresh returned no quota data");
                kept.diagnostics.push(said);
                assert(texts(kept.diagnostics@) =~= seq![said@]);
            }
            kept
        },
        None => row,
    }
}

/// Merges a refresh over the last good rows. A refresh that brought nothing
/// for a row does not erase what was known of it.
pub fn merge_provider_snapshots(
    previous: &[ProviderSnapshot],
    fresh: Vec<ProviderSnapshot>,
) -> (out: Vec<ProviderSnapshot>)
    ensures
        provider_views(out@) == merged_rows(provider_views(previous@), provider_views(fresh@)),
{
    let ghost start = fresh@;
    let mut out: Vec<ProviderSnapshot> = Vec::new();
    for row in it: fresh
        invariant
            it.seq() == start,
            provider_views(out@) == merged_rows(
                provider_views(previous@),
                provider_views(start).take(it.index() as int),
            ),
    {
        let ghost before = out@;
        let ghost row_view = row@;
        let merged = merge_row(previous, row);
        out.push(merged);
        proof {
            let n = it.index() as int;
            assert(provider_views(out@) =~= provider_views(before).push(merged@));
            assert(provider_views(start).take(n + 1) =~= provider_views(start).take(n).push(row_view));
            assert(merged_rows(provider_views(previous@), provider_views(start).take(n + 1))
                =~= merged_rows(provider_views(previous@), provider_views(start).take(n)).push(merged@));
        }
    }
    assert(provider_views(start).take(start.len() as int) =~= provider_views(start));
    out
}

/// A fresh row that is connected or has windows always wins.
pub proof fn law_fresh_row_wins(previous: Seq<ProviderView>, fresh: Seq<ProviderView>, i: int)
    requires
        0 <= i < fresh.len(),
        fresh[i].windows.len() > 0 || fresh[i].source_health is Connected,
    ensures
        merged_rows(previous, fresh)[i] == fresh[i],
{
}

/// Merging keeps one row per fresh row, each of the same provider.
pub proof fn law_merge_keeps_providers(previous: Seq<ProviderView>, fresh: Seq<ProviderView>)
    ensures
        merged_rows(previous, fresh).len() == fresh.len(),
        forall|i: int|
            0 <= i < fresh.len() ==> (#[trigger] merged_rows(previous, fresh)[i]).provider_id
                == fresh[i].provider_id,
{
    assert forall|i: int| 0 <= i < fresh.len() implies (#[trigger] merged_rows(
        previous,
        fresh,
    )[i]).provider_id == fresh[i].provider_id by {
        let row = fresh[i];
        crate::sort::lemma_first_where(
            previous,
            |candidate: ProviderView| stands_in(candidate, row),
            0,
        );
    }
}

/// A refresh that failed for an account with known windows leaves those
/// windows, marked stale, with the failure's diagnostics.
pub proof fn law_failed_refresh_keeps_last_good_windows(
    previous: Seq<ProviderView>,
    row: ProviderView,
    good: ProviderView,
)
    requires
        row.windows.len() == 0,
        !(row.source_health is Connected),
        previous.contains(good),
        stands_in(good, row),
    ensures
        merged_row(previous, row).source_health is Stale,
        merged_row(previous, row).windows.len() > 0,
        row.diagnostics.len() > 0 ==> merged_row(previous, row).diagnostics == row.diagnostics,
        exists|i: int|
            0 <= i < previous.len() && stands_in(#[trigger] previous[i], row) && merged_row(
                previous,
                row,
            ).windows == previous[i].windows && merged_row(previous, row).collected_at_ms
                == previous[i].collected_at_ms,
{
    let wanted = |candidate: ProviderView| stands_in(candidate, row);
    crate::sort::lemma_first_where(previous, wanted, 0);
    let at = choose|at: int| 0 <= at < previous.len() && previous[at] == good;
    assert(wanted(previous[at]));
}

/// The deadline of a lane is no later than that of any window that the lane
/// holds, and it is the deadline of one of them; without a window that has a
/// deadline there is none.
pub proof fn law_lane_is_due_with_its_first_window(
    windows: Seq<WindowView>,
    lane: Lane,
    now_ms: i64,
)
    ensures
        forall|i: int|
            0 <= i < windows.len() && lane.holds(#[trigger] windows[i]) && windows[i].deadline(
                now_ms,
            ) is Some ==> lane_deadline(windows, lane, now_ms) is Some && lane_deadline(
                windows,
                lane,
                now_ms,
            )->0 <= windows[i].deadline(now_ms)->0,
        lane_deadline(windows, lane, now_ms) is Some ==> exists|i: int|
            0 <= i < windows.len() && lane.holds(#[trigger] windows[i]) && windows[i].deadline(
                now_ms,
            ) == lane_deadline(windows, lane, now_ms),
    decreases windows.len(),
{
    if windows.len() > 0 {
        let before = windows.drop_last();
        law_lane_is_due_with_its_first_window(before, lane, now_ms);
        assert forall|i: int|
            0 <= i < windows.len() && lane.holds(#[trigger] windows[i]) && windows[i].deadline(
                now_ms,
            ) is Some implies lane_deadline(windows, lane, now_ms) is Some && lane_deadline(
            windows,
            lane,
            now_ms,
        )->0 <= windows[i].deadline(now_ms)->0 by {
            if i < before.len() {
                assert(lane.holds(before[i]));
            }
        }
        if lane_deadline(windows, lane, now_ms) is Some {
            if lane_deadline(before, lane, now_ms) == lane_deadline(windows, lane, now_ms) {
                let i = choose|i: int|
                    0 <= i < before.len() && lane.holds(#[trigger] before[i]) && before[i].deadline(
                        now_ms,
                    ) == lane_deadline(before, lane, now_ms);
                assert(lane.holds(windows[i]));
            } else {
                assert(lane.holds(windows[windows.len() - 1]));
            }
        }
    }
}

/// A usable row is due when the first of its spendable windows is: no window
/// with something left is due earlier, and one of them is due then. A row that
/// nothing more can be spent of has no deadline.
pub proof fn law_usable_row_is_due_with_its_first_window(row: ProviderView, now_ms: i64)
    requires
        !row.exhausted(),
    ensures
        forall|i: int|
            0 <= i < row.windows.len() && (#[trigger] row.windows[i]).can_spend()
                && row.windows[i].deadline(now_ms) is Some ==> row.deadline(now_ms) is Some
                && row.deadline(now_ms)->0 <= row.windows[i].deadline(now_ms)->0,
        row.deadline(now_ms) is Some ==> exists|i: int|
            0 <= i < row.windows.len() && (#[trigger] row.windows[i]).can_spend()
                && row.windows[i].deadline(now_ms) == row.deadline(now_ms),
        forall|i: int|
            0 <= i < row.windows.len() && (#[trigger] row.windows[i]).can_spend()
                && row.windows[i].lasting() && row.windows[i].deadline(now_ms) is Some
                ==> row.lasting_deadline(now_ms) is Some && row.lasting_deadline(now_ms)->0
                <= row.windows[i].deadline(now_ms)->0,
        row.lasting_deadline(now_ms) is Some ==> exists|i: int|
            0 <= i < row.windows.len() && (#[trigger] row.windows[i]).can_spend()
                && row.windows[i].lasting() && row.windows[i].deadline(now_ms)
                == row.lasting_deadline(now_ms),
{
    law_lane_is_due_with_its_first_window(row.windows, Lane::Spendable, now_ms);
    law_lane_is_due_with_its_first_window(row.windows, Lane::SpendableLasting, now_ms);
    assert forall|i: int|
        0 <= i < row.windows.len() && (#[trigger] row.windows[i]).can_spend()
            && row.windows[i].deadline(now_ms) is Some implies row.deadline(now_ms) is Some
        && row.deadline(now_ms)->0 <= row.windows[i].deadline(now_ms)->0 by {
        assert(Lane::Spendable.holds(row.windows[i]));
    }
    assert forall|i: int|
        0 <= i < row.windows.len() && (#[trigger] row.windows[i]).can_spend()
            && row.windows[i].lasting() && row.windows[i].deadline(now_ms) is Some implies
        row.lasting_deadline(now_ms) is Some && row.lasting_deadline(now_ms)->0
        <= row.windows[i].deadline(now_ms)->0 by {
        assert(Lane::SpendableLasting.holds(row.windows[i]));
    }
}

/// An exhausted row is due when the first of its lasting windows comes back,
/// and where none of those says when, as soon as any window does.
pub proof fn law_exhausted_row_is_due_with_its_first_reset(row: ProviderView, now_ms: i64)
    requires
        row.exhausted(),
    ensures
        forall|i: int|
            0 <= i < row.windows.len() && (#[trigger] row.windows[i]).lasting()
                && row.windows[i].deadline(now_ms) is Some ==> row.deadline(now_ms) is Some
                && row.deadline(now_ms)->0 <= row.windows[i].deadline(now_ms)->0
                && row.lasting_deadline(now_ms) == row.deadline(now_ms),
        (forall|i: int|
            0 <= i < row.windows.len() && (#[trigger] row.windows[i]).lasting()
                ==> row.windows[i].deadline(now_ms) is None) ==> row.lasting_deadline(
            now_ms,
        ) is None && forall|i: int|
            0 <= i < row.windows.len() && (#[trigger] row.windows[i]).deadline(now_ms) is Some
                ==> row.deadline(now_ms) is Some && row.deadline(now_ms)->0
                <= row.windows[i].deadline(now_ms)->0,
        row.lasting_deadline(now_ms) is Some ==> exists|i: int|
            0 <= i < row.windows.len() && (#[trigger] row.windows[i]).lasting()
                && row.windows[i].deadline(now_ms) == row.lasting_deadline(now_ms),
        row.deadline(now_ms) is Some ==> exists|i: int|
            0 <= i < row.windows.len() && (#[trigger] row.windows[i]).deadline(now_ms)
                == row.deadline(now_ms),
{
    law_lane_is_due_with_its_first_window(row.windows, Lane::Lasting, now_ms);
    law_lane_is_due_with_its_first_window(row.windows, Lane::Every, now_ms);
    assert(forall|i: int|
        0 <= i < row.windows.len() ==> Lane::Every.holds(#[trigger] row.windows[i]));
}

/// Daily, weekly, monthly and billing windows, and those that hold credits or
/// count spending, last; a session's quota does not. A lasting window is due at
/// its reset, or now where that has passed; a session is due at its reset, or
/// now where it is used up.
pub proof fn law_window_deadline(window: WindowView, now_ms: i64)
    ensures
        window.lasting() <==> window.kind is Daily || window.kind is Weekly
            || window.kind is Monthly || window.kind is Billing || window.metric is Credits
            || window.metric is Spend,
        window.resets_at_ms matches Some(at) ==> window.lasting() && at >= now_ms
            ==> window.deadline(now_ms) == Some(at),
        window.resets_at_ms matches Some(at) ==> window.lasting() && at < now_ms
            ==> window.deadline(now_ms) == Some(now_ms),
        window.resets_at_ms is None && window.lasting() ==> window.deadline(now_ms) is None,
        !window.lasting() && window.used_up() ==> window.deadline(now_ms) == Some(now_ms),
        !window.lasting() && !window.used_up() ==> window.deadline(now_ms) == window.resets_at_ms,
{
}

/// Money is used up at zero or below, and can be spent above zero. A share is
/// used up below 0.15 percent, the bound below which one decimal shows 0.1, and
/// can be spent from there on. Where neither is known nothing can be spent.
pub proof fn law_window_is_used_up_or_spendable(window: WindowView)
    ensures
        window.metric is Quota ==> match window.remaining_percent {
            Some(percent) => !percent.nan() ==> {
                &&& window.used_up() <==> percent.rank() < 0x3fc3_3333_3333_3333
                &&& window.can_spend() <==> percent.rank() >= 0x3fc3_3333_3333_3333
            },
            None => !window.used_up() && !window.can_spend(),
        },
        !(window.metric is Quota) ==> match window.remaining_amount {
            Some(amount) => !amount.nan() ==> {
                &&& window.used_up() <==> amount.rank() <= 0
                &&& window.can_spend() <==> amount.rank() > 0
            },
            None => !window.used_up(),
        },
        window.remaining_percent is None && window.remaining_amount is None
            ==> !window.can_spend(),
{
}

/// The lowest percentage is no higher than any that a window states, and one
/// window states it; it is missing only where no window states a percentage.
pub proof fn law_lowest_percent_is_attained(windows: Seq<WindowView>)
    ensures
        forall|i: int|
            0 <= i < windows.len() && (#[trigger] windows[i]).remaining_percent is Some
                ==> lowest_percent(windows) is Some && (!windows[i].remaining_percent->0.nan() ==> {
                &&& !lowest_percent(windows)->0.nan()
                &&& lowest_percent(windows)->0.rank() <= windows[i].remaining_percent->0.rank()
            }),
        lowest_percent(windows) is Some ==> exists|i: int|
            0 <= i < windows.len() && (#[trigger] windows[i]).remaining_percent == lowest_percent(
                windows,
            ),
    decreases windows.len(),
{
    if windows.len() > 0 {
        let before = windows.drop_last();
        law_lowest_percent_is_attained(before);
        assert forall|i: int|
            0 <= i < windows.len() && (#[trigger] windows[i]).remaining_percent is Some implies
            lowest_percent(windows) is Some && (!windows[i].remaining_percent->0.nan() ==> {
            &&& !lowest_percent(windows)->0.nan()
            &&& lowest_percent(windows)->0.rank() <= windows[i].remaining_percent->0.rank()
        }) by {
            if i < before.len() {
                assert(before[i].remaining_percent is Some);
            }
        }
        if lowest_percent(windows) is Some {
            if lowest_percent(windows) == windows.last().remaining_percent {
                assert(windows[windows.len() - 1].remaining_percent == lowest_percent(windows));
            } else {
                let i = choose|i: int|
                    0 <= i < before.len() && (#[trigger] before[i]).remaining_percent
                        == lowest_percent(before);
                assert(windows[i].remaining_percent == lowest_percent(windows));
            }
        }
    }
}

/// Of two rows that are both subscriptions or both wallets, and both usable or
/// both exhausted: the one that is due earlier burns first, by its lasting
/// windows where they differ and by all of them where those agree; a row that
/// is due some time burns before one that never is. Of rows that are due
/// together the one with less left burns first, and of equals the one whose
/// account comes first in the alphabet.
pub proof fn law_earlier_deadline_burns_first(left: ProviderView, right: ProviderView, now_ms: i64)
    requires
        left.pay_as_you_go() == right.pay_as_you_go(),
        left.exhausted() == right.exhausted(),
    ensures
        left.lasting_deadline(now_ms) is Some && (right.lasting_deadline(now_ms) is None
            || left.lasting_deadline(now_ms)->0 < right.lasting_deadline(now_ms)->0)
            ==> burns_before(left, right, now_ms) && !burns_before(right, left, now_ms),
        left.lasting_deadline(now_ms) == right.lasting_deadline(now_ms) ==> {
            &&& left.deadline(now_ms) is Some && (right.deadline(now_ms) is None || left.deadline(
                now_ms,
            )->0 < right.deadline(now_ms)->0) ==> burns_before(left, right, now_ms)
                && !burns_before(right, left, now_ms)
            &&& left.deadline(now_ms) == right.deadline(now_ms) ==> {
                &&& left.burn_percent().below(right.burn_percent()) ==> burns_before(
                    left,
                    right,
                    now_ms,
                ) && !burns_before(right, left, now_ms)
                &&& left.burn_percent().rank() == right.burn_percent().rank() && precedes(
                    left.account_label,
                    right.account_label,
                ) ==> burns_before(left, right, now_ms) && !burns_before(right, left, now_ms)
            }
        },
{
    lemma_precedes_total(left.account_label, right.account_label);
}

/// A row that states no percentage ranks behind every percentage.
pub proof fn law_unstated_percent_ranks_last(row: ProviderView)
    ensures
        lowest_percent(row.windows) matches Some(percent) ==> row.burn_percent() == percent,
        (forall|i: int|
            0 <= i < row.windows.len() ==> (#[trigger] row.windows[i]).remaining_percent is None)
            ==> forall|percent: Quantity|
            #![trigger percent.rank()]
            percent.at_most(Quantity { bits: 0x4059_0000_0000_0000 }) ==> percent.below(
                row.burn_percent(),
            ),
{
    law_lowest_percent_is_attained(row.windows);
}

/// Of two rows the subscription burns before the wallet, whatever else they
/// say; of two subscriptions, or two wallets, the usable one burns before the
/// exhausted one.
pub proof fn law_subscriptions_burn_before_wallets(
    left: ProviderView,
    right: ProviderView,
    now_ms: i64,
)
    ensures
        !left.pay_as_you_go() && right.pay_as_you_go() ==> burns_before(left, right, now_ms)
            && !burns_before(right, left, now_ms),
        left.pay_as_you_go() == right.pay_as_you_go() && !left.exhausted() && right.exhausted()
            ==> burns_before(left, right, now_ms) && !burns_before(right, left, now_ms),
{
}

/// DeepSeek, OpenRouter and Vast are paid as they are used, in whatever case
/// their ids are written, and so is every plan that says so; a row of another
/// provider without those words in its plan is a subscription.
pub proof fn law_wallets_are_paid_as_used(row: ProviderView)
    ensures
        lower(row.provider_id) == "deepseek"@ ==> row.pay_as_you_go(),
        lower(row.provider_id) == "openrouter"@ ==> row.pay_as_you_go(),
        lower(row.provider_id) == "vast"@ ==> row.pay_as_you_go(),
        lower(row.provider_id) == "vastai"@ ==> row.pay_as_you_go(),
        contains(lower(row.plan), "pay-as-you-go"@) ==> row.pay_as_you_go(),
        row.pay_as_you_go() ==> contains(lower(row.plan), "pay-as-you-go"@) || lower(
            row.provider_id,
        ) == "deepseek"@ || lower(row.provider_id) == "openrouter"@ || lower(row.provider_id)
            == "vast"@ || lower(row.provider_id) == "vastai"@,
{
}

/// A row is exhausted where it is marked so, or where a window that lasts has
/// nothing left; a used-up session alone does not exhaust it.
pub proof fn law_sessions_do_not_exhaust_a_row(row: ProviderView, i: int)
    requires
        0 <= i < row.windows.len(),
    ensures
        row.availability is Exhausted ==> row.exhausted(),
        row.windows[i].used_up() && !(row.windows[i].kind is Session) ==> row.exhausted(),
        row.windows[i].used_up() && !(row.windows[i].metric is Quota) ==> row.exhausted(),
        !(row.availability is Exhausted) && (forall|k: int|
            0 <= k < row.windows.len() && (#[trigger] row.windows[k]).used_up()
                ==> row.windows[k].kind is Session && row.windows[k].metric is Quota)
            ==> !row.exhausted(),
{
}

/// A row that failed keeps the windows of the first earlier row of its
/// provider that has any and that is of its account, or of any account where
/// the failed row names none; all else that was known of that row stays, but
/// for its health and what is said of the failure.
pub proof fn law_failed_refresh_keeps_the_first_good_row(
    previous: Seq<ProviderView>,
    row: ProviderView,
    at: int,
)
    requires
        row.windows.len() == 0,
        !(row.source_health is Connected),
        0 <= at < previous.len(),
        previous[at].provider_id == row.provider_id,
        row.account_key.len() == 0 || previous[at].account_key == row.account_key,
        previous[at].windows.len() > 0,
        forall|k: int|
            0 <= k < at ==> (#[trigger] previous[k]).provider_id != row.provider_id || (
            row.account_key.len() > 0 && previous[k].account_key != row.account_key)
                || previous[k].windows.len() == 0,
    ensures
        merged_row(previous, row) == (ProviderView {
            source_health: SourceHealth::Stale,
            diagnostics: merged_row(previous, row).diagnostics,
            ..previous[at]
        }),
        merged_row(previous, row).diagnostics.len() > 0,
        row.diagnostics.len() > 0 ==> merged_row(previous, row).diagnostics == row.diagnostics,
        row.diagnostics.len() == 0 && row.source_health is Unauthorized ==> merged_row(
            previous,
            row,
        ).diagnostics == seq!["unauthorized"@ + " refresh returned no quota data"@],
{
    let wanted = |candidate: ProviderView| stands_in(candidate, row);
    assert(wanted(previous[at]));
    assert forall|k: int| 0 <= k < at implies !wanted(#[trigger] previous[k]) by {}
    lemma_is_first_where(previous, wanted, Some(at));
}

/// A failed row stays as it is where no earlier row can stand in for it.
pub proof fn law_unmatched_failure_stays(previous: Seq<ProviderView>, row: ProviderView)
    requires
        forall|k: int|
            0 <= k < previous.len() ==> (#[trigger] previous[k]).provider_id != row.provider_id || (
            row.account_key.len() > 0 && previous[k].account_key != row.account_key)
                || previous[k].windows.len() == 0,
    ensures
        merged_row(previous, row) == row,
{
    let wanted = |candidate: ProviderView| stands_in(candidate, row);
    assert forall|k: int| 0 <= k < previous.len() implies !wanted(#[trigger] previous[k]) by {}
    lemma_is_first_where(previous, wanted, None);
}

} // verus!
