//! Z.ai: token, credit and tool windows of a coding plan.

use vstd::prelude::*;

use crate::collectors::{answered, answered_row, ask, asked, draft_views, if_any, maybe_draft};
use crate::collectors::{missing, missing_row, no_row, nothing_for, plain_wording, push_if_any};
use crate::collectors::{reset_moment, reset_timestamp, unavailable, usual_wording, Badge};
use crate::collectors::{DraftView, Failure, FailureView, Reply, Row, RowView, WindowDraft};
use crate::formula::{given, rest_of_hundred, share_of, Formula, Power};
use crate::json::{at_either, at_key, borrowed, either, either_in, get_either, get_either_in};
use crate::json::{get_in, held_under, i64_in, items_in, lemma_held_under, list_in, measured_in};
use crate::json::{number_in, or_at, or_get, said_in, said_or, text_in, text_or, whole_in, Json};
use crate::limits::{WindowKind, WindowMetric};
use crate::quantity::{Quantity, ZERO};
use crate::secrets::{account_key, key_of, str_views, Secrets};
use crate::sort::{sort_by, sorted};
use crate::text::{contains, has_text, lower, maybe_str, maybe_text, same, to_lower, trim, trimmed};

verus! {

pub open spec fn zai_badge() -> Badge {
    Badge { provider_id: "zai", source: "api", hue: 75 }
}

pub open spec fn zai_team_badge() -> Badge {
    Badge { provider_id: "zaiteam", source: "api", hue: 75 }
}

/// The units in which a window's length is told, and what one holds, by their
/// bits.
pub const DAYS: u64 = 0x3ff0_0000_0000_0000;

pub const HOURS: u64 = 0x4008_0000_0000_0000;

pub const MINUTES: u64 = 0x4014_0000_0000_0000;

pub const WEEKS: u64 = 0x4018_0000_0000_0000;

pub const SEVEN: u64 = 0x401c_0000_0000_0000;

pub const TWENTY_FOUR: u64 = 0x4038_0000_0000_0000;

pub const SIXTY: u64 = 0x404e_0000_0000_0000;

/// The largest finite number: the length of a window of unknown length.
pub const LONGEST: u64 = 0x7fef_ffff_ffff_ffff;

pub open spec fn token_names() -> Seq<Seq<char>> {
    seq![
        "TOKEN_MONITOR_ZAI_API_KEY"@,
        "ZAI_API_KEY"@,
        "Z_AI_API_KEY"@,
        "GLM_API_KEY"@,
        "ZHIPU_API_KEY"@,
    ]
}

pub fn zai_token(secrets: &Secrets) -> (out: Option<String>)
    requires
        secrets.well_formed(),
    ensures
        maybe_text(out) == secrets.found(token_names()),
{
    let names = vec![
        "TOKEN_MONITOR_ZAI_API_KEY",
        "ZAI_API_KEY",
        "Z_AI_API_KEY",
        "GLM_API_KEY",
        "ZHIPU_API_KEY",
    ];
    assert(str_views(names@) =~= token_names());
    secrets.env_secret(&names)
}

pub open spec fn team_token_names() -> Seq<Seq<char>> {
    seq!["TOKEN_MONITOR_ZAI_TEAM_API_KEY"@, "ZAI_TEAM_API_KEY"@, "BIGMODEL_TEAM_API_KEY"@]
}

pub fn zai_team_token(secrets: &Secrets) -> (out: Option<String>)
    requires
        secrets.well_formed(),
    ensures
        maybe_text(out) == secrets.found(team_token_names()),
{
    let names = vec![
        "TOKEN_MONITOR_ZAI_TEAM_API_KEY",
        "ZAI_TEAM_API_KEY",
        "BIGMODEL_TEAM_API_KEY",
    ];
    assert(str_views(names@) =~= team_token_names());
    secrets.env_secret(&names)
}

/// The region that the settings name; the monitor's own setting counts first.
pub open spec fn in_china(own: Option<Seq<char>>, other: Option<Seq<char>>) -> bool {
    let value = lower(
        match own {
            Some(value) => value,
            None => match other {
                Some(value) => value,
                None => ""@,
            },
        },
    );
    value == "cn"@ || value == "china"@ || contains(value, "bigmodel"@)
}

/// Where Z.ai is asked.
pub fn zai_base(own: Option<&str>, other: Option<&str>) -> (out: &'static str)
    ensures
        out@ == if in_china(maybe_str(own), maybe_str(other)) {
            "https://open.bigmodel.cn"@
        } else {
            "https://api.z.ai"@
        },
{
    let value = match own {
        Some(value) => to_lower(value),
        None => match other {
            Some(value) => to_lower(value),
            None => to_lower(""),
        },
    };
    if same(value.as_str(), "cn") || same(value.as_str(), "china") || has_text(
        value.as_str(),
        "bigmodel",
    ) {
        "https://open.bigmodel.cn"
    } else {
        "https://api.z.ai"
    }
}

/// The used share of a limit: against its positive total where that is told,
/// else as the answer says.
pub open spec fn used_percent(limit: Json) -> Option<Formula> {
    let remaining = measured_in(limit.at("remaining"@));
    let current = measured_in(at_either(limit, "currentValue"@, "current_value"@));
    match measured_in(limit.at("usage"@)) {
        Some(total) => if (Quantity { bits: ZERO }).below(total) {
            let used = match remaining {
                Some(remaining) => Some(
                    Formula::Minus(
                        Box::new(Formula::Given(total)),
                        Box::new(Formula::Given(remaining)),
                    ),
                ),
                None => match current {
                    Some(current) => Some(Formula::Given(current)),
                    None => None,
                },
            };
            match used {
                Some(used) => Some(
                    Formula::share(
                        Formula::Smaller(
                            Box::new(Formula::not_below_zero(used)),
                            Box::new(Formula::Given(total)),
                        ),
                        Formula::Given(total),
                    ),
                ),
                None => None,
            }
        } else {
            told_percent(limit)
        },
        None => told_percent(limit),
    }
}

pub open spec fn told_percent(limit: Json) -> Option<Formula> {
    match measured_in(
        or_at(at_either(limit, "percentage"@, "usedPercent"@), limit, "used_percent"@),
    ) {
        Some(percent) => Some(Formula::Given(percent)),
        None => None,
    }
}

fn read_told_percent(limit: &Json) -> (out: Option<Formula>)
    ensures
        out == told_percent(*limit),
{
    match number_in(
        or_get(get_either(limit, "percentage", "usedPercent"), limit, "used_percent"),
    ) {
        Some(percent) => Some(given(percent)),
        None => None,
    }
}

pub fn zai_used_percent(limit: &Json) -> (out: Option<Formula>)
    ensures
        out == used_percent(*limit),
{
    match number_in(limit.get("usage")) {
        Some(total) => if (Quantity { bits: ZERO }).is_below(total) {
            let used = match number_in(limit.get("remaining")) {
                Some(remaining) => Formula::Minus(
                    Box::new(given(total)),
                    Box::new(given(remaining)),
                ),
                None => match number_in(get_either(limit, "currentValue", "current_value")) {
                    Some(current) => given(current),
                    None => {
                        return None;
                    },
                },
            };
            Some(
                share_of(
                    Formula::Smaller(
                        Box::new(crate::formula::not_below_zero(used)),
                        Box::new(given(total)),
                    ),
                    given(total),
                ),
            )
        } else {
            read_told_percent(limit)
        },
        None => read_told_percent(limit),
    }
}

/// The length of a window in minutes; the longest there is where its unit is
/// not known.
pub open spec fn window_minutes(limit: Json) -> Quantity {
    let unit = match measured_in(limit.at("unit"@)) {
        Some(unit) => unit,
        None => Quantity { bits: ZERO },
    };
    let amount = match measured_in(limit.at("number"@)) {
        Some(amount) => amount,
        None => Quantity { bits: ZERO },
    };
    let hour = Quantity { bits: SIXTY };
    let day = Quantity { bits: TWENTY_FOUR };
    let week = Quantity { bits: SEVEN };
    if unit.equals(Quantity { bits: MINUTES }) {
        amount
    } else if unit.equals(Quantity { bits: HOURS }) {
        amount.product(hour)
    } else if unit.equals(Quantity { bits: DAYS }) {
        amount.product(day).product(hour)
    } else if unit.equals(Quantity { bits: WEEKS }) {
        amount.product(week).product(day).product(hour)
    } else {
        Quantity { bits: LONGEST }
    }
}

pub fn zai_window_minutes(limit: &Json) -> (out: Quantity)
    ensures
        out == window_minutes(*limit),
{
    let unit = match number_in(limit.get("unit")) {
        Some(unit) => unit,
        None => Quantity { bits: ZERO },
    };
    let amount = match number_in(limit.get("number")) {
        Some(amount) => amount,
        None => Quantity { bits: ZERO },
    };
    let hour = Quantity { bits: SIXTY };
    let day = Quantity { bits: TWENTY_FOUR };
    let week = Quantity { bits: SEVEN };
    if unit.is_equal(Quantity { bits: MINUTES }) {
        amount
    } else if unit.is_equal(Quantity { bits: HOURS }) {
        amount.times(hour)
    } else if unit.is_equal(Quantity { bits: DAYS }) {
        amount.times(day).times(hour)
    } else if unit.is_equal(Quantity { bits: WEEKS }) {
        amount.times(week).times(day).times(hour)
    } else {
        Quantity { bits: LONGEST }
    }
}

/// The name of a limit, in lower case.
pub open spec fn limit_type(limit: Json) -> Seq<char> {
    lower(said_or(at_either(limit, "type"@, "limit_type"@), ""@))
}

/// A limit on tokens or credits, of known usage.
pub open spec fn limits_tokens(limit: Json) -> bool {
    (limit_type(limit) == "tokens_limit"@ || limit_type(limit) == "credit_limit"@) && used_percent(
        limit,
    ) is Some
}

/// A limit on tool calls, of known usage.
pub open spec fn limits_time(limit: Json) -> bool {
    limit_type(limit) == "time_limit"@ && used_percent(limit) is Some
}

fn is_token_limit(limit: &Json) -> (yes: bool)
    ensures
        yes == limits_tokens(*limit),
{
    let name = to_lower(text_or(get_either(limit, "type", "limit_type"), "").as_str());
    (same(name.as_str(), "tokens_limit") || same(name.as_str(), "credit_limit"))
        && zai_used_percent(limit).is_some()
}

fn is_time_limit(limit: &Json) -> (yes: bool)
    ensures
        yes == limits_time(*limit),
{
    let name = to_lower(text_or(get_either(limit, "type", "limit_type"), "").as_str());
    same(name.as_str(), "time_limit") && zai_used_percent(limit).is_some()
}

pub open spec fn quota_limits(quota: Json) -> Option<Seq<Json>> {
    items_in(at_key(quota.at("data"@), "limits"@))
}

/// The places of the token limits.
pub open spec fn token_limits(limits: Seq<Json>) -> Seq<int>
    decreases limits.len(),
{
    if limits.len() == 0 {
        Seq::empty()
    } else if limits_tokens(limits.last()) {
        token_limits(limits.drop_last()).push(limits.len() - 1)
    } else {
        token_limits(limits.drop_last())
    }
}

/// The place of the last tool limit.
pub open spec fn time_limit(limits: Seq<Json>) -> Option<int>
    decreases limits.len(),
{
    if limits.len() == 0 {
        None
    } else if limits_time(limits.last()) {
        Some(limits.len() - 1)
    } else {
        time_limit(limits.drop_last())
    }
}

fn find_token_limits(limits: &Vec<Json>) -> (out: Vec<usize>)
    ensures
        places(out@) == token_limits(limits@),
        forall|i: int| 0 <= i < out@.len() ==> (#[trigger] out@[i]) < limits@.len(),
{
    let mut out: Vec<usize> = Vec::new();
    let mut i: usize = 0;
    assert(places(out@) =~= Seq::empty());
    while i < limits.len()
        invariant
            i <= limits@.len(),
            places(out@) == token_limits(limits@.take(i as int)),
            forall|k: int| 0 <= k < out@.len() ==> (#[trigger] out@[k]) < limits@.len(),
        decreases limits@.len() - i,
    {
        proof {
            assert(limits@.take(i + 1).drop_last() =~= limits@.take(i as int));
            assert(limits@.take(i + 1).last() == limits@[i as int]);
        }
        let ghost earlier = out@;
        if is_token_limit(&limits[i]) {
            out.push(i);
            assert(places(out@) =~= places(earlier).push(i as int));
        }
        i = i + 1;
    }
    assert(limits@.take(i as int) =~= limits@);
    out
}

pub open spec fn places(found: Seq<usize>) -> Seq<int> {
    found.map_values(|place: usize| place as int)
}

fn find_time_limit(limits: &Vec<Json>) -> (out: Option<usize>)
    ensures
        match out {
            Some(i) => i < limits@.len() && time_limit(limits@) == Some(i as int),
            None => time_limit(limits@) is None,
        },
{
    let mut i: usize = limits.len();
    assert(limits@.take(i as int) =~= limits@);
    while i > 0
        invariant
            i <= limits@.len(),
            time_limit(limits@.take(i as int)) == time_limit(limits@),
        decreases i,
    {
        proof {
            assert(limits@.take(i as int).last() == limits@[i - 1]);
            assert(limits@.take(i as int).drop_last() =~= limits@.take(i - 1));
        }
        if is_time_limit(&limits[i - 1]) {
            return Some(i - 1);
        }
        i = i - 1;
    }
    None
}

/// A token limit and its length.
#[derive(Clone, Copy, Debug, PartialEq, Eq, Structural)]
pub struct SpannedLimit {
    pub place: usize,
    pub minutes: Quantity,
}

pub open spec fn shorter() -> spec_fn(SpannedLimit, SpannedLimit) -> bool {
    |left: SpannedLimit, right: SpannedLimit| left.minutes.below(right.minutes)
}

/// The token limits with their lengths, the shortest first.
pub open spec fn by_length(limits: Seq<Json>) -> Seq<SpannedLimit> {
    let found = token_limits(limits);
    sorted(
        found.map_values(
            |place: int|
                SpannedLimit { place: place as usize, minutes: window_minutes(limits[place]) },
        ),
        shorter(),
    )
}

fn order_by_length(limits: &Vec<Json>) -> (out: Vec<SpannedLimit>)
    ensures
        out@ == by_length(limits@),
        forall|i: int| 0 <= i < out@.len() ==> (#[trigger] out@[i]).place < limits@.len(),
{
    let found = find_token_limits(limits);
    let ghost wanted = Seq::new(
        found@.len(),
        |i: int|
            SpannedLimit { place: found@[i], minutes: window_minutes(limits@[found@[i] as int]) },
    );
    let mut out: Vec<SpannedLimit> = Vec::new();
    let mut i: usize = 0;
    while i < found.len()
        invariant
            i <= found@.len(),
            forall|k: int| 0 <= k < found@.len() ==> (#[trigger] found@[k]) < limits@.len(),
            wanted == Seq::new(
                found@.len(),
                |i: int|
                    SpannedLimit {
                        place: found@[i],
                        minutes: window_minutes(limits@[found@[i] as int]),
                    },
            ),
            out@ == wanted.take(i as int),
        decreases found@.len() - i,
    {
        let place: usize = found[i];
        out.push(SpannedLimit { place, minutes: zai_window_minutes(&limits[place]) });
        assert(out@ =~= wanted.take(i + 1));
        i = i + 1;
    }
    assert(wanted.take(i as int) =~= wanted);
    proof {
        let listed = token_limits(limits@);
        assert forall|k: int| 0 <= k < found@.len() implies listed[k] as usize == #[trigger] found@[k]
            && listed[k] == found@[k] by {
            assert(places(found@)[k] == found@[k] as int);
        }
        assert(wanted =~= listed.map_values(
            |place: int|
                SpannedLimit { place: place as usize, minutes: window_minutes(limits@[place]) },
        ));
    }
    let less = |left: &SpannedLimit, right: &SpannedLimit| -> (yes: bool)
        ensures
            yes == shorter()(*left, *right),
        { left.minutes.is_below(right.minutes) };
    sort_by(&mut out, less, Ghost(shorter()));
    proof {
        assert forall|k: int| 0 <= k < out@.len() implies (#[trigger] out@[k]).place
            < limits@.len() by {
            crate::sort::lemma_sorted_contains(wanted, shorter());
            assert(out@.contains(out@[k]));
            let j = choose|j: int| 0 <= j < wanted.len() && wanted[j] == out@[k];
            assert(wanted[j].place == found@[j]);
        }
    }
    out
}

/// The window of a limit, of known usage.
pub open spec fn limit_window(limit: Json, kind: WindowKind, label: Seq<char>, usual: Option<i64>) -> Option<
    DraftView,
> {
    match used_percent(limit) {
        Some(used) => Some(
            DraftView::quota(
                label,
                kind,
                Some(Formula::rest_of_hundred(used)),
                match reset_moment(at_either(limit, "nextResetTime"@, "next_reset_time"@)) {
                    Some(at) => Some(at),
                    None => usual,
                },
                None,
            ),
        ),
        None => None,
    }
}

fn zai_window(limit: &Json, kind: WindowKind, label: &str, usual: Option<i64>) -> (out: Option<
    WindowDraft,
>)
    ensures
        maybe_draft(out) == limit_window(*limit, kind, label@, usual),
{
    match zai_used_percent(limit) {
        Some(used) => {
            let reset = match reset_timestamp(
                get_either(limit, "nextResetTime", "next_reset_time"),
            ) {
                Some(at) => Some(at),
                None => usual,
            };
            Some(WindowDraft::quota(label, kind, Some(rest_of_hundred(used)), reset, None))
        },
        None => None,
    }
}

/// The tool window: a count of calls that renews with the subscription.
pub open spec fn tool_window(limit: Json, renewal: Option<i64>) -> Option<DraftView> {
    match limit_window(limit, WindowKind::Billing, "MCP"@, renewal) {
        Some(window) => Some(
            DraftView {
                metric: WindowMetric::Credits,
                remaining_amount: match measured_in(limit.at("remaining"@)) {
                    Some(remaining) => Some(Formula::Given(remaining)),
                    None => None,
                },
                reset_text: Some("Monthly"@),
                ..window
            },
        ),
        None => None,
    }
}

fn read_tool_window(limit: &Json, renewal: Option<i64>) -> (out: Option<WindowDraft>)
    ensures
        maybe_draft(out) == tool_window(*limit, renewal),
{
    match zai_window(limit, WindowKind::Billing, "MCP", renewal) {
        Some(window) => {
            let remaining_amount = match number_in(limit.get("remaining")) {
                Some(remaining) => Some(given(remaining)),
                None => None,
            };
            Some(
                WindowDraft {
                    label: window.label,
                    kind: window.kind,
                    metric: WindowMetric::Credits,
                    remaining_percent: window.remaining_percent,
                    remaining_amount,
                    currency: window.currency,
                    resets_at_ms: window.resets_at_ms,
                    reset_text: Some("Monthly".to_owned()),
                    estimated: window.estimated,
                },
            )
        },
        None => None,
    }
}

/// The first row of a list of subscriptions.
pub open spec fn first_subscription(subscription: Option<Json>) -> Option<Json> {
    match items_in(at_key(subscription, "data"@)) {
        Some(rows) => if rows.len() > 0 {
            Some(rows[0])
        } else {
            None
        },
        None => None,
    }
}

fn find_subscription<'a>(subscription: Option<&'a Json>) -> (out: Option<&'a Json>)
    ensures
        borrowed(out) == first_subscription(borrowed(subscription)),
{
    match list_in(get_in(subscription, "data")) {
        Some(rows) => if rows.len() > 0 {
            Some(&rows[0])
        } else {
            None
        },
        None => None,
    }
}

pub open spec fn renewal(subscription: Option<Json>) -> Option<i64> {
    reset_moment(
        either_in(first_subscription(subscription), "next_renew_time"@, "nextRenewTime"@),
    )
}

/// The windows of an answer: the shortest token limit, the longest where there
/// are several, and the tool limit.
pub open spec fn plan_windows(quota: Json, subscription: Option<Json>) -> Seq<DraftView> {
    match quota_limits(quota) {
        Some(limits) => {
            let ordered = by_length(limits);
            let shortest = if ordered.len() > 0 {
                limit_window(limits[ordered[0].place as int], WindowKind::Session, "5h"@, None)
            } else {
                None
            };
            let longest = if ordered.len() > 1 {
                limit_window(
                    limits[ordered.last().place as int],
                    WindowKind::Weekly,
                    "Weekly"@,
                    None,
                )
            } else {
                None
            };
            let tools = match time_limit(limits) {
                Some(i) => tool_window(limits[i], renewal(subscription)),
                None => None,
            };
            if_any(shortest) + if_any(longest) + if_any(tools)
        },
        None => Seq::empty(),
    }
}

pub fn zai_windows(quota: &Json, subscription: Option<&Json>) -> (out: Vec<WindowDraft>)
    ensures
        draft_views(out@) == plan_windows(*quota, borrowed(subscription)),
{
    let mut out: Vec<WindowDraft> = Vec::new();
    assert(draft_views(out@) =~= Seq::empty());
    let limits = match list_in(get_in(quota.get("data"), "limits")) {
        Some(limits) => limits,
        None => {
            return out;
        },
    };
    let renewal_ms = reset_timestamp(
        get_either_in(find_subscription(subscription), "next_renew_time", "nextRenewTime"),
    );
    let ordered = order_by_length(limits);
    let total: usize = ordered.len();
    let shortest = if total > 0 {
        zai_window(&limits[ordered[0].place], WindowKind::Session, "5h", None)
    } else {
        None
    };
    let longest = if total > 1 {
        zai_window(&limits[ordered[total - 1].place], WindowKind::Weekly, "Weekly", None)
    } else {
        None
    };
    let tools = match find_time_limit(limits) {
        Some(i) => read_tool_window(&limits[i], renewal_ms),
        None => None,
    };
    push_if_any(&mut out, shortest);
    push_if_any(&mut out, longest);
    push_if_any(&mut out, tools);
    assert(draft_views(out@) =~= if_any(maybe_draft(shortest)) + if_any(maybe_draft(longest))
        + if_any(maybe_draft(tools)));
    out
}

/// The plan's name: the product of the first subscription, else the plan that
/// the quota names.
pub open spec fn plan_name(subscription: Option<Json>, quota: Json) -> Seq<char> {
    let row = first_subscription(subscription);
    let named = said_in(
        either(
            either(either_in(row, "product_name"@, "productName"@), at_key(row, "plan_name"@)),
            at_key(row, "planName"@),
        ),
    );
    match named {
        Some(name) => name,
        None => said_or(at_key(quota.at("data"@), "planName"@), "Z.ai"@),
    }
}

pub fn zai_plan(subscription: Option<&Json>, quota: &Json) -> (out: String)
    ensures
        out@ == plan_name(borrowed(subscription), *quota),
{
    let row = find_subscription(subscription);
    let named = text_in(
        crate::json::first_of(
            crate::json::first_of(
                get_either_in(row, "product_name", "productName"),
                get_in(row, "plan_name"),
            ),
            get_in(row, "planName"),
        ),
    );
    match named {
        Some(name) => name,
        None => text_or(get_in(quota.get("data"), "planName"), "Z.ai"),
    }
}

/// The answer itself refuses.
pub open spec fn refusal(quota: Json) -> Option<Seq<char>> {
    match whole_in(quota.at("code"@)) {
        Some(code) => if code != 200 && code != 0 {
            Some("Z.ai: "@ + said_or(quota.at("msg"@), "No coding plan"@))
        } else {
            None
        },
        None => None,
    }
}

/// The row of the API key. The subscription is optional.
pub open spec fn zai_row(
    token: Option<Seq<char>>,
    can_ask: bool,
    quota: Reply,
    subscription: Reply,
    now_ms: i64,
) -> RowView {
    let badge = zai_badge();
    let label = "Z.ai"@;
    match asked(badge, "zai"@, label, token, "Z.ai API key not configured"@, can_ask, now_ms) {
        Err(row) => row,
        Ok(key) => match quota {
            Reply::Body(value) => {
                let windows = plan_windows(value, subscription.body());
                match refusal(value) {
                    Some(reason) => no_row(badge, key, label, reason, now_ms),
                    None => if windows.len() == 0 {
                        no_row(badge, key, label, "Z.ai quota response has no windows"@, now_ms)
                    } else {
                        answered(
                            badge,
                            key,
                            plan_name(subscription.body(), value),
                            plan_name(subscription.body(), value),
                            windows,
                        )
                    },
                }
            },
            _ => RowView::Missing(
                missing_row(
                    badge,
                    key,
                    label,
                    quota.numbered_failure(plain_wording()),
                    now_ms,
                ),
            ),
        },
    }
}

pub fn collect_zai(
    token: Option<&str>,
    can_ask: bool,
    quota: &Reply,
    subscription: &Reply,
    now_ms: i64,
) -> (out: Row)
    ensures
        out@ == zai_row(maybe_str(token), can_ask, *quota, *subscription, now_ms),
{
    let badge = Badge { provider_id: "zai", source: "api", hue: 75 };
    let label = "Z.ai";
    let key = match ask(
        &badge,
        "zai",
        label,
        token,
        "Z.ai API key not configured",
        can_ask,
        now_ms,
    ) {
        Ok(key) => key,
        Err(row) => {
            return row;
        },
    };
    match quota {
        Reply::Body(value) => {
            match i64_in(value.get("code")) {
                Some(code) => if code != 200 && code != 0 {
                    let mut reason = "Z.ai: ".to_owned();
                    reason.append(text_or(value.get("msg"), "No coding plan").as_str());
                    return nothing_for(&badge, key, label, reason.as_str(), now_ms);
                },
                None => {},
            }
            let windows = zai_windows(value, subscription.ok());
            if windows.len() == 0 {
                return nothing_for(
                    &badge,
                    key,
                    label,
                    "Z.ai quota response has no windows",
                    now_ms,
                );
            }
            let plan = zai_plan(subscription.ok(), value);
            let name = zai_plan(subscription.ok(), value);
            answered_row(&badge, key, name, plan, windows)
        },
        _ => missing(&badge, key, label.to_owned(), quota.numbered(&usual_wording()), now_ms),
    }
}

/// The row of a team. Its organization and its project have to be named.
pub open spec fn zai_team_row(
    token: Option<Seq<char>>,
    organization: Seq<char>,
    project: Seq<char>,
    can_ask: bool,
    quota: Reply,
    now_ms: i64,
) -> RowView {
    let badge = zai_team_badge();
    let label = "Z.ai Team"@;
    let key = key_of("zaiteam"@, organization);
    match token {
        None => no_row(badge, ""@, label, "Z.ai team API key not configured"@, now_ms),
        Some(token) => if trim(organization).len() == 0 || trim(project).len() == 0 {
            no_row(
                badge,
                key_of("zaiteam"@, token),
                label,
                "Z.ai team organization/project not configured"@,
                now_ms,
            )
        } else if !can_ask {
            no_row(badge, key, label, "HTTP client unavailable"@, now_ms)
        } else {
            match quota {
                Reply::Body(value) => {
                    let windows = plan_windows(value, None);
                    if windows.len() == 0 {
                        no_row(badge, key, label, "Z.ai team response has no windows"@, now_ms)
                    } else {
                        answered(badge, key, "Team"@, "Team"@, windows)
                    }
                },
                Reply::Refused(_) => RowView::Missing(
                    missing_row(
                        badge,
                        key,
                        label,
                        FailureView {
                            health: quota.health(),
                            detail: "Z.ai team quota unavailable"@,
                        },
                        now_ms,
                    ),
                ),
                _ => no_row(badge, key, label, "Invalid Z.ai team JSON"@, now_ms),
            }
        },
    }
}

pub fn collect_zai_team(
    token: Option<&str>,
    organization: &str,
    project: &str,
    can_ask: bool,
    quota: &Reply,
    now_ms: i64,
) -> (out: Row)
    ensures
        out@ == zai_team_row(
            maybe_str(token),
            organization@,
            project@,
            can_ask,
            *quota,
            now_ms,
        ),
{
    let badge = Badge { provider_id: "zaiteam", source: "api", hue: 75 };
    let label = "Z.ai Team";
    let token = match token {
        Some(token) => token,
        None => {
            return nothing_for(
                &badge,
                "".to_owned(),
                label,
                "Z.ai team API key not configured",
                now_ms,
            );
        },
    };
    if trimmed(organization).as_str().is_empty() || trimmed(project).as_str().is_empty() {
        return nothing_for(
            &badge,
            account_key("zaiteam", token),
            label,
            "Z.ai team organization/project not configured",
            now_ms,
        );
    }
    let key = account_key("zaiteam", organization);
    if !can_ask {
        return nothing_for(&badge, key, label, "HTTP client unavailable", now_ms);
    }
    match quota {
        Reply::Body(value) => {
            let windows = zai_windows(value, None);
            if windows.len() == 0 {
                return nothing_for(
                    &badge,
                    key,
                    label,
                    "Z.ai team response has no windows",
                    now_ms,
                );
            }
            answered_row(&badge, key, "Team".to_owned(), "Team".to_owned(), windows)
        },
        Reply::Refused(_) => missing(
            &badge,
            key,
            label.to_owned(),
            Failure {
                health: quota.source_health(),
                detail: "Z.ai team quota unavailable".to_owned(),
            },
            now_ms,
        ),
        _ => nothing_for(&badge, key, label, "Invalid Z.ai team JSON", now_ms),
    }
}

/// A row shows of the token no more than the key that is its digest: whoever
/// signed in, the same answers give the same row.
pub proof fn law_row_hides_the_token(
    first: Seq<char>,
    second: Seq<char>,
    can_ask: bool,
    quota: Reply,
    subscription: Reply,
    now_ms: i64,
)
    ensures
        zai_row(Some(first), can_ask, quota, subscription, now_ms).key() == key_of("zai"@, first),
        zai_row(Some(first), can_ask, quota, subscription, now_ms).keyless()
            == zai_row(Some(second), can_ask, quota, subscription, now_ms).keyless(),
{
}

/// A team's row shows nothing of the token once the team is named.
pub proof fn law_team_row_hides_the_token(
    first: Seq<char>,
    second: Seq<char>,
    organization: Seq<char>,
    project: Seq<char>,
    can_ask: bool,
    quota: Reply,
    now_ms: i64,
)
    ensures
        zai_team_row(Some(first), organization, project, can_ask, quota, now_ms).keyless()
            == zai_team_row(Some(second), organization, project, can_ask, quota, now_ms).keyless(),
        trim(organization).len() > 0 && trim(project).len() > 0 ==> zai_team_row(
            Some(first),
            organization,
            project,
            can_ask,
            quota,
            now_ms,
        ) == zai_team_row(Some(second), organization, project, can_ask, quota, now_ms),
{
}

/// The places of the limits on tokens are those of every limit of that type,
/// in their order.
proof fn lemma_token_limits(limits: Seq<Json>)
    ensures
        forall|place: int|
            #![trigger token_limits(limits).contains(place)]
            token_limits(limits).contains(place) <==> 0 <= place < limits.len() && limits_tokens(
                limits[place],
            ),
        forall|i: int|
            0 <= i < token_limits(limits).len() ==> 0 <= #[trigger] token_limits(limits)[i]
                < limits.len() && limits_tokens(limits[token_limits(limits)[i]]),
    decreases limits.len(),
{
    if limits.len() > 0 {
        let before = limits.drop_last();
        lemma_token_limits(before);
        let found = token_limits(limits);
        assert forall|place: int| #[trigger] found.contains(place) implies 0 <= place
            < limits.len() && limits_tokens(limits[place]) by {
            let i = choose|i: int| 0 <= i < found.len() && found[i] == place;
            if i < token_limits(before).len() {
                assert(token_limits(before)[i] == place);
                assert(limits[place] == before[place]);
            }
        }
        assert forall|place: int|
            0 <= place < limits.len() && limits_tokens(limits[place]) implies #[trigger] found.contains(
            place,
        ) by {
            if place < before.len() {
                assert(before[place] == limits[place]);
                assert(token_limits(before).contains(place));
                let i = choose|i: int|
                    0 <= i < token_limits(before).len() && token_limits(before)[i] == place;
                assert(found[i] == place);
            } else {
                assert(found[found.len() - 1] == place);
            }
        }
        assert forall|i: int| 0 <= i < found.len() implies 0 <= #[trigger] found[i] < limits.len()
            && limits_tokens(limits[found[i]]) by {
            assert(found.contains(found[i]));
        }
    }
}

/// The shortest of the limits on tokens is the session, the longest the week:
/// of all such limits none is shorter than the first, nor longer than the
/// second. A single limit is the session.
pub proof fn law_shortest_limit_is_the_session(
    quota: Json,
    data: Json,
    limits: Vec<Json>,
    subscription: Option<Json>,
    k: int,
    powers: Seq<Power>,
)
    requires
        quota.at("data"@) == Some(data),
        data.at("limits"@) == Some(Json::List(limits)),
        limits@.len() <= usize::MAX,
        0 <= k < limits@.len(),
        limits_tokens(limits@[k]),
        forall|i: int|
            0 <= i < limits@.len() && limits_tokens(#[trigger] limits@[i]) ==> !window_minutes(
                limits@[i],
            ).nan(),
    ensures
        plan_windows(quota, subscription).len() > 0,
        ({
            let windows = crate::collectors::settled_windows(
                plan_windows(quota, subscription),
                powers,
            );
            &&& windows[0].label == "5h"@
            &&& windows[0].kind is Session
            &&& exists|i: int|
                {
                    &&& 0 <= i < limits@.len()
                    &&& limits_tokens(#[trigger] limits@[i])
                    &&& window_minutes(limits@[i]).rank() <= window_minutes(limits@[k]).rank()
                    &&& windows[0].remaining_percent == Some(
                        Quantity { bits: 0x4059_0000_0000_0000 }.difference(
                            used_percent(limits@[i])->0.value(powers),
                        ).as_percentage(),
                    )
                    &&& windows[0].resets_at_ms == reset_moment(
                        at_either(limits@[i], "nextResetTime"@, "next_reset_time"@),
                    )
                }
            &&& (exists|j: int|
                0 <= j < limits@.len() && j != k && limits_tokens(#[trigger] limits@[j])) ==> {
                &&& windows.len() >= 2
                &&& windows[1].label == "Weekly"@
                &&& windows[1].kind is Weekly
                &&& exists|i: int|
                    {
                        &&& 0 <= i < limits@.len()
                        &&& limits_tokens(#[trigger] limits@[i])
                        &&& window_minutes(limits@[k]).rank() <= window_minutes(limits@[i]).rank()
                        &&& windows[1].remaining_percent == Some(
                            Quantity { bits: 0x4059_0000_0000_0000 }.difference(
                                used_percent(limits@[i])->0.value(powers),
                            ).as_percentage(),
                        )
                    }
            }
        }),
{
    reveal_with_fuel(Formula::value, 4);
    let all = limits@;
    assert(quota_limits(quota) == Some(all));
    lemma_token_limits(all);
    let found = token_limits(all);
    let spanned = |place: int|
        SpannedLimit { place: place as usize, minutes: window_minutes(all[place]) };
    let items = found.map_values(spanned);
    let ranked = |left: SpannedLimit, right: SpannedLimit|
        left.minutes.rank() < right.minutes.rank();
    assert(crate::sort::orders(ranked));
    crate::sort::lemma_sorted_same(items, shorter(), ranked);
    crate::sort::lemma_sorted_in_order(items, ranked);
    crate::sort::lemma_sorted_keeps_items(items, shorter());
    crate::sort::lemma_sorted_contains(items, shorter());
    let ordered = by_length(all);
    assert(ordered == sorted(items, shorter()));
    items.to_multiset_ensures();
    ordered.to_multiset_ensures();
    assert(found.contains(k));
    let spot = choose|i: int| 0 <= i < found.len() && found[i] == k;
    assert(items[spot] == spanned(k));
    assert(ordered.contains(spanned(k))) by {
        assert(items.contains(items[spot]));
        assert(items.to_multiset().count(spanned(k)) > 0);
    }
    let at = choose|i: int| 0 <= i < ordered.len() && ordered[i] == spanned(k);
    assert forall|i: int| 0 <= i < ordered.len() implies {
        &&& 0 <= (#[trigger] ordered[i]).place < all.len()
        &&& limits_tokens(all[ordered[i].place as int])
        &&& ordered[i].minutes == window_minutes(all[ordered[i].place as int])
    } by {
        assert(items.contains(ordered[i]));
        let j = choose|j: int| 0 <= j < items.len() && items[j] == ordered[i];
        assert(items[j] == spanned(found[j]));
        assert(limits.len() <= usize::MAX);
    }
    let first = ordered[0].place as int;
    let last = ordered[ordered.len() - 1].place as int;
    if at > 0 {
        assert(!ranked(ordered[at], ordered[0]));
    }
    if at < ordered.len() - 1 {
        assert(!ranked(ordered[ordered.len() - 1], ordered[at]));
    }
    assert(limits_tokens(all[first]));
    assert(limits_tokens(all[last]));
    if exists|j: int| 0 <= j < all.len() && j != k && limits_tokens(#[trigger] all[j]) {
        let j = choose|j: int| 0 <= j < all.len() && j != k && limits_tokens(#[trigger] all[j]);
        assert(found.contains(j));
        assert(found.len() >= 2);
    }
}

/// What is used of a limit is what remains taken from the whole, or else the
/// current value, within zero and the whole; in hundredths of the whole. A
/// limit without a whole states the percentage itself.
pub proof fn law_used_percentage_of_a_limit(
    limit: Json,
    total: Json,
    remaining: Json,
    powers: Seq<Power>,
)
    requires
        limit.at("usage"@) == Some(total),
        total.measured() is Some,
        !total.measured()->0.nan(),
        total.measured()->0.rank() > 0,
        limit.at("remaining"@) == Some(remaining),
        remaining.measured() is Some,
    ensures
        used_percent(limit) is Some,
        used_percent(limit)->0.value(powers) == total.measured()->0.difference(
            remaining.measured()->0,
        ).larger(Quantity { bits: 0 }).smaller(total.measured()->0).quotient(
            total.measured()->0,
        ).product(Quantity { bits: 0x4059_0000_0000_0000 }).as_percentage(),
{
    reveal_with_fuel(Formula::value, 7);
}

/// A limit that states no whole states its percentage.
pub proof fn law_told_percentage_counts_without_a_whole(limit: Json, told: Json, powers: Seq<Power>)
    requires
        limit.at("usage"@) is None,
        held_under(limit, seq!["percentage"@, "usedPercent"@, "used_percent"@], told),
        told.measured() is Some,
    ensures
        used_percent(limit) is Some,
        used_percent(limit)->0.value(powers) == told.measured()->0,
{
    lemma_held_under(limit, seq!["percentage"@, "usedPercent"@, "used_percent"@], told);
    reveal_with_fuel(Formula::value, 2);
}

/// The unit of a limit is a number: one stands for days, three for hours, five
/// for minutes and six for weeks. A limit in any other unit is the longest.
pub proof fn law_units_of_a_limit(limit: Json, unit: Json, amount: Json)
    requires
        limit.at("unit"@) == Some(unit),
        limit.at("number"@) == Some(amount),
        unit.measured() is Some,
        amount.measured() is Some,
    ensures
        unit.measured()->0.bits == 0x4014_0000_0000_0000 ==> window_minutes(limit)
            == amount.measured()->0,
        unit.measured()->0.bits == 0x4008_0000_0000_0000 ==> window_minutes(limit)
            == amount.measured()->0.product(Quantity { bits: 0x404e_0000_0000_0000 }),
        unit.measured()->0.bits == 0x3ff0_0000_0000_0000 ==> window_minutes(limit)
            == amount.measured()->0.product(Quantity { bits: 0x4038_0000_0000_0000 }).product(
            Quantity { bits: 0x404e_0000_0000_0000 },
        ),
        unit.measured()->0.bits == 0x4018_0000_0000_0000 ==> window_minutes(limit)
            == amount.measured()->0.product(Quantity { bits: 0x401c_0000_0000_0000 }).product(
            Quantity { bits: 0x4038_0000_0000_0000 },
        ).product(Quantity { bits: 0x404e_0000_0000_0000 }),
        unit.measured()->0.bits == 0 ==> window_minutes(limit).bits == 0x7fef_ffff_ffff_ffff,
{
}

} // verus!
