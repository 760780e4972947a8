//! Command Code: rolling windows and monthly credits.

use vstd::prelude::*;

use crate::collectors::{answered, answered_row, ask, asked, body_of, body_or_row, draft_views};
use crate::collectors::{if_any, maybe_draft, push_if_any, reset_moment, reset_timestamp, Badge};
use crate::collectors::{DraftView, Reply, Row, RowView, WindowDraft, Wording};
use crate::formula::{constant, given, left_of, not_below_zero, share_of, Formula, Power};
use crate::json::{at_either, at_key, borrowed, either, either_in, get_either, get_either_in};
use crate::json::{get_in, held_under, lemma_held_under, measured_in, number_in, or_at, or_get};
use crate::json::{said_or, text_or, Json};
use crate::limits::{WindowKind, WindowMetric};
use crate::quantity::{Quantity, ZERO};
use crate::secrets::{account_key, first_char, key_of, str_views, Secrets};
use crate::text::{chars_of, has_prefix, join, join_texts, lower, maybe_str, maybe_text, same};
use crate::text::{slice_text, split, split_text, starts_with, texts, to_lower, trim, trimmed};

verus! {

pub open spec fn commandcode_badge() -> Badge {
    Badge { provider_id: "commandcode", source: "web", hue: 220 }
}

/// The text without a beginning, however often it stands there.
pub open spec fn without_beginnings(text: Seq<char>, beginning: Seq<char>) -> Seq<char>
    decreases text.len(),
{
    if beginning.len() > 0 && starts_with(text, beginning) {
        without_beginnings(text.skip(beginning.len() as int), beginning)
    } else {
        text
    }
}

fn drop_beginnings(text: &str, beginning: &str) -> (out: String)
    requires
        beginning@.len() > 0,
    ensures
        out@ == without_beginnings(text@, beginning@),
{
    let mut out = text.to_owned();
    let cut = chars_of(beginning);
    while has_prefix(out.as_str(), beginning)
        invariant
            cut@ == beginning@,
            beginning@.len() > 0,
            without_beginnings(out@, beginning@) == without_beginnings(text@, beginning@),
        decreases out@.len(),
    {
        let chars = chars_of(out.as_str());
        let total: usize = chars.len();
        let shorter = slice_text(&chars, cut.len(), total);
        assert(shorter@ =~= out@.skip(beginning@.len() as int));
        out = shorter;
    }
    out
}

/// The name and the value of one cookie.
pub open spec fn cookie_pair(part: Seq<char>) -> Option<(Seq<char>, Seq<char>)> {
    let text = trim(part);
    if text.contains('=') {
        let at = text.index_of_first('=')->0;
        Some((trim(text.take(at)), trim(text.skip(at + 1))))
    } else {
        None
    }
}

pub open spec fn names_session(name: Seq<char>) -> bool {
    ||| lower(name) == "__secure-commandcode_prod_.session_token"@
    ||| lower(name) == "__host-commandcode_prod_.session_token"@
    ||| lower(name) == "commandcode_prod_.session_token"@
}

pub open spec fn names_data(name: Seq<char>) -> bool {
    ||| lower(name) == "__secure-commandcode_prod_.session_data"@
    ||| lower(name) == "__host-commandcode_prod_.session_data"@
    ||| lower(name) == "commandcode_prod_.session_data"@
}

/// The cookies that are passed on.
pub open spec fn forwarded(parts: Seq<Seq<char>>) -> Seq<Seq<char>>
    decreases parts.len(),
{
    if parts.len() == 0 {
        Seq::empty()
    } else {
        let before = forwarded(parts.drop_last());
        match cookie_pair(parts.last()) {
            Some((name, value)) => if names_session(name) || names_data(name) {
                before.push(name + "="@ + value)
            } else {
                before
            },
            None => before,
        }
    }
}

pub open spec fn all_pairs(parts: Seq<Seq<char>>) -> bool {
    forall|i: int| 0 <= i < parts.len() ==> cookie_pair(#[trigger] parts[i]) is Some
}

pub open spec fn some_session(parts: Seq<Seq<char>>) -> bool {
    exists|i: int|
        0 <= i < parts.len() && cookie_pair(#[trigger] parts[i]) is Some && names_session(
            (cookie_pair(parts[i])->0).0,
        )
}

/// The session cookies of a cookie header. Every part of the header has to be
/// a cookie, and one of them the session token.
pub open spec fn session_cookies(raw: Seq<char>) -> Option<Seq<char>> {
    let parts = split(without_beginnings(raw, "Cookie:"@), ';');
    if all_pairs(parts) && some_session(parts) {
        Some(join(forwarded(parts), "; "@))
    } else {
        None
    }
}

pub open spec fn pair_view(pair: Option<(String, String)>) -> Option<(Seq<char>, Seq<char>)> {
    match pair {
        Some((name, value)) => Some((name@, value@)),
        None => None,
    }
}

fn read_pair(part: &str) -> (out: Option<(String, String)>)
    ensures
        pair_view(out) == cookie_pair(part@),
{
    let text = trimmed(part);
    let chars = chars_of(text.as_str());
    let total: usize = chars.len();
    match first_char(&chars, '=') {
        Some(at) => {
            let left = slice_text(&chars, 0, at);
            let right = slice_text(&chars, at + 1, total);
            assert(left@ =~= text@.take(at as int));
            assert(right@ =~= text@.skip(at + 1));
            Some((trimmed(left.as_str()), trimmed(right.as_str())))
        },
        None => None,
    }
}

fn is_session(name: &str) -> (yes: bool)
    ensures
        yes == names_session(name@),
{
    let small = to_lower(name);
    let small = small.as_str();
    same(small, "__secure-commandcode_prod_.session_token") || same(
        small,
        "__host-commandcode_prod_.session_token",
    ) || same(small, "commandcode_prod_.session_token")
}

fn is_data(name: &str) -> (yes: bool)
    ensures
        yes == names_data(name@),
{
    let small = to_lower(name);
    let small = small.as_str();
    same(small, "__secure-commandcode_prod_.session_data") || same(
        small,
        "__host-commandcode_prod_.session_data",
    ) || same(small, "commandcode_prod_.session_data")
}

/// The cookie header to send for a header that was entered.
pub fn forwarded_cookie(raw: &str) -> (out: Option<String>)
    ensures
        maybe_text(out) == session_cookies(raw@),
{
    proof {
        reveal_strlit("Cookie:");
    }
    let plain = drop_beginnings(raw, "Cookie:");
    let parts = split_text(plain.as_str(), ';');
    let ghost all = texts(parts@);
    let mut kept: Vec<String> = Vec::new();
    let mut has_session = false;
    let mut i: usize = 0;
    assert(texts(kept@) =~= Seq::empty());
    while i < parts.len()
        invariant
            i <= parts@.len(),
            all == texts(parts@),
            all == split(without_beginnings(raw@, "Cookie:"@), ';'),
            forall|k: int| 0 <= k < i ==> cookie_pair(#[trigger] all[k]) is Some,
            has_session <==> some_session(all.take(i as int)),
            texts(kept@) == forwarded(all.take(i as int)),
        decreases parts@.len() - i,
    {
        let ghost earlier = all.take(i as int);
        let ghost now = all.take(i + 1);
        let ghost before = kept@;
        proof {
            assert(now.drop_last() =~= earlier);
            assert(now.last() == parts@[i as int]@);
            assert(all[i as int] == parts@[i as int]@);
        }
        match read_pair(parts[i].as_str()) {
            None => {
                assert(cookie_pair(all[i as int]) is None);
                return None;
            },
            Some((name, value)) => {
                let session = is_session(name.as_str());
                if session || is_data(name.as_str()) {
                    let mut cookie = name.clone();
                    cookie.append("=");
                    cookie.append(value.as_str());
                    let ghost view = cookie@;
                    kept.push(cookie);
                    assert(texts(kept@) =~= texts(before).push(view));
                }
                proof {
                    if some_session(earlier) {
                        let k = choose|k: int|
                            0 <= k < earlier.len() && cookie_pair(#[trigger] earlier[k]) is Some
                                && names_session((cookie_pair(earlier[k])->0).0);
                        assert(now[k] == earlier[k]);
                    }
                    if some_session(now) {
                        let k = choose|k: int|
                            0 <= k < now.len() && cookie_pair(#[trigger] now[k]) is Some
                                && names_session((cookie_pair(now[k])->0).0);
                        if k < i {
                            assert(earlier[k] == now[k]);
                        }
                    }
                    if session {
                        assert(cookie_pair(now[i as int]) is Some);
                    }
                }
                if session {
                    has_session = true;
                }
            },
        }
        i = i + 1;
    }
    assert(all.take(i as int) =~= all);
    if has_session {
        Some(join_texts(kept.as_slice(), "; "))
    } else {
        None
    }
}

pub open spec fn cookie_names() -> Seq<Seq<char>> {
    seq!["TOKEN_MONITOR_COMMANDCODE_COOKIE"@, "COMMANDCODE_COOKIE"@]
}

pub fn commandcode_cookie(secrets: &Secrets) -> (out: Option<String>)
    requires
        secrets.well_formed(),
    ensures
        maybe_text(out) == match secrets.found(cookie_names()) {
            Some(raw) => session_cookies(raw),
            None => None,
        },
{
    let names = vec!["TOKEN_MONITOR_COMMANDCODE_COOKIE", "COMMANDCODE_COOKIE"];
    assert(str_views(names@) =~= cookie_names());
    match secrets.env_secret(&names) {
        Some(raw) => forwarded_cookie(raw.as_str()),
        None => None,
    }
}

/// What a plan allows: a monthly allowance and the caps of two windows.
#[derive(Clone, Copy, Debug)]
pub struct PlanCaps {
    pub title: &'static str,
    pub allowance: Quantity,
    pub five_hour: Quantity,
    pub weekly: Quantity,
}

/// The known plans.
pub open spec fn plan_of(plan_id: Seq<char>) -> Option<PlanCaps> {
    if lower(plan_id) == "individual-go"@ {
        Some(
            PlanCaps {
                title: "Go",
                allowance: Quantity { bits: 0x4024_0000_0000_0000 },
                five_hour: Quantity { bits: 0x4008_0000_0000_0000 },
                weekly: Quantity { bits: 0x4018_0000_0000_0000 },
            },
        )
    } else if lower(plan_id) == "individual-goat"@ {
        Some(
            PlanCaps {
                title: "GOAT",
                allowance: Quantity { bits: 0x4051_8000_0000_0000 },
                five_hour: Quantity { bits: 0x402c_0000_0000_0000 },
                weekly: Quantity { bits: 0x4041_8000_0000_0000 },
            },
        )
    } else if lower(plan_id) == "individual-pro"@ {
        Some(
            PlanCaps {
                title: "Pro",
                allowance: Quantity { bits: 0x4054_0000_0000_0000 },
                five_hour: Quantity { bits: 0x4030_0000_0000_0000 },
                weekly: Quantity { bits: 0x4044_0000_0000_0000 },
            },
        )
    } else if lower(plan_id) == "individual-max"@ {
        Some(
            PlanCaps {
                title: "Max 10x",
                allowance: Quantity { bits: 0x4062_c000_0000_0000 },
                five_hour: Quantity { bits: 0x4046_8000_0000_0000 },
                weekly: Quantity { bits: 0x4056_8000_0000_0000 },
            },
        )
    } else if lower(plan_id) == "individual-ultra"@ {
        Some(
            PlanCaps {
                title: "Max 20x",
                allowance: Quantity { bits: 0x4072_c000_0000_0000 },
                five_hour: Quantity { bits: 0x4056_8000_0000_0000 },
                weekly: Quantity { bits: 0x4066_8000_0000_0000 },
            },
        )
    } else {
        None
    }
}

pub fn commandcode_plan(plan_id: &str) -> (out: Option<PlanCaps>)
    ensures
        out == plan_of(plan_id@),
{
    let small = to_lower(plan_id);
    if same(small.as_str(), "individual-go") {
        Some(
            PlanCaps {
                title: "Go",
                allowance: Quantity { bits: 0x4024_0000_0000_0000 },
                five_hour: Quantity { bits: 0x4008_0000_0000_0000 },
                weekly: Quantity { bits: 0x4018_0000_0000_0000 },
            },
        )
    } else if same(small.as_str(), "individual-goat") {
        Some(
            PlanCaps {
                title: "GOAT",
                allowance: Quantity { bits: 0x4051_8000_0000_0000 },
                five_hour: Quantity { bits: 0x402c_0000_0000_0000 },
                weekly: Quantity { bits: 0x4041_8000_0000_0000 },
            },
        )
    } else if same(small.as_str(), "individual-pro") {
        Some(
            PlanCaps {
                title: "Pro",
                allowance: Quantity { bits: 0x4054_0000_0000_0000 },
                five_hour: Quantity { bits: 0x4030_0000_0000_0000 },
                weekly: Quantity { bits: 0x4044_0000_0000_0000 },
            },
        )
    } else if same(small.as_str(), "individual-max") {
        Some(
            PlanCaps {
                title: "Max 10x",
                allowance: Quantity { bits: 0x4062_c000_0000_0000 },
                five_hour: Quantity { bits: 0x4046_8000_0000_0000 },
                weekly: Quantity { bits: 0x4056_8000_0000_0000 },
            },
        )
    } else if same(small.as_str(), "individual-ultra") {
        Some(
            PlanCaps {
                title: "Max 20x",
                allowance: Quantity { bits: 0x4072_c000_0000_0000 },
                five_hour: Quantity { bits: 0x4056_8000_0000_0000 },
                weekly: Quantity { bits: 0x4066_8000_0000_0000 },
            },
        )
    } else {
        None
    }
}

/// The limit that a window tells.
pub open spec fn told_limit(raw: Json) -> Option<Quantity> {
    measured_in(at_either(raw, "cap"@, "limit"@))
}

/// A rolling window against its own limit or else the cap of the plan, where
/// that is positive.
pub open spec fn rolling_window(
    label: Seq<char>,
    kind: WindowKind,
    raw: Option<Json>,
    cap: Option<Quantity>,
) -> Option<DraftView> {
    match raw {
        None => None,
        Some(raw) => {
            let limit = match told_limit(raw) {
                Some(limit) => Some(limit),
                None => cap,
            };
            match limit {
                None => None,
                Some(limit) => if limit.at_most(Quantity { bits: ZERO }) {
                    None
                } else {
                    let used = Formula::not_below_zero(
                        match measured_in(raw.at("used"@)) {
                            Some(used) => Formula::Given(used),
                            None => Formula::of(ZERO),
                        },
                    );
                    let left = Formula::left(Formula::Given(limit), used);
                    Some(
                        DraftView {
                            label,
                            kind,
                            metric: WindowMetric::Quota,
                            remaining_percent: Some(Formula::share(left, Formula::Given(limit))),
                            remaining_amount: Some(left),
                            currency: Some("USD"@),
                            resets_at_ms: reset_moment(at_either(raw, "resetAt"@, "reset_at"@)),
                            reset_text: None,
                            estimated: false,
                        },
                    )
                },
            }
        },
    }
}

pub fn commandcode_rolling_window(
    label: &str,
    kind: WindowKind,
    raw: Option<&Json>,
    cap: Option<Quantity>,
) -> (out: Option<WindowDraft>)
    ensures
        maybe_draft(out) == rolling_window(label@, kind, borrowed(raw), cap),
{
    let raw = match raw {
        Some(raw) => raw,
        None => {
            return None;
        },
    };
    let limit = match number_in(get_either(raw, "cap", "limit")) {
        Some(limit) => limit,
        None => match cap {
            Some(cap) => cap,
            None => {
                return None;
            },
        },
    };
    if limit.is_at_most(Quantity { bits: ZERO }) {
        return None;
    }
    let used = not_below_zero(
        match number_in(raw.get("used")) {
            Some(used) => given(used),
            None => constant(ZERO),
        },
    );
    let left = left_of(given(limit), used);
    Some(
        WindowDraft {
            label: label.to_owned(),
            kind,
            metric: WindowMetric::Quota,
            remaining_percent: Some(share_of(left.clone(), given(limit))),
            remaining_amount: Some(left),
            currency: Some("USD".to_owned()),
            resets_at_ms: reset_timestamp(get_either(raw, "resetAt", "reset_at")),
            reset_text: None,
            estimated: false,
        },
    )
}

/// The window tells exactly this cap, which is positive.
pub open spec fn tells_cap(raw: Option<Json>, cap: Quantity) -> bool {
    match raw {
        Some(raw) => match told_limit(raw) {
            Some(limit) => (Quantity { bits: ZERO }).below(limit) && limit.equals(cap),
            None => false,
        },
        None => false,
    }
}

fn is_cap(raw: Option<&Json>, cap: Quantity) -> (yes: bool)
    ensures
        yes == tells_cap(borrowed(raw), cap),
{
    match raw {
        Some(raw) => match number_in(get_either(raw, "cap", "limit")) {
            Some(limit) => (Quantity { bits: ZERO }).is_below(limit) && limit.is_equal(cap),
            None => false,
        },
        None => false,
    }
}

/// The plan's allowance counts only where the account shows that it has the
/// plan: the remaining credits fit it and both windows tell its caps.
pub open spec fn trusted_allowance(
    plan: Option<PlanCaps>,
    remaining: Quantity,
    five_hour: Option<Json>,
    weekly: Option<Json>,
) -> Option<Quantity> {
    match plan {
        Some(plan) => if remaining.at_most(plan.allowance) && tells_cap(five_hour, plan.five_hour)
            && tells_cap(weekly, plan.weekly) {
            Some(plan.allowance)
        } else {
            None
        },
        None => None,
    }
}

pub open spec fn monthly_window(
    remaining: Quantity,
    allowance: Option<Quantity>,
    resets_at_ms: Option<i64>,
) -> DraftView {
    DraftView {
        label: "Monthly"@,
        kind: WindowKind::Monthly,
        metric: WindowMetric::Credits,
        remaining_percent: match allowance {
            Some(limit) => Some(
                Formula::share(Formula::Given(remaining), Formula::Given(limit)),
            ),
            None => None,
        },
        remaining_amount: Some(Formula::not_below_zero(Formula::Given(remaining))),
        currency: Some("USD"@),
        resets_at_ms,
        reset_text: None,
        estimated: allowance is None,
    }
}

/// The credits object of an answer.
pub open spec fn credit_body(credits: Json) -> Json {
    match credits.at("credits"@) {
        Some(body) => body,
        None => credits,
    }
}

pub open spec fn window_limits(credits: Json) -> Option<Json> {
    let body = credit_body(credits);
    or_at(
        or_at(at_either(body, "windowLimits"@, "window_limits"@), credits, "windowLimits"@),
        credits,
        "window_limits"@,
    )
}

pub open spec fn subscribed_plan(subscription: Option<Json>) -> Option<PlanCaps> {
    plan_of(said_or(either_in(at_key(subscription, "data"@), "planId"@, "plan_id"@), ""@))
}

/// The windows of an account.
pub open spec fn account_windows(credits: Json, subscription: Option<Json>) -> Seq<DraftView> {
    let plan = subscribed_plan(subscription);
    let limits = window_limits(credits);
    let five_hour = either_in(limits, "fiveHour"@, "five_hour"@);
    let weekly = at_key(limits, "weekly"@);
    let rolling = if_any(
        rolling_window(
            "5h"@,
            WindowKind::Session,
            five_hour,
            match plan {
                Some(plan) => Some(plan.five_hour),
                None => None,
            },
        ),
    ) + if_any(
        rolling_window(
            "7d"@,
            WindowKind::Weekly,
            weekly,
            match plan {
                Some(plan) => Some(plan.weekly),
                None => None,
            },
        ),
    );
    match measured_in(at_either(credit_body(credits), "monthlyCredits"@, "monthly_credits"@)) {
        Some(remaining) => rolling.push(
            monthly_window(
                remaining,
                trusted_allowance(plan, remaining, five_hour, weekly),
                reset_moment(
                    either_in(
                        at_key(subscription, "data"@),
                        "currentPeriodEnd"@,
                        "current_period_end"@,
                    ),
                ),
            ),
        ),
        None => rolling,
    }
}

fn read_plan(subscription: Option<&Json>) -> (out: Option<PlanCaps>)
    ensures
        out == subscribed_plan(borrowed(subscription)),
{
    let plan_id = text_or(
        get_either_in(get_in(subscription, "data"), "planId", "plan_id"),
        "",
    );
    commandcode_plan(plan_id.as_str())
}

fn read_windows(credits: &Json, subscription: Option<&Json>) -> (out: Vec<WindowDraft>)
    ensures
        draft_views(out@) == account_windows(*credits, borrowed(subscription)),
{
    let plan = read_plan(subscription);
    let body = match credits.get("credits") {
        Some(body) => body,
        None => credits,
    };
    let limits = or_get(
        or_get(get_either(body, "windowLimits", "window_limits"), credits, "windowLimits"),
        credits,
        "window_limits",
    );
    let five_hour = get_either_in(limits, "fiveHour", "five_hour");
    let weekly = get_in(limits, "weekly");
    let (five_hour_cap, weekly_cap) = match plan {
        Some(plan) => (Some(plan.five_hour), Some(plan.weekly)),
        None => (None, None),
    };
    let mut out: Vec<WindowDraft> = Vec::new();
    assert(draft_views(out@) =~= Seq::empty());
    push_if_any(
        &mut out,
        commandcode_rolling_window("5h", WindowKind::Session, five_hour, five_hour_cap),
    );
    push_if_any(
        &mut out,
        commandcode_rolling_window("7d", WindowKind::Weekly, weekly, weekly_cap),
    );
    let ghost rolling = if_any(
        rolling_window("5h"@, WindowKind::Session, borrowed(five_hour), five_hour_cap),
    ) + if_any(rolling_window("7d"@, WindowKind::Weekly, borrowed(weekly), weekly_cap));
    assert(draft_views(out@) =~= rolling);
    match number_in(get_either(body, "monthlyCredits", "monthly_credits")) {
        Some(remaining) => {
            let allowance = match plan {
                Some(plan) => if remaining.is_at_most(plan.allowance) && is_cap(
                    five_hour,
                    plan.five_hour,
                ) && is_cap(weekly, plan.weekly) {
                    Some(plan.allowance)
                } else {
                    None
                },
                None => None,
            };
            let percent = match allowance {
                Some(limit) => Some(share_of(given(remaining), given(limit))),
                None => None,
            };
            let window = WindowDraft {
                label: "Monthly".to_owned(),
                kind: WindowKind::Monthly,
                metric: WindowMetric::Credits,
                remaining_percent: percent,
                remaining_amount: Some(not_below_zero(given(remaining))),
                currency: Some("USD".to_owned()),
                resets_at_ms: reset_timestamp(
                    get_either_in(
                        get_in(subscription, "data"),
                        "currentPeriodEnd",
                        "current_period_end",
                    ),
                ),
                reset_text: None,
                estimated: allowance.is_none(),
            };
            let ghost earlier = out@;
            let ghost view = window@;
            out.push(window);
            assert(draft_views(out@) =~= draft_views(earlier).push(view));
        },
        None => {},
    }
    out
}

/// What the account is told apart by: its identifier, else the cookie.
pub open spec fn account_id(subscription: Option<Json>, cookie: Seq<char>) -> Seq<char> {
    let data = at_key(subscription, "data"@);
    let id = said_or(
        either(either_in(data, "userId"@, "user_id"@), at_key(data, "id"@)),
        ""@,
    );
    if id.len() == 0 {
        cookie
    } else {
        id
    }
}

pub open spec fn commandcode_wording() -> Wording {
    Wording {
        refused: "Command Code credits unavailable",
        failed: "Command Code request failed",
        garbled: "Invalid Command Code credits JSON",
    }
}

/// The row of the account of a session. The subscription is optional.
pub open spec fn commandcode_row(
    cookie: Option<Seq<char>>,
    can_ask: bool,
    credits: Reply,
    subscription: Reply,
    now_ms: i64,
) -> RowView {
    let badge = commandcode_badge();
    match asked(
        badge,
        "commandcode"@,
        "Go"@,
        cookie,
        "Command Code session cookie not configured"@,
        can_ask,
        now_ms,
    ) {
        Err(row) => row,
        Ok(key) => match body_or_row(badge, key, "Go"@, credits, commandcode_wording(), now_ms) {
            Err(row) => row,
            Ok(credits) => {
                let plan = subscribed_plan(subscription.body());
                answered(
                    badge,
                    key_of("commandcode"@, account_id(subscription.body(), cookie->0)),
                    match plan {
                        Some(plan) => plan.title@,
                        None => "Command Code"@,
                    },
                    match plan {
                        Some(plan) => plan.title@,
                        None => ""@,
                    },
                    account_windows(credits, subscription.body()),
                )
            },
        },
    }
}

pub fn collect_commandcode(
    cookie: Option<&str>,
    can_ask: bool,
    credits: &Reply,
    subscription: &Reply,
    now_ms: i64,
) -> (out: Row)
    ensures
        out@ == commandcode_row(maybe_str(cookie), can_ask, *credits, *subscription, now_ms),
{
    let badge = Badge { provider_id: "commandcode", source: "web", hue: 220 };
    let key = match ask(
        &badge,
        "commandcode",
        "Go",
        cookie,
        "Command Code session cookie not configured",
        can_ask,
        now_ms,
    ) {
        Ok(key) => key,
        Err(row) => {
            return row;
        },
    };
    let wording = Wording {
        refused: "Command Code credits unavailable",
        failed: "Command Code request failed",
        garbled: "Invalid Command Code credits JSON",
    };
    let credits = match body_of(&badge, key.as_str(), "Go", credits, &wording, now_ms) {
        Ok(credits) => credits,
        Err(row) => {
            return row;
        },
    };
    let subscription = subscription.ok();
    let data = get_in(subscription, "data");
    let id = text_or(
        crate::json::first_of(get_either_in(data, "userId", "user_id"), get_in(data, "id")),
        "",
    );
    let key = if id.as_str().is_empty() {
        key
    } else {
        account_key("commandcode", id.as_str())
    };
    let (label, plan) = match read_plan(subscription) {
        Some(plan) => (plan.title, plan.title),
        None => ("Command Code", ""),
    };
    answered_row(
        &badge,
        key,
        label.to_owned(),
        plan.to_owned(),
        read_windows(credits, subscription),
    )
}

/// A monthly share is shown only of an allowance that the account's windows
/// confirm; otherwise the amount is marked as an estimate.
pub proof fn law_unconfirmed_allowance_shows_no_share(
    remaining: Quantity,
    plan: Option<PlanCaps>,
    five_hour: Option<Json>,
    weekly: Option<Json>,
    resets_at_ms: Option<i64>,
)
    ensures
        ({
            let allowance = trusted_allowance(plan, remaining, five_hour, weekly);
            let window = monthly_window(remaining, allowance, resets_at_ms);
            &&& window.estimated <==> window.remaining_percent is None
            &&& window.remaining_percent is Some ==> plan is Some && tells_cap(
                five_hour,
                plan->0.five_hour,
            ) && tells_cap(weekly, plan->0.weekly) && remaining.at_most(plan->0.allowance)
        }),
{
}

/// A row shows of the cookie no more than the key that is its digest: whoever
/// signed in, the same answers give the same row.
pub proof fn law_row_hides_the_cookie(
    first: Seq<char>,
    second: Seq<char>,
    can_ask: bool,
    credits: Reply,
    subscription: Reply,
    now_ms: i64,
)
    ensures
        commandcode_row(
            Some(first),
            can_ask,
            credits,
            subscription,
            now_ms,
        ).key() == key_of("commandcode"@, first) || commandcode_row(
            Some(first),
            can_ask,
            credits,
            subscription,
            now_ms,
        ).key() == key_of("commandcode"@, account_id(subscription.body(), first)),
        commandcode_row(Some(first), can_ask, credits, subscription, now_ms).keyless()
            == commandcode_row(Some(second), can_ask, credits, subscription, now_ms).keyless(),
{
}

/// The windows of five hours and of seven days are told apart by their names,
/// each with what its own use leaves of its own cap; behind them stand the
/// credits of the month, as many as the account states.
pub proof fn law_rolling_windows_keep_their_names(
    cookie: Seq<char>,
    credits: Json,
    body: Json,
    limits: Json,
    five_hour: Json,
    weekly: Json,
    five_hour_cap: Json,
    weekly_cap: Json,
    five_hour_used: Json,
    weekly_used: Json,
    monthly: Json,
    subscription: Reply,
    powers: Seq<Power>,
    now_ms: i64,
)
    requires
        credits.at("credits"@) == Some(body),
        held_under(body, seq!["windowLimits"@, "window_limits"@], limits),
        held_under(limits, seq!["fiveHour"@, "five_hour"@], five_hour),
        limits.at("weekly"@) == Some(weekly),
        held_under(five_hour, seq!["cap"@, "limit"@], five_hour_cap),
        held_under(weekly, seq!["cap"@, "limit"@], weekly_cap),
        five_hour.at("used"@) == Some(five_hour_used),
        weekly.at("used"@) == Some(weekly_used),
        held_under(body, seq!["monthlyCredits"@, "monthly_credits"@], monthly),
        five_hour_cap.measured() is Some && !five_hour_cap.measured()->0.nan()
            && five_hour_cap.measured()->0.rank() > 0,
        weekly_cap.measured() is Some && !weekly_cap.measured()->0.nan()
            && weekly_cap.measured()->0.rank() > 0,
        five_hour_used.measured() is Some,
        weekly_used.measured() is Some,
        monthly.measured() is Some,
    ensures
        ({
            let row = commandcode_row(
                Some(cookie),
                true,
                Reply::Body(credits),
                subscription,
                now_ms,
            ).settled(powers, now_ms);
            let zero = Quantity { bits: 0 };
            let hundred = Quantity { bits: 0x4059_0000_0000_0000 };
            let session_left = five_hour_cap.measured()->0.difference(
                five_hour_used.measured()->0.larger(zero),
            ).larger(zero);
            let week_left = weekly_cap.measured()->0.difference(
                weekly_used.measured()->0.larger(zero),
            ).larger(zero);
            &&& row.provider_id == "commandcode"@
            &&& row.windows.len() == 3
            &&& row.windows[0].label == "5h"@
            &&& row.windows[0].kind is Session
            &&& row.windows[0].remaining_amount == Some(session_left)
            &&& row.windows[0].remaining_percent == Some(
                session_left.quotient(five_hour_cap.measured()->0).product(
                    hundred,
                ).as_percentage(),
            )
            &&& row.windows[0].resets_at_ms == reset_moment(
                at_either(five_hour, "resetAt"@, "reset_at"@),
            )
            &&& row.windows[1].label == "7d"@
            &&& row.windows[1].kind is Weekly
            &&& row.windows[1].remaining_amount == Some(week_left)
            &&& row.windows[1].remaining_percent == Some(
                week_left.quotient(weekly_cap.measured()->0).product(hundred).as_percentage(),
            )
            &&& row.windows[1].resets_at_ms == reset_moment(
                at_either(weekly, "resetAt"@, "reset_at"@),
            )
            &&& row.windows[2].label == "Monthly"@
            &&& row.windows[2].kind is Monthly
            &&& row.windows[2].metric is Credits
            &&& row.windows[2].remaining_amount == Some(monthly.measured()->0.larger(zero))
        }),
{
    lemma_held_under(body, seq!["windowLimits"@, "window_limits"@], limits);
    lemma_held_under(limits, seq!["fiveHour"@, "five_hour"@], five_hour);
    lemma_held_under(five_hour, seq!["cap"@, "limit"@], five_hour_cap);
    lemma_held_under(weekly, seq!["cap"@, "limit"@], weekly_cap);
    lemma_held_under(body, seq!["monthlyCredits"@, "monthly_credits"@], monthly);
    reveal_with_fuel(Formula::value, 7);
}

/// The plans with their monthly allowance, their cap of five hours and that of
/// a week, in dollars: Go has 10, 3 and 6, GOAT 70, 14 and 35, Pro 80, 16 and
/// 40, Max 10x 150, 45 and 90, Max 20x 300, 90 and 180.
pub proof fn law_plans_have_their_caps(plan_id: Seq<char>)
    ensures
        lower(plan_id) == "individual-go"@ ==> plan_of(plan_id) is Some
            && plan_of(plan_id)->0.title@ == "Go"@ && plan_of(plan_id)->0.allowance.bits == 0x4024_0000_0000_0000
            && plan_of(plan_id)->0.five_hour.bits == 0x4008_0000_0000_0000 && plan_of(plan_id)->0.weekly.bits
            == 0x4018_0000_0000_0000,
        lower(plan_id) == "individual-goat"@ ==> plan_of(plan_id) is Some
            && plan_of(plan_id)->0.title@ == "GOAT"@ && plan_of(plan_id)->0.allowance.bits == 0x4051_8000_0000_0000
            && plan_of(plan_id)->0.five_hour.bits == 0x402c_0000_0000_0000 && plan_of(plan_id)->0.weekly.bits
            == 0x4041_8000_0000_0000,
        lower(plan_id) == "individual-pro"@ ==> plan_of(plan_id) is Some
            && plan_of(plan_id)->0.title@ == "Pro"@ && plan_of(plan_id)->0.allowance.bits == 0x4054_0000_0000_0000
            && plan_of(plan_id)->0.five_hour.bits == 0x4030_0000_0000_0000 && plan_of(plan_id)->0.weekly.bits
            == 0x4044_0000_0000_0000,
        lower(plan_id) == "individual-max"@ ==> plan_of(plan_id) is Some
            && plan_of(plan_id)->0.title@ == "Max 10x"@ && plan_of(plan_id)->0.allowance.bits == 0x4062_c000_0000_0000
            && plan_of(plan_id)->0.five_hour.bits == 0x4046_8000_0000_0000 && plan_of(plan_id)->0.weekly.bits
            == 0x4056_8000_0000_0000,
        lower(plan_id) == "individual-ultra"@ ==> plan_of(plan_id) is Some
            && plan_of(plan_id)->0.title@ == "Max 20x"@ && plan_of(plan_id)->0.allowance.bits == 0x4072_c000_0000_0000
            && plan_of(plan_id)->0.five_hour.bits == 0x4056_8000_0000_0000 && plan_of(plan_id)->0.weekly.bits
            == 0x4066_8000_0000_0000,
{
    reveal_strlit("individual-go");
    reveal_strlit("individual-goat");
    reveal_strlit("individual-pro");
    reveal_strlit("individual-max");
    reveal_strlit("individual-ultra");
    assert("individual-go"@.len() == 13);
    assert("individual-goat"@.len() == 15);
    assert("individual-pro"@.len() == 14);
    assert("individual-max"@.len() == 14);
    assert("individual-ultra"@.len() == 16);
    assert("individual-pro"@[11] != "individual-max"@[11]);
}

/// The share of the month is shown only where the caps that the account states
/// are those of its plan and no more remains than the plan allows; it is then in
/// hundredths of the allowance.
pub proof fn law_confirmed_allowance_shows_the_share(
    plan: PlanCaps,
    remaining: Quantity,
    five_hour: Json,
    weekly: Json,
    five_hour_cap: Json,
    weekly_cap: Json,
    resets_at_ms: Option<i64>,
    powers: Seq<Power>,
)
    requires
        held_under(five_hour, seq!["cap"@, "limit"@], five_hour_cap),
        held_under(weekly, seq!["cap"@, "limit"@], weekly_cap),
        five_hour_cap.measured() is Some && !five_hour_cap.measured()->0.nan()
            && five_hour_cap.measured()->0.rank() > 0,
        weekly_cap.measured() is Some && !weekly_cap.measured()->0.nan()
            && weekly_cap.measured()->0.rank() > 0,
        !remaining.nan() && !plan.allowance.nan() && !plan.five_hour.nan() && !plan.weekly.nan(),
    ensures
        ({
            let allowance = trusted_allowance(
                Some(plan),
                remaining,
                Some(five_hour),
                Some(weekly),
            );
            let window = monthly_window(remaining, allowance, resets_at_ms).settled(powers);
            let confirmed = five_hour_cap.measured()->0.rank() == plan.five_hour.rank()
                && weekly_cap.measured()->0.rank() == plan.weekly.rank() && remaining.rank()
                <= plan.allowance.rank();
            &&& confirmed ==> !window.estimated && window.remaining_percent == Some(
                remaining.quotient(plan.allowance).product(
                    Quantity { bits: 0x4059_0000_0000_0000 },
                ).as_percentage(),
            )
            &&& !confirmed ==> window.estimated && window.remaining_percent is None
        }),
{
    lemma_held_under(five_hour, seq!["cap"@, "limit"@], five_hour_cap);
    lemma_held_under(weekly, seq!["cap"@, "limit"@], weekly_cap);
    reveal_with_fuel(Formula::value, 5);
}

/// Of a header only the session's own cookies are passed on, in their order: a
/// cookie that is no part of the session is left out.
pub proof fn law_only_session_cookies_are_passed_on(parts: Seq<Seq<char>>)
    ensures
        forwarded(parts) == parts.filter(
            |part: Seq<char>|
                cookie_pair(part) is Some && (names_session((cookie_pair(part)->0).0) || names_data(
                    (cookie_pair(part)->0).0,
                )),
        ).map_values(
            |part: Seq<char>| (cookie_pair(part)->0).0 + "="@ + (cookie_pair(part)->0).1,
        ),
    decreases parts.len(),
{
    let ours = |part: Seq<char>|
        cookie_pair(part) is Some && (names_session((cookie_pair(part)->0).0) || names_data(
            (cookie_pair(part)->0).0,
        ));
    let passed = |part: Seq<char>| (cookie_pair(part)->0).0 + "="@ + (cookie_pair(part)->0).1;
    if parts.len() == 0 {
        reveal(Seq::filter);
        assert(parts.filter(ours).map_values(passed) =~= Seq::empty());
    } else {
        let before = parts.drop_last();
        law_only_session_cookies_are_passed_on(before);
        assert(parts =~= before.push(parts.last()));
        before.lemma_filter_push(parts.last(), ours);
        assert(before.filter(ours).push(parts.last()).map_values(passed) =~= before.filter(
            ours,
        ).map_values(passed).push(passed(parts.last())));
    }
}

/// The cookies of a session are known by name, in whatever case, with or
/// without the prefixes of secure cookies.
pub proof fn law_session_cookies_are_known_by_name(name: Seq<char>)
    ensures
        names_session(name) <==> lower(name) == "commandcode_prod_.session_token"@ || lower(name)
            == "__secure-commandcode_prod_.session_token"@ || lower(name)
            == "__host-commandcode_prod_.session_token"@,
        names_data(name) <==> lower(name) == "commandcode_prod_.session_data"@ || lower(name)
            == "__secure-commandcode_prod_.session_data"@ || lower(name)
            == "__host-commandcode_prod_.session_data"@,
{
}

/// A cookie is a name and a value around the first equals sign.
pub proof fn law_cookie_is_a_name_and_a_value(part: Seq<char>, at: int)
    requires
        0 <= at < trim(part).len(),
        trim(part)[at] == '=',
        forall|k: int| 0 <= k < at ==> #[trigger] trim(part)[k] != '=',
    ensures
        cookie_pair(part) == Some(
            (trim(trim(part).take(at)), trim(trim(part).skip(at + 1))),
        ),
{
    let text = trim(part);
    assert(text.contains('=')) by {
        assert(text[at] == '=');
    }
    text.index_of_first_ensures('=');
}

} // verus!
