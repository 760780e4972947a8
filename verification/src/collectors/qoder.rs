//! Qoder: own and shared credits.

use vstd::prelude::*;

use crate::collectors::{answered, answered_row, ask, asked, body_of, body_or_row, draft_views};
use crate::collectors::{maybe_draft, no_row, nothing_for, reset_moment, reset_timestamp, Badge};
use crate::collectors::{DraftView, Reply, Row, RowView, WindowDraft, Wording};
use crate::formula::{constant, given, left_of, not_below_zero, share_of, Formula, Power};
use crate::json::{at_either, borrowed, either, either_in, first_of, get_either, get_either_in};
use crate::json::{held_under, lacks, lemma_held_under, measured_in, number_in, said_or, text_or};
use crate::json::Json;
use crate::limits::{WindowKind, WindowMetric};
use crate::quantity::{Quantity, ZERO};
use crate::secrets::{key_of, str_views, Secrets};
use crate::text::{contains, has_text, lower, maybe_str, maybe_text, same, to_lower};

verus! {

pub open spec fn qoder_badge() -> Badge {
    Badge { provider_id: "qoder", source: "web", hue: 141 }
}

pub open spec fn cookie_names() -> Seq<Seq<char>> {
    seq!["TOKEN_MONITOR_QODER_COOKIE"@, "QODER_COOKIE"@]
}

pub fn qoder_cookie(secrets: &Secrets) -> (out: Option<String>)
    requires
        secrets.well_formed(),
    ensures
        maybe_text(out) == secrets.found(cookie_names()),
{
    let names = vec!["TOKEN_MONITOR_QODER_COOKIE", "QODER_COOKIE"];
    assert(str_views(names@) =~= cookie_names());
    secrets.env_secret(&names)
}

/// The setting names the Chinese site.
pub open spec fn in_china(site: Seq<char>) -> bool {
    lower(site) == "cn"@ || lower(site) == "china"@ || contains(lower(site), "qoder.com.cn"@)
}

/// Where Qoder is asked.
pub fn qoder_origin(site: &str) -> (out: &'static str)
    ensures
        out@ == if in_china(site@) {
            "https://qoder.com.cn"@
        } else {
            "https://qoder.com"@
        },
{
    let small = to_lower(site);
    if same(small.as_str(), "cn") || same(small.as_str(), "china") || has_text(
        small.as_str(),
        "qoder.com.cn",
    ) {
        "https://qoder.com.cn"
    } else {
        "https://qoder.com"
    }
}

/// The limit of a quota and what remains of it.
#[derive(Debug)]
pub struct CreditSum {
    pub limit: Quantity,
    pub remaining: Formula,
}

/// The sum of a quota; neither its usage nor its limit may be negative.
pub open spec fn credit_sum(summary: Option<Json>) -> Option<CreditSum> {
    let zero = Quantity { bits: ZERO };
    match summary {
        None => None,
        Some(summary) => match measured_in(at_either(summary, "usedValue"@, "used_value"@)) {
            None => None,
            Some(used) => match measured_in(at_either(summary, "limitValue"@, "limit_value"@)) {
                None => None,
                Some(limit) => if used.below(zero) || limit.below(zero) {
                    None
                } else {
                    Some(
                        CreditSum {
                            limit,
                            remaining: Formula::not_below_zero(
                                match measured_in(
                                    at_either(summary, "remainingValue"@, "remaining_value"@),
                                ) {
                                    Some(remaining) => Formula::Given(remaining),
                                    None => Formula::left(
                                        Formula::Given(limit),
                                        Formula::Given(used),
                                    ),
                                },
                            ),
                        },
                    )
                },
            },
        },
    }
}

pub fn qoder_usage_summary(summary: Option<&Json>) -> (out: Option<CreditSum>)
    ensures
        out == credit_sum(borrowed(summary)),
{
    let zero = Quantity { bits: ZERO };
    let summary = match summary {
        Some(summary) => summary,
        None => {
            return None;
        },
    };
    let used = match number_in(get_either(summary, "usedValue", "used_value")) {
        Some(used) => used,
        None => {
            return None;
        },
    };
    let limit = match number_in(get_either(summary, "limitValue", "limit_value")) {
        Some(limit) => limit,
        None => {
            return None;
        },
    };
    if used.is_below(zero) || limit.is_below(zero) {
        return None;
    }
    let remaining = match number_in(get_either(summary, "remainingValue", "remaining_value")) {
        Some(remaining) => given(remaining),
        None => left_of(given(limit), given(used)),
    };
    Some(CreditSum { limit, remaining: not_below_zero(remaining) })
}

pub open spec fn sum_under(data: Json, first: Seq<char>, second: Seq<char>) -> Option<CreditSum> {
    credit_sum(either_in(at_either(data, first, second), "quotaSummary"@, "quota_summary"@))
}

fn read_sum(data: &Json, first: &str, second: &str) -> (out: Option<CreditSum>)
    ensures
        out == sum_under(*data, first@, second@),
{
    qoder_usage_summary(
        get_either_in(get_either(data, first, second), "quotaSummary", "quota_summary"),
    )
}

pub open spec fn plus(left: Formula, right: Formula) -> Formula {
    Formula::Plus(Box::new(left), Box::new(right))
}

pub open spec fn shared_limit(shared: Option<CreditSum>) -> Quantity {
    match shared {
        Some(sum) => sum.limit,
        None => Quantity { bits: ZERO },
    }
}

pub open spec fn shared_remaining(shared: Option<CreditSum>) -> Formula {
    match shared {
        Some(sum) => sum.remaining,
        None => Formula::of(ZERO),
    }
}

/// The sum of two limits that are not negative is positive: both are numbers
/// and one of them is positive.
pub open spec fn positive_sum(own: Quantity, shared: Quantity) -> bool {
    let zero = Quantity { bits: ZERO };
    !own.nan() && !shared.nan() && (zero.below(own) || zero.below(shared))
}

pub open spec fn data_of(payload: Json) -> Json {
    match payload.at("data"@) {
        Some(data) => data,
        None => payload,
    }
}

/// The credits of an account, its own and those it shares.
pub open spec fn credits_window(payload: Json) -> Option<DraftView> {
    let data = data_of(payload);
    match sum_under(data, "totalQuota"@, "total_quota"@) {
        None => None,
        Some(own) => {
            let shared = sum_under(data, "sharedQuota"@, "shared_quota"@);
            let limit = plus(Formula::Given(own.limit), Formula::Given(shared_limit(shared)));
            let remaining = plus(own.remaining, shared_remaining(shared));
            Some(
                DraftView {
                    label: "Credits"@,
                    kind: WindowKind::Billing,
                    metric: WindowMetric::Credits,
                    remaining_percent: if positive_sum(own.limit, shared_limit(shared)) {
                        Some(Formula::share(remaining, limit))
                    } else {
                        None
                    },
                    remaining_amount: Some(remaining),
                    currency: Some("USD"@),
                    resets_at_ms: reset_moment(at_either(data, "nextResetAt"@, "next_reset_at"@)),
                    reset_text: None,
                    estimated: false,
                },
            )
        },
    }
}

pub fn qoder_window(payload: &Json) -> (out: Option<WindowDraft>)
    ensures
        maybe_draft(out) == credits_window(*payload),
{
    let data = match payload.get("data") {
        Some(data) => data,
        None => payload,
    };
    let own = match read_sum(data, "totalQuota", "total_quota") {
        Some(own) => own,
        None => {
            return None;
        },
    };
    let (shared_limit, shared_remaining) = match read_sum(data, "sharedQuota", "shared_quota") {
        Some(shared) => (shared.limit, shared.remaining),
        None => (Quantity { bits: ZERO }, constant(ZERO)),
    };
    let zero = Quantity { bits: ZERO };
    let positive = !own.limit.is_nan() && !shared_limit.is_nan() && (zero.is_below(own.limit)
        || zero.is_below(shared_limit));
    let limit = Formula::Plus(Box::new(given(own.limit)), Box::new(given(shared_limit)));
    let remaining = Formula::Plus(Box::new(own.remaining), Box::new(shared_remaining));
    let percent = if positive {
        Some(share_of(remaining.clone(), limit))
    } else {
        None
    };
    Some(
        WindowDraft {
            label: "Credits".to_owned(),
            kind: WindowKind::Billing,
            metric: WindowMetric::Credits,
            remaining_percent: percent,
            remaining_amount: Some(remaining),
            currency: Some("USD".to_owned()),
            resets_at_ms: reset_timestamp(get_either(data, "nextResetAt", "next_reset_at")),
            reset_text: None,
            estimated: false,
        },
    )
}

/// The plan that the plan answer names.
pub open spec fn plan_tier(plan: Option<Json>) -> Seq<char> {
    match plan {
        Some(plan) => {
            let data = data_of(plan);
            said_or(
                either(
                    either(at_either(data, "plan_tier"@, "planTier"@), data.at("plan"@)),
                    data.at("tier"@),
                ),
                "Qoder"@,
            )
        },
        None => "Qoder"@,
    }
}

fn read_tier(plan: Option<&Json>) -> (out: String)
    ensures
        out@ == plan_tier(borrowed(plan)),
{
    match plan {
        Some(plan) => {
            let data = match plan.get("data") {
                Some(data) => data,
                None => plan,
            };
            text_or(
                first_of(
                    first_of(get_either(data, "plan_tier", "planTier"), data.get("plan")),
                    data.get("tier"),
                ),
                "Qoder",
            )
        },
        None => "Qoder".to_owned(),
    }
}

pub open spec fn qoder_wording() -> Wording {
    Wording {
        refused: "Qoder usage unavailable",
        failed: "Qoder request failed",
        garbled: "Invalid Qoder JSON",
    }
}

/// The row of a session. The plan is optional.
pub open spec fn qoder_row(
    cookie: Option<Seq<char>>,
    can_ask: bool,
    reply: Reply,
    plan: Option<Json>,
    now_ms: i64,
) -> RowView {
    let badge = qoder_badge();
    let label = "Qoder"@;
    match asked(
        badge,
        "qoder"@,
        label,
        cookie,
        "Qoder session cookie not configured"@,
        can_ask,
        now_ms,
    ) {
        Err(row) => row,
        Ok(key) => match body_or_row(badge, key, label, reply, qoder_wording(), now_ms) {
            Err(row) => row,
            Ok(payload) => match credits_window(payload) {
                None => no_row(badge, key, label, "Qoder response has no credits"@, now_ms),
                Some(window) => answered(
                    badge,
                    key,
                    plan_tier(plan),
                    plan_tier(plan),
                    seq![window],
                ),
            },
        },
    }
}

pub fn collect_qoder(
    cookie: Option<&str>,
    can_ask: bool,
    reply: &Reply,
    plan: Option<&Json>,
    now_ms: i64,
) -> (out: Row)
    ensures
        out@ == qoder_row(maybe_str(cookie), can_ask, *reply, borrowed(plan), now_ms),
{
    let badge = Badge { provider_id: "qoder", source: "web", hue: 141 };
    let label = "Qoder";
    let key = match ask(
        &badge,
        "qoder",
        label,
        cookie,
        "Qoder session cookie not configured",
        can_ask,
        now_ms,
    ) {
        Ok(key) => key,
        Err(row) => {
            return row;
        },
    };
    let wording = Wording {
        refused: "Qoder usage unavailable",
        failed: "Qoder request failed",
        garbled: "Invalid Qoder JSON",
    };
    let payload = match body_of(&badge, key.as_str(), label, reply, &wording, now_ms) {
        Ok(payload) => payload,
        Err(row) => {
            return row;
        },
    };
    match qoder_window(payload) {
        None => nothing_for(&badge, key, label, "Qoder response has no credits", now_ms),
        Some(window) => {
            let ghost view = window@;
            let windows = vec![window];
            assert(draft_views(windows@) =~= seq![view]);
            answered_row(&badge, key, read_tier(plan), read_tier(plan), windows)
        },
    }
}

/// A row shows of the cookie no more than the key that is its digest: whoever
/// signed in, the same answers give the same row.
pub proof fn law_row_hides_the_cookie(
    first: Seq<char>,
    second: Seq<char>,
    can_ask: bool,
    reply: Reply,
    plan: Option<Json>,
    now_ms: i64,
)
    ensures
        qoder_row(Some(first), can_ask, reply, plan, now_ms).key() == key_of("qoder"@, first),
        qoder_row(Some(first), can_ask, reply, plan, now_ms).keyless()
            == qoder_row(Some(second), can_ask, reply, plan, now_ms).keyless(),
{
}

/// The credits are the account's own and those it shares: what remains of both
/// together, and in hundredths of what both grant. What remains of one is what
/// it states, or what its use leaves of its limit.
pub proof fn law_own_and_shared_credits_add_up(
    payload: Json,
    own: CreditSum,
    shared: CreditSum,
    powers: Seq<Power>,
)
    requires
        sum_under(data_of(payload), "totalQuota"@, "total_quota"@) == Some(own),
        sum_under(data_of(payload), "sharedQuota"@, "shared_quota"@) == Some(shared),
    ensures
        credits_window(payload) is Some,
        ({
            let window = credits_window(payload)->0.settled(powers);
            let left = own.remaining.value(powers).sum(shared.remaining.value(powers));
            &&& window.label == "Credits"@
            &&& window.metric is Credits
            &&& window.currency == Some("USD"@)
            &&& window.remaining_amount == Some(left)
            &&& !own.limit.nan() && !shared.limit.nan() && (own.limit.rank() > 0
                || shared.limit.rank() > 0) ==> window.remaining_percent == Some(
                left.quotient(own.limit.sum(shared.limit)).product(
                    Quantity { bits: 0x4059_0000_0000_0000 },
                ).as_percentage(),
            )
            &&& own.limit.rank() == 0 && shared.limit.rank() == 0
                ==> window.remaining_percent is None
        }),
{
    reveal_with_fuel(Formula::value, 6);
}

/// A summary states what was used, the limit and, perhaps, what remains; where
/// it does not, the rest of the limit remains. Nothing that remains is below
/// zero, and a summary with a negative number is none.
pub proof fn law_summary_states_what_remains(
    summary: Json,
    used: Json,
    limit: Json,
    powers: Seq<Power>,
)
    requires
        held_under(summary, seq!["usedValue"@, "used_value"@], used),
        held_under(summary, seq!["limitValue"@, "limit_value"@], limit),
        used.measured() is Some,
        limit.measured() is Some,
        !used.measured()->0.nan(),
        !limit.measured()->0.nan(),
    ensures
        credit_sum(Some(summary)) is Some <==> used.measured()->0.rank() >= 0
            && limit.measured()->0.rank() >= 0,
        credit_sum(Some(summary)) matches Some(sum) ==> {
            let names = seq!["remainingValue"@, "remaining_value"@];
            &&& sum.limit == limit.measured()->0
            &&& lacks(summary, names)
                ==> sum.remaining.value(powers) == limit.measured()->0.difference(
                used.measured()->0,
            ).larger(Quantity { bits: 0 }).larger(Quantity { bits: 0 })
            &&& forall|left: Json| #[trigger]
                held_under(summary, names, left) && left.measured() is Some ==> sum.remaining.value(powers)
                    == left.measured()->0.larger(Quantity { bits: 0 })
        },
{
    lemma_held_under(summary, seq!["usedValue"@, "used_value"@], used);
    lemma_held_under(summary, seq!["limitValue"@, "limit_value"@], limit);
    let names = seq!["remainingValue"@, "remaining_value"@];
    assert forall|left: Json| #[trigger] held_under(summary, names, left) implies
        crate::json::at_either(summary, names[0], names[1]) == Some(left) by {
        lemma_held_under(summary, names, left);
    }
    if lacks(summary, names) {
        assert(summary.at(names[0]) is None && summary.at(names[1]) is None);
    }
    reveal_with_fuel(Formula::value, 4);
}

} // verus!
