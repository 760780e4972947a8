//! OpenRouter: key limits and credits.

use vstd::prelude::*;

use crate::collectors::{answered, answered_row, ask, asked, draft_views, if_any, maybe_draft};
use crate::collectors::{missing, missing_row, push_if_any, unavailable_for, Badge, DraftView};
use crate::collectors::{Failure, FailureView, Reply, Row, RowView, WindowDraft};
use crate::formula::{constant, given, hundredths, left_of, share_of, Formula, Power};
use crate::json::{at_key, bool_in, borrowed, get_in, measured_in, number_in, said_or, text_or};
use crate::json::{truth_in, Json};
use crate::limits::{WindowKind, WindowMetric};
use crate::quantity::{HUNDRED, Quantity, ZERO};
use crate::secrets::{key_of, str_views, Secrets};
use crate::text::{lower, maybe_str, maybe_text, same, to_lower};

verus! {

pub open spec fn openrouter_badge() -> Badge {
    Badge { provider_id: "openrouter", source: "api", hue: 141 }
}

pub open spec fn token_names() -> Seq<Seq<char>> {
    seq!["TOKEN_MONITOR_OPENROUTER_API_KEY"@, "OPENROUTER_API_KEY"@]
}

pub fn openrouter_token(secrets: &Secrets) -> (out: Option<String>)
    requires
        secrets.well_formed(),
    ensures
        maybe_text(out) == secrets.found(token_names()),
{
    let names = vec!["TOKEN_MONITOR_OPENROUTER_API_KEY", "OPENROUTER_API_KEY"];
    assert(str_views(names@) =~= token_names());
    secrets.env_secret(&names)
}

/// What is left of the key's limit: as the answer says, else the limit less
/// what was used.
pub open spec fn key_remaining(data: Option<Json>, limit: Quantity) -> Formula {
    match measured_in(at_key(data, "limit_remaining"@)) {
        Some(remaining) => Formula::Given(remaining),
        None => Formula::left(
            Formula::Given(limit),
            match measured_in(at_key(data, "usage"@)) {
                Some(used) => Formula::Given(used),
                None => Formula::left(Formula::Given(limit), Formula::of(ZERO)),
            },
        ),
    }
}

/// How often a limit resets, in lower case.
pub open spec fn key_reset(data: Option<Json>) -> Seq<char> {
    lower(said_or(at_key(data, "limit_reset"@), ""@))
}

pub open spec fn reset_kind(reset: Seq<char>) -> (WindowKind, Seq<char>) {
    if reset == "daily"@ {
        (WindowKind::Session, "Daily limit"@)
    } else if reset == "weekly"@ {
        (WindowKind::Weekly, "Weekly limit"@)
    } else if reset == "monthly"@ {
        (WindowKind::Monthly, "Monthly limit"@)
    } else {
        (WindowKind::Billing, "API key limit"@)
    }
}

/// The limit of the key, where it has a positive one.
pub open spec fn key_window(data: Option<Json>) -> Option<DraftView> {
    match measured_in(at_key(data, "limit"@)) {
        Some(limit) => if limit.at_most(Quantity { bits: ZERO }) {
            None
        } else {
            let remaining = key_remaining(data, limit);
            Some(
                DraftView {
                    label: reset_kind(key_reset(data)).1,
                    kind: reset_kind(key_reset(data)).0,
                    metric: WindowMetric::Quota,
                    remaining_percent: Some(Formula::share(remaining, Formula::Given(limit))),
                    remaining_amount: Some(remaining),
                    currency: Some("USD"@),
                    resets_at_ms: None,
                    reset_text: if key_reset(data).len() == 0 {
                        None
                    } else {
                        Some(key_reset(data))
                    },
                    estimated: false,
                },
            )
        },
        None => None,
    }
}

pub fn openrouter_key_window(data: Option<&Json>) -> (out: Option<WindowDraft>)
    ensures
        maybe_draft(out) == key_window(borrowed(data)),
{
    let limit = match number_in(get_in(data, "limit")) {
        Some(limit) => limit,
        None => {
            return None;
        },
    };
    if limit.is_at_most(Quantity { bits: ZERO }) {
        return None;
    }
    let remaining = match number_in(get_in(data, "limit_remaining")) {
        Some(remaining) => given(remaining),
        None => {
            let used = match number_in(get_in(data, "usage")) {
                Some(used) => given(used),
                None => left_of(given(limit), constant(ZERO)),
            };
            left_of(given(limit), used)
        },
    };
    let reset = to_lower(text_or(get_in(data, "limit_reset"), "").as_str());
    let (kind, label) = if same(reset.as_str(), "daily") {
        (WindowKind::Session, "Daily limit")
    } else if same(reset.as_str(), "weekly") {
        (WindowKind::Weekly, "Weekly limit")
    } else if same(reset.as_str(), "monthly") {
        (WindowKind::Monthly, "Monthly limit")
    } else {
        (WindowKind::Billing, "API key limit")
    };
    let reset_text = if reset.as_str().is_empty() {
        None
    } else {
        Some(reset)
    };
    Some(
        WindowDraft {
            label: label.to_owned(),
            kind,
            metric: WindowMetric::Quota,
            remaining_percent: Some(share_of(remaining.clone(), given(limit))),
            remaining_amount: Some(remaining),
            currency: Some("USD".to_owned()),
            resets_at_ms: None,
            reset_text,
            estimated: false,
        },
    )
}

/// The credits of the account; none of them may be negative.
pub open spec fn credit_window(data: Option<Json>) -> Option<DraftView> {
    let zero = Quantity { bits: ZERO };
    match measured_in(at_key(data, "total_credits"@)) {
        Some(total) => match measured_in(at_key(data, "total_usage"@)) {
            Some(used) => if total.below(zero) || used.below(zero) {
                None
            } else {
                let remaining = Formula::left(Formula::Given(total), Formula::Given(used));
                Some(
                    DraftView {
                        label: "Credits"@,
                        kind: WindowKind::Billing,
                        metric: WindowMetric::Credits,
                        remaining_percent: Some(
                            if zero.below(total) {
                                Formula::hundredths(remaining, Formula::Given(total))
                            } else {
                                Formula::of(HUNDRED)
                            },
                        ),
                        remaining_amount: Some(remaining),
                        currency: Some("USD"@),
                        resets_at_ms: None,
                        reset_text: None,
                        estimated: false,
                    },
                )
            },
            None => None,
        },
        None => None,
    }
}

pub fn openrouter_credit_window(data: Option<&Json>) -> (out: Option<WindowDraft>)
    ensures
        maybe_draft(out) == credit_window(borrowed(data)),
{
    let zero = Quantity { bits: ZERO };
    let total = match number_in(get_in(data, "total_credits")) {
        Some(total) => total,
        None => {
            return None;
        },
    };
    let used = match number_in(get_in(data, "total_usage")) {
        Some(used) => used,
        None => {
            return None;
        },
    };
    if total.is_below(zero) || used.is_below(zero) {
        return None;
    }
    let percent = if zero.is_below(total) {
        hundredths(left_of(given(total), given(used)), given(total))
    } else {
        constant(HUNDRED)
    };
    Some(
        WindowDraft {
            label: "Credits".to_owned(),
            kind: WindowKind::Billing,
            metric: WindowMetric::Credits,
            remaining_percent: Some(percent),
            remaining_amount: Some(left_of(given(total), given(used))),
            currency: Some("USD".to_owned()),
            resets_at_ms: None,
            reset_text: None,
            estimated: false,
        },
    )
}

/// The plan that the key tells.
pub open spec fn key_plan(data: Option<Json>) -> Seq<char> {
    match truth_in(at_key(data, "is_free_tier"@)) {
        Some(free) => if free {
            "Free"@
        } else {
            "Pay-as-you-go"@
        },
        None => if truth_in(at_key(data, "is_management_key"@)) == Some(true) {
            "Management"@
        } else {
            ""@
        },
    }
}

fn read_plan(data: Option<&Json>) -> (out: &'static str)
    ensures
        out@ == key_plan(borrowed(data)),
{
    match bool_in(get_in(data, "is_free_tier")) {
        Some(free) => if free {
            "Free"
        } else {
            "Pay-as-you-go"
        },
        None => match bool_in(get_in(data, "is_management_key")) {
            Some(true) => "Management",
            _ => "",
        },
    }
}

/// The row of the API key. One of the two answers is enough.
pub open spec fn openrouter_row(
    token: Option<Seq<char>>,
    can_ask: bool,
    key_reply: Reply,
    credits_reply: Reply,
    now_ms: i64,
) -> RowView {
    let badge = openrouter_badge();
    let label = "environment"@;
    match asked(badge, "openrouter"@, label, token, "API key not configured"@, can_ask, now_ms) {
        Err(row) => row,
        Ok(key) => {
            let key_data = at_key(key_reply.body(), "data"@);
            let credits_data = at_key(credits_reply.body(), "data"@);
            let windows = if_any(key_window(key_data)) + if_any(credit_window(credits_data));
            if key_reply.body() is None && credits_reply.body() is None {
                RowView::Missing(
                    missing_row(
                        badge,
                        key,
                        label,
                        FailureView {
                            health: key_reply.health(),
                            detail: "OpenRouter credentials or API unavailable"@,
                        },
                        now_ms,
                    ),
                )
            } else if windows.len() == 0 {
                RowView::Missing(
                    missing_row(
                        badge,
                        key,
                        label,
                        crate::collectors::unavailable(
                            "No recognized credit or key-limit fields"@,
                        ),
                        now_ms,
                    ),
                )
            } else {
                answered(badge, key, label, key_plan(key_data), windows)
            }
        },
    }
}

pub fn collect_openrouter(
    token: Option<&str>,
    can_ask: bool,
    key_reply: &Reply,
    credits_reply: &Reply,
    now_ms: i64,
) -> (out: Row)
    ensures
        out@ == openrouter_row(maybe_str(token), can_ask, *key_reply, *credits_reply, now_ms),
{
    let badge = Badge { provider_id: "openrouter", source: "api", hue: 141 };
    let label = "environment";
    let key = match ask(
        &badge,
        "openrouter",
        label,
        token,
        "API key not configured",
        can_ask,
        now_ms,
    ) {
        Ok(key) => key,
        Err(row) => {
            return row;
        },
    };
    if key_reply.ok().is_none() && credits_reply.ok().is_none() {
        let failure = Failure {
            health: key_reply.source_health(),
            detail: "OpenRouter credentials or API unavailable".to_owned(),
        };
        return missing(&badge, key, label.to_owned(), failure, now_ms);
    }
    let key_data = get_in(key_reply.ok(), "data");
    let mut windows: Vec<WindowDraft> = Vec::new();
    assert(draft_views(windows@) =~= Seq::empty());
    push_if_any(&mut windows, openrouter_key_window(key_data));
    push_if_any(
        &mut windows,
        openrouter_credit_window(get_in(credits_reply.ok(), "data")),
    );
    assert(draft_views(windows@) =~= if_any(key_window(borrowed(key_data))) + if_any(
        credit_window(at_key(credits_reply.body(), "data"@)),
    ));
    if windows.len() == 0 {
        return missing(
            &badge,
            key,
            label.to_owned(),
            unavailable_for("No recognized credit or key-limit fields"),
            now_ms,
        );
    }
    answered_row(&badge, key, label.to_owned(), read_plan(key_data).to_owned(), windows)
}

/// A row shows of the token no more than the key that is its digest: whoever
/// signed in, the same answers give the same row.
pub proof fn law_row_hides_the_token(
    first: Seq<char>,
    second: Seq<char>,
    can_ask: bool,
    key_reply: Reply,
    credits_reply: Reply,
    now_ms: i64,
)
    ensures
        openrouter_row(
            Some(first),
            can_ask,
            key_reply,
            credits_reply,
            now_ms,
        ).key() == key_of("openrouter"@, first),
        openrouter_row(Some(first), can_ask, key_reply, credits_reply, now_ms).keyless()
            == openrouter_row(Some(second), can_ask, key_reply, credits_reply, now_ms).keyless(),
{
}

/// The limit of the key and the credits are two windows: the key's share is
/// what remains of its own limit, the credits are what the account has bought
/// less what it has used. The reset that the key states says how long its
/// window lasts.
pub proof fn law_key_limit_and_credits_are_apart(
    token: Seq<char>,
    key_body: Json,
    credits_body: Json,
    key_data: Json,
    credits_data: Json,
    limit: Json,
    left: Json,
    bought: Json,
    used: Json,
    powers: Seq<Power>,
    now_ms: i64,
)
    requires
        key_body.at("data"@) == Some(key_data),
        credits_body.at("data"@) == Some(credits_data),
        key_data.at("limit"@) == Some(limit),
        key_data.at("limit_remaining"@) == Some(left),
        credits_data.at("total_credits"@) == Some(bought),
        credits_data.at("total_usage"@) == Some(used),
        limit.measured() is Some && !limit.measured()->0.nan() && limit.measured()->0.rank() > 0,
        left.measured() is Some,
        bought.measured() is Some && !bought.measured()->0.nan() && bought.measured()->0.rank() > 0,
        used.measured() is Some && !used.measured()->0.nan() && used.measured()->0.rank() >= 0,
    ensures
        ({
            let row = openrouter_row(
                Some(token),
                true,
                Reply::Body(key_body),
                Reply::Body(credits_body),
                now_ms,
            ).settled(powers, now_ms);
            let rest = bought.measured()->0.difference(used.measured()->0).larger(
                Quantity { bits: 0 },
            );
            &&& row.provider_id == "openrouter"@
            &&& row.windows.len() == 2
            &&& row.windows[0].metric is Quota
            &&& row.windows[0].remaining_amount == left.measured()
            &&& row.windows[0].remaining_percent == Some(
                left.measured()->0.quotient(limit.measured()->0).product(
                    Quantity { bits: 0x4059_0000_0000_0000 },
                ).as_percentage(),
            )
            &&& row.windows[0].currency == Some("USD"@)
            &&& row.windows[1].label == "Credits"@
            &&& row.windows[1].metric is Credits
            &&& row.windows[1].kind is Billing
            &&& row.windows[1].remaining_amount == Some(rest)
            &&& row.windows[1].remaining_percent == Some(
                rest.quotient(bought.measured()->0).product(
                    Quantity { bits: 0x4059_0000_0000_0000 },
                ),
            )
        }),
{
    reveal_with_fuel(Formula::value, 6);
}

/// A key says in whatever case how often its limit comes back.
pub proof fn law_key_reset_names_its_window(data: Json, reset: Json, text: Seq<char>)
    requires
        data.at("limit_reset"@) == Some(reset),
        reset.said() == Some(text),
    ensures
        lower(text) == "daily"@ ==> reset_kind(key_reset(Some(data))) == (
            WindowKind::Session,
            "Daily limit"@,
        ),
        lower(text) == "weekly"@ ==> reset_kind(key_reset(Some(data))) == (
            WindowKind::Weekly,
            "Weekly limit"@,
        ),
        lower(text) == "monthly"@ ==> reset_kind(key_reset(Some(data))) == (
            WindowKind::Monthly,
            "Monthly limit"@,
        ),
        key_window(Some(data)) matches Some(window) ==> window.kind == reset_kind(lower(text)).0
            && window.label == reset_kind(lower(text)).1,
{
    reveal_strlit("daily");
    reveal_strlit("weekly");
    reveal_strlit("monthly");
    assert("daily"@.len() != "weekly"@.len());
    assert("monthly"@.len() != "weekly"@.len());
    assert("monthly"@.len() != "daily"@.len());
}

/// Where the key does not say what remains, it is what its use leaves of the
/// limit.
pub proof fn law_use_leaves_the_rest_of_the_limit(
    data: Json,
    limit: Json,
    used: Json,
    powers: Seq<Power>,
)
    requires
        data.at("limit"@) == Some(limit),
        data.at("limit_remaining"@) is None,
        data.at("usage"@) == Some(used),
        limit.measured() is Some && !limit.measured()->0.nan() && limit.measured()->0.rank() > 0,
        used.measured() is Some,
    ensures
        key_window(Some(data)) is Some,
        key_window(Some(data))->0.settled(powers).remaining_amount == Some(
            limit.measured()->0.difference(used.measured()->0).larger(Quantity { bits: 0 }),
        ),
{
    reveal_with_fuel(Formula::value, 5);
}

/// A key of the free tier is on the free plan, one that is not pays as it goes. Where
/// the tier is not told, a management key says that it is one.
pub proof fn law_tier_names_the_plan(data: Json, tier: Json, management: Json)
    ensures
        data.at("is_free_tier"@) == Some(tier) && tier.truth() == Some(true) ==> key_plan(
            Some(data),
        ) == "Free"@,
        data.at("is_free_tier"@) == Some(tier) && tier.truth() == Some(false) ==> key_plan(
            Some(data),
        ) == "Pay-as-you-go"@,
        data.at("is_free_tier"@) is None && data.at("is_management_key"@) == Some(management)
            && management.truth() == Some(true) ==> key_plan(Some(data)) == "Management"@,
{
}

} // verus!
