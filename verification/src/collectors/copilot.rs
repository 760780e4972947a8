//! GitHub Copilot: quota snapshots.

use vstd::prelude::*;

use crate::collectors::{answered, answered_row, ask, asked, body_of, body_or_row, draft_views};
use crate::collectors::{if_any, maybe_draft, no_row, nothing_for, push_if_any, Badge, DraftView};
use crate::collectors::{Reply, Row, RowView, WindowDraft, Wording};
use crate::formula::{constant, given, hundredths, share_of, Formula, Power};
use crate::json::{at_either, at_key, bool_in, borrowed, either_in, get_either, get_either_in};
use crate::json::{get_in, held_under, lemma_held_under, measured_in, number_in, said_in, said_or};
use crate::json::{str_in, text_or, truth_in, Json};
use crate::limits::{WindowKind, WindowMetric};
use crate::moment::{parse_rfc3339, rfc3339_ms};
use crate::quantity::{HUNDRED, Quantity, ZERO};
use crate::secrets::{key_of, str_views, Secrets};
use crate::text::{maybe_str, maybe_text};

verus! {

pub open spec fn copilot_badge() -> Badge {
    Badge { provider_id: "copilot", source: "api", hue: 75 }
}

pub open spec fn token_names() -> Seq<Seq<char>> {
    seq!["TOKEN_MONITOR_COPILOT_API_TOKEN"@, "COPILOT_API_TOKEN"@, "GITHUB_COPILOT_TOKEN"@]
}

pub fn copilot_token(secrets: &Secrets) -> (out: Option<String>)
    requires
        secrets.well_formed(),
    ensures
        maybe_text(out) == secrets.found(token_names()),
{
    let names = vec![
        "TOKEN_MONITOR_COPILOT_API_TOKEN",
        "COPILOT_API_TOKEN",
        "GITHUB_COPILOT_TOKEN",
    ];
    assert(str_views(names@) =~= token_names());
    secrets.env_secret(&names)
}

/// What is left of a quota: as the answer says, else what remains of a
/// positive entitlement.
pub open spec fn percent_remaining(raw: Json) -> Option<Formula> {
    match measured_in(at_either(raw, "percent_remaining"@, "percentRemaining"@)) {
        Some(percent) => Some(Formula::Given(percent)),
        None => match measured_in(raw.at("entitlement"@)) {
            Some(total) => match measured_in(raw.at("remaining"@)) {
                Some(remaining) => if (Quantity { bits: ZERO }).below(total) {
                    Some(Formula::hundredths(Formula::Given(remaining), Formula::Given(total)))
                } else {
                    None
                },
                None => None,
            },
            None => None,
        },
    }
}

pub open spec fn given_at(raw: Json, key: Seq<char>) -> Option<Formula> {
    match measured_in(raw.at(key)) {
        Some(value) => Some(Formula::Given(value)),
        None => None,
    }
}

/// The window of a quota snapshot; an unlimited one never runs out.
pub open spec fn quota_window(label: Seq<char>, raw: Option<Json>, reset: Option<i64>) -> Option<
    DraftView,
> {
    match raw {
        None => None,
        Some(raw) => if truth_in(raw.at("unlimited"@)) == Some(true) {
            Some(
                DraftView::quota(
                    label,
                    WindowKind::Billing,
                    Some(Formula::of(HUNDRED)),
                    None,
                    None,
                ),
            )
        } else {
            match percent_remaining(raw) {
                Some(percent) => Some(
                    DraftView {
                        label,
                        kind: WindowKind::Billing,
                        metric: WindowMetric::Quota,
                        remaining_percent: Some(Formula::Percentage(Box::new(percent))),
                        remaining_amount: given_at(raw, "remaining"@),
                        currency: None,
                        resets_at_ms: reset,
                        reset_text: None,
                        estimated: false,
                    },
                ),
                None => None,
            }
        },
    }
}

fn read_percent(raw: &Json) -> (out: Option<Formula>)
    ensures
        out == percent_remaining(*raw),
{
    match number_in(get_either(raw, "percent_remaining", "percentRemaining")) {
        Some(percent) => Some(given(percent)),
        None => match number_in(raw.get("entitlement")) {
            Some(total) => match number_in(raw.get("remaining")) {
                Some(remaining) => if (Quantity { bits: ZERO }).is_below(total) {
                    Some(hundredths(given(remaining), given(total)))
                } else {
                    None
                },
                None => None,
            },
            None => None,
        },
    }
}

pub fn copilot_quota_window(label: &str, raw: Option<&Json>, reset: Option<i64>) -> (out: Option<
    WindowDraft,
>)
    ensures
        maybe_draft(out) == quota_window(label@, borrowed(raw), reset),
{
    let raw = match raw {
        Some(raw) => raw,
        None => {
            return None;
        },
    };
    match bool_in(raw.get("unlimited")) {
        Some(true) => {
            return Some(
                WindowDraft::quota(
                    label,
                    WindowKind::Billing,
                    Some(constant(HUNDRED)),
                    None,
                    None,
                ),
            );
        },
        _ => {},
    }
    match read_percent(raw) {
        Some(percent) => {
            let remaining_amount = match number_in(raw.get("remaining")) {
                Some(remaining) => Some(given(remaining)),
                None => None,
            };
            Some(
                WindowDraft {
                    label: label.to_owned(),
                    kind: WindowKind::Billing,
                    metric: WindowMetric::Quota,
                    remaining_percent: Some(Formula::Percentage(Box::new(percent))),
                    remaining_amount,
                    currency: None,
                    resets_at_ms: reset,
                    reset_text: None,
                    estimated: false,
                },
            )
        },
        None => None,
    }
}

/// The moment that a text in RFC 3339 form names.
pub open spec fn reset_of(payload: Json) -> Option<i64> {
    match said_in(at_either(payload, "quota_reset_date"@, "quotaResetDate"@)) {
        Some(text) => rfc3339_ms(text),
        None => None,
    }
}

fn copilot_reset(payload: &Json) -> (out: Option<i64>)
    ensures
        out == reset_of(*payload),
{
    match str_in(get_either(payload, "quota_reset_date", "quotaResetDate")) {
        Some(text) => parse_rfc3339(text),
        None => None,
    }
}

/// A window of the limited plan, where both its numbers are told.
pub open spec fn limited_window(payload: Json, label: Seq<char>, key: Seq<char>) -> Option<
    DraftView,
> {
    let monthly = at_either(payload, "monthly_quotas"@, "monthlyQuotas"@);
    let limited = at_either(payload, "limited_user_quotas"@, "limitedUserQuotas"@);
    match measured_in(at_key(monthly, key)) {
        Some(entitlement) => match measured_in(at_key(limited, key)) {
            Some(remaining) => Some(
                DraftView {
                    label,
                    kind: WindowKind::Billing,
                    metric: WindowMetric::Quota,
                    remaining_percent: Some(
                        Formula::share(Formula::Given(remaining), Formula::Given(entitlement)),
                    ),
                    remaining_amount: Some(Formula::Given(remaining)),
                    currency: None,
                    resets_at_ms: reset_of(payload),
                    reset_text: None,
                    estimated: false,
                },
            ),
            None => None,
        },
        None => None,
    }
}

fn read_limited_window(payload: &Json, label: &str, key: &str) -> (out: Option<WindowDraft>)
    ensures
        maybe_draft(out) == limited_window(*payload, label@, key@),
{
    let monthly = get_either(payload, "monthly_quotas", "monthlyQuotas");
    let limited = get_either(payload, "limited_user_quotas", "limitedUserQuotas");
    match number_in(get_in(monthly, key)) {
        Some(entitlement) => match number_in(get_in(limited, key)) {
            Some(remaining) => Some(
                WindowDraft {
                    label: label.to_owned(),
                    kind: WindowKind::Billing,
                    metric: WindowMetric::Quota,
                    remaining_percent: Some(share_of(given(remaining), given(entitlement))),
                    remaining_amount: Some(given(remaining)),
                    currency: None,
                    resets_at_ms: copilot_reset(payload),
                    reset_text: None,
                    estimated: false,
                },
            ),
            None => None,
        },
        None => None,
    }
}

/// The windows of an answer: its quota snapshots, else the limited plan.
pub open spec fn usage_windows(payload: Json) -> Seq<DraftView> {
    let snapshots = at_either(payload, "quota_snapshots"@, "quotaSnapshots"@);
    let shown = if_any(
        quota_window(
            "Premium"@,
            either_in(snapshots, "premium_interactions"@, "premiumInteractions"@),
            reset_of(payload),
        ),
    ) + if_any(quota_window("Chat"@, at_key(snapshots, "chat"@), reset_of(payload)));
    if shown.len() == 0 {
        if_any(limited_window(payload, "Premium"@, "completions"@)) + if_any(
            limited_window(payload, "Chat"@, "chat"@),
        )
    } else {
        shown
    }
}

pub fn copilot_windows(payload: &Json) -> (out: Vec<WindowDraft>)
    ensures
        draft_views(out@) == usage_windows(*payload),
{
    let reset = copilot_reset(payload);
    let snapshots = get_either(payload, "quota_snapshots", "quotaSnapshots");
    let mut out: Vec<WindowDraft> = Vec::new();
    assert(draft_views(out@) =~= Seq::empty());
    push_if_any(
        &mut out,
        copilot_quota_window(
            "Premium",
            get_either_in(snapshots, "premium_interactions", "premiumInteractions"),
            reset,
        ),
    );
    push_if_any(&mut out, copilot_quota_window("Chat", get_in(snapshots, "chat"), reset));
    let ghost shown = if_any(
        quota_window(
            "Premium"@,
            either_in(borrowed(snapshots), "premium_interactions"@, "premiumInteractions"@),
            reset,
        ),
    ) + if_any(quota_window("Chat"@, at_key(borrowed(snapshots), "chat"@), reset));
    assert(draft_views(out@) =~= shown);
    if out.len() == 0 {
        push_if_any(&mut out, read_limited_window(payload, "Premium", "completions"));
        push_if_any(&mut out, read_limited_window(payload, "Chat", "chat"));
        assert(draft_views(out@) =~= usage_windows(*payload));
    }
    out
}

pub open spec fn copilot_wording() -> Wording {
    Wording {
        refused: "Copilot usage unavailable",
        failed: "Copilot request failed",
        garbled: "Invalid Copilot JSON",
    }
}

/// The row of the API token. Who is logged in is optional.
pub open spec fn copilot_row(
    token: Option<Seq<char>>,
    can_ask: bool,
    reply: Reply,
    login: Option<Json>,
    now_ms: i64,
) -> RowView {
    let badge = copilot_badge();
    let label = "Copilot"@;
    match asked(
        badge,
        "copilot"@,
        label,
        token,
        "Copilot API token not configured"@,
        can_ask,
        now_ms,
    ) {
        Err(row) => row,
        Ok(key) => match body_or_row(badge, key, label, reply, copilot_wording(), now_ms) {
            Err(row) => row,
            Ok(payload) => if usage_windows(payload).len() == 0 {
                no_row(badge, key, label, "Copilot response has no usable quota"@, now_ms)
            } else {
                answered(
                    badge,
                    key,
                    said_or(at_key(login, "login"@), label),
                    said_or(at_either(payload, "copilot_plan"@, "copilotPlan"@), label),
                    usage_windows(payload),
                )
            },
        },
    }
}

pub fn collect_copilot(
    token: Option<&str>,
    can_ask: bool,
    reply: &Reply,
    login: Option<&Json>,
    now_ms: i64,
) -> (out: Row)
    ensures
        out@ == copilot_row(maybe_str(token), can_ask, *reply, borrowed(login), now_ms),
{
    let badge = Badge { provider_id: "copilot", source: "api", hue: 75 };
    let label = "Copilot";
    let key = match ask(
        &badge,
        "copilot",
        label,
        token,
        "Copilot API token not configured",
        can_ask,
        now_ms,
    ) {
        Ok(key) => key,
        Err(row) => {
            return row;
        },
    };
    let wording = Wording {
        refused: "Copilot usage unavailable",
        failed: "Copilot request failed",
        garbled: "Invalid Copilot JSON",
    };
    let payload = match body_of(&badge, key.as_str(), label, reply, &wording, now_ms) {
        Ok(payload) => payload,
        Err(row) => {
            return row;
        },
    };
    let windows = copilot_windows(payload);
    if windows.len() == 0 {
        return nothing_for(
            &badge,
            key,
            label,
            "Copilot response has no usable quota",
            now_ms,
        );
    }
    let account = text_or(get_in(login, "login"), label);
    let plan = text_or(get_either(payload, "copilot_plan", "copilotPlan"), label);
    answered_row(&badge, key, account, plan, windows)
}

/// A row shows of the token no more than the key that is its digest: whoever
/// signed in, the same answers give the same row.
pub proof fn law_row_hides_the_token(
    first: Seq<char>,
    second: Seq<char>,
    can_ask: bool,
    reply: Reply,
    login: Option<Json>,
    now_ms: i64,
)
    ensures
        copilot_row(Some(first), can_ask, reply, login, now_ms).key() == key_of("copilot"@, first),
        copilot_row(Some(first), can_ask, reply, login, now_ms).keyless()
            == copilot_row(Some(second), can_ask, reply, login, now_ms).keyless(),
{
}

/// The premium requests and the chat are told apart by their names, and each
/// shows the percentage that is stated for it, within zero and one hundred.
pub proof fn law_quotas_keep_their_names(
    token: Seq<char>,
    payload: Json,
    login: Option<Json>,
    snapshots: Json,
    premium: Json,
    chat: Json,
    premium_left: Json,
    chat_left: Json,
    powers: Seq<Power>,
    now_ms: i64,
)
    requires
        held_under(payload, seq!["quota_snapshots"@, "quotaSnapshots"@], snapshots),
        held_under(snapshots, seq!["premium_interactions"@, "premiumInteractions"@], premium),
        snapshots.at("chat"@) == Some(chat),
        premium.at("unlimited"@) is None,
        chat.at("unlimited"@) is None,
        held_under(premium, seq!["percent_remaining"@, "percentRemaining"@], premium_left),
        held_under(chat, seq!["percent_remaining"@, "percentRemaining"@], chat_left),
        premium_left.measured() is Some,
        chat_left.measured() is Some,
    ensures
        ({
            let row = copilot_row(Some(token), true, Reply::Body(payload), login, now_ms).settled(
                powers,
                now_ms,
            );
            &&& row.provider_id == "copilot"@
            &&& row.windows.len() == 2
            &&& row.windows[0].label == "Premium"@
            &&& row.windows[0].kind is Billing
            &&& row.windows[0].remaining_percent == Some(
                premium_left.measured()->0.as_percentage(),
            )
            &&& row.windows[1].label == "Chat"@
            &&& row.windows[1].kind is Billing
            &&& row.windows[1].remaining_percent == Some(chat_left.measured()->0.as_percentage())
        }),
{
    lemma_held_under(payload, seq!["quota_snapshots"@, "quotaSnapshots"@], snapshots);
    lemma_held_under(snapshots, seq!["premium_interactions"@, "premiumInteractions"@], premium);
    lemma_held_under(premium, seq!["percent_remaining"@, "percentRemaining"@], premium_left);
    lemma_held_under(chat, seq!["percent_remaining"@, "percentRemaining"@], chat_left);
    reveal_with_fuel(Formula::value, 4);
}

/// A quota without limits is whole.
pub proof fn law_unlimited_quota_is_whole(
    label: Seq<char>,
    raw: Json,
    reset: Option<i64>,
    powers: Seq<Power>,
)
    requires
        raw.at("unlimited"@) == Some(Json::Bool(true)),
    ensures
        quota_window(label, Some(raw), reset) is Some,
        quota_window(label, Some(raw), reset)->0.settled(powers).label == label,
        quota_window(label, Some(raw), reset)->0.settled(powers).remaining_percent == Some(
            Quantity { bits: 0x4059_0000_0000_0000 },
        ),
{
    reveal_with_fuel(Formula::value, 2);
}

/// A quota that states no percentage shows what remains in hundredths of what
/// it grants, where it grants anything.
pub proof fn law_remaining_requests_make_a_percentage(
    label: Seq<char>,
    raw: Json,
    total: Json,
    left: Json,
    reset: Option<i64>,
    powers: Seq<Power>,
)
    requires
        raw.at("unlimited"@) is None,
        raw.at("percent_remaining"@) is None,
        raw.at("percentRemaining"@) is None,
        raw.at("entitlement"@) == Some(total),
        raw.at("remaining"@) == Some(left),
        total.measured() is Some,
        left.measured() is Some,
        !total.measured()->0.nan(),
    ensures
        quota_window(label, Some(raw), reset) is Some <==> total.measured()->0.rank() > 0,
        total.measured()->0.rank() > 0 ==> {
            let window = quota_window(label, Some(raw), reset)->0.settled(powers);
            &&& window.label == label
            &&& window.remaining_percent == Some(
                left.measured()->0.quotient(total.measured()->0).product(
                    Quantity { bits: 0x4059_0000_0000_0000 },
                ).as_percentage(),
            )
            &&& window.remaining_amount == left.measured()
            &&& window.resets_at_ms == reset
        },
{
    reveal_with_fuel(Formula::value, 5);
}

/// Without snapshots the premium requests are the completions of the month, and
/// the chat is the chat: what remains of each in hundredths of its own quota.
pub proof fn law_monthly_quotas_keep_their_names(
    payload: Json,
    monthly: Json,
    limited: Json,
    premium_quota: Json,
    premium_left: Json,
    chat_quota: Json,
    chat_left: Json,
    powers: Seq<Power>,
)
    requires
        payload.at("quota_snapshots"@) is None,
        payload.at("quotaSnapshots"@) is None,
        held_under(payload, seq!["monthly_quotas"@, "monthlyQuotas"@], monthly),
        held_under(payload, seq!["limited_user_quotas"@, "limitedUserQuotas"@], limited),
        monthly.at("completions"@) == Some(premium_quota),
        monthly.at("chat"@) == Some(chat_quota),
        limited.at("completions"@) == Some(premium_left),
        limited.at("chat"@) == Some(chat_left),
        premium_quota.measured() is Some,
        premium_left.measured() is Some,
        chat_quota.measured() is Some,
        chat_left.measured() is Some,
    ensures
        ({
            let windows = crate::collectors::settled_windows(usage_windows(payload), powers);
            &&& windows.len() == 2
            &&& windows[0].label == "Premium"@
            &&& windows[0].remaining_amount == premium_left.measured()
            &&& windows[0].remaining_percent == Some(
                premium_left.measured()->0.quotient(premium_quota.measured()->0).product(
                    Quantity { bits: 0x4059_0000_0000_0000 },
                ).as_percentage(),
            )
            &&& windows[1].label == "Chat"@
            &&& windows[1].remaining_amount == chat_left.measured()
            &&& windows[1].remaining_percent == Some(
                chat_left.measured()->0.quotient(chat_quota.measured()->0).product(
                    Quantity { bits: 0x4059_0000_0000_0000 },
                ).as_percentage(),
            )
        }),
{
    lemma_held_under(payload, seq!["monthly_quotas"@, "monthlyQuotas"@], monthly);
    lemma_held_under(payload, seq!["limited_user_quotas"@, "limitedUserQuotas"@], limited);
    reveal_with_fuel(Formula::value, 5);
}

} // verus!
