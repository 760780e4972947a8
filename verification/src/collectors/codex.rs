//! Codex: rate-limit windows of a ChatGPT account.

use vstd::prelude::*;

use crate::collectors::{ask, asked, body_of, body_or_row, draft_views, if_any, maybe_draft};
use crate::collectors::{push_if_any, reset_duration_text, seconds_until, span_text, thousandfold};
use crate::collectors::{Badge, DraftView, Reply, Row, RowDraftView, RowView, WindowDraft, Wording};
use crate::collectors::cursor::{percent_left, remaining_percent};
use crate::counts::clamped;
use crate::formula::{Formula, Power};
use crate::json::{at_either, at_key, borrowed, either, first_of, get_either, get_in, held_under};
use crate::json::{i64_in, lacks, lemma_held_under, measured_in, number_in, or_at, or_get, said_in};
use crate::json::{said_or, str_in, text_in, text_or, whole_in, Json};
use crate::limits::WindowKind;
use crate::quantity::Quantity;
use crate::secrets::key_of;
use crate::text::{lower, maybe_str, maybe_text, parse_i64, same, signed_decimal, signed_text};
use crate::text::{spelled_i64, texts, to_lower, trim, trimmed};

verus! {

pub open spec fn codex_badge() -> Badge {
    Badge { provider_id: "codex", source: "oauth", hue: 43 }
}

/// Thirty days in minutes and in seconds, by their bits.
pub const MONTH_MINUTES: u64 = 0x40e5_1800_0000_0000;

pub const MONTH_SECONDS: u64 = 0x4143_c680_0000_0000;

/// Seven days in minutes and in seconds, by their bits.
pub const WEEK_MINUTES: u64 = 0x40c3_b000_0000_0000;

pub const WEEK_SECONDS: u64 = 0x4122_7500_0000_0000;

/// One day in minutes and in seconds, by their bits.
pub const DAY_MINUTES: u64 = 0x4096_8000_0000_0000;

pub const DAY_SECONDS: u64 = 0x40f5_1800_0000_0000;

/// The token and the account that an authentication document names.
pub open spec fn codex_login(document: Option<Json>) -> Option<(Seq<char>, Option<Seq<char>>)> {
    match document {
        Some(document) => {
            let tokens = document.at("tokens"@);
            match said_in(
                either(at_key(tokens, "access_token"@), document.at("access_token"@)),
            ) {
                Some(token) => if trim(token).len() == 0 {
                    None
                } else {
                    Some(
                        (
                            token,
                            said_in(
                                either(at_key(tokens, "account_id"@), document.at("account_id"@)),
                            ),
                        ),
                    )
                },
                None => None,
            }
        },
        None => None,
    }
}

pub open spec fn login_view(login: Option<(String, Option<String>)>) -> Option<
    (Seq<char>, Option<Seq<char>>),
> {
    match login {
        Some((token, account)) => Some((token@, maybe_text(account))),
        None => None,
    }
}

pub fn codex_credentials(document: Option<&Json>) -> (out: Option<(String, Option<String>)>)
    ensures
        login_view(out) == codex_login(borrowed(document)),
{
    match document {
        Some(document) => {
            let tokens = document.get("tokens");
            match str_in(first_of(get_in(tokens, "access_token"), document.get("access_token"))) {
                Some(token) => if trimmed(token).as_str().is_empty() {
                    None
                } else {
                    let account = text_in(
                        first_of(get_in(tokens, "account_id"), document.get("account_id")),
                    );
                    Some((token.to_owned(), account))
                },
                None => None,
            }
        },
        None => None,
    }
}

/// A span is at least as long as a bound. Where only its seconds are known,
/// the bound is taken in seconds.
pub open spec fn lasts_for(window: Json, minutes: u64, seconds: u64) -> bool {
    match measured_in(at_either(window, "windowDurationMins"@, "window_duration_mins"@)) {
        Some(span) => Quantity { bits: minutes }.at_most(span),
        None => match measured_in(
            at_either(window, "limitWindowSeconds"@, "limit_window_seconds"@),
        ) {
            Some(span) => Quantity { bits: seconds }.at_most(span),
            None => false,
        },
    }
}

fn is_for(window: &Json, minutes: u64, seconds: u64) -> (yes: bool)
    ensures
        yes == lasts_for(*window, minutes, seconds),
{
    match number_in(get_either(window, "windowDurationMins", "window_duration_mins")) {
        Some(span) => (Quantity { bits: minutes }).is_at_most(span),
        None => match number_in(
            get_either(window, "limitWindowSeconds", "limit_window_seconds"),
        ) {
            Some(span) => (Quantity { bits: seconds }).is_at_most(span),
            None => false,
        },
    }
}

pub open spec fn window_kind(window: Json, secondary: bool) -> WindowKind {
    if lasts_for(window, MONTH_MINUTES, MONTH_SECONDS) {
        WindowKind::Billing
    } else if lasts_for(window, WEEK_MINUTES, WEEK_SECONDS) || secondary {
        WindowKind::Weekly
    } else if lasts_for(window, DAY_MINUTES, DAY_SECONDS) {
        WindowKind::Daily
    } else {
        WindowKind::Session
    }
}

pub fn codex_window_kind(window: &Json, secondary: bool) -> (out: WindowKind)
    ensures
        out == window_kind(*window, secondary),
{
    if is_for(window, MONTH_MINUTES, MONTH_SECONDS) {
        WindowKind::Billing
    } else if is_for(window, WEEK_MINUTES, WEEK_SECONDS) || secondary {
        WindowKind::Weekly
    } else if is_for(window, DAY_MINUTES, DAY_SECONDS) {
        WindowKind::Daily
    } else {
        WindowKind::Session
    }
}

/// The moment of a number of seconds, and the time until it in words.
pub open spec fn reset_at(seconds: i64, now_ms: i64) -> (Option<i64>, Option<Seq<char>>) {
    let at = clamped(seconds * 1000) as i64;
    (Some(at), Some(span_text(seconds_until(at, now_ms))))
}

/// The reset of a window: a number of seconds since 1970, or any other text.
pub open spec fn window_reset(value: Option<Json>, now_ms: i64) -> (Option<i64>, Option<Seq<char>>) {
    match value {
        Some(value) => match value.said() {
            Some(text) => if spelled_i64(text) is Some && spelled_i64(text)->0 > 1_000_000_000 {
                reset_at(spelled_i64(text)->0, now_ms)
            } else {
                (None, Some(text))
            },
            None => match value.whole() {
                Some(seconds) => if seconds > 1_000_000_000 {
                    reset_at(seconds, now_ms)
                } else {
                    (None, None)
                },
                None => (None, None),
            },
        },
        None => (None, None),
    }
}

pub fn codex_reset(value: Option<&Json>, now_ms: i64) -> (out: (Option<i64>, Option<String>))
    ensures
        (out.0, maybe_text(out.1)) == window_reset(borrowed(value), now_ms),
{
    match value {
        Some(value) => match value.as_str() {
            Some(text) => {
                match parse_i64(text) {
                    Some(seconds) => if seconds > 1_000_000_000 {
                        let at: i64 = thousandfold(seconds);
                        return (Some(at), Some(reset_duration_text(at, now_ms)));
                    },
                    None => {},
                }
                (None, Some(text.to_owned()))
            },
            None => match value.as_i64() {
                Some(seconds) => if seconds > 1_000_000_000 {
                    let at: i64 = thousandfold(seconds);
                    (Some(at), Some(reset_duration_text(at, now_ms)))
                } else {
                    (None, None)
                },
                None => (None, None),
            },
        },
        None => (None, None),
    }
}

pub open spec fn reset_value(window: Json) -> Option<Json> {
    or_at(
        or_at(at_either(window, "resetsAt"@, "resets_at"@), window, "resetAt"@),
        window,
        "reset_at"@,
    )
}

/// A rate-limit window, where its usage is known.
pub open spec fn rate_window(
    label: Seq<char>,
    window: Option<Json>,
    secondary: bool,
    now_ms: i64,
) -> Option<DraftView> {
    match window {
        Some(window) => match percent_left(
            measured_in(at_either(window, "usedPercent"@, "used_percent"@)),
        ) {
            Some(percent) => Some(
                DraftView::quota(
                    label,
                    window_kind(window, secondary),
                    Some(percent),
                    window_reset(reset_value(window), now_ms).0,
                    window_reset(reset_value(window), now_ms).1,
                ),
            ),
            None => None,
        },
        None => None,
    }
}

pub fn codex_window(label: &str, window: Option<&Json>, secondary: bool, now_ms: i64) -> (out: Option<
    WindowDraft,
>)
    ensures
        maybe_draft(out) == rate_window(label@, borrowed(window), secondary, now_ms),
{
    match window {
        Some(window) => match remaining_percent(
            number_in(get_either(window, "usedPercent", "used_percent")),
        ) {
            Some(percent) => {
                let reset = or_get(
                    or_get(get_either(window, "resetsAt", "resets_at"), window, "resetAt"),
                    window,
                    "reset_at",
                );
                let (resets_at_ms, reset_text) = codex_reset(reset, now_ms);
                Some(
                    WindowDraft::quota(
                        label,
                        codex_window_kind(window, secondary),
                        Some(percent),
                        resets_at_ms,
                        reset_text,
                    ),
                )
            },
            None => None,
        },
        None => None,
    }
}

/// The rate limits of a usage answer.
pub open spec fn rate_limits(payload: Json) -> Option<Json> {
    or_at(
        or_at(at_either(payload, "rateLimit"@, "rate_limit"@), payload, "rateLimits"@),
        payload,
        "rate_limits"@,
    )
}

pub fn codex_rate_limits(payload: &Json) -> (out: Option<&Json>)
    ensures
        borrowed(out) == rate_limits(*payload),
{
    or_get(
        or_get(get_either(payload, "rateLimit", "rate_limit"), payload, "rateLimits"),
        payload,
        "rate_limits",
    )
}

/// A window under one of three names.
pub open spec fn limit_at(
    rates: Option<Json>,
    first: Seq<char>,
    second: Seq<char>,
    third: Seq<char>,
) -> Option<Json> {
    match rates {
        Some(rates) => or_at(at_either(rates, first, second), rates, third),
        None => None,
    }
}

fn get_limit<'a>(rates: Option<&'a Json>, first: &str, second: &str, third: &str) -> (out: Option<
    &'a Json,
>)
    ensures
        borrowed(out) == limit_at(borrowed(rates), first@, second@, third@),
{
    match rates {
        Some(rates) => or_get(get_either(rates, first, second), rates, third),
        None => None,
    }
}

pub open spec fn codex_windows(payload: Json, now_ms: i64) -> Seq<DraftView> {
    let rates = rate_limits(payload);
    if_any(
        rate_window(
            "5h"@,
            limit_at(rates, "primaryWindow"@, "primary_window"@, "primary"@),
            false,
            now_ms,
        ),
    ) + if_any(
        rate_window(
            "7d"@,
            limit_at(rates, "secondaryWindow"@, "secondary_window"@, "secondary"@),
            true,
            now_ms,
        ),
    )
}

fn read_windows(payload: &Json, now_ms: i64) -> (out: Vec<WindowDraft>)
    ensures
        draft_views(out@) == codex_windows(*payload, now_ms),
{
    let rates = codex_rate_limits(payload);
    let mut out: Vec<WindowDraft> = Vec::new();
    assert(draft_views(out@) =~= Seq::empty());
    push_if_any(
        &mut out,
        codex_window(
            "5h",
            get_limit(rates, "primaryWindow", "primary_window", "primary"),
            false,
            now_ms,
        ),
    );
    push_if_any(
        &mut out,
        codex_window(
            "7d",
            get_limit(rates, "secondaryWindow", "secondary_window", "secondary"),
            true,
            now_ms,
        ),
    );
    assert(draft_views(out@) =~= codex_windows(*payload, now_ms));
    out
}

/// The plan as the answer names it.
pub open spec fn plan_name(payload: Json) -> Seq<char> {
    let account = payload.at("account"@);
    said_or(
        either(
            either(
                either(at_either(payload, "planType"@, "plan_type"@), at_key(account, "planType"@)),
                at_key(account, "plan_type"@),
            ),
            at_key(account, "plan"@),
        ),
        ""@,
    )
}

/// The known plans have names of their own.
pub open spec fn plan_title(name: Seq<char>) -> Seq<char> {
    if lower(name) == "pro"@ {
        "Pro"@
    } else if lower(name) == "plus"@ {
        "Plus"@
    } else if lower(name) == "free"@ {
        "Free"@
    } else if lower(name) == "team"@ || lower(name) == "teams"@ {
        "Team"@
    } else if lower(name) == "enterprise"@ {
        "Enterprise"@
    } else {
        name
    }
}

pub fn codex_plan(payload: &Json) -> (out: String)
    ensures
        out@ == plan_title(plan_name(*payload)),
{
    let account = payload.get("account");
    let name = text_or(
        first_of(
            first_of(
                first_of(
                    get_either(payload, "planType", "plan_type"),
                    get_in(account, "planType"),
                ),
                get_in(account, "plan_type"),
            ),
            get_in(account, "plan"),
        ),
        "",
    );
    let small = to_lower(name.as_str());
    if same(small.as_str(), "pro") {
        "Pro".to_owned()
    } else if same(small.as_str(), "plus") {
        "Plus".to_owned()
    } else if same(small.as_str(), "free") {
        "Free".to_owned()
    } else if same(small.as_str(), "team") || same(small.as_str(), "teams") {
        "Team".to_owned()
    } else if same(small.as_str(), "enterprise") {
        "Enterprise".to_owned()
    } else {
        name
    }
}

/// The number of resets that can be bought with credits.
pub open spec fn reset_credits(payload: Json) -> Option<i64> {
    match at_either(payload, "resetCredits"@, "reset_credits"@) {
        Some(credits) => whole_in(at_either(credits, "availableCount"@, "available_count"@)),
        None => None,
    }
}

pub open spec fn credit_notes(payload: Json) -> Seq<Seq<char>> {
    match reset_credits(payload) {
        Some(count) => if count > 0 {
            seq![signed_decimal(count as int) + " reset credit available"@]
        } else {
            Seq::empty()
        },
        None => Seq::empty(),
    }
}

fn read_notes(payload: &Json) -> (out: Vec<String>)
    ensures
        texts(out@) == credit_notes(*payload),
{
    let mut out: Vec<String> = Vec::new();
    let count = match get_either(payload, "resetCredits", "reset_credits") {
        Some(credits) => i64_in(get_either(credits, "availableCount", "available_count")),
        None => None,
    };
    match count {
        Some(count) => if count > 0 {
            let mut note = signed_text(count);
            note.append(" reset credit available");
            out.push(note);
        },
        None => {},
    }
    assert(texts(out@) =~= credit_notes(*payload));
    out
}

pub open spec fn codex_wording() -> Wording {
    Wording {
        refused: "Codex usage unavailable",
        failed: "Codex request failed",
        garbled: "Invalid Codex JSON",
    }
}

/// The row of the account that is logged in.
pub open spec fn codex_row(token: Option<Seq<char>>, can_ask: bool, reply: Reply, now_ms: i64) -> RowView {
    match asked(
        codex_badge(),
        "codex"@,
        "Codex"@,
        token,
        "Codex auth.json not found"@,
        can_ask,
        now_ms,
    ) {
        Err(row) => row,
        Ok(key) => match body_or_row(
            codex_badge(),
            key,
            "Codex"@,
            reply,
            codex_wording(),
            now_ms,
        ) {
            Err(row) => row,
            Ok(payload) => RowView::Answered(
                RowDraftView {
                    provider_id: "codex"@,
                    account_key: key,
                    account_label: said_or(
                        at_key(payload.at("account"@), "email"@),
                        "Codex"@,
                    ),
                    plan: plan_title(plan_name(payload)),
                    source: "oauth"@,
                    windows: codex_windows(payload, now_ms),
                    hue: 43,
                    diagnostics: credit_notes(payload),
                    blocked: false,
                },
            ),
        },
    }
}

pub fn collect_codex(token: Option<&str>, can_ask: bool, reply: &Reply, now_ms: i64) -> (out: Row)
    ensures
        out@ == codex_row(maybe_str(token), can_ask, *reply, now_ms),
{
    let badge = Badge { provider_id: "codex", source: "oauth", hue: 43 };
    let key = match ask(
        &badge,
        "codex",
        "Codex",
        token,
        "Codex auth.json not found",
        can_ask,
        now_ms,
    ) {
        Ok(key) => key,
        Err(row) => {
            return row;
        },
    };
    let wording = Wording {
        refused: "Codex usage unavailable",
        failed: "Codex request failed",
        garbled: "Invalid Codex JSON",
    };
    let payload = match body_of(&badge, key.as_str(), "Codex", reply, &wording, now_ms) {
        Ok(payload) => payload,
        Err(row) => {
            return row;
        },
    };
    Row::Answered(
        crate::collectors::RowDraft {
            provider_id: "codex".to_owned(),
            account_key: key,
            account_label: text_or(get_in(payload.get("account"), "email"), "Codex"),
            plan: codex_plan(payload),
            source: "oauth".to_owned(),
            windows: read_windows(payload, now_ms),
            hue: 43,
            diagnostics: read_notes(payload),
            blocked: false,
        },
    )
}

/// A row shows of the token no more than the key that is its digest: whoever
/// signed in, the same answers give the same row.
pub proof fn law_row_hides_the_token(
    first: Seq<char>,
    second: Seq<char>,
    can_ask: bool,
    reply: Reply,
    now_ms: i64,
)
    ensures
        codex_row(Some(first), can_ask, reply, now_ms).key() == key_of("codex"@, first),
        codex_row(Some(first), can_ask, reply, now_ms).keyless()
            == codex_row(Some(second), can_ask, reply, now_ms).keyless(),
{
}

/// An answer with a primary and a secondary window gives two windows: the
/// primary one is the session of five hours, the secondary one the week. What
/// is left of each is what its used percentage leaves of one hundred, and each
/// comes back when its own reset says.
pub proof fn law_primary_window_is_the_session(
    token: Seq<char>,
    payload: Json,
    rates: Json,
    primary: Json,
    secondary: Json,
    primary_used: Json,
    secondary_used: Json,
    powers: Seq<Power>,
    now_ms: i64,
)
    requires
        held_under(
            payload,
            seq!["rateLimit"@, "rate_limit"@, "rateLimits"@, "rate_limits"@],
            rates,
        ),
        held_under(rates, seq!["primaryWindow"@, "primary_window"@, "primary"@], primary),
        held_under(rates, seq!["secondaryWindow"@, "secondary_window"@, "secondary"@], secondary),
        held_under(primary, seq!["usedPercent"@, "used_percent"@], primary_used),
        held_under(secondary, seq!["usedPercent"@, "used_percent"@], secondary_used),
        primary_used.measured() is Some,
        secondary_used.measured() is Some,
    ensures
        ({
            let row = codex_row(Some(token), true, Reply::Body(payload), now_ms).settled(
                powers,
                now_ms,
            );
            let names = seq!["resetsAt"@, "resets_at"@, "resetAt"@, "reset_at"@];
            &&& row.provider_id == "codex"@
            &&& row.source_health is Connected
            &&& row.windows.len() == 2
            &&& row.windows[0].label == "5h"@
            &&& row.windows[0].metric is Quota
            &&& row.windows[0].remaining_percent == Some(
                Quantity { bits: 0x4059_0000_0000_0000 }.difference(
                    primary_used.measured()->0,
                ).as_percentage(),
            )
            &&& forall|reset: Json| #[trigger]
                held_under(primary, names, reset) && reset.said() is None && reset.whole() is Some
                    && 1_000_000_000 < reset.whole()->0 <= i64::MAX / 1000
                    ==> row.windows[0].resets_at_ms == Some((reset.whole()->0 * 1000) as i64)
            &&& row.windows[1].label == "7d"@
            &&& row.windows[1].metric is Quota
            &&& row.windows[1].kind is Weekly || row.windows[1].kind is Billing
            &&& row.windows[1].remaining_percent == Some(
                Quantity { bits: 0x4059_0000_0000_0000 }.difference(
                    secondary_used.measured()->0,
                ).as_percentage(),
            )
            &&& forall|reset: Json| #[trigger]
                held_under(secondary, names, reset) && reset.said() is None && reset.whole() is Some
                    && 1_000_000_000 < reset.whole()->0 <= i64::MAX / 1000
                    ==> row.windows[1].resets_at_ms == Some((reset.whole()->0 * 1000) as i64)
        }),
{
    lemma_held_under(
        payload,
        seq!["rateLimit"@, "rate_limit"@, "rateLimits"@, "rate_limits"@],
        rates,
    );
    lemma_held_under(rates, seq!["primaryWindow"@, "primary_window"@, "primary"@], primary);
    lemma_held_under(rates, seq!["secondaryWindow"@, "secondary_window"@, "secondary"@], secondary);
    lemma_held_under(primary, seq!["usedPercent"@, "used_percent"@], primary_used);
    lemma_held_under(secondary, seq!["usedPercent"@, "used_percent"@], secondary_used);
    let names = seq!["resetsAt"@, "resets_at"@, "resetAt"@, "reset_at"@];
    assert forall|reset: Json| #[trigger] held_under(primary, names, reset) implies reset_value(
        primary,
    ) == Some(reset) by {
        lemma_held_under(primary, names, reset);
    }
    assert forall|reset: Json| #[trigger] held_under(secondary, names, reset) implies reset_value(
        secondary,
    ) == Some(reset) by {
        lemma_held_under(secondary, names, reset);
    }
    reveal_with_fuel(Formula::value, 4);
}

/// A window is named by the minutes that it lasts: thirty days are billing, seven
/// days a week, one day a day. The secondary window is never shorter than a week.
pub proof fn law_windows_are_named_by_their_length(
    window: Json,
    span: Json,
    length: Quantity,
    secondary: bool,
)
    requires
        span.measured() == Some(length),
        held_under(window, seq!["windowDurationMins"@, "window_duration_mins"@], span),
    ensures
        ({
            let month = Quantity { bits: 0x40e5_1800_0000_0000 }.at_most(length);
            let week = Quantity { bits: 0x40c3_b000_0000_0000 }.at_most(length);
            let day = Quantity { bits: 0x4096_8000_0000_0000 }.at_most(length);
            let kind = window_kind(window, secondary);
            &&& month ==> kind is Billing
            &&& !month && (week || secondary) ==> kind is Weekly
            &&& !month && !week && !secondary && day ==> kind is Daily
            &&& !month && !week && !secondary && !day ==> kind is Session
        }),
{
    lemma_held_under(window, seq!["windowDurationMins"@, "window_duration_mins"@], span);
}

/// A window that does not say its minutes is named by the seconds that it lasts.
pub proof fn law_windows_may_be_named_by_their_seconds(
    window: Json,
    span: Json,
    length: Quantity,
    secondary: bool,
)
    requires
        lacks(window, seq!["windowDurationMins"@, "window_duration_mins"@]),
        span.measured() == Some(length),
        held_under(window, seq!["limitWindowSeconds"@, "limit_window_seconds"@], span),
    ensures
        ({
            let month = Quantity { bits: 0x4143_c680_0000_0000 }.at_most(length);
            let week = Quantity { bits: 0x4122_7500_0000_0000 }.at_most(length);
            let day = Quantity { bits: 0x40f5_1800_0000_0000 }.at_most(length);
            let kind = window_kind(window, secondary);
            &&& month ==> kind is Billing
            &&& !month && (week || secondary) ==> kind is Weekly
            &&& !month && !week && !secondary && day ==> kind is Daily
            &&& !month && !week && !secondary && !day ==> kind is Session
        }),
{
    let minutes = seq!["windowDurationMins"@, "window_duration_mins"@];
    assert(window.at(minutes[0]) is None);
    assert(window.at(minutes[1]) is None);
    lemma_held_under(window, seq!["limitWindowSeconds"@, "limit_window_seconds"@], span);
}

/// A reset credit is told where at least one is available.
pub proof fn law_reset_credits_are_told(payload: Json, credits: Json, count: Json, value: i64)
    requires
        held_under(payload, seq!["resetCredits"@, "reset_credits"@], credits),
        held_under(credits, seq!["availableCount"@, "available_count"@], count),
        count.whole() == Some(value),
    ensures
        value > 0 ==> credit_notes(payload) == seq![
            signed_decimal(value as int) + " reset credit available"@,
        ],
        value <= 0 ==> credit_notes(payload).len() == 0,
{
    lemma_held_under(payload, seq!["resetCredits"@, "reset_credits"@], credits);
    lemma_held_under(credits, seq!["availableCount"@, "available_count"@], count);
}

} // verus!
