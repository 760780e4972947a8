//! The web sessions, OAuth tokens, quota and spend windows of Anthropic plans.

use vstd::prelude::*;

use crate::collectors::{answered, answered_row, draft_views, if_any, maybe_draft, missing};
use crate::collectors::{missing_row, plain_wording, push_if_any, reset_moment, reset_timestamp};
use crate::collectors::{unavailable, unavailable_for, usual_wording, Badge, DraftView, Failure};
use crate::collectors::{FailureView, Reply, Row, RowView, WindowDraft, Wording};
use crate::collectors::cursor::{percent_left, remaining_percent};
use crate::formula::{given, left_of, not_below_zero, share_of, Formula, Power};
use crate::json::{at_either, at_key, bool_in, borrowed, either, get_either, get_in, held_under};
use crate::json::{items_in, lemma_held_under, list_in, measured_in, number_in, or_at, or_get};
use crate::json::{said_in, said_or, str_in, text_in, text_or, truth_in, Json};
use crate::limits::{WindowKind, WindowMetric};
use crate::quantity::{HUNDRED, Quantity, ZERO};
use crate::secrets::{account_key, first_char, key_of, str_views, Secrets};
use crate::text::{chars_of, contains, has_prefix, has_text, lower, maybe_str, maybe_text, same};
use crate::text::{slice_text, starts_with, to_lower, trim, trimmed};

verus! {

pub open spec fn web_badge() -> Badge {
    Badge { provider_id: "anthropic", source: "web", hue: 209 }
}

pub open spec fn oauth_badge() -> Badge {
    Badge { provider_id: "anthropic", source: "oauth", hue: 209 }
}

/// The two decimal places that amounts have unless they say otherwise.
pub const TWO: u64 = 0x4000_0000_0000_0000;

pub open spec fn after_prefix(text: Seq<char>, prefix: Seq<char>) -> Seq<char> {
    text.skip(prefix.len() as int)
}

fn cut_prefix(text: &str, prefix: &str) -> (out: Option<String>)
    ensures
        maybe_text(out) == if starts_with(text@, prefix@) {
            Some(after_prefix(text@, prefix@))
        } else {
            None
        },
{
    if has_prefix(text, prefix) {
        let chars = chars_of(text);
        let cut = chars_of(prefix);
        let total: usize = chars.len();
        let out = slice_text(&chars, cut.len(), total);
        assert(out@ =~= after_prefix(text@, prefix@));
        Some(out)
    } else {
        None
    }
}

/// The value of a `Cookie` header without its name.
pub open spec fn header_value(text: Seq<char>) -> Seq<char> {
    let raw = trim(text);
    if starts_with(raw, "Cookie:"@) {
        trim(after_prefix(raw, "Cookie:"@))
    } else if starts_with(raw, "cookie:"@) {
        trim(after_prefix(raw, "cookie:"@))
    } else {
        trim(raw)
    }
}

/// The cookie header that a value stands for: a session cookie, a bare session
/// key, or a list of cookies. An OAuth token stands for none.
pub open spec fn web_cookie(text: Seq<char>) -> Option<Seq<char>> {
    let value = header_value(text);
    if trim(text).len() == 0 {
        None
    } else if starts_with(lower(value), "sessionkey="@) {
        Some(value)
    } else if starts_with(value, "sk-ant-sid"@) {
        Some("sessionKey="@ + value)
    } else if value.contains('=') && (value.contains(';') || contains(
        lower(value),
        "sessionkey"@,
    )) {
        Some(value)
    } else {
        None
    }
}

pub fn normalize_claude_web_cookie(value: &str) -> (out: Option<String>)
    ensures
        maybe_text(out) == web_cookie(value@),
{
    let raw = trimmed(value);
    if raw.as_str().is_empty() {
        return None;
    }
    let stripped = match cut_prefix(raw.as_str(), "Cookie:") {
        Some(rest) => trimmed(rest.as_str()),
        None => match cut_prefix(raw.as_str(), "cookie:") {
            Some(rest) => trimmed(rest.as_str()),
            None => trimmed(raw.as_str()),
        },
    };
    let small = to_lower(stripped.as_str());
    if has_prefix(small.as_str(), "sessionkey=") {
        return Some(stripped);
    }
    if has_prefix(stripped.as_str(), "sk-ant-sid") {
        let mut out = "sessionKey=".to_owned();
        out.append(stripped.as_str());
        return Some(out);
    }
    let chars = chars_of(stripped.as_str());
    if first_char(&chars, '=').is_some() && (first_char(&chars, ';').is_some() || has_text(
        small.as_str(),
        "sessionkey",
    )) {
        return Some(stripped);
    }
    None
}

pub fn looks_like_cookie_header(value: &str) -> (yes: bool)
    ensures
        yes == web_cookie(value@) is Some,
{
    normalize_claude_web_cookie(value).is_some()
}

/// The names under which the web cookie is kept.
pub open spec fn cookie_names() -> Seq<Seq<char>> {
    seq!["TOKEN_MONITOR_CLAUDE_WEB_COOKIE"@, "CLAUDE_WEB_COOKIE"@]
}

/// The names under which an OAuth token is kept.
pub open spec fn token_names() -> Seq<Seq<char>> {
    seq![
        "TOKEN_MONITOR_CLAUDE_OAUTH_TOKEN"@,
        "CLAUDE_CODE_OAUTH_TOKEN"@,
        "CLAUDE_CODE_OAUTH_TOKEN_PERSONAL"@,
        "ANTHROPIC_OAUTH_TOKEN"@,
    ]
}

fn find_cookie(secrets: &Secrets) -> (out: Option<String>)
    requires
        secrets.well_formed(),
    ensures
        maybe_text(out) == secrets.found(cookie_names()),
{
    let names = vec!["TOKEN_MONITOR_CLAUDE_WEB_COOKIE", "CLAUDE_WEB_COOKIE"];
    assert(str_views(names@) =~= cookie_names());
    secrets.env_secret(&names)
}

fn find_token(secrets: &Secrets) -> (out: Option<String>)
    requires
        secrets.well_formed(),
    ensures
        maybe_text(out) == secrets.found(token_names()),
{
    let names = vec![
        "TOKEN_MONITOR_CLAUDE_OAUTH_TOKEN",
        "CLAUDE_CODE_OAUTH_TOKEN",
        "CLAUDE_CODE_OAUTH_TOKEN_PERSONAL",
        "ANTHROPIC_OAUTH_TOKEN",
    ];
    assert(str_views(names@) =~= token_names());
    secrets.env_secret(&names)
}

/// The cookie for the web path.
pub open spec fn cookie_for_web(secrets: Secrets) -> Option<Seq<char>> {
    match secrets.found(cookie_names()) {
        Some(value) => web_cookie(value),
        None => None,
    }
}

pub fn claude_web_cookie(secrets: &Secrets) -> (out: Option<String>)
    requires
        secrets.well_formed(),
    ensures
        maybe_text(out) == cookie_for_web(*secrets),
{
    match find_cookie(secrets) {
        Some(value) => normalize_claude_web_cookie(value.as_str()),
        None => None,
    }
}

/// The token in a credentials document, where it is no blank.
pub open spec fn document_token(document: Option<Json>) -> Option<Seq<char>> {
    match document {
        Some(document) => {
            let holder = or_at(
                or_at(None, document, "claudeAiOauth"@),
                document,
                "oauth"@,
            );
            let token = said_in(
                either(holder, Some(document))->0.at("accessToken"@),
            );
            match token {
                Some(token) => if trim(token).len() == 0 {
                    None
                } else {
                    Some(token)
                },
                None => None,
            }
        },
        None => None,
    }
}

pub fn token_in_document(document: Option<&Json>) -> (out: Option<String>)
    ensures
        maybe_text(out) == document_token(borrowed(document)),
{
    match document {
        Some(document) => {
            let holder = match get_either(document, "claudeAiOauth", "oauth") {
                Some(found) => found,
                None => document,
            };
            match str_in(holder.get("accessToken")) {
                Some(token) => if trimmed(token).as_str().is_empty() {
                    None
                } else {
                    Some(token.to_owned())
                },
                None => None,
            }
        },
        None => None,
    }
}

/// The OAuth token: what was entered as a cookie but is none, then the token
/// variables, then the two credentials documents.
pub open spec fn oauth_token(secrets: Secrets, first: Option<Json>, second: Option<Json>) -> Option<
    Seq<char>,
> {
    match secrets.found(cookie_names()) {
        Some(value) => if web_cookie(value) is None {
            Some(value)
        } else {
            stored_token(secrets, first, second)
        },
        None => stored_token(secrets, first, second),
    }
}

pub open spec fn stored_token(secrets: Secrets, first: Option<Json>, second: Option<Json>) -> Option<
    Seq<char>,
> {
    match secrets.found(token_names()) {
        Some(token) => Some(token),
        None => match document_token(first) {
            Some(token) => Some(token),
            None => document_token(second),
        },
    }
}

pub fn claude_credentials(secrets: &Secrets, first: Option<&Json>, second: Option<&Json>) -> (out:
    Option<String>)
    requires
        secrets.well_formed(),
    ensures
        maybe_text(out) == oauth_token(*secrets, borrowed(first), borrowed(second)),
{
    match find_cookie(secrets) {
        Some(value) => if !looks_like_cookie_header(value.as_str()) {
            return Some(value);
        },
        None => {},
    }
    match find_token(secrets) {
        Some(token) => Some(token),
        None => match token_in_document(first) {
            Some(token) => Some(token),
            None => token_in_document(second),
        },
    }
}

/// The same entered value never serves both as a web cookie and as a token.
pub proof fn law_entered_value_is_cookie_or_token(
    secrets: Secrets,
    first: Option<Json>,
    second: Option<Json>,
)
    requires
        secrets.found(cookie_names()) is Some,
    ensures
        cookie_for_web(secrets) is None ==> oauth_token(secrets, first, second) == secrets.found(
            cookie_names(),
        ),
        cookie_for_web(secrets) is Some ==> oauth_token(secrets, first, second) == stored_token(
            secrets,
            first,
            second,
        ),
{
}

/// The used percentage under one of its names.
pub open spec fn used_percent(value: Json) -> Option<Quantity> {
    measured_in(
        or_at(
            or_at(at_either(value, "usedPercent"@, "used_percent"@), value, "utilization"@),
            value,
            "percent"@,
        ),
    )
}

fn claude_used_percent(value: &Json) -> (out: Option<Quantity>)
    ensures
        out == used_percent(*value),
{
    number_in(
        or_get(
            or_get(get_either(value, "usedPercent", "used_percent"), value, "utilization"),
            value,
            "percent",
        ),
    )
}

/// A quota window: five hours make a session, seven days a week.
pub open spec fn quota_window(label: Seq<char>, value: Option<Json>) -> Option<DraftView> {
    match value {
        Some(value) => match percent_left(used_percent(value)) {
            Some(percent) => Some(
                DraftView::quota(
                    label,
                    if label == "5h"@ {
                        WindowKind::Session
                    } else {
                        WindowKind::Weekly
                    },
                    Some(percent),
                    reset_moment(at_either(value, "resets_at"@, "resetsAt"@)),
                    said_in(at_either(value, "resets_at"@, "resetsAt"@)),
                ),
            ),
            None => None,
        },
        None => None,
    }
}

pub fn claude_remaining_window(label: &str, value: Option<&Json>) -> (out: Option<WindowDraft>)
    ensures
        maybe_draft(out) == quota_window(label@, borrowed(value)),
{
    match value {
        Some(value) => match remaining_percent(claude_used_percent(value)) {
            Some(percent) => {
                let reset = get_either(value, "resets_at", "resetsAt");
                let kind = if same(label, "5h") {
                    WindowKind::Session
                } else {
                    WindowKind::Weekly
                };
                Some(
                    WindowDraft::quota(
                        label,
                        kind,
                        Some(percent),
                        reset_timestamp(reset),
                        text_in(reset),
                    ),
                )
            },
            None => None,
        },
        None => None,
    }
}

/// A number of smallest units over ten to the number of decimal places.
pub open spec fn scaled(minor: Quantity, places: Option<Quantity>) -> Formula {
    let places = match places {
        Some(places) => places,
        None => Quantity { bits: TWO },
    };
    Formula::Over(
        Box::new(Formula::Given(minor)),
        Box::new(
            Formula::PowerOfTen(places.larger(Quantity { bits: ZERO })),
        ),
    )
}

fn scale(minor: Quantity, places: Option<Quantity>) -> (out: Formula)
    ensures
        out == scaled(minor, places),
{
    let places = match places {
        Some(places) => places,
        None => Quantity { bits: TWO },
    };
    Formula::Over(
        Box::new(given(minor)),
        Box::new(Formula::PowerOfTen(places.max(Quantity { bits: ZERO }))),
    )
}

/// An amount of money and its currency.
pub open spec fn money(value: Option<Json>) -> Option<(Formula, Option<Seq<char>>)> {
    match value {
        Some(value) => match measured_in(at_either(value, "amount_minor"@, "amountMinor"@)) {
            Some(minor) => Some(
                (
                    scaled(minor, measured_in(value.at("exponent"@))),
                    said_in(value.at("currency"@)),
                ),
            ),
            None => None,
        },
        None => None,
    }
}

pub open spec fn money_view(amount: Option<(Formula, Option<String>)>) -> Option<
    (Formula, Option<Seq<char>>),
> {
    match amount {
        Some((amount, currency)) => Some((amount, maybe_text(currency))),
        None => None,
    }
}

fn claude_money(value: Option<&Json>) -> (out: Option<(Formula, Option<String>)>)
    ensures
        money_view(out) == money(borrowed(value)),
{
    match value {
        Some(value) => match number_in(get_either(value, "amount_minor", "amountMinor")) {
            Some(minor) => Some(
                (scale(minor, number_in(value.get("exponent"))), text_in(value.get("currency"))),
            ),
            None => None,
        },
        None => None,
    }
}

/// An amount of the extra usage, in its own decimal places.
pub open spec fn extra_amount(usage: Json, key: Seq<char>) -> Option<Formula> {
    match usage.at("extra_usage"@) {
        Some(extra) => match measured_in(extra.at(key)) {
            Some(minor) => Some(scaled(minor, measured_in(extra.at("decimal_places"@)))),
            None => None,
        },
        None => None,
    }
}

fn read_extra_amount(usage: &Json, key: &str) -> (out: Option<Formula>)
    ensures
        out == extra_amount(*usage, key@),
{
    match usage.get("extra_usage") {
        Some(extra) => match number_in(extra.get(key)) {
            Some(minor) => Some(scale(minor, number_in(extra.get("decimal_places")))),
            None => None,
        },
        None => None,
    }
}

/// What was spent, and in which currency.
pub open spec fn spent(usage: Json) -> Option<(Formula, Option<Seq<char>>)> {
    match money(at_key(usage.at("spend"@), "used"@)) {
        Some(amount) => Some(amount),
        None => match extra_amount(usage, "used_credits"@) {
            Some(amount) => Some(
                (amount, said_in(at_key(usage.at("extra_usage"@), "currency"@))),
            ),
            None => None,
        },
    }
}

/// How much may be spent.
pub open spec fn spend_limit(usage: Json) -> Option<Formula> {
    match money(at_key(usage.at("spend"@), "limit"@)) {
        Some((amount, _)) => Some(amount),
        None => extra_amount(usage, "monthly_limit"@),
    }
}

pub open spec fn limit_currency(usage: Json) -> Option<Seq<char>> {
    match money(at_key(usage.at("spend"@), "limit"@)) {
        Some((_, currency)) => currency,
        None => None,
    }
}

/// The window of paid usage, where it is switched on.
pub open spec fn spend_window(usage: Json) -> Option<DraftView> {
    if truth_in(at_key(usage.at("spend"@), "enabled"@)) != Some(true) {
        None
    } else {
        match spent(usage) {
            Some((used, currency)) => Some(
                DraftView {
                    label: "Usage credits"@,
                    kind: WindowKind::Billing,
                    metric: WindowMetric::Spend,
                    remaining_percent: match spend_limit(usage) {
                        Some(limit) => Some(Formula::share(Formula::left(limit, used), limit)),
                        None => None,
                    },
                    remaining_amount: match spend_limit(usage) {
                        Some(limit) => Some(Formula::left(limit, used)),
                        None => None,
                    },
                    currency: Some(
                        match currency {
                            Some(currency) => currency,
                            None => match limit_currency(usage) {
                                Some(currency) => currency,
                                None => "USD"@,
                            },
                        },
                    ),
                    resets_at_ms: None,
                    reset_text: None,
                    estimated: false,
                },
            ),
            None => None,
        }
    }
}

pub fn claude_spend_window(usage: &Json) -> (out: Option<WindowDraft>)
    ensures
        maybe_draft(out) == spend_window(*usage),
{
    let spend = usage.get("spend");
    match bool_in(get_in(spend, "enabled")) {
        Some(true) => {},
        _ => {
            return None;
        },
    }
    let (used, currency) = match claude_money(get_in(spend, "used")) {
        Some(amount) => amount,
        None => match read_extra_amount(usage, "used_credits") {
            Some(amount) => (amount, text_in(get_in(usage.get("extra_usage"), "currency"))),
            None => {
                return None;
            },
        },
    };
    let (limit, limit_currency) = match claude_money(get_in(spend, "limit")) {
        Some((amount, currency)) => (Some(amount), currency),
        None => (read_extra_amount(usage, "monthly_limit"), None),
    };
    let currency = match currency {
        Some(currency) => currency,
        None => match limit_currency {
            Some(currency) => currency,
            None => "USD".to_owned(),
        },
    };
    let (remaining_percent, remaining_amount) = match limit {
        Some(limit) => (
            Some(share_of(left_of(limit.clone(), used.clone()), limit.clone())),
            Some(left_of(limit, used)),
        ),
        None => (None, None),
    };
    Some(
        WindowDraft {
            label: "Usage credits".to_owned(),
            kind: WindowKind::Billing,
            metric: WindowMetric::Spend,
            remaining_percent,
            remaining_amount,
            currency: Some(currency),
            resets_at_ms: None,
            reset_text: None,
            estimated: false,
        },
    )
}

/// The identifier of an organization, where it is no blank.
pub open spec fn organization_id(organization: Json) -> Option<Seq<char>> {
    match said_in(at_either(organization, "uuid"@, "id"@)) {
        Some(id) => if trim(id).len() == 0 {
            None
        } else {
            Some(id)
        },
        None => None,
    }
}

pub open spec fn first_organization(organizations: Seq<Json>) -> Option<Seq<char>>
    decreases organizations.len(),
{
    if organizations.len() == 0 {
        None
    } else {
        match organization_id(organizations[0]) {
            Some(id) => Some(id),
            None => first_organization(organizations.drop_first()),
        }
    }
}

/// The list of organizations: the answer itself or a list in it.
pub open spec fn organizations(value: Json) -> Option<Seq<Json>> {
    match value.items() {
        Some(items) => Some(items),
        None => match items_in(value.at("organizations"@)) {
            Some(items) => Some(items),
            None => items_in(value.at("data"@)),
        },
    }
}

pub open spec fn web_organization(value: Json) -> Option<Seq<char>> {
    match organizations(value) {
        Some(items) => first_organization(items),
        None => None,
    }
}

fn read_organization(organization: &Json) -> (out: Option<String>)
    ensures
        maybe_text(out) == organization_id(*organization),
{
    match str_in(get_either(organization, "uuid", "id")) {
        Some(id) => if trimmed(id).as_str().is_empty() {
            None
        } else {
            Some(id.to_owned())
        },
        None => None,
    }
}

fn find_organization(items: &Vec<Json>) -> (out: Option<String>)
    ensures
        maybe_text(out) == first_organization(items@),
{
    let mut i: usize = 0;
    assert(items@.skip(0) =~= items@);
    while i < items.len()
        invariant
            i <= items@.len(),
            first_organization(items@.skip(i as int)) == first_organization(items@),
        decreases items@.len() - i,
    {
        proof {
            assert(items@.skip(i as int)[0] == items@[i as int]);
            assert(items@.skip(i as int).drop_first() =~= items@.skip(i + 1));
        }
        let id = read_organization(&items[i]);
        if id.is_some() {
            return id;
        }
        i = i + 1;
    }
    assert(items@.skip(i as int) =~= Seq::empty());
    None
}

pub fn claude_web_organization_id(value: &Json) -> (out: Option<String>)
    ensures
        maybe_text(out) == web_organization(*value),
{
    let items = match value.as_list() {
        Some(items) => Some(items),
        None => match list_in(value.get("organizations")) {
            Some(items) => Some(items),
            None => list_in(value.get("data")),
        },
    };
    match items {
        Some(items) => find_organization(items),
        None => None,
    }
}

/// The rate tier of a membership, in lower case.
pub open spec fn membership_tier(membership: Json) -> Option<Seq<char>> {
    match membership.at("organization"@) {
        Some(organization) => match said_in(
            at_either(organization, "rate_limit_tier"@, "rateLimitTier"@),
        ) {
            Some(tier) => Some(lower(tier)),
            None => None,
        },
        None => None,
    }
}

/// Some membership has a tier whose name holds the word.
pub open spec fn has_tier(memberships: Seq<Json>, word: Seq<char>) -> bool {
    exists|i: int|
        0 <= i < memberships.len() && membership_tier(#[trigger] memberships[i]) is Some
            && contains(membership_tier(memberships[i])->0, word)
}

pub open spec fn tier_plan(memberships: Seq<Json>) -> Seq<char> {
    if has_tier(memberships, "enterprise"@) {
        "Enterprise"@
    } else if has_tier(memberships, "team"@) {
        "Team"@
    } else if has_tier(memberships, "max"@) || has_tier(memberships, "pro"@) || has_tier(
        memberships,
        "claude_ai"@,
    ) || has_tier(memberships, "trust_tier"@) {
        "Pro"@
    } else {
        "Anthropic"@
    }
}

/// The plan that the memberships of an account tell.
pub open spec fn web_plan(account: Option<Json>) -> Seq<char> {
    match items_in(at_key(account, "memberships"@)) {
        Some(memberships) => tier_plan(memberships),
        None => "Anthropic"@,
    }
}

fn find_tier(memberships: &Vec<Json>, word: &str) -> (yes: bool)
    ensures
        yes == has_tier(memberships@, word@),
{
    let mut i: usize = 0;
    while i < memberships.len()
        invariant
            i <= memberships@.len(),
            forall|k: int|
                0 <= k < i ==> !(membership_tier(#[trigger] memberships@[k]) is Some && contains(
                    membership_tier(memberships@[k])->0,
                    word@,
                )),
        decreases memberships@.len() - i,
    {
        match memberships[i].get("organization") {
            Some(organization) => match str_in(
                get_either(organization, "rate_limit_tier", "rateLimitTier"),
            ) {
                Some(tier) => if has_text(to_lower(tier).as_str(), word) {
                    return true;
                },
                None => {},
            },
            None => {},
        }
        i = i + 1;
    }
    false
}

pub fn claude_web_plan(account: Option<&Json>) -> (out: &'static str)
    ensures
        out@ == web_plan(borrowed(account)),
{
    match list_in(get_in(account, "memberships")) {
        Some(memberships) => if find_tier(memberships, "enterprise") {
            "Enterprise"
        } else if find_tier(memberships, "team") {
            "Team"
        } else if find_tier(memberships, "max") || find_tier(memberships, "pro") || find_tier(
            memberships,
            "claude_ai",
        ) || find_tier(memberships, "trust_tier") {
            "Pro"
        } else {
            "Anthropic"
        },
        None => "Anthropic",
    }
}

/// The prepaid balance: an amount in hundredths.
pub open spec fn balance_window(balance: Option<Json>) -> Option<DraftView> {
    match balance {
        Some(balance) => match measured_in(at_either(balance, "amount"@, "balance"@)) {
            Some(amount) => Some(
                DraftView {
                    label: "Balance"@,
                    kind: WindowKind::Billing,
                    metric: WindowMetric::Credits,
                    remaining_percent: None,
                    remaining_amount: Some(
                        Formula::not_below_zero(
                            Formula::Over(
                                Box::new(Formula::Given(amount)),
                                Box::new(Formula::of(HUNDRED)),
                            ),
                        ),
                    ),
                    currency: Some(said_or(balance.at("currency"@), "USD"@)),
                    resets_at_ms: reset_moment(
                        at_either(balance, "next_expires_at"@, "nextExpiresAt"@),
                    ),
                    reset_text: None,
                    estimated: false,
                },
            ),
            None => None,
        },
        None => None,
    }
}

pub fn claude_web_balance_window(balance: Option<&Json>) -> (out: Option<WindowDraft>)
    ensures
        maybe_draft(out) == balance_window(borrowed(balance)),
{
    match balance {
        Some(balance) => match number_in(get_either(balance, "amount", "balance")) {
            Some(amount) => Some(
                WindowDraft {
                    label: "Balance".to_owned(),
                    kind: WindowKind::Billing,
                    metric: WindowMetric::Credits,
                    remaining_percent: None,
                    remaining_amount: Some(
                        not_below_zero(
                            Formula::Over(
                                Box::new(given(amount)),
                                Box::new(crate::formula::constant(HUNDRED)),
                            ),
                        ),
                    ),
                    currency: Some(text_or(balance.get("currency"), "USD")),
                    resets_at_ms: reset_timestamp(
                        get_either(balance, "next_expires_at", "nextExpiresAt"),
                    ),
                    reset_text: None,
                    estimated: false,
                },
            ),
            None => None,
        },
        None => None,
    }
}

/// The windows of a usage answer.
pub open spec fn usage_windows(usage: Json) -> Seq<DraftView> {
    if_any(quota_window("5h"@, at_either(usage, "five_hour"@, "fiveHour"@))) + if_any(
        quota_window("7d"@, at_either(usage, "seven_day"@, "sevenDay"@)),
    ) + if_any(spend_window(usage))
}

fn claude_windows(usage: &Json) -> (out: Vec<WindowDraft>)
    ensures
        draft_views(out@) == usage_windows(*usage),
{
    let mut out: Vec<WindowDraft> = Vec::new();
    assert(draft_views(out@) =~= Seq::empty());
    push_if_any(
        &mut out,
        claude_remaining_window("5h", get_either(usage, "five_hour", "fiveHour")),
    );
    push_if_any(
        &mut out,
        claude_remaining_window("7d", get_either(usage, "seven_day", "sevenDay")),
    );
    push_if_any(&mut out, claude_spend_window(usage));
    assert(draft_views(out@) =~= usage_windows(*usage));
    out
}

pub open spec fn web_wording() -> Wording {
    Wording {
        refused: "Anthropic web HTTP ",
        failed: "Anthropic web request failed",
        garbled: "Invalid Anthropic web JSON",
    }
}

/// The plan of a web account.
pub open spec fn account_plan(account: Option<Json>) -> Seq<char> {
    let said = match account {
        Some(account) => said_in(at_either(account, "subscription_type"@, "subscriptionType"@)),
        None => None,
    };
    match said {
        Some(plan) => if trim(plan).len() == 0 {
            web_plan(account)
        } else {
            plan
        },
        None => web_plan(account),
    }
}

fn read_plan(account: Option<&Json>) -> (out: String)
    ensures
        out@ == account_plan(borrowed(account)),
{
    let said = match account {
        Some(account) => str_in(get_either(account, "subscription_type", "subscriptionType")),
        None => None,
    };
    match said {
        Some(plan) => if trimmed(plan).as_str().is_empty() {
            claude_web_plan(account).to_owned()
        } else {
            plan.to_owned()
        },
        None => claude_web_plan(account).to_owned(),
    }
}

/// The name of a web account.
pub open spec fn account_email(account: Option<Json>) -> Seq<char> {
    match account {
        Some(account) => said_or(at_either(account, "email_address"@, "email"@), "Anthropic"@),
        None => "Anthropic"@,
    }
}

/// What the web path gives: a row, or why there is none. The account and the
/// balance are optional; their failure takes nothing from the usage windows.
pub open spec fn web_row(
    cookie: Seq<char>,
    can_ask: bool,
    found: Reply,
    usage: Reply,
    account: Reply,
    balance: Reply,
) -> Result<RowView, FailureView> {
    if !can_ask {
        Err(unavailable("HTTP client unavailable"@))
    } else {
        match found {
            Reply::Body(value) => if web_organization(value) is None {
                Err(unavailable("Anthropic web response has no organization"@))
            } else {
                match usage {
                    Reply::Body(usage) => {
                        let windows = usage_windows(usage) + if_any(
                            balance_window(balance.body()),
                        );
                        if windows.len() == 0 {
                            Err(unavailable("Anthropic web response has no quota windows"@))
                        } else {
                            Ok(
                                answered(
                                    web_badge(),
                                    key_of("anthropic-web"@, cookie),
                                    account_email(account.body()),
                                    account_plan(account.body()),
                                    windows,
                                ),
                            )
                        }
                    },
                    _ => Err(usage.numbered_failure(web_wording())),
                }
            },
            _ => Err(found.numbered_failure(web_wording())),
        }
    }
}

pub open spec fn outcome(result: Result<Row, Failure>) -> Result<RowView, FailureView> {
    match result {
        Ok(row) => Ok(row@),
        Err(failure) => Err(failure@),
    }
}

/// `found` is the answer with the organizations. What follows it was asked of
/// the first of them.
pub fn collect_claude_web(
    cookie: &str,
    can_ask: bool,
    found: &Reply,
    usage: &Reply,
    account: &Reply,
    balance: &Reply,
) -> (out: Result<Row, Failure>)
    ensures
        outcome(out) == web_row(cookie@, can_ask, *found, *usage, *account, *balance),
{
    if !can_ask {
        return Err(unavailable_for("HTTP client unavailable"));
    }
    let wording = Wording {
        refused: "Anthropic web HTTP ",
        failed: "Anthropic web request failed",
        garbled: "Invalid Anthropic web JSON",
    };
    match found {
        Reply::Body(value) => if claude_web_organization_id(value).is_none() {
            return Err(unavailable_for("Anthropic web response has no organization"));
        },
        _ => {
            return Err(found.numbered(&wording));
        },
    }
    match usage {
        Reply::Body(usage) => {
            let mut windows = claude_windows(usage);
            push_if_any(&mut windows, claude_web_balance_window(balance.ok()));
            if windows.len() == 0 {
                return Err(unavailable_for("Anthropic web response has no quota windows"));
            }
            let account = account.ok();
            let email = match account {
                Some(account) => text_or(get_either(account, "email_address", "email"), "Anthropic"),
                None => "Anthropic".to_owned(),
            };
            Ok(
                answered_row(
                    &Badge { provider_id: "anthropic", source: "web", hue: 209 },
                    account_key("anthropic-web", cookie),
                    email,
                    read_plan(account),
                    windows,
                ),
            )
        },
        _ => Err(usage.numbered(&wording)),
    }
}

/// The account object of a profile, else the profile itself.
pub open spec fn profile_account(profile: Option<Json>) -> Option<Json> {
    match profile {
        Some(profile) => either(profile.at("account"@), Some(profile)),
        None => None,
    }
}

pub open spec fn profile_text(profile: Option<Json>, first: Seq<char>, second: Seq<char>) -> Seq<char> {
    match profile_account(profile) {
        Some(account) => said_or(at_either(account, first, second), "Anthropic"@),
        None => "Anthropic"@,
    }
}

fn read_profile(profile: Option<&Json>, first: &str, second: &str) -> (out: String)
    ensures
        out@ == profile_text(borrowed(profile), first@, second@),
{
    match profile {
        Some(profile) => {
            let account = match profile.get("account") {
                Some(account) => account,
                None => profile,
            };
            text_or(get_either(account, first, second), "Anthropic")
        },
        None => "Anthropic".to_owned(),
    }
}

/// What the OAuth path gives.
pub open spec fn oauth_row(
    token: Option<Seq<char>>,
    can_ask: bool,
    usage: Reply,
    profile: Reply,
    now_ms: i64,
) -> RowView {
    match token {
        None => RowView::Missing(
            missing_row(
                oauth_badge(),
                ""@,
                "Anthropic"@,
                unavailable("Anthropic OAuth credentials not found"@),
                now_ms,
            ),
        ),
        Some(token) => {
            let key = key_of("anthropic"@, token);
            if !can_ask {
                RowView::Missing(
                    missing_row(
                        oauth_badge(),
                        key,
                        "Anthropic"@,
                        unavailable("HTTP client unavailable"@),
                        now_ms,
                    ),
                )
            } else {
                match usage {
                    Reply::Body(usage) => answered(
                        oauth_badge(),
                        key,
                        profile_text(profile.body(), "email"@, "email_address"@),
                        profile_text(
                            profile.body(),
                            "subscriptionType"@,
                            "subscription_type"@,
                        ),
                        usage_windows(usage),
                    ),
                    _ => RowView::Missing(
                        missing_row(
                            oauth_badge(),
                            key,
                            "Anthropic"@,
                            usage.numbered_failure(plain_wording()),
                            now_ms,
                        ),
                    ),
                }
            }
        },
    }
}

pub fn collect_claude_oauth(
    token: Option<&str>,
    can_ask: bool,
    usage: &Reply,
    profile: &Reply,
    now_ms: i64,
) -> (out: Row)
    ensures
        out@ == oauth_row(maybe_str(token), can_ask, *usage, *profile, now_ms),
{
    let badge = Badge { provider_id: "anthropic", source: "oauth", hue: 209 };
    match token {
        None => missing(
            &badge,
            "".to_owned(),
            "Anthropic".to_owned(),
            unavailable_for("Anthropic OAuth credentials not found"),
            now_ms,
        ),
        Some(token) => {
            let key = account_key("anthropic", token);
            if !can_ask {
                return missing(
                    &badge,
                    key,
                    "Anthropic".to_owned(),
                    unavailable_for("HTTP client unavailable"),
                    now_ms,
                );
            }
            match usage {
                Reply::Body(usage) => {
                    let email = read_profile(profile.ok(), "email", "email_address");
                    let plan = read_profile(
                        profile.ok(),
                        "subscriptionType",
                        "subscription_type",
                    );
                    answered_row(&badge, key, email, plan, claude_windows(usage))
                },
                _ => missing(
                    &badge,
                    key,
                    "Anthropic".to_owned(),
                    usage.numbered(&usual_wording()),
                    now_ms,
                ),
            }
        },
    }
}

/// What is done with the outcome of the web path.
pub enum WebVerdict {
    /// Show the row.
    Show(Row),
    /// Ask by OAuth.
    AskOAuth,
}

pub enum WebVerdictView {
    Show(RowView),
    AskOAuth,
}

impl View for WebVerdict {
    type V = WebVerdictView;

    open spec fn view(&self) -> WebVerdictView {
        match self {
            WebVerdict::Show(row) => WebVerdictView::Show(row@),
            WebVerdict::AskOAuth => WebVerdictView::AskOAuth,
        }
    }
}

/// A failed web path gives way to OAuth where there is a token for it.
pub open spec fn web_verdict(
    cookie: Option<Seq<char>>,
    web: Result<RowView, FailureView>,
    has_token: bool,
    now_ms: i64,
) -> WebVerdictView {
    match cookie {
        None => WebVerdictView::AskOAuth,
        Some(cookie) => match web {
            Ok(row) => WebVerdictView::Show(row),
            Err(failure) => if has_token {
                WebVerdictView::AskOAuth
            } else {
                WebVerdictView::Show(
                    RowView::Missing(
                        missing_row(
                            web_badge(),
                            key_of("anthropic-web"@, cookie),
                            "Anthropic"@,
                            failure,
                            now_ms,
                        ),
                    ),
                )
            },
        },
    }
}

/// Without a cookie the web path was not taken and `web` does not count.
pub fn collect_claude(
    cookie: Option<&str>,
    web: Result<Row, Failure>,
    has_token: bool,
    now_ms: i64,
) -> (out: WebVerdict)
    ensures
        out@ == web_verdict(maybe_str(cookie), outcome(web), has_token, now_ms),
{
    match cookie {
        None => WebVerdict::AskOAuth,
        Some(cookie) => match web {
            Ok(row) => WebVerdict::Show(row),
            Err(failure) => if has_token {
                WebVerdict::AskOAuth
            } else {
                WebVerdict::Show(
                    missing(
                        &Badge { provider_id: "anthropic", source: "web", hue: 209 },
                        account_key("anthropic-web", cookie),
                        "Anthropic".to_owned(),
                        failure,
                        now_ms,
                    ),
                )
            },
        },
    }
}

/// A row shows of the token no more than the key that is its digest: whoever
/// signed in, the same answers give the same row.
pub proof fn law_row_hides_the_token(
    first: Seq<char>,
    second: Seq<char>,
    can_ask: bool,
    usage: Reply,
    profile: Reply,
    now_ms: i64,
)
    ensures
        oauth_row(
            Some(first),
            can_ask,
            usage,
            profile,
            now_ms,
        ).key() == key_of("anthropic"@, first),
        oauth_row(Some(first), can_ask, usage, profile, now_ms).keyless()
            == oauth_row(Some(second), can_ask, usage, profile, now_ms).keyless(),
{
}

/// What the web app answers is shown with no more of the cookie than the key
/// that is its digest.
pub proof fn law_web_row_hides_the_cookie(
    first: Seq<char>,
    second: Seq<char>,
    can_ask: bool,
    found: Reply,
    usage: Reply,
    account: Reply,
    balance: Reply,
)
    ensures
        match web_row(first, can_ask, found, usage, account, balance) {
            Ok(row) => {
                &&& row.key() == key_of("anthropic-web"@, first)
                &&& web_row(second, can_ask, found, usage, account, balance) is Ok
                &&& web_row(second, can_ask, found, usage, account, balance)->Ok_0.keyless()
                    == row.keyless()
            },
            Err(failure) => web_row(second, can_ask, found, usage, account, balance) == Err::<
                RowView,
                FailureView,
            >(failure),
        },
{
}

/// The windows of five hours and of seven days are told apart by their names,
/// and what is left of each is what its own used percentage leaves of one
/// hundred; each comes back when its own reset says.
pub proof fn law_usage_windows_keep_their_names(
    token: Seq<char>,
    usage: Json,
    session: Json,
    week: Json,
    session_used: Json,
    week_used: Json,
    profile: Reply,
    powers: Seq<Power>,
    now_ms: i64,
)
    requires
        held_under(usage, seq!["five_hour"@, "fiveHour"@], session),
        held_under(usage, seq!["seven_day"@, "sevenDay"@], week),
        held_under(
            session,
            seq!["usedPercent"@, "used_percent"@, "utilization"@, "percent"@],
            session_used,
        ),
        held_under(
            week,
            seq!["usedPercent"@, "used_percent"@, "utilization"@, "percent"@],
            week_used,
        ),
        session_used.measured() is Some,
        week_used.measured() is Some,
    ensures
        ({
            let row = oauth_row(Some(token), true, Reply::Body(usage), profile, now_ms).settled(
                powers,
                now_ms,
            );
            let hundred = Quantity { bits: 0x4059_0000_0000_0000 };
            &&& row.provider_id == "anthropic"@
            &&& row.windows.len() >= 2
            &&& row.windows[0].label == "5h"@
            &&& row.windows[0].kind is Session
            &&& row.windows[0].remaining_percent == Some(
                hundred.difference(session_used.measured()->0).as_percentage(),
            )
            &&& row.windows[0].resets_at_ms == reset_moment(
                at_either(session, "resets_at"@, "resetsAt"@),
            )
            &&& row.windows[1].label == "7d"@
            &&& row.windows[1].kind is Weekly
            &&& row.windows[1].remaining_percent == Some(
                hundred.difference(week_used.measured()->0).as_percentage(),
            )
            &&& row.windows[1].resets_at_ms == reset_moment(
                at_either(week, "resets_at"@, "resetsAt"@),
            )
        }),
{
    let names = seq!["usedPercent"@, "used_percent"@, "utilization"@, "percent"@];
    lemma_held_under(usage, seq!["five_hour"@, "fiveHour"@], session);
    lemma_held_under(usage, seq!["seven_day"@, "sevenDay"@], week);
    lemma_held_under(session, names, session_used);
    lemma_held_under(week, names, week_used);
    reveal_strlit("5h");
    reveal_strlit("7d");
    assert("5h"@[0] != "7d"@[0]);
    reveal_with_fuel(Formula::value, 4);
}

/// What is left of the usage credits is the limit less what was spent, and
/// nothing below zero; each amount is its minor units over ten to the power of
/// its own places, two where it names none. Credits that are not enabled are not
/// shown.
pub proof fn law_credits_are_the_limit_less_the_spending(
    usage: Json,
    spend: Json,
    used: Json,
    limit: Json,
    used_minor: Json,
    limit_minor: Json,
    powers: Seq<Power>,
)
    requires
        usage.at("spend"@) == Some(spend),
        spend.at("used"@) == Some(used),
        spend.at("limit"@) == Some(limit),
        held_under(used, seq!["amount_minor"@, "amountMinor"@], used_minor),
        held_under(limit, seq!["amount_minor"@, "amountMinor"@], limit_minor),
        used_minor.measured() is Some,
        limit_minor.measured() is Some,
        used.at("exponent"@) is None,
        limit.at("exponent"@) is None,
    ensures
        spend.at("enabled"@) != Some(Json::Bool(true)) ==> spend_window(usage) is None,
        spend.at("enabled"@) == Some(Json::Bool(true)) ==> spend_window(usage) is Some && {
            let window = spend_window(usage)->0.settled(powers);
            let unit = crate::formula::power_of(powers, Quantity { bits: 0x4000_0000_0000_0000 });
            let spent = used_minor.measured()->0.quotient(unit);
            let granted = limit_minor.measured()->0.quotient(unit);
            let left = granted.difference(spent).larger(Quantity { bits: 0 });
            &&& window.label == "Usage credits"@
            &&& window.metric is Spend
            &&& window.remaining_amount == Some(left)
            &&& window.remaining_percent == Some(
                left.quotient(granted).product(
                    Quantity { bits: 0x4059_0000_0000_0000 },
                ).as_percentage(),
            )
        },
{
    lemma_held_under(used, seq!["amount_minor"@, "amountMinor"@], used_minor);
    lemma_held_under(limit, seq!["amount_minor"@, "amountMinor"@], limit_minor);
    reveal_with_fuel(Formula::value, 7);
}

/// A balance is stated in hundredths of its currency, and is never below zero.
pub proof fn law_balance_is_in_hundredths(balance: Json, amount: Json, powers: Seq<Power>)
    requires
        held_under(balance, seq!["amount"@, "balance"@], amount),
        amount.measured() is Some,
    ensures
        balance_window(Some(balance)) is Some,
        ({
            let window = balance_window(Some(balance))->0.settled(powers);
            &&& window.label == "Balance"@
            &&& window.metric is Credits
            &&& window.remaining_amount == Some(
                amount.measured()->0.quotient(Quantity { bits: 0x4059_0000_0000_0000 }).larger(
                    Quantity { bits: 0 },
                ),
            )
        }),
{
    lemma_held_under(balance, seq!["amount"@, "balance"@], amount);
    reveal_with_fuel(Formula::value, 5);
}

/// The organization is the first that has an id.
pub proof fn law_first_named_organization_counts(organizations: Seq<Json>, i: int)
    requires
        0 <= i < organizations.len(),
        organization_id(organizations[i]) is Some,
        forall|k: int| 0 <= k < i ==> organization_id(#[trigger] organizations[k]) is None,
    ensures
        first_organization(organizations) == organization_id(organizations[i]),
    decreases i,
{
    if i > 0 {
        let rest = organizations.drop_first();
        assert(organization_id(organizations[0]) is None);
        assert forall|k: int| 0 <= k < i - 1 implies organization_id(#[trigger] rest[k]) is None by {
            assert(rest[k] == organizations[k + 1]);
        }
        law_first_named_organization_counts(rest, i - 1);
    }
}

/// A plan is named after the highest tier of the memberships: an enterprise's
/// before a team's, a team's before a person's.
pub proof fn law_highest_tier_names_the_plan(memberships: Seq<Json>)
    ensures
        has_tier(memberships, "enterprise"@) ==> tier_plan(memberships) == "Enterprise"@,
        !has_tier(memberships, "enterprise"@) && has_tier(memberships, "team"@) ==> tier_plan(
            memberships,
        ) == "Team"@,
        !has_tier(memberships, "enterprise"@) && !has_tier(memberships, "team"@) && (has_tier(
            memberships,
            "max"@,
        ) || has_tier(memberships, "pro"@)) ==> tier_plan(memberships) == "Pro"@,
        memberships.len() == 0 ==> tier_plan(memberships) == "Anthropic"@,
{
}

/// The web's row is shown where there is one. Where the web fails, a token is
/// tried, and the failure is shown only without one.
pub proof fn law_token_stands_in_for_the_web(
    cookie: Option<Seq<char>>,
    web: Result<RowView, FailureView>,
    has_token: bool,
    now_ms: i64,
)
    ensures
        cookie is None ==> web_verdict(cookie, web, has_token, now_ms) is AskOAuth,
        cookie is Some && web is Ok ==> web_verdict(cookie, web, has_token, now_ms)
            == WebVerdictView::Show(web->Ok_0),
        cookie is Some && web is Err && has_token ==> web_verdict(
            cookie,
            web,
            has_token,
            now_ms,
        ) is AskOAuth,
        cookie is Some && web is Err && !has_token ==> {
            let verdict = web_verdict(cookie, web, has_token, now_ms);
            &&& verdict is Show
            &&& verdict->Show_0 is Missing
            &&& verdict->Show_0->Missing_0.diagnostics == seq![web->Err_0.detail]
            &&& verdict->Show_0->Missing_0.source_health == web->Err_0.health
        },
{
}

} // verus!
