//! Trae: the credits of all entitlement packs.

use vstd::prelude::*;

use crate::arithmetic::amount_total;
use crate::collectors::{answered, answered_row, ask, asked, body_of, body_or_row, draft_views};
use crate::collectors::{no_row, nothing_for, Badge, DraftView, Reply, Row, RowView, WindowDraft};
use crate::collectors::Wording;
use crate::collectors::claude::after_prefix;
use crate::formula::{constant, given, left_of, not_below_zero, share_of, Formula, Power};
use crate::json::{at_either, at_key, either, either_in, first_of, get_either, get_either_in};
use crate::json::{get_in, held_under, items_in, lemma_held_under, list_in, measured_in, number_in};
use crate::json::Json;
use crate::limits::{WindowKind, WindowMetric};
use crate::quantity::{Quantity, ZERO};
use crate::secrets::{first_char, key_of, str_views, Secrets};
use crate::text::{chars_of, has_prefix, lower, maybe_str, maybe_text, slice_text, starts_with};
use crate::text::{to_lower, trim, trimmed};

verus! {

pub open spec fn trae_badge() -> Badge {
    Badge { provider_id: "trae", source: "api", hue: 220 }
}

pub open spec fn token_names() -> Seq<Seq<char>> {
    seq!["TOKEN_MONITOR_TRAE_ACCESS_TOKEN"@, "TRAE_ACCESS_TOKEN"@]
}

/// The value of an authorization header without its name.
pub open spec fn without_header(text: Seq<char>) -> Seq<char> {
    if starts_with(lower(text), "authorization:"@) && text.contains(':') {
        trim(text.skip(text.index_of_first(':')->0 + 1))
    } else {
        text
    }
}

/// The token without the name of its scheme.
pub open spec fn without_scheme(text: Seq<char>) -> Seq<char> {
    if starts_with(lower(text), "cloud-ide-jwt "@) {
        trim(after_prefix(text, "cloud-ide-jwt "@))
    } else {
        text
    }
}

/// The bare token of a header that was entered.
pub open spec fn bare_token(text: Seq<char>) -> Option<Seq<char>> {
    let token = without_scheme(without_header(text));
    if token.len() == 0 {
        None
    } else {
        Some(token)
    }
}

/// The bare token that a header holds.
pub fn token_in(text: &str) -> (out: Option<String>)
    ensures
        maybe_text(out) == bare_token(text@),
{
    let chars = chars_of(text);
    let total: usize = chars.len();
    let plain = if has_prefix(to_lower(text).as_str(), "authorization:") {
        match first_char(&chars, ':') {
            Some(at) => {
                let rest = slice_text(&chars, at + 1, total);
                assert(rest@ =~= text@.skip(at + 1));
                trimmed(rest.as_str())
            },
            None => text.to_owned(),
        }
    } else {
        text.to_owned()
    };
    let small = to_lower(plain.as_str());
    let token = if has_prefix(small.as_str(), "cloud-ide-jwt ") {
        let chars = chars_of(plain.as_str());
        let cut = chars_of("cloud-ide-jwt ");
        let total: usize = chars.len();
        let rest = slice_text(&chars, cut.len(), total);
        assert(rest@ =~= after_prefix(plain@, "cloud-ide-jwt "@));
        trimmed(rest.as_str())
    } else {
        plain
    };
    if token.as_str().is_empty() {
        None
    } else {
        Some(token)
    }
}

pub fn trae_access_token(secrets: &Secrets) -> (out: Option<String>)
    requires
        secrets.well_formed(),
    ensures
        maybe_text(out) == match secrets.found(token_names()) {
            Some(text) => bare_token(text),
            None => None,
        },
{
    let names = vec!["TOKEN_MONITOR_TRAE_ACCESS_TOKEN", "TRAE_ACCESS_TOKEN"];
    assert(str_views(names@) =~= token_names());
    match secrets.env_secret(&names) {
        Some(text) => token_in(text.as_str()),
        None => None,
    }
}

/// The positive limit of a pack.
pub open spec fn pack_limit(pack: Json) -> Option<Quantity> {
    let quota = either(
        at_key(pack.at("entitlement_base_info"@), "quota"@),
        at_key(pack.at("entitlementBaseInfo"@), "quota"@),
    );
    match measured_in(either_in(quota, "credits_limit"@, "creditsLimit"@)) {
        Some(limit) => if (Quantity { bits: ZERO }).below(limit) {
            Some(limit)
        } else {
            None
        },
        None => None,
    }
}

/// What was used of a pack; never less than nothing.
pub open spec fn pack_used(pack: Json) -> Formula {
    Formula::not_below_zero(
        match measured_in(either_in(pack.at("usage"@), "credits_amount"@, "creditsAmount"@)) {
            Some(used) => Formula::Given(used),
            None => Formula::of(ZERO),
        },
    )
}

pub open spec fn plus(left: Formula, right: Formula) -> Formula {
    Formula::Plus(Box::new(left), Box::new(right))
}

/// The limits of the packs with a positive one, added up.
pub open spec fn limit_sum(packs: Seq<Json>) -> Formula
    decreases packs.len(),
{
    if packs.len() == 0 {
        Formula::of(ZERO)
    } else {
        let before = limit_sum(packs.drop_last());
        match pack_limit(packs.last()) {
            Some(limit) => plus(before, Formula::Given(limit)),
            None => before,
        }
    }
}

/// What was used of those packs, added up.
pub open spec fn used_sum(packs: Seq<Json>) -> Formula
    decreases packs.len(),
{
    if packs.len() == 0 {
        Formula::of(ZERO)
    } else {
        let before = used_sum(packs.drop_last());
        match pack_limit(packs.last()) {
            Some(_) => plus(before, pack_used(packs.last())),
            None => before,
        }
    }
}

/// Some pack has a positive limit, and so has the sum.
pub open spec fn has_credits(packs: Seq<Json>) -> bool {
    exists|i: int| 0 <= i < packs.len() && pack_limit(#[trigger] packs[i]) is Some
}

fn read_limit(pack: &Json) -> (out: Option<Quantity>)
    ensures
        out == pack_limit(*pack),
{
    let quota = first_of(
        get_in(pack.get("entitlement_base_info"), "quota"),
        get_in(pack.get("entitlementBaseInfo"), "quota"),
    );
    match number_in(get_either_in(quota, "credits_limit", "creditsLimit")) {
        Some(limit) => if (Quantity { bits: ZERO }).is_below(limit) {
            Some(limit)
        } else {
            None
        },
        None => None,
    }
}

fn read_used(pack: &Json) -> (out: Formula)
    ensures
        out == pack_used(*pack),
{
    not_below_zero(
        match number_in(get_either_in(pack.get("usage"), "credits_amount", "creditsAmount")) {
            Some(used) => given(used),
            None => constant(ZERO),
        },
    )
}

/// The sums over all packs, where there are credits at all.
pub fn pack_sums(packs: &Vec<Json>) -> (out: Option<(Formula, Formula)>)
    ensures
        match out {
            Some((limit, used)) => has_credits(packs@) && limit == limit_sum(packs@) && used
                == used_sum(packs@),
            None => !has_credits(packs@),
        },
{
    let mut limit = constant(ZERO);
    let mut used = constant(ZERO);
    let mut any = false;
    let mut i: usize = 0;
    while i < packs.len()
        invariant
            i <= packs@.len(),
            limit == limit_sum(packs@.take(i as int)),
            used == used_sum(packs@.take(i as int)),
            any <==> exists|k: int| 0 <= k < i && pack_limit(#[trigger] packs@[k]) is Some,
        decreases packs@.len() - i,
    {
        proof {
            assert(packs@.take(i + 1).drop_last() =~= packs@.take(i as int));
            assert(packs@.take(i + 1).last() == packs@[i as int]);
        }
        match read_limit(&packs[i]) {
            Some(pack_limit) => {
                limit = Formula::Plus(Box::new(limit), Box::new(given(pack_limit)));
                used = Formula::Plus(Box::new(used), Box::new(read_used(&packs[i])));
                any = true;
            },
            None => {},
        }
        i = i + 1;
    }
    assert(packs@.take(i as int) =~= packs@);
    if any {
        Some((limit, used))
    } else {
        None
    }
}

pub open spec fn packs_of(payload: Json) -> Seq<Json> {
    match items_in(
        at_either(payload, "user_entitlement_pack_list"@, "userEntitlementPackList"@),
    ) {
        Some(packs) => packs,
        None => Seq::empty(),
    }
}

pub open spec fn credits_window(packs: Seq<Json>) -> DraftView {
    let left = Formula::left(limit_sum(packs), used_sum(packs));
    DraftView {
        label: "Credits"@,
        kind: WindowKind::Billing,
        metric: WindowMetric::Credits,
        remaining_percent: Some(Formula::share(left, limit_sum(packs))),
        remaining_amount: Some(left),
        currency: Some("CREDITS"@),
        resets_at_ms: None,
        reset_text: None,
        estimated: false,
    }
}

pub open spec fn trae_wording() -> Wording {
    Wording {
        refused: "Trae credits unavailable",
        failed: "Trae request failed",
        garbled: "Invalid Trae JSON",
    }
}

/// The row of the access token.
pub open spec fn trae_row(token: Option<Seq<char>>, can_ask: bool, reply: Reply, now_ms: i64) -> RowView {
    let badge = trae_badge();
    let label = "Trae"@;
    match asked(
        badge,
        "trae"@,
        label,
        token,
        "Trae access token not configured"@,
        can_ask,
        now_ms,
    ) {
        Err(row) => row,
        Ok(key) => match body_or_row(badge, key, label, reply, trae_wording(), now_ms) {
            Err(row) => row,
            Ok(payload) => if has_credits(packs_of(payload)) {
                answered(badge, key, label, label, seq![credits_window(packs_of(payload))])
            } else {
                no_row(badge, key, label, "Trae response has no entitlement credits"@, now_ms)
            },
        },
    }
}

pub fn collect_trae(token: Option<&str>, can_ask: bool, reply: &Reply, now_ms: i64) -> (out: Row)
    ensures
        out@ == trae_row(maybe_str(token), can_ask, *reply, now_ms),
{
    let badge = Badge { provider_id: "trae", source: "api", hue: 220 };
    let label = "Trae";
    let key = match ask(
        &badge,
        "trae",
        label,
        token,
        "Trae access token not configured",
        can_ask,
        now_ms,
    ) {
        Ok(key) => key,
        Err(row) => {
            return row;
        },
    };
    let wording = Wording {
        refused: "Trae credits unavailable",
        failed: "Trae request failed",
        garbled: "Invalid Trae JSON",
    };
    let payload = match body_of(&badge, key.as_str(), label, reply, &wording, now_ms) {
        Ok(payload) => payload,
        Err(row) => {
            return row;
        },
    };
    let sums = match list_in(
        get_either(payload, "user_entitlement_pack_list", "userEntitlementPackList"),
    ) {
        Some(packs) => pack_sums(packs),
        None => None,
    };
    match sums {
        Some((limit, used)) => {
            let left = left_of(limit.clone(), used);
            let window = WindowDraft {
                label: "Credits".to_owned(),
                kind: WindowKind::Billing,
                metric: WindowMetric::Credits,
                remaining_percent: Some(share_of(left.clone(), limit)),
                remaining_amount: Some(left),
                currency: Some("CREDITS".to_owned()),
                resets_at_ms: None,
                reset_text: None,
                estimated: false,
            };
            let ghost view = window@;
            let windows = vec![window];
            assert(draft_views(windows@) =~= seq![view]);
            answered_row(&badge, key, label.to_owned(), label.to_owned(), windows)
        },
        None => nothing_for(
            &badge,
            key,
            label,
            "Trae response has no entitlement credits",
            now_ms,
        ),
    }
}

/// A row shows of the token no more than the key that is its digest: whoever
/// signed in, the same answers give the same row.
pub proof fn law_row_hides_the_token(
    first: Seq<char>,
    second: Seq<char>,
    can_ask: bool,
    reply: Reply,
    now_ms: i64,
)
    ensures
        trae_row(Some(first), can_ask, reply, now_ms).key() == key_of("trae"@, first),
        trae_row(Some(first), can_ask, reply, now_ms).keyless()
            == trae_row(Some(second), can_ask, reply, now_ms).keyless(),
{
}

/// The credits are those of every pack that grants any: what the packs grant
/// together, less what was used of them, and nothing once more was used. Packs
/// that grant nothing count neither way.
pub proof fn law_credits_are_those_of_all_packs(packs: Seq<Json>, powers: Seq<Power>)
    ensures
        ({
            let granting = packs.filter(|pack: Json| pack_limit(pack) is Some);
            let granted = amount_total(granting.map_values(|pack: Json| pack_limit(pack)->0));
            let used = amount_total(
                granting.map_values(|pack: Json| pack_used(pack).value(powers)),
            );
            let left = granted.difference(used).larger(Quantity { bits: 0 });
            let window = credits_window(packs).settled(powers);
            &&& window.label == "Credits"@
            &&& window.metric is Credits
            &&& window.remaining_amount == Some(left)
            &&& window.remaining_percent == Some(
                left.quotient(granted).product(
                    Quantity { bits: 0x4059_0000_0000_0000 },
                ).as_percentage(),
            )
        }),
{
    lemma_sums(packs, powers);
    reveal_with_fuel(Formula::value, 6);
}

proof fn lemma_sums(packs: Seq<Json>, powers: Seq<Power>)
    ensures
        limit_sum(packs).value(powers) == amount_total(
            packs.filter(|pack: Json| pack_limit(pack) is Some).map_values(
                |pack: Json| pack_limit(pack)->0,
            ),
        ),
        used_sum(packs).value(powers) == amount_total(
            packs.filter(|pack: Json| pack_limit(pack) is Some).map_values(
                |pack: Json| pack_used(pack).value(powers),
            ),
        ),
    decreases packs.len(),
{
    let grants = |pack: Json| pack_limit(pack) is Some;
    let limit = |pack: Json| pack_limit(pack)->0;
    let used = |pack: Json| pack_used(pack).value(powers);
    reveal_with_fuel(Formula::value, 2);
    if packs.len() == 0 {
        reveal(Seq::filter);
        assert(packs.filter(grants).map_values(limit) =~= Seq::empty());
        assert(packs.filter(grants).map_values(used) =~= Seq::empty());
    } else {
        let before = packs.drop_last();
        lemma_sums(before, powers);
        assert(packs =~= before.push(packs.last()));
        before.lemma_filter_push(packs.last(), grants);
        if grants(packs.last()) {
            let limits = packs.filter(grants).map_values(limit);
            let spent = packs.filter(grants).map_values(used);
            assert(limits.drop_last() =~= before.filter(grants).map_values(limit));
            assert(spent.drop_last() =~= before.filter(grants).map_values(used));
        }
    }
}

/// What a pack grants and what was used of it are read from its own fields; a
/// grant counts where it is above zero, and use never counts below zero.
pub proof fn law_packs_state_their_credits(
    pack: Json,
    info: Json,
    quota: Json,
    granted: Json,
    usage: Json,
    used: Json,
    powers: Seq<Power>,
)
    requires
        held_under(pack, seq!["entitlement_base_info"@, "entitlementBaseInfo"@], info),
        info.at("quota"@) == Some(quota),
        held_under(quota, seq!["credits_limit"@, "creditsLimit"@], granted),
        granted.measured() is Some,
        !granted.measured()->0.nan(),
        pack.at("usage"@) == Some(usage),
        held_under(usage, seq!["credits_amount"@, "creditsAmount"@], used),
        used.measured() is Some,
        !used.measured()->0.nan(),
    ensures
        granted.measured()->0.rank() > 0 ==> pack_limit(pack) == granted.measured(),
        granted.measured()->0.rank() <= 0 ==> pack_limit(pack) is None,
        used.measured()->0.rank() > 0 ==> pack_used(pack).value(powers) == used.measured()->0,
        used.measured()->0.rank() < 0 ==> pack_used(pack).value(powers) == (Quantity { bits: 0 }),
{
    lemma_held_under(pack, seq!["entitlement_base_info"@, "entitlementBaseInfo"@], info);
    lemma_held_under(quota, seq!["credits_limit"@, "creditsLimit"@], granted);
    lemma_held_under(usage, seq!["credits_amount"@, "creditsAmount"@], used);
    reveal_with_fuel(Formula::value, 3);
}

/// An answer that grants credits gives one window of them; one that grants none
/// says so.
pub proof fn law_answers_show_credits(
    token: Seq<char>,
    payload: Json,
    list: Json,
    packs: Vec<Json>,
    powers: Seq<Power>,
    now_ms: i64,
)
    requires
        held_under(
            payload,
            seq!["user_entitlement_pack_list"@, "userEntitlementPackList"@],
            list,
        ),
        list == Json::List(packs),
    ensures
        ({
            let row = trae_row(Some(token), true, Reply::Body(payload), now_ms).settled(
                powers,
                now_ms,
            );
            let grants = exists|i: int|
                0 <= i < packs@.len() && pack_limit(#[trigger] packs@[i]) is Some;
            &&& grants ==> row.source_health is Connected && row.windows == seq![
                credits_window(packs@).settled(powers),
            ]
            &&& !grants ==> row.windows.len() == 0 && row.source_health is Unavailable
                && row.diagnostics == seq!["Trae response has no entitlement credits"@]
        }),
{
    lemma_held_under(
        payload,
        seq!["user_entitlement_pack_list"@, "userEntitlementPackList"@],
        list,
    );
    assert(packs_of(payload) == packs@);
}

} // verus!
