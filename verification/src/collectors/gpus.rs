//! Modal and Vast.ai: the credits of rented hardware.

use vstd::prelude::*;

use crate::collectors::{answered, answered_row, draft_views, missing, missing_row, row_views};
use crate::collectors::{unavailable, unavailable_for, Badge, CollectorOptions};
use crate::collectors::{DEFAULT_MODAL_GRANT_USD, DraftView, Row, RowView, WindowDraft};
use crate::collectors::antigravity::{find_last_name, last_name};
use crate::formula::{constant, given, left_of, not_below_zero, share_of, Formula, Power};
use crate::json::{at_key, get_in, held_under, lemma_held_under, measured_in, number_in, Json};
use crate::limits::{WindowKind, WindowMetric};
use crate::quantity::{Quantity, ZERO};
use crate::secrets::{account_key, first_char, key_of};
use crate::text::{chars_of, copy_texts, lines, lines_of, maybe_str, maybe_text, same, slice_text};
use crate::text::{split, texts, trim, trimmed};
use crate::usage::{ascending, insert_name};

verus! {

pub open spec fn modal_badge() -> Badge {
    Badge { provider_id: "modal", source: "cli", hue: 214 }
}

pub open spec fn vast_badge() -> Badge {
    Badge { provider_id: "vast", source: "cli", hue: 220 }
}

/// The command to run: the one that the environment names, else the usual file
/// where it is there, else its name alone.
pub open spec fn command(named: Option<Seq<char>>, usual: Seq<char>, present: bool) -> Seq<char> {
    if named is Some && trim(named->0).len() > 0 {
        named->0
    } else if present {
        usual
    } else {
        match last_name(split(usual, '/')) {
            Some(name) => if name == ".."@ {
                ""@
            } else {
                name
            },
            None => ""@,
        }
    }
}

/// `present` says whether the usual file is there.
pub fn executable(named: Option<&str>, usual: &str, present: bool) -> (out: String)
    ensures
        out@ == command(maybe_str(named), usual@, present),
{
    match named {
        Some(named) => if !trimmed(named).as_str().is_empty() {
            return named.to_owned();
        },
        None => {},
    }
    if present {
        return usual.to_owned();
    }
    match find_last_name(usual) {
        Some(name) => if same(name.as_str(), "..") {
            "".to_owned()
        } else {
            name
        },
        None => "".to_owned(),
    }
}

/// The profile that a line of the configuration opens. Names with a point are
/// tables inside a profile.
pub open spec fn profile_line(line: Seq<char>) -> Option<Seq<char>> {
    let text = trim(line);
    if text.len() >= 2 && text[0] == '[' && text.last() == ']' {
        let name = trim(text.subrange(1, text.len() - 1));
        if name.len() == 0 || name.contains('.') {
            None
        } else {
            Some(name)
        }
    } else {
        None
    }
}

fn read_profile_line(line: &str) -> (out: Option<String>)
    ensures
        maybe_text(out) == profile_line(line@),
{
    let text = trimmed(line);
    let chars = chars_of(text.as_str());
    let total: usize = chars.len();
    if total >= 2 && chars[0] == '[' && chars[total - 1] == ']' {
        let inner = slice_text(&chars, 1, total - 1);
        let name = trimmed(inner.as_str());
        let name_chars = chars_of(name.as_str());
        if name_chars.len() == 0 || first_char(&name_chars, '.').is_some() {
            None
        } else {
            Some(name)
        }
    } else {
        None
    }
}

/// Some line opens the profile.
pub open spec fn opens_profile(found: Seq<Seq<char>>, name: Seq<char>) -> bool {
    exists|i: int| 0 <= i < found.len() && profile_line(#[trigger] found[i]) == Some(name)
}

/// The profiles of a configuration text, in order, each once.
pub fn profiles_in(text: &str) -> (out: Vec<String>)
    ensures
        ascending(texts(out@)),
        forall|name: Seq<char>| #[trigger]
            texts(out@).contains(name) <==> opens_profile(lines(text@), name),
{
    let found = lines_of(text);
    let ghost all = texts(found@);
    let mut out: Vec<String> = Vec::new();
    let mut i: usize = 0;
    while i < found.len()
        invariant
            i <= found@.len(),
            all == texts(found@),
            ascending(texts(out@)),
            forall|name: Seq<char>| #[trigger]
                texts(out@).contains(name) <==> opens_profile(all.take(i as int), name),
        decreases found@.len() - i,
    {
        let ghost before = texts(out@);
        let profile = read_profile_line(found[i].as_str());
        match profile {
            Some(profile) => {
                insert_name(&mut out, profile.as_str());
            },
            None => {},
        }
        proof {
            let earlier = all.take(i as int);
            let now = all.take(i + 1);
            assert(now[i as int] == found@[i as int]@);
            assert forall|name: Seq<char>| #[trigger]
                texts(out@).contains(name) <==> opens_profile(now, name) by {
                if opens_profile(earlier, name) {
                    let k = choose|k: int|
                        0 <= k < earlier.len() && profile_line(#[trigger] earlier[k]) == Some(name);
                    assert(now[k] == earlier[k]);
                }
                if opens_profile(now, name) {
                    let k = choose|k: int|
                        0 <= k < now.len() && profile_line(#[trigger] now[k]) == Some(name);
                    if k < i {
                        assert(earlier[k] == now[k]);
                    }
                }
                if profile_line(now[i as int]) == Some(name) {
                    assert(opens_profile(now, name));
                }
                assert(before.contains(name) <==> opens_profile(earlier, name));
            }
        }
        i = i + 1;
    }
    assert(all.take(i as int) =~= all);
    out
}

/// The profiles to ask for: those of the options, else those of the
/// configuration text.
pub fn modal_profiles(options: &CollectorOptions, config: Option<&str>) -> (out: Vec<String>)
    ensures
        match options.modal_profiles {
            Some(profiles) => texts(out@) == texts(profiles@),
            None => match config {
                Some(text) => ascending(texts(out@)) && forall|name: Seq<char>| #[trigger]
                    texts(out@).contains(name) <==> opens_profile(lines(text@), name),
                None => out@.len() == 0,
            },
        },
{
    match &options.modal_profiles {
        Some(profiles) => copy_texts(profiles),
        None => match config {
            Some(text) => profiles_in(text),
            None => Vec::new(),
        },
    }
}

/// The grant: as asked for, else as the environment says, else the usual one.
pub open spec fn modal_grant(options: CollectorOptions, environment: Option<Quantity>) -> Quantity {
    match options.modal_credit_grant_usd {
        Some(grant) => grant,
        None => match environment {
            Some(grant) => grant,
            None => Quantity { bits: DEFAULT_MODAL_GRANT_USD },
        },
    }
}

pub fn modal_credit_grant(options: &CollectorOptions, environment: Option<Quantity>) -> (out: Quantity)
    ensures
        out == modal_grant(*options, environment),
{
    match options.modal_credit_grant_usd {
        Some(grant) => grant,
        None => match environment {
            Some(grant) => grant,
            None => Quantity { bits: DEFAULT_MODAL_GRANT_USD },
        },
    }
}

/// The grant less the credits that were applied. The adjustment is negative.
pub open spec fn grant_left(grant: Quantity, adjustment: Quantity) -> Formula {
    Formula::left(
        Formula::Given(grant),
        Formula::not_below_zero(
            Formula::Minus(Box::new(Formula::of(ZERO)), Box::new(Formula::Given(adjustment))),
        ),
    )
}

pub open spec fn credits_window(grant: Quantity, adjustment: Quantity, month_end_ms: i64) -> DraftView {
    let remaining = grant_left(grant, adjustment);
    DraftView {
        label: "Credits ~"@,
        kind: WindowKind::Billing,
        metric: WindowMetric::Credits,
        remaining_percent: Some(Formula::share(remaining, Formula::Given(grant))),
        remaining_amount: Some(remaining),
        currency: Some("USD"@),
        resets_at_ms: Some(month_end_ms),
        reset_text: Some("monthly grant reset"@),
        estimated: true,
    }
}

/// The row of one profile. The answer is what the command printed, or why it
/// printed nothing.
pub open spec fn profile_row(
    profile: Seq<char>,
    grant: Quantity,
    answer: Result<Json, Seq<char>>,
    month_end_ms: i64,
    now_ms: i64,
) -> RowView {
    let key = key_of("modal"@, profile);
    match answer {
        Err(detail) => RowView::Missing(
            missing_row(modal_badge(), key, profile, unavailable(detail), now_ms),
        ),
        Ok(payload) => match measured_in(at_key(payload.at("adjustments"@), "credits"@)) {
            None => RowView::Missing(
                missing_row(
                    modal_badge(),
                    key,
                    profile,
                    unavailable("No Modal credits adjustment"@),
                    now_ms,
                ),
            ),
            Some(adjustment) => answered(
                modal_badge(),
                key,
                profile,
                "Credits ~"@,
                seq![credits_window(grant, adjustment, month_end_ms)],
            ),
        },
    }
}

pub open spec fn printed(answer: Result<Json, String>) -> Result<Json, Seq<char>> {
    match answer {
        Ok(value) => Ok(value),
        Err(detail) => Err(detail@),
    }
}

pub fn modal_row(
    profile: &str,
    grant: Quantity,
    answer: &Result<Json, String>,
    month_end_ms: i64,
    now_ms: i64,
) -> (out: Row)
    ensures
        out@ == profile_row(profile@, grant, printed(*answer), month_end_ms, now_ms),
{
    let badge = Badge { provider_id: "modal", source: "cli", hue: 214 };
    let key = account_key("modal", profile);
    match answer {
        Err(detail) => missing(
            &badge,
            key,
            profile.to_owned(),
            unavailable_for(detail.as_str()),
            now_ms,
        ),
        Ok(payload) => match number_in(get_in(payload.get("adjustments"), "credits")) {
            None => missing(
                &badge,
                key,
                profile.to_owned(),
                unavailable_for("No Modal credits adjustment"),
                now_ms,
            ),
            Some(adjustment) => {
                let remaining = left_of(
                    given(grant),
                    not_below_zero(
                        Formula::Minus(Box::new(constant(ZERO)), Box::new(given(adjustment))),
                    ),
                );
                let window = WindowDraft {
                    label: "Credits ~".to_owned(),
                    kind: WindowKind::Billing,
                    metric: WindowMetric::Credits,
                    remaining_percent: Some(share_of(remaining.clone(), given(grant))),
                    remaining_amount: Some(remaining),
                    currency: Some("USD".to_owned()),
                    resets_at_ms: Some(month_end_ms),
                    reset_text: Some("monthly grant reset".to_owned()),
                    estimated: true,
                };
                let ghost view = window@;
                let windows = vec![window];
                assert(draft_views(windows@) =~= seq![view]);
                answered_row(&badge, key, profile.to_owned(), "Credits ~".to_owned(), windows)
            },
        },
    }
}

/// What the command printed for a profile.
#[derive(Debug)]
pub struct ModalAnswer {
    pub profile: String,
    pub answer: Result<Json, String>,
}

/// The rows of all profiles; without a profile, one row with the reason.
pub open spec fn modal_rows(
    answers: Seq<ModalAnswer>,
    grant: Quantity,
    month_end_ms: i64,
    now_ms: i64,
) -> Seq<RowView> {
    if answers.len() == 0 {
        seq![
            RowView::Missing(
                missing_row(modal_badge(), ""@, ""@, unavailable("No Modal profile"@), now_ms),
            ),
        ]
    } else {
        answers.map_values(
            |answer: ModalAnswer|
                profile_row(
                    answer.profile@,
                    grant,
                    printed(answer.answer),
                    month_end_ms,
                    now_ms,
                ),
        )
    }
}

pub fn collect_modal(
    answers: &Vec<ModalAnswer>,
    grant: Quantity,
    month_end_ms: i64,
    now_ms: i64,
) -> (out: Vec<Row>)
    ensures
        row_views(out@) == modal_rows(answers@, grant, month_end_ms, now_ms),
{
    let ghost wanted = modal_rows(answers@, grant, month_end_ms, now_ms);
    let mut out: Vec<Row> = Vec::new();
    if answers.len() == 0 {
        out.push(
            missing(
                &Badge { provider_id: "modal", source: "cli", hue: 214 },
                "".to_owned(),
                "".to_owned(),
                unavailable_for("No Modal profile"),
                now_ms,
            ),
        );
        assert(row_views(out@) =~= wanted);
        return out;
    }
    let mut i: usize = 0;
    while i < answers.len()
        invariant
            i <= answers@.len(),
            wanted == modal_rows(answers@, grant, month_end_ms, now_ms),
            answers@.len() > 0,
            row_views(out@) == wanted.take(i as int),
        decreases answers@.len() - i,
    {
        let ghost earlier = out@;
        let row = modal_row(
            answers[i].profile.as_str(),
            grant,
            &answers[i].answer,
            month_end_ms,
            now_ms,
        );
        let ghost view = row@;
        out.push(row);
        assert(row_views(out@) =~= row_views(earlier).push(view));
        assert(wanted.take(i + 1) =~= wanted.take(i as int).push(view));
        i = i + 1;
    }
    assert(wanted.take(i as int) =~= wanted);
    out
}

/// The credit of an answer; where it is no number, the balance.
pub open spec fn vast_amount(payload: Json) -> Option<Quantity> {
    match measured_in(payload.at("credit"@)) {
        Some(amount) => Some(amount),
        None => measured_in(payload.at("balance"@)),
    }
}

pub open spec fn vast_row(answer: Result<Json, Seq<char>>, now_ms: i64) -> RowView {
    let key = "vast:account"@;
    let label = "Cloud GPU"@;
    match answer {
        Err(detail) => RowView::Missing(
            missing_row(vast_badge(), key, label, unavailable(detail), now_ms),
        ),
        Ok(payload) => match vast_amount(payload) {
            None => RowView::Missing(
                missing_row(
                    vast_badge(),
                    key,
                    label,
                    unavailable("No Vast.ai credit field"@),
                    now_ms,
                ),
            ),
            Some(amount) => answered(
                vast_badge(),
                key,
                label,
                label,
                seq![
                    DraftView {
                        label: "Credit"@,
                        kind: WindowKind::Billing,
                        metric: WindowMetric::Credits,
                        remaining_percent: None,
                        remaining_amount: Some(Formula::Given(amount)),
                        currency: Some("USD"@),
                        resets_at_ms: None,
                        reset_text: None,
                        estimated: false,
                    },
                ],
            ),
        },
    }
}

pub fn collect_vast(answer: &Result<Json, String>, now_ms: i64) -> (out: Row)
    ensures
        out@ == vast_row(printed(*answer), now_ms),
{
    let badge = Badge { provider_id: "vast", source: "cli", hue: 220 };
    let key = "vast:account".to_owned();
    let label = "Cloud GPU".to_owned();
    match answer {
        Err(detail) => missing(&badge, key, label, unavailable_for(detail.as_str()), now_ms),
        Ok(payload) => {
            let amount = match number_in(payload.get("credit")) {
                Some(amount) => Some(amount),
                None => number_in(payload.get("balance")),
            };
            match amount {
                None => missing(
                    &badge,
                    key,
                    label,
                    unavailable_for("No Vast.ai credit field"),
                    now_ms,
                ),
                Some(amount) => {
                    let window = WindowDraft {
                        label: "Credit".to_owned(),
                        kind: WindowKind::Billing,
                        metric: WindowMetric::Credits,
                        remaining_percent: None,
                        remaining_amount: Some(given(amount)),
                        currency: Some("USD".to_owned()),
                        resets_at_ms: None,
                        reset_text: None,
                        estimated: false,
                    };
                    let ghost view = window@;
                    let windows = vec![window];
                    assert(draft_views(windows@) =~= seq![view]);
                    answered_row(&badge, key, label, "Cloud GPU".to_owned(), windows)
                },
            }
        },
    }
}

/// What is left of a profile's grant is the grant less what was charged against
/// it, which is stated as a negative adjustment, and nothing below zero; the
/// share is in hundredths of the grant. It comes back when the month ends.
pub proof fn law_charges_lower_the_grant(
    profile: Seq<char>,
    grant: Quantity,
    payload: Json,
    adjustments: Json,
    charged: Json,
    month_end_ms: i64,
    powers: Seq<Power>,
    now_ms: i64,
)
    requires
        payload.at("adjustments"@) == Some(adjustments),
        adjustments.at("credits"@) == Some(charged),
        charged.measured() is Some,
    ensures
        ({
            let row = profile_row(profile, grant, Ok(payload), month_end_ms, now_ms).settled(
                powers,
                now_ms,
            );
            let zero = Quantity { bits: 0 };
            let spent = zero.difference(charged.measured()->0).larger(zero);
            let left = grant.difference(spent).larger(zero);
            &&& row.provider_id == "modal"@
            &&& row.account_label == profile
            &&& row.windows.len() == 1
            &&& row.windows[0].metric is Credits
            &&& row.windows[0].estimated
            &&& row.windows[0].remaining_amount == Some(left)
            &&& row.windows[0].remaining_percent == Some(
                left.quotient(grant).product(
                    Quantity { bits: 0x4059_0000_0000_0000 },
                ).as_percentage(),
            )
            &&& row.windows[0].resets_at_ms == Some(month_end_ms)
        }),
{
    reveal_with_fuel(Formula::value, 7);
}

/// The grant is the one that was asked for, else the environment's, else thirty
/// dollars.
pub proof fn law_asked_grant_counts_first(options: CollectorOptions, environment: Option<Quantity>)
    ensures
        options.modal_credit_grant_usd matches Some(grant) ==> modal_grant(options, environment)
            == grant,
        options.modal_credit_grant_usd is None && environment is Some ==> modal_grant(
            options,
            environment,
        ) == environment->0,
        options.modal_credit_grant_usd is None && environment is None ==> modal_grant(
            options,
            environment,
        ).bits == 0x403e_0000_0000_0000,
{
}

/// The credit of an account is stated as such, or as its balance.
pub proof fn law_vast_shows_its_credit(
    payload: Json,
    amount: Json,
    powers: Seq<Power>,
    now_ms: i64,
)
    requires
        held_under(payload, seq!["credit"@, "balance"@], amount),
        amount.measured() is Some,
    ensures
        ({
            let row = vast_row(Ok(payload), now_ms).settled(powers, now_ms);
            &&& row.provider_id == "vast"@
            &&& row.windows.len() == 1
            &&& row.windows[0].label == "Credit"@
            &&& row.windows[0].metric is Credits
            &&& row.windows[0].remaining_amount == amount.measured()
            &&& row.windows[0].currency == Some("USD"@)
        }),
{
    lemma_held_under(payload, seq!["credit"@, "balance"@], amount);
    reveal_with_fuel(Formula::value, 2);
}

/// A profile is opened by its name in brackets, without a point in it.
pub proof fn law_profiles_stand_in_brackets(line: Seq<char>)
    ensures
        profile_line(line) matches Some(name) ==> {
            &&& trim(line)[0] == '['
            &&& trim(line).last() == ']'
            &&& name == trim(trim(line).subrange(1, trim(line).len() - 1))
            &&& name.len() > 0
            &&& !name.contains('.')
        },
        trim(line).len() == 0 || trim(line)[0] != '[' || trim(line).last() != ']' ==> profile_line(
            line,
        ) is None,
{
}

} // verus!
