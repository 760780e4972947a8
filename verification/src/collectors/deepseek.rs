//! DeepSeek: the prepaid balance.

use vstd::prelude::*;

use crate::collectors::{answered, answered_row, ask, asked, body_of, body_or_row, draft_views};
use crate::collectors::{missing, missing_row, unavailable, unavailable_for, Badge, DraftView};
use crate::collectors::{Reply, Row, RowView, WindowDraft, Wording};
use crate::formula::{given, Formula};
use crate::json::{at_either, get_either, items_in, list_in, measured_in, number_in, said_or};
use crate::json::{text_or, Json};
use crate::limits::{WindowKind, WindowMetric};
use crate::quantity::Quantity;
use crate::secrets::{key_of, str_views, Secrets};
use crate::text::{maybe_str, maybe_text};

verus! {

pub open spec fn deepseek_badge() -> Badge {
    Badge { provider_id: "deepseek", source: "api", hue: 75 }
}

pub open spec fn token_names() -> Seq<Seq<char>> {
    seq!["TOKEN_MONITOR_DEEPSEEK_API_KEY"@, "DEEPSEEK_API_KEY"@]
}

pub fn deepseek_token(secrets: &Secrets) -> (out: Option<String>)
    requires
        secrets.well_formed(),
    ensures
        maybe_text(out) == secrets.found(token_names()),
{
    let names = vec!["TOKEN_MONITOR_DEEPSEEK_API_KEY", "DEEPSEEK_API_KEY"];
    assert(str_views(names@) =~= token_names());
    secrets.env_secret(&names)
}

/// The balance of a row.
pub open spec fn row_balance(row: Json) -> Option<Quantity> {
    measured_in(at_either(row, "total_balance"@, "balance"@))
}

/// The place of the row with the largest balance; of equal ones the last.
pub open spec fn largest_balance(rows: Seq<Json>) -> Option<int>
    decreases rows.len(),
{
    if rows.len() == 0 {
        None
    } else {
        let before = largest_balance(rows.drop_last());
        match row_balance(rows.last()) {
            None => before,
            Some(balance) => match before {
                Some(i) => if row_balance(rows[i]) is Some && balance.below(
                    row_balance(rows[i])->0,
                ) {
                    before
                } else {
                    Some(rows.len() - 1)
                },
                None => Some(rows.len() - 1),
            },
        }
    }
}

proof fn lemma_largest_balance(rows: Seq<Json>)
    ensures
        match largest_balance(rows) {
            Some(i) => 0 <= i < rows.len() && row_balance(rows[i]) is Some,
            None => true,
        },
    decreases rows.len(),
{
    if rows.len() > 0 {
        lemma_largest_balance(rows.drop_last());
    }
}

pub open spec fn balance_rows(data: Json) -> Option<Seq<Json>> {
    items_in(data.at("balance_infos"@))
}

/// The row with the largest balance.
pub fn select_deepseek_balance(rows: &Vec<Json>) -> (out: Option<usize>)
    ensures
        match out {
            Some(i) => largest_balance(rows@) == Some(i as int) && i < rows@.len() && row_balance(
                rows@[i as int],
            ) is Some,
            None => largest_balance(rows@) is None,
        },
{
    let mut best: Option<usize> = None;
    let mut i: usize = 0;
    while i < rows.len()
        invariant
            i <= rows@.len(),
            match best {
                Some(b) => b < i && largest_balance(rows@.take(i as int)) == Some(b as int)
                    && row_balance(rows@[b as int]) is Some,
                None => largest_balance(rows@.take(i as int)) is None,
            },
        decreases rows@.len() - i,
    {
        proof {
            assert(rows@.take(i + 1).drop_last() =~= rows@.take(i as int));
            assert(rows@.take(i + 1).last() == rows@[i as int]);
        }
        match number_in(get_either(&rows[i], "total_balance", "balance")) {
            Some(balance) => {
                let keep = match best {
                    Some(b) => {
                        assert(rows@.take(i + 1)[b as int] == rows@[b as int]);
                        match number_in(get_either(&rows[b], "total_balance", "balance")) {
                            Some(earlier) => balance.is_below(earlier),
                            None => false,
                        }
                    },
                    None => false,
                };
                if !keep {
                    best = Some(i);
                }
            },
            None => {},
        }
        i = i + 1;
    }
    assert(rows@.take(i as int) =~= rows@);
    best
}

pub open spec fn deepseek_wording() -> Wording {
    Wording {
        refused: "DeepSeek balance unavailable",
        failed: "DeepSeek request failed",
        garbled: "Invalid DeepSeek JSON",
    }
}

pub open spec fn balance_window(row: Json) -> DraftView {
    DraftView {
        label: "Balance"@,
        kind: WindowKind::Billing,
        metric: WindowMetric::Credits,
        remaining_percent: None,
        remaining_amount: match row_balance(row) {
            Some(amount) => Some(Formula::Given(amount)),
            None => None,
        },
        currency: Some(said_or(row.at("currency"@), "USD"@)),
        resets_at_ms: None,
        reset_text: None,
        estimated: false,
    }
}

/// The row of the API key.
pub open spec fn deepseek_row(token: Option<Seq<char>>, can_ask: bool, reply: Reply, now_ms: i64) -> RowView {
    let label = "Pay-as-you-go"@;
    match asked(
        deepseek_badge(),
        "deepseek"@,
        label,
        token,
        "API key not configured"@,
        can_ask,
        now_ms,
    ) {
        Err(row) => row,
        Ok(key) => match body_or_row(
            deepseek_badge(),
            key,
            label,
            reply,
            deepseek_wording(),
            now_ms,
        ) {
            Err(row) => row,
            Ok(data) => {
                let rows = balance_rows(data);
                if rows is Some && largest_balance(rows->0) is Some {
                    answered(
                        deepseek_badge(),
                        key,
                        label,
                        label,
                        seq![balance_window(rows->0[largest_balance(rows->0)->0])],
                    )
                } else {
                    RowView::Missing(
                        missing_row(
                            deepseek_badge(),
                            key,
                            label,
                            unavailable("No DeepSeek balance row"@),
                            now_ms,
                        ),
                    )
                }
            },
        },
    }
}

pub fn collect_deepseek(token: Option<&str>, can_ask: bool, reply: &Reply, now_ms: i64) -> (out: Row)
    ensures
        out@ == deepseek_row(maybe_str(token), can_ask, *reply, now_ms),
{
    let badge = Badge { provider_id: "deepseek", source: "api", hue: 75 };
    let label = "Pay-as-you-go";
    let key = match ask(
        &badge,
        "deepseek",
        label,
        token,
        "API key not configured",
        can_ask,
        now_ms,
    ) {
        Ok(key) => key,
        Err(row) => {
            return row;
        },
    };
    let wording = Wording {
        refused: "DeepSeek balance unavailable",
        failed: "DeepSeek request failed",
        garbled: "Invalid DeepSeek JSON",
    };
    let data = match body_of(&badge, key.as_str(), label, reply, &wording, now_ms) {
        Ok(data) => data,
        Err(row) => {
            return row;
        },
    };
    match list_in(data.get("balance_infos")) {
        Some(rows) => match select_deepseek_balance(rows) {
            Some(i) => {
                let row = &rows[i];
                let amount = match number_in(get_either(row, "total_balance", "balance")) {
                    Some(amount) => Some(given(amount)),
                    None => None,
                };
                let window = WindowDraft {
                    label: "Balance".to_owned(),
                    kind: WindowKind::Billing,
                    metric: WindowMetric::Credits,
                    remaining_percent: None,
                    remaining_amount: amount,
                    currency: Some(text_or(row.get("currency"), "USD")),
                    resets_at_ms: None,
                    reset_text: None,
                    estimated: false,
                };
                let ghost view = window@;
                let windows = vec![window];
                assert(draft_views(windows@) =~= seq![view]);
                answered_row(&badge, key, label.to_owned(), label.to_owned(), windows)
            },
            None => missing(
                &badge,
                key,
                label.to_owned(),
                unavailable_for("No DeepSeek balance row"),
                now_ms,
            ),
        },
        None => missing(
            &badge,
            key,
            label.to_owned(),
            unavailable_for("No DeepSeek balance row"),
            now_ms,
        ),
    }
}

/// No row has a larger balance than the selected one, as long as every balance
/// is a number.
pub proof fn law_selected_balance_is_largest(rows: Seq<Json>, k: int)
    requires
        0 <= k < rows.len(),
        row_balance(rows[k]) is Some,
        forall|i: int|
            0 <= i < rows.len() && row_balance(#[trigger] rows[i]) is Some ==> !row_balance(
                rows[i],
            )->0.nan(),
    ensures
        largest_balance(rows) is Some,
        0 <= largest_balance(rows)->0 < rows.len(),
        row_balance(rows[largest_balance(rows)->0]) is Some,
        row_balance(rows[k])->0.at_most(row_balance(rows[largest_balance(rows)->0])->0),
    decreases rows.len(),
{
    lemma_largest_balance(rows);
    let rest = rows.drop_last();
    lemma_largest_balance(rest);
    if k < rows.len() - 1 {
        assert forall|i: int|
            0 <= i < rest.len() && row_balance(#[trigger] rest[i]) is Some implies !row_balance(
            rest[i],
        )->0.nan() by {
            assert(rest[i] == rows[i]);
        }
        assert(rest[k] == rows[k]);
        law_selected_balance_is_largest(rest, k);
        let b = largest_balance(rest)->0;
        assert(rest[b] == rows[b]);
        assert(!row_balance(rows[b])->0.nan());
        assert(!row_balance(rows[k])->0.nan());
        if row_balance(rows.last()) is Some {
            assert(rows.last() == rows[rows.len() - 1]);
        }
    } else {
        assert(rows[k] == rows.last());
        match largest_balance(rest) {
            Some(b) => {
                assert(rest[b] == rows[b]);
            },
            None => {},
        }
    }
}

/// A row shows of the token no more than the key that is its digest: whoever
/// signed in, the same answers give the same row.
pub proof fn law_row_hides_the_token(
    first: Seq<char>,
    second: Seq<char>,
    can_ask: bool,
    reply: Reply,
    now_ms: i64,
)
    ensures
        deepseek_row(Some(first), can_ask, reply, now_ms).key() == key_of("deepseek"@, first),
        deepseek_row(Some(first), can_ask, reply, now_ms).keyless()
            == deepseek_row(Some(second), can_ask, reply, now_ms).keyless(),
{
}

/// The balance that is shown is the one that the chosen row states, in the
/// currency that it names, or in dollars where it names none.
pub proof fn law_balance_is_the_rows_own(
    row: Json,
    balance: Json,
    powers: Seq<crate::formula::Power>,
)
    requires
        crate::json::held_under(row, seq!["total_balance"@, "balance"@], balance),
        balance.measured() is Some,
    ensures
        ({
            let window = balance_window(row).settled(powers);
            &&& window.label == "Balance"@
            &&& window.metric is Credits
            &&& window.kind is Billing
            &&& window.remaining_amount == balance.measured()
            &&& row.at("currency"@) is None ==> window.currency == Some("USD"@)
            &&& row.at("currency"@) matches Some(currency) ==> currency.said() matches Some(name)
                ==> window.currency == Some(name)
        }),
{
    crate::json::lemma_held_under(row, seq!["total_balance"@, "balance"@], balance);
    reveal_with_fuel(Formula::value, 2);
}

/// The row of an account shows the largest of its balances, and no other.
pub proof fn law_row_shows_the_largest_balance(
    token: Seq<char>,
    body: Json,
    list: Json,
    rows: Vec<Json>,
    k: int,
    powers: Seq<crate::formula::Power>,
    now_ms: i64,
)
    requires
        body.at("balance_infos"@) == Some(list),
        list == Json::List(rows),
        0 <= k < rows@.len(),
        row_balance(rows@[k]) is Some,
        forall|i: int|
            0 <= i < rows@.len() && row_balance(#[trigger] rows@[i]) is Some ==> !row_balance(
                rows@[i],
            )->0.nan(),
    ensures
        ({
            let row = deepseek_row(Some(token), true, Reply::Body(body), now_ms).settled(
                powers,
                now_ms,
            );
            &&& row.provider_id == "deepseek"@
            &&& row.windows.len() == 1
            &&& row.windows[0].remaining_amount is Some
            &&& row_balance(rows@[k])->0.rank() <= row.windows[0].remaining_amount->0.rank()
            &&& exists|i: int|
                0 <= i < rows@.len() && row_balance(#[trigger] rows@[i])
                    == row.windows[0].remaining_amount
        }),
{
    law_selected_balance_is_largest(rows@, k);
    reveal_with_fuel(Formula::value, 2);
    assert(balance_rows(body) == Some(rows@));
    let at = largest_balance(rows@)->0;
    assert(row_balance(rows@[at]) is Some);
}

} // verus!
