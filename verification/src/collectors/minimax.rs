//! MiniMax: the general bucket of a token plan.

use vstd::prelude::*;

use crate::collectors::{answered, answered_row, ask, asked, draft_views, if_any, maybe_draft};
use crate::collectors::{missing, missing_row, push_if_any, reset_moment, reset_timestamp};
use crate::collectors::{status_health, Badge, DraftView, Failure, FailureView, Reply, Row, RowView};
use crate::collectors::WindowDraft;
use crate::formula::{given, Formula};
use crate::json::{at_key, either, first_of, get_in, items_in, list_in, measured_in, number_in};
use crate::json::{said_in, str_in, Json};
use crate::limits::{SourceHealth, WindowKind};
use crate::quantity::{Quantity, ZERO};
use crate::secrets::{key_of, str_views, Secrets};
use crate::sort::{first_where, lemma_is_first_where};
use crate::text::{maybe_str, maybe_text, same};

verus! {

pub open spec fn minimax_badge() -> Badge {
    Badge { provider_id: "minimax", source: "api", hue: 214 }
}

/// Three, the status of a window that does not count, by its bits.
pub const THREE: u64 = 0x4008_0000_0000_0000;

/// The places that are asked in turn.
pub const MINIMAX_URLS: [&'static str; 4] = [
    "https://api.minimax.io/v1/token_plan/remains",
    "https://api.minimax.io/v1/api/openplatform/coding_plan/remains",
    "https://api.minimaxi.com/v1/token_plan/remains",
    "https://api.minimaxi.com/v1/api/openplatform/coding_plan/remains",
];

pub open spec fn token_names() -> Seq<Seq<char>> {
    seq!["TOKEN_MONITOR_MINIMAX_API_KEY"@, "MINIMAX_CODING_API_KEY"@]
}

pub fn minimax_token(secrets: &Secrets) -> (out: Option<String>)
    requires
        secrets.well_formed(),
    ensures
        maybe_text(out) == secrets.found(token_names()),
{
    let names = vec!["TOKEN_MONITOR_MINIMAX_API_KEY", "MINIMAX_CODING_API_KEY"];
    assert(str_views(names@) =~= token_names());
    secrets.env_secret(&names)
}

/// The rows of an answer, one per model.
pub open spec fn model_rows(payload: Json) -> Option<Seq<Json>> {
    items_in(
        either(at_key(payload.at("data"@), "model_remains"@), payload.at("model_remains"@)),
    )
}

pub open spec fn general() -> spec_fn(Json) -> bool {
    |row: Json| said_in(row.at("model_name"@)) == Some("general"@)
}

/// A window of the general bucket, unless its status says that it does not
/// count.
pub open spec fn bucket_window(
    row: Json,
    status: Seq<char>,
    percent: Seq<char>,
    end: Seq<char>,
    label: Seq<char>,
    kind: WindowKind,
) -> Option<DraftView> {
    let counts = match measured_in(row.at(status)) {
        Some(status) => !status.equals(Quantity { bits: THREE }),
        None => true,
    };
    match measured_in(row.at(percent)) {
        Some(percent) => if counts {
            Some(
                DraftView::quota(
                    label,
                    kind,
                    Some(Formula::Percentage(Box::new(Formula::Given(percent)))),
                    reset_moment(row.at(end)),
                    None,
                ),
            )
        } else {
            None
        },
        None => None,
    }
}

fn read_window(
    row: &Json,
    status: &str,
    percent: &str,
    end: &str,
    label: &str,
    kind: WindowKind,
) -> (out: Option<WindowDraft>)
    ensures
        maybe_draft(out) == bucket_window(*row, status@, percent@, end@, label@, kind),
{
    let counts = match number_in(row.get(status)) {
        Some(status) => !status.is_equal(Quantity { bits: THREE }),
        None => true,
    };
    match number_in(row.get(percent)) {
        Some(percent) => if counts {
            Some(
                WindowDraft::quota(
                    label,
                    kind,
                    Some(Formula::Percentage(Box::new(given(percent)))),
                    reset_timestamp(row.get(end)),
                    None,
                ),
            )
        } else {
            None
        },
        None => None,
    }
}

/// The windows of an answer.
pub open spec fn plan_windows(payload: Json) -> Seq<DraftView> {
    match model_rows(payload) {
        Some(rows) => match first_where(rows, general(), 0) {
            Some(i) => if_any(
                bucket_window(
                    rows[i],
                    "current_interval_status"@,
                    "current_interval_remaining_percent"@,
                    "end_time"@,
                    "5h"@,
                    WindowKind::Session,
                ),
            ) + if_any(
                bucket_window(
                    rows[i],
                    "current_weekly_status"@,
                    "current_weekly_remaining_percent"@,
                    "weekly_end_time"@,
                    "Weekly"@,
                    WindowKind::Weekly,
                ),
            ),
            None => Seq::empty(),
        },
        None => Seq::empty(),
    }
}

fn find_general(rows: &Vec<Json>) -> (out: Option<usize>)
    ensures
        match out {
            Some(i) => i < rows@.len() && first_where(rows@, general(), 0) == Some(i as int),
            None => first_where(rows@, general(), 0) is None,
        },
{
    let mut i: usize = 0;
    while i < rows.len()
        invariant
            i <= rows@.len(),
            forall|k: int| 0 <= k < i ==> !general()(#[trigger] rows@[k]),
        decreases rows@.len() - i,
    {
        let found = match str_in(rows[i].get("model_name")) {
            Some(name) => same(name, "general"),
            None => false,
        };
        if found {
            proof {
                lemma_is_first_where(rows@, general(), Some(i as int));
            }
            return Some(i);
        }
        i = i + 1;
    }
    proof {
        lemma_is_first_where(rows@, general(), None);
    }
    None
}

pub fn minimax_windows(payload: &Json) -> (out: Vec<WindowDraft>)
    ensures
        draft_views(out@) == plan_windows(*payload),
{
    let mut out: Vec<WindowDraft> = Vec::new();
    assert(draft_views(out@) =~= Seq::empty());
    let rows = list_in(
        first_of(get_in(payload.get("data"), "model_remains"), payload.get("model_remains")),
    );
    match rows {
        Some(rows) => match find_general(rows) {
            Some(i) => {
                push_if_any(
                    &mut out,
                    read_window(
                        &rows[i],
                        "current_interval_status",
                        "current_interval_remaining_percent",
                        "end_time",
                        "5h",
                        WindowKind::Session,
                    ),
                );
                push_if_any(
                    &mut out,
                    read_window(
                        &rows[i],
                        "current_weekly_status",
                        "current_weekly_remaining_percent",
                        "weekly_end_time",
                        "Weekly",
                        WindowKind::Weekly,
                    ),
                );
                assert(draft_views(out@) =~= plan_windows(*payload));
            },
            None => {},
        },
        None => {},
    }
    out
}

/// The answer itself reports an error.
pub open spec fn reports_error(payload: Json) -> bool {
    match measured_in(at_key(payload.at("base_resp"@), "status_code"@)) {
        Some(status) => !status.equals(Quantity { bits: ZERO }),
        None => false,
    }
}

/// The next place is asked after this answer.
pub open spec fn asks_on(reply: Reply) -> bool {
    match reply {
        Reply::Body(payload) => reports_error(payload) || plan_windows(payload).len() == 0,
        Reply::Refused(code) => status_health(code) is Unauthorized,
        _ => true,
    }
}

fn is_error(payload: &Json) -> (yes: bool)
    ensures
        yes == reports_error(*payload),
{
    match number_in(get_in(payload.get("base_resp"), "status_code")) {
        Some(status) => !status.is_equal(Quantity { bits: ZERO }),
        None => false,
    }
}

pub fn minimax_asks_on(reply: &Reply) -> (yes: bool)
    ensures
        yes == asks_on(*reply),
{
    match reply {
        Reply::Body(payload) => is_error(payload) || minimax_windows(payload).len() == 0,
        Reply::Refused(code) => matches!(
            crate::collectors::status_for_http(*code),
            SourceHealth::Unauthorized
        ),
        _ => true,
    }
}

/// What an answer says of the source; some answers say nothing.
pub open spec fn told_health(reply: Reply, before: SourceHealth) -> SourceHealth {
    match reply {
        Reply::Body(payload) => if reports_error(payload) {
            SourceHealth::Unauthorized
        } else {
            before
        },
        Reply::Refused(code) => status_health(code),
        _ => before,
    }
}

pub open spec fn last_health(replies: Seq<Reply>) -> SourceHealth
    decreases replies.len(),
{
    if replies.len() == 0 {
        SourceHealth::Unavailable
    } else {
        told_health(replies.last(), last_health(replies.drop_last()))
    }
}

/// An answer with windows to show.
pub open spec fn shows(reply: Reply) -> bool {
    match reply {
        Reply::Body(payload) => !reports_error(payload) && plan_windows(payload).len() > 0,
        _ => false,
    }
}

/// The row of the API key. The answers are those of the places in turn, up to
/// the first after which none is asked.
pub open spec fn minimax_row(
    token: Option<Seq<char>>,
    can_ask: bool,
    replies: Seq<Reply>,
    now_ms: i64,
) -> RowView {
    let badge = minimax_badge();
    let label = "Token Plan"@;
    match asked(
        badge,
        "minimax"@,
        label,
        token,
        "MiniMax API key not configured"@,
        can_ask,
        now_ms,
    ) {
        Err(row) => row,
        Ok(key) => if replies.len() > 0 && shows(replies.last()) {
            answered(badge, key, label, label, plan_windows(replies.last()->Body_0))
        } else {
            RowView::Missing(
                missing_row(
                    badge,
                    key,
                    label,
                    FailureView {
                        health: last_health(replies),
                        detail: "MiniMax quota response unavailable"@,
                    },
                    now_ms,
                ),
            )
        },
    }
}

fn find_health(replies: &Vec<Reply>) -> (out: SourceHealth)
    ensures
        out == last_health(replies@),
{
    let mut health = SourceHealth::Unavailable;
    let mut i: usize = 0;
    while i < replies.len()
        invariant
            i <= replies@.len(),
            health == last_health(replies@.take(i as int)),
        decreases replies@.len() - i,
    {
        proof {
            assert(replies@.take(i + 1).drop_last() =~= replies@.take(i as int));
            assert(replies@.take(i + 1).last() == replies@[i as int]);
        }
        match &replies[i] {
            Reply::Body(payload) => if is_error(payload) {
                health = SourceHealth::Unauthorized;
            },
            Reply::Refused(code) => {
                health = crate::collectors::status_for_http(*code);
            },
            _ => {},
        }
        i = i + 1;
    }
    assert(replies@.take(i as int) =~= replies@);
    health
}

pub fn collect_minimax(token: Option<&str>, can_ask: bool, replies: &Vec<Reply>, now_ms: i64) -> (out:
    Row)
    ensures
        out@ == minimax_row(maybe_str(token), can_ask, replies@, now_ms),
{
    let badge = Badge { provider_id: "minimax", source: "api", hue: 214 };
    let label = "Token Plan";
    let key = match ask(
        &badge,
        "minimax",
        label,
        token,
        "MiniMax API key not configured",
        can_ask,
        now_ms,
    ) {
        Ok(key) => key,
        Err(row) => {
            return row;
        },
    };
    if replies.len() > 0 {
        match &replies[replies.len() - 1] {
            Reply::Body(payload) => {
                let windows = minimax_windows(payload);
                if !is_error(payload) && windows.len() > 0 {
                    return answered_row(
                        &badge,
                        key,
                        label.to_owned(),
                        label.to_owned(),
                        windows,
                    );
                }
            },
            _ => {},
        }
    }
    let failure = Failure {
        health: find_health(replies),
        detail: "MiniMax quota response unavailable".to_owned(),
    };
    missing(&badge, key, label.to_owned(), failure, now_ms)
}

/// A row shows of the token no more than the key that is its digest: whoever
/// signed in, the same answers give the same row.
pub proof fn law_row_hides_the_token(
    first: Seq<char>,
    second: Seq<char>,
    can_ask: bool,
    replies: Seq<Reply>,
    now_ms: i64,
)
    ensures
        minimax_row(Some(first), can_ask, replies, now_ms).key() == key_of("minimax"@, first),
        minimax_row(Some(first), can_ask, replies, now_ms).keyless()
            == minimax_row(Some(second), can_ask, replies, now_ms).keyless(),
{
}

/// The first row of the general model gives two windows: the current interval is
/// the session of five hours, the week the other. Each shows the percentage that
/// is stated for it and comes back at its own end.
pub proof fn law_interval_and_week_are_apart(
    token: Seq<char>,
    payload: Json,
    rows: Vec<Json>,
    at: int,
    interval: Json,
    week: Json,
    powers: Seq<crate::formula::Power>,
    now_ms: i64,
)
    requires
        payload.at("base_resp"@) is None,
        payload.at("data"@) is None,
        payload.at("model_remains"@) == Some(Json::List(rows)),
        0 <= at < rows@.len(),
        rows@[at].at("model_name"@) is Some,
        rows@[at].at("model_name"@)->0.said() == Some("general"@),
        forall|k: int|
            0 <= k < at ==> (#[trigger] rows@[k]).at("model_name"@) is None || rows@[k].at(
                "model_name"@,
            )->0.said() != Some("general"@),
        rows@[at].at("current_interval_status"@) is None,
        rows@[at].at("current_weekly_status"@) is None,
        rows@[at].at("current_interval_remaining_percent"@) == Some(interval),
        rows@[at].at("current_weekly_remaining_percent"@) == Some(week),
        interval.measured() is Some,
        week.measured() is Some,
    ensures
        ({
            let row = minimax_row(
                Some(token),
                true,
                seq![Reply::Body(payload)],
                now_ms,
            ).settled(powers, now_ms);
            &&& row.provider_id == "minimax"@
            &&& row.windows.len() == 2
            &&& row.windows[0].label == "5h"@
            &&& row.windows[0].kind is Session
            &&& row.windows[0].remaining_percent == Some(interval.measured()->0.as_percentage())
            &&& row.windows[0].resets_at_ms == reset_moment(rows@[at].at("end_time"@))
            &&& row.windows[1].label == "Weekly"@
            &&& row.windows[1].kind is Weekly
            &&& row.windows[1].remaining_percent == Some(week.measured()->0.as_percentage())
            &&& row.windows[1].resets_at_ms == reset_moment(rows@[at].at("weekly_end_time"@))
        }),
{
    assert forall|k: int| 0 <= k < at implies !general()(#[trigger] rows@[k]) by {}
    assert(general()(rows@[at]));
    lemma_is_first_where(rows@, general(), Some(at));
    assert(model_rows(payload) == Some(rows@));
    reveal_with_fuel(Formula::value, 3);
}

/// A window whose status is three is not shown.
pub proof fn law_suspended_windows_are_hidden(
    row: Json,
    status: Seq<char>,
    percent: Seq<char>,
    end: Seq<char>,
    label: Seq<char>,
    kind: WindowKind,
    value: Json,
)
    requires
        row.at(status) == Some(value),
        value.measured() == Some(Quantity { bits: 0x4008_0000_0000_0000 }),
    ensures
        bucket_window(row, status, percent, end, label, kind) is None,
{
}

} // verus!
