//! Cursor: session accounts, usage windows and the agent gate.

use vstd::prelude::*;

use crate::collectors::{draft_views, if_any, missing, missing_row, push_if_any, row_views};
use crate::collectors::{unavailable, unavailable_for, Badge, DraftView, Reply, Row, RowDraft};
use crate::collectors::{RowDraftView, RowView, WindowDraft, Wording};
use crate::formula::{given, rest_of_hundred, Formula, Power};
use crate::json::{at_key, borrowed, get_in, measured_in, number_in, said_in, said_or, str_in};
use crate::json::{text_or, Json};
use crate::limits::WindowKind;
use crate::moment::{parse_rfc3339, rfc3339_ms};
use crate::quantity::Quantity;
use crate::secrets::{account_key, key_of};
use crate::sort::{sort_by, sorted};
use crate::text::{has_text, lower, maybe_text, same, texts, to_lower, trim, trimmed};

verus! {

/// How Cursor rows look.
pub open spec fn cursor_badge() -> Badge {
    Badge { provider_id: "cursor", source: "web", hue: 75 }
}

fn badge() -> (out: Badge)
    ensures
        out == cursor_badge(),
{
    Badge { provider_id: "cursor", source: "web", hue: 75 }
}

pub open spec fn cursor_wording() -> Wording {
    Wording {
        refused: "HTTP ",
        failed: "Cursor request failed",
        garbled: "Invalid Cursor JSON",
    }
}

/// A session of an account.
#[derive(Debug)]
pub struct CursorSession {
    pub token: String,
    pub label: String,
}

pub struct SessionView {
    pub token: Seq<char>,
    pub label: Seq<char>,
}

impl View for CursorSession {
    type V = SessionView;

    open spec fn view(&self) -> SessionView {
        SessionView { token: self.token@, label: self.label@ }
    }
}

pub open spec fn session_views(sessions: Seq<CursorSession>) -> Seq<SessionView> {
    sessions.map_values(|session: CursorSession| session@)
}

/// The session of an account entry: there is one where its token is no blank.
/// A blank label gives way to the account's identifier.
pub open spec fn session_of(id: Seq<char>, entry: Json) -> Option<SessionView> {
    match said_in(entry.at("sessionToken"@)) {
        Some(token) => if trim(token).len() == 0 {
            None
        } else {
            Some(
                SessionView {
                    token: trim(token),
                    label: match said_in(entry.at("label"@)) {
                        Some(label) => if trim(label).len() == 0 {
                            id
                        } else {
                            label
                        },
                        None => id,
                    },
                },
            )
        },
        None => None,
    }
}

fn read_session(id: &str, entry: &Json) -> (out: Option<CursorSession>)
    ensures
        match out {
            Some(session) => session_of(id@, *entry) == Some(session@),
            None => session_of(id@, *entry) is None,
        },
{
    match str_in(entry.get("sessionToken")) {
        Some(token) => {
            let token = trimmed(token);
            if token.as_str().is_empty() {
                return None;
            }
            let label = match str_in(entry.get("label")) {
                Some(label) => if trimmed(label).as_str().is_empty() {
                    id.to_owned()
                } else {
                    label.to_owned()
                },
                None => id.to_owned(),
            };
            Some(CursorSession { token, label })
        },
        None => None,
    }
}

/// The sessions of the entries that are, or are not, the active account.
pub open spec fn sessions_where(
    entries: Seq<(String, Json)>,
    active: Seq<char>,
    wanted: bool,
) -> Seq<SessionView>
    decreases entries.len(),
{
    if entries.len() == 0 {
        Seq::empty()
    } else {
        let before = sessions_where(entries.drop_last(), active, wanted);
        let (id, entry) = entries.last();
        match session_of(id@, entry) {
            Some(session) => if (id@ == active) == wanted {
                before.push(session)
            } else {
                before
            },
            None => before,
        }
    }
}

/// The sessions in a credentials document, the active account first.
pub open spec fn sessions_in(document: Option<Json>) -> Seq<SessionView> {
    match at_key(document, "accounts"@) {
        Some(accounts) => match accounts.entries() {
            Some(entries) => {
                let active = said_or(at_key(document, "activeAccountId"@), ""@);
                sessions_where(entries, active, true) + sessions_where(entries, active, false)
            },
            None => Seq::empty(),
        },
        None => Seq::empty(),
    }
}

fn push_sessions(
    out: &mut Vec<CursorSession>,
    entries: &Vec<(String, Json)>,
    active: &str,
    wanted: bool,
)
    ensures
        session_views(final(out)@) == session_views(old(out)@) + sessions_where(
            entries@,
            active@,
            wanted,
        ),
{
    let ghost before = session_views(out@);
    let mut i: usize = 0;
    assert(before + Seq::<SessionView>::empty() =~= before);
    assert(entries@.take(0) =~= Seq::empty());
    while i < entries.len()
        invariant
            i <= entries@.len(),
            session_views(out@) == before + sessions_where(
                entries@.take(i as int),
                active@,
                wanted,
            ),
        decreases entries@.len() - i,
    {
        proof {
            assert(entries@.take(i + 1).drop_last() =~= entries@.take(i as int));
            assert(entries@.take(i + 1).last() == entries@[i as int]);
        }
        let ghost earlier = out@;
        let id = entries[i].0.as_str();
        match read_session(id, &entries[i].1) {
            Some(session) => {
                if same(id, active) == wanted {
                    let ghost view = session@;
                    out.push(session);
                    assert(session_views(out@) =~= session_views(earlier).push(view));
                    assert(session_views(out@) =~= before + sessions_where(
                        entries@.take(i as int),
                        active@,
                        wanted,
                    ).push(view));
                }
            },
            None => {},
        }
        i = i + 1;
    }
    assert(entries@.take(i as int) =~= entries@);
}

/// The sessions that a credentials document names, the active account first.
pub fn cursor_accounts(document: Option<&Json>) -> (out: Vec<CursorSession>)
    ensures
        session_views(out@) == sessions_in(borrowed(document)),
{
    let mut out: Vec<CursorSession> = Vec::new();
    assert(session_views(out@) =~= Seq::empty());
    let active = text_or(get_in(document, "activeAccountId"), "");
    match get_in(document, "accounts") {
        Some(accounts) => match accounts.as_object() {
            Some(entries) => {
                push_sessions(&mut out, entries, active.as_str(), true);
                push_sessions(&mut out, entries, active.as_str(), false);
                assert(session_views(out@) =~= sessions_in(borrowed(document)));
            },
            None => {},
        },
        None => {},
    }
    out
}

/// When the billing cycle ends, and the text for it where it names no moment.
pub open spec fn cycle_end(usage: Json) -> (Option<i64>, Option<Seq<char>>) {
    match said_in(usage.at("billingCycleEnd"@)) {
        Some(text) => match rfc3339_ms(text) {
            Some(moment) => (Some(moment), None),
            None => (None, Some(text)),
        },
        None => (None, None),
    }
}

pub fn cursor_reset(usage: &Json) -> (out: (Option<i64>, Option<String>))
    ensures
        (out.0, maybe_text(out.1)) == cycle_end(*usage),
{
    match str_in(usage.get("billingCycleEnd")) {
        Some(text) => match parse_rfc3339(text) {
            Some(moment) => (Some(moment), None),
            None => (None, Some(text.to_owned())),
        },
        None => (None, None),
    }
}

/// A log that can tell of the agent gate: a short text file of the last days.
pub open spec fn telling_log(extension: Seq<char>, bytes: u64, age_seconds: Option<u64>) -> bool {
    &&& bytes <= 4_194_304
    &&& (lower(extension) == "log"@ || lower(extension) == "txt"@ || lower(extension) == "json"@)
    &&& age_seconds is Some && age_seconds->0 <= 604_800
}

/// The age is missing where it is not known. Ages are counted in whole
/// seconds, rounded up.
pub fn is_telling_log(extension: &str, bytes: u64, age_seconds: Option<u64>) -> (yes: bool)
    ensures
        yes == telling_log(extension@, bytes, age_seconds),
{
    let extension = to_lower(extension);
    let recent = match age_seconds {
        Some(age) => age <= 604_800,
        None => false,
    };
    bytes <= 4_194_304 && recent && (same(extension.as_str(), "log") || same(
        extension.as_str(),
        "txt",
    ) || same(extension.as_str(), "json"))
}

/// A log by its place in a list and the moment of its last change.
#[derive(Clone, Copy, Debug, PartialEq, Eq, Structural)]
pub struct LogStamp {
    pub index: usize,
    pub changed: u64,
}

pub open spec fn changed_later() -> spec_fn(LogStamp, LogStamp) -> bool {
    |left: LogStamp, right: LogStamp| left.changed > right.changed
}

/// The eight logs that changed last, the latest first.
pub open spec fn latest_logs(logs: Seq<LogStamp>) -> Seq<LogStamp> {
    let ordered = sorted(logs, changed_later());
    if ordered.len() > 8 {
        ordered.take(8)
    } else {
        ordered
    }
}

pub fn newest_logs(logs: Vec<LogStamp>) -> (out: Vec<LogStamp>)
    ensures
        out@ == latest_logs(logs@),
{
    let mut out = logs;
    let later = |left: &LogStamp, right: &LogStamp| -> (yes: bool)
        ensures
            yes == changed_later()(*left, *right),
        { left.changed > right.changed };
    sort_by(&mut out, later, Ghost(changed_later()));
    if out.len() > 8 {
        out.truncate(8);
    }
    out
}

/// A log says that Cursor refuses the agent.
pub open spec fn tells_block(text: Seq<char>) -> bool {
    let text = lower(text);
    ||| crate::text::contains(text, "you've hit your usage limit"@)
    ||| crate::text::contains(text, "you've hit your free requests limit"@)
    ||| crate::text::contains(text, "free requests limit"@)
    ||| crate::text::contains(text, "agent blocked"@)
}

fn log_tells_block(text: &str) -> (yes: bool)
    ensures
        yes == tells_block(text@),
{
    let text = to_lower(text);
    has_text(text.as_str(), "you've hit your usage limit") || has_text(
        text.as_str(),
        "you've hit your free requests limit",
    ) || has_text(text.as_str(), "free requests limit") || has_text(text.as_str(), "agent blocked")
}

/// The agent is blocked where a log says so and the cycle has not ended since.
pub open spec fn agent_blocked(logs: Seq<Seq<char>>, reset_ms: Option<i64>, now_ms: i64) -> bool {
    &&& !(reset_ms is Some && reset_ms->0 <= now_ms)
    &&& exists|i: int| 0 <= i < logs.len() && tells_block(#[trigger] logs[i])
}

/// The logs are those of [`newest_logs`], as texts.
pub fn cursor_agent_blocked(logs: &Vec<String>, reset_ms: Option<i64>, now_ms: i64) -> (yes: bool)
    ensures
        yes == agent_blocked(texts(logs@), reset_ms, now_ms),
{
    match reset_ms {
        Some(reset) => if reset <= now_ms {
            return false;
        },
        None => {},
    }
    let mut i: usize = 0;
    while i < logs.len()
        invariant
            i <= logs@.len(),
            !(reset_ms is Some && reset_ms->0 <= now_ms),
            forall|k: int| 0 <= k < i ==> !tells_block(#[trigger] texts(logs@)[k]),
        decreases logs@.len() - i,
    {
        if log_tells_block(logs[i].as_str()) {
            assert(tells_block(texts(logs@)[i as int]));
            return true;
        }
        i = i + 1;
    }
    false
}

/// What is left once a percentage is used.
pub open spec fn percent_left(used: Option<Quantity>) -> Option<Formula> {
    match used {
        Some(used) => Some(Formula::rest_of_hundred(Formula::Given(used))),
        None => None,
    }
}

pub fn remaining_percent(used: Option<Quantity>) -> (out: Option<Formula>)
    ensures
        out == percent_left(used),
{
    match used {
        Some(used) => Some(rest_of_hundred(given(used))),
        None => None,
    }
}

/// A window of the billing cycle, where its usage is known.
pub open spec fn cycle_window(label: Seq<char>, plan: Option<Json>, key: Seq<char>, usage: Json) -> Option<
    DraftView,
> {
    match percent_left(measured_in(at_key(plan, key))) {
        Some(percent) => Some(
            DraftView::quota(
                label,
                WindowKind::Billing,
                Some(percent),
                cycle_end(usage).0,
                cycle_end(usage).1,
            ),
        ),
        None => None,
    }
}

fn cursor_window(label: &str, plan: Option<&Json>, key: &str, usage: &Json) -> (out: Option<
    WindowDraft,
>)
    ensures
        crate::collectors::maybe_draft(out) == cycle_window(label@, borrowed(plan), key@, *usage),
{
    match remaining_percent(number_in(get_in(plan, key))) {
        Some(percent) => {
            let (reset_ms, reset_text) = cursor_reset(usage);
            Some(
                WindowDraft::quota(
                    label,
                    WindowKind::Billing,
                    Some(percent),
                    reset_ms,
                    reset_text,
                ),
            )
        },
        None => None,
    }
}

/// The windows of a usage summary: the two pools where either is known, else
/// the whole.
pub open spec fn usage_windows(usage: Json) -> Seq<DraftView> {
    let plan = at_key(usage.at("individualUsage"@), "plan"@);
    let pools = if_any(cycle_window("Cursor Models"@, plan, "autoPercentUsed"@, usage)) + if_any(
        cycle_window("Other Models"@, plan, "apiPercentUsed"@, usage),
    );
    if pools.len() == 0 {
        if_any(cycle_window("Overall"@, plan, "totalPercentUsed"@, usage))
    } else {
        pools
    }
}

fn cursor_windows(usage: &Json) -> (out: Vec<WindowDraft>)
    ensures
        draft_views(out@) == usage_windows(*usage),
{
    let plan = get_in(usage.get("individualUsage"), "plan");
    let mut out: Vec<WindowDraft> = Vec::new();
    assert(draft_views(out@) =~= Seq::empty());
    push_if_any(&mut out, cursor_window("Cursor Models", plan, "autoPercentUsed", usage));
    push_if_any(&mut out, cursor_window("Other Models", plan, "apiPercentUsed", usage));
    proof {
        let first = if_any(
            cycle_window("Cursor Models"@, borrowed(plan), "autoPercentUsed"@, *usage),
        );
        assert(Seq::empty() + first =~= first);
    }
    let ghost pools = draft_views(out@);
    if out.len() == 0 {
        push_if_any(&mut out, cursor_window("Overall", plan, "totalPercentUsed", usage));
        assert(draft_views(out@) =~= usage_windows(*usage));
    }
    out
}

/// What Cursor answered for one session.
#[derive(Debug)]
pub struct CursorAnswer {
    pub session: CursorSession,
    pub usage: Reply,
    pub user: Reply,
    /// The texts of the latest logs.
    pub logs: Vec<String>,
}

/// The row of one session.
pub open spec fn session_row(answer: CursorAnswer, now_ms: i64) -> RowView {
    let key = key_of("cursor"@, answer.session.token@);
    match answer.usage {
        Reply::Body(usage) => {
            let blocked = agent_blocked(texts(answer.logs@), cycle_end(usage).0, now_ms);
            RowView::Answered(
                RowDraftView {
                    provider_id: "cursor"@,
                    account_key: key,
                    account_label: said_or(
                        at_key(answer.user.body(), "email"@),
                        answer.session.label@,
                    ),
                    plan: said_or(usage.at("membershipType"@), "Free"@),
                    source: "web"@,
                    windows: usage_windows(usage),
                    hue: 75,
                    diagnostics: if blocked {
                        seq!["Cursor Agent blocked by a provider usage gate"@]
                    } else {
                        Seq::empty()
                    },
                    blocked,
                },
            )
        },
        _ => RowView::Missing(
            missing_row(
                cursor_badge(),
                key,
                answer.session.label@,
                answer.usage.numbered_failure(cursor_wording()),
                now_ms,
            ),
        ),
    }
}

fn cursor_row(answer: &CursorAnswer, now_ms: i64) -> (out: Row)
    ensures
        out@ == session_row(*answer, now_ms),
{
    let key = account_key("cursor", answer.session.token.as_str());
    match &answer.usage {
        Reply::Body(usage) => {
            let (reset_ms, _) = cursor_reset(usage);
            let blocked = cursor_agent_blocked(&answer.logs, reset_ms, now_ms);
            let mut diagnostics: Vec<String> = Vec::new();
            if blocked {
                diagnostics.push("Cursor Agent blocked by a provider usage gate".to_owned());
                assert(texts(diagnostics@) =~= seq![
                    "Cursor Agent blocked by a provider usage gate"@,
                ]);
            } else {
                assert(texts(diagnostics@) =~= Seq::empty());
            }
            Row::Answered(
                RowDraft {
                    provider_id: "cursor".to_owned(),
                    account_key: key,
                    account_label: text_or(
                        get_in(answer.user.ok(), "email"),
                        answer.session.label.as_str(),
                    ),
                    plan: text_or(usage.get("membershipType"), "Free"),
                    source: "web".to_owned(),
                    windows: cursor_windows(usage),
                    hue: 75,
                    diagnostics,
                    blocked,
                },
            )
        },
        _ => {
            let wording = Wording {
                refused: "HTTP ",
                failed: "Cursor request failed",
                garbled: "Invalid Cursor JSON",
            };
            missing(
                &badge(),
                key,
                answer.session.label.clone(),
                answer.usage.numbered(&wording),
                now_ms,
            )
        },
    }
}

/// The rows of all sessions; without a session or without a way to ask, one
/// row with the reason.
pub open spec fn session_rows(
    sessions: int,
    can_ask: bool,
    answers: Seq<CursorAnswer>,
    now_ms: i64,
) -> Seq<RowView> {
    if sessions == 0 {
        seq![
            RowView::Missing(
                missing_row(
                    cursor_badge(),
                    ""@,
                    "Free"@,
                    unavailable("Cursor session credentials not found"@),
                    now_ms,
                ),
            ),
        ]
    } else if !can_ask {
        seq![
            RowView::Missing(
                missing_row(
                    cursor_badge(),
                    ""@,
                    "Free"@,
                    unavailable("HTTP client unavailable"@),
                    now_ms,
                ),
            ),
        ]
    } else {
        answers.map_values(|answer: CursorAnswer| session_row(answer, now_ms))
    }
}

/// `sessions` is the number of sessions there are to ask for.
pub fn collect_cursor(sessions: usize, can_ask: bool, answers: &Vec<CursorAnswer>, now_ms: i64) -> (out:
    Vec<Row>)
    ensures
        row_views(out@) == session_rows(sessions as int, can_ask, answers@, now_ms),
{
    let mut out: Vec<Row> = Vec::new();
    if sessions == 0 {
        out.push(
            missing(
                &badge(),
                "".to_owned(),
                "Free".to_owned(),
                unavailable_for("Cursor session credentials not found"),
                now_ms,
            ),
        );
        assert(row_views(out@) =~= session_rows(sessions as int, can_ask, answers@, now_ms));
        return out;
    }
    if !can_ask {
        out.push(
            missing(
                &badge(),
                "".to_owned(),
                "Free".to_owned(),
                unavailable_for("HTTP client unavailable"),
                now_ms,
            ),
        );
        assert(row_views(out@) =~= session_rows(sessions as int, can_ask, answers@, now_ms));
        return out;
    }
    let ghost wanted = session_rows(sessions as int, can_ask, answers@, now_ms);
    let mut i: usize = 0;
    while i < answers.len()
        invariant
            i <= answers@.len(),
            wanted == answers@.map_values(|answer: CursorAnswer| session_row(answer, now_ms)),
            row_views(out@) == wanted.take(i as int),
        decreases answers@.len() - i,
    {
        let ghost earlier = out@;
        let row = cursor_row(&answers[i], now_ms);
        let ghost view = row@;
        out.push(row);
        assert(row_views(out@) =~= row_views(earlier).push(view));
        assert(wanted.take(i + 1) =~= wanted.take(i as int).push(view));
        i = i + 1;
    }
    assert(wanted.take(i as int) =~= wanted);
    out
}

/// A row shows of the session's token no more than the key that is its digest.
pub proof fn law_row_hides_the_token(first: CursorAnswer, second: CursorAnswer, now_ms: i64)
    requires
        first.session.label == second.session.label,
        first.usage == second.usage,
        first.user == second.user,
        first.logs == second.logs,
    ensures
        session_row(first, now_ms).key() == key_of("cursor"@, first.session.token@),
        session_row(first, now_ms).keyless() == session_row(second, now_ms).keyless(),
{
}

/// The pool of Cursor's own models and that of the others are told apart by
/// their names, and what is left of each is what its own used percentage leaves
/// of one hundred. Both last for the billing cycle and come back when it ends.
pub proof fn law_pools_keep_their_names(
    answer: CursorAnswer,
    usage: Json,
    individual: Json,
    plan: Json,
    own_used: Json,
    other_used: Json,
    powers: Seq<Power>,
    now_ms: i64,
)
    requires
        answer.usage == Reply::Body(usage),
        usage.at("individualUsage"@) == Some(individual),
        individual.at("plan"@) == Some(plan),
        plan.at("autoPercentUsed"@) == Some(own_used),
        plan.at("apiPercentUsed"@) == Some(other_used),
        own_used.measured() is Some,
        other_used.measured() is Some,
    ensures
        ({
            let row = session_row(answer, now_ms).settled(powers, now_ms);
            &&& row.provider_id == "cursor"@
            &&& row.source_health is Connected
            &&& row.windows.len() == 2
            &&& row.windows[0].label == "Cursor Models"@
            &&& row.windows[0].kind is Billing
            &&& row.windows[0].remaining_percent == Some(
                Quantity { bits: 0x4059_0000_0000_0000 }.difference(
                    own_used.measured()->0,
                ).as_percentage(),
            )
            &&& row.windows[1].label == "Other Models"@
            &&& row.windows[1].kind is Billing
            &&& row.windows[1].remaining_percent == Some(
                Quantity { bits: 0x4059_0000_0000_0000 }.difference(
                    other_used.measured()->0,
                ).as_percentage(),
            )
            &&& usage.at("billingCycleEnd"@) matches Some(end) ==> end.said() matches Some(text)
                ==> row.windows[0].resets_at_ms == rfc3339_ms(text)
                && row.windows[1].resets_at_ms == rfc3339_ms(text)
        }),
{
    reveal_with_fuel(Formula::value, 4);
}

/// Where neither pool says what it used, one window shows what is left of the
/// whole.
pub proof fn law_unknown_pools_show_the_whole(
    answer: CursorAnswer,
    usage: Json,
    individual: Json,
    plan: Json,
    used: Json,
    powers: Seq<Power>,
    now_ms: i64,
)
    requires
        answer.usage == Reply::Body(usage),
        usage.at("individualUsage"@) == Some(individual),
        individual.at("plan"@) == Some(plan),
        plan.at("autoPercentUsed"@) is None,
        plan.at("apiPercentUsed"@) is None,
        plan.at("totalPercentUsed"@) == Some(used),
        used.measured() is Some,
    ensures
        ({
            let row = session_row(answer, now_ms).settled(powers, now_ms);
            &&& row.windows.len() == 1
            &&& row.windows[0].label == "Overall"@
            &&& row.windows[0].remaining_percent == Some(
                Quantity { bits: 0x4059_0000_0000_0000 }.difference(
                    used.measured()->0,
                ).as_percentage(),
            )
        }),
{
    reveal_with_fuel(Formula::value, 4);
}

/// A recent log that tells of a usage gate blocks the row until the billing
/// cycle has ended; no other row is blocked.
pub proof fn law_usage_gate_blocks_until_the_reset(
    answer: CursorAnswer,
    usage: Json,
    powers: Seq<Power>,
    now_ms: i64,
)
    requires
        answer.usage == Reply::Body(usage),
    ensures
        ({
            let row = session_row(answer, now_ms).settled(powers, now_ms);
            let passed = cycle_end(usage).0 is Some && cycle_end(usage).0->0 <= now_ms;
            &&& row.availability is AgentBlocked ==> !passed && exists|i: int|
                0 <= i < answer.logs@.len() && tells_block((#[trigger] answer.logs@[i])@)
            &&& !passed && (exists|i: int|
                0 <= i < answer.logs@.len() && tells_block((#[trigger] answer.logs@[i])@))
                ==> row.availability is AgentBlocked
        }),
{
    let logs = texts(answer.logs@);
    if exists|i: int| 0 <= i < answer.logs@.len() && tells_block((#[trigger] answer.logs@[i])@) {
        let i = choose|i: int|
            0 <= i < answer.logs@.len() && tells_block((#[trigger] answer.logs@[i])@);
        assert(tells_block(logs[i]));
    }
    if exists|i: int| 0 <= i < logs.len() && tells_block(#[trigger] logs[i]) {
        let i = choose|i: int| 0 <= i < logs.len() && tells_block(#[trigger] logs[i]);
        assert(tells_block(answer.logs@[i]@));
    }
}

/// The words of a usage gate are found in whatever case they are written.
pub proof fn law_gates_are_told_by_their_words(text: Seq<char>)
    ensures
        crate::text::contains(lower(text), "you've hit your usage limit"@) ==> tells_block(text),
        crate::text::contains(lower(text), "you've hit your free requests limit"@) ==> tells_block(
            text,
        ),
        crate::text::contains(lower(text), "free requests limit"@) ==> tells_block(text),
        crate::text::contains(lower(text), "agent blocked"@) ==> tells_block(text),
        tells_block(text) ==> crate::text::contains(lower(text), "agent blocked"@)
            || crate::text::contains(lower(text), "free requests limit"@) || crate::text::contains(
            lower(text),
            "you've hit your usage limit"@,
        ) || crate::text::contains(lower(text), "you've hit your free requests limit"@),
{
}

/// The session of the active account stands first, the others behind it in the
/// order of the document; an account without a token has no session.
pub proof fn law_active_session_stands_first(
    document: Json,
    accounts: Json,
    entries: Vec<(String, Json)>,
    active: Seq<char>,
)
    requires
        document.at("accounts"@) == Some(accounts),
        accounts == Json::Object(entries),
        match document.at("activeAccountId"@) {
            Some(id) => match id.said() {
                Some(id) => active == id,
                None => active.len() == 0,
            },
            None => active.len() == 0,
        },
    ensures
        sessions_in(Some(document)) == entries@.filter(
            |entry: (String, Json)| entry.0@ == active && session_of(entry.0@, entry.1) is Some,
        ).map_values(|entry: (String, Json)| session_of(entry.0@, entry.1)->0)
            + entries@.filter(
            |entry: (String, Json)| entry.0@ != active && session_of(entry.0@, entry.1) is Some,
        ).map_values(|entry: (String, Json)| session_of(entry.0@, entry.1)->0),
        forall|k: int|
            0 <= k < entries@.len() && session_of((#[trigger] entries@[k]).0@, entries@[k].1) is Some
                ==> entries@[k].1.at("sessionToken"@) is Some && trim(
                entries@[k].1.at("sessionToken"@)->0.said()->0,
            ) == session_of(entries@[k].0@, entries@[k].1)->0.token,
{
    reveal_strlit("");
    assert(active =~= crate::json::said_or(document.at("activeAccountId"@), ""@));
    lemma_sessions_where(entries@, active, true);
    lemma_sessions_where(entries@, active, false);
}

proof fn lemma_sessions_where(entries: Seq<(String, Json)>, active: Seq<char>, wanted: bool)
    ensures
        wanted ==> sessions_where(entries, active, wanted) == entries.filter(
            |entry: (String, Json)| entry.0@ == active && session_of(entry.0@, entry.1) is Some,
        ).map_values(|entry: (String, Json)| session_of(entry.0@, entry.1)->0),
        !wanted ==> sessions_where(entries, active, wanted) == entries.filter(
            |entry: (String, Json)| entry.0@ != active && session_of(entry.0@, entry.1) is Some,
        ).map_values(|entry: (String, Json)| session_of(entry.0@, entry.1)->0),
    decreases entries.len(),
{
    let own = |entry: (String, Json)|
        entry.0@ == active && session_of(entry.0@, entry.1) is Some;
    let other = |entry: (String, Json)|
        entry.0@ != active && session_of(entry.0@, entry.1) is Some;
    let session = |entry: (String, Json)| session_of(entry.0@, entry.1)->0;
    if entries.len() == 0 {
        reveal(Seq::filter);
        assert(entries.filter(own).map_values(session) =~= Seq::empty());
        assert(entries.filter(other).map_values(session) =~= Seq::empty());
    } else {
        let before = entries.drop_last();
        lemma_sessions_where(before, active, wanted);
        assert(entries =~= before.push(entries.last()));
        before.lemma_filter_push(entries.last(), own);
        before.lemma_filter_push(entries.last(), other);
        assert(before.filter(own).push(entries.last()).map_values(session) =~= before.filter(
            own,
        ).map_values(session).push(session(entries.last())));
        assert(before.filter(other).push(entries.last()).map_values(session) =~= before.filter(
            other,
        ).map_values(session).push(session(entries.last())));
    }
}

/// Of the logs the eight that changed last are read, the latest first: none
/// that is left out changed later than one that is read.
pub proof fn law_latest_logs_are_read(logs: Seq<LogStamp>, i: int, log: LogStamp)
    requires
        0 <= i < latest_logs(logs).len(),
        logs.contains(log),
    ensures
        latest_logs(logs).len() == if logs.len() > 8 {
            8
        } else {
            logs.len()
        },
        logs.contains(latest_logs(logs)[i]),
        latest_logs(logs).contains(log) || log.changed <= latest_logs(logs)[i].changed,
        forall|j: int|
            i < j < latest_logs(logs).len() ==> (#[trigger] latest_logs(logs)[j]).changed
                <= latest_logs(logs)[i].changed,
{
    let ordered = sorted(logs, changed_later());
    assert(crate::sort::orders(changed_later()));
    crate::sort::lemma_sorted_in_order(logs, changed_later());
    crate::sort::lemma_sorted_keeps_items(logs, changed_later());
    crate::sort::lemma_sorted_contains(logs, changed_later());
    logs.to_multiset_ensures();
    ordered.to_multiset_ensures();
    assert(ordered.contains(log)) by {
        assert(logs.to_multiset().count(log) > 0);
    }
    let k = choose|k: int| 0 <= k < ordered.len() && ordered[k] == log;
    assert(latest_logs(logs)[i] == ordered[i]);
    if k < latest_logs(logs).len() {
        assert(latest_logs(logs)[k] == log);
    } else {
        assert(!changed_later()(ordered[k], ordered[i]));
    }
    assert forall|j: int| i < j < latest_logs(logs).len() implies (
    #[trigger] latest_logs(logs)[j]).changed <= latest_logs(logs)[i].changed by {
        assert(!changed_later()(ordered[j], ordered[i]));
    }
}

/// A log tells of the last week, in a text of four mebibytes at most.
pub proof fn law_telling_logs_are_recent(extension: Seq<char>, bytes: u64, age_seconds: Option<u64>)
    ensures
        telling_log(extension, bytes, age_seconds) ==> bytes <= 4 * 1024 * 1024
            && age_seconds is Some && age_seconds->0 <= 7 * 24 * 60 * 60,
        bytes <= 4 * 1024 * 1024 && age_seconds is Some && age_seconds->0 <= 7 * 24 * 60 * 60
            && lower(extension) == "log"@ ==> telling_log(extension, bytes, age_seconds),
{
}

} // verus!
