//! Accounts and times of conversation sessions.

use vstd::prelude::*;

use crate::proto::{as_ints, extract_step_timestamp_ms, fields, parse_gen_metadata_turn};
use crate::proto::{step_timestamp, turn};
use crate::sort::{lemma_sorted_in_order, lemma_sorted_keeps_items, orders, sort_by, sorted};
use crate::text::{copy_maybe, decimal, decimal_text, has_prefix, maybe_text, same, starts_with};
use crate::text::texts;
use crate::usage::{ascending, insert_name, record_views, RecordView, UsageRecord};

verus! {

/// A stretch of a session during which one account was signed in.
#[derive(Debug)]
pub struct SessionSpan {
    pub session_id: String,
    pub target: Option<u32>,
    pub account: Option<String>,
    pub start_ms: Option<i64>,
    pub start_idx: Option<i64>,
    pub end_idx: Option<i64>,
}

/// What a `SessionSpan` says.
pub struct SpanView {
    pub session_id: Seq<char>,
    pub target: Option<u32>,
    pub account: Option<Seq<char>>,
    pub start_ms: Option<i64>,
    pub start_idx: Option<i64>,
    pub end_idx: Option<i64>,
}

impl View for SessionSpan {
    type V = SpanView;

    open spec fn view(&self) -> SpanView {
        SpanView {
            session_id: self.session_id@,
            target: self.target,
            account: maybe_text(self.account),
            start_ms: self.start_ms,
            start_idx: self.start_idx,
            end_idx: self.end_idx,
        }
    }
}

pub open spec fn span_views(spans: Seq<SessionSpan>) -> Seq<SpanView> {
    spans.map_values(|span: SessionSpan| span@)
}

impl Clone for SessionSpan {
    fn clone(&self) -> (out: SessionSpan)
        ensures
            out == *self,
    {
        SessionSpan {
            session_id: self.session_id.clone(),
            target: self.target,
            account: copy_maybe(&self.account),
            start_ms: self.start_ms,
            start_idx: self.start_idx,
            end_idx: self.end_idx,
        }
    }
}

pub open spec fn or_zero(value: Option<i64>) -> i64 {
    match value {
        Some(value) => value,
        None => 0,
    }
}

/// Spans in the order in which they began.
pub open spec fn began_before(left: SpanView, right: SpanView) -> bool {
    if or_zero(left.start_idx) != or_zero(right.start_idx) {
        or_zero(left.start_idx) < or_zero(right.start_idx)
    } else {
        or_zero(left.start_ms) < or_zero(right.start_ms)
    }
}

fn began_first(left: &SessionSpan, right: &SessionSpan) -> (yes: bool)
    ensures
        yes == began_before(left@, right@),
{
    let a: i64 = left.start_idx.unwrap_or(0);
    let b: i64 = right.start_idx.unwrap_or(0);
    if a != b {
        a < b
    } else {
        left.start_ms.unwrap_or(0) < right.start_ms.unwrap_or(0)
    }
}

/// The spans of one session, in the order in which they began.
pub open spec fn session_spans(spans: Seq<SpanView>, session: Seq<char>) -> Seq<SpanView> {
    sorted(
        spans.filter(|span: SpanView| span.session_id == session),
        |a: SpanView, b: SpanView| began_before(a, b),
    )
}

fn spans_of(spans: &Vec<SessionSpan>, session: &str) -> (out: Vec<SessionSpan>)
    ensures
        span_views(out@) == session_spans(span_views(spans@), session@),
{
    let ghost views = span_views(spans@);
    let ghost ours = |span: SpanView| span.session_id == session@;
    let mut out: Vec<SessionSpan> = Vec::new();
    let mut i: usize = 0;
    assert(views.take(0).filter(ours) =~= Seq::<SpanView>::empty()) by {
        reveal(Seq::filter);
    }
    while i < spans.len()
        invariant
            i <= spans@.len(),
            views == span_views(spans@),
            ours == |span: SpanView| span.session_id == session@,
            span_views(out@) == views.take(i as int).filter(ours),
        decreases spans@.len() - i,
    {
        let ghost before = span_views(out@);
        proof {
            views.take(i as int).lemma_filter_push(views[i as int], ours);
            assert(views.take(i + 1) =~= views.take(i as int).push(views[i as int]));
            assert(views[i as int] == spans@[i as int]@);
        }
        if same(spans[i].session_id.as_str(), session) {
            let span = spans[i].clone();
            out.push(span);
            assert(span_views(out@) =~= before.push(views[i as int]));
        }
        i = i + 1;
    }
    assert(views.take(i as int) =~= views);
    let ghost start = out@;
    let ghost before = |a: SessionSpan, b: SessionSpan| began_before(a@, b@);
    let less = |a: &SessionSpan, b: &SessionSpan| -> (yes: bool)
        ensures
            yes == began_before(a@, b@),
        { began_first(a, b) };
    sort_by(&mut out, less, Ghost(before));
    proof {
        crate::sort::lemma_sorted_map(
            start,
            before,
            |span: SessionSpan| span@,
            |a: SpanView, b: SpanView| began_before(a, b),
        );
    }
    out
}

/// The account was signed in at the given turn.
pub open spec fn covers(span: SpanView, turn: int) -> bool {
    or_zero(span.start_idx) <= turn && (span.end_idx is None || turn <= span.end_idx->0)
}

/// The name that a span gives its account.
pub open spec fn span_account(span: SpanView) -> Seq<char> {
    match span.account {
        Some(account) => account,
        None => "Account "@ + decimal(
            match span.target {
                Some(target) => target as nat,
                None => 1,
            },
        ),
    }
}

/// The account of the last span that covers a turn.
pub open spec fn covering_account(spans: Seq<SpanView>, turn: int) -> Option<Seq<char>>
    decreases spans.len(),
{
    if spans.len() == 0 {
        None
    } else if covers(spans.last(), turn) {
        Some(span_account(spans.last()))
    } else {
        covering_account(spans.drop_last(), turn)
    }
}

/// All spans name one account.
pub open spec fn one_account(spans: Seq<SpanView>) -> bool {
    &&& spans.len() > 0
    &&& spans[0].account is Some
    &&& forall|i: int| 0 <= i < spans.len() ==> (#[trigger] spans[i]).account == spans[0].account
}

/// The account that a turn of a session counts for.
pub open spec fn turn_account(spans: Seq<SpanView>, turn: int) -> Option<Seq<char>> {
    if one_account(spans) {
        spans[0].account
    } else {
        covering_account(spans, turn)
    }
}

fn same_account(left: &Option<String>, right: &Option<String>) -> (yes: bool)
    ensures
        yes == (maybe_text(*left) == maybe_text(*right)),
{
    match (left, right) {
        (Some(a), Some(b)) => same(a.as_str(), b.as_str()),
        (None, None) => true,
        _ => false,
    }
}

fn find_account(spans: &Vec<SessionSpan>, turn: usize) -> (out: Option<String>)
    ensures
        maybe_text(out) == turn_account(span_views(spans@), turn as int),
{
    let ghost views = span_views(spans@);
    if spans.len() > 0 && spans[0].account.is_some() {
        assert(views[0] == spans@[0]@);
        let mut all_same = true;
        let mut i: usize = 0;
        while i < spans.len()
            invariant
                i <= spans@.len(),
                spans@.len() > 0,
                views == span_views(spans@),
                all_same == forall|k: int|
                    0 <= k < i ==> (#[trigger] views[k]).account == views[0].account,
            decreases spans@.len() - i,
        {
            assert(views[i as int] == spans@[i as int]@);
            if !same_account(&spans[i].account, &spans[0].account) {
                all_same = false;
            }
            i = i + 1;
        }
        if all_same {
            assert(one_account(views));
            return copy_maybe(&spans[0].account);
        }
    }
    assert(!one_account(views));
    let mut i: usize = spans.len();
    assert(views.take(i as int) =~= views);
    while i > 0
        invariant
            i <= spans@.len(),
            views == span_views(spans@),
            covering_account(views, turn as int) == covering_account(
                views.take(i as int),
                turn as int,
            ),
        decreases i,
    {
        i = i - 1;
        proof {
            assert(views.take(i + 1).drop_last() =~= views.take(i as int));
            assert(views.take(i + 1).last() == spans@[i as int]@);
        }
        let span = &spans[i];
        let begun = span.start_idx.unwrap_or(0) as i128 <= turn as i128;
        let ended = match span.end_idx {
            Some(end) => turn as i128 > end as i128,
            None => false,
        };
        if begun && !ended {
            return match &span.account {
                Some(account) => Some(account.clone()),
                None => {
                    let number = decimal_text(span.target.unwrap_or(1) as u64);
                    let mut name = "Account ".to_owned();
                    name.append(number.as_str());
                    Some(name)
                },
            };
        }
    }
    None
}

/// The records of the command-line client, which carry no account yet.
pub open spec fn unnamed(record: RecordView) -> bool {
    record.client == "antigravity-cli"@
}

/// How many records of a session stand before a position.
pub open spec fn turn_number_until(records: Seq<RecordView>, until: int, session: Seq<char>) -> int
    decreases until,
{
    if until <= 0 {
        0
    } else {
        turn_number_until(records, until - 1, session) + if unnamed(records[until - 1])
            && records[until - 1].session_id == session {
            1int
        } else {
            0int
        }
    }
}

/// A record with its account's name behind the client's.
pub open spec fn named_record(
    records: Seq<RecordView>,
    spans: Seq<SpanView>,
    at: int,
) -> RecordView {
    let record = records[at];
    if unnamed(record) {
        let turn = turn_number_until(records, at, record.session_id);
        match turn_account(session_spans(spans, record.session_id), turn) {
            Some(account) => RecordView {
                client: "antigravity-cli ("@ + account + ")"@,
                ..record
            },
            None => record,
        }
    } else {
        record
    }
}

pub open spec fn named_records(records: Seq<RecordView>, spans: Seq<SpanView>) -> Seq<RecordView> {
    Seq::new(records.len(), |i: int| named_record(records, spans, i))
}

fn count_turns(records: &Vec<UsageRecord>, until: usize, session: &str) -> (turn: usize)
    requires
        until <= records@.len(),
    ensures
        turn == turn_number_until(record_views(records@), until as int, session@),
        turn <= until,
{
    let ghost views = record_views(records@);
    let mut turn: usize = 0;
    let mut i: usize = 0;
    while i < until
        invariant
            i <= until <= records@.len(),
            turn <= i,
            views == record_views(records@),
            turn == turn_number_until(views, i as int, session@),
        decreases until - i,
    {
        assert(views[i as int] == records@[i as int]@);
        if same(records[i].client.as_str(), "antigravity-cli") && same(
            records[i].session_id.as_str(),
            session,
        ) {
            turn = turn + 1;
        }
        i = i + 1;
    }
    turn
}

/// Names the account of every record of the command-line client.
pub fn tag_antigravity_account_records(records: &mut Vec<UsageRecord>, spans: &Vec<SessionSpan>)
    ensures
        record_views(final(records)@) == named_records(
            record_views(old(records)@),
            span_views(spans@),
        ),
{
    let ghost start = record_views(records@);
    let ghost views = span_views(spans@);
    let mut clients: Vec<Option<String>> = Vec::new();
    let mut i: usize = 0;
    while i < records.len()
        invariant
            i <= records@.len(),
            i == clients@.len(),
            start == record_views(records@),
            views == span_views(spans@),
            forall|k: int|
                0 <= k < i ==> match #[trigger] clients@[k] {
                    Some(client) => named_record(start, views, k) == (RecordView {
                        client: client@,
                        ..start[k]
                    }),
                    None => named_record(start, views, k) == start[k],
                },
        decreases records@.len() - i,
    {
        assert(start[i as int] == records@[i as int]@);
        let mut client: Option<String> = None;
        if same(records[i].client.as_str(), "antigravity-cli") {
            let turn: usize = count_turns(records, i, records[i].session_id.as_str());
            let ours = spans_of(spans, records[i].session_id.as_str());
            match find_account(&ours, turn) {
                Some(account) => {
                    let mut name = "antigravity-cli (".to_owned();
                    name.append(account.as_str());
                    name.append(")");
                    client = Some(name);
                },
                None => {},
            }
        }
        clients.push(client);
        i = i + 1;
    }
    let mut i: usize = 0;
    while i < records.len()
        invariant
            i <= records@.len(),
            records@.len() == clients@.len(),
            start.len() == records@.len(),
            forall|k: int|
                0 <= k < records@.len() ==> match #[trigger] clients@[k] {
                    Some(client) => named_record(start, views, k) == (RecordView {
                        client: client@,
                        ..start[k]
                    }),
                    None => named_record(start, views, k) == start[k],
                },
            forall|k: int| 0 <= k < i ==> (#[trigger] records@[k])@ == named_record(start, views, k),
            forall|k: int| i <= k < records@.len() ==> (#[trigger] records@[k])@ == start[k],
        decreases records@.len() - i,
    {
        match &clients[i] {
            Some(client) => {
                let mut record = records[i].clone();
                record.client = client.clone();
                records.set(i, record);
            },
            None => {},
        }
        i = i + 1;
    }
    assert(record_views(records@) =~= named_records(start, views));
}

/// Naming accounts changes nothing of a record but the client's name, and
/// nothing at all of other clients' records.
pub proof fn law_naming_keeps_the_rest(records: Seq<RecordView>, spans: Seq<SpanView>, i: int)
    requires
        0 <= i < records.len(),
    ensures
        named_records(records, spans).len() == records.len(),
        named_records(records, spans)[i] == (RecordView {
            client: named_records(records, spans)[i].client,
            ..records[i]
        }),
        !unnamed(records[i]) ==> named_records(records, spans)[i] == records[i],
{
}

/// Where every span of a session names one account, all its turns count for it.
pub proof fn law_single_account_sessions_count_for_it(spans: Seq<SpanView>, turn: int)
    requires
        spans.len() > 0,
        spans[0].account is Some,
        forall|i: int| 0 <= i < spans.len() ==> (#[trigger] spans[i]).account == spans[0].account,
    ensures
        turn_account(spans, turn) == spans[0].account,
{
}

/// The records of the command-line client, named or not.
pub open spec fn of_client(record: RecordView) -> bool {
    starts_with(record.client, "antigravity-cli"@)
}

/// The sessions of the command-line client, each once.
pub fn antigravity_sessions(records: &Vec<UsageRecord>) -> (out: Vec<String>)
    ensures
        ascending(texts(out@)),
        forall|session: Seq<char>| #[trigger]
            texts(out@).contains(session) <==> exists|i: int|
                0 <= i < records@.len() && of_client((#[trigger] records@[i])@)
                    && records@[i].session_id@ == session,
{
    let mut out: Vec<String> = Vec::new();
    let mut i: usize = 0;
    while i < records.len()
        invariant
            i <= records@.len(),
            ascending(texts(out@)),
            forall|session: Seq<char>| #[trigger]
                texts(out@).contains(session) <==> exists|k: int|
                    0 <= k < i && of_client((#[trigger] records@[k])@) && records@[k].session_id@
                        == session,
        decreases records@.len() - i,
    {
        if has_prefix(records[i].client.as_str(), "antigravity-cli") {
            let ghost before = texts(out@);
            insert_name(&mut out, records[i].session_id.as_str());
            proof {
                assert forall|session: Seq<char>| #[trigger]
                    texts(out@).contains(session) <==> exists|k: int|
                        0 <= k < i + 1 && of_client((#[trigger] records@[k])@)
                            && records@[k].session_id@ == session by {
                    if session == records@[i as int].session_id@ {
                        assert(of_client(records@[i as int]@));
                    }
                    assert(texts(out@).contains(session) <==> (session
                        == records@[i as int].session_id@ || before.contains(session)));
                }
            }
        }
        i = i + 1;
    }
    out
}

/// The positions, up to a point, of a session's records.
pub open spec fn session_rows(records: Seq<RecordView>, session: Seq<char>) -> Seq<int>
    decreases records.len(),
{
    if records.len() == 0 {
        Seq::empty()
    } else {
        let before = session_rows(records.drop_last(), session);
        if of_client(records.last()) && records.last().session_id == session {
            before.push(records.len() - 1)
        } else {
            before
        }
    }
}

/// The positions of a session's records where there are two or more and all
/// carry the same time: only then is that time a stand-in to be replaced.
pub open spec fn rows_to_date(records: Seq<RecordView>, session: Seq<char>) -> Option<Seq<int>> {
    let rows = session_rows(records, session);
    if rows.len() > 1 && (forall|k: int|
        0 <= k < rows.len() ==> records[#[trigger] rows[k]].timestamp == records[rows[0]].timestamp) {
        Some(rows)
    } else {
        None
    }
}

pub open spec fn as_positions(rows: Seq<usize>) -> Seq<int> {
    rows.map_values(|row: usize| row as int)
}

pub proof fn lemma_session_rows(records: Seq<RecordView>, session: Seq<char>)
    ensures
        forall|k: int|
            0 <= k < session_rows(records, session).len() ==> 0 <= #[trigger] session_rows(
                records,
                session,
            )[k] < records.len(),
        forall|j: int, k: int|
            0 <= j < k < session_rows(records, session).len() ==> (#[trigger] session_rows(
                records,
                session,
            )[j]) < (#[trigger] session_rows(records, session)[k]),
        forall|k: int|
            0 <= k < session_rows(records, session).len() ==> of_client(
                records[#[trigger] session_rows(records, session)[k]],
            ),
    decreases records.len(),
{
    if records.len() > 0 {
        let before = session_rows(records.drop_last(), session);
        let rows = session_rows(records, session);
        lemma_session_rows(records.drop_last(), session);
        assert forall|k: int| 0 <= k < rows.len() implies 0 <= #[trigger] rows[k] < records.len()
            && of_client(records[rows[k]]) by {
            if k < before.len() {
                assert(rows[k] == before[k]);
                assert(records.drop_last()[before[k]] == records[rows[k]]);
            }
        }
        assert forall|j: int, k: int| 0 <= j < k < rows.len() implies (#[trigger] rows[j]) < (
        #[trigger] rows[k]) by {
            assert(rows[j] == before[j]);
            if k < before.len() {
                assert(rows[k] == before[k]);
            }
        }
    }
}

pub fn find_rows_to_date(records: &Vec<UsageRecord>, session: &str) -> (out: Option<Vec<usize>>)
    ensures
        match out {
            Some(rows) => rows_to_date(record_views(records@), session@) == Some(
                as_positions(rows@),
            ),
            None => rows_to_date(record_views(records@), session@) is None,
        },
{
    let ghost views = record_views(records@);
    let mut rows: Vec<usize> = Vec::new();
    let mut i: usize = 0;
    assert(as_positions(rows@) =~= session_rows(views.take(0), session@));
    while i < records.len()
        invariant
            i <= records@.len(),
            views == record_views(records@),
            as_positions(rows@) == session_rows(views.take(i as int), session@),
        decreases records@.len() - i,
    {
        proof {
            assert(views.take(i + 1).drop_last() =~= views.take(i as int));
            assert(views.take(i + 1).last() == records@[i as int]@);
        }
        if has_prefix(records[i].client.as_str(), "antigravity-cli") && same(
            records[i].session_id.as_str(),
            session,
        ) {
            let ghost before = rows@;
            rows.push(i);
            assert(as_positions(rows@) =~= as_positions(before).push(i as int));
        }
        i = i + 1;
    }
    proof {
        assert(views.take(i as int) =~= views);
        lemma_session_rows(views, session@);
        assert(forall|k: int|
            0 <= k < rows@.len() ==> (#[trigger] rows@[k]) == session_rows(views, session@)[k]);
    }
    if rows.len() <= 1 {
        return None;
    }
    let mut k: usize = 0;
    while k < rows.len()
        invariant
            k <= rows@.len(),
            rows@.len() > 1,
            views == record_views(records@),
            as_positions(rows@) == session_rows(views, session@),
            forall|j: int| 0 <= j < rows@.len() ==> (#[trigger] rows@[j]) < records@.len(),
            forall|j: int|
                0 <= j < k ==> views[#[trigger] as_positions(rows@)[j]].timestamp
                    == views[as_positions(rows@)[0]].timestamp,
        decreases rows@.len() - k,
    {
        assert(views[as_positions(rows@)[k as int]] == records@[rows@[k as int] as int]@);
        assert(views[as_positions(rows@)[0]] == records@[rows@[0] as int]@);
        if records[rows[k]].timestamp != records[rows[0]].timestamp {
            return None;
        }
        k = k + 1;
    }
    Some(rows)
}

/// One step of a conversation: its number and its metadata.
#[derive(Debug)]
pub struct Step {
    pub number: i64,
    pub metadata: Vec<u8>,
}

/// The time of the last step with a number that has one.
pub open spec fn step_time(steps: Seq<Step>, number: int) -> Option<i64>
    decreases steps.len(),
{
    if steps.len() == 0 {
        None
    } else if steps.last().number == number && step_timestamp(fields(steps.last().metadata@)) is Some {
        step_timestamp(fields(steps.last().metadata@))
    } else {
        step_time(steps.drop_last(), number)
    }
}

fn find_step_time(steps: &Vec<Step>, times: &Vec<Option<i64>>, number: i64) -> (out: Option<i64>)
    requires
        times@.len() == steps@.len(),
        forall|k: int|
            0 <= k < steps@.len() ==> #[trigger] times@[k] == step_timestamp(
                fields(steps@[k].metadata@),
            ),
    ensures
        out == step_time(steps@, number as int),
{
    let mut i: usize = steps.len();
    assert(steps@.take(i as int) =~= steps@);
    while i > 0
        invariant
            i <= steps@.len(),
            times@.len() == steps@.len(),
            forall|k: int|
                0 <= k < steps@.len() ==> #[trigger] times@[k] == step_timestamp(
                    fields(steps@[k].metadata@),
                ),
            step_time(steps@, number as int) == step_time(steps@.take(i as int), number as int),
        decreases i,
    {
        i = i - 1;
        proof {
            assert(steps@.take(i + 1).drop_last() =~= steps@.take(i as int));
            assert(steps@.take(i + 1).last() == steps@[i as int]);
        }
        if steps[i].number == number && times[i].is_some() {
            return times[i];
        }
    }
    None
}

/// The time of a turn: that of its first step that has one.
pub open spec fn turn_time(steps: Seq<Step>, numbers: Seq<int>) -> Option<i64>
    decreases numbers.len(),
{
    if numbers.len() == 0 {
        None
    } else if step_time(steps, numbers[0]) is Some {
        step_time(steps, numbers[0])
    } else {
        turn_time(steps, numbers.drop_first())
    }
}

/// The identifiers of the turns among the blobs.
pub open spec fn turn_ids(blobs: Seq<Seq<u8>>) -> Seq<Seq<char>>
    decreases blobs.len(),
{
    if blobs.len() == 0 {
        Seq::empty()
    } else {
        let before = turn_ids(blobs.drop_last());
        match turn(blobs.last()) {
            Some(found) => match found.id {
                Some(id) => if before.contains(id) {
                    before
                } else {
                    before.push(id)
                },
                None => before,
            },
            None => before,
        }
    }
}

/// The times of the turns in order; a turn that repeats an identifier is the
/// same turn again.
pub open spec fn turn_times(steps: Seq<Step>, blobs: Seq<Seq<u8>>) -> Seq<Option<i64>>
    decreases blobs.len(),
{
    if blobs.len() == 0 {
        Seq::empty()
    } else {
        let before = turn_times(steps, blobs.drop_last());
        match turn(blobs.last()) {
            Some(found) => if found.id is Some && turn_ids(blobs.drop_last()).contains(found.id->0) {
                before
            } else {
                before.push(turn_time(steps, found.steps))
            },
            None => before,
        }
    }
}

pub open spec fn blob_views(blobs: Seq<Vec<u8>>) -> Seq<Seq<u8>> {
    blobs.map_values(|blob: Vec<u8>| blob@)
}

fn find_turn_time(
    steps: &Vec<Step>,
    times: &Vec<Option<i64>>,
    numbers: &Vec<i64>,
) -> (out: Option<i64>)
    requires
        times@.len() == steps@.len(),
        forall|k: int|
            0 <= k < steps@.len() ==> #[trigger] times@[k] == step_timestamp(
                fields(steps@[k].metadata@),
            ),
    ensures
        out == turn_time(steps@, as_ints(numbers@)),
{
    let ghost all = as_ints(numbers@);
    let mut i: usize = 0;
    assert(all.skip(0) =~= all);
    while i < numbers.len()
        invariant
            i <= numbers@.len(),
            all == as_ints(numbers@),
            times@.len() == steps@.len(),
            forall|k: int|
                0 <= k < steps@.len() ==> #[trigger] times@[k] == step_timestamp(
                    fields(steps@[k].metadata@),
                ),
            turn_time(steps@, all) == turn_time(steps@, all.skip(i as int)),
        decreases numbers@.len() - i,
    {
        proof {
            assert(all.skip(i as int)[0] == numbers@[i as int]);
            assert(all.skip(i as int).drop_first() =~= all.skip(i + 1));
        }
        let at = find_step_time(steps, times, numbers[i]);
        if at.is_some() {
            return at;
        }
        i = i + 1;
    }
    None
}

fn is_listed(names: &Vec<String>, name: &str) -> (yes: bool)
    ensures
        yes == texts(names@).contains(name@),
{
    let mut i: usize = 0;
    while i < names.len()
        invariant
            i <= names@.len(),
            forall|k: int| 0 <= k < i ==> (#[trigger] names@[k])@ != name@,
        decreases names@.len() - i,
    {
        if same(names[i].as_str(), name) {
            assert(texts(names@)[i as int] == name@);
            return true;
        }
        i = i + 1;
    }
    proof {
        if texts(names@).contains(name@) {
            let k = choose|k: int| 0 <= k < texts(names@).len() && texts(names@)[k] == name@;
            assert(names@[k]@ == name@);
        }
    }
    false
}

/// When each turn of a conversation was taken; nothing where no step has a
/// time.
pub fn find_turn_times(steps: &Vec<Step>, blobs: &Vec<Vec<u8>>) -> (out: Vec<Option<i64>>)
    ensures
        out@ == if exists|k: int|
            0 <= k < steps@.len() && step_timestamp(
                fields((#[trigger] steps@[k]).metadata@),
            ) is Some {
            turn_times(steps@, blob_views(blobs@))
        } else {
            Seq::empty()
        },
{
    let mut times: Vec<Option<i64>> = Vec::new();
    let mut any = false;
    let mut i: usize = 0;
    while i < steps.len()
        invariant
            i <= steps@.len(),
            times@.len() == i,
            forall|k: int|
                0 <= k < i ==> #[trigger] times@[k] == step_timestamp(fields(steps@[k].metadata@)),
            any == exists|k: int|
                0 <= k < i && step_timestamp(fields((#[trigger] steps@[k]).metadata@)) is Some,
        decreases steps@.len() - i,
    {
        let at = extract_step_timestamp_ms(steps[i].metadata.as_slice());
        if at.is_some() {
            any = true;
        }
        times.push(at);
        i = i + 1;
    }
    let mut out: Vec<Option<i64>> = Vec::new();
    if !any {
        return out;
    }
    let ghost views = blob_views(blobs@);
    let mut seen: Vec<String> = Vec::new();
    let mut i: usize = 0;
    proof {
        assert(out@ =~= turn_times(steps@, views.take(0)));
        assert(texts(seen@) =~= turn_ids(views.take(0)));
    }
    while i < blobs.len()
        invariant
            i <= blobs@.len(),
            views == blob_views(blobs@),
            times@.len() == steps@.len(),
            forall|k: int|
                0 <= k < steps@.len() ==> #[trigger] times@[k] == step_timestamp(
                    fields(steps@[k].metadata@),
                ),
            out@ == turn_times(steps@, views.take(i as int)),
            texts(seen@) == turn_ids(views.take(i as int)),
        decreases blobs@.len() - i,
    {
        proof {
            assert(views.take(i + 1).drop_last() =~= views.take(i as int));
            assert(views.take(i + 1).last() == blobs@[i as int]@);
        }
        match parse_gen_metadata_turn(blobs[i].as_slice()) {
            Some((id, numbers)) => {
                let mut fresh = true;
                match id {
                    Some(id) => {
                        if is_listed(&seen, id.as_str()) {
                            fresh = false;
                        } else {
                            let ghost before = seen@;
                            seen.push(id);
                            assert(texts(seen@) =~= texts(before).push(id@));
                        }
                    },
                    None => {},
                }
                if fresh {
                    out.push(find_turn_time(steps, &times, &numbers));
                }
            },
            None => {},
        }
        i = i + 1;
    }
    assert(views.take(i as int) =~= views);
    out
}

/// A record moved to the time of its turn.
pub open spec fn dated(record: RecordView, at: Option<i64>, date: Option<Seq<char>>) -> RecordView {
    match at {
        Some(at) => RecordView {
            timestamp: at,
            date: match date {
                Some(date) => date,
                None => record.date,
            },
            ..record
        },
        None => record,
    }
}

/// The time of a turn, and the local date of that time, where it has one.
#[derive(Debug)]
pub struct TurnTime {
    pub at: Option<i64>,
    pub date: Option<String>,
}

/// The turns of a session, as the record of its conversation tells them.
#[derive(Debug)]
pub struct Conversation {
    pub session: String,
    pub turns: Vec<TurnTime>,
}

/// The record in its place, moved where its turn has a time.
pub open spec fn dated_at(
    records: Seq<RecordView>,
    rows: Seq<int>,
    turns: Seq<TurnTime>,
    i: int,
) -> RecordView {
    let k = rows.index_of(i);
    if rows.contains(i) && k < turns.len() {
        dated(records[i], turns[k].at, maybe_text(turns[k].date))
    } else {
        records[i]
    }
}

/// The records after those of one session moved, in order, to the times of its
/// turns. They do so where the session has several records, all of one time.
pub open spec fn dated_session(records: Seq<RecordView>, conversation: Conversation) -> Seq<
    RecordView,
> {
    match rows_to_date(records, conversation.session@) {
        Some(rows) => Seq::new(
            records.len(),
            |i: int| dated_at(records, rows, conversation.turns@, i),
        ),
        None => records,
    }
}

/// The records after those of all sessions moved.
pub open spec fn dated_sessions(
    records: Seq<RecordView>,
    conversations: Seq<Conversation>,
) -> Seq<RecordView>
    decreases conversations.len(),
{
    if conversations.len() == 0 {
        records
    } else {
        dated_session(
            dated_sessions(records, conversations.drop_last()),
            conversations.last(),
        )
    }
}

fn apply_turn_times(records: &mut Vec<UsageRecord>, rows: &Vec<usize>, turns: &Vec<TurnTime>)
    requires
        forall|k: int| 0 <= k < rows@.len() ==> (#[trigger] rows@[k]) < old(records)@.len(),
        forall|j: int, k: int| 0 <= j < k < rows@.len() ==> (#[trigger] rows@[j]) < (#[trigger] rows@[k]),
    ensures
        record_views(final(records)@) == Seq::new(
            old(records)@.len(),
            |i: int| dated_at(record_views(old(records)@), as_positions(rows@), turns@, i),
        ),
{
    let ghost start = records@;
    let ghost views = record_views(start);
    let ghost places = as_positions(rows@);
    let mut k: usize = 0;
    while k < rows.len() && k < turns.len()
        invariant
            k <= rows@.len(),
            k <= turns@.len(),
            records@.len() == start.len(),
            forall|j: int| 0 <= j < rows@.len() ==> (#[trigger] rows@[j]) < start.len(),
            forall|i: int, j: int|
                0 <= i < j < rows@.len() ==> (#[trigger] rows@[i]) < (#[trigger] rows@[j]),
            forall|j: int|
                0 <= j < k ==> records@[(#[trigger] rows@[j]) as int]@ == dated(
                    start[rows@[j] as int]@,
                    turns@[j].at,
                    maybe_text(turns@[j].date),
                ),
            forall|i: int|
                0 <= i < start.len() && (forall|j: int| 0 <= j < k ==> #[trigger] rows@[j] != i)
                    ==> #[trigger] records@[i] == start[i],
        decreases rows@.len() - k,
    {
        match turns[k].at {
            Some(at) => {
                let row: usize = rows[k];
                let mut record = records[row].clone();
                record.timestamp = at;
                match &turns[k].date {
                    Some(date) => {
                        record.date = date.clone();
                    },
                    None => {},
                }
                records.set(row, record);
            },
            None => {},
        }
        k = k + 1;
    }
    proof {
        assert forall|i: int| 0 <= i < start.len() implies #[trigger] record_views(records@)[i]
            == dated_at(views, places, turns@, i) by {
            assert(record_views(records@)[i] == records@[i]@);
            assert(views[i] == start[i]@);
            if places.contains(i) {
                let j = places.index_of(i);
                assert(places[j] == i);
                assert(rows@[j] as int == i);
                if j < turns@.len() {
                    assert(j < k);
                } else {
                    assert forall|n: int| 0 <= n < k implies #[trigger] rows@[n] != i by {
                        assert(n < j);
                    }
                }
            } else {
                assert forall|n: int| 0 <= n < k implies #[trigger] rows@[n] != i by {
                    assert(places[n] == rows@[n]);
                }
            }
        }
    }
}

/// Gives the records of conversations the times of their turns.
pub fn enrich_antigravity_timestamps(
    records: &mut Vec<UsageRecord>,
    conversations: &Vec<Conversation>,
)
    ensures
        record_views(final(records)@) == dated_sessions(
            record_views(old(records)@),
            conversations@,
        ),
{
    let ghost start = record_views(records@);
    let mut i: usize = 0;
    assert(conversations@.take(0) =~= Seq::empty());
    while i < conversations.len()
        invariant
            i <= conversations@.len(),
            record_views(records@) == dated_sessions(start, conversations@.take(i as int)),
        decreases conversations@.len() - i,
    {
        let ghost before = record_views(records@);
        proof {
            assert(conversations@.take(i + 1).drop_last() =~= conversations@.take(i as int));
            assert(conversations@.take(i + 1).last() == conversations@[i as int]);
            lemma_session_rows(before, conversations@[i as int].session@);
        }
        match find_rows_to_date(records, conversations[i].session.as_str()) {
            Some(rows) => {
                proof {
                    let places = as_positions(rows@);
                    assert forall|k: int| 0 <= k < rows@.len() implies (#[trigger] rows@[k])
                        < records@.len() by {
                        assert(places[k] == rows@[k]);
                    }
                    assert forall|j: int, k: int| 0 <= j < k < rows@.len() implies (
                    #[trigger] rows@[j]) < (#[trigger] rows@[k]) by {
                        assert(places[j] == rows@[j] && places[k] == rows@[k]);
                    }
                }
                apply_turn_times(records, &rows, &conversations[i].turns);
            },
            None => {},
        }
        i = i + 1;
    }
    assert(conversations@.take(i as int) =~= conversations@);
}

/// Dating moves records in time and changes nothing else of them; records of
/// other clients stay as they are.
pub proof fn law_dating_keeps_the_rest(
    records: Seq<RecordView>,
    conversations: Seq<Conversation>,
    i: int,
)
    requires
        0 <= i < records.len(),
    ensures
        dated_sessions(records, conversations).len() == records.len(),
        dated_sessions(records, conversations)[i] == (RecordView {
            timestamp: dated_sessions(records, conversations)[i].timestamp,
            date: dated_sessions(records, conversations)[i].date,
            ..records[i]
        }),
        !of_client(records[i]) ==> dated_sessions(records, conversations)[i] == records[i],
    decreases conversations.len(),
{
    if conversations.len() > 0 {
        let before = dated_sessions(records, conversations.drop_last());
        law_dating_keeps_the_rest(records, conversations.drop_last(), i);
        lemma_session_rows(before, conversations.last().session@);
        match rows_to_date(before, conversations.last().session@) {
            Some(rows) => {
                if rows.contains(i) {
                    assert(rows[rows.index_of(i)] == i);
                }
            },
            None => {},
        }
    }
}

/// Where the spans of a session name more than one account, a turn counts for
/// the last of the spans that it lies in: the span began by that turn (at the
/// first one where it does not say), it did not end before it, and no span
/// behind it does both. A turn that lies in no span counts for no account.
pub proof fn law_turn_counts_for_the_last_span_around_it(spans: Seq<SpanView>, turn: int)
    requires
        spans.len() > 0 && spans[0].account is Some ==> exists|k: int|
            0 <= k < spans.len() && (#[trigger] spans[k]).account != spans[0].account,
    ensures
        turn_account(spans, turn) matches Some(account) ==> exists|i: int|
            {
                &&& 0 <= i < spans.len()
                &&& (#[trigger] spans[i]).start_idx is Some ==> spans[i].start_idx->0 <= turn
                &&& spans[i].start_idx is None ==> 0 <= turn
                &&& spans[i].end_idx is Some ==> turn <= spans[i].end_idx->0
                &&& spans[i].account is Some ==> account == spans[i].account->0
                &&& spans[i].account is None && spans[i].target is Some ==> account == "Account "@
                    + decimal(spans[i].target->0 as nat)
                &&& spans[i].account is None && spans[i].target is None ==> account == "Account "@
                    + decimal(1)
                &&& forall|k: int|
                    i < k < spans.len() ==> ((#[trigger] spans[k]).start_idx is Some
                        && turn < spans[k].start_idx->0) || (spans[k].start_idx is None && turn < 0)
                        || (spans[k].end_idx is Some && spans[k].end_idx->0 < turn)
            },
        turn_account(spans, turn) is None ==> forall|k: int|
            0 <= k < spans.len() ==> ((#[trigger] spans[k]).start_idx is Some && turn
                < spans[k].start_idx->0) || (spans[k].start_idx is None && turn < 0) || (
            spans[k].end_idx is Some && spans[k].end_idx->0 < turn),
{
    lemma_covering(spans, turn);
}

proof fn lemma_covering(spans: Seq<SpanView>, turn: int)
    ensures
        covering_account(spans, turn) matches Some(account) ==> exists|i: int|
            0 <= i < spans.len() && covers(#[trigger] spans[i], turn) && account == span_account(
                spans[i],
            ) && forall|k: int| i < k < spans.len() ==> !covers(#[trigger] spans[k], turn),
        covering_account(spans, turn) is None ==> forall|k: int|
            0 <= k < spans.len() ==> !covers(#[trigger] spans[k], turn),
    decreases spans.len(),
{
    if spans.len() > 0 && !covers(spans.last(), turn) {
        let before = spans.drop_last();
        lemma_covering(before, turn);
        if covering_account(before, turn) is Some {
            let i = choose|i: int|
                0 <= i < before.len() && covers(#[trigger] before[i], turn) && covering_account(
                    before,
                    turn,
                )->0 == span_account(before[i]) && forall|k: int|
                    i < k < before.len() ==> !covers(#[trigger] before[k], turn);
            assert(covers(spans[i], turn));
            assert forall|k: int| i < k < spans.len() implies !covers(#[trigger] spans[k], turn) by {
                if k < before.len() {
                    assert(!covers(before[k], turn));
                }
            }
        } else {
            assert forall|k: int| 0 <= k < spans.len() implies !covers(
                #[trigger] spans[k],
                turn,
            ) by {
                if k < before.len() {
                    assert(!covers(before[k], turn));
                }
            }
        }
    } else if spans.len() > 0 {
        assert(covers(spans[spans.len() - 1], turn));
    }
}

/// The spans of a session are those that name it, in the order of the turns at
/// which they began; what began at one turn stands in the order of time, and
/// what began at one time in the order it was found in.
pub proof fn law_session_spans_are_in_order(spans: Seq<SpanView>, session: Seq<char>)
    ensures
        forall|span: SpanView|
            #![trigger session_spans(spans, session).contains(span)]
            session_spans(spans, session).contains(span) <==> spans.contains(span)
                && span.session_id == session,
        forall|i: int, j: int|
            0 <= i < j < session_spans(spans, session).len() ==> {
                let first = #[trigger] session_spans(spans, session)[i];
                let second = #[trigger] session_spans(spans, session)[j];
                let begun = match first.start_idx {
                    Some(at) => at,
                    None => 0,
                };
                let next = match second.start_idx {
                    Some(at) => at,
                    None => 0,
                };
                let began_ms = match first.start_ms {
                    Some(at) => at,
                    None => 0,
                };
                let next_ms = match second.start_ms {
                    Some(at) => at,
                    None => 0,
                };
                begun < next || (begun == next && began_ms <= next_ms)
            },
{
    let named = |span: SpanView| span.session_id == session;
    let ours = spans.filter(named);
    let before = |a: SpanView, b: SpanView| began_before(a, b);
    assert(orders(before));
    lemma_sorted_in_order(ours, before);
    lemma_sorted_keeps_items(ours, before);
    let out = session_spans(spans, session);
    ours.to_multiset_ensures();
    out.to_multiset_ensures();
    assert forall|span: SpanView| #[trigger] out.contains(span) <==> spans.contains(span)
        && span.session_id == session by {
        assert(out.contains(span) <==> ours.contains(span)) by {
            assert(out.to_multiset().count(span) == ours.to_multiset().count(span));
        }
        if ours.contains(span) {
            spans.lemma_filter_contains_rev(named, span);
            let k = choose|k: int| 0 <= k < ours.len() && ours[k] == span;
            spans.lemma_filter_pred(named, k);
        }
        if spans.contains(span) && span.session_id == session {
            let k = choose|k: int| 0 <= k < spans.len() && spans[k] == span;
            spans.lemma_filter_contains(named, k);
        }
    }
    assert forall|i: int, j: int| 0 <= i < j < out.len() implies !began_before(
        #[trigger] out[j],
        #[trigger] out[i],
    ) by {
        assert(!before(out[j], out[i]));
    }
}

/// The record of a turn bears the account that the turn counts for, and keeps
/// its client where there is none: the turn is the number of records of the
/// same session and client before it.
pub proof fn law_records_bear_their_account(
    records: Seq<RecordView>,
    spans: Seq<SpanView>,
    i: int,
)
    requires
        0 <= i < records.len(),
        records[i].client == "antigravity-cli"@,
    ensures
        ({
            let earlier = records.take(i).filter(
                |record: RecordView|
                    record.client == "antigravity-cli"@ && record.session_id
                        == records[i].session_id,
            );
            let ours = session_spans(spans, records[i].session_id);
            match turn_account(ours, earlier.len() as int) {
                Some(account) => named_records(records, spans)[i].client == "antigravity-cli ("@
                    + account + ")"@,
                None => named_records(records, spans)[i] == records[i],
            }
        }),
{
    lemma_turn_number(records, i, records[i].session_id);
}

proof fn lemma_turn_number(records: Seq<RecordView>, until: int, session: Seq<char>)
    requires
        0 <= until <= records.len(),
    ensures
        turn_number_until(records, until, session) == records.take(until).filter(
            |record: RecordView|
                record.client == "antigravity-cli"@ && record.session_id == session,
        ).len(),
    decreases until,
{
    let ours = |record: RecordView|
        record.client == "antigravity-cli"@ && record.session_id == session;
    if until > 0 {
        lemma_turn_number(records, until - 1, session);
        assert(records.take(until) =~= records.take(until - 1).push(records[until - 1]));
        records.take(until - 1).lemma_filter_push(records[until - 1], ours);
    } else {
        reveal(Seq::filter);
        assert(records.take(0) =~= Seq::empty());
    }
}

/// The rows of a session are the positions of its records of the client, in
/// their order.
pub proof fn law_session_rows_are_its_records(records: Seq<RecordView>, session: Seq<char>)
    ensures
        session_rows(records, session) == Seq::new(records.len(), |i: int| i).filter(
            |i: int|
                starts_with(records[i].client, "antigravity-cli"@) && records[i].session_id
                    == session,
        ),
{
    lemma_rows_until(records, records.len() as int, session);
    assert(records.take(records.len() as int) =~= records);
}

proof fn lemma_rows_until(records: Seq<RecordView>, n: int, session: Seq<char>)
    requires
        0 <= n <= records.len(),
    ensures
        session_rows(records.take(n), session) == Seq::new(n as nat, |i: int| i).filter(
            |i: int|
                starts_with(records[i].client, "antigravity-cli"@) && records[i].session_id
                    == session,
        ),
    decreases n,
{
    let ours = |i: int|
        starts_with(records[i].client, "antigravity-cli"@) && records[i].session_id == session;
    if n == 0 {
        reveal(Seq::filter);
        assert(Seq::new(0, |i: int| i) =~= Seq::empty());
    } else {
        lemma_rows_until(records, n - 1, session);
        let before = Seq::new((n - 1) as nat, |i: int| i);
        assert(Seq::new(n as nat, |i: int| i) =~= before.push(n - 1));
        before.lemma_filter_push(n - 1, ours);
        assert(records.take(n).drop_last() =~= records.take(n - 1));
        assert(records.take(n).last() == records[n - 1]);
    }
}

/// A session of two records or more that all bear one moment is dated by its
/// turns: the record in a place takes the moment of the turn in that place, and
/// its date where one is known. Records beyond the last turn, and those of turns
/// without a moment, stay.
pub proof fn law_turns_date_their_records(
    records: Seq<RecordView>,
    conversation: Conversation,
    rows: Seq<int>,
    k: int,
)
    requires
        rows == session_rows(records, conversation.session@),
        rows.len() > 1,
        forall|j: int|
            0 <= j < rows.len() ==> records[#[trigger] rows[j]].timestamp
                == records[rows[0]].timestamp,
        0 <= k < rows.len(),
    ensures
        0 <= rows[k] < records.len(),
        k < conversation.turns@.len() && conversation.turns@[k].at is Some ==> dated_session(
            records,
            conversation,
        )[rows[k]].timestamp == conversation.turns@[k].at->0,
        k < conversation.turns@.len() && conversation.turns@[k].at is Some
            && conversation.turns@[k].date is Some ==> dated_session(
            records,
            conversation,
        )[rows[k]].date == conversation.turns@[k].date->0@,
        k >= conversation.turns@.len() || conversation.turns@[k].at is None ==> dated_session(
            records,
            conversation,
        )[rows[k]] == records[rows[k]],
{
    lemma_session_rows(records, conversation.session@);
    assert(rows.contains(rows[k]));
    let found = rows.index_of(rows[k]);
    assert(rows[found] == rows[k]);
    assert(found == k);
}

/// A session with one record, or whose records bear different moments, keeps
/// them.
pub proof fn law_dated_sessions_stay(
    records: Seq<RecordView>,
    conversation: Conversation,
    j: int,
)
    requires
        0 <= j < session_rows(records, conversation.session@).len(),
        session_rows(records, conversation.session@).len() == 1 || records[session_rows(
            records,
            conversation.session@,
        )[j]].timestamp != records[session_rows(records, conversation.session@)[0]].timestamp,
    ensures
        dated_session(records, conversation) == records,
{
}

/// The moment of a step is that of the last entry for it that tells one.
pub proof fn law_last_entry_dates_a_step(steps: Seq<Step>, number: int, i: int)
    requires
        0 <= i < steps.len(),
        steps[i].number == number,
        step_timestamp(fields(steps[i].metadata@)) is Some,
        forall|k: int|
            i < k < steps.len() ==> (#[trigger] steps[k]).number != number || step_timestamp(
                fields(steps[k].metadata@),
            ) is None,
    ensures
        step_time(steps, number) == step_timestamp(fields(steps[i].metadata@)),
    decreases steps.len(),
{
    if i < steps.len() - 1 {
        let rest = steps.drop_last();
        assert(steps[steps.len() - 1].number != number || step_timestamp(
            fields(steps[steps.len() - 1].metadata@),
        ) is None);
        assert forall|k: int| i < k < rest.len() implies (#[trigger] rest[k]).number != number
            || step_timestamp(fields(rest[k].metadata@)) is None by {
            assert(rest[k] == steps[k]);
        }
        law_last_entry_dates_a_step(rest, number, i);
    }
}

/// A turn has the moment of the first of its steps that has one.
pub proof fn law_first_step_dates_a_turn(steps: Seq<Step>, numbers: Seq<int>, i: int)
    requires
        0 <= i < numbers.len(),
        step_time(steps, numbers[i]) is Some,
        forall|k: int| 0 <= k < i ==> step_time(steps, #[trigger] numbers[k]) is None,
    ensures
        turn_time(steps, numbers) == step_time(steps, numbers[i]),
    decreases i,
{
    if i > 0 {
        let rest = numbers.drop_first();
        assert(step_time(steps, numbers[0]) is None);
        assert forall|k: int| 0 <= k < i - 1 implies step_time(steps, #[trigger] rest[k]) is None by {
            assert(rest[k] == numbers[k + 1]);
        }
        law_first_step_dates_a_turn(steps, rest, i - 1);
    }
}

/// One turn more adds its moment behind the others, unless a turn with the same
/// id was there already; what is no turn adds nothing.
pub proof fn law_repeated_turns_count_once(steps: Seq<Step>, blobs: Seq<Seq<u8>>, blob: Seq<u8>)
    ensures
        turn(blob) is None ==> turn_times(steps, blobs.push(blob)) == turn_times(steps, blobs),
        turn(blob) is Some && turn(blob)->0.id is None ==> turn_times(steps, blobs.push(blob))
            == turn_times(steps, blobs).push(turn_time(steps, turn(blob)->0.steps)),
        turn(blob) is Some && turn(blob)->0.id is Some ==> {
            let seen = exists|k: int|
                0 <= k < blobs.len() && turn(#[trigger] blobs[k]) is Some && turn(blobs[k])->0.id
                    == turn(blob)->0.id;
            turn_times(steps, blobs.push(blob)) == if seen {
                turn_times(steps, blobs)
            } else {
                turn_times(steps, blobs).push(turn_time(steps, turn(blob)->0.steps))
            }
        },
{
    assert(blobs.push(blob).drop_last() =~= blobs);
    lemma_turn_ids(blobs);
}

proof fn lemma_turn_ids(blobs: Seq<Seq<u8>>)
    ensures
        forall|id: Seq<char>| #[trigger]
            turn_ids(blobs).contains(id) <==> exists|k: int|
                0 <= k < blobs.len() && turn(#[trigger] blobs[k]) is Some && turn(blobs[k])->0.id
                    == Some(id),
    decreases blobs.len(),
{
    if blobs.len() > 0 {
        let rest = blobs.drop_last();
        lemma_turn_ids(rest);
        let before = turn_ids(rest);
        let out = turn_ids(blobs);
        assert forall|id: Seq<char>| #[trigger] out.contains(id) <==> exists|k: int|
            0 <= k < blobs.len() && turn(#[trigger] blobs[k]) is Some && turn(blobs[k])->0.id
                == Some(id) by {
            if out.contains(id) {
                let i = choose|i: int| 0 <= i < out.len() && out[i] == id;
                if i < before.len() {
                    assert(before.contains(id));
                    let k = choose|k: int|
                        0 <= k < rest.len() && turn(#[trigger] rest[k]) is Some && turn(
                            rest[k],
                        )->0.id == Some(id);
                    assert(blobs[k] == rest[k]);
                } else {
                    assert(turn(blobs[blobs.len() - 1])->0.id == Some(id));
                }
            }
            if exists|k: int|
                0 <= k < blobs.len() && turn(#[trigger] blobs[k]) is Some && turn(blobs[k])->0.id
                    == Some(id) {
                let k = choose|k: int|
                    0 <= k < blobs.len() && turn(#[trigger] blobs[k]) is Some && turn(
                        blobs[k],
                    )->0.id == Some(id);
                if k < rest.len() {
                    assert(rest[k] == blobs[k]);
                    assert(before.contains(id));
                    let i = choose|i: int| 0 <= i < before.len() && before[i] == id;
                    assert(out[i] == id);
                } else if before.contains(id) {
                    let i = choose|i: int| 0 <= i < before.len() && before[i] == id;
                    assert(out[i] == id);
                } else {
                    assert(out[out.len() - 1] == id);
                }
            }
        }
    }
}

/// The turns of a session are numbered in the order of its records: each record
/// without an account of its own that came before counts once.
pub proof fn law_turns_are_counted(records: Seq<RecordView>, until: int, session: Seq<char>)
    requires
        0 <= until <= records.len(),
    ensures
        turn_number_until(records, until, session) == records.take(until).filter(
            |record: RecordView| unnamed(record) && record.session_id == session,
        ).len(),
    decreases until,
{
    let counted = |record: RecordView| unnamed(record) && record.session_id == session;
    if until == 0 {
        assert(records.take(0) =~= Seq::empty());
        reveal(Seq::filter);
    } else {
        law_turns_are_counted(records, until - 1, session);
        assert(records.take(until) =~= records.take(until - 1).push(records[until - 1]));
        records.take(until - 1).lemma_filter_push(records[until - 1], counted);
    }
}

} // verus!
