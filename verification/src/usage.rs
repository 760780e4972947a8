//! Local usage records and what is made of them.

use vstd::prelude::*;

use crate::counts::{count_total, floor_at_zero, floored, sat_add, sat_sum};
use crate::json::{at_key, borrowed, either, first_of, get_in, said_at, str_at, Json};
use crate::moment::{parse_rfc3339, parse_rfc3339_date, rfc3339_date, rfc3339_ms};
use crate::text::{chars_of, comes_before, contains, ends_with, find_char, find_from, has_suffix};
use crate::text::{lemma_find_char, lower, maybe_str, maybe_text, precedes, same, slice_text, texts};
use crate::text::to_lower;

verus! {

pub const TOKSCALE_REVISION: &'static str = "029a1baf7b7e55dbca176f65b47e1537543f2857";

/// The tokens of one or more requests, by kind.
#[derive(Clone, Copy, Debug, PartialEq, Eq, Structural)]
pub struct UsageTokens {
    pub input: i64,
    pub output: i64,
    pub cache_read: i64,
    pub cache_write: i64,
    pub reasoning: i64,
}

impl Default for UsageTokens {
    fn default() -> (out: UsageTokens)
        ensures
            out == UsageTokens::none(),
    {
        UsageTokens { input: 0, output: 0, cache_read: 0, cache_write: 0, reasoning: 0 }
    }
}

impl UsageTokens {
    pub open spec fn none() -> UsageTokens {
        UsageTokens { input: 0, output: 0, cache_read: 0, cache_write: 0, reasoning: 0 }
    }

    /// The sum kind by kind, saturating.
    pub open spec fn plus(self, other: UsageTokens) -> UsageTokens {
        UsageTokens {
            input: sat_sum(self.input, other.input),
            output: sat_sum(self.output, other.output),
            cache_read: sat_sum(self.cache_read, other.cache_read),
            cache_write: sat_sum(self.cache_write, other.cache_write),
            reasoning: sat_sum(self.reasoning, other.reasoning),
        }
    }

    /// The tokens without those of reasoning, which some clients count as part
    /// of the output already.
    pub open spec fn reported(self) -> i64 {
        sat_sum(sat_sum(sat_sum(self.input, self.output), self.cache_read), self.cache_write)
    }

    pub fn add_assign(&mut self, other: &UsageTokens)
        ensures
            *final(self) == old(self).plus(*other),
    {
        self.input = sat_add(self.input, other.input);
        self.output = sat_add(self.output, other.output);
        self.cache_read = sat_add(self.cache_read, other.cache_read);
        self.cache_write = sat_add(self.cache_write, other.cache_write);
        self.reasoning = sat_add(self.reasoning, other.reasoning);
    }

    pub fn reported_total_without_reasoning(&self) -> (out: i64)
        ensures
            out == self.reported(),
    {
        sat_add(sat_add(sat_add(self.input, self.output), self.cache_read), self.cache_write)
    }
}

/// The reported total does not depend on the reasoning tokens.
pub proof fn law_reported_total_ignores_reasoning(tokens: UsageTokens, reasoning: i64)
    ensures
        (UsageTokens { reasoning, ..tokens }).reported() == tokens.reported(),
{
}

/// One request, or a few that a client counted together.
#[derive(Debug)]
pub struct UsageRecord {
    pub client: String,
    pub model_id: String,
    pub provider_id: String,
    pub session_id: String,
    pub date: String,
    pub timestamp: i64,
    pub tokens: UsageTokens,
    pub message_count: i32,
}

/// What a `UsageRecord` says.
pub struct RecordView {
    pub client: Seq<char>,
    pub model_id: Seq<char>,
    pub provider_id: Seq<char>,
    pub session_id: Seq<char>,
    pub date: Seq<char>,
    pub timestamp: i64,
    pub tokens: UsageTokens,
    pub message_count: i32,
}

impl View for UsageRecord {
    type V = RecordView;

    open spec fn view(&self) -> RecordView {
        RecordView {
            client: self.client@,
            model_id: self.model_id@,
            provider_id: self.provider_id@,
            session_id: self.session_id@,
            date: self.date@,
            timestamp: self.timestamp,
            tokens: self.tokens,
            message_count: self.message_count,
        }
    }
}

pub open spec fn record_views(records: Seq<UsageRecord>) -> Seq<RecordView> {
    records.map_values(|record: UsageRecord| record@)
}

impl Clone for UsageRecord {
    fn clone(&self) -> (out: UsageRecord)
        ensures
            out == *self,
    {
        UsageRecord {
            client: self.client.clone(),
            model_id: self.model_id.clone(),
            provider_id: self.provider_id.clone(),
            session_id: self.session_id.clone(),
            date: self.date.clone(),
            timestamp: self.timestamp,
            tokens: self.tokens,
            message_count: self.message_count,
        }
    }
}

/// All records of one reading of the local histories.
#[derive(Debug)]
pub struct UsageSnapshot {
    pub records: Vec<UsageRecord>,
    pub processing_time_ms: u32,
    pub tokscale_revision: String,
}

/// The sum over all records.
pub open spec fn tokens_of(records: Seq<RecordView>) -> UsageTokens
    decreases records.len(),
{
    if records.len() == 0 {
        UsageTokens::none()
    } else {
        tokens_of(records.drop_last()).plus(records.last().tokens)
    }
}

/// In ascending order, nothing twice.
pub open spec fn ascending(names: Seq<Seq<char>>) -> bool {
    forall|i: int, j: int|
        0 <= i < j < names.len() ==> precedes(#[trigger] names[i], #[trigger] names[j])
}

/// Puts a name into its place, unless it is there.
pub(crate) fn insert_name(names: &mut Vec<String>, name: &str)
    requires
        ascending(texts(old(names)@)),
    ensures
        ascending(texts(final(names)@)),
        forall|other: Seq<char>| #[trigger]
            texts(final(names)@).contains(other) <==> (other == name@ || texts(
                old(names)@,
            ).contains(other)),
{
    let ghost start = texts(names@);
    let mut at: usize = 0;
    while at < names.len() && comes_before(names[at].as_str(), name)
        invariant
            at <= names@.len(),
            start == texts(names@),
            forall|k: int| 0 <= k < at ==> precedes(#[trigger] start[k], name@),
        decreases names@.len() - at,
    {
        assert(start[at as int] == names@[at as int]@);
        at = at + 1;
    }
    if at < names.len() && same(names[at].as_str(), name) {
        proof {
            assert(start[at as int] == name@);
            assert(start.contains(name@));
        }
        return ;
    }
    let ghost before = names@;
    names.insert(at, name.to_owned());
    proof {
        let done = texts(names@);
        let at = at as int;
        assert(done =~= start.insert(at, name@));
        assert(at < start.len() ==> start[at] == before[at]@);
        assert forall|k: int| at <= k < start.len() implies precedes(name@, #[trigger] start[k]) by {
            crate::text::lemma_precedes_total(name@, start[at]);
            if k > at {
                assert(precedes(start[at], start[k]));
                crate::text::lemma_precedes_transitive(name@, start[at], start[k]);
            }
        }
        assert forall|i: int, j: int| 0 <= i < j < done.len() implies precedes(
            #[trigger] done[i],
            #[trigger] done[j],
        ) by {
            if i < at && j > at {
                assert(precedes(start[i], start[j - 1]));
            } else if i > at {
                assert(precedes(start[i - 1], start[j - 1]));
            } else if j < at {
                assert(precedes(start[i], start[j]));
            }
        }
        assert forall|other: Seq<char>| #[trigger] done.contains(other) <==> (other == name@
            || start.contains(other)) by {
            if done.contains(other) {
                let k = choose|k: int| 0 <= k < done.len() && done[k] == other;
                if k < at {
                    assert(start[k] == other);
                } else if k > at {
                    assert(start[k - 1] == other);
                }
            }
            if other == name@ {
                assert(done[at] == other);
            }
            if start.contains(other) {
                let k = choose|k: int| 0 <= k < start.len() && start[k] == other;
                if k < at {
                    assert(done[k] == other);
                } else {
                    assert(done[k + 1] == other);
                }
            }
        }
    }
}

impl UsageSnapshot {
    pub fn total_tokens(&self) -> (out: UsageTokens)
        ensures
            out == tokens_of(record_views(self.records@)),
    {
        let ghost views = record_views(self.records@);
        let mut total = UsageTokens::default();
        let mut i: usize = 0;
        while i < self.records.len()
            invariant
                i <= self.records@.len(),
                views == record_views(self.records@),
                total == tokens_of(views.take(i as int)),
            decreases self.records@.len() - i,
        {
            proof {
                assert(views.take(i + 1).drop_last() =~= views.take(i as int));
                assert(views.take(i + 1).last() == self.records@[i as int]@);
            }
            total.add_assign(&self.records[i].tokens);
            i = i + 1;
        }
        assert(views.take(i as int) =~= views);
        total
    }

    /// The clients that any record names, in order, each once.
    pub fn clients(&self) -> (out: Vec<String>)
        ensures
            ascending(texts(out@)),
            forall|name: Seq<char>| #[trigger]
                texts(out@).contains(name) <==> exists|i: int|
                    0 <= i < self.records@.len() && (#[trigger] self.records@[i]).client@ == name,
    {
        let mut out: Vec<String> = Vec::new();
        let mut i: usize = 0;
        while i < self.records.len()
            invariant
                i <= self.records@.len(),
                ascending(texts(out@)),
                forall|name: Seq<char>| #[trigger]
                    texts(out@).contains(name) <==> exists|k: int|
                        0 <= k < i && (#[trigger] self.records@[k]).client@ == name,
            decreases self.records@.len() - i,
        {
            let ghost before = texts(out@);
            insert_name(&mut out, self.records[i].client.as_str());
            proof {
                assert forall|name: Seq<char>| #[trigger] texts(out@).contains(name) <==> exists|k: int|
                    0 <= k < i + 1 && (#[trigger] self.records@[k]).client@ == name by {
                    if name == self.records@[i as int].client@ {
                        assert(self.records@[i as int].client@ == name);
                    }
                    assert(texts(out@).contains(name) <==> (name == self.records@[i as int].client@
                        || before.contains(name)));
                }
            }
            i = i + 1;
        }
        out
    }

    /// The models that any record names, in order, each once.
    pub fn models(&self) -> (out: Vec<String>)
        ensures
            ascending(texts(out@)),
            forall|name: Seq<char>| #[trigger]
                texts(out@).contains(name) <==> exists|i: int|
                    0 <= i < self.records@.len() && (#[trigger] self.records@[i]).model_id@ == name,
    {
        let mut out: Vec<String> = Vec::new();
        let mut i: usize = 0;
        while i < self.records.len()
            invariant
                i <= self.records@.len(),
                ascending(texts(out@)),
                forall|name: Seq<char>| #[trigger]
                    texts(out@).contains(name) <==> exists|k: int|
                        0 <= k < i && (#[trigger] self.records@[k]).model_id@ == name,
            decreases self.records@.len() - i,
        {
            let ghost before = texts(out@);
            insert_name(&mut out, self.records[i].model_id.as_str());
            proof {
                assert forall|name: Seq<char>| #[trigger] texts(out@).contains(name) <==> exists|k: int|
                    0 <= k < i + 1 && (#[trigger] self.records@[k]).model_id@ == name by {
                    if name == self.records@[i as int].model_id@ {
                        assert(self.records@[i as int].model_id@ == name);
                    }
                    assert(texts(out@).contains(name) <==> (name == self.records@[i as int].model_id@
                        || before.contains(name)));
                }
            }
            i = i + 1;
        }
        out
    }
}

/// What part of the local histories to read.
#[derive(Debug)]
pub struct UsageOptions {
    pub home_dir: Option<String>,
    pub clients: Option<Vec<String>>,
    pub since: Option<String>,
    pub until: Option<String>,
    pub year: Option<String>,
}

impl UsageOptions {
    /// The clients to read: those asked for, else all that the parsers know
    /// and the two that have histories of their own.
    pub fn requested_clients(self, parsers: Vec<String>) -> (out: Vec<String>)
        ensures
            match self.clients {
                Some(asked) => out@ == asked@,
                None => texts(out@) == texts(parsers@) + seq!["cursor"@, "synthetic"@],
            },
    {
        match self.clients {
            Some(asked) => asked,
            None => {
                let ghost start = parsers@;
                let mut out = parsers;
                out.push("cursor".to_owned());
                out.push("synthetic".to_owned());
                assert(texts(out@) =~= texts(start) + seq!["cursor"@, "synthetic"@]);
                out
            },
        }
    }
}

/// Token counts without negative ones.
pub open spec fn floored_tokens(tokens: UsageTokens) -> UsageTokens {
    UsageTokens {
        input: floored(tokens.input),
        output: floored(tokens.output),
        cache_read: floored(tokens.cache_read),
        cache_write: floored(tokens.cache_write),
        reasoning: floored(tokens.reasoning),
    }
}

/// A record without negative counts.
pub open spec fn cleaned(record: RecordView) -> RecordView {
    RecordView {
        tokens: floored_tokens(record.tokens),
        message_count: if record.message_count < 0 {
            0
        } else {
            record.message_count
        },
        ..record
    }
}

/// Takes a parsed message into the ledger.
pub fn clean_record(record: UsageRecord) -> (out: UsageRecord)
    ensures
        out@ == cleaned(record@),
{
    let tokens = UsageTokens {
        input: floor_at_zero(record.tokens.input),
        output: floor_at_zero(record.tokens.output),
        cache_read: floor_at_zero(record.tokens.cache_read),
        cache_write: floor_at_zero(record.tokens.cache_write),
        reasoning: floor_at_zero(record.tokens.reasoning),
    };
    let message_count: i32 = if record.message_count < 0 {
        0
    } else {
        record.message_count
    };
    UsageRecord { tokens, message_count, ..record }
}

/// A date that is known to be before the first one asked for.
pub open spec fn too_early(date: Seq<char>, since: Option<Seq<char>>) -> bool {
    since is Some && date.len() > 0 && precedes(date, since->0)
}

fn is_too_early(date: &str, since: Option<&str>) -> (yes: bool)
    ensures
        yes == too_early(date@, maybe_str(since)),
{
    match since {
        Some(since) => !date.is_empty() && comes_before(date, since),
        None => false,
    }
}

/// Cache files of the editor's usage export.
pub fn is_cursor_cache_file(name: &str) -> (yes: bool)
    ensures
        yes == ends_with(name@, ".csv"@),
{
    has_suffix(name, ".csv")
}

/// The cached records that are taken over: none where the parsers already
/// brought records of the same client.
pub open spec fn cursor_rows(cached: Seq<RecordView>, since: Option<Seq<char>>) -> Seq<RecordView>
    decreases cached.len(),
{
    if cached.len() == 0 {
        Seq::empty()
    } else {
        let before = cursor_rows(cached.drop_last(), since);
        if too_early(cached.last().date, since) {
            before
        } else {
            before.push(RecordView { client: "cursor"@, ..cleaned(cached.last()) })
        }
    }
}

fn has_client(records: &Vec<UsageRecord>, client: &str) -> (yes: bool)
    ensures
        yes == exists|i: int| 0 <= i < records@.len() && (#[trigger] records@[i]).client@ == client@,
{
    let mut i: usize = 0;
    while i < records.len()
        invariant
            i <= records@.len(),
            forall|k: int| 0 <= k < i ==> (#[trigger] records@[k]).client@ != client@,
        decreases records@.len() - i,
    {
        if same(records[i].client.as_str(), client) {
            return true;
        }
        i = i + 1;
    }
    false
}

pub fn collect_cursor_cache_records(
    records: &mut Vec<UsageRecord>,
    cached: Vec<UsageRecord>,
    since: Option<&str>,
)
    ensures
        record_views(final(records)@) == if exists|i: int|
            0 <= i < old(records)@.len() && (#[trigger] old(records)@[i]).client@ == "cursor"@ {
            record_views(old(records)@)
        } else {
            record_views(old(records)@) + cursor_rows(record_views(cached@), maybe_str(since))
        },
{
    if has_client(records, "cursor") {
        return ;
    }
    let ghost start = record_views(records@);
    let ghost views = record_views(cached@);
    assert(start =~= start + cursor_rows(views.take(0), maybe_str(since)));
    for record in it: cached
        invariant
            views == record_views(it.seq()),
            record_views(records@) == start + cursor_rows(
                views.take(it.index() as int),
                maybe_str(since),
            ),
    {
        let ghost n = it.index() as int;
        proof {
            assert(views.take(n + 1).drop_last() =~= views.take(n));
            assert(views.take(n + 1).last() == record@);
        }
        if !is_too_early(record.date.as_str(), since) {
            let ghost before = record_views(records@);
            let mut row = clean_record(record);
            row.client = "cursor".to_owned();
            records.push(row);
            proof {
                assert(record_views(records@) =~= before.push(row@));
                assert(record_views(records@) =~= start + cursor_rows(
                    views.take(n + 1),
                    maybe_str(since),
                ));
            }
        }
    }
    assert(views.take(views.len() as int) =~= views);
}

/// A text without the suffix, however often it is repeated at the end.
pub open spec fn without_suffix(text: Seq<char>, suffix: Seq<char>) -> Seq<char>
    decreases text.len(),
{
    if suffix.len() > 0 && ends_with(text, suffix) {
        without_suffix(text.take(text.len() - suffix.len()), suffix)
    } else {
        text
    }
}

fn strip_suffix_all(text: &str, suffix: &str) -> (out: String)
    ensures
        out@ == without_suffix(text@, suffix@),
{
    let chars = chars_of(text);
    let tail = chars_of(suffix);
    let mut end: usize = chars.len();
    assert(chars@.take(end as int) =~= text@);
    if tail.len() > 0 {
        while end >= tail.len() && crate::text::matches_at(
            vstd::slice::slice_subrange(chars.as_slice(), 0, end),
            &tail,
            end - tail.len(),
        )
            invariant
                end <= chars@.len(),
                tail@ == suffix@,
                tail@.len() > 0,
                without_suffix(text@, suffix@) == without_suffix(chars@.take(end as int), suffix@),
            decreases end,
        {
            proof {
                let now = chars@.take(end as int);
                assert(now =~= chars@.subrange(0, end as int));
                assert(now.take(now.len() - suffix@.len()) =~= chars@.take(end - tail@.len()));
            }
            end = end - tail.len();
        }
        proof {
            assert(chars@.take(end as int) =~= chars@.subrange(0, end as int));
        }
    }
    slice_text(&chars, 0, end)
}

/// The session that a history file of the command-line client holds.
pub open spec fn history_session(file_name: Seq<char>) -> Option<Seq<char>> {
    if ends_with(file_name, ".jsonl"@) && !ends_with(file_name, ".checkpoints.jsonl"@) {
        Some(without_suffix(file_name, ".jsonl"@))
    } else {
        None
    }
}

pub fn commandcode_session(file_name: &str) -> (out: Option<String>)
    ensures
        maybe_text(out) == history_session(file_name@),
{
    if has_suffix(file_name, ".jsonl") && !has_suffix(file_name, ".checkpoints.jsonl") {
        Some(strip_suffix_all(file_name, ".jsonl"))
    } else {
        None
    }
}

/// The provider and the model that a model name stands for: what is before
/// and after the first slash, else the client itself and the whole name.
pub open spec fn model_parts(name: Seq<char>) -> (Seq<char>, Seq<char>) {
    match find_from(name, seq!['/'], 0) {
        Some(at) => (lower(name.take(at)), name.skip(at + 1)),
        None => ("commandcode"@, name),
    }
}

fn split_model(name: &str) -> (out: (String, String))
    ensures
        (out.0@, out.1@) == model_parts(name@),
{
    let chars = chars_of(name);
    let total: usize = chars.len();
    match find_char(&chars, '/', 0) {
        Some(at) => {
            proof {
                lemma_find_char(name@, '/', Some(at as int));
                assert(name@.take(at as int) =~= chars@.subrange(0, at as int));
                assert(name@.skip(at + 1) =~= chars@.subrange(at + 1, chars@.len() as int));
            }
            let provider = slice_text(&chars, 0, at);
            (to_lower(provider.as_str()), slice_text(&chars, at + 1, total))
        },
        None => {
            proof {
                lemma_find_char(name@, '/', None);
            }
            ("commandcode".to_owned(), name.to_owned())
        },
    }
}

/// A token count of a usage object; a missing one is zero.
pub open spec fn count_at(usage: Option<Json>, key: Seq<char>) -> i64 {
    match at_key(usage, key) {
        Some(value) => match value.whole() {
            Some(count) => count,
            None => 0,
        },
        None => 0,
    }
}

fn read_count(usage: Option<&Json>, key: &str) -> (out: i64)
    ensures
        out == count_at(borrowed(usage), key@),
{
    match get_in(usage, key) {
        Some(value) => match value.as_i64() {
            Some(count) => count,
            None => 0,
        },
        None => 0,
    }
}

pub open spec fn says(value: Option<Json>, text: Seq<char>) -> bool {
    value is Some && value->0.said() == Some(text)
}

fn does_say(value: Option<&Json>, text: &str) -> (yes: bool)
    ensures
        yes == says(borrowed(value), text@),
{
    match value {
        Some(value) => match value.as_str() {
            Some(said) => same(said, text),
            None => false,
        },
        None => false,
    }
}

/// The moment that a line names.
pub open spec fn line_time(line: Json) -> i64 {
    match said_at(line, "timestamp"@) {
        Some(text) => match rfc3339_ms(text) {
            Some(ms) => ms,
            None => 0,
        },
        None => 0,
    }
}

/// The date that a line names.
pub open spec fn line_date(line: Json) -> Seq<char> {
    match said_at(line, "timestamp"@) {
        Some(text) => match rfc3339_date(text) {
            Some(date) => date,
            None => Seq::empty(),
        },
        None => Seq::empty(),
    }
}

/// The record of a history line: the answers of the assistant are records.
pub open spec fn line_record(line: Json, session: Seq<char>, since: Option<Seq<char>>) -> Option<
    RecordView,
> {
    let message = line.at("message"@);
    if !says(line.at("type"@), "message"@) || !says(at_key(message, "role"@), "assistant"@)
        || too_early(line_date(line), since) {
        None
    } else {
        let usage = either(line.at("usage"@), at_key(message, "usage"@));
        let model = either(line.at("model"@), at_key(message, "model"@));
        let name = match model {
            Some(value) => match value.said() {
                Some(text) => text,
                None => "unknown"@,
            },
            None => "unknown"@,
        };
        Some(
            RecordView {
                client: "commandcode"@,
                model_id: model_parts(name).1,
                provider_id: model_parts(name).0,
                session_id: session,
                date: line_date(line),
                timestamp: line_time(line),
                tokens: UsageTokens {
                    input: count_at(usage, "inputTokens"@),
                    output: count_at(usage, "outputTokens"@),
                    cache_read: count_at(usage, "cacheReadTokens"@),
                    cache_write: count_at(usage, "cacheWriteTokens"@),
                    reasoning: 0,
                },
                message_count: 1,
            },
        )
    }
}

pub fn commandcode_record(line: &Json, session: &str, since: Option<&str>) -> (out: Option<
    UsageRecord,
>)
    ensures
        match out {
            Some(record) => line_record(*line, session@, maybe_str(since)) == Some(record@),
            None => line_record(*line, session@, maybe_str(since)) is None,
        },
{
    let message = line.get("message");
    if !does_say(line.get("type"), "message") || !does_say(get_in(message, "role"), "assistant") {
        return None;
    }
    let usage = first_of(line.get("usage"), get_in(message, "usage"));
    let name = match first_of(line.get("model"), get_in(message, "model")) {
        Some(value) => match value.as_str() {
            Some(text) => text,
            None => "unknown",
        },
        None => "unknown",
    };
    let (provider_id, model_id) = split_model(name);
    let (timestamp, date) = match str_at(line, "timestamp") {
        Some(text) => {
            let timestamp: i64 = match parse_rfc3339(text) {
                Some(ms) => ms,
                None => 0,
            };
            let date = match parse_rfc3339_date(text) {
                Some(date) => date,
                None => String::new(),
            };
            (timestamp, date)
        },
        None => (0i64, String::new()),
    };
    if is_too_early(date.as_str(), since) {
        return None;
    }
    let tokens = UsageTokens {
        input: read_count(usage, "inputTokens"),
        output: read_count(usage, "outputTokens"),
        cache_read: read_count(usage, "cacheReadTokens"),
        cache_write: read_count(usage, "cacheWriteTokens"),
        reasoning: 0,
    };
    Some(
        UsageRecord {
            client: "commandcode".to_owned(),
            model_id,
            provider_id,
            session_id: session.to_owned(),
            date,
            timestamp,
            tokens,
            message_count: 1,
        },
    )
}

/// The records of a history file, in the order of its lines.
pub open spec fn session_records(
    lines: Seq<Json>,
    session: Seq<char>,
    since: Option<Seq<char>>,
) -> Seq<RecordView>
    decreases lines.len(),
{
    if lines.len() == 0 {
        Seq::empty()
    } else {
        let before = session_records(lines.drop_last(), session, since);
        match line_record(lines.last(), session, since) {
            Some(record) => before.push(record),
            None => before,
        }
    }
}

fn push_session(
    records: &mut Vec<UsageRecord>,
    lines: &Vec<Json>,
    session: &str,
    since: Option<&str>,
)
    ensures
        record_views(final(records)@) == record_views(old(records)@) + session_records(
            lines@,
            session@,
            maybe_str(since),
        ),
{
    let ghost start = record_views(records@);
    let mut i: usize = 0;
    assert(lines@.take(0) =~= Seq::<Json>::empty());
    assert(start =~= start + Seq::<RecordView>::empty());
    while i < lines.len()
        invariant
            i <= lines@.len(),
            record_views(records@) == start + session_records(
                lines@.take(i as int),
                session@,
                maybe_str(since),
            ),
        decreases lines@.len() - i,
    {
        proof {
            assert(lines@.take(i + 1).drop_last() =~= lines@.take(i as int));
            assert(lines@.take(i + 1).last() == lines@[i as int]);
        }
        let ghost before = record_views(records@);
        match commandcode_record(&lines[i], session, since) {
            Some(record) => {
                records.push(record);
                proof {
                    assert(record_views(records@) =~= before.push(record@));
                    assert(record_views(records@) =~= start + session_records(
                        lines@.take(i + 1),
                        session@,
                        maybe_str(since),
                    ));
                }
            },
            None => {},
        }
        i = i + 1;
    }
    assert(lines@.take(i as int) =~= lines@);
}

/// A session that the parsers already brought records of.
pub open spec fn session_known(records: Seq<RecordView>, session: Seq<char>) -> bool {
    exists|i: int|
        0 <= i < records.len() && (#[trigger] records[i]).client == "commandcode"@
            && records[i].session_id == session
}

fn is_session_known(records: &Vec<UsageRecord>, upto: usize, session: &str) -> (yes: bool)
    requires
        upto <= records@.len(),
    ensures
        yes == session_known(record_views(records@).take(upto as int), session@),
{
    let ghost views = record_views(records@).take(upto as int);
    let mut i: usize = 0;
    while i < upto
        invariant
            i <= upto <= records@.len(),
            views == record_views(records@).take(upto as int),
            forall|k: int|
                0 <= k < i ==> !((#[trigger] views[k]).client == "commandcode"@
                    && views[k].session_id == session@),
        decreases upto - i,
    {
        assert(views[i as int] == records@[i as int]@);
        if same(records[i].client.as_str(), "commandcode") && same(
            records[i].session_id.as_str(),
            session,
        ) {
            return true;
        }
        i = i + 1;
    }
    false
}

/// One history file: its name and the documents that its lines are.
#[derive(Debug)]
pub struct HistoryFile {
    pub name: String,
    pub lines: Vec<Json>,
}

/// The records that history files add to those the parsers brought.
pub open spec fn history_records(
    known: Seq<RecordView>,
    files: Seq<HistoryFile>,
    since: Option<Seq<char>>,
) -> Seq<RecordView>
    decreases files.len(),
{
    if files.len() == 0 {
        Seq::empty()
    } else {
        let before = history_records(known, files.drop_last(), since);
        match history_session(files.last().name@) {
            Some(session) => if session_known(known, session) {
                before
            } else {
                before + session_records(files.last().lines@, session, since)
            },
            None => before,
        }
    }
}

/// Adds what the history files hold of sessions that are not known yet.
pub fn collect_commandcode_v3_records(
    records: &mut Vec<UsageRecord>,
    files: &Vec<HistoryFile>,
    since: Option<&str>,
)
    ensures
        record_views(final(records)@) == record_views(old(records)@) + history_records(
            record_views(old(records)@),
            files@,
            maybe_str(since),
        ),
{
    let ghost start = record_views(records@);
    let known: usize = records.len();
    let mut i: usize = 0;
    assert(files@.take(0) =~= Seq::<HistoryFile>::empty());
    assert(start =~= start + Seq::<RecordView>::empty());
    while i < files.len()
        invariant
            i <= files@.len(),
            known == start.len(),
            record_views(records@) == start + history_records(
                start,
                files@.take(i as int),
                maybe_str(since),
            ),
        decreases files@.len() - i,
    {
        proof {
            assert(files@.take(i + 1).drop_last() =~= files@.take(i as int));
            assert(files@.take(i + 1).last() == files@[i as int]);
            assert(record_views(records@).len() == records@.len());
            assert(record_views(records@).take(known as int) =~= start);
        }
        match commandcode_session(files[i].name.as_str()) {
            Some(session) => {
                if !is_session_known(records, known, session.as_str()) {
                    let ghost before = record_views(records@);
                    push_session(records, &files[i].lines, session.as_str(), since);
                    proof {
                        assert(record_views(records@) =~= start + history_records(
                            start,
                            files@.take(i + 1),
                            maybe_str(since),
                        ));
                    }
                }
            },
            None => {},
        }
        i = i + 1;
    }
    assert(files@.take(i as int) =~= files@);
}

/// Records that the parsers brought stay, in their order, in front.
pub proof fn law_history_keeps_parsed_records(
    known: Seq<RecordView>,
    files: Seq<HistoryFile>,
    since: Option<Seq<char>>,
)
    ensures
        (known + history_records(known, files, since)).take(known.len() as int) == known,
{
    assert((known + history_records(known, files, since)).take(known.len() as int) =~= known);
}

/// The tokens of a run of records are the sums of each kind, from zero.
pub proof fn law_tokens_are_summed_by_kind(records: Seq<RecordView>)
    ensures
        tokens_of(records).input == count_total(
            records.map_values(|record: RecordView| record.tokens.input),
        ),
        tokens_of(records).output == count_total(
            records.map_values(|record: RecordView| record.tokens.output),
        ),
        tokens_of(records).cache_read == count_total(
            records.map_values(|record: RecordView| record.tokens.cache_read),
        ),
        tokens_of(records).cache_write == count_total(
            records.map_values(|record: RecordView| record.tokens.cache_write),
        ),
        tokens_of(records).reasoning == count_total(
            records.map_values(|record: RecordView| record.tokens.reasoning),
        ),
    decreases records.len(),
{
    if records.len() > 0 {
        let before = records.drop_last();
        law_tokens_are_summed_by_kind(before);
        let input = |record: RecordView| record.tokens.input;
        let output = |record: RecordView| record.tokens.output;
        let cache_read = |record: RecordView| record.tokens.cache_read;
        let cache_write = |record: RecordView| record.tokens.cache_write;
        let reasoning = |record: RecordView| record.tokens.reasoning;
        assert(records.map_values(input).drop_last() =~= before.map_values(input));
        assert(records.map_values(output).drop_last() =~= before.map_values(output));
        assert(records.map_values(cache_read).drop_last() =~= before.map_values(cache_read));
        assert(records.map_values(cache_write).drop_last() =~= before.map_values(cache_write));
        assert(records.map_values(reasoning).drop_last() =~= before.map_values(reasoning));
    }
}

/// The reported total is input, output and both kinds of cache together, where
/// the sum fits.
pub proof fn law_reported_total_is_the_sum(tokens: UsageTokens)
    requires
        tokens.input >= 0,
        tokens.output >= 0,
        tokens.cache_read >= 0,
        tokens.cache_write >= 0,
        tokens.input + tokens.output + tokens.cache_read + tokens.cache_write <= i64::MAX,
    ensures
        tokens.reported() == tokens.input + tokens.output + tokens.cache_read + tokens.cache_write,
{
}

/// Cleaning a record sets its negative counts to zero and leaves all else.
pub proof fn law_cleaning_lifts_negative_counts(record: RecordView)
    ensures
        ({
            let out = cleaned(record);
            &&& record.tokens.input < 0 ==> out.tokens.input == 0
            &&& record.tokens.input >= 0 ==> out.tokens.input == record.tokens.input
            &&& record.tokens.output < 0 ==> out.tokens.output == 0
            &&& record.tokens.output >= 0 ==> out.tokens.output == record.tokens.output
            &&& record.tokens.cache_read < 0 ==> out.tokens.cache_read == 0
            &&& record.tokens.cache_read >= 0 ==> out.tokens.cache_read == record.tokens.cache_read
            &&& record.tokens.cache_write < 0 ==> out.tokens.cache_write == 0
            &&& record.tokens.cache_write >= 0 ==> out.tokens.cache_write
                == record.tokens.cache_write
            &&& record.tokens.reasoning < 0 ==> out.tokens.reasoning == 0
            &&& record.tokens.reasoning >= 0 ==> out.tokens.reasoning == record.tokens.reasoning
            &&& record.message_count < 0 ==> out.message_count == 0
            &&& record.message_count >= 0 ==> out.message_count == record.message_count
            &&& out == (RecordView {
                tokens: out.tokens,
                message_count: out.message_count,
                ..record
            })
        }),
{
}

/// The cached rows are the records of Cursor from the first date on, in their
/// order: a record without a date counts, and so does one of that very date.
pub proof fn law_cursor_rows_start_at_the_first_date(
    cached: Seq<RecordView>,
    since: Option<Seq<char>>,
)
    ensures
        cursor_rows(cached, since) == cached.filter(
            |record: RecordView|
                since is None || record.date.len() == 0 || !precedes(record.date, since->0),
        ).map_values(|record: RecordView| RecordView { client: "cursor"@, ..cleaned(record) }),
    decreases cached.len(),
{
    let kept = |record: RecordView|
        since is None || record.date.len() == 0 || !precedes(record.date, since->0);
    let row = |record: RecordView| RecordView { client: "cursor"@, ..cleaned(record) };
    if cached.len() == 0 {
        reveal(Seq::filter);
        assert(cached.filter(kept).map_values(row) =~= Seq::empty());
    } else {
        let before = cached.drop_last();
        law_cursor_rows_start_at_the_first_date(before, since);
        assert(cached =~= before.push(cached.last()));
        before.lemma_filter_push(cached.last(), kept);
        assert(before.filter(kept).push(cached.last()).map_values(row) =~= before.filter(
            kept,
        ).map_values(row).push(row(cached.last())));
    }
}

/// A model's name is the provider up to the first slash, in small letters, and
/// the model behind it; without a slash it is a model of Command Code.
pub proof fn law_slash_parts_provider_and_model(name: Seq<char>, at: int)
    ensures
        0 <= at < name.len() && name[at] == '/' && (forall|k: int|
            0 <= k < at ==> #[trigger] name[k] != '/') ==> model_parts(name) == (
            lower(name.take(at)),
            name.skip(at + 1),
        ),
        !name.contains('/') ==> model_parts(name) == ("commandcode"@, name),
{
    if 0 <= at < name.len() && name[at] == '/' && (forall|k: int|
        0 <= k < at ==> #[trigger] name[k] != '/') {
        lemma_find_char(name, '/', Some(at));
    }
    if !name.contains('/') {
        assert forall|k: int| 0 <= k < name.len() implies name[k] != '/' by {
            assert(name.contains(name[k]));
        }
        lemma_find_char(name, '/', None);
    }
}

/// A line of a history that is an answer of the assistant gives a record with
/// the counts that its usage states; every other line gives none.
pub proof fn law_answers_give_records(
    line: Json,
    message: Json,
    usage: Json,
    session: Seq<char>,
    since: Option<Seq<char>>,
    input: Json,
    output: Json,
    read: Json,
    write: Json,
)
    requires
        line.at("message"@) == Some(message),
        line.at("usage"@) == Some(usage) || (line.at("usage"@) is None && message.at("usage"@)
            == Some(usage)),
        usage.at("inputTokens"@) == Some(input),
        usage.at("outputTokens"@) == Some(output),
        usage.at("cacheReadTokens"@) == Some(read),
        usage.at("cacheWriteTokens"@) == Some(write),
        input.whole() is Some && output.whole() is Some && read.whole() is Some
            && write.whole() is Some,
    ensures
        line_record(line, session, since) is Some <==> {
            &&& line.at("type"@) is Some
            &&& line.at("type"@)->0.said() == Some("message"@)
            &&& message.at("role"@) is Some
            &&& message.at("role"@)->0.said() == Some("assistant"@)
            &&& since is None || line_date(line).len() == 0 || !precedes(line_date(line), since->0)
        },
        line_record(line, session, since) matches Some(record) ==> {
            &&& record.client == "commandcode"@
            &&& record.session_id == session
            &&& record.tokens.input == input.whole()->0
            &&& record.tokens.output == output.whole()->0
            &&& record.tokens.cache_read == read.whole()->0
            &&& record.tokens.cache_write == write.whole()->0
            &&& record.tokens.reasoning == 0
            &&& record.message_count == 1
            &&& record.timestamp == line_time(line)
            &&& record.date == line_date(line)
        },
{
}

/// The records of a session are those of all its lines that give one, in their
/// order.
pub proof fn law_session_records_are_those_of_its_lines(
    lines: Seq<Json>,
    session: Seq<char>,
    since: Option<Seq<char>>,
)
    ensures
        session_records(lines, session, since) == lines.filter(
            |line: Json| line_record(line, session, since) is Some,
        ).map_values(|line: Json| line_record(line, session, since)->0),
    decreases lines.len(),
{
    let told = |line: Json| line_record(line, session, since) is Some;
    let record = |line: Json| line_record(line, session, since)->0;
    if lines.len() == 0 {
        reveal(Seq::filter);
        assert(lines.filter(told).map_values(record) =~= Seq::empty());
    } else {
        let before = lines.drop_last();
        law_session_records_are_those_of_its_lines(before, session, since);
        assert(lines =~= before.push(lines.last()));
        before.lemma_filter_push(lines.last(), told);
        assert(before.filter(told).push(lines.last()).map_values(record) =~= before.filter(
            told,
        ).map_values(record).push(record(lines.last())));
    }
}

/// A history file adds the records of its session where none of these is known
/// yet, and nothing where the session is known or the file is no history.
pub proof fn law_known_sessions_add_nothing(
    known: Seq<RecordView>,
    files: Seq<HistoryFile>,
    file: HistoryFile,
    since: Option<Seq<char>>,
)
    ensures
        history_session(file.name@) is None ==> history_records(known, files.push(file), since)
            == history_records(known, files, since),
        history_session(file.name@) matches Some(session) ==> {
            let seen = exists|i: int|
                0 <= i < known.len() && (#[trigger] known[i]).client == "commandcode"@
                    && known[i].session_id == session;
            history_records(known, files.push(file), since) == if seen {
                history_records(known, files, since)
            } else {
                history_records(known, files, since) + session_records(
                    file.lines@,
                    session,
                    since,
                )
            }
        },
{
    assert(files.push(file).drop_last() =~= files);
}

/// A history is a file in lines of JSON that holds no checkpoints, named after
/// its session.
pub proof fn law_histories_are_named_after_their_session(session: Seq<char>)
    requires
        !ends_with(session, ".checkpoints"@),
        !ends_with(session, ".jsonl"@),
    ensures
        history_session(session + ".jsonl"@) == Some(session),
{
    reveal_strlit(".jsonl");
    reveal_strlit(".checkpoints");
    reveal_strlit(".checkpoints.jsonl");
    let name = session + ".jsonl"@;
    assert(".jsonl"@.len() == 6);
    reveal_with_fuel(without_suffix, 3);
    assert(name.subrange(name.len() - 6, name.len() as int) =~= ".jsonl"@);
    assert(name.take(name.len() - 6) =~= session);
    if ends_with(name, ".checkpoints.jsonl"@) {
        assert(".checkpoints.jsonl"@.len() == 18);
        assert(session.subrange(session.len() - 12, session.len() as int) =~= ".checkpoints"@) by {
            assert forall|i: int| 0 <= i < 12 implies session[session.len() - 12 + i]
                == ".checkpoints"@[i] by {
                assert(name[name.len() - 18 + i] == ".checkpoints.jsonl"@[i]);
            }
        }
    }
}

} // verus!
