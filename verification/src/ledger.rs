//! The ledger: usage records summed by client, by model and by time window.

use vstd::prelude::*;

use crate::arithmetic::{amount_total, positive_total};
use crate::counts::{clamped, count_total, count_up, sat_add, sat_sum};
use crate::labels::{capitalize, capitalized, client_name, hue_of, name_hue, normalize_client_id};
use crate::numerals::{dollar_text, dollars};
use crate::pricing::{PriceQuote, PricingEngine, PricingStatus, QuoteView};
use crate::quantity::{Quantity, ZERO};
use crate::registry::{display_name, is_known, known, shown_name};
use crate::report::ConsumptionReport;
use crate::sort::{first_where, lemma_is_first_where, lemma_sorted_contains, lemma_sorted_in_order};
use crate::sort::{lemma_sorted_keeps_items, lemma_sorted_map, lemma_sorted_same, orders, sort_by};
use crate::sort::sorted;
use crate::text::{chars_of, contains, has_text, join, join_texts, lower, same, texts, to_lower};
use crate::text::{trim, trimmed, two};
use crate::usage::{RecordView, UsageRecord, UsageTokens};

verus! {

/// The span of time that the ledger looks at.
#[derive(Clone, Copy, Debug, PartialEq, Eq, Structural)]
pub enum LedgerWindow {
    AllTime,
    Today,
    Last24h,
    Last7d,
    Last30d,
}

impl LedgerWindow {
    pub open spec fn name(self) -> Seq<char> {
        match self {
            LedgerWindow::Today => "Today"@,
            LedgerWindow::Last24h => "Last 24h"@,
            LedgerWindow::Last7d => "Last 7d"@,
            LedgerWindow::Last30d => "Last 30d"@,
            LedgerWindow::AllTime => "All Time"@,
        }
    }

    pub fn label(&self) -> (out: &'static str)
        ensures
            out@ == self.name(),
    {
        match self {
            LedgerWindow::Today => "Today",
            LedgerWindow::Last24h => "Last 24h",
            LedgerWindow::Last7d => "Last 7d",
            LedgerWindow::Last30d => "Last 30d",
            LedgerWindow::AllTime => "All Time",
        }
    }

    /// The window that follows, the first again after the last.
    pub open spec fn following(self) -> LedgerWindow {
        match self {
            LedgerWindow::AllTime => LedgerWindow::Today,
            LedgerWindow::Today => LedgerWindow::Last24h,
            LedgerWindow::Last24h => LedgerWindow::Last7d,
            LedgerWindow::Last7d => LedgerWindow::Last30d,
            LedgerWindow::Last30d => LedgerWindow::AllTime,
        }
    }

    pub fn next(&self) -> (out: LedgerWindow)
        ensures
            out == self.following(),
    {
        match self {
            LedgerWindow::AllTime => LedgerWindow::Today,
            LedgerWindow::Today => LedgerWindow::Last24h,
            LedgerWindow::Last24h => LedgerWindow::Last7d,
            LedgerWindow::Last7d => LedgerWindow::Last30d,
            LedgerWindow::Last30d => LedgerWindow::AllTime,
        }
    }

    /// The place of a window, from the shortest to the longest.
    pub open spec fn place(self) -> int {
        match self {
            LedgerWindow::Today => 0,
            LedgerWindow::Last24h => 1,
            LedgerWindow::Last7d => 2,
            LedgerWindow::Last30d => 3,
            LedgerWindow::AllTime => 4,
        }
    }

    pub fn index(&self) -> (out: usize)
        ensures
            out == self.place(),
            out < 5,
    {
        match self {
            LedgerWindow::Today => 0,
            LedgerWindow::Last24h => 1,
            LedgerWindow::Last7d => 2,
            LedgerWindow::Last30d => 3,
            LedgerWindow::AllTime => 4,
        }
    }

    /// The window at a place; the longest behind the last place.
    pub open spec fn at(place: int) -> LedgerWindow {
        if place <= 0 {
            LedgerWindow::Today
        } else if place == 1 {
            LedgerWindow::Last24h
        } else if place == 2 {
            LedgerWindow::Last7d
        } else if place == 3 {
            LedgerWindow::Last30d
        } else {
            LedgerWindow::AllTime
        }
    }

    pub fn at_index(place: usize) -> (out: LedgerWindow)
        ensures
            out == LedgerWindow::at(place as int),
    {
        if place == 0 {
            LedgerWindow::Today
        } else if place == 1 {
            LedgerWindow::Last24h
        } else if place == 2 {
            LedgerWindow::Last7d
        } else if place == 3 {
            LedgerWindow::Last30d
        } else {
            LedgerWindow::AllTime
        }
    }

    /// The next shorter window; the shortest stays.
    pub fn shorter(&self) -> (out: LedgerWindow)
        ensures
            out == LedgerWindow::at(self.place() - 1),
    {
        let place: usize = self.index();
        if place == 0 {
            LedgerWindow::Today
        } else {
            LedgerWindow::at_index(place - 1)
        }
    }

    /// The next longer window; the longest stays.
    pub fn longer(&self) -> (out: LedgerWindow)
        ensures
            out == LedgerWindow::at(self.place() + 1),
    {
        LedgerWindow::at_index(self.index() + 1)
    }
}

/// Going through the windows comes back to the first after five steps.
pub proof fn law_windows_go_round(window: LedgerWindow)
    ensures
        window.following().following().following().following().following() == window,
{
}

/// Going to a longer window and back changes nothing, but at the longest.
pub proof fn law_longer_then_shorter(window: LedgerWindow)
    requires
        !(window is AllTime),
    ensures
        LedgerWindow::at(LedgerWindow::at(window.place() + 1).place() - 1) == window,
{
}

/// What the rows of the ledger are ranked by.
#[derive(Clone, Copy, Debug, PartialEq, Eq, Structural)]
pub enum ConsumptionMetric {
    Tokens,
    ApiEquivalent,
}

/// The present moment: in milliseconds since 1970, the local date, and the
/// moment at which the local day began (zero where that is not known).
#[derive(Debug)]
pub struct Clock {
    pub now_ms: i64,
    pub today: String,
    pub today_start_ms: i64,
}

/// A moment some days before now; the first moment there is where that lies
/// before it.
pub open spec fn days_before(now_ms: i64, days: int) -> int {
    if now_ms - days * 86_400_000 < i64::MIN {
        i64::MIN as int
    } else {
        now_ms - days * 86_400_000
    }
}

fn moment_before(now_ms: i64, days: i64) -> (out: i64)
    requires
        0 <= days <= 30,
    ensures
        out == days_before(now_ms, days as int),
{
    let wanted: i128 = now_ms as i128 - days as i128 * 86_400_000;
    if wanted < i64::MIN as i128 {
        i64::MIN
    } else {
        wanted as i64
    }
}

/// A record lies within a window.
pub open spec fn within(record: RecordView, window: LedgerWindow, clock: Clock) -> bool {
    match window {
        LedgerWindow::AllTime => true,
        LedgerWindow::Today => record.date == clock.today@ || (clock.today_start_ms > 0
            && record.timestamp >= clock.today_start_ms),
        LedgerWindow::Last24h => record.timestamp >= days_before(clock.now_ms, 1),
        LedgerWindow::Last7d => record.timestamp >= days_before(clock.now_ms, 7),
        LedgerWindow::Last30d => record.timestamp >= days_before(clock.now_ms, 30),
    }
}

pub fn record_in_window(record: &UsageRecord, window: LedgerWindow, clock: &Clock) -> (yes: bool)
    ensures
        yes == within(record@, window, *clock),
{
    match window {
        LedgerWindow::AllTime => true,
        LedgerWindow::Today => same(record.date.as_str(), clock.today.as_str()) || (
        clock.today_start_ms > 0 && record.timestamp >= clock.today_start_ms),
        LedgerWindow::Last24h => record.timestamp >= moment_before(clock.now_ms, 1),
        LedgerWindow::Last7d => record.timestamp >= moment_before(clock.now_ms, 7),
        LedgerWindow::Last30d => record.timestamp >= moment_before(clock.now_ms, 30),
    }
}

/// A record of the last day lies within the last week, one of the last week
/// within the last month, and every record within all time.
pub proof fn law_windows_are_nested(record: RecordView, clock: Clock)
    ensures
        within(record, LedgerWindow::Last24h, clock) ==> within(
            record,
            LedgerWindow::Last7d,
            clock,
        ),
        within(record, LedgerWindow::Last7d, clock) ==> within(
            record,
            LedgerWindow::Last30d,
            clock,
        ),
        within(record, LedgerWindow::AllTime, clock),
{
}

/// The quote that a report holds for a record.
pub open spec fn kept_quote(report: ConsumptionReport, i: int) -> Option<QuoteView> {
    match report.quotes {
        Some(quotes) => if 0 <= i < quotes@.len() {
            Some(quotes@[i]@)
        } else {
            None
        },
        None => None,
    }
}

pub open spec fn record_at(report: ConsumptionReport, i: int) -> RecordView {
    report.snapshot.records@[i]@
}

/// The amount of a record where the report and the price sheets state one.
pub open spec fn amount_or_zero(value: Option<Quantity>) -> Quantity {
    match value {
        Some(value) => value,
        None => Quantity { bits: ZERO },
    }
}

/// The quote of a record: the one that the report holds, or a new one.
pub open spec fn quote_at(report: ConsumptionReport, pricing: PricingEngine, i: int) -> QuoteView {
    match kept_quote(report, i) {
        Some(quote) => quote,
        None => pricing.quoted(record_at(report, i)),
    }
}

/// What a record would have cost: as its kept quote states it, else as a new
/// quote does.
pub open spec fn value_at(report: ConsumptionReport, pricing: PricingEngine, i: int) -> Quantity {
    match kept_quote(report, i) {
        Some(quote) => match quote.value_usd {
            Some(value) => value,
            None => amount_or_zero(pricing.quoted(record_at(report, i)).value_usd),
        },
        None => amount_or_zero(pricing.quoted(record_at(report, i)).value_usd),
    }
}

fn find_quote<'a>(report: &'a ConsumptionReport, i: usize) -> (out: Option<&'a PriceQuote>)
    ensures
        match out {
            Some(quote) => kept_quote(*report, i as int) == Some(quote@),
            None => kept_quote(*report, i as int) is None,
        },
{
    match &report.quotes {
        Some(quotes) => if i < quotes.len() {
            Some(&quotes[i])
        } else {
            None
        },
        None => None,
    }
}

fn new_value(report: &ConsumptionReport, pricing: &PricingEngine, i: usize) -> (out: Quantity)
    requires
        i < report.snapshot.records@.len(),
    ensures
        out == amount_or_zero(pricing.quoted(record_at(*report, i as int)).value_usd),
{
    match pricing.quote(&report.snapshot.records[i]).value_usd {
        Some(value) => value,
        None => Quantity { bits: ZERO },
    }
}

pub(crate) fn record_value(report: &ConsumptionReport, pricing: &PricingEngine, i: usize) -> (out: Quantity)
    requires
        i < report.snapshot.records@.len(),
    ensures
        out == value_at(*report, *pricing, i as int),
{
    match find_quote(report, i) {
        Some(quote) => match quote.value_usd {
            Some(value) => value,
            None => new_value(report, pricing, i),
        },
        None => new_value(report, pricing, i),
    }
}

/// One more, up to the largest count that a machine word holds.
pub open spec fn one_more(count: usize) -> usize {
    if count < usize::MAX {
        (count + 1) as usize
    } else {
        usize::MAX
    }
}

/// What the records of one client come to.
#[derive(Debug)]
pub struct ConsumptionRow {
    pub client: String,
    pub provider: String,
    pub records: usize,
    pub tokens: UsageTokens,
    pub api_value_usd: Quantity,
    pub api_rows: usize,
    pub priced_tokens: i64,
    pub unpriced_tokens: i64,
    pub partial_rows: usize,
    pub unknown_rows: usize,
}

/// What a `ConsumptionRow` says.
pub struct ClientView {
    pub client: Seq<char>,
    pub provider: Seq<char>,
    pub records: usize,
    pub tokens: UsageTokens,
    pub api_value_usd: Quantity,
    pub api_rows: usize,
    pub priced_tokens: i64,
    pub unpriced_tokens: i64,
    pub partial_rows: usize,
    pub unknown_rows: usize,
}

impl View for ConsumptionRow {
    type V = ClientView;

    open spec fn view(&self) -> ClientView {
        ClientView {
            client: self.client@,
            provider: self.provider@,
            records: self.records,
            tokens: self.tokens,
            api_value_usd: self.api_value_usd,
            api_rows: self.api_rows,
            priced_tokens: self.priced_tokens,
            unpriced_tokens: self.unpriced_tokens,
            partial_rows: self.partial_rows,
            unknown_rows: self.unknown_rows,
        }
    }
}

impl Clone for ConsumptionRow {
    fn clone(&self) -> (out: ConsumptionRow)
        ensures
            out@ == self@,
    {
        ConsumptionRow {
            client: self.client.clone(),
            provider: self.provider.clone(),
            records: self.records,
            tokens: self.tokens,
            api_value_usd: self.api_value_usd,
            api_rows: self.api_rows,
            priced_tokens: self.priced_tokens,
            unpriced_tokens: self.unpriced_tokens,
            partial_rows: self.partial_rows,
            unknown_rows: self.unknown_rows,
        }
    }
}

pub open spec fn client_views(rows: Seq<ConsumptionRow>) -> Seq<ClientView> {
    rows.map_values(|row: ConsumptionRow| row@)
}

impl ClientView {
    /// The row of a client without records.
    pub open spec fn none(client: Seq<char>, provider: Seq<char>) -> ClientView {
        ClientView {
            client,
            provider,
            records: 0,
            tokens: UsageTokens::none(),
            api_value_usd: Quantity { bits: ZERO },
            api_rows: 0,
            priced_tokens: 0,
            unpriced_tokens: 0,
            partial_rows: 0,
            unknown_rows: 0,
        }
    }

    /// The row with one record more.
    pub open spec fn with(self, tokens: UsageTokens, value: Quantity, quote: QuoteView) -> ClientView {
        let valued = (Quantity { bits: ZERO }).below(value);
        ClientView {
            records: one_more(self.records),
            tokens: self.tokens.plus(tokens),
            api_value_usd: if valued {
                self.api_value_usd.sum(value)
            } else {
                self.api_value_usd
            },
            api_rows: if valued {
                one_more(self.api_rows)
            } else {
                self.api_rows
            },
            priced_tokens: sat_sum(self.priced_tokens, quote.priced_tokens),
            unpriced_tokens: sat_sum(self.unpriced_tokens, quote.unpriced_tokens),
            partial_rows: if quote.status is Partial {
                one_more(self.partial_rows)
            } else {
                self.partial_rows
            },
            unknown_rows: if quote.status is Unknown {
                one_more(self.unknown_rows)
            } else {
                self.unknown_rows
            },
            ..self
        }
    }

    /// What the client would have paid, marked where a part of it is unknown.
    pub open spec fn api(self) -> Seq<char> {
        if self.api_rows == 0 {
            "—"@
        } else if self.partial_rows > 0 || self.unknown_rows > 0 || self.unpriced_tokens > 0 {
            dollars(self.api_value_usd, 2) + "~"@
        } else {
            dollars(self.api_value_usd, 2)
        }
    }
}

impl ConsumptionRow {
    pub fn new(client: &str, provider: &str) -> (out: ConsumptionRow)
        ensures
            out@ == ClientView::none(client@, provider@),
    {
        ConsumptionRow {
            client: client.to_owned(),
            provider: provider.to_owned(),
            records: 0,
            tokens: UsageTokens::default(),
            api_value_usd: Quantity { bits: ZERO },
            api_rows: 0,
            priced_tokens: 0,
            unpriced_tokens: 0,
            partial_rows: 0,
            unknown_rows: 0,
        }
    }

    fn count(&mut self, tokens: &UsageTokens, value: Quantity, quote: &PriceQuote)
        ensures
            final(self)@ == old(self)@.with(*tokens, value, quote@),
    {
        self.records = count_up(self.records);
        self.tokens.add_assign(tokens);
        if (Quantity { bits: ZERO }).is_below(value) {
            self.api_value_usd = self.api_value_usd.plus(value);
            self.api_rows = count_up(self.api_rows);
        }
        self.priced_tokens = sat_add(self.priced_tokens, quote.priced_tokens);
        self.unpriced_tokens = sat_add(self.unpriced_tokens, quote.unpriced_tokens);
        match quote.status {
            PricingStatus::Exact => {},
            PricingStatus::Partial => {
                self.partial_rows = count_up(self.partial_rows);
            },
            PricingStatus::Unknown => {
                self.unknown_rows = count_up(self.unknown_rows);
            },
        }
    }

    pub fn token_total(&self) -> (out: i64)
        ensures
            out == self@.tokens.reported(),
    {
        self.tokens.reported_total_without_reasoning()
    }

    pub fn api_text(&self) -> (out: String)
        ensures
            out@ == self@.api(),
    {
        if self.api_rows == 0 {
            return "—".to_owned();
        }
        let amount = dollar_text(self.api_value_usd, 2);
        if self.partial_rows > 0 || self.unknown_rows > 0 || self.unpriced_tokens > 0 {
            two(amount.as_str(), "~")
        } else {
            amount
        }
    }
}

/// The rows with a record of a client added to its row, or to a new one
/// behind the others.
pub open spec fn with_client(
    rows: Seq<ClientView>,
    client: Seq<char>,
    provider: Seq<char>,
    tokens: UsageTokens,
    value: Quantity,
    quote: QuoteView,
) -> Seq<ClientView> {
    match first_where(rows, |row: ClientView| row.client == client, 0) {
        Some(at) => rows.update(at, rows[at].with(tokens, value, quote)),
        None => rows.push(ClientView::none(client, provider).with(tokens, value, quote)),
    }
}

/// What a search looks for.
pub open spec fn query_of(text: Seq<char>) -> Seq<char> {
    lower(trim(text))
}

/// A record that a search of the clients finds.
pub open spec fn client_found(record: RecordView, query: Seq<char>) -> bool {
    ||| query.len() == 0
    ||| contains(lower(client_name(record.client)), query)
    ||| contains(lower(record.model_id), query)
    ||| contains(lower(record.provider_id), query)
}

/// What the ledger looks at.
pub struct Scope {
    pub window: LedgerWindow,
    pub query: Seq<char>,
    pub clock: Clock,
}

/// The rows by client over the first `n` records, in the order in which the
/// clients first occur.
pub open spec fn clients_over(
    report: ConsumptionReport,
    pricing: PricingEngine,
    scope: Scope,
    n: int,
) -> Seq<ClientView>
    decreases n,
{
    if n <= 0 {
        Seq::empty()
    } else {
        let before = clients_over(report, pricing, scope, n - 1);
        let record = record_at(report, n - 1);
        if within(record, scope.window, scope.clock) && client_found(record, scope.query) {
            with_client(
                before,
                client_name(record.client),
                record.provider_id,
                record.tokens,
                value_at(report, pricing, n - 1),
                quote_at(report, pricing, n - 1),
            )
        } else {
            before
        }
    }
}

/// The order of the rows: the largest first.
pub open spec fn client_ranks(a: ClientView, b: ClientView, metric: ConsumptionMetric) -> bool {
    match metric {
        ConsumptionMetric::Tokens => a.tokens.reported() > b.tokens.reported(),
        ConsumptionMetric::ApiEquivalent => b.api_value_usd.below(a.api_value_usd),
    }
}

pub open spec fn clients_ranked(rows: Seq<ClientView>, metric: ConsumptionMetric) -> Seq<ClientView> {
    sorted(rows, |a: ClientView, b: ClientView| client_ranks(a, b, metric))
}

pub fn rank_clients(rows: &mut Vec<ConsumptionRow>, metric: ConsumptionMetric)
    ensures
        client_views(final(rows)@) == clients_ranked(client_views(old(rows)@), metric),
{
    let ghost start = rows@;
    let ghost before = |a: ConsumptionRow, b: ConsumptionRow| client_ranks(a@, b@, metric);
    let less = |a: &ConsumptionRow, b: &ConsumptionRow| -> (yes: bool)
        ensures
            yes == client_ranks(a@, b@, metric),
        {
            match metric {
                ConsumptionMetric::Tokens => a.token_total() > b.token_total(),
                ConsumptionMetric::ApiEquivalent => b.api_value_usd.is_below(a.api_value_usd),
            }
        };
    sort_by(rows, less, Ghost(before));
    proof {
        lemma_sorted_map(
            start,
            before,
            |row: ConsumptionRow| row@,
            |a: ClientView, b: ClientView| client_ranks(a, b, metric),
        );
    }
}

fn find_client(rows: &Vec<ConsumptionRow>, client: &str) -> (out: Option<usize>)
    ensures
        first_where(client_views(rows@), |row: ClientView| row.client == client@, 0) == match out {
            Some(at) => Some(at as int),
            None => None,
        },
        out matches Some(at) ==> at < rows@.len(),
{
    let ghost views = client_views(rows@);
    let ghost wanted = |row: ClientView| row.client == client@;
    let mut i: usize = 0;
    while i < rows.len()
        invariant
            i <= rows@.len(),
            views == client_views(rows@),
            wanted == |row: ClientView| row.client == client@,
            forall|k: int| 0 <= k < i ==> !wanted(#[trigger] views[k]),
        decreases rows@.len() - i,
    {
        assert(views[i as int] == rows@[i as int]@);
        if same(rows[i].client.as_str(), client) {
            proof {
                lemma_is_first_where(views, wanted, Some(i as int));
            }
            return Some(i);
        }
        i = i + 1;
    }
    proof {
        lemma_is_first_where(views, wanted, None);
    }
    None
}

fn add_client(
    rows: &mut Vec<ConsumptionRow>,
    client: &str,
    provider: &str,
    tokens: &UsageTokens,
    value: Quantity,
    quote: &PriceQuote,
)
    ensures
        client_views(final(rows)@) == with_client(
            client_views(old(rows)@),
            client@,
            provider@,
            *tokens,
            value,
            quote@,
        ),
{
    let ghost before = client_views(rows@);
    match find_client(rows, client) {
        Some(at) => {
            let mut row = rows[at].clone();
            row.count(tokens, value, quote);
            rows.set(at, row);
            assert(client_views(rows@) =~= before.update(at as int, row@));
        },
        None => {
            let mut row = ConsumptionRow::new(client, provider);
            row.count(tokens, value, quote);
            rows.push(row);
            assert(client_views(rows@) =~= before.push(row@));
        },
    }
}

fn finds_client(record: &UsageRecord, query: &str) -> (yes: bool)
    ensures
        yes == client_found(record@, query@),
{
    chars_of(query).len() == 0 || has_text(
        to_lower(normalize_client_id(record.client.as_str()).as_str()).as_str(),
        query,
    ) || has_text(to_lower(record.model_id.as_str()).as_str(), query) || has_text(
        to_lower(record.provider_id.as_str()).as_str(),
        query,
    )
}

/// The rows of a report by client, ranked.
pub open spec fn client_rows(
    report: ConsumptionReport,
    pricing: PricingEngine,
    metric: ConsumptionMetric,
    scope: Scope,
) -> Seq<ClientView> {
    clients_ranked(
        clients_over(report, pricing, scope, report.snapshot.records@.len() as int),
        metric,
    )
}

pub fn consumption_rows(
    report: &ConsumptionReport,
    pricing: &PricingEngine,
    metric: ConsumptionMetric,
    window: LedgerWindow,
    query: &str,
    clock: &Clock,
) -> (out: Vec<ConsumptionRow>)
    ensures
        client_views(out@) == client_rows(
            *report,
            *pricing,
            metric,
            (Scope { window, query: query_of(query@), clock: *clock }),
        ),
{
    let wanted = to_lower(trimmed(query).as_str());
    let ghost scope = Scope { window, query: query_of(query@), clock: *clock };
    let mut rows: Vec<ConsumptionRow> = Vec::new();
    let mut i: usize = 0;
    assert(client_views(rows@) =~= Seq::<ClientView>::empty());
    while i < report.snapshot.records.len()
        invariant
            i <= report.snapshot.records@.len(),
            wanted@ == query_of(query@),
            scope == (Scope { window, query: query_of(query@), clock: *clock }),
            client_views(rows@) == clients_over(*report, *pricing, scope, i as int),
        decreases report.snapshot.records@.len() - i,
    {
        let record = &report.snapshot.records[i];
        assert(record@ == record_at(*report, i as int));
        if record_in_window(record, window, clock) && finds_client(record, wanted.as_str()) {
            let client = normalize_client_id(record.client.as_str());
            let value = record_value(report, pricing, i);
            match find_quote(report, i) {
                Some(quote) => {
                    add_client(
                        &mut rows,
                        client.as_str(),
                        record.provider_id.as_str(),
                        &record.tokens,
                        value,
                        quote,
                    );
                },
                None => {
                    let quote = pricing.quote(record);
                    add_client(
                        &mut rows,
                        client.as_str(),
                        record.provider_id.as_str(),
                        &record.tokens,
                        value,
                        &quote,
                    );
                },
            }
        }
        i = i + 1;
    }
    rank_clients(&mut rows, metric);
    rows
}

/// A name and how often it occurred, as a `(String, usize)` says it.
pub struct NamedCount {
    pub name: Seq<char>,
    pub count: usize,
}

pub open spec fn named_counts(list: Seq<(String, usize)>) -> Seq<NamedCount> {
    list.map_values(|item: (String, usize)| NamedCount { name: item.0@, count: item.1 })
}

/// The counts with one occurrence more of a name.
pub open spec fn with_name(list: Seq<NamedCount>, name: Seq<char>) -> Seq<NamedCount> {
    match first_where(list, |item: NamedCount| item.name == name, 0) {
        Some(at) => list.update(
            at,
            NamedCount { name: list[at].name, count: one_more(list[at].count) },
        ),
        None => list.push(NamedCount { name, count: one_more(0) }),
    }
}

pub(crate) fn add_name(list: &mut Vec<(String, usize)>, name: &str)
    ensures
        named_counts(final(list)@) == with_name(named_counts(old(list)@), name@),
{
    let ghost views = named_counts(list@);
    let ghost start = list@;
    let ghost wanted = |item: NamedCount| item.name == name@;
    let mut i: usize = 0;
    while i < list.len()
        invariant
            i <= list@.len(),
            list@ == start,
            start == old(list)@,
            views == named_counts(start),
            wanted == |item: NamedCount| item.name == name@,
            forall|k: int| 0 <= k < i ==> !wanted(#[trigger] views[k]),
        decreases list@.len() - i,
    {
        assert(views[i as int].name == list@[i as int].0@);
        if same(list[i].0.as_str(), name) {
            proof {
                lemma_is_first_where(views, wanted, Some(i as int));
            }
            let more = (list[i].0.clone(), count_up(list[i].1));
            list.set(i, more);
            assert(named_counts(list@) =~= views.update(
                i as int,
                NamedCount { name: more.0@, count: more.1 },
            ));
            return ;
        }
        i = i + 1;
    }
    proof {
        lemma_is_first_where(views, wanted, None);
    }
    let more = (name.to_owned(), count_up(0));
    list.push(more);
    assert(named_counts(list@) =~= views.push(NamedCount { name: more.0@, count: more.1 }));
}

/// The names, the most frequent first, in one text.
pub open spec fn by_frequency(list: Seq<NamedCount>) -> Seq<char> {
    join(
        sorted(list, |a: NamedCount, b: NamedCount| a.count > b.count).map_values(
            |item: NamedCount| item.name,
        ),
        ", "@,
    )
}

pub(crate) fn name_by_frequency(list: &Vec<(String, usize)>) -> (out: String)
    ensures
        out@ == by_frequency(named_counts(list@)),
{
    let ghost views = named_counts(list@);
    let ghost order = |a: NamedCount, b: NamedCount| a.count > b.count;
    let mut items: Vec<(String, usize)> = Vec::new();
    let mut i: usize = 0;
    while i < list.len()
        invariant
            i <= list@.len(),
            items@.len() == i,
            views == named_counts(list@),
            forall|k: int|
                0 <= k < i ==> (#[trigger] items@[k]).0@ == list@[k].0@ && items@[k].1
                    == list@[k].1,
        decreases list@.len() - i,
    {
        items.push((list[i].0.clone(), list[i].1));
        i = i + 1;
    }
    assert(named_counts(items@) =~= views);
    let ghost start = items@;
    let ghost before = |a: (String, usize), b: (String, usize)| a.1 > b.1;
    let less = |a: &(String, usize), b: &(String, usize)| -> (yes: bool)
        ensures
            yes == (a.1 > b.1),
        { a.1 > b.1 };
    sort_by(&mut items, less, Ghost(before));
    proof {
        lemma_sorted_map(
            start,
            before,
            |item: (String, usize)| NamedCount { name: item.0@, count: item.1 },
            order,
        );
    }
    let mut names: Vec<String> = Vec::new();
    let mut j: usize = 0;
    while j < items.len()
        invariant
            j <= items@.len(),
            names@.len() == j,
            forall|k: int| 0 <= k < j ==> (#[trigger] names@[k])@ == items@[k].0@,
        decreases items@.len() - j,
    {
        names.push(items[j].0.clone());
        j = j + 1;
    }
    assert(texts(names@) =~= sorted(views, order).map_values(|item: NamedCount| item.name)) by {
        assert(sorted(views, order) == named_counts(items@));
    }
    join_texts(names.as_slice(), ", ")
}

/// What the records of one model come to.
#[derive(Debug)]
pub struct ModelConsumptionRow {
    pub model: String,
    pub records: usize,
    pub tokens: UsageTokens,
    pub api_value_usd: Quantity,
    pub clients: Vec<(String, usize)>,
}

/// What a `ModelConsumptionRow` says.
pub struct ModelView {
    pub model: Seq<char>,
    pub records: usize,
    pub tokens: UsageTokens,
    pub api_value_usd: Quantity,
    pub clients: Seq<NamedCount>,
}

impl View for ModelConsumptionRow {
    type V = ModelView;

    open spec fn view(&self) -> ModelView {
        ModelView {
            model: self.model@,
            records: self.records,
            tokens: self.tokens,
            api_value_usd: self.api_value_usd,
            clients: named_counts(self.clients@),
        }
    }
}

pub open spec fn model_views(rows: Seq<ModelConsumptionRow>) -> Seq<ModelView> {
    rows.map_values(|row: ModelConsumptionRow| row@)
}

fn copy_counts(list: &Vec<(String, usize)>) -> (out: Vec<(String, usize)>)
    ensures
        named_counts(out@) == named_counts(list@),
{
    let mut out: Vec<(String, usize)> = Vec::new();
    let mut i: usize = 0;
    while i < list.len()
        invariant
            i <= list@.len(),
            out@.len() == i,
            forall|k: int|
                0 <= k < i ==> (#[trigger] out@[k]).0@ == list@[k].0@ && out@[k].1 == list@[k].1,
        decreases list@.len() - i,
    {
        out.push((list[i].0.clone(), list[i].1));
        i = i + 1;
    }
    assert(named_counts(out@) =~= named_counts(list@));
    out
}

impl Clone for ModelConsumptionRow {
    fn clone(&self) -> (out: ModelConsumptionRow)
        ensures
            out@ == self@,
    {
        ModelConsumptionRow {
            model: self.model.clone(),
            records: self.records,
            tokens: self.tokens,
            api_value_usd: self.api_value_usd,
            clients: copy_counts(&self.clients),
        }
    }
}

impl ModelView {
    pub open spec fn none(model: Seq<char>) -> ModelView {
        ModelView {
            model,
            records: 0,
            tokens: UsageTokens::none(),
            api_value_usd: Quantity { bits: ZERO },
            clients: Seq::empty(),
        }
    }

    /// The row with one record more.
    pub open spec fn with(self, client: Seq<char>, tokens: UsageTokens, value: Quantity) -> ModelView {
        ModelView {
            records: one_more(self.records),
            tokens: self.tokens.plus(tokens),
            api_value_usd: self.api_value_usd.sum(value),
            clients: with_name(self.clients, client),
            ..self
        }
    }
}

impl ModelConsumptionRow {
    fn new(model: &str) -> (out: ModelConsumptionRow)
        ensures
            out@ == ModelView::none(model@),
    {
        let out = ModelConsumptionRow {
            model: model.to_owned(),
            records: 0,
            tokens: UsageTokens::default(),
            api_value_usd: Quantity { bits: ZERO },
            clients: Vec::new(),
        };
        assert(named_counts(out.clients@) =~= Seq::<NamedCount>::empty());
        out
    }

    fn count(&mut self, client: &str, tokens: &UsageTokens, value: Quantity)
        ensures
            final(self)@ == old(self)@.with(client@, *tokens, value),
    {
        self.records = count_up(self.records);
        self.tokens.add_assign(tokens);
        add_name(&mut self.clients, client);
        self.api_value_usd = self.api_value_usd.plus(value);
    }

    pub fn token_total(&self) -> (out: i64)
        ensures
            out == self@.tokens.reported(),
    {
        self.tokens.reported_total_without_reasoning()
    }

    /// The clients that called the model, the most frequent first.
    pub fn primary_client(&self) -> (out: String)
        ensures
            out@ == by_frequency(self@.clients),
    {
        name_by_frequency(&self.clients)
    }
}

pub open spec fn with_model(
    rows: Seq<ModelView>,
    model: Seq<char>,
    client: Seq<char>,
    tokens: UsageTokens,
    value: Quantity,
) -> Seq<ModelView> {
    match first_where(rows, |row: ModelView| row.model == model, 0) {
        Some(at) => rows.update(at, rows[at].with(client, tokens, value)),
        None => rows.push(ModelView::none(model).with(client, tokens, value)),
    }
}

/// A record that a search of the models finds.
pub open spec fn model_found(record: RecordView, query: Seq<char>) -> bool {
    ||| query.len() == 0
    ||| contains(lower(record.model_id), query)
    ||| contains(lower(client_name(record.client)), query)
}

/// The rows by model over the first `n` records, in the order in which the
/// models first occur.
pub open spec fn models_over(
    report: ConsumptionReport,
    pricing: PricingEngine,
    scope: Scope,
    n: int,
) -> Seq<ModelView>
    decreases n,
{
    if n <= 0 {
        Seq::empty()
    } else {
        let before = models_over(report, pricing, scope, n - 1);
        let record = record_at(report, n - 1);
        if within(record, scope.window, scope.clock) && model_found(record, scope.query) {
            with_model(
                before,
                record.model_id,
                client_name(record.client),
                record.tokens,
                value_at(report, pricing, n - 1),
            )
        } else {
            before
        }
    }
}

pub open spec fn model_ranks(a: ModelView, b: ModelView, metric: ConsumptionMetric) -> bool {
    match metric {
        ConsumptionMetric::Tokens => a.tokens.reported() > b.tokens.reported(),
        ConsumptionMetric::ApiEquivalent => b.api_value_usd.below(a.api_value_usd),
    }
}

pub open spec fn models_ranked(rows: Seq<ModelView>, metric: ConsumptionMetric) -> Seq<ModelView> {
    sorted(rows, |a: ModelView, b: ModelView| model_ranks(a, b, metric))
}

pub fn rank_models(rows: &mut Vec<ModelConsumptionRow>, metric: ConsumptionMetric)
    ensures
        model_views(final(rows)@) == models_ranked(model_views(old(rows)@), metric),
{
    let ghost start = rows@;
    let ghost before = |a: ModelConsumptionRow, b: ModelConsumptionRow| model_ranks(a@, b@, metric);
    let less = |a: &ModelConsumptionRow, b: &ModelConsumptionRow| -> (yes: bool)
        ensures
            yes == model_ranks(a@, b@, metric),
        {
            match metric {
                ConsumptionMetric::Tokens => a.token_total() > b.token_total(),
                ConsumptionMetric::ApiEquivalent => b.api_value_usd.is_below(a.api_value_usd),
            }
        };
    sort_by(rows, less, Ghost(before));
    proof {
        lemma_sorted_map(
            start,
            before,
            |row: ModelConsumptionRow| row@,
            |a: ModelView, b: ModelView| model_ranks(a, b, metric),
        );
    }
}

fn add_model(
    rows: &mut Vec<ModelConsumptionRow>,
    model: &str,
    client: &str,
    tokens: &UsageTokens,
    value: Quantity,
)
    ensures
        model_views(final(rows)@) == with_model(
            model_views(old(rows)@),
            model@,
            client@,
            *tokens,
            value,
        ),
{
    let ghost start = rows@;
    let ghost views = model_views(rows@);
    let ghost wanted = |row: ModelView| row.model == model@;
    let mut i: usize = 0;
    while i < rows.len()
        invariant
            i <= rows@.len(),
            rows@ == start,
            start == old(rows)@,
            views == model_views(start),
            wanted == |row: ModelView| row.model == model@,
            forall|k: int| 0 <= k < i ==> !wanted(#[trigger] views[k]),
        decreases rows@.len() - i,
    {
        assert(views[i as int] == rows@[i as int]@);
        if same(rows[i].model.as_str(), model) {
            proof {
                lemma_is_first_where(views, wanted, Some(i as int));
            }
            let mut row = rows[i].clone();
            row.count(client, tokens, value);
            rows.set(i, row);
            assert(model_views(rows@) =~= views.update(i as int, row@));
            return ;
        }
        i = i + 1;
    }
    proof {
        lemma_is_first_where(views, wanted, None);
    }
    let mut row = ModelConsumptionRow::new(model);
    row.count(client, tokens, value);
    rows.push(row);
    assert(model_views(rows@) =~= views.push(row@));
}

fn finds_model(record: &UsageRecord, query: &str) -> (yes: bool)
    ensures
        yes == model_found(record@, query@),
{
    chars_of(query).len() == 0 || has_text(to_lower(record.model_id.as_str()).as_str(), query)
        || has_text(
        to_lower(normalize_client_id(record.client.as_str()).as_str()).as_str(),
        query,
    )
}

/// The rows of a report by model, ranked.
pub open spec fn model_rows(
    report: ConsumptionReport,
    pricing: PricingEngine,
    metric: ConsumptionMetric,
    scope: Scope,
) -> Seq<ModelView> {
    models_ranked(
        models_over(report, pricing, scope, report.snapshot.records@.len() as int),
        metric,
    )
}

pub fn model_consumption_rows(
    report: &ConsumptionReport,
    pricing: &PricingEngine,
    metric: ConsumptionMetric,
    window: LedgerWindow,
    query: &str,
    clock: &Clock,
) -> (out: Vec<ModelConsumptionRow>)
    ensures
        model_views(out@) == model_rows(
            *report,
            *pricing,
            metric,
            (Scope { window, query: query_of(query@), clock: *clock }),
        ),
{
    let wanted = to_lower(trimmed(query).as_str());
    let ghost scope = Scope { window, query: query_of(query@), clock: *clock };
    let mut rows: Vec<ModelConsumptionRow> = Vec::new();
    let mut i: usize = 0;
    assert(model_views(rows@) =~= Seq::<ModelView>::empty());
    while i < report.snapshot.records.len()
        invariant
            i <= report.snapshot.records@.len(),
            wanted@ == query_of(query@),
            scope == (Scope { window, query: query_of(query@), clock: *clock }),
            model_views(rows@) == models_over(*report, *pricing, scope, i as int),
        decreases report.snapshot.records@.len() - i,
    {
        let record = &report.snapshot.records[i];
        assert(record@ == record_at(*report, i as int));
        if record_in_window(record, window, clock) && finds_model(record, wanted.as_str()) {
            let client = normalize_client_id(record.client.as_str());
            let value = record_value(report, pricing, i);
            add_model(
                &mut rows,
                record.model_id.as_str(),
                client.as_str(),
                &record.tokens,
                value,
            );
        }
        i = i + 1;
    }
    rank_models(&mut rows, metric);
    rows
}

/// What the records within a window come to.
#[derive(Clone, Copy, Debug, PartialEq, Eq, Structural)]
pub struct TemporalUsageBucket {
    pub window: LedgerWindow,
    pub tokens: i64,
    pub input: i64,
    pub output: i64,
    pub cache: i64,
    pub api_usd: Quantity,
    pub records: usize,
}

impl TemporalUsageBucket {
    pub open spec fn none(window: LedgerWindow) -> TemporalUsageBucket {
        TemporalUsageBucket {
            window,
            tokens: 0,
            input: 0,
            output: 0,
            cache: 0,
            api_usd: Quantity { bits: ZERO },
            records: 0,
        }
    }

    /// The bucket with one record more.
    pub open spec fn with(self, tokens: UsageTokens, value: Quantity) -> TemporalUsageBucket {
        TemporalUsageBucket {
            window: self.window,
            tokens: sat_sum(self.tokens, tokens.reported()),
            input: sat_sum(self.input, tokens.input),
            output: sat_sum(self.output, tokens.output),
            cache: sat_sum(self.cache, sat_sum(tokens.cache_read, tokens.cache_write)),
            api_usd: self.api_usd.sum(value),
            records: one_more(self.records),
        }
    }

    fn count(self, tokens: &UsageTokens, value: Quantity) -> (out: TemporalUsageBucket)
        ensures
            out == self.with(*tokens, value),
    {
        TemporalUsageBucket {
            window: self.window,
            tokens: sat_add(self.tokens, tokens.reported_total_without_reasoning()),
            input: sat_add(self.input, tokens.input),
            output: sat_add(self.output, tokens.output),
            cache: sat_add(self.cache, sat_add(tokens.cache_read, tokens.cache_write)),
            api_usd: self.api_usd.plus(value),
            records: count_up(self.records),
        }
    }
}

/// What a record would have cost by the report's own quotes, where it holds
/// any, else by a new quote.
pub open spec fn stated_at(report: ConsumptionReport, pricing: PricingEngine, i: int) -> Quantity {
    if report.quotes is Some {
        match kept_quote(report, i) {
            Some(quote) => amount_or_zero(quote.value_usd),
            None => Quantity { bits: ZERO },
        }
    } else {
        amount_or_zero(pricing.quoted(record_at(report, i)).value_usd)
    }
}

/// The bucket of a window over the first `n` records.
pub open spec fn bucket_over(
    report: ConsumptionReport,
    pricing: PricingEngine,
    window: LedgerWindow,
    clock: Clock,
    n: int,
) -> TemporalUsageBucket
    decreases n,
{
    if n <= 0 {
        TemporalUsageBucket::none(window)
    } else {
        let before = bucket_over(report, pricing, window, clock, n - 1);
        let record = record_at(report, n - 1);
        if within(record, window, clock) {
            before.with(record.tokens, stated_at(report, pricing, n - 1))
        } else {
            before
        }
    }
}

/// The buckets of a report, from the shortest window to the longest.
pub open spec fn buckets(report: ConsumptionReport, pricing: PricingEngine, clock: Clock) -> Seq<
    TemporalUsageBucket,
> {
    let n = report.snapshot.records@.len() as int;
    seq![
        bucket_over(report, pricing, LedgerWindow::Today, clock, n),
        bucket_over(report, pricing, LedgerWindow::Last24h, clock, n),
        bucket_over(report, pricing, LedgerWindow::Last7d, clock, n),
        bucket_over(report, pricing, LedgerWindow::Last30d, clock, n),
        bucket_over(report, pricing, LedgerWindow::AllTime, clock, n),
    ]
}

fn stated_value(report: &ConsumptionReport, pricing: &PricingEngine, i: usize) -> (out: Quantity)
    requires
        i < report.snapshot.records@.len(),
    ensures
        out == stated_at(*report, *pricing, i as int),
{
    if report.quotes.is_some() {
        match find_quote(report, i) {
            Some(quote) => match quote.value_usd {
                Some(value) => value,
                None => Quantity { bits: ZERO },
            },
            None => Quantity { bits: ZERO },
        }
    } else {
        new_value(report, pricing, i)
    }
}

fn bucket_of(
    report: &ConsumptionReport,
    pricing: &PricingEngine,
    window: LedgerWindow,
    clock: &Clock,
) -> (out: TemporalUsageBucket)
    ensures
        out == bucket_over(
            *report,
            *pricing,
            window,
            *clock,
            report.snapshot.records@.len() as int,
        ),
{
    let mut out = TemporalUsageBucket {
        window,
        tokens: 0,
        input: 0,
        output: 0,
        cache: 0,
        api_usd: Quantity { bits: ZERO },
        records: 0,
    };
    let mut i: usize = 0;
    while i < report.snapshot.records.len()
        invariant
            i <= report.snapshot.records@.len(),
            out == bucket_over(*report, *pricing, window, *clock, i as int),
        decreases report.snapshot.records@.len() - i,
    {
        let record = &report.snapshot.records[i];
        assert(record@ == record_at(*report, i as int));
        if record_in_window(record, window, clock) {
            out = out.count(&record.tokens, stated_value(report, pricing, i));
        }
        i = i + 1;
    }
    out
}

pub fn compute_temporal_usage(
    report: &ConsumptionReport,
    pricing: &PricingEngine,
    clock: &Clock,
) -> (out: Vec<TemporalUsageBucket>)
    ensures
        out@ == buckets(*report, *pricing, *clock),
{
    let mut out: Vec<TemporalUsageBucket> = Vec::new();
    out.push(bucket_of(report, pricing, LedgerWindow::Today, clock));
    out.push(bucket_of(report, pricing, LedgerWindow::Last24h, clock));
    out.push(bucket_of(report, pricing, LedgerWindow::Last7d, clock));
    out.push(bucket_of(report, pricing, LedgerWindow::Last30d, clock));
    out.push(bucket_of(report, pricing, LedgerWindow::AllTime, clock));
    out
}

/// The parts of a name between dashes, underscores and points.
pub open spec fn name_parts(text: Seq<char>) -> Seq<Seq<char>>
    decreases text.len(),
{
    if text.len() == 0 {
        seq![Seq::empty()]
    } else {
        let before = name_parts(text.drop_last());
        if text.last() == '-' || text.last() == '_' || text.last() == '.' {
            before.push(Seq::empty())
        } else {
            before.drop_last().push(before.last().push(text.last()))
        }
    }
}

/// The parts that are not empty, each with a capital.
pub open spec fn capital_parts(parts: Seq<Seq<char>>) -> Seq<Seq<char>>
    decreases parts.len(),
{
    if parts.len() == 0 {
        Seq::empty()
    } else if parts.last().len() == 0 {
        capital_parts(parts.drop_last())
    } else {
        capital_parts(parts.drop_last()).push(capitalized(parts.last()))
    }
}

/// The name of a row: a provider's own name, else the client, or the provider
/// where there is none, in words with capitals.
pub open spec fn row_name(row: ClientView) -> Seq<char> {
    let client = trim(row.client);
    let source = if client.len() == 0 {
        trim(row.provider)
    } else {
        client
    };
    if known(client) {
        shown_name(client)
    } else if source.len() == 0 {
        "Unknown"@
    } else {
        join(capital_parts(name_parts(source)), " "@)
    }
}

fn split_name(text: &str) -> (out: Vec<String>)
    ensures
        texts(out@) == name_parts(text@),
        out@.len() > 0,
{
    let chars = chars_of(text);
    let mut out: Vec<String> = Vec::new();
    out.push(String::new());
    let mut i: usize = 0;
    assert(texts(out@) =~= name_parts(text@.take(0)));
    while i < chars.len()
        invariant
            i <= chars@.len(),
            chars@ == text@,
            texts(out@) == name_parts(text@.take(i as int)),
            out@.len() > 0,
        decreases chars@.len() - i,
    {
        let ghost before = texts(out@);
        assert(text@.take(i + 1).drop_last() =~= text@.take(i as int));
        assert(text@.take(i + 1).last() == chars@[i as int]);
        let c = chars[i];
        if c == '-' || c == '_' || c == '.' {
            let part = String::new();
            assert(part@ =~= Seq::<char>::empty());
            out.push(part);
            assert(texts(out@) =~= before.push(part@));
        } else {
            match out.pop() {
                Some(part) => {
                    let mut part = part;
                    assert(part@ == before.last());
                    part.push(c);
                    out.push(part);
                    assert(texts(out@) =~= before.drop_last().push(part@));
                },
                None => {},
            }
        }
        i = i + 1;
    }
    assert(text@.take(i as int) =~= text@);
    out
}

fn capitalize_parts(parts: &Vec<String>) -> (out: Vec<String>)
    ensures
        texts(out@) == capital_parts(texts(parts@)),
{
    let ghost views = texts(parts@);
    let mut out: Vec<String> = Vec::new();
    let mut i: usize = 0;
    assert(texts(out@) =~= capital_parts(views.take(0)));
    while i < parts.len()
        invariant
            i <= parts@.len(),
            views == texts(parts@),
            texts(out@) == capital_parts(views.take(i as int)),
        decreases parts@.len() - i,
    {
        let ghost before = texts(out@);
        assert(views.take(i + 1).drop_last() =~= views.take(i as int));
        assert(views.take(i + 1).last() == parts@[i as int]@);
        if chars_of(parts[i].as_str()).len() > 0 {
            let part = capitalize(parts[i].as_str());
            out.push(part);
            assert(texts(out@) =~= before.push(part@));
        }
        i = i + 1;
    }
    assert(views.take(i as int) =~= views);
    out
}

pub fn consumption_label(row: &ConsumptionRow) -> (out: String)
    ensures
        out@ == row_name(row@),
{
    let client = trimmed(row.client.as_str());
    if is_known(client.as_str()) {
        return display_name(client.as_str()).to_owned();
    }
    let source = if chars_of(client.as_str()).len() == 0 {
        trimmed(row.provider.as_str())
    } else {
        client
    };
    if chars_of(source.as_str()).len() == 0 {
        return "Unknown".to_owned();
    }
    join_texts(capitalize_parts(&split_name(source.as_str())).as_slice(), " ")
}

/// The hue of a row: the bytes of its client and its provider summed up.
pub fn consumption_hue(row: &ConsumptionRow) -> (out: u8)
    ensures
        out == (hue_of(row@.client) + hue_of(row@.provider)) % 256,
{
    ((name_hue(row.client.as_str()) as u32 + name_hue(row.provider.as_str()) as u32) % 256) as u8
}

/// The ledger of a report for every window, computed once.
#[derive(Debug)]
pub struct CachedLedger {
    pub buckets: Vec<TemporalUsageBucket>,
    pub clients: Vec<Vec<ConsumptionRow>>,
    pub models: Vec<Vec<ModelConsumptionRow>>,
}

/// The scope of a window without a search.
pub open spec fn whole_window(place: int, clock: Clock) -> Scope {
    Scope { window: LedgerWindow::at(place), query: query_of(""@), clock }
}

impl CachedLedger {
    /// The ledger holds the rows of a report, ranked by tokens, as they were at
    /// a moment.
    pub open spec fn keeps(
        self,
        report: ConsumptionReport,
        pricing: PricingEngine,
        clock: Clock,
    ) -> bool {
        &&& self.well_formed()
        &&& self.buckets@ == buckets(report, pricing, clock)
        &&& forall|w: int|
            0 <= w < 5 ==> client_views((#[trigger] self.clients@[w])@) == client_rows(
                report,
                pricing,
                ConsumptionMetric::Tokens,
                whole_window(w, clock),
            )
        &&& forall|w: int|
            0 <= w < 5 ==> model_views((#[trigger] self.models@[w])@) == model_rows(
                report,
                pricing,
                ConsumptionMetric::Tokens,
                whole_window(w, clock),
            )
    }

    /// There is an entry for each of the five windows.
    pub open spec fn well_formed(self) -> bool {
        self.buckets@.len() == 5 && self.clients@.len() == 5 && self.models@.len() == 5
    }

    pub fn from_report(report: &ConsumptionReport, pricing: &PricingEngine, clock: &Clock) -> (out:
        CachedLedger)
        ensures
            out.keeps(*report, *pricing, *clock),
    {
        let buckets = compute_temporal_usage(report, pricing, clock);
        let mut clients: Vec<Vec<ConsumptionRow>> = Vec::new();
        let mut models: Vec<Vec<ModelConsumptionRow>> = Vec::new();
        let mut w: usize = 0;
        while w < 5
            invariant
                w <= 5,
                clients@.len() == w,
                models@.len() == w,
                forall|k: int|
                    0 <= k < w ==> client_views((#[trigger] clients@[k])@) == client_rows(
                        *report,
                        *pricing,
                        ConsumptionMetric::Tokens,
                        whole_window(k, *clock),
                    ),
                forall|k: int|
                    0 <= k < w ==> model_views((#[trigger] models@[k])@) == model_rows(
                        *report,
                        *pricing,
                        ConsumptionMetric::Tokens,
                        whole_window(k, *clock),
                    ),
            decreases 5 - w,
        {
            let window = LedgerWindow::at_index(w);
            clients.push(
                consumption_rows(report, pricing, ConsumptionMetric::Tokens, window, "", clock),
            );
            models.push(
                model_consumption_rows(
                    report,
                    pricing,
                    ConsumptionMetric::Tokens,
                    window,
                    "",
                    clock,
                ),
            );
            w = w + 1;
        }
        CachedLedger { buckets, clients, models }
    }
}

/// The positions, among the first `n` records, of those of a client that the
/// ledger looks at.
pub open spec fn client_records(
    report: ConsumptionReport,
    scope: Scope,
    client: Seq<char>,
    n: int,
) -> Seq<int> {
    Seq::new(n as nat, |i: int| i).filter(
        |i: int|
            within(record_at(report, i), scope.window, scope.clock) && client_found(
                record_at(report, i),
                scope.query,
            ) && client_name(record_at(report, i).client) == client,
    )
}

impl UsageTokens {
    /// These tokens are, kind by kind, the sums over some records.
    pub open spec fn add_up(self, report: ConsumptionReport, own: Seq<int>) -> bool {
        &&& self.input == count_total(own.map_values(|i: int| record_at(report, i).tokens.input))
        &&& self.output == count_total(own.map_values(|i: int| record_at(report, i).tokens.output))
        &&& self.cache_read == count_total(
            own.map_values(|i: int| record_at(report, i).tokens.cache_read),
        )
        &&& self.cache_write == count_total(
            own.map_values(|i: int| record_at(report, i).tokens.cache_write),
        )
        &&& self.reasoning == count_total(
            own.map_values(|i: int| record_at(report, i).tokens.reasoning),
        )
    }

    pub proof fn lemma_add_up(self, report: ConsumptionReport, own: Seq<int>, next: int)
        requires
            self.add_up(report, own),
        ensures
            self.plus(record_at(report, next).tokens).add_up(report, own.push(next)),
    {
        let input = |i: int| record_at(report, i).tokens.input;
        let output = |i: int| record_at(report, i).tokens.output;
        let cache_read = |i: int| record_at(report, i).tokens.cache_read;
        let cache_write = |i: int| record_at(report, i).tokens.cache_write;
        let reasoning = |i: int| record_at(report, i).tokens.reasoning;
        lemma_one_more_count(own, next, input);
        lemma_one_more_count(own, next, output);
        lemma_one_more_count(own, next, cache_read);
        lemma_one_more_count(own, next, cache_write);
        lemma_one_more_count(own, next, reasoning);
    }

    pub proof fn lemma_none_add_up(report: ConsumptionReport)
        ensures
            UsageTokens::none().add_up(report, Seq::empty()),
    {
    }
}

pub proof fn lemma_one_more_count(own: Seq<int>, next: int, count: spec_fn(int) -> i64)
    ensures
        count_total(own.push(next).map_values(count)) == sat_sum(
            count_total(own.map_values(count)),
            count(next),
        ),
{
    let after = own.push(next).map_values(count);
    assert(after.drop_last() =~= own.map_values(count));
}

proof fn lemma_one_more_amount(own: Seq<int>, next: int, amount: spec_fn(int) -> Quantity)
    ensures
        positive_total(own.push(next).map_values(amount)) == if (Quantity { bits: ZERO }).below(
            amount(next),
        ) {
            positive_total(own.map_values(amount)).sum(amount(next))
        } else {
            positive_total(own.map_values(amount))
        },
{
    let after = own.push(next).map_values(amount);
    assert(after.drop_last() =~= own.map_values(amount));
}

impl ClientView {
    /// The row states the sums over some records: how many there are, their
    /// tokens, what those above zero would have cost and how many those are,
    /// and what their quotes say.
    pub open spec fn adds_up(
        self,
        report: ConsumptionReport,
        pricing: PricingEngine,
        own: Seq<int>,
    ) -> bool {
        &&& own.len() > 0
        &&& self.provider == record_at(report, own[0]).provider_id
        &&& self.records == own.len()
        &&& self.tokens.add_up(report, own)
        &&& self.api_value_usd == positive_total(
            own.map_values(|i: int| value_at(report, pricing, i)),
        )
        &&& self.api_rows == own.filter(
            |i: int| !value_at(report, pricing, i).nan() && value_at(report, pricing, i).rank() > 0,
        ).len()
        &&& self.priced_tokens == count_total(
            own.map_values(|i: int| quote_at(report, pricing, i).priced_tokens),
        )
        &&& self.unpriced_tokens == count_total(
            own.map_values(|i: int| quote_at(report, pricing, i).unpriced_tokens),
        )
        &&& self.partial_rows == own.filter(
            |i: int| quote_at(report, pricing, i).status is Partial,
        ).len()
        &&& self.unknown_rows == own.filter(
            |i: int| quote_at(report, pricing, i).status is Unknown,
        ).len()
    }

    proof fn lemma_adds_up(
        self,
        report: ConsumptionReport,
        pricing: PricingEngine,
        own: Seq<int>,
        next: int,
    )
        requires
            own.len() < usize::MAX,
            own.len() > 0 ==> self.adds_up(report, pricing, own),
            own.len() == 0 ==> self == ClientView::none(
                self.client,
                record_at(report, next).provider_id,
            ),
        ensures
            self.with(
                record_at(report, next).tokens,
                value_at(report, pricing, next),
                quote_at(report, pricing, next),
            ).adds_up(report, pricing, own.push(next)),
    {
        let amount = |i: int| value_at(report, pricing, i);
        let positive = |i: int|
            !value_at(report, pricing, i).nan() && value_at(report, pricing, i).rank() > 0;
        let priced = |i: int| quote_at(report, pricing, i).priced_tokens;
        let unpriced = |i: int| quote_at(report, pricing, i).unpriced_tokens;
        let partial = |i: int| quote_at(report, pricing, i).status is Partial;
        let unknown = |i: int| quote_at(report, pricing, i).status is Unknown;
        lemma_one_more_count(own, next, priced);
        lemma_one_more_count(own, next, unpriced);
        lemma_one_more_amount(own, next, amount);
        own.lemma_filter_push(next, positive);
        own.lemma_filter_push(next, partial);
        own.lemma_filter_push(next, unknown);
        own.lemma_filter_len(positive);
        own.lemma_filter_len(partial);
        own.lemma_filter_len(unknown);
        if own.len() == 0 {
            assert(own =~= Seq::empty());
            UsageTokens::lemma_none_add_up(report);
        } else {
            assert(own.push(next)[0] == own[0]);
        }
        self.tokens.lemma_add_up(report, own, next);
    }
}

/// The rows are one for each client, and each states the sums over its records.
spec fn clients_add_up(
    rows: Seq<ClientView>,
    report: ConsumptionReport,
    pricing: PricingEngine,
    scope: Scope,
    n: int,
) -> bool {
    &&& forall|i: int, j: int|
        0 <= i < j < rows.len() ==> (#[trigger] rows[i]).client != (#[trigger] rows[j]).client
    &&& forall|i: int|
        0 <= i < rows.len() ==> (#[trigger] rows[i]).adds_up(
            report,
            pricing,
            client_records(report, scope, rows[i].client, n),
        )
    &&& forall|client: Seq<char>|
        #![trigger client_records(report, scope, client, n)]
        client_records(report, scope, client, n).len() > 0 ==> exists|i: int|
            0 <= i < rows.len() && (#[trigger] rows[i]).client == client
}

/// One record more is one position more for its client, and none for another.
proof fn lemma_client_records(
    report: ConsumptionReport,
    scope: Scope,
    client: Seq<char>,
    n: int,
)
    requires
        n > 0,
    ensures
        client_records(report, scope, client, n - 1).len() <= n - 1,
        ({
            let record = record_at(report, n - 1);
            let own = client_records(report, scope, client, n - 1);
            client_records(report, scope, client, n) == if within(
                record,
                scope.window,
                scope.clock,
            ) && client_found(record, scope.query) && client_name(record.client) == client {
                own.push(n - 1)
            } else {
                own
            }
        }),
{
    let ours = |i: int|
        within(record_at(report, i), scope.window, scope.clock) && client_found(
            record_at(report, i),
            scope.query,
        ) && client_name(record_at(report, i).client) == client;
    let before = Seq::new((n - 1) as nat, |i: int| i);
    assert(Seq::new(n as nat, |i: int| i) =~= before.push(n - 1));
    before.lemma_filter_push(n - 1, ours);
    before.lemma_filter_len(ours);
}

proof fn lemma_clients_add_up(
    report: ConsumptionReport,
    pricing: PricingEngine,
    scope: Scope,
    n: int,
)
    requires
        0 <= n <= report.snapshot.records@.len(),
    ensures
        clients_add_up(clients_over(report, pricing, scope, n), report, pricing, scope, n),
    decreases n,
{
    if n == 0 {
        assert forall|client: Seq<char>|
            #![trigger client_records(report, scope, client, n)]
            client_records(report, scope, client, n).len() == 0 by {
            reveal(Seq::filter);
            assert(Seq::new(0, |i: int| i) =~= Seq::empty());
        }
    } else {
        lemma_clients_add_up(report, pricing, scope, n - 1);
        let before = clients_over(report, pricing, scope, n - 1);
        let rows = clients_over(report, pricing, scope, n);
        let record = record_at(report, n - 1);
        let name = client_name(record.client);
        assert forall|client: Seq<char>|
            #![trigger client_records(report, scope, client, n)]
            client_records(report, scope, client, n) == if within(
                record,
                scope.window,
                scope.clock,
            ) && client_found(record, scope.query) && name == client {
                client_records(report, scope, client, n - 1).push(n - 1)
            } else {
                client_records(report, scope, client, n - 1)
            } by {
            lemma_client_records(report, scope, client, n);
        }
        if within(record, scope.window, scope.clock) && client_found(record, scope.query) {
            let own = client_records(report, scope, name, n - 1);
            let wanted = |row: ClientView| row.client == name;
            lemma_client_records(report, scope, name, n);
            assert(report.snapshot.records@.len() == report.snapshot.records.len());
            crate::sort::lemma_first_where(before, wanted, 0);
            let place = first_where(before, wanted, 0);
            let spot = match place {
                Some(at) => at,
                None => before.len() as int,
            };
            if place is Some {
                before[spot].lemma_adds_up(report, pricing, own, n - 1);
            } else {
                if own.len() > 0 {
                    let i = choose|i: int|
                        0 <= i < before.len() && (#[trigger] before[i]).client == name;
                    assert(!wanted(before[i]));
                }
                ClientView::none(name, record.provider_id).lemma_adds_up(
                    report,
                    pricing,
                    own,
                    n - 1,
                );
            }
            assert(rows[spot].client == name);
            assert forall|i: int| 0 <= i < rows.len() implies (#[trigger] rows[i]).adds_up(
                report,
                pricing,
                client_records(report, scope, rows[i].client, n),
            ) by {
                if i != spot {
                    assert(rows[i] == before[i]);
                    if place is None {
                        assert(!wanted(before[i]));
                    }
                }
            }
            assert forall|client: Seq<char>|
                #![trigger client_records(report, scope, client, n)]
                client_records(report, scope, client, n).len() > 0 implies exists|i: int|
                0 <= i < rows.len() && (#[trigger] rows[i]).client == client by {
                if client != name {
                    let i = choose|i: int|
                        0 <= i < before.len() && (#[trigger] before[i]).client == client;
                    assert(rows[i].client == client);
                }
            }
        }
    }
}

/// The row of a client states the sums over all its records that the ledger
/// looks at, in their order and from zero: their number, their tokens kind by
/// kind, and what those above zero would have cost.
pub proof fn law_client_rows_add_up(
    report: ConsumptionReport,
    pricing: PricingEngine,
    metric: ConsumptionMetric,
    scope: Scope,
    at: int,
)
    requires
        0 <= at < client_rows(report, pricing, metric, scope).len(),
    ensures
        ({
            let row = client_rows(report, pricing, metric, scope)[at];
            row.adds_up(
                report,
                pricing,
                client_records(
                    report,
                    scope,
                    row.client,
                    report.snapshot.records@.len() as int,
                ),
            )
        }),
{
    let n = report.snapshot.records@.len() as int;
    let rows = clients_over(report, pricing, scope, n);
    lemma_clients_add_up(report, pricing, scope, n);
    let before = |a: ClientView, b: ClientView| client_ranks(a, b, metric);
    lemma_sorted_contains(rows, before);
    assert(rows.contains(client_rows(report, pricing, metric, scope)[at]));
}

/// Every record that the ledger looks at counts in a row of its client, and no
/// client has two rows.
pub proof fn law_every_client_has_one_row(
    report: ConsumptionReport,
    pricing: PricingEngine,
    metric: ConsumptionMetric,
    scope: Scope,
)
    ensures
        forall|i: int|
            0 <= i < report.snapshot.records@.len() && within(
                #[trigger] record_at(report, i),
                scope.window,
                scope.clock,
            ) && client_found(record_at(report, i), scope.query) ==> exists|k: int|
                0 <= k < client_rows(report, pricing, metric, scope).len() && (
                #[trigger] client_rows(report, pricing, metric, scope)[k]).client == client_name(
                    record_at(report, i).client,
                ),
        forall|i: int, j: int|
            0 <= i < j < client_rows(report, pricing, metric, scope).len() ==> (
            #[trigger] client_rows(report, pricing, metric, scope)[i]).client != (
            #[trigger] client_rows(report, pricing, metric, scope)[j]).client,
{
    let n = report.snapshot.records@.len() as int;
    let rows = clients_over(report, pricing, scope, n);
    let out = client_rows(report, pricing, metric, scope);
    lemma_clients_add_up(report, pricing, scope, n);
    let before = |a: ClientView, b: ClientView| client_ranks(a, b, metric);
    lemma_sorted_contains(rows, before);
    lemma_sorted_keeps_items(rows, before);
    rows.to_multiset_ensures();
    out.to_multiset_ensures();
    assert forall|i: int|
        0 <= i < report.snapshot.records@.len() && within(
            #[trigger] record_at(report, i),
            scope.window,
            scope.clock,
        ) && client_found(record_at(report, i), scope.query) implies exists|k: int|
        0 <= k < out.len() && (#[trigger] out[k]).client == client_name(
            record_at(report, i).client,
        ) by {
        let client = client_name(record_at(report, i).client);
        let ours = |i: int|
            within(record_at(report, i), scope.window, scope.clock) && client_found(
                record_at(report, i),
                scope.query,
            ) && client_name(record_at(report, i).client) == client;
        let all = Seq::new(n as nat, |i: int| i);
        assert(ours(all[i]));
        all.lemma_filter_contains(ours, i);
        assert(client_records(report, scope, client, n).contains(i));
        let k = choose|k: int| 0 <= k < rows.len() && (#[trigger] rows[k]).client == client;
        assert(rows.contains(rows[k]));
        assert(rows.to_multiset().count(rows[k]) > 0);
        assert(out.contains(rows[k]));
        let at = choose|at: int| 0 <= at < out.len() && out[at] == rows[k];
        assert(out[at].client == client);
    }
    assert forall|i: int, j: int| 0 <= i < j < out.len() implies (#[trigger] out[i]).client != (
    #[trigger] out[j]).client by {
        lemma_distinct_clients(rows, out, i, j);
    }
}

/// Rows of distinct clients stay so in another order.
proof fn lemma_distinct_clients(rows: Seq<ClientView>, out: Seq<ClientView>, i: int, j: int)
    requires
        rows.to_multiset() == out.to_multiset(),
        forall|i: int, j: int|
            0 <= i < j < rows.len() ==> (#[trigger] rows[i]).client != (#[trigger] rows[j]).client,
        0 <= i < j < out.len(),
    ensures
        out[i].client != out[j].client,
{
    rows.to_multiset_ensures();
    out.to_multiset_ensures();
    assert(rows.no_duplicates());
    rows.lemma_multiset_has_no_duplicates();
    if out[i].client == out[j].client {
        assert(out.contains(out[i]) && out.contains(out[j]));
        assert(rows.contains(out[i])) by {
            assert(out.to_multiset().count(out[i]) > 0);
        }
        assert(rows.contains(out[j])) by {
            assert(out.to_multiset().count(out[j]) > 0);
        }
        let a = choose|a: int| 0 <= a < rows.len() && rows[a] == out[i];
        let b = choose|b: int| 0 <= b < rows.len() && rows[b] == out[j];
        assert(a == b);
        assert(out[i] == out[j]);
        out.lemma_multiset_has_no_duplicates_conv();
        assert(out.no_duplicates());
    }
}

pub proof fn lemma_one_amount_more(own: Seq<int>, next: int, amount: spec_fn(int) -> Quantity)
    ensures
        amount_total(own.push(next).map_values(amount)) == amount_total(
            own.map_values(amount),
        ).sum(amount(next)),
{
    let after = own.push(next).map_values(amount);
    assert(after.drop_last() =~= own.map_values(amount));
}

/// A list counts how often each of some names occurs, each name once.
pub open spec fn counts_names(list: Seq<NamedCount>, names: Seq<Seq<char>>) -> bool {
    &&& forall|i: int, j: int|
        0 <= i < j < list.len() ==> (#[trigger] list[i]).name != (#[trigger] list[j]).name
    &&& forall|i: int|
        0 <= i < list.len() ==> (#[trigger] list[i]).count == names.filter(
            |name: Seq<char>| name == list[i].name,
        ).len()
    &&& forall|k: int|
        0 <= k < names.len() ==> exists|i: int|
            0 <= i < list.len() && (#[trigger] list[i]).name == #[trigger] names[k]
}

/// One occurrence more of a name counts one more for it, and leaves the counts
/// of the others.
pub proof fn law_names_are_counted(list: Seq<NamedCount>, names: Seq<Seq<char>>, name: Seq<char>)
    requires
        counts_names(list, names),
        names.len() < usize::MAX,
    ensures
        counts_names(with_name(list, name), names.push(name)),
{
    let wanted = |item: NamedCount| item.name == name;
    crate::sort::lemma_first_where(list, wanted, 0);
    let place = first_where(list, wanted, 0);
    let spot = match place {
        Some(at) => at,
        None => list.len() as int,
    };
    let out = with_name(list, name);
    let after = names.push(name);
    assert(out[spot].name == name);
    if place is None {
        if exists|k: int| 0 <= k < names.len() && names[k] == name {
            let k = choose|k: int| 0 <= k < names.len() && names[k] == name;
            let i = choose|i: int|
                0 <= i < list.len() && (#[trigger] list[i]).name == #[trigger] names[k];
            assert(!wanted(list[i]));
        }
        let same_name = |other: Seq<char>| other == name;
        lemma_none_kept(names, same_name);
    }
    assert forall|i: int| 0 <= i < out.len() implies (#[trigger] out[i]).count == after.filter(
        |other: Seq<char>| other == out[i].name,
    ).len() by {
        let same_name = |other: Seq<char>| other == out[i].name;
        names.lemma_filter_len_push(same_name, name);
        names.lemma_filter_len(same_name);
        if i != spot {
            assert(out[i] == list[i]);
            if place is None {
                assert(!wanted(list[i]));
            }
        }
    }
    assert forall|k: int| 0 <= k < after.len() implies exists|i: int|
        0 <= i < out.len() && (#[trigger] out[i]).name == #[trigger] after[k] by {
        if k < names.len() {
            let i = choose|i: int|
                0 <= i < list.len() && (#[trigger] list[i]).name == #[trigger] names[k];
            assert(out[i].name == after[k]);
        } else {
            assert(out[spot].name == after[k]);
        }
    }
}

/// Where no item is accepted, none is kept.
proof fn lemma_none_kept<T>(items: Seq<T>, kept: spec_fn(T) -> bool)
    requires
        forall|i: int| 0 <= i < items.len() ==> !kept(#[trigger] items[i]),
    ensures
        items.filter(kept).len() == 0,
{
    if items.filter(kept).len() > 0 {
        let item = items.filter(kept)[0];
        items.lemma_filter_pred(kept, 0);
        assert(items.filter(kept).contains(item));
        items.lemma_filter_contains_rev(kept, item);
    }
}

/// The positions, among the first `n` records, of those of a model that the
/// ledger looks at.
pub open spec fn model_records(
    report: ConsumptionReport,
    scope: Scope,
    model: Seq<char>,
    n: int,
) -> Seq<int> {
    Seq::new(n as nat, |i: int| i).filter(
        |i: int|
            within(record_at(report, i), scope.window, scope.clock) && model_found(
                record_at(report, i),
                scope.query,
            ) && record_at(report, i).model_id == model,
    )
}

impl ModelView {
    /// The row states the sums over some records: how many there are, their
    /// tokens, what they would have cost, and how many come from each client.
    pub open spec fn adds_up(
        self,
        report: ConsumptionReport,
        pricing: PricingEngine,
        own: Seq<int>,
    ) -> bool {
        &&& own.len() > 0
        &&& self.records == own.len()
        &&& self.tokens.add_up(report, own)
        &&& self.api_value_usd == amount_total(
            own.map_values(|i: int| value_at(report, pricing, i)),
        )
        &&& counts_names(
            self.clients,
            own.map_values(|i: int| client_name(record_at(report, i).client)),
        )
    }

    proof fn lemma_adds_up(
        self,
        report: ConsumptionReport,
        pricing: PricingEngine,
        own: Seq<int>,
        next: int,
    )
        requires
            own.len() < usize::MAX,
            own.len() > 0 ==> self.adds_up(report, pricing, own),
            own.len() == 0 ==> self == ModelView::none(self.model),
        ensures
            self.with(
                client_name(record_at(report, next).client),
                record_at(report, next).tokens,
                value_at(report, pricing, next),
            ).adds_up(report, pricing, own.push(next)),
    {
        let client = |i: int| client_name(record_at(report, i).client);
        lemma_one_amount_more(own, next, |i: int| value_at(report, pricing, i));
        if own.len() == 0 {
            assert(own =~= Seq::empty());
            UsageTokens::lemma_none_add_up(report);
        }
        self.tokens.lemma_add_up(report, own, next);
        law_names_are_counted(self.clients, own.map_values(client), client(next));
        assert(own.push(next).map_values(client) =~= own.map_values(client).push(client(next)));
    }
}

/// The rows are one for each model, and each states the sums over its records.
spec fn models_add_up(
    rows: Seq<ModelView>,
    report: ConsumptionReport,
    pricing: PricingEngine,
    scope: Scope,
    n: int,
) -> bool {
    &&& forall|i: int, j: int|
        0 <= i < j < rows.len() ==> (#[trigger] rows[i]).model != (#[trigger] rows[j]).model
    &&& forall|i: int|
        0 <= i < rows.len() ==> (#[trigger] rows[i]).adds_up(
            report,
            pricing,
            model_records(report, scope, rows[i].model, n),
        )
    &&& forall|model: Seq<char>|
        #![trigger model_records(report, scope, model, n)]
        model_records(report, scope, model, n).len() > 0 ==> exists|i: int|
            0 <= i < rows.len() && (#[trigger] rows[i]).model == model
}

proof fn lemma_model_records(report: ConsumptionReport, scope: Scope, model: Seq<char>, n: int)
    requires
        n > 0,
    ensures
        model_records(report, scope, model, n - 1).len() <= n - 1,
        ({
            let record = record_at(report, n - 1);
            let own = model_records(report, scope, model, n - 1);
            model_records(report, scope, model, n) == if within(
                record,
                scope.window,
                scope.clock,
            ) && model_found(record, scope.query) && record.model_id == model {
                own.push(n - 1)
            } else {
                own
            }
        }),
{
    let ours = |i: int|
        within(record_at(report, i), scope.window, scope.clock) && model_found(
            record_at(report, i),
            scope.query,
        ) && record_at(report, i).model_id == model;
    let before = Seq::new((n - 1) as nat, |i: int| i);
    assert(Seq::new(n as nat, |i: int| i) =~= before.push(n - 1));
    before.lemma_filter_push(n - 1, ours);
    before.lemma_filter_len(ours);
}

proof fn lemma_models_add_up(
    report: ConsumptionReport,
    pricing: PricingEngine,
    scope: Scope,
    n: int,
)
    requires
        0 <= n <= report.snapshot.records@.len(),
    ensures
        models_add_up(models_over(report, pricing, scope, n), report, pricing, scope, n),
    decreases n,
{
    if n == 0 {
        assert forall|model: Seq<char>|
            #![trigger model_records(report, scope, model, n)]
            model_records(report, scope, model, n).len() == 0 by {
            reveal(Seq::filter);
            assert(Seq::new(0, |i: int| i) =~= Seq::empty());
        }
    } else {
        lemma_models_add_up(report, pricing, scope, n - 1);
        let before = models_over(report, pricing, scope, n - 1);
        let rows = models_over(report, pricing, scope, n);
        let record = record_at(report, n - 1);
        let name = record.model_id;
        assert forall|model: Seq<char>|
            #![trigger model_records(report, scope, model, n)]
            model_records(report, scope, model, n) == if within(
                record,
                scope.window,
                scope.clock,
            ) && model_found(record, scope.query) && name == model {
                model_records(report, scope, model, n - 1).push(n - 1)
            } else {
                model_records(report, scope, model, n - 1)
            } by {
            lemma_model_records(report, scope, model, n);
        }
        if within(record, scope.window, scope.clock) && model_found(record, scope.query) {
            let own = model_records(report, scope, name, n - 1);
            let wanted = |row: ModelView| row.model == name;
            lemma_model_records(report, scope, name, n);
            assert(report.snapshot.records@.len() == report.snapshot.records.len());
            crate::sort::lemma_first_where(before, wanted, 0);
            let place = first_where(before, wanted, 0);
            let spot = match place {
                Some(at) => at,
                None => before.len() as int,
            };
            if place is Some {
                before[spot].lemma_adds_up(report, pricing, own, n - 1);
            } else {
                if own.len() > 0 {
                    let i = choose|i: int|
                        0 <= i < before.len() && (#[trigger] before[i]).model == name;
                    assert(!wanted(before[i]));
                }
                ModelView::none(name).lemma_adds_up(report, pricing, own, n - 1);
            }
            assert(rows[spot].model == name);
            assert forall|i: int| 0 <= i < rows.len() implies (#[trigger] rows[i]).adds_up(
                report,
                pricing,
                model_records(report, scope, rows[i].model, n),
            ) by {
                if i != spot {
                    assert(rows[i] == before[i]);
                    if place is None {
                        assert(!wanted(before[i]));
                    }
                }
            }
            assert forall|model: Seq<char>|
                #![trigger model_records(report, scope, model, n)]
                model_records(report, scope, model, n).len() > 0 implies exists|i: int|
                0 <= i < rows.len() && (#[trigger] rows[i]).model == model by {
                if model != name {
                    let i = choose|i: int|
                        0 <= i < before.len() && (#[trigger] before[i]).model == model;
                    assert(rows[i].model == model);
                }
            }
        }
    }
}

/// The row of a model states the sums over all its records that the ledger
/// looks at, in their order and from zero.
pub proof fn law_model_rows_add_up(
    report: ConsumptionReport,
    pricing: PricingEngine,
    metric: ConsumptionMetric,
    scope: Scope,
    at: int,
)
    requires
        0 <= at < model_rows(report, pricing, metric, scope).len(),
    ensures
        ({
            let row = model_rows(report, pricing, metric, scope)[at];
            row.adds_up(
                report,
                pricing,
                model_records(report, scope, row.model, report.snapshot.records@.len() as int),
            )
        }),
{
    let n = report.snapshot.records@.len() as int;
    let rows = models_over(report, pricing, scope, n);
    lemma_models_add_up(report, pricing, scope, n);
    let before = |a: ModelView, b: ModelView| model_ranks(a, b, metric);
    lemma_sorted_contains(rows, before);
    assert(rows.contains(model_rows(report, pricing, metric, scope)[at]));
}

/// Every record that the ledger looks at counts in a row of its model.
pub proof fn law_every_model_has_a_row(
    report: ConsumptionReport,
    pricing: PricingEngine,
    metric: ConsumptionMetric,
    scope: Scope,
    i: int,
)
    requires
        0 <= i < report.snapshot.records@.len(),
        within(record_at(report, i), scope.window, scope.clock),
        model_found(record_at(report, i), scope.query),
    ensures
        exists|k: int|
            0 <= k < model_rows(report, pricing, metric, scope).len() && (#[trigger] model_rows(
                report,
                pricing,
                metric,
                scope,
            )[k]).model == record_at(report, i).model_id,
{
    let n = report.snapshot.records@.len() as int;
    let rows = models_over(report, pricing, scope, n);
    let out = model_rows(report, pricing, metric, scope);
    lemma_models_add_up(report, pricing, scope, n);
    let before = |a: ModelView, b: ModelView| model_ranks(a, b, metric);
    lemma_sorted_keeps_items(rows, before);
    rows.to_multiset_ensures();
    out.to_multiset_ensures();
    let model = record_at(report, i).model_id;
    let ours = |i: int|
        within(record_at(report, i), scope.window, scope.clock) && model_found(
            record_at(report, i),
            scope.query,
        ) && record_at(report, i).model_id == model;
    let all = Seq::new(n as nat, |i: int| i);
    assert(ours(all[i]));
    all.lemma_filter_contains(ours, i);
    assert(model_records(report, scope, model, n).contains(i));
    let k = choose|k: int| 0 <= k < rows.len() && (#[trigger] rows[k]).model == model;
    assert(rows.contains(rows[k]));
    assert(rows.to_multiset().count(rows[k]) > 0);
    assert(out.contains(rows[k]));
    let at = choose|at: int| 0 <= at < out.len() && out[at] == rows[k];
    assert(out[at].model == model);
}

/// The positions, among the first `n` records, of those within a window.
pub open spec fn window_records(
    report: ConsumptionReport,
    window: LedgerWindow,
    clock: Clock,
    n: int,
) -> Seq<int> {
    Seq::new(n as nat, |i: int| i).filter(|i: int| within(record_at(report, i), window, clock))
}

impl TemporalUsageBucket {
    /// The bucket states the sums over some records.
    pub open spec fn adds_up(
        self,
        report: ConsumptionReport,
        pricing: PricingEngine,
        own: Seq<int>,
    ) -> bool {
        &&& self.records == own.len()
        &&& self.tokens == count_total(
            own.map_values(|i: int| record_at(report, i).tokens.reported()),
        )
        &&& self.input == count_total(own.map_values(|i: int| record_at(report, i).tokens.input))
        &&& self.output == count_total(own.map_values(|i: int| record_at(report, i).tokens.output))
        &&& self.cache == count_total(
            own.map_values(
                |i: int|
                    clamped(
                        record_at(report, i).tokens.cache_read + record_at(
                            report,
                            i,
                        ).tokens.cache_write,
                    ) as i64,
            ),
        )
        &&& self.api_usd == amount_total(own.map_values(|i: int| stated_at(report, pricing, i)))
    }
}

proof fn lemma_bucket_adds_up(
    report: ConsumptionReport,
    pricing: PricingEngine,
    window: LedgerWindow,
    clock: Clock,
    n: int,
)
    requires
        0 <= n <= report.snapshot.records@.len(),
    ensures
        bucket_over(report, pricing, window, clock, n).window == window,
        bucket_over(report, pricing, window, clock, n).adds_up(
            report,
            pricing,
            window_records(report, window, clock, n),
        ),
        window_records(report, window, clock, n).len() <= n,
    decreases n,
{
    let ours = |i: int| within(record_at(report, i), window, clock);
    if n == 0 {
        reveal(Seq::filter);
        assert(Seq::new(0, |i: int| i) =~= Seq::empty());
    } else {
        lemma_bucket_adds_up(report, pricing, window, clock, n - 1);
        assert(report.snapshot.records@.len() == report.snapshot.records.len());
        let before = Seq::new((n - 1) as nat, |i: int| i);
        assert(Seq::new(n as nat, |i: int| i) =~= before.push(n - 1));
        before.lemma_filter_push(n - 1, ours);
        let own = window_records(report, window, clock, n - 1);
        lemma_one_more_count(own, n - 1, |i: int| record_at(report, i).tokens.reported());
        lemma_one_more_count(own, n - 1, |i: int| record_at(report, i).tokens.input);
        lemma_one_more_count(own, n - 1, |i: int| record_at(report, i).tokens.output);
        lemma_one_more_count(
            own,
            n - 1,
            |i: int|
                clamped(
                    record_at(report, i).tokens.cache_read + record_at(report, i).tokens.cache_write,
                ) as i64,
        );
        lemma_one_amount_more(own, n - 1, |i: int| stated_at(report, pricing, i));
    }
}

/// There are five buckets, of today, the last day, the last week, the last
/// month and all time, and each states the sums over the records within its
/// window.
pub proof fn law_buckets_add_up(
    report: ConsumptionReport,
    pricing: PricingEngine,
    clock: Clock,
    at: int,
)
    requires
        0 <= at < 5,
    ensures
        buckets(report, pricing, clock).len() == 5,
        buckets(report, pricing, clock)[0].window is Today,
        buckets(report, pricing, clock)[1].window is Last24h,
        buckets(report, pricing, clock)[2].window is Last7d,
        buckets(report, pricing, clock)[3].window is Last30d,
        buckets(report, pricing, clock)[4].window is AllTime,
        buckets(report, pricing, clock)[at].adds_up(
            report,
            pricing,
            window_records(
                report,
                buckets(report, pricing, clock)[at].window,
                clock,
                report.snapshot.records@.len() as int,
            ),
        ),
{
    let n = report.snapshot.records@.len() as int;
    lemma_bucket_adds_up(report, pricing, LedgerWindow::Today, clock, n);
    lemma_bucket_adds_up(report, pricing, LedgerWindow::Last24h, clock, n);
    lemma_bucket_adds_up(report, pricing, LedgerWindow::Last7d, clock, n);
    lemma_bucket_adds_up(report, pricing, LedgerWindow::Last30d, clock, n);
    lemma_bucket_adds_up(report, pricing, LedgerWindow::AllTime, clock, n);
}

/// A window reaches back by its length, its first moment with it: one day has
/// 86400 seconds. Today holds the records of the local date, and those since
/// the local day began where that is known. All time leaves nothing out.
pub proof fn law_windows_reach_back(record: RecordView, clock: Clock)
    requires
        clock.now_ms >= 0,
    ensures
        within(record, LedgerWindow::Last24h, clock) <==> clock.now_ms - record.timestamp
            <= 86_400_000,
        within(record, LedgerWindow::Last7d, clock) <==> clock.now_ms - record.timestamp
            <= 604_800_000,
        within(record, LedgerWindow::Last30d, clock) <==> clock.now_ms - record.timestamp
            <= 2_592_000_000,
        within(record, LedgerWindow::AllTime, clock),
        record.date == clock.today@ ==> within(record, LedgerWindow::Today, clock),
        clock.today_start_ms > 0 && record.timestamp >= clock.today_start_ms ==> within(
            record,
            LedgerWindow::Today,
            clock,
        ),
        record.date != clock.today@ && (clock.today_start_ms <= 0 || record.timestamp
            < clock.today_start_ms) ==> !within(record, LedgerWindow::Today, clock),
{
}

/// The amount of a record is the one that its kept quote states; where that
/// states none, or there is no kept quote, it is the one that a new quote
/// states, and zero where that states none either.
pub proof fn law_kept_amounts_count_first(
    report: ConsumptionReport,
    pricing: PricingEngine,
    i: int,
    quotes: Vec<PriceQuote>,
)
    requires
        report.quotes == Some(quotes),
        0 <= i,
    ensures
        i < quotes@.len() && quotes@[i].value_usd is Some ==> value_at(report, pricing, i)
            == quotes@[i].value_usd->0,
        i >= quotes@.len() || quotes@[i].value_usd is None ==> match pricing.quoted(
            record_at(report, i),
        ).value_usd {
            Some(value) => value_at(report, pricing, i) == value,
            None => value_at(report, pricing, i) == (Quantity { bits: 0 }),
        },
        i < quotes@.len() ==> quote_at(report, pricing, i) == quotes@[i]@,
        i >= quotes@.len() ==> quote_at(report, pricing, i) == pricing.quoted(
            record_at(report, i),
        ),
        i < quotes@.len() && quotes@[i].value_usd is Some ==> stated_at(report, pricing, i)
            == quotes@[i].value_usd->0,
        i >= quotes@.len() || quotes@[i].value_usd is None ==> stated_at(report, pricing, i) == (
        Quantity { bits: 0 }),
{
}

/// Without kept quotes a record is quoted anew.
pub proof fn law_records_without_quotes_are_quoted(
    report: ConsumptionReport,
    pricing: PricingEngine,
    i: int,
)
    requires
        report.quotes is None,
    ensures
        quote_at(report, pricing, i) == pricing.quoted(record_at(report, i)),
        match pricing.quoted(record_at(report, i)).value_usd {
            Some(value) => value_at(report, pricing, i) == value && stated_at(report, pricing, i)
                == value,
            None => value_at(report, pricing, i) == (Quantity { bits: 0 }) && stated_at(
                report,
                pricing,
                i,
            ) == (Quantity { bits: 0 }),
        },
{
}

/// A search without text finds every record. One with a text finds, in whatever
/// case they are written, the records whose client or model holds it; among the
/// clients it finds those of a provider too.
pub proof fn law_search_looks_at_the_names(record: RecordView, text: Seq<char>)
    ensures
        trim(text).len() == 0 ==> client_found(record, query_of(text)) && model_found(
            record,
            query_of(text),
        ),
        contains(lower(client_name(record.client)), lower(trim(text))) ==> client_found(
            record,
            query_of(text),
        ) && model_found(record, query_of(text)),
        contains(lower(record.model_id), lower(trim(text))) ==> client_found(
            record,
            query_of(text),
        ) && model_found(record, query_of(text)),
        contains(lower(record.provider_id), lower(trim(text))) ==> client_found(
            record,
            query_of(text),
        ),
        query_of(text).len() > 0 && !contains(lower(client_name(record.client)), lower(trim(text)))
            && !contains(lower(record.model_id), lower(trim(text))) ==> !model_found(
            record,
            query_of(text),
        ) && (!contains(lower(record.provider_id), lower(trim(text))) ==> !client_found(
            record,
            query_of(text),
        )),
{
}

/// Rows ranked by tokens stand with the most tokens first, whether they are of
/// clients or of models.
pub proof fn law_most_tokens_stand_first(
    clients: Seq<ClientView>,
    models: Seq<ModelView>,
    i: int,
    j: int,
)
    requires
        0 <= i < j,
    ensures
        j < clients.len() ==> clients_ranked(
            clients,
            ConsumptionMetric::Tokens,
        )[i].tokens.reported() >= clients_ranked(
            clients,
            ConsumptionMetric::Tokens,
        )[j].tokens.reported(),
        j < models.len() ==> models_ranked(models, ConsumptionMetric::Tokens)[i].tokens.reported()
            >= models_ranked(models, ConsumptionMetric::Tokens)[j].tokens.reported(),
        clients_ranked(clients, ConsumptionMetric::Tokens).to_multiset() == clients.to_multiset(),
        models_ranked(models, ConsumptionMetric::Tokens).to_multiset() == models.to_multiset(),
{
    let first = |a: ClientView, b: ClientView| client_ranks(a, b, ConsumptionMetric::Tokens);
    let ahead = |a: ModelView, b: ModelView| model_ranks(a, b, ConsumptionMetric::Tokens);
    assert(orders(first));
    assert(orders(ahead));
    lemma_sorted_in_order(clients, first);
    lemma_sorted_in_order(models, ahead);
    lemma_sorted_keeps_items(clients, first);
    lemma_sorted_keeps_items(models, ahead);
    let by_client = clients_ranked(clients, ConsumptionMetric::Tokens);
    let by_model = models_ranked(models, ConsumptionMetric::Tokens);
    if j < clients.len() {
        assert(!first(by_client[j], by_client[i]));
    }
    if j < models.len() {
        assert(!ahead(by_model[j], by_model[i]));
    }
}

/// Rows ranked by what they would have cost stand with the largest amount
/// first, as long as every amount is a number.
pub proof fn law_largest_amounts_stand_first(
    clients: Seq<ClientView>,
    models: Seq<ModelView>,
    i: int,
    j: int,
)
    requires
        0 <= i < j,
        forall|k: int| 0 <= k < clients.len() ==> !(#[trigger] clients[k]).api_value_usd.nan(),
        forall|k: int| 0 <= k < models.len() ==> !(#[trigger] models[k]).api_value_usd.nan(),
    ensures
        j < clients.len() ==> clients_ranked(
            clients,
            ConsumptionMetric::ApiEquivalent,
        )[i].api_value_usd.rank() >= clients_ranked(
            clients,
            ConsumptionMetric::ApiEquivalent,
        )[j].api_value_usd.rank(),
        j < models.len() ==> models_ranked(
            models,
            ConsumptionMetric::ApiEquivalent,
        )[i].api_value_usd.rank() >= models_ranked(
            models,
            ConsumptionMetric::ApiEquivalent,
        )[j].api_value_usd.rank(),
{
    let first = |a: ClientView, b: ClientView| client_ranks(a, b, ConsumptionMetric::ApiEquivalent);
    let ahead = |a: ModelView, b: ModelView| model_ranks(a, b, ConsumptionMetric::ApiEquivalent);
    let larger = |a: ClientView, b: ClientView| b.api_value_usd.rank() < a.api_value_usd.rank();
    let dearer = |a: ModelView, b: ModelView| b.api_value_usd.rank() < a.api_value_usd.rank();
    assert(orders(larger));
    assert(orders(dearer));
    lemma_sorted_same(clients, first, larger);
    lemma_sorted_same(models, ahead, dearer);
    lemma_sorted_in_order(clients, larger);
    lemma_sorted_in_order(models, dearer);
    lemma_sorted_keeps_items(clients, first);
    lemma_sorted_keeps_items(models, ahead);
    let by_client = clients_ranked(clients, ConsumptionMetric::ApiEquivalent);
    let by_model = models_ranked(models, ConsumptionMetric::ApiEquivalent);
    if j < clients.len() {
        assert(!larger(by_client[j], by_client[i]));
    }
    if j < models.len() {
        assert(!dearer(by_model[j], by_model[i]));
    }
}

/// A row without an amount shows a dash; an amount that may leave something out
/// is marked.
pub proof fn law_incomplete_amounts_are_marked(row: ClientView)
    ensures
        row.api_rows == 0 ==> row.api() == "—"@,
        row.api_rows > 0 && row.partial_rows == 0 && row.unknown_rows == 0 && row.unpriced_tokens
            <= 0 ==> row.api() == dollars(row.api_value_usd, 2),
        row.api_rows > 0 && (row.partial_rows > 0 || row.unknown_rows > 0 || row.unpriced_tokens
            > 0) ==> row.api() == dollars(row.api_value_usd, 2) + "~"@,
{
}

/// A name is parted at its hyphens, underscores and dots, and nowhere else: joined
/// with blanks, the parts are the name with a blank for each of those.
pub proof fn law_names_part_at_their_marks(text: Seq<char>)
    ensures
        join(name_parts(text), " "@) == text.map_values(
            |c: char|
                if c == '-' || c == '_' || c == '.' {
                    ' '
                } else {
                    c
                },
        ),
        name_parts(text).len() > 0,
    decreases text.len(),
{
    reveal_strlit(" ");
    let blanked = |c: char|
        if c == '-' || c == '_' || c == '.' {
            ' '
        } else {
            c
        };
    if text.len() == 0 {
        assert(join(name_parts(text), " "@) =~= text.map_values(blanked));
    } else {
        let start = text.drop_last();
        law_names_part_at_their_marks(start);
        let before = name_parts(start);
        let parts = name_parts(text);
        assert(text.map_values(blanked) =~= start.map_values(blanked).push(blanked(text.last())));
        if text.last() == '-' || text.last() == '_' || text.last() == '.' {
            assert(parts.drop_last() =~= before);
            assert(join(before, " "@) + " "@ + Seq::<char>::empty() =~= join(before, " "@).push(
                ' ',
            ));
        } else {
            assert(parts.drop_last() =~= before.drop_last());
            if before.len() == 1 {
                assert(parts[0] == before[0].push(text.last()));
            } else {
                assert(join(before.drop_last(), " "@) + " "@ + before.last().push(text.last())
                    =~= (join(before.drop_last(), " "@) + " "@ + before.last()).push(text.last()));
            }
        }
    }
}

} // verus!
