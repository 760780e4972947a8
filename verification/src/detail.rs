//! The detail view: what one window, one client or one model comes to.

use vstd::prelude::*;

use crate::arithmetic::amount_total;
use crate::counts::{count_total, count_up, sat_add, sat_sum};
use crate::labels::{client_name, normalize_client_id};
use crate::ledger::{add_name, by_frequency, client_rows, client_views, consumption_rows};
use crate::ledger::{model_consumption_rows, model_rows, model_views, name_by_frequency};
use crate::ledger::{named_counts, one_more, query_of, record_at, record_in_window, record_value};
use crate::ledger::{value_at, window_records, with_name, within, Clock, ConsumptionMetric};
use crate::ledger::{LedgerWindow, NamedCount, Scope};
use crate::limits::{ProviderSnapshot, ProviderView};
use crate::pricing::PricingEngine;
use crate::quantity::{Quantity, ZERO};
use crate::report::ConsumptionReport;
use crate::sort::{first_where, lemma_is_first_where, lemma_sorted_map, sort_by, sorted};
use crate::text::same;
use crate::usage::{RecordView, UsageTokens};

verus! {

/// A part of some usage, by name, as a `(String, i64, Quantity, usize)` says
/// it.
pub struct PortionView {
    pub name: Seq<char>,
    pub tokens: i64,
    pub api_usd: Quantity,
    pub calls: usize,
}

pub open spec fn portion(item: (String, i64, Quantity, usize)) -> PortionView {
    PortionView { name: item.0@, tokens: item.1, api_usd: item.2, calls: item.3 }
}

pub open spec fn portions(items: Seq<(String, i64, Quantity, usize)>) -> Seq<PortionView> {
    items.map_values(|item: (String, i64, Quantity, usize)| portion(item))
}

/// The parts with one call more of a name.
pub open spec fn with_portion(
    parts: Seq<PortionView>,
    name: Seq<char>,
    tokens: i64,
    value: Quantity,
) -> Seq<PortionView> {
    match first_where(parts, |part: PortionView| part.name == name, 0) {
        Some(at) => parts.update(
            at,
            PortionView {
                name: parts[at].name,
                tokens: sat_sum(parts[at].tokens, tokens),
                api_usd: parts[at].api_usd.sum(value),
                calls: one_more(parts[at].calls),
            },
        ),
        None => parts.push(
            PortionView {
                name,
                tokens: sat_sum(0, tokens),
                api_usd: (Quantity { bits: ZERO }).sum(value),
                calls: one_more(0),
            },
        ),
    }
}

fn add_portion(
    parts: &mut Vec<(String, i64, Quantity, usize)>,
    name: &str,
    tokens: i64,
    value: Quantity,
)
    ensures
        portions(final(parts)@) == with_portion(portions(old(parts)@), name@, tokens, value),
{
    let ghost start = parts@;
    let ghost views = portions(parts@);
    let ghost wanted = |part: PortionView| part.name == name@;
    let mut i: usize = 0;
    while i < parts.len()
        invariant
            i <= parts@.len(),
            parts@ == start,
            start == old(parts)@,
            views == portions(start),
            wanted == |part: PortionView| part.name == name@,
            forall|k: int| 0 <= k < i ==> !wanted(#[trigger] views[k]),
        decreases parts@.len() - i,
    {
        assert(views[i as int] == portion(parts@[i as int]));
        if same(parts[i].0.as_str(), name) {
            proof {
                lemma_is_first_where(views, wanted, Some(i as int));
            }
            let part = (
                parts[i].0.clone(),
                sat_add(parts[i].1, tokens),
                parts[i].2.plus(value),
                count_up(parts[i].3),
            );
            parts.set(i, part);
            assert(portions(parts@) =~= views.update(i as int, portion(part)));
            return ;
        }
        i = i + 1;
    }
    proof {
        lemma_is_first_where(views, wanted, None);
    }
    let part = (
        name.to_owned(),
        sat_add(0, tokens),
        (Quantity { bits: ZERO }).plus(value),
        count_up(0),
    );
    parts.push(part);
    assert(portions(parts@) =~= views.push(portion(part)));
}

/// The parts, the largest first.
pub open spec fn largest_first(parts: Seq<PortionView>) -> Seq<PortionView> {
    sorted(parts, |a: PortionView, b: PortionView| a.tokens > b.tokens)
}

fn sort_portions(parts: &mut Vec<(String, i64, Quantity, usize)>)
    ensures
        portions(final(parts)@) == largest_first(portions(old(parts)@)),
{
    let ghost start = parts@;
    let ghost before = |a: (String, i64, Quantity, usize), b: (String, i64, Quantity, usize)|
        a.1 > b.1;
    let less = |a: &(String, i64, Quantity, usize), b: &(String, i64, Quantity, usize)| -> (yes: bool)
        ensures
            yes == (a.1 > b.1),
        { a.1 > b.1 };
    sort_by(parts, less, Ghost(before));
    proof {
        lemma_sorted_map(
            start,
            before,
            |item: (String, i64, Quantity, usize)| portion(item),
            |a: PortionView, b: PortionView| a.tokens > b.tokens,
        );
    }
}

/// A client within a window, and the models that it called.
#[derive(Debug)]
pub struct WindowClientItem {
    pub client: String,
    pub tokens: i64,
    pub api_usd: Quantity,
    pub calls: usize,
    pub models: Vec<(String, i64, Quantity, usize)>,
}

/// What a `WindowClientItem` says.
pub struct ClientItemView {
    pub client: Seq<char>,
    pub tokens: i64,
    pub api_usd: Quantity,
    pub calls: usize,
    pub models: Seq<PortionView>,
}

impl View for WindowClientItem {
    type V = ClientItemView;

    open spec fn view(&self) -> ClientItemView {
        ClientItemView {
            client: self.client@,
            tokens: self.tokens,
            api_usd: self.api_usd,
            calls: self.calls,
            models: portions(self.models@),
        }
    }
}

pub open spec fn client_item_views(items: Seq<WindowClientItem>) -> Seq<ClientItemView> {
    items.map_values(|item: WindowClientItem| item@)
}

/// A model within a window, and the clients that called it.
#[derive(Debug)]
struct WindowModelItem {
    model: String,
    tokens: i64,
    api_usd: Quantity,
    calls: usize,
    clients: Vec<(String, usize)>,
}

/// What is known of a model within a window.
pub struct ModelItemView {
    pub model: Seq<char>,
    pub tokens: i64,
    pub api_usd: Quantity,
    pub calls: usize,
    pub clients: Seq<NamedCount>,
}

impl WindowModelItem {
    spec fn shown(self) -> ModelItemView {
        ModelItemView {
            model: self.model@,
            tokens: self.tokens,
            api_usd: self.api_usd,
            calls: self.calls,
            clients: named_counts(self.clients@),
        }
    }
}

spec fn model_items(items: Seq<WindowModelItem>) -> Seq<ModelItemView> {
    items.map_values(|item: WindowModelItem| item.shown())
}

/// A model of a window with its clients in one text.
pub struct HarnessView {
    pub model: Seq<char>,
    pub harness: Seq<char>,
    pub tokens: i64,
    pub api_usd: Quantity,
    pub calls: usize,
}

pub open spec fn harness(item: (String, String, i64, Quantity, usize)) -> HarnessView {
    HarnessView {
        model: item.0@,
        harness: item.1@,
        tokens: item.2,
        api_usd: item.3,
        calls: item.4,
    }
}

pub open spec fn harnesses(items: Seq<(String, String, i64, Quantity, usize)>) -> Seq<HarnessView> {
    items.map_values(|item: (String, String, i64, Quantity, usize)| harness(item))
}

/// The clients with one call more.
pub open spec fn with_item(
    items: Seq<ClientItemView>,
    client: Seq<char>,
    model: Seq<char>,
    tokens: i64,
    value: Quantity,
) -> Seq<ClientItemView> {
    match first_where(items, |item: ClientItemView| item.client == client, 0) {
        Some(at) => items.update(
            at,
            ClientItemView {
                client: items[at].client,
                tokens: sat_sum(items[at].tokens, tokens),
                api_usd: items[at].api_usd.sum(value),
                calls: one_more(items[at].calls),
                models: with_portion(items[at].models, model, tokens, value),
            },
        ),
        None => items.push(
            ClientItemView {
                client,
                tokens: sat_sum(0, tokens),
                api_usd: (Quantity { bits: ZERO }).sum(value),
                calls: one_more(0),
                models: with_portion(Seq::empty(), model, tokens, value),
            },
        ),
    }
}

/// The models with one call more.
pub open spec fn with_called(
    items: Seq<ModelItemView>,
    model: Seq<char>,
    client: Seq<char>,
    tokens: i64,
    value: Quantity,
) -> Seq<ModelItemView> {
    match first_where(items, |item: ModelItemView| item.model == model, 0) {
        Some(at) => items.update(
            at,
            ModelItemView {
                model: items[at].model,
                tokens: sat_sum(items[at].tokens, tokens),
                api_usd: items[at].api_usd.sum(value),
                calls: one_more(items[at].calls),
                clients: with_name(items[at].clients, client),
            },
        ),
        None => items.push(
            ModelItemView {
                model,
                tokens: sat_sum(0, tokens),
                api_usd: (Quantity { bits: ZERO }).sum(value),
                calls: one_more(0),
                clients: with_name(Seq::empty(), client),
            },
        ),
    }
}

fn add_item(
    items: &mut Vec<WindowClientItem>,
    client: &str,
    model: &str,
    tokens: i64,
    value: Quantity,
)
    ensures
        client_item_views(final(items)@) == with_item(
            client_item_views(old(items)@),
            client@,
            model@,
            tokens,
            value,
        ),
{
    let ghost start = items@;
    let ghost views = client_item_views(items@);
    let ghost wanted = |item: ClientItemView| item.client == client@;
    let total: usize = items.len();
    let mut i: usize = 0;
    while i < total
        invariant
            i <= total,
            total == items@.len(),
            items@ == start,
            start == old(items)@,
            views == client_item_views(start),
            wanted == |item: ClientItemView| item.client == client@,
            forall|k: int| 0 <= k < i ==> !wanted(#[trigger] views[k]),
        decreases total - i,
    {
        assert(views[i as int] == items@[i as int]@);
        if same(items[i].client.as_str(), client) {
            proof {
                lemma_is_first_where(views, wanted, Some(i as int));
            }
            let mut item = items.remove(i);
            item.tokens = sat_add(item.tokens, tokens);
            item.api_usd = item.api_usd.plus(value);
            item.calls = count_up(item.calls);
            add_portion(&mut item.models, model, tokens, value);
            items.insert(i, item);
            assert(client_item_views(items@) =~= views.update(i as int, item@));
            return ;
        }
        i = i + 1;
    }
    proof {
        lemma_is_first_where(views, wanted, None);
    }
    let mut models: Vec<(String, i64, Quantity, usize)> = Vec::new();
    assert(portions(models@) =~= Seq::<PortionView>::empty());
    add_portion(&mut models, model, tokens, value);
    let item = WindowClientItem {
        client: client.to_owned(),
        tokens: sat_add(0, tokens),
        api_usd: (Quantity { bits: ZERO }).plus(value),
        calls: count_up(0),
        models,
    };
    items.push(item);
    assert(client_item_views(items@) =~= views.push(item@));
}

fn add_called(
    items: &mut Vec<WindowModelItem>,
    model: &str,
    client: &str,
    tokens: i64,
    value: Quantity,
)
    ensures
        model_items(final(items)@) == with_called(
            model_items(old(items)@),
            model@,
            client@,
            tokens,
            value,
        ),
{
    let ghost start = items@;
    let ghost views = model_items(items@);
    let ghost wanted = |item: ModelItemView| item.model == model@;
    let total: usize = items.len();
    let mut i: usize = 0;
    while i < total
        invariant
            i <= total,
            total == items@.len(),
            items@ == start,
            start == old(items)@,
            views == model_items(start),
            wanted == |item: ModelItemView| item.model == model@,
            forall|k: int| 0 <= k < i ==> !wanted(#[trigger] views[k]),
        decreases total - i,
    {
        assert(views[i as int] == items@[i as int].shown());
        if same(items[i].model.as_str(), model) {
            proof {
                lemma_is_first_where(views, wanted, Some(i as int));
            }
            let mut item = items.remove(i);
            item.tokens = sat_add(item.tokens, tokens);
            item.api_usd = item.api_usd.plus(value);
            item.calls = count_up(item.calls);
            add_name(&mut item.clients, client);
            items.insert(i, item);
            assert(model_items(items@) =~= views.update(i as int, item.shown()));
            return ;
        }
        i = i + 1;
    }
    proof {
        lemma_is_first_where(views, wanted, None);
    }
    let mut clients: Vec<(String, usize)> = Vec::new();
    assert(named_counts(clients@) =~= Seq::<NamedCount>::empty());
    add_name(&mut clients, client);
    let item = WindowModelItem {
        model: model.to_owned(),
        tokens: sat_add(0, tokens),
        api_usd: (Quantity { bits: ZERO }).plus(value),
        calls: count_up(0),
        clients,
    };
    items.push(item);
    assert(model_items(items@) =~= views.push(item.shown()));
}

/// What the records of a window come to, by client and by model.
pub struct WindowSums {
    pub records: usize,
    pub tokens: UsageTokens,
    pub api_usd: Quantity,
    pub clients: Seq<ClientItemView>,
    pub models: Seq<ModelItemView>,
}

pub open spec fn window_sums(
    report: ConsumptionReport,
    pricing: PricingEngine,
    window: LedgerWindow,
    clock: Clock,
    n: int,
) -> WindowSums
    decreases n,
{
    if n <= 0 {
        WindowSums {
            records: 0,
            tokens: UsageTokens::none(),
            api_usd: Quantity { bits: ZERO },
            clients: Seq::empty(),
            models: Seq::empty(),
        }
    } else {
        let before = window_sums(report, pricing, window, clock, n - 1);
        let record = record_at(report, n - 1);
        let value = value_at(report, pricing, n - 1);
        let client = client_name(record.client);
        if within(record, window, clock) {
            WindowSums {
                records: one_more(before.records),
                tokens: before.tokens.plus(record.tokens),
                api_usd: before.api_usd.sum(value),
                clients: with_item(
                    before.clients,
                    client,
                    record.model_id,
                    record.tokens.reported(),
                    value,
                ),
                models: with_called(
                    before.models,
                    record.model_id,
                    client,
                    record.tokens.reported(),
                    value,
                ),
            }
        } else {
            before
        }
    }
}

/// The clients of a window, the largest first, each with its models, the
/// largest first.
pub open spec fn clients_shown(items: Seq<ClientItemView>) -> Seq<ClientItemView> {
    sorted(
        items.map_values(
            |item: ClientItemView|
                ClientItemView { models: largest_first(item.models), ..item },
        ),
        |a: ClientItemView, b: ClientItemView| a.tokens > b.tokens,
    )
}

/// The models of a window, the largest first, each with its clients in one
/// text.
pub open spec fn models_shown(items: Seq<ModelItemView>) -> Seq<HarnessView> {
    sorted(
        items.map_values(
            |item: ModelItemView|
                HarnessView {
                    model: item.model,
                    harness: by_frequency(item.clients),
                    tokens: item.tokens,
                    api_usd: item.api_usd,
                    calls: item.calls,
                },
        ),
        |a: HarnessView, b: HarnessView| a.tokens > b.tokens,
    )
}

fn show_clients(items: Vec<WindowClientItem>) -> (out: Vec<WindowClientItem>)
    ensures
        client_item_views(out@) == clients_shown(client_item_views(items@)),
{
    let ghost views = client_item_views(items@);
    let ghost arranged = views.map_values(
        |item: ClientItemView| ClientItemView { models: largest_first(item.models), ..item },
    );
    let mut out: Vec<WindowClientItem> = Vec::new();
    let mut rest = items;
    let ghost start = rest@;
    while rest.len() > 0
        invariant
            out@.len() + rest@.len() == start.len(),
            views == client_item_views(start),
            arranged == views.map_values(
                |item: ClientItemView|
                    ClientItemView { models: largest_first(item.models), ..item },
            ),
            forall|k: int| 0 <= k < rest@.len() ==> #[trigger] rest@[k] == start[out@.len() + k],
            forall|k: int| 0 <= k < out@.len() ==> (#[trigger] out@[k])@ == arranged[k],
        decreases rest@.len(),
    {
        let ghost done = out@.len();
        let mut item = rest.remove(0);
        assert(item == start[done as int]);
        assert(views[done as int] == item@);
        sort_portions(&mut item.models);
        out.push(item);
        assert(item@ == arranged[done as int]);
    }
    assert(client_item_views(out@) =~= arranged);
    let ghost unsorted = out@;
    let ghost before = |a: WindowClientItem, b: WindowClientItem| a.tokens > b.tokens;
    let less = |a: &WindowClientItem, b: &WindowClientItem| -> (yes: bool)
        ensures
            yes == (a.tokens > b.tokens),
        { a.tokens > b.tokens };
    sort_by(&mut out, less, Ghost(before));
    proof {
        lemma_sorted_map(
            unsorted,
            before,
            |item: WindowClientItem| item@,
            |a: ClientItemView, b: ClientItemView| a.tokens > b.tokens,
        );
    }
    out
}

fn show_models(items: &Vec<WindowModelItem>) -> (out: Vec<
    (String, String, i64, Quantity, usize),
>)
    ensures
        harnesses(out@) == models_shown(model_items(items@)),
{
    let ghost views = model_items(items@);
    let ghost arranged = views.map_values(
        |item: ModelItemView|
            HarnessView {
                model: item.model,
                harness: by_frequency(item.clients),
                tokens: item.tokens,
                api_usd: item.api_usd,
                calls: item.calls,
            },
    );
    let mut out: Vec<(String, String, i64, Quantity, usize)> = Vec::new();
    let mut i: usize = 0;
    while i < items.len()
        invariant
            i <= items@.len(),
            out@.len() == i,
            views == model_items(items@),
            arranged == views.map_values(
                |item: ModelItemView|
                    HarnessView {
                        model: item.model,
                        harness: by_frequency(item.clients),
                        tokens: item.tokens,
                        api_usd: item.api_usd,
                        calls: item.calls,
                    },
            ),
            forall|k: int| 0 <= k < i ==> harness(#[trigger] out@[k]) == arranged[k],
        decreases items@.len() - i,
    {
        let item = &items[i];
        assert(views[i as int] == item.shown());
        let shown = (
            item.model.clone(),
            name_by_frequency(&item.clients),
            item.tokens,
            item.api_usd,
            item.calls,
        );
        out.push(shown);
        assert(harness(shown) == arranged[i as int]);
        i = i + 1;
    }
    assert(harnesses(out@) =~= arranged);
    let ghost unsorted = out@;
    let ghost before = |a: (String, String, i64, Quantity, usize), b: (
        String,
        String,
        i64,
        Quantity,
        usize,
    )| a.2 > b.2;
    let less = |
        a: &(String, String, i64, Quantity, usize),
        b: &(String, String, i64, Quantity, usize),
    | -> (yes: bool)
        ensures
            yes == (a.2 > b.2),
        { a.2 > b.2 };
    sort_by(&mut out, less, Ghost(before));
    proof {
        lemma_sorted_map(
            unsorted,
            before,
            |item: (String, String, i64, Quantity, usize)| harness(item),
            |a: HarnessView, b: HarnessView| a.tokens > b.tokens,
        );
    }
    out
}

/// What the detail view shows.
#[allow(inconsistent_fields)]
#[derive(Debug)]
pub enum DetailModal {
    Closed,
    LimitsProvider(Box<ProviderSnapshot>),
    ConsumptionWindow {
        window: LedgerWindow,
        records: usize,
        tokens: UsageTokens,
        api_usd: Quantity,
        clients: Vec<WindowClientItem>,
        models: Vec<(String, String, i64, Quantity, usize)>,
    },
    ConsumptionClient {
        client: String,
        window: LedgerWindow,
        records: usize,
        tokens: UsageTokens,
        api_usd: Quantity,
        models: Vec<(String, i64, Quantity, usize)>,
    },
    ConsumptionModel {
        model: String,
        window: LedgerWindow,
        records: usize,
        tokens: UsageTokens,
        api_usd: Quantity,
        clients: Vec<(String, i64, Quantity, usize)>,
    },
}

/// What a `DetailModal` says.
#[allow(inconsistent_fields)]
pub enum DetailView {
    Closed,
    LimitsProvider(ProviderView),
    ConsumptionWindow {
        window: LedgerWindow,
        records: usize,
        tokens: UsageTokens,
        api_usd: Quantity,
        clients: Seq<ClientItemView>,
        models: Seq<HarnessView>,
    },
    ConsumptionClient {
        client: Seq<char>,
        window: LedgerWindow,
        records: usize,
        tokens: UsageTokens,
        api_usd: Quantity,
        models: Seq<PortionView>,
    },
    ConsumptionModel {
        model: Seq<char>,
        window: LedgerWindow,
        records: usize,
        tokens: UsageTokens,
        api_usd: Quantity,
        clients: Seq<PortionView>,
    },
}

impl View for DetailModal {
    type V = DetailView;

    open spec fn view(&self) -> DetailView {
        match self {
            DetailModal::Closed => DetailView::Closed,
            DetailModal::LimitsProvider(row) => DetailView::LimitsProvider(row@),
            DetailModal::ConsumptionWindow {
                window,
                records,
                tokens,
                api_usd,
                clients,
                models,
            } => DetailView::ConsumptionWindow {
                window: *window,
                records: *records,
                tokens: *tokens,
                api_usd: *api_usd,
                clients: client_item_views(clients@),
                models: harnesses(models@),
            },
            DetailModal::ConsumptionClient {
                client,
                window,
                records,
                tokens,
                api_usd,
                models,
            } => DetailView::ConsumptionClient {
                client: client@,
                window: *window,
                records: *records,
                tokens: *tokens,
                api_usd: *api_usd,
                models: portions(models@),
            },
            DetailModal::ConsumptionModel {
                model,
                window,
                records,
                tokens,
                api_usd,
                clients,
            } => DetailView::ConsumptionModel {
                model: model@,
                window: *window,
                records: *records,
                tokens: *tokens,
                api_usd: *api_usd,
                clients: portions(clients@),
            },
        }
    }
}

/// The detail of a window.
pub open spec fn window_detail(
    report: ConsumptionReport,
    pricing: PricingEngine,
    window: LedgerWindow,
    clock: Clock,
) -> DetailView {
    let sums = window_sums(report, pricing, window, clock, report.snapshot.records@.len() as int);
    DetailView::ConsumptionWindow {
        window,
        records: sums.records,
        tokens: sums.tokens,
        api_usd: sums.api_usd,
        clients: clients_shown(sums.clients),
        models: models_shown(sums.models),
    }
}

fn open_window(
    report: &ConsumptionReport,
    pricing: &PricingEngine,
    window: LedgerWindow,
    clock: &Clock,
) -> (out: DetailModal)
    ensures
        out@ == window_detail(*report, *pricing, window, *clock),
{
    let mut records: usize = 0;
    let mut tokens = UsageTokens::default();
    let mut api_usd = Quantity { bits: ZERO };
    let mut clients: Vec<WindowClientItem> = Vec::new();
    let mut models: Vec<WindowModelItem> = Vec::new();
    let mut i: usize = 0;
    assert(client_item_views(clients@) =~= Seq::<ClientItemView>::empty());
    assert(model_items(models@) =~= Seq::<ModelItemView>::empty());
    while i < report.snapshot.records.len()
        invariant
            i <= report.snapshot.records@.len(),
            (WindowSums {
                records,
                tokens,
                api_usd,
                clients: client_item_views(clients@),
                models: model_items(models@),
            }) == window_sums(*report, *pricing, window, *clock, i as int),
        decreases report.snapshot.records@.len() - i,
    {
        let record = &report.snapshot.records[i];
        assert(record@ == record_at(*report, i as int));
        if record_in_window(record, window, clock) {
            let value = record_value(report, pricing, i);
            let client = normalize_client_id(record.client.as_str());
            let total: i64 = record.tokens.reported_total_without_reasoning();
            records = count_up(records);
            tokens.add_assign(&record.tokens);
            api_usd = api_usd.plus(value);
            add_item(&mut clients, client.as_str(), record.model_id.as_str(), total, value);
            add_called(&mut models, record.model_id.as_str(), client.as_str(), total, value);
        }
        i = i + 1;
    }
    DetailModal::ConsumptionWindow {
        window,
        records,
        tokens,
        api_usd,
        clients: show_clients(clients),
        models: show_models(&models),
    }
}

/// What is looked at within a window: the records of one client by model, or
/// those of one model by client.
pub enum Subject {
    Client(Seq<char>),
    Model(Seq<char>),
}

impl Subject {
    pub open spec fn holds(self, record: RecordView) -> bool {
        match self {
            Subject::Client(client) => client_name(record.client) == client,
            Subject::Model(model) => record.model_id == model,
        }
    }

    /// The name under which a record is counted.
    pub open spec fn part(self, record: RecordView) -> Seq<char> {
        match self {
            Subject::Client(_) => record.model_id,
            Subject::Model(_) => client_name(record.client),
        }
    }
}

/// The parts of a subject over the first `n` records.
pub open spec fn parts_over(
    report: ConsumptionReport,
    pricing: PricingEngine,
    window: LedgerWindow,
    clock: Clock,
    subject: Subject,
    n: int,
) -> Seq<PortionView>
    decreases n,
{
    if n <= 0 {
        Seq::empty()
    } else {
        let before = parts_over(report, pricing, window, clock, subject, n - 1);
        let record = record_at(report, n - 1);
        if within(record, window, clock) && subject.holds(record) {
            with_portion(
                before,
                subject.part(record),
                record.tokens.reported(),
                value_at(report, pricing, n - 1),
            )
        } else {
            before
        }
    }
}

/// The parts of a subject, the largest first.
pub open spec fn parts_of(
    report: ConsumptionReport,
    pricing: PricingEngine,
    window: LedgerWindow,
    clock: Clock,
    subject: Subject,
) -> Seq<PortionView> {
    largest_first(
        parts_over(
            report,
            pricing,
            window,
            clock,
            subject,
            report.snapshot.records@.len() as int,
        ),
    )
}

fn client_parts(
    report: &ConsumptionReport,
    pricing: &PricingEngine,
    window: LedgerWindow,
    clock: &Clock,
    target: &str,
) -> (out: Vec<(String, i64, Quantity, usize)>)
    ensures
        portions(out@) == parts_of(*report, *pricing, window, *clock, Subject::Client(target@)),
{
    let ghost subject = Subject::Client(target@);
    let mut out: Vec<(String, i64, Quantity, usize)> = Vec::new();
    let mut i: usize = 0;
    assert(portions(out@) =~= Seq::<PortionView>::empty());
    while i < report.snapshot.records.len()
        invariant
            i <= report.snapshot.records@.len(),
            subject == Subject::Client(target@),
            portions(out@) == parts_over(*report, *pricing, window, *clock, subject, i as int),
        decreases report.snapshot.records@.len() - i,
    {
        let record = &report.snapshot.records[i];
        assert(record@ == record_at(*report, i as int));
        if record_in_window(record, window, clock) && same(
            normalize_client_id(record.client.as_str()).as_str(),
            target,
        ) {
            let value = record_value(report, pricing, i);
            add_portion(
                &mut out,
                record.model_id.as_str(),
                record.tokens.reported_total_without_reasoning(),
                value,
            );
        }
        i = i + 1;
    }
    sort_portions(&mut out);
    out
}

fn model_parts(
    report: &ConsumptionReport,
    pricing: &PricingEngine,
    window: LedgerWindow,
    clock: &Clock,
    target: &str,
) -> (out: Vec<(String, i64, Quantity, usize)>)
    ensures
        portions(out@) == parts_of(*report, *pricing, window, *clock, Subject::Model(target@)),
{
    let ghost subject = Subject::Model(target@);
    let mut out: Vec<(String, i64, Quantity, usize)> = Vec::new();
    let mut i: usize = 0;
    assert(portions(out@) =~= Seq::<PortionView>::empty());
    while i < report.snapshot.records.len()
        invariant
            i <= report.snapshot.records@.len(),
            subject == Subject::Model(target@),
            portions(out@) == parts_over(*report, *pricing, window, *clock, subject, i as int),
        decreases report.snapshot.records@.len() - i,
    {
        let record = &report.snapshot.records[i];
        assert(record@ == record_at(*report, i as int));
        if record_in_window(record, window, clock) && same(record.model_id.as_str(), target) {
            let value = record_value(report, pricing, i);
            add_portion(
                &mut out,
                normalize_client_id(record.client.as_str()).as_str(),
                record.tokens.reported_total_without_reasoning(),
                value,
            );
        }
        i = i + 1;
    }
    sort_portions(&mut out);
    out
}

/// What the ledger shows of a selection: the window itself first, then the
/// clients, then the models. A selection behind the last is the last.
pub open spec fn selected_detail(
    report: ConsumptionReport,
    pricing: PricingEngine,
    metric: ConsumptionMetric,
    scope: Scope,
    selected: int,
) -> DetailView {
    let clients = client_rows(report, pricing, metric, scope);
    let models = model_rows(report, pricing, metric, scope);
    let last = clients.len() + models.len();
    let at = if selected > last {
        last as int
    } else {
        selected
    };
    if at <= 0 {
        window_detail(report, pricing, scope.window, scope.clock)
    } else if at <= clients.len() {
        let row = clients[at - 1];
        DetailView::ConsumptionClient {
            client: row.client,
            window: scope.window,
            records: row.records,
            tokens: row.tokens,
            api_usd: row.api_value_usd,
            models: parts_of(
                report,
                pricing,
                scope.window,
                scope.clock,
                Subject::Client(row.client),
            ),
        }
    } else {
        let row = models[at - 1 - clients.len()];
        DetailView::ConsumptionModel {
            model: row.model,
            window: scope.window,
            records: row.records,
            tokens: row.tokens,
            api_usd: row.api_value_usd,
            clients: parts_of(
                report,
                pricing,
                scope.window,
                scope.clock,
                Subject::Model(row.model),
            ),
        }
    }
}

pub fn consumption_detail(
    report: &ConsumptionReport,
    pricing: &PricingEngine,
    metric: ConsumptionMetric,
    window: LedgerWindow,
    query: &str,
    selected: usize,
    clock: &Clock,
) -> (out: DetailModal)
    ensures
        out@ == selected_detail(
            *report,
            *pricing,
            metric,
            (Scope { window, query: query_of(query@), clock: *clock }),
            selected as int,
        ),
        !(out is Closed),
{
    let ghost scope = Scope { window, query: query_of(query@), clock: *clock };
    let clients = consumption_rows(report, pricing, metric, window, query, clock);
    let models = model_consumption_rows(report, pricing, metric, window, query, clock);
    let ghost client_list = client_views(clients@);
    let ghost model_list = model_views(models@);
    let first_models: u128 = clients.len() as u128;
    let last: u128 = clients.len() as u128 + models.len() as u128;
    let at: u128 = if selected as u128 > last {
        last
    } else {
        selected as u128
    };
    if at == 0 {
        return open_window(report, pricing, window, clock);
    }
    if at <= first_models {
        let row = &clients[(at - 1) as usize];
        assert(client_list[at - 1] == row@);
        return DetailModal::ConsumptionClient {
            client: row.client.clone(),
            window,
            records: row.records,
            tokens: row.tokens,
            api_usd: row.api_value_usd,
            models: client_parts(report, pricing, window, clock, row.client.as_str()),
        };
    }
    let row = &models[(at - 1 - first_models) as usize];
    assert(model_list[at - 1 - first_models] == row@);
    DetailModal::ConsumptionModel {
        model: row.model.clone(),
        window,
        records: row.records,
        tokens: row.tokens,
        api_usd: row.api_value_usd,
        clients: model_parts(report, pricing, window, clock, row.model.as_str()),
    }
}

/// The positions, among the first `n` records, of those that are selected and
/// bear a name.
pub open spec fn named_rows(
    report: ConsumptionReport,
    selected: spec_fn(RecordView) -> bool,
    name: spec_fn(RecordView) -> Seq<char>,
    wanted: Seq<char>,
    n: int,
) -> Seq<int> {
    Seq::new(n as nat, |i: int| i).filter(bears_name(report, selected, name, wanted))
}

/// The positions of the records that are selected and bear a name.
pub open spec fn bears_name(
    report: ConsumptionReport,
    selected: spec_fn(RecordView) -> bool,
    name: spec_fn(RecordView) -> Seq<char>,
    wanted: Seq<char>,
) -> spec_fn(int) -> bool {
    |i: int| selected(record_at(report, i)) && name(record_at(report, i)) == wanted
}

impl PortionView {
    /// The portion states the sums over some records: their number, their
    /// tokens and what they would have cost.
    pub open spec fn adds_up(
        self,
        report: ConsumptionReport,
        pricing: PricingEngine,
        own: Seq<int>,
    ) -> bool {
        &&& own.len() > 0
        &&& self.calls == own.len()
        &&& self.tokens == count_total(
            own.map_values(|i: int| record_at(report, i).tokens.reported()),
        )
        &&& self.api_usd == amount_total(own.map_values(|i: int| value_at(report, pricing, i)))
    }
}

/// The portions are one for each name, and each states the sums over its
/// records.
pub open spec fn portions_add_up(
    parts: Seq<PortionView>,
    report: ConsumptionReport,
    pricing: PricingEngine,
    selected: spec_fn(RecordView) -> bool,
    name: spec_fn(RecordView) -> Seq<char>,
    n: int,
) -> bool {
    &&& forall|i: int, j: int|
        0 <= i < j < parts.len() ==> (#[trigger] parts[i]).name != (#[trigger] parts[j]).name
    &&& forall|i: int|
        0 <= i < parts.len() ==> (#[trigger] parts[i]).adds_up(
            report,
            pricing,
            named_rows(report, selected, name, parts[i].name, n),
        )
    &&& forall|wanted: Seq<char>|
        #![trigger named_rows(report, selected, name, wanted, n)]
        named_rows(report, selected, name, wanted, n).len() > 0 ==> exists|i: int|
            0 <= i < parts.len() && (#[trigger] parts[i]).name == wanted
}

proof fn lemma_named_rows(
    report: ConsumptionReport,
    selected: spec_fn(RecordView) -> bool,
    name: spec_fn(RecordView) -> Seq<char>,
    wanted: Seq<char>,
    n: int,
)
    requires
        n > 0,
    ensures
        named_rows(report, selected, name, wanted, n - 1).len() <= n - 1,
        named_rows(report, selected, name, wanted, n) == if selected(record_at(report, n - 1))
            && name(record_at(report, n - 1)) == wanted {
            named_rows(report, selected, name, wanted, n - 1).push(n - 1)
        } else {
            named_rows(report, selected, name, wanted, n - 1)
        },
{
    let ours = bears_name(report, selected, name, wanted);
    let before = Seq::new((n - 1) as nat, |i: int| i);
    assert(Seq::new(n as nat, |i: int| i) =~= before.push(n - 1));
    before.lemma_filter_push(n - 1, ours);
    before.lemma_filter_len(ours);
}

proof fn lemma_no_rows(
    report: ConsumptionReport,
    pricing: PricingEngine,
    selected: spec_fn(RecordView) -> bool,
    name: spec_fn(RecordView) -> Seq<char>,
)
    ensures
        portions_add_up(Seq::empty(), report, pricing, selected, name, 0),
{
    assert forall|wanted: Seq<char>|
        #![trigger named_rows(report, selected, name, wanted, 0)]
        named_rows(report, selected, name, wanted, 0).len() == 0 by {
        reveal(Seq::filter);
        assert(Seq::new(0, |i: int| i) =~= Seq::empty());
    }
}

proof fn lemma_row_added(
    parts: Seq<PortionView>,
    report: ConsumptionReport,
    pricing: PricingEngine,
    selected: spec_fn(RecordView) -> bool,
    name: spec_fn(RecordView) -> Seq<char>,
    n: int,
)
    requires
        0 < n <= report.snapshot.records@.len(),
        portions_add_up(parts, report, pricing, selected, name, n - 1),
    ensures
        ({
            let record = record_at(report, n - 1);
            &&& !selected(record) ==> portions_add_up(parts, report, pricing, selected, name, n)
            &&& selected(record) ==> portions_add_up(
                with_portion(
                    parts,
                    name(record),
                    record.tokens.reported(),
                    value_at(report, pricing, n - 1),
                ),
                report,
                pricing,
                selected,
                name,
                n,
            )
        }),
{
    let record = record_at(report, n - 1);
    assert forall|wanted: Seq<char>|
        #![trigger named_rows(report, selected, name, wanted, n)]
        named_rows(report, selected, name, wanted, n) == if selected(record) && name(record)
            == wanted {
            named_rows(report, selected, name, wanted, n - 1).push(n - 1)
        } else {
            named_rows(report, selected, name, wanted, n - 1)
        } by {
        lemma_named_rows(report, selected, name, wanted, n);
    }
    if selected(record) {
        let own = named_rows(report, selected, name, name(record), n - 1);
        let out = with_portion(
            parts,
            name(record),
            record.tokens.reported(),
            value_at(report, pricing, n - 1),
        );
        let sought = |part: PortionView| part.name == name(record);
        lemma_named_rows(report, selected, name, name(record), n);
        assert(report.snapshot.records@.len() == report.snapshot.records.len());
        crate::sort::lemma_first_where(parts, sought, 0);
        let place = first_where(parts, sought, 0);
        let spot = match place {
            Some(at) => at,
            None => parts.len() as int,
        };
        if place is None && own.len() > 0 {
            let i = choose|i: int| 0 <= i < parts.len() && (#[trigger] parts[i]).name == name(record);
            assert(!sought(parts[i]));
        }
        let tokens = |i: int| record_at(report, i).tokens.reported();
        let amount = |i: int| value_at(report, pricing, i);
        crate::ledger::lemma_one_more_count(own, n - 1, tokens);
        crate::ledger::lemma_one_amount_more(own, n - 1, amount);
        if own.len() == 0 {
            assert(own.map_values(tokens) =~= Seq::empty());
            assert(own.map_values(amount) =~= Seq::empty());
        }
        assert(out[spot].name == name(record));
        if place is None {
            assert(own.len() == 0);
            assert(count_total(own.map_values(tokens)) == 0);
            assert(amount_total(own.map_values(amount)) == (Quantity { bits: ZERO }));
        } else {
            assert(parts[spot].adds_up(report, pricing, own));
        }
        assert(out[spot].adds_up(report, pricing, own.push(n - 1)));
        assert forall|i: int| 0 <= i < out.len() implies (#[trigger] out[i]).adds_up(
            report,
            pricing,
            named_rows(report, selected, name, out[i].name, n),
        ) by {
            if i != spot {
                assert(out[i] == parts[i]);
                if place is None {
                    assert(!sought(parts[i]));
                }
            }
        }
        assert forall|wanted: Seq<char>|
            #![trigger named_rows(report, selected, name, wanted, n)]
            named_rows(report, selected, name, wanted, n).len() > 0 implies exists|i: int|
            0 <= i < out.len() && (#[trigger] out[i]).name == wanted by {
            if wanted != name(record) {
                let i = choose|i: int|
                    0 <= i < parts.len() && (#[trigger] parts[i]).name == wanted;
                assert(out[i].name == wanted);
            } else {
                assert(out[spot].name == wanted);
            }
        }
    }
}

proof fn lemma_parts_over(
    report: ConsumptionReport,
    pricing: PricingEngine,
    window: LedgerWindow,
    clock: Clock,
    subject: Subject,
    n: int,
)
    requires
        0 <= n <= report.snapshot.records@.len(),
    ensures
        portions_add_up(
            parts_over(report, pricing, window, clock, subject, n),
            report,
            pricing,
            |record: RecordView| within(record, window, clock) && subject.holds(record),
            |record: RecordView| subject.part(record),
            n,
        ),
    decreases n,
{
    let selected = |record: RecordView| within(record, window, clock) && subject.holds(record);
    let name = |record: RecordView| subject.part(record);
    if n == 0 {
        lemma_no_rows(report, pricing, selected, name);
    } else {
        lemma_parts_over(report, pricing, window, clock, subject, n - 1);
        lemma_row_added(
            parts_over(report, pricing, window, clock, subject, n - 1),
            report,
            pricing,
            selected,
            name,
            n,
        );
    }
}

/// The detail of a client parts its records within the window by model, that of
/// a model by client: each portion states the sums over the records of both, and
/// the portion with the most tokens stands first.
pub proof fn law_portions_add_up(
    report: ConsumptionReport,
    pricing: PricingEngine,
    window: LedgerWindow,
    clock: Clock,
    subject: Subject,
    at: int,
)
    requires
        0 <= at < parts_of(report, pricing, window, clock, subject).len(),
    ensures
        ({
            let part = parts_of(report, pricing, window, clock, subject)[at];
            &&& part.adds_up(
                report,
                pricing,
                named_rows(
                    report,
                    |record: RecordView|
                        within(record, window, clock) && match subject {
                            Subject::Client(client) => client_name(record.client) == client,
                            Subject::Model(model) => record.model_id == model,
                        },
                    |record: RecordView|
                        match subject {
                            Subject::Client(_) => record.model_id,
                            Subject::Model(_) => client_name(record.client),
                        },
                    part.name,
                    report.snapshot.records@.len() as int,
                ),
            )
            &&& forall|j: int|
                at < j < parts_of(report, pricing, window, clock, subject).len() ==> (
                #[trigger] parts_of(report, pricing, window, clock, subject)[j]).tokens
                    <= part.tokens
        }),
{
    let n = report.snapshot.records@.len() as int;
    let parts = parts_over(report, pricing, window, clock, subject, n);
    let out = parts_of(report, pricing, window, clock, subject);
    lemma_parts_over(report, pricing, window, clock, subject, n);
    let more = |a: PortionView, b: PortionView| a.tokens > b.tokens;
    assert(crate::sort::orders(more));
    crate::sort::lemma_sorted_in_order(parts, more);
    crate::sort::lemma_sorted_contains(parts, more);
    assert(parts.contains(out[at]));
    assert forall|j: int| at < j < out.len() implies (#[trigger] out[j]).tokens
        <= out[at].tokens by {
        assert(!more(out[j], out[at]));
    }
    let selected = |record: RecordView| within(record, window, clock) && subject.holds(record);
    let name = |record: RecordView| subject.part(record);
    let held = |record: RecordView|
        within(record, window, clock) && match subject {
            Subject::Client(client) => client_name(record.client) == client,
            Subject::Model(model) => record.model_id == model,
        };
    let called = |record: RecordView|
        match subject {
            Subject::Client(_) => record.model_id,
            Subject::Model(_) => client_name(record.client),
        };
    assert(selected =~= held);
    assert(name =~= called);
}

/// The detail of a window states the sums over the records within it.
pub proof fn law_window_detail_adds_up(
    report: ConsumptionReport,
    pricing: PricingEngine,
    window: LedgerWindow,
    clock: Clock,
    n: int,
)
    requires
        0 <= n <= report.snapshot.records@.len(),
    ensures
        ({
            let sums = window_sums(report, pricing, window, clock, n);
            let own = window_records(report, window, clock, n);
            &&& sums.records == own.len()
            &&& sums.tokens.add_up(report, own)
            &&& sums.api_usd == amount_total(
                own.map_values(|i: int| value_at(report, pricing, i)),
            )
        }),
        window_records(report, window, clock, n).len() <= n,
    decreases n,
{
    let ours = |i: int| within(record_at(report, i), window, clock);
    let amount = |i: int| value_at(report, pricing, i);
    if n == 0 {
        reveal(Seq::filter);
        assert(Seq::new(0, |i: int| i) =~= Seq::empty());
        UsageTokens::lemma_none_add_up(report);
        assert(window_records(report, window, clock, 0) =~= Seq::empty());
    } else {
        law_window_detail_adds_up(report, pricing, window, clock, n - 1);
        assert(report.snapshot.records@.len() == report.snapshot.records.len());
        let before = Seq::new((n - 1) as nat, |i: int| i);
        assert(Seq::new(n as nat, |i: int| i) =~= before.push(n - 1));
        before.lemma_filter_push(n - 1, ours);
        let own = window_records(report, window, clock, n - 1);
        let sums = window_sums(report, pricing, window, clock, n - 1);
        sums.tokens.lemma_add_up(report, own, n - 1);
        assert(own.push(n - 1).map_values(amount).drop_last() =~= own.map_values(amount));
    }
}

/// Enter on the summary of the ledger opens its window; on a row below, the
/// client or the model that stands there, clients before models; behind the
/// last row, the last.
pub proof fn law_selected_row_is_opened(
    report: ConsumptionReport,
    pricing: PricingEngine,
    metric: ConsumptionMetric,
    scope: Scope,
    selected: int,
)
    requires
        selected >= 0,
    ensures
        ({
            let clients = client_rows(report, pricing, metric, scope);
            let models = model_rows(report, pricing, metric, scope);
            let detail = selected_detail(report, pricing, metric, scope, selected);
            &&& selected == 0 ==> detail is ConsumptionWindow
            &&& 1 <= selected <= clients.len() ==> detail is ConsumptionClient
                && detail->ConsumptionClient_client == clients[selected - 1].client
                && detail->ConsumptionClient_tokens == clients[selected - 1].tokens
                && detail->ConsumptionClient_records == clients[selected - 1].records
                && detail->ConsumptionClient_api_usd == clients[selected - 1].api_value_usd
            &&& clients.len() < selected <= clients.len() + models.len()
                ==> detail is ConsumptionModel && detail->ConsumptionModel_model == models[selected
                - 1 - clients.len()].model && detail->ConsumptionModel_tokens == models[selected - 1
                - clients.len()].tokens
            &&& selected > clients.len() + models.len() ==> detail == selected_detail(
                report,
                pricing,
                metric,
                scope,
                (clients.len() + models.len()) as int,
            )
        }),
{
}

/// What a client comes to within a window, without the models it called.
pub open spec fn client_portions(items: Seq<ClientItemView>) -> Seq<PortionView> {
    items.map_values(
        |item: ClientItemView|
            PortionView {
                name: item.client,
                tokens: item.tokens,
                api_usd: item.api_usd,
                calls: item.calls,
            },
    )
}

/// What a model comes to within a window, without the clients that called it.
pub open spec fn model_portions(items: Seq<ModelItemView>) -> Seq<PortionView> {
    items.map_values(
        |item: ModelItemView|
            PortionView {
                name: item.model,
                tokens: item.tokens,
                api_usd: item.api_usd,
                calls: item.calls,
            },
    )
}

proof fn lemma_client_portions(
    items: Seq<ClientItemView>,
    client: Seq<char>,
    model: Seq<char>,
    tokens: i64,
    value: Quantity,
)
    ensures
        client_portions(with_item(items, client, model, tokens, value)) == with_portion(
            client_portions(items),
            client,
            tokens,
            value,
        ),
{
    let parts = client_portions(items);
    let sought = |item: ClientItemView| item.client == client;
    let named = |part: PortionView| part.name == client;
    crate::sort::lemma_first_where(items, sought, 0);
    let place = first_where(items, sought, 0);
    assert forall|k: int| 0 <= k < parts.len() implies named(#[trigger] parts[k]) == sought(
        items[k],
    ) by {}
    lemma_is_first_where(parts, named, place);
    assert(client_portions(with_item(items, client, model, tokens, value)) =~= with_portion(
        parts,
        client,
        tokens,
        value,
    ));
}

proof fn lemma_model_portions(
    items: Seq<ModelItemView>,
    model: Seq<char>,
    client: Seq<char>,
    tokens: i64,
    value: Quantity,
)
    ensures
        model_portions(with_called(items, model, client, tokens, value)) == with_portion(
            model_portions(items),
            model,
            tokens,
            value,
        ),
{
    let parts = model_portions(items);
    let sought = |item: ModelItemView| item.model == model;
    let named = |part: PortionView| part.name == model;
    crate::sort::lemma_first_where(items, sought, 0);
    let place = first_where(items, sought, 0);
    assert forall|k: int| 0 <= k < parts.len() implies named(#[trigger] parts[k]) == sought(
        items[k],
    ) by {}
    lemma_is_first_where(parts, named, place);
    assert(model_portions(with_called(items, model, client, tokens, value)) =~= with_portion(
        parts,
        model,
        tokens,
        value,
    ));
}

/// The detail of a window parts its records by client and by model: there is one
/// item for each, and it states the sums over the records of its own.
pub proof fn law_window_items_add_up(
    report: ConsumptionReport,
    pricing: PricingEngine,
    window: LedgerWindow,
    clock: Clock,
    n: int,
)
    requires
        0 <= n <= report.snapshot.records@.len(),
    ensures
        portions_add_up(
            client_portions(window_sums(report, pricing, window, clock, n).clients),
            report,
            pricing,
            |record: RecordView| within(record, window, clock),
            |record: RecordView| client_name(record.client),
            n,
        ),
        portions_add_up(
            model_portions(window_sums(report, pricing, window, clock, n).models),
            report,
            pricing,
            |record: RecordView| within(record, window, clock),
            |record: RecordView| record.model_id,
            n,
        ),
    decreases n,
{
    let selected = |record: RecordView| within(record, window, clock);
    let client = |record: RecordView| client_name(record.client);
    let model = |record: RecordView| record.model_id;
    if n == 0 {
        lemma_no_rows(report, pricing, selected, client);
        lemma_no_rows(report, pricing, selected, model);
        assert(client_portions(Seq::empty()) =~= Seq::empty());
        assert(model_portions(Seq::empty()) =~= Seq::empty());
    } else {
        law_window_items_add_up(report, pricing, window, clock, n - 1);
        let before = window_sums(report, pricing, window, clock, n - 1);
        let record = record_at(report, n - 1);
        let value = value_at(report, pricing, n - 1);
        lemma_row_added(client_portions(before.clients), report, pricing, selected, client, n);
        lemma_row_added(model_portions(before.models), report, pricing, selected, model, n);
        lemma_client_portions(
            before.clients,
            client(record),
            record.model_id,
            record.tokens.reported(),
            value,
        );
        lemma_model_portions(
            before.models,
            record.model_id,
            client(record),
            record.tokens.reported(),
            value,
        );
    }
}

/// The clients and the models of a window stand with the most tokens first, and
/// so do the models of each client; none is lost.
pub proof fn law_window_items_are_ranked(
    clients: Seq<ClientItemView>,
    models: Seq<ModelItemView>,
    i: int,
    j: int,
)
    requires
        0 <= i < j,
    ensures
        clients_shown(clients).len() == clients.len(),
        models_shown(models).len() == models.len(),
        j < clients.len() ==> clients_shown(clients)[i].tokens >= clients_shown(clients)[j].tokens,
        j < models.len() ==> models_shown(models)[i].tokens >= models_shown(models)[j].tokens,
{
    let ranked = |item: ClientItemView|
        ClientItemView { models: largest_first(item.models), ..item };
    let called = |item: ModelItemView|
        HarnessView {
            model: item.model,
            harness: by_frequency(item.clients),
            tokens: item.tokens,
            api_usd: item.api_usd,
            calls: item.calls,
        };
    let more = |a: ClientItemView, b: ClientItemView| a.tokens > b.tokens;
    let larger = |a: HarnessView, b: HarnessView| a.tokens > b.tokens;
    assert(crate::sort::orders(more));
    assert(crate::sort::orders(larger));
    crate::sort::lemma_sorted_in_order(clients.map_values(ranked), more);
    crate::sort::lemma_sorted_in_order(models.map_values(called), larger);
    crate::sort::lemma_sorted_keeps_items(clients.map_values(ranked), more);
    crate::sort::lemma_sorted_keeps_items(models.map_values(called), larger);
    if j < clients.len() {
        assert(!more(clients_shown(clients)[j], clients_shown(clients)[i]));
    }
    if j < models.len() {
        assert(!larger(models_shown(models)[j], models_shown(models)[i]));
    }
}

} // verus!
