//! The state of the monitor, and what keys do to it.

use vstd::prelude::*;

use crate::credentials::{credential, has, Credentials};
use crate::detail::{consumption_detail, selected_detail, DetailModal, DetailView};
use crate::fixtures::{fixtures, is_sample_report, mock_consumption_report, sample_rows};
use crate::fixtures::SampleDates;
use crate::labels::{is_wallet_provider, row_views, wallet};
use crate::ledger::{client_rows, client_views, consumption_rows, model_consumption_rows};
use crate::ledger::{model_rows, model_views, query_of, CachedLedger, Clock, ConsumptionMetric};
use crate::ledger::{LedgerWindow, Scope};
use crate::limits::{burn_sorted, merge_provider_snapshots, merged_rows, provider_views};
use crate::limits::{sort_burn_first, Availability, ProviderSnapshot, ProviderView, SourceHealth};
use crate::pricing::PricingEngine;
use crate::registry::{display_name, shown_name};
use crate::report::ConsumptionReport;
use crate::setup::{control, credential_of, credential_spec, is_control, nothing, shortened};
use crate::setup::{unbroken, without_breaks, without_last, SettingsState, SettingsView};
use crate::sort::{first_where, lemma_is_first_where};
use crate::text::{char_count, contains, has_text, lower, same, texts, three, to_lower, trim};
use crate::text::{trimmed, two};

verus! {

/// The screens of the monitor.
#[derive(Clone, Copy, Debug, PartialEq, Eq, Structural)]
pub enum Tab {
    Limits,
    Consumption,
    Settings,
}

/// Which rows are shown.
#[derive(Clone, Copy, Debug, PartialEq, Eq, Structural)]
pub enum Filter {
    All,
    Attention,
    Credits,
    Quotas,
}

/// A key of the keyboard.
#[derive(Clone, Copy, Debug, PartialEq, Eq, Structural)]
pub enum Key {
    Char(char),
    Enter,
    Esc,
    Backspace,
    Tab,
    BackTab,
    Up,
    Down,
    Left,
    Right,
    PageUp,
    PageDown,
    Home,
    Other,
}

/// A key, and whether it was pressed with the control key.
#[derive(Clone, Copy, Debug, PartialEq, Eq, Structural)]
pub struct Press {
    pub key: Key,
    pub control: bool,
}

/// What the monitor goes by: the time, a steady clock in milliseconds, and the
/// price sheets.
#[derive(Debug)]
pub struct Context {
    pub clock: Clock,
    pub tick_ms: u64,
    pub pricing: PricingEngine,
}

/// What a key asks to be done to the stored credentials.
#[derive(Debug)]
pub enum Request {
    Nothing,
    Save { env_name: &'static str, secret: String },
    Remove { env_name: &'static str },
}

/// What a `Request` says.
pub enum RequestView {
    Nothing,
    Save { env_name: Seq<char>, secret: Seq<char> },
    Remove { env_name: Seq<char> },
}

impl View for Request {
    type V = RequestView;

    open spec fn view(&self) -> RequestView {
        match self {
            Request::Nothing => RequestView::Nothing,
            Request::Save { env_name, secret } => RequestView::Save {
                env_name: env_name@,
                secret: secret@,
            },
            Request::Remove { env_name } => RequestView::Remove { env_name: env_name@ },
        }
    }
}

/// What the screen shows and what is going on, apart from any contents.
#[derive(Clone, Copy, Debug, PartialEq, Eq, Structural)]
pub struct Ui {
    pub usage_busy: bool,
    pub limits_busy: bool,
    pub tab: Tab,
    pub filter: Filter,
    pub scroll: u16,
    pub refreshes: u32,
    pub last_refresh_ms: u64,
    pub should_quit: bool,
    pub no_color: bool,
    pub limits_selected: usize,
    pub consumption_selected: usize,
    pub modal_scroll: u16,
    pub ledger_window: LedgerWindow,
    pub searching: bool,
    pub live: bool,
    pub show_account: bool,
    pub consumption_metric: ConsumptionMetric,
    pub refresh_requested: bool,
}

/// The state of the monitor.
#[derive(Debug)]
pub struct App {
    pub providers: Vec<ProviderSnapshot>,
    pub consumption: Option<ConsumptionReport>,
    pub cached_ledger: Option<CachedLedger>,
    pub modal: DetailModal,
    pub search_query: String,
    pub settings: SettingsState,
    pub ui: Ui,
}

/// What an `App` says.
pub struct AppView {
    pub providers: Seq<ProviderView>,
    pub consumption: Option<ConsumptionReport>,
    pub cached_ledger: Option<CachedLedger>,
    pub modal: DetailView,
    pub search_query: Seq<char>,
    pub settings: SettingsView,
    pub ui: Ui,
}

impl View for App {
    type V = AppView;

    open spec fn view(&self) -> AppView {
        AppView {
            providers: provider_views(self.providers@),
            consumption: self.consumption,
            cached_ledger: self.cached_ledger,
            modal: self.modal@,
            search_query: self.search_query@,
            settings: self.settings@,
            ui: self.ui,
        }
    }
}

/// One less, down to zero.
#[verifier::allow_in_spec]
pub fn one_less(count: usize) -> (out: usize)
    returns
        (if count > 0 {
            (count - 1) as usize
        } else {
            0
        }),
{
    if count > 0 {
        count - 1
    } else {
        0
    }
}

impl Ui {
    /// The state at the start.
    pub open spec fn start(no_color: bool, show_account: bool, live: bool, tick_ms: u64) -> Ui {
        Ui {
            usage_busy: false,
            limits_busy: false,
            tab: Tab::Limits,
            filter: Filter::All,
            scroll: 0,
            refreshes: 0,
            last_refresh_ms: tick_ms,
            should_quit: false,
            no_color,
            limits_selected: 0,
            consumption_selected: 0,
            modal_scroll: 0,
            ledger_window: LedgerWindow::Today,
            searching: false,
            live,
            show_account,
            consumption_metric: ConsumptionMetric::Tokens,
            refresh_requested: false,
        }
    }

    pub fn new(no_color: bool, show_account: bool, live: bool, tick_ms: u64) -> (out: Ui)
        ensures
            out == Ui::start(no_color, show_account, live, tick_ms),
    {
        Ui {
            usage_busy: false,
            limits_busy: false,
            tab: Tab::Limits,
            filter: Filter::All,
            scroll: 0,
            refreshes: 0,
            last_refresh_ms: tick_ms,
            should_quit: false,
            no_color,
            limits_selected: 0,
            consumption_selected: 0,
            modal_scroll: 0,
            ledger_window: LedgerWindow::Today,
            searching: false,
            live,
            show_account,
            consumption_metric: ConsumptionMetric::Tokens,
            refresh_requested: false,
        }
    }

    /// Another screen, from its top.
    pub open spec fn on(self, tab: Tab) -> Ui {
        Ui { tab, scroll: 0, ..self }
    }

    fn go(self, tab: Tab) -> (out: Ui)
        ensures
            out == self.on(tab),
    {
        let mut ui = self;
        ui.tab = tab;
        ui.scroll = 0;
        ui
    }

    /// The selection and the scrolling start over.
    pub open spec fn reselected(self) -> Ui {
        Ui { limits_selected: 0, consumption_selected: 0, scroll: 0, ..self }
    }

    fn reselect(self) -> (out: Ui)
        ensures
            out == self.reselected(),
    {
        let mut ui = self;
        ui.limits_selected = 0;
        ui.consumption_selected = 0;
        ui.scroll = 0;
        ui
    }

    /// The search goes on, or ends with Esc and Enter; the selection starts over.
    pub open spec fn after_search(self, key: Key) -> Ui {
        Ui { searching: self.searching && !(key is Esc || key is Enter), ..self }.reselected()
    }

    fn take_search(self, key: Key) -> (out: Ui)
        ensures
            out == self.after_search(key),
    {
        let mut ui = self;
        if matches!(key, Key::Esc | Key::Enter) {
            ui.searching = false;
        }
        ui.reselect()
    }

    /// A refresh was asked for: of the ledger, or of the limits.
    pub open spec fn refreshing(self, ledger: bool, tick_ms: u64) -> Ui {
        Ui {
            refreshes: if self.refreshes < u32::MAX {
                (self.refreshes + 1) as u32
            } else {
                u32::MAX
            },
            last_refresh_ms: tick_ms,
            usage_busy: self.usage_busy || ledger,
            limits_busy: self.limits_busy || !ledger,
            refresh_requested: self.refresh_requested || !ledger,
            ..self
        }
    }

    fn refresh(self, ledger: bool, tick_ms: u64) -> (out: Ui)
        ensures
            out == self.refreshing(ledger, tick_ms),
    {
        let mut ui = self;
        if ui.refreshes < u32::MAX {
            ui.refreshes = ui.refreshes + 1;
        }
        ui.last_refresh_ms = tick_ms;
        if ledger {
            ui.usage_busy = true;
        } else {
            ui.limits_busy = true;
            ui.refresh_requested = true;
        }
        ui
    }

    /// A filter switched on, or off where it was on.
    pub open spec fn filtered(self, filter: Filter) -> Ui {
        Ui {
            filter: if self.filter == filter {
                Filter::All
            } else {
                filter
            },
            ..self
        }
    }

    fn toggle_filter(self, filter: Filter) -> (out: Ui)
        ensures
            out == self.filtered(filter),
    {
        let mut ui = self;
        ui.filter = if ui.filter == filter {
            Filter::All
        } else {
            filter
        };
        ui
    }

    /// A shorter or a longer window, on the ledger.
    pub open spec fn window_moved(self, by: int) -> Ui {
        if self.tab is Consumption {
            Ui { ledger_window: LedgerWindow::at(self.ledger_window.place() + by), ..self }
        } else {
            self
        }
    }

    fn move_window(self, longer: bool) -> (out: Ui)
        ensures
            out == self.window_moved(
                if longer {
                    1
                } else {
                    -1
                },
            ),
    {
        let mut ui = self;
        if ui.tab == Tab::Consumption {
            ui.ledger_window = if longer {
                ui.ledger_window.longer()
            } else {
                ui.ledger_window.shorter()
            };
        }
        ui
    }

    /// One row up.
    pub open spec fn moved_up(self) -> Ui {
        if self.tab is Limits {
            Ui { limits_selected: one_less(self.limits_selected), ..self }
        } else {
            Ui { consumption_selected: one_less(self.consumption_selected), ..self }
        }
    }

    fn move_up(self) -> (out: Ui)
        ensures
            out == self.moved_up(),
    {
        let mut ui = self;
        if ui.tab == Tab::Limits {
            ui.limits_selected = one_less(ui.limits_selected);
        } else {
            ui.consumption_selected = one_less(ui.consumption_selected);
        }
        ui
    }

    /// What a character does on the limits screen and on the ledger, as far as
    /// it changes nothing else.
    pub open spec fn after_char(self, c: char, tick_ms: u64) -> Ui {
        let ledger = self.tab is Consumption;
        if c == '/' {
            Ui { searching: true, ..self }
        } else if c == '1' {
            self.on(Tab::Limits)
        } else if c == '2' {
            self.on(Tab::Consumption)
        } else if c == 'q' {
            Ui { should_quit: true, ..self }
        } else if c == 't' {
            self.on(
                if self.tab is Limits {
                    Tab::Consumption
                } else {
                    Tab::Limits
                },
            )
        } else if c == 'w' && ledger {
            Ui { ledger_window: self.ledger_window.following(), scroll: 0, ..self }
        } else if c == 'm' && ledger {
            Ui {
                consumption_metric: match self.consumption_metric {
                    ConsumptionMetric::Tokens => ConsumptionMetric::ApiEquivalent,
                    ConsumptionMetric::ApiEquivalent => ConsumptionMetric::Tokens,
                },
                scroll: 0,
                ..self
            }
        } else if c == 'r' || c == 'R' {
            self.refreshing(ledger, tick_ms)
        } else if c == 'a' {
            self.filtered(Filter::Attention)
        } else if c == 'c' {
            self.filtered(Filter::Credits)
        } else if c == 'u' {
            self.filtered(Filter::Quotas)
        } else if c == 'h' {
            self.window_moved(-1)
        } else if c == 'l' {
            self.window_moved(1)
        } else if c == 'k' {
            self.moved_up()
        } else if c == 'g' {
            Ui { scroll: 0, ..self }
        } else if c == 'G' {
            Ui { scroll: u16::MAX, ..self }
        } else {
            self
        }
    }

    fn take_char(self, c: char, tick_ms: u64) -> (out: Ui)
        ensures
            out == self.after_char(c, tick_ms),
    {
        let mut ui = self;
        let ledger = ui.tab == Tab::Consumption;
        if c == '/' {
            ui.searching = true;
            ui
        } else if c == '1' {
            ui.go(Tab::Limits)
        } else if c == '2' {
            ui.go(Tab::Consumption)
        } else if c == 'q' {
            ui.should_quit = true;
            ui
        } else if c == 't' {
            if ui.tab == Tab::Limits {
                ui.go(Tab::Consumption)
            } else {
                ui.go(Tab::Limits)
            }
        } else if c == 'w' && ledger {
            ui.ledger_window = ui.ledger_window.next();
            ui.scroll = 0;
            ui
        } else if c == 'm' && ledger {
            ui.consumption_metric = match ui.consumption_metric {
                ConsumptionMetric::Tokens => ConsumptionMetric::ApiEquivalent,
                ConsumptionMetric::ApiEquivalent => ConsumptionMetric::Tokens,
            };
            ui.scroll = 0;
            ui
        } else if c == 'r' || c == 'R' {
            ui.refresh(ledger, tick_ms)
        } else if c == 'a' {
            ui.toggle_filter(Filter::Attention)
        } else if c == 'c' {
            ui.toggle_filter(Filter::Credits)
        } else if c == 'u' {
            ui.toggle_filter(Filter::Quotas)
        } else if c == 'h' {
            ui.move_window(false)
        } else if c == 'l' {
            ui.move_window(true)
        } else if c == 'k' {
            ui.move_up()
        } else if c == 'g' {
            ui.scroll = 0;
            ui
        } else if c == 'G' {
            ui.scroll = u16::MAX;
            ui
        } else {
            ui
        }
    }

    /// What any key does on the limits screen and on the ledger, as far as it
    /// changes nothing else.
    pub open spec fn after_plain(self, key: Key, tick_ms: u64) -> Ui {
        match key {
            Key::Char(c) => self.after_char(c, tick_ms),
            Key::Esc => self.on(Tab::Limits),
            Key::Tab => self.on(
                if self.tab is Limits {
                    Tab::Consumption
                } else {
                    Tab::Settings
                },
            ),
            Key::BackTab => self.on(
                if self.tab is Limits {
                    Tab::Settings
                } else {
                    Tab::Limits
                },
            ),
            Key::Left => self.window_moved(-1),
            Key::Right => self.window_moved(1),
            Key::Up => self.moved_up(),
            Key::PageUp => Ui {
                scroll: if self.scroll > 8 {
                    (self.scroll - 8) as u16
                } else {
                    0
                },
                ..self
            },
            Key::PageDown => Ui {
                scroll: if self.scroll < u16::MAX - 8 {
                    (self.scroll + 8) as u16
                } else {
                    u16::MAX
                },
                ..self
            },
            Key::Home => Ui { scroll: 0, ..self },
            Key::Enter | Key::Down | Key::Backspace | Key::Other => self,
        }
    }

    fn take_plain(self, key: Key, tick_ms: u64) -> (out: Ui)
        ensures
            out == self.after_plain(key, tick_ms),
    {
        let mut ui = self;
        match key {
            Key::Char(c) => ui.take_char(c, tick_ms),
            Key::Esc => ui.go(Tab::Limits),
            Key::Tab => if ui.tab == Tab::Limits {
                ui.go(Tab::Consumption)
            } else {
                ui.go(Tab::Settings)
            },
            Key::BackTab => if ui.tab == Tab::Limits {
                ui.go(Tab::Settings)
            } else {
                ui.go(Tab::Limits)
            },
            Key::Left => ui.move_window(false),
            Key::Right => ui.move_window(true),
            Key::Up => ui.move_up(),
            Key::PageUp => {
                ui.scroll = if ui.scroll > 8 {
                    ui.scroll - 8
                } else {
                    0
                };
                ui
            },
            Key::PageDown => {
                ui.scroll = if ui.scroll < u16::MAX - 8 {
                    ui.scroll + 8
                } else {
                    u16::MAX
                };
                ui
            },
            Key::Home => {
                ui.scroll = 0;
                ui
            },
            Key::Enter | Key::Down | Key::Backspace | Key::Other => ui,
        }
    }

    /// The detail view scrolled by a key.
    pub open spec fn detail_scrolled(self, key: Key) -> Ui {
        if key is Up || key == Key::Char('k') {
            Ui {
                modal_scroll: if self.modal_scroll > 0 {
                    (self.modal_scroll - 1) as u16
                } else {
                    0
                },
                ..self
            }
        } else if key is Down || key == Key::Char('j') {
            Ui {
                modal_scroll: if self.modal_scroll < u16::MAX {
                    (self.modal_scroll + 1) as u16
                } else {
                    u16::MAX
                },
                ..self
            }
        } else {
            self
        }
    }

    fn scroll_detail(self, key: Key) -> (out: Ui)
        ensures
            out == self.detail_scrolled(key),
    {
        let mut ui = self;
        if matches!(key, Key::Up | Key::Char('k')) {
            if ui.modal_scroll > 0 {
                ui.modal_scroll = ui.modal_scroll - 1;
            }
        } else if matches!(key, Key::Down | Key::Char('j')) {
            if ui.modal_scroll < u16::MAX {
                ui.modal_scroll = ui.modal_scroll + 1;
            }
        }
        ui
    }

    /// What a key does on the settings screen while nothing is being entered,
    /// as far as it changes nothing else.
    pub open spec fn after_setup(self, key: Key, tick_ms: u64) -> Ui {
        if key == Key::Char('2') || key is BackTab {
            self.on(Tab::Consumption)
        } else if key == Key::Char('1') || key is Tab || key is Esc || key == Key::Char('p') || key
            == Key::Char('s') {
            self.on(Tab::Limits)
        } else if key == Key::Char('q') {
            Ui { should_quit: true, ..self }
        } else if key == Key::Char('r') || key == Key::Char('R') {
            self.refreshing(false, tick_ms)
        } else {
            self
        }
    }

    fn take_setup(self, key: Key, tick_ms: u64) -> (out: Ui)
        ensures
            out == self.after_setup(key, tick_ms),
    {
        let mut ui = self;
        if matches!(key, Key::Char('2') | Key::BackTab) {
            ui.go(Tab::Consumption)
        } else if matches!(
            key,
            Key::Char('1') | Key::Tab | Key::Esc | Key::Char('p') | Key::Char('s')
        ) {
            ui.go(Tab::Limits)
        } else if matches!(key, Key::Char('q')) {
            ui.should_quit = true;
            ui
        } else if matches!(key, Key::Char('r') | Key::Char('R')) {
            ui.refresh(false, tick_ms)
        } else {
            ui
        }
    }
}

/// The seconds between two refreshes: at least ten, at most half an hour.
pub open spec fn refresh_interval(seconds: u64) -> u64 {
    if seconds < 10 {
        10
    } else if seconds > 1_800 {
        1_800
    } else {
        seconds
    }
}

pub fn refresh_seconds(seconds: u64) -> (out: u64)
    ensures
        out == refresh_interval(seconds),
{
    if seconds < 10 {
        10
    } else if seconds > 1_800 {
        1_800
    } else {
        seconds
    }
}

/// A row that a filter lets through.
pub open spec fn passes(row: ProviderView, filter: Filter) -> bool {
    match filter {
        Filter::All => true,
        Filter::Attention => !(row.availability is Available),
        Filter::Credits => row.holds_credit(),
        Filter::Quotas => !row.holds_credit(),
    }
}

/// A row that a search finds: by identifier, plan, label or name.
pub open spec fn row_found(row: ProviderView, query: Seq<char>) -> bool {
    ||| query.len() == 0
    ||| contains(lower(row.provider_id), query)
    ||| contains(lower(row.plan), query)
    ||| contains(lower(row.account_label), query)
    ||| contains(lower(shown_name(row.provider_id)), query)
}

/// The rows that pass a filter and that a search finds.
pub open spec fn rows_shown(rows: Seq<ProviderView>, filter: Filter, query: Seq<char>) -> Seq<
    ProviderView,
>
    decreases rows.len(),
{
    if rows.len() == 0 {
        Seq::empty()
    } else {
        let before = rows_shown(rows.drop_last(), filter, query);
        if passes(rows.last(), filter) && row_found(rows.last(), query) {
            before.push(rows.last())
        } else {
            before
        }
    }
}

/// The wallets among rows, or the subscriptions.
pub open spec fn rows_of_kind(rows: Seq<ProviderView>, wallets: bool) -> Seq<ProviderView>
    decreases rows.len(),
{
    if rows.len() == 0 {
        Seq::empty()
    } else {
        let before = rows_of_kind(rows.drop_last(), wallets);
        if wallet(rows.last()) == wallets {
            before.push(rows.last())
        } else {
            before
        }
    }
}

impl AppView {
    pub open spec fn visible(self) -> Seq<ProviderView> {
        rows_shown(self.providers, self.ui.filter, query_of(self.search_query))
    }

    /// The visible rows as the limits screen lists them: subscriptions, then
    /// wallets.
    pub open spec fn listed(self) -> Seq<ProviderView> {
        rows_of_kind(self.visible(), false) + rows_of_kind(self.visible(), true)
    }

    /// What the ledger looks at.
    pub open spec fn scope(self, clock: Clock) -> Scope {
        Scope { window: self.ui.ledger_window, query: query_of(self.search_query), clock }
    }

    /// How many clients and models the ledger lists.
    pub open spec fn ledger_rows(self, context: Context) -> nat {
        match self.cached_ledger {
            Some(ledger) => ledger.clients@[self.ui.ledger_window.place()]@.len()
                + ledger.models@[self.ui.ledger_window.place()]@.len(),
            None => match self.consumption {
                Some(report) => client_rows(
                    report,
                    context.pricing,
                    self.ui.consumption_metric,
                    self.scope(context.clock),
                ).len() + model_rows(
                    report,
                    context.pricing,
                    self.ui.consumption_metric,
                    self.scope(context.clock),
                ).len(),
                None => 0,
            },
        }
    }
}

/// What a key does while the detail view is open.
pub open spec fn after_modal_key(app: AppView, key: Key) -> AppView {
    if key is Esc || key is Enter || key == Key::Char('q') || key == Key::Char(' ') {
        AppView { modal: DetailView::Closed, ui: Ui { modal_scroll: 0, ..app.ui }, ..app }
    } else {
        AppView { ui: app.ui.detail_scrolled(key), ..app }
    }
}

/// What a search is after a key.
pub open spec fn query_after(query: Seq<char>, key: Key) -> Seq<char> {
    match key {
        Key::Esc => Seq::empty(),
        Key::Backspace => shortened(query),
        Key::Char(c) => query.push(c),
        _ => query,
    }
}

/// What a key does while a search is being typed.
pub open spec fn after_search_key(app: AppView, key: Key) -> AppView {
    if key is Esc || key is Enter || key is Backspace || key is Char {
        AppView {
            search_query: query_after(app.search_query, key),
            ui: app.ui.after_search(key),
            ..app
        }
    } else {
        app
    }
}

/// A provider with a row that is not in order.
pub open spec fn needs_setup(rows: Seq<ProviderView>, id: Seq<char>) -> bool {
    exists|i: int|
        0 <= i < rows.len() && (#[trigger] rows[i]).provider_id == id && (
        rows[i].availability is Unknown || !(rows[i].source_health is Connected))
}

/// The settings screen opened: on the first provider that needs attention.
pub open spec fn settings_opened(app: AppView) -> AppView {
    AppView {
        settings: SettingsView {
            editing: false,
            input: Seq::empty(),
            message: Seq::empty(),
            selected: match first_where(
                app.settings.provider_ids,
                |id: Seq<char>| needs_setup(app.providers, id),
                0,
            ) {
                Some(at) => at as usize,
                None => 0,
            },
            ..app.settings
        },
        ui: app.ui.on(Tab::Settings),
        ..app
    }
}

/// The detail of the selected row of the limits screen.
pub open spec fn limits_opened(app: AppView) -> AppView {
    let rows = app.listed();
    let at = if app.ui.limits_selected < rows.len() {
        app.ui.limits_selected as int
    } else {
        rows.len() - 1
    };
    if rows.len() == 0 {
        app
    } else {
        AppView {
            modal: DetailView::LimitsProvider(rows[at]),
            ui: Ui { modal_scroll: 0, ..app.ui },
            ..app
        }
    }
}

/// The detail of the selected row of the ledger.
pub open spec fn ledger_opened(app: AppView, context: Context) -> AppView {
    match app.consumption {
        Some(report) => AppView {
            modal: selected_detail(
                report,
                context.pricing,
                app.ui.consumption_metric,
                app.scope(context.clock),
                app.ui.consumption_selected as int,
            ),
            ui: Ui { modal_scroll: 0, ..app.ui },
            ..app
        },
        None => app,
    }
}

/// One row down, as far as there are rows.
pub open spec fn moved_down(app: AppView, context: Context) -> AppView {
    let rows = app.visible().len();
    let last = app.ledger_rows(context);
    let ui = app.ui;
    if ui.tab is Limits {
        if rows == 0 {
            app
        } else {
            AppView {
                ui: Ui {
                    limits_selected: if ui.limits_selected + 1 < rows {
                        (ui.limits_selected + 1) as usize
                    } else {
                        (rows - 1) as usize
                    },
                    ..ui
                },
                ..app
            }
        }
    } else {
        AppView {
            ui: Ui {
                consumption_selected: if ui.consumption_selected < last {
                    if ui.consumption_selected < usize::MAX {
                        (ui.consumption_selected + 1) as usize
                    } else {
                        usize::MAX
                    }
                } else {
                    last as usize
                },
                ..ui
            },
            ..app
        }
    }
}

/// What a key does on the limits screen and on the ledger.
pub open spec fn after_main_key(app: AppView, key: Key, context: Context) -> AppView {
    if key == Key::Char('3') || key == Key::Char('p') || key == Key::Char('s') {
        settings_opened(app)
    } else if key is Down || key == Key::Char('j') {
        moved_down(app, context)
    } else if key is Enter {
        if app.ui.tab is Consumption {
            ledger_opened(app, context)
        } else {
            limits_opened(app)
        }
    } else if key is Esc && app.search_query.len() > 0 {
        AppView { search_query: Seq::empty(), ui: app.ui.reselected(), ..app }
    } else {
        AppView { ui: app.ui.after_plain(key, context.tick_ms), ..app }
    }
}

/// What a key does to the settings while a credential is being entered.
pub open spec fn edited(settings: SettingsView, key: Key) -> SettingsView {
    match key {
        Key::Esc => SettingsView {
            editing: false,
            input: Seq::empty(),
            message: "Edit cancelled."@,
            ..settings
        },
        Key::Enter => match settings.credential() {
            Some(_) => if trim(settings.input).len() == 0 {
                SettingsView { message: "Nothing saved; press Esc to cancel."@, ..settings }
            } else {
                settings
            },
            None => SettingsView { editing: false, ..settings },
        },
        Key::Backspace => SettingsView { input: shortened(settings.input), ..settings },
        Key::Char(c) => if control(c) {
            settings
        } else {
            SettingsView { input: settings.input.push(c), ..settings }
        },
        _ => settings,
    }
}

/// What a key does to the settings while nothing is being entered.
pub open spec fn browsed(settings: SettingsView, key: Key) -> SettingsView {
    if key is Up || key == Key::Char('k') {
        SettingsView { selected: one_less(settings.selected), ..settings }
    } else if key is Down || key == Key::Char('j') {
        SettingsView {
            selected: if settings.selected + 1 < settings.provider_ids.len() {
                (settings.selected + 1) as usize
            } else if settings.provider_ids.len() > 0 {
                (settings.provider_ids.len() - 1) as usize
            } else {
                0
            },
            ..settings
        }
    } else if key is Enter {
        match settings.credential() {
            Some(credential) => SettingsView {
                editing: true,
                input: Seq::empty(),
                message: "Paste "@ + credential.kind.name() + " below; input is hidden."@,
                ..settings
            },
            None => SettingsView {
                message: "This provider is auto-discovered; no pasted credential is needed."@,
                ..settings
            },
        }
    } else if key == Key::Char('d') && settings.credential() is None {
        SettingsView { message: "This provider has no editable credential."@, ..settings }
    } else {
        settings
    }
}

/// What a key does on the settings screen.
pub open spec fn after_settings_key(app: AppView, key: Key, tick_ms: u64) -> AppView {
    if app.settings.editing {
        AppView { settings: edited(app.settings, key), ..app }
    } else {
        AppView {
            settings: browsed(app.settings, key),
            ui: app.ui.after_setup(key, tick_ms),
            ..app
        }
    }
}

/// What a key on the settings screen asks to be done to the credentials: Enter
/// saves what was entered, and `d` removes what is stored.
pub open spec fn settings_request(settings: SettingsView, key: Key) -> RequestView {
    match settings.credential() {
        Some(credential) => if settings.editing {
            if key is Enter && trim(settings.input).len() > 0 {
                RequestView::Save { env_name: credential.env_name@, secret: trim(settings.input) }
            } else {
                RequestView::Nothing
            }
        } else if key == Key::Char('d') {
            RequestView::Remove { env_name: credential.env_name@ }
        } else {
            RequestView::Nothing
        },
        None => RequestView::Nothing,
    }
}

/// What a key does.
pub open spec fn after_key(app: AppView, press: Press, context: Context) -> AppView {
    if press.control && press.key == Key::Char('c') {
        AppView { ui: Ui { should_quit: true, ..app.ui }, ..app }
    } else if !(app.modal is Closed) {
        after_modal_key(app, press.key)
    } else if app.ui.searching {
        after_search_key(app, press.key)
    } else if app.ui.tab is Settings {
        after_settings_key(app, press.key, context.tick_ms)
    } else {
        after_main_key(app, press.key, context)
    }
}

/// What a key asks to be done to the stored credentials.
pub open spec fn key_request(app: AppView, press: Press) -> RequestView {
    if !(press.control && press.key == Key::Char('c')) && app.modal is Closed && !app.ui.searching
        && app.ui.tab is Settings {
        settings_request(app.settings, press.key)
    } else {
        RequestView::Nothing
    }
}

fn edit_query(query: &str, key: Key) -> (out: String)
    ensures
        out@ == query_after(query@, key),
{
    match key {
        Key::Esc => nothing(),
        Key::Backspace => without_last(query),
        Key::Char(c) => {
            let mut out = query.to_owned();
            out.push(c);
            out
        },
        _ => query.to_owned(),
    }
}

fn passes_filter(row: &ProviderSnapshot, filter: Filter) -> (yes: bool)
    ensures
        yes == passes(row@, filter),
{
    match filter {
        Filter::All => true,
        Filter::Attention => row.availability != Availability::Available,
        Filter::Credits => row.has_credits(),
        Filter::Quotas => !row.has_credits(),
    }
}

fn is_found(row: &ProviderSnapshot, query: &str) -> (yes: bool)
    ensures
        yes == row_found(row@, query@),
{
    char_count(query) == 0 || has_text(to_lower(row.provider_id.as_str()).as_str(), query)
        || has_text(to_lower(row.plan.as_str()).as_str(), query) || has_text(
        to_lower(row.account_label.as_str()).as_str(),
        query,
    ) || has_text(to_lower(display_name(row.provider_id.as_str())).as_str(), query)
}

fn show_rows<'a>(rows: &'a Vec<ProviderSnapshot>, filter: Filter, query: &str) -> (out: Vec<
    &'a ProviderSnapshot,
>)
    ensures
        row_views(out@) == rows_shown(provider_views(rows@), filter, query@),
{
    let ghost views = provider_views(rows@);
    let mut out: Vec<&'a ProviderSnapshot> = Vec::new();
    let mut i: usize = 0;
    assert(row_views(out@) =~= rows_shown(views.take(0), filter, query@));
    while i < rows.len()
        invariant
            i <= rows@.len(),
            views == provider_views(rows@),
            row_views(out@) == rows_shown(views.take(i as int), filter, query@),
        decreases rows@.len() - i,
    {
        let ghost before = row_views(out@);
        assert(views.take(i + 1).drop_last() =~= views.take(i as int));
        assert(views.take(i + 1).last() == rows@[i as int]@);
        let row = &rows[i];
        if passes_filter(row, filter) && is_found(row, query) {
            out.push(row);
            assert(row_views(out@) =~= before.push(row@));
        }
        i = i + 1;
    }
    assert(views.take(i as int) =~= views);
    out
}

pub(crate) fn pick_rows<'a>(rows: &Vec<&'a ProviderSnapshot>, wallets: bool) -> (out: Vec<
    &'a ProviderSnapshot,
>)
    ensures
        row_views(out@) == rows_of_kind(row_views(rows@), wallets),
{
    let ghost views = row_views(rows@);
    let mut out: Vec<&'a ProviderSnapshot> = Vec::new();
    let mut i: usize = 0;
    assert(row_views(out@) =~= rows_of_kind(views.take(0), wallets));
    while i < rows.len()
        invariant
            i <= rows@.len(),
            views == row_views(rows@),
            row_views(out@) == rows_of_kind(views.take(i as int), wallets),
        decreases rows@.len() - i,
    {
        let ghost before = row_views(out@);
        assert(views.take(i + 1).drop_last() =~= views.take(i as int));
        assert(views.take(i + 1).last() == rows@[i as int]@);
        let row = rows[i];
        if is_wallet_provider(row) == wallets {
            out.push(row);
            assert(row_views(out@) =~= before.push(row@));
        }
        i = i + 1;
    }
    assert(views.take(i as int) =~= views);
    out
}

fn row_needs_setup(rows: &Vec<ProviderSnapshot>, id: &str) -> (yes: bool)
    ensures
        yes == needs_setup(provider_views(rows@), id@),
{
    let ghost views = provider_views(rows@);
    let mut i: usize = 0;
    while i < rows.len()
        invariant
            i <= rows@.len(),
            views == provider_views(rows@),
            forall|k: int|
                0 <= k < i ==> !((#[trigger] views[k]).provider_id == id@ && (
                views[k].availability is Unknown || !(views[k].source_health is Connected))),
        decreases rows@.len() - i,
    {
        let row = &rows[i];
        assert(views[i as int] == row@);
        if same(row.provider_id.as_str(), id) && (row.availability == Availability::Unknown
            || row.source_health != SourceHealth::Connected) {
            return true;
        }
        i = i + 1;
    }
    false
}

fn first_needing_setup(ids: &Vec<String>, rows: &Vec<ProviderSnapshot>) -> (out: usize)
    ensures
        out == match first_where(
            texts(ids@),
            |id: Seq<char>| needs_setup(provider_views(rows@), id),
            0,
        ) {
            Some(at) => at as usize,
            None => 0,
        },
{
    let ghost views = texts(ids@);
    let ghost wanted = |id: Seq<char>| needs_setup(provider_views(rows@), id);
    let mut i: usize = 0;
    while i < ids.len()
        invariant
            i <= ids@.len(),
            views == texts(ids@),
            wanted == |id: Seq<char>| needs_setup(provider_views(rows@), id),
            forall|k: int| 0 <= k < i ==> !wanted(#[trigger] views[k]),
        decreases ids@.len() - i,
    {
        assert(views[i as int] == ids@[i as int]@);
        if row_needs_setup(rows, ids[i].as_str()) {
            proof {
                lemma_is_first_where(views, wanted, Some(i as int));
            }
            return i;
        }
        i = i + 1;
    }
    proof {
        lemma_is_first_where(views, wanted, None);
    }
    0
}

impl SettingsState {
    fn edit(&mut self, key: Key) -> (out: Request)
        requires
            old(self).editing,
        ensures
            final(self)@ == edited(old(self)@, key),
            out@ == settings_request(old(self)@, key),
    {
        match key {
            Key::Esc => {
                self.editing = false;
                self.input = nothing();
                self.message = "Edit cancelled.".to_owned();
            },
            Key::Enter => {
                match self.selected_credential_spec() {
                    Some(credential) => {
                        let secret = trimmed(self.input.as_str());
                        if char_count(secret.as_str()) == 0 {
                            self.message = "Nothing saved; press Esc to cancel.".to_owned();
                        } else {
                            return Request::Save { env_name: credential.env_name, secret };
                        }
                    },
                    None => {
                        self.editing = false;
                    },
                }
            },
            Key::Backspace => {
                self.input = without_last(self.input.as_str());
            },
            Key::Char(c) => {
                if !is_control(c) {
                    self.input.push(c);
                }
            },
            _ => {},
        }
        Request::Nothing
    }

    fn begin_edit(&mut self)
        ensures
            final(self)@ == browsed(old(self)@, Key::Enter),
    {
        match self.selected_credential_spec() {
            Some(credential) => {
                self.editing = true;
                self.input = nothing();
                self.message = three(
                    "Paste ",
                    credential.kind.label(),
                    " below; input is hidden.",
                );
            },
            None => {
                self.message =
                    "This provider is auto-discovered; no pasted credential is needed.".to_owned();
            },
        }
    }

    fn browse(&mut self, key: Key) -> (out: Request)
        requires
            !old(self).editing,
        ensures
            final(self)@ == browsed(old(self)@, key),
            out@ == settings_request(old(self)@, key),
    {
        match key {
            Key::Up | Key::Char('k') => {
                self.selected = one_less(self.selected);
            },
            Key::Down | Key::Char('j') => {
                let total: usize = self.provider_ids.len();
                assert(texts(self.provider_ids@).len() == total);
                self.selected = if total == 0 {
                    0
                } else if self.selected < total - 1 {
                    self.selected + 1
                } else {
                    total - 1
                };
            },
            Key::Enter => self.begin_edit(),
            Key::Char('d') => {
                match self.selected_credential_spec() {
                    Some(credential) => {
                        return Request::Remove { env_name: credential.env_name };
                    },
                    None => {
                        self.message = "This provider has no editable credential.".to_owned();
                    },
                }
            },
            _ => {},
        }
        Request::Nothing
    }
}

impl App {
    /// The cached ledger has an entry for every window.
    pub open spec fn well_formed(self) -> bool {
        self.cached_ledger is Some ==> self.cached_ledger->0.well_formed()
    }

    pub fn visible_providers(&self) -> (out: Vec<&ProviderSnapshot>)
        ensures
            row_views(out@) == self@.visible(),
    {
        let query = to_lower(trimmed(self.search_query.as_str()).as_str());
        show_rows(&self.providers, self.ui.filter, query.as_str())
    }

    fn handle_modal_key(&mut self, key: Key)
        ensures
            final(self)@ == after_modal_key(old(self)@, key),
    {
        if matches!(key, Key::Esc | Key::Enter | Key::Char('q') | Key::Char(' ')) {
            self.modal = DetailModal::Closed;
            self.ui.modal_scroll = 0;
        } else {
            self.ui = self.ui.scroll_detail(key);
        }
    }

    fn handle_search_key(&mut self, key: Key)
        ensures
            final(self)@ == after_search_key(old(self)@, key),
    {
        if matches!(key, Key::Esc | Key::Enter | Key::Backspace | Key::Char(_)) {
            self.search_query = edit_query(self.search_query.as_str(), key);
            self.ui = self.ui.take_search(key);
        }
    }

    pub fn open_settings(&mut self)
        ensures
            final(self)@ == settings_opened(old(self)@),
    {
        self.settings.editing = false;
        self.settings.input = nothing();
        self.settings.message = nothing();
        self.settings.selected = first_needing_setup(&self.settings.provider_ids, &self.providers);
        self.ui = self.ui.go(Tab::Settings);
    }

    pub fn open_limits_detail(&mut self)
        ensures
            final(self)@ == limits_opened(old(self)@),
    {
        let chosen = {
            let visible = self.visible_providers();
            let mut rows = pick_rows(&visible, false);
            let mut wallets = pick_rows(&visible, true);
            let ghost first = row_views(rows@);
            let ghost second = row_views(wallets@);
            rows.append(&mut wallets);
            assert(row_views(rows@) =~= first + second);
            let total: usize = rows.len();
            if total == 0 {
                None
            } else {
                let at: usize = if self.ui.limits_selected < total {
                    self.ui.limits_selected
                } else {
                    total - 1
                };
                assert(row_views(rows@)[at as int] == rows@[at as int]@);
                Some(rows[at].clone())
            }
        };
        match chosen {
            Some(row) => {
                self.ui.modal_scroll = 0;
                self.modal = DetailModal::LimitsProvider(Box::new(row));
            },
            None => {},
        }
    }

    pub fn open_consumption_detail(&mut self, context: &Context)
        ensures
            final(self)@ == ledger_opened(old(self)@, *context),
    {
        let detail = match &self.consumption {
            Some(report) => Some(
                consumption_detail(
                    report,
                    &context.pricing,
                    self.ui.consumption_metric,
                    self.ui.ledger_window,
                    self.search_query.as_str(),
                    self.ui.consumption_selected,
                    &context.clock,
                ),
            ),
            None => None,
        };
        match detail {
            Some(detail) => {
                self.ui.modal_scroll = 0;
                self.modal = detail;
            },
            None => {},
        }
    }

    fn count_ledger_rows(&self, context: &Context) -> (out: u128)
        requires
            self.well_formed(),
        ensures
            out == self@.ledger_rows(*context),
    {
        match &self.cached_ledger {
            Some(ledger) => {
                let at: usize = self.ui.ledger_window.index();
                ledger.clients[at].len() as u128 + ledger.models[at].len() as u128
            },
            None => match &self.consumption {
                Some(report) => {
                    let clients = consumption_rows(
                        report,
                        &context.pricing,
                        self.ui.consumption_metric,
                        self.ui.ledger_window,
                        self.search_query.as_str(),
                        &context.clock,
                    );
                    let models = model_consumption_rows(
                        report,
                        &context.pricing,
                        self.ui.consumption_metric,
                        self.ui.ledger_window,
                        self.search_query.as_str(),
                        &context.clock,
                    );
                    assert(client_views(clients@).len() == clients@.len());
                    assert(model_views(models@).len() == models@.len());
                    clients.len() as u128 + models.len() as u128
                },
                None => 0,
            },
        }
    }

    fn count_visible(&self) -> (out: usize)
        ensures
            out == self@.visible().len(),
    {
        let visible = self.visible_providers();
        assert(row_views(visible@).len() == visible@.len());
        visible.len()
    }

    fn move_down(&mut self, context: &Context)
        requires
            old(self).well_formed(),
        ensures
            final(self)@ == moved_down(old(self)@, *context),
    {
        if self.ui.tab == Tab::Limits {
            let rows: usize = self.count_visible();
            if rows > 0 {
                if self.ui.limits_selected < rows - 1 {
                    self.ui.limits_selected = self.ui.limits_selected + 1;
                } else {
                    self.ui.limits_selected = rows - 1;
                }
            }
        } else {
            let last: u128 = self.count_ledger_rows(context);
            if (self.ui.consumption_selected as u128) < last {
                if self.ui.consumption_selected < usize::MAX {
                    self.ui.consumption_selected = self.ui.consumption_selected + 1;
                }
            } else {
                self.ui.consumption_selected = last as usize;
            }
        }
    }

    fn handle_main_key(&mut self, key: Key, context: &Context)
        requires
            old(self).well_formed(),
        ensures
            final(self)@ == after_main_key(old(self)@, key, *context),
    {
        if matches!(key, Key::Char('3') | Key::Char('p') | Key::Char('s')) {
            self.open_settings();
        } else if matches!(key, Key::Down | Key::Char('j')) {
            self.move_down(context);
        } else if matches!(key, Key::Enter) {
            if self.ui.tab == Tab::Consumption {
                self.open_consumption_detail(context);
            } else {
                self.open_limits_detail();
            }
        } else if matches!(key, Key::Esc) && char_count(self.search_query.as_str()) > 0 {
            self.search_query = nothing();
            self.ui = self.ui.reselect();
        } else {
            self.ui = self.ui.take_plain(key, context.tick_ms);
        }
    }

    pub fn handle_settings_key(&mut self, key: Key, tick_ms: u64) -> (out: Request)
        ensures
            final(self)@ == after_settings_key(old(self)@, key, tick_ms),
            out@ == settings_request(old(self)@.settings, key),
    {
        if self.settings.editing {
            self.settings.edit(key)
        } else {
            self.ui = self.ui.take_setup(key, tick_ms);
            self.settings.browse(key)
        }
    }

    fn shows_detail(&self) -> (yes: bool)
        ensures
            yes == !(self@.modal is Closed),
    {
        match &self.modal {
            DetailModal::Closed => false,
            _ => true,
        }
    }

    /// Takes in a key. What it asks to be done to the stored credentials is the
    /// caller's, who reports the outcome with `saved` or `removed`.
    pub fn handle_key(&mut self, press: Press, context: &Context) -> (out: Request)
        requires
            old(self).well_formed(),
        ensures
            final(self)@ == after_key(old(self)@, press, *context),
            final(self).well_formed(),
            out@ == key_request(old(self)@, press),
    {
        if press.control && press.key == Key::Char('c') {
            self.ui.should_quit = true;
            return Request::Nothing;
        }
        if self.shows_detail() {
            self.handle_modal_key(press.key);
            return Request::Nothing;
        }
        if self.ui.searching {
            self.handle_search_key(press.key);
            return Request::Nothing;
        }
        if self.ui.tab == Tab::Settings {
            return self.handle_settings_key(press.key, context.tick_ms);
        }
        self.handle_main_key(press.key, context);
        Request::Nothing
    }
}

/// The outcome of saving a credential.
pub open spec fn after_saving(app: AppView, failure: Option<Seq<char>>) -> AppView {
    match app.settings.credential() {
        Some(credential) => match failure {
            Some(error) => AppView {
                settings: SettingsView { message: "save failed: "@ + error, ..app.settings },
                ..app
            },
            None => AppView {
                settings: SettingsView {
                    message: credential.provider_id@
                        + " saved; refreshing its read-only collector…"@,
                    editing: false,
                    input: Seq::empty(),
                    ..app.settings
                },
                ui: Ui { refresh_requested: true, ..app.ui },
                ..app
            },
        },
        None => app,
    }
}

/// The outcome of removing a credential.
pub open spec fn after_removing(app: AppView, failure: Option<Seq<char>>) -> AppView {
    match app.settings.credential() {
        Some(credential) => match failure {
            Some(error) => AppView {
                settings: SettingsView { message: "remove failed: "@ + error, ..app.settings },
                ..app
            },
            None => AppView {
                settings: SettingsView {
                    message: credential.provider_id@ + " credential removed."@,
                    ..app.settings
                },
                ui: Ui { refresh_requested: true, ..app.ui },
                ..app
            },
        },
        None => app,
    }
}

/// The state of a provider's setup: its row's, or whether a credential is
/// stored.
pub open spec fn setup_word(
    rows: Seq<ProviderView>,
    id: Seq<char>,
    own: Map<Seq<char>, Seq<char>>,
    desktop: Map<Seq<char>, Seq<char>>,
) -> Seq<char> {
    match first_where(rows, |row: ProviderView| row.provider_id == id, 0) {
        Some(at) => if rows[at].availability is Unknown {
            rows[at].source_health.name()
        } else {
            rows[at].availability.name()
        },
        None => match credential_of(id) {
            Some(spec) => if credential(own, desktop, spec.env_name@) is Some {
                "saved · refresh"@
            } else {
                "not configured"@
            },
            None => "auto-discover"@,
        },
    }
}

fn find_row(rows: &Vec<ProviderSnapshot>, id: &str) -> (out: Option<usize>)
    ensures
        first_where(provider_views(rows@), |row: ProviderView| row.provider_id == id@, 0)
            == match out {
            Some(at) => Some(at as int),
            None => None,
        },
        out matches Some(at) ==> at < rows@.len(),
{
    let ghost views = provider_views(rows@);
    let ghost wanted = |row: ProviderView| row.provider_id == id@;
    let mut i: usize = 0;
    while i < rows.len()
        invariant
            i <= rows@.len(),
            views == provider_views(rows@),
            wanted == |row: ProviderView| row.provider_id == id@,
            forall|k: int| 0 <= k < i ==> !wanted(#[trigger] views[k]),
        decreases rows@.len() - i,
    {
        assert(views[i as int] == rows@[i as int]@);
        if same(rows[i].provider_id.as_str(), id) {
            proof {
                lemma_is_first_where(views, wanted, Some(i as int));
            }
            return Some(i);
        }
        i = i + 1;
    }
    proof {
        lemma_is_first_where(views, wanted, None);
    }
    None
}

/// The cached ledger of a report.
pub open spec fn ledger_of(ledger: Option<CachedLedger>, report: ConsumptionReport, context: Context) -> bool {
    ledger is Some && ledger->0.keeps(report, context.pricing, context.clock)
}

impl App {
    /// The credential was saved, or could not be for a reason.
    pub fn saved(&mut self, failure: Option<String>)
        ensures
            final(self)@ == after_saving(old(self)@, crate::text::maybe_text(failure)),
    {
        match self.settings.selected_credential_spec() {
            Some(credential) => match failure {
                Some(error) => {
                    self.settings.message = two("save failed: ", error.as_str());
                },
                None => {
                    self.settings.message = two(
                        credential.provider_id,
                        " saved; refreshing its read-only collector…",
                    );
                    self.settings.editing = false;
                    self.settings.input = nothing();
                    self.ui.refresh_requested = true;
                },
            },
            None => {},
        }
    }

    /// The credential was removed, or could not be for a reason.
    pub fn removed(&mut self, failure: Option<String>)
        ensures
            final(self)@ == after_removing(old(self)@, crate::text::maybe_text(failure)),
    {
        match self.settings.selected_credential_spec() {
            Some(credential) => match failure {
                Some(error) => {
                    self.settings.message = two("remove failed: ", error.as_str());
                },
                None => {
                    self.settings.message = two(credential.provider_id, " credential removed.");
                    self.ui.refresh_requested = true;
                },
            },
            None => {},
        }
    }

    /// Takes in pasted text, which counts only while a credential is entered.
    pub fn handle_paste(&mut self, pasted: &str)
        ensures
            final(self)@ == if old(self).settings.editing {
                AppView {
                    settings: SettingsView {
                        input: old(self)@.settings.input + trim(unbroken(pasted@)),
                        ..old(self)@.settings
                    },
                    ..old(self)@
                }
            } else {
                old(self)@
            },
    {
        if self.settings.editing {
            let clean = trimmed(without_breaks(pasted).as_str());
            self.settings.input = two(self.settings.input.as_str(), clean.as_str());
        }
    }

    pub fn settings_status(&self, id: &str, own: &Credentials, desktop: &Credentials) -> (out: String)
        requires
            own.well_formed(),
            desktop.well_formed(),
        ensures
            out@ == setup_word(self@.providers, id@, own@, desktop@),
    {
        let ghost views = self@.providers;
        match find_row(&self.providers, id) {
            Some(at) => {
                let row = &self.providers[at];
                assert(views[at as int] == row@);
                if row.availability == Availability::Unknown {
                    row.source_health.label().to_owned()
                } else {
                    row.availability.label().to_owned()
                }
            },
            None => match credential_spec(id) {
                Some(spec) => if has(own, desktop, spec.env_name) {
                    "saved · refresh".to_owned()
                } else {
                    "not configured".to_owned()
                },
                None => "auto-discover".to_owned(),
            },
        }
    }

    /// Takes over a report, with its ledger computed for every window.
    pub fn set_consumption(&mut self, report: ConsumptionReport, context: &Context)
        ensures
            final(self)@ == (AppView {
                consumption: Some(report),
                cached_ledger: final(self).cached_ledger,
                ..old(self)@
            }),
            ledger_of(final(self).cached_ledger, report, *context),
            final(self).well_formed(),
    {
        self.cached_ledger = Some(
            CachedLedger::from_report(&report, &context.pricing, &context.clock),
        );
        self.consumption = Some(report);
    }

    /// The monitor with the rows that a collection brought.
    pub fn from_providers(
        providers: Vec<ProviderSnapshot>,
        no_color: bool,
        show_account: bool,
        context: &Context,
    ) -> (out: App)
        ensures
            out@.providers == burn_sorted(provider_views(providers@), context.clock.now_ms),
            out.consumption is None,
            out.cached_ledger is None,
            out.modal is Closed,
            out@.search_query == Seq::<char>::empty(),
            out@.settings == SettingsView::start(),
            out.ui == Ui::start(no_color, show_account, true, context.tick_ms),
            out.well_formed(),
    {
        let mut providers = providers;
        sort_burn_first(&mut providers, context.clock.now_ms);
        App {
            providers,
            consumption: None,
            cached_ledger: None,
            modal: DetailModal::Closed,
            search_query: nothing(),
            settings: SettingsState::new(),
            ui: Ui::new(no_color, show_account, true, context.tick_ms),
        }
    }

    /// The monitor with sample rows and records.
    pub fn new(no_color: bool, show_account: bool, dates: &SampleDates, context: &Context) -> (out: App)
        requires
            dates.now_ms >= i64::MIN + 864_000_000,
        ensures
            out@.providers == burn_sorted(sample_rows(), context.clock.now_ms),
            out.consumption is Some,
            is_sample_report(out.consumption->0, *dates, context.pricing),
            ledger_of(out.cached_ledger, out.consumption->0, *context),
            out.modal is Closed,
            out@.search_query == Seq::<char>::empty(),
            out@.settings == SettingsView::start(),
            out.ui == Ui::start(no_color, show_account, false, context.tick_ms),
            out.well_formed(),
    {
        let mut providers = fixtures();
        sort_burn_first(&mut providers, context.clock.now_ms);
        let report = mock_consumption_report(dates, &context.pricing);
        let ledger = CachedLedger::from_report(&report, &context.pricing, &context.clock);
        App {
            providers,
            consumption: Some(report),
            cached_ledger: Some(ledger),
            modal: DetailModal::Closed,
            search_query: nothing(),
            settings: SettingsState::new(),
            ui: Ui::new(no_color, show_account, false, context.tick_ms),
        }
    }

    /// Takes over a refresh of the limits: rows that failed keep what was last
    /// known of them, and the rows are ranked anew.
    pub fn take_limits(&mut self, fresh: Vec<ProviderSnapshot>, now_ms: i64)
        ensures
            final(self)@ == (AppView {
                providers: burn_sorted(
                    merged_rows(old(self)@.providers, provider_views(fresh@)),
                    now_ms,
                ),
                ui: Ui { live: true, limits_busy: false, ..old(self).ui },
                ..old(self)@
            }),
    {
        self.providers = merge_provider_snapshots(&self.providers, fresh);
        sort_burn_first(&mut self.providers, now_ms);
        self.ui.live = true;
        self.ui.limits_busy = false;
    }
}

/// A filter key pressed twice shows what it showed before, where all rows or
/// those of this filter were shown.
pub proof fn law_filters_toggle_back(ui: Ui, filter: Filter)
    requires
        ui.filter is All || ui.filter == filter,
    ensures
        ui.filtered(filter).filtered(filter) == ui,
{
}

/// The ledger key leads to the ledger and back.
pub proof fn law_t_toggles_the_ledger(ui: Ui, tick_ms: u64)
    requires
        ui.tab is Limits || ui.tab is Consumption,
    ensures
        ui.after_char('t', tick_ms).after_char('t', tick_ms) == ui.on(ui.tab),
        ui.tab is Limits ==> ui.after_char('t', tick_ms).tab is Consumption,
{
}

/// The metric key, pressed twice on the ledger, ranks as before.
pub proof fn law_m_toggles_the_metric(ui: Ui, tick_ms: u64)
    requires
        ui.tab is Consumption,
    ensures
        ui.after_char('m', tick_ms).consumption_metric != ui.consumption_metric,
        ui.after_char('m', tick_ms).after_char('m', tick_ms).consumption_metric
            == ui.consumption_metric,
{
}

/// No key on the settings screen stores or removes a credential unless it is
/// Enter behind an entry, or `d`.
pub proof fn law_credentials_change_only_on_request(app: AppView, press: Press)
    requires
        !(press.key is Enter) && press.key != Key::Char('d'),
    ensures
        key_request(app, press) is Nothing,
{
}

proof fn lemma_rows_shown(rows: Seq<ProviderView>, filter: Filter, query: Seq<char>, i: int)
    requires
        0 <= i < rows_shown(rows, filter, query).len(),
    ensures
        passes(rows_shown(rows, filter, query)[i], filter),
        row_found(rows_shown(rows, filter, query)[i], query),
        rows.contains(rows_shown(rows, filter, query)[i]),
    decreases rows.len(),
{
    let before = rows_shown(rows.drop_last(), filter, query);
    let row = rows_shown(rows, filter, query)[i];
    if i < before.len() {
        lemma_rows_shown(rows.drop_last(), filter, query, i);
        let k = choose|k: int| 0 <= k < rows.len() - 1 && rows.drop_last()[k] == row;
        assert(rows[k] == row);
    } else {
        assert(rows[rows.len() - 1] == row);
    }
}

/// Every visible row is one of the rows, passes the filter and is found by the
/// search.
pub proof fn law_visible_rows_pass(app: AppView, i: int)
    requires
        0 <= i < app.visible().len(),
    ensures
        app.providers.contains(app.visible()[i]),
        passes(app.visible()[i], app.ui.filter),
        row_found(app.visible()[i], query_of(app.search_query)),
{
    lemma_rows_shown(app.providers, app.ui.filter, query_of(app.search_query), i);
}

/// Moving down never leaves the list: the selection stays on a visible row.
pub proof fn law_selection_stays_in_the_list(app: AppView, context: Context)
    requires
        app.visible().len() <= usize::MAX,
        app.ledger_rows(context) <= usize::MAX,
    ensures
        app.ui.tab is Limits && app.visible().len() > 0 ==> moved_down(
            app,
            context,
        ).ui.limits_selected < app.visible().len(),
        app.ui.tab is Consumption ==> moved_down(app, context).ui.consumption_selected
            <= app.ledger_rows(context),
{
}

/// The rows that are shown are all those that the filter lets through and whose
/// provider, plan, account or name holds the text that is searched for, in their
/// order. Attention lets through what is not available, credits what holds
/// credits, quotas what holds none.
pub proof fn law_every_matching_row_is_shown(
    rows: Seq<ProviderView>,
    filter: Filter,
    query: Seq<char>,
)
    ensures
        rows_shown(rows, filter, query) == rows.filter(
            |row: ProviderView|
                {
                    &&& filter is Attention ==> !(row.availability is Available)
                    &&& filter is Credits ==> exists|i: int|
                        0 <= i < row.windows.len() && !((
                        #[trigger] row.windows[i]).metric is Quota)
                    &&& filter is Quotas ==> forall|i: int|
                        0 <= i < row.windows.len() ==> (#[trigger] row.windows[i]).metric is Quota
                    &&& query.len() == 0 || contains(lower(row.provider_id), query) || contains(
                        lower(row.plan),
                        query,
                    ) || contains(lower(row.account_label), query) || contains(
                        lower(shown_name(row.provider_id)),
                        query,
                    )
                },
        ),
    decreases rows.len(),
{
    let kept = |row: ProviderView|
        {
            &&& filter is Attention ==> !(row.availability is Available)
            &&& filter is Credits ==> exists|i: int|
                0 <= i < row.windows.len() && !((#[trigger] row.windows[i]).metric is Quota)
            &&& filter is Quotas ==> forall|i: int|
                0 <= i < row.windows.len() ==> (#[trigger] row.windows[i]).metric is Quota
            &&& query.len() == 0 || contains(lower(row.provider_id), query) || contains(
                lower(row.plan),
                query,
            ) || contains(lower(row.account_label), query) || contains(
                lower(shown_name(row.provider_id)),
                query,
            )
        };
    if rows.len() == 0 {
        reveal(Seq::filter);
    } else {
        let before = rows.drop_last();
        law_every_matching_row_is_shown(before, filter, query);
        assert(rows =~= before.push(rows.last()));
        before.lemma_filter_push(rows.last(), kept);
        let last = rows.last();
        assert(last.holds_credit() <==> exists|i: int|
            0 <= i < last.windows.len() && !((#[trigger] last.windows[i]).metric is Quota)) by {
            if last.holds_credit() {
                let i = choose|i: int|
                    0 <= i < last.windows.len() && (#[trigger] last.windows[i]).metric.credit();
                assert(!(last.windows[i].metric is Quota));
            }
            if exists|i: int|
                0 <= i < last.windows.len() && !((#[trigger] last.windows[i]).metric is Quota) {
                let i = choose|i: int|
                    0 <= i < last.windows.len() && !((#[trigger] last.windows[i]).metric is Quota);
                assert(last.windows[i].metric.credit());
            }
        }
        assert(kept(last) == (passes(last, filter) && row_found(last, query)));
    }
}

/// The list holds the visible subscriptions and, behind them, the visible
/// wallets, each in their order.
pub proof fn law_wallets_are_listed_last(app: AppView)
    ensures
        app.listed() == app.visible().filter(|row: ProviderView| !wallet(row))
            + app.visible().filter(|row: ProviderView| wallet(row)),
{
    lemma_rows_of_kind(app.visible());
}

proof fn lemma_rows_of_kind(rows: Seq<ProviderView>)
    ensures
        rows_of_kind(rows, false) == rows.filter(|row: ProviderView| !wallet(row)),
        rows_of_kind(rows, true) == rows.filter(|row: ProviderView| wallet(row)),
    decreases rows.len(),
{
    if rows.len() == 0 {
        reveal(Seq::filter);
    } else {
        let before = rows.drop_last();
        lemma_rows_of_kind(before);
        assert(rows =~= before.push(rows.last()));
        before.lemma_filter_push(rows.last(), |row: ProviderView| !wallet(row));
        before.lemma_filter_push(rows.last(), |row: ProviderView| wallet(row));
    }
}

/// Away from the settings, with no detail open and no search being typed, the
/// number keys lead to the limits, the ledger and the settings, and the tab key
/// from the limits to the ledger and on to the settings.
pub proof fn law_keys_lead_to_the_pages(app: AppView, context: Context)
    requires
        app.modal is Closed,
        !app.ui.searching,
        !(app.ui.tab is Settings),
    ensures
        ({
            let one = Press { key: Key::Char('1'), control: false };
            let two = Press { key: Key::Char('2'), control: false };
            let three = Press { key: Key::Char('3'), control: false };
            let tab = Press { key: Key::Tab, control: false };
            &&& after_key(app, one, context).ui.tab is Limits
            &&& after_key(app, two, context).ui.tab is Consumption
            &&& after_key(app, three, context).ui.tab is Settings
            &&& app.ui.tab is Limits ==> after_key(app, tab, context).ui.tab is Consumption
            &&& app.ui.tab is Consumption ==> after_key(app, tab, context).ui.tab is Settings
            &&& after_key(app, one, context).ui.scroll == 0
            &&& after_key(app, two, context).ui.scroll == 0
        }),
{
}

/// On the settings the tab key leads back to the limits, and so does Esc.
pub proof fn law_settings_lead_back(app: AppView, context: Context)
    requires
        app.modal is Closed,
        !app.ui.searching,
        app.ui.tab is Settings,
        !app.settings.editing,
    ensures
        after_key(app, Press { key: Key::Tab, control: false }, context).ui.tab is Limits,
        after_key(app, Press { key: Key::Esc, control: false }, context).ui.tab is Limits,
        after_key(app, Press { key: Key::BackTab, control: false }, context).ui.tab is Consumption,
        after_key(app, Press { key: Key::Char('q'), control: false }, context).ui.should_quit,
{
}

/// Control and `c` quit from everywhere; `q` quits from the limits and the
/// ledger, and no key else does.
pub proof fn law_only_asked_keys_quit(app: AppView, key: Key, context: Context)
    requires
        !app.ui.should_quit,
    ensures
        after_key(app, Press { key: Key::Char('c'), control: true }, context).ui.should_quit,
        app.modal is Closed && !app.ui.searching && !(app.ui.tab is Settings) ==> after_key(
            app,
            Press { key: Key::Char('q'), control: false },
            context,
        ).ui.should_quit,
        key != Key::Char('q') ==> !after_key(
            app,
            Press { key, control: false },
            context,
        ).ui.should_quit,
        !(app.modal is Closed) || app.ui.searching ==> !after_key(
            app,
            Press { key, control: false },
            context,
        ).ui.should_quit,
{
}

/// On the limits, moving down and up again selects the row that was selected,
/// unless it was the last; moving up stops at the first row.
pub proof fn law_up_undoes_down(app: AppView, context: Context)
    requires
        app.modal is Closed,
        !app.ui.searching,
        app.ui.tab is Limits,
        app.visible().len() <= usize::MAX,
    ensures
        ({
            let down = Press { key: Key::Down, control: false };
            let up = Press { key: Key::Up, control: false };
            let lower = after_key(app, down, context);
            &&& app.ui.limits_selected + 1 < app.visible().len() ==> lower.ui.limits_selected
                == app.ui.limits_selected + 1
            &&& app.ui.limits_selected + 1 < app.visible().len() ==> after_key(
                lower,
                up,
                context,
            ).ui.limits_selected == app.ui.limits_selected
            &&& app.ui.limits_selected == 0 ==> after_key(app, up, context).ui.limits_selected == 0
            &&& app.visible().len() > 0 && app.ui.limits_selected + 1 >= app.visible().len()
                ==> lower.ui.limits_selected == app.visible().len() - 1
        }),
{
}

/// Enter opens the detail of the selected row of the list, of the last row
/// where the selection lies behind it, and scrolls it to its top.
pub proof fn law_enter_opens_the_selected_row(app: AppView, context: Context)
    requires
        app.modal is Closed,
        !app.ui.searching,
        app.ui.tab is Limits,
    ensures
        ({
            let opened = after_key(app, Press { key: Key::Enter, control: false }, context);
            &&& app.listed().len() == 0 ==> opened.modal is Closed
            &&& app.ui.limits_selected < app.listed().len() ==> opened.modal
                == DetailView::LimitsProvider(app.listed()[app.ui.limits_selected as int])
            &&& app.listed().len() > 0 && app.ui.limits_selected >= app.listed().len()
                ==> opened.modal == DetailView::LimitsProvider(app.listed().last())
            &&& app.listed().len() > 0 ==> opened.ui.modal_scroll == 0
        }),
{
}

/// A detail is closed by Esc, Enter, `q` and the space bar; any other key leaves
/// it open.
pub proof fn law_detail_closes_on_its_keys(app: AppView, key: Key, context: Context)
    requires
        !(app.modal is Closed),
    ensures
        after_key(app, Press { key, control: false }, context).modal is Closed <==> key is Esc
            || key is Enter || key == Key::Char('q') || key == Key::Char(' '),
        !(key is Esc || key is Enter || key == Key::Char('q') || key == Key::Char(' '))
            ==> after_key(app, Press { key, control: false }, context).modal == app.modal,
        key is Down && app.ui.modal_scroll < u16::MAX ==> after_key(
            app,
            Press { key, control: false },
            context,
        ).ui.modal_scroll == app.ui.modal_scroll + 1,
        key is Up && app.ui.modal_scroll > 0 ==> after_key(
            app,
            Press { key, control: false },
            context,
        ).ui.modal_scroll == app.ui.modal_scroll - 1,
{
}

/// Typing in the search appends each character, backspace takes the last one
/// away, Enter keeps the text and Esc drops it; both end the search, and every
/// change selects the first row again.
pub proof fn law_search_is_typed(app: AppView, c: char, context: Context)
    requires
        app.modal is Closed,
        app.ui.searching,
    ensures
        ({
            let typed = after_key(app, Press { key: Key::Char(c), control: false }, context);
            let undone = after_key(typed, Press { key: Key::Backspace, control: false }, context);
            let kept = after_key(app, Press { key: Key::Enter, control: false }, context);
            let dropped = after_key(app, Press { key: Key::Esc, control: false }, context);
            &&& typed.search_query == app.search_query.push(c)
            &&& typed.ui.searching
            &&& typed.ui.limits_selected == 0
            &&& undone.search_query == app.search_query
            &&& kept.search_query == app.search_query
            &&& !kept.ui.searching
            &&& dropped.search_query.len() == 0
            &&& !dropped.ui.searching
        }),
{
    assert(app.search_query.push(c).drop_last() =~= app.search_query);
}

/// The slash begins a search, and Esc away from it clears one that is set.
pub proof fn law_slash_begins_a_search(app: AppView, context: Context)
    requires
        app.modal is Closed,
        !app.ui.searching,
        !(app.ui.tab is Settings),
    ensures
        after_key(app, Press { key: Key::Char('/'), control: false }, context).ui.searching,
        app.search_query.len() > 0 ==> after_key(
            app,
            Press { key: Key::Esc, control: false },
            context,
        ).search_query.len() == 0,
        app.search_query.len() > 0 ==> after_key(
            app,
            Press { key: Key::Esc, control: false },
            context,
        ).ui.tab == app.ui.tab,
{
}

/// The refresh key asks for what the page shows: on the limits for the limits,
/// on the ledger for the ledger; it is counted and remembered.
pub proof fn law_refresh_asks_for_the_page(app: AppView, context: Context)
    requires
        app.modal is Closed,
        !app.ui.searching,
        !(app.ui.tab is Settings),
    ensures
        ({
            let asked = after_key(app, Press { key: Key::Char('r'), control: false }, context);
            &&& app.ui.tab is Limits ==> asked.ui.limits_busy && asked.ui.refresh_requested
                && asked.ui.usage_busy == app.ui.usage_busy
            &&& app.ui.tab is Consumption ==> asked.ui.usage_busy && asked.ui.limits_busy
                == app.ui.limits_busy && asked.ui.refresh_requested == app.ui.refresh_requested
            &&& app.ui.refreshes < u32::MAX ==> asked.ui.refreshes == app.ui.refreshes + 1
            &&& asked.ui.last_refresh_ms == context.tick_ms
        }),
{
}

/// On the ledger the arrow keys lead to the next shorter and the next longer
/// window, and stop at the shortest and the longest; elsewhere they do nothing.
pub proof fn law_arrows_change_the_window(app: AppView, context: Context)
    requires
        app.modal is Closed,
        !app.ui.searching,
        !(app.ui.tab is Settings),
    ensures
        ({
            let left = after_key(app, Press { key: Key::Left, control: false }, context);
            let right = after_key(app, Press { key: Key::Right, control: false }, context);
            &&& app.ui.tab is Limits ==> left == app && right == app
            &&& app.ui.tab is Consumption ==> {
                &&& app.ui.ledger_window is Today ==> left.ui.ledger_window is Today
                    && right.ui.ledger_window is Last24h
                &&& app.ui.ledger_window is Last24h ==> left.ui.ledger_window is Today
                    && right.ui.ledger_window is Last7d
                &&& app.ui.ledger_window is Last7d ==> left.ui.ledger_window is Last24h
                    && right.ui.ledger_window is Last30d
                &&& app.ui.ledger_window is Last30d ==> left.ui.ledger_window is Last7d
                    && right.ui.ledger_window is AllTime
                &&& app.ui.ledger_window is AllTime ==> left.ui.ledger_window is Last30d
                    && right.ui.ledger_window is AllTime
            }
        }),
{
}

/// The filter keys set their filter: `a` attention, `c` credits and `u` quotas;
/// pressed while it is set, they show all rows again.
pub proof fn law_filter_keys_set_their_filter(app: AppView, context: Context)
    requires
        app.modal is Closed,
        !app.ui.searching,
        !(app.ui.tab is Settings),
    ensures
        ({
            let a = after_key(app, Press { key: Key::Char('a'), control: false }, context);
            let c = after_key(app, Press { key: Key::Char('c'), control: false }, context);
            let u = after_key(app, Press { key: Key::Char('u'), control: false }, context);
            &&& app.ui.filter is Attention ==> a.ui.filter is All
            &&& !(app.ui.filter is Attention) ==> a.ui.filter is Attention
            &&& app.ui.filter is Credits ==> c.ui.filter is All
            &&& !(app.ui.filter is Credits) ==> c.ui.filter is Credits
            &&& app.ui.filter is Quotas ==> u.ui.filter is All
            &&& !(app.ui.filter is Quotas) ==> u.ui.filter is Quotas
        }),
{
}

/// A credential is stored as it was entered, without spaces around it, under the
/// name of the selected provider; an empty entry is not stored, and a removal
/// names the selected provider too.
pub proof fn law_entered_secret_is_stored(app: AppView, wanted: crate::setup::CredentialSpec)
    requires
        app.modal is Closed,
        !app.ui.searching,
        app.ui.tab is Settings,
        app.settings.credential() == Some(wanted),
    ensures
        app.settings.editing && trim(app.settings.input).len() > 0 ==> key_request(
            app,
            Press { key: Key::Enter, control: false },
        ) == (RequestView::Save { env_name: wanted.env_name@, secret: trim(app.settings.input) }),
        app.settings.editing && trim(app.settings.input).len() == 0 ==> key_request(
            app,
            Press { key: Key::Enter, control: false },
        ) is Nothing,
        !app.settings.editing ==> key_request(
            app,
            Press { key: Key::Char('d'), control: false },
        ) == (RequestView::Remove { env_name: wanted.env_name@ }),
        app.settings.editing ==> key_request(
            app,
            Press { key: Key::Char('d'), control: false },
        ) is Nothing,
{
}

/// The refresh interval is the one that was asked for, within ten seconds and
/// half an hour.
pub proof fn law_refresh_interval_is_bounded(seconds: u64)
    ensures
        10 <= refresh_interval(seconds) <= 30 * 60,
        10 <= seconds <= 30 * 60 ==> refresh_interval(seconds) == seconds,
        seconds < 10 ==> refresh_interval(seconds) == 10,
        seconds > 30 * 60 ==> refresh_interval(seconds) == 30 * 60,
{
}

/// A detail that is scrolled down and up again stands where it stood, and neither
/// end is passed.
pub proof fn law_detail_scrolls_line_by_line(ui: Ui)
    ensures
        ui.modal_scroll < u16::MAX ==> ui.detail_scrolled(Key::Down).modal_scroll
            == ui.modal_scroll + 1,
        ui.modal_scroll == u16::MAX ==> ui.detail_scrolled(Key::Down) == ui,
        ui.modal_scroll < u16::MAX ==> ui.detail_scrolled(Key::Down).detail_scrolled(Key::Up) == ui,
        ui.modal_scroll == 0 ==> ui.detail_scrolled(Key::Up) == ui,
        ui.detail_scrolled(Key::Char('j')) == ui.detail_scrolled(Key::Down),
        ui.detail_scrolled(Key::Char('k')) == ui.detail_scrolled(Key::Up),
{
}

/// A page down and a page up lead back, over eight lines, and the home key leads to
/// the first line.
pub proof fn law_pages_turn_back(ui: Ui, tick_ms: u64)
    ensures
        ui.scroll <= u16::MAX - 8 ==> ui.after_plain(Key::PageDown, tick_ms).scroll == ui.scroll
            + 8,
        ui.scroll <= u16::MAX - 8 ==> ui.after_plain(Key::PageDown, tick_ms).after_plain(
            Key::PageUp,
            tick_ms,
        ) == ui,
        ui.scroll <= 8 ==> ui.after_plain(Key::PageUp, tick_ms).scroll == 0,
        ui.after_plain(Key::Home, tick_ms).scroll == 0,
{
}

} // verus!
