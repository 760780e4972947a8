//! What the program is asked for, and what it starts with.

use vstd::prelude::*;

use crate::collectors::{distinct, drop_repeats, lists};
use crate::credentials::Credentials;
use crate::fixtures::{is_sample_report, SampleDates};
use crate::frame::{settings_lines, settings_page};
use crate::labels::{masked_account_label, masked_label};
use crate::ledger::days_before;
use crate::ledger_page::{consumption_lines, ledger_page};
use crate::limits::{burn_sorted, provider_views, ProviderSnapshot, ProviderView, SourceHealth};
use crate::limits_page::{limits_matrix_lines, limits_page};
use crate::moment::{utc_date, utc_date_of};
use crate::monitor::{ledger_of, App, AppView, Context, Tab, Ui};
use crate::pricing::{quote_views, PricingEngine};
use crate::report::{build_consumption_report_with_legacy, quoted_records, ConsumptionReport};
use crate::screen::{Page, SpanView};
use crate::setup::SettingsView;
use crate::text::{chars_of, lower, maybe_str, maybe_text, parse_i64, same, spelled_i64, texts};
use crate::text::to_lower;
use crate::usage::{record_views, UsageSnapshot};

verus! {

/// What the program is asked for.
#[derive(Debug)]
pub struct Args {
    pub once: bool,
    pub consumption: bool,
    pub live: bool,
    pub mock: bool,
    pub refresh: u64,
    pub providers: Option<Vec<String>>,
    pub json: bool,
    pub audit_pricing: bool,
    pub clients: Option<Vec<String>>,
    pub days: u32,
    pub width: Option<u16>,
    pub no_color: bool,
    pub show_account: bool,
    pub skip_import: bool,
}

/// How the program runs.
#[derive(Clone, Copy, Debug, PartialEq, Eq, Structural)]
pub enum Mode {
    /// Prints the report on local usage.
    Usage,
    /// Prints the limits as JSON.
    Json,
    /// Renders one screen.
    Once,
    /// Runs until it is told to stop.
    Interactive,
}

/// Where the rows come from at the start.
#[derive(Clone, Copy, Debug, PartialEq, Eq, Structural)]
pub enum Origin {
    /// What was stored last; a refresh follows.
    Stored,
    /// A refresh.
    Live,
    /// The fixtures.
    Fixture,
}

impl Args {
    /// Live, unless the fixtures were asked for.
    pub open spec fn resolved(self) -> Args {
        Args { live: self.live || !self.mock, ..self }
    }

    pub fn resolve_live(&mut self)
        ensures
            *final(self) == old(self).resolved(),
    {
        if !self.mock {
            self.live = true;
        }
    }

    /// The local usage comes before all else, then JSON; a single screen is
    /// rendered where it was asked for or where there is no terminal.
    pub open spec fn runs(self, terminal: bool) -> Mode {
        if self.consumption {
            Mode::Usage
        } else if self.json {
            Mode::Json
        } else if self.once || !terminal {
            Mode::Once
        } else {
            Mode::Interactive
        }
    }

    pub fn mode(&self, terminal: bool) -> (out: Mode)
        ensures
            out == self.runs(terminal),
    {
        if self.consumption {
            Mode::Usage
        } else if self.json {
            Mode::Json
        } else if self.once || !terminal {
            Mode::Once
        } else {
            Mode::Interactive
        }
    }

    /// Stored rows on a terminal, for a first screen at once.
    pub open spec fn starts_with(self, terminal: bool) -> Origin {
        if self.live && !self.once && terminal {
            Origin::Stored
        } else if self.live {
            Origin::Live
        } else {
            Origin::Fixture
        }
    }

    pub fn origin(&self, terminal: bool) -> (out: Origin)
        ensures
            out == self.starts_with(terminal),
    {
        if self.live && !self.once && terminal {
            Origin::Stored
        } else if self.live {
            Origin::Live
        } else {
            Origin::Fixture
        }
    }

    /// The providers that were asked for, in small letters and each once.
    pub open spec fn asked(self) -> Option<Seq<Seq<char>>> {
        match self.providers {
            Some(names) => Some(distinct(lowered(texts(names@)))),
            None => None,
        }
    }

    pub fn asked_providers(&self) -> (out: Option<Vec<String>>)
        ensures
            match out {
                Some(names) => self.asked() == Some(texts(names@)) && texts(names@).no_duplicates(),
                None => self.asked() is None,
            },
    {
        match &self.providers {
            Some(names) => Some(drop_repeats(&lower_all(names))),
            None => None,
        }
    }

    /// The first day of the ledger: the date so many days ago, in UTC; none
    /// where all of the history is asked for.
    pub open spec fn first_day(self, now_ms: i64) -> Option<Seq<char>> {
        if self.days == 0 {
            None
        } else {
            utc_date_of(days_before(now_ms, self.days as int) as i64)
        }
    }

    pub fn since(&self, now_ms: i64) -> (out: Option<String>)
        ensures
            maybe_text(out) == self.first_day(now_ms),
    {
        if self.days == 0 {
            return None;
        }
        let wanted: i128 = now_ms as i128 - self.days as i128 * 86_400_000;
        if wanted < i64::MIN as i128 {
            utc_date(i64::MIN)
        } else {
            utc_date(wanted as i64)
        }
    }
}

/// Asked for neither live rows nor fixtures, the program is live; asked for the
/// fixtures alone, it starts with them.
pub proof fn law_live_unless_mocked(args: Args, terminal: bool)
    requires
        !args.live,
    ensures
        args.resolved().live == !args.mock,
        args.resolved().starts_with(terminal) is Fixture <==> args.mock,
        args.resolved().resolved() == args.resolved(),
{
}

/// Names in small letters.
pub open spec fn lowered(names: Seq<Seq<char>>) -> Seq<Seq<char>> {
    names.map_values(|name: Seq<char>| lower(name))
}

fn lower_all(names: &Vec<String>) -> (out: Vec<String>)
    ensures
        texts(out@) == lowered(texts(names@)),
{
    let mut out: Vec<String> = Vec::new();
    let mut i: usize = 0;
    while i < names.len()
        invariant
            i <= names@.len(),
            out@.len() == i,
            forall|k: int| 0 <= k < i ==> (#[trigger] out@[k])@ == lower(names@[k]@),
        decreases names@.len() - i,
    {
        out.push(to_lower(names[i].as_str()));
        i = i + 1;
    }
    assert(texts(out@) =~= lowered(texts(names@)));
    out
}

/// A stored row is a placeholder while another row of its provider is not.
pub open spec fn superseded(rows: Seq<ProviderView>, row: ProviderView) -> bool {
    row.source == "registry"@ && exists|i: int|
        0 <= i < rows.len() && (#[trigger] rows[i]).source != "registry"@ && rows[i].provider_id
            == row.provider_id
}

/// A stored row is asked for: all that were ever configured where nothing is
/// asked for by name.
pub open spec fn wanted(row: ProviderView, selected: Option<Seq<Seq<char>>>) -> bool {
    match selected {
        Some(names) => {
            let names = lowered(names);
            names.contains("all"@) || names.contains(row.provider_id)
        },
        None => row.shown_by_default(),
    }
}

/// A stored row is no answer of now: what was connected is stale.
pub open spec fn aged(row: ProviderView) -> ProviderView {
    ProviderView {
        source_health: if row.source_health is Connected {
            SourceHealth::Stale
        } else {
            row.source_health
        },
        ..row
    }
}

/// The stored rows that the first screen shows.
pub open spec fn stored_rows(
    all: Seq<ProviderView>,
    rows: Seq<ProviderView>,
    selected: Option<Seq<Seq<char>>>,
) -> Seq<ProviderView>
    decreases rows.len(),
{
    if rows.len() == 0 {
        Seq::empty()
    } else {
        let before = stored_rows(all, rows.drop_last(), selected);
        let row = rows.last();
        if wanted(row, selected) && !superseded(all, row) {
            before.push(aged(row))
        } else {
            before
        }
    }
}

/// The names that were asked for.
pub open spec fn names_of(selected: Option<Vec<String>>) -> Option<Seq<Seq<char>>> {
    match selected {
        Some(names) => Some(texts(names@)),
        None => None,
    }
}

fn is_superseded(rows: &Vec<ProviderSnapshot>, row: &ProviderSnapshot) -> (yes: bool)
    ensures
        yes == superseded(provider_views(rows@), row@),
{
    let ghost views = provider_views(rows@);
    if !same(row.source.as_str(), "registry") {
        return false;
    }
    let mut i: usize = 0;
    while i < rows.len()
        invariant
            i <= rows@.len(),
            views == provider_views(rows@),
            row@.source == "registry"@,
            forall|k: int|
                0 <= k < i ==> (#[trigger] views[k]).source == "registry"@ || views[k].provider_id
                    != row@.provider_id,
        decreases rows@.len() - i,
    {
        assert(views[i as int] == rows@[i as int]@);
        if !same(rows[i].source.as_str(), "registry") && same(
            rows[i].provider_id.as_str(),
            row.provider_id.as_str(),
        ) {
            assert(views[i as int].source != "registry"@);
            return true;
        }
        i = i + 1;
    }
    false
}

fn is_wanted(row: &ProviderSnapshot, names: &Option<Vec<String>>) -> (yes: bool)
    ensures
        yes == wanted(row@, names_of(*names)),
{
    match names {
        Some(names) => {
            let names = lower_all(names);
            lists(&names, "all") || lists(&names, row.provider_id.as_str())
        },
        None => row.visible_by_default(),
    }
}

fn age_row(row: &ProviderSnapshot) -> (out: ProviderSnapshot)
    ensures
        out@ == aged(row@),
{
    let mut out = row.clone();
    if out.source_health == SourceHealth::Connected {
        out.source_health = SourceHealth::Stale;
    }
    out
}

/// The stored rows that the first screen shows: those asked for, without
/// placeholders of providers that have rows of their own, and none of them
/// connected.
pub fn cached_rows(rows: &Vec<ProviderSnapshot>, selected: &Option<Vec<String>>) -> (out: Vec<
    ProviderSnapshot,
>)
    ensures
        provider_views(out@) == stored_rows(
            provider_views(rows@),
            provider_views(rows@),
            names_of(*selected),
        ),
{
    let ghost views = provider_views(rows@);
    let mut out: Vec<ProviderSnapshot> = Vec::new();
    let mut i: usize = 0;
    assert(provider_views(out@) =~= stored_rows(views, views.take(0), names_of(*selected)));
    while i < rows.len()
        invariant
            i <= rows@.len(),
            views == provider_views(rows@),
            provider_views(out@) == stored_rows(views, views.take(i as int), names_of(*selected)),
        decreases rows@.len() - i,
    {
        let row = &rows[i];
        assert(views.take(i + 1).drop_last() =~= views.take(i as int));
        assert(views.take(i + 1).last() == row@);
        if is_wanted(row, selected) && !is_superseded(rows, row) {
            let ghost before = provider_views(out@);
            let kept = age_row(row);
            out.push(kept);
            assert(provider_views(out@) =~= before.push(kept@));
        }
        i = i + 1;
    }
    assert(views.take(i as int) =~= views);
    out
}

/// No stored row is shown as connected, and each stems from a stored row that
/// was asked for.
pub proof fn law_stored_rows_are_never_connected(
    all: Seq<ProviderView>,
    rows: Seq<ProviderView>,
    selected: Option<Seq<Seq<char>>>,
    i: int,
)
    requires
        0 <= i < stored_rows(all, rows, selected).len(),
    ensures
        !(stored_rows(all, rows, selected)[i].source_health is Connected),
        exists|k: int|
            0 <= k < rows.len() && wanted(#[trigger] rows[k], selected) && !superseded(all, rows[k])
                && stored_rows(all, rows, selected)[i] == aged(rows[k]),
    decreases rows.len(),
{
    let before = stored_rows(all, rows.drop_last(), selected);
    if i < before.len() {
        law_stored_rows_are_never_connected(all, rows.drop_last(), selected, i);
        let k = choose|k: int|
            0 <= k < rows.drop_last().len() && wanted(#[trigger] rows.drop_last()[k], selected)
                && !superseded(all, rows.drop_last()[k]) && before[i] == aged(rows.drop_last()[k]);
        assert(rows[k] == rows.drop_last()[k]);
    } else {
        assert(rows[rows.len() - 1] == rows.last());
    }
}

/// The report on a snapshot, with a quote for each record and no estimate of
/// the archive.
pub open spec fn is_quoted_report(
    report: ConsumptionReport,
    snapshot: UsageSnapshot,
    pricing: PricingEngine,
) -> bool {
    let quotes = quoted_records(pricing, record_views(snapshot.records@));
    &&& report.snapshot == snapshot
    &&& report.summary.sums(quotes, None)
    &&& report.quotes is Some
    &&& quote_views(report.quotes->0@) == quotes
}

/// The monitor as it starts from what was stored: the stored rows, or none
/// where nothing is stored, with the sample records until others come. Stored
/// records take their place at once.
pub fn load_cached_app(
    stored: Option<Vec<ProviderSnapshot>>,
    usage: Option<UsageSnapshot>,
    selected: &Option<Vec<String>>,
    no_color: bool,
    show_account: bool,
    dates: &SampleDates,
    context: &Context,
) -> (out: App)
    requires
        dates.now_ms >= i64::MIN + 864_000_000,
    ensures
        out.ui == Ui::start(no_color, show_account, true, context.tick_ms),
        out@.providers == match stored {
            Some(rows) => burn_sorted(
                stored_rows(provider_views(rows@), provider_views(rows@), names_of(*selected)),
                context.clock.now_ms,
            ),
            None => Seq::empty(),
        },
        match usage {
            Some(snapshot) => out.consumption is Some && is_quoted_report(
                out.consumption->0,
                snapshot,
                context.pricing,
            ),
            None => match stored {
                Some(rows) if rows@.len() > 0 => out.consumption is None,
                _ => out.consumption is Some && is_sample_report(
                    out.consumption->0,
                    *dates,
                    context.pricing,
                ),
            },
        },
        match out.consumption {
            Some(report) => ledger_of(out.cached_ledger, report, *context),
            None => out.cached_ledger is None,
        },
        out.modal is Closed,
        out@.search_query == Seq::<char>::empty(),
        out@.settings == SettingsView::start(),
        out.well_formed(),
{
    let known = match &stored {
        Some(rows) => rows.len() > 0,
        None => false,
    };
    let mut app = match &stored {
        Some(rows) if known => App::from_providers(
            cached_rows(rows, selected),
            no_color,
            show_account,
            context,
        ),
        _ => {
            let mut app = App::new(no_color, show_account, dates, context);
            app.ui.live = true;
            app.providers = Vec::new();
            assert(provider_views(app.providers@) =~= Seq::<ProviderView>::empty());
            app
        },
    };
    match usage {
        Some(snapshot) => {
            let report = build_consumption_report_with_legacy(
                snapshot,
                &context.pricing,
                true,
                None,
            );
            app.set_consumption(report, context);
        },
        None => {},
    }
    app
}

/// A row as others may see it: without what tells accounts apart, unless that
/// was asked for.
pub open spec fn public_row(row: ProviderView, show_account: bool) -> ProviderView {
    if show_account {
        row
    } else {
        ProviderView { account_label: masked_label(row), account_key: "redacted"@, ..row }
    }
}

pub fn public_snapshot(provider: &ProviderSnapshot, show_account: bool) -> (out: ProviderSnapshot)
    ensures
        out@ == public_row(provider@, show_account),
{
    let mut out = provider.clone();
    if !show_account {
        out.account_label = masked_account_label(provider);
        out.account_key = "redacted".to_owned();
    }
    out
}

/// Two rows that differ in the key of their account alone look the same to
/// others.
pub proof fn law_public_row_hides_the_key(row: ProviderView, other: Seq<char>)
    ensures
        public_row(row, false).account_key == "redacted"@,
        public_row(row, false) == public_row(ProviderView { account_key: other, ..row }, false),
{
}

/// The lines below the header: those of the screen that is shown.
pub open spec fn body(
    app: AppView,
    own: Map<Seq<char>, Seq<char>>,
    desktop: Map<Seq<char>, Seq<char>>,
    path: Option<Seq<char>>,
    width: u16,
    height: u16,
    context: Context,
) -> Seq<Seq<SpanView>> {
    match app.ui.tab {
        Tab::Settings => settings_page(app, own, desktop, path, width),
        Tab::Consumption => ledger_page(app, width as int, context),
        Tab::Limits => limits_page(app, width as int, height as int, context),
    }
}

pub fn body_lines(
    app: &App,
    own: &Credentials,
    desktop: &Credentials,
    path: Option<&str>,
    width: u16,
    height: u16,
    context: &Context,
) -> (out: Page)
    requires
        own.well_formed(),
        desktop.well_formed(),
        app@.cached_ledger matches Some(ledger) ==> ledger.well_formed(),
    ensures
        out@ == body(app@, own@, desktop@, maybe_str(path), width, height, *context),
{
    match app.ui.tab {
        Tab::Settings => settings_lines(app, own, desktop, path, width),
        Tab::Consumption => consumption_lines(app, width, context),
        Tab::Limits => limits_matrix_lines(app, width, height, context),
    }
}

/// A size of a screen as the environment states it.
pub open spec fn stated(text: Option<Seq<char>>) -> Option<u16> {
    match text {
        Some(text) => match spelled_i64(text) {
            Some(value) => if 0 <= value <= u16::MAX && text[0] != '-' {
                Some(value as u16)
            } else {
                None
            },
            None => None,
        },
        None => None,
    }
}

pub fn stated_size(text: Option<&str>) -> (out: Option<u16>)
    ensures
        out == stated(maybe_str(text)),
{
    match text {
        Some(text) => match parse_i64(text) {
            Some(value) => {
                let chars = chars_of(text);
                if 0 <= value && value <= 0xffff && chars.len() > 0 && chars[0] != '-' {
                    Some(value as u16)
                } else {
                    None
                }
            },
            None => None,
        },
        None => None,
    }
}

/// The width of a single screen: what was asked for, else what the environment
/// states, else that of the terminal; at least 40.
pub open spec fn single_width(asked: Option<u16>, columns: Option<u16>, terminal: u16) -> u16 {
    let width = match asked {
        Some(width) => width,
        None => match columns {
            Some(width) => width,
            None => terminal,
        },
    };
    if width < 40 {
        40
    } else {
        width
    }
}

pub fn once_width(asked: Option<u16>, columns: Option<u16>, terminal: u16) -> (out: u16)
    ensures
        out == single_width(asked, columns, terminal),
{
    let width: u16 = match asked {
        Some(width) => width,
        None => match columns {
            Some(width) => width,
            None => terminal,
        },
    };
    if width < 40 {
        40
    } else {
        width
    }
}

/// The height that a number of lines needs with the header and the footer; at
/// least 24.
pub open spec fn needed_height(lines: int) -> int {
    if lines + 5 < 24 {
        24
    } else {
        lines + 5
    }
}

/// The height of a single screen: what the environment states, but never less
/// than what its lines need.
pub open spec fn single_height(lines: int, stated: Option<u16>) -> int {
    match stated {
        Some(height) => if height >= 8 && height > needed_height(lines) {
            height as int
        } else {
            needed_height(lines)
        },
        None => needed_height(lines),
    }
}

pub fn once_height(lines: u16, stated: Option<u16>) -> (out: u16)
    requires
        lines <= 65_530,
    ensures
        out == single_height(lines as int, stated),
{
    let needed: u16 = if lines + 5 < 24 {
        24
    } else {
        lines + 5
    };
    match stated {
        Some(height) => if height >= 8 && height > needed {
            height
        } else {
            needed
        },
        None => needed,
    }
}

/// A single screen is high enough for all of its lines, so that none is left
/// out.
pub proof fn law_single_screen_shows_all_lines(lines: int, stated: Option<u16>)
    requires
        0 <= lines,
    ensures
        single_height(lines, stated) >= lines + 5,
        single_height(lines, stated) >= 24,
{
}

/// The width that a screen is drawn for: what was asked for, else that of the
/// terminal; at least 30.
pub open spec fn drawn_width(asked: Option<u16>, terminal: u16) -> u16 {
    let width = match asked {
        Some(width) => width,
        None => terminal,
    };
    if width < 30 {
        30
    } else {
        width
    }
}

pub fn draw_width(asked: Option<u16>, terminal: u16) -> (out: u16)
    ensures
        out == drawn_width(asked, terminal),
{
    let width: u16 = match asked {
        Some(width) => width,
        None => terminal,
    };
    if width < 30 {
        30
    } else {
        width
    }
}

/// Asked for the consumption, the monitor prints that, whatever else was asked;
/// asked for JSON it prints that; asked to run once, or without a terminal, it
/// draws one screen; else it runs in the terminal.
pub proof fn law_arguments_choose_the_mode(args: Args, terminal: bool)
    ensures
        args.consumption ==> args.runs(terminal) is Usage,
        !args.consumption && args.json ==> args.runs(terminal) is Json,
        !args.consumption && !args.json && (args.once || !terminal) ==> args.runs(terminal) is Once,
        !args.consumption && !args.json && !args.once && terminal ==> args.runs(
            terminal,
        ) is Interactive,
{
}

/// A live monitor in the terminal starts with what was stored, any other live
/// one collects first, and one that is not live shows samples.
pub proof fn law_live_terminals_start_with_stored_rows(args: Args, terminal: bool)
    ensures
        !args.live ==> args.starts_with(terminal) is Fixture,
        args.live && (args.once || !terminal) ==> args.starts_with(terminal) is Live,
        args.live && !args.once && terminal ==> args.starts_with(terminal) is Stored,
{
}

/// The stored rows that are shown are those that were asked for, or the visible
/// ones where nothing was, in their order; a placeholder gives way to a row of
/// its provider. A row that was connected is stale.
pub proof fn law_stored_rows_are_those_asked_for(
    all: Seq<ProviderView>,
    rows: Seq<ProviderView>,
    selected: Option<Seq<Seq<char>>>,
)
    ensures
        stored_rows(all, rows, selected) == rows.filter(
            |row: ProviderView| wanted(row, selected) && !superseded(all, row),
        ).map_values(|row: ProviderView| aged(row)),
    decreases rows.len(),
{
    let kept = |row: ProviderView| wanted(row, selected) && !superseded(all, row);
    let stale = |row: ProviderView| aged(row);
    if rows.len() == 0 {
        reveal(Seq::filter);
        assert(rows.filter(kept).map_values(stale) =~= Seq::empty());
    } else {
        let before = rows.drop_last();
        law_stored_rows_are_those_asked_for(all, before, selected);
        assert(rows =~= before.push(rows.last()));
        before.lemma_filter_push(rows.last(), kept);
        assert(before.filter(kept).push(rows.last()).map_values(stale) =~= before.filter(
            kept,
        ).map_values(stale).push(stale(rows.last())));
    }
}

/// A row is wanted where it was asked for by its id, in whatever case, or all
/// rows were; where none was asked for, the visible ones are.
pub proof fn law_asked_rows_are_wanted(row: ProviderView, names: Seq<Seq<char>>, i: int)
    ensures
        0 <= i < names.len() && lower(names[i]) == row.provider_id ==> wanted(row, Some(names)),
        0 <= i < names.len() && lower(names[i]) == "all"@ ==> wanted(row, Some(names)),
        wanted(row, None) == row.shown_by_default(),
        (forall|k: int|
            0 <= k < names.len() ==> lower(#[trigger] names[k]) != "all"@ && lower(names[k])
                != row.provider_id) ==> !wanted(row, Some(names)),
{
    if 0 <= i < names.len() {
        assert(lowered(names)[i] == lower(names[i]));
    }
    assert forall|k: int| 0 <= k < names.len() implies #[trigger] lowered(names)[k] == lower(
        names[k],
    ) by {}
}

/// The width that was asked for counts first, then the stated columns, then the
/// terminal's, and none is below forty.
pub proof fn law_asked_width_counts_first(asked: Option<u16>, columns: Option<u16>, terminal: u16)
    ensures
        single_width(asked, columns, terminal) >= 40,
        asked matches Some(width) ==> width >= 40 ==> single_width(asked, columns, terminal)
            == width,
        asked is None && columns is Some && columns->0 >= 40 ==> single_width(
            asked,
            columns,
            terminal,
        ) == columns->0,
        asked is None && columns is None && terminal >= 40 ==> single_width(
            asked,
            columns,
            terminal,
        ) == terminal,
        drawn_width(asked, terminal) >= 30,
        asked matches Some(width) ==> width >= 30 ==> drawn_width(asked, terminal) == width,
        asked is None && terminal >= 30 ==> drawn_width(asked, terminal) == terminal,
{
}

} // verus!
