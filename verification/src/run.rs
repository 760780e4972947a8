//! The run of the monitor: when it collects, when it draws, when it stops.

use vstd::prelude::*;

use crate::monitor::{refresh_interval, refresh_seconds, Key, Tab, Ui};

verus! {

/// What runs beside the screen. Moments are in milliseconds of a steady clock.
#[derive(Clone, Copy, Debug, PartialEq, Eq, Structural)]
pub struct Run {
    pub limits_running: bool,
    pub usage_running: bool,
    pub next_limits_ms: u64,
    pub next_usage_ms: u64,
    pub dirty: bool,
}

/// What came in since the last turn.
#[derive(Clone, Copy, Debug, PartialEq, Eq, Structural)]
pub struct Arrivals {
    pub limits: bool,
    pub usage: bool,
}

/// What a turn decides.
#[derive(Clone, Copy, Debug, PartialEq, Eq, Structural)]
pub struct Turn {
    pub run: Run,
    pub ui: Ui,
    /// The limits are to be collected.
    pub collect_limits: bool,
    /// The local usage is to be read.
    pub collect_usage: bool,
    /// The screen is to be drawn.
    pub draw: bool,
    /// The monitor ends.
    pub stop: bool,
}

/// What happened at the terminal.
#[derive(Clone, Copy, Debug, PartialEq, Eq, Structural)]
pub enum Happening {
    Nothing,
    Pressed(Key),
    Pasted,
    Resized,
}

impl Happening {
    /// The key that asks for a refresh.
    pub open spec fn asks(self) -> bool {
        self == Happening::Pressed(Key::Char('r')) || self == Happening::Pressed(Key::Char('R'))
    }

    pub fn asks_refresh(self) -> (yes: bool)
        ensures
            yes == self.asks(),
    {
        matches!(self, Happening::Pressed(Key::Char('r')) | Happening::Pressed(Key::Char('R')))
    }

    /// The key that goes to the ledger.
    pub open spec fn switches(self) -> bool {
        self == Happening::Pressed(Key::Char('t'))
    }

    pub fn switches_tab(self) -> (yes: bool)
        ensures
            yes == self.switches(),
    {
        matches!(self, Happening::Pressed(Key::Char('t')))
    }
}

/// The screen after something happened: a refresh is shown as going on.
pub open spec fn flashing(ui: Ui, refresh: bool, tick_ms: u64) -> Ui {
    let ledger = ui.tab is Consumption;
    Ui {
        last_refresh_ms: if refresh {
            tick_ms
        } else {
            ui.last_refresh_ms
        },
        refreshes: if refresh && ui.refreshes < u32::MAX {
            (ui.refreshes + 1) as u32
        } else {
            ui.refreshes
        },
        usage_busy: ui.usage_busy || (refresh && ledger),
        limits_busy: ui.limits_busy || (refresh && !ledger),
        refresh_requested: false,
        ..ui
    }
}

fn flash(ui: Ui, refresh: bool, tick_ms: u64) -> (out: Ui)
    ensures
        out == flashing(ui, refresh, tick_ms),
{
    let ledger = ui.tab == Tab::Consumption;
    let mut out = ui;
    if refresh {
        out.last_refresh_ms = tick_ms;
        if ui.refreshes < u32::MAX {
            out.refreshes = ui.refreshes + 1;
        }
    }
    out.usage_busy = ui.usage_busy || (refresh && ledger);
    out.limits_busy = ui.limits_busy || (refresh && !ledger);
    out.refresh_requested = false;
    out
}

/// A moment some milliseconds later, as far as the clock reaches.
pub open spec fn later(moment_ms: u64, by: u64) -> u64 {
    if moment_ms + by > u64::MAX {
        u64::MAX
    } else {
        (moment_ms + by) as u64
    }
}

fn after(moment_ms: u64, by: u64) -> (out: u64)
    ensures
        out == later(moment_ms, by),
{
    if by > u64::MAX - moment_ms {
        u64::MAX
    } else {
        moment_ms + by
    }
}

impl Run {
    /// Everything is due at the start.
    pub open spec fn first(tick_ms: u64) -> Run {
        Run {
            limits_running: false,
            usage_running: false,
            next_limits_ms: tick_ms,
            next_usage_ms: tick_ms,
            dirty: true,
        }
    }

    pub fn start(tick_ms: u64) -> (out: Run)
        ensures
            out == Run::first(tick_ms),
    {
        Run {
            limits_running: false,
            usage_running: false,
            next_limits_ms: tick_ms,
            next_usage_ms: tick_ms,
            dirty: true,
        }
    }

    /// The limits are collected: live, when they are due and not being
    /// collected already.
    pub open spec fn limits_due(self, live: bool, arrivals: Arrivals, tick_ms: u64) -> bool {
        live && (arrivals.limits || !self.limits_running) && tick_ms >= self.next_limits_ms
    }

    /// The usage is read: live and on the ledger, when it is due and not being
    /// read already.
    pub open spec fn usage_due(self, ui: Ui, live: bool, arrivals: Arrivals, tick_ms: u64) -> bool {
        live && ui.tab is Consumption && (arrivals.usage || !self.usage_running) && tick_ms
            >= self.next_usage_ms
    }

    /// A turn: takes note of what came in, starts what is due, and tells
    /// whether to draw.
    pub open spec fn turned(
        self,
        ui: Ui,
        live: bool,
        refresh: u64,
        arrivals: Arrivals,
        tick_ms: u64,
    ) -> Turn {
        let collect_limits = self.limits_due(live, arrivals, tick_ms);
        let collect_usage = self.usage_due(ui, live, arrivals, tick_ms);
        let shown = Ui {
            limits_busy: collect_limits || (ui.limits_busy && !arrivals.limits),
            usage_busy: collect_usage || (ui.usage_busy && !arrivals.usage),
            live: ui.live || arrivals.limits,
            ..ui
        };
        let busy = if shown.tab is Consumption {
            shown.usage_busy
        } else {
            shown.limits_busy
        };
        let dirty = self.dirty || arrivals.limits || arrivals.usage || collect_limits
            || collect_usage || busy || tick_ms - ui.last_refresh_ms < 1_600;
        Turn {
            run: Run {
                limits_running: collect_limits || (self.limits_running && !arrivals.limits),
                usage_running: collect_usage || (self.usage_running && !arrivals.usage),
                next_limits_ms: if collect_limits {
                    later(tick_ms, (refresh_interval(refresh) * 1_000) as u64)
                } else {
                    self.next_limits_ms
                },
                next_usage_ms: if collect_usage {
                    later(tick_ms, 300_000)
                } else {
                    self.next_usage_ms
                },
                dirty: dirty && ui.should_quit,
            },
            ui: shown,
            collect_limits,
            collect_usage,
            draw: dirty && !ui.should_quit,
            stop: ui.should_quit,
        }
    }

    pub fn turn(self, ui: Ui, live: bool, refresh: u64, arrivals: Arrivals, tick_ms: u64) -> (out:
        Turn)
        ensures
            out == self.turned(ui, live, refresh, arrivals, tick_ms),
    {
        let ledger = ui.tab == Tab::Consumption;
        let limits_running = self.limits_running && !arrivals.limits;
        let usage_running = self.usage_running && !arrivals.usage;
        let collect_limits = live && !limits_running && tick_ms >= self.next_limits_ms;
        let collect_usage = live && ledger && !usage_running && tick_ms >= self.next_usage_ms;
        let limits_busy = collect_limits || (ui.limits_busy && !arrivals.limits);
        let usage_busy = collect_usage || (ui.usage_busy && !arrivals.usage);
        let busy = if ledger {
            usage_busy
        } else {
            limits_busy
        };
        let flash = tick_ms < ui.last_refresh_ms || tick_ms - ui.last_refresh_ms < 1_600;
        let dirty = self.dirty || arrivals.limits || arrivals.usage || collect_limits
            || collect_usage || busy || flash;
        let stop = ui.should_quit;
        let mut run = self;
        run.limits_running = collect_limits || limits_running;
        run.usage_running = collect_usage || usage_running;
        if collect_limits {
            run.next_limits_ms = after(tick_ms, refresh_seconds(refresh) * 1_000);
        }
        if collect_usage {
            run.next_usage_ms = after(tick_ms, 300_000);
        }
        run.dirty = dirty && stop;
        let mut ui = ui;
        ui.limits_busy = limits_busy;
        ui.usage_busy = usage_busy;
        ui.live = ui.live || arrivals.limits;
        Turn { run, ui, collect_limits, collect_usage, draw: dirty && !stop, stop }
    }

    /// What happened at the terminal makes some collections due at once. The
    /// state of the screen is that after the key was handled.
    pub open spec fn noticed(self, ui: Ui, happening: Happening, tick_ms: u64) -> (Run, Ui) {
        let ledger = ui.tab is Consumption;
        let refresh = happening.asks();
        (
            Run {
                next_limits_ms: if (refresh && !ledger) || ui.refresh_requested {
                    tick_ms
                } else {
                    self.next_limits_ms
                },
                next_usage_ms: if (refresh || happening.switches()) && ledger {
                    tick_ms
                } else {
                    self.next_usage_ms
                },
                dirty: self.dirty || !(happening is Nothing) || ui.refresh_requested,
                ..self
            },
            flashing(ui, refresh, tick_ms),
        )
    }

    pub fn notice(self, ui: Ui, happening: Happening, tick_ms: u64) -> (out: (Run, Ui))
        ensures
            out == self.noticed(ui, happening, tick_ms),
    {
        let ledger = ui.tab == Tab::Consumption;
        let refresh = happening.asks_refresh();
        let mut run = self;
        if (refresh && !ledger) || ui.refresh_requested {
            run.next_limits_ms = tick_ms;
        }
        if (refresh || happening.switches_tab()) && ledger {
            run.next_usage_ms = tick_ms;
        }
        run.dirty = run.dirty || !matches!(happening, Happening::Nothing) || ui.refresh_requested;
        (run, flash(ui, refresh, tick_ms))
    }
}

/// A collection never starts while one of its kind is running.
pub proof fn law_one_collection_at_a_time(
    run: Run,
    ui: Ui,
    live: bool,
    refresh: u64,
    arrivals: Arrivals,
    tick_ms: u64,
)
    ensures
        run.limits_running && !arrivals.limits ==> !run.turned(
            ui,
            live,
            refresh,
            arrivals,
            tick_ms,
        ).collect_limits,
        run.usage_running && !arrivals.usage ==> !run.turned(
            ui,
            live,
            refresh,
            arrivals,
            tick_ms,
        ).collect_usage,
{
}

/// Between two collections of the limits lie at least ten seconds, unless one
/// is asked for.
pub proof fn law_collections_keep_their_distance(
    run: Run,
    ui: Ui,
    live: bool,
    refresh: u64,
    arrivals: Arrivals,
    tick_ms: u64,
    later_ms: u64,
    later_ui: Ui,
    later_arrivals: Arrivals,
)
    requires
        run.turned(ui, live, refresh, arrivals, tick_ms).collect_limits,
        later_ms < tick_ms + 10_000,
        tick_ms + 1_800_000 <= u64::MAX,
    ensures
        !run.turned(ui, live, refresh, arrivals, tick_ms).run.turned(
            later_ui,
            live,
            refresh,
            later_arrivals,
            later_ms,
        ).collect_limits,
{
}

/// A monitor that is not live collects nothing.
pub proof fn law_fixtures_collect_nothing(
    run: Run,
    ui: Ui,
    refresh: u64,
    arrivals: Arrivals,
    tick_ms: u64,
)
    ensures
        !run.turned(ui, false, refresh, arrivals, tick_ms).collect_limits,
        !run.turned(ui, false, refresh, arrivals, tick_ms).collect_usage,
{
}

/// Asked to refresh, a live monitor collects with its next turn what the
/// screen shows, where that is not being collected already.
pub proof fn law_refresh_key_collects(run: Run, ui: Ui, refresh: u64, tick_ms: u64, next_ms: u64)
    requires
        tick_ms <= next_ms,
    ensures
        ({
            let (run2, ui2) = run.noticed(ui, Happening::Pressed(Key::Char('r')), tick_ms);
            let none = Arrivals { limits: false, usage: false };
            let turn = run2.turned(ui2, true, refresh, none, next_ms);
            &&& ui.tab is Consumption && !run.usage_running ==> turn.collect_usage
            &&& !(ui.tab is Consumption) && !run.limits_running ==> turn.collect_limits
        }),
{
}

/// Where nothing came in, nothing is due, nothing is busy and no refresh was
/// asked for lately, a drawn screen is not drawn again.
pub proof fn law_quiet_screen_is_not_drawn_again(
    run: Run,
    ui: Ui,
    refresh: u64,
    tick_ms: u64,
)
    requires
        !run.dirty,
        !ui.limits_busy,
        !ui.usage_busy,
        ui.last_refresh_ms + 1_600 <= tick_ms,
        tick_ms < run.next_limits_ms,
        tick_ms < run.next_usage_ms,
    ensures
        !run.turned(
            ui,
            true,
            refresh,
            (Arrivals { limits: false, usage: false }),
            tick_ms,
        ).draw,
{
}

/// The limits are collected as soon as they are due and no collection of them
/// runs, and the next time after the interval; the ledger likewise, but only
/// while it is shown, and every five minutes.
pub proof fn law_due_collections_start(
    run: Run,
    ui: Ui,
    live: bool,
    refresh: u64,
    arrivals: Arrivals,
    tick_ms: u64,
)
    requires
        tick_ms <= 0x7fff_ffff_ffff_ffff,
    ensures
        ({
            let turn = run.turned(ui, live, refresh, arrivals, tick_ms);
            &&& turn.collect_limits <==> live && tick_ms >= run.next_limits_ms && (
            !run.limits_running || arrivals.limits)
            &&& turn.collect_usage <==> live && ui.tab is Consumption && tick_ms
                >= run.next_usage_ms && (!run.usage_running || arrivals.usage)
            &&& turn.collect_limits && 10 <= refresh <= 1_800 ==> turn.run.next_limits_ms == tick_ms
                + refresh * 1_000
            &&& turn.collect_usage ==> turn.run.next_usage_ms == tick_ms + 5 * 60 * 1_000
            &&& !turn.collect_limits ==> turn.run.next_limits_ms == run.next_limits_ms
            &&& !turn.collect_usage ==> turn.run.next_usage_ms == run.next_usage_ms
        }),
{
}

/// A page is busy while a collection for it runs: it becomes so when one starts
/// and is no longer once the answer has arrived and none starts anew.
pub proof fn law_arrivals_end_the_wait(
    run: Run,
    ui: Ui,
    live: bool,
    refresh: u64,
    arrivals: Arrivals,
    tick_ms: u64,
)
    ensures
        ({
            let turn = run.turned(ui, live, refresh, arrivals, tick_ms);
            &&& turn.collect_limits ==> turn.ui.limits_busy && turn.run.limits_running
            &&& turn.collect_usage ==> turn.ui.usage_busy && turn.run.usage_running
            &&& arrivals.limits && !turn.collect_limits ==> !turn.ui.limits_busy
                && !turn.run.limits_running
            &&& arrivals.usage && !turn.collect_usage ==> !turn.ui.usage_busy
                && !turn.run.usage_running
            &&& arrivals.limits ==> turn.ui.live
            &&& turn.stop == ui.should_quit
            &&& ui.should_quit ==> !turn.draw
            &&& (arrivals.limits || arrivals.usage) && !ui.should_quit ==> turn.draw
        }),
{
}

} // verus!
