//! Reading the daily archive of the former desktop app.

use vstd::prelude::*;

use crate::arithmetic::amount_total;
use crate::counts::{clamped, count_total, count_up, sat_add};
use crate::json::{borrowed, Json};
use crate::quantity::{Quantity, ZERO};
use crate::text::{comes_before, maybe_str, precedes, same, trim, trimmed};

verus! {

/// What the archive holds for a range of days. The amount that the app had
/// estimated is a sum over all observations, in order.
#[derive(Debug)]
pub struct LegacyDailyTotals {
    pub days: usize,
    pub rows: usize,
    pub tokens: i64,
    pub monitor_estimate_usd: Quantity,
    pub source: String,
}

/// A day of the archive.
pub struct DayView {
    pub date: Seq<char>,
    pub day: Json,
}

/// The days with one more, in the order of their dates; a day that is there
/// already is replaced.
pub open spec fn put_day(days: Seq<DayView>, date: Seq<char>, day: Json) -> Seq<DayView>
    decreases days.len(),
{
    if days.len() == 0 {
        seq![DayView { date, day }]
    } else if days.last().date == date {
        days.drop_last().push(DayView { date, day })
    } else if precedes(days.last().date, date) {
        days.push(DayView { date, day })
    } else {
        put_day(days.drop_last(), date, day).push(days.last())
    }
}

/// The days with all entries of an object put in, in order.
pub open spec fn put_days(days: Seq<DayView>, entries: Seq<(String, Json)>) -> Seq<DayView>
    decreases entries.len(),
{
    if entries.len() == 0 {
        days
    } else {
        put_day(
            put_days(days, entries.drop_last()),
            entries.last().0@,
            entries.last().1,
        )
    }
}

/// The entries of the object under a key; none where there is no object.
pub open spec fn day_entries(root: Json, key: Seq<char>) -> Seq<(String, Json)> {
    match root.at(key) {
        Some(value) => match value.entries() {
            Some(entries) => entries,
            None => Seq::empty(),
        },
        None => Seq::empty(),
    }
}

/// The days of an archive. A live day is newer than the archived day of the
/// same date and replaces it.
pub open spec fn archive_days(root: Json) -> Seq<DayView> {
    put_days(put_days(Seq::empty(), day_entries(root, "days"@)), day_entries(root, "liveDays"@))
}

pub open spec fn in_range(
    date: Seq<char>,
    since: Option<Seq<char>>,
    until: Option<Seq<char>>,
) -> bool {
    !(since is Some && precedes(date, since->0)) && !(until is Some && precedes(until->0, date))
}

/// The quantity that a value is; a string counts where nothing stands around
/// the number that it spells.
pub open spec fn plain_number(value: Option<Json>) -> Option<Quantity> {
    match value {
        Some(Json::Number { value, .. }) => Some(value),
        Some(Json::Text { text, spelled }) => if trim(text@) == text@ {
            spelled
        } else {
            None
        },
        _ => None,
    }
}

/// A quantity that may not be negative; a missing one is zero.
pub open spec fn at_least_zero(value: Option<Quantity>) -> Quantity {
    match value {
        Some(value) => if (Quantity { bits: ZERO }).below(value) {
            value
        } else {
            Quantity { bits: ZERO }
        },
        None => Quantity { bits: ZERO },
    }
}

/// The totals over a run of observations.
pub struct TotalsView {
    pub days: nat,
    pub rows: nat,
    pub tokens: i64,
    pub estimate: Quantity,
}

pub open spec fn with_observations(before: TotalsView, entries: Seq<(String, Json)>) -> TotalsView
    decreases entries.len(),
{
    if entries.len() == 0 {
        before
    } else {
        let sofar = with_observations(before, entries.drop_last());
        let observation = entries.last().1;
        TotalsView {
            rows: sofar.rows + 1,
            tokens: clamped(
                sofar.tokens + at_least_zero(plain_number(observation.at("tokens"@))).truncated(),
            ) as i64,
            estimate: sofar.estimate.sum(
                at_least_zero(plain_number(observation.at("cost"@))),
            ),
            ..sofar
        }
    }
}

/// The totals over the days within a range.
pub open spec fn day_totals(
    days: Seq<DayView>,
    since: Option<Seq<char>>,
    until: Option<Seq<char>>,
) -> TotalsView
    decreases days.len(),
{
    if days.len() == 0 {
        TotalsView { days: 0, rows: 0, tokens: 0, estimate: Quantity { bits: ZERO } }
    } else {
        let before = day_totals(days.drop_last(), since, until);
        if in_range(days.last().date, since, until) {
            let counted = TotalsView { days: before.days + 1, ..before };
            with_observations(counted, day_entries(days.last().day, "observations"@))
        } else {
            before
        }
    }
}

fn read_number(value: Option<&Json>) -> (out: Option<Quantity>)
    ensures
        out == plain_number(borrowed(value)),
{
    match value {
        Some(Json::Number { value, .. }) => Some(*value),
        Some(Json::Text { text, spelled }) => {
            let bare = trimmed(text.as_str());
            if same(bare.as_str(), text.as_str()) {
                *spelled
            } else {
                None
            }
        },
        _ => None,
    }
}

fn floor_number(value: Option<Quantity>) -> (out: Quantity)
    ensures
        out == at_least_zero(value),
{
    match value {
        Some(value) => if (Quantity { bits: ZERO }).is_below(value) {
            value
        } else {
            Quantity { bits: ZERO }
        },
        None => Quantity { bits: ZERO },
    }
}

pub open spec fn day_views(days: Seq<(&String, &Json)>) -> Seq<DayView> {
    days.map_values(|day: (&String, &Json)| DayView { date: day.0@, day: *day.1 })
}

/// Puts one day into its place.
fn insert_day<'a>(days: &mut Vec<(&'a String, &'a Json)>, date: &'a String, day: &'a Json)
    ensures
        day_views(final(days)@) == put_day(day_views(old(days)@), date@, *day),
{
    let ghost start = day_views(days@);
    let mut at: usize = days.len();
    assert(start.take(at as int) =~= start);
    assert(start.skip(at as int) =~= Seq::<DayView>::empty());
    assert(put_day(start, date@, *day) =~= put_day(start.take(at as int), date@, *day) + start.skip(
        at as int,
    ));
    while at > 0 && !same(days[at - 1].0.as_str(), date.as_str()) && !comes_before(
        days[at - 1].0.as_str(),
        date.as_str(),
    )
        invariant
            at <= days@.len(),
            start == day_views(days@),
            put_day(start, date@, *day) == put_day(start.take(at as int), date@, *day) + start.skip(
                at as int,
            ),
        decreases at,
    {
        proof {
            let now = start.take(at as int);
            assert(now.last() == start[at - 1]);
            assert(now.drop_last() =~= start.take(at - 1));
            assert(put_day(start, date@, *day) =~= put_day(start.take(at - 1), date@, *day)
                + start.skip(at - 1));
        }
        at = at - 1;
    }
    proof {
        let now = start.take(at as int);
        if at > 0 {
            assert(now.last() == start[at - 1]);
            assert(now.drop_last() =~= start.take(at - 1));
        }
    }
    if at > 0 && same(days[at - 1].0.as_str(), date.as_str()) {
        days.set(at - 1, (date, day));
        assert(day_views(days@) =~= put_day(start, date@, *day));
    } else {
        days.insert(at, (date, day));
        assert(day_views(days@) =~= put_day(start, date@, *day));
    }
}

fn insert_days<'a>(days: &mut Vec<(&'a String, &'a Json)>, root: &'a Json, key: &str)
    ensures
        day_views(final(days)@) == put_days(day_views(old(days)@), day_entries(*root, key@)),
{
    let ghost start = day_views(days@);
    match root.get(key) {
        Some(value) => match value.as_object() {
            Some(entries) => {
                let mut i: usize = 0;
                assert(entries@.take(0) =~= Seq::<(String, Json)>::empty());
                while i < entries.len()
                    invariant
                        i <= entries@.len(),
                        day_views(days@) == put_days(start, entries@.take(i as int)),
                    decreases entries@.len() - i,
                {
                    proof {
                        assert(entries@.take(i + 1).drop_last() =~= entries@.take(i as int));
                        assert(entries@.take(i + 1).last() == entries@[i as int]);
                    }
                    insert_day(days, &entries[i].0, &entries[i].1);
                    i = i + 1;
                }
                assert(entries@.take(i as int) =~= entries@);
            },
            None => {},
        },
        None => {},
    }
}

impl LegacyDailyTotals {
    /// The counts as numbers; those that do not fit a machine word are held at
    /// the largest that does.
    pub open spec fn states(self, totals: TotalsView) -> bool {
        &&& self.days == if totals.days <= usize::MAX {
            totals.days as int
        } else {
            usize::MAX as int
        }
        &&& self.rows == if totals.rows <= usize::MAX {
            totals.rows as int
        } else {
            usize::MAX as int
        }
        &&& self.tokens == totals.tokens
        &&& self.monitor_estimate_usd == totals.estimate
    }

    fn add_observations(&mut self, day: &Json, Ghost(before): Ghost<TotalsView>)
        requires
            old(self).states(before),
        ensures
            final(self).states(with_observations(before, day_entries(*day, "observations"@))),
            final(self).source == old(self).source,
    {
        match day.get("observations") {
            Some(value) => match value.as_object() {
                Some(entries) => {
                    let mut i: usize = 0;
                    assert(entries@.take(0) =~= Seq::<(String, Json)>::empty());
                    while i < entries.len()
                        invariant
                            i <= entries@.len(),
                            self.source == old(self).source,
                            self.states(with_observations(before, entries@.take(i as int))),
                        decreases entries@.len() - i,
                    {
                        proof {
                            assert(entries@.take(i + 1).drop_last() =~= entries@.take(i as int));
                            assert(entries@.take(i + 1).last() == entries@[i as int]);
                        }
                        let observation = &entries[i].1;
                        let tokens = floor_number(read_number(observation.get("tokens")));
                        let cost = floor_number(read_number(observation.get("cost")));
                        self.rows = count_up(self.rows);
                        self.tokens = sat_add(self.tokens, tokens.truncate());
                        self.monitor_estimate_usd = self.monitor_estimate_usd.plus(cost);
                        i = i + 1;
                    }
                    assert(entries@.take(i as int) =~= entries@);
                },
                None => {},
            },
            None => {},
        }
    }
}

/// Sums an archive over the days from `since` to `until`, both of them counted.
pub fn summarize_daily_archive_value(
    root: &Json,
    source: &str,
    since: Option<&str>,
    until: Option<&str>,
) -> (out: Result<LegacyDailyTotals, String>)
    ensures
        out is Ok,
        out->Ok_0.states(day_totals(archive_days(*root), maybe_str(since), maybe_str(until))),
        out->Ok_0.source@ == source@,
{
    let mut days: Vec<(&String, &Json)> = Vec::new();
    assert(day_views(days@) =~= Seq::<DayView>::empty());
    insert_days(&mut days, root, "days");
    insert_days(&mut days, root, "liveDays");
    let ghost views = day_views(days@);
    let mut totals = LegacyDailyTotals {
        days: 0,
        rows: 0,
        tokens: 0,
        monitor_estimate_usd: Quantity { bits: ZERO },
        source: source.to_owned(),
    };
    let mut i: usize = 0;
    while i < days.len()
        invariant
            i <= days@.len(),
            views == day_views(days@),
            totals.source@ == source@,
            totals.states(
                day_totals(views.take(i as int), maybe_str(since), maybe_str(until)),
            ),
        decreases days@.len() - i,
    {
        proof {
            assert(views.take(i + 1).drop_last() =~= views.take(i as int));
            assert(views.take(i + 1).last() == views[i as int]);
        }
        let date = days[i].0.as_str();
        let early = match since {
            Some(since) => comes_before(date, since),
            None => false,
        };
        let late = match until {
            Some(until) => comes_before(until, date),
            None => false,
        };
        if !early && !late {
            let ghost before = day_totals(views.take(i as int), maybe_str(since), maybe_str(until));
            totals.days = count_up(totals.days);
            totals.add_observations(
                days[i].1,
                Ghost(TotalsView { days: before.days + 1, ..before }),
            );
        }
        i = i + 1;
    }
    assert(views.take(i as int) =~= views);
    Ok(totals)
}

proof fn lemma_put_day(days: Seq<DayView>, date: Seq<char>, day: Json)
    requires
        forall|i: int, j: int|
            0 <= i < j < days.len() ==> precedes(
                (#[trigger] days[i]).date,
                (#[trigger] days[j]).date,
            ),
    ensures
        forall|i: int, j: int|
            0 <= i < j < put_day(days, date, day).len() ==> precedes(
                (#[trigger] put_day(days, date, day)[i]).date,
                (#[trigger] put_day(days, date, day)[j]).date,
            ),
        forall|i: int|
            0 <= i < put_day(days, date, day).len() ==> (#[trigger] put_day(days, date, day)[i]).date
                != date ==> days.contains(put_day(days, date, day)[i]),
        put_day(days, date, day).contains(DayView { date, day }),
        forall|i: int|
            0 <= i < days.len() && (#[trigger] days[i]).date != date ==> put_day(
                days,
                date,
                day,
            ).contains(days[i]),
    decreases days.len(),
{
    let out = put_day(days, date, day);
    if days.len() == 0 {
        assert(out[0] == DayView { date, day });
    } else if days.last().date == date || precedes(days.last().date, date) {
        let last = out.len() - 1;
        assert(out[last] == DayView { date, day });
        assert forall|i: int, j: int| 0 <= i < j < out.len() implies precedes(
            (#[trigger] out[i]).date,
            (#[trigger] out[j]).date,
        ) by {
            if j == last && i < days.len() - 1 {
                assert(precedes(days[i].date, days[days.len() - 1].date));
                if days.last().date != date {
                    crate::text::lemma_precedes_transitive(days[i].date, days.last().date, date);
                }
            } else if j < last {
                assert(precedes(days[i].date, days[j].date));
            }
        }
        assert forall|i: int| 0 <= i < out.len() && (#[trigger] out[i]).date != date implies days.contains(
            out[i],
        ) by {
            assert(days[i] == out[i]);
        }
        assert forall|i: int| 0 <= i < days.len() && (#[trigger] days[i]).date != date implies out.contains(
            days[i],
        ) by {
            assert(out[i] == days[i]);
        }
    } else {
        let head = days.drop_last();
        assert forall|i: int, j: int| 0 <= i < j < head.len() implies precedes(
            (#[trigger] head[i]).date,
            (#[trigger] head[j]).date,
        ) by {
            assert(precedes(days[i].date, days[j].date));
        }
        lemma_put_day(head, date, day);
        let inner = put_day(head, date, day);
        let last = out.len() - 1;
        crate::text::lemma_precedes_total(days.last().date, date);
        assert forall|i: int, j: int| 0 <= i < j < out.len() implies precedes(
            (#[trigger] out[i]).date,
            (#[trigger] out[j]).date,
        ) by {
            if j < last {
                assert(out[i] == inner[i] && out[j] == inner[j]);
            } else {
                assert(out[i] == inner[i]);
                if inner[i].date != date {
                    let k = choose|k: int| 0 <= k < head.len() && head[k] == inner[i];
                    assert(precedes(days[k].date, days[days.len() - 1].date));
                }
            }
        }
        assert forall|i: int| 0 <= i < out.len() && (#[trigger] out[i]).date != date implies days.contains(
            out[i],
        ) by {
            if i < last {
                assert(out[i] == inner[i]);
                let k = choose|k: int| 0 <= k < head.len() && head[k] == inner[i];
                assert(days[k] == out[i]);
            } else {
                assert(days[days.len() - 1] == out[i]);
            }
        }
        let at = choose|at: int| 0 <= at < inner.len() && inner[at] == DayView { date, day };
        assert(out[at] == DayView { date, day });
        assert forall|i: int| 0 <= i < days.len() && (#[trigger] days[i]).date != date implies out.contains(
            days[i],
        ) by {
            if i < days.len() - 1 {
                assert(head[i] == days[i]);
                assert(inner.contains(head[i]));
                let k = choose|k: int| 0 <= k < inner.len() && inner[k] == head[i];
                assert(out[k] == days[i]);
            } else {
                assert(out[last] == days[i]);
            }
        }
    }
}

proof fn lemma_put_days_ordered(days: Seq<DayView>, entries: Seq<(String, Json)>)
    requires
        forall|i: int, j: int|
            0 <= i < j < days.len() ==> precedes(
                (#[trigger] days[i]).date,
                (#[trigger] days[j]).date,
            ),
    ensures
        forall|i: int, j: int|
            0 <= i < j < put_days(days, entries).len() ==> precedes(
                (#[trigger] put_days(days, entries)[i]).date,
                (#[trigger] put_days(days, entries)[j]).date,
            ),
    decreases entries.len(),
{
    if entries.len() > 0 {
        lemma_put_days_ordered(days, entries.drop_last());
        lemma_put_day(
            put_days(days, entries.drop_last()),
            entries.last().0@,
            entries.last().1,
        );
    }
}

/// The days of an archive stand in the order of their dates, each date once.
pub proof fn law_archive_days_are_ordered(root: Json, i: int, j: int)
    requires
        0 <= i < j < archive_days(root).len(),
    ensures
        precedes(archive_days(root)[i].date, archive_days(root)[j].date),
        archive_days(root)[i].date != archive_days(root)[j].date,
{
    let first = put_days(Seq::empty(), day_entries(root, "days"@));
    lemma_put_days_ordered(Seq::empty(), day_entries(root, "days"@));
    lemma_put_days_ordered(first, day_entries(root, "liveDays"@));
    crate::text::lemma_precedes_total(archive_days(root)[i].date, archive_days(root)[j].date);
}

/// The last live day of a date is the day that counts.
pub proof fn law_live_day_overrides(root: Json, at: int)
    requires
        0 <= at < day_entries(root, "liveDays"@).len(),
        forall|k: int|
            at < k < day_entries(root, "liveDays"@).len() ==> (#[trigger] day_entries(
                root,
                "liveDays"@,
            )[k]).0@ != day_entries(root, "liveDays"@)[at].0@,
    ensures
        archive_days(root).contains(
            DayView {
                date: day_entries(root, "liveDays"@)[at].0@,
                day: day_entries(root, "liveDays"@)[at].1,
            },
        ),
{
    let live = day_entries(root, "liveDays"@);
    let first = put_days(Seq::empty(), day_entries(root, "days"@));
    lemma_put_days_ordered(Seq::empty(), day_entries(root, "days"@));
    lemma_put_days_keeps(first, live, at);
}

proof fn lemma_put_days_keeps(days: Seq<DayView>, entries: Seq<(String, Json)>, at: int)
    requires
        0 <= at < entries.len(),
        forall|i: int, j: int|
            0 <= i < j < days.len() ==> precedes(
                (#[trigger] days[i]).date,
                (#[trigger] days[j]).date,
            ),
        forall|k: int| at < k < entries.len() ==> (#[trigger] entries[k]).0@ != entries[at].0@,
    ensures
        put_days(days, entries).contains(DayView { date: entries[at].0@, day: entries[at].1 }),
    decreases entries.len(),
{
    let head = entries.drop_last();
    let inner = put_days(days, head);
    lemma_put_days_ordered(days, head);
    lemma_put_day(inner, entries.last().0@, entries.last().1);
    if at < entries.len() - 1 {
        assert(head[at] == entries[at]);
        assert forall|k: int| at < k < head.len() implies (#[trigger] head[k]).0@ != head[at].0@ by {
            assert(head[k] == entries[k]);
        }
        lemma_put_days_keeps(days, head, at);
        let wanted = DayView { date: entries[at].0@, day: entries[at].1 };
        let k = choose|k: int| 0 <= k < inner.len() && inner[k] == wanted;
        assert(entries[entries.len() - 1].0@ != entries[at].0@);
        assert(inner[k].date != entries.last().0@);
    }
}

/// The observations of the days within a range, in their order.
pub open spec fn observed(
    days: Seq<DayView>,
    since: Option<Seq<char>>,
    until: Option<Seq<char>>,
) -> Seq<Json>
    decreases days.len(),
{
    if days.len() == 0 {
        Seq::empty()
    } else if (since is Some && precedes(days.last().date, since->0)) || (until is Some && precedes(
        until->0,
        days.last().date,
    )) {
        observed(days.drop_last(), since, until)
    } else {
        observed(days.drop_last(), since, until) + day_entries(
            days.last().day,
            "observations"@,
        ).map_values(|entry: (String, Json)| entry.1)
    }
}

/// The totals are those of every observation of the days from the first date to
/// the last, both with it: as many rows as there are observations, their tokens
/// and their costs summed from zero, none of them counted below zero.
pub proof fn law_totals_count_every_observation(
    days: Seq<DayView>,
    since: Option<Seq<char>>,
    until: Option<Seq<char>>,
)
    ensures
        day_totals(days, since, until).days == days.filter(
            |day: DayView|
                !(since is Some && precedes(day.date, since->0)) && !(until is Some && precedes(
                    until->0,
                    day.date,
                )),
        ).len(),
        day_totals(days, since, until).rows == observed(days, since, until).len(),
        day_totals(days, since, until).tokens == count_total(
            observed(days, since, until).map_values(
                |row: Json| at_least_zero(plain_number(row.at("tokens"@))).truncated() as i64,
            ),
        ),
        day_totals(days, since, until).estimate == amount_total(
            observed(days, since, until).map_values(
                |row: Json| at_least_zero(plain_number(row.at("cost"@))),
            ),
        ),
    decreases days.len(),
{
    let inside = |day: DayView|
        !(since is Some && precedes(day.date, since->0)) && !(until is Some && precedes(
            until->0,
            day.date,
        ));
    if days.len() == 0 {
        reveal(Seq::filter);
    } else {
        let rest = days.drop_last();
        law_totals_count_every_observation(rest, since, until);
        assert(days =~= rest.push(days.last()));
        rest.lemma_filter_push(days.last(), inside);
        if inside(days.last()) {
            let before = day_totals(rest, since, until);
            lemma_observations(
                TotalsView { days: before.days + 1, ..before },
                observed(rest, since, until),
                day_entries(days.last().day, "observations"@),
            );
        }
    }
}

proof fn lemma_observations(before: TotalsView, rows: Seq<Json>, entries: Seq<(String, Json)>)
    requires
        before.rows == rows.len(),
        before.tokens == count_total(
            rows.map_values(
                |row: Json| at_least_zero(plain_number(row.at("tokens"@))).truncated() as i64,
            ),
        ),
        before.estimate == amount_total(
            rows.map_values(|row: Json| at_least_zero(plain_number(row.at("cost"@)))),
        ),
    ensures
        ({
            let all = rows + entries.map_values(|entry: (String, Json)| entry.1);
            let out = with_observations(before, entries);
            &&& out.days == before.days
            &&& out.rows == all.len()
            &&& out.tokens == count_total(
                all.map_values(
                    |row: Json| at_least_zero(plain_number(row.at("tokens"@))).truncated() as i64,
                ),
            )
            &&& out.estimate == amount_total(
                all.map_values(|row: Json| at_least_zero(plain_number(row.at("cost"@)))),
            )
        }),
    decreases entries.len(),
{
    let value = |entry: (String, Json)| entry.1;
    let tokens = |row: Json| at_least_zero(plain_number(row.at("tokens"@))).truncated() as i64;
    let cost = |row: Json| at_least_zero(plain_number(row.at("cost"@)));
    let all = rows + entries.map_values(value);
    if entries.len() == 0 {
        assert(all =~= rows);
    } else {
        let rest = entries.drop_last();
        lemma_observations(before, rows, rest);
        let some = rows + rest.map_values(value);
        assert(all =~= some.push(entries.last().1));
        assert(all.map_values(tokens).drop_last() =~= some.map_values(tokens));
        assert(all.map_values(cost).drop_last() =~= some.map_values(cost));
        assert(all.map_values(tokens).last() == tokens(entries.last().1));
        assert(all.map_values(cost).last() == cost(entries.last().1));
    }
}

/// A number counts as it is above zero, and as zero otherwise; a text counts
/// where it spells a number without spaces around it.
pub proof fn law_observed_numbers_are_not_negative(value: Json)
    ensures
        value matches Json::Number { value: number, .. } ==> {
            &&& !number.nan() && number.rank() > 0 ==> at_least_zero(plain_number(Some(value)))
                == number
            &&& number.nan() || number.rank() <= 0 ==> at_least_zero(plain_number(Some(value)))
                == (Quantity { bits: 0 })
        },
        value is Null || value is Bool || value is List || value is Object ==> at_least_zero(
            plain_number(Some(value)),
        ) == (Quantity { bits: 0 }),
{
}

/// A day of the archive that no live day replaces, and that no later entry of
/// the archive repeats, counts as it stands there.
pub proof fn law_archived_day_stays(root: Json, at: int)
    requires
        0 <= at < day_entries(root, "days"@).len(),
        forall|k: int|
            at < k < day_entries(root, "days"@).len() ==> (#[trigger] day_entries(
                root,
                "days"@,
            )[k]).0@ != day_entries(root, "days"@)[at].0@,
        forall|k: int|
            0 <= k < day_entries(root, "liveDays"@).len() ==> (#[trigger] day_entries(
                root,
                "liveDays"@,
            )[k]).0@ != day_entries(root, "days"@)[at].0@,
    ensures
        archive_days(root).contains(
            DayView {
                date: day_entries(root, "days"@)[at].0@,
                day: day_entries(root, "days"@)[at].1,
            },
        ),
{
    let old = day_entries(root, "days"@);
    let first = put_days(Seq::empty(), old);
    lemma_put_days_ordered(Seq::empty(), old);
    lemma_put_days_keeps(Seq::empty(), old, at);
    lemma_other_days_stay(
        first,
        day_entries(root, "liveDays"@),
        DayView { date: old[at].0@, day: old[at].1 },
    );
}

proof fn lemma_other_days_stay(days: Seq<DayView>, entries: Seq<(String, Json)>, day: DayView)
    requires
        days.contains(day),
        forall|i: int, j: int|
            0 <= i < j < days.len() ==> precedes(
                (#[trigger] days[i]).date,
                (#[trigger] days[j]).date,
            ),
        forall|k: int| 0 <= k < entries.len() ==> (#[trigger] entries[k]).0@ != day.date,
    ensures
        put_days(days, entries).contains(day),
    decreases entries.len(),
{
    if entries.len() > 0 {
        let rest = entries.drop_last();
        assert forall|k: int| 0 <= k < rest.len() implies (#[trigger] rest[k]).0@ != day.date by {
            assert(rest[k] == entries[k]);
        }
        lemma_other_days_stay(days, rest, day);
        let before = put_days(days, rest);
        assert(entries[entries.len() - 1].0@ != day.date);
        lemma_other_day_stays(before, entries.last().0@, entries.last().1, day);
    }
}

proof fn lemma_other_day_stays(days: Seq<DayView>, date: Seq<char>, value: Json, day: DayView)
    requires
        days.contains(day),
        day.date != date,
    ensures
        put_day(days, date, value).contains(day),
    decreases days.len(),
{
    let i = choose|i: int| 0 <= i < days.len() && days[i] == day;
    let out = put_day(days, date, value);
    if days.last().date == date || precedes(days.last().date, date) {
        assert(out[i] == day);
    } else if i == days.len() - 1 {
        assert(out[out.len() - 1] == day);
    } else {
        assert(days.drop_last()[i] == day);
        lemma_other_day_stays(days.drop_last(), date, value, day);
        let inner = put_day(days.drop_last(), date, value);
        let k = choose|k: int| 0 <= k < inner.len() && inner[k] == day;
        assert(out[k] == day);
    }
}

} // verus!
