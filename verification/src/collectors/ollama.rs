//! Ollama: the usage meters of the settings page.

use vstd::prelude::*;

use crate::collectors::{answered, answered_row, ask, asked, draft_views, missing, missing_row};
use crate::collectors::{no_row, nothing_for, text_moment, text_timestamp, Badge, DraftView};
use crate::collectors::{Failure, FailureView, Row, RowView, WindowDraft};
use crate::collectors::kiro::{cut_after_numeral, is_numeral_char, numeral_char, to_numeral};
use crate::formula::{given, rest_of_hundred, Formula, Power};
use crate::limits::WindowKind;
use crate::quantity::Quantity;
use crate::secrets::{first_char, key_of, str_views, Secrets};
use crate::sort::{sort_by, sorted};
use crate::text::{chars_of, find_from, find_in, lemma_find_from, lower, maybe_str, maybe_text};
use crate::text::{slice_text, texts, to_lower};

verus! {

pub open spec fn ollama_badge() -> Badge {
    Badge { provider_id: "ollama", source: "web", hue: 75 }
}

pub open spec fn cookie_names() -> Seq<Seq<char>> {
    seq!["TOKEN_MONITOR_OLLAMA_COOKIE"@, "OLLAMA_COOKIE"@]
}

pub fn ollama_cookie(secrets: &Secrets) -> (out: Option<String>)
    requires
        secrets.well_formed(),
    ensures
        maybe_text(out) == secrets.found(cookie_names()),
{
    let names = vec!["TOKEN_MONITOR_OLLAMA_COOKIE", "OLLAMA_COOKIE"];
    assert(str_views(names@) =~= cookie_names());
    secrets.env_secret(&names)
}

/// A usage meter of the page.
#[derive(Clone, Copy, Debug, PartialEq, Eq, Structural)]
pub enum Meter {
    Session,
    Hourly,
    Weekly,
}

impl Meter {
    /// The words that open the meter's part of the page.
    pub open spec fn heading(self) -> Seq<char> {
        match self {
            Meter::Session => "session usage"@,
            Meter::Hourly => "hourly usage"@,
            Meter::Weekly => "weekly usage"@,
        }
    }

    pub open spec fn name(self) -> Seq<char> {
        match self {
            Meter::Session => "Session"@,
            Meter::Hourly => "Hourly"@,
            Meter::Weekly => "Weekly"@,
        }
    }

    pub open spec fn window_kind(self) -> WindowKind {
        match self {
            Meter::Weekly => WindowKind::Weekly,
            _ => WindowKind::Session,
        }
    }

    fn words(self) -> (out: &'static str)
        ensures
            out@ == self.heading(),
    {
        match self {
            Meter::Session => "session usage",
            Meter::Hourly => "hourly usage",
            Meter::Weekly => "weekly usage",
        }
    }

    fn label(self) -> (out: &'static str)
        ensures
            out@ == self.name(),
    {
        match self {
            Meter::Session => "Session",
            Meter::Hourly => "Hourly",
            Meter::Weekly => "Weekly",
        }
    }

    fn kind(self) -> (out: WindowKind)
        ensures
            out == self.window_kind(),
    {
        match self {
            Meter::Weekly => WindowKind::Weekly,
            _ => WindowKind::Session,
        }
    }
}

/// A meter and where its heading stands.
#[derive(Clone, Copy, Debug, PartialEq, Eq, Structural)]
pub struct MeterPlace {
    pub at: usize,
    pub meter: Meter,
}

pub open spec fn place_of(page: Seq<char>, meter: Meter) -> Seq<MeterPlace> {
    match find_from(lower(page), meter.heading(), 0) {
        Some(at) => seq![MeterPlace { at: at as usize, meter }],
        None => Seq::empty(),
    }
}

pub open spec fn stands_before() -> spec_fn(MeterPlace, MeterPlace) -> bool {
    |left: MeterPlace, right: MeterPlace| left.at < right.at
}

/// The meters in the order of the page.
pub open spec fn meter_places(page: Seq<char>) -> Seq<MeterPlace> {
    sorted(
        place_of(page, Meter::Session) + place_of(page, Meter::Hourly) + place_of(
            page,
            Meter::Weekly,
        ),
        stands_before(),
    )
}

pub open spec fn sooner(left: Option<int>, right: Option<int>) -> Option<int> {
    match (left, right) {
        (Some(left), Some(right)) => Some(
            if left <= right {
                left
            } else {
                right
            },
        ),
        (Some(left), None) => Some(left),
        (None, right) => right,
    }
}

/// The end of a meter's part: the next heading of any meter, else the end of
/// the page.
pub open spec fn part_end(page: Seq<char>, from: int) -> int {
    let small = lower(page);
    match sooner(
        sooner(
            find_from(small, Meter::Session.heading(), from),
            find_from(small, Meter::Hourly.heading(), from),
        ),
        find_from(small, Meter::Weekly.heading(), from),
    ) {
        Some(end) => end,
        None => page.len() as int,
    }
}

/// The part of the page that belongs to a meter.
pub open spec fn part_of(page: Seq<char>, place: MeterPlace) -> Seq<char> {
    page.subrange(
        place.at as int,
        part_end(page, place.at + place.meter.heading().len()),
    )
}

/// The numeral characters at the end of a text.
pub open spec fn ending_numeral(text: Seq<char>) -> Seq<char>
    decreases text.len(),
{
    if text.len() > 0 && numeral_char(text.last()) {
        ending_numeral(text.drop_last()).push(text.last())
    } else {
        Seq::empty()
    }
}

/// The last numeral before the first percent sign; empty where there is none.
pub open spec fn meter_numeral(part: Seq<char>) -> Seq<char> {
    if part.contains('%') {
        ending_numeral(to_numeral(part.take(part.index_of_first('%')->0)))
    } else {
        Seq::empty()
    }
}

fn find_ending_numeral(text: &str) -> (out: String)
    ensures
        out@ == ending_numeral(text@),
{
    let chars = chars_of(text);
    let total: usize = chars.len();
    let mut from: usize = total;
    proof {
        assert(text@.take(total as int) =~= text@);
        assert(ending_numeral(text@) + text@.subrange(total as int, total as int) =~= ending_numeral(
            text@,
        ));
    }
    while from > 0 && is_numeral_char(chars[from - 1])
        invariant
            total == chars@.len(),
            chars@ == text@,
            from <= total,
            ending_numeral(text@.take(from as int)) + text@.subrange(from as int, total as int)
                == ending_numeral(text@),
        decreases from,
    {
        proof {
            assert(text@.take(from as int).drop_last() =~= text@.take(from - 1));
            assert(text@.take(from as int).last() == chars@[from - 1]);
            assert(ending_numeral(text@.take(from - 1)).push(chars@[from - 1]) + text@.subrange(
                from as int,
                total as int,
            ) =~= ending_numeral(text@.take(from - 1)) + text@.subrange(from - 1, total as int));
        }
        from = from - 1;
    }
    proof {
        if from > 0 {
            assert(text@.take(from as int).last() == chars@[from - 1]);
        }
        assert(ending_numeral(text@.take(from as int)) =~= Seq::empty());
        assert(Seq::<char>::empty() + text@.subrange(from as int, total as int) =~= text@.subrange(
            from as int,
            total as int,
        ));
    }
    slice_text(&chars, from, total)
}

fn find_numeral(part: &str) -> (out: String)
    ensures
        out@ == meter_numeral(part@),
{
    let chars = chars_of(part);
    match first_char(&chars, '%') {
        Some(at) => {
            let before = slice_text(&chars, 0, at);
            assert(before@ =~= part@.take(at as int));
            find_ending_numeral(cut_after_numeral(before.as_str()).as_str())
        },
        None => {
            let out = String::new();
            assert(out@ =~= Seq::empty());
            out
        },
    }
}

/// The moment in the `data-time` attribute of a part.
pub open spec fn part_reset(part: Seq<char>) -> Option<i64> {
    match find_from(lower(part), "data-time="@, 0) {
        Some(at) => {
            let rest = part.skip(at + "data-time="@.len());
            if rest.len() == 0 {
                None
            } else {
                let value = rest.drop_first();
                text_moment(
                    if value.contains(rest[0]) {
                        value.take(value.index_of_first(rest[0])->0)
                    } else {
                        value
                    },
                )
            }
        },
        None => None,
    }
}

fn find_reset(part: &str) -> (out: Option<i64>)
    ensures
        out == part_reset(part@),
{
    let chars = chars_of(part);
    let small = chars_of(to_lower(part).as_str());
    let wanted = chars_of("data-time=");
    let total: usize = chars.len();
    proof {
        lemma_find_from(lower(part@), "data-time="@, 0);
    }
    match find_in(&small, &wanted, 0) {
        Some(at) => {
            let from: usize = at + wanted.len();
            let ghost rest = part@.skip(at + "data-time="@.len());
            if from >= total {
                assert(rest.len() == 0);
                return None;
            }
            let mark = chars[from];
            assert(rest[0] == mark);
            let value = slice_text(&chars, from + 1, total);
            assert(value@ =~= rest.drop_first());
            let value_chars = chars_of(value.as_str());
            match first_char(&value_chars, mark) {
                Some(end) => {
                    let inner = slice_text(&value_chars, 0, end);
                    assert(inner@ =~= value@.take(end as int));
                    text_timestamp(inner.as_str())
                },
                None => text_timestamp(value.as_str()),
            }
        },
        None => None,
    }
}

/// A meter's part of the page.
#[derive(Debug)]
pub struct MeterPart {
    pub meter: Meter,
    pub text: String,
}

pub struct PartView {
    pub meter: Meter,
    pub text: Seq<char>,
}

impl View for MeterPart {
    type V = PartView;

    open spec fn view(&self) -> PartView {
        PartView { meter: self.meter, text: self.text@ }
    }
}

pub open spec fn part_views(parts: Seq<MeterPart>) -> Seq<PartView> {
    parts.map_values(|part: MeterPart| part@)
}

/// The parts of all meters, in the order of the page.
pub open spec fn meter_parts(page: Seq<char>) -> Seq<PartView> {
    meter_places(page).map_values(
        |place: MeterPlace| PartView { meter: place.meter, text: part_of(page, place) },
    )
}

fn push_place(out: &mut Vec<MeterPlace>, small: &[char], page: &str, meter: Meter)
    requires
        small@ == lower(page@),
        forall|i: int|
            0 <= i < old(out)@.len() ==> (#[trigger] old(out)@[i]).at
                + old(out)@[i].meter.heading().len() <= page@.len(),
    ensures
        final(out)@ == old(out)@ + place_of(page@, meter),
        forall|i: int|
            0 <= i < final(out)@.len() ==> (#[trigger] final(out)@[i]).at
                + final(out)@[i].meter.heading().len() <= page@.len(),
{
    let wanted = chars_of(meter.words());
    let ghost before = out@;
    proof {
        lemma_find_from(lower(page@), meter.heading(), 0);
    }
    match find_in(small, &wanted, 0) {
        Some(at) => {
            out.push(MeterPlace { at, meter });
            assert(out@ =~= before + place_of(page@, meter));
        },
        None => {
            assert(out@ =~= before + place_of(page@, meter));
        },
    }
}

fn find_part_end(small: &[char], page: &str, from: usize) -> (out: usize)
    requires
        small@ == lower(page@),
        from <= page@.len(),
    ensures
        out == part_end(page@, from as int),
        from <= out <= page@.len(),
{
    proof {
        lemma_find_from(lower(page@), Meter::Session.heading(), from as int);
        lemma_find_from(lower(page@), Meter::Hourly.heading(), from as int);
        lemma_find_from(lower(page@), Meter::Weekly.heading(), from as int);
    }
    let mut end: usize = small.len();
    match find_in(small, &chars_of(Meter::Session.words()), from) {
        Some(at) => {
            if at < end {
                end = at;
            }
        },
        None => {},
    }
    match find_in(small, &chars_of(Meter::Hourly.words()), from) {
        Some(at) => {
            if at < end {
                end = at;
            }
        },
        None => {},
    }
    match find_in(small, &chars_of(Meter::Weekly.words()), from) {
        Some(at) => {
            if at < end {
                end = at;
            }
        },
        None => {},
    }
    end
}

/// The meters' parts of the page.
pub fn ollama_parts(page: &str) -> (out: Vec<MeterPart>)
    ensures
        part_views(out@) == meter_parts(page@),
{
    let chars = chars_of(page);
    let small = chars_of(to_lower(page).as_str());
    let mut places: Vec<MeterPlace> = Vec::new();
    push_place(&mut places, &small, page, Meter::Session);
    push_place(&mut places, &small, page, Meter::Hourly);
    push_place(&mut places, &small, page, Meter::Weekly);
    let ghost unsorted = places@;
    assert(unsorted =~= place_of(page@, Meter::Session) + place_of(page@, Meter::Hourly) + place_of(
        page@,
        Meter::Weekly,
    ));
    let less = |left: &MeterPlace, right: &MeterPlace| -> (yes: bool)
        ensures
            yes == stands_before()(*left, *right),
        { left.at < right.at };
    sort_by(&mut places, less, Ghost(stands_before()));
    proof {
        crate::sort::lemma_sorted_contains(unsorted, stands_before());
        assert forall|i: int| 0 <= i < places@.len() implies (#[trigger] places@[i]).at
            + places@[i].meter.heading().len() <= page@.len() by {
            assert(places@.contains(places@[i]));
            let j = choose|j: int| 0 <= j < unsorted.len() && unsorted[j] == places@[i];
            assert(unsorted[j].at + unsorted[j].meter.heading().len() <= page@.len());
        }
    }
    let ghost wanted = meter_parts(page@);
    let mut out: Vec<MeterPart> = Vec::new();
    let mut i: usize = 0;
    let total: usize = chars.len();
    assert(part_views(out@) =~= wanted.take(0));
    while i < places.len()
        invariant
            i <= places@.len(),
            total == page@.len(),
            chars@ == page@,
            small@ == lower(page@),
            places@ == meter_places(page@),
            wanted == meter_parts(page@),
            forall|k: int|
                0 <= k < places@.len() ==> (#[trigger] places@[k]).at
                    + places@[k].meter.heading().len() <= page@.len(),
            part_views(out@) == wanted.take(i as int),
        decreases places@.len() - i,
    {
        let place = places[i];
        assert(places@[i as int] == place);
        let heading = chars_of(place.meter.words());
        let end = find_part_end(&small, page, place.at + heading.len());
        let ghost earlier = out@;
        let part = MeterPart { meter: place.meter, text: slice_text(&chars, place.at, end) };
        let ghost view = part@;
        out.push(part);
        assert(view == wanted[i as int]);
        assert(part_views(out@) =~= part_views(earlier).push(view));
        assert(wanted.take(i + 1) =~= wanted.take(i as int).push(view));
        i = i + 1;
    }
    assert(wanted.take(i as int) =~= wanted);
    out
}

/// The numerals of the parts.
pub open spec fn part_numerals(parts: Seq<PartView>) -> Seq<Seq<char>> {
    parts.map_values(|part: PartView| meter_numeral(part.text))
}

/// The used percentages to be read from the page, one for each meter.
pub fn ollama_numerals(page: &str) -> (out: Vec<String>)
    ensures
        texts(out@) == part_numerals(meter_parts(page@)),
{
    let parts = ollama_parts(page);
    let ghost wanted = part_numerals(meter_parts(page@));
    let mut out: Vec<String> = Vec::new();
    let mut i: usize = 0;
    assert(texts(out@) =~= wanted.take(0));
    while i < parts.len()
        invariant
            i <= parts@.len(),
            part_views(parts@) == meter_parts(page@),
            wanted == part_numerals(meter_parts(page@)),
            texts(out@) == wanted.take(i as int),
        decreases parts@.len() - i,
    {
        let ghost earlier = out@;
        assert(part_views(parts@)[i as int] == parts@[i as int]@);
        let numeral = find_numeral(parts[i].text.as_str());
        let ghost view = numeral@;
        out.push(numeral);
        assert(texts(out@) =~= texts(earlier).push(view));
        assert(wanted.take(i + 1) =~= wanted.take(i as int).push(view));
        i = i + 1;
    }
    assert(wanted.take(i as int) =~= wanted);
    out
}

pub open spec fn reading_at(readings: Seq<Option<Quantity>>, i: int) -> Option<Quantity> {
    if 0 <= i < readings.len() {
        readings[i]
    } else {
        None
    }
}

/// The windows of the first `n` parts whose percentage could be read.
pub open spec fn meter_windows(parts: Seq<PartView>, readings: Seq<Option<Quantity>>, n: int) -> Seq<
    DraftView,
>
    decreases n,
{
    if n <= 0 || n > parts.len() {
        Seq::empty()
    } else {
        let before = meter_windows(parts, readings, n - 1);
        match reading_at(readings, n - 1) {
            Some(used) => before.push(
                DraftView::quota(
                    parts[n - 1].meter.name(),
                    parts[n - 1].meter.window_kind(),
                    Some(Formula::rest_of_hundred(Formula::Given(used))),
                    part_reset(parts[n - 1].text),
                    None,
                ),
            ),
            None => before,
        }
    }
}

pub open spec fn page_windows(page: Seq<char>, readings: Seq<Option<Quantity>>) -> Seq<DraftView> {
    meter_windows(meter_parts(page), readings, meter_parts(page).len() as int)
}

/// `readings` are the readings of the numerals of [`ollama_numerals`].
pub fn ollama_html_windows(page: &str, readings: &Vec<Option<Quantity>>) -> (out: Vec<WindowDraft>)
    ensures
        draft_views(out@) == page_windows(page@, readings@),
{
    let parts = ollama_parts(page);
    let ghost all = part_views(parts@);
    let mut out: Vec<WindowDraft> = Vec::new();
    let mut i: usize = 0;
    assert(draft_views(out@) =~= Seq::empty());
    while i < parts.len()
        invariant
            i <= parts@.len(),
            all == part_views(parts@),
            draft_views(out@) == meter_windows(all, readings@, i as int),
        decreases parts@.len() - i,
    {
        assert(all[i as int] == parts@[i as int]@);
        let ghost earlier = out@;
        let reading = if i < readings.len() {
            readings[i]
        } else {
            None
        };
        match reading {
            Some(used) => {
                let window = WindowDraft::quota(
                    parts[i].meter.label(),
                    parts[i].meter.kind(),
                    Some(rest_of_hundred(given(used))),
                    find_reset(parts[i].text.as_str()),
                    None,
                );
                let ghost view = window@;
                out.push(window);
                assert(draft_views(out@) =~= draft_views(earlier).push(view));
            },
            None => {},
        }
        i = i + 1;
    }
    out
}

/// What came back for the settings page.
#[derive(Debug)]
pub enum PageReply {
    Page(String),
    Refused(u16),
    Failed,
    /// A successful answer whose body is no text.
    Garbled,
}

pub open spec fn ollama_row(
    cookie: Option<Seq<char>>,
    can_ask: bool,
    reply: PageReply,
    readings: Seq<Option<Quantity>>,
    now_ms: i64,
) -> RowView {
    let badge = ollama_badge();
    let label = "Ollama"@;
    match asked(
        badge,
        "ollama"@,
        label,
        cookie,
        "Ollama session cookie not configured"@,
        can_ask,
        now_ms,
    ) {
        Err(row) => row,
        Ok(key) => match reply {
            PageReply::Refused(code) => RowView::Missing(
                missing_row(
                    badge,
                    key,
                    label,
                    FailureView {
                        health: crate::collectors::status_health(code),
                        detail: "Ollama settings unavailable"@,
                    },
                    now_ms,
                ),
            ),
            PageReply::Failed => no_row(badge, key, label, "Ollama request failed"@, now_ms),
            PageReply::Garbled => no_row(
                badge,
                key,
                label,
                "Invalid Ollama settings body"@,
                now_ms,
            ),
            PageReply::Page(page) => if page_windows(page@, readings).len() == 0 {
                no_row(
                    badge,
                    key,
                    label,
                    "Ollama settings page has no usage meters"@,
                    now_ms,
                )
            } else {
                answered(badge, key, label, label, page_windows(page@, readings))
            },
        },
    }
}

/// `readings` are the readings of the numerals of [`ollama_numerals`].
pub fn collect_ollama(
    cookie: Option<&str>,
    can_ask: bool,
    reply: &PageReply,
    readings: &Vec<Option<Quantity>>,
    now_ms: i64,
) -> (out: Row)
    ensures
        out@ == ollama_row(maybe_str(cookie), can_ask, *reply, readings@, now_ms),
{
    let badge = Badge { provider_id: "ollama", source: "web", hue: 75 };
    let label = "Ollama";
    let key = match ask(
        &badge,
        "ollama",
        label,
        cookie,
        "Ollama session cookie not configured",
        can_ask,
        now_ms,
    ) {
        Ok(key) => key,
        Err(row) => {
            return row;
        },
    };
    match reply {
        PageReply::Refused(code) => missing(
            &badge,
            key,
            label.to_owned(),
            Failure {
                health: crate::collectors::status_for_http(*code),
                detail: "Ollama settings unavailable".to_owned(),
            },
            now_ms,
        ),
        PageReply::Failed => nothing_for(&badge, key, label, "Ollama request failed", now_ms),
        PageReply::Garbled => nothing_for(
            &badge,
            key,
            label,
            "Invalid Ollama settings body",
            now_ms,
        ),
        PageReply::Page(page) => {
            let windows = ollama_html_windows(page.as_str(), readings);
            if windows.len() == 0 {
                nothing_for(
                    &badge,
                    key,
                    label,
                    "Ollama settings page has no usage meters",
                    now_ms,
                )
            } else {
                answered_row(&badge, key, label.to_owned(), label.to_owned(), windows)
            }
        },
    }
}

/// A row shows of the cookie no more than the key that is its digest: whoever
/// signed in, the same answers give the same row.
pub proof fn law_row_hides_the_cookie(
    first: Seq<char>,
    second: Seq<char>,
    can_ask: bool,
    reply: PageReply,
    readings: Seq<Option<Quantity>>,
    now_ms: i64,
)
    ensures
        ollama_row(Some(first), can_ask, reply, readings, now_ms).key() == key_of("ollama"@, first),
        ollama_row(Some(first), can_ask, reply, readings, now_ms).keyless()
            == ollama_row(Some(second), can_ask, reply, readings, now_ms).keyless(),
{
}

/// Every meter that could be read gives one window, in the order of the page:
/// its own name, and what its own reading leaves of one hundred.
pub proof fn law_meters_keep_their_readings(
    parts: Seq<PartView>,
    readings: Seq<Option<Quantity>>,
    powers: Seq<Power>,
    i: int,
)
    requires
        readings.len() == parts.len(),
        forall|k: int| 0 <= k < readings.len() ==> (#[trigger] readings[k]) is Some,
        0 <= i < parts.len(),
    ensures
        meter_windows(parts, readings, parts.len() as int).len() == parts.len(),
        ({
            let window = meter_windows(parts, readings, parts.len() as int)[i].settled(powers);
            &&& parts[i].meter is Session ==> window.label == "Session"@ && window.kind is Session
            &&& parts[i].meter is Hourly ==> window.label == "Hourly"@ && window.kind is Session
            &&& parts[i].meter is Weekly ==> window.label == "Weekly"@ && window.kind is Weekly
            &&& window.remaining_percent == Some(
                Quantity { bits: 0x4059_0000_0000_0000 }.difference(
                    readings[i]->0,
                ).as_percentage(),
            )
            &&& window.resets_at_ms == part_reset(parts[i].text)
        }),
{
    lemma_meter_windows(parts, readings, parts.len() as int);
    assert(readings[i] is Some);
    reveal_with_fuel(Formula::value, 4);
}

proof fn lemma_meter_windows(parts: Seq<PartView>, readings: Seq<Option<Quantity>>, n: int)
    requires
        readings.len() == parts.len(),
        forall|k: int| 0 <= k < readings.len() ==> (#[trigger] readings[k]) is Some,
        0 <= n <= parts.len(),
    ensures
        meter_windows(parts, readings, n).len() == n,
        forall|k: int|
            0 <= k < n ==> #[trigger] meter_windows(parts, readings, n)[k] == DraftView::quota(
                parts[k].meter.name(),
                parts[k].meter.window_kind(),
                Some(Formula::rest_of_hundred(Formula::Given(readings[k]->0))),
                part_reset(parts[k].text),
                None,
            ),
    decreases n,
{
    if n > 0 {
        lemma_meter_windows(parts, readings, n - 1);
        assert(readings[n - 1] is Some);
    }
}

/// A meter that could not be read gives no window, and leaves those of the
/// others as they are.
pub proof fn law_unread_meters_are_left_out(
    parts: Seq<PartView>,
    readings: Seq<Option<Quantity>>,
    n: int,
)
    requires
        0 < n <= parts.len(),
        n > readings.len() || readings[n - 1] is None,
    ensures
        meter_windows(parts, readings, n) == meter_windows(parts, readings, n - 1),
{
}

/// The meters are read in the order in which they stand on the page.
pub proof fn law_meters_stand_in_page_order(page: Seq<char>)
    ensures
        forall|i: int, j: int|
            0 <= i < j < meter_places(page).len() ==> (#[trigger] meter_places(page)[i]).at <= (
            #[trigger] meter_places(page)[j]).at,
        meter_places(page).len() == meter_parts(page).len(),
        forall|i: int|
            0 <= i < meter_parts(page).len() ==> (#[trigger] meter_parts(page)[i]).meter
                == meter_places(page)[i].meter,
{
    let found = place_of(page, Meter::Session) + place_of(page, Meter::Hourly) + place_of(
        page,
        Meter::Weekly,
    );
    assert(crate::sort::orders(stands_before()));
    crate::sort::lemma_sorted_in_order(found, stands_before());
    assert forall|i: int, j: int| 0 <= i < j < meter_places(page).len() implies (
    #[trigger] meter_places(page)[i]).at <= (#[trigger] meter_places(page)[j]).at by {
        assert(!stands_before()(meter_places(page)[j], meter_places(page)[i]));
    }
}

/// The reading of a meter is the number before its first percent sign.
pub proof fn law_reading_stands_before_the_sign(part: Seq<char>, at: int)
    requires
        0 <= at < part.len(),
        part[at] == '%',
        forall|k: int| 0 <= k < at ==> #[trigger] part[k] != '%',
    ensures
        meter_numeral(part) == ending_numeral(to_numeral(part.take(at))),
{
    assert(part.contains('%')) by {
        assert(part[at] == '%');
    }
    part.index_of_first_ensures('%');
}

} // verus!
