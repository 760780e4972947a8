//! Names, titles, states and countdowns as the screen words them, and which of
//! them are masked.

use vstd::prelude::*;

use crate::limits::{Availability, LimitWindow, ProviderSnapshot, ProviderView, SourceHealth};
use crate::limits::{WindowKind, WindowMetric, WindowView};
use crate::registry::{display_name, shown_name};
use crate::screen::{dimmed, green, grey, paint, red, yellow, Color, Style};
use crate::text::{chars_of, contains, decimal, decimal_text, find_char, find_from, four};
use crate::text::{has_prefix, has_text, join, join_texts, lemma_find_char, lower, maybe_text};
use crate::text::{parts_between, same, same_caseless, slice_text, split_between, starts_with};
use crate::text::{texts, three, to_lower, to_upper_char, trim, trimmed, two, upper, upper_char};

verus! {

/// The sum of the bytes that a character takes in UTF-8.
pub open spec fn byte_sum(c: char) -> nat {
    let code = c as nat;
    if code < 0x80 {
        code
    } else if code < 0x800 {
        0xc0 + code / 64 + 0x80 + code % 64
    } else if code < 0x10000 {
        0xe0 + code / 4096 + 0x80 + (code / 64) % 64 + 0x80 + code % 64
    } else {
        0xf0 + code / 262144 + 0x80 + (code / 4096) % 64 + 0x80 + (code / 64) % 64 + 0x80 + code
            % 64
    }
}

/// The hue of a name: the sum of its bytes, as far as one byte holds it.
pub open spec fn hue_of(text: Seq<char>) -> nat
    decreases text.len(),
{
    if text.len() == 0 {
        0
    } else {
        (hue_of(text.drop_last()) + byte_sum(text.last())) % 256
    }
}

fn sum_bytes(c: char) -> (out: u32)
    ensures
        out == byte_sum(c),
        out < 0x1000,
{
    let code: u32 = c as u32;
    if code < 0x80 {
        code
    } else if code < 0x800 {
        0xc0 + code / 64 + 0x80 + code % 64
    } else if code < 0x10000 {
        0xe0 + code / 4096 + 0x80 + (code / 64) % 64 + 0x80 + code % 64
    } else {
        0xf0 + code / 262144 + 0x80 + (code / 4096) % 64 + 0x80 + (code / 64) % 64 + 0x80 + code
            % 64
    }
}

pub fn name_hue(text: &str) -> (out: u8)
    ensures
        out == hue_of(text@),
{
    let chars = chars_of(text);
    let mut out: u32 = 0;
    let mut i: usize = 0;
    while i < chars.len()
        invariant
            i <= chars@.len(),
            chars@ == text@,
            out == hue_of(text@.take(i as int)),
            out < 256,
        decreases chars@.len() - i,
    {
        assert(text@.take(i + 1).drop_last() =~= text@.take(i as int));
        assert(text@.take(i + 1).last() == chars@[i as int]);
        let sum: u32 = sum_bytes(chars[i]);
        out = (out + sum) % 256;
        i = i + 1;
    }
    assert(text@.take(i as int) =~= text@);
    out as u8
}

/// The account color of a hue: eight colors, one for every thirty hues.
#[verifier::allow_in_spec]
pub fn palette(hue: u8) -> (out: Color)
    returns
        (if hue / 30 == 0 || hue / 30 == 8 {
            Color::Rgb(96, 198, 255)
        } else if hue / 30 == 1 {
            Color::Rgb(77, 220, 177)
        } else if hue / 30 == 2 {
            Color::Rgb(190, 145, 255)
        } else if hue / 30 == 3 {
            Color::Rgb(255, 190, 80)
        } else if hue / 30 == 4 {
            Color::Rgb(80, 211, 226)
        } else if hue / 30 == 5 {
            Color::Rgb(255, 125, 165)
        } else if hue / 30 == 6 {
            Color::Rgb(140, 165, 255)
        } else {
            Color::Rgb(125, 225, 115)
        }),
{
    let place: u8 = (hue / 30) % 8;
    if place == 0 {
        Color::Rgb(96, 198, 255)
    } else if place == 1 {
        Color::Rgb(77, 220, 177)
    } else if place == 2 {
        Color::Rgb(190, 145, 255)
    } else if place == 3 {
        Color::Rgb(255, 190, 80)
    } else if place == 4 {
        Color::Rgb(80, 211, 226)
    } else if place == 5 {
        Color::Rgb(255, 125, 165)
    } else if place == 6 {
        Color::Rgb(140, 165, 255)
    } else {
        Color::Rgb(125, 225, 115)
    }
}

/// The account color of a name.
pub open spec fn name_color(name: Seq<char>) -> Color {
    palette(hue_of(name) as u8)
}

pub fn color_of_name(name: &str) -> (out: Color)
    ensures
        out == name_color(name@),
{
    palette(name_hue(name))
}

/// An address with its local part masked behind the first character; a text
/// that is no address stays.
pub open spec fn masked_email(value: Seq<char>) -> Seq<char> {
    match find_from(value, seq!['@'], 0) {
        Some(at) => {
            let local = trim(value.take(at));
            let domain = trim(value.skip(at + 1));
            if local.len() == 0 || domain.len() == 0 {
                value
            } else {
                seq![local[0]] + "***@"@ + domain
            }
        },
        None => value,
    }
}

fn text_of_char(c: char) -> (out: String)
    ensures
        out@ == seq![c],
{
    let mut out = String::new();
    out.push(c);
    assert(out@ =~= seq![c]);
    out
}

pub fn mask_email(value: &str) -> (out: String)
    ensures
        out@ == masked_email(value@),
{
    let chars = chars_of(value);
    let total: usize = chars.len();
    let found = find_char(chars.as_slice(), '@', 0);
    proof {
        lemma_find_char(
            value@,
            '@',
            match found {
                Some(i) => Some(i as int),
                None => None,
            },
        );
    }
    match found {
        Some(at) => {
            let local = trimmed(slice_text(chars.as_slice(), 0, at).as_str());
            let domain = trimmed(slice_text(chars.as_slice(), at + 1, total).as_str());
            assert(value@.subrange(0, at as int) =~= value@.take(at as int));
            assert(value@.subrange(at + 1, total as int) =~= value@.skip(at + 1));
            let local_chars = chars_of(local.as_str());
            let domain_chars = chars_of(domain.as_str());
            if local_chars.len() == 0 || domain_chars.len() == 0 {
                value.to_owned()
            } else {
                three(text_of_char(local_chars[0]).as_str(), "***@", domain.as_str())
            }
        },
        None => value.to_owned(),
    }
}

/// A small ASCII letter.
pub open spec fn small(c: char) -> bool {
    'a' <= c <= 'z'
}

/// An identifier with its middle masked: an address by its local part, a name
/// of at least five characters that starts with a small letter by all but its
/// first and its last two.
pub open spec fn masked_identifier(text: Seq<char>) -> Seq<char> {
    let value = trim(text);
    if contains(value, "@"@) {
        masked_email(value)
    } else if value.len() >= 5 && small(value[0]) {
        seq![value[0]] + "***"@ + value.skip(value.len() - 2)
    } else {
        value
    }
}

pub fn mask_identifier(text: &str) -> (out: String)
    ensures
        out@ == masked_identifier(text@),
{
    let value = trimmed(text);
    if has_text(value.as_str(), "@") {
        return mask_email(value.as_str());
    }
    let chars = chars_of(value.as_str());
    let total: usize = chars.len();
    if total >= 5 && 'a' <= chars[0] && chars[0] <= 'z' {
        let tail = slice_text(chars.as_slice(), total - 2, total);
        assert(tail@ =~= value@.skip(total - 2));
        return three(text_of_char(chars[0]).as_str(), "***", tail.as_str());
    }
    value
}

/// What separates the parts of a label.
pub open spec fn dot() -> Seq<char> {
    " · "@
}

proof fn lemma_dot()
    ensures
        dot().len() == 3,
{
    reveal_strlit(" · ");
}

/// The account label with what identifies a person masked. Labels that hold
/// the provider's name and plan stay readable: only the last part is masked.
/// Product names, which start with a capital, are no identities.
pub open spec fn masked_label(row: ProviderView) -> Seq<char> {
    let label = trim(row.account_label);
    let name = shown_name(row.provider_id);
    let plan = trim(row.plan);
    let parts = parts_between(label, dot());
    if label.len() == 0 {
        Seq::empty()
    } else if parts.len() > 1 && lower(parts[0]) == lower(name) {
        join(parts.drop_last().push(masked_identifier(parts.last())), dot())
    } else if lower(label) == lower(name) || (plan.len() > 0 && lower(label) == lower(plan)) {
        label
    } else if contains(label, "@"@) || small(label[0]) {
        masked_identifier(label)
    } else {
        label
    }
}

pub fn masked_account_label(row: &ProviderSnapshot) -> (out: String)
    ensures
        out@ == masked_label(row@),
{
    let label = trimmed(row.account_label.as_str());
    let chars = chars_of(label.as_str());
    if chars.len() == 0 {
        let out = String::new();
        assert(out@ =~= Seq::<char>::empty());
        return out;
    }
    let name = display_name(row.provider_id.as_str());
    let plan = trimmed(row.plan.as_str());
    proof {
        lemma_dot();
    }
    let mut parts = split_between(label.as_str(), " · ");
    let ghost views = texts(parts@);
    if parts.len() > 1 && same_caseless(parts[0].as_str(), name) {
        match parts.pop() {
            Some(last) => {
                assert(texts(parts@) =~= views.drop_last());
                let masked = mask_identifier(last.as_str());
                parts.push(masked);
                assert(texts(parts@) =~= views.drop_last().push(masked@));
                return join_texts(parts.as_slice(), " · ");
            },
            None => {},
        }
    }
    if same_caseless(label.as_str(), name) || (chars_of(plan.as_str()).len() > 0 && same_caseless(
        label.as_str(),
        plan.as_str(),
    )) {
        return label;
    }
    if has_text(label.as_str(), "@") || ('a' <= chars[0] && chars[0] <= 'z') {
        mask_identifier(label.as_str())
    } else {
        label
    }
}

/// A plan in its usual spelling.
pub open spec fn plan_name(plan: Seq<char>) -> Seq<char> {
    let p = lower(plan);
    if p == "free"@ {
        "Free"@
    } else if p == "plus"@ {
        "Plus"@
    } else if p == "pro"@ {
        "Pro"@
    } else if p == "team"@ || p == "teams"@ {
        "Team"@
    } else if p == "pay-as-you-go"@ || p == "pay as you go"@ || p == "payg"@ {
        "Pay-as-you-go"@
    } else {
        plan
    }
}

pub fn display_plan(plan: &str) -> (out: String)
    ensures
        out@ == plan_name(plan@),
{
    let p = to_lower(plan);
    let p = p.as_str();
    if same(p, "free") {
        "Free".to_owned()
    } else if same(p, "plus") {
        "Plus".to_owned()
    } else if same(p, "pro") {
        "Pro".to_owned()
    } else if same(p, "team") || same(p, "teams") {
        "Team".to_owned()
    } else if same(p, "pay-as-you-go") || same(p, "pay as you go") || same(p, "payg") {
        "Pay-as-you-go".to_owned()
    } else {
        plan.to_owned()
    }
}

/// A part of a label that is known to name a plan.
pub open spec fn names_plan(part: Seq<char>) -> bool {
    let p = lower(part);
    p == "free"@ || p == "plus"@ || p == "pro"@ || p == "go"@ || p == "team"@ || p == "supergrok"@
        || p == "payg"@ || p == "pay-as-you-go"@ || p == "cloud gpu"@
}

fn is_plan_name(part: &str) -> (yes: bool)
    ensures
        yes == names_plan(part@),
{
    let p = to_lower(part);
    let p = p.as_str();
    same(p, "free") || same(p, "plus") || same(p, "pro") || same(p, "go") || same(p, "team")
        || same(p, "supergrok") || same(p, "payg") || same(p, "pay-as-you-go") || same(
        p,
        "cloud gpu",
    )
}

/// The plan that a row shows: its own, or one that its label names.
pub open spec fn shown_plan(row: ProviderView) -> Seq<char> {
    let parts = parts_between(row.account_label, dot());
    if trim(row.plan).len() > 0 {
        plan_name(trim(row.plan))
    } else if parts.len() > 1 && names_plan(parts[1]) {
        plan_name(parts[1])
    } else {
        Seq::empty()
    }
}

/// The title of a row: the provider, and its plan where that says more.
pub open spec fn title_base(row: ProviderView) -> Seq<char> {
    let name = shown_name(row.provider_id);
    let plan = shown_plan(row);
    if plan.len() == 0 || lower(plan) == lower(name) {
        name
    } else {
        name + dot() + plan
    }
}

fn plan_shown(row: &ProviderSnapshot) -> (out: String)
    ensures
        out@ == shown_plan(row@),
{
    let plan = trimmed(row.plan.as_str());
    if chars_of(plan.as_str()).len() > 0 {
        return display_plan(plan.as_str());
    }
    proof {
        lemma_dot();
    }
    let parts = split_between(row.account_label.as_str(), " · ");
    let ghost views = texts(parts@);
    if parts.len() > 1 {
        assert(views[1] == parts@[1]@);
        if is_plan_name(parts[1].as_str()) {
            return display_plan(parts[1].as_str());
        }
    }
    let out = String::new();
    assert(out@ =~= Seq::<char>::empty());
    out
}

pub fn provider_title_base(row: &ProviderSnapshot) -> (out: String)
    ensures
        out@ == title_base(row@),
{
    let name = display_name(row.provider_id.as_str());
    let plan = plan_shown(row);
    if chars_of(plan.as_str()).len() == 0 || same_caseless(plan.as_str(), name) {
        name.to_owned()
    } else {
        three(name, " · ", plan.as_str())
    }
}

/// What tells two rows of one provider and plan apart, where the label holds
/// more than these.
pub open spec fn identity(row: ProviderView, show_account: bool) -> Option<Seq<char>> {
    let label = trim(row.account_label);
    let name = shown_name(row.provider_id);
    let plan = trim(row.plan);
    let candidate = if starts_with(lower(label), lower(name)) {
        trim(parts_between(label, dot()).last())
    } else {
        label
    };
    let said = lower(candidate);
    if label.len() == 0 || candidate.len() == 0 || said == lower(name) || (plan.len() > 0 && said
        == lower(plan)) || said == "payg"@ || said == "cloud gpu"@ || said == "free"@ {
        None
    } else if show_account {
        Some(candidate)
    } else {
        Some(masked_identifier(candidate))
    }
}

pub fn provider_identity(row: &ProviderSnapshot, show_account: bool) -> (out: Option<String>)
    ensures
        maybe_text(out) == identity(row@, show_account),
{
    let label = trimmed(row.account_label.as_str());
    if chars_of(label.as_str()).len() == 0 {
        return None;
    }
    let name = display_name(row.provider_id.as_str());
    let plan = trimmed(row.plan.as_str());
    proof {
        lemma_dot();
    }
    let candidate = if has_prefix(to_lower(label.as_str()).as_str(), to_lower(name).as_str()) {
        let parts = split_between(label.as_str(), " · ");
        let ghost views = texts(parts@);
        let last: usize = parts.len() - 1;
        assert(views.last() == parts@[last as int]@);
        trimmed(parts[last].as_str())
    } else {
        label
    };
    let said = to_lower(candidate.as_str());
    if chars_of(candidate.as_str()).len() == 0 || same_caseless(candidate.as_str(), name) || (
    chars_of(plan.as_str()).len() > 0 && same_caseless(candidate.as_str(), plan.as_str())) || same(
        said.as_str(),
        "payg",
    ) || same(said.as_str(), "cloud gpu") || same(said.as_str(), "free") {
        return None;
    }
    if show_account {
        Some(candidate)
    } else {
        Some(mask_identifier(candidate.as_str()))
    }
}

/// Another row has the same title.
pub open spec fn title_shared(rows: Seq<ProviderView>, i: int) -> bool {
    exists|j: int|
        0 <= j < rows.len() && j != i && title_base(#[trigger] rows[j]) == title_base(rows[i])
}

/// The title of a row among others: with the identity where the title alone
/// is not unique.
pub open spec fn title_among(rows: Seq<ProviderView>, i: int, show_account: bool) -> Seq<char> {
    let base = title_base(rows[i]);
    match identity(rows[i], show_account) {
        Some(identity) => if title_shared(rows, i) {
            base + dot() + identity
        } else {
            base
        },
        None => base,
    }
}

/// What borrowed rows say.
pub open spec fn row_views(rows: Seq<&ProviderSnapshot>) -> Seq<ProviderView> {
    rows.map_values(|row: &ProviderSnapshot| row@)
}

pub open spec fn titles_among(rows: Seq<ProviderView>, show_account: bool) -> Seq<Seq<char>> {
    Seq::new(rows.len(), |i: int| title_among(rows, i, show_account))
}

fn is_title_shared(rows: &Vec<&ProviderSnapshot>, i: usize) -> (yes: bool)
    requires
        i < rows@.len(),
    ensures
        yes == title_shared(row_views(rows@), i as int),
{
    let ghost views = row_views(rows@);
    let base = provider_title_base(rows[i]);
    assert(base@ == title_base(views[i as int]));
    let mut j: usize = 0;
    while j < rows.len()
        invariant
            j <= rows@.len(),
            i < rows@.len(),
            views == row_views(rows@),
            base@ == title_base(views[i as int]),
            forall|k: int|
                0 <= k < j && k != i ==> title_base(#[trigger] views[k]) != title_base(
                    views[i as int],
                ),
        decreases rows@.len() - j,
    {
        if j != i {
            let other = provider_title_base(rows[j]);
            assert(other@ == title_base(views[j as int]));
            if same(other.as_str(), base.as_str()) {
                return true;
            }
        }
        j = j + 1;
    }
    false
}

pub fn provider_titles(rows: &Vec<&ProviderSnapshot>, show_account: bool) -> (out: Vec<String>)
    ensures
        texts(out@) == titles_among(row_views(rows@), show_account),
{
    let ghost views = row_views(rows@);
    let mut out: Vec<String> = Vec::new();
    let mut i: usize = 0;
    while i < rows.len()
        invariant
            i <= rows@.len(),
            views == row_views(rows@),
            out@.len() == i,
            forall|k: int| 0 <= k < i ==> (#[trigger] out@[k])@ == title_among(views, k, show_account),
        decreases rows@.len() - i,
    {
        let base = provider_title_base(rows[i]);
        assert(rows@[i as int]@ == views[i as int]);
        let title = match provider_identity(rows[i], show_account) {
            Some(identity) => if is_title_shared(rows, i) {
                three(base.as_str(), " · ", identity.as_str())
            } else {
                base
            },
            None => base,
        };
        out.push(title);
        i = i + 1;
    }
    assert(texts(out@) =~= titles_among(views, show_account));
    out
}

/// The state of a row in a word: what it can do, or how its source is where
/// that is unknown.
pub open spec fn status_word(row: ProviderView) -> Seq<char> {
    if row.availability is Available && row.source_health is Stale {
        "stale"@
    } else if !(row.availability is Unknown) {
        row.availability.name()
    } else {
        row.source_health.name()
    }
}

pub fn status_label(row: &ProviderSnapshot) -> (out: &'static str)
    ensures
        out@ == status_word(row@),
{
    if row.availability == Availability::Available && row.source_health == SourceHealth::Stale {
        "stale"
    } else if row.availability != Availability::Unknown {
        row.availability.label()
    } else {
        row.source_health.label()
    }
}

/// A row that cannot be relied on now.
pub open spec fn dims(row: ProviderView) -> bool {
    !(row.availability is Available) || !(row.source_health is Connected)
}

pub fn row_dimmed(row: &ProviderSnapshot) -> (yes: bool)
    ensures
        yes == dims(row@),
{
    row.availability.dimmed() || row.source_health != SourceHealth::Connected
}

pub open spec fn status_style(row: ProviderView) -> Style {
    let color = if row.availability is Exhausted {
        red()
    } else if row.availability is AgentBlocked {
        yellow()
    } else if row.availability is Available {
        if row.source_health is Connected {
            green()
        } else {
            yellow()
        }
    } else if row.source_health is Unauthorized || row.source_health is Error {
        red()
    } else {
        grey()
    };
    dimmed(paint(color), dims(row))
}

pub fn status_style_for(row: &ProviderSnapshot) -> (out: Style)
    ensures
        out == status_style(row@),
{
    let color = match row.availability {
        Availability::Exhausted => red(),
        Availability::AgentBlocked => yellow(),
        Availability::Available => match row.source_health {
            SourceHealth::Connected => green(),
            _ => yellow(),
        },
        Availability::Unknown => match row.source_health {
            SourceHealth::Unauthorized | SourceHealth::Error => red(),
            _ => grey(),
        },
    };
    dimmed(paint(color), row_dimmed(row))
}

/// A description of a reset in one word where it is a usual one.
pub open spec fn short_reset(text: Seq<char>) -> Seq<char> {
    let said = lower(trim(text));
    if said == "monthly grant reset"@ {
        "monthly"@
    } else if said == "weekly quota reset"@ {
        "weekly"@
    } else if said == "daily quota reset"@ {
        "daily"@
    } else {
        trim(text)
    }
}

pub fn compact_reset_description(text: &str) -> (out: String)
    ensures
        out@ == short_reset(text@),
{
    let bare = trimmed(text);
    let said = to_lower(bare.as_str());
    if same(said.as_str(), "monthly grant reset") {
        "monthly".to_owned()
    } else if same(said.as_str(), "weekly quota reset") {
        "weekly".to_owned()
    } else if same(said.as_str(), "daily quota reset") {
        "daily".to_owned()
    } else {
        bare
    }
}

/// A span of seconds in its two largest units.
pub open spec fn countdown(seconds: nat) -> Seq<char> {
    let days = seconds / 86_400;
    let hours = (seconds % 86_400) / 3_600;
    let minutes = (seconds % 3_600) / 60;
    if days > 0 {
        decimal(days) + "d "@ + decimal(hours) + "h"@
    } else if hours > 0 {
        decimal(hours) + "h "@ + decimal(minutes) + "m"@
    } else {
        decimal(minutes) + "m"@
    }
}

fn countdown_text(seconds: u64) -> (out: String)
    ensures
        out@ == countdown(seconds as nat),
{
    let days: u64 = seconds / 86_400;
    let hours: u64 = (seconds % 86_400) / 3_600;
    let minutes: u64 = (seconds % 3_600) / 60;
    if days > 0 {
        four(decimal_text(days).as_str(), "d ", decimal_text(hours).as_str(), "h")
    } else if hours > 0 {
        four(decimal_text(hours).as_str(), "h ", decimal_text(minutes).as_str(), "m")
    } else {
        two(decimal_text(minutes).as_str(), "m")
    }
}

/// The whole seconds from one moment to a later one.
pub open spec fn seconds_between(from_ms: i64, to_ms: i64) -> nat {
    if to_ms > from_ms {
        ((to_ms - from_ms) / 1000) as nat
    } else {
        0
    }
}

fn seconds_from(from_ms: i64, to_ms: i64) -> (out: u64)
    ensures
        out == seconds_between(from_ms, to_ms),
{
    if to_ms > from_ms {
        ((to_ms as i128 - from_ms as i128) / 1000) as u64
    } else {
        0
    }
}

/// When a window resets: a countdown, or the description where there is no
/// moment or it has passed.
pub open spec fn reset_shown(window: WindowView, now_ms: i64) -> Seq<char> {
    match window.resets_at_ms {
        Some(at) => if at <= now_ms && window.reset_text is Some {
            short_reset(window.reset_text->0)
        } else {
            countdown(seconds_between(now_ms, at))
        },
        None => match window.reset_text {
            Some(text) => short_reset(text),
            None => "—"@,
        },
    }
}

pub fn reset_text(window: &LimitWindow, now_ms: i64) -> (out: String)
    ensures
        out@ == reset_shown(window@, now_ms),
{
    match window.resets_at_ms {
        Some(at) => {
            if at <= now_ms {
                match &window.reset_text {
                    Some(text) => {
                        return compact_reset_description(text.as_str());
                    },
                    None => {},
                }
            }
            countdown_text(seconds_from(now_ms, at))
        },
        None => match &window.reset_text {
            Some(text) => compact_reset_description(text.as_str()),
            None => "—".to_owned(),
        },
    }
}

/// How long ago a moment was, in its largest unit.
pub open spec fn age(collected_at_ms: i64, now_ms: i64) -> Seq<char> {
    let seconds = seconds_between(collected_at_ms, now_ms);
    if collected_at_ms <= 0 {
        "—"@
    } else if seconds < 60 {
        "now"@
    } else if seconds < 3_600 {
        decimal(seconds / 60) + "m"@
    } else if seconds < 86_400 {
        decimal(seconds / 3_600) + "h"@
    } else {
        decimal(seconds / 86_400) + "d"@
    }
}

pub fn age_text(collected_at_ms: i64, now_ms: i64) -> (out: String)
    ensures
        out@ == age(collected_at_ms, now_ms),
{
    if collected_at_ms <= 0 {
        return "—".to_owned();
    }
    let seconds: u64 = seconds_from(collected_at_ms, now_ms);
    if seconds < 60 {
        "now".to_owned()
    } else if seconds < 3_600 {
        two(decimal_text(seconds / 60).as_str(), "m")
    } else if seconds < 86_400 {
        two(decimal_text(seconds / 3_600).as_str(), "h")
    } else {
        two(decimal_text(seconds / 86_400).as_str(), "d")
    }
}

/// The text with its first character as a capital.
pub open spec fn capitalized(text: Seq<char>) -> Seq<char> {
    if text.len() == 0 {
        text
    } else {
        seq![upper_char(text[0])] + text.skip(1)
    }
}

pub fn capitalize(text: &str) -> (out: String)
    ensures
        out@ == capitalized(text@),
{
    let chars = chars_of(text);
    let total: usize = chars.len();
    if total == 0 {
        return text.to_owned();
    }
    let rest = slice_text(chars.as_slice(), 1, total);
    assert(rest@ =~= text@.skip(1));
    two(text_of_char(to_upper_char(chars[0])).as_str(), rest.as_str())
}

/// The name under which records of a client are counted together.
pub open spec fn client_name(client: Seq<char>) -> Seq<char> {
    let s = lower(trim(client));
    if contains(s, "codex"@) || contains(s, "openai"@) {
        "Codex"@
    } else if contains(s, "anthropic"@) {
        "Anthropic"@
    } else if contains(s, "antigravity-cli"@) || contains(s, "antigravity cli"@) || s
        == "antigravity_cli"@ {
        "Antigravity Cli"@
    } else if contains(s, "antigravity"@) || contains(s, "google"@) {
        "Antigravity"@
    } else if contains(s, "opencode"@) {
        "OpenCode"@
    } else if contains(s, "grok"@) || contains(s, "xai"@) {
        "Grok"@
    } else if contains(s, "cursor"@) {
        "Cursor"@
    } else if s.len() == 0 {
        "Unknown"@
    } else {
        capitalized(s)
    }
}

pub fn normalize_client_id(client: &str) -> (out: String)
    ensures
        out@ == client_name(client@),
{
    let s = to_lower(trimmed(client).as_str());
    let s = s.as_str();
    if has_text(s, "codex") || has_text(s, "openai") {
        "Codex".to_owned()
    } else if has_text(s, "anthropic") {
        "Anthropic".to_owned()
    } else if has_text(s, "antigravity-cli") || has_text(s, "antigravity cli") || same(
        s,
        "antigravity_cli",
    ) {
        "Antigravity Cli".to_owned()
    } else if has_text(s, "antigravity") || has_text(s, "google") {
        "Antigravity".to_owned()
    } else if has_text(s, "opencode") {
        "OpenCode".to_owned()
    } else if has_text(s, "grok") || has_text(s, "xai") {
        "Grok".to_owned()
    } else if has_text(s, "cursor") {
        "Cursor".to_owned()
    } else if chars_of(s).len() == 0 {
        "Unknown".to_owned()
    } else {
        capitalize(s)
    }
}

/// The color of a client.
pub open spec fn client_color(client: Seq<char>) -> Color {
    let s = lower(trim(client));
    if contains(s, "codex"@) || contains(s, "openai"@) {
        Color::Rgb(16, 163, 127)
    } else if contains(s, "anthropic"@) {
        Color::Rgb(217, 119, 87)
    } else if contains(s, "antigravity"@) || contains(s, "google"@) {
        Color::Rgb(66, 133, 244)
    } else if contains(s, "cursor"@) {
        Color::Rgb(0, 180, 216)
    } else if contains(s, "grok"@) || contains(s, "xai"@) {
        Color::Rgb(210, 215, 225)
    } else if contains(s, "opencode"@) || contains(s, "vast"@) {
        Color::Rgb(255, 140, 50)
    } else {
        Color::Rgb(125, 207, 255)
    }
}

pub fn client_brand_color(client: &str) -> (out: Color)
    ensures
        out == client_color(client@),
{
    let s = to_lower(trimmed(client).as_str());
    let s = s.as_str();
    if has_text(s, "codex") || has_text(s, "openai") {
        Color::Rgb(16, 163, 127)
    } else if has_text(s, "anthropic") {
        Color::Rgb(217, 119, 87)
    } else if has_text(s, "antigravity") || has_text(s, "google") {
        Color::Rgb(66, 133, 244)
    } else if has_text(s, "cursor") {
        Color::Rgb(0, 180, 216)
    } else if has_text(s, "grok") || has_text(s, "xai") {
        Color::Rgb(210, 215, 225)
    } else if has_text(s, "opencode") || has_text(s, "vast") {
        Color::Rgb(255, 140, 50)
    } else {
        Color::Rgb(125, 207, 255)
    }
}

/// The color of a provider.
pub open spec fn brand(provider_id: Seq<char>) -> Color {
    let id = lower(provider_id);
    if id == "anthropic"@ {
        Color::Rgb(217, 119, 87)
    } else if id == "codex"@ || id == "openai"@ {
        Color::Rgb(16, 163, 127)
    } else if id == "antigravity"@ || id == "google"@ {
        Color::Rgb(66, 133, 244)
    } else if id == "cursor"@ {
        Color::Rgb(0, 180, 216)
    } else if id == "commandcode"@ {
        Color::Rgb(245, 175, 45)
    } else if id == "grok"@ || id == "xai"@ {
        Color::Rgb(210, 215, 225)
    } else if id == "modal"@ {
        Color::Rgb(0, 210, 106)
    } else if id == "openrouter"@ {
        Color::Rgb(140, 100, 255)
    } else if id == "vast"@ || id == "vastai"@ {
        Color::Rgb(255, 140, 50)
    } else if id == "deepseek"@ {
        Color::Rgb(77, 107, 254)
    } else if id == "copilot"@ || id == "github"@ {
        Color::Rgb(46, 160, 67)
    } else if id == "kimi"@ {
        Color::Rgb(255, 110, 180)
    } else if id == "zai"@ || id == "zaiteam"@ {
        Color::Rgb(168, 85, 247)
    } else if id == "kiro"@ {
        Color::Rgb(34, 211, 238)
    } else if id == "minimax"@ {
        Color::Rgb(251, 146, 60)
    } else if id == "ollama"@ {
        Color::Rgb(34, 197, 94)
    } else {
        Color::Rgb(125, 207, 255)
    }
}

pub fn provider_brand_color(provider_id: &str) -> (out: Color)
    ensures
        out == brand(provider_id@),
{
    let id = to_lower(provider_id);
    let id = id.as_str();
    if same(id, "anthropic") {
        Color::Rgb(217, 119, 87)
    } else if same(id, "codex") || same(id, "openai") {
        Color::Rgb(16, 163, 127)
    } else if same(id, "antigravity") || same(id, "google") {
        Color::Rgb(66, 133, 244)
    } else if same(id, "cursor") {
        Color::Rgb(0, 180, 216)
    } else if same(id, "commandcode") {
        Color::Rgb(245, 175, 45)
    } else if same(id, "grok") || same(id, "xai") {
        Color::Rgb(210, 215, 225)
    } else if same(id, "modal") {
        Color::Rgb(0, 210, 106)
    } else if same(id, "openrouter") {
        Color::Rgb(140, 100, 255)
    } else if same(id, "vast") || same(id, "vastai") {
        Color::Rgb(255, 140, 50)
    } else if same(id, "deepseek") {
        Color::Rgb(77, 107, 254)
    } else if same(id, "copilot") || same(id, "github") {
        Color::Rgb(46, 160, 67)
    } else if same(id, "kimi") {
        Color::Rgb(255, 110, 180)
    } else if same(id, "zai") || same(id, "zaiteam") {
        Color::Rgb(168, 85, 247)
    } else if same(id, "kiro") {
        Color::Rgb(34, 211, 238)
    } else if same(id, "minimax") {
        Color::Rgb(251, 146, 60)
    } else if same(id, "ollama") {
        Color::Rgb(34, 197, 94)
    } else {
        Color::Rgb(125, 207, 255)
    }
}

/// Some window counts a quota.
pub open spec fn counts_quota(windows: Seq<WindowView>) -> bool {
    exists|i: int| 0 <= i < windows.len() && (#[trigger] windows[i]).metric is Quota
}

/// A prepaid wallet or a credit grant rather than a subscription.
pub open spec fn wallet(row: ProviderView) -> bool {
    let id = lower(row.provider_id);
    ||| id == "modal"@
    ||| id == "openrouter"@
    ||| id == "vast"@
    ||| id == "vastai"@
    ||| id == "deepseek"@
    ||| row.pay_as_you_go()
    ||| !counts_quota(row.windows) && row.holds_credit()
}

fn has_quota(row: &ProviderSnapshot) -> (yes: bool)
    ensures
        yes == counts_quota(row@.windows),
{
    let ghost views = row@.windows;
    let mut i: usize = 0;
    while i < row.windows.len()
        invariant
            i <= row.windows@.len(),
            views == row@.windows,
            forall|k: int| 0 <= k < i ==> !((#[trigger] views[k]).metric is Quota),
        decreases row.windows@.len() - i,
    {
        assert(views[i as int] == row.windows@[i as int]@);
        if row.windows[i].metric == WindowMetric::Quota {
            return true;
        }
        i = i + 1;
    }
    false
}

pub fn is_wallet_provider(row: &ProviderSnapshot) -> (yes: bool)
    ensures
        yes == wallet(row@),
{
    let id = to_lower(row.provider_id.as_str());
    let id = id.as_str();
    same(id, "modal") || same(id, "openrouter") || same(id, "vast") || same(id, "vastai") || same(
        id,
        "deepseek",
    ) || row.payg() || (!has_quota(row) && row.has_credits())
}

/// The text in capitals, as Unicode maps them.
pub uninterp spec fn capitals(text: Seq<char>) -> Seq<char>;

/// No character lies outside ASCII.
pub open spec fn ascii(text: Seq<char>) -> bool {
    forall|i: int| 0 <= i < text.len() ==> (#[trigger] text[i] as u32) < 128
}

/// `str::to_uppercase`: the text in capitals. Of ASCII text it is the text with
/// its small letters as capitals; for other text the mapping is Unicode's and
/// is not stated.
#[verifier::external_body]
pub(crate) fn uppercase(text: &str) -> (out: String)
    ensures
        out@ == capitals(text@),
        ascii(text@) ==> out@ == upper(text@),
{
    text.to_uppercase()
}

/// The variant of an availability by name.
pub open spec fn availability_word(availability: Availability) -> Seq<char> {
    match availability {
        Availability::Available => "Available"@,
        Availability::Exhausted => "Exhausted"@,
        Availability::AgentBlocked => "AgentBlocked"@,
        Availability::Unknown => "Unknown"@,
    }
}

pub fn availability_name(availability: Availability) -> (out: &'static str)
    ensures
        out@ == availability_word(availability),
{
    match availability {
        Availability::Available => "Available",
        Availability::Exhausted => "Exhausted",
        Availability::AgentBlocked => "AgentBlocked",
        Availability::Unknown => "Unknown",
    }
}

/// The variant of a window kind by name.
pub open spec fn kind_word(kind: WindowKind) -> Seq<char> {
    match kind {
        WindowKind::Session => "Session"@,
        WindowKind::Daily => "Daily"@,
        WindowKind::Weekly => "Weekly"@,
        WindowKind::Monthly => "Monthly"@,
        WindowKind::Billing => "Billing"@,
    }
}

pub fn kind_name(kind: WindowKind) -> (out: &'static str)
    ensures
        out@ == kind_word(kind),
{
    match kind {
        WindowKind::Session => "Session",
        WindowKind::Daily => "Daily",
        WindowKind::Weekly => "Weekly",
        WindowKind::Monthly => "Monthly",
        WindowKind::Billing => "Billing",
    }
}

/// How many bytes a character takes in UTF-8.
pub open spec fn byte_width(c: char) -> nat {
    let code = c as nat;
    if code < 0x80 {
        1
    } else if code < 0x800 {
        2
    } else if code < 0x10000 {
        3
    } else {
        4
    }
}

/// How many bytes a text takes in UTF-8.
pub open spec fn byte_length(text: Seq<char>) -> nat
    decreases text.len(),
{
    if text.len() == 0 {
        0
    } else {
        byte_length(text.drop_last()) + byte_width(text.last())
    }
}

fn char_bytes(c: char) -> (out: u128)
    ensures
        out == byte_width(c),
        out <= 4,
{
    let code: u32 = c as u32;
    if code < 0x80 {
        1
    } else if code < 0x800 {
        2
    } else if code < 0x10000 {
        3
    } else {
        4
    }
}

pub(crate) fn count_bytes(text: &str) -> (out: u128)
    ensures
        out == byte_length(text@),
{
    let chars = chars_of(text);
    let mut out: u128 = 0;
    let mut i: usize = 0;
    assert(text@.take(0) =~= Seq::<char>::empty());
    while i < chars.len()
        invariant
            i <= chars@.len(),
            chars@ == text@,
            out == byte_length(text@.take(i as int)),
            out <= 4 * i,
        decreases chars@.len() - i,
    {
        assert(text@.take(i + 1).drop_last() =~= text@.take(i as int));
        assert(text@.take(i + 1).last() == chars@[i as int]);
        out = out + char_bytes(chars[i]);
        i = i + 1;
    }
    assert(text@.take(i as int) =~= text@);
    out
}

/// An address looks the same for every local part that starts with the same
/// character: nothing else of it is shown.
pub proof fn law_masked_email_hides_local_part(a: Seq<char>, b: Seq<char>, domain: Seq<char>)
    requires
        a.len() > 0,
        b.len() > 0,
        a[0] == b[0],
        !a.contains('@'),
        !b.contains('@'),
        trim(a) == a,
        trim(b) == b,
        trim(domain).len() > 0,
    ensures
        masked_email(a.push('@') + domain) == masked_email(b.push('@') + domain),
{
    lemma_masked_email(a, domain);
    lemma_masked_email(b, domain);
}

proof fn lemma_masked_email(local: Seq<char>, domain: Seq<char>)
    requires
        local.len() > 0,
        !local.contains('@'),
        trim(local) == local,
        trim(domain).len() > 0,
    ensures
        masked_email(local.push('@') + domain) == seq![local[0]] + "***@"@ + trim(domain),
{
    let value = local.push('@') + domain;
    lemma_find_char(value, '@', Some(local.len() as int));
    assert(value.take(local.len() as int) =~= local);
    assert(value.skip(local.len() as int + 1) =~= domain);
}

/// Without the account's consent an identifier of five characters or more that
/// begins with a small letter shows its first character and its last two; an
/// address shows its first character and its domain; anything else is no
/// identifier and stays.
pub proof fn law_identifiers_are_masked(text: Seq<char>)
    ensures
        ({
            let value = trim(text);
            &&& !contains(value, "@"@) && value.len() >= 5 && 'a' <= value[0] <= 'z'
                ==> masked_identifier(text) == seq![value[0], '*', '*', '*', value[value.len() - 2],
                value[value.len() - 1]]
            &&& !contains(value, "@"@) && value.len() < 5 ==> masked_identifier(text) == value
            &&& contains(value, "@"@) ==> masked_identifier(text) == masked_email(value)
        }),
{
    reveal_strlit("***");
    let value = trim(text);
    if !contains(value, "@"@) && value.len() >= 5 && 'a' <= value[0] <= 'z' {
        assert(masked_identifier(text) =~= seq![
            value[0],
            '*',
            '*',
            '*',
            value[value.len() - 2],
            value[value.len() - 1],
        ]);
    }
}

/// An address is its local part, an at sign and its domain: of the local part
/// only the first character is shown.
pub proof fn law_masked_address_shows_its_domain(value: Seq<char>, at: int)
    requires
        0 <= at < value.len(),
        value[at] == '@',
        forall|k: int| 0 <= k < at ==> #[trigger] value[k] != '@',
        trim(value.take(at)).len() > 0,
        trim(value.skip(at + 1)).len() > 0,
    ensures
        masked_email(value) == seq![trim(value.take(at))[0]] + "***@"@ + trim(value.skip(at + 1)),
{
    crate::text::lemma_find_char(value, '@', Some(at));
}

/// A row says first that its numbers are stale, then what its availability is,
/// and only without one how its source does.
pub proof fn law_status_says_what_matters(row: ProviderView)
    ensures
        row.availability is Exhausted ==> status_word(row) == "exhausted"@,
        row.availability is AgentBlocked ==> status_word(row) == "blocked"@,
        row.availability is Available && row.source_health is Stale ==> status_word(row)
            == "stale"@,
        row.availability is Available && !(row.source_health is Stale) ==> status_word(row)
            == "connected"@,
        row.availability is Unknown && row.source_health is Unauthorized ==> status_word(row)
            == "unauthorized"@,
        row.availability is Unknown && row.source_health is Unavailable ==> status_word(row)
            == "unavailable"@,
        row.availability is Unknown && row.source_health is Error ==> status_word(row) == "error"@,
        row.availability is Unknown && row.source_health is Stale ==> status_word(row) == "stale"@,
        dims(row) <==> !(row.availability is Available && row.source_health is Connected),
{
}

/// A window that comes back at a moment to come shows the time until then; one
/// whose moment has passed, or is not known, shows the words for it; without
/// either there is a dash.
pub proof fn law_reset_shows_the_time_left(window: WindowView, now_ms: i64)
    ensures
        window.resets_at_ms matches Some(at) ==> at > now_ms ==> reset_shown(window, now_ms)
            == countdown(((at - now_ms) / 1000) as nat),
        window.resets_at_ms matches Some(at) ==> at <= now_ms ==> (match window.reset_text {
            Some(text) => reset_shown(window, now_ms) == short_reset(text),
            None => reset_shown(window, now_ms) == countdown(0),
        }),
        window.resets_at_ms is None && window.reset_text is Some ==> reset_shown(window, now_ms)
            == short_reset(window.reset_text->0),
        window.resets_at_ms is None && window.reset_text is None ==> reset_shown(window, now_ms)
            == "—"@,
{
}

/// A countdown is in the two largest units that it takes, days and hours, hours
/// and minutes, or minutes alone, and adds up to the time that is left.
pub proof fn law_countdown_adds_up(days: nat, hours: nat, minutes: nat, seconds: nat)
    requires
        hours < 24,
        minutes < 60,
        seconds < 60,
    ensures
        ({
            let left = (days * 86_400 + hours * 3_600 + minutes * 60 + seconds) as nat;
            &&& days > 0 ==> countdown(left) == decimal(days) + "d "@ + decimal(hours) + "h"@
            &&& days == 0 && hours > 0 ==> countdown(left) == decimal(hours) + "h "@ + decimal(
                minutes,
            ) + "m"@
            &&& days == 0 && hours == 0 ==> countdown(left) == decimal(minutes) + "m"@
        }),
{
    crate::collectors::law_span_in_words_adds_up(days, hours, minutes, seconds);
}

/// The age of a row is its largest unit: now within a minute, minutes within an
/// hour, hours within a day, and days.
pub proof fn law_age_is_its_largest_unit(collected_at_ms: i64, now_ms: i64, seconds: nat)
    requires
        collected_at_ms > 0,
        now_ms >= collected_at_ms,
        seconds == (now_ms - collected_at_ms) / 1000,
    ensures
        seconds < 60 ==> age(collected_at_ms, now_ms) == "now"@,
        60 <= seconds < 3_600 ==> age(collected_at_ms, now_ms) == decimal(seconds / 60) + "m"@,
        3_600 <= seconds < 86_400 ==> age(collected_at_ms, now_ms) == decimal(seconds / 3_600)
            + "h"@,
        seconds >= 86_400 ==> age(collected_at_ms, now_ms) == decimal(seconds / 86_400) + "d"@,
{
}

/// Clients are known by a part of their name, in whatever case: Codex by its own
/// name and OpenAI's, Antigravity's command line before Antigravity itself. A
/// client of another name keeps it, with a capital, and one without is unknown.
pub proof fn law_clients_are_known_by_their_names(client: Seq<char>)
    ensures
        ({
            let s = lower(trim(client));
            &&& contains(s, "codex"@) || contains(s, "openai"@) ==> client_name(client) == "Codex"@
            &&& !contains(s, "codex"@) && !contains(s, "openai"@) && contains(s, "anthropic"@)
                ==> client_name(client) == "Anthropic"@
            &&& !contains(s, "codex"@) && !contains(s, "openai"@) && !contains(s, "anthropic"@) ==> {
                &&& contains(s, "antigravity-cli"@) || contains(s, "antigravity cli"@)
                    ==> client_name(client) == "Antigravity Cli"@
                &&& !contains(s, "antigravity-cli"@) && !contains(s, "antigravity cli"@) && s
                    != "antigravity_cli"@ ==> {
                    &&& contains(s, "antigravity"@) || contains(s, "google"@) ==> client_name(
                        client,
                    ) == "Antigravity"@
                    &&& !contains(s, "antigravity"@) && !contains(s, "google"@) ==> {
                        &&& contains(s, "opencode"@) ==> client_name(client) == "OpenCode"@
                        &&& !contains(s, "opencode"@) && (contains(s, "grok"@) || contains(
                            s,
                            "xai"@,
                        )) ==> client_name(client) == "Grok"@
                        &&& !contains(s, "opencode"@) && !contains(s, "grok"@) && !contains(
                            s,
                            "xai"@,
                        ) && contains(s, "cursor"@) ==> client_name(client) == "Cursor"@
                        &&& !contains(s, "opencode"@) && !contains(s, "grok"@) && !contains(
                            s,
                            "xai"@,
                        ) && !contains(s, "cursor"@) && s.len() > 0 ==> client_name(client) == seq![
                            upper_char(s[0]),
                        ] + s.skip(1)
                    }
                }
            }
        }),
{
}

/// Modal, OpenRouter, Vast and DeepSeek are wallets, and so is every row that is
/// paid as it is used, or that holds credits and counts no quota; no other row
/// is.
pub proof fn law_wallets_hold_credits(row: ProviderView)
    ensures
        lower(row.provider_id) == "modal"@ || lower(row.provider_id) == "openrouter"@ || lower(
            row.provider_id,
        ) == "vast"@ || lower(row.provider_id) == "vastai"@ || lower(row.provider_id)
            == "deepseek"@ ==> wallet(row),
        row.pay_as_you_go() ==> wallet(row),
        row.windows.len() > 0 && (forall|i: int|
            0 <= i < row.windows.len() ==> !((#[trigger] row.windows[i]).metric is Quota))
            ==> wallet(row),
        (exists|i: int|
            0 <= i < row.windows.len() && (#[trigger] row.windows[i]).metric is Quota) && wallet(
            row,
        ) ==> row.pay_as_you_go() || lower(row.provider_id) == "modal"@ || lower(row.provider_id)
            == "openrouter"@ || lower(row.provider_id) == "vast"@ || lower(row.provider_id)
            == "vastai"@ || lower(row.provider_id) == "deepseek"@,
{
    if row.windows.len() > 0 && (forall|i: int|
        0 <= i < row.windows.len() ==> !((#[trigger] row.windows[i]).metric is Quota)) {
        assert(row.windows[0].metric.credit());
    }
}

/// A title names the account only where another row has the same title.
pub proof fn law_titles_tell_accounts_apart(rows: Seq<ProviderView>, i: int, show_account: bool)
    requires
        0 <= i < rows.len(),
    ensures
        (forall|j: int|
            0 <= j < rows.len() && j != i ==> title_base(#[trigger] rows[j]) != title_base(
                rows[i],
            )) ==> title_among(rows, i, show_account) == title_base(rows[i]),
        (exists|j: int|
            0 <= j < rows.len() && j != i && title_base(#[trigger] rows[j]) == title_base(rows[i]))
            && identity(rows[i], show_account) is Some ==> title_among(rows, i, show_account)
            == title_base(rows[i]) + " · "@ + identity(rows[i], show_account)->0,
        identity(rows[i], show_account) is None ==> title_among(rows, i, show_account)
            == title_base(rows[i]),
{
}

/// The title of a row is its provider's name and its plan, where it has one that
/// says more than the name.
pub proof fn law_title_is_name_and_plan(row: ProviderView)
    ensures
        shown_plan(row).len() == 0 ==> title_base(row) == shown_name(row.provider_id),
        shown_plan(row).len() > 0 && lower(shown_plan(row)) != lower(shown_name(row.provider_id))
            ==> title_base(row) == shown_name(row.provider_id) + " · "@ + shown_plan(row),
        trim(row.plan).len() > 0 ==> shown_plan(row) == plan_name(trim(row.plan)),
{
}

} // verus!
