//! Kiro: the usage text of the command-line tool.

use vstd::prelude::*;

use crate::collectors::{answered, answered_row, draft_views, no_row, nothing_for, Badge, DraftView};
use crate::collectors::{Row, RowView, WindowDraft};
use crate::collectors::grok::{lossy_text, text_from_bytes};
use crate::formula::{constant, given, left_of, not_below_zero, rest_of_hundred, share_of, Formula};
use crate::formula::Power;
use crate::limits::{WindowKind, WindowMetric};
use crate::moment::{calendar_date_ms, parse_calendar_date};
use crate::quantity::{ONE, Quantity, ZERO};
use crate::text::{chars_of, contains, find_from, find_in, has_text, lemma_find_from, lines};
use crate::text::{lines_of, lower, maybe_text, same, slice_text, split, split_text, texts};
use crate::text::{to_lower, trim, trimmed, words, words_of};

verus! {

pub open spec fn kiro_badge() -> Badge {
    Badge { provider_id: "kiro", source: "cli", hue: 214 }
}

/// Fifty, the usual number of credits, by its bits.
pub const FIFTY: u64 = 0x4049_0000_0000_0000;

/// The place after a control sequence, whose parameters begin at `pos`.
pub open spec fn sequence_end(text: Seq<char>, pos: int) -> int
    decreases text.len() - pos,
{
    if pos < 0 || pos >= text.len() {
        text.len() as int
    } else if '@' <= text[pos] <= '~' {
        pos + 1
    } else {
        sequence_end(text, pos + 1)
    }
}

/// The place after an operating-system command, whose text begins at `pos`. It
/// ends with a bell or with an escaped backslash.
pub open spec fn command_end(text: Seq<char>, pos: int) -> int
    decreases text.len() - pos,
{
    if pos < 0 || pos >= text.len() {
        text.len() as int
    } else if text[pos] == '\u{7}' {
        pos + 1
    } else if text[pos] == '\u{1b}' && pos + 1 < text.len() && text[pos + 1] == '\\' {
        pos + 2
    } else {
        command_end(text, pos + 1)
    }
}

pub proof fn lemma_sequence_end(text: Seq<char>, pos: int)
    requires
        0 <= pos <= text.len(),
    ensures
        pos <= sequence_end(text, pos) <= text.len(),
    decreases text.len() - pos,
{
    if pos < text.len() && !('@' <= text[pos] <= '~') {
        lemma_sequence_end(text, pos + 1);
    }
}

pub proof fn lemma_command_end(text: Seq<char>, pos: int)
    requires
        0 <= pos <= text.len(),
    ensures
        pos <= command_end(text, pos) <= text.len(),
    decreases text.len() - pos,
{
    if pos < text.len() && text[pos] != '\u{7}' && !(text[pos] == '\u{1b}' && pos + 1 < text.len()
        && text[pos + 1] == '\\') {
        lemma_command_end(text, pos + 1);
    }
}

/// The place after what an escape character at `pos` begins.
pub open spec fn escape_end(text: Seq<char>, pos: int) -> int {
    if pos + 1 >= text.len() {
        text.len() as int
    } else if text[pos + 1] == '[' {
        sequence_end(text, pos + 2)
    } else if text[pos + 1] == ']' {
        command_end(text, pos + 2)
    } else {
        pos + 2
    }
}

/// The text from `pos` on without terminal control.
pub open spec fn plain_from(text: Seq<char>, pos: int) -> Seq<char>
    decreases text.len() - pos,
{
    if pos < 0 || pos >= text.len() {
        Seq::empty()
    } else if text[pos] != '\u{1b}' {
        seq![text[pos]] + plain_from(text, pos + 1)
    } else {
        proof {
            if pos + 1 < text.len() {
                lemma_sequence_end(text, pos + 2);
                lemma_command_end(text, pos + 2);
            }
        }
        plain_from(text, escape_end(text, pos))
    }
}

/// The text without terminal control.
pub open spec fn plain(text: Seq<char>) -> Seq<char> {
    plain_from(text, 0)
}

fn find_sequence_end(chars: &[char], from: usize) -> (out: usize)
    requires
        from <= chars@.len(),
    ensures
        out == sequence_end(chars@, from as int),
        from <= out <= chars@.len(),
{
    let mut at: usize = from;
    while at < chars.len()
        invariant
            from <= at <= chars@.len(),
            sequence_end(chars@, at as int) == sequence_end(chars@, from as int),
        decreases chars@.len() - at,
    {
        if '@' <= chars[at] && chars[at] <= '~' {
            return at + 1;
        }
        at = at + 1;
    }
    at
}

fn find_command_end(chars: &[char], from: usize) -> (out: usize)
    requires
        from <= chars@.len(),
    ensures
        out == command_end(chars@, from as int),
        from <= out <= chars@.len(),
{
    let total: usize = chars.len();
    let mut at: usize = from;
    while at < total
        invariant
            total == chars@.len(),
            from <= at <= total,
            command_end(chars@, at as int) == command_end(chars@, from as int),
        decreases total - at,
    {
        if chars[at] == '\u{7}' {
            return at + 1;
        }
        if chars[at] == '\u{1b}' && at + 1 < total && chars[at + 1] == '\\' {
            return at + 2;
        }
        at = at + 1;
    }
    at
}

pub fn strip_ansi(text: &str) -> (out: String)
    ensures
        out@ == plain(text@),
{
    let chars = chars_of(text);
    let total: usize = chars.len();
    let mut out = String::new();
    let mut at: usize = 0;
    assert(Seq::<char>::empty() + plain(text@) =~= plain(text@));
    while at < total
        invariant
            total == chars@.len(),
            chars@ == text@,
            at <= total,
            out@ + plain_from(text@, at as int) == plain(text@),
        decreases total - at,
    {
        let ghost before = out@;
        if chars[at] != '\u{1b}' {
            out.push(chars[at]);
            assert(out@ + plain_from(text@, at + 1) =~= before + plain_from(text@, at as int));
            at = at + 1;
        } else {
            let next: usize = if at + 1 >= total {
                total
            } else if chars[at + 1] == '[' {
                find_sequence_end(&chars, at + 2)
            } else if chars[at + 1] == ']' {
                find_command_end(&chars, at + 2)
            } else {
                at + 2
            };
            at = next;
        }
    }
    assert(out@ + Seq::<char>::empty() =~= out@);
    out
}

proof fn lemma_plain_from(text: Seq<char>, pos: int)
    ensures
        !plain_from(text, pos).contains('\u{1b}'),
    decreases text.len() - pos,
{
    if 0 <= pos < text.len() {
        if text[pos] != '\u{1b}' {
            lemma_plain_from(text, pos + 1);
            let rest = plain_from(text, pos + 1);
            assert forall|i: int| 0 <= i < plain_from(text, pos).len() implies plain_from(
                text,
                pos,
            )[i] != '\u{1b}' by {
                if i > 0 {
                    assert(plain_from(text, pos)[i] == rest[i - 1]);
                }
            }
        } else {
            if pos + 1 < text.len() {
                lemma_sequence_end(text, pos + 2);
                lemma_command_end(text, pos + 2);
            }
            lemma_plain_from(text, escape_end(text, pos));
        }
    }
}

/// No escape character is left in a plain text.
pub proof fn law_plain_text_holds_no_escape(text: Seq<char>)
    ensures
        !plain(text).contains('\u{1b}'),
{
    lemma_plain_from(text, 0);
}

/// A text without escape characters is plain already.
pub proof fn law_plain_text_stays(text: Seq<char>)
    requires
        !text.contains('\u{1b}'),
    ensures
        plain(text) == text,
{
    lemma_stays_from(text, 0);
    assert(text.skip(0) =~= text);
}

proof fn lemma_stays_from(text: Seq<char>, pos: int)
    requires
        !text.contains('\u{1b}'),
        0 <= pos <= text.len(),
    ensures
        plain_from(text, pos) == text.skip(pos),
    decreases text.len() - pos,
{
    if pos < text.len() {
        lemma_stays_from(text, pos + 1);
        assert(text[pos] != '\u{1b}');
        assert(text.skip(pos) =~= seq![text[pos]] + text.skip(pos + 1));
    } else {
        assert(text.skip(pos) =~= Seq::empty());
    }
}

/// A character of a decimal numeral.
pub open spec fn numeral_char(c: char) -> bool {
    ('0' <= c <= '9') || c == '.'
}

pub(crate) fn is_numeral_char(c: char) -> (yes: bool)
    ensures
        yes == numeral_char(c),
{
    ('0' <= c && c <= '9') || c == '.'
}

/// The text from its first numeral character on.
pub open spec fn from_numeral(text: Seq<char>) -> Seq<char>
    decreases text.len(),
{
    if text.len() > 0 && !numeral_char(text[0]) {
        from_numeral(text.drop_first())
    } else {
        text
    }
}

/// The text up to its last numeral character.
pub open spec fn to_numeral(text: Seq<char>) -> Seq<char>
    decreases text.len(),
{
    if text.len() > 0 && !numeral_char(text.last()) {
        to_numeral(text.drop_last())
    } else {
        text
    }
}

fn cut_to_numeral(text: &str) -> (out: String)
    ensures
        out@ == from_numeral(text@),
{
    let chars = chars_of(text);
    let total: usize = chars.len();
    let mut from: usize = 0;
    assert(text@.skip(0) =~= text@);
    while from < total && !is_numeral_char(chars[from])
        invariant
            total == chars@.len(),
            chars@ == text@,
            from <= total,
            from_numeral(text@.skip(from as int)) == from_numeral(text@),
        decreases total - from,
    {
        assert(text@.skip(from as int).drop_first() =~= text@.skip(from + 1));
        from = from + 1;
    }
    let out = slice_text(&chars, from, total);
    assert(out@ =~= text@.skip(from as int));
    out
}

pub(crate) fn cut_after_numeral(text: &str) -> (out: String)
    ensures
        out@ == to_numeral(text@),
{
    let chars = chars_of(text);
    let mut to: usize = chars.len();
    assert(text@.take(to as int) =~= text@);
    while to > 0 && !is_numeral_char(chars[to - 1])
        invariant
            chars@ == text@,
            to <= chars@.len(),
            to_numeral(text@.take(to as int)) == to_numeral(text@),
        decreases to,
    {
        assert(text@.take(to as int).drop_last() =~= text@.take(to - 1));
        assert(text@.take(to as int).last() == chars@[to - 1]);
        to = to - 1;
    }
    proof {
        if to > 0 {
            assert(text@.take(to as int).last() == chars@[to - 1]);
        }
    }
    let out = slice_text(&chars, 0, to);
    assert(out@ =~= text@.take(to as int));
    out
}

/// The last characters of a text, eight at most.
pub open spec fn tail(text: Seq<char>) -> Seq<char> {
    if text.len() > 8 {
        text.skip(text.len() - 8)
    } else {
        text
    }
}

/// What may be a percentage at the end of a text.
pub open spec fn percent_numeral(text: Seq<char>) -> Seq<char> {
    from_numeral(trim(tail(text)))
}

fn find_percent_numeral(text: &str) -> (out: String)
    ensures
        out@ == percent_numeral(text@),
{
    let chars = chars_of(text);
    let total: usize = chars.len();
    let from: usize = if total > 8 {
        total - 8
    } else {
        0
    };
    let end = slice_text(&chars, from, total);
    assert(end@ =~= tail(text@));
    cut_to_numeral(trimmed(end.as_str()).as_str())
}

/// What may be percentages: the ends of the parts between percent signs.
pub open spec fn percent_numerals(text: Seq<char>) -> Seq<Seq<char>> {
    split(plain(text), '%').map_values(|part: Seq<char>| percent_numeral(part))
}

/// The percentages to be read from a usage text.
pub fn kiro_percent_numerals(text: &str) -> (out: Vec<String>)
    ensures
        texts(out@) == percent_numerals(text@),
{
    let parts = split_text(strip_ansi(text).as_str(), '%');
    let ghost wanted = percent_numerals(text@);
    let mut out: Vec<String> = Vec::new();
    let mut i: usize = 0;
    assert(texts(out@) =~= wanted.take(0));
    while i < parts.len()
        invariant
            i <= parts@.len(),
            texts(parts@) == split(plain(text@), '%'),
            wanted == percent_numerals(text@),
            texts(out@) == wanted.take(i as int),
        decreases parts@.len() - i,
    {
        let ghost earlier = out@;
        let numeral = find_percent_numeral(parts[i].as_str());
        let ghost view = numeral@;
        out.push(numeral);
        assert(texts(parts@)[i as int] == parts@[i as int]@);
        assert(texts(out@) =~= texts(earlier).push(view));
        assert(wanted.take(i + 1) =~= wanted.take(i as int).push(view));
        i = i + 1;
    }
    assert(wanted.take(i as int) =~= wanted);
    out
}

/// A numeral among other characters.
pub open spec fn inner_numeral(text: Seq<char>) -> Seq<char> {
    to_numeral(from_numeral(text))
}

/// The numerals round the word "of".
pub open spec fn covered_numerals(found: Seq<Seq<char>>, from: int) -> Seq<(Seq<char>, Seq<char>)>
    decreases found.len() - from,
{
    if from < 0 || from + 2 >= found.len() {
        Seq::empty()
    } else if found[from + 1] == "of"@ {
        seq![(inner_numeral(found[from]), inner_numeral(found[from + 2]))] + covered_numerals(
            found,
            from + 1,
        )
    } else {
        covered_numerals(found, from + 1)
    }
}

pub open spec fn pair_texts(pairs: Seq<(String, String)>) -> Seq<(Seq<char>, Seq<char>)> {
    pairs.map_values(|pair: (String, String)| (pair.0@, pair.1@))
}

/// The used and the total credits to be read from a usage text.
pub fn kiro_covered_numerals(text: &str) -> (out: Vec<(String, String)>)
    ensures
        pair_texts(out@) == covered_numerals(words(lower(plain(text@))), 0),
{
    let found = words_of(to_lower(strip_ansi(text).as_str()).as_str());
    let ghost all = texts(found@);
    let total: usize = found.len();
    let mut out: Vec<(String, String)> = Vec::new();
    let mut i: usize = 0;
    proof {
        assert(pair_texts(out@) + covered_numerals(all, 0) =~= covered_numerals(all, 0));
    }
    while total - i > 2
        invariant
            total == found@.len(),
            i <= total,
            all == texts(found@),
            all == words(lower(plain(text@))),
            pair_texts(out@) + covered_numerals(all, i as int) == covered_numerals(all, 0),
        decreases total - i,
    {
        assert(all[i as int] == found@[i as int]@);
        assert(all[i + 1] == found@[i + 1]@);
        assert(all[i + 2] == found@[i + 2]@);
        let ghost earlier = out@;
        if same(found[i + 1].as_str(), "of") {
            let used = cut_after_numeral(cut_to_numeral(found[i].as_str()).as_str());
            let whole = cut_after_numeral(cut_to_numeral(found[i + 2].as_str()).as_str());
            let ghost view = (used@, whole@);
            out.push((used, whole));
            assert(pair_texts(out@) =~= pair_texts(earlier).push(view));
            assert(pair_texts(out@) + covered_numerals(all, i + 1) =~= pair_texts(earlier)
                + covered_numerals(all, i as int));
        }
        i = i + 1;
    }
    assert(pair_texts(out@) + Seq::<(Seq<char>, Seq<char>)>::empty() =~= pair_texts(out@));
    out
}

/// Why a usage text tells nothing.
pub open spec fn no_usage(text: Seq<char>) -> Option<Seq<char>> {
    let small = lower(plain(text));
    if contains(small, "not logged in"@) || contains(small, "login required"@) || contains(
        small,
        "kiro-cli login"@,
    ) || contains(small, "oauth error"@) {
        Some("Kiro CLI is not logged in"@)
    } else if trim(small).len() == 0 || contains(
        small,
        "could not retrieve usage information"@,
    ) {
        Some("Kiro CLI returned no usage"@)
    } else {
        None
    }
}

/// The text behind a word of a line.
pub open spec fn text_after(line: Seq<char>, word: Seq<char>) -> Option<Seq<char>> {
    match find_from(lower(line), word, 0) {
        Some(at) => Some(line.skip(at + word.len())),
        None => None,
    }
}

fn find_text_after(line: &str, word: &str) -> (out: Option<String>)
    ensures
        maybe_text(out) == text_after(line@, word@),
{
    let chars = chars_of(line);
    let small = chars_of(to_lower(line).as_str());
    let wanted = chars_of(word);
    let total: usize = chars.len();
    proof {
        lemma_find_from(lower(line@), word@, 0);
    }
    match find_in(&small, &wanted, 0) {
        Some(at) => {
            let out = slice_text(&chars, at + wanted.len(), total);
            assert(out@ =~= line@.skip(at + word@.len()));
            Some(out)
        },
        None => None,
    }
}

/// The plan that the first line with the word "plan:" names.
pub open spec fn named_plan(found: Seq<Seq<char>>) -> Option<Seq<char>>
    decreases found.len(),
{
    if found.len() == 0 {
        None
    } else {
        match text_after(found[0], "plan:"@) {
            Some(rest) => Some(trim(rest)),
            None => named_plan(found.drop_first()),
        }
    }
}

/// The first line with the tool's name.
pub open spec fn name_line(found: Seq<Seq<char>>) -> Option<Seq<char>>
    decreases found.len(),
{
    if found.len() == 0 {
        None
    } else if contains(lower(found[0]), "kiro "@) {
        Some(trim(found[0]))
    } else {
        name_line(found.drop_first())
    }
}

pub open spec fn plan_of(text: Seq<char>) -> Seq<char> {
    match named_plan(lines(plain(text))) {
        Some(plan) => plan,
        None => match name_line(lines(plain(text))) {
            Some(line) => line,
            None => "Kiro"@,
        },
    }
}

/// The date of the first line that names one for the reset.
pub open spec fn reset_of(found: Seq<Seq<char>>) -> Option<i64>
    decreases found.len(),
{
    if found.len() == 0 {
        None
    } else {
        match line_reset(found[0]) {
            Some(at) => Some(at),
            None => reset_of(found.drop_first()),
        }
    }
}

pub open spec fn line_reset(line: Seq<char>) -> Option<i64> {
    match text_after(line, "resets on "@) {
        Some(rest) => if words(rest).len() > 0 {
            calendar_date_ms(words(rest)[0])
        } else {
            None
        },
        None => None,
    }
}

fn find_plan(found: &Vec<String>) -> (out: String)
    ensures
        out@ == match named_plan(texts(found@)) {
            Some(plan) => plan,
            None => match name_line(texts(found@)) {
                Some(line) => line,
                None => "Kiro"@,
            },
        },
{
    let ghost all = texts(found@);
    let mut i: usize = 0;
    assert(all.skip(0) =~= all);
    while i < found.len()
        invariant
            i <= found@.len(),
            all == texts(found@),
            named_plan(all.skip(i as int)) == named_plan(all),
        decreases found@.len() - i,
    {
        proof {
            assert(all.skip(i as int)[0] == found@[i as int]@);
            assert(all.skip(i as int).drop_first() =~= all.skip(i + 1));
        }
        match find_text_after(found[i].as_str(), "plan:") {
            Some(rest) => {
                return trimmed(rest.as_str());
            },
            None => {},
        }
        i = i + 1;
    }
    assert(all.skip(i as int) =~= Seq::empty());
    let mut i: usize = 0;
    while i < found.len()
        invariant
            i <= found@.len(),
            all == texts(found@),
            named_plan(all) is None,
            name_line(all.skip(i as int)) == name_line(all),
        decreases found@.len() - i,
    {
        proof {
            assert(all.skip(i as int)[0] == found@[i as int]@);
            assert(all.skip(i as int).drop_first() =~= all.skip(i + 1));
        }
        if has_text(to_lower(found[i].as_str()).as_str(), "kiro ") {
            return trimmed(found[i].as_str());
        }
        i = i + 1;
    }
    assert(all.skip(i as int) =~= Seq::empty());
    "Kiro".to_owned()
}

fn find_reset(found: &Vec<String>) -> (out: Option<i64>)
    ensures
        out == reset_of(texts(found@)),
{
    let ghost all = texts(found@);
    let mut i: usize = 0;
    assert(all.skip(0) =~= all);
    while i < found.len()
        invariant
            i <= found@.len(),
            all == texts(found@),
            reset_of(all.skip(i as int)) == reset_of(all),
        decreases found@.len() - i,
    {
        proof {
            assert(all.skip(i as int)[0] == found@[i as int]@);
            assert(all.skip(i as int).drop_first() =~= all.skip(i + 1));
        }
        match find_text_after(found[i].as_str(), "resets on ") {
            Some(rest) => {
                let parts = words_of(rest.as_str());
                if parts.len() > 0 {
                    assert(texts(parts@)[0] == parts@[0]@);
                    let at = parse_calendar_date(parts[0].as_str());
                    if at.is_some() {
                        return at;
                    }
                }
            },
            None => {},
        }
        i = i + 1;
    }
    assert(all.skip(i as int) =~= Seq::empty());
    None
}

/// The first numeral that could be read.
pub open spec fn first_reading(readings: Seq<Option<Quantity>>) -> Option<Quantity>
    decreases readings.len(),
{
    if readings.len() == 0 {
        None
    } else {
        match readings[0] {
            Some(value) => Some(value),
            None => first_reading(readings.drop_first()),
        }
    }
}

/// The first pair of numerals that could both be read.
pub open spec fn first_pair(readings: Seq<(Option<Quantity>, Option<Quantity>)>) -> Option<
    (Quantity, Quantity),
>
    decreases readings.len(),
{
    if readings.len() == 0 {
        None
    } else {
        match readings[0] {
            (Some(used), Some(total)) => Some((used, total)),
            _ => first_pair(readings.drop_first()),
        }
    }
}

fn find_reading(readings: &Vec<Option<Quantity>>) -> (out: Option<Quantity>)
    ensures
        out == first_reading(readings@),
{
    let mut i: usize = 0;
    assert(readings@.skip(0) =~= readings@);
    while i < readings.len()
        invariant
            i <= readings@.len(),
            first_reading(readings@.skip(i as int)) == first_reading(readings@),
        decreases readings@.len() - i,
    {
        assert(readings@.skip(i as int)[0] == readings@[i as int]);
        assert(readings@.skip(i as int).drop_first() =~= readings@.skip(i + 1));
        if readings[i].is_some() {
            return readings[i];
        }
        i = i + 1;
    }
    assert(readings@.skip(i as int) =~= Seq::empty());
    None
}

fn find_pair(readings: &Vec<(Option<Quantity>, Option<Quantity>)>) -> (out: Option<
    (Quantity, Quantity),
>)
    ensures
        out == first_pair(readings@),
{
    let mut i: usize = 0;
    assert(readings@.skip(0) =~= readings@);
    while i < readings.len()
        invariant
            i <= readings@.len(),
            first_pair(readings@.skip(i as int)) == first_pair(readings@),
        decreases readings@.len() - i,
    {
        assert(readings@.skip(i as int)[0] == readings@[i as int]);
        assert(readings@.skip(i as int).drop_first() =~= readings@.skip(i + 1));
        match readings[i] {
            (Some(used), Some(total)) => {
                return Some((used, total));
            },
            _ => {},
        }
        i = i + 1;
    }
    assert(readings@.skip(i as int) =~= Seq::empty());
    None
}

/// What a usage text tells.
#[derive(Debug)]
pub struct KiroUsage {
    pub plan: String,
    pub remaining_percent: Formula,
    pub remaining_amount: Formula,
    pub resets_at_ms: Option<i64>,
    pub managed: bool,
}

pub struct UsageView {
    pub plan: Seq<char>,
    pub remaining_percent: Formula,
    pub remaining_amount: Formula,
    pub resets_at_ms: Option<i64>,
    pub managed: bool,
}

impl View for KiroUsage {
    type V = UsageView;

    open spec fn view(&self) -> UsageView {
        UsageView {
            plan: self.plan@,
            remaining_percent: self.remaining_percent,
            remaining_amount: self.remaining_amount,
            resets_at_ms: self.resets_at_ms,
            managed: self.managed,
        }
    }
}

/// The used and the total credits; nothing of fifty where none are told.
pub open spec fn covered(readings: Seq<(Option<Quantity>, Option<Quantity>)>) -> (Formula, Formula) {
    match first_pair(readings) {
        Some((used, total)) => (Formula::Given(used), Formula::Given(total)),
        None => (Formula::of(ZERO), Formula::of(FIFTY)),
    }
}

/// What a usage text tells. A told percentage counts before the credits.
pub open spec fn usage_of(
    text: Seq<char>,
    percents: Seq<Option<Quantity>>,
    pairs: Seq<(Option<Quantity>, Option<Quantity>)>,
) -> Result<UsageView, Seq<char>> {
    match no_usage(text) {
        Some(reason) => Err(reason),
        None => {
            let (used, total) = covered(pairs);
            let small = lower(plain(text));
            Ok(
                UsageView {
                    plan: plan_of(text),
                    remaining_percent: match first_reading(percents) {
                        Some(percent) => Formula::rest_of_hundred(Formula::Given(percent)),
                        None => Formula::share(
                            Formula::left(total, used),
                            Formula::Larger(Box::new(total), Box::new(Formula::of(ONE))),
                        ),
                    },
                    remaining_amount: Formula::Minus(
                        Box::new(Formula::not_below_zero(total)),
                        Box::new(Formula::not_below_zero(used)),
                    ),
                    resets_at_ms: reset_of(lines(plain(text))),
                    managed: contains(small, "managed by admin"@) || contains(
                        small,
                        "managed by organization"@,
                    ),
                },
            )
        },
    }
}

pub open spec fn usage_or_reason(result: Result<KiroUsage, String>) -> Result<
    UsageView,
    Seq<char>,
> {
    match result {
        Ok(usage) => Ok(usage@),
        Err(reason) => Err(reason@),
    }
}

/// `percents` and `pairs` are the readings of the numerals that
/// [`kiro_percent_numerals`] and [`kiro_covered_numerals`] find in the text.
pub fn kiro_usage_text(
    text: &str,
    percents: &Vec<Option<Quantity>>,
    pairs: &Vec<(Option<Quantity>, Option<Quantity>)>,
) -> (out: Result<KiroUsage, String>)
    ensures
        usage_or_reason(out) == usage_of(text@, percents@, pairs@),
{
    let stripped = strip_ansi(text);
    let small = to_lower(stripped.as_str());
    let small = small.as_str();
    if has_text(small, "not logged in") || has_text(small, "login required") || has_text(
        small,
        "kiro-cli login",
    ) || has_text(small, "oauth error") {
        return Err("Kiro CLI is not logged in".to_owned());
    }
    if trimmed(small).as_str().is_empty() || has_text(
        small,
        "could not retrieve usage information",
    ) {
        return Err("Kiro CLI returned no usage".to_owned());
    }
    let found = lines_of(stripped.as_str());
    let (used, total) = match find_pair(pairs) {
        Some((used, total)) => (given(used), given(total)),
        None => (constant(ZERO), constant(FIFTY)),
    };
    let remaining_percent = match find_reading(percents) {
        Some(percent) => rest_of_hundred(given(percent)),
        None => share_of(
            left_of(total.clone(), used.clone()),
            Formula::Larger(Box::new(total.clone()), Box::new(constant(ONE))),
        ),
    };
    let managed = has_text(small, "managed by admin") || has_text(small, "managed by organization");
    Ok(
        KiroUsage {
            plan: find_plan(&found),
            remaining_percent,
            remaining_amount: Formula::Minus(
                Box::new(not_below_zero(total)),
                Box::new(not_below_zero(used)),
            ),
            resets_at_ms: find_reset(&found),
            managed,
        },
    )
}

/// What the tool printed: its output, else what it said of errors.
pub open spec fn printed_text(output: Seq<u8>, errors: Seq<u8>) -> Seq<char> {
    if trim(lossy_text(output)).len() == 0 {
        trim(lossy_text(errors))
    } else {
        trim(lossy_text(output))
    }
}

pub fn kiro_output(output: &[u8], errors: &[u8]) -> (out: String)
    ensures
        out@ == printed_text(output@, errors@),
{
    let text = trimmed(text_from_bytes(output).as_str());
    if text.as_str().is_empty() {
        trimmed(text_from_bytes(errors).as_str())
    } else {
        text
    }
}

/// The window of the credits. Of a managed account no numbers are shown.
pub open spec fn credits_window(usage: UsageView) -> DraftView {
    DraftView {
        label: "Credits"@,
        kind: WindowKind::Billing,
        metric: WindowMetric::Credits,
        remaining_percent: if usage.managed {
            None
        } else {
            Some(usage.remaining_percent)
        },
        remaining_amount: if usage.managed {
            None
        } else {
            Some(Formula::not_below_zero(usage.remaining_amount))
        },
        currency: Some("credits"@),
        resets_at_ms: usage.resets_at_ms,
        reset_text: None,
        estimated: false,
    }
}

pub open spec fn kiro_row(usage: Result<UsageView, Seq<char>>, now_ms: i64) -> RowView {
    match usage {
        Err(reason) => no_row(kiro_badge(), "kiro:default"@, "Kiro"@, reason, now_ms),
        Ok(usage) => answered(
            kiro_badge(),
            "kiro:default"@,
            usage.plan,
            usage.plan,
            seq![credits_window(usage)],
        ),
    }
}

/// `usage` is what the printed text tells, or why there is none.
pub fn collect_kiro(usage: Result<KiroUsage, String>, now_ms: i64) -> (out: Row)
    ensures
        out@ == kiro_row(usage_or_reason(usage), now_ms),
{
    let badge = Badge { provider_id: "kiro", source: "cli", hue: 214 };
    let key = "kiro:default".to_owned();
    match usage {
        Err(reason) => nothing_for(&badge, key, "Kiro", reason.as_str(), now_ms),
        Ok(usage) => {
            let (percent, amount) = if usage.managed {
                (None, None)
            } else {
                (Some(usage.remaining_percent), Some(not_below_zero(usage.remaining_amount)))
            };
            let window = WindowDraft {
                label: "Credits".to_owned(),
                kind: WindowKind::Billing,
                metric: WindowMetric::Credits,
                remaining_percent: percent,
                remaining_amount: amount,
                currency: Some("credits".to_owned()),
                resets_at_ms: usage.resets_at_ms,
                reset_text: None,
                estimated: false,
            };
            let ghost view = window@;
            let windows = vec![window];
            assert(draft_views(windows@) =~= seq![view]);
            answered_row(&badge, key, usage.plan.clone(), usage.plan, windows)
        },
    }
}

/// What is left is what the first percentage that could be read leaves of one
/// hundred; without one it is what the credits in use leave of those covered, in
/// hundredths of these.
pub proof fn law_first_percentage_counts(
    text: Seq<char>,
    percents: Seq<Option<Quantity>>,
    pairs: Seq<(Option<Quantity>, Option<Quantity>)>,
    i: int,
    used: Quantity,
    powers: Seq<Power>,
)
    requires
        no_usage(text) is None,
        0 <= i < percents.len(),
        percents[i] == Some(used),
        forall|k: int| 0 <= k < i ==> (#[trigger] percents[k]) is None,
    ensures
        usage_of(text, percents, pairs) is Ok,
        usage_of(text, percents, pairs)->Ok_0.remaining_percent.value(powers) == (Quantity {
            bits: 0x4059_0000_0000_0000,
        }).difference(used).as_percentage(),
{
    lemma_first_reading(percents, i);
    reveal_with_fuel(Formula::value, 4);
}

proof fn lemma_first_reading(readings: Seq<Option<Quantity>>, i: int)
    requires
        0 <= i < readings.len(),
        readings[i] is Some,
        forall|k: int| 0 <= k < i ==> (#[trigger] readings[k]) is None,
    ensures
        first_reading(readings) == readings[i],
    decreases i,
{
    if i > 0 {
        let rest = readings.drop_first();
        assert(readings[0] is None);
        assert forall|k: int| 0 <= k < i - 1 implies (#[trigger] rest[k]) is None by {
            assert(rest[k] == readings[k + 1]);
        }
        lemma_first_reading(rest, i - 1);
    }
}

/// The credits are the first pair of numbers that could both be read: those in
/// use and those covered. What is left is the difference, and the share is in
/// hundredths of those covered.
pub proof fn law_first_pair_counts(
    text: Seq<char>,
    percents: Seq<Option<Quantity>>,
    pairs: Seq<(Option<Quantity>, Option<Quantity>)>,
    i: int,
    used: Quantity,
    total: Quantity,
    powers: Seq<Power>,
)
    requires
        no_usage(text) is None,
        0 <= i < pairs.len(),
        pairs[i] == (Some(used), Some(total)),
        forall|k: int| 0 <= k < i ==> (#[trigger] pairs[k]).0 is None || pairs[k].1 is None,
    ensures
        usage_of(text, percents, pairs) is Ok,
        ({
            let usage = usage_of(text, percents, pairs)->Ok_0;
            let zero = Quantity { bits: 0 };
            &&& usage.remaining_amount.value(powers) == total.larger(zero).difference(
                used.larger(zero),
            )
            &&& (forall|k: int| 0 <= k < percents.len() ==> (#[trigger] percents[k]) is None)
                ==> usage.remaining_percent.value(powers) == total.difference(used).larger(
                zero,
            ).quotient(total.larger(Quantity { bits: 0x3ff0_0000_0000_0000 })).product(
                Quantity { bits: 0x4059_0000_0000_0000 },
            ).as_percentage()
        }),
{
    lemma_first_pair(pairs, i);
    if forall|k: int| 0 <= k < percents.len() ==> (#[trigger] percents[k]) is None {
        lemma_no_reading(percents);
    }
    reveal_with_fuel(Formula::value, 6);
}

proof fn lemma_no_reading(readings: Seq<Option<Quantity>>)
    requires
        forall|k: int| 0 <= k < readings.len() ==> (#[trigger] readings[k]) is None,
    ensures
        first_reading(readings) is None,
    decreases readings.len(),
{
    if readings.len() > 0 {
        let rest = readings.drop_first();
        assert(readings[0] is None);
        assert forall|k: int| 0 <= k < rest.len() implies (#[trigger] rest[k]) is None by {
            assert(rest[k] == readings[k + 1]);
        }
        lemma_no_reading(rest);
    }
}

proof fn lemma_first_pair(readings: Seq<(Option<Quantity>, Option<Quantity>)>, i: int)
    requires
        0 <= i < readings.len(),
        readings[i].0 is Some && readings[i].1 is Some,
        forall|k: int| 0 <= k < i ==> (#[trigger] readings[k]).0 is None || readings[k].1 is None,
    ensures
        first_pair(readings) == Some((readings[i].0->0, readings[i].1->0)),
    decreases i,
{
    if i > 0 {
        let rest = readings.drop_first();
        assert(readings[0].0 is None || readings[0].1 is None);
        assert forall|k: int| 0 <= k < i - 1 implies (#[trigger] rest[k]).0 is None
            || rest[k].1 is None by {
            assert(rest[k] == readings[k + 1]);
        }
        lemma_first_pair(rest, i - 1);
    }
}

/// An account that an administrator manages shows neither a share nor an
/// amount; any other shows both, the amount never below zero.
pub proof fn law_managed_accounts_show_no_credits(
    usage: UsageView,
    powers: Seq<Power>,
    now_ms: i64,
)
    ensures
        ({
            let row = kiro_row(Ok(usage), now_ms).settled(powers, now_ms);
            &&& row.provider_id == "kiro"@
            &&& row.plan == usage.plan
            &&& row.windows.len() == 1
            &&& row.windows[0].label == "Credits"@
            &&& row.windows[0].metric is Credits
            &&& row.windows[0].resets_at_ms == usage.resets_at_ms
            &&& usage.managed ==> row.windows[0].remaining_percent is None
                && row.windows[0].remaining_amount is None
            &&& !usage.managed ==> row.windows[0].remaining_percent == Some(
                usage.remaining_percent.value(powers),
            ) && row.windows[0].remaining_amount == Some(
                usage.remaining_amount.value(powers).larger(Quantity { bits: 0 }),
            )
        }),
{
    reveal_with_fuel(Formula::value, 3);
}

/// Output that asks for a login says so, in whatever case; output that says
/// nothing, or that no usage could be had, says that; all else is read.
pub proof fn law_login_is_asked_for_first(text: Seq<char>)
    ensures
        contains(lower(plain(text)), "not logged in"@) ==> no_usage(text) == Some(
            "Kiro CLI is not logged in"@,
        ),
        contains(lower(plain(text)), "login required"@) ==> no_usage(text) == Some(
            "Kiro CLI is not logged in"@,
        ),
        contains(lower(plain(text)), "kiro-cli login"@) ==> no_usage(text) == Some(
            "Kiro CLI is not logged in"@,
        ),
        contains(lower(plain(text)), "oauth error"@) ==> no_usage(text) == Some(
            "Kiro CLI is not logged in"@,
        ),
        contains(lower(plain(text)), "could not retrieve usage information"@) ==> no_usage(
            text,
        ) is Some,
        trim(lower(plain(text))).len() == 0 ==> no_usage(text) is Some,
{
}

/// The plan is the text behind the first mention of it; without one the first
/// line that names the program; without that its name.
pub proof fn law_plan_is_named_by_its_line(found: Seq<Seq<char>>, i: int)
    requires
        0 <= i < found.len(),
        forall|k: int| 0 <= k < i ==> text_after(#[trigger] found[k], "plan:"@) is None,
    ensures
        text_after(found[i], "plan:"@) matches Some(rest) ==> named_plan(found) == Some(trim(rest)),
    decreases i,
{
    if i > 0 {
        let rest = found.drop_first();
        assert(text_after(found[0], "plan:"@) is None);
        assert forall|k: int| 0 <= k < i - 1 implies text_after(
            #[trigger] rest[k],
            "plan:"@,
        ) is None by {
            assert(rest[k] == found[k + 1]);
        }
        law_plan_is_named_by_its_line(rest, i - 1);
    }
}

} // verus!
