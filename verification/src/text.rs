//! Operations on text, stated over the sequence of its characters.

use vstd::prelude::*;

verus! {

/// `String::push` appends one character to the end of the string.
pub assume_specification[ String::push ](text: &mut String, ch: char)
    ensures
        final(text)@ == old(text)@.push(ch),
;

/// The characters with the Unicode `White_Space` property.
pub open spec fn whitespace(c: char) -> bool {
    ||| 0x9 <= c as u32 <= 0xd
    ||| c as u32 == 0x20
    ||| c as u32 == 0x85
    ||| c as u32 == 0xa0
    ||| c as u32 == 0x1680
    ||| 0x2000 <= c as u32 <= 0x200a
    ||| 0x2028 <= c as u32 <= 0x2029
    ||| c as u32 == 0x202f
    ||| c as u32 == 0x205f
    ||| c as u32 == 0x3000
}

pub fn is_whitespace(c: char) -> (yes: bool)
    ensures
        yes == whitespace(c),
{
    let code: u32 = c as u32;
    (0x9 <= code && code <= 0xd) || code == 0x20 || code == 0x85 || code == 0xa0 || code == 0x1680
        || (0x2000 <= code && code <= 0x200a) || (0x2028 <= code && code <= 0x2029)
        || code == 0x202f || code == 0x205f || code == 0x3000
}

/// The characters of a text, in order.
pub fn chars_of(text: &str) -> (chars: Vec<char>)
    ensures
        chars@ == text@,
{
    let mut chars: Vec<char> = Vec::new();
    for c in it: text.chars()
        invariant
            chars@ == it.seq().take(it.index() as int),
    {
        chars.push(c);
    }
    chars
}

/// The text that a run of characters spells.
pub fn text_of(chars: &[char]) -> (text: String)
    ensures
        text@ == chars@,
{
    let mut text = String::new();
    let mut i: usize = 0;
    while i < chars.len()
        invariant
            0 <= i <= chars.len(),
            text@ == chars@.take(i as int),
        decreases chars.len() - i,
    {
        text.push(chars[i]);
        i = i + 1;
    }
    text
}

/// A copy of the characters from `from` up to, not including, `to`.
pub fn slice_text(chars: &[char], from: usize, to: usize) -> (text: String)
    requires
        from <= to <= chars@.len(),
    ensures
        text@ == chars@.subrange(from as int, to as int),
{
    let mut text = String::new();
    let mut i: usize = from;
    while i < to
        invariant
            from <= i <= to <= chars@.len(),
            text@ == chars@.subrange(from as int, i as int),
        decreases to - i,
    {
        text.push(chars[i]);
        i = i + 1;
    }
    text
}

/// Whether two texts hold the same characters.
pub fn same(left: &str, right: &str) -> (yes: bool)
    ensures
        yes == (left@ == right@),
{
    left.to_owned() == right.to_owned()
}

pub open spec fn lower_char(c: char) -> char {
    if 'A' <= c <= 'Z' {
        (c as u32 + 32) as char
    } else {
        c
    }
}

/// ASCII lower case: other characters stay.
pub open spec fn lower(text: Seq<char>) -> Seq<char> {
    text.map_values(|c: char| lower_char(c))
}

pub fn to_lower_char(c: char) -> (out: char)
    ensures
        out == lower_char(c),
{
    if 'A' <= c && c <= 'Z' {
        let code: u8 = c as u8 + 32u8;
        code as char
    } else {
        c
    }
}

pub fn to_lower(text: &str) -> (out: String)
    ensures
        out@ == lower(text@),
{
    let mut out = String::new();
    for c in it: text.chars()
        invariant
            out@ == lower(it.seq().take(it.index() as int)),
    {
        proof {
            assert(it.seq().take(it.index() as int + 1).drop_last() =~= it.seq().take(it.index() as int));
        }
        out.push(to_lower_char(c));
        assert(out@ =~= lower(it.seq().take(it.index() as int + 1)));
    }
    out
}

/// The views of a run of texts.
pub open spec fn texts(parts: Seq<String>) -> Seq<Seq<char>> {
    parts.map_values(|part: String| part@)
}

/// The view of a text that may be missing.
pub open spec fn maybe_text(text: Option<String>) -> Option<Seq<char>> {
    match text {
        Some(t) => Some(t@),
        None => None,
    }
}

/// The view of a borrowed text that may be missing.
pub open spec fn maybe_str(text: Option<&str>) -> Option<Seq<char>> {
    match text {
        Some(text) => Some(text@),
        None => None,
    }
}

pub fn copy_maybe(text: &Option<String>) -> (out: Option<String>)
    ensures
        out == *text,
        maybe_text(out) == maybe_text(*text),
{
    match text {
        Some(t) => Some(t.clone()),
        None => None,
    }
}

pub fn copy_texts(parts: &Vec<String>) -> (out: Vec<String>)
    ensures
        out@ == parts@,
{
    let mut out: Vec<String> = Vec::new();
    let mut i: usize = 0;
    while i < parts.len()
        invariant
            i <= parts@.len(),
            out@ == parts@.take(i as int),
        decreases parts@.len() - i,
    {
        out.push(parts[i].clone());
        i = i + 1;
    }
    out
}

/// A text without its leading white space.
pub open spec fn trim_start(text: Seq<char>) -> Seq<char>
    decreases text.len(),
{
    if text.len() > 0 && whitespace(text[0]) {
        trim_start(text.drop_first())
    } else {
        text
    }
}

/// A text without its trailing white space.
pub open spec fn trim_end(text: Seq<char>) -> Seq<char>
    decreases text.len(),
{
    if text.len() > 0 && whitespace(text.last()) {
        trim_end(text.drop_last())
    } else {
        text
    }
}

/// A text without the white space around it.
pub open spec fn trim(text: Seq<char>) -> Seq<char> {
    trim_end(trim_start(text))
}

pub fn trimmed(text: &str) -> (out: String)
    ensures
        out@ == trim(text@),
{
    let chars = chars_of(text);
    let mut from: usize = 0;
    assert(chars@.subrange(0, chars@.len() as int) =~= text@);
    while from < chars.len() && is_whitespace(chars[from])
        invariant
            from <= chars@.len(),
            chars@ == text@,
            trim_start(text@) == trim_start(chars@.subrange(from as int, chars@.len() as int)),
        decreases chars@.len() - from,
    {
        proof {
            let rest = chars@.subrange(from as int, chars@.len() as int);
            assert(rest.drop_first() =~= chars@.subrange(from + 1, chars@.len() as int));
        }
        from = from + 1;
    }
    let mut to: usize = chars.len();
    while from < to && is_whitespace(chars[to - 1])
        invariant
            from <= to <= chars@.len(),
            chars@ == text@,
            trim(text@) == trim_end(chars@.subrange(from as int, to as int)),
        decreases to - from,
    {
        proof {
            let rest = chars@.subrange(from as int, to as int);
            assert(rest.drop_last() =~= chars@.subrange(from as int, to - 1));
        }
        to = to - 1;
    }
    proof {
        let rest = chars@.subrange(from as int, to as int);
        assert(rest.len() > 0 ==> rest.last() == chars@[to - 1]);
    }
    slice_text(&chars, from, to)
}

pub fn trimmed_end(text: &str) -> (out: String)
    ensures
        out@ == trim_end(text@),
{
    let chars = chars_of(text);
    let mut to: usize = chars.len();
    assert(chars@.subrange(0, to as int) =~= text@);
    while to > 0 && is_whitespace(chars[to - 1])
        invariant
            to <= chars@.len(),
            chars@ == text@,
            trim_end(text@) == trim_end(chars@.subrange(0, to as int)),
        decreases to,
    {
        proof {
            let rest = chars@.subrange(0, to as int);
            assert(rest.drop_last() =~= chars@.subrange(0, to - 1));
        }
        to = to - 1;
    }
    proof {
        let rest = chars@.subrange(0, to as int);
        assert(rest.len() > 0 ==> rest.last() == chars@[to - 1]);
    }
    slice_text(&chars, 0, to)
}

/// Trimming leaves no white space at either end.
pub proof fn lemma_trim_ends(text: Seq<char>)
    ensures
        trim(text).len() > 0 ==> !whitespace(trim(text)[0]) && !whitespace(trim(text).last()),
{
    lemma_trim_start_head(text);
    lemma_trim_end_tail(trim_start(text));
}

proof fn lemma_trim_start_head(text: Seq<char>)
    ensures
        trim_start(text).len() > 0 ==> !whitespace(trim_start(text)[0]),
    decreases text.len(),
{
    if text.len() > 0 && whitespace(text[0]) {
        lemma_trim_start_head(text.drop_first());
    }
}

proof fn lemma_trim_end_tail(text: Seq<char>)
    ensures
        trim_end(text).len() > 0 ==> !whitespace(trim_end(text).last()) && trim_end(text)[0] == text[0],
        trim_end(text).len() <= text.len(),
    decreases text.len(),
{
    if text.len() > 0 && whitespace(text.last()) {
        lemma_trim_end_tail(text.drop_last());
    }
}

/// Trimming twice is trimming once.
pub proof fn lemma_trim_idempotent(text: Seq<char>)
    ensures
        trim(trim(text)) == trim(text),
{
    lemma_trim_ends(text);
}

/// The needle stands in the text at position `at`.
pub open spec fn found_at(text: Seq<char>, needle: Seq<char>, at: int) -> bool {
    0 <= at && at + needle.len() <= text.len() && text.subrange(at, at + needle.len()) == needle
}

/// The needle stands somewhere in the text.
pub open spec fn contains(text: Seq<char>, needle: Seq<char>) -> bool {
    exists|at: int| found_at(text, needle, at)
}

/// The first position, from `from` on, at which the needle stands.
pub open spec fn find_from(text: Seq<char>, needle: Seq<char>, from: int) -> Option<int>
    decreases text.len() + 1 - from,
{
    if from < 0 || from + needle.len() > text.len() {
        None
    } else if found_at(text, needle, from) {
        Some(from)
    } else {
        find_from(text, needle, from + 1)
    }
}

/// `find_from` gives the least position at which the needle stands.
pub proof fn lemma_find_from(text: Seq<char>, needle: Seq<char>, from: int)
    requires
        0 <= from,
    ensures
        match find_from(text, needle, from) {
            Some(at) => from <= at && found_at(text, needle, at) && (forall|k: int|
                from <= k < at ==> !found_at(text, needle, k)),
            None => forall|k: int| from <= k ==> !found_at(text, needle, k),
        },
    decreases text.len() + 1 - from,
{
    if from + needle.len() <= text.len() && !found_at(text, needle, from) {
        lemma_find_from(text, needle, from + 1);
    }
}

/// Whether the needle stands in the characters at `at`.
pub fn matches_at(chars: &[char], needle: &[char], at: usize) -> (yes: bool)
    ensures
        yes == found_at(chars@, needle@, at as int),
{
    if needle.len() > chars.len() || at > chars.len() - needle.len() {
        return false;
    }
    let mut i: usize = 0;
    while i < needle.len()
        invariant
            i <= needle@.len(),
            at + needle.len() <= chars.len(),
            forall|k: int| 0 <= k < i ==> chars@[at + k] == needle@[k],
        decreases needle@.len() - i,
    {
        if chars[at + i] != needle[i] {
            assert(chars@.subrange(at as int, at + needle@.len())[i as int] != needle@[i as int]);
            return false;
        }
        i = i + 1;
    }
    assert(chars@.subrange(at as int, at + needle@.len()) =~= needle@);
    true
}

pub fn find_in(chars: &[char], needle: &[char], from: usize) -> (at: Option<usize>)
    ensures
        match at {
            Some(i) => find_from(chars@, needle@, from as int) == Some(i as int),
            None => find_from(chars@, needle@, from as int) is None,
        },
{
    let mut i: usize = from;
    while i <= chars.len() && needle.len() <= chars.len() - i
        invariant
            find_from(chars@, needle@, from as int) == find_from(chars@, needle@, i as int),
        decreases chars@.len() + 1 - i,
    {
        if matches_at(chars, needle, i) {
            return Some(i);
        }
        if i == chars.len() {
            assert(chars@.subrange(i as int, i + needle@.len()) =~= needle@);
            return None;
        }
        i = i + 1;
    }
    None
}

pub fn has_text(text: &str, needle: &str) -> (yes: bool)
    ensures
        yes == contains(text@, needle@),
{
    let chars = chars_of(text);
    let wanted = chars_of(needle);
    proof {
        lemma_find_from(text@, needle@, 0);
    }
    find_in(&chars, &wanted, 0).is_some()
}

/// The text begins with the prefix.
pub open spec fn starts_with(text: Seq<char>, prefix: Seq<char>) -> bool {
    found_at(text, prefix, 0)
}

/// The text ends with the suffix.
pub open spec fn ends_with(text: Seq<char>, suffix: Seq<char>) -> bool {
    found_at(text, suffix, text.len() - suffix.len())
}

pub fn has_prefix(text: &str, prefix: &str) -> (yes: bool)
    ensures
        yes == starts_with(text@, prefix@),
{
    matches_at(&chars_of(text), &chars_of(prefix), 0)
}

pub fn has_suffix(text: &str, suffix: &str) -> (yes: bool)
    ensures
        yes == ends_with(text@, suffix@),
{
    let chars = chars_of(text);
    let tail = chars_of(suffix);
    if tail.len() > chars.len() {
        return false;
    }
    matches_at(&chars, &tail, chars.len() - tail.len())
}

/// The pieces between the separators, empty ones too.
pub open spec fn split(text: Seq<char>, separator: char) -> Seq<Seq<char>>
    decreases text.len(),
{
    match find_from(text, seq![separator], 0) {
        Some(at) => if 0 <= at < text.len() {
            seq![text.take(at)] + split(text.skip(at + 1), separator)
        } else {
            seq![text]
        },
        None => seq![text],
    }
}

/// The first position of a character from `from` on.
pub fn find_char(chars: &[char], wanted: char, from: usize) -> (at: Option<usize>)
    requires
        from <= chars@.len(),
    ensures
        match at {
            Some(i) => from <= i < chars@.len() && chars@[i as int] == wanted && (forall|k: int|
                from <= k < i ==> chars@[k] != wanted),
            None => forall|k: int| from <= k < chars@.len() ==> chars@[k] != wanted,
        },
{
    let mut i: usize = from;
    while i < chars.len()
        invariant
            from <= i <= chars@.len(),
            forall|k: int| from <= k < i ==> chars@[k] != wanted,
        decreases chars@.len() - i,
    {
        if chars[i] == wanted {
            return Some(i);
        }
        i = i + 1;
    }
    None
}

/// What `find_from` gives for a single character.
pub proof fn lemma_find_char(text: Seq<char>, wanted: char, at: Option<int>)
    requires
        match at {
            Some(i) => 0 <= i < text.len() && text[i] == wanted && (forall|k: int|
                0 <= k < i ==> text[k] != wanted),
            None => forall|k: int| 0 <= k < text.len() ==> text[k] != wanted,
        },
    ensures
        find_from(text, seq![wanted], 0) == at,
{
    lemma_find_from(text, seq![wanted], 0);
    let result = find_from(text, seq![wanted], 0);
    if result is Some {
        assert(text.subrange(result->0, result->0 + 1)[0] == wanted);
        assert(text[result->0] == wanted);
    }
    if at is Some {
        assert(text.subrange(at->0, at->0 + 1) =~= seq![wanted]);
        assert(found_at(text, seq![wanted], at->0));
    }
}

pub fn split_text(text: &str, separator: char) -> (parts: Vec<String>)
    ensures
        texts(parts@) == split(text@, separator),
{
    let chars = chars_of(text);
    let mut parts: Vec<String> = Vec::new();
    let mut start: usize = 0;
    assert(text@.skip(0) =~= text@);
    assert(texts(parts@) =~= Seq::<Seq<char>>::empty());
    let total: usize = chars.len();
    loop
        invariant
            chars@ == text@,
            start <= total == chars@.len(),
            texts(parts@) + split(text@.skip(start as int), separator) == split(text@, separator),
        decreases chars@.len() - start,
    {
        let ghost rest = text@.skip(start as int);
        match find_char(&chars, separator, start) {
            Some(at) => {
                proof {
                    assert forall|k: int| 0 <= k < at - start implies rest[k] != separator by {
                        assert(rest[k] == chars@[start + k]);
                    }
                    lemma_find_char(rest, separator, Some(at - start));
                    assert(rest.take(at - start) =~= chars@.subrange(start as int, at as int));
                    assert(rest.skip(at - start + 1) =~= text@.skip(at + 1));
                }
                let ghost before = parts@;
                parts.push(slice_text(&chars, start, at));
                proof {
                    assert(texts(parts@) =~= texts(before).push(rest.take(at - start)));
                    assert(texts(parts@) + split(text@.skip(at + 1), separator) =~= texts(before)
                        + split(rest, separator));
                }
                start = at + 1;
            },
            None => {
                proof {
                    assert forall|k: int| 0 <= k < rest.len() implies rest[k] != separator by {
                        assert(rest[k] == chars@[start + k]);
                    }
                    lemma_find_char(rest, separator, None);
                    assert(rest =~= chars@.subrange(start as int, chars@.len() as int));
                }
                let ghost before = parts@;
                parts.push(slice_text(&chars, start, chars.len()));
                proof {
                    assert(texts(parts@) =~= texts(before) + seq![rest]);
                }
                return parts;
            },
        }
    }
}

/// A line without the carriage return that closed it.
pub open spec fn chomp(line: Seq<char>) -> Seq<char> {
    if line.len() > 0 && line.last() == '\r' {
        line.drop_last()
    } else {
        line
    }
}

/// The lines of a text. A line feed closes a line, with a carriage return
/// before it; nothing follows the last line feed.
pub open spec fn lines(text: Seq<char>) -> Seq<Seq<char>>
    decreases text.len(),
{
    if text.len() == 0 {
        Seq::empty()
    } else {
        match find_from(text, seq!['\n'], 0) {
            Some(at) => if 0 <= at < text.len() {
                seq![chomp(text.take(at))] + lines(text.skip(at + 1))
            } else {
                seq![text]
            },
            None => seq![text],
        }
    }
}

pub fn chomped(chars: &[char], from: usize, to: usize) -> (line: String)
    requires
        from <= to <= chars@.len(),
    ensures
        line@ == chomp(chars@.subrange(from as int, to as int)),
{
    if from < to && chars[to - 1] == '\r' {
        proof {
            assert(chars@.subrange(from as int, to as int).drop_last() =~= chars@.subrange(from as int, to - 1));
        }
        slice_text(chars, from, to - 1)
    } else {
        slice_text(chars, from, to)
    }
}

pub fn lines_of(text: &str) -> (parts: Vec<String>)
    ensures
        texts(parts@) == lines(text@),
{
    let chars = chars_of(text);
    let mut parts: Vec<String> = Vec::new();
    let mut start: usize = 0;
    assert(text@.skip(0) =~= text@);
    while start < chars.len()
        invariant
            chars@ == text@,
            start <= chars@.len(),
            texts(parts@) + lines(text@.skip(start as int)) == lines(text@),
        decreases chars@.len() - start,
    {
        let ghost rest = text@.skip(start as int);
        let ghost before = parts@;
        match find_char(&chars, '\n', start) {
            Some(at) => {
                proof {
                    assert forall|k: int| 0 <= k < at - start implies rest[k] != '\n' by {
                        assert(rest[k] == chars@[start + k]);
                    }
                    lemma_find_char(rest, '\n', Some(at - start));
                    assert(rest.take(at - start) =~= chars@.subrange(start as int, at as int));
                    assert(rest.skip(at - start + 1) =~= text@.skip(at + 1));
                }
                parts.push(chomped(&chars, start, at));
                proof {
                    assert(texts(parts@) =~= texts(before).push(chomp(rest.take(at - start))));
                    assert(texts(parts@) + lines(text@.skip(at + 1)) =~= texts(before) + lines(rest));
                }
                start = at + 1;
            },
            None => {
                proof {
                    assert forall|k: int| 0 <= k < rest.len() implies rest[k] != '\n' by {
                        assert(rest[k] == chars@[start + k]);
                    }
                    lemma_find_char(rest, '\n', None);
                    assert(rest =~= chars@.subrange(start as int, chars@.len() as int));
                }
                parts.push(slice_text(&chars, start, chars.len()));
                proof {
                    assert(texts(parts@) =~= texts(before) + seq![rest]);
                }
                return parts;
            },
        }
    }
    assert(text@.skip(start as int) =~= Seq::<char>::empty());
    parts
}

/// How many characters stand before the first white space.
pub open spec fn word_len(text: Seq<char>) -> int
    decreases text.len(),
{
    if text.len() == 0 || whitespace(text[0]) {
        0
    } else {
        1 + word_len(text.drop_first())
    }
}

/// The words of a text: its longest runs without white space.
pub open spec fn words(text: Seq<char>) -> Seq<Seq<char>>
    decreases text.len(),
{
    if text.len() == 0 {
        Seq::empty()
    } else if whitespace(text[0]) {
        words(text.drop_first())
    } else {
        let n = word_len(text);
        if 0 < n <= text.len() {
            seq![text.take(n)] + words(text.skip(n))
        } else {
            Seq::empty()
        }
    }
}

pub proof fn lemma_word_len(text: Seq<char>, n: int)
    requires
        0 <= n <= text.len(),
        forall|k: int| 0 <= k < n ==> !whitespace(text[k]),
        n < text.len() ==> whitespace(text[n]),
    ensures
        word_len(text) == n,
    decreases text.len(),
{
    if n > 0 {
        assert forall|k: int| 0 <= k < n - 1 implies !whitespace(text.drop_first()[k]) by {
            assert(text.drop_first()[k] == text[k + 1]);
        }
        lemma_word_len(text.drop_first(), n - 1);
    }
}

pub fn words_of(text: &str) -> (parts: Vec<String>)
    ensures
        texts(parts@) == words(text@),
{
    let chars = chars_of(text);
    let mut parts: Vec<String> = Vec::new();
    let mut start: usize = 0;
    assert(text@.skip(0) =~= text@);
    while start < chars.len()
        invariant
            chars@ == text@,
            start <= chars@.len(),
            texts(parts@) + words(text@.skip(start as int)) == words(text@),
        decreases chars@.len() - start,
    {
        let ghost rest = text@.skip(start as int);
        assert(rest[0] == chars@[start as int]);
        if is_whitespace(chars[start]) {
            assert(rest.drop_first() =~= text@.skip(start + 1));
            start = start + 1;
        } else {
            let mut end: usize = start + 1;
            while end < chars.len() && !is_whitespace(chars[end])
                invariant
                    start < end <= chars@.len(),
                    forall|k: int| start <= k < end ==> !whitespace(chars@[k]),
                decreases chars@.len() - end,
            {
                end = end + 1;
            }
            let ghost before = parts@;
            proof {
                assert forall|k: int| 0 <= k < end - start implies !whitespace(rest[k]) by {
                    assert(rest[k] == chars@[start + k]);
                }
                lemma_word_len(rest, end - start);
                assert(rest.take(end - start) =~= chars@.subrange(start as int, end as int));
                assert(rest.skip(end - start) =~= text@.skip(end as int));
            }
            parts.push(slice_text(&chars, start, end));
            proof {
                assert(texts(parts@) =~= texts(before).push(rest.take(end - start)));
                assert(texts(parts@) + words(text@.skip(end as int)) =~= texts(before) + words(rest));
            }
            start = end;
        }
    }
    assert(text@.skip(start as int) =~= Seq::<char>::empty());
    parts
}

/// The parts one after the other, with the separator between neighbours.
pub open spec fn join(parts: Seq<Seq<char>>, separator: Seq<char>) -> Seq<char>
    decreases parts.len(),
{
    if parts.len() == 0 {
        Seq::empty()
    } else if parts.len() == 1 {
        parts[0]
    } else {
        join(parts.drop_last(), separator) + separator + parts.last()
    }
}

pub fn join_texts(parts: &[String], separator: &str) -> (out: String)
    ensures
        out@ == join(texts(parts@), separator@),
{
    let mut out = String::new();
    let mut i: usize = 0;
    while i < parts.len()
        invariant
            i <= parts@.len(),
            out@ == join(texts(parts@).take(i as int), separator@),
        decreases parts@.len() - i,
    {
        proof {
            let next = texts(parts@).take(i + 1);
            assert(next.drop_last() =~= texts(parts@).take(i as int));
        }
        if i > 0 {
            out.append(separator);
        }
        out.append(parts[i].as_str());
        i = i + 1;
        assert(out@ =~= join(texts(parts@).take(i as int), separator@));
    }
    assert(texts(parts@).take(i as int) =~= texts(parts@));
    out
}

/// Alphabetical order by code point.
pub open spec fn precedes(left: Seq<char>, right: Seq<char>) -> bool
    decreases left.len(),
{
    if right.len() == 0 {
        false
    } else if left.len() == 0 {
        true
    } else if left[0] != right[0] {
        left[0] < right[0]
    } else {
        precedes(left.drop_first(), right.drop_first())
    }
}

pub fn comes_before(left: &str, right: &str) -> (yes: bool)
    ensures
        yes == precedes(left@, right@),
{
    let a = chars_of(left);
    let b = chars_of(right);
    let mut i: usize = 0;
    assert(a@.skip(0) =~= a@);
    assert(b@.skip(0) =~= b@);
    while i < a.len() && i < b.len()
        invariant
            i <= a@.len(),
            i <= b@.len(),
            a@ == left@,
            b@ == right@,
            precedes(left@, right@) == precedes(a@.skip(i as int), b@.skip(i as int)),
        decreases a@.len() - i,
    {
        proof {
            assert(a@.skip(i as int).drop_first() =~= a@.skip(i + 1));
            assert(b@.skip(i as int).drop_first() =~= b@.skip(i + 1));
        }
        if a[i] != b[i] {
            return a[i] < b[i];
        }
        i = i + 1;
    }
    i < b.len()
}

/// Of two different texts exactly one precedes the other.
pub proof fn lemma_precedes_total(left: Seq<char>, right: Seq<char>)
    ensures
        precedes(left, right) ==> !precedes(right, left),
        !precedes(left, right) && !precedes(right, left) ==> left == right,
        left == right ==> !precedes(left, right),
    decreases left.len(),
{
    if left.len() > 0 && right.len() > 0 {
        if left[0] == right[0] {
            lemma_precedes_total(left.drop_first(), right.drop_first());
            if left.drop_first() == right.drop_first() {
                assert(left =~= seq![left[0]] + left.drop_first());
                assert(right =~= seq![right[0]] + right.drop_first());
            }
        }
    } else if left.len() == 0 && right.len() == 0 {
        assert(left =~= right);
    }
}

pub proof fn lemma_precedes_transitive(a: Seq<char>, b: Seq<char>, c: Seq<char>)
    requires
        precedes(a, b),
        precedes(b, c),
    ensures
        precedes(a, c),
    decreases a.len(),
{
    if a.len() > 0 && a[0] == b[0] && b[0] == c[0] {
        lemma_precedes_transitive(a.drop_first(), b.drop_first(), c.drop_first());
    }
}

pub open spec fn digit(value: nat) -> char {
    (48 + value) as char
}

/// Decimal notation without leading zeros.
pub open spec fn decimal(value: nat) -> Seq<char>
    decreases value,
{
    if value < 10 {
        seq![digit(value)]
    } else {
        decimal(value / 10).push(digit(value % 10))
    }
}

/// Decimal notation with a minus sign below zero.
pub open spec fn signed_decimal(value: int) -> Seq<char> {
    if value < 0 {
        seq!['-'] + decimal((-value) as nat)
    } else {
        decimal(value as nat)
    }
}

pub fn decimal_text(value: u64) -> (out: String)
    ensures
        out@ == decimal(value as nat),
    decreases value,
{
    let last: u8 = (value % 10) as u8;
    let mut out = if value < 10 {
        String::new()
    } else {
        decimal_text(value / 10)
    };
    out.push((48u8 + last) as char);
    out
}

pub fn signed_text(value: i64) -> (out: String)
    ensures
        out@ == signed_decimal(value as int),
{
    if value < 0 {
        let mut out = String::new();
        out.push('-');
        let size: u64 = if value == i64::MIN {
            0x8000_0000_0000_0000u64
        } else {
            (-value) as u64
        };
        let digits = decimal_text(size);
        out.append(digits.as_str());
        out
    } else {
        decimal_text(value as u64)
    }
}

/// All characters are decimal digits.
pub open spec fn all_digits(text: Seq<char>) -> bool {
    forall|i: int| 0 <= i < text.len() ==> '0' <= #[trigger] text[i] <= '9'
}

/// The number that decimal digits spell.
pub open spec fn digits_value(text: Seq<char>) -> int
    decreases text.len(),
{
    if text.len() == 0 {
        0
    } else {
        digits_value(text.drop_last()) * 10 + (text.last() as int - '0' as int)
    }
}

/// The number that a text spells: decimal digits, at least one, with at most
/// one sign before them.
pub open spec fn spelled_integer(text: Seq<char>) -> Option<int> {
    let signed = text.len() > 0 && (text[0] == '-' || text[0] == '+');
    let digits = if signed {
        text.drop_first()
    } else {
        text
    };
    if digits.len() == 0 || !all_digits(digits) {
        None
    } else if signed && text[0] == '-' {
        Some(-digits_value(digits))
    } else {
        Some(digits_value(digits))
    }
}

/// The 64-bit integer that a text spells.
pub open spec fn spelled_i64(text: Seq<char>) -> Option<i64> {
    match spelled_integer(text) {
        Some(value) => if i64::MIN <= value <= i64::MAX {
            Some(value as i64)
        } else {
            None
        },
        None => None,
    }
}

/// A number, held at a bound that no 64-bit integer reaches.
spec fn held(value: int) -> int {
    if value > 0x1_0000_0000_0000_0000 {
        0x1_0000_0000_0000_0000
    } else {
        value
    }
}

/// The value of the digits from `from` on, held at a bound.
fn read_digits(chars: &[char], from: usize) -> (out: Option<u128>)
    requires
        from <= chars@.len(),
    ensures
        match out {
            Some(value) => from < chars@.len() && all_digits(chars@.skip(from as int)) && value
                == held(digits_value(chars@.skip(from as int))),
            None => from == chars@.len() || !all_digits(chars@.skip(from as int)),
        },
{
    let ghost digits = chars@.skip(from as int);
    if from == chars.len() {
        return None;
    }
    let mut value: u128 = 0;
    let mut i: usize = from;
    while i < chars.len()
        invariant
            from <= i <= chars@.len(),
            digits == chars@.skip(from as int),
            all_digits(digits.take(i - from)),
            value == held(digits_value(digits.take(i - from))),
            value <= 0x1_0000_0000_0000_0000,
            digits_value(digits.take(i - from)) >= 0,
        decreases chars@.len() - i,
    {
        let c = chars[i];
        assert(digits[i - from] == c);
        if c < '0' || c > '9' {
            return None;
        }
        let digit: u128 = (c as u32 - 48) as u128;
        proof {
            let now = digits.take(i + 1 - from);
            assert(now.drop_last() =~= digits.take(i - from));
            assert(now.last() == c);
            assert forall|k: int| 0 <= k < now.len() implies '0' <= #[trigger] now[k] <= '9' by {
                if k < i - from {
                    assert(digits.take(i - from)[k] == now[k]);
                }
            }
        }
        value = value * 10 + digit;
        if value > 0x1_0000_0000_0000_0000 {
            value = 0x1_0000_0000_0000_0000;
        }
        i = i + 1;
    }
    assert(digits.take(i - from) =~= digits);
    Some(value)
}

pub fn parse_i64(text: &str) -> (out: Option<i64>)
    ensures
        out == spelled_i64(text@),
{
    let chars = chars_of(text);
    if chars.len() == 0 {
        return None;
    }
    assert(text@.skip(1) =~= text@.drop_first());
    assert(text@.skip(0) =~= text@);
    if chars[0] == '-' {
        match read_digits(&chars, 1) {
            Some(value) => if value <= 0x8000_0000_0000_0000 {
                Some((-(value as i128)) as i64)
            } else {
                None
            },
            None => None,
        }
    } else {
        let from: usize = if chars[0] == '+' {
            1
        } else {
            0
        };
        match read_digits(&chars, from) {
            Some(value) => if value <= 0x7fff_ffff_ffff_ffff {
                Some(value as i64)
            } else {
                None
            },
            None => None,
        }
    }
}

/// The part is found in the whole.
pub proof fn lemma_part_contains(whole: Seq<char>, from: int, to: int, needle: Seq<char>)
    requires
        0 <= from <= to <= whole.len(),
        contains(whole.subrange(from, to), needle),
    ensures
        contains(whole, needle),
{
    let part = whole.subrange(from, to);
    let at = choose|at: int| found_at(part, needle, at);
    assert(whole.subrange(from + at, from + at + needle.len()) =~= part.subrange(
        at,
        at + needle.len(),
    ));
    assert(found_at(whole, needle, from + at));
}

proof fn lemma_trim_start_part(text: Seq<char>) -> (from: int)
    ensures
        0 <= from <= text.len(),
        trim_start(text) == text.subrange(from, text.len() as int),
    decreases text.len(),
{
    if text.len() > 0 && whitespace(text[0]) {
        let rest = lemma_trim_start_part(text.drop_first());
        assert(text.drop_first().subrange(rest, text.len() - 1) =~= text.subrange(
            rest + 1,
            text.len() as int,
        ));
        rest + 1
    } else {
        assert(text.subrange(0, text.len() as int) =~= text);
        0
    }
}

proof fn lemma_trim_end_part(text: Seq<char>) -> (to: int)
    ensures
        0 <= to <= text.len(),
        trim_end(text) == text.subrange(0, to),
    decreases text.len(),
{
    if text.len() > 0 && whitespace(text.last()) {
        let to = lemma_trim_end_part(text.drop_last());
        assert(text.drop_last().subrange(0, to) =~= text.subrange(0, to));
        to
    } else {
        assert(text.subrange(0, text.len() as int) =~= text);
        text.len() as int
    }
}

/// A trimmed text is a part of the text.
pub proof fn lemma_trim_part(text: Seq<char>) -> (range: (int, int))
    ensures
        0 <= range.0 <= range.1 <= text.len(),
        trim(text) == text.subrange(range.0, range.1),
{
    let from = lemma_trim_start_part(text);
    let rest = trim_start(text);
    let to = lemma_trim_end_part(rest);
    assert(rest.subrange(0, to) =~= text.subrange(from, from + to));
    (from, from + to)
}

/// A character `count` times over.
pub open spec fn run_of(c: char, count: nat) -> Seq<char> {
    Seq::new(count, |i: int| c)
}

pub fn repeat_char(c: char, count: usize) -> (out: String)
    ensures
        out@ == run_of(c, count as nat),
{
    let mut out = String::new();
    let mut i: usize = 0;
    while i < count
        invariant
            i <= count,
            out@ == run_of(c, i as nat),
        decreases count - i,
    {
        out.push(c);
        i = i + 1;
        assert(out@ =~= run_of(c, i as nat));
    }
    out
}

/// The text moved right by spaces, to at least `width` characters.
pub open spec fn right_aligned(text: Seq<char>, width: nat) -> Seq<char> {
    if text.len() < width {
        run_of(' ', (width - text.len()) as nat) + text
    } else {
        text
    }
}

/// The text followed by spaces, to at least `width` characters.
pub open spec fn left_aligned(text: Seq<char>, width: nat) -> Seq<char> {
    if text.len() < width {
        text + run_of(' ', (width - text.len()) as nat)
    } else {
        text
    }
}

/// How many characters a text has.
pub fn char_count(text: &str) -> (count: usize)
    ensures
        count == text@.len(),
{
    chars_of(text).len()
}

pub fn align_right(text: &str, width: usize) -> (out: String)
    ensures
        out@ == right_aligned(text@, width as nat),
{
    let count: usize = char_count(text);
    if count < width {
        let mut out = repeat_char(' ', width - count);
        out.append(text);
        out
    } else {
        text.to_owned()
    }
}

pub fn align_left(text: &str, width: usize) -> (out: String)
    ensures
        out@ == left_aligned(text@, width as nat),
{
    let count: usize = char_count(text);
    let mut out = text.to_owned();
    if count < width {
        out.append(repeat_char(' ', width - count).as_str());
    }
    out
}

pub fn two(a: &str, b: &str) -> (out: String)
    ensures
        out@ == a@ + b@,
{
    let mut out = a.to_owned();
    out.append(b);
    out
}

pub fn three(a: &str, b: &str, c: &str) -> (out: String)
    ensures
        out@ == a@ + b@ + c@,
{
    let mut out = a.to_owned();
    out.append(b);
    out.append(c);
    out
}

pub fn four(a: &str, b: &str, c: &str, d: &str) -> (out: String)
    ensures
        out@ == a@ + b@ + c@ + d@,
{
    let mut out = a.to_owned();
    out.append(b);
    out.append(c);
    out.append(d);
    out
}

pub fn five(a: &str, b: &str, c: &str, d: &str, e: &str) -> (out: String)
    ensures
        out@ == a@ + b@ + c@ + d@ + e@,
{
    let mut out = a.to_owned();
    out.append(b);
    out.append(c);
    out.append(d);
    out.append(e);
    out
}

/// The parts of a text between the occurrences of a separator.
pub open spec fn parts_between(text: Seq<char>, separator: Seq<char>) -> Seq<Seq<char>>
    decreases text.len(),
{
    match find_from(text, separator, 0) {
        Some(at) => if separator.len() > 0 && 0 <= at && at + separator.len() <= text.len() {
            seq![text.take(at)] + parts_between(text.skip(at + separator.len()), separator)
        } else {
            seq![text]
        },
        None => seq![text],
    }
}

proof fn lemma_find_skipped(text: Seq<char>, needle: Seq<char>, from: int, by: int)
    requires
        0 <= by <= text.len(),
        from >= 0,
    ensures
        match (find_from(text.skip(by), needle, from), find_from(text, needle, by + from)) {
            (Some(a), Some(b)) => a + by == b,
            (None, None) => true,
            _ => false,
        },
    decreases text.len() + 1 - by - from,
{
    let rest = text.skip(by);
    if from + needle.len() <= rest.len() {
        assert(rest.subrange(from, from + needle.len()) =~= text.subrange(
            by + from,
            by + from + needle.len(),
        ));
        if !found_at(rest, needle, from) {
            lemma_find_skipped(text, needle, from + 1, by);
        }
    }
}

pub fn split_between(text: &str, separator: &str) -> (parts: Vec<String>)
    requires
        separator@.len() > 0,
    ensures
        texts(parts@) == parts_between(text@, separator@),
        parts@.len() > 0,
{
    let chars = chars_of(text);
    let needle = chars_of(separator);
    let total: usize = chars.len();
    let step: usize = needle.len();
    let mut parts: Vec<String> = Vec::new();
    let mut from: usize = 0;
    let mut more = true;
    assert(text@.skip(0) =~= text@);
    assert(texts(parts@) + parts_between(text@, separator@) =~= parts_between(text@, separator@));
    while more
        invariant
            chars@ == text@,
            needle@ == separator@,
            total == chars@.len(),
            step == needle@.len(),
            step > 0,
            from <= total,
            more ==> texts(parts@) + parts_between(text@.skip(from as int), separator@)
                == parts_between(text@, separator@),
            !more ==> texts(parts@) == parts_between(text@, separator@) && parts@.len() > 0,
        decreases (if more { 1int } else { 0int }), total - from,
    {
        let ghost before = texts(parts@);
        let ghost rest = text@.skip(from as int);
        proof {
            lemma_find_skipped(text@, separator@, 0, from as int);
            lemma_find_from(rest, separator@, 0);
        }
        match find_in(chars.as_slice(), needle.as_slice(), from) {
            Some(at) => {
                let part = slice_text(chars.as_slice(), from, at);
                proof {
                    lemma_find_from(text@, separator@, from as int);
                    assert(part@ =~= rest.take(at - from));
                    assert(rest.skip(at - from + step) =~= text@.skip(at + step));
                }
                parts.push(part);
                from = at + step;
                assert(texts(parts@) =~= before.push(part@));
                assert(before.push(part@) + parts_between(text@.skip(from as int), separator@)
                    =~= before + (seq![part@] + parts_between(
                    text@.skip(from as int),
                    separator@,
                )));
            },
            None => {
                let part = slice_text(chars.as_slice(), from, total);
                assert(part@ =~= rest);
                parts.push(part);
                more = false;
                assert(texts(parts@) =~= before + seq![part@]);
            },
        }
    }
    parts
}

/// An ASCII letter as a capital, any other character as it is.
pub open spec fn upper_char(c: char) -> char {
    if 'a' <= c <= 'z' {
        (c as u32 - 32) as char
    } else {
        c
    }
}

pub open spec fn upper(text: Seq<char>) -> Seq<char> {
    text.map_values(|c: char| upper_char(c))
}

pub fn to_upper_char(c: char) -> (out: char)
    ensures
        out == upper_char(c),
{
    if 'a' <= c && c <= 'z' {
        let code: u8 = c as u8 - 32u8;
        code as char
    } else {
        c
    }
}

pub fn to_upper(text: &str) -> (out: String)
    ensures
        out@ == upper(text@),
{
    let chars = chars_of(text);
    let mut out = String::new();
    let mut i: usize = 0;
    while i < chars.len()
        invariant
            i <= chars@.len(),
            chars@ == text@,
            out@ == upper(text@.take(i as int)),
        decreases chars@.len() - i,
    {
        out.push(to_upper_char(chars[i]));
        i = i + 1;
        assert(out@ =~= upper(text@.take(i as int)));
    }
    assert(text@.take(i as int) =~= text@);
    out
}

/// Two texts are the same but for the case of ASCII letters.
pub fn same_caseless(left: &str, right: &str) -> (yes: bool)
    ensures
        yes == (lower(left@) == lower(right@)),
{
    same(to_lower(left).as_str(), to_lower(right).as_str())
}

/// The first part of joined ones stands in front, with the separator behind it.
proof fn lemma_join_first(first: Seq<char>, rest: Seq<Seq<char>>, separator: Seq<char>)
    requires
        rest.len() > 0,
    ensures
        join(seq![first] + rest, separator) == first + separator + join(rest, separator),
    decreases rest.len(),
{
    let all = seq![first] + rest;
    if rest.len() == 1 {
        assert(all.drop_last() =~= seq![first]);
        assert(join(all.drop_last(), separator) == first);
        assert(all.last() == rest[0]);
        assert(join(all, separator) =~= first + separator + rest[0]);
    } else {
        lemma_join_first(first, rest.drop_last(), separator);
        assert(all.drop_last() =~= seq![first] + rest.drop_last());
        assert(all.last() == rest.last());
        assert(join(all, separator) =~= first + separator + join(rest, separator));
    }
}

/// Splitting a text at a character and joining the parts with it gives the text
/// back, and no part holds the character.
pub proof fn law_join_undoes_split(text: Seq<char>, separator: char)
    ensures
        join(split(text, separator), seq![separator]) == text,
        split(text, separator).len() > 0,
        forall|i: int, k: int|
            0 <= i < split(text, separator).len() && 0 <= k < split(text, separator)[i].len()
                ==> #[trigger] split(text, separator)[i][k] != separator,
    decreases text.len(),
{
    lemma_find_from(text, seq![separator], 0);
    match find_from(text, seq![separator], 0) {
        Some(at) => {
            assert(text.subrange(at, at + 1)[0] == separator);
            assert(text[at] == separator);
            let rest = text.skip(at + 1);
            law_join_undoes_split(rest, separator);
            lemma_join_first(text.take(at), split(rest, separator), seq![separator]);
            assert(text.take(at) + seq![separator] + rest =~= text);
            let parts = split(text, separator);
            assert forall|i: int, k: int|
                0 <= i < parts.len() && 0 <= k < parts[i].len() implies #[trigger] parts[i][k]
                != separator by {
                if i == 0 {
                    assert(!found_at(text, seq![separator], k));
                    if text[k] == separator {
                        assert(text.subrange(k, k + 1) =~= seq![separator]);
                    }
                } else {
                    assert(parts[i] == split(rest, separator)[i - 1]);
                    assert(split(rest, separator)[i - 1][k] != separator);
                }
            }
        },
        None => {
            let parts = split(text, separator);
            assert forall|i: int, k: int|
                0 <= i < parts.len() && 0 <= k < parts[i].len() implies #[trigger] parts[i][k]
                != separator by {
                assert(!found_at(text, seq![separator], k));
                if text[k] == separator {
                    assert(text.subrange(k, k + 1) =~= seq![separator]);
                }
            }
        },
    }
}

/// Joining the parts between a separator with it gives the text back.
pub proof fn law_join_undoes_parting(text: Seq<char>, separator: Seq<char>)
    requires
        separator.len() > 0,
    ensures
        join(parts_between(text, separator), separator) == text,
        parts_between(text, separator).len() > 0,
    decreases text.len(),
{
    lemma_find_from(text, separator, 0);
    match find_from(text, separator, 0) {
        Some(at) => {
            let rest = text.skip(at + separator.len());
            law_join_undoes_parting(rest, separator);
            lemma_join_first(text.take(at), parts_between(rest, separator), separator);
            assert(text.subrange(at, at + separator.len()) == separator);
            assert(text.take(at) + separator + rest =~= text) by {
                assert(text =~= text.take(at) + text.subrange(at, at + separator.len())
                    + text.skip(at + separator.len()));
            }
        },
        None => {},
    }
}

/// The digits of a number spell it, and a sign before them changes it as it
/// says.
pub proof fn law_digits_spell_their_number(value: nat)
    ensures
        decimal(value).len() > 0,
        all_digits(decimal(value)),
        digits_value(decimal(value)) == value,
        spelled_integer(signed_decimal(value as int)) == Some(value as int),
        spelled_integer(signed_decimal(-(value as int))) == Some(-(value as int)),
    decreases value,
{
    lemma_decimal_spells(value);
    let digits = decimal(value);
    assert('0' <= digits[0] <= '9');
    let minus = seq!['-'] + digits;
    assert(minus.drop_first() =~= digits);
}

proof fn lemma_decimal_spells(value: nat)
    ensures
        decimal(value).len() > 0,
        all_digits(decimal(value)),
        digits_value(decimal(value)) == value,
    decreases value,
{
    let digits = decimal(value);
    if value < 10 {
        assert(digits.drop_last() =~= Seq::empty());
        reveal_with_fuel(digits_value, 2);
    } else {
        lemma_decimal_spells(value / 10);
        let before = decimal(value / 10);
        assert(digits.drop_last() =~= before);
        assert forall|i: int| 0 <= i < digits.len() implies '0' <= #[trigger] digits[i] <= '9' by {
            if i < before.len() {
                assert(digits[i] == before[i]);
            }
        }
    }
}

/// Small letters stay small, capitals from `A` to `Z` become so, and nothing
/// else changes.
pub proof fn law_lower_changes_capitals_only(text: Seq<char>, i: int)
    requires
        0 <= i < text.len(),
    ensures
        lower(text).len() == text.len(),
        lower(lower(text)) == lower(text),
        'A' <= text[i] <= 'Z' ==> lower(text)[i] as int == text[i] as int + 32,
        !('A' <= text[i] <= 'Z') ==> lower(text)[i] == text[i],
{
    assert(lower(lower(text)) =~= lower(text));
}

/// An aligned text is as wide as was asked for, or as wide as it is where that
/// is more: to the right it ends the line, to the left it begins it.
pub proof fn law_aligned_texts_keep_their_width(text: Seq<char>, width: nat)
    ensures
        text.len() <= width ==> right_aligned(text, width).len() == width,
        text.len() <= width ==> left_aligned(text, width).len() == width,
        text.len() > width ==> right_aligned(text, width) == text && left_aligned(text, width)
            == text,
        right_aligned(text, width).skip(right_aligned(text, width).len() - text.len()) == text,
        left_aligned(text, width).take(text.len() as int) == text,
        forall|i: int|
            0 <= i < right_aligned(text, width).len() - text.len() ==> #[trigger] right_aligned(
                text,
                width,
            )[i] == ' ',
        forall|i: int|
            text.len() <= i < left_aligned(text, width).len() ==> #[trigger] left_aligned(
                text,
                width,
            )[i] == ' ',
{
    assert(right_aligned(text, width).skip(right_aligned(text, width).len() - text.len()) =~= text);
    assert(left_aligned(text, width).take(text.len() as int) =~= text);
}

/// The order of texts is that of their first different character; a text comes
/// before every longer one that begins with it.
pub proof fn law_first_difference_orders(left: Seq<char>, right: Seq<char>, at: int)
    requires
        0 <= at <= left.len(),
        at < right.len(),
        left.take(at) == right.take(at),
        at == left.len() || left[at] != right[at],
    ensures
        precedes(left, right) <==> at == left.len() || left[at] < right[at],
    decreases at,
{
    if at > 0 {
        assert(left[0] == left.take(at)[0] && right[0] == right.take(at)[0]);
        let a = left.drop_first();
        let b = right.drop_first();
        assert(a.take(at - 1) =~= left.take(at).drop_first());
        assert(b.take(at - 1) =~= right.take(at).drop_first());
        law_first_difference_orders(a, b, at - 1);
    }
}

/// A word holds no space and is never empty.
pub proof fn law_words_hold_no_spaces(text: Seq<char>)
    ensures
        forall|i: int|
            0 <= i < words(text).len() ==> (#[trigger] words(text)[i]).len() > 0,
        forall|i: int, k: int|
            0 <= i < words(text).len() && 0 <= k < words(text)[i].len() ==> !whitespace(
                #[trigger] words(text)[i][k],
            ),
    decreases text.len(),
{
    if text.len() > 0 && whitespace(text[0]) {
        law_words_hold_no_spaces(text.drop_first());
        assert(words(text) == words(text.drop_first()));
    } else if text.len() > 0 {
        let n = word_len(text);
        lemma_word_run(text);
        lemma_word_run(text.drop_first());
        assert(n > 0);
        if 0 < n <= text.len() {
            law_words_hold_no_spaces(text.skip(n));
            let found = words(text);
            assert(found == seq![text.take(n)] + words(text.skip(n)));
            assert forall|i: int| 0 <= i < found.len() implies (#[trigger] found[i]).len() > 0 by {
                if i > 0 {
                    assert(found[i] == words(text.skip(n))[i - 1]);
                }
            }
            assert forall|i: int, k: int|
                0 <= i < found.len() && 0 <= k < found[i].len() implies !whitespace(
                #[trigger] found[i][k],
            ) by {
                if i > 0 {
                    assert(found[i] == words(text.skip(n))[i - 1]);
                    assert(!whitespace(words(text.skip(n))[i - 1][k]));
                } else {
                    assert(found[0][k] == text[k]);
                }
            }
        }
    }
}

proof fn lemma_word_run(text: Seq<char>)
    ensures
        0 <= word_len(text) <= text.len(),
        forall|k: int| 0 <= k < word_len(text) ==> !whitespace(#[trigger] text[k]),
    decreases text.len(),
{
    if text.len() > 0 && !whitespace(text[0]) {
        let rest = text.drop_first();
        lemma_word_run(rest);
        assert forall|k: int| 0 <= k < word_len(text) implies !whitespace(#[trigger] text[k]) by {
            if k > 0 {
                assert(rest[k - 1] == text[k]);
            }
        }
    }
}

} // verus!
