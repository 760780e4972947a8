//! Secrets from the environment, the credential stores and shell files.

use vstd::prelude::*;

use crate::credentials::{credential, get, Credentials};
use crate::storage::{digest, hex, hex_text, sha256_digest};
use crate::text::{chars_of, contains, find_char, has_prefix, has_text, lemma_part_contains};
use crate::text::{lemma_trim_part, lines, lines_of, maybe_text, slice_text, starts_with, texts};
use crate::text::{trim, trimmed};

verus! {

/// The text stands between two quotation marks of one sort.
pub open spec fn quoted(text: Seq<char>) -> bool {
    text.len() >= 2 && ((text[0] == '"' && text.last() == '"') || (text[0] == '\'' && text.last()
        == '\''))
}

/// The text without the quotation marks round it.
pub open spec fn unquoted(text: Seq<char>) -> Seq<char> {
    if quoted(text) {
        text.subrange(1, text.len() - 1)
    } else {
        text
    }
}

/// What a secret holds: neither spaces nor quotation marks round it count.
pub open spec fn cleaned_secret(text: Seq<char>) -> Seq<char> {
    trim(unquoted(trim(text)))
}

fn strip_quotes(text: &str) -> (out: String)
    ensures
        out@ == unquoted(text@),
{
    let chars = chars_of(text);
    let total: usize = chars.len();
    if total >= 2 && ((chars[0] == '"' && chars[total - 1] == '"') || (chars[0] == '\''
        && chars[total - 1] == '\'')) {
        slice_text(&chars, 1, total - 1)
    } else {
        text.to_owned()
    }
}

/// The secret in a value, where it holds one.
pub open spec fn secret_in(value: Option<Seq<char>>) -> Option<Seq<char>> {
    match value {
        Some(text) => if cleaned_secret(text).len() == 0 {
            None
        } else {
            Some(cleaned_secret(text))
        },
        None => None,
    }
}

pub fn clean_secret(value: Option<&String>) -> (out: Option<String>)
    ensures
        maybe_text(out) == secret_in(
            match value {
                Some(text) => Some(text@),
                None => None,
            },
        ),
{
    match value {
        Some(text) => {
            let inner = trimmed(text.as_str());
            let open = strip_quotes(inner.as_str());
            let clean = trimmed(open.as_str());
            proof {
                if !quoted(trim(text@)) {
                    crate::text::lemma_trim_idempotent(text@);
                }
            }
            if clean.as_str().is_empty() {
                None
            } else {
                Some(clean)
            }
        },
        None => None,
    }
}

/// A name of a shell variable.
pub open spec fn shell_name(name: Seq<char>) -> bool {
    name.len() > 0 && forall|i: int|
        0 <= i < name.len() ==> name_char(#[trigger] name[i])
}

pub open spec fn name_char(c: char) -> bool {
    ('a' <= c <= 'z') || ('A' <= c <= 'Z') || ('0' <= c <= '9') || c == '_'
}

fn is_shell_name(name: &str) -> (yes: bool)
    ensures
        yes == shell_name(name@),
{
    let chars = chars_of(name);
    if chars.len() == 0 {
        return false;
    }
    let mut i: usize = 0;
    while i < chars.len()
        invariant
            i <= chars@.len(),
            chars@ == name@,
            forall|k: int| 0 <= k < i ==> name_char(#[trigger] name@[k]),
        decreases chars@.len() - i,
    {
        let c = chars[i];
        if !(('a' <= c && c <= 'z') || ('A' <= c && c <= 'Z') || ('0' <= c && c <= '9') || c
            == '_') {
            assert(!name_char(name@[i as int]));
            return false;
        }
        i = i + 1;
    }
    true
}

/// The part of a line that can assign a value.
pub open spec fn assignment(line: Seq<char>) -> Seq<char> {
    if starts_with(trim(line), "export "@) {
        trim(line).skip("export "@.len() as int)
    } else {
        trim(line)
    }
}

/// The value, unquoted and trimmed.
pub open spec fn plain_value(raw: Seq<char>) -> Seq<char> {
    trim(unquoted(trim(raw)))
}

/// The shell would run a command for this value.
pub open spec fn runs_command(value: Seq<char>) -> bool {
    contains(value, "$("@) || value.contains('`')
}

/// The variable and the value that a line of a shell file assigns. A value
/// that the shell would have to run a command for is never read.
pub open spec fn assigned(line: Seq<char>) -> Option<(Seq<char>, Seq<char>)> {
    let text = assignment(line);
    if trim(line).len() == 0 || trim(line)[0] == '#' || !text.contains('=') {
        None
    } else {
        let at = text.index_of_first('=')->0;
        let name = trim(text.take(at));
        let value = text.skip(at + 1);
        if !shell_name(name) || runs_command(trim(value)) || plain_value(value).len() == 0 {
            None
        } else {
            Some((name, plain_value(value)))
        }
    }
}

/// The variables that the lines assign; the last assignment counts.
pub open spec fn assignments(found: Seq<Seq<char>>) -> Map<Seq<char>, Seq<char>>
    decreases found.len(),
{
    if found.len() == 0 {
        Map::empty()
    } else {
        match assigned(found.last()) {
            Some((name, value)) => assignments(found.drop_last()).insert(name, value),
            None => assignments(found.drop_last()),
        }
    }
}

/// The secrets that the text of a shell file assigns.
pub open spec fn shell_secrets(text: Seq<char>) -> Map<Seq<char>, Seq<char>> {
    assignments(lines(text))
}

pub open spec fn pair_texts(pair: Option<(String, String)>) -> Option<(Seq<char>, Seq<char>)> {
    match pair {
        Some((name, value)) => Some((name@, value@)),
        None => None,
    }
}

fn has_char(text: &str, wanted: char) -> (yes: bool)
    ensures
        yes == text@.contains(wanted),
{
    let chars = chars_of(text);
    let at = find_char(&chars, wanted, 0);
    match at {
        Some(i) => {
            assert(text@[i as int] == wanted);
            true
        },
        None => false,
    }
}

/// The first place of a character.
pub(crate) fn first_char(chars: &[char], wanted: char) -> (at: Option<usize>)
    ensures
        match at {
            Some(i) => i < chars@.len() && chars@.contains(wanted) && chars@.index_of_first(wanted)
                == Some(i as int),
            None => !chars@.contains(wanted),
        },
{
    let at = find_char(chars, wanted, 0);
    proof {
        match at {
            Some(i) => {
                assert(chars@[i as int] == wanted);
                chars@.index_of_first_ensures(wanted);
                let first = chars@.index_of_first(wanted)->0;
                if first < i {
                    assert(chars@[first] != wanted);
                }
                if i < first {
                    assert(chars@[i as int] != wanted);
                }
            },
            None => {},
        }
    }
    at
}

fn read_assignment(line: &str) -> (out: Option<(String, String)>)
    ensures
        pair_texts(out) == assigned(line@),
{
    let whole = trimmed(line);
    let whole_chars = chars_of(whole.as_str());
    if whole_chars.len() == 0 || whole_chars[0] == '#' {
        return None;
    }
    let prefix = chars_of("export ");
    let text = if has_prefix(whole.as_str(), "export ") {
        let total: usize = whole_chars.len();
        let out = slice_text(&whole_chars, prefix.len(), total);
        assert(out@ =~= assignment(line@));
        out
    } else {
        whole
    };
    let chars = chars_of(text.as_str());
    match first_char(&chars, '=') {
        None => None,
        Some(at) => {
            let total: usize = chars.len();
            let left = slice_text(&chars, 0, at);
            let right = slice_text(&chars, at + 1, total);
            assert(left@ =~= text@.take(at as int));
            assert(right@ =~= text@.skip(at + 1));
            let name = trimmed(left.as_str());
            let value = trimmed(right.as_str());
            if !is_shell_name(name.as_str()) || has_text(value.as_str(), "$(") || has_char(
                value.as_str(),
                '`',
            ) {
                return None;
            }
            let open = strip_quotes(value.as_str());
            let plain = trimmed(open.as_str());
            if plain.as_str().is_empty() {
                None
            } else {
                Some((name, plain))
            }
        },
    }
}

/// Reads the assignments of a shell file and runs nothing.
pub fn parse_shell_secrets(text: &str) -> (out: Credentials)
    ensures
        out.well_formed(),
        out@ == shell_secrets(text@),
{
    let found = lines_of(text);
    let mut out = Credentials::new();
    let mut i: usize = 0;
    let ghost all = texts(found@);
    while i < found.len()
        invariant
            i <= found@.len(),
            all == texts(found@),
            out.well_formed(),
            out@ == assignments(all.take(i as int)),
        decreases found@.len() - i,
    {
        proof {
            assert(all.take(i + 1).drop_last() =~= all.take(i as int));
            assert(all.take(i + 1).last() == found@[i as int]@);
        }
        match read_assignment(found[i].as_str()) {
            Some((name, value)) => {
                out.insert(name.as_str(), value.as_str());
            },
            None => {},
        }
        i = i + 1;
    }
    assert(all.take(i as int) =~= all);
    out
}

proof fn lemma_plain_value_part(raw: Seq<char>)
    ensures
        runs_command(plain_value(raw)) ==> runs_command(trim(raw)),
{
    let whole = trim(raw);
    let inner = unquoted(whole);
    let (from, to) = lemma_trim_part(inner);
    let shift: int = if quoted(whole) {
        1
    } else {
        0
    };
    assert(plain_value(raw) =~= whole.subrange(shift + from, shift + to));
    let part = whole.subrange(shift + from, shift + to);
    if contains(part, "$("@) {
        lemma_part_contains(whole, shift + from, shift + to, "$("@);
    }
    if part.contains('`') {
        let at = choose|at: int| 0 <= at < part.len() && part[at] == '`';
        assert(whole[shift + from + at] == '`');
    }
}

proof fn lemma_assignments_run_nothing(found: Seq<Seq<char>>, name: Seq<char>)
    requires
        assignments(found).dom().contains(name),
    ensures
        shell_name(name),
        assignments(found)[name].len() > 0,
        !runs_command(assignments(found)[name]),
    decreases found.len(),
{
    let rest = found.drop_last();
    match assigned(found.last()) {
        Some((last, value)) => {
            if last == name {
                let text = assignment(found.last());
                let at = text.index_of_first('=')->0;
                lemma_plain_value_part(text.skip(at + 1));
            } else {
                lemma_assignments_run_nothing(rest, name);
            }
        },
        None => {
            lemma_assignments_run_nothing(rest, name);
        },
    }
}

/// No value read from a shell file holds a command to be run, and none is
/// empty.
pub proof fn law_shell_secrets_run_nothing(text: Seq<char>, name: Seq<char>)
    requires
        shell_secrets(text).dom().contains(name),
    ensures
        shell_name(name),
        shell_secrets(text)[name].len() > 0,
        !runs_command(shell_secrets(text)[name]),
{
    lemma_assignments_run_nothing(lines(text), name);
}

/// The first of the shell files that assigns anything.
pub open spec fn first_filled(files: Seq<Option<Seq<char>>>) -> Map<Seq<char>, Seq<char>>
    decreases files.len(),
{
    if files.len() == 0 {
        Map::empty()
    } else {
        match files[0] {
            Some(text) => if assigns_any(lines(text)) {
                shell_secrets(text)
            } else {
                first_filled(files.drop_first())
            },
            None => first_filled(files.drop_first()),
        }
    }
}

/// Some line assigns a value.
pub open spec fn assigns_any(found: Seq<Seq<char>>) -> bool {
    exists|i: int| 0 <= i < found.len() && assigned(#[trigger] found[i]) is Some
}

proof fn lemma_assigns_any(found: Seq<Seq<char>>)
    ensures
        assigns_any(found) <==> exists|name: Seq<char>| #[trigger]
            assignments(found).dom().contains(name),
    decreases found.len(),
{
    if found.len() == 0 {
        assert(assignments(found) == Map::<Seq<char>, Seq<char>>::empty());
    } else {
        let rest = found.drop_last();
        lemma_assigns_any(rest);
        match assigned(found.last()) {
            Some((name, value)) => {
                assert(assignments(found).dom().contains(name));
                assert(assigned(found[found.len() - 1]) is Some);
            },
            None => {
                assert(assignments(found) == assignments(rest));
                if assigns_any(found) {
                    let i = choose|i: int|
                        0 <= i < found.len() && assigned(#[trigger] found[i]) is Some;
                    assert(i < found.len() - 1);
                    assert(assigned(rest[i]) is Some);
                }
                if assigns_any(rest) {
                    let i = choose|i: int|
                        0 <= i < rest.len() && assigned(#[trigger] rest[i]) is Some;
                    assert(assigned(found[i]) is Some);
                }
            },
        }
    }
}

pub open spec fn maybe_texts(files: Seq<Option<String>>) -> Seq<Option<Seq<char>>> {
    files.map_values(|file: Option<String>| maybe_text(file))
}

/// Reads the shell files in turn until one assigns something.
pub fn first_shell_secrets(files: &Vec<Option<String>>) -> (out: Credentials)
    ensures
        out.well_formed(),
        out@ == first_filled(maybe_texts(files@)),
{
    let ghost all = maybe_texts(files@);
    assert(all.skip(0) =~= all);
    let mut i: usize = 0;
    while i < files.len()
        invariant
            i <= files@.len(),
            all == maybe_texts(files@),
            first_filled(all.skip(i as int)) == first_filled(all),
        decreases files@.len() - i,
    {
        proof {
            assert(all.skip(i as int)[0] == maybe_text(files@[i as int]));
            assert(all.skip(i as int).drop_first() =~= all.skip(i + 1));
        }
        match &files[i] {
            Some(text) => {
                let out = parse_shell_secrets(text.as_str());
                proof {
                    lemma_assigns_any(lines(text@));
                }
                if out.entries.len() > 0 {
                    proof {
                        assert(out.holds(out.entries@[0].0@));
                        assert(out@.dom().contains(out.entries@[0].0@));
                    }
                    return out;
                }
                assert(out@ =~= Map::empty());
            },
            None => {},
        }
        i = i + 1;
    }
    assert(all.skip(i as int) =~= Seq::empty());
    let out = Credentials::new();
    out
}

/// Where secrets are looked up.
#[derive(Debug)]
pub struct Secrets {
    /// The variables of the environment.
    pub environment: Credentials,
    /// The monitor's own credentials.
    pub own: Credentials,
    /// The desktop app's credentials.
    pub desktop: Credentials,
    /// The assignments of a shell file.
    pub shell: Credentials,
}

pub open spec fn named(values: Map<Seq<char>, Seq<char>>, name: Seq<char>) -> Option<Seq<char>> {
    if values.dom().contains(name) {
        Some(values[name])
    } else {
        None
    }
}

/// The first secret that a place holds under one of the names.
pub open spec fn first_secret(
    place: spec_fn(Seq<char>) -> Option<Seq<char>>,
    names: Seq<Seq<char>>,
) -> Option<Seq<char>>
    decreases names.len(),
{
    if names.len() == 0 {
        None
    } else {
        match place(names[0]) {
            Some(secret) => Some(secret),
            None => first_secret(place, names.drop_first()),
        }
    }
}

pub open spec fn str_views(names: Seq<&'static str>) -> Seq<Seq<char>> {
    names.map_values(|name: &'static str| name@)
}

impl Secrets {
    pub open spec fn well_formed(self) -> bool {
        &&& self.environment.well_formed()
        &&& self.own.well_formed()
        &&& self.desktop.well_formed()
        &&& self.shell.well_formed()
    }

    pub open spec fn in_environment(self) -> spec_fn(Seq<char>) -> Option<Seq<char>> {
        |name: Seq<char>| secret_in(named(self.environment@, name))
    }

    pub open spec fn in_stores(self) -> spec_fn(Seq<char>) -> Option<Seq<char>> {
        |name: Seq<char>| credential(self.own@, self.desktop@, name)
    }

    pub open spec fn in_shell(self) -> spec_fn(Seq<char>) -> Option<Seq<char>> {
        |name: Seq<char>| secret_in(named(self.shell@, name))
    }

    /// The environment counts before the credential stores, and these before
    /// the shell file. In each place the first name that holds a secret counts.
    pub open spec fn found(self, names: Seq<Seq<char>>) -> Option<Seq<char>> {
        match first_secret(self.in_environment(), names) {
            Some(secret) => Some(secret),
            None => match first_secret(self.in_stores(), names) {
                Some(secret) => Some(secret),
                None => first_secret(self.in_shell(), names),
            },
        }
    }

    fn environment_secret(&self, name: &str) -> (out: Option<String>)
        requires
            self.well_formed(),
        ensures
            maybe_text(out) == self.in_environment()(name@),
    {
        match self.environment.lookup(name) {
            Some(value) => clean_secret(Some(&value)),
            None => None,
        }
    }

    fn shell_secret(&self, name: &str) -> (out: Option<String>)
        requires
            self.well_formed(),
        ensures
            maybe_text(out) == self.in_shell()(name@),
    {
        match self.shell.lookup(name) {
            Some(value) => clean_secret(Some(&value)),
            None => None,
        }
    }

    pub fn env_secret(&self, names: &Vec<&'static str>) -> (out: Option<String>)
        requires
            self.well_formed(),
        ensures
            maybe_text(out) == self.found(str_views(names@)),
    {
        let ghost all = str_views(names@);
        assert(all.skip(0) =~= all);
        let mut i: usize = 0;
        while i < names.len()
            invariant
                i <= names@.len(),
                self.well_formed(),
                all == str_views(names@),
                first_secret(self.in_environment(), all.skip(i as int)) == first_secret(
                    self.in_environment(),
                    all,
                ),
            decreases names@.len() - i,
        {
            proof {
                assert(all.skip(i as int)[0] == names@[i as int]@);
                assert(all.skip(i as int).drop_first() =~= all.skip(i + 1));
            }
            let secret = self.environment_secret(names[i]);
            if secret.is_some() {
                return secret;
            }
            i = i + 1;
        }
        assert(all.skip(i as int) =~= Seq::empty());
        let mut i: usize = 0;
        while i < names.len()
            invariant
                i <= names@.len(),
                self.well_formed(),
                all == str_views(names@),
                first_secret(self.in_environment(), all) is None,
                first_secret(self.in_stores(), all.skip(i as int)) == first_secret(
                    self.in_stores(),
                    all,
                ),
            decreases names@.len() - i,
        {
            proof {
                assert(all.skip(i as int)[0] == names@[i as int]@);
                assert(all.skip(i as int).drop_first() =~= all.skip(i + 1));
            }
            let secret = get(&self.own, &self.desktop, names[i]);
            if secret.is_some() {
                return secret;
            }
            i = i + 1;
        }
        assert(all.skip(i as int) =~= Seq::empty());
        let mut i: usize = 0;
        while i < names.len()
            invariant
                i <= names@.len(),
                self.well_formed(),
                all == str_views(names@),
                first_secret(self.in_environment(), all) is None,
                first_secret(self.in_stores(), all) is None,
                first_secret(self.in_shell(), all.skip(i as int)) == first_secret(
                    self.in_shell(),
                    all,
                ),
            decreases names@.len() - i,
        {
            proof {
                assert(all.skip(i as int)[0] == names@[i as int]@);
                assert(all.skip(i as int).drop_first() =~= all.skip(i + 1));
            }
            let secret = self.shell_secret(names[i]);
            if secret.is_some() {
                return secret;
            }
            i = i + 1;
        }
        assert(all.skip(i as int) =~= Seq::empty());
        None
    }
}

/// The environment counts before what is stored or written in a shell file.
pub proof fn law_environment_counts_first(secrets: Secrets, name: Seq<char>)
    requires
        secret_in(named(secrets.environment@, name)) is Some,
    ensures
        secrets.found(seq![name]) == secret_in(named(secrets.environment@, name)),
{
    assert(seq![name][0] == name);
    assert(secrets.in_environment()(name) == secret_in(named(secrets.environment@, name)));
}

/// What an account is known by: a prefix and the first half dozen pairs of
/// bytes of the secret's digest. The secret itself does not show.
pub open spec fn key_of(prefix: Seq<char>, secret: Seq<char>) -> Seq<char> {
    prefix + ":"@ + hex(sha256_digest(vstd::utf8::encode_utf8(secret)).take(12))
}

pub fn account_key(prefix: &str, secret: &str) -> (out: String)
    ensures
        out@ == key_of(prefix@, secret@),
{
    let whole = digest(secret.as_bytes());
    let mut short: Vec<u8> = Vec::new();
    let mut i: usize = 0;
    while i < 12
        invariant
            i <= 12,
            whole@.len() == 32,
            short@ == whole@.take(i as int),
        decreases 12 - i,
    {
        short.push(whole[i]);
        i = i + 1;
    }
    let mut out = prefix.to_owned();
    out.append(":");
    out.append(hex_text(short.as_slice()).as_str());
    out
}

/// A line that assigns a plain value to a name gives that name and that value,
/// with or without the word that exports it.
pub proof fn law_plain_assignments_are_read(line: Seq<char>, at: int)
    requires
        trim(line).len() > 0,
        trim(line)[0] != '#',
        0 <= at < assignment(line).len(),
        assignment(line)[at] == '=',
        forall|k: int| 0 <= k < at ==> #[trigger] assignment(line)[k] != '=',
    ensures
        ({
            let name = trim(assignment(line).take(at));
            let raw = trim(assignment(line).skip(at + 1));
            let plain = name.len() > 0 && (forall|i: int|
                0 <= i < name.len() ==> ('a' <= #[trigger] name[i] <= 'z') || ('A' <= name[i]
                    <= 'Z') || ('0' <= name[i] <= '9') || name[i] == '_') && !contains(raw, "$("@)
                && !raw.contains('`') && trim(unquoted(raw)).len() > 0;
            &&& plain ==> assigned(line) == Some((name, trim(unquoted(raw))))
            &&& !plain ==> assigned(line) is None
        }),
{
    let text = assignment(line);
    assert(text.contains('=')) by {
        assert(text[at] == '=');
    }
    text.index_of_first_ensures('=');
    let name = trim(text.take(at));
    assert(shell_name(name) <==> name.len() > 0 && (forall|i: int|
        0 <= i < name.len() ==> ('a' <= #[trigger] name[i] <= 'z') || ('A' <= name[i] <= 'Z') || (
        '0' <= name[i] <= '9') || name[i] == '_')) by {
        if shell_name(name) {
            assert forall|i: int| 0 <= i < name.len() implies ('a' <= #[trigger] name[i] <= 'z')
                || ('A' <= name[i] <= 'Z') || ('0' <= name[i] <= '9') || name[i] == '_' by {
                assert(name_char(name[i]));
            }
        }
    }
}

/// A comment, an empty line and a line without an equals sign assign nothing.
pub proof fn law_comments_assign_nothing(line: Seq<char>)
    ensures
        trim(line).len() == 0 ==> assigned(line) is None,
        trim(line).len() > 0 && trim(line)[0] == '#' ==> assigned(line) is None,
        !assignment(line).contains('=') ==> assigned(line) is None,
{
}

/// A pair of the same quotes around a value is taken off, once.
pub proof fn law_quotes_are_taken_off(value: Seq<char>)
    ensures
        unquoted(seq!['"'] + value + seq!['"']) == value,
        unquoted(seq!['\''] + value + seq!['\'']) == value,
        value.len() > 0 && value[0] != '"' && value[0] != '\'' ==> unquoted(value) == value,
        value.len() > 0 && value[0] != value.last() ==> unquoted(value) == value,
{
    let double = seq!['"'] + value + seq!['"'];
    let single = seq!['\''] + value + seq!['\''];
    assert(double.subrange(1, double.len() - 1) =~= value);
    assert(single.subrange(1, single.len() - 1) =~= value);
}

/// Of two assignments to one name the later one counts, and an assignment
/// leaves the other names as they were.
pub proof fn law_later_assignments_count(found: Seq<Seq<char>>, line: Seq<char>, other: Seq<char>)
    ensures
        assigned(line) is None ==> assignments(found.push(line)) == assignments(found),
        assigned(line) matches Some((name, value)) ==> {
            &&& assignments(found.push(line)).dom().contains(name)
            &&& assignments(found.push(line))[name] == value
            &&& other != name ==> named(assignments(found.push(line)), other) == named(
                assignments(found),
                other,
            )
        },
{
    assert(found.push(line).drop_last() =~= found);
}

/// Of several names the first that a place has a secret for counts.
pub proof fn law_first_name_counts(
    place: spec_fn(Seq<char>) -> Option<Seq<char>>,
    names: Seq<Seq<char>>,
    i: int,
)
    requires
        0 <= i < names.len(),
        place(names[i]) is Some,
        forall|k: int| 0 <= k < i ==> place(#[trigger] names[k]) is None,
    ensures
        first_secret(place, names) == place(names[i]),
    decreases i,
{
    if i > 0 {
        let rest = names.drop_first();
        assert(place(names[0]) is None);
        assert forall|k: int| 0 <= k < i - 1 implies place(#[trigger] rest[k]) is None by {
            assert(rest[k] == names[k + 1]);
        }
        law_first_name_counts(place, rest, i - 1);
    }
}

/// What the environment lacks is looked for in the stores, and what these lack
/// in the shell's files.
pub proof fn law_stores_count_before_the_shell(secrets: Secrets, names: Seq<Seq<char>>)
    ensures
        first_secret(secrets.in_environment(), names) is None && first_secret(
            secrets.in_stores(),
            names,
        ) is Some ==> secrets.found(names) == first_secret(secrets.in_stores(), names),
        first_secret(secrets.in_environment(), names) is None && first_secret(
            secrets.in_stores(),
            names,
        ) is None ==> secrets.found(names) == first_secret(secrets.in_shell(), names),
{
}

} // verus!
