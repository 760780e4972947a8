//! Antigravity: local language servers and their quota groups.

use vstd::prelude::*;

use crate::collectors::{answered, answered_row, draft_views, missing, missing_row, reset_moment};
use crate::collectors::{reset_timestamp, unavailable, unavailable_for, Badge, DraftView, Row};
use crate::collectors::{RowView, WindowDraft};
use crate::formula::{constant, given, Formula, Power};
use crate::json::{at_either, at_key, bool_in, get_either, get_in, items_in, list_in, measured_in};
use crate::json::{number_in, said_or, text_or, truth_in, Json};
use crate::limits::WindowKind;
use crate::quantity::{HUNDRED, Quantity};
use crate::secrets::{account_key, key_of};
use crate::sort::{lemma_sorted_map, sort_by, sorted};
use crate::text::{chars_of, contains, ends_with, find_from, find_in, has_prefix, has_suffix};
use crate::text::{has_text, is_whitespace, lemma_find_from, lines, lines_of, lower, maybe_text};
use crate::text::{parse_i64, same, slice_text, spelled_i64, split, split_text, starts_with, texts};
use crate::text::{to_lower, trim, trimmed, whitespace, words, words_of};

verus! {

pub open spec fn antigravity_badge() -> Badge {
    Badge { provider_id: "antigravity", source: "rpc", hue: 141 }
}

/// The last part of a path that names something.
pub open spec fn last_name(parts: Seq<Seq<char>>) -> Option<Seq<char>>
    decreases parts.len(),
{
    if parts.len() == 0 {
        None
    } else if parts.last().len() == 0 || parts.last() == "."@ {
        last_name(parts.drop_last())
    } else {
        Some(parts.last())
    }
}

/// The file that a path names; the path itself where it names none.
pub open spec fn file_name(path: Seq<char>) -> Seq<char> {
    match last_name(split(path, '/')) {
        Some(name) => if name == ".."@ {
            path
        } else {
            name
        },
        None => path,
    }
}

pub(crate) fn find_last_name(path: &str) -> (out: Option<String>)
    ensures
        maybe_text(out) == last_name(split(path@, '/')),
{
    let parts = split_text(path, '/');
    let ghost all = texts(parts@);
    let mut i: usize = parts.len();
    assert(all.take(i as int) =~= all);
    while i > 0
        invariant
            i <= parts@.len(),
            all == texts(parts@),
            all == split(path@, '/'),
            last_name(all.take(i as int)) == last_name(all),
        decreases i,
    {
        proof {
            assert(all.take(i as int).last() == parts@[i - 1]@);
            assert(all.take(i as int).drop_last() =~= all.take(i - 1));
        }
        let part = parts[i - 1].as_str();
        if !part.is_empty() && !same(part, ".") {
            return Some(part.to_owned());
        }
        i = i - 1;
    }
    assert(all.take(0) =~= Seq::empty());
    None
}

fn find_file_name(path: &str) -> (out: String)
    ensures
        out@ == file_name(path@),
{
    match find_last_name(path) {
        Some(name) => if same(name.as_str(), "..") {
            path.to_owned()
        } else {
            name
        },
        None => path.to_owned(),
    }
}

/// The text without an ending.
pub open spec fn without_ending(text: Seq<char>, ending: Seq<char>) -> Seq<char> {
    if ends_with(text, ending) {
        text.take(text.len() - ending.len())
    } else {
        text
    }
}

fn drop_ending(text: &str, ending: &str) -> (out: String)
    ensures
        out@ == without_ending(text@, ending@),
{
    if has_suffix(text, ending) {
        let chars = chars_of(text);
        let cut = chars_of(ending);
        let total: usize = chars.len();
        let out = slice_text(&chars, 0, total - cut.len());
        assert(out@ =~= without_ending(text@, ending@));
        out
    } else {
        text.to_owned()
    }
}

/// The text without the quotation marks at its start.
pub open spec fn unquoted_start(text: Seq<char>) -> Seq<char>
    decreases text.len(),
{
    if text.len() > 0 && text[0] == '"' {
        unquoted_start(text.drop_first())
    } else {
        text
    }
}

/// The text without the quotation marks at its end.
pub open spec fn unquoted_end(text: Seq<char>) -> Seq<char>
    decreases text.len(),
{
    if text.len() > 0 && text.last() == '"' {
        unquoted_end(text.drop_last())
    } else {
        text
    }
}

fn strip_marks(text: &str) -> (out: String)
    ensures
        out@ == unquoted_end(unquoted_start(text@)),
{
    let chars = chars_of(text);
    let total: usize = chars.len();
    let mut from: usize = 0;
    assert(text@.skip(0) =~= text@);
    while from < total && chars[from] == '"'
        invariant
            total == chars@.len(),
            chars@ == text@,
            from <= total,
            unquoted_start(text@.skip(from as int)) == unquoted_start(text@),
        decreases total - from,
    {
        assert(text@.skip(from as int).drop_first() =~= text@.skip(from + 1));
        from = from + 1;
    }
    assert(unquoted_start(text@) == text@.skip(from as int));
    let ghost rest = text@.skip(from as int);
    let mut to: usize = total;
    assert(text@.subrange(from as int, to as int) =~= rest);
    while to > from && chars[to - 1] == '"'
        invariant
            total == chars@.len(),
            chars@ == text@,
            from <= to <= total,
            rest == text@.skip(from as int),
            unquoted_end(text@.subrange(from as int, to as int)) == unquoted_end(rest),
        decreases to,
    {
        assert(text@.subrange(from as int, to as int).drop_last() =~= text@.subrange(
            from as int,
            to - 1,
        ));
        assert(text@.subrange(from as int, to as int).last() == '"');
        to = to - 1;
    }
    assert(unquoted_end(rest) == text@.subrange(from as int, to as int));
    slice_text(&chars, from, to)
}

/// What stands between the first place of a text and the next.
pub open spec fn between(command: Seq<char>, needle: Seq<char>) -> Option<Seq<char>> {
    match find_from(command, needle, 0) {
        Some(at) => {
            let rest = command.skip(at + needle.len());
            match find_from(rest, needle, 0) {
                Some(end) => Some(rest.take(end)),
                None => Some(rest),
            }
        },
        None => None,
    }
}

/// The first word of a text.
pub open spec fn first_word(text: Seq<char>) -> Option<Seq<char>> {
    if words(text).len() == 0 {
        None
    } else {
        Some(words(text)[0])
    }
}

/// The word after the first word that is the flag.
pub open spec fn word_after(parts: Seq<Seq<char>>, flag: Seq<char>) -> Option<Seq<char>>
    decreases parts.len(),
{
    if parts.len() == 0 {
        None
    } else if parts[0] == flag {
        if parts.len() > 1 {
            Some(parts[1])
        } else {
            None
        }
    } else {
        word_after(parts.drop_first(), flag)
    }
}

/// The value of a flag, given behind an equals sign or as the next word.
pub open spec fn flag_value(command: Seq<char>, flag: Seq<char>) -> Option<Seq<char>> {
    let joined = match between(command, flag + "="@) {
        Some(piece) => first_word(piece),
        None => None,
    };
    let found = match joined {
        Some(word) => Some(word),
        None => word_after(words(command), flag),
    };
    match found {
        Some(word) => Some(unquoted_end(unquoted_start(word))),
        None => None,
    }
}

fn find_between(command: &str, needle: &str) -> (out: Option<String>)
    ensures
        maybe_text(out) == between(command@, needle@),
{
    let chars = chars_of(command);
    let wanted = chars_of(needle);
    let total: usize = chars.len();
    proof {
        lemma_find_from(command@, needle@, 0);
    }
    match find_in(&chars, &wanted, 0) {
        Some(at) => {
            let start: usize = at + wanted.len();
            let rest = slice_text(&chars, start, total);
            assert(rest@ =~= command@.skip(at + needle@.len()));
            let rest_chars = chars_of(rest.as_str());
            proof {
                lemma_find_from(rest@, needle@, 0);
            }
            match find_in(&rest_chars, &wanted, 0) {
                Some(end) => {
                    let out = slice_text(&rest_chars, 0, end);
                    assert(out@ =~= rest@.take(end as int));
                    Some(out)
                },
                None => Some(rest),
            }
        },
        None => None,
    }
}

fn find_word_after(parts: &Vec<String>, flag: &str) -> (out: Option<String>)
    ensures
        maybe_text(out) == word_after(texts(parts@), flag@),
{
    let ghost all = texts(parts@);
    let total: usize = parts.len();
    let mut i: usize = 0;
    assert(all.skip(0) =~= all);
    while i < total
        invariant
            total == parts@.len(),
            i <= total,
            all == texts(parts@),
            word_after(all.skip(i as int), flag@) == word_after(all, flag@),
        decreases total - i,
    {
        proof {
            assert(all.skip(i as int)[0] == parts@[i as int]@);
            assert(all.skip(i as int).drop_first() =~= all.skip(i + 1));
            if i + 1 < total {
                assert(all.skip(i as int)[1] == parts@[i + 1]@);
            }
        }
        if same(parts[i].as_str(), flag) {
            return if i + 1 < total {
                Some(parts[i + 1].clone())
            } else {
                None
            };
        }
        i = i + 1;
    }
    assert(all.skip(i as int) =~= Seq::empty());
    None
}

pub fn extract_flag(command: &str, flag: &str) -> (out: Option<String>)
    ensures
        maybe_text(out) == flag_value(command@, flag@),
{
    let mut needle = flag.to_owned();
    needle.append("=");
    let joined = match find_between(command, needle.as_str()) {
        Some(piece) => {
            let parts = words_of(piece.as_str());
            if parts.len() > 0 {
                assert(texts(parts@)[0] == parts@[0]@);
                Some(parts[0].clone())
            } else {
                None
            }
        },
        None => None,
    };
    let found = match joined {
        Some(word) => Some(word),
        None => find_word_after(&words_of(command), flag),
    };
    match found {
        Some(word) => Some(strip_marks(word.as_str())),
        None => None,
    }
}

/// The name of the program that a command runs, in lower case.
pub open spec fn program(command: Seq<char>) -> Seq<char> {
    let path = match first_word(lower(command)) {
        Some(word) => word,
        None => ""@,
    };
    without_ending(file_name(path), ".exe"@)
}

/// A command line of a language server. The command-line tool may do without
/// a token; the desktop server has to have one.
pub open spec fn server_token(command: Seq<char>) -> Option<Option<Seq<char>>> {
    let name = program(command);
    let small = lower(command);
    let token = flag_value(command, "--csrf_token"@);
    if name == "agy"@ || name == "antigravity-cli"@ || name == "antigravity_cli"@ {
        Some(token)
    } else if (contains(small, "antigravity"@) || contains(small, "language_server"@) || contains(
        small,
        "language-server"@,
    )) && (contains(small, "language"@) || contains(small, "--csrf_token"@) || contains(
        small,
        "app_data_dir"@,
    )) && token is Some {
        Some(token)
    } else {
        None
    }
}

pub open spec fn token_view(token: Option<Option<String>>) -> Option<Option<Seq<char>>> {
    match token {
        Some(token) => Some(maybe_text(token)),
        None => None,
    }
}

pub fn is_antigravity_command(command: &str) -> (out: Option<Option<String>>)
    ensures
        token_view(out) == server_token(command@),
{
    let small = to_lower(command);
    let parts = words_of(small.as_str());
    let path = if parts.len() > 0 {
        assert(texts(parts@)[0] == parts@[0]@);
        parts[0].clone()
    } else {
        "".to_owned()
    };
    let name = find_file_name(path.as_str());
    let stem = drop_ending(name.as_str(), ".exe");
    let token = extract_flag(command, "--csrf_token");
    if same(stem.as_str(), "agy") || same(stem.as_str(), "antigravity-cli") || same(
        stem.as_str(),
        "antigravity_cli",
    ) {
        return Some(token);
    }
    let small = small.as_str();
    if (has_text(small, "antigravity") || has_text(small, "language_server") || has_text(
        small,
        "language-server",
    )) && (has_text(small, "language") || has_text(small, "--csrf_token") || has_text(
        small,
        "app_data_dir",
    )) && token.is_some() {
        return Some(token);
    }
    None
}

/// A running language server.
#[derive(Debug)]
pub struct AntigravityServer {
    pub pid: i64,
    pub csrf_token: String,
}

pub struct ServerView {
    pub pid: i64,
    pub csrf_token: Seq<char>,
}

impl View for AntigravityServer {
    type V = ServerView;

    open spec fn view(&self) -> ServerView {
        ServerView { pid: self.pid, csrf_token: self.csrf_token@ }
    }
}

pub open spec fn server_views(servers: Seq<AntigravityServer>) -> Seq<ServerView> {
    servers.map_values(|server: AntigravityServer| server@)
}

/// The place of the first white space.
pub open spec fn first_space(text: Seq<char>) -> Option<int>
    decreases text.len(),
{
    if text.len() == 0 {
        None
    } else if whitespace(text[0]) {
        Some(0)
    } else {
        match first_space(text.drop_first()) {
            Some(i) => Some(i + 1),
            None => None,
        }
    }
}

fn find_space(chars: &[char]) -> (out: Option<usize>)
    ensures
        match out {
            Some(i) => i < chars@.len() && first_space(chars@) == Some(i as int),
            None => first_space(chars@) is None,
        },
{
    let total: usize = chars.len();
    let mut i: usize = 0;
    assert(chars@.skip(0) =~= chars@);
    while i < total
        invariant
            total == chars@.len(),
            i <= total,
            match first_space(chars@.skip(i as int)) {
                Some(k) => first_space(chars@) == Some(i + k),
                None => first_space(chars@) is None,
            },
        decreases total - i,
    {
        proof {
            assert(chars@.skip(i as int)[0] == chars@[i as int]);
            assert(chars@.skip(i as int).drop_first() =~= chars@.skip(i + 1));
        }
        if is_whitespace(chars[i]) {
            return Some(i);
        }
        i = i + 1;
    }
    assert(chars@.skip(i as int) =~= Seq::empty());
    None
}

/// The server that a line of the process list shows.
pub open spec fn server_in(line: Seq<char>) -> Option<ServerView> {
    let text = trim(line);
    match first_space(text) {
        None => None,
        Some(at) => match spelled_i64(trim(text.take(at))) {
            None => None,
            Some(pid) => match server_token(text.skip(at + 1)) {
                None => None,
                Some(token) => Some(
                    ServerView {
                        pid,
                        csrf_token: match token {
                            Some(token) => token,
                            None => ""@,
                        },
                    },
                ),
            },
        },
    }
}

fn read_server(line: &str) -> (out: Option<AntigravityServer>)
    ensures
        match out {
            Some(server) => server_in(line@) == Some(server@),
            None => server_in(line@) is None,
        },
{
    let text = trimmed(line);
    let chars = chars_of(text.as_str());
    let total: usize = chars.len();
    match find_space(&chars) {
        None => None,
        Some(at) => {
            let left = slice_text(&chars, 0, at);
            let command = slice_text(&chars, at + 1, total);
            assert(left@ =~= text@.take(at as int));
            assert(command@ =~= text@.skip(at + 1));
            match parse_i64(trimmed(left.as_str()).as_str()) {
                None => None,
                Some(pid) => match is_antigravity_command(command.as_str()) {
                    None => None,
                    Some(token) => {
                        let csrf_token = match token {
                            Some(token) => token,
                            None => "".to_owned(),
                        };
                        Some(AntigravityServer { pid, csrf_token })
                    },
                },
            }
        },
    }
}

pub open spec fn servers_in(found: Seq<Seq<char>>) -> Seq<ServerView>
    decreases found.len(),
{
    if found.len() == 0 {
        Seq::empty()
    } else {
        match server_in(found.last()) {
            Some(server) => servers_in(found.drop_last()).push(server),
            None => servers_in(found.drop_last()),
        }
    }
}

pub open spec fn lower_pid() -> spec_fn(ServerView, ServerView) -> bool {
    |left: ServerView, right: ServerView| left.pid < right.pid
}

/// The first of several neighbours with one process number.
pub open spec fn one_per_pid(servers: Seq<ServerView>) -> Seq<ServerView>
    decreases servers.len(),
{
    if servers.len() == 0 {
        Seq::empty()
    } else {
        let before = one_per_pid(servers.drop_last());
        if before.len() > 0 && before.last().pid == servers.last().pid {
            before
        } else {
            before.push(servers.last())
        }
    }
}

/// The servers of a process list by process number, each number once.
pub open spec fn servers_of(ps_output: Seq<char>) -> Seq<ServerView> {
    one_per_pid(sorted(servers_in(lines(ps_output)), lower_pid()))
}

fn keep_one_per_pid(servers: Vec<AntigravityServer>) -> (out: Vec<AntigravityServer>)
    ensures
        server_views(out@) == one_per_pid(server_views(servers@)),
{
    let ghost all = server_views(servers@);
    let mut out: Vec<AntigravityServer> = Vec::new();
    let mut i: usize = 0;
    assert(server_views(out@) =~= Seq::empty());
    while i < servers.len()
        invariant
            i <= servers@.len(),
            all == server_views(servers@),
            server_views(out@) == one_per_pid(all.take(i as int)),
        decreases servers@.len() - i,
    {
        proof {
            assert(all.take(i + 1).drop_last() =~= all.take(i as int));
            assert(all.take(i + 1).last() == servers@[i as int]@);
        }
        let ghost earlier = out@;
        let repeated = out.len() > 0 && {
            assert(server_views(out@).last() == out@.last()@);
            out[out.len() - 1].pid == servers[i].pid
        };
        if !repeated {
            let server = AntigravityServer {
                pid: servers[i].pid,
                csrf_token: servers[i].csrf_token.clone(),
            };
            let ghost view = server@;
            out.push(server);
            assert(server_views(out@) =~= server_views(earlier).push(view));
        }
        i = i + 1;
    }
    assert(all.take(i as int) =~= all);
    out
}

pub fn antigravity_servers(ps_output: &str) -> (out: Vec<AntigravityServer>)
    ensures
        server_views(out@) == servers_of(ps_output@),
{
    let found = lines_of(ps_output);
    let ghost all = texts(found@);
    let mut servers: Vec<AntigravityServer> = Vec::new();
    let mut i: usize = 0;
    assert(server_views(servers@) =~= Seq::empty());
    while i < found.len()
        invariant
            i <= found@.len(),
            all == texts(found@),
            server_views(servers@) == servers_in(all.take(i as int)),
        decreases found@.len() - i,
    {
        proof {
            assert(all.take(i + 1).drop_last() =~= all.take(i as int));
            assert(all.take(i + 1).last() == found@[i as int]@);
        }
        let ghost earlier = servers@;
        match read_server(found[i].as_str()) {
            Some(server) => {
                let ghost view = server@;
                servers.push(server);
                assert(server_views(servers@) =~= server_views(earlier).push(view));
            },
            None => {},
        }
        i = i + 1;
    }
    assert(all.take(i as int) =~= all);
    let ghost unsorted = servers@;
    let ghost before = |left: AntigravityServer, right: AntigravityServer| left.pid < right.pid;
    let less = |left: &AntigravityServer, right: &AntigravityServer| -> (yes: bool)
        ensures
            yes == before(*left, *right),
        { left.pid < right.pid };
    sort_by(&mut servers, less, Ghost(before));
    proof {
        lemma_sorted_map(
            unsorted,
            before,
            |server: AntigravityServer| server@,
            lower_pid(),
        );
    }
    keep_one_per_pid(servers)
}

/// A text without an ending, however often it stands there.
pub open spec fn without_endings(text: Seq<char>, ending: Seq<char>) -> Seq<char>
    decreases text.len(),
{
    if ending.len() > 0 && ends_with(text, ending) {
        without_endings(text.take(text.len() - ending.len()), ending)
    } else {
        text
    }
}

fn drop_endings(text: &str, ending: &str) -> (out: String)
    requires
        ending@.len() > 0,
    ensures
        out@ == without_endings(text@, ending@),
{
    let mut out = text.to_owned();
    let cut = chars_of(ending);
    while has_suffix(out.as_str(), ending)
        invariant
            cut@ == ending@,
            ending@.len() > 0,
            without_endings(out@, ending@) == without_endings(text@, ending@),
        decreases out@.len(),
    {
        let chars = chars_of(out.as_str());
        let total: usize = chars.len();
        let shorter = slice_text(&chars, 0, total - cut.len());
        assert(shorter@ =~= out@.take(out@.len() - ending@.len()));
        out = shorter;
    }
    out
}

/// The place of the last colon.
pub open spec fn last_colon(text: Seq<char>) -> Option<int>
    decreases text.len(),
{
    if text.len() == 0 {
        None
    } else if text.last() == ':' {
        Some(text.len() - 1)
    } else {
        last_colon(text.drop_last())
    }
}

fn find_last_colon(chars: &[char]) -> (out: Option<usize>)
    ensures
        match out {
            Some(i) => i < chars@.len() && last_colon(chars@) == Some(i as int),
            None => last_colon(chars@) is None,
        },
{
    let mut i: usize = chars.len();
    assert(chars@.take(i as int) =~= chars@);
    while i > 0
        invariant
            i <= chars@.len(),
            last_colon(chars@.take(i as int)) == last_colon(chars@),
        decreases i,
    {
        proof {
            assert(chars@.take(i as int).last() == chars@[i - 1]);
            assert(chars@.take(i as int).drop_last() =~= chars@.take(i - 1));
        }
        if chars[i - 1] == ':' {
            return Some(i - 1);
        }
        i = i - 1;
    }
    None
}

/// The port at the end of a word.
pub open spec fn port_in(word: Seq<char>) -> Option<u16> {
    match last_colon(word) {
        None => None,
        Some(at) => {
            let digits = without_endings(word.skip(at + 1), "(LISTEN)"@);
            match spelled_i64(digits) {
                Some(port) => if 0 <= port <= 65_535 && digits[0] != '-' {
                    Some(port as u16)
                } else {
                    None
                },
                None => None,
            }
        },
    }
}

fn read_port(word: &str) -> (out: Option<u16>)
    ensures
        out == port_in(word@),
{
    let chars = chars_of(word);
    let total: usize = chars.len();
    match find_last_colon(&chars) {
        None => None,
        Some(at) => {
            let tail = slice_text(&chars, at + 1, total);
            assert(tail@ =~= word@.skip(at + 1));
            proof {
                reveal_strlit("(LISTEN)");
            }
            let digits = drop_endings(tail.as_str(), "(LISTEN)");
            match parse_i64(digits.as_str()) {
                Some(port) => {
                    let marks = chars_of(digits.as_str());
                    if 0 <= port && port <= 65_535 && marks.len() > 0 && marks[0] != '-' {
                        Some(port as u16)
                    } else {
                        None
                    }
                },
                None => None,
            }
        },
    }
}

/// In ascending order, nothing twice.
pub open spec fn rising(ports: Seq<u16>) -> bool {
    forall|i: int, j: int| 0 <= i < j < ports.len() ==> #[trigger] ports[i] < #[trigger] ports[j]
}

/// Some word names the port.
pub open spec fn names_port(found: Seq<Seq<char>>, port: u16) -> bool {
    exists|i: int| 0 <= i < found.len() && port_in(#[trigger] found[i]) == Some(port)
}

fn insert_port(ports: &mut Vec<u16>, port: u16)
    requires
        rising(old(ports)@),
    ensures
        rising(final(ports)@),
        forall|other: u16| #[trigger]
            final(ports)@.contains(other) <==> (other == port || old(ports)@.contains(other)),
{
    let ghost start = ports@;
    let mut at: usize = 0;
    while at < ports.len() && ports[at] < port
        invariant
            at <= ports@.len(),
            start == ports@,
            forall|k: int| 0 <= k < at ==> #[trigger] start[k] < port,
        decreases ports@.len() - at,
    {
        at = at + 1;
    }
    if at < ports.len() && ports[at] == port {
        assert(start[at as int] == port);
        return;
    }
    ports.insert(at, port);
    proof {
        let end = ports@;
        assert(end == start.insert(at as int, port));
        assert(end[at as int] == port);
        assert forall|other: u16| #[trigger] end.contains(other) <==> (other == port
            || start.contains(other)) by {
            if start.contains(other) {
                let k = choose|k: int| 0 <= k < start.len() && start[k] == other;
                if k < at {
                    assert(end[k] == other);
                } else {
                    assert(end[k + 1] == other);
                }
            }
            if end.contains(other) && other != port {
                let k = choose|k: int| 0 <= k < end.len() && end[k] == other;
                if k < at {
                    assert(start[k] == other);
                } else {
                    assert(start[k - 1] == other);
                }
            }
        }
    }
}

/// The ports in a list of open sockets, in order, each once.
pub fn antigravity_ports(output: &str) -> (out: Vec<u16>)
    ensures
        rising(out@),
        forall|port: u16| #[trigger] out@.contains(port) <==> names_port(words(output@), port),
{
    let found = words_of(output);
    let ghost all = texts(found@);
    let mut out: Vec<u16> = Vec::new();
    let mut i: usize = 0;
    while i < found.len()
        invariant
            i <= found@.len(),
            all == texts(found@),
            rising(out@),
            forall|port: u16| #[trigger]
                out@.contains(port) <==> names_port(all.take(i as int), port),
        decreases found@.len() - i,
    {
        let ghost before = out@;
        let ghost earlier = all.take(i as int);
        let port = read_port(found[i].as_str());
        match port {
            Some(port) => {
                insert_port(&mut out, port);
            },
            None => {},
        }
        proof {
            let now = all.take(i + 1);
            assert(now[i as int] == found@[i as int]@);
            assert forall|other: u16| #[trigger] out@.contains(other) <==> names_port(now, other) by {
                if names_port(earlier, other) {
                    let k = choose|k: int|
                        0 <= k < earlier.len() && port_in(#[trigger] earlier[k]) == Some(other);
                    assert(now[k] == earlier[k]);
                }
                if names_port(now, other) {
                    let k = choose|k: int|
                        0 <= k < now.len() && port_in(#[trigger] now[k]) == Some(other);
                    if k < i {
                        assert(earlier[k] == now[k]);
                    }
                }
                if port_in(now[i as int]) == Some(other) {
                    assert(names_port(now, other));
                }
                assert(before.contains(other) <==> names_port(earlier, other));
            }
        }
        i = i + 1;
    }
    assert(all.take(i as int) =~= all);
    out
}

/// The short name of a quota group.
pub open spec fn group_name(value: Seq<char>) -> Seq<char> {
    if contains(lower(value), "gemini"@) {
        "Gemini"@
    } else if contains(lower(value), "anthropic"@) || contains(lower(value), "gpt"@) {
        "Anthropic/GPT"@
    } else {
        trim(value)
    }
}

pub fn antigravity_group_name(value: &str) -> (out: String)
    ensures
        out@ == group_name(value@),
{
    let small = to_lower(value);
    if has_text(small.as_str(), "gemini") {
        "Gemini".to_owned()
    } else if has_text(small.as_str(), "anthropic") || has_text(small.as_str(), "gpt") {
        "Anthropic/GPT".to_owned()
    } else {
        trimmed(value)
    }
}

/// The text with hyphens in place of underscores.
pub open spec fn hyphened(text: Seq<char>) -> Seq<char> {
    text.map_values(
        |c: char|
            if c == '_' {
                '-'
            } else {
                c
            },
    )
}

fn hyphenate(text: &str) -> (out: String)
    ensures
        out@ == hyphened(text@),
{
    let chars = chars_of(text);
    let mut out = String::new();
    let mut i: usize = 0;
    while i < chars.len()
        invariant
            i <= chars@.len(),
            chars@ == text@,
            out@ == hyphened(text@).take(i as int),
        decreases chars@.len() - i,
    {
        out.push(
            if chars[i] == '_' {
                '-'
            } else {
                chars[i]
            },
        );
        assert(out@ =~= hyphened(text@).take(i + 1));
        i = i + 1;
    }
    assert(hyphened(text@).take(i as int) =~= hyphened(text@));
    out
}

/// The name is the word, or ends with it after a hyphen.
pub open spec fn named_so(name: Seq<char>, word: Seq<char>) -> bool {
    name == word || ends_with(name, "-"@ + word)
}

fn is_named_so(name: &str, word: &str) -> (yes: bool)
    ensures
        yes == named_so(name@, word@),
{
    if same(name, word) {
        return true;
    }
    let mut ending = "-".to_owned();
    ending.append(word);
    has_suffix(name, ending.as_str())
}

/// The kind of window that a name tells.
pub open spec fn kind_named(name: Seq<char>) -> Option<WindowKind> {
    if named_so(name, "weekly"@) {
        Some(WindowKind::Weekly)
    } else if named_so(name, "session"@) || named_so(name, "5h"@) || named_so(name, "5-hour"@)
        || named_so(name, "five-hour"@) {
        Some(WindowKind::Session)
    } else {
        None
    }
}

pub open spec fn kind_at(bucket: Json, key: Seq<char>) -> Option<WindowKind> {
    kind_named(hyphened(lower(said_or(bucket.at(key), ""@))))
}

fn read_kind(bucket: &Json, key: &str) -> (out: Option<WindowKind>)
    ensures
        out == kind_at(*bucket, key@),
{
    let name = hyphenate(to_lower(text_or(bucket.get(key), "").as_str()).as_str());
    let name = name.as_str();
    if is_named_so(name, "weekly") {
        Some(WindowKind::Weekly)
    } else if is_named_so(name, "session") || is_named_so(name, "5h") || is_named_so(name, "5-hour")
        || is_named_so(name, "five-hour") {
        Some(WindowKind::Session)
    } else {
        None
    }
}

/// The kind that the first telling name of a bucket tells.
pub open spec fn bucket_kind(bucket: Json) -> Option<WindowKind> {
    match kind_at(bucket, "window"@) {
        Some(kind) => Some(kind),
        None => match kind_at(bucket, "bucketId"@) {
            Some(kind) => Some(kind),
            None => kind_at(bucket, "displayName"@),
        },
    }
}

pub fn antigravity_bucket_kind(bucket: &Json) -> (out: Option<WindowKind>)
    ensures
        out == bucket_kind(*bucket),
{
    match read_kind(bucket, "window") {
        Some(kind) => Some(kind),
        None => match read_kind(bucket, "bucketId") {
            Some(kind) => Some(kind),
            None => read_kind(bucket, "displayName"),
        },
    }
}

/// What is left of a bucket; of a disabled one nothing is known.
pub open spec fn bucket_percent(bucket: Json) -> Option<Formula> {
    let left = match measured_in(bucket.at("remainingFraction"@)) {
        Some(fraction) => Some(fraction),
        None => measured_in(at_key(bucket.at("remaining"@), "remainingFraction"@)),
    };
    if truth_in(bucket.at("disabled"@)) == Some(true) {
        None
    } else {
        match left {
            Some(fraction) => Some(
                Formula::Percentage(
                    Box::new(
                        Formula::Times(
                            Box::new(Formula::Given(fraction)),
                            Box::new(Formula::of(HUNDRED)),
                        ),
                    ),
                ),
            ),
            None => None,
        }
    }
}

fn read_percent(bucket: &Json) -> (out: Option<Formula>)
    ensures
        out == bucket_percent(*bucket),
{
    match bool_in(bucket.get("disabled")) {
        Some(true) => {
            return None;
        },
        _ => {},
    }
    let left = match number_in(bucket.get("remainingFraction")) {
        Some(fraction) => Some(fraction),
        None => number_in(get_in(bucket.get("remaining"), "remainingFraction")),
    };
    match left {
        Some(fraction) => Some(
            Formula::Percentage(
                Box::new(Formula::Times(Box::new(given(fraction)), Box::new(constant(HUNDRED)))),
            ),
        ),
        None => None,
    }
}

/// The window of a bucket, where its kind is known.
pub open spec fn bucket_window(group: Seq<char>, bucket: Json) -> Option<DraftView> {
    match bucket_kind(bucket) {
        Some(kind) => Some(
            DraftView::quota(
                group + " "@ + if kind is Session {
                    "5h"@
                } else {
                    "7d"@
                },
                kind,
                bucket_percent(bucket),
                reset_moment(bucket.at("resetTime"@)),
                None,
            ),
        ),
        None => None,
    }
}

pub open spec fn bucket_windows(group: Seq<char>, buckets: Seq<Json>) -> Seq<DraftView>
    decreases buckets.len(),
{
    if buckets.len() == 0 {
        Seq::empty()
    } else {
        match bucket_window(group, buckets.last()) {
            Some(window) => bucket_windows(group, buckets.drop_last()).push(window),
            None => bucket_windows(group, buckets.drop_last()),
        }
    }
}

/// The windows of one group.
pub open spec fn group_windows(group: Json) -> Seq<DraftView> {
    match items_in(group.at("buckets"@)) {
        Some(buckets) => bucket_windows(
            group_name(said_or(group.at("displayName"@), "Quota"@)),
            buckets,
        ),
        None => Seq::empty(),
    }
}

pub open spec fn groups_windows(groups: Seq<Json>) -> Seq<DraftView>
    decreases groups.len(),
{
    if groups.len() == 0 {
        Seq::empty()
    } else {
        groups_windows(groups.drop_last()) + group_windows(groups.last())
    }
}

/// The object with the quota groups.
pub open spec fn quota_summary(payload: Json) -> Json {
    match at_either(payload, "response"@, "summary"@) {
        Some(summary) => summary,
        None => payload,
    }
}

/// Gemini before the others, and of each the session before the week.
pub open spec fn rank(window: DraftView) -> int {
    (if starts_with(window.label, "Gemini"@) {
        0int
    } else {
        2
    }) + (if window.kind is Session {
        0int
    } else {
        1
    })
}

pub open spec fn shown_before() -> spec_fn(DraftView, DraftView) -> bool {
    |left: DraftView, right: DraftView| rank(left) < rank(right)
}

/// The windows of a quota summary.
pub open spec fn quota_windows(payload: Json) -> Seq<DraftView> {
    match items_in(quota_summary(payload).at("groups"@)) {
        Some(groups) => sorted(groups_windows(groups), shown_before()),
        None => Seq::empty(),
    }
}

fn push_buckets(out: &mut Vec<WindowDraft>, group: &str, buckets: &Vec<Json>)
    ensures
        draft_views(final(out)@) == draft_views(old(out)@) + bucket_windows(group@, buckets@),
{
    let ghost before = draft_views(out@);
    let mut i: usize = 0;
    assert(buckets@.take(0) =~= Seq::empty());
    assert(before + Seq::<DraftView>::empty() =~= before);
    while i < buckets.len()
        invariant
            i <= buckets@.len(),
            draft_views(out@) == before + bucket_windows(group@, buckets@.take(i as int)),
        decreases buckets@.len() - i,
    {
        proof {
            assert(buckets@.take(i + 1).drop_last() =~= buckets@.take(i as int));
            assert(buckets@.take(i + 1).last() == buckets@[i as int]);
        }
        let ghost earlier = out@;
        match antigravity_bucket_kind(&buckets[i]) {
            Some(kind) => {
                let mut label = group.to_owned();
                label.append(" ");
                label.append(
                    if matches!(kind, WindowKind::Session) {
                        "5h"
                    } else {
                        "7d"
                    },
                );
                let window = WindowDraft::quota(
                    label.as_str(),
                    kind,
                    read_percent(&buckets[i]),
                    reset_timestamp(buckets[i].get("resetTime")),
                    None,
                );
                let ghost view = window@;
                out.push(window);
                assert(draft_views(out@) =~= draft_views(earlier).push(view));
                assert(draft_views(out@) =~= before + bucket_windows(
                    group@,
                    buckets@.take(i as int),
                ).push(view));
            },
            None => {},
        }
        i = i + 1;
    }
    assert(buckets@.take(i as int) =~= buckets@);
}

fn collect_windows(groups: &Vec<Json>) -> (out: Vec<WindowDraft>)
    ensures
        draft_views(out@) == groups_windows(groups@),
{
    let mut out: Vec<WindowDraft> = Vec::new();
    let mut i: usize = 0;
    assert(draft_views(out@) =~= Seq::empty());
    while i < groups.len()
        invariant
            i <= groups@.len(),
            draft_views(out@) == groups_windows(groups@.take(i as int)),
        decreases groups@.len() - i,
    {
        proof {
            assert(groups@.take(i + 1).drop_last() =~= groups@.take(i as int));
            assert(groups@.take(i + 1).last() == groups@[i as int]);
        }
        let name = antigravity_group_name(
            text_or(groups[i].get("displayName"), "Quota").as_str(),
        );
        match list_in(groups[i].get("buckets")) {
            Some(buckets) => {
                push_buckets(&mut out, name.as_str(), buckets);
            },
            None => {
                assert(groups_windows(groups@.take(i as int)) + Seq::<DraftView>::empty()
                    =~= groups_windows(groups@.take(i as int)));
            },
        }
        i = i + 1;
    }
    assert(groups@.take(i as int) =~= groups@);
    out
}

fn find_rank(window: &WindowDraft) -> (out: u8)
    ensures
        out == rank(window@),
{
    let group: u8 = if has_prefix(window.label.as_str(), "Gemini") {
        0
    } else {
        2
    };
    let span: u8 = if matches!(window.kind, WindowKind::Session) {
        0
    } else {
        1
    };
    group + span
}

pub fn antigravity_windows(payload: &Json) -> (out: Vec<WindowDraft>)
    ensures
        draft_views(out@) == quota_windows(*payload),
{
    let summary = match get_either(payload, "response", "summary") {
        Some(summary) => summary,
        None => payload,
    };
    match list_in(summary.get("groups")) {
        Some(groups) => {
            let mut out = collect_windows(groups);
            let ghost unsorted = out@;
            let ghost before = |left: WindowDraft, right: WindowDraft| rank(left@) < rank(right@);
            let less = |left: &WindowDraft, right: &WindowDraft| -> (yes: bool)
                ensures
                    yes == before(*left, *right),
                { find_rank(left) < find_rank(right) };
            sort_by(&mut out, less, Ghost(before));
            proof {
                lemma_sorted_map(
                    unsorted,
                    before,
                    |window: WindowDraft| window@,
                    shown_before(),
                );
            }
            out
        },
        None => {
            let out: Vec<WindowDraft> = Vec::new();
            assert(draft_views(out@) =~= Seq::empty());
            out
        },
    }
}

/// What the search for a language server came to.
#[derive(Debug)]
pub enum ServerSearch {
    NoProcessList,
    NoServer,
    NoClient,
    /// No server answered with a quota window.
    NoQuota,
    /// The first answer with a quota window, and who is logged in.
    Found { quota: Json, identity: Option<Json> },
}

/// An answer ends the search where it holds a quota window.
pub fn ends_search(answer: Option<&Json>) -> (yes: bool)
    ensures
        yes == (answer is Some && quota_windows(*answer->0).len() > 0),
{
    match answer {
        Some(quota) => antigravity_windows(quota).len() > 0,
        None => false,
    }
}

pub open spec fn search_failed(reason: Seq<char>, now_ms: i64) -> RowView {
    RowView::Missing(
        missing_row(antigravity_badge(), ""@, "Pro"@, unavailable(reason), now_ms),
    )
}

/// The row of the account that is logged in.
pub open spec fn antigravity_row(search: ServerSearch, now_ms: i64) -> RowView {
    match search {
        ServerSearch::NoProcessList => search_failed("Process list unavailable"@, now_ms),
        ServerSearch::NoServer => search_failed(
            "Antigravity language server not running"@,
            now_ms,
        ),
        ServerSearch::NoClient => search_failed("HTTP client unavailable"@, now_ms),
        ServerSearch::NoQuota => search_failed("Antigravity quota RPC unavailable"@, now_ms),
        ServerSearch::Found { quota, identity } => {
            let status = at_key(identity, "userStatus"@);
            let email = said_or(at_key(status, "email"@), "Antigravity"@);
            answered(
                antigravity_badge(),
                key_of("antigravity"@, email),
                email,
                said_or(at_key(at_key(status, "userTier"@), "name"@), "Pro"@),
                quota_windows(quota),
            )
        },
    }
}

pub fn collect_antigravity(search: &ServerSearch, now_ms: i64) -> (out: Row)
    ensures
        out@ == antigravity_row(*search, now_ms),
{
    let badge = Badge { provider_id: "antigravity", source: "rpc", hue: 141 };
    let reason = match search {
        ServerSearch::NoProcessList => "Process list unavailable",
        ServerSearch::NoServer => "Antigravity language server not running",
        ServerSearch::NoClient => "HTTP client unavailable",
        ServerSearch::NoQuota => "Antigravity quota RPC unavailable",
        ServerSearch::Found { quota, identity } => {
            let status = match identity {
                Some(identity) => identity.get("userStatus"),
                None => None,
            };
            let email = text_or(get_in(status, "email"), "Antigravity");
            let plan = text_or(get_in(get_in(status, "userTier"), "name"), "Pro");
            return answered_row(
                &badge,
                account_key("antigravity", email.as_str()),
                email,
                plan,
                antigravity_windows(quota),
            );
        },
    };
    missing(&badge, "".to_owned(), "Pro".to_owned(), unavailable_for(reason), now_ms)
}

/// A bucket shows its remaining fraction in hundredths, under its group's name
/// and the length of its window; a disabled one shows no share.
pub proof fn law_bucket_shows_its_fraction(
    group: Seq<char>,
    bucket: Json,
    name: Json,
    text: Seq<char>,
    fraction: Json,
    powers: Seq<Power>,
)
    requires
        bucket.at("window"@) == Some(name),
        name.said() == Some(text),
        bucket.at("remainingFraction"@) == Some(fraction),
        fraction.measured() is Some,
        bucket.at("disabled"@) is None,
    ensures
        hyphened(lower(text)) == "weekly"@ ==> bucket_window(group, bucket) is Some
            && bucket_window(group, bucket)->0.settled(powers).kind is Weekly && bucket_window(
            group,
            bucket,
        )->0.settled(powers).label == group + " "@ + "7d"@,
        hyphened(lower(text)) == "5h"@ || hyphened(lower(text)) == "session"@ || hyphened(
            lower(text),
        ) == "five-hour"@ || hyphened(lower(text)) == "5-hour"@ ==> bucket_window(
            group,
            bucket,
        ) is Some,
        bucket_window(group, bucket) matches Some(window) ==> {
            &&& window.settled(powers).remaining_percent == Some(
                fraction.measured()->0.product(
                    Quantity { bits: 0x4059_0000_0000_0000 },
                ).as_percentage(),
            )
            &&& window.settled(powers).resets_at_ms == reset_moment(bucket.at("resetTime"@))
            &&& window.kind is Session || window.kind is Weekly
            &&& window.kind is Session ==> window.label == group + " "@ + "5h"@
            &&& window.kind is Weekly ==> window.label == group + " "@ + "7d"@
        },
{
    reveal_with_fuel(Formula::value, 4);
}

/// A disabled bucket shows no share.
pub proof fn law_disabled_bucket_shows_no_share(group: Seq<char>, bucket: Json, powers: Seq<Power>)
    requires
        bucket.at("disabled"@) == Some(Json::Bool(true)),
    ensures
        bucket_window(group, bucket) matches Some(window) ==> window.settled(
            powers,
        ).remaining_percent is None,
{
}

/// The windows are those of every bucket of every group whose window is known,
/// Gemini's before the others, and the session of each before its week.
pub proof fn law_gemini_sessions_stand_first(payload: Json, groups: Seq<Json>, i: int, j: int)
    requires
        items_in(quota_summary(payload).at("groups"@)) == Some(groups),
        0 <= i < j < quota_windows(payload).len(),
    ensures
        starts_with(quota_windows(payload)[j].label, "Gemini"@) ==> starts_with(
            quota_windows(payload)[i].label,
            "Gemini"@,
        ),
        starts_with(quota_windows(payload)[i].label, "Gemini"@) == starts_with(
            quota_windows(payload)[j].label,
            "Gemini"@,
        ) && quota_windows(payload)[j].kind is Session ==> quota_windows(payload)[i].kind is Session,
        quota_windows(payload).to_multiset() == groups_windows(groups).to_multiset(),
{
    let windows = groups_windows(groups);
    assert(crate::sort::orders(shown_before()));
    crate::sort::lemma_sorted_in_order(windows, shown_before());
    crate::sort::lemma_sorted_keeps_items(windows, shown_before());
    let out = quota_windows(payload);
    assert(!shown_before()(out[j], out[i]));
}

/// Every bucket with a known window is among the windows of its group, and its
/// group's among all.
pub proof fn law_every_bucket_is_shown(groups: Seq<Json>, g: int, buckets: Vec<Json>, b: int)
    requires
        0 <= g < groups.len(),
        groups[g].at("buckets"@) == Some(Json::List(buckets)),
        0 <= b < buckets@.len(),
        bucket_kind(buckets@[b]) is Some,
    ensures
        groups_windows(groups).contains(
            bucket_window(
                group_name(said_or(groups[g].at("displayName"@), "Quota"@)),
                buckets@[b],
            )->0,
        ),
    decreases groups.len(),
{
    let name = group_name(said_or(groups[g].at("displayName"@), "Quota"@));
    let window = bucket_window(name, buckets@[b])->0;
    if g < groups.len() - 1 {
        assert(groups.drop_last()[g] == groups[g]);
        law_every_bucket_is_shown(groups.drop_last(), g, buckets, b);
        let before = groups_windows(groups.drop_last());
        let k = choose|k: int| 0 <= k < before.len() && before[k] == window;
        assert(groups_windows(groups)[k] == window);
    } else {
        assert(items_in(groups[g].at("buckets"@)) == Some(buckets@));
        lemma_bucket_shown(name, buckets@, b);
        let own = group_windows(groups[g]);
        let k = choose|k: int| 0 <= k < own.len() && own[k] == window;
        assert(groups_windows(groups)[groups_windows(groups.drop_last()).len() + k] == window);
    }
}

proof fn lemma_bucket_shown(group: Seq<char>, buckets: Seq<Json>, b: int)
    requires
        0 <= b < buckets.len(),
        bucket_window(group, buckets[b]) is Some,
    ensures
        bucket_windows(group, buckets).contains(bucket_window(group, buckets[b])->0),
    decreases buckets.len(),
{
    let all = bucket_windows(group, buckets);
    if b < buckets.len() - 1 {
        let before = buckets.drop_last();
        assert(before[b] == buckets[b]);
        lemma_bucket_shown(group, before, b);
        let k = choose|k: int|
            0 <= k < bucket_windows(group, before).len() && bucket_windows(group, before)[k]
                == bucket_window(group, buckets[b])->0;
        assert(all[k] == bucket_window(group, buckets[b])->0);
    } else {
        assert(all[all.len() - 1] == bucket_window(group, buckets[b])->0);
    }
}

/// The servers are listed by rising process number, each process once.
pub proof fn law_servers_are_listed_once(ps_output: Seq<char>)
    ensures
        forall|i: int, j: int|
            0 <= i < j < servers_of(ps_output).len() ==> (#[trigger] servers_of(ps_output)[i]).pid
                < (#[trigger] servers_of(ps_output)[j]).pid,
        forall|i: int|
            0 <= i < servers_of(ps_output).len() ==> servers_in(lines(ps_output)).contains(
                #[trigger] servers_of(ps_output)[i],
            ),
{
    let found = servers_in(lines(ps_output));
    assert(crate::sort::orders(lower_pid()));
    crate::sort::lemma_sorted_in_order(found, lower_pid());
    crate::sort::lemma_sorted_contains(found, lower_pid());
    let ordered = sorted(found, lower_pid());
    assert forall|i: int, j: int| 0 <= i < j < ordered.len() implies (#[trigger] ordered[i]).pid
        <= (#[trigger] ordered[j]).pid by {
        assert(!lower_pid()(ordered[j], ordered[i]));
    }
    lemma_one_per_pid(ordered);
    assert forall|i: int| 0 <= i < servers_of(ps_output).len() implies found.contains(
        #[trigger] servers_of(ps_output)[i],
    ) by {
        assert(ordered.contains(servers_of(ps_output)[i]));
        let k = choose|k: int| 0 <= k < ordered.len() && ordered[k] == servers_of(ps_output)[i];
        assert(found.contains(ordered[k]));
    }
}

proof fn lemma_one_per_pid(servers: Seq<ServerView>)
    requires
        forall|i: int, j: int|
            0 <= i < j < servers.len() ==> (#[trigger] servers[i]).pid <= (
            #[trigger] servers[j]).pid,
    ensures
        forall|i: int, j: int|
            0 <= i < j < one_per_pid(servers).len() ==> (#[trigger] one_per_pid(servers)[i]).pid < (
            #[trigger] one_per_pid(servers)[j]).pid,
        forall|i: int|
            0 <= i < one_per_pid(servers).len() ==> servers.contains(
                #[trigger] one_per_pid(servers)[i],
            ),
    decreases servers.len(),
{
    if servers.len() > 0 {
        let rest = servers.drop_last();
        assert forall|i: int, j: int| 0 <= i < j < rest.len() implies (#[trigger] rest[i]).pid <= (
        #[trigger] rest[j]).pid by {
            assert(rest[i] == servers[i] && rest[j] == servers[j]);
        }
        lemma_one_per_pid(rest);
        let before = one_per_pid(rest);
        let out = one_per_pid(servers);
        assert forall|i: int| 0 <= i < before.len() implies servers.contains(#[trigger] before[i])
            && before[i].pid <= servers.last().pid by {
            assert(rest.contains(before[i]));
            let k = choose|k: int| 0 <= k < rest.len() && rest[k] == before[i];
            assert(servers[k] == before[i]);
            assert(servers[k].pid <= servers[servers.len() - 1].pid);
        }
        assert(servers.contains(servers[servers.len() - 1]));
        assert forall|i: int, j: int| 0 <= i < j < out.len() implies (#[trigger] out[i]).pid < (
        #[trigger] out[j]).pid by {
            if j == before.len() {
                assert(before[i].pid <= before[before.len() - 1].pid);
            }
        }
        assert forall|i: int| 0 <= i < out.len() implies servers.contains(#[trigger] out[i]) by {
            if i < before.len() {
                assert(out[i] == before[i]);
            }
        }
    }
}

} // verus!
