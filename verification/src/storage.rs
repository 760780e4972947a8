//! Where state is kept, digests of what is stored, and what an import keeps.

use vstd::prelude::*;

use crate::text::{chars_of, lines, lines_of, maybe_str, same, texts, trim, trimmed};

verus! {

/// A path with one more component.
pub open spec fn joined(base: Seq<char>, component: Seq<char>) -> Seq<char> {
    if base.len() == 0 || base.last() == '/' {
        base + component
    } else {
        base + "/"@ + component
    }
}

pub fn join_path(base: &str, component: &str) -> (out: String)
    ensures
        out@ == joined(base@, component@),
{
    let chars = chars_of(base);
    let mut out = base.to_owned();
    if chars.len() > 0 && chars[chars.len() - 1] != '/' {
        out.append("/");
    }
    out.append(component);
    out
}

/// The directories and the database of the monitor.
#[derive(Debug)]
pub struct StoragePaths {
    pub config_dir: String,
    pub data_dir: String,
    pub cache_dir: String,
    pub database: String,
}

/// The directory under a base that the environment names, else under home.
pub open spec fn base_dir(home: Seq<char>, named: Option<Seq<char>>, usual: Seq<char>) -> Seq<char> {
    joined(
        match named {
            Some(base) => base,
            None => joined(home, usual),
        },
        "token-monitor"@,
    )
}

fn dir_under(home: &str, named: Option<&str>, usual: &str) -> (out: String)
    ensures
        out@ == base_dir(
            home@,
            match named {
                Some(base) => Some(base@),
                None => None,
            },
            usual@,
        ),
{
    match named {
        Some(base) => join_path(base, "token-monitor"),
        None => {
            let base = join_path(home, usual);
            join_path(base.as_str(), "token-monitor")
        },
    }
}

impl StoragePaths {
    /// The paths for a home directory and the three base directories that the
    /// environment may name.
    pub fn discover(
        home: Option<&str>,
        config_home: Option<&str>,
        data_home: Option<&str>,
        cache_home: Option<&str>,
    ) -> (out: Result<StoragePaths, String>)
        ensures
            match out {
                Ok(paths) => home is Some && paths.config_dir@ == base_dir(
                    home->0@,
                    maybe_str(config_home),
                    ".config"@,
                ) && paths.data_dir@ == base_dir(
                    home->0@,
                    maybe_str(data_home),
                    ".local/share"@,
                ) && paths.cache_dir@ == base_dir(home->0@, maybe_str(cache_home), ".cache"@)
                    && paths.database@ == joined(paths.data_dir@, "token-monitor.sqlite3"@),
                Err(error) => home is None && error@ == "home directory not found"@,
            },
    {
        match home {
            Some(home) => {
                let config_dir = dir_under(home, config_home, ".config");
                let data_dir = dir_under(home, data_home, ".local/share");
                let cache_dir = dir_under(home, cache_home, ".cache");
                let database = join_path(data_dir.as_str(), "token-monitor.sqlite3");
                Ok(StoragePaths { config_dir, data_dir, cache_dir, database })
            },
            None => Err("home directory not found".to_owned()),
        }
    }
}

/// The SHA-256 digest of a byte string.
pub uninterp spec fn sha256_digest(bytes: Seq<u8>) -> Seq<u8>;

/// `sha2::Sha256::digest`: the SHA-256 digest of the bytes, 32 bytes long.
#[verifier::external_body]
pub(crate) fn digest(bytes: &[u8]) -> (out: Vec<u8>)
    ensures
        out@ == sha256_digest(bytes@),
        out@.len() == 32,
{
    <sha2::Sha256 as sha2::Digest>::digest(bytes).to_vec()
}

/// The character of a hexadecimal digit, in lower case.
pub open spec fn hex_digit(value: int) -> char {
    if value < 10 {
        (48 + value) as char
    } else {
        (87 + value) as char
    }
}

/// Two hexadecimal digits per byte.
pub open spec fn hex(bytes: Seq<u8>) -> Seq<char>
    decreases bytes.len(),
{
    if bytes.len() == 0 {
        Seq::empty()
    } else {
        hex(bytes.drop_last()).push(hex_digit((bytes.last() / 16) as int)).push(
            hex_digit((bytes.last() % 16) as int),
        )
    }
}

fn hex_char(value: u8) -> (out: char)
    requires
        value < 16,
    ensures
        out == hex_digit(value as int),
{
    if value < 10 {
        (48u8 + value) as char
    } else {
        (87u8 + value) as char
    }
}

pub fn hex_text(bytes: &[u8]) -> (out: String)
    ensures
        out@ == hex(bytes@),
{
    let mut out = String::new();
    let mut i: usize = 0;
    while i < bytes.len()
        invariant
            i <= bytes@.len(),
            out@ == hex(bytes@.take(i as int)),
        decreases bytes@.len() - i,
    {
        proof {
            assert(bytes@.take(i + 1).drop_last() =~= bytes@.take(i as int));
        }
        let byte: u8 = bytes[i];
        out.push(hex_char(byte / 16));
        out.push(hex_char(byte % 16));
        i = i + 1;
    }
    assert(bytes@.take(i as int) =~= bytes@);
    out
}

/// Two hexadecimal digits stand for each byte.
pub proof fn law_hex_len(bytes: Seq<u8>)
    ensures
        hex(bytes).len() == 2 * bytes.len(),
    decreases bytes.len(),
{
    if bytes.len() > 0 {
        law_hex_len(bytes.drop_last());
    }
}

/// The digest that stored payloads are told apart by.
pub fn sha256(bytes: &[u8]) -> (out: String)
    ensures
        out@ == hex(sha256_digest(bytes@)),
{
    hex_text(digest(bytes).as_slice())
}

/// What is known of an import of older history.
#[derive(Debug)]
pub struct ImportReport {
    pub source: String,
    pub digest: String,
    pub bytes: usize,
    pub imported: bool,
}

/// What an import does with a file.
#[derive(Debug)]
pub enum ImportStep {
    /// The same bytes were imported before.
    Known(ImportReport),
    /// Store the document that the file is.
    StoreDocument(ImportReport),
    /// Store the documents that single lines of the file are.
    StoreRows(ImportReport),
}

impl ImportStep {
    pub open spec fn report(self) -> ImportReport {
        match self {
            ImportStep::Known(report) => report,
            ImportStep::StoreDocument(report) => report,
            ImportStep::StoreRows(report) => report,
        }
    }
}

/// Decides an import. `stored` is the digest under which the same source was
/// imported last, `is_document` whether the whole file is a JSON document, and
/// `rows` how many of its lines are.
pub fn import_legacy_json(
    source: &str,
    bytes: &[u8],
    stored: Option<&str>,
    is_document: bool,
    rows: usize,
) -> (out: Result<ImportStep, String>)
    ensures
        match out {
            Ok(step) => {
                &&& step.report().source@ == source@
                &&& step.report().digest@ == hex(sha256_digest(bytes@))
                &&& step.report().bytes == bytes@.len()
                &&& step.report().imported == !(step is Known)
                &&& step is Known <==> maybe_str(stored) == Some(hex(sha256_digest(bytes@)))
                &&& !(step is Known) ==> (step is StoreDocument <==> is_document)
                &&& step is StoreRows ==> rows > 0
            },
            Err(error) => {
                &&& maybe_str(stored) != Some(hex(sha256_digest(bytes@)))
                &&& !is_document
                &&& rows == 0
                &&& error@ == "legacy source is not valid JSON/JSONL: "@ + source@
            },
        },
{
    let found = sha256(bytes);
    let known = match stored {
        Some(stored) => same(stored, found.as_str()),
        None => false,
    };
    let mut report = ImportReport {
        source: source.to_owned(),
        digest: found,
        bytes: bytes.len(),
        imported: !known,
    };
    if known {
        Ok(ImportStep::Known(report))
    } else if is_document {
        Ok(ImportStep::StoreDocument(report))
    } else if rows > 0 {
        Ok(ImportStep::StoreRows(report))
    } else {
        let mut error = "legacy source is not valid JSON/JSONL: ".to_owned();
        error.append(source);
        Err(error)
    }
}

/// The lines of a text that are not blank, without white space around them.
pub open spec fn filled_lines(found: Seq<Seq<char>>) -> Seq<Seq<char>>
    decreases found.len(),
{
    if found.len() == 0 {
        Seq::empty()
    } else if trim(found.last()).len() > 0 {
        filled_lines(found.drop_last()).push(trim(found.last()))
    } else {
        filled_lines(found.drop_last())
    }
}

/// The lines of a file with one JSON document per line.
pub fn document_lines(text: &str) -> (out: Vec<String>)
    ensures
        texts(out@) == filled_lines(lines(text@)),
{
    let all = lines_of(text);
    let ghost views = texts(all@);
    let mut out: Vec<String> = Vec::new();
    let mut i: usize = 0;
    assert(texts(out@) =~= filled_lines(views.take(0)));
    while i < all.len()
        invariant
            i <= all@.len(),
            views == texts(all@),
            texts(out@) == filled_lines(views.take(i as int)),
        decreases all@.len() - i,
    {
        proof {
            assert(views.take(i + 1).drop_last() =~= views.take(i as int));
            assert(views.take(i + 1).last() == all@[i as int]@);
        }
        let line = trimmed(all[i].as_str());
        if !line.as_str().is_empty() {
            let ghost before = out@;
            out.push(line);
            assert(texts(out@) =~= texts(before).push(line@));
        }
        i = i + 1;
    }
    assert(views.take(i as int) =~= views);
    out
}

/// A byte is two digits of base sixteen, the higher one first, each from `0` to
/// `9` or from `a` to `f`.
pub proof fn law_hex_spells_the_bytes(bytes: Seq<u8>, i: int)
    requires
        0 <= i < bytes.len(),
    ensures
        hex(bytes).len() == 2 * bytes.len(),
        digit_value(hex(bytes)[2 * i]) * 16 + digit_value(hex(bytes)[2 * i + 1]) == bytes[i],
    decreases bytes.len(),
{
    let before = bytes.drop_last();
    law_hex_len(before);
    law_hex_len(bytes);
    if i < bytes.len() - 1 {
        law_hex_spells_the_bytes(before, i);
    } else {
        let last = bytes.last();
        assert(hex(bytes)[2 * i] == hex_digit((last / 16) as int));
        assert(hex(bytes)[2 * i + 1] == hex_digit((last % 16) as int));
    }
}

/// The value of a digit of base sixteen.
pub open spec fn digit_value(c: char) -> int {
    if '0' <= c <= '9' {
        c as int - '0' as int
    } else {
        c as int - 'a' as int + 10
    }
}

/// A directory is the one that was named, or the usual one below the home, and
/// the monitor's own below that.
pub proof fn law_named_directory_counts_first(
    home: Seq<char>,
    named: Option<Seq<char>>,
    usual: Seq<char>,
)
    ensures
        named matches Some(base) ==> base_dir(home, named, usual) == joined(
            base,
            "token-monitor"@,
        ),
        named is None ==> base_dir(home, named, usual) == joined(
            joined(home, usual),
            "token-monitor"@,
        ),
{
}

/// Parts of a path are parted by one slash.
pub proof fn law_parts_are_parted_by_a_slash(base: Seq<char>, component: Seq<char>)
    ensures
        base.len() > 0 && base.last() != '/' ==> joined(base, component) == base + seq!['/']
            + component,
        base.len() > 0 && base.last() == '/' ==> joined(base, component) == base + component,
        base.len() == 0 ==> joined(base, component) == component,
{
    reveal_strlit("/");
    assert("/"@ =~= seq!['/']);
    if base.len() == 0 {
        assert(base + component =~= component);
    }
}

/// The lines that say something are kept, without the spaces around them, in
/// their order.
pub proof fn law_filled_lines_are_kept(found: Seq<Seq<char>>)
    ensures
        filled_lines(found) == found.filter(
            |line: Seq<char>| trim(line).len() > 0,
        ).map_values(|line: Seq<char>| trim(line)),
    decreases found.len(),
{
    let says = |line: Seq<char>| trim(line).len() > 0;
    let bare = |line: Seq<char>| trim(line);
    if found.len() == 0 {
        reveal(Seq::filter);
        assert(found.filter(says).map_values(bare) =~= Seq::empty());
    } else {
        let before = found.drop_last();
        law_filled_lines_are_kept(before);
        assert(found =~= before.push(found.last()));
        before.lemma_filter_push(found.last(), says);
        assert(before.filter(says).push(found.last()).map_values(bare) =~= before.filter(
            says,
        ).map_values(bare).push(bare(found.last())));
    }
}

} // verus!
