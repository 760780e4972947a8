//! The credentials that the monitor keeps itself.

use vstd::prelude::*;

use crate::json::{at_key, borrowed, get_in, Json};
use crate::storage::{join_path, joined, StoragePaths};
use crate::text::{contains, has_text, lower, same, to_lower, trim, trimmed};

verus! {

pub const CREDENTIALS_FILE: &'static str = "credentials.json";

/// Secrets by name. No name stands twice.
#[derive(Debug)]
pub struct Credentials {
    pub entries: Vec<(String, String)>,
}

impl Credentials {
    /// No name stands twice.
    pub open spec fn well_formed(self) -> bool {
        forall|i: int, j: int|
            0 <= i < j < self.entries@.len() ==> (#[trigger] self.entries@[i]).0@ != (
            #[trigger] self.entries@[j]).0@
    }

    pub open spec fn holds(self, name: Seq<char>) -> bool {
        exists|i: int| 0 <= i < self.entries@.len() && (#[trigger] self.entries@[i]).0@ == name
    }

    pub open spec fn secret(self, name: Seq<char>) -> Seq<char> {
        let i = choose|i: int|
            0 <= i < self.entries@.len() && (#[trigger] self.entries@[i]).0@ == name;
        self.entries@[i].1@
    }
}

impl View for Credentials {
    type V = Map<Seq<char>, Seq<char>>;

    open spec fn view(&self) -> Map<Seq<char>, Seq<char>> {
        Map::new(|name: Seq<char>| self.holds(name), |name: Seq<char>| self.secret(name))
    }
}

impl Credentials {
    proof fn lemma_at(self, i: int)
        requires
            self.well_formed(),
            0 <= i < self.entries@.len(),
        ensures
            self@.dom().contains(self.entries@[i].0@),
            self@[self.entries@[i].0@] == self.entries@[i].1@,
    {
        let name = self.entries@[i].0@;
        assert(self.holds(name));
        let j = choose|j: int|
            0 <= j < self.entries@.len() && (#[trigger] self.entries@[j]).0@ == name;
        if i < j {
            assert(self.entries@[i].0@ != self.entries@[j].0@);
        } else if j < i {
            assert(self.entries@[j].0@ != self.entries@[i].0@);
        }
    }

    pub fn new() -> (out: Credentials)
        ensures
            out.well_formed(),
            out@ == Map::<Seq<char>, Seq<char>>::empty(),
    {
        let out = Credentials { entries: Vec::new() };
        assert(out@ =~= Map::<Seq<char>, Seq<char>>::empty());
        out
    }

    fn position(&self, name: &str) -> (out: Option<usize>)
        ensures
            match out {
                Some(i) => i < self.entries@.len() && self.entries@[i as int].0@ == name@,
                None => !self.holds(name@),
            },
    {
        let mut i: usize = 0;
        while i < self.entries.len()
            invariant
                i <= self.entries@.len(),
                forall|k: int| 0 <= k < i ==> (#[trigger] self.entries@[k]).0@ != name@,
            decreases self.entries@.len() - i,
        {
            if same(self.entries[i].0.as_str(), name) {
                return Some(i);
            }
            i = i + 1;
        }
        None
    }

    pub fn lookup(&self, name: &str) -> (out: Option<String>)
        requires
            self.well_formed(),
        ensures
            match out {
                Some(secret) => self@.dom().contains(name@) && self@[name@] == secret@,
                None => !self@.dom().contains(name@),
            },
    {
        match self.position(name) {
            Some(i) => {
                proof {
                    self.lemma_at(i as int);
                }
                Some(self.entries[i].1.clone())
            },
            None => None,
        }
    }

    pub fn insert(&mut self, name: &str, secret: &str)
        requires
            old(self).well_formed(),
        ensures
            final(self).well_formed(),
            final(self)@ == old(self)@.insert(name@, secret@),
    {
        let ghost start = *self;
        let entry = (name.to_owned(), secret.to_owned());
        match self.position(name) {
            Some(at) => {
                self.entries.set(at, entry);
                proof {
                    let done = *self;
                    assert forall|k: Seq<char>| done.holds(k) == start.holds(k) by {
                        if done.holds(k) {
                            let i = choose|i: int|
                                0 <= i < done.entries@.len() && (#[trigger] done.entries@[i]).0@ == k;
                            assert(start.entries@[i].0@ == k);
                        }
                        if start.holds(k) {
                            let i = choose|i: int|
                                0 <= i < start.entries@.len() && (#[trigger] start.entries@[i]).0@
                                    == k;
                            assert(done.entries@[i].0@ == k);
                        }
                    }
                    assert forall|i: int, j: int|
                        0 <= i < j < done.entries@.len() implies (#[trigger] done.entries@[i]).0@ != (
                    #[trigger] done.entries@[j]).0@ by {
                        assert(start.entries@[i].0@ != start.entries@[j].0@);
                    }
                    assert forall|k: Seq<char>| #[trigger] done@.dom().contains(k) implies done@[k]
                        == start@.insert(name@, secret@)[k] by {
                        let i = choose|i: int|
                            0 <= i < done.entries@.len() && (#[trigger] done.entries@[i]).0@ == k;
                        done.lemma_at(i);
                        start.lemma_at(i);
                        if k == name@ {
                            done.lemma_at(at as int);
                        }
                    }
                    start.lemma_at(at as int);
                    assert(done@ =~= start@.insert(name@, secret@));
                }
            },
            None => {
                self.entries.push(entry);
                proof {
                    let done = *self;
                    let last = start.entries@.len() as int;
                    assert forall|k: Seq<char>| done.holds(k) == (start.holds(k) || k == name@) by {
                        if done.holds(k) {
                            let i = choose|i: int|
                                0 <= i < done.entries@.len() && (#[trigger] done.entries@[i]).0@ == k;
                            if i < last {
                                assert(start.entries@[i].0@ == k);
                            }
                        }
                        if start.holds(k) {
                            let i = choose|i: int|
                                0 <= i < start.entries@.len() && (#[trigger] start.entries@[i]).0@
                                    == k;
                            assert(done.entries@[i].0@ == k);
                        }
                        if k == name@ {
                            assert(done.entries@[last].0@ == k);
                        }
                    }
                    assert forall|i: int, j: int|
                        0 <= i < j < done.entries@.len() implies (#[trigger] done.entries@[i]).0@ != (
                    #[trigger] done.entries@[j]).0@ by {
                        if j < last {
                            assert(start.entries@[i].0@ != start.entries@[j].0@);
                        } else {
                            assert(start.entries@[i].0@ != name@);
                        }
                    }
                    assert forall|k: Seq<char>| #[trigger] done@.dom().contains(k) implies done@[k]
                        == start@.insert(name@, secret@)[k] by {
                        let i = choose|i: int|
                            0 <= i < done.entries@.len() && (#[trigger] done.entries@[i]).0@ == k;
                        done.lemma_at(i);
                        if i < last {
                            start.lemma_at(i);
                            assert(start.entries@[i].0@ != name@);
                        }
                    }
                    assert(done@ =~= start@.insert(name@, secret@));
                }
            },
        }
    }

    pub fn remove(&mut self, name: &str)
        requires
            old(self).well_formed(),
        ensures
            final(self).well_formed(),
            final(self)@ == old(self)@.remove(name@),
    {
        let ghost start = *self;
        match self.position(name) {
            Some(at) => {
                let removed = self.entries.remove(at);
                proof {
                    let done = *self;
                    let at = at as int;
                    assert forall|i: int| 0 <= i < done.entries@.len() implies #[trigger] done.entries@[i]
                        == start.entries@[if i < at {
                        i
                    } else {
                        i + 1
                    }] by {}
                    assert forall|i: int, j: int|
                        0 <= i < j < done.entries@.len() implies (#[trigger] done.entries@[i]).0@ != (
                    #[trigger] done.entries@[j]).0@ by {
                        let a = if i < at {
                            i
                        } else {
                            i + 1
                        };
                        let b = if j < at {
                            j
                        } else {
                            j + 1
                        };
                        assert(start.entries@[a].0@ != start.entries@[b].0@);
                    }
                    assert forall|k: Seq<char>| done.holds(k) == (start.holds(k) && k != name@) by {
                        if done.holds(k) {
                            let i = choose|i: int|
                                0 <= i < done.entries@.len() && (#[trigger] done.entries@[i]).0@ == k;
                            let a = if i < at {
                                i
                            } else {
                                i + 1
                            };
                            assert(start.entries@[a].0@ == k);
                            if a < at {
                                assert(start.entries@[a].0@ != start.entries@[at].0@);
                            } else {
                                assert(start.entries@[at].0@ != start.entries@[a].0@);
                            }
                        }
                        if start.holds(k) && k != name@ {
                            let a = choose|a: int|
                                0 <= a < start.entries@.len() && (#[trigger] start.entries@[a]).0@
                                    == k;
                            let i = if a < at {
                                a
                            } else {
                                a - 1
                            };
                            assert(done.entries@[i].0@ == k);
                        }
                    }
                    assert forall|k: Seq<char>| #[trigger] done@.dom().contains(k) implies done@[k]
                        == start@[k] by {
                        let i = choose|i: int|
                            0 <= i < done.entries@.len() && (#[trigger] done.entries@[i]).0@ == k;
                        done.lemma_at(i);
                        start.lemma_at(
                            if i < at {
                                i
                            } else {
                                i + 1
                            },
                        );
                    }
                    assert(done@ =~= start@.remove(name@));
                }
            },
            None => {
                assert(self@ =~= start@.remove(name@));
            },
        }
    }
}

/// The stored secret under a name: a string that is not blank.
pub open spec fn stored_secret(document: Option<Json>, name: Seq<char>) -> Option<Seq<char>> {
    if name.len() == 0 {
        None
    } else {
        match at_key(at_key(document, "credentials"@), name) {
            Some(value) => match value.said() {
                Some(text) => if trim(text).len() > 0 {
                    Some(trim(text))
                } else {
                    None
                },
                None => None,
            },
            None => None,
        }
    }
}

/// What a credentials document holds.
pub open spec fn stored_secrets(document: Option<Json>) -> Map<Seq<char>, Seq<char>> {
    Map::new(
        |name: Seq<char>| stored_secret(document, name) is Some,
        |name: Seq<char>| stored_secret(document, name)->0,
    )
}

/// Reads a credentials document; none is no credentials.
pub fn load_from(document: Option<&Json>) -> (out: Credentials)
    ensures
        out.well_formed(),
        out@ == stored_secrets(borrowed(document)),
{
    let ghost root = borrowed(document);
    let mut out = Credentials::new();
    let section = get_in(document, "credentials");
    let entries = match section {
        Some(section) => match section.as_object() {
            Some(entries) => entries,
            None => {
                assert(out@ =~= stored_secrets(root));
                return out;
            },
        },
        None => {
            assert(out@ =~= stored_secrets(root));
            return out;
        },
    };
    let mut i: usize = 0;
    while i < entries.len()
        invariant
            i <= entries@.len(),
            root == borrowed(document),
            borrowed(section) == at_key(root, "credentials"@),
            section is Some,
            section->0.entries() == Some(entries@),
            out.well_formed(),
            forall|name: Seq<char>| #[trigger]
                out@.dom().contains(name) <==> (stored_secret(root, name) is Some && (exists|k: int|
                    0 <= k < i && (#[trigger] entries@[k]).0@ == name)),
            forall|name: Seq<char>| #[trigger]
                out@.dom().contains(name) ==> out@[name] == stored_secret(root, name)->0,
        decreases entries@.len() - i,
    {
        let name = entries[i].0.as_str();
        let ghost before = out@;
        match get_in(section, name) {
            Some(value) => match value.as_str() {
                Some(text) => {
                    let secret = trimmed(text);
                    if !name.is_empty() && !secret.as_str().is_empty() {
                        out.insert(name, secret.as_str());
                    }
                },
                None => {},
            },
            None => {},
        }
        proof {
            let here = entries@[i as int].0@;
            assert forall|other: Seq<char>| #[trigger]
                out@.dom().contains(other) <==> (stored_secret(root, other) is Some && (exists|k: int|
                    0 <= k < i + 1 && (#[trigger] entries@[k]).0@ == other)) by {
                if other == here {
                    assert(entries@[i as int].0@ == other);
                } else {
                    if exists|k: int| 0 <= k < i + 1 && (#[trigger] entries@[k]).0@ == other {
                        let k = choose|k: int|
                            0 <= k < i + 1 && (#[trigger] entries@[k]).0@ == other;
                        assert(k < i && entries@[k].0@ == other);
                    }
                    assert(out@.dom().contains(other) == before.dom().contains(other));
                }
            }
        }
        i = i + 1;
    }
    proof {
        assert forall|name: Seq<char>| stored_secret(root, name) is Some implies exists|k: int|
            0 <= k < entries@.len() && (#[trigger] entries@[k]).0@ == name by {
            crate::sort::lemma_first_where(entries@, crate::json::named(name), 0);
        }
        assert(out@ =~= stored_secrets(root));
    }
    out
}

/// The credential that a field of the desktop app's store stands for.
pub open spec fn desktop_name(provider: Seq<char>, field: Seq<char>) -> Option<Seq<char>> {
    if provider == "commandcode"@ && contains(field, "cookie"@) {
        Some("TOKEN_MONITOR_COMMANDCODE_COOKIE"@)
    } else if provider == "anthropic"@ && (contains(field, "cookie"@) || contains(field, "session"@)) {
        Some("TOKEN_MONITOR_CLAUDE_WEB_COOKIE"@)
    } else if provider == "openrouter"@ && contains(field, "key"@) {
        Some("TOKEN_MONITOR_OPENROUTER_API_KEY"@)
    } else if provider == "deepseek"@ && contains(field, "key"@) {
        Some("TOKEN_MONITOR_DEEPSEEK_API_KEY"@)
    } else {
        None
    }
}

fn desktop_credential(provider: &str, field: &str) -> (out: Option<&'static str>)
    ensures
        match out {
            Some(name) => desktop_name(provider@, field@) == Some(name@),
            None => desktop_name(provider@, field@) is None,
        },
{
    if same(provider, "commandcode") && has_text(field, "cookie") {
        Some("TOKEN_MONITOR_COMMANDCODE_COOKIE")
    } else if same(provider, "anthropic") && (has_text(field, "cookie") || has_text(field, "session")) {
        Some("TOKEN_MONITOR_CLAUDE_WEB_COOKIE")
    } else if same(provider, "openrouter") && has_text(field, "key") {
        Some("TOKEN_MONITOR_OPENROUTER_API_KEY")
    } else if same(provider, "deepseek") && has_text(field, "key") {
        Some("TOKEN_MONITOR_DEEPSEEK_API_KEY")
    } else {
        None
    }
}

/// The credentials that one provider's fields add; a later field replaces an
/// earlier one.
pub open spec fn with_fields(
    known: Map<Seq<char>, Seq<char>>,
    provider: Seq<char>,
    fields: Seq<(String, Json)>,
) -> Map<Seq<char>, Seq<char>>
    decreases fields.len(),
{
    if fields.len() == 0 {
        known
    } else {
        let before = with_fields(known, provider, fields.drop_last());
        let (field, value) = fields.last();
        match (value.said(), desktop_name(lower(provider), lower(field@))) {
            (Some(text), Some(name)) => if trim(text).len() > 0 {
                before.insert(name, trim(text))
            } else {
                before
            },
            _ => before,
        }
    }
}

/// The credentials that the desktop app's providers add.
pub open spec fn with_providers(providers: Seq<(String, Json)>) -> Map<Seq<char>, Seq<char>>
    decreases providers.len(),
{
    if providers.len() == 0 {
        Map::empty()
    } else {
        let before = with_providers(providers.drop_last());
        match providers.last().1.entries() {
            Some(fields) => with_fields(before, providers.last().0@, fields),
            None => before,
        }
    }
}

/// What the desktop app's credential document holds for the monitor.
pub open spec fn desktop_secrets(document: Option<Json>) -> Map<Seq<char>, Seq<char>> {
    match at_key(at_key(document, "credentials"@), "providers"@) {
        Some(providers) => match providers.entries() {
            Some(entries) => with_providers(entries),
            None => Map::empty(),
        },
        None => Map::empty(),
    }
}

fn add_fields(out: &mut Credentials, provider: &str, fields: &Vec<(String, Json)>)
    requires
        old(out).well_formed(),
    ensures
        final(out).well_formed(),
        final(out)@ == with_fields(old(out)@, provider@, fields@),
{
    let ghost start = out@;
    let lower_provider = to_lower(provider);
    let mut i: usize = 0;
    assert(fields@.take(0) =~= Seq::<(String, Json)>::empty());
    while i < fields.len()
        invariant
            i <= fields@.len(),
            lower_provider@ == lower(provider@),
            out.well_formed(),
            out@ == with_fields(start, provider@, fields@.take(i as int)),
        decreases fields@.len() - i,
    {
        proof {
            assert(fields@.take(i + 1).drop_last() =~= fields@.take(i as int));
            assert(fields@.take(i + 1).last() == fields@[i as int]);
        }
        match fields[i].1.as_str() {
            Some(text) => {
                let secret = trimmed(text);
                if !secret.as_str().is_empty() {
                    let lower_field = to_lower(fields[i].0.as_str());
                    match desktop_credential(lower_provider.as_str(), lower_field.as_str()) {
                        Some(name) => {
                            out.insert(name, secret.as_str());
                        },
                        None => {},
                    }
                }
            },
            None => {},
        }
        i = i + 1;
    }
    assert(fields@.take(i as int) =~= fields@);
}

/// Reads the desktop app's credential document.
pub fn load_app_support_fallback(document: Option<&Json>) -> (out: Credentials)
    ensures
        out.well_formed(),
        out@ == desktop_secrets(borrowed(document)),
{
    let mut out = Credentials::new();
    match get_in(get_in(document, "credentials"), "providers") {
        Some(providers) => match providers.as_object() {
            Some(entries) => {
                let mut i: usize = 0;
                assert(entries@.take(0) =~= Seq::<(String, Json)>::empty());
                while i < entries.len()
                    invariant
                        i <= entries@.len(),
                        out.well_formed(),
                        out@ == with_providers(entries@.take(i as int)),
                    decreases entries@.len() - i,
                {
                    proof {
                        assert(entries@.take(i + 1).drop_last() =~= entries@.take(i as int));
                        assert(entries@.take(i + 1).last() == entries@[i as int]);
                    }
                    match entries[i].1.as_object() {
                        Some(fields) => {
                            add_fields(&mut out, entries[i].0.as_str(), fields);
                        },
                        None => {},
                    }
                    i = i + 1;
                }
                assert(entries@.take(i as int) =~= entries@);
            },
            None => {},
        },
        None => {},
    }
    out
}

/// The file that the monitor's own credentials stand in.
pub fn path(paths: Option<&StoragePaths>) -> (out: Option<String>)
    ensures
        match out {
            Some(path) => paths is Some && path@ == joined(
                paths->0.config_dir@,
                CREDENTIALS_FILE@,
            ),
            None => paths is None,
        },
{
    match paths {
        Some(paths) => Some(join_path(paths.config_dir.as_str(), CREDENTIALS_FILE)),
        None => None,
    }
}

/// The credential under a name: the monitor's own, else the desktop app's.
pub open spec fn credential(
    own: Map<Seq<char>, Seq<char>>,
    desktop: Map<Seq<char>, Seq<char>>,
    name: Seq<char>,
) -> Option<Seq<char>> {
    if trim(name).len() == 0 {
        None
    } else if own.dom().contains(trim(name)) {
        Some(own[trim(name)])
    } else if desktop.dom().contains(trim(name)) {
        Some(desktop[trim(name)])
    } else {
        None
    }
}

pub fn get(own: &Credentials, desktop: &Credentials, name: &str) -> (out: Option<String>)
    requires
        own.well_formed(),
        desktop.well_formed(),
    ensures
        crate::text::maybe_text(out) == credential(own@, desktop@, name@),
{
    let name = trimmed(name);
    if name.as_str().is_empty() {
        return None;
    }
    match own.lookup(name.as_str()) {
        Some(secret) => Some(secret),
        None => desktop.lookup(name.as_str()),
    }
}

pub fn has(own: &Credentials, desktop: &Credentials, name: &str) -> (yes: bool)
    requires
        own.well_formed(),
        desktop.well_formed(),
    ensures
        yes == credential(own@, desktop@, name@) is Some,
{
    get(own, desktop, name).is_some()
}

/// What has to be done to the credentials file.
#[derive(Clone, Copy, Debug, PartialEq, Eq, Structural)]
pub enum StoreAction {
    /// Write the credentials.
    Write,
    /// No credential is left: delete the file.
    Delete,
}

/// Removes a credential. `located` says whether there is a directory for the
/// file.
pub fn remove(own: &mut Credentials, located: bool, name: &str) -> (out: Result<
    StoreAction,
    String,
>)
    requires
        old(own).well_formed(),
    ensures
        final(own).well_formed(),
        match out {
            Ok(action) => {
                &&& located
                &&& final(own)@ == old(own)@.remove(trim(name@))
                &&& action is Delete <==> final(own).entries@.len() == 0
            },
            Err(error) => {
                &&& !located
                &&& final(own)@ == old(own)@
                &&& error@ == "config directory not found"@
            },
        },
{
    if !located {
        return Err("config directory not found".to_owned());
    }
    let name = trimmed(name);
    own.remove(name.as_str());
    if own.entries.len() == 0 {
        Ok(StoreAction::Delete)
    } else {
        Ok(StoreAction::Write)
    }
}

/// Stores a credential; a blank secret removes it.
pub fn set(own: &mut Credentials, located: bool, name: &str, secret: &str) -> (out: Result<
    StoreAction,
    String,
>)
    requires
        old(own).well_formed(),
    ensures
        final(own).well_formed(),
        match out {
            Ok(action) => {
                &&& located
                &&& trim(name@).len() > 0
                &&& if trim(secret@).len() > 0 {
                    final(own)@ == old(own)@.insert(trim(name@), trim(secret@)) && action is Write
                } else {
                    final(own)@ == old(own)@.remove(trim(name@)) && (action is Delete
                        <==> final(own).entries@.len() == 0)
                }
            },
            Err(error) => {
                &&& final(own)@ == old(own)@
                &&& if trim(name@).len() == 0 {
                    error@ == "credential name is empty"@
                } else {
                    !located && error@ == "config directory not found"@
                }
            },
        },
{
    let ghost given = name@;
    let name = trimmed(name);
    let secret = trimmed(secret);
    if name.as_str().is_empty() {
        return Err("credential name is empty".to_owned());
    }
    if secret.as_str().is_empty() {
        proof {
            crate::text::lemma_trim_idempotent(given);
        }
        return remove(own, located, name.as_str());
    }
    if !located {
        return Err("config directory not found".to_owned());
    }
    own.insert(name.as_str(), secret.as_str());
    Ok(StoreAction::Write)
}

/// A secret that was stored is the one that is found, whatever the desktop app
/// holds.
pub proof fn law_set_then_get(
    own: Map<Seq<char>, Seq<char>>,
    desktop: Map<Seq<char>, Seq<char>>,
    name: Seq<char>,
    secret: Seq<char>,
)
    requires
        trim(name).len() > 0,
    ensures
        credential(own.insert(trim(name), trim(secret)), desktop, name) == Some(trim(secret)),
{
}

/// After a removal only the desktop app's credential can still be found.
pub proof fn law_remove_then_get(
    own: Map<Seq<char>, Seq<char>>,
    desktop: Map<Seq<char>, Seq<char>>,
    name: Seq<char>,
)
    ensures
        credential(own.remove(trim(name)), desktop, name) == credential(
            Map::empty(),
            desktop,
            name,
        ),
{
}

/// Storing one credential leaves the others as they were.
pub proof fn law_set_keeps_others(
    own: Map<Seq<char>, Seq<char>>,
    desktop: Map<Seq<char>, Seq<char>>,
    name: Seq<char>,
    secret: Seq<char>,
    other: Seq<char>,
)
    requires
        trim(other) != trim(name),
    ensures
        credential(own.insert(trim(name), trim(secret)), desktop, other) == credential(
            own,
            desktop,
            other,
        ),
{
}

/// Neither a blank name nor a blank secret is ever read from a document.
pub proof fn law_loaded_secrets_are_filled(document: Option<Json>, name: Seq<char>)
    requires
        stored_secrets(document).dom().contains(name),
    ensures
        name.len() > 0,
        stored_secrets(document)[name].len() > 0,
{
}

/// A credential of the monitor's own counts before one of the desktop app.
pub proof fn law_own_credential_counts_first(
    own: Map<Seq<char>, Seq<char>>,
    desktop: Map<Seq<char>, Seq<char>>,
    name: Seq<char>,
)
    requires
        trim(name).len() > 0,
    ensures
        own.dom().contains(trim(name)) ==> credential(own, desktop, name) == Some(own[trim(name)]),
        !own.dom().contains(trim(name)) && desktop.dom().contains(trim(name)) ==> credential(
            own,
            desktop,
            name,
        ) == Some(desktop[trim(name)]),
        !own.dom().contains(trim(name)) && !desktop.dom().contains(trim(name)) ==> credential(
            own,
            desktop,
            name,
        ) is None,
{
}

/// The fields of the desktop app's store stand for credentials by their
/// provider: a cookie for Command Code, a cookie or a session for Anthropic, a
/// key for OpenRouter and for DeepSeek.
pub proof fn law_desktop_fields_have_their_names(field: Seq<char>)
    ensures
        contains(field, "cookie"@) ==> desktop_name("commandcode"@, field) == Some(
            "TOKEN_MONITOR_COMMANDCODE_COOKIE"@,
        ),
        contains(field, "cookie"@) || contains(field, "session"@) ==> desktop_name(
            "anthropic"@,
            field,
        ) == Some("TOKEN_MONITOR_CLAUDE_WEB_COOKIE"@),
        contains(field, "key"@) ==> desktop_name("openrouter"@, field) == Some(
            "TOKEN_MONITOR_OPENROUTER_API_KEY"@,
        ),
        contains(field, "key"@) ==> desktop_name("deepseek"@, field) == Some(
            "TOKEN_MONITOR_DEEPSEEK_API_KEY"@,
        ),
        !contains(field, "key"@) ==> desktop_name("openrouter"@, field) is None && desktop_name(
            "deepseek"@,
            field,
        ) is None,
        !contains(field, "cookie"@) ==> desktop_name("commandcode"@, field) is None,
{
    reveal_strlit("commandcode");
    reveal_strlit("anthropic");
    reveal_strlit("openrouter");
    reveal_strlit("deepseek");
    assert("commandcode"@[0] != "anthropic"@[0]);
    assert("commandcode"@[0] != "openrouter"@[0]);
    assert("commandcode"@[0] != "deepseek"@[0]);
    assert("anthropic"@[0] != "openrouter"@[0]);
    assert("anthropic"@[0] != "deepseek"@[0]);
    assert("openrouter"@[0] != "deepseek"@[0]);
}

/// A stored secret is what its document says under its name, without spaces
/// around it; an empty one is none.
pub proof fn law_stored_secret_is_what_it_says(
    document: Json,
    credentials: Json,
    value: Json,
    name: Seq<char>,
    text: Seq<char>,
)
    requires
        name.len() > 0,
        document.at("credentials"@) == Some(credentials),
        credentials.at(name) == Some(value),
        value.said() == Some(text),
    ensures
        trim(text).len() > 0 ==> stored_secrets(Some(document)).dom().contains(name)
            && stored_secrets(Some(document))[name] == trim(text),
        trim(text).len() == 0 ==> !stored_secrets(Some(document)).dom().contains(name),
{
}

/// A field that stands for a credential and says something sets it; any other
/// field leaves what is known.
pub proof fn law_filled_fields_set_credentials(
    known: Map<Seq<char>, Seq<char>>,
    provider: Seq<char>,
    fields: Seq<(String, Json)>,
    field: (String, Json),
)
    ensures
        ({
            let before = with_fields(known, provider, fields);
            let after = with_fields(known, provider, fields.push(field));
            let name = desktop_name(lower(provider), lower(field.0@));
            let filled = field.1.said() is Some && trim(field.1.said()->0).len() > 0;
            &&& name is Some && filled ==> after == before.insert(
                name->0,
                trim(field.1.said()->0),
            )
            &&& name is None || !filled ==> after == before
        }),
{
    assert(fields.push(field).drop_last() =~= fields);
}

} // verus!
