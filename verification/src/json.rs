//! JSON documents as the monitor reads them.

use vstd::prelude::*;

use crate::quantity::Quantity;
use crate::sort::{first_where, lemma_is_first_where};
use crate::text::{maybe_str, maybe_text, same};

verus! {

/// A JSON value. A number comes with its reading as a 64-bit integer, where it
/// has one, and as a quantity; a string with the quantity that it spells,
/// white space around it aside, where it spells one. The entries of an object
/// stand in the order of their keys.
#[derive(Debug)]
pub enum Json {
    Null,
    Bool(bool),
    Number { integer: Option<i64>, value: Quantity },
    Text { text: String, spelled: Option<Quantity> },
    List(Vec<Json>),
    Object(Vec<(String, Json)>),
}

/// The entries with a key.
pub open spec fn named(key: Seq<char>) -> spec_fn((String, Json)) -> bool {
    |entry: (String, Json)| entry.0@ == key
}

impl Json {
    /// The entries of an object.
    pub open spec fn entries(self) -> Option<Seq<(String, Json)>> {
        match self {
            Json::Object(entries) => Some(entries@),
            _ => None,
        }
    }

    /// The value under a key of an object.
    pub open spec fn at(self, key: Seq<char>) -> Option<Json> {
        match self {
            Json::Object(entries) => match first_where(
                entries@,
                named(key),
                0,
            ) {
                Some(i) => Some(entries@[i].1),
                None => None,
            },
            _ => None,
        }
    }

    /// What a string says.
    pub open spec fn said(self) -> Option<Seq<char>> {
        match self {
            Json::Text { text, .. } => Some(text@),
            _ => None,
        }
    }

    /// The integer that a number is.
    pub open spec fn whole(self) -> Option<i64> {
        match self {
            Json::Number { integer, .. } => integer,
            _ => None,
        }
    }

    /// The quantity that a number is or that a string spells.
    pub open spec fn measured(self) -> Option<Quantity> {
        match self {
            Json::Number { value, .. } => Some(value),
            Json::Text { spelled, .. } => spelled,
            _ => None,
        }
    }

    pub open spec fn truth(self) -> Option<bool> {
        match self {
            Json::Bool(value) => Some(value),
            _ => None,
        }
    }

    /// The items of a list.
    pub open spec fn items(self) -> Option<Seq<Json>> {
        match self {
            Json::List(items) => Some(items@),
            _ => None,
        }
    }

    pub fn get(&self, key: &str) -> (out: Option<&Json>)
        ensures
            match out {
                Some(value) => self.at(key@) == Some(*value),
                None => self.at(key@) is None,
            },
    {
        match self {
            Json::Object(entries) => match find_key(entries, key) {
                Some(i) => Some(&entries[i].1),
                None => None,
            },
            _ => None,
        }
    }

    pub fn as_str(&self) -> (out: Option<&str>)
        ensures
            match out {
                Some(text) => self.said() == Some(text@),
                None => self.said() is None,
            },
    {
        match self {
            Json::Text { text, .. } => Some(text.as_str()),
            _ => None,
        }
    }

    pub fn as_i64(&self) -> (out: Option<i64>)
        ensures
            out == self.whole(),
    {
        match self {
            Json::Number { integer, .. } => *integer,
            _ => None,
        }
    }

    pub fn number(&self) -> (out: Option<Quantity>)
        ensures
            out == self.measured(),
    {
        match self {
            Json::Number { value, .. } => Some(*value),
            Json::Text { spelled, .. } => *spelled,
            _ => None,
        }
    }

    pub fn as_bool(&self) -> (out: Option<bool>)
        ensures
            out == self.truth(),
    {
        match self {
            Json::Bool(value) => Some(*value),
            _ => None,
        }
    }

    pub fn as_list(&self) -> (out: Option<&Vec<Json>>)
        ensures
            match out {
                Some(items) => self.items() == Some(items@),
                None => self.items() is None,
            },
    {
        match self {
            Json::List(items) => Some(items),
            _ => None,
        }
    }

    pub fn as_object(&self) -> (out: Option<&Vec<(String, Json)>>)
        ensures
            match out {
                Some(entries) => self.entries() == Some(entries@),
                None => self.entries() is None,
            },
    {
        match self {
            Json::Object(entries) => Some(entries),
            _ => None,
        }
    }
}

/// The position of the first entry under a key.
fn find_key(entries: &Vec<(String, Json)>, key: &str) -> (out: Option<usize>)
    ensures
        match out {
            Some(i) => i < entries@.len() && first_where(
                entries@,
                named(key@),
                0,
            ) == Some(i as int),
            None => first_where(entries@, named(key@), 0) is None,
        },
{
    let ghost wanted = named(key@);
    let mut i: usize = 0;
    while i < entries.len()
        invariant
            i <= entries@.len(),
            wanted == named(key@),
            forall|k: int| 0 <= k < i ==> !wanted(#[trigger] entries@[k]),
        decreases entries@.len() - i,
    {
        if same(entries[i].0.as_str(), key) {
            proof {
                lemma_is_first_where(entries@, wanted, Some(i as int));
            }
            return Some(i);
        }
        i = i + 1;
    }
    proof {
        lemma_is_first_where(entries@, wanted, None);
    }
    None
}

/// The value under a key of a value that may be missing.
pub open spec fn at_key(value: Option<Json>, key: Seq<char>) -> Option<Json> {
    match value {
        Some(value) => value.at(key),
        None => None,
    }
}

/// What the string under a key says.
pub open spec fn said_at(value: Json, key: Seq<char>) -> Option<Seq<char>> {
    match value.at(key) {
        Some(found) => found.said(),
        None => None,
    }
}

/// A borrowed value and the value that it stands for.
pub open spec fn borrowed(value: Option<&Json>) -> Option<Json> {
    match value {
        Some(value) => Some(*value),
        None => None,
    }
}

pub fn get_in<'a>(value: Option<&'a Json>, key: &str) -> (out: Option<&'a Json>)
    ensures
        borrowed(out) == at_key(borrowed(value), key@),
{
    match value {
        Some(value) => value.get(key),
        None => None,
    }
}

pub fn str_at<'a>(value: &'a Json, key: &str) -> (out: Option<&'a str>)
    ensures
        match out {
            Some(text) => said_at(*value, key@) == Some(text@),
            None => said_at(*value, key@) is None,
        },
{
    match value.get(key) {
        Some(found) => found.as_str(),
        None => None,
    }
}

/// A value with another in its place where it is missing.
pub open spec fn either(first: Option<Json>, second: Option<Json>) -> Option<Json> {
    match first {
        Some(value) => Some(value),
        None => second,
    }
}


pub fn first_of<'a>(first: Option<&'a Json>, second: Option<&'a Json>) -> (out: Option<&'a Json>)
    ensures
        borrowed(out) == either(borrowed(first), borrowed(second)),
{
    match first {
        Some(value) => Some(value),
        None => second,
    }
}

/// The value under the key, where none was found before.
pub open spec fn or_at(found: Option<Json>, value: Json, key: Seq<char>) -> Option<Json> {
    either(found, value.at(key))
}

pub fn or_get<'a>(found: Option<&'a Json>, value: &'a Json, key: &str) -> (out: Option<&'a Json>)
    ensures
        borrowed(out) == or_at(borrowed(found), *value, key@),
{
    match found {
        Some(earlier) => Some(earlier),
        None => value.get(key),
    }
}

/// The value under the first of two keys that is there.
pub open spec fn at_either(value: Json, first: Seq<char>, second: Seq<char>) -> Option<Json> {
    either(value.at(first), value.at(second))
}

pub fn get_either<'a>(value: &'a Json, first: &str, second: &str) -> (out: Option<&'a Json>)
    ensures
        borrowed(out) == at_either(*value, first@, second@),
{
    match value.get(first) {
        Some(found) => Some(found),
        None => value.get(second),
    }
}

/// The value under the first of two keys of a value that may be missing.
pub open spec fn either_in(value: Option<Json>, first: Seq<char>, second: Seq<char>) -> Option<Json> {
    match value {
        Some(value) => at_either(value, first, second),
        None => None,
    }
}

pub fn get_either_in<'a>(value: Option<&'a Json>, first: &str, second: &str) -> (out: Option<
    &'a Json,
>)
    ensures
        borrowed(out) == either_in(borrowed(value), first@, second@),
{
    match value {
        Some(value) => get_either(value, first, second),
        None => None,
    }
}

/// What a string says that may be missing.
pub open spec fn said_in(value: Option<Json>) -> Option<Seq<char>> {
    match value {
        Some(value) => value.said(),
        None => None,
    }
}

pub fn str_in<'a>(value: Option<&'a Json>) -> (out: Option<&'a str>)
    ensures
        maybe_str(out) == said_in(borrowed(value)),
{
    match value {
        Some(value) => value.as_str(),
        None => None,
    }
}

/// What a string says, else another text.
pub open spec fn said_or(value: Option<Json>, usual: Seq<char>) -> Seq<char> {
    match said_in(value) {
        Some(text) => text,
        None => usual,
    }
}

pub fn text_or(value: Option<&Json>, usual: &str) -> (out: String)
    ensures
        out@ == said_or(borrowed(value), usual@),
{
    match str_in(value) {
        Some(text) => text.to_owned(),
        None => usual.to_owned(),
    }
}

/// The text of a string that may be missing.
pub fn text_in(value: Option<&Json>) -> (out: Option<String>)
    ensures
        maybe_text(out) == said_in(borrowed(value)),
{
    match str_in(value) {
        Some(text) => Some(text.to_owned()),
        None => None,
    }
}

/// The quantity in a value that may be missing.
pub open spec fn measured_in(value: Option<Json>) -> Option<Quantity> {
    match value {
        Some(value) => value.measured(),
        None => None,
    }
}

pub fn number_in(value: Option<&Json>) -> (out: Option<Quantity>)
    ensures
        out == measured_in(borrowed(value)),
{
    match value {
        Some(value) => value.number(),
        None => None,
    }
}

/// The integer in a value that may be missing.
pub open spec fn whole_in(value: Option<Json>) -> Option<i64> {
    match value {
        Some(value) => value.whole(),
        None => None,
    }
}

pub fn i64_in(value: Option<&Json>) -> (out: Option<i64>)
    ensures
        out == whole_in(borrowed(value)),
{
    match value {
        Some(value) => value.as_i64(),
        None => None,
    }
}

/// The truth value in a value that may be missing.
pub open spec fn truth_in(value: Option<Json>) -> Option<bool> {
    match value {
        Some(value) => value.truth(),
        None => None,
    }
}

pub fn bool_in(value: Option<&Json>) -> (out: Option<bool>)
    ensures
        out == truth_in(borrowed(value)),
{
    match value {
        Some(value) => value.as_bool(),
        None => None,
    }
}

/// The items of a list that may be missing.
pub open spec fn items_in(value: Option<Json>) -> Option<Seq<Json>> {
    match value {
        Some(value) => value.items(),
        None => None,
    }
}

pub open spec fn borrowed_items(items: Option<&Vec<Json>>) -> Option<Seq<Json>> {
    match items {
        Some(items) => Some(items@),
        None => None,
    }
}

pub fn list_in<'a>(value: Option<&'a Json>) -> (out: Option<&'a Vec<Json>>)
    ensures
        borrowed_items(out) == items_in(borrowed(value)),
{
    match value {
        Some(value) => value.as_list(),
        None => None,
    }
}

/// An object holds a value under the first of some names that it has.
pub open spec fn held_under(value: Json, names: Seq<Seq<char>>, found: Json) -> bool {
    exists|i: int|
        0 <= i < names.len() && value.at(#[trigger] names[i]) == Some(found) && forall|k: int|
            0 <= k < i ==> value.at(#[trigger] names[k]) is None
}

/// An object has none of some names.
pub open spec fn lacks(value: Json, names: Seq<Seq<char>>) -> bool {
    forall|i: int| 0 <= i < names.len() ==> value.at(#[trigger] names[i]) is None
}

/// An object gives the value of the first entry with a key, and none for a key
/// that no entry has.
pub proof fn law_first_entry_counts(entries: Vec<(String, Json)>, key: Seq<char>, i: int)
    requires
        0 <= i <= entries@.len(),
        forall|k: int| 0 <= k < i ==> (#[trigger] entries@[k]).0@ != key,
    ensures
        i < entries@.len() && entries@[i].0@ == key ==> Json::Object(entries).at(key) == Some(
            entries@[i].1,
        ),
        i == entries@.len() ==> Json::Object(entries).at(key) is None,
{
    let wanted = named(key);
    if i == entries@.len() {
        lemma_is_first_where(entries@, wanted, None);
    } else if entries@[i].0@ == key {
        lemma_is_first_where(entries@, wanted, Some(i));
    }
}

/// Of several names the first that an object has is read.
pub proof fn lemma_held_under(value: Json, names: Seq<Seq<char>>, found: Json)
    requires
        held_under(value, names, found),
    ensures
        names.len() == 1 ==> value.at(names[0]) == Some(found),
        names.len() == 2 ==> at_either(value, names[0], names[1]) == Some(found),
        names.len() == 3 ==> or_at(at_either(value, names[0], names[1]), value, names[2]) == Some(
            found,
        ),
        names.len() == 4 ==> or_at(
            or_at(at_either(value, names[0], names[1]), value, names[2]),
            value,
            names[3],
        ) == Some(found),
{
    let i = choose|i: int|
        0 <= i < names.len() && value.at(#[trigger] names[i]) == Some(found) && forall|k: int|
            0 <= k < i ==> value.at(#[trigger] names[k]) is None;
    if i > 0 {
        assert(value.at(names[0]) is None);
    }
    if i > 1 {
        assert(value.at(names[1]) is None);
    }
    if i > 2 {
        assert(value.at(names[2]) is None);
    }
}

} // verus!
