//! JSON values as the host reads and builds them.
//!
//! Guest and host exchange JSON text. The host's rules look inside the values
//! (type descriptors, handler arguments, response envelopes), so they work on
//! `Json`, a plain tree. Turning text into a tree and a tree into text is left
//! to `serde_json`: its reading and writing, and the copying between its
//! values and the tree, are what is trusted here.

use vstd::prelude::*;
use crate::text::copy_str;
use crate::text::str_eq;

verus! {

/// A JSON value.
///
/// A number is kept as its JSON text, since nothing in the host computes on
/// numbers. An object keeps its entries in order.
#[derive(Debug, PartialEq, Eq)]
pub enum Json {
    Null,
    Bool(bool),
    Number(String),
    String(String),
    Array(Vec<Json>),
    Object(Vec<(String, Json)>),
}

/// The mathematical value of a `Json`.
pub enum JsonView {
    Null,
    Bool(bool),
    Number(Seq<char>),
    String(Seq<char>),
    Array(Seq<JsonView>),
    Object(Seq<(Seq<char>, JsonView)>),
}

/// The mathematical value of `j`: each text by its characters, each list by
/// the values of its items in order.
pub open spec fn json_view(j: &Json) -> JsonView
    decreases j,
{
    match j {
        Json::Null => JsonView::Null,
        Json::Bool(b) => JsonView::Bool(*b),
        Json::Number(n) => JsonView::Number(n@),
        Json::String(s) => JsonView::String(s@),
        Json::Array(items) => JsonView::Array(
            Seq::new(
                items@.len(),
                |i: int|
                    if 0 <= i < items@.len() {
                        json_view(&items@[i])
                    } else {
                        JsonView::Null
                    },
            ),
        ),
        Json::Object(entries) => JsonView::Object(
            Seq::new(
                entries@.len(),
                |i: int|
                    if 0 <= i < entries@.len() {
                        (entries@[i].0@, json_view(&entries@[i].1))
                    } else {
                        (Seq::<char>::empty(), JsonView::Null)
                    },
            ),
        ),
    }
}

impl View for Json {
    type V = JsonView;

    open spec fn view(&self) -> JsonView {
        json_view(self)
    }
}

/// The values of a list of `Json`.
pub open spec fn json_views(items: Seq<Json>) -> Seq<JsonView> {
    Seq::new(items.len(), |i: int| items[i]@)
}

/// The values of a list of keyed `Json`.
pub open spec fn entry_views(entries: Seq<(String, Json)>) -> Seq<(Seq<char>, JsonView)> {
    Seq::new(entries.len(), |i: int| (entries[i].0@, entries[i].1@))
}

/// The position of the first entry with key `key` among `entries[from..]`,
/// or the length of `entries` where there is none.
pub open spec fn find_key(entries: Seq<(Seq<char>, JsonView)>, key: Seq<char>, from: int) -> int
    decreases entries.len() - from,
{
    if from < 0 || from >= entries.len() {
        entries.len() as int
    } else if entries[from].0 == key {
        from
    } else {
        find_key(entries, key, from + 1)
    }
}

/// The value of the first entry with key `key`.
pub open spec fn lookup(entries: Seq<(Seq<char>, JsonView)>, key: Seq<char>) -> Option<JsonView> {
    let at = find_key(entries, key, 0);
    if 0 <= at < entries.len() {
        Some(entries[at].1)
    } else {
        None
    }
}

/// `find_key` names an entry with the key that no earlier entry has.
pub proof fn lemma_find_key(entries: Seq<(Seq<char>, JsonView)>, key: Seq<char>, from: int)
    requires
        0 <= from <= entries.len(),
    ensures
        from <= find_key(entries, key, from) <= entries.len(),
        find_key(entries, key, from) < entries.len() ==> entries[find_key(
            entries,
            key,
            from,
        )].0 == key,
        forall|i: int| from <= i < find_key(entries, key, from) ==> entries[i].0 != key,
    decreases entries.len() - from,
{
    if from < entries.len() && entries[from].0 != key {
        lemma_find_key(entries, key, from + 1);
    }
}

impl JsonView {
    /// The member `key` of an object; `None` for a missing member and for a
    /// value that is no object.
    pub open spec fn get(self, key: Seq<char>) -> Option<JsonView> {
        match self {
            JsonView::Object(entries) => lookup(entries, key),
            _ => None,
        }
    }

    /// The text of a string value.
    pub open spec fn as_str(self) -> Option<Seq<char>> {
        match self {
            JsonView::String(s) => Some(s),
            _ => None,
        }
    }
}

/// What `serde_json::from_str` makes of a text: the value it reads, or `None`
/// where it reports an error.
pub uninterp spec fn json_parse(text: Seq<char>) -> Option<JsonView>;

/// What a `serde_json::Value` holds: its tree, with the entries of an object
/// in the order in which its map hands them out.
pub uninterp spec fn value_model(v: serde_json::Value) -> JsonView;

/// The compact text that `serde_json::to_string` writes for a
/// `serde_json::Value` that holds the given tree.
pub uninterp spec fn value_text(value: JsonView) -> Seq<char>;

/// The compact text of a tree: what `serde_json::to_string` writes for the
/// copy of the tree into a `serde_json::Value`. The copy reads each number
/// anew from its text, and a number read from a text may be written as
/// another text than the one it was read from; so the text of a tree is
/// that of its copy, not that of the tree taken as a value.
pub uninterp spec fn json_text(value: JsonView) -> Seq<char>;

/// `serde_json::Value`, taken as it is: nothing of its inside is known
/// here.
#[verifier::external_type_specification]
#[verifier::external_body]
pub struct ExValue(serde_json::Value);

/// Reads JSON text.
///
/// Trusted: the body is `serde_json::from_str`, asked for a
/// `serde_json::Value`; an error of the parser becomes `None`. The contract
/// names what comes back.
#[verifier::external_body]
fn value_from_str(text: &str) -> (r: Option<serde_json::Value>)
    ensures
        match r {
            Some(v) => json_parse(text@) == Some(value_model(v)),
            None => json_parse(text@) is None,
        },
{
    serde_json::from_str::<serde_json::Value>(text).ok()
}

/// Copies a `serde_json::Value` into a `Json`, node for node.
///
/// Trusted: the body tells the variants of `serde_json::Value` apart and
/// moves what they hold; a number is kept as the text that its `Display`
/// writes, and the entries of an object come as `Map::iter` hands them out.
#[verifier::external_body]
fn json_of_value(v: &serde_json::Value) -> (r: Json)
    ensures
        r@ == value_model(*v),
{
    match v {
        serde_json::Value::Null => Json::Null,
        serde_json::Value::Bool(b) => Json::Bool(*b),
        serde_json::Value::Number(n) => Json::Number(n.to_string()),
        serde_json::Value::String(s) => Json::String(s.clone()),
        serde_json::Value::Array(a) => Json::Array(a.iter().map(json_of_value).collect()),
        serde_json::Value::Object(o) => Json::Object(
            o.iter().map(|(k, x)| (k.clone(), json_of_value(x))).collect(),
        ),
    }
}

/// Copies a `Json` into a `serde_json::Value`, node for node. A number whose
/// text `serde_json` does not read as a number becomes null, and of two
/// entries of an object with one key the later stays.
///
/// Trusted: the body builds the variants of `serde_json::Value` from what
/// the tree holds, a number through `str::parse`. Nothing is claimed of
/// what the copy holds, but that it depends on the tree alone: the text
/// that is written for the copy is the one that `json_text` names for the
/// tree.
#[verifier::external_body]
fn value_of_json(j: &Json) -> (v: serde_json::Value)
    ensures
        value_text(value_model(v)) == json_text(j@),
{
    match j {
        Json::Null => serde_json::Value::Null,
        Json::Bool(b) => serde_json::Value::Bool(*b),
        Json::Number(n) => n.parse().map_or(serde_json::Value::Null, serde_json::Value::Number),
        Json::String(s) => serde_json::Value::String(s.clone()),
        Json::Array(a) => serde_json::Value::Array(a.iter().map(value_of_json).collect()),
        Json::Object(o) => serde_json::Value::Object(
            o.iter().map(|(k, x)| (k.clone(), value_of_json(x))).collect(),
        ),
    }
}

/// Writes a `serde_json::Value` as compact JSON text.
///
/// Trusted: the body is `serde_json::to_string`, whose text depends on
/// what the value holds alone. Writing a `serde_json::Value` has no error
/// case: its keys are strings and its numbers are finite.
#[verifier::external_body]
fn value_to_string(v: &serde_json::Value) -> (r: String)
    ensures
        r@ == value_text(value_model(*v)),
{
    serde_json::to_string(v).unwrap_or_default()
}

impl Json {
    /// The array of the given items.
    pub fn array(items: Vec<Json>) -> (r: Json)
        ensures
            r@ == JsonView::Array(json_views(items@)),
    {
        let r = Json::Array(items);
        proof {
            assert(r@->Array_0 =~= json_views(items@));
        }
        r
    }

    /// The object of the given entries.
    pub fn object(entries: Vec<(String, Json)>) -> (r: Json)
        ensures
            r@ == JsonView::Object(entry_views(entries@)),
    {
        let r = Json::Object(entries);
        proof {
            assert(r@->Object_0 =~= entry_views(entries@));
        }
        r
    }

    /// The string of the given text.
    pub fn string(text: String) -> (r: Json)
        ensures
            r@ == JsonView::String(text@),
    {
        Json::String(text)
    }

    /// The number `n`.
    pub fn integer(n: i64) -> (r: Json)
        ensures
            r@ == JsonView::Number(crate::text::decimal(n as int)),
    {
        Json::Number(crate::text::decimal_of(n))
    }

    /// Reads a JSON text. `None` where the text is not JSON.
    pub fn parse(text: &str) -> (r: Option<Json>)
        ensures
            match r {
                Some(j) => json_parse(text@) == Some(j@),
                None => json_parse(text@) is None,
            },
    {
        match value_from_str(text) {
            Some(v) => Some(json_of_value(&v)),
            None => None,
        }
    }

    /// The compact JSON text of the value.
    pub fn render(&self) -> (r: String)
        ensures
            r@ == json_text(self@),
    {
        let v = value_of_json(self);
        value_to_string(&v)
    }

    /// The text of a string value.
    pub fn as_str(&self) -> (r: Option<&str>)
        ensures
            match r {
                Some(s) => self@.as_str() == Some(s@),
                None => self@.as_str() is None,
            },
    {
        match self {
            Json::String(s) => Some(s.as_str()),
            _ => None,
        }
    }

    /// The member `key` of an object: the value of its first entry with that
    /// key. `None` for a missing member and for a value that is no object.
    pub fn get(&self, key: &str) -> (r: Option<&Json>)
        ensures
            match r {
                Some(j) => self@.get(key@) == Some(j@),
                None => self@.get(key@) is None,
            },
    {
        match self {
            Json::Object(entries) => {
                let ghost es = self@->Object_0;
                let mut i: usize = 0;
                proof {
                    lemma_find_key(es, key@, 0);
                }
                while i < entries.len()
                    invariant
                        i <= entries@.len(),
                        self@ == JsonView::Object(es),
                        es.len() == entries@.len(),
                        find_key(es, key@, 0) == find_key(es, key@, i as int),
                        forall|k: int|
                            0 <= k < entries@.len() ==> #[trigger] es[k] == (
                                entries@[k].0@,
                                entries@[k].1@,
                            ),
                    decreases entries@.len() - i,
                {
                    proof {
                        lemma_find_key(es, key@, i as int);
                        if i + 1 <= es.len() {
                            lemma_find_key(es, key@, i + 1);
                        }
                    }
                    if str_eq(entries[i].0.as_str(), key) {
                        return Some(&entries[i].1);
                    }
                    i += 1;
                }
                None
            },
            _ => None,
        }
    }

    /// A copy of the value.
    #[verifier::loop_isolation(false)]
    pub fn copy(&self) -> (r: Json)
        ensures
            r@ == self@,
        decreases self,
    {
        match self {
            Json::Null => Json::Null,
            Json::Bool(b) => Json::Bool(*b),
            Json::Number(n) => Json::Number(copy_str(n.as_str())),
            Json::String(s) => Json::String(copy_str(s.as_str())),
            Json::Array(items) => {
                let mut out: Vec<Json> = Vec::new();
                let mut i: usize = 0;
                while i < items.len()
                    invariant
                        i <= items@.len(),
                        out@.len() == i,
                        forall|k: int| 0 <= k < i ==> (#[trigger] out@[k])@ == items@[k]@,
                    decreases items@.len() - i,
                {
                    out.push(items[i].copy());
                    i += 1;
                }
                let r = Json::Array(out);
                proof {
                    assert(r@->Array_0 =~= self@->Array_0);
                }
                r
            },
            Json::Object(entries) => {
                let mut out: Vec<(String, Json)> = Vec::new();
                let mut i: usize = 0;
                while i < entries.len()
                    invariant
                        i <= entries@.len(),
                        out@.len() == i,
                        forall|k: int|
                            0 <= k < i ==> (#[trigger] out@[k]).0@ == entries@[k].0@ && out@[k].1@
                                == entries@[k].1@,
                    decreases entries@.len() - i,
                {
                    out.push((copy_str(entries[i].0.as_str()), entries[i].1.copy()));
                    i += 1;
                }
                let r = Json::Object(out);
                proof {
                    assert forall|k: int| 0 <= k < entries@.len() implies r@->Object_0[k]
                        == self@->Object_0[k] by {
                        assert(out@[k].0@ == entries@[k].0@);
                    }
                    assert(r@->Object_0 =~= self@->Object_0);
                }
                r
            },
        }
    }
}

} // verus!
