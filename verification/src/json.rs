//! A JSON document model: the values that requests carry and that replies and
//! node states hold. Objects are lists of entries; as in a map that is filled by
//! inserting the entries in order, the last entry under a key is the one that counts.
use vstd::prelude::*;
use crate::text::{text_eq, copy_text};

verus! {

/// A JSON value. Numbers are kept as their decimal text.
#[derive(PartialEq, Debug)]
pub enum Json {
    Null,
    Bool(bool),
    Number(String),
    Str(String),
    Array(Vec<Json>),
    Object(Vec<(String, Json)>),
}

/// The mathematical form of a [`Json`] value: strings are character sequences.
pub enum JsonV {
    Null,
    Bool(bool),
    Number(Seq<char>),
    Str(Seq<char>),
    Array(Seq<JsonV>),
    Object(Seq<(Seq<char>, JsonV)>),
}

pub open spec fn items_view(items: Seq<Json>) -> Seq<JsonV>
    decreases items,
{
    if items.len() == 0 {
        Seq::empty()
    } else {
        items_view(items.drop_last()).push(items.last().view())
    }
}

pub open spec fn entries_view(entries: Seq<(String, Json)>) -> Seq<(Seq<char>, JsonV)>
    decreases entries,
{
    if entries.len() == 0 {
        Seq::empty()
    } else {
        entries_view(entries.drop_last()).push((entries.last().0@, entries.last().1.view()))
    }
}

impl Json {
    pub open spec fn view(&self) -> JsonV
        decreases self,
    {
        match self {
            Json::Null => JsonV::Null,
            Json::Bool(b) => JsonV::Bool(*b),
            Json::Number(n) => JsonV::Number(n@),
            Json::Str(s) => JsonV::Str(s@),
            Json::Array(items) => JsonV::Array(items_view(items@)),
            Json::Object(entries) => JsonV::Object(entries_view(entries@)),
        }
    }
}

/// The value of the last entry under `key`, if there is one.
pub open spec fn lookup(entries: Seq<(Seq<char>, JsonV)>, key: Seq<char>) -> Option<JsonV>
    decreases entries.len(),
{
    if entries.len() == 0 {
        None
    } else if entries.last().0 == key {
        Some(entries.last().1)
    } else {
        lookup(entries.drop_last(), key)
    }
}

impl JsonV {
    /// The member `key` of an object; `None` for a missing key or a value that is no object.
    pub open spec fn field(self, key: Seq<char>) -> Option<JsonV> {
        match self {
            JsonV::Object(entries) => lookup(entries, key),
            _ => None,
        }
    }

    /// The element at `i` of an array; `None` out of range or for a value that is no array.
    pub open spec fn at(self, i: int) -> Option<JsonV> {
        match self {
            JsonV::Array(items) => if 0 <= i < items.len() { Some(items[i]) } else { None },
            _ => None,
        }
    }

    /// The text of a string value.
    pub open spec fn as_str(self) -> Option<Seq<char>> {
        match self {
            JsonV::Str(s) => Some(s),
            _ => None,
        }
    }

    /// The object with `key` set to `value`, every other member kept.
    pub open spec fn with_field(self, key: Seq<char>, value: JsonV) -> JsonV {
        match self {
            JsonV::Object(entries) => JsonV::Object(entries.push((key, value))),
            _ => JsonV::Object(seq![(key, value)]),
        }
    }
}

/// The view of an optional reference to a value.
pub open spec fn opt_view(r: Option<&Json>) -> Option<JsonV> {
    match r {
        Some(v) => Some(v@),
        None => None,
    }
}

/// The text of `v` when it is a string, and `None` otherwise, over an optional value.
pub open spec fn opt_str(v: Option<JsonV>) -> Option<Seq<char>> {
    match v {
        Some(x) => x.as_str(),
        None => None,
    }
}

pub proof fn lemma_items_view(items: Seq<Json>)
    ensures
        items_view(items).len() == items.len(),
        forall|i: int| 0 <= i < items.len() ==> #[trigger] items_view(items)[i] == items[i]@,
    decreases items.len(),
{
    if items.len() > 0 {
        lemma_items_view(items.drop_last());
    }
}

pub proof fn lemma_entries_view(entries: Seq<(String, Json)>)
    ensures
        entries_view(entries).len() == entries.len(),
        forall|i: int|
            0 <= i < entries.len() ==> #[trigger] entries_view(entries)[i] == (
                entries[i].0@,
                entries[i].1@,
            ),
    decreases entries.len(),
{
    if entries.len() > 0 {
        lemma_entries_view(entries.drop_last());
    }
}

/// An entry after the last one under `key` does not change what `key` looks up.
proof fn lemma_lookup_prefix(entries: Seq<(Seq<char>, JsonV)>, key: Seq<char>, i: int)
    requires
        0 <= i <= entries.len(),
        forall|j: int| i <= j < entries.len() ==> #[trigger] entries[j].0 != key,
    ensures
        lookup(entries, key) == lookup(entries.take(i), key),
    decreases entries.len() - i,
{
    if i < entries.len() {
        lemma_lookup_prefix(entries, key, i + 1);
        assert(entries.take(i + 1).drop_last() =~= entries.take(i));
    } else {
        assert(entries.take(i) =~= entries);
    }
}

impl Json {
    /// The member `key` of an object value.
    pub fn field<'a>(&'a self, key: &str) -> (r: Option<&'a Json>)
        ensures
            opt_view(r) == self@.field(key@),
    {
        match self {
            Json::Object(entries) => {
                proof {
                    lemma_entries_view(entries@);
                }
                let ghost ev = entries_view(entries@);
                let mut i = entries.len();
                assert(ev.take(i as int) =~= ev);
                while i > 0
                    invariant
                        i <= entries.len(),
                        ev == entries_view(entries@),
                        self@ == JsonV::Object(ev),
                        ev.len() == entries.len(),
                        forall|j: int| 0 <= j < entries.len() ==> #[trigger] ev[j] == (
                            entries@[j].0@,
                            entries@[j].1@,
                        ),
                        lookup(ev, key@) == lookup(ev.take(i as int), key@),
                    decreases i,
                {
                    if text_eq(entries[i - 1].0.as_str(), key) {
                        assert(ev.take(i as int).last() == ev[i - 1]);
                        assert(ev[i - 1].0 == key@);
                        assert(lookup(ev.take(i as int), key@) == Some(ev[i - 1].1));
                        assert(self@ == JsonV::Object(ev));
                        assert(self@.field(key@) == Some(entries@[i - 1].1@));
                        return Some(&entries[i - 1].1);
                    }
                    assert(ev.take(i as int).drop_last() =~= ev.take(i - 1));
                    i = i - 1;
                }
                None
            },
            _ => None,
        }
    }

    /// The element at `i` of an array value.
    pub fn at<'a>(&'a self, i: usize) -> (r: Option<&'a Json>)
        ensures
            opt_view(r) == self@.at(i as int),
    {
        match self {
            Json::Array(items) => {
                proof {
                    lemma_items_view(items@);
                }
                if i < items.len() {
                    Some(&items[i])
                } else {
                    None
                }
            },
            _ => None,
        }
    }

    /// The text of a string value.
    pub fn as_str<'a>(&'a self) -> (r: Option<&'a str>)
        ensures
            match r {
                Some(s) => self@.as_str() == Some(s@),
                None => self@.as_str() is None,
            },
    {
        match self {
            Json::Str(s) => Some(s.as_str()),
            _ => None,
        }
    }

    /// A string value holding `s`.
    pub fn text(s: &str) -> (r: Json)
        ensures
            r@ == JsonV::Str(s@),
    {
        Json::Str(copy_text(s))
    }

    /// A copy of this value.
    #[verifier::loop_isolation(false)]
    pub fn duplicate(&self) -> (r: Json)
        ensures
            r@ == self@,
        decreases self,
    {
        match self {
            Json::Null => Json::Null,
            Json::Bool(b) => Json::Bool(*b),
            Json::Number(n) => Json::Number(copy_text(n.as_str())),
            Json::Str(s) => Json::Str(copy_text(s.as_str())),
            Json::Array(items) => {
                let mut out: Vec<Json> = Vec::new();
                let mut i: usize = 0;
                while i < items.len()
                    invariant
                        i <= items.len(),
                        items_view(out@) == items_view(items@.take(i as int)),
                    decreases items.len() - i,
                {
                    let x = items[i].duplicate();
                    let ghost before = out@;
                    out.push(x);
                    assert(out@.drop_last() =~= before);
                    assert(items@.take(i + 1).drop_last() =~= items@.take(i as int));
                    i = i + 1;
                }
                assert(items@.take(items.len() as int) =~= items@);
                Json::Array(out)
            },
            Json::Object(entries) => {
                let mut out: Vec<(String, Json)> = Vec::new();
                let mut i: usize = 0;
                while i < entries.len()
                    invariant
                        i <= entries.len(),
                        entries_view(out@) == entries_view(entries@.take(i as int)),
                    decreases entries.len() - i,
                {
                    let x = entries[i].1.duplicate();
                    let k = copy_text(entries[i].0.as_str());
                    let ghost before = out@;
                    out.push((k, x));
                    assert(out@.drop_last() =~= before);
                    assert(entries@.take(i + 1).drop_last() =~= entries@.take(i as int));
                    i = i + 1;
                }
                assert(entries@.take(entries.len() as int) =~= entries@);
                Json::Object(out)
            },
        }
    }
}

/// Looks up `key` in an optional value.
pub open spec fn opt_field(v: Option<JsonV>, key: Seq<char>) -> Option<JsonV> {
    match v {
        Some(x) => x.field(key),
        None => None,
    }
}

/// Looks up position `i` in an optional value.
pub open spec fn opt_at(v: Option<JsonV>, i: int) -> Option<JsonV> {
    match v {
        Some(x) => x.at(i),
        None => None,
    }
}

/// Setting a member and reading it back gives the value set; every other member
/// reads as before.
pub proof fn lemma_with_field_then_field(v: JsonV, key: Seq<char>, value: JsonV, other: Seq<char>)
    ensures
        v.with_field(key, value).field(key) == Some(value),
        other != key ==> v.with_field(key, value).field(other) == v.field(other),
{
    match v {
        JsonV::Object(entries) => {
            let pushed = entries.push((key, value));
            assert(pushed.drop_last() =~= entries);
            assert(pushed.last() == (key, value));
            assert(v.with_field(key, value) == JsonV::Object(pushed));
            if other != key {
                assert(lookup(pushed, other) == lookup(entries, other));
            }
        },
        _ => {
            let single = seq![(key, value)];
            assert(single.drop_last() =~= Seq::<(Seq<char>, JsonV)>::empty());
            assert(single.last() == (key, value));
            assert(v.with_field(key, value) == JsonV::Object(single));
            assert(v.field(other) is None);
            if other != key {
                assert(lookup(single, other) == lookup(single.drop_last(), other));
                assert(lookup(single, other) is None);
            }
        },
    }
}

/// A member of an object: `key` and its value.
pub fn entry(key: &str, value: Json) -> (r: (String, Json))
    ensures
        r.0@ == key@,
        r.1@ == value@,
{
    (copy_text(key), value)
}

/// An object with the given members, in order.
pub fn object(entries: Vec<(String, Json)>) -> (r: Json)
    ensures
        r@ == JsonV::Object(entries_view(entries@)),
{
    Json::Object(entries)
}

/// An array with the given elements, in order.
pub fn array(items: Vec<Json>) -> (r: Json)
    ensures
        r@ == JsonV::Array(items_view(items@)),
{
    Json::Array(items)
}

/// An object with one member.
pub fn object1(k1: &str, v1: Json) -> (r: Json)
    ensures
        r@ == JsonV::Object(seq![(k1@, v1@)]),
{
    let entries = vec![entry(k1, v1)];
    proof {
        lemma_entries_view(entries@);
    }
    let r = Json::Object(entries);
    assert(r@ =~= JsonV::Object(seq![(k1@, v1@)])) by {
        assert(entries_view(entries@) =~= seq![(k1@, v1@)]);
    }
    r
}

/// An object with two members.
pub fn object2(k1: &str, v1: Json, k2: &str, v2: Json) -> (r: Json)
    ensures
        r@ == JsonV::Object(seq![(k1@, v1@), (k2@, v2@)]),
{
    let entries = vec![entry(k1, v1), entry(k2, v2)];
    proof {
        lemma_entries_view(entries@);
    }
    let r = Json::Object(entries);
    assert(entries_view(entries@) =~= seq![(k1@, v1@), (k2@, v2@)]);
    r
}

/// An object with three members.
pub fn object3(k1: &str, v1: Json, k2: &str, v2: Json, k3: &str, v3: Json) -> (r: Json)
    ensures
        r@ == JsonV::Object(seq![(k1@, v1@), (k2@, v2@), (k3@, v3@)]),
{
    let entries = vec![entry(k1, v1), entry(k2, v2), entry(k3, v3)];
    proof {
        lemma_entries_view(entries@);
    }
    let r = Json::Object(entries);
    assert(entries_view(entries@) =~= seq![(k1@, v1@), (k2@, v2@), (k3@, v3@)]);
    r
}

/// An object with four members.
pub fn object4(k1: &str, v1: Json, k2: &str, v2: Json, k3: &str, v3: Json, k4: &str, v4: Json) -> (r:
    Json)
    ensures
        r@ == JsonV::Object(seq![(k1@, v1@), (k2@, v2@), (k3@, v3@), (k4@, v4@)]),
{
    let entries = vec![entry(k1, v1), entry(k2, v2), entry(k3, v3), entry(k4, v4)];
    proof {
        lemma_entries_view(entries@);
    }
    let r = Json::Object(entries);
    assert(entries_view(entries@) =~= seq![(k1@, v1@), (k2@, v2@), (k3@, v3@), (k4@, v4@)]);
    r
}

/// An array of the strings `texts`, in order.
pub fn string_array(texts: &Vec<String>) -> (r: Json)
    ensures
        r@ == JsonV::Array(texts@.map_values(|t: String| JsonV::Str(t@))),
{
    let mut items: Vec<Json> = Vec::new();
    let mut i: usize = 0;
    while i < texts.len()
        invariant
            i <= texts.len(),
            items_view(items@) == texts@.take(i as int).map_values(|t: String| JsonV::Str(t@)),
        decreases texts.len() - i,
    {
        let ghost before = items@;
        items.push(Json::text(texts[i].as_str()));
        assert(items@.drop_last() =~= before);
        assert(texts@.take(i + 1).map_values(|t: String| JsonV::Str(t@)) =~= texts@.take(
            i as int,
        ).map_values(|t: String| JsonV::Str(t@)).push(JsonV::Str(texts@[i as int]@)));
        i = i + 1;
    }
    assert(texts@.take(texts.len() as int) =~= texts@);
    Json::Array(items)
}

/// An array with one element.
pub fn array1(v1: Json) -> (r: Json)
    ensures
        r@ == JsonV::Array(seq![v1@]),
{
    let items = vec![v1];
    proof {
        lemma_items_view(items@);
    }
    let r = Json::Array(items);
    assert(items_view(items@) =~= seq![v1@]);
    r
}

impl Json {
    /// Sets the member `key` of an object to `value`, as inserting into a map does;
    /// a value that is no object becomes an object holding just that member.
    pub fn set_field(&mut self, key: &str, value: Json)
        ensures
            final(self)@ == old(self)@.with_field(key@, value@),
    {
        let k = copy_text(key);
        match self {
            Json::Object(entries) => {
                let ghost before = entries@;
                entries.push((k, value));
                proof {
                    assert(entries@.drop_last() =~= before);
                }
            },
            _ => {
                *self = object1(key, value);
            },
        }
    }
}

} // verus!
