use vstd::prelude::*;

use crate::text::{copy_str, parse_decimal, parse_u64, str_eq};

verus! {

/// A JSON document as the library reads and builds it. A number is kept in
/// the text that writes it.
#[derive(Debug)]
pub enum Json {
    Null,
    Bool(bool),
    Number(String),
    Str(String),
    Array(Vec<Json>),
    Object(Vec<(String, Json)>),
}

/// The mathematical value of a JSON document.
pub enum JsonV {
    Null,
    Bool(bool),
    Number(Seq<char>),
    Str(Seq<char>),
    Array(Seq<JsonV>),
    Object(Seq<(Seq<char>, JsonV)>),
}

pub open spec fn view_json(j: Json) -> JsonV
    decreases j,
{
    match j {
        Json::Null => JsonV::Null,
        Json::Bool(b) => JsonV::Bool(b),
        Json::Number(n) => JsonV::Number(n@),
        Json::Str(s) => JsonV::Str(s@),
        Json::Array(v) => JsonV::Array(view_items(v@)),
        Json::Object(v) => JsonV::Object(view_entries(v@)),
    }
}

pub open spec fn view_items(s: Seq<Json>) -> Seq<JsonV>
    decreases s,
{
    if s.len() == 0 {
        Seq::empty()
    } else {
        seq![view_json(s[0])] + view_items(s.drop_first())
    }
}

pub open spec fn view_entries(s: Seq<(String, Json)>) -> Seq<(Seq<char>, JsonV)>
    decreases s,
{
    if s.len() == 0 {
        Seq::empty()
    } else {
        seq![(s[0].0@, view_json(s[0].1))] + view_entries(s.drop_first())
    }
}

impl View for Json {
    type V = JsonV;

    open spec fn view(&self) -> JsonV {
        view_json(*self)
    }
}

pub broadcast proof fn lemma_view_items(s: Seq<Json>)
    ensures
        #[trigger] view_items(s).len() == s.len(),
        forall|i: int| 0 <= i < s.len() ==> #[trigger] view_items(s)[i] == view_json(s[i]),
    decreases s.len(),
{
    if s.len() > 0 {
        lemma_view_items(s.drop_first());
        assert forall|i: int| 0 <= i < s.len() implies #[trigger] view_items(s)[i] == view_json(
            s[i],
        ) by {
            if i > 0 {
                assert(s.drop_first()[i - 1] == s[i]);
            }
        }
    }
}

pub broadcast proof fn lemma_view_entries(s: Seq<(String, Json)>)
    ensures
        #[trigger] view_entries(s).len() == s.len(),
        forall|i: int|
            0 <= i < s.len() ==> #[trigger] view_entries(s)[i] == (s[i].0@, view_json(s[i].1)),
    decreases s.len(),
{
    if s.len() > 0 {
        lemma_view_entries(s.drop_first());
        assert forall|i: int| 0 <= i < s.len() implies #[trigger] view_entries(s)[i] == (
        s[i].0@,
        view_json(s[i].1),
        ) by {
            if i > 0 {
                assert(s.drop_first()[i - 1] == s[i]);
            }
        }
    }
}

// ---------------------------------------------------------------------------
// Reading a document
// ---------------------------------------------------------------------------

/// The position of the first entry named `key`.
pub open spec fn entry_index(es: Seq<(Seq<char>, JsonV)>, key: Seq<char>) -> Option<int>
    decreases es.len(),
{
    if es.len() == 0 {
        None
    } else if es[0].0 == key {
        Some(0)
    } else {
        match entry_index(es.drop_first(), key) {
            Some(i) => Some(i + 1),
            None => None,
        }
    }
}

pub proof fn lemma_entry_index(es: Seq<(Seq<char>, JsonV)>, key: Seq<char>, i: int)
    requires
        0 <= i <= es.len(),
        forall|j: int| 0 <= j < i ==> es[j].0 != key,
    ensures
        i < es.len() && es[i].0 == key ==> entry_index(es, key) == Some(i),
        i == es.len() ==> entry_index(es, key) is None,
    decreases i,
{
    if i > 0 {
        lemma_entry_index(es.drop_first(), key, i - 1);
    }
}

/// The member `key` of an object, if it has one (as `value.get("key")` reads it).
pub open spec fn lookup_member(j: JsonV, key: Seq<char>) -> Option<JsonV> {
    match j {
        JsonV::Object(es) => match entry_index(es, key) {
            Some(i) => Some(es[i].1),
            None => None,
        },
        _ => None,
    }
}

/// The member `key` of an object, or null (as `value["key"]` reads it).
pub open spec fn member(j: JsonV, key: Seq<char>) -> JsonV {
    match lookup_member(j, key) {
        Some(v) => v,
        None => JsonV::Null,
    }
}

/// The string a value holds, if it is a string.
pub open spec fn str_of(j: JsonV) -> Option<Seq<char>> {
    match j {
        JsonV::Str(s) => Some(s),
        _ => None,
    }
}

/// The boolean a value holds, if it is one.
pub open spec fn bool_of(j: JsonV) -> Option<bool> {
    match j {
        JsonV::Bool(b) => Some(b),
        _ => None,
    }
}

/// The non-negative integer a value holds, if it holds one that fits in `u64`.
pub open spec fn u64_of(j: JsonV) -> Option<u64> {
    match j {
        JsonV::Number(t) => parse_u64(t),
        _ => None,
    }
}

/// The items of a value, if it is an array.
pub open spec fn items_of(j: JsonV) -> Option<Seq<JsonV>> {
    match j {
        JsonV::Array(v) => Some(v),
        _ => None,
    }
}

/// The string a value holds, or `d`.
pub open spec fn str_or(j: JsonV, d: Seq<char>) -> Seq<char> {
    match j {
        JsonV::Str(s) => s,
        _ => d,
    }
}

/// A JSON string.
pub open spec fn jstr(s: Seq<char>) -> JsonV {
    JsonV::Str(s)
}

impl Json {
    /// The member `key`, if this is an object that has one.
    pub fn get(&self, key: &str) -> (r: Option<&Json>)
        ensures
            r matches Some(v) ==> lookup_member(self@, key@) == Some(v@),
            r is None ==> lookup_member(self@, key@) is None,
    {
        match self {
            Json::Object(es) => {
                proof {
                    lemma_view_entries(es@);
                }
                let n = es.len();
                for i in 0..n
                    invariant
                        n == es@.len(),
                        *self == Json::Object(*es),
                        view_entries(es@).len() == n,
                        forall|k: int|
                            0 <= k < n ==> #[trigger] view_entries(es@)[k] == (es@[k].0@, view_json(
                                es@[k].1,
                            )),
                        forall|j: int| 0 <= j < i ==> view_entries(es@)[j].0 != key@,
                {
                    if str_eq(es[i].0.as_str(), key) {
                        proof {
                            lemma_entry_index(view_entries(es@), key@, i as int);
                            assert(self@ == JsonV::Object(view_entries(es@)));
                            assert(view_entries(es@)[i as int] == (es@[i as int].0@, view_json(
                                es@[i as int].1,
                            )));
                        }
                        return Some(&es[i].1);
                    }
                }
                proof {
                    lemma_entry_index(view_entries(es@), key@, n as int);
                }
                None
            },
            _ => None,
        }
    }

    /// The string this value holds, if it is a string.
    pub fn as_str(&self) -> (r: Option<&str>)
        ensures
            r matches Some(s) ==> str_of(self@) == Some(s@),
            r is None ==> str_of(self@) is None,
    {
        match self {
            Json::Str(s) => Some(s.as_str()),
            _ => None,
        }
    }

    /// The boolean this value holds, if it is one.
    pub fn as_bool(&self) -> (r: Option<bool>)
        ensures
            r == bool_of(self@),
    {
        match self {
            Json::Bool(b) => Some(*b),
            _ => None,
        }
    }

    /// The non-negative integer this value holds, if it holds one that fits in `u64`.
    pub fn as_u64(&self) -> (r: Option<u64>)
        ensures
            r == u64_of(self@),
    {
        match self {
            Json::Number(t) => parse_decimal(t.as_str()),
            _ => None,
        }
    }

    /// The items of this value, if it is an array.
    pub fn as_array(&self) -> (r: Option<&Vec<Json>>)
        ensures
            r matches Some(v) ==> items_of(self@) == Some(view_items(v@)),
            r is None ==> items_of(self@) is None,
    {
        match self {
            Json::Array(v) => Some(v),
            _ => None,
        }
    }

    /// Whether this value is an object.
    pub fn is_object(&self) -> (r: bool)
        ensures
            r == (self@ is Object),
    {
        match self {
            Json::Object(_) => true,
            _ => false,
        }
    }

    /// A copy of this value.
    pub fn copy(&self) -> (r: Json)
        ensures
            r@ == self@,
        decreases self,
    {
        match self {
            Json::Null => Json::Null,
            Json::Bool(b) => Json::Bool(*b),
            Json::Number(t) => Json::Number(t.clone()),
            Json::Str(s) => Json::Str(s.clone()),
            Json::Array(v) => {
                let mut out: Vec<Json> = Vec::new();
                let n = v.len();
                for i in 0..n
                    invariant
                        n == v@.len(),
                        *self == Json::Array(*v),
                        out@.len() == i,
                        forall|k: int| 0 <= k < i ==> #[trigger] view_json(out@[k]) == view_json(v@[k]),
                {
                    proof {
                        assert(decreases_to!(*self => (*self)->Array_0));
                        assert((*self)->Array_0 == *v);
                        assert(decreases_to!(*v => v@));
                        assert(decreases_to!(v@ => v@[i as int]));
                        assert(decreases_to!(*self => v@[i as int]));
                    }
                    let c = v[i].copy();
                    out.push(c);
                }
                proof {
                    lemma_view_items(out@);
                    lemma_view_items(v@);
                    assert(view_items(out@) =~= view_items(v@));
                }
                Json::Array(out)
            },
            Json::Object(es) => {
                let mut out: Vec<(String, Json)> = Vec::new();
                let n = es.len();
                for i in 0..n
                    invariant
                        n == es@.len(),
                        *self == Json::Object(*es),
                        out@.len() == i,
                        forall|k: int|
                            #![trigger out@[k]]
                            0 <= k < i ==> out@[k].0@ == es@[k].0@ && view_json(out@[k].1)
                                == view_json(es@[k].1),
                {
                    proof {
                        assert(decreases_to!(*self => (*self)->Object_0));
                        assert((*self)->Object_0 == *es);
                        assert(decreases_to!(*es => es@));
                        assert(decreases_to!(es@ => es@[i as int]));
                        assert(decreases_to!(es@[i as int] => es@[i as int].1));
                        assert(decreases_to!(*self => es@[i as int].1));
                    }
                    let c = es[i].1.copy();
                    out.push((es[i].0.clone(), c));
                }
                proof {
                    lemma_view_entries(out@);
                    lemma_view_entries(es@);
                    assert(view_entries(out@) =~= view_entries(es@));
                }
                Json::Object(out)
            },
        }
    }
}

// ---------------------------------------------------------------------------
// Building a document
// ---------------------------------------------------------------------------

/// A JSON string holding `s`.
pub fn text(s: &str) -> (r: Json)
    ensures
        r@ == JsonV::Str(s@),
{
    Json::Str(copy_str(s))
}

/// The member `key` of `j`, copied, or null.
pub fn member_or_null(j: &Json, key: &str) -> (r: Json)
    ensures
        r@ == member(j@, key@),
{
    match j.get(key) {
        Some(v) => v.copy(),
        None => Json::Null,
    }
}

/// An object of the given members, in order.
pub fn object(entries: Vec<(String, Json)>) -> (r: Json)
    ensures
        r@ == JsonV::Object(view_entries(entries@)),
{
    Json::Object(entries)
}

/// An array of the given items, in order.
pub fn array(items: Vec<Json>) -> (r: Json)
    ensures
        r@ == JsonV::Array(view_items(items@)),
{
    Json::Array(items)
}

/// The member `a`, then its member `b`, copied, or null.
pub fn member2(j: &Json, a: &str, b: &str) -> (r: Json)
    ensures
        r@ == member(member(j@, a@), b@),
{
    match j.get(a) {
        Some(x) => member_or_null(x, b),
        None => Json::Null,
    }
}

/// The member `a`, then `b`, then `c`, copied, or null.
pub fn member3(j: &Json, a: &str, b: &str, c: &str) -> (r: Json)
    ensures
        r@ == member(member(member(j@, a@), b@), c@),
{
    match j.get(a) {
        Some(x) => member2(x, b, c),
        None => Json::Null,
    }
}

/// The string at member `a` of `j`, if it is one.
pub fn str_at<'a>(j: &'a Json, key: &str) -> (r: Option<&'a str>)
    ensures
        r matches Some(s) ==> str_of(member(j@, key@)) == Some(s@),
        r is None ==> str_of(member(j@, key@)) is None,
{
    match j.get(key) {
        Some(v) => v.as_str(),
        None => None,
    }
}

/// A value is an item of the array at member `key` of an object that holds it.
pub proof fn lemma_member_item_decreases(p: JsonV, key: Seq<char>, i: int)
    requires
        items_of(member(p, key)) is Some,
        0 <= i < items_of(member(p, key))->0.len(),
    ensures
        decreases_to!(p => items_of(member(p, key))->0[i]),
{
    let es = p->Object_0;
    let k = entry_index(es, key)->0;
    assert(member(p, key) == es[k].1);
    lemma_entry_index_bounds(es, key);
    let items = es[k].1->Array_0;
    assert(decreases_to!(p => es));
    assert(decreases_to!(es => es[k]));
    assert(decreases_to!(es[k] => es[k].1));
    assert(decreases_to!(es[k].1 => items));
    assert(decreases_to!(items => items[i]));
}

pub proof fn lemma_entry_index_bounds(es: Seq<(Seq<char>, JsonV)>, key: Seq<char>)
    ensures
        entry_index(es, key) matches Some(i) ==> 0 <= i < es.len() && es[i].0 == key,
    decreases es.len(),
{
    if es.len() > 0 {
        lemma_entry_index_bounds(es.drop_first(), key);
    }
}

/// An object with a member named `key` at position `k` finds a member `key`.
pub proof fn lemma_entry_index_found(es: Seq<(Seq<char>, JsonV)>, key: Seq<char>, k: int)
    requires
        0 <= k < es.len(),
        es[k].0 == key,
    ensures
        entry_index(es, key) is Some,
    decreases k,
{
    if es[0].0 != key {
        assert(es.drop_first()[k - 1] == es[k]);
        lemma_entry_index_found(es.drop_first(), key, k - 1);
    }
}

/// Appends the member `key: value` to a list of members.
pub fn push_member(es: &mut Vec<(String, Json)>, key: &str, value: Json)
    ensures
        view_entries(final(es)@) == view_entries(old(es)@).push((key@, value@)),
{
    let ghost before = es@;
    es.push((copy_str(key), value));
    proof {
        lemma_view_entries(before);
        lemma_view_entries(es@);
        assert(view_entries(es@) =~= view_entries(before).push((key@, value@)));
    }
}

/// Appends an item to a list of items.
pub fn push_item(items: &mut Vec<Json>, value: Json)
    ensures
        view_items(final(items)@) == view_items(old(items)@).push(value@),
{
    let ghost before = items@;
    items.push(value);
    proof {
        lemma_view_items(before);
        lemma_view_items(items@);
        assert(view_items(items@) =~= view_items(before).push(value@));
    }
}

}
