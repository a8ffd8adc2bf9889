//! A plain JSON value tree, with a ghost model over sequences, and the
//! object-field lookups the response decoders build on.
//!
//! The remote's replies reach the library as values of [`Json`]; every
//! decoder in this crate is verified against the ghost model [`JVal`].

use vstd::prelude::*;
use crate::strutil::str_eq;

verus! {

/// A JSON document as plain data. Numbers are unsigned integers: the
/// remote's schema uses nothing else where this library reads a number.
pub enum Json {
    Null,
    Bool(bool),
    Num(u64),
    Str(String),
    Arr(Vec<Json>),
    Obj(Vec<(String, Json)>),
}

/// The ghost model of a JSON document.
pub enum JVal {
    Null,
    Bool(bool),
    Num(u64),
    Str(Seq<char>),
    Arr(Seq<JVal>),
    Obj(Seq<(Seq<char>, JVal)>),
}

/// Ghost model of a list of array items.
pub open spec fn jarr_view(items: Seq<Json>) -> Seq<JVal>
    decreases items,
{
    if items.len() == 0 {
        Seq::empty()
    } else {
        seq![jval_of(items[0])] + jarr_view(items.drop_first())
    }
}

/// Ghost model of an object's entry list.
pub open spec fn jobj_view(entries: Seq<(String, Json)>) -> Seq<(Seq<char>, JVal)>
    decreases entries,
{
    if entries.len() == 0 {
        Seq::empty()
    } else {
        seq![(entries[0].0@, jval_of(entries[0].1))] + jobj_view(entries.drop_first())
    }
}

/// Ghost model of a JSON value.
pub open spec fn jval_of(j: Json) -> JVal
    decreases j,
{
    match j {
        Json::Null => JVal::Null,
        Json::Bool(b) => JVal::Bool(b),
        Json::Num(n) => JVal::Num(n),
        Json::Str(s) => JVal::Str(s@),
        Json::Arr(items) => JVal::Arr(jarr_view(items@)),
        Json::Obj(entries) => JVal::Obj(jobj_view(entries@)),
    }
}

/// The model of an item list is the item-wise model.
pub proof fn lemma_jarr_view(items: Seq<Json>)
    ensures
        jarr_view(items).len() == items.len(),
        forall|i: int| 0 <= i < items.len() ==> jarr_view(items)[i] == jval_of(items[i]),
    decreases items,
{
    if items.len() > 0 {
        lemma_jarr_view(items.drop_first());
    }
}

/// The model of an entry list is the entry-wise model.
pub proof fn lemma_jobj_view(entries: Seq<(String, Json)>)
    ensures
        jobj_view(entries).len() == entries.len(),
        forall|i: int|
            0 <= i < entries.len() ==> jobj_view(entries)[i] == (
            entries[i].0@,
            jval_of(entries[i].1),
            ),
    decreases entries,
{
    if entries.len() > 0 {
        lemma_jobj_view(entries.drop_first());
    }
}

impl View for Json {
    type V = JVal;

    open spec fn view(&self) -> JVal {
        jval_of(*self)
    }
}

/// First binding of `key` in an object's entries, if any.
pub open spec fn obj_lookup(entries: Seq<(Seq<char>, JVal)>, key: Seq<char>) -> Option<JVal>
    decreases entries.len(),
{
    if entries.len() == 0 {
        None
    } else if entries[0].0 == key {
        Some(entries[0].1)
    } else {
        obj_lookup(entries.drop_first(), key)
    }
}

proof fn lemma_obj_lookup_at(s: Seq<(Seq<char>, JVal)>, key: Seq<char>, i: int)
    requires
        0 <= i < s.len(),
        s[i].0 == key,
        forall|j: int| 0 <= j < i ==> s[j].0 != key,
    ensures
        obj_lookup(s, key) == Some(s[i].1),
    decreases i,
{
    if i == 0 {
    } else {
        assert(s.drop_first()[i - 1] == s[i]);
        assert(forall|j: int| 0 <= j < i - 1 ==> s.drop_first()[j] == s[j + 1]);
        lemma_obj_lookup_at(s.drop_first(), key, i - 1);
    }
}

proof fn lemma_obj_lookup_none(s: Seq<(Seq<char>, JVal)>, key: Seq<char>)
    requires
        forall|j: int| 0 <= j < s.len() ==> s[j].0 != key,
    ensures
        obj_lookup(s, key) is None,
    decreases s.len(),
{
    if s.len() > 0 {
        assert(forall|j: int| 0 <= j < s.len() - 1 ==> s.drop_first()[j] == s[j + 1]);
        lemma_obj_lookup_none(s.drop_first(), key);
    }
}

/// A successful lookup returns one of the listed values.
pub proof fn lemma_obj_lookup_in(s: Seq<(Seq<char>, JVal)>, key: Seq<char>)
    requires
        obj_lookup(s, key) is Some,
    ensures
        exists|k: int| 0 <= k < s.len() && #[trigger] s[k].1 == obj_lookup(s, key)->0,
    decreases s.len(),
{
    if s.len() > 0 {
        if s[0].0 == key {
            assert(s[0].1 == obj_lookup(s, key)->0);
        } else {
            lemma_obj_lookup_in(s.drop_first(), key);
            let k = choose|k: int|
                0 <= k < s.drop_first().len() && #[trigger] s.drop_first()[k].1 == obj_lookup(
                    s.drop_first(),
                    key,
                )->0;
            assert(s[k + 1].1 == obj_lookup(s, key)->0);
        }
    }
}

/// Index of the first binding of `key`, if any, with the looked-up value.
pub fn obj_find_idx(entries: &Vec<(String, Json)>, key: &str) -> (r: Option<usize>)
    ensures
        match r {
            Some(i) => i < entries@.len() && entries@[i as int].0@ == key@ && obj_lookup(
                jobj_view(entries@),
                key@,
            ) == Some(entries@[i as int].1@),
            None => obj_lookup(jobj_view(entries@), key@) is None,
        },
{
    let n = entries.len();
    let mut i: usize = 0;
    while i < n
        invariant
            n == entries@.len(),
            i <= n,
            forall|j: int| 0 <= j < i ==> entries@[j].0@ != key@,
        decreases n - i,
    {
        if str_eq(entries[i].0.as_str(), key) {
            proof {
                lemma_jobj_view(entries@);
                lemma_obj_lookup_at(jobj_view(entries@), key@, i as int);
            }
            return Some(i);
        }
        i = i + 1;
    }
    proof {
        lemma_jobj_view(entries@);
        lemma_obj_lookup_none(jobj_view(entries@), key@);
    }
    None
}

/// Reference to the first binding of `key`, if any.
pub fn obj_get<'a>(entries: &'a Vec<(String, Json)>, key: &str) -> (r: Option<&'a Json>)
    ensures
        match r {
            Some(v) => obj_lookup(jobj_view(entries@), key@) == Some(v@),
            None => obj_lookup(jobj_view(entries@), key@) is None,
        },
{
    match obj_find_idx(entries, key) {
        Some(i) => Some(&entries[i].1),
        None => None,
    }
}

} // verus!
