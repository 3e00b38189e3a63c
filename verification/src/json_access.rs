//! Reading, building, copying and comparing JSON documents.

use crate::json::{
    alike, entries_map, field, flag_field, is_real_zero, lemma_alike_objects, lemma_entries_domain,
    lemma_entries_remove, lemma_entries_update, lemma_last_entry, lemma_objects_push, lemma_values,
    lemma_values_push, list_field, opt_json, opt_obj, opt_values, or_empty, or_null, strings,
    strings_field, text_array, text_field, text_or_empty, values, Json, JsonMap, JsonV,
};
use crate::text::{lemma_texts_push, opt_str, str_eq, texts, Text};
use vstd::prelude::*;

verus! {

broadcast use {
    vstd::seq_lib::group_seq_properties,
    lemma_values,
    lemma_values_push,
    lemma_objects_push,
    lemma_texts_push,
};

impl JsonMap {
    /// An empty object.
    pub fn new() -> (r: JsonMap)
        ensures
            r@ == Map::<Text, JsonV>::empty(),
    {
        JsonMap { entries: Vec::new() }
    }

    /// The member under a key.
    pub fn get(&self, key: &str) -> (r: Option<&Json>)
        ensures
            opt_json(r) == field(self@, key@),
    {
        let mut i: usize = self.entries.len();
        proof {
            assert(self.entries@.take(i as int) =~= self.entries@);
        }
        while i > 0
            invariant
                i <= self.entries@.len(),
                field(self@, key@) == field(entries_map(self.entries@.take(i as int)), key@),
            decreases i,
        {
            i -= 1;
            proof {
                assert(self.entries@.take(i + 1).drop_last() =~= self.entries@.take(i as int));
            }
            if str_eq(self.entries[i].0.as_str(), key) {
                return Some(&self.entries[i].1);
            }
        }
        None
    }

    /// Whether there is a member under a key.
    pub fn has(&self, key: &str) -> (r: bool)
        ensures
            r == self@.contains_key(key@),
    {
        self.get(key).is_some()
    }

    /// Puts a member under a key, in place of any that is there.
    pub fn put(&mut self, key: &str, value: Json)
        ensures
            final(self)@ == old(self)@.insert(key@, value@),
    {
        let mut i: usize = self.entries.len();
        while i > 0
            invariant
                i <= self.entries@.len(),
                self@ == old(self)@,
                forall|j: int|
                    i <= j < self.entries@.len() ==> (#[trigger] self.entries@[j]).0@ != key@,
            decreases i,
        {
            i -= 1;
            if str_eq(self.entries[i].0.as_str(), key) {
                let entry = (key.to_owned(), value);
                proof {
                    lemma_entries_update(self.entries@, i as int, entry);
                }
                self.entries[i] = entry;
                return;
            }
        }
        let ghost e = self.entries@;
        self.entries.push((key.to_owned(), value));
        proof {
            assert(self.entries@.drop_last() =~= e);
        }
    }

    /// Takes away the member under a key.
    pub fn drop_key(&mut self, key: &str)
        ensures
            final(self)@ == old(self)@.remove(key@),
    {
        let mut i: usize = 0;
        while i < self.entries.len()
            invariant
                i <= self.entries@.len(),
                self@.remove(key@) == old(self)@.remove(key@),
                forall|j: int| 0 <= j < i ==> (#[trigger] self.entries@[j]).0@ != key@,
            decreases self.entries@.len() - i,
        {
            if str_eq(self.entries[i].0.as_str(), key) {
                proof {
                    lemma_entries_remove(self.entries@, i as int, key@);
                }
                self.entries.remove(i);
            } else {
                i += 1;
            }
        }
        proof {
            lemma_entries_domain(self.entries@, key@);
            assert(self@.remove(key@) =~= self@);
        }
    }

    /// The text of a member that is a string.
    pub fn text(&self, key: &str) -> (r: Option<&str>)
        ensures
            opt_str(r) == text_field(self@, key@),
    {
        match self.get(key) {
            Some(v) => v.as_str(),
            None => None,
        }
    }

    /// The text of a member, empty where it is not a string.
    pub fn text_or_empty(&self, key: &str) -> (r: String)
        ensures
            r@ == text_or_empty(self@, key@),
    {
        match self.text(key) {
            Some(t) => t.to_owned(),
            None => String::new(),
        }
    }

    /// Whether a member is the given string.
    pub fn is(&self, key: &str, s: &str) -> (r: bool)
        ensures
            r == (text_field(self@, key@) == Some(s@)),
    {
        match self.text(key) {
            Some(t) => str_eq(t, s),
            None => false,
        }
    }

    /// The elements of a member that is an array.
    pub fn list(&self, key: &str) -> (r: Option<&Vec<Json>>)
        ensures
            opt_values(r) == list_field(self@, key@),
    {
        match self.get(key) {
            Some(v) => v.as_array(),
            None => None,
        }
    }

    /// The truth value of a member that is a boolean.
    pub fn flag(&self, key: &str) -> (r: Option<bool>)
        ensures
            r == flag_field(self@, key@),
    {
        match self.get(key) {
            Some(v) => v.as_bool(),
            None => None,
        }
    }

    /// A copy of the member under a key, or null.
    pub fn copy_or_null(&self, key: &str) -> (r: Json)
        ensures
            r@ == or_null(field(self@, key@)),
    {
        match self.get(key) {
            Some(v) => v.copy(),
            None => Json::Null,
        }
    }

    /// The strings among the elements of an array member; none where it is not an array.
    pub fn strings(&self, key: &str) -> (r: Vec<String>)
        ensures
            texts(r@) == strings_field(self@, key@),
    {
        match self.list(key) {
            Some(v) => strings_of(v),
            None => {
                let r: Vec<String> = Vec::new();
                assert(texts(r@) =~= Seq::empty());
                r
            },
        }
    }

    /// A copy of the object.
    pub fn copy(&self) -> (r: JsonMap)
        ensures
            r@ == self@,
        decreases self,
    {
        let mut r = JsonMap { entries: Vec::new() };
        let mut i: usize = 0;
        while i < self.entries.len()
            invariant
                i <= self.entries@.len(),
                entries_map(r.entries@) == entries_map(self.entries@.take(i as int)),
            decreases self.entries@.len() - i,
        {
            let ghost e = r.entries@;
            let x = self.entries[i].1.copy();
            r.entries.push((self.entries[i].0.clone(), x));
            proof {
                assert(r.entries@.drop_last() =~= e);
                assert(self.entries@.take(i + 1).drop_last() =~= self.entries@.take(i as int));
            }
            i += 1;
        }
        proof {
            assert(self.entries@.take(i as int) =~= self.entries@);
        }
        r
    }
}

impl Json {
    /// A copy of the document.
    pub fn copy(&self) -> (r: Json)
        ensures
            r@ == self@,
        decreases self,
    {
        match self {
            Json::Null => Json::Null,
            Json::Bool(b) => Json::Bool(*b),
            Json::Int(n) => Json::Int(*n),
            Json::Real(t) => Json::Real(t.clone()),
            Json::Str(t) => Json::Str(t.clone()),
            Json::Arr(v) => Json::Arr(copy_all(v)),
            Json::Obj(m) => Json::Obj(m.copy()),
        }
    }

    /// The text of a string value.
    pub fn as_str(&self) -> (r: Option<&str>)
        ensures
            opt_str(r) == self@.text(),
    {
        match self {
            Json::Str(t) => Some(t.as_str()),
            _ => None,
        }
    }

    /// The truth value of a boolean.
    pub fn as_bool(&self) -> (r: Option<bool>)
        ensures
            r == self@.flag(),
    {
        match self {
            Json::Bool(b) => Some(*b),
            _ => None,
        }
    }

    /// The number, where it is an integer that is not negative and fits in 64 bits.
    pub fn as_u64(&self) -> (r: Option<u64>)
        ensures
            match r {
                Some(n) => self@.count() == Some(n as int),
                None => self@.count() is None,
            },
    {
        match self {
            Json::Int(n) => if 0 <= *n && *n <= u64::MAX as i128 {
                Some(*n as u64)
            } else {
                None
            },
            _ => None,
        }
    }

    /// The elements of an array.
    pub fn as_array(&self) -> (r: Option<&Vec<Json>>)
        ensures
            opt_values(r) == self@.list(),
    {
        match self {
            Json::Arr(v) => Some(v),
            _ => None,
        }
    }

    /// The members of an object.
    pub fn as_object(&self) -> (r: Option<&JsonMap>)
        ensures
            opt_obj(r) == self@.object(),
    {
        match self {
            Json::Obj(m) => Some(m),
            _ => None,
        }
    }

    /// The member of an object under a key.
    pub fn get(&self, key: &str) -> (r: Option<&Json>)
        ensures
            opt_json(r) == self@.get(key@),
    {
        match self {
            Json::Obj(m) => m.get(key),
            _ => None,
        }
    }

    /// A copy of the member of an object under a key, or null.
    pub fn at(&self, key: &str) -> (r: Json)
        ensures
            r@ == self@.at(key@),
    {
        match self.get(key) {
            Some(v) => v.copy(),
            None => Json::Null,
        }
    }

    /// The text of a member that is a string.
    pub fn text(&self, key: &str) -> (r: Option<&str>)
        ensures
            opt_str(r) == self@.at(key@).text(),
    {
        match self.get(key) {
            Some(v) => v.as_str(),
            None => None,
        }
    }

    /// The text of a member, empty where it is not a string.
    pub fn text_or_empty(&self, key: &str) -> (r: String)
        ensures
            r@ == or_empty(self@.at(key@).text()),
    {
        match self.text(key) {
            Some(t) => t.to_owned(),
            None => String::new(),
        }
    }

    /// Whether a member is the given string.
    pub fn is(&self, key: &str, s: &str) -> (r: bool)
        ensures
            r == (self@.at(key@) == JsonV::Str(s@)),
            r == (self@.at(key@).text() == Some(s@)),
    {
        match self.text(key) {
            Some(t) => str_eq(t, s),
            None => false,
        }
    }

    /// The elements of a member that is an array.
    pub fn list(&self, key: &str) -> (r: Option<&Vec<Json>>)
        ensures
            opt_values(r) == self@.at(key@).list(),
    {
        match self.get(key) {
            Some(v) => v.as_array(),
            None => None,
        }
    }

    /// Whether a member is the boolean `true`.
    pub fn is_true(&self, key: &str) -> (r: bool)
        ensures
            r == (self@.at(key@) == JsonV::Bool(true)),
    {
        match self.get(key) {
            Some(v) => match v {
                Json::Bool(b) => *b,
                _ => false,
            },
            None => false,
        }
    }

    /// A string value.
    pub fn str(s: &str) -> (r: Json)
        ensures
            r@ == JsonV::Str(s@),
    {
        Json::Str(s.to_owned())
    }

    /// Whether two documents are equal.
    pub fn same(&self, other: &Json) -> (r: bool)
        ensures
            r == alike(self@, other@),
        decreases self,
    {
        match (self, other) {
            (Json::Null, Json::Null) => true,
            (Json::Bool(a), Json::Bool(b)) => *a == *b,
            (Json::Int(a), Json::Int(b)) => *a == *b,
            (Json::Real(a), Json::Real(b)) => str_eq(a.as_str(), b.as_str()) || (real_zero(
                a.as_str(),
            ) && real_zero(b.as_str())),
            (Json::Str(a), Json::Str(b)) => str_eq(a.as_str(), b.as_str()),
            (Json::Arr(a), Json::Arr(b)) => {
                proof {
                    assert(self@ == JsonV::Arr(values(a@)));
                    assert(other@ == JsonV::Arr(values(b@)));
                }
                let r = same_all(a, b);
                assert(r == alike(self@, other@));
                r
            },
            (Json::Obj(a), Json::Obj(b)) => {
                proof {
                    assert(self@ == JsonV::Obj(a@));
                    assert(other@ == JsonV::Obj(b@));
                }
                let r = same_members(a, b) && covers(a, b);
                proof {
                    lemma_alike_objects(a@, b@);
                }
                r
            },
            _ => false,
        }
    }
}

/// A copy of a list of documents.
pub fn copy_all(v: &Vec<Json>) -> (r: Vec<Json>)
    ensures
        values(r@) == values(v@),
    decreases v,
{
    let mut r: Vec<Json> = Vec::new();
    let mut i: usize = 0;
    while i < v.len()
        invariant
            i <= v@.len(),
            values(r@) == values(v@).take(i as int),
        decreases v@.len() - i,
    {
        r.push(v[i].copy());
        proof {
            assert(values(r@) =~= values(v@).take(i + 1));
        }
        i += 1;
    }
    assert(values(r@) =~= values(v@));
    r
}

fn real_zero(t: &str) -> (r: bool)
    ensures
        r == is_real_zero(t@),
{
    str_eq(t, "0.0") || str_eq(t, "-0.0")
}

fn same_all(a: &Vec<Json>, b: &Vec<Json>) -> (r: bool)
    ensures
        r == (values(a@).len() == values(b@).len() && forall|i: int|
            0 <= i < values(a@).len() ==> alike(#[trigger] values(a@)[i], values(b@)[i])),
    decreases a,
{
    if a.len() != b.len() {
        assert(values(a@).len() != values(b@).len());
        return false;
    }
    let mut i: usize = 0;
    while i < a.len()
        invariant
            i <= a@.len(),
            a@.len() == b@.len(),
            forall|j: int| 0 <= j < i ==> alike(#[trigger] values(a@)[j], values(b@)[j]),
        decreases a@.len() - i,
    {
        if !a[i].same(&b[i]) {
            assert(!alike(values(a@)[i as int], values(b@)[i as int]));
            return false;
        }
        i += 1;
    }
    true
}

/// Whether every member of the first object is a member of the second.
fn same_members(a: &JsonMap, b: &JsonMap) -> (r: bool)
    ensures
        r == (forall|k: Text| #[trigger]
            a@.contains_key(k) ==> b@.contains_key(k) && alike(a@[k], b@[k])),
    decreases a,
{
    let mut i: usize = a.entries.len();
    while i > 0
        invariant
            i <= a.entries@.len(),
            forall|j: int|
                i <= j < a.entries@.len() ==> b@.contains_key((#[trigger] a.entries@[j]).0@)
                    && alike(a@[a.entries@[j].0@], b@[a.entries@[j].0@]),
        decreases i,
    {
        i -= 1;
        let mut later: bool = false;
        let mut j: usize = i + 1;
        while j < a.entries.len()
            invariant
                i < j <= a.entries@.len(),
                later <==> exists|m: int|
                    i < m < j && (#[trigger] a.entries@[m]).0@ == a.entries@[i as int].0@,
            decreases a.entries@.len() - j,
        {
            if str_eq(a.entries[j].0.as_str(), a.entries[i].0.as_str()) {
                later = true;
            }
            j += 1;
        }
        if !later {
            proof {
                lemma_last_entry(a.entries@, i as int);
            }
            match b.get(a.entries[i].0.as_str()) {
                Some(x) => {
                    if !a.entries[i].1.same(x) {
                        assert(a@.contains_key(a.entries@[i as int].0@));
                        return false;
                    }
                },
                None => {
                    assert(a@.contains_key(a.entries@[i as int].0@));
                    return false;
                },
            }
        }
    }
    proof {
        assert forall|k: Text| #[trigger] a@.contains_key(k) implies b@.contains_key(k) && alike(
            a@[k],
            b@[k],
        ) by {
            lemma_entries_domain(a.entries@, k);
        }
    }
    true
}

/// Whether every key of the second object is a key of the first.
fn covers(a: &JsonMap, b: &JsonMap) -> (r: bool)
    ensures
        r == (forall|k: Text| #[trigger] b@.contains_key(k) ==> a@.contains_key(k)),
{
    let mut i: usize = 0;
    while i < b.entries.len()
        invariant
            i <= b.entries@.len(),
            forall|j: int| 0 <= j < i ==> a@.contains_key((#[trigger] b.entries@[j]).0@),
        decreases b.entries@.len() - i,
    {
        if !a.has(b.entries[i].0.as_str()) {
            proof {
                lemma_entries_domain(b.entries@, b.entries@[i as int].0@);
                assert(b@.contains_key(b.entries@[i as int].0@));
            }
            return false;
        }
        i += 1;
    }
    proof {
        assert forall|k: Text| #[trigger] b@.contains_key(k) implies a@.contains_key(k) by {
            lemma_entries_domain(b.entries@, k);
        }
    }
    true
}

/// The strings among the elements of an array.
pub fn strings_of(v: &Vec<Json>) -> (r: Vec<String>)
    ensures
        texts(r@) == strings(values(v@)),
{
    let mut r: Vec<String> = Vec::new();
    let mut i: usize = 0;
    let ghost f = |x: JsonV| x.text();
    assert(texts(r@) =~= values(v@).take(0).filter_map(f));
    while i < v.len()
        invariant
            i <= v@.len(),
            f == (|x: JsonV| x.text()),
            texts(r@) == values(v@).take(i as int).filter_map(f),
        decreases v@.len() - i,
    {
        proof {
            values(v@).lemma_filter_map_take_succ(f, i as int);
        }
        match v[i].as_str() {
            Some(t) => {
                let ghost b = r@;
                r.push(t.to_owned());
                proof {
                    crate::text::lemma_texts_push(b, r@.last());
                    assert(texts(r@) =~= values(v@).take(i + 1).filter_map(f));
                }
            },
            None => {
                assert(texts(r@) =~= values(v@).take(i + 1).filter_map(f));
            },
        }
        i += 1;
    }
    assert(values(v@).take(i as int) =~= values(v@));
    r
}

/// An array of strings.
pub fn json_texts(v: &Vec<String>) -> (r: Json)
    ensures
        r@ == text_array(texts(v@)),
{
    let mut r: Vec<Json> = Vec::new();
    let mut i: usize = 0;
    while i < v.len()
        invariant
            i <= v@.len(),
            values(r@).len() == i,
            forall|j: int| 0 <= j < i ==> #[trigger] values(r@)[j] == JsonV::Str(v@[j]@),
        decreases v@.len() - i,
    {
        r.push(Json::Str(v[i].clone()));
        i += 1;
    }
    proof {
        assert(values(r@) =~= texts(v@).map_values(|t: Text| JsonV::Str(t)));
    }
    Json::Arr(r)
}

} // verus!
