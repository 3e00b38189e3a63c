//! JSON documents: the shared data of ledger events, stores, requests and results.

use crate::lists::views;
use crate::text::Text;
use vstd::prelude::*;

verus! {

/// A JSON value. Integers are held exactly; any other number is carried as the shortest text that
/// reads back as it, with a point or an exponent.
pub enum Json {
    Null,
    Bool(bool),
    Int(i128),
    Real(String),
    Str(String),
    Arr(Vec<Json>),
    Obj(JsonMap),
}

/// A JSON object. Where a key occurs twice, the later entry counts.
pub struct JsonMap {
    pub entries: Vec<(String, Json)>,
}

/// The mathematical value of a JSON document.
pub enum JsonV {
    Null,
    Bool(bool),
    Int(int),
    Real(Text),
    Str(Text),
    Arr(Seq<JsonV>),
    Obj(Map<Text, JsonV>),
}

/// The mathematical value of a JSON object.
pub type ObjV = Map<Text, JsonV>;

impl View for Json {
    type V = JsonV;

    open spec fn view(&self) -> JsonV {
        model(*self)
    }
}

/// The mathematical value of a document.
pub open spec fn model(x: Json) -> JsonV
    decreases x,
{
    match x {
        Json::Null => JsonV::Null,
        Json::Bool(b) => JsonV::Bool(b),
        Json::Int(n) => JsonV::Int(n as int),
        Json::Real(t) => JsonV::Real(t@),
        Json::Str(t) => JsonV::Str(t@),
        Json::Arr(v) => JsonV::Arr(values(v@)),
        Json::Obj(m) => JsonV::Obj(entries_map(m.entries@)),
    }
}

/// Whether the text of a number that is no integer stands for zero.
pub open spec fn is_real_zero(t: Text) -> bool {
    t == "0.0"@ || t == "-0.0"@
}

/// Whether two documents are equal: the two zeros of real numbers are one value, and the members of
/// objects have no order.
pub open spec fn alike(a: JsonV, b: JsonV) -> bool
    decreases a,
{
    match (a, b) {
        (JsonV::Real(s), JsonV::Real(t)) => s == t || (is_real_zero(s) && is_real_zero(t)),
        (JsonV::Arr(x), JsonV::Arr(y)) => x.len() == y.len() && forall|i: int|
            0 <= i < x.len() ==> alike(#[trigger] x[i], y[i]),
        (JsonV::Obj(m), JsonV::Obj(n)) => m.dom() == n.dom() && forall|k: Text| #[trigger]
            m.contains_key(k) ==> alike(m[k], n[k]),
        _ => a == b,
    }
}

/// Objects are equal when each has the keys of the other, with equal members.
pub proof fn lemma_alike_objects(m: ObjV, n: ObjV)
    ensures
        alike(JsonV::Obj(m), JsonV::Obj(n)) == ((forall|k: Text| #[trigger]
            m.contains_key(k) ==> n.contains_key(k) && alike(m[k], n[k])) && (forall|k: Text|
         #[trigger]
            n.contains_key(k) ==> m.contains_key(k))),
{
    if alike(JsonV::Obj(m), JsonV::Obj(n)) {
        assert(m.dom() == n.dom());
        assert forall|k: Text| #[trigger] m.contains_key(k) implies alike(m[k], n[k]) by {}
    } else if (forall|k: Text| #[trigger]
        m.contains_key(k) ==> n.contains_key(k) && alike(m[k], n[k])) && (forall|k: Text| #[trigger]
        n.contains_key(k) ==> m.contains_key(k)) {
        assert(m.dom() =~= n.dom());
    }
}

/// The values of a list of documents.
pub open spec fn values(v: Seq<Json>) -> Seq<JsonV>
    decreases v,
{
    if v.len() == 0 {
        Seq::empty()
    } else {
        values(v.drop_last()).push(model(v.last()))
    }
}

/// The object that a list of entries stands for.
pub open spec fn entries_map(e: Seq<(String, Json)>) -> ObjV
    decreases e,
{
    if e.len() == 0 {
        Map::empty()
    } else {
        entries_map(e.drop_last()).insert(e.last().0@, model(e.last().1))
    }
}

impl View for JsonMap {
    type V = ObjV;

    open spec fn view(&self) -> ObjV {
        entries_map(self.entries@)
    }
}

impl JsonV {
    /// The member of an object under a key.
    pub open spec fn get(self, key: Text) -> Option<JsonV> {
        match self {
            JsonV::Obj(m) => field(m, key),
            _ => None,
        }
    }

    /// The member of an object under a key, or null.
    pub open spec fn at(self, key: Text) -> JsonV {
        or_null(self.get(key))
    }

    /// The text of a string value.
    pub open spec fn text(self) -> Option<Text> {
        match self {
            JsonV::Str(t) => Some(t),
            _ => None,
        }
    }

    /// The truth value of a boolean.
    pub open spec fn flag(self) -> Option<bool> {
        match self {
            JsonV::Bool(b) => Some(b),
            _ => None,
        }
    }

    /// The elements of an array.
    pub open spec fn list(self) -> Option<Seq<JsonV>> {
        match self {
            JsonV::Arr(v) => Some(v),
            _ => None,
        }
    }

    /// The members of an object.
    pub open spec fn object(self) -> Option<ObjV> {
        match self {
            JsonV::Obj(m) => Some(m),
            _ => None,
        }
    }

    /// The number, where it is an integer that is not negative and fits in 64 bits.
    pub open spec fn count(self) -> Option<int> {
        match self {
            JsonV::Int(n) => if 0 <= n <= u64::MAX {
                Some(n)
            } else {
                None
            },
            _ => None,
        }
    }
}

/// The member of an object under a key.
pub open spec fn field(m: ObjV, key: Text) -> Option<JsonV> {
    if m.contains_key(key) {
        Some(m[key])
    } else {
        None
    }
}

/// The value, or null where there is none.
pub open spec fn or_null(v: Option<JsonV>) -> JsonV {
    match v {
        Some(x) => x,
        None => JsonV::Null,
    }
}

/// The text of a member that is a string.
pub open spec fn text_field(m: ObjV, key: Text) -> Option<Text> {
    match field(m, key) {
        Some(v) => v.text(),
        None => None,
    }
}

/// The text of a member, empty where it is not a string.
pub open spec fn text_or_empty(m: ObjV, key: Text) -> Text {
    match text_field(m, key) {
        Some(t) => t,
        None => Seq::empty(),
    }
}

/// The elements of a member that is an array.
pub open spec fn list_field(m: ObjV, key: Text) -> Option<Seq<JsonV>> {
    match field(m, key) {
        Some(v) => v.list(),
        None => None,
    }
}

/// The truth value of a member that is a boolean.
pub open spec fn flag_field(m: ObjV, key: Text) -> Option<bool> {
    match field(m, key) {
        Some(v) => v.flag(),
        None => None,
    }
}

/// The strings among the elements of an array.
pub open spec fn strings(v: Seq<JsonV>) -> Seq<Text> {
    v.filter_map(|x: JsonV| x.text())
}

/// The strings among the elements of an array member; none where it is not an array.
pub open spec fn strings_field(m: ObjV, key: Text) -> Seq<Text> {
    match list_field(m, key) {
        Some(v) => strings(v),
        None => Seq::empty(),
    }
}

/// The text, or the empty text where there is none.
pub open spec fn or_empty(t: Option<Text>) -> Text {
    match t {
        Some(x) => x,
        None => Seq::empty(),
    }
}

/// An array of strings.
pub open spec fn text_array(v: Seq<Text>) -> JsonV {
    JsonV::Arr(v.map_values(|t: Text| JsonV::Str(t)))
}

/// The value of an optional document.
pub open spec fn opt_json(o: Option<&Json>) -> Option<JsonV> {
    match o {
        Some(x) => Some(x@),
        None => None,
    }
}

/// The values of an optional list of documents.
pub open spec fn opt_values(o: Option<&Vec<Json>>) -> Option<Seq<JsonV>> {
    match o {
        Some(x) => Some(values(x@)),
        None => None,
    }
}

/// The value of an optional object.
pub open spec fn opt_obj(o: Option<&JsonMap>) -> Option<ObjV> {
    match o {
        Some(x) => Some(x@),
        None => None,
    }
}

/// The values of a list of objects.
pub open spec fn objects(v: Seq<JsonMap>) -> Seq<ObjV> {
    views(v)
}

pub broadcast proof fn lemma_values(v: Seq<Json>)
    ensures
        (#[trigger] values(v)).len() == v.len(),
        forall|i: int| 0 <= i < v.len() ==> #[trigger] values(v)[i] == v[i]@,
    decreases v.len(),
{
    if v.len() > 0 {
        lemma_values(v.drop_last());
    }
}

/// The two readings of a list of documents agree.
pub proof fn lemma_values_are_views(v: Seq<Json>)
    ensures
        values(v) == views(v),
{
    lemma_values(v);
    assert(values(v) =~= views(v));
}

pub broadcast proof fn lemma_values_push(v: Seq<Json>, x: Json)
    ensures
        #[trigger] values(v.push(x)) == values(v).push(x@),
{
    assert(v.push(x).drop_last() =~= v);
}

pub broadcast proof fn lemma_objects_push(v: Seq<JsonMap>, x: JsonMap)
    ensures
        #[trigger] objects(v.push(x)) == objects(v).push(x@),
{
    assert(objects(v.push(x)) =~= objects(v).push(x@));
}

pub proof fn lemma_entries_update(e: Seq<(String, Json)>, i: int, x: (String, Json))
    requires
        0 <= i < e.len(),
        e[i].0@ == x.0@,
        forall|j: int| i < j < e.len() ==> (#[trigger] e[j]).0@ != x.0@,
    ensures
        entries_map(e.update(i, x)) == entries_map(e).insert(x.0@, x.1@),
    decreases e.len(),
{
    let u = e.update(i, x);
    let d = e.drop_last();
    if i == e.len() - 1 {
        assert(u.drop_last() =~= d);
        assert(entries_map(u) =~= entries_map(e).insert(x.0@, x.1@));
    } else {
        lemma_entries_update(d, i, x);
        assert(u.drop_last() =~= d.update(i, x));
        assert(entries_map(u) =~= entries_map(e).insert(x.0@, x.1@));
    }
}

pub proof fn lemma_entries_remove(e: Seq<(String, Json)>, i: int, key: Text)
    requires
        0 <= i < e.len(),
        e[i].0@ == key,
    ensures
        entries_map(e.remove(i)).remove(key) == entries_map(e).remove(key),
    decreases e.len(),
{
    let r = e.remove(i);
    let d = e.drop_last();
    if i == e.len() - 1 {
        assert(r =~= d);
        assert(entries_map(r).remove(key) =~= entries_map(e).remove(key));
    } else {
        lemma_entries_remove(d, i, key);
        assert(r.drop_last() =~= d.remove(i));
        let k = e.last().0@;
        let x = e.last().1@;
        if k == key {
            assert(entries_map(r).remove(key) =~= entries_map(d.remove(i)).remove(key));
            assert(entries_map(e).remove(key) =~= entries_map(d).remove(key));
        } else {
            assert(entries_map(r).remove(key) =~= entries_map(d.remove(i)).remove(key).insert(
                k,
                x,
            ));
            assert(entries_map(e).remove(key) =~= entries_map(d).remove(key).insert(k, x));
        }
    }
}

pub proof fn lemma_entries_domain(e: Seq<(String, Json)>, key: Text)
    ensures
        entries_map(e).contains_key(key) <==> exists|i: int|
            0 <= i < e.len() && (#[trigger] e[i]).0@ == key,
    decreases e.len(),
{
    if e.len() > 0 {
        let d = e.drop_last();
        lemma_entries_domain(d, key);
        if entries_map(d).contains_key(key) {
            let i = choose|i: int| 0 <= i < d.len() && (#[trigger] d[i]).0@ == key;
            assert(e[i].0@ == key);
        }
        if exists|i: int| 0 <= i < e.len() && (#[trigger] e[i]).0@ == key {
            let i = choose|i: int| 0 <= i < e.len() && (#[trigger] e[i]).0@ == key;
            if i < e.len() - 1 {
                assert(d[i].0@ == key);
            }
        }
    }
}

pub proof fn lemma_last_entry(e: Seq<(String, Json)>, i: int)
    requires
        0 <= i < e.len(),
        forall|j: int| i < j < e.len() ==> (#[trigger] e[j]).0@ != e[i].0@,
    ensures
        entries_map(e).contains_key(e[i].0@),
        entries_map(e)[e[i].0@] == e[i].1@,
    decreases e.len(),
{
    if i < e.len() - 1 {
        let d = e.drop_last();
        assert(d[i] == e[i]);
        assert forall|j: int| i < j < d.len() implies (#[trigger] d[j]).0@ != d[i].0@ by {
            assert(e[j].0@ != e[i].0@);
        }
        lemma_last_entry(d, i);
        assert(e[e.len() - 1].0@ != e[i].0@);
    }
}

} // verus!
