//! The text of JSON documents, and the keys of objects in their order.

use crate::json::{
    lemma_entries_domain, lemma_last_entry, lemma_values, values, Json, JsonMap, JsonV, ObjV,
};
use crate::order::{
    increasing, increasing_listing_is_unique, sort_unique, sorted_set_holds_the_same_texts_in_order,
};
use crate::text::{decimal, decimal_text, hex_digit, str_eq, texts, Text};
use vstd::prelude::*;
use vstd::string::*;

verus! {

broadcast use lemma_values;

/// The keys of an object in order.
pub open spec fn sorted_keys(m: ObjV) -> Seq<Text> {
    choose|s: Seq<Text>|
        increasing(s) && (forall|k: Text| #[trigger] s.contains(k) <==> m.contains_key(k))
}

/// The keys of an object in order.
pub fn keys_in_order(m: &JsonMap) -> (r: Vec<String>)
    ensures
        texts(r@) == sorted_keys(m@),
        increasing(texts(r@)),
        forall|k: Text| #[trigger] texts(r@).contains(k) <==> m@.contains_key(k),
{
    let mut keys: Vec<String> = Vec::new();
    let mut i: usize = 0;
    while i < m.entries.len()
        invariant
            i <= m.entries@.len(),
            keys@.len() == i,
            forall|j: int| 0 <= j < i ==> (#[trigger] keys@[j])@ == m.entries@[j].0@,
        decreases m.entries@.len() - i,
    {
        keys.push(m.entries[i].0.clone());
        i += 1;
    }
    let r = sort_unique(&keys);
    proof {
        let s = texts(keys@);
        sorted_set_holds_the_same_texts_in_order(s);
        assert forall|k: Text| #[trigger] texts(r@).contains(k) <==> m@.contains_key(k) by {
            lemma_entries_domain(m.entries@, k);
            if s.contains(k) {
                let j = choose|j: int| 0 <= j < s.len() && s[j] == k;
                assert(keys@[j]@ == k);
                assert(m.entries@[j].0@ == k);
            }
            if m@.contains_key(k) {
                let j = choose|j: int| 0 <= j < m.entries@.len() && (#[trigger] m.entries@[j]).0@
                    == k;
                assert(keys@[j]@ == k);
                assert(s[j] == k);
            }
        }
        let t = sorted_keys(m@);
        assert(increasing(texts(r@)) && (forall|k: Text| #[trigger]
            texts(r@).contains(k) <==> m@.contains_key(k)));
        assert forall|k: Text| #[trigger] texts(r@).contains(k) <==> t.contains(k) by {
            assert(t.contains(k) <==> m@.contains_key(k));
        }
        increasing_listing_is_unique(texts(r@), t);
    }
    r
}

/// How a character stands in a JSON string literal.
pub open spec fn json_char(c: char) -> Text {
    let u = c as u32;
    if c == '"' {
        seq!['\\', '"']
    } else if c == '\\' {
        seq!['\\', '\\']
    } else if u == 0x8 {
        seq!['\\', 'b']
    } else if u == 0x9 {
        seq!['\\', 't']
    } else if u == 0xa {
        seq!['\\', 'n']
    } else if u == 0xc {
        seq!['\\', 'f']
    } else if u == 0xd {
        seq!['\\', 'r']
    } else if u < 0x20 {
        seq!['\\', 'u', '0', '0', hex_digit(u as int / 16), hex_digit(u as int % 16)]
    } else {
        seq![c]
    }
}

/// The inside of a JSON string literal.
pub open spec fn json_inner(t: Text) -> Text
    decreases t.len(),
{
    if t.len() == 0 {
        Seq::empty()
    } else {
        json_inner(t.drop_last()) + json_char(t.last())
    }
}

/// The JSON string literal of a text.
pub open spec fn json_literal(t: Text) -> Text {
    seq!['"'] + json_inner(t) + seq!['"']
}

/// Calls `serde_json::to_string` on a string. Claims that the result is the JSON literal of the
/// string: quotation marks around it, quotation mark, backslash and control characters escaped,
/// every other character as it is.
#[verifier::external_body]
pub(crate) fn literal(s: &str) -> (r: String)
    ensures
        r@ == json_literal(s@),
{
    serde_json::to_string(s).unwrap_or_default()
}

/// The numeral of an integer.
pub open spec fn int_text(n: int) -> Text {
    if n < 0 {
        seq!['-'] + decimal_text((-n) as nat)
    } else {
        decimal_text(n as nat)
    }
}

/// The JSON text of a document, without white space: numbers as they are, strings as literals, and
/// the members of an object in the order of their keys.
pub open spec fn json_text(v: JsonV) -> Text
    decreases v, 1nat, 0nat,
{
    match v {
        JsonV::Null => "null"@,
        JsonV::Bool(b) => if b {
            "true"@
        } else {
            "false"@
        },
        JsonV::Int(n) => int_text(n),
        JsonV::Real(t) => t,
        JsonV::Str(t) => json_literal(t),
        JsonV::Arr(items) => "["@ + items_text(items) + "]"@,
        JsonV::Obj(m) => "{"@ + members_text(v, sorted_keys(m)) + "}"@,
    }
}

/// The elements of an array, with commas between them.
pub open spec fn items_text(items: Seq<JsonV>) -> Text
    decreases items, 0nat, 0nat,
{
    if items.len() == 0 {
        Seq::empty()
    } else {
        items_text(items.drop_last()) + comma_after(items.len() - 1) + json_text(items.last())
    }
}

/// The comma behind a number of elements; none where there are none.
pub open spec fn comma_after(n: int) -> Text {
    if n > 0 {
        ","@
    } else {
        Seq::empty()
    }
}

/// Members of an object, with commas between them.
pub open spec fn members_text(v: JsonV, keys: Seq<Text>) -> Text
    decreases v, 0nat, keys.len(),
{
    if keys.len() == 0 {
        Seq::empty()
    } else {
        members_text(v, keys.drop_last()) + comma_after(keys.len() - 1) + json_literal(keys.last())
            + ":"@ + match v {
            JsonV::Obj(m) => if m.contains_key(keys.last()) {
                json_text(m[keys.last()])
            } else {
                Seq::empty()
            },
            _ => Seq::empty(),
        }
    }
}

fn int_of(n: i128) -> (r: String)
    ensures
        r@ == int_text(n as int),
{
    if n < 0 {
        let size: u128 = (-(n + 1)) as u128 + 1;
        let digits = decimal(size);
        let mut r = String::new();
        r.push('-');
        r.append(digits.as_str());
        proof {
            assert(r@ =~= seq!['-'] + digits@);
        }
        r
    } else {
        decimal(n as u128)
    }
}

impl Json {
    /// The JSON text of the document.
    pub fn write(&self) -> (r: String)
        ensures
            r@ == json_text(self@),
        decreases self,
    {
        match self {
            Json::Null => "null".to_owned(),
            Json::Bool(b) => if *b {
                "true".to_owned()
            } else {
                "false".to_owned()
            },
            Json::Int(n) => int_of(*n),
            Json::Real(t) => t.clone(),
            Json::Str(t) => literal(t.as_str()),
            Json::Arr(items) => {
                let inside = write_items(items);
                let mut r = "[".to_owned();
                r.append(inside.as_str());
                r.append("]");
                r
            },
            Json::Obj(m) => {
                let inside = write_members(m);
                let mut r = "{".to_owned();
                r.append(inside.as_str());
                r.append("}");
                r
            },
        }
    }
}

fn write_items(items: &Vec<Json>) -> (r: String)
    ensures
        r@ == items_text(values(items@)),
    decreases items,
{
    let ghost all = values(items@);
    let mut r = String::new();
    let mut i: usize = 0;
    proof {
        assert(r@ =~= items_text(all.take(0)));
    }
    while i < items.len()
        invariant
            i <= items@.len(),
            all == values(items@),
            r@ == items_text(all.take(i as int)),
        decreases items@.len() - i,
    {
        let one = items[i].write();
        let ghost start = r@;
        if i > 0 {
            r.append(",");
        }
        proof {
            assert(r@ =~= start + comma_after(i as int));
            let t = all.take(i + 1);
            assert(t.drop_last() =~= all.take(i as int));
            assert(t.last() == items@[i as int]@);
        }
        r.append(one.as_str());
        i += 1;
    }
    proof {
        assert(all.take(i as int) =~= all);
    }
    r
}

/// The place of the entry that counts for a key.
fn place_of(m: &JsonMap, key: &str) -> (r: usize)
    requires
        m@.contains_key(key@),
    ensures
        r < m.entries@.len(),
        m.entries@[r as int].0@ == key@,
        m@[key@] == m.entries@[r as int].1@,
{
    let mut i: usize = m.entries.len();
    proof {
        lemma_entries_domain(m.entries@, key@);
    }
    while i > 0
        invariant
            i <= m.entries@.len(),
            exists|j: int| 0 <= j < i && (#[trigger] m.entries@[j]).0@ == key@,
            forall|j: int| i <= j < m.entries@.len() ==> (#[trigger] m.entries@[j]).0@ != key@,
        decreases i,
    {
        i -= 1;
        if str_eq(m.entries[i].0.as_str(), key) {
            proof {
                lemma_last_entry(m.entries@, i as int);
            }
            return i;
        }
    }
    0
}

fn write_members(m: &JsonMap) -> (r: String)
    ensures
        r@ == members_text(JsonV::Obj(m@), sorted_keys(m@)),
    decreases m,
{
    let keys = keys_in_order(m);
    let ghost all = texts(keys@);
    let mut r = String::new();
    let mut i: usize = 0;
    proof {
        assert(r@ =~= members_text(JsonV::Obj(m@), all.take(0)));
    }
    while i < keys.len()
        invariant
            i <= keys@.len(),
            all == texts(keys@),
            forall|k: Text| #[trigger] all.contains(k) <==> m@.contains_key(k),
            r@ == members_text(JsonV::Obj(m@), all.take(i as int)),
        decreases keys@.len() - i,
    {
        proof {
            assert(all[i as int] == keys@[i as int]@);
            assert(all.contains(all[i as int]));
        }
        let at: usize = place_of(m, keys[i].as_str());
        let one = m.entries[at].1.write();
        let name = literal(keys[i].as_str());
        let ghost start = r@;
        if i > 0 {
            r.append(",");
        }
        proof {
            assert(r@ =~= start + comma_after(i as int));
            let t = all.take(i + 1);
            assert(t.drop_last() =~= all.take(i as int));
            assert(t.last() == keys@[i as int]@);
        }
        r.append(name.as_str());
        r.append(":");
        r.append(one.as_str());
        i += 1;
    }
    proof {
        assert(all.take(i as int) =~= all);
    }
    r
}

} // verus!
