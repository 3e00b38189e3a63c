//! The connector store as a document, as it is written and read again.

use crate::connectors::entry::EntryV;
use crate::connectors::laws::{is_as_read, is_normal, lemma_normal_id};
use crate::connectors::store::{from_members, holder, ids, read_store, sound, stored, Store};
use crate::json::{Json, JsonMap, JsonV, ObjV};
use crate::json_write::sorted_keys;
use crate::order::{before, increasing, increasing_listing_is_unique, strings_are_totally_ordered};
use crate::text::Text;
use vstd::prelude::*;

verus! {

/// The connectors as members, each under its id.
pub open spec fn members(s: Seq<EntryV>) -> ObjV
    decreases s.len(),
{
    if s.len() == 0 {
        Map::empty()
    } else {
        members(s.drop_last()).insert(s.last().id, JsonV::Obj(s.last().item))
    }
}

/// The store as a document.
pub open spec fn document(s: Seq<EntryV>) -> JsonV {
    JsonV::Obj(map!["connectors"@ => JsonV::Obj(members(s))])
}

/// The store as the document that is written.
pub fn store_document(store: &Store) -> (r: Json)
    ensures
        r@ == document(store@),
{
    let mut held = JsonMap::new();
    let mut i: usize = 0;
    while i < store.entries.len()
        invariant
            i <= store.entries@.len(),
            held@ == members(store@.take(i as int)),
        decreases store.entries@.len() - i,
    {
        proof {
            assert(store@.take(i + 1).drop_last() =~= store@.take(i as int));
        }
        held.put(store.entries[i].id.as_str(), Json::Obj(store.entries[i].item.copy()));
        i += 1;
    }
    proof {
        assert(store@.take(i as int) =~= store@);
    }
    let mut root = JsonMap::new();
    root.put("connectors", Json::Obj(held));
    proof {
        assert(root@ =~= map!["connectors"@ => JsonV::Obj(members(store@))]);
    }
    Json::Obj(root)
}

proof fn lemma_members(s: Seq<EntryV>)
    requires
        sound(s),
    ensures
        forall|k: Text| #[trigger] members(s).contains_key(k) <==> ids(s).contains(k),
        forall|i: int| 0 <= i < s.len() ==> members(s)[#[trigger] s[i].id] == JsonV::Obj(s[i].item),
    decreases s.len(),
{
    if s.len() > 0 {
        let d = s.drop_last();
        assert(sound(d)) by {
            assert forall|i: int, j: int| 0 <= i < j < d.len() implies #[trigger] before(
                d[i].id,
                #[trigger] d[j].id,
            ) by {
                assert(before(s[i].id, s[j].id));
            }
        }
        lemma_members(d);
        assert forall|k: Text| #[trigger] members(s).contains_key(k) <==> ids(s).contains(k) by {
            if ids(s).contains(k) {
                let i = choose|i: int| 0 <= i < ids(s).len() && ids(s)[i] == k;
                if i < d.len() {
                    assert(ids(d)[i] == k);
                }
            }
            if ids(d).contains(k) {
                let i = choose|i: int| 0 <= i < ids(d).len() && ids(d)[i] == k;
                assert(ids(s)[i] == k);
            }
            if k == s.last().id {
                assert(ids(s)[s.len() - 1] == k);
            }
        }
        assert forall|i: int| 0 <= i < s.len() implies members(s)[#[trigger] s[i].id] == JsonV::Obj(
            s[i].item,
        ) by {
            if i < d.len() {
                assert(before(s[i].id, s[s.len() - 1].id));
                strings_are_totally_ordered(s[i].id, s[i].id, s[i].id);
                assert(d[i].id == s[i].id);
            }
        }
    }
}

/// A connector behind all others is stored at the end.
proof fn lemma_stored_last(s: Seq<EntryV>, e: EntryV)
    requires
        forall|i: int| 0 <= i < s.len() ==> before(#[trigger] s[i].id, e.id),
    ensures
        stored(s, e.id, e.item) == s.push(e),
    decreases s.len(),
{
    if s.len() > 0 {
        let d = s.drop_first();
        assert forall|i: int| 0 <= i < d.len() implies before(#[trigger] d[i].id, e.id) by {
            assert(d[i] == s[i + 1]);
        }
        assert(before(s[0].id, e.id));
        lemma_stored_last(d, e);
        assert(seq![s[0]] + d.push(e) =~= s.push(e));
    } else {
        assert(seq![e] =~= s.push(e));
    }
}

proof fn lemma_members_read_back(s: Seq<EntryV>, n: int)
    requires
        is_as_read(s),
        0 <= n <= s.len(),
    ensures
        from_members(members(s), ids(s).take(n)) == s.take(n),
    decreases n,
{
    let keys = ids(s).take(n);
    if n > 0 {
        let e = s[n - 1];
        lemma_members_read_back(s, n - 1);
        assert(keys.drop_last() =~= ids(s).take(n - 1));
        assert(keys.last() == e.id);
        lemma_members(s);
        assert(is_normal(e));
        lemma_normal_id(e);
        assert forall|i: int| 0 <= i < s.take(n - 1).len() implies before(
            #[trigger] s.take(n - 1)[i].id,
            e.id,
        ) by {
            assert(before(s[i].id, s[n - 1].id));
        }
        lemma_stored_last(s.take(n - 1), e);
        assert(s.take(n - 1).push(e) =~= s.take(n));
    } else {
        assert(s.take(0) =~= Seq::empty());
    }
}

/// What is written is read back: the document of a store that is as a read one reads as that store.
pub proof fn a_written_store_is_read_back(s: Seq<EntryV>)
    requires
        is_as_read(s),
    ensures
        read_store(document(s)) == s,
{
    let m = members(s);
    let root = map!["connectors"@ => JsonV::Obj(m)];
    assert(holder(root) == m);
    lemma_members(s);
    let keys = ids(s);
    assert(increasing(keys)) by {
        assert forall|i: int, j: int| 0 <= i < j < keys.len() implies #[trigger] before(
            keys[i],
            #[trigger] keys[j],
        ) by {
            assert(before(s[i].id, s[j].id));
        }
    }
    let t = sorted_keys(m);
    assert(increasing(keys) && (forall|k: Text| #[trigger] keys.contains(k) <==> m.contains_key(k)));
    assert forall|k: Text| #[trigger] keys.contains(k) <==> t.contains(k) by {
        assert(t.contains(k) <==> m.contains_key(k));
    }
    increasing_listing_is_unique(keys, t);
    lemma_members_read_back(s, s.len() as int);
    assert(keys.take(s.len() as int) =~= keys);
    assert(s.take(s.len() as int) =~= s);
}

} // verus!
