//! The connector store: entries in the order of their ids, at most one in use for each actor.

use crate::connectors::entry::{
    is_revoked, is_routed, normalized, normalized_entry, outranked, revoked, same_route, Entry,
    EntryV,
};
use crate::json::{field, or_null, text_or_empty, values, Json, JsonMap, JsonV, ObjV};
use crate::json_write::{keys_in_order, sorted_keys};
use crate::lists::{
    find_first, first_match, lemma_views, lemma_views_push, opt_view, some_match, views,
};
use crate::order::{before, str_before, strings_are_totally_ordered};
use crate::text::{str_eq, texts, trim, trimmed, Text};
use vstd::prelude::*;

verus! {

broadcast use {lemma_views, lemma_views_push};

/// The connectors, in the order of their ids.
pub struct Store {
    pub entries: Vec<Entry>,
}

/// The ids of entries.
pub open spec fn ids(s: Seq<EntryV>) -> Seq<Text> {
    s.map_values(|e: EntryV| e.id)
}

impl View for Store {
    type V = Seq<EntryV>;

    open spec fn view(&self) -> Seq<EntryV> {
        views(self.entries@)
    }
}

/// A store is well formed when its ids increase, so that each occurs once.
pub open spec fn sound(s: Seq<EntryV>) -> bool {
    forall|i: int, j: int| 0 <= i < j < s.len() ==> #[trigger] before(s[i].id, #[trigger] s[j].id)
}

impl Store {
    /// Whether the ids increase.
    pub open spec fn wf(&self) -> bool {
        sound(self@)
    }

    /// An empty store.
    pub fn new() -> (r: Store)
        ensures
            r@ == Seq::<EntryV>::empty(),
            r.wf(),
    {
        let r = Store { entries: Vec::new() };
        assert(r@ =~= Seq::empty());
        r
    }

    /// A copy of the store.
    pub fn copy(&self) -> (r: Store)
        ensures
            r@ == self@,
    {
        let mut v: Vec<Entry> = Vec::new();
        let mut i: usize = 0;
        while i < self.entries.len()
            invariant
                i <= self.entries@.len(),
                views(v@) == self@.take(i as int),
            decreases self.entries@.len() - i,
        {
            v.push(self.entries[i].copy());
            proof {
                assert(views(v@) =~= self@.take(i + 1));
            }
            i += 1;
        }
        proof {
            assert(self@.take(i as int) =~= self@);
        }
        Store { entries: v }
    }

    /// The connector stored under an id.
    pub fn get(&self, id: &str) -> (r: Option<&Entry>)
        ensures
            opt_view(r) == found(self@, id@),
    {
        let ghost sp = |e: EntryV| e.id == id@;
        find_first(
            &self.entries,
            |e: &Entry| -> (b: bool)
                ensures (b == (e@.id == id@))
            {
                str_eq(e.id.as_str(), id)
            },
            Ghost(sp),
        )
    }

    /// Stores a connector under an id, in its place in the order.
    pub fn put(&mut self, id: &str, item: JsonMap)
        requires
            old(self).wf(),
        ensures
            final(self)@ == stored(old(self)@, id@, item@),
            final(self).wf(),
    {
        let ghost s = self@;
        let ghost x = EntryV { id: id@, item: item@ };
        proof {
            lemma_stored(s, id@, item@);
            assert(s.skip(0) =~= s);
            assert(s.take(0) + stored(s, id@, item@) =~= stored(s, id@, item@));
        }
        let mut i: usize = 0;
        while i < self.entries.len() && str_before(self.entries[i].id.as_str(), id)
            invariant
                i <= self.entries@.len(),
                self@ == s,
                stored(s, id@, item@) == s.take(i as int) + stored(
                    s.skip(i as int),
                    id@,
                    item@,
                ),
            decreases self.entries@.len() - i,
        {
            proof {
                let r = s.skip(i as int);
                assert(r.drop_first() =~= s.skip(i + 1));
                assert(s.take(i + 1) =~= s.take(i as int).push(s[i as int]));
                assert(s.take(i as int) + (seq![r[0]] + stored(s.skip(i + 1), id@, item@))
                    =~= s.take(i + 1) + stored(s.skip(i + 1), id@, item@));
            }
            i += 1;
        }
        let ghost r = s.skip(i as int);
        let entry = Entry { id: id.to_owned(), item };
        if i < self.entries.len() && str_eq(self.entries[i].id.as_str(), id) {
            self.entries[i] = entry;
            proof {
                strings_are_totally_ordered(id@, id@, id@);
                assert(stored(r, id@, x.item) =~= seq![x] + r.drop_first());
                assert(self@ =~= s.take(i as int) + (seq![x] + r.drop_first()));
            }
        } else {
            self.entries.insert(i, entry);
            proof {
                assert(stored(r, id@, x.item) =~= seq![x] + r);
                assert(self@ =~= s.take(i as int) + (seq![x] + r));
            }
        }
    }
}

/// The connector stored under an id.
pub open spec fn found(s: Seq<EntryV>, id: Text) -> Option<EntryV> {
    first_match(s, |e: EntryV| e.id == id)
}

/// The store with a connector under an id, in its place in the order.
pub open spec fn stored(s: Seq<EntryV>, id: Text, item: ObjV) -> Seq<EntryV>
    decreases s.len(),
{
    let x = EntryV { id, item };
    if s.len() == 0 {
        seq![x]
    } else if before(s[0].id, id) {
        seq![s[0]] + stored(s.drop_first(), id, item)
    } else if s[0].id == id {
        seq![x] + s.drop_first()
    } else {
        seq![x] + s
    }
}

proof fn lemma_tail_sound(s: Seq<EntryV>)
    requires
        sound(s),
        s.len() > 0,
    ensures
        sound(s.drop_first()),
        forall|j: int| 0 <= j < s.drop_first().len() ==> before(
            s[0].id,
            #[trigger] s.drop_first()[j].id,
        ),
{
    let d = s.drop_first();
    assert forall|i: int, j: int| 0 <= i < j < d.len() implies #[trigger] before(
        d[i].id,
        #[trigger] d[j].id,
    ) by {
        assert(before(s[i + 1].id, s[j + 1].id));
    }
    assert forall|j: int| 0 <= j < d.len() implies before(s[0].id, #[trigger] d[j].id) by {
        assert(before(s[0].id, s[j + 1].id));
    }
}

/// Storing a connector keeps the store well formed and changes nothing but that id.
pub proof fn lemma_stored(s: Seq<EntryV>, id: Text, item: ObjV)
    requires
        sound(s),
    ensures
        sound(stored(s, id, item)),
        forall|e: EntryV| #[trigger]
            stored(s, id, item).contains(e) <==> e == (EntryV { id, item }) || (s.contains(e) && e.id
                != id),
    decreases s.len(),
{
    let x = EntryV { id, item };
    let r = stored(s, id, item);
    if s.len() == 0 {
        assert(r[0] == x);
    } else if before(s[0].id, id) {
        let d = s.drop_first();
        let w = stored(d, id, item);
        lemma_tail_sound(s);
        lemma_stored(d, id, item);
        strings_are_totally_ordered(s[0].id, id, s[0].id);
        assert(r =~= seq![s[0]] + w);
        assert forall|i: int, j: int| 0 <= i < j < r.len() implies #[trigger] before(
            r[i].id,
            #[trigger] r[j].id,
        ) by {
            if i == 0 {
                assert(w.contains(w[j - 1]));
                if w[j - 1] != x {
                    let k = choose|k: int| 0 <= k < d.len() && d[k] == w[j - 1];
                    assert(before(s[0].id, d[k].id));
                }
            } else {
                assert(before(w[i - 1].id, w[j - 1].id));
            }
        }
        assert forall|e: EntryV| #[trigger] r.contains(e) <==> e == x || (s.contains(e) && e.id
            != id) by {
            if r.contains(e) {
                let k = choose|k: int| 0 <= k < r.len() && r[k] == e;
                if k > 0 {
                    assert(w[k - 1] == e);
                    assert(w.contains(e));
                    if e != x {
                        let m = choose|m: int| 0 <= m < d.len() && d[m] == e;
                        assert(s[m + 1] == e);
                    }
                } else {
                    assert(s.contains(s[0]));
                }
            }
            if e == x || (s.contains(e) && e.id != id) {
                if s.contains(e) && e.id != id {
                    let m = choose|m: int| 0 <= m < s.len() && s[m] == e;
                    if m == 0 {
                        assert(r[0] == e);
                    } else {
                        assert(d[m - 1] == e);
                        assert(d.contains(e));
                        assert(w.contains(e));
                        let k = choose|k: int| 0 <= k < w.len() && w[k] == e;
                        assert(r[k + 1] == e);
                    }
                } else {
                    assert(w.contains(e));
                    let k = choose|k: int| 0 <= k < w.len() && w[k] == e;
                    assert(r[k + 1] == e);
                }
            }
        }
    } else {
        lemma_tail_sound(s);
        let rest = if s[0].id == id {
            s.drop_first()
        } else {
            s
        };
        assert(r =~= seq![x] + rest);
        strings_are_totally_ordered(id, s[0].id, id);
        assert forall|i: int, j: int| 0 <= i < j < r.len() implies #[trigger] before(
            r[i].id,
            #[trigger] r[j].id,
        ) by {
            if i == 0 {
                if s[0].id == id {
                    assert(before(s[0].id, s.drop_first()[j - 1].id));
                } else if j > 1 {
                    assert(before(s[0].id, s[j - 1].id));
                    strings_are_totally_ordered(id, s[0].id, s[j - 1].id);
                }
            } else {
                assert(before(rest[i - 1].id, rest[j - 1].id));
            }
        }
        assert forall|e: EntryV| #[trigger] r.contains(e) <==> e == x || (s.contains(e) && e.id
            != id) by {
            if r.contains(e) {
                let k = choose|k: int| 0 <= k < r.len() && r[k] == e;
                if k > 0 {
                    assert(rest[k - 1] == e);
                    if s[0].id == id {
                        assert(s[k] == e);
                        assert(before(s[0].id, s.drop_first()[k - 1].id));
                        strings_are_totally_ordered(id, id, id);
                    } else {
                        assert(s[k - 1] == e);
                        if k - 1 > 0 {
                            assert(before(s[0].id, s[k - 1].id));
                            strings_are_totally_ordered(id, s[0].id, s[k - 1].id);
                            strings_are_totally_ordered(id, id, id);
                        }
                    }
                }
            }
            if e == x {
                assert(r[0] == x);
            }
            if s.contains(e) && e.id != id {
                let m = choose|m: int| 0 <= m < s.len() && s[m] == e;
                if s[0].id == id {
                    assert(r[m] == e);
                } else {
                    assert(r[m + 1] == e);
                }
            }
        }
    }
}

/// In a well-formed store an id is found exactly at its entry.
pub proof fn lemma_found(s: Seq<EntryV>, e: EntryV)
    requires
        sound(s),
        s.contains(e),
    ensures
        found(s, e.id) == Some(e),
    decreases s.len(),
{
    let i = choose|i: int| 0 <= i < s.len() && s[i] == e;
    if i > 0 {
        lemma_tail_sound(s);
        let d = s.drop_first();
        assert(d[i - 1] == e);
        assert(d.contains(e));
        lemma_found(d, e);
        assert(before(s[0].id, s[i].id));
        strings_are_totally_ordered(e.id, e.id, e.id);
    }
}

/// Whether a connector in use keeps its place: it names an actor, and no other in use for that
/// actor is newer.
pub open spec fn is_current(s: Seq<EntryV>, e: EntryV) -> bool {
    &&& e.routed()
    &&& !some_match(
        s,
        |other: EntryV| other.active() && other.same_route(e) && e.outranked_by(other),
    )
}

/// A connector taken out of use; one that was never updated is dated by its creation.
pub open spec fn retired(e: EntryV) -> EntryV {
    let item = e.item.insert("revoked"@, JsonV::Bool(true));
    EntryV {
        item: if text_or_empty(item, "updated_at"@).len() == 0 {
            item.insert("updated_at"@, or_null(field(item, "created_at"@)))
        } else {
            item
        },
        ..e
    }
}

/// A connector after duplicates were taken out of use.
pub open spec fn settled(s: Seq<EntryV>, e: EntryV) -> EntryV {
    if e.active() && !is_current(s, e) {
        retired(e)
    } else {
        e
    }
}

/// The store with all but the newest connector of each actor taken out of use.
pub open spec fn collapsed(s: Seq<EntryV>) -> Seq<EntryV> {
    s.map_values(|e: EntryV| settled(s, e))
}

fn current(store: &Store, e: &Entry) -> (r: bool)
    ensures
        r == is_current(store@, e@),
{
    if !is_routed(e) {
        return false;
    }
    let ghost sp = |other: EntryV|
        other.active() && other.same_route(e@) && e@.outranked_by(other);
    !crate::lists::any_of(
        &store.entries,
        |other: &Entry| -> (b: bool)
            ensures (b == (other@.active() && other@.same_route(e@) && e@.outranked_by(other@)))
        {
            !is_revoked(&other.item) && same_route(other, e) && outranked(e, other)
        },
        Ghost(sp),
    )
}

fn retire(e: &Entry) -> (r: Entry)
    ensures
        r@ == retired(e@),
{
    let mut item = e.item.copy();
    item.put("revoked", Json::Bool(true));
    let updated = item.text_or_empty("updated_at");
    if updated.as_str().is_empty() {
        let created = item.copy_or_null("created_at");
        item.put("updated_at", created);
    }
    Entry { id: e.id.clone(), item }
}

/// The store with all but the newest connector of each actor taken out of use.
pub fn collapse_active_duplicates(store: &Store) -> (r: Store)
    ensures
        r@ == collapsed(store@),
        store.wf() ==> r.wf(),
{
    let mut v: Vec<Entry> = Vec::new();
    let mut i: usize = 0;
    while i < store.entries.len()
        invariant
            i <= store.entries@.len(),
            v@.len() == i,
            forall|j: int| 0 <= j < i ==> (#[trigger] v@[j])@ == settled(store@, store@[j]),
        decreases store.entries@.len() - i,
    {
        let e = &store.entries[i];
        if !is_revoked(&e.item) && !current(store, e) {
            v.push(retire(e));
        } else {
            v.push(e.copy());
        }
        i += 1;
    }
    let r = Store { entries: v };
    proof {
        assert(r@ =~= collapsed(store@));
        if store.wf() {
            lemma_collapse_is_sound(store@);
        }
    }
    r
}

pub proof fn lemma_collapse_is_sound(s: Seq<EntryV>)
    requires
        sound(s),
    ensures
        sound(collapsed(s)),
{
    let c = collapsed(s);
    assert forall|i: int, j: int| 0 <= i < j < c.len() implies #[trigger] before(
        c[i].id,
        #[trigger] c[j].id,
    ) by {
        assert(c[i].id == s[i].id);
        assert(c[j].id == s[j].id);
        assert(before(s[i].id, s[j].id));
    }
}

/// The store with a raw connector taken in under its trimmed id, where it is one.
pub open spec fn taken_in(s: Seq<EntryV>, id: Text, raw: JsonV) -> Seq<EntryV> {
    match normalized(id, raw) {
        Some(item) => stored(s, trimmed(id), item),
        None => s,
    }
}

/// The connectors of a list, each under the id that it names.
pub open spec fn from_list(items: Seq<JsonV>) -> Seq<EntryV>
    decreases items.len(),
{
    if items.len() == 0 {
        Seq::empty()
    } else {
        taken_in(
            from_list(items.drop_last()),
            crate::json::or_empty(items.last().at("connector_id"@).text()),
            items.last(),
        )
    }
}

/// The connectors of an object, each under its key, in the order of the keys.
pub open spec fn from_members(m: ObjV, keys: Seq<Text>) -> Seq<EntryV>
    decreases keys.len(),
{
    if keys.len() == 0 {
        Seq::empty()
    } else {
        taken_in(from_members(m, keys.drop_last()), keys.last(), m[keys.last()])
    }
}

/// The object that holds the connectors: the member `connectors` where it is an object, else the
/// whole.
pub open spec fn holder(root: ObjV) -> ObjV {
    match or_null(field(root, "connectors"@)).object() {
        Some(m) => m,
        None => root,
    }
}

/// The store that a document holds: a list of connectors, or an object of them.
pub open spec fn read_store(raw: JsonV) -> Seq<EntryV> {
    match raw {
        JsonV::Arr(items) => collapsed(from_list(items)),
        JsonV::Obj(root) => collapsed(from_members(holder(root), sorted_keys(holder(root)))),
        _ => Seq::empty(),
    }
}

fn take_in(store: &mut Store, id: &str, raw: &Json)
    requires
        old(store).wf(),
    ensures
        final(store)@ == taken_in(old(store)@, id@, raw@),
        final(store).wf(),
{
    match normalized_entry(id, raw) {
        Some(item) => {
            let id = trim(id);
            store.put(id.as_str(), item);
        },
        None => {},
    }
}

/// The store that a document holds.
pub fn connector_map(raw: &Json) -> (r: Store)
    ensures
        r@ == read_store(raw@),
        r.wf(),
{
    let mut store = Store::new();
    match raw {
        Json::Arr(items) => {
            let mut i: usize = 0;
            proof {
                crate::json::lemma_values(items@);
            }
            while i < items.len()
                invariant
                    i <= items@.len(),
                    store.wf(),
                    values(items@).len() == items@.len(),
                    forall|j: int| 0 <= j < items@.len() ==> #[trigger] values(items@)[j] == items@[j]@,
                    store@ == from_list(values(items@).take(i as int)),
                decreases items@.len() - i,
            {
                proof {
                    assert(values(items@).take(i + 1).drop_last() =~= values(items@).take(
                        i as int,
                    ));
                }
                let id = items[i].text_or_empty("connector_id");
                take_in(&mut store, id.as_str(), &items[i]);
                i += 1;
            }
            proof {
                assert(values(items@).take(i as int) =~= values(items@));
            }
            collapse_active_duplicates(&store)
        },
        Json::Obj(root) => {
            let held = match root.get("connectors") {
                Some(v) => match v.as_object() {
                    Some(m) => m,
                    None => root,
                },
                None => root,
            };
            let keys = keys_in_order(held);
            let ghost ks = texts(keys@);
            let mut i: usize = 0;
            while i < keys.len()
                invariant
                    i <= keys@.len(),
                    store.wf(),
                    ks == texts(keys@),
                    forall|k: Text| #[trigger] ks.contains(k) <==> held@.contains_key(k),
                    store@ == from_members(held@, ks.take(i as int)),
                decreases keys@.len() - i,
            {
                proof {
                    assert(ks.take(i + 1).drop_last() =~= ks.take(i as int));
                    assert(ks.contains(ks[i as int]));
                }
                match held.get(keys[i].as_str()) {
                    Some(v) => {
                        take_in(&mut store, keys[i].as_str(), v);
                    },
                    None => {},
                }
                i += 1;
            }
            proof {
                assert(ks.take(i as int) =~= ks);
            }
            collapse_active_duplicates(&store)
        },
        _ => store,
    }
}

} // verus!
