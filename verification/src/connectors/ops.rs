//! Changes of the store: replacing, revoking, retiring and restoring connectors. Every change
//! leaves at most one connector in use for each actor.

use crate::connectors::entry::{is_revoked, normalized, normalized_entry, revoked, Entry, EntryV};
use crate::connectors::store::{collapse_active_duplicates, collapsed, found, stored, Store};
use crate::failure::{failed, said, Failure, FailureKind, FailureV};
use crate::json::{
    alike, field, objects, or_null, text_field, text_or_empty, values, Json, JsonMap, JsonV, ObjV,
};
use crate::lists::{collect, lemma_views, lemma_views_push, select, views};
use crate::text::{opt_text, texts, Text};
use vstd::prelude::*;

verus! {

broadcast use {lemma_views, lemma_views_push};

/// A connector out of use since a time.
pub open spec fn revoked_at(item: ObjV, now: Text) -> ObjV {
    item.insert("revoked"@, JsonV::Bool(true)).insert("updated_at"@, JsonV::Str(now))
}

/// The store with the entries that meet the condition taken out of use.
pub open spec fn revoked_where(
    s: Seq<EntryV>,
    p: spec_fn(EntryV) -> bool,
    now: Text,
) -> Seq<EntryV> {
    s.map_values(
        |e: EntryV|
            if p(e) {
                EntryV { item: revoked_at(e.item, now), ..e }
            } else {
                e
            },
    )
}

fn revoke_where<F: Fn(&Entry) -> bool>(
    store: &Store,
    p: F,
    now: &str,
    Ghost(sp): Ghost<spec_fn(EntryV) -> bool>,
) -> (r: Store)
    requires
        forall|x: &Entry| #[trigger] call_requires(p, (x,)),
        forall|x: &Entry, b: bool| #[trigger] call_ensures(p, (x,), b) ==> b == sp(x@),
    ensures
        r@ == revoked_where(store@, sp, now@),
        store.wf() ==> r.wf(),
{
    let mut v: Vec<Entry> = Vec::new();
    let mut i: usize = 0;
    while i < store.entries.len()
        invariant
            i <= store.entries@.len(),
            v@.len() == i,
            forall|x: &Entry| #[trigger] call_requires(p, (x,)),
            forall|x: &Entry, b: bool| #[trigger] call_ensures(p, (x,), b) ==> b == sp(x@),
            forall|j: int|
                0 <= j < i ==> (#[trigger] v@[j])@ == revoked_where(store@, sp, now@)[j],
        decreases store.entries@.len() - i,
    {
        let e = &store.entries[i];
        let mut c = e.copy();
        if p(e) {
            c.item.put("revoked", Json::Bool(true));
            c.item.put("updated_at", Json::str(now));
        }
        v.push(c);
        i += 1;
    }
    let r = Store { entries: v };
    proof {
        assert(r@ =~= revoked_where(store@, sp, now@));
        assert forall|a: int, b: int| 0 <= a < b < r@.len() && store.wf() implies #[trigger]
            crate::order::before(r@[a].id, #[trigger] r@[b].id) by {
            assert(r@[a].id == store@[a].id);
            assert(r@[b].id == store@[b].id);
            assert(crate::order::before(store@[a].id, store@[b].id));
        }
    }
    r
}

/// The ids that entries name in themselves.
pub open spec fn named_ids(s: Seq<EntryV>) -> Seq<Text> {
    s.filter_map(|e: EntryV| text_field(e.item, "connector_id"@))
}

/// Whether an entry is in use for the same group and actor as a connector.
pub open spec fn in_use_for(e: EntryV, item: ObjV) -> bool {
    &&& alike(or_null(field(e.item, "group_id"@)), or_null(field(item, "group_id"@)))
    &&& alike(or_null(field(e.item, "actor_id"@)), or_null(field(item, "actor_id"@)))
    &&& e.active()
}

/// The connector of a request: it must name its id and be one.
pub open spec fn offered(connector: JsonV) -> Result<ObjV, FailureV> {
    match connector.at("connector_id"@).text() {
        None => Err(failed(FailureKind::InvalidData, "connector_id is required"@)),
        Some(id) => match normalized(id, connector) {
            None => Err(failed(FailureKind::InvalidData, "invalid web-model connector"@)),
            Some(item) => Ok(item),
        },
    }
}

fn read_offered(connector: &Json) -> (r: Result<JsonMap, Failure>)
    ensures
        said(r) == offered(connector@),
{
    match connector.text("connector_id") {
        None => Err(Failure::new(FailureKind::InvalidData, "connector_id is required")),
        Some(id) => match normalized_entry(id, connector) {
            None => Err(Failure::new(FailureKind::InvalidData, "invalid web-model connector")),
            Some(item) => Ok(item),
        },
    }
}

/// The store after a connector replaced those in use for its actor.
pub open spec fn replaced(s: Seq<EntryV>, item: ObjV, now: Text) -> Seq<EntryV> {
    collapsed(
        stored(
            revoked_where(s, |e: EntryV| in_use_for(e, item), now),
            text_or_empty(item, "connector_id"@),
            item,
        ),
    )
}

/// Puts a connector into the place of those in use for its actor, and names those that it
/// replaced. A refused one leaves the store as it was.
pub fn replace_active(store: &mut Store, connector: &Json, now: &str) -> (r: Result<
    Vec<String>,
    Failure,
>)
    requires
        old(store).wf(),
    ensures
        final(store).wf(),
        match r {
            Ok(names) => {
                let item = offered(connector@)->Ok_0;
                &&& offered(connector@) is Ok
                &&& texts(names@) == named_ids(old(store)@.filter(|e: EntryV| in_use_for(e, item)))
                &&& final(store)@ == replaced(old(store)@, item, now@)
            },
            Err(e) => offered(connector@) == Err::<ObjV, FailureV>(e@) && final(store)@ == old(
                store,
            )@,
        },
{
    let item = read_offered(connector)?;
    let ghost sp = |e: EntryV| in_use_for(e, item@);
    let group = item.copy_or_null("group_id");
    let actor = item.copy_or_null("actor_id");
    let old_ones = select(
        &store.entries,
        |e: &Entry| -> (b: bool)
            ensures (b == in_use_for(e@, item@))
        {
            e.item.copy_or_null("group_id").same(&group) && e.item.copy_or_null("actor_id").same(
                &actor,
            ) && !is_revoked(&e.item)
        },
        |e: &Entry| -> (c: Entry)
            ensures (c@ == e@)
        {
            e.copy()
        },
        Ghost(sp),
    );
    let ghost sf = |e: EntryV| text_field(e.item, "connector_id"@);
    let names = collect(
        &old_ones,
        |e: &Entry| -> (t: Option<String>)
            ensures (opt_text(t) == text_field(e@.item, "connector_id"@))
        {
            match e.item.text("connector_id") {
                Some(t) => Some(t.to_owned()),
                None => None,
            }
        },
        Ghost(sf),
    );
    let mut next = revoke_where(
        store,
        |e: &Entry| -> (b: bool)
            ensures (b == in_use_for(e@, item@))
        {
            e.item.copy_or_null("group_id").same(&group) && e.item.copy_or_null("actor_id").same(
                &actor,
            ) && !is_revoked(&e.item)
        },
        now,
        Ghost(sp),
    );
    let id = item.text_or_empty("connector_id");
    next.put(id.as_str(), item);
    *store = collapse_active_duplicates(&next);
    Ok(names)
}

/// Takes the connector with an id out of use; false where there is none.
pub fn revoke(store: &mut Store, connector_id: &str, now: &str) -> (r: bool)
    requires
        old(store).wf(),
    ensures
        final(store).wf(),
        r == (found(old(store)@, connector_id@) is Some),
        final(store)@ == collapsed(
            match found(old(store)@, connector_id@) {
                Some(e) => stored(old(store)@, connector_id@, revoked_at(e.item, now@)),
                None => old(store)@,
            },
        ),
{
    let changed = match store.get(connector_id) {
        Some(e) => {
            let mut item = e.item.copy();
            item.put("revoked", Json::Bool(true));
            item.put("updated_at", Json::str(now));
            Some(item)
        },
        None => None,
    };
    match changed {
        Some(item) => {
            store.put(connector_id, item);
            *store = collapse_active_duplicates(store);
            true
        },
        None => {
            *store = collapse_active_duplicates(store);
            false
        },
    }
}

/// The connectors of entries.
pub open spec fn items(s: Seq<EntryV>) -> Seq<ObjV> {
    s.map_values(|e: EntryV| e.item)
}

fn items_of(v: &Vec<Entry>) -> (r: Vec<JsonMap>)
    ensures
        objects(r@) == items(views(v@)),
{
    let mut r: Vec<JsonMap> = Vec::new();
    let mut i: usize = 0;
    while i < v.len()
        invariant
            i <= v@.len(),
            r@.len() == i,
            forall|j: int| 0 <= j < i ==> (#[trigger] r@[j])@ == v@[j]@.item,
        decreases v@.len() - i,
    {
        r.push(v[i].item.copy());
        i += 1;
    }
    proof {
        assert(objects(r@) =~= items(views(v@)));
    }
    r
}

/// Whether an entry is in use for an actor of a group.
pub open spec fn serves(e: EntryV, group_id: Text, actor_id: Text) -> bool {
    &&& text_field(e.item, "group_id"@) == Some(group_id)
    &&& text_field(e.item, "actor_id"@) == Some(actor_id)
    &&& e.active()
}

/// Takes the connectors of an actor out of use, and returns them as they were.
pub fn retire_actor(store: &mut Store, group_id: &str, actor_id: &str, now: &str) -> (r: Vec<
    JsonMap,
>)
    requires
        old(store).wf(),
    ensures
        final(store).wf(),
        objects(r@) == items(old(store)@.filter(|e: EntryV| serves(e, group_id@, actor_id@))),
        final(store)@ == collapsed(
            revoked_where(old(store)@, |e: EntryV| serves(e, group_id@, actor_id@), now@),
        ),
{
    let ghost sp = |e: EntryV| serves(e, group_id@, actor_id@);
    let gone = select(
        &store.entries,
        |e: &Entry| -> (b: bool)
            ensures (b == serves(e@, group_id@, actor_id@))
        {
            e.item.is("group_id", group_id) && e.item.is("actor_id", actor_id) && !is_revoked(
                &e.item,
            )
        },
        |e: &Entry| -> (c: Entry)
            ensures (c@ == e@)
        {
            e.copy()
        },
        Ghost(sp),
    );
    let next = revoke_where(
        store,
        |e: &Entry| -> (b: bool)
            ensures (b == serves(e@, group_id@, actor_id@))
        {
            e.item.is("group_id", group_id) && e.item.is("actor_id", actor_id) && !is_revoked(
                &e.item,
            )
        },
        now,
        Ghost(sp),
    );
    *store = collapse_active_duplicates(&next);
    items_of(&gone)
}

/// Whether an entry is in use for a group.
pub open spec fn serves_group(e: EntryV, group_id: Text) -> bool {
    text_field(e.item, "group_id"@) == Some(group_id) && e.active()
}

/// Takes the connectors of a group out of use, and returns them as they were.
pub fn retire_group(store: &mut Store, group_id: &str, now: &str) -> (r: Vec<JsonMap>)
    requires
        old(store).wf(),
    ensures
        final(store).wf(),
        objects(r@) == items(old(store)@.filter(|e: EntryV| serves_group(e, group_id@))),
        final(store)@ == collapsed(
            revoked_where(old(store)@, |e: EntryV| serves_group(e, group_id@), now@),
        ),
{
    let ghost sp = |e: EntryV| serves_group(e, group_id@);
    let gone = select(
        &store.entries,
        |e: &Entry| -> (b: bool)
            ensures (b == serves_group(e@, group_id@))
        {
            e.item.is("group_id", group_id) && !is_revoked(&e.item)
        },
        |e: &Entry| -> (c: Entry)
            ensures (c@ == e@)
        {
            e.copy()
        },
        Ghost(sp),
    );
    let next = revoke_where(
        store,
        |e: &Entry| -> (b: bool)
            ensures (b == serves_group(e@, group_id@))
        {
            e.item.is("group_id", group_id) && !is_revoked(&e.item)
        },
        now,
        Ghost(sp),
    );
    *store = collapse_active_duplicates(&next);
    items_of(&gone)
}

/// The store with the offered connectors put back, each under the id that it names as it stands;
/// the first that is none is refused.
pub open spec fn put_back(s: Seq<EntryV>, entries: Seq<JsonV>) -> Result<Seq<EntryV>, FailureV>
    decreases entries.len(),
{
    if entries.len() == 0 {
        Ok(s)
    } else {
        match put_back(s, entries.drop_last()) {
            Err(e) => Err(e),
            Ok(t) => match offered(entries.last()) {
                Err(e) => Err(e),
                Ok(item) => Ok(
                    stored(
                        t,
                        crate::json::or_empty(entries.last().at("connector_id"@).text()),
                        item,
                    ),
                ),
            },
        }
    }
}

proof fn lemma_put_back_error(s: Seq<EntryV>, entries: Seq<JsonV>, n: int)
    requires
        0 <= n <= entries.len(),
        put_back(s, entries.take(n)) is Err,
    ensures
        put_back(s, entries) == put_back(s, entries.take(n)),
    decreases entries.len() - n,
{
    if n == entries.len() {
        assert(entries.take(n) =~= entries);
    } else {
        assert(entries.take(n + 1).drop_last() =~= entries.take(n));
        lemma_put_back_error(s, entries, n + 1);
    }
}

/// Puts connectors back. No connectors leave the store untouched; a refused one leaves it as it
/// was.
pub fn restore(store: &mut Store, entries: &Vec<Json>) -> (r: Result<(), Failure>)
    requires
        old(store).wf(),
    ensures
        final(store).wf(),
        match r {
            Ok(_) => {
                &&& put_back(old(store)@, values(entries@)) is Ok
                &&& final(store)@ == if entries@.len() == 0 {
                    old(store)@
                } else {
                    collapsed(put_back(old(store)@, values(entries@))->Ok_0)
                }
            },
            Err(e) => put_back(old(store)@, values(entries@)) == Err::<Seq<EntryV>, FailureV>(e@)
                && final(store)@ == old(store)@,
        },
{
    proof {
        crate::json::lemma_values(entries@);
    }
    if entries.len() == 0 {
        return Ok(());
    }
    let ghost all = values(entries@);
    let mut next = store.copy();
    let mut i: usize = 0;
    while i < entries.len()
        invariant
            i <= entries@.len(),
            next.wf(),
            all == values(entries@),
            all.len() == entries@.len(),
            forall|j: int| 0 <= j < entries@.len() ==> #[trigger] all[j] == entries@[j]@,
            store@ == old(store)@,
            store.wf(),
            put_back(store@, all.take(i as int)) == Ok::<Seq<EntryV>, FailureV>(next@),
        decreases entries@.len() - i,
    {
        proof {
            assert(all.take(i + 1).drop_last() =~= all.take(i as int));
            if put_back(store@, all.take(i + 1)) is Err {
                lemma_put_back_error(store@, all, i + 1);
            }
        }
        let item = read_offered(&entries[i])?;
        let id = entries[i].text_or_empty("connector_id");
        next.put(id.as_str(), item);
        i += 1;
    }
    proof {
        assert(all.take(i as int) =~= all);
    }
    *store = collapse_active_duplicates(&next);
    Ok(())
}

/// Changes a connector; false where there is none. `change` is handed the connector and gives back
/// what it becomes.
pub fn update_connector<F: FnOnce(JsonMap) -> JsonMap>(
    store: &mut Store,
    connector_id: &str,
    change: F,
) -> (r: bool)
    requires
        old(store).wf(),
        forall|m: JsonMap|
            found(old(store)@, connector_id@) matches Some(e) && m@ == e.item
                ==> #[trigger] change.requires((m,)),
    ensures
        final(store).wf(),
        r == (found(old(store)@, connector_id@) is Some),
        match found(old(store)@, connector_id@) {
            Some(e) => exists|m: JsonMap, n: JsonMap| #[trigger]
                change.ensures((m,), n) && m@ == e.item && final(store)@ == collapsed(
                    stored(old(store)@, connector_id@, n@),
                ),
            None => final(store)@ == collapsed(old(store)@),
        },
{
    let known = match store.get(connector_id) {
        Some(e) => Some(e.item.copy()),
        None => None,
    };
    match known {
        Some(item) => {
            let changed = change(item);
            proof {
                assert(change.ensures((item,), changed));
            }
            store.put(connector_id, changed);
            *store = collapse_active_duplicates(store);
            true
        },
        None => {
            *store = collapse_active_duplicates(store);
            false
        },
    }
}

/// The connectors of the store, in the order of their ids.
pub fn load(store: &Store) -> (r: Vec<JsonMap>)
    ensures
        objects(r@) == items(store@),
{
    items_of(&store.entries)
}

} // verus!
