//! Taking older connectors over into the store, which has the last word.

use crate::connectors::entry::{is_revoked, revoked, Entry, EntryV};
use crate::connectors::store::{
    collapse_active_duplicates, collapsed, connector_map, found, read_store, stored, Store,
};
use crate::failure::Failure;
use crate::json::{text_field, text_or_empty, Json, JsonMap, JsonV, ObjV};
use crate::lists::{any_of, lemma_views, lemma_views_push, some_match};
use crate::text::{str_eq, trim, trimmed, Text};
use vstd::prelude::*;

verus! {

broadcast use {lemma_views, lemma_views_push};

/// Whether a connector out of use names this group and actor, spaces aside.
pub open spec fn retires(e: EntryV, group: Text, actor: Text) -> bool {
    &&& revoked(e.item)
    &&& text_field(e.item, "group_id"@) matches Some(g) && trimmed(g) == group
    &&& text_field(e.item, "actor_id"@) matches Some(a) && trimmed(a) == actor
    &&& group.len() > 0
    &&& actor.len() > 0
}

/// Whether the store has taken the actor's connector out of use.
pub open spec fn route_retired(s: Seq<EntryV>, group: Text, actor: Text) -> bool {
    some_match(s, |e: EntryV| retires(e, group, actor))
}

/// The group that a connector names, spaces aside.
pub open spec fn trimmed_group(item: ObjV) -> Text {
    trimmed(text_or_empty(item, "group_id"@))
}

/// The actor that a connector names, spaces aside.
pub open spec fn trimmed_actor(item: ObjV) -> Text {
    trimmed(text_or_empty(item, "actor_id"@))
}

/// The store after one older connector: unknown ones are taken over, unless they are in use and
/// the store has taken the actor's connector out of use; of known ones, only the members that the
/// store does not have.
pub open spec fn taken_over(canonical: Seq<EntryV>, s: Seq<EntryV>, e: EntryV) -> Seq<EntryV> {
    match found(s, e.id) {
        Some(known) => stored(s, e.id, e.item.union_prefer_right(known.item)),
        None => if e.active() && route_retired(
            canonical,
            trimmed_group(e.item),
            trimmed_actor(e.item),
        ) {
            s
        } else {
            stored(s, e.id, e.item)
        },
    }
}

/// The store after all older connectors.
pub open spec fn all_taken_over(canonical: Seq<EntryV>, imported: Seq<EntryV>) -> Seq<EntryV>
    decreases imported.len(),
{
    if imported.len() == 0 {
        canonical
    } else {
        taken_over(
            canonical,
            all_taken_over(canonical, imported.drop_last()),
            imported.last(),
        )
    }
}

/// The store merged with older connectors.
pub open spec fn merged(canonical: Seq<EntryV>, imported: Seq<EntryV>) -> Seq<EntryV> {
    collapsed(all_taken_over(canonical, imported))
}

fn is_route_retired(store: &Store, group: &str, actor: &str) -> (r: bool)
    ensures
        r == route_retired(store@, group@, actor@),
{
    let ghost sp = |e: EntryV| retires(e, group@, actor@);
    any_of(
        &store.entries,
        |e: &Entry| -> (b: bool)
            ensures (b == retires(e@, group@, actor@))
        {
            let same_group = match e.item.text("group_id") {
                Some(g) => str_eq(trim(g).as_str(), group),
                None => false,
            };
            let same_actor = match e.item.text("actor_id") {
                Some(a) => str_eq(trim(a).as_str(), actor),
                None => false,
            };
            is_revoked(&e.item) && same_group && same_actor && !group.is_empty()
                && !actor.is_empty()
        },
        Ghost(sp),
    )
}

fn overlaid(under: &JsonMap, over: &JsonMap) -> (r: JsonMap)
    ensures
        r@ == under@.union_prefer_right(over@),
{
    let mut m = under.copy();
    let mut i: usize = 0;
    let ghost e = over.entries@;
    proof {
        assert(under@.union_prefer_right(crate::json::entries_map(e.take(0))) =~= under@);
    }
    while i < over.entries.len()
        invariant
            i <= over.entries@.len(),
            e == over.entries@,
            m@ == under@.union_prefer_right(crate::json::entries_map(e.take(i as int))),
        decreases over.entries@.len() - i,
    {
        m.put(over.entries[i].0.as_str(), over.entries[i].1.copy());
        proof {
            assert(e.take(i + 1).drop_last() =~= e.take(i as int));
            assert(m@ =~= under@.union_prefer_right(crate::json::entries_map(e.take(i + 1))));
        }
        i += 1;
    }
    proof {
        assert(e.take(i as int) =~= e);
    }
    m
}

/// The store merged with older connectors.
pub fn merge_maps(canonical: &Store, imported: &Store) -> (r: Store)
    requires
        canonical.wf(),
    ensures
        r@ == merged(canonical@, imported@),
        r.wf(),
{
    let mut store = canonical.copy();
    let mut i: usize = 0;
    while i < imported.entries.len()
        invariant
            i <= imported.entries@.len(),
            store.wf(),
            store@ == all_taken_over(canonical@, imported@.take(i as int)),
        decreases imported.entries@.len() - i,
    {
        let e = &imported.entries[i];
        proof {
            assert(imported@.take(i + 1).drop_last() =~= imported@.take(i as int));
        }
        let both = match store.get(e.id.as_str()) {
            Some(known) => Some(overlaid(&e.item, &known.item)),
            None => None,
        };
        match both {
            Some(item) => {
                store.put(e.id.as_str(), item);
            },
            None => {
                let raw_group = e.item.text_or_empty("group_id");
                let raw_actor = e.item.text_or_empty("actor_id");
                let group = trim(raw_group.as_str());
                let actor = trim(raw_actor.as_str());
                if is_revoked(&e.item) || !is_route_retired(
                    canonical,
                    group.as_str(),
                    actor.as_str(),
                ) {
                    store.put(e.id.as_str(), e.item.copy());
                }
            },
        }
        i += 1;
    }
    proof {
        assert(imported@.take(i as int) =~= imported@);
    }
    collapse_active_duplicates(&store)
}

/// What taking the older settings over comes to.
pub struct Migration {
    /// The store to write, where it changes.
    pub write: Option<Store>,
    /// Whether the older settings are to be removed.
    pub remove: bool,
}

/// Takes the connectors of older settings over into the store: `legacy` is what the settings hold
/// under their old key, if they hold it. Settings without a connector in them change nothing in
/// the store and are removed all the same.
pub fn migrate_settings_store(canonical: &Store, legacy: Option<&Json>) -> (r: Migration)
    requires
        canonical.wf(),
    ensures
        r.remove == (legacy is Some),
        match r.write {
            Some(s) => s.wf() && legacy is Some && read_store(legacy->0@).len() > 0 && s@ == merged(
                canonical@,
                read_store(legacy->0@),
            ),
            None => legacy matches Some(raw) ==> read_store(raw@).len() == 0,
        },
{
    match legacy {
        None => Migration { write: None, remove: false },
        Some(raw) => {
            let imported = connector_map(raw);
            if imported.entries.len() == 0 {
                Migration { write: None, remove: true }
            } else {
                Migration { write: Some(merge_maps(canonical, &imported)), remove: true }
            }
        },
    }
}

/// Whether the older settings are removed, once the store is written as far as it changes. Where
/// that failed they stay, and the failure is told.
pub fn after_write(migration: &Migration, written: Result<(), Failure>) -> (r: Result<bool, Failure>)
    ensures
        match written {
            Ok(_) => r == Ok::<bool, Failure>(migration.remove),
            Err(e) => r matches Err(x) && x@ == e@,
        },
{
    match written {
        Ok(_) => Ok(migration.remove),
        Err(e) => Err(e),
    }
}

/// What is kept on disk: the store, and what the settings hold under their old key.
pub struct Kept {
    pub store: Seq<EntryV>,
    pub legacy: Option<JsonV>,
}

/// What is kept after the older settings were taken over, and whether that succeeded. `written` and
/// `removed` say whether the store could be written and the settings changed.
pub open spec fn taken_over_on_disk(k: Kept, written: bool, removed: bool) -> (Kept, bool) {
    match k.legacy {
        None => (k, true),
        Some(raw) => {
            let changes = read_store(raw).len() > 0;
            let store = if changes && written {
                merged(k.store, read_store(raw))
            } else {
                k.store
            };
            if changes && !written {
                (k, false)
            } else if removed {
                (Kept { store, legacy: None }, true)
            } else {
                (Kept { store, legacy: k.legacy }, false)
            }
        },
    }
}

/// Taking the older settings over loses nothing. Where it succeeds, they are gone and their
/// connectors are merged into the store, which stays as it is where they held none, and doing it
/// again changes nothing. Where it fails, they are still there.
pub proof fn older_settings_are_not_lost(k: Kept, written: bool, removed: bool, w: bool, r: bool)
    ensures
        ({
            let (then, ok) = taken_over_on_disk(k, written, removed);
            &&& !ok ==> then.legacy == k.legacy
            &&& ok ==> then.legacy is None && then.store == match k.legacy {
                Some(raw) => if read_store(raw).len() > 0 {
                    merged(k.store, read_store(raw))
                } else {
                    k.store
                },
                None => k.store,
            }
            &&& ok ==> taken_over_on_disk(then, w, r) == (then, true)
            &&& k.legacy is None || (written && removed) ==> ok
        }),
{
}

} // verus!
