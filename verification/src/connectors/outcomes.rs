//! What a change of the store comes to, told of the connectors themselves: which are taken out of
//! use, which stay exactly as they are, and what is written into the one that changes.

use crate::connectors::binding::{
    actor_check, bindable, bound_answer, bound_item, by_secret, expired, expiry, holds_hash, issuable,
    issued, taken_by_other, with_code,
};
use crate::connectors::entry::{normalized, opens, preview, rank_is_a_total_order, EntryV};
use crate::connectors::laws::{
    lemma_found_in, lemma_same_place, lemma_stored_in_place, lemma_two_matches,
};
use crate::connectors::merge::{
    all_taken_over, merged, retires, route_retired, taken_over, trimmed_actor, trimmed_group,
};
use crate::connectors::ops::{
    in_use_for, items, named_ids, replaced, revoked_at, revoked_where, serves, serves_group,
};
use crate::connectors::provisioning::{created, creatable, newest_first, older, placed, shown};
use crate::connectors::store::{collapsed, found, lemma_found, lemma_stored, settled, sound, stored};
use crate::failure::{failed, FailureKind, FailureV};
use crate::json::{text_field, JsonV, ObjV};
use crate::lists::{lemma_collected, lemma_selection, some_match};
use crate::model::{first_actor, ActorRole, ActorRuntime, ActorV, GroupV};
use crate::order::{before, strings_are_totally_ordered};
use crate::relay::ids::hex_digest;
use crate::text::{trimmed, Text};
use crate::time::Instant;
use vstd::prelude::*;

verus! {

/// The members of a connector differ.
pub(crate) proof fn lemma_connector_words()
    ensures
        "connector_id"@.len() == 12,
        "group_id"@.len() == 8,
        "actor_id"@.len() == 8,
        "kind"@.len() == 4,
        "secret"@.len() == 6,
        "secret_hash"@.len() == 11,
        "secret_preview"@.len() == 14,
        "revoked"@.len() == 7,
        "updated_at"@.len() == 10,
        "created_at"@.len() == 10,
        "session_hash"@.len() == 12,
        "session_bound_at"@.len() == 16,
        "binding_code_hash"@.len() == 17,
        "binding_expires_at"@.len() == 18,
        "previous_session_hash"@.len() == 21,
        "session_bound"@.len() == 13,
        "secret_available"@.len() == 16,
        "connector_url"@.len() == 13,
        "connector_url_path_token"@.len() == 24,
        "connector_url_with_token"@.len() == 24,
        "code"@.len() == 4,
        "bound"@.len() == 5,
        "last_activity_at"@.len() == 16,
        "connector_id"@[0] == 'c',
        "session_hash"@[0] == 's',
        "group_id"@[0] == 'g',
        "actor_id"@[0] == 'a',
        "kind"@[0] == 'k',
        "code"@[0] == 'c',
        "updated_at"@[0] == 'u',
        "created_at"@[0] == 'c',
        "session_bound_at"@[2] == 's',
        "secret_available"@[2] == 'c',
        "session_bound_at"@[0] == 's',
        "last_activity_at"@[0] == 'l',
        "session_bound"@[0] == 's',
        "connector_url"@[0] == 'c',
        "secret_available"@[0] == 's',
        "connector_url_path_token"@[14] == 'p',
        "connector_url_with_token"@[14] == 'w',
{
    reveal_strlit("connector_id");
    reveal_strlit("group_id");
    reveal_strlit("actor_id");
    reveal_strlit("kind");
    reveal_strlit("secret");
    reveal_strlit("secret_hash");
    reveal_strlit("secret_preview");
    reveal_strlit("revoked");
    reveal_strlit("updated_at");
    reveal_strlit("created_at");
    reveal_strlit("session_hash");
    reveal_strlit("session_bound_at");
    reveal_strlit("binding_code_hash");
    reveal_strlit("binding_expires_at");
    reveal_strlit("previous_session_hash");
    reveal_strlit("session_bound");
    reveal_strlit("secret_available");
    reveal_strlit("connector_url");
    reveal_strlit("connector_url_path_token");
    reveal_strlit("connector_url_with_token");
    reveal_strlit("code");
    reveal_strlit("bound");
    reveal_strlit("last_activity_at");
}

/// Whether a connector is in use: it is not marked as revoked.
pub open spec fn is_in_use(item: ObjV) -> bool {
    !(item.contains_key("revoked"@) && item["revoked"@] == JsonV::Bool(true))
}

/// Whether a connector speaks for an actor of a group.
pub open spec fn speaks_for(item: ObjV, group_id: Text, actor_id: Text) -> bool {
    &&& item.contains_key("group_id"@) && item["group_id"@] == JsonV::Str(group_id)
    &&& item.contains_key("actor_id"@) && item["actor_id"@] == JsonV::Str(actor_id)
}

/// Whether every connector in use speaks for an actor, and no two for the same.
pub open spec fn is_tidy(s: Seq<EntryV>) -> bool {
    &&& forall|i: int|
        0 <= i < s.len() && is_in_use((#[trigger] s[i]).item) ==> exists|g: Text, a: Text|
            g.len() > 0 && a.len() > 0 && #[trigger] speaks_for(s[i].item, g, a)
    &&& forall|i: int, j: int, g: Text, a: Text|
        0 <= i < s.len() && 0 <= j < s.len() && is_in_use(s[i].item) && is_in_use(s[j].item)
            && #[trigger] speaks_for(s[i].item, g, a) && #[trigger] speaks_for(s[j].item, g, a)
            ==> i == j
}

/// Whether a connector has the members of another, but for some keys.
pub open spec fn same_but(x: ObjV, y: ObjV, keys: Set<Text>) -> bool {
    forall|k: Text|
        !keys.contains(k) ==> (#[trigger] x.contains_key(k) <==> y.contains_key(k)) && (
        x.contains_key(k) ==> x[k] == y[k])
}

/// Whether a connector is the other one taken out of use at a time, and nothing else.
pub open spec fn is_taken_out(x: EntryV, y: EntryV, now: Text) -> bool {
    &&& y.id == x.id
    &&& !is_in_use(y.item)
    &&& y.item.contains_key("updated_at"@) && y.item["updated_at"@] == JsonV::Str(now)
    &&& same_but(x.item, y.item, set!["revoked"@, "updated_at"@])
}

proof fn lemma_taken_out(e: EntryV, now: Text)
    ensures
        is_taken_out(e, EntryV { item: revoked_at(e.item, now), ..e }, now),
{
    lemma_connector_words();
}

/// A tidy store needs no settling.
proof fn lemma_tidy_is_settled(s: Seq<EntryV>)
    requires
        is_tidy(s),
    ensures
        collapsed(s) == s,
{
    let c = collapsed(s);
    assert forall|i: int| 0 <= i < s.len() implies #[trigger] c[i] == s[i] by {
        let e = s[i];
        assert(c[i] == settled(s, e));
        if e.active() {
            assert(is_in_use(s[i].item));
            let (g, a) = choose|g: Text, a: Text|
                g.len() > 0 && a.len() > 0 && #[trigger] speaks_for(s[i].item, g, a);
            let newer = |other: EntryV|
                other.active() && other.same_route(e) && e.outranked_by(other);
            if some_match(s, newer) {
                let k = choose|k: int| 0 <= k < s.len() && newer(#[trigger] s[k]);
                assert(is_in_use(s[k].item));
                let (h, b) = choose|h: Text, b: Text|
                    h.len() > 0 && b.len() > 0 && #[trigger] speaks_for(s[k].item, h, b);
                assert(speaks_for(s[k].item, g, a));
                assert(k == i);
                rank_is_a_total_order(e, e, e);
            }
        }
    }
    assert(c =~= s);
}

proof fn lemma_tidy_after(s: Seq<EntryV>, t: Seq<EntryV>)
    requires
        is_tidy(s),
        t.len() == s.len(),
        forall|i: int|
            0 <= i < t.len() ==> (#[trigger] t[i]) == s[i] || !is_in_use(t[i].item) || (is_in_use(
                s[i].item,
            ) && same_but(s[i].item, t[i].item, all_but_route())),
    ensures
        is_tidy(t),
{
    assert forall|i: int| 0 <= i < t.len() && is_in_use((#[trigger] t[i]).item) implies exists|
        g: Text,
        a: Text,
    | g.len() > 0 && a.len() > 0 && #[trigger] speaks_for(t[i].item, g, a) by {
        let (g, a) = choose|g: Text, a: Text|
            g.len() > 0 && a.len() > 0 && #[trigger] speaks_for(s[i].item, g, a);
        lemma_route_words();
        assert(s[i].item.contains_key("group_id"@));
        assert(s[i].item.contains_key("actor_id"@));
        assert(speaks_for(t[i].item, g, a));
    }
    assert forall|i: int, j: int, g: Text, a: Text|
        0 <= i < t.len() && 0 <= j < t.len() && is_in_use(t[i].item) && is_in_use(t[j].item)
            && #[trigger] speaks_for(t[i].item, g, a) && #[trigger] speaks_for(
            t[j].item,
            g,
            a,
        ) implies i == j by {
        lemma_route_words();
        assert(t[i] == s[i] || is_in_use(s[i].item));
        assert(t[j] == s[j] || is_in_use(s[j].item));
        assert(s[i].item.contains_key("group_id"@) && s[i].item.contains_key("actor_id"@));
        assert(s[j].item.contains_key("group_id"@) && s[j].item.contains_key("actor_id"@));
        assert(speaks_for(s[i].item, g, a));
        assert(speaks_for(s[j].item, g, a));
    }
}

/// Every member but those that name the actor.
pub open spec fn all_but_route() -> Set<Text> {
    Set::new(|k: Text| k != "group_id"@ && k != "actor_id"@)
}

proof fn lemma_route_words()
    ensures
        !all_but_route().contains("group_id"@),
        !all_but_route().contains("actor_id"@),
{
}

proof fn lemma_revoked_some(s: Seq<EntryV>, p: spec_fn(EntryV) -> bool, now: Text)
    requires
        is_tidy(s),
    ensures
        ({
            let t = collapsed(revoked_where(s, p, now));
            &&& t.len() == s.len()
            &&& is_tidy(t)
            &&& forall|i: int|
                0 <= i < s.len() ==> if p(s[i]) {
                    is_taken_out(s[i], #[trigger] t[i], now)
                } else {
                    t[i] == s[i]
                }
        }),
{
    let r = revoked_where(s, p, now);
    assert forall|i: int| 0 <= i < s.len() implies (#[trigger] r[i]) == s[i] || !is_in_use(
        r[i].item,
    ) by {
        lemma_taken_out(s[i], now);
    }
    lemma_tidy_after(s, r);
    lemma_tidy_is_settled(r);
    assert forall|i: int| 0 <= i < s.len() implies if p(s[i]) {
        is_taken_out(s[i], #[trigger] r[i], now)
    } else {
        r[i] == s[i]
    } by {
        lemma_taken_out(s[i], now);
    }
}

/// Retiring an actor takes its own connectors out of use and returns them as they were; every other
/// connector, of another group or of another actor of the same group, stays exactly as it is.
pub proof fn retiring_an_actor_spares_all_others(
    s: Seq<EntryV>,
    group_id: Text,
    actor_id: Text,
    now: Text,
)
    requires
        is_tidy(s),
    ensures
        ({
            let p = |e: EntryV| serves(e, group_id, actor_id);
            let t = collapsed(revoked_where(s, p, now));
            let told = items(s.filter(p));
            &&& t.len() == s.len()
            &&& is_tidy(t)
            &&& forall|i: int|
                0 <= i < s.len() ==> if speaks_for(s[i].item, group_id, actor_id) && is_in_use(
                    s[i].item,
                ) {
                    is_taken_out(s[i], #[trigger] t[i], now)
                } else {
                    t[i] == s[i]
                }
            &&& forall|m: ObjV| #[trigger]
                told.contains(m) <==> exists|i: int|
                    0 <= i < s.len() && (#[trigger] s[i]).item == m && speaks_for(
                        m,
                        group_id,
                        actor_id,
                    ) && is_in_use(m)
        }),
{
    let p = |e: EntryV| serves(e, group_id, actor_id);
    lemma_revoked_some(s, p, now);
    assert forall|e: EntryV| #[trigger]
        p(e) <==> speaks_for(e.item, group_id, actor_id) && is_in_use(e.item) by {}
    lemma_told(s, p);
    let told = items(s.filter(p));
    assert forall|m: ObjV| #[trigger] told.contains(m) <==> exists|i: int|
        0 <= i < s.len() && (#[trigger] s[i]).item == m && speaks_for(m, group_id, actor_id)
            && is_in_use(m) by {
        if told.contains(m) {
            let i = choose|i: int| 0 <= i < s.len() && (#[trigger] s[i]).item == m && p(s[i]);
            assert(speaks_for(s[i].item, group_id, actor_id));
        }
        if exists|i: int|
            0 <= i < s.len() && (#[trigger] s[i]).item == m && speaks_for(m, group_id, actor_id)
                && is_in_use(m) {
            let i = choose|i: int|
                0 <= i < s.len() && (#[trigger] s[i]).item == m && speaks_for(m, group_id, actor_id)
                    && is_in_use(m);
            assert(p(s[i]));
        }
    }
}

proof fn lemma_told(s: Seq<EntryV>, p: spec_fn(EntryV) -> bool)
    ensures
        forall|m: ObjV| #[trigger]
            items(s.filter(p)).contains(m) <==> exists|i: int|
                0 <= i < s.len() && (#[trigger] s[i]).item == m && p(s[i]),
{
    let f = s.filter(p);
    lemma_selection(s, p);
    assert forall|m: ObjV| #[trigger] items(f).contains(m) <==> exists|i: int|
        0 <= i < s.len() && (#[trigger] s[i]).item == m && p(s[i]) by {
        if items(f).contains(m) {
            let j = choose|j: int| 0 <= j < items(f).len() && items(f)[j] == m;
            assert(f.contains(f[j]));
            let i = choose|i: int| 0 <= i < s.len() && s[i] == f[j];
            assert(s[i].item == m && p(s[i]));
        }
        if exists|i: int| 0 <= i < s.len() && (#[trigger] s[i]).item == m && p(s[i]) {
            let i = choose|i: int| 0 <= i < s.len() && (#[trigger] s[i]).item == m && p(s[i]);
            assert(s.contains(s[i]));
            assert(f.contains(s[i]));
            let j = choose|j: int| 0 <= j < f.len() && f[j] == s[i];
            assert(items(f)[j] == m);
        }
    }
}

/// Retiring a group takes the connectors of all its actors out of use and returns them as they were;
/// the connectors of other groups stay exactly as they are.
pub proof fn retiring_a_group_spares_other_groups(s: Seq<EntryV>, group_id: Text, now: Text)
    requires
        is_tidy(s),
    ensures
        ({
            let p = |e: EntryV| serves_group(e, group_id);
            let t = collapsed(revoked_where(s, p, now));
            let told = items(s.filter(p));
            &&& t.len() == s.len()
            &&& is_tidy(t)
            &&& forall|i: int|
                0 <= i < s.len() ==> if text_field(s[i].item, "group_id"@) == Some(group_id)
                    && is_in_use(s[i].item) {
                    is_taken_out(s[i], #[trigger] t[i], now)
                } else {
                    t[i] == s[i]
                }
            &&& forall|m: ObjV| #[trigger]
                told.contains(m) <==> exists|i: int|
                    0 <= i < s.len() && (#[trigger] s[i]).item == m && text_field(m, "group_id"@)
                        == Some(group_id) && is_in_use(m)
        }),
{
    let p = |e: EntryV| serves_group(e, group_id);
    lemma_revoked_some(s, p, now);
    assert forall|e: EntryV| #[trigger]
        p(e) <==> text_field(e.item, "group_id"@) == Some(group_id) && is_in_use(e.item) by {}
    lemma_told(s, p);
    let told = items(s.filter(p));
    assert forall|m: ObjV| #[trigger] told.contains(m) <==> exists|i: int|
        0 <= i < s.len() && (#[trigger] s[i]).item == m && text_field(m, "group_id"@) == Some(
            group_id,
        ) && is_in_use(m) by {
        if told.contains(m) {
            let i = choose|i: int| 0 <= i < s.len() && (#[trigger] s[i]).item == m && p(s[i]);
            assert(text_field(s[i].item, "group_id"@) == Some(group_id));
        }
        if exists|i: int|
            0 <= i < s.len() && (#[trigger] s[i]).item == m && text_field(m, "group_id"@) == Some(
                group_id,
            ) && is_in_use(m) {
            let i = choose|i: int|
                0 <= i < s.len() && (#[trigger] s[i]).item == m && text_field(m, "group_id"@)
                    == Some(group_id) && is_in_use(m);
            assert(p(s[i]));
        }
    }
}

/// Revoking a connector takes exactly that one out of use; an id that is not there changes nothing.
pub proof fn revoking_takes_out_one(s: Seq<EntryV>, id: Text, now: Text)
    requires
        sound(s),
        is_tidy(s),
    ensures
        ({
            let t = collapsed(
                match found(s, id) {
                    Some(e) => stored(s, id, revoked_at(e.item, now)),
                    None => s,
                },
            );
            &&& found(s, id) is Some <==> exists|i: int| 0 <= i < s.len() && (#[trigger] s[i]).id == id
            &&& t.len() == s.len()
            &&& is_tidy(t)
            &&& forall|i: int|
                0 <= i < s.len() ==> if s[i].id == id {
                    is_taken_out(s[i], #[trigger] t[i], now)
                } else {
                    t[i] == s[i]
                }
        }),
{
    lemma_found_in(s, id);
    match found(s, id) {
        Some(e) => {
            let k = choose|k: int| 0 <= k < s.len() && s[k] == e;
            assert(s[k].id == id);
            lemma_taken_out(e, now);
            lemma_changed_one(s, k, revoked_at(e.item, now));
            assert forall|i: int| 0 <= i < s.len() && #[trigger] s[i].id == id implies i == k by {
                lemma_same_place(s, i, k);
            }
        },
        None => {
            lemma_tidy_is_settled(s);
            assert forall|i: int| 0 <= i < s.len() implies (#[trigger] s[i]).id != id by {
                assert(s.contains(s[i]));
            }
        },
    }
}

/// A connector that is changed in its place is the only one that changes, as long as it stays with
/// its actor or goes out of use.
proof fn lemma_changed_one(s: Seq<EntryV>, k: int, item: ObjV)
    requires
        sound(s),
        is_tidy(s),
        0 <= k < s.len(),
        !is_in_use(item) || (is_in_use(s[k].item) && same_but(s[k].item, item, all_but_route())),
    ensures
        ({
            let t = collapsed(stored(s, s[k].id, item));
            &&& t == s.update(k, EntryV { id: s[k].id, item })
            &&& is_tidy(t)
        }),
{
    lemma_stored_in_place(s, k, item);
    let t = s.update(k, EntryV { id: s[k].id, item });
    lemma_tidy_after(s, t);
    lemma_tidy_is_settled(t);
}

/// A new connector takes the place of the ones in use for its actor: it stands under its id as it
/// was offered, the ones in use for the same actor of the same group are taken out, and every other
/// connector stays exactly as it is.
pub proof fn a_new_connector_replaces_those_of_its_actor(
    s: Seq<EntryV>,
    item: ObjV,
    id: Text,
    group_id: Text,
    actor_id: Text,
    now: Text,
)
    requires
        sound(s),
        is_tidy(s),
        text_field(item, "connector_id"@) == Some(id),
        speaks_for(item, group_id, actor_id),
        group_id.len() > 0,
        actor_id.len() > 0,
    ensures
        ({
            let t = replaced(s, item, now);
            &&& sound(t)
            &&& is_tidy(t)
            &&& found(t, id) == Some(EntryV { id, item })
            &&& forall|i: int|
                0 <= i < s.len() && (#[trigger] s[i]).id != id ==> (found(t, s[i].id) matches Some(y)
                    && if speaks_for(s[i].item, group_id, actor_id) && is_in_use(s[i].item) {
                    is_taken_out(s[i], y, now)
                } else {
                    y == s[i]
                })
            &&& forall|i: int|
                0 <= i < t.len() && (#[trigger] t[i]).id != id ==> exists|j: int|
                    0 <= j < s.len() && (#[trigger] s[j]).id == t[i].id
        }),
        forall|i: int|
            0 <= i < s.len() ==> (#[trigger] in_use_for(s[i], item) <==> speaks_for(
                s[i].item,
                group_id,
                actor_id,
            ) && is_in_use(s[i].item)),
{
    let p = |e: EntryV| in_use_for(e, item);
    let r = revoked_where(s, p, now);
    let t = stored(r, id, item);
    let x = EntryV { id, item };
    crate::connectors::laws::lemma_revoked_where_sound(s, p, now);
    lemma_stored(r, id, item);
    assert forall|i: int| 0 <= i < s.len() implies (#[trigger] in_use_for(s[i], item)
        <==> speaks_for(s[i].item, group_id, actor_id) && is_in_use(s[i].item)) by {}
    assert forall|i: int| 0 <= i < r.len() implies (#[trigger] r[i]).id == s[i].id && (if p(s[i]) {
        is_taken_out(s[i], r[i], now)
    } else {
        r[i] == s[i]
    }) by {
        lemma_taken_out(s[i], now);
    }
    lemma_replaced_is_tidy(s, r, t, x, group_id, actor_id);
    lemma_tidy_is_settled(t);
    assert(t.contains(x));
    lemma_found(t, x);
    assert forall|i: int| 0 <= i < s.len() && (#[trigger] s[i]).id != id implies (found(t, s[i].id)
        matches Some(y) && if speaks_for(s[i].item, group_id, actor_id) && is_in_use(s[i].item) {
        is_taken_out(s[i], y, now)
    } else {
        y == s[i]
    }) by {
        assert(r[i].id == s[i].id);
        assert(r.contains(r[i]));
        assert(t.contains(r[i]));
        lemma_found(t, r[i]);
        assert(p(s[i]) == in_use_for(s[i], item));
    }
    assert forall|i: int| 0 <= i < t.len() && (#[trigger] t[i]).id != id implies exists|j: int|
        0 <= j < s.len() && (#[trigger] s[j]).id == t[i].id by {
        assert(t.contains(t[i]));
        let j = choose|j: int| 0 <= j < r.len() && r[j] == t[i];
        assert(r[j].id == s[j].id);
    }
}

proof fn lemma_replaced_is_tidy(
    s: Seq<EntryV>,
    r: Seq<EntryV>,
    t: Seq<EntryV>,
    x: EntryV,
    group_id: Text,
    actor_id: Text,
)
    requires
        is_tidy(s),
        sound(t),
        r.len() == s.len(),
        speaks_for(x.item, group_id, actor_id),
        group_id.len() > 0,
        actor_id.len() > 0,
        forall|i: int|
            0 <= i < r.len() ==> if speaks_for(s[i].item, group_id, actor_id) && is_in_use(
                s[i].item,
            ) {
                !is_in_use((#[trigger] r[i]).item)
            } else {
                r[i] == s[i]
            },
        forall|e: EntryV| #[trigger] t.contains(e) <==> e == x || (r.contains(e) && e.id != x.id),
    ensures
        is_tidy(t),
{
    assert forall|i: int| 0 <= i < t.len() && is_in_use((#[trigger] t[i]).item) implies exists|
        g: Text,
        a: Text,
    | g.len() > 0 && a.len() > 0 && #[trigger] speaks_for(t[i].item, g, a) by {
        assert(t.contains(t[i]));
        if t[i] == x {
            assert(speaks_for(t[i].item, group_id, actor_id));
        } else {
            let m = choose|m: int| 0 <= m < r.len() && r[m] == t[i];
            assert(r[m] == s[m]);
            let (g, a) = choose|g: Text, a: Text|
                g.len() > 0 && a.len() > 0 && #[trigger] speaks_for(s[m].item, g, a);
            assert(speaks_for(t[i].item, g, a));
        }
    }
    assert forall|i: int, j: int, g: Text, a: Text|
        0 <= i < t.len() && 0 <= j < t.len() && is_in_use(t[i].item) && is_in_use(t[j].item)
            && #[trigger] speaks_for(t[i].item, g, a) && #[trigger] speaks_for(
            t[j].item,
            g,
            a,
        ) implies i == j by {
        assert(t.contains(t[i]));
        assert(t.contains(t[j]));
        if t[i] == x && t[j] == x {
            lemma_same_place(t, i, j);
        } else if t[i] == x || t[j] == x {
            let o = if t[i] == x {
                t[j]
            } else {
                t[i]
            };
            let m = choose|m: int| 0 <= m < r.len() && r[m] == o;
            assert(g == group_id && a == actor_id);
            assert(r[m] == s[m]);
        } else {
            let m = choose|m: int| 0 <= m < r.len() && r[m] == t[i];
            let n = choose|n: int| 0 <= n < r.len() && r[n] == t[j];
            assert(r[m] == s[m]);
            assert(r[n] == s[n]);
            assert(speaks_for(s[m].item, g, a) && speaks_for(s[n].item, g, a));
            assert(m == n);
            lemma_same_place(t, i, j);
        }
    }
}

/// What a text holds without blanks around it; nothing where a member is no text.
pub open spec fn trimmed_member(m: ObjV, key: Text) -> Text {
    match text_field(m, key) {
        Some(t) => trimmed(t),
        None => Seq::empty(),
    }
}

/// A connector has an id, a group, an actor, and a secret or its digest. As stored they have no
/// blanks around them, the digest is that of the secret where none was given, and it is in use
/// unless it says otherwise; its other members stay as they are.
pub proof fn a_connector_is_stored_in_form(id: Text, raw: JsonV)
    ensures
        normalized(id, raw) is Some <==> (raw matches JsonV::Obj(m) && trimmed(id).len() > 0
            && trimmed_member(m, "group_id"@).len() > 0 && trimmed_member(m, "actor_id"@).len() > 0
            && (trimmed_member(m, "secret"@).len() > 0 || trimmed_member(m, "secret_hash"@).len()
            > 0)),
        normalized(id, raw) matches Some(n) ==> (raw matches JsonV::Obj(m) && {
            &&& text_field(n, "connector_id"@) == Some(trimmed(id))
            &&& speaks_for(n, trimmed_member(m, "group_id"@), trimmed_member(m, "actor_id"@))
            &&& trimmed_member(m, "secret_hash"@).len() == 0 ==> text_field(n, "secret_hash"@)
                == Some(hex_digest(trimmed_member(m, "secret"@)))
            &&& trimmed_member(m, "secret_hash"@).len() > 0 ==> text_field(n, "secret_hash"@)
                == text_field(m, "secret_hash"@)
            &&& text_field(n, "secret"@) == text_field(m, "secret"@)
            &&& !m.contains_key("kind"@) ==> text_field(n, "kind"@) == Some("web_model_connector"@)
            &&& is_in_use(n) <==> is_in_use(m)
            &&& n.contains_key("revoked"@)
            &&& same_but(
                m,
                n,
                set![
                    "connector_id"@,
                    "group_id"@,
                    "actor_id"@,
                    "kind"@,
                    "secret_hash"@,
                    "secret_preview"@,
                    "revoked"@,
                ],
            )
            &&& m.contains_key("kind"@) ==> n["kind"@] == m["kind"@]
        }),
{
    lemma_connector_words();
}

/// What is shown of a secret is nothing of a short one, and of a long one no more than its first
/// six and last four characters.
pub proof fn a_preview_shows_little(secret: Text)
    ensures
        secret.len() <= 10 ==> preview(secret) == "****"@,
        secret.len() > 10 ==> preview(secret).len() == 13 && preview(secret).take(6) == secret.take(
            6,
        ) && preview(secret).skip(9) == secret.skip(secret.len() - 4),
{
    reveal_strlit("...");
    if secret.len() > 10 {
        assert("..."@.len() == 3);
        assert(preview(secret).take(6) =~= secret.take(6));
        assert(preview(secret).skip(9) =~= secret.skip(secret.len() - 4));
    }
}

/// A secret opens a connector that holds it or its digest, and no other.
pub proof fn a_secret_opens_its_connector(item: ObjV, supplied: Text)
    ensures
        opens(item, supplied) <==> (item.contains_key("secret"@) && item["secret"@] == JsonV::Str(
            supplied,
        )) || (item.contains_key("secret_hash"@) && item["secret_hash"@] == JsonV::Str(
            hex_digest(supplied),
        )),
{
}

/// Whether the actor at a place is the one that an id names: the first with it.
pub open spec fn is_the_actor(v: Seq<ActorV>, i: int, id: Text) -> bool {
    &&& 0 <= i < v.len()
    &&& v[i].id == id
    &&& forall|j: int| 0 <= j < i ==> (#[trigger] v[j]).id != id
}

/// Whether the actor that an id names may hold a conversation: an enabled foreman that is a web
/// model.
pub open spec fn may_talk(g: GroupV, actor_id: Text) -> bool {
    exists|i: int| #[trigger]
        is_the_actor(g.actors, i, actor_id) && g.actors[i].enabled && g.actors[i].runtime
            == ActorRuntime::WebModel && g.actors[i].role == ActorRole::Foreman
}

/// The first actor of a list with an id, told by its place.
pub(crate) proof fn lemma_first_actor(v: Seq<ActorV>, id: Text)
    ensures
        forall|i: int| #[trigger] is_the_actor(v, i, id) ==> first_actor(v, id) == Some(v[i]),
        first_actor(v, id) matches Some(a) ==> exists|i: int| #[trigger]
            is_the_actor(v, i, id) && v[i] == a,
        first_actor(v, id) is None ==> forall|i: int| !#[trigger] is_the_actor(v, i, id),
    decreases v.len(),
{
    if v.len() > 0 {
        if v[0].id == id {
            assert(is_the_actor(v, 0, id));
            assert forall|i: int| #[trigger] is_the_actor(v, i, id) implies i == 0 by {}
        } else {
            let d = v.drop_first();
            lemma_first_actor(d, id);
            assert forall|i: int| #[trigger] is_the_actor(v, i, id) implies is_the_actor(
                d,
                i - 1,
                id,
            ) && d[i - 1] == v[i] by {
                assert forall|j: int| 0 <= j < i - 1 implies (#[trigger] d[j]).id != id by {
                    assert(v[j + 1].id != id);
                }
            }
            if let Some(a) = first_actor(d, id) {
                let k = choose|k: int| #[trigger] is_the_actor(d, k, id) && d[k] == a;
                assert forall|j: int| 0 <= j < k + 1 implies (#[trigger] v[j]).id != id by {
                    if j > 0 {
                        assert(d[j - 1].id != id);
                    }
                }
                assert(is_the_actor(v, k + 1, id));
            }
        }
    }
}

/// The actor that a connector names.
pub open spec fn named_actor(item: ObjV) -> Text {
    match text_field(item, "actor_id"@) {
        Some(a) => a,
        None => Seq::empty(),
    }
}

/// A connector serves a conversation only if it is one of a web model, is in use, and speaks for an
/// enabled web-model foreman; each other case has its own refusal.
pub proof fn only_a_web_foreman_converses(item: ObjV, group: Result<GroupV, FailureV>)
    ensures
        ({
            let r = actor_check(item, group);
            let kind = text_field(item, "kind"@) == Some("web_model_connector"@);
            &&& !kind ==> r == Err::<(), FailureV>(
                failed(FailureKind::InvalidInput, "invalid_connector_kind"@),
            )
            &&& kind && !is_in_use(item) ==> r == Err::<(), FailureV>(
                failed(FailureKind::PermissionDenied, "connector_revoked"@),
            )
            &&& kind && is_in_use(item) ==> match group {
                Err(e) => r == Err::<(), FailureV>(e),
                Ok(g) => if may_talk(g, named_actor(item)) {
                    r is Ok
                } else {
                    r == Err::<(), FailureV>(
                        failed(FailureKind::PermissionDenied, "connector_actor_unavailable"@),
                    )
                },
            }
        }),
{
    if let Ok(g) = group {
        lemma_first_actor(g.actors, named_actor(item));
    }
}

/// Whether the connector at a place holds a digest under a key, and is a web model's in use.
pub open spec fn holds_at(s: Seq<EntryV>, i: int, key: Text, digest: Text) -> bool {
    &&& 0 <= i < s.len()
    &&& is_in_use(s[i].item)
    &&& text_field(s[i].item, "kind"@) == Some("web_model_connector"@)
    &&& text_field(s[i].item, key) == Some(digest)
}

/// A conversation or a code leads to the one connector in use that holds its digest: to none where
/// no connector does or the text is blank, and to a conflict where two do.
pub proof fn a_secret_leads_to_its_one_holder(s: Seq<EntryV>, key: Text, raw: Text)
    ensures
        ({
            let r = by_secret(s, key, raw);
            let d = hex_digest(trimmed(raw));
            &&& trimmed(raw).len() == 0 ==> r == Ok::<Option<ObjV>, FailureV>(None)
            &&& r == Ok::<Option<ObjV>, FailureV>(None) && trimmed(raw).len() > 0 ==> forall|i: int|
                0 <= i < s.len() ==> !#[trigger] holds_at(s, i, key, d)
            &&& r matches Ok(Some(m)) ==> exists|i: int| #[trigger]
                holds_at(s, i, key, d) && s[i].item == m
            &&& r is Err ==> exists|i: int, j: int|
                i < j && #[trigger] holds_at(s, i, key, d) && #[trigger] holds_at(s, j, key, d)
            &&& r matches Err(e) ==> e == failed(
                FailureKind::Other,
                "connector_binding_conflict"@,
            )
            &&& trimmed(raw).len() > 0 ==> forall|i: int, j: int|
                i < j && #[trigger] holds_at(s, i, key, d) && #[trigger] holds_at(s, j, key, d)
                    ==> r is Err
            &&& trimmed(raw).len() > 0 ==> forall|i: int| #[trigger]
                holds_at(s, i, key, d) ==> (r matches Ok(m) ==> m == Some(s[i].item))
        }),
{
    let d = hex_digest(trimmed(raw));
    let p = |e: EntryV| holds_hash(e, key, d);
    let f = s.filter(p);
    lemma_selection(s, p);
    assert forall|i: int| 0 <= i < s.len() implies (#[trigger] holds_at(s, i, key, d) <==> p(
        s[i],
    )) by {}
    if f.len() >= 2 {
        lemma_two_matches(s, p);
        let (i, j) = choose|i: int, j: int|
            0 <= i < j < s.len() && p(#[trigger] s[i]) && p(#[trigger] s[j]);
        assert(holds_at(s, i, key, d) && holds_at(s, j, key, d));
    }
    if f.len() == 1 {
        assert(f.contains(f[0]));
        let i = choose|i: int| 0 <= i < s.len() && s[i] == f[0];
        assert(holds_at(s, i, key, d));
    }
    assert forall|i: int, j: int|
        i < j && #[trigger] holds_at(s, i, key, d) && #[trigger] holds_at(s, j, key, d)
            implies f.len() >= 2 by {
        lemma_both_selected(s, p, i, j);
    }
    assert forall|i: int| #[trigger] holds_at(s, i, key, d) && f.len() == 1 implies f[0] == s[i] by {
        assert(s.contains(s[i]) && p(s[i]));
        assert(f.contains(s[i]));
    }
    assert forall|i: int| 0 <= i < s.len() && #[trigger] holds_at(s, i, key, d) implies f.len()
        > 0 by {
        assert(p(s[i]));
    }
}

pub(crate) proof fn lemma_both_selected<A>(s: Seq<A>, p: spec_fn(A) -> bool, i: int, j: int)
    requires
        0 <= i < j < s.len(),
        p(s[i]),
        p(s[j]),
    ensures
        s.filter(p).len() >= 2,
    decreases s.len(),
{
    reveal(Seq::filter);
    let d = s.drop_last();
    if j < s.len() - 1 {
        lemma_both_selected(d, p, i, j);
    } else {
        lemma_selection(d, p);
        assert(p(d[i]));
    }
}

/// The ids that a replacement names are those of the connectors that it takes out of use.
pub proof fn a_replacement_names_what_it_takes_out(
    s: Seq<EntryV>,
    item: ObjV,
    group_id: Text,
    actor_id: Text,
    id: Text,
)
    requires
        speaks_for(item, group_id, actor_id),
    ensures
        named_ids(s.filter(|e: EntryV| in_use_for(e, item))).contains(id) <==> exists|i: int|
            0 <= i < s.len() && speaks_for((#[trigger] s[i]).item, group_id, actor_id) && is_in_use(
                s[i].item,
            ) && text_field(s[i].item, "connector_id"@) == Some(id),
{
    let p = |e: EntryV| in_use_for(e, item);
    let f = s.filter(p);
    let name = |e: EntryV| text_field(e.item, "connector_id"@);
    lemma_selection(s, p);
    lemma_collected(f, name);
    assert forall|e: EntryV| #[trigger]
        p(e) <==> speaks_for(e.item, group_id, actor_id) && is_in_use(e.item) by {}
    if named_ids(f).contains(id) {
        let k = choose|k: int| 0 <= k < f.len() && name(#[trigger] f[k]) == Some(id);
        assert(f.contains(f[k]));
        let i = choose|i: int| 0 <= i < s.len() && s[i] == f[k];
        assert(speaks_for(s[i].item, group_id, actor_id));
    }
    if exists|i: int|
        0 <= i < s.len() && speaks_for((#[trigger] s[i]).item, group_id, actor_id) && is_in_use(
            s[i].item,
        ) && text_field(s[i].item, "connector_id"@) == Some(id) {
        let i = choose|i: int|
            0 <= i < s.len() && speaks_for((#[trigger] s[i]).item, group_id, actor_id) && is_in_use(
                s[i].item,
            ) && text_field(s[i].item, "connector_id"@) == Some(id);
        assert(p(s[i]));
        assert(s.contains(s[i]));
        assert(f.contains(s[i]));
        let k = choose|k: int| 0 <= k < f.len() && f[k] == s[i];
        assert(name(f[k]) == Some(id));
    }
}

/// A code is issued for a connector that is there and serves a conversation: the answer tells the
/// code, the connector keeps its digest only, and nothing else of it or of another connector
/// changes. It keeps the conversation that it has.
pub proof fn a_code_is_issued_for_one_connector(
    s: Seq<EntryV>,
    k: int,
    id: Text,
    group: Result<GroupV, FailureV>,
    code: Text,
    expires: Text,
    now: Text,
)
    requires
        sound(s),
        is_tidy(s),
        0 <= k < s.len(),
        s[k].id == trimmed(id),
    ensures
        issuable(s, id, group) is Ok <==> actor_check(s[k].item, group) is Ok,
        issuable(s, id, group) matches Ok(item) ==> {
            let y = with_code(item, code, expires, now);
            let t = collapsed(stored(s, trimmed(id), y));
            &&& item == s[k].item
            &&& t == s.update(k, EntryV { id: s[k].id, item: y })
            &&& is_tidy(t)
            &&& text_field(y, "binding_code_hash"@) == Some(hex_digest(code))
            &&& text_field(y, "binding_expires_at"@) == Some(expires)
            &&& text_field(y, "session_hash"@) == text_field(item, "session_hash"@)
            &&& same_but(
                item,
                y,
                set!["binding_code_hash"@, "binding_expires_at"@, "updated_at"@],
            )
            &&& text_field(issued(code, expires), "code"@) == Some(code)
            &&& text_field(issued(code, expires), "binding_expires_at"@) == Some(expires)
        },
        forall|other: Text|
            (forall|i: int| 0 <= i < s.len() ==> (#[trigger] s[i]).id != trimmed(other))
                ==> #[trigger] issuable(s, other, group) == Err::<ObjV, FailureV>(
                failed(FailureKind::NotFound, "connector_not_found"@),
            ),
{
    lemma_connector_words();
    assert(s.contains(s[k]));
    lemma_found(s, s[k]);
    only_a_web_foreman_converses(s[k].item, group);
    if let Ok(item) = issuable(s, id, group) {
        let y = with_code(item, code, expires, now);
        assert(is_in_use(y));
        assert(same_but(s[k].item, y, all_but_route()));
        lemma_changed_one(s, k, y);
    }
    assert forall|other: Text|
        (forall|i: int| 0 <= i < s.len() ==> (#[trigger] s[i]).id != trimmed(other))
            implies #[trigger] issuable(s, other, group) == Err::<ObjV, FailureV>(
        failed(FailureKind::NotFound, "connector_not_found"@),
    ) by {
        lemma_found_in(s, trimmed(other));
    }
}

/// A code lives as long as was asked for, but not beyond an hour and never into the past.
pub proof fn a_code_lives_an_hour_at_most(now: Instant, ttl: int)
    requires
        0 <= now.secs <= i64::MAX - 3600,
    ensures
        now.secs <= expiry(now, ttl).secs <= now.secs + 3600,
        0 <= ttl <= 3600 ==> expiry(now, ttl).secs == now.secs + ttl,
        ttl > 3600 ==> expiry(now, ttl).secs == now.secs + 3600,
        expiry(now, ttl).nanos == now.nanos,
{
}

/// Whether another connector than that at a place, a web model's in use, holds a conversation.
pub open spec fn is_held_by_another(s: Seq<EntryV>, k: int, digest: Text) -> bool {
    exists|i: int| i != k && #[trigger] holds_at(s, i, "session_hash"@, digest)
}

/// A conversation is bound exactly where it brings the code of a connector that serves one, the
/// code has not expired, and no other connector holds the conversation. Then the connector holds
/// it, the code is spent, and nothing else of it or of another connector changes.
pub proof fn a_conversation_is_bound_by_the_code(
    s: Seq<EntryV>,
    k: int,
    id: Text,
    code: Text,
    session: Text,
    group: Result<GroupV, FailureV>,
    now: Instant,
    at: Text,
)
    requires
        sound(s),
        is_tidy(s),
        0 <= k < s.len(),
        s[k].id == trimmed(id),
    ensures
        ({
            let r = bindable(s, id, code, session, group, now);
            let digest = hex_digest(trimmed(session));
            &&& r is Ok <==> trimmed(session).len() > 0 && trimmed(code).len() > 0 && actor_check(
                s[k].item,
                group,
            ) is Ok && text_field(s[k].item, "binding_code_hash"@) == Some(
                hex_digest(trimmed(code)),
            ) && !expired(s[k].item, now) && !is_held_by_another(s, k, digest)
            &&& r matches Ok(item) ==> {
                let y = bound_item(item, trimmed(session), at);
                let t = collapsed(stored(s, trimmed(id), y));
                let told = bound_answer(trimmed(id), y);
                &&& item == s[k].item
                &&& t == s.update(k, EntryV { id: s[k].id, item: y })
                &&& is_tidy(t)
                &&& text_field(y, "session_hash"@) == Some(digest)
                &&& text_field(y, "session_bound_at"@) == Some(at)
                &&& text_field(y, "binding_code_hash"@) == Some(Seq::<char>::empty())
                &&& text_field(y, "binding_expires_at"@) == Some(Seq::<char>::empty())
                &&& same_but(
                    item,
                    y,
                    set![
                        "session_hash"@,
                        "session_bound_at"@,
                        "binding_code_hash"@,
                        "binding_expires_at"@,
                        "updated_at"@,
                    ],
                )
                &&& told["bound"@] == JsonV::Bool(true)
                &&& told["connector_id"@] == JsonV::Str(trimmed(id))
                &&& item.contains_key("group_id"@) ==> told["group_id"@] == item["group_id"@]
                &&& item.contains_key("actor_id"@) ==> told["actor_id"@] == item["actor_id"@]
            }
        }),
{
    lemma_connector_words();
    reveal_strlit("");
    assert(""@ =~= Seq::<char>::empty());
    assert(s.contains(s[k]));
    lemma_found(s, s[k]);
    only_a_web_foreman_converses(s[k].item, group);
    let digest = hex_digest(trimmed(session));
    let other = |e: EntryV| e.id != trimmed(id) && holds_hash(e, "session_hash"@, digest);
    if taken_by_other(s, trimmed(id), digest) {
        let i = choose|i: int| 0 <= i < s.len() && other(#[trigger] s[i]);
        assert(holds_at(s, i, "session_hash"@, digest));
    }
    if is_held_by_another(s, k, digest) {
        let i = choose|i: int| i != k && #[trigger] holds_at(s, i, "session_hash"@, digest);
        if s[i].id == s[k].id {
            lemma_same_place(s, i, k);
        }
        assert(other(s[i]));
    }
    if let Ok(item) = bindable(s, id, code, session, group, now) {
        let y = bound_item(item, trimmed(session), at);
        assert(is_in_use(y));
        assert(same_but(s[k].item, y, all_but_route()));
        lemma_changed_one(s, k, y);
    }
}

/// Each reason why a conversation is not bound has its own refusal, and the first that holds is
/// told.
pub proof fn a_refused_conversation_is_told_why(
    s: Seq<EntryV>,
    k: int,
    id: Text,
    code: Text,
    session: Text,
    group: Result<GroupV, FailureV>,
    now: Instant,
)
    requires
        sound(s),
        0 <= k < s.len(),
        s[k].id == trimmed(id),
        trimmed(session).len() > 0,
        trimmed(code).len() > 0,
        actor_check(s[k].item, group) is Ok,
    ensures
        ({
            let r = bindable(s, id, code, session, group, now);
            let fits = text_field(s[k].item, "binding_code_hash"@) == Some(
                hex_digest(trimmed(code)),
            );
            &&& !fits ==> r == Err::<ObjV, FailureV>(
                failed(FailureKind::InvalidInput, "session_binding_code_invalid"@),
            )
            &&& fits && expired(s[k].item, now) ==> r == Err::<ObjV, FailureV>(
                failed(FailureKind::TimedOut, "session_binding_code_expired"@),
            )
            &&& fits && !expired(s[k].item, now) && r is Err ==> r == Err::<ObjV, FailureV>(
                failed(FailureKind::AlreadyExists, "session_already_bound"@),
            )
        }),
        forall|blank: Text|
            trimmed(blank).len() == 0 ==> #[trigger] bindable(s, id, code, blank, group, now)
                == Err::<ObjV, FailureV>(
                failed(FailureKind::InvalidInput, "session_binding_required"@),
            ),
{
    assert(s.contains(s[k]));
    lemma_found(s, s[k]);
}

/// A code without a readable time of expiry has expired; one with such a time expires then.
pub proof fn a_code_expires_at_its_time(item: ObjV, now: Instant)
    ensures
        text_field(item, "binding_expires_at"@) is None ==> expired(item, now),
        text_field(item, "binding_expires_at"@) matches Some(t) ==> match crate::time::rfc3339(t) {
            None => expired(item, now),
            Some((secs, nanos)) => {
                let then = Instant { secs: secs as i64, nanos: nanos as u32 };
                expired(item, now) <==> then.secs < now.secs || (then.secs == now.secs && then.nanos
                    <= now.nanos)
            },
        },
{
}

proof fn lemma_found_elsewhere(s: Seq<EntryV>, id: Text, item: ObjV, other: Text)
    requires
        sound(s),
        other != id,
    ensures
        found(stored(s, id, item), other) == found(s, other),
{
    let t = stored(s, id, item);
    lemma_stored(s, id, item);
    lemma_found_in(s, other);
    lemma_found_in(t, other);
    match found(s, other) {
        Some(e) => {
            assert(t.contains(e));
            lemma_found(t, e);
        },
        None => {
            if found(t, other) is Some {
                assert(s.contains(found(t, other)->0));
            }
        },
    }
}

proof fn lemma_taken_over_sound(canonical: Seq<EntryV>, imported: Seq<EntryV>)
    requires
        sound(canonical),
    ensures
        sound(all_taken_over(canonical, imported)),
    decreases imported.len(),
{
    if imported.len() > 0 {
        let s = all_taken_over(canonical, imported.drop_last());
        let y = imported.last();
        lemma_taken_over_sound(canonical, imported.drop_last());
        lemma_stored(s, y.id, y.item);
        if let Some(known) = found(s, y.id) {
            lemma_stored(s, y.id, y.item.union_prefer_right(known.item));
        }
    }
}

proof fn lemma_untouched(canonical: Seq<EntryV>, imported: Seq<EntryV>, m: int, n: int, id: Text)
    requires
        sound(canonical),
        0 <= m <= n <= imported.len(),
        forall|j: int| m <= j < n ==> (#[trigger] imported[j]).id != id,
    ensures
        found(all_taken_over(canonical, imported.take(n)), id) == found(
            all_taken_over(canonical, imported.take(m)),
            id,
        ),
    decreases n - m,
{
    if m < n {
        lemma_untouched(canonical, imported, m, n - 1, id);
        let t = imported.take(n);
        assert(t.drop_last() =~= imported.take(n - 1));
        let s = all_taken_over(canonical, imported.take(n - 1));
        let y = imported[n - 1];
        assert(t.last() == y);
        lemma_taken_over_sound(canonical, imported.take(n - 1));
        lemma_found_elsewhere(s, y.id, y.item, id);
        if let Some(known) = found(s, y.id) {
            lemma_found_elsewhere(s, y.id, y.item.union_prefer_right(known.item), id);
        }
    }
}

/// Whether the store has taken a connector for an actor out of use.
pub open spec fn has_retired(s: Seq<EntryV>, group_id: Text, actor_id: Text) -> bool {
    exists|i: int|
        0 <= i < s.len() && !is_in_use((#[trigger] s[i]).item) && trimmed_member(
            s[i].item,
            "group_id"@,
        ) == group_id && trimmed_member(s[i].item, "actor_id"@) == actor_id && group_id.len() > 0
            && actor_id.len() > 0
}

/// Whether a merged connector has what an older one says, but for whether it is in use and since
/// when.
pub open spec fn has_all_of(x: ObjV, y: ObjV) -> bool {
    forall|k: Text| #[trigger]
        y.contains_key(k) && k != "revoked"@ && k != "updated_at"@ ==> x.contains_key(k) && x[k]
            == y[k]
}

proof fn lemma_merged_entry(all: Seq<EntryV>, e: EntryV)
    requires
        sound(all),
        found(all, e.id) == Some(e),
    ensures
        found(collapsed(all), e.id) matches Some(x) && has_all_of(x.item, e.item) && (!is_in_use(
            e.item,
        ) ==> x == e),
{
    lemma_connector_words();
    lemma_found_in(all, e.id);
    let i = choose|i: int| 0 <= i < all.len() && all[i] == e;
    let c = collapsed(all);
    assert(c[i] == settled(all, e));
    crate::connectors::store::lemma_collapse_is_sound(all);
    assert(c.contains(c[i]));
    lemma_found(c, c[i]);
}

/// In a merge the store wins: what it knows of a connector stays.
pub proof fn the_store_wins_the_merge(canonical: Seq<EntryV>, imported: Seq<EntryV>, i: int)
    requires
        sound(canonical),
        0 <= i < canonical.len(),
    ensures
        found(merged(canonical, imported), canonical[i].id) matches Some(x) && has_all_of(
            x.item,
            canonical[i].item,
        ) && (!is_in_use(canonical[i].item) ==> !is_in_use(x.item)),
{
    let e = canonical[i];
    let all = all_taken_over(canonical, imported);
    assert(canonical.contains(e));
    crate::connectors::laws::lemma_take_over_keeps(canonical, imported, e);
    let x = choose|x: EntryV| #[trigger]
        all.contains(x) && x.id == e.id && crate::connectors::laws::keeps_members(x.item, e.item);
    lemma_found(all, x);
    lemma_merged_entry(all, x);
}

/// An older connector that the store does not know is taken over with all that it says, unless it
/// is in use for an actor whose connector the store has taken out of use; of one that the store
/// knows, what the store does not say is taken over.
pub proof fn an_older_connector_is_taken_over(
    canonical: Seq<EntryV>,
    imported: Seq<EntryV>,
    b: int,
)
    requires
        sound(canonical),
        sound(imported),
        0 <= b < imported.len(),
    ensures
        ({
            let y = imported[b];
            let barred = is_in_use(y.item) && has_retired(
                canonical,
                trimmed_member(y.item, "group_id"@),
                trimmed_member(y.item, "actor_id"@),
            );
            let x = found(merged(canonical, imported), y.id);
            match found(canonical, y.id) {
                None => if barred {
                    x is None
                } else {
                    x matches Some(x) && has_all_of(x.item, y.item) && (!is_in_use(y.item)
                        ==> !is_in_use(x.item))
                },
                Some(known) => x matches Some(x) && forall|k: Text| #[trigger]
                    y.item.contains_key(k) && !known.item.contains_key(k) && k != "revoked"@ && k
                        != "updated_at"@ ==> x.item.contains_key(k) && x.item[k] == y.item[k],
            }
        }),
{
    let y = imported[b];
    let n = imported.len() as int;
    let s = all_taken_over(canonical, imported.take(b));
    let t = imported.take(b + 1);
    let all = all_taken_over(canonical, imported);
    assert(t.drop_last() =~= imported.take(b));
    assert(t.last() == y);
    assert(imported.take(n) =~= imported);
    assert(imported.take(0) =~= Seq::<EntryV>::empty());
    assert forall|j: int| 0 <= j < n && j != b implies (#[trigger] imported[j]).id != y.id by {
        if imported[j].id == y.id {
            lemma_same_place(imported, j, b);
        }
    }
    lemma_untouched(canonical, imported, 0, b, y.id);
    lemma_untouched(canonical, imported, b + 1, n, y.id);
    lemma_taken_over_sound(canonical, imported.take(b));
    lemma_taken_over_sound(canonical, imported);
    let g = trimmed_member(y.item, "group_id"@);
    let a = trimmed_member(y.item, "actor_id"@);
    let p = |e: EntryV| retires(e, g, a);
    trimming_nothing();
    if has_retired(canonical, g, a) {
        let i = choose|i: int|
            0 <= i < canonical.len() && !is_in_use((#[trigger] canonical[i]).item)
                && trimmed_member(canonical[i].item, "group_id"@) == g && trimmed_member(
                canonical[i].item,
                "actor_id"@,
            ) == a && g.len() > 0 && a.len() > 0;
        assert(p(canonical[i]));
    }
    if route_retired(canonical, g, a) {
        let i = choose|i: int| 0 <= i < canonical.len() && p(#[trigger] canonical[i]);
        assert(!is_in_use(canonical[i].item));
    }
    assert(g == trimmed_group(y.item) && a == trimmed_actor(y.item));
    assert(has_retired(canonical, g, a) == route_retired(canonical, g, a));
    assert(all_taken_over(canonical, t) == taken_over(canonical, s, y));
    assert(found(s, y.id) == found(canonical, y.id));
    match found(canonical, y.id) {
        None => {
            if is_in_use(y.item) && has_retired(canonical, g, a) {
                crate::connectors::laws::a_retired_actor_is_not_revived_by_the_merge(
                    canonical,
                    imported,
                    b,
                );
            } else {
                lemma_stored(s, y.id, y.item);
                lemma_found(stored(s, y.id, y.item), EntryV { id: y.id, item: y.item });
                lemma_merged_entry(all, EntryV { id: y.id, item: y.item });
            }
        },
        Some(known) => {
            let item = y.item.union_prefer_right(known.item);
            lemma_stored(s, y.id, item);
            lemma_found(stored(s, y.id, item), EntryV { id: y.id, item });
            lemma_merged_entry(all, EntryV { id: y.id, item });
            let x = found(merged(canonical, imported), y.id)->0;
            assert forall|k: Text| #[trigger]
                y.item.contains_key(k) && !known.item.contains_key(k) && k != "revoked"@ && k
                    != "updated_at"@ implies x.item.contains_key(k) && x.item[k] == y.item[k] by {
                assert(item.contains_key(k));
            }
        },
    }
}

proof fn trimming_nothing()
    ensures
        trimmed(Seq::<char>::empty()) == Seq::<char>::empty(),
{
    crate::text::trimming_twice_is_trimming_once(Seq::<char>::empty());
    assert(trimmed(Seq::<char>::empty()) =~= Seq::<char>::empty());
}

/// What is shown of a connector: whether a conversation is bound to it in use, where it is reached,
/// and with which token; whether there is a secret, but no digest. Its other members are shown as
/// they are.
pub proof fn a_connector_is_shown_with_its_address(item: ObjV, base: Text, id: Text)
    requires
        text_field(item, "connector_id"@) == Some(id),
    ensures
        ({
            let m = shown(item, base);
            let url = base + "/mcp/web-model/"@ + id;
            let secret = match text_field(item, "secret"@) {
                Some(t) => t,
                None => Seq::empty(),
            };
            let talks = text_field(item, "session_hash"@) matches Some(h) && h.len() > 0;
            &&& m["session_bound"@] == JsonV::Bool(talks && is_in_use(item))
            &&& m["secret_available"@] == JsonV::Bool(text_field(item, "secret"@) is Some)
            &&& m["connector_url"@] == JsonV::Str(url)
            &&& m["connector_url_path_token"@] == JsonV::Str(url + "/token/"@ + secret)
            &&& m["connector_url_with_token"@] == JsonV::Str(url + "?token="@ + secret)
            &&& same_but(
                item,
                m,
                set![
                    "secret"@,
                    "secret_hash"@,
                    "session_hash"@,
                    "previous_session_hash"@,
                    "binding_code_hash"@,
                    "session_bound"@,
                    "session_bound_at"@,
                    "secret_available"@,
                    "secret_preview"@,
                    "connector_url"@,
                    "connector_url_path_token"@,
                    "connector_url_with_token"@,
                ],
            )
        }),
{
    lemma_connector_words();
}

/// A connector is made only for a web model that is a member of a group that is there.
pub proof fn connectors_are_made_for_web_models(
    group: Option<GroupV>,
    group_id: Text,
    actor_id: Text,
)
    ensures
        creatable(group, group_id, actor_id) is Ok <==> (group matches Some(g) && exists|i: int|
            #[trigger]
            is_the_actor(g.actors, i, actor_id) && g.actors[i].runtime == ActorRuntime::WebModel),
{
    if let Some(g) = group {
        lemma_first_actor(g.actors, actor_id);
    }
}

/// Whether one connector was made before another; one without a time was made before all others.
pub open spec fn was_made_before(x: ObjV, y: ObjV) -> bool {
    match (text_field(x, "created_at"@), text_field(y, "created_at"@)) {
        (None, Some(_)) => true,
        (Some(a), Some(b)) => before(a, b),
        (_, None) => false,
    }
}

proof fn lemma_placed(s: Seq<ObjV>, x: ObjV)
    requires
        forall|i: int, j: int|
            0 <= i < j < s.len() ==> !was_made_before(#[trigger] s[i], #[trigger] s[j]),
    ensures
        ({
            let t = placed(s, x);
            &&& t.to_multiset() == s.to_multiset().insert(x)
            &&& forall|i: int, j: int|
                0 <= i < j < t.len() ==> !was_made_before(#[trigger] t[i], #[trigger] t[j])
            &&& forall|i: int|
                0 <= i < t.len() ==> #[trigger] t[i] == x || s.contains(t[i])
        }),
    decreases s.len(),
{
    broadcast use vstd::seq_lib::group_to_multiset_ensures;

    let t = placed(s, x);
    if s.len() > 0 && older(created(s.last()), created(x)) {
        let d = s.drop_last();
        lemma_placed(d, x);
        let u = placed(d, x);
        assert(t == u.push(s.last()));
        assert(d.push(s.last()) =~= s);
        assert(t.to_multiset() =~= s.to_multiset().insert(x));
        assert forall|i: int| 0 <= i < t.len() implies #[trigger] t[i] == x || s.contains(t[i]) by {
            if i < u.len() {
                assert(t[i] == u[i]);
                if u[i] != x {
                    let k = choose|k: int| 0 <= k < d.len() && d[k] == u[i];
                    assert(s[k] == u[i]);
                }
            } else {
                assert(s[s.len() - 1] == t[i]);
            }
        }
        assert forall|i: int, j: int| 0 <= i < j < t.len() implies !was_made_before(
            #[trigger] t[i],
            #[trigger] t[j],
        ) by {
            if j < u.len() {
                assert(t[i] == u[i] && t[j] == u[j]);
            } else {
                assert(t[i] == u[i]);
                if u[i] == x {
                    if let (Some(a), Some(b)) = (created(s.last()), created(x)) {
                        strings_are_totally_ordered(a, b, a);
                    }
                } else {
                    let k = choose|k: int| 0 <= k < d.len() && d[k] == u[i];
                    assert(s[k] == u[i]);
                    assert(s[s.len() - 1] == t[j]);
                }
            }
        }
    } else {
        assert(t == s.push(x));
        assert(t.to_multiset() =~= s.to_multiset().insert(x));
        assert forall|i: int, j: int| 0 <= i < j < t.len() implies !was_made_before(
            #[trigger] t[i],
            #[trigger] t[j],
        ) by {
            if j == s.len() && i < s.len() {
                if i < s.len() - 1 {
                    assert(!was_made_before(s[i], s[s.len() - 1]));
                    lemma_made_later(s[i], s[s.len() - 1], x);
                }
            } else {
                assert(t[i] == s[i] && t[j] == s[j]);
            }
        }
    }
}

proof fn lemma_made_later(x: ObjV, y: ObjV, z: ObjV)
    requires
        !was_made_before(x, y),
        !was_made_before(y, z),
    ensures
        !was_made_before(x, z),
{
    if let (Some(a), Some(c)) = (text_field(x, "created_at"@), text_field(z, "created_at"@)) {
        if let Some(b) = text_field(y, "created_at"@) {
            strings_are_totally_ordered(a, b, c);
            strings_are_totally_ordered(b, c, a);
            strings_are_totally_ordered(c, b, a);
            strings_are_totally_ordered(a, c, b);
        }
    }
}

/// Connectors are listed newest first, each as often as it is there.
pub proof fn connectors_are_listed_newest_first(s: Seq<ObjV>)
    ensures
        newest_first(s).to_multiset() == s.to_multiset(),
        forall|i: int, j: int|
            0 <= i < j < s.len() ==> !was_made_before(
                #[trigger] newest_first(s)[i],
                #[trigger] newest_first(s)[j],
            ),
        newest_first(s).len() == s.len(),
    decreases s.len(),
{
    broadcast use vstd::seq_lib::group_to_multiset_ensures;

    if s.len() > 0 {
        let d = s.drop_last();
        connectors_are_listed_newest_first(d);
        lemma_placed(newest_first(d), s.last());
        assert(d.push(s.last()) =~= s);
        assert(newest_first(s).to_multiset() =~= s.to_multiset());
        assert(newest_first(s).to_multiset().len() == s.to_multiset().len());
    }
}

} // verus!
