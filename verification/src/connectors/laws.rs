//! What holds of every store: one connector in use for each actor, revocation that stays, codes
//! that work once, and conversations with one connector.

use crate::connectors::binding::{
    actor_check, bindable, bound_item, by_secret, holds_hash, issuable, may_converse, session_route,
    taken_by_other, usable, with_code,
};
use crate::connectors::entry::{normalized, preview, rank_is_a_total_order, revoked, EntryV};
use crate::connectors::merge::{all_taken_over, merged, route_retired, trimmed_actor, trimmed_group};
use crate::connectors::ops::{in_use_for, offered, put_back, replaced, revoked_at, revoked_where};
use crate::connectors::store::{
    collapsed, found, from_list, from_members, holder, is_current, lemma_collapse_is_sound,
    lemma_found, lemma_stored, read_store, retired, settled, sound, stored, taken_in,
};
use crate::failure::{failed, FailureKind, FailureV};
use crate::json::{text_field, text_or_empty, JsonV, ObjV};
use crate::json_write::sorted_keys;
use crate::lists::{lemma_first_match, some_match};
use crate::model::GroupV;
use crate::order::{before, strings_are_totally_ordered};
use crate::relay::ids::hex_digest;
use crate::text::{trimmed, trimming_twice_is_trimming_once, Text};
use crate::time::{is_instant, Instant};
use vstd::prelude::*;

verus! {

pub(crate) proof fn lemma_keys()
    ensures
        "revoked"@.len() == 7,
        "updated_at"@.len() == 10,
        "session_hash"@.len() == 12,
        "session_bound_at"@.len() == 16,
        "binding_code_hash"@.len() == 17,
        "binding_expires_at"@.len() == 18,
        "kind"@.len() == 4,
        "group_id"@.len() == 8,
        "actor_id"@.len() == 8,
        ""@.len() == 0,
{
    reveal_strlit("revoked");
    reveal_strlit("updated_at");
    reveal_strlit("session_hash");
    reveal_strlit("session_bound_at");
    reveal_strlit("binding_code_hash");
    reveal_strlit("binding_expires_at");
    reveal_strlit("kind");
    reveal_strlit("group_id");
    reveal_strlit("actor_id");
    reveal_strlit("");
}

pub(crate) proof fn lemma_retired(e: EntryV)
    ensures
        !retired(e).active(),
        !usable(retired(e).item),
        retired(e).id == e.id,
        text_field(retired(e).item, "binding_code_hash"@) == text_field(
            e.item,
            "binding_code_hash"@,
        ),
{
    lemma_keys();
}

pub(crate) proof fn lemma_same_place(s: Seq<EntryV>, i: int, j: int)
    requires
        sound(s),
        0 <= i < s.len(),
        0 <= j < s.len(),
        s[i].id == s[j].id,
    ensures
        i == j,
{
    strings_are_totally_ordered(s[i].id, s[j].id, s[i].id);
    if i < j {
        assert(before(s[i].id, s[j].id));
    } else if j < i {
        assert(before(s[j].id, s[i].id));
    }
}

/// A settled store has at most one connector in use for each actor.
pub proof fn one_connector_in_use_for_each_actor(s: Seq<EntryV>, a: EntryV, b: EntryV)
    requires
        sound(s),
        collapsed(s).contains(a),
        collapsed(s).contains(b),
        a.active(),
        b.active(),
        a.same_route(b),
    ensures
        a == b,
{
    let c = collapsed(s);
    let i = choose|i: int| 0 <= i < c.len() && c[i] == a;
    let j = choose|j: int| 0 <= j < c.len() && c[j] == b;
    lemma_retired(s[i]);
    lemma_retired(s[j]);
    assert(c[i] == settled(s, s[i]));
    assert(c[j] == settled(s, s[j]));
    assert(a == s[i] && is_current(s, a));
    assert(b == s[j] && is_current(s, b));
    if a.id != b.id {
        rank_is_a_total_order(a, b, a);
        let pa = |other: EntryV| other.active() && other.same_route(a) && a.outranked_by(other);
        let pb = |other: EntryV| other.active() && other.same_route(b) && b.outranked_by(other);
        if a.outranked_by(b) {
            assert(pa(s[j]));
        } else {
            assert(pb(s[i]));
        }
    } else {
        lemma_same_place(s, i, j);
    }
}

/// Settling a store never brings a connector back into use: each entry stays as it was or goes
/// out of use, under its id.
pub proof fn settling_brings_nothing_back(s: Seq<EntryV>, i: int)
    requires
        0 <= i < s.len(),
    ensures
        collapsed(s).len() == s.len(),
        collapsed(s)[i].id == s[i].id,
        collapsed(s)[i].active() ==> collapsed(s)[i] == s[i] && s[i].active(),
        !s[i].active() ==> collapsed(s)[i] == s[i],
{
    lemma_retired(s[i]);
}

/// Settling a settled store changes nothing.
pub proof fn settling_twice_is_settling_once(s: Seq<EntryV>)
    ensures
        collapsed(collapsed(s)) == collapsed(s),
{
    let c = collapsed(s);
    let d = collapsed(c);
    assert forall|i: int| 0 <= i < c.len() implies #[trigger] d[i] == c[i] by {
        lemma_retired(s[i]);
        assert(c[i] == settled(s, s[i]));
        assert(d[i] == settled(c, c[i]));
        if c[i].active() {
            let e = c[i];
            assert(e == s[i] && is_current(s, e));
            let p = |other: EntryV|
                other.active() && other.same_route(e) && e.outranked_by(other);
            if some_match(c, p) {
                let j = choose|j: int| 0 <= j < c.len() && p(#[trigger] c[j]);
                lemma_retired(s[j]);
                assert(c[j] == settled(s, s[j]));
                assert(c[j] == s[j]);
                assert(p(s[j]));
                assert(some_match(s, p));
            }
        }
    }
    assert(d =~= c);
}

spec fn newest_upto(s: Seq<EntryV>, e: EntryV, n: nat) -> EntryV
    decreases n,
{
    if n == 0 || n > s.len() {
        e
    } else {
        let m = newest_upto(s, e, (n - 1) as nat);
        let x = s[n - 1];
        if x.active() && x.same_route(e) && m.outranked_by(x) {
            x
        } else {
            m
        }
    }
}

proof fn lemma_newest_upto(s: Seq<EntryV>, e: EntryV, n: nat)
    requires
        s.contains(e),
        e.active(),
        n <= s.len(),
    ensures
        s.contains(newest_upto(s, e, n)),
        newest_upto(s, e, n).active(),
        newest_upto(s, e, n).same_route(e),
        forall|j: int|
            0 <= j < n && (#[trigger] s[j]).active() && s[j].same_route(e) ==> !newest_upto(
                s,
                e,
                n,
            ).outranked_by(s[j]),
    decreases n,
{
    if n > 0 {
        let k = (n - 1) as nat;
        lemma_newest_upto(s, e, k);
        let m = newest_upto(s, e, k);
        let x = s[n - 1];
        let r = newest_upto(s, e, n);
        assert forall|j: int|
            0 <= j < n && (#[trigger] s[j]).active() && s[j].same_route(e) implies !r.outranked_by(
            s[j],
        ) by {
            rank_is_a_total_order(m, x, s[j]);
            rank_is_a_total_order(x, x, x);
        }
    }
}

/// Settling keeps an actor reachable: where a connector was in use for an actor, one still is.
pub proof fn settling_keeps_the_newest(s: Seq<EntryV>, e: EntryV)
    requires
        s.contains(e),
        e.active(),
        e.routed(),
    ensures
        exists|x: EntryV| #[trigger] collapsed(s).contains(x) && x.active() && x.same_route(e),
{
    let n = s.len();
    let x = newest_upto(s, e, n);
    lemma_newest_upto(s, e, n);
    let p = |other: EntryV| other.active() && other.same_route(x) && x.outranked_by(other);
    if some_match(s, p) {
        let j = choose|j: int| 0 <= j < s.len() && p(#[trigger] s[j]);
        assert(s[j].same_route(e));
    }
    assert(is_current(s, x));
    let i = choose|i: int| 0 <= i < s.len() && s[i] == x;
    assert(collapsed(s)[i] == x);
    assert(collapsed(s).contains(x));
}

pub(crate) proof fn lemma_found_in(s: Seq<EntryV>, id: Text)
    requires
        sound(s),
    ensures
        found(s, id) matches Some(e) ==> s.contains(e) && e.id == id,
        found(s, id) is None ==> forall|e: EntryV| #[trigger] s.contains(e) ==> e.id != id,
{
    let p = |e: EntryV| e.id == id;
    lemma_first_match(s, p);
    if found(s, id) is None {
        assert forall|e: EntryV| #[trigger] s.contains(e) implies e.id != id by {
            if e.id == id {
                let i = choose|i: int| 0 <= i < s.len() && s[i] == e;
                assert(p(s[i]));
            }
        }
    }
}

/// Whether a connector has every member of another.
pub open spec fn keeps_members(item: ObjV, known: ObjV) -> bool {
    forall|k: Text| #[trigger] known.contains_key(k) ==> item.contains_key(k) && item[k] == known[k]
}

pub(crate) proof fn lemma_take_over_keeps(canonical: Seq<EntryV>, imported: Seq<EntryV>, e: EntryV)
    requires
        sound(canonical),
        canonical.contains(e),
    ensures
        sound(all_taken_over(canonical, imported)),
        exists|x: EntryV| #[trigger]
            all_taken_over(canonical, imported).contains(x) && x.id == e.id && keeps_members(
                x.item,
                e.item,
            ),
    decreases imported.len(),
{
    if imported.len() == 0 {
        assert(keeps_members(e.item, e.item));
        assert(all_taken_over(canonical, imported).contains(e));
    } else {
        let d = imported.drop_last();
        let y = imported.last();
        let s = all_taken_over(canonical, d);
        lemma_take_over_keeps(canonical, d, e);
        let x = choose|x: EntryV| #[trigger]
            s.contains(x) && x.id == e.id && keeps_members(x.item, e.item);
        lemma_found(s, x);
        match found(s, y.id) {
            Some(known) => {
                let item = y.item.union_prefer_right(known.item);
                lemma_stored(s, y.id, item);
                if y.id == e.id {
                    assert(known == x);
                    let z = EntryV { id: y.id, item };
                    assert(keeps_members(z.item, e.item));
                    assert(all_taken_over(canonical, imported).contains(z));
                } else {
                    assert(all_taken_over(canonical, imported).contains(x));
                }
            },
            None => {
                lemma_stored(s, y.id, y.item);
                assert(y.id != e.id);
                assert(all_taken_over(canonical, imported).contains(x));
            },
        }
    }
}

/// A connector that the store has taken out of use stays out of use, whatever older connectors
/// say of it.
pub proof fn a_revocation_survives_the_merge(
    canonical: Seq<EntryV>,
    imported: Seq<EntryV>,
    e: EntryV,
)
    requires
        sound(canonical),
        canonical.contains(e),
        !e.active(),
    ensures
        found(merged(canonical, imported), e.id) matches Some(x) && !x.active(),
{
    let s = all_taken_over(canonical, imported);
    lemma_take_over_keeps(canonical, imported, e);
    let x = choose|x: EntryV| #[trigger]
        s.contains(x) && x.id == e.id && keeps_members(x.item, e.item);
    assert(e.item.contains_key("revoked"@));
    assert(!x.active());
    let i = choose|i: int| 0 <= i < s.len() && s[i] == x;
    settling_brings_nothing_back(s, i);
    let c = collapsed(s);
    lemma_collapse_is_sound(s);
    assert(c[i] == x);
    assert(c.contains(x));
    lemma_found(c, x);
}

proof fn lemma_not_taken_over(canonical: Seq<EntryV>, imported: Seq<EntryV>, n: int, b: int)
    requires
        sound(canonical),
        sound(imported),
        0 <= b < imported.len(),
        0 <= n <= imported.len(),
        found(canonical, imported[b].id) is None,
        imported[b].active(),
        route_retired(
            canonical,
            trimmed_group(imported[b].item),
            trimmed_actor(imported[b].item),
        ),
    ensures
        sound(all_taken_over(canonical, imported.take(n))),
        found(all_taken_over(canonical, imported.take(n)), imported[b].id) is None,
    decreases n,
{
    let t = imported.take(n);
    let id = imported[b].id;
    if n > 0 {
        assert(t.drop_last() =~= imported.take(n - 1));
        lemma_not_taken_over(canonical, imported, n - 1, b);
        let s = all_taken_over(canonical, imported.take(n - 1));
        let y = imported[n - 1];
        assert(t.last() == y);
        let r = all_taken_over(canonical, t);
        lemma_found_in(s, id);
        if y.id == id {
            lemma_same_place(imported, n - 1, b);
        } else {
            match found(s, y.id) {
                Some(known) => {
                    lemma_stored(s, y.id, y.item.union_prefer_right(known.item));
                },
                None => {
                    lemma_stored(s, y.id, y.item);
                },
            }
            lemma_found_in(r, id);
            if found(r, id) is Some {
                let x = found(r, id)->0;
                assert(r.contains(x));
                assert(s.contains(x));
            }
        }
    }
}

/// An unknown connector in use is not taken over for an actor whose connector the store has taken
/// out of use.
pub proof fn a_retired_actor_is_not_revived_by_the_merge(
    canonical: Seq<EntryV>,
    imported: Seq<EntryV>,
    b: int,
)
    requires
        sound(canonical),
        sound(imported),
        0 <= b < imported.len(),
        found(canonical, imported[b].id) is None,
        imported[b].active(),
        route_retired(
            canonical,
            trimmed_group(imported[b].item),
            trimmed_actor(imported[b].item),
        ),
    ensures
        found(merged(canonical, imported), imported[b].id) is None,
{
    let n = imported.len() as int;
    assert(imported.take(n) =~= imported);
    lemma_not_taken_over(canonical, imported, n, b);
    let s = all_taken_over(canonical, imported);
    let c = collapsed(s);
    let id = imported[b].id;
    lemma_found_in(s, id);
    lemma_collapse_is_sound(s);
    lemma_found_in(c, id);
    if found(c, id) is Some {
        let x = found(c, id)->0;
        let i = choose|i: int| 0 <= i < c.len() && c[i] == x;
        settling_brings_nothing_back(s, i);
        assert(s.contains(s[i]));
    }
}

proof fn lemma_stored_entry(s: Seq<EntryV>, id: Text, item: ObjV)
    requires
        sound(s),
    ensures
        sound(collapsed(stored(s, id, item))),
        found(collapsed(stored(s, id, item)), id) == Some(
            settled(stored(s, id, item), EntryV { id, item }),
        ),
{
    let t = stored(s, id, item);
    let x = EntryV { id, item };
    lemma_stored(s, id, item);
    lemma_collapse_is_sound(t);
    assert(t.contains(x));
    let i = choose|i: int| 0 <= i < t.len() && t[i] == x;
    let c = collapsed(t);
    lemma_retired(x);
    assert(c[i] == settled(t, x));
    assert(c.contains(c[i]));
    lemma_found(c, c[i]);
}

proof fn lemma_in_use_after_binding(
    s: Seq<EntryV>,
    id: Text,
    code: Text,
    session: Text,
    group: Result<GroupV, FailureV>,
    now: Instant,
)
    requires
        sound(s),
        collapsed(s) == s,
        bindable(s, id, code, session, group, now) is Ok,
    ensures
        ({
            let bound = bound_item(
                bindable(s, id, code, session, group, now)->Ok_0,
                trimmed(session),
                now.text(),
            );
            let t = collapsed(stored(s, trimmed(id), bound));
            &&& found(t, trimmed(id)) == Some(EntryV { id: trimmed(id), item: bound })
            &&& sound(t)
            &&& usable(bound)
            &&& text_field(bound, "binding_code_hash"@) == Some(""@)
            &&& text_field(bound, "kind"@) == Some("web_model_connector"@)
            &&& text_or_empty(bound, "actor_id"@) == text_or_empty(
                bindable(s, id, code, session, group, now)->Ok_0,
                "actor_id"@,
            )
        }),
{
    lemma_keys();
    let item = bindable(s, id, code, session, group, now)->Ok_0;
    let bound = bound_item(item, trimmed(session), now.text());
    let e = found(s, trimmed(id))->0;
    lemma_found_in(s, trimmed(id));
    lemma_stays_current(s, e, bound);
    lemma_stored_entry(s, trimmed(id), bound);
}

/// A binding code works once. After a conversation was bound with it, no code binds to that
/// connector until a new one is issued: where the actor may converse and the request names a code
/// and a conversation, the refusal is that the code is invalid. The used code is found nowhere,
/// unless another connector holds the same one.
pub proof fn a_code_works_once(
    s: Seq<EntryV>,
    id: Text,
    code: Text,
    session: Text,
    group: Result<GroupV, FailureV>,
    now: Instant,
    again: Text,
    other_session: Text,
    later_group: Result<GroupV, FailureV>,
    later: Instant,
)
    requires
        sound(s),
        collapsed(s) == s,
        bindable(s, id, code, session, group, now) is Ok,
    ensures
        hex_digest(trimmed(again)).len() > 0 && hex_digest(trimmed(code)).len() > 0 ==> ({
            let item = bindable(s, id, code, session, group, now)->Ok_0;
            let t = collapsed(
                stored(s, trimmed(id), bound_item(item, trimmed(session), now.text())),
            );
            &&& bindable(t, id, again, other_session, later_group, later) is Err
            &&& actor_check(item, later_group) is Ok && trimmed(again).len() > 0 && trimmed(
                other_session,
            ).len() > 0 ==> bindable(t, id, again, other_session, later_group, later) == Err::<
                ObjV,
                FailureV,
            >(failed(FailureKind::InvalidInput, "session_binding_code_invalid"@))
            &&& !some_match(
                s,
                |e: EntryV|
                    e.id != trimmed(id) && holds_hash(
                        e,
                        "binding_code_hash"@,
                        hex_digest(trimmed(code)),
                    ),
            ) ==> by_secret(t, "binding_code_hash"@, code) == Ok::<Option<ObjV>, FailureV>(None)
        }),
{
    lemma_keys();
    let item = bindable(s, id, code, session, group, now)->Ok_0;
    let bound = bound_item(item, trimmed(session), now.text());
    let x = EntryV { id: trimmed(id), item: bound };
    let u = stored(s, trimmed(id), bound);
    let t = collapsed(u);
    lemma_in_use_after_binding(s, id, code, session, group, now);
    lemma_stored(s, trimmed(id), bound);
    let h = hex_digest(trimmed(code));
    let p = |e: EntryV| holds_hash(e, "binding_code_hash"@, h);
    let other = |e: EntryV| e.id != trimmed(id) && holds_hash(e, "binding_code_hash"@, h);
    crate::lists::lemma_selection(t, p);
    if some_match(t, p) {
        let k = choose|k: int| 0 <= k < t.len() && p(#[trigger] t[k]);
        settling_brings_nothing_back(u, k);
        lemma_retired(u[k]);
        assert(t[k] == settled(u, u[k]));
        assert(u.contains(u[k]));
        if u[k] == x {
            assert(text_field(t[k].item, "binding_code_hash"@) == Some(""@));
        } else {
            assert(s.contains(u[k]));
            let m = choose|m: int| 0 <= m < s.len() && s[m] == u[k];
            assert(other(s[m]));
        }
    }
}

/// Issuing a code leaves the conversation that is bound to the connector bound.
pub proof fn issuing_a_code_keeps_the_conversation(
    item: ObjV,
    code: Text,
    expires: Text,
    now: Text,
)
    ensures
        text_field(with_code(item, code, expires, now), "session_hash"@) == text_field(
            item,
            "session_hash"@,
        ),
{
    lemma_keys();
}

/// Whether no two usable connectors hold the same conversation.
pub open spec fn sessions_are_unique(s: Seq<EntryV>) -> bool {
    forall|i: int, j: int, h: Text|
        0 <= i < j < s.len() && #[trigger] holds_hash(s[i], "session_hash"@, h) ==> !#[trigger]
            holds_hash(s[j], "session_hash"@, h)
}

proof fn lemma_unique_after_collapse(s: Seq<EntryV>)
    requires
        sessions_are_unique(s),
    ensures
        sessions_are_unique(collapsed(s)),
{
    let c = collapsed(s);
    assert forall|i: int, j: int, h: Text|
        0 <= i < j < c.len() && #[trigger] holds_hash(c[i], "session_hash"@, h) implies !#[trigger]
        holds_hash(c[j], "session_hash"@, h) by {
        lemma_retired(s[i]);
        lemma_retired(s[j]);
        assert(c[i] == settled(s, s[i]));
        assert(c[j] == settled(s, s[j]));
        if holds_hash(c[j], "session_hash"@, h) {
            assert(c[i] == s[i]);
            assert(c[j] == s[j]);
            assert(holds_hash(s[i], "session_hash"@, h));
        }
    }
}

/// Binding keeps conversations unique: where no two usable connectors hold the same conversation,
/// none do after one more was bound.
pub proof fn binding_keeps_conversations_unique(
    s: Seq<EntryV>,
    id: Text,
    code: Text,
    session: Text,
    group: Result<GroupV, FailureV>,
    now: Instant,
)
    requires
        sound(s),
        sessions_are_unique(s),
        bindable(s, id, code, session, group, now) is Ok,
    ensures
        sessions_are_unique(
            collapsed(
                stored(
                    s,
                    trimmed(id),
                    bound_item(
                        bindable(s, id, code, session, group, now)->Ok_0,
                        trimmed(session),
                        now.text(),
                    ),
                ),
            ),
        ),
{
    lemma_keys();
    let item = bindable(s, id, code, session, group, now)->Ok_0;
    let bound = bound_item(item, trimmed(session), now.text());
    let x = EntryV { id: trimmed(id), item: bound };
    let t = stored(s, trimmed(id), bound);
    let hash = hex_digest(trimmed(session));
    lemma_stored(s, trimmed(id), bound);
    assert(text_field(bound, "session_hash"@) == Some(hash));
    let other = |e: EntryV| e.id != trimmed(id) && holds_hash(e, "session_hash"@, hash);
    assert(!some_match(s, other));
    assert forall|i: int, j: int, h: Text|
        0 <= i < j < t.len() && #[trigger] holds_hash(t[i], "session_hash"@, h) implies !#[trigger]
        holds_hash(t[j], "session_hash"@, h) by {
        if holds_hash(t[j], "session_hash"@, h) {
            assert(t.contains(t[i]));
            assert(t.contains(t[j]));
            if t[i] == x || t[j] == x {
                let o = if t[i] == x { t[j] } else { t[i] };
                if t[i] == x && t[j] == x {
                    lemma_same_place(t, i, j);
                } else {
                    assert(s.contains(o));
                    let k = choose|k: int| 0 <= k < s.len() && s[k] == o;
                    assert(h == hash);
                    assert(other(s[k]));
                }
            } else {
                let a = choose|a: int| 0 <= a < s.len() && s[a] == t[i];
                let b = choose|b: int| 0 <= b < s.len() && s[b] == t[j];
                assert(holds_hash(s[a], "session_hash"@, h));
                assert(holds_hash(s[b], "session_hash"@, h));
                assert(a == b);
                lemma_same_place(t, i, j);
            }
        }
    }
    lemma_unique_after_collapse(t);
}

pub(crate) proof fn lemma_two_matches<A>(s: Seq<A>, p: spec_fn(A) -> bool)
    requires
        s.filter(p).len() >= 2,
    ensures
        exists|i: int, j: int|
            0 <= i < j < s.len() && p(#[trigger] s[i]) && p(#[trigger] s[j]),
    decreases s.len(),
{
    reveal(Seq::filter);
    let d = s.drop_last();
    if d.filter(p).len() >= 2 {
        lemma_two_matches(d, p);
        let (i, j) = choose|i: int, j: int|
            0 <= i < j < d.len() && p(#[trigger] d[i]) && p(#[trigger] d[j]);
        assert(p(s[i]) && p(s[j]));
    } else {
        crate::lists::lemma_selection(d, p);
        let i = choose|i: int| 0 <= i < d.len() && p(#[trigger] d[i]);
        assert(p(s[i]) && p(s[s.len() - 1]));
    }
}

/// Where conversations are unique, looking one up is never a conflict.
pub proof fn a_unique_conversation_is_found_without_conflict(s: Seq<EntryV>, session: Text)
    requires
        sessions_are_unique(s),
    ensures
        by_secret(s, "session_hash"@, session) is Ok,
{
    let h = hex_digest(trimmed(session));
    let p = |e: EntryV| holds_hash(e, "session_hash"@, h);
    if s.filter(p).len() >= 2 {
        lemma_two_matches(s, p);
        let (i, j) = choose|i: int, j: int|
            0 <= i < j < s.len() && p(#[trigger] s[i]) && p(#[trigger] s[j]);
        assert(holds_hash(s[i], "session_hash"@, h));
        assert(holds_hash(s[j], "session_hash"@, h));
    }
}

proof fn lemma_stays_current(s: Seq<EntryV>, e: EntryV, item: ObjV)
    requires
        sound(s),
        collapsed(s) == s,
        s.contains(e),
        e.active(),
        !revoked(item),
        text_field(item, "group_id"@) == text_field(e.item, "group_id"@),
        text_field(item, "actor_id"@) == text_field(e.item, "actor_id"@),
    ensures
        is_current(stored(s, e.id, item), EntryV { id: e.id, item }),
{
    let x = EntryV { id: e.id, item };
    let t = stored(s, e.id, item);
    lemma_stored(s, e.id, item);
    let k = choose|k: int| 0 <= k < s.len() && s[k] == e;
    lemma_retired(e);
    assert(collapsed(s)[k] == settled(s, e));
    assert(is_current(s, e));
    let newer = |other: EntryV| other.active() && other.same_route(x) && x.outranked_by(other);
    if some_match(t, newer) {
        let m = choose|m: int| 0 <= m < t.len() && newer(#[trigger] t[m]);
        let o = t[m];
        rank_is_a_total_order(x, x, x);
        assert(o != x);
        assert(t.contains(o));
        assert(s.contains(o));
        one_connector_in_use_for_each_actor(s, o, e);
        assert(o.id != e.id);
    }
}

/// A conversation that was bound in a settled store is found under its connector, and the store
/// stays settled.
pub proof fn a_bound_conversation_is_found(
    s: Seq<EntryV>,
    id: Text,
    code: Text,
    session: Text,
    group: Result<GroupV, FailureV>,
    now: Instant,
)
    requires
        sound(s),
        collapsed(s) == s,
        sessions_are_unique(s),
        bindable(s, id, code, session, group, now) is Ok,
    ensures
        by_secret(
            collapsed(
                stored(
                    s,
                    trimmed(id),
                    bound_item(
                        bindable(s, id, code, session, group, now)->Ok_0,
                        trimmed(session),
                        now.text(),
                    ),
                ),
            ),
            "session_hash"@,
            session,
        ) == Ok::<Option<ObjV>, FailureV>(
            Some(
                bound_item(
                    bindable(s, id, code, session, group, now)->Ok_0,
                    trimmed(session),
                    now.text(),
                ),
            ),
        ),
{
    lemma_keys();
    let item = bindable(s, id, code, session, group, now)->Ok_0;
    let bound = bound_item(item, trimmed(session), now.text());
    let x = EntryV { id: trimmed(id), item: bound };
    let t = stored(s, trimmed(id), bound);
    let c = collapsed(t);
    let h = hex_digest(trimmed(session));
    let p = |e: EntryV| holds_hash(e, "session_hash"@, h);
    let e = found(s, trimmed(id))->0;
    lemma_found_in(s, trimmed(id));
    lemma_stays_current(s, e, bound);
    lemma_stored_entry(s, trimmed(id), bound);
    assert(found(c, trimmed(id)) == Some(x));
    lemma_found_in(c, trimmed(id));
    assert(c.contains(x));
    let k = choose|k: int| 0 <= k < c.len() && c[k] == x;
    assert(usable(item));
    assert(usable(bound));
    assert(p(c[k]));
    binding_keeps_conversations_unique(s, id, code, session, group, now);
    crate::lists::lemma_selection(c, p);
    let f = c.filter(p);
    assert(f.contains(x));
    if f.len() >= 2 {
        lemma_two_matches(c, p);
        let (i, j) = choose|i: int, j: int|
            0 <= i < j < c.len() && p(#[trigger] c[i]) && p(#[trigger] c[j]);
        assert(holds_hash(c[i], "session_hash"@, h));
        assert(holds_hash(c[j], "session_hash"@, h));
    }
    let m = choose|m: int| 0 <= m < f.len() && f[m] == x;
    assert(m == 0);
}

/// A code binds until it expires: where it was issued in a settled store, a conversation that no
/// other connector holds is bound with it at any moment before its expiry, as long as the actor may
/// still converse.
pub proof fn a_code_binds_until_it_expires(
    s: Seq<EntryV>,
    id: Text,
    code: Text,
    expires: Instant,
    expires_text: Text,
    issued_at: Text,
    group: Result<GroupV, FailureV>,
    later_group: Result<GroupV, FailureV>,
    session: Text,
    at: Instant,
)
    requires
        sound(s),
        collapsed(s) == s,
        issuable(s, id, group) is Ok,
        trimmed(code) == code,
        code.len() > 0,
        trimmed(session).len() > 0,
        is_instant(expires_text, expires),
        expires.is_after(at),
        actor_check(issuable(s, id, group)->Ok_0, later_group) is Ok,
        !taken_by_other(s, trimmed(id), hex_digest(trimmed(session))),
    ensures
        bindable(
            collapsed(
                stored(
                    s,
                    trimmed(id),
                    with_code(issuable(s, id, group)->Ok_0, code, expires_text, issued_at),
                ),
            ),
            id,
            code,
            session,
            later_group,
            at,
        ) is Ok,
{
    lemma_keys();
    let item = issuable(s, id, group)->Ok_0;
    let coded = with_code(item, code, expires_text, issued_at);
    let x = EntryV { id: trimmed(id), item: coded };
    let t = stored(s, trimmed(id), coded);
    let c = collapsed(t);
    let h = hex_digest(trimmed(session));
    let e = found(s, trimmed(id))->0;
    lemma_found_in(s, trimmed(id));
    lemma_stored(s, trimmed(id), coded);
    lemma_stays_current(s, e, coded);
    lemma_stored_entry(s, trimmed(id), coded);
    assert(found(c, trimmed(id)) == Some(x));
    let other = |o: EntryV| o.id != trimmed(id) && holds_hash(o, "session_hash"@, h);
    if some_match(c, other) {
        let k = choose|k: int| 0 <= k < c.len() && other(#[trigger] c[k]);
        settling_brings_nothing_back(t, k);
        lemma_retired(t[k]);
        assert(c[k] == settled(t, t[k]));
        assert(t.contains(t[k]));
        assert(s.contains(t[k]));
        let m = choose|m: int| 0 <= m < s.len() && s[m] == t[k];
        assert(other(s[m]));
    }
}

proof fn lemma_revoked_at(item: ObjV, now: Text)
    ensures
        revoked(revoked_at(item, now)),
{
    lemma_keys();
}

pub(crate) proof fn lemma_revoked_where_sound(s: Seq<EntryV>, p: spec_fn(EntryV) -> bool, now: Text)
    requires
        sound(s),
    ensures
        sound(revoked_where(s, p, now)),
{
    let r = revoked_where(s, p, now);
    assert forall|i: int, j: int| 0 <= i < j < r.len() implies #[trigger] before(
        r[i].id,
        #[trigger] r[j].id,
    ) by {
        assert(r[i].id == s[i].id);
        assert(r[j].id == s[j].id);
        assert(before(s[i].id, s[j].id));
    }
}

/// A connector that replaces the ones in use for its actor is itself in use afterwards.
pub proof fn a_replacement_is_in_use(s: Seq<EntryV>, item: ObjV, now: Text)
    requires
        sound(s),
        !revoked(item),
        text_or_empty(item, "group_id"@).len() > 0,
        text_or_empty(item, "actor_id"@).len() > 0,
    ensures
        found(replaced(s, item, now), text_or_empty(item, "connector_id"@)) == Some(
            EntryV { id: text_or_empty(item, "connector_id"@), item },
        ),
{
    let id = text_or_empty(item, "connector_id"@);
    let x = EntryV { id, item };
    let p = |e: EntryV| in_use_for(e, item);
    let r = revoked_where(s, p, now);
    let t = stored(r, id, item);
    lemma_revoked_where_sound(s, p, now);
    lemma_stored(r, id, item);
    let newer = |other: EntryV| other.active() && other.same_route(x) && x.outranked_by(other);
    if some_match(t, newer) {
        let k = choose|k: int| 0 <= k < t.len() && newer(#[trigger] t[k]);
        assert(t.contains(t[k]));
        rank_is_a_total_order(x, x, x);
        assert(t[k] != x);
        assert(r.contains(t[k]));
        let m = choose|m: int| 0 <= m < r.len() && r[m] == t[k];
        if p(s[m]) {
            lemma_revoked_at(s[m].item, now);
        } else {
            assert(r[m] == s[m]);
            assert(text_field(s[m].item, "group_id"@) == text_field(item, "group_id"@));
            assert(text_field(s[m].item, "actor_id"@) == text_field(item, "actor_id"@));
        }
    }
    assert(is_current(t, x));
    lemma_stored_entry(r, id, item);
}

/// A revoked connector is out of use, and stays so through later settling.
pub proof fn a_revoked_connector_is_out_of_use(s: Seq<EntryV>, e: EntryV, now: Text)
    requires
        sound(s),
        s.contains(e),
    ensures
        found(collapsed(stored(s, e.id, revoked_at(e.item, now))), e.id) matches Some(x)
            && !x.active(),
{
    lemma_revoked_at(e.item, now);
    lemma_stored_entry(s, e.id, revoked_at(e.item, now));
    lemma_retired(EntryV { id: e.id, item: revoked_at(e.item, now) });
}

proof fn lemma_settled_after_retiring(s: Seq<EntryV>, p: spec_fn(EntryV) -> bool, now: Text)
    requires
        collapsed(s) == s,
    ensures
        collapsed(revoked_where(s, p, now)) == revoked_where(s, p, now),
{
    let r = revoked_where(s, p, now);
    let c = collapsed(r);
    assert forall|i: int| 0 <= i < r.len() implies #[trigger] c[i] == r[i] by {
        assert(c[i] == settled(r, r[i]));
        lemma_revoked_at(s[i].item, now);
        if r[i].active() {
            assert(r[i] == s[i]);
            assert(collapsed(s)[i] == settled(s, s[i]));
            lemma_retired(s[i]);
            assert(is_current(s, s[i]));
            let e = s[i];
            let newer = |other: EntryV|
                other.active() && other.same_route(e) && e.outranked_by(other);
            if some_match(r, newer) {
                let k = choose|k: int| 0 <= k < r.len() && newer(#[trigger] r[k]);
                lemma_revoked_at(s[k].item, now);
                assert(r[k] == s[k]);
                assert(newer(s[k]));
            }
        }
    }
    assert(c =~= r);
}

pub(crate) proof fn lemma_stored_in_place(s: Seq<EntryV>, i: int, item: ObjV)
    requires
        sound(s),
        0 <= i < s.len(),
    ensures
        stored(s, s[i].id, item) == s.update(i, EntryV { id: s[i].id, item }),
    decreases s.len(),
{
    let id = s[i].id;
    if i == 0 {
        strings_are_totally_ordered(id, id, id);
        assert(stored(s, id, item) =~= s.update(0, EntryV { id, item }));
    } else {
        assert(before(s[0].id, s[i].id));
        let d = s.drop_first();
        assert forall|a: int, b: int| 0 <= a < b < d.len() implies #[trigger] before(
            d[a].id,
            #[trigger] d[b].id,
        ) by {
            assert(before(s[a + 1].id, s[b + 1].id));
        }
        lemma_stored_in_place(d, i - 1, item);
        assert(stored(s, id, item) =~= s.update(i, EntryV { id, item }));
    }
}

/// Whether a connector is stored in its normal form, under the id that it names.
pub open spec fn is_normal(e: EntryV) -> bool {
    text_field(e.item, "connector_id"@) == Some(e.id) && normalized(e.id, JsonV::Obj(e.item))
        == Some(e.item)
}

/// The id of a connector in normal form is trimmed.
pub(crate) proof fn lemma_normal_id(e: EntryV)
    requires
        is_normal(e),
    ensures
        trimmed(e.id) == e.id,
{
    lemma_entry_keys();
    let m = normalized(e.id, JsonV::Obj(e.item))->0;
    assert(text_field(m, "connector_id"@) == Some(trimmed(e.id)));
}

/// A connector in normal form names its actor, and says whether it is revoked.
pub(crate) proof fn lemma_normal_entry(e: EntryV)
    requires
        is_normal(e),
    ensures
        e.routed(),
        e.item.contains_key("revoked"@),
{
    lemma_entry_keys();
    lemma_normal_is_in_form(e.id, JsonV::Obj(e.item));
}

/// The connectors as documents.
pub open spec fn documents(s: Seq<EntryV>) -> Seq<JsonV> {
    s.map_values(|e: EntryV| JsonV::Obj(e.item))
}

proof fn lemma_offered_again(e: EntryV)
    requires
        is_normal(e),
    ensures
        offered(JsonV::Obj(e.item)) == Ok::<ObjV, FailureV>(e.item),
        JsonV::Obj(e.item).at("connector_id"@).text() == Some(e.id),
{
}

#[verifier::spinoff_prover]
proof fn lemma_put_back_one(base: Seq<EntryV>, docs: Seq<JsonV>, b: Seq<EntryV>, i: int, e: EntryV)
    requires
        put_back(base, docs) == Ok::<Seq<EntryV>, FailureV>(b),
        sound(b),
        0 <= i < b.len(),
        b[i].id == e.id,
        offered(JsonV::Obj(e.item)) == Ok::<ObjV, FailureV>(e.item),
        JsonV::Obj(e.item).at("connector_id"@).text() == Some(e.id),
    ensures
        put_back(base, docs.push(JsonV::Obj(e.item))) == Ok::<Seq<EntryV>, FailureV>(b.update(i, e)),
{
    let all = docs.push(JsonV::Obj(e.item));
    assert(all.drop_last() =~= docs);
    assert(all.last() == JsonV::Obj(e.item));
    lemma_stored_in_place(b, i, e.item);
}

#[verifier::spinoff_prover]
proof fn lemma_put_back_upto(s: Seq<EntryV>, p: spec_fn(EntryV) -> bool, now: Text, n: int)
    requires
        sound(s),
        0 <= n <= s.len(),
        forall|i: int| 0 <= i < s.len() ==> is_normal(#[trigger] s[i]),
    ensures
        put_back(revoked_where(s, p, now), documents(s.take(n).filter(p))) == Ok::<
            Seq<EntryV>,
            FailureV,
        >(s.take(n) + revoked_where(s, p, now).skip(n)),
    decreases n,
{
    reveal(Seq::filter);
    let r = revoked_where(s, p, now);
    if n == 0 {
        assert(s.take(0) + r.skip(0) =~= r);
        assert(documents(s.take(0).filter(p)) =~= Seq::empty());
    } else {
        lemma_put_back_upto(s, p, now, n - 1);
        let t = s.take(n);
        let e = s[n - 1];
        assert(t.drop_last() =~= s.take(n - 1));
        assert(t.last() == e);
        let before_it = s.take(n - 1) + r.skip(n - 1);
        if p(e) {
            let f = s.take(n - 1).filter(p);
            assert(t.filter(p) == f.push(e));
            assert(documents(f.push(e)) =~= documents(f).push(JsonV::Obj(e.item)));
            assert(is_normal(e));
            lemma_offered_again(e);
            assert forall|a: int, b: int| 0 <= a < b < before_it.len() implies #[trigger] before(
                before_it[a].id,
                #[trigger] before_it[b].id,
            ) by {
                assert(before_it[a].id == s[a].id);
                assert(before_it[b].id == s[b].id);
                assert(before(s[a].id, s[b].id));
            }
            assert(before_it[n - 1].id == e.id);
            lemma_put_back_one(r, documents(f), before_it, n - 1, e);
            assert(before_it.update(n - 1, e) =~= s.take(n) + r.skip(n));
        } else {
            assert(t.filter(p) == s.take(n - 1).filter(p));
            assert(before_it =~= s.take(n) + r.skip(n));
        }
    }
}

/// Restoring undoes retiring: where connectors of a read store were taken out of use and put back as
/// they were, the store is as it was.
pub proof fn restoring_undoes_retiring(s: Seq<EntryV>, p: spec_fn(EntryV) -> bool, now: Text)
    requires
        is_as_read(s),
    ensures
        put_back(collapsed(revoked_where(s, p, now)), documents(s.filter(p))) matches Ok(t)
            && collapsed(t) == s,
{
    let n = s.len() as int;
    lemma_settled_after_retiring(s, p, now);
    lemma_put_back_upto(s, p, now, n);
    assert(s.take(n) =~= s);
    assert(s.take(n) + revoked_where(s, p, now).skip(n) =~= s);
}

proof fn lemma_entry_keys()
    ensures
        "connector_id"@.len() == 12,
        "group_id"@.len() == 8,
        "actor_id"@.len() == 8,
        "group_id"@[0] == 'g',
        "actor_id"@[0] == 'a',
        "kind"@.len() == 4,
        "secret"@.len() == 6,
        "secret_hash"@.len() == 11,
        "secret_preview"@.len() == 14,
        "revoked"@.len() == 7,
        "updated_at"@.len() == 10,
        "created_at"@.len() == 10,
        "updated_at"@[0] == 'u',
        "created_at"@[0] == 'c',
{
    reveal_strlit("connector_id");
    reveal_strlit("group_id");
    reveal_strlit("actor_id");
    reveal_strlit("kind");
    reveal_strlit("secret");
    reveal_strlit("secret_hash");
    reveal_strlit("secret_preview");
    reveal_strlit("revoked");
    reveal_strlit("updated_at");
    reveal_strlit("created_at");
}

/// Whether an object has all that the normal form of a connector with this id asks for.
spec fn is_in_form(id: Text, m: ObjV) -> bool {
    let secret = trimmed(text_or_empty(m, "secret"@));
    let hash = trimmed(text_or_empty(m, "secret_hash"@));
    &&& trimmed(id) == id
    &&& id.len() > 0
    &&& text_field(m, "connector_id"@) == Some(id)
    &&& text_field(m, "group_id"@) matches Some(g) && trimmed(g) == g && g.len() > 0
    &&& text_field(m, "actor_id"@) matches Some(a) && trimmed(a) == a && a.len() > 0
    &&& m.contains_key("kind"@)
    &&& m.contains_key("revoked"@)
    &&& secret.len() > 0 || hash.len() > 0
    &&& hash.len() == 0 ==> text_field(m, "secret_hash"@) == Some(hex_digest(secret))
    &&& text_or_empty(m, "secret_preview"@).len() == 0 && secret.len() > 0 ==> text_field(
        m,
        "secret_preview"@,
    ) == Some(preview(secret))
}

#[verifier::spinoff_prover]
proof fn lemma_in_form_is_normal(id: Text, m: ObjV)
    requires
        is_in_form(id, m),
    ensures
        is_normal(EntryV { id, item: m }),
{
    lemma_entry_keys();
    let n = normalized(id, JsonV::Obj(m));
    assert(n is Some);
    assert(n->0 =~= m);
}

#[verifier::spinoff_prover]
proof fn lemma_normal_is_in_form(id: Text, raw: JsonV)
    requires
        normalized(id, raw) is Some,
    ensures
        is_in_form(trimmed(id), normalized(id, raw)->0),
{
    lemma_entry_keys();
    trimming_twice_is_trimming_once(id);
    let m = raw.object()->0;
    trimming_twice_is_trimming_once(text_field(m, "group_id"@)->0);
    trimming_twice_is_trimming_once(text_field(m, "actor_id"@)->0);
}

proof fn lemma_normal_again(id: Text, raw: JsonV)
    requires
        normalized(id, raw) is Some,
    ensures
        is_normal(EntryV { id: trimmed(id), item: normalized(id, raw)->0 }),
{
    lemma_normal_is_in_form(id, raw);
    lemma_in_form_is_normal(trimmed(id), normalized(id, raw)->0);
}

proof fn lemma_normal_when_retired(e: EntryV)
    requires
        is_normal(e),
    ensures
        is_normal(retired(e)),
{
    lemma_entry_keys();
    lemma_normal_is_in_form(e.id, JsonV::Obj(e.item));
    assert(trimmed(e.id) == e.id);
    lemma_in_form_is_normal(e.id, retired(e).item);
}

proof fn lemma_all_normal_after_storing(s: Seq<EntryV>, id: Text, item: ObjV)
    requires
        sound(s),
        forall|i: int| 0 <= i < s.len() ==> is_normal(#[trigger] s[i]),
        is_normal(EntryV { id, item }),
    ensures
        sound(stored(s, id, item)),
        forall|i: int| 0 <= i < stored(s, id, item).len() ==> is_normal(#[trigger] stored(s, id, item)[i]),
{
    let t = stored(s, id, item);
    lemma_stored(s, id, item);
    assert forall|i: int| 0 <= i < t.len() implies is_normal(#[trigger] t[i]) by {
        assert(t.contains(t[i]));
        if t[i] != (EntryV { id, item }) {
            assert(s.contains(t[i]));
            let k = choose|k: int| 0 <= k < s.len() && s[k] == t[i];
            assert(is_normal(s[k]));
        }
    }
}

/// Whether a store is as a read one is: sound, settled, and with every connector in its normal
/// form.
pub open spec fn is_as_read(s: Seq<EntryV>) -> bool {
    &&& sound(s)
    &&& collapsed(s) == s
    &&& forall|i: int| 0 <= i < s.len() ==> is_normal(#[trigger] s[i])
}

proof fn lemma_settled_is_as_read(s: Seq<EntryV>)
    requires
        sound(s),
        forall|i: int| 0 <= i < s.len() ==> is_normal(#[trigger] s[i]),
    ensures
        is_as_read(collapsed(s)),
{
    let c = collapsed(s);
    lemma_collapse_is_sound(s);
    settling_twice_is_settling_once(s);
    assert forall|i: int| 0 <= i < c.len() implies is_normal(#[trigger] c[i]) by {
        assert(c[i] == settled(s, s[i]));
        lemma_normal_when_retired(s[i]);
    }
}

proof fn lemma_taken_in_normal(s: Seq<EntryV>, id: Text, raw: JsonV)
    requires
        sound(s),
        forall|i: int| 0 <= i < s.len() ==> is_normal(#[trigger] s[i]),
    ensures
        sound(taken_in(s, id, raw)),
        forall|i: int| 0 <= i < taken_in(s, id, raw).len() ==> is_normal(#[trigger] taken_in(s, id, raw)[i]),
{
    if normalized(id, raw) is Some {
        lemma_normal_again(id, raw);
        lemma_all_normal_after_storing(s, trimmed(id), normalized(id, raw)->0);
    }
}

proof fn lemma_list_is_normal(items: Seq<JsonV>)
    ensures
        sound(from_list(items)),
        forall|i: int| 0 <= i < from_list(items).len() ==> is_normal(#[trigger] from_list(items)[i]),
    decreases items.len(),
{
    if items.len() > 0 {
        lemma_list_is_normal(items.drop_last());
        lemma_taken_in_normal(
            from_list(items.drop_last()),
            crate::json::or_empty(items.last().at("connector_id"@).text()),
            items.last(),
        );
    }
}

proof fn lemma_members_are_normal(m: ObjV, keys: Seq<Text>)
    ensures
        sound(from_members(m, keys)),
        forall|i: int| 0 <= i < from_members(m, keys).len() ==> is_normal(#[trigger] from_members(m, keys)[i]),
    decreases keys.len(),
{
    if keys.len() > 0 {
        lemma_members_are_normal(m, keys.drop_last());
        lemma_taken_in_normal(from_members(m, keys.drop_last()), keys.last(), m[keys.last()]);
    }
}

/// Whatever document a store is read from, it is sound and settled, and every connector in it has
/// its normal form.
pub proof fn a_read_store_is_settled_and_normal(raw: JsonV)
    ensures
        is_as_read(read_store(raw)),
{
    match raw {
        JsonV::Arr(items) => {
            lemma_list_is_normal(items);
            lemma_settled_is_as_read(from_list(items));
        },
        JsonV::Obj(root) => {
            let keys = sorted_keys(holder(root));
            lemma_members_are_normal(holder(root), keys);
            lemma_settled_is_as_read(from_members(holder(root), keys));
        },
        _ => {
            assert(collapsed(read_store(raw)) =~= read_store(raw));
        },
    }
}

/// A connector keeps its normal form with members changed that the form does not speak of.
#[verifier::spinoff_prover]
proof fn lemma_normal_with_other_members(e: EntryV, m: ObjV)
    requires
        is_normal(e),
        m.contains_key("revoked"@),
        forall|k: Text|
            k != "revoked"@ && k != "updated_at"@ && k != "session_hash"@ && k
                != "session_bound_at"@ && k != "binding_code_hash"@ && k != "binding_expires_at"@
                ==> (m.contains_key(k) <==> e.item.contains_key(k)) && m[k] == #[trigger] e.item[k],
    ensures
        is_normal(EntryV { id: e.id, item: m }),
{
    lemma_entry_keys();
    lemma_keys();
    lemma_normal_is_in_form(e.id, JsonV::Obj(e.item));
    lemma_normal_id(e);
    let n = e.item;
    assert("connector_id"@[0] == 'c' && "session_hash"@[0] == 's') by {
        reveal_strlit("connector_id");
        reveal_strlit("session_hash");
    }
    assert(n["connector_id"@] == m["connector_id"@]);
    assert(n["group_id"@] == m["group_id"@]);
    assert(n["actor_id"@] == m["actor_id"@]);
    assert(n["kind"@] == m["kind"@]);
    assert(n["secret"@] == m["secret"@]);
    assert(n["secret_hash"@] == m["secret_hash"@]);
    assert(n["secret_preview"@] == m["secret_preview"@]);
    lemma_in_form_is_normal(e.id, m);
}

proof fn lemma_normal_after_change(e: EntryV, code: Text, expires: Text, session: Text, now: Text)
    requires
        is_normal(e),
    ensures
        is_normal(EntryV { id: e.id, item: with_code(e.item, code, expires, now) }),
        is_normal(EntryV { id: e.id, item: bound_item(e.item, session, now) }),
        is_normal(EntryV { id: e.id, item: revoked_at(e.item, now) }),
{
    lemma_entry_keys();
    lemma_keys();
    lemma_normal_is_in_form(e.id, JsonV::Obj(e.item));
    lemma_normal_id(e);
    lemma_normal_with_other_members(e, with_code(e.item, code, expires, now));
    lemma_normal_with_other_members(e, bound_item(e.item, session, now));
    lemma_normal_with_other_members(e, revoked_at(e.item, now));
}

proof fn lemma_revoked_where_is_normal(s: Seq<EntryV>, p: spec_fn(EntryV) -> bool, now: Text)
    requires
        is_as_read(s),
    ensures
        sound(revoked_where(s, p, now)),
        forall|i: int|
            0 <= i < s.len() ==> is_normal(#[trigger] revoked_where(s, p, now)[i]),
{
    let t = revoked_where(s, p, now);
    assert forall|i: int, j: int| 0 <= i < j < t.len() implies #[trigger] before(
        t[i].id,
        #[trigger] t[j].id,
    ) by {
        assert(before(s[i].id, s[j].id));
    }
    assert forall|i: int| 0 <= i < s.len() implies is_normal(#[trigger] t[i]) by {
        lemma_normal_after_change(s[i], now, now, now, now);
    }
}

/// Every change keeps a store as a read one is: issuing a code, binding a conversation, revoking a
/// connector, and retiring any of them.
pub proof fn a_changed_store_is_as_read(
    s: Seq<EntryV>,
    e: EntryV,
    p: spec_fn(EntryV) -> bool,
    code: Text,
    expires: Text,
    session: Text,
    now: Text,
)
    requires
        is_as_read(s),
        s.contains(e),
    ensures
        is_as_read(collapsed(stored(s, e.id, with_code(e.item, code, expires, now)))),
        is_as_read(collapsed(stored(s, e.id, bound_item(e.item, session, now)))),
        is_as_read(collapsed(stored(s, e.id, revoked_at(e.item, now)))),
        is_as_read(collapsed(revoked_where(s, p, now))),
{
    assert(is_normal(e));
    lemma_normal_after_change(e, code, expires, session, now);
    lemma_all_normal_after_storing(s, e.id, with_code(e.item, code, expires, now));
    lemma_settled_is_as_read(stored(s, e.id, with_code(e.item, code, expires, now)));
    lemma_all_normal_after_storing(s, e.id, bound_item(e.item, session, now));
    lemma_settled_is_as_read(stored(s, e.id, bound_item(e.item, session, now)));
    lemma_all_normal_after_storing(s, e.id, revoked_at(e.item, now));
    lemma_settled_is_as_read(stored(s, e.id, revoked_at(e.item, now)));
    lemma_revoked_where_is_normal(s, p, now);
    lemma_settled_is_as_read(revoked_where(s, p, now));
}

/// A store stays as a read one is with a connector taken in that replaces the one in use.
pub proof fn a_replaced_connector_keeps_the_store_as_read(
    s: Seq<EntryV>,
    connector: JsonV,
    now: Text,
)
    requires
        is_as_read(s),
    ensures
        offered(connector) matches Ok(item) ==> is_as_read(replaced(s, item, now)),
{
    if let Ok(item) = offered(connector) {
        let id = connector.at("connector_id"@).text()->0;
        let p = |e: EntryV| in_use_for(e, item);
        lemma_normal_again(id, connector);
        lemma_normal_is_in_form(id, connector);
        lemma_revoked_where_is_normal(s, p, now);
        let t = revoked_where(s, p, now);
        lemma_all_normal_after_storing(t, trimmed(id), item);
        assert(text_or_empty(item, "connector_id"@) == trimmed(id));
        lemma_settled_is_as_read(stored(t, trimmed(id), item));
    }
}

/// Revoking a connector ends its conversation: the conversation is found no more.
pub proof fn revoking_ends_the_conversation(s: Seq<EntryV>, e: EntryV, session: Text, now: Text)
    requires
        sound(s),
        s.contains(e),
        holds_hash(e, "session_hash"@, hex_digest(trimmed(session))),
        by_secret(s, "session_hash"@, session) == Ok::<Option<ObjV>, FailureV>(Some(e.item)),
    ensures
        by_secret(
            collapsed(stored(s, e.id, revoked_at(e.item, now))),
            "session_hash"@,
            session,
        ) == Ok::<Option<ObjV>, FailureV>(None),
{
    lemma_keys();
    let h = hex_digest(trimmed(session));
    let p = |x: EntryV| holds_hash(x, "session_hash"@, h);
    let gone = EntryV { id: e.id, item: revoked_at(e.item, now) };
    let u = stored(s, e.id, gone.item);
    let t = collapsed(u);
    lemma_stored(s, e.id, gone.item);
    lemma_revoked_at(e.item, now);
    crate::lists::lemma_selection(s, p);
    crate::lists::lemma_selection(t, p);
    if some_match(t, p) {
        let k = choose|k: int| 0 <= k < t.len() && p(#[trigger] t[k]);
        settling_brings_nothing_back(u, k);
        lemma_retired(u[k]);
        assert(t[k] == settled(u, u[k]));
        assert(u.contains(u[k]));
        assert(u[k] != gone);
        assert(s.contains(u[k]));
        let f = s.filter(p);
        assert(f.contains(e));
        assert(f.contains(u[k]));
        let i = choose|i: int| 0 <= i < f.len() && f[i] == e;
        let j = choose|j: int| 0 <= j < f.len() && f[j] == u[k];
        assert(i == 0 && j == 0);
    }
}

/// A bound conversation follows its actor: while the actor may not converse, looking the
/// conversation up is not permitted, and once it may again, the connector is found.
pub proof fn a_conversation_follows_its_actor(
    s: Seq<EntryV>,
    session: Text,
    item: ObjV,
    without: GroupV,
    with: GroupV,
)
    requires
        by_secret(s, "session_hash"@, session) == Ok::<Option<ObjV>, FailureV>(Some(item)),
        !may_converse(without, text_or_empty(item, "actor_id"@)),
        may_converse(with, text_or_empty(item, "actor_id"@)),
    ensures
        session_route(s, session, Ok(without)) == Err::<Option<ObjV>, FailureV>(
            failed(FailureKind::PermissionDenied, "connector_actor_unavailable"@),
        ),
        session_route(s, session, Ok(with)) == Ok::<Option<ObjV>, FailureV>(Some(item)),
{
    let h = hex_digest(trimmed(session));
    let p = |x: EntryV| holds_hash(x, "session_hash"@, h);
    crate::lists::lemma_selection(s, p);
    let f = s.filter(p);
    assert(f.contains(f[0]));
    assert(usable(item));
}

} // verus!
