//! How long a binding lasts: a code that was used stays used, and its conversation stays bound,
//! through every later change of the store that leaves the connector's binding alone.

use crate::connectors::binding::{
    actor_check, bindable, bound_item, by_secret, holds_hash, issuable, session_route, with_code,
};
use crate::connectors::entry::{rank_is_a_total_order, EntryV};
use crate::connectors::laws::{
    is_as_read, is_normal, keeps_members, lemma_found_in, lemma_keys, lemma_normal_entry,
    lemma_retired, lemma_revoked_where_sound, lemma_take_over_keeps, lemma_two_matches,
    one_connector_in_use_for_each_actor,
};
use crate::connectors::merge::{all_taken_over, merged};
use crate::connectors::ops::{
    offered, put_back, replaced, revoked_at, revoked_where, serves, serves_group,
};
use crate::connectors::store::{
    collapsed, found, is_current, lemma_collapse_is_sound, lemma_found, lemma_stored, settled,
    sound, stored,
};
use crate::failure::{failed, FailureKind, FailureV};
use crate::json::{or_empty, text_field, text_or_empty, JsonV, ObjV};
use crate::lists::{lemma_selection, some_match};
use crate::model::GroupV;
use crate::relay::ids::hex_digest;
use crate::text::{trimmed, Text};
use crate::time::Instant;
use vstd::prelude::*;

verus! {

/// A change of the store.
pub enum Change {
    /// A code is issued to a connector.
    Issue(Text, Result<GroupV, FailureV>, Text, Text, Text),
    /// A conversation is bound to a connector.
    Bind(Text, Text, Text, Result<GroupV, FailureV>, Instant),
    /// A connector is revoked.
    Revoke(Text, Text),
    /// The connectors of an actor are retired.
    RetireActor(Text, Text, Text),
    /// The connectors of a group are retired.
    RetireGroup(Text, Text),
    /// A new connector takes the place of the one in use.
    Replace(JsonV, Text),
    /// Connectors are put back.
    Restore(Seq<JsonV>),
    /// A connector is changed in place.
    Update(Text, ObjV),
    /// Connectors of older settings are brought in.
    Merge(Seq<EntryV>),
}

/// The store behind a change; none where the change is refused.
pub open spec fn after(s: Seq<EntryV>, c: Change) -> Option<Seq<EntryV>> {
    match c {
        Change::Issue(id, group, code, expires, now) => match issuable(s, id, group) {
            Ok(item) => Some(
                collapsed(stored(s, trimmed(id), with_code(item, code, expires, now))),
            ),
            Err(_) => None,
        },
        Change::Bind(id, code, session, group, now) => match bindable(
            s,
            id,
            code,
            session,
            group,
            now,
        ) {
            Ok(item) => Some(
                collapsed(stored(s, trimmed(id), bound_item(item, trimmed(session), now.text()))),
            ),
            Err(_) => None,
        },
        Change::Revoke(id, now) => Some(
            collapsed(
                match found(s, id) {
                    Some(e) => stored(s, id, revoked_at(e.item, now)),
                    None => s,
                },
            ),
        ),
        Change::RetireActor(group_id, actor_id, now) => Some(
            collapsed(revoked_where(s, |e: EntryV| serves(e, group_id, actor_id), now)),
        ),
        Change::RetireGroup(group_id, now) => Some(
            collapsed(revoked_where(s, |e: EntryV| serves_group(e, group_id), now)),
        ),
        Change::Replace(connector, now) => match offered(connector) {
            Ok(item) => Some(replaced(s, item, now)),
            Err(_) => None,
        },
        Change::Restore(entries) => match put_back(s, entries) {
            Ok(t) => Some(
                if entries.len() == 0 {
                    s
                } else {
                    collapsed(t)
                },
            ),
            Err(_) => None,
        },
        Change::Update(id, item) => Some(
            collapsed(
                match found(s, id) {
                    Some(_) => stored(s, id, item),
                    None => s,
                },
            ),
        ),
        Change::Merge(imported) => Some(merged(s, imported)),
    }
}

/// A binding: the connector, the digest of the code that was used for it, and the digest of the
/// conversation.
pub struct Binding {
    pub id: Text,
    pub code: Text,
    pub session: Text,
}

/// Whether an entry is the connector in use of a binding, with no code left to use.
pub open spec fn is_bound(e: EntryV, b: Binding) -> bool {
    &&& e.id == b.id
    &&& e.routed()
    &&& e.item.contains_key("revoked"@)
    &&& holds_hash(e, "session_hash"@, b.session)
    &&& text_field(e.item, "binding_code_hash"@) == Some(""@)
}

/// Whether another connector stays away from a binding: it is not in use for the same actor, and
/// holds neither the conversation nor the code.
pub open spec fn stays_away(x: EntryV, e: EntryV, b: Binding) -> bool {
    &&& !(x.active() && x.same_route(e))
    &&& !holds_hash(x, "session_hash"@, b.session)
    &&& !holds_hash(x, "binding_code_hash"@, b.code)
}

/// Whether all other connectors stay away from a binding.
pub open spec fn is_alone(s: Seq<EntryV>, e: EntryV, b: Binding) -> bool {
    forall|x: EntryV| #[trigger] s.contains(x) && x.id != b.id ==> stays_away(x, e, b)
}

/// Whether a store holds a binding.
pub open spec fn is_held(s: Seq<EntryV>, b: Binding) -> bool {
    &&& sound(s)
    &&& b.code.len() > 0
    &&& found(s, b.id) matches Some(e) && is_bound(e, b) && is_alone(s, e, b)
}

/// Whether a change leaves a binding alone: it issues no code to the connector, nor the same code
/// to another, it does not revoke, replace or bind the connector again, and it brings in no
/// connector of the same actor or with the same conversation or code.
pub open spec fn spares(s: Seq<EntryV>, c: Change, b: Binding) -> bool {
    let e = found(s, b.id)->0;
    match c {
        Change::Issue(id, _, code, _, _) => trimmed(id) != b.id && hex_digest(code) != b.code,
        Change::Bind(id, _, _, _, _) => trimmed(id) != b.id,
        Change::Revoke(id, _) => id != b.id,
        Change::RetireActor(group_id, actor_id, _) => !serves(e, group_id, actor_id),
        Change::RetireGroup(group_id, _) => !serves_group(e, group_id),
        Change::Replace(connector, _) => offered(connector) matches Ok(item) ==> {
            let x = EntryV { id: text_or_empty(item, "connector_id"@), item };
            x.id != b.id && !x.same_route(e) && stays_away(x, e, b)
        },
        Change::Restore(entries) => forall|i: int|
            #![trigger entries[i]]
            0 <= i < entries.len() ==> (offered(entries[i]) matches Ok(item) ==> {
                let x = EntryV { id: or_empty(entries[i].at("connector_id"@).text()), item };
                x.id != b.id && stays_away(x, e, b)
            }),
        Change::Update(id, item) => {
            let x = EntryV { id, item };
            if id == b.id {
                is_bound(x, b) && x.same_route(e)
            } else {
                stays_away(x, e, b)
            }
        },
        Change::Merge(imported) => forall|x: EntryV| #[trigger]
            all_taken_over(s, imported).contains(x) && x.id != b.id ==> stays_away(x, e, b),
    }
}

/// The store behind changes; none where one of them is refused.
pub open spec fn after_all(s: Seq<EntryV>, all: Seq<Change>) -> Option<Seq<EntryV>>
    decreases all.len(),
{
    if all.len() == 0 {
        Some(s)
    } else {
        match after_all(s, all.drop_last()) {
            Some(t) => after(t, all.last()),
            None => None,
        }
    }
}

/// Whether each of the changes leaves a binding alone.
pub open spec fn all_spare(s: Seq<EntryV>, all: Seq<Change>, b: Binding) -> bool
    decreases all.len(),
{
    all.len() == 0 || (all_spare(s, all.drop_last(), b) && (after_all(s, all.drop_last()) matches Some(
        t,
    ) ==> spares(t, all.last(), b)))
}

/// Settling a store leaves a connector in use in its place that no other one in use competes with.
proof fn lemma_settled_holds(u: Seq<EntryV>, e: EntryV, b: Binding)
    requires
        sound(u),
        b.code.len() > 0,
        u.contains(e),
        is_bound(e, b),
        is_alone(u, e, b),
    ensures
        is_held(collapsed(u), b),
        found(collapsed(u), b.id) == Some(e),
{
    let c = collapsed(u);
    let rival = |other: EntryV| other.active() && other.same_route(e) && e.outranked_by(other);
    lemma_found(u, e);
    if some_match(u, rival) {
        let k = choose|k: int| 0 <= k < u.len() && rival(#[trigger] u[k]);
        assert(u.contains(u[k]));
        if u[k].id == b.id {
            lemma_found(u, u[k]);
            rank_is_a_total_order(e, e, e);
        }
    }
    assert(is_current(u, e));
    let i = choose|i: int| 0 <= i < u.len() && u[i] == e;
    assert(c[i] == settled(u, e));
    assert(c.contains(e));
    lemma_collapse_is_sound(u);
    lemma_found(c, e);
    assert forall|x: EntryV| #[trigger] c.contains(x) && x.id != b.id implies stays_away(
        x,
        e,
        b,
    ) by {
        let k = choose|k: int| 0 <= k < c.len() && c[k] == x;
        assert(c[k] == settled(u, u[k]));
        assert(u.contains(u[k]));
        lemma_retired(u[k]);
        lemma_keys();
    }
}

/// A binding outlives a change of another connector.
proof fn lemma_held_beside(s: Seq<EntryV>, id: Text, item: ObjV, b: Binding)
    requires
        is_held(s, b),
        id != b.id,
        stays_away(EntryV { id, item }, found(s, b.id)->0, b),
    ensures
        is_held(collapsed(stored(s, id, item)), b),
        found(collapsed(stored(s, id, item)), b.id) == found(s, b.id),
        is_held(stored(s, id, item), b),
        found(stored(s, id, item), b.id) == found(s, b.id),
{
    let e = found(s, b.id)->0;
    let u = stored(s, id, item);
    lemma_found_in(s, b.id);
    lemma_stored(s, id, item);
    assert(u.contains(e));
    lemma_found(u, e);
    lemma_settled_holds(u, e, b);
}

proof fn lemma_held_beside_revoked(
    s: Seq<EntryV>,
    p: spec_fn(EntryV) -> bool,
    now: Text,
    b: Binding,
)
    requires
        is_held(s, b),
        !p(found(s, b.id)->0),
    ensures
        is_held(revoked_where(s, p, now), b),
        found(revoked_where(s, p, now), b.id) == found(s, b.id),
        is_held(collapsed(revoked_where(s, p, now)), b),
{
    lemma_keys();
    let e = found(s, b.id)->0;
    let u = revoked_where(s, p, now);
    lemma_found_in(s, b.id);
    lemma_revoked_where_sound(s, p, now);
    let i = choose|i: int| 0 <= i < s.len() && s[i] == e;
    assert(u[i] == e);
    assert(u.contains(e));
    lemma_found(u, e);
    assert forall|x: EntryV| #[trigger] u.contains(x) && x.id != b.id implies stays_away(
        x,
        e,
        b,
    ) by {
        let k = choose|k: int| 0 <= k < u.len() && u[k] == x;
        assert(s.contains(s[k]));
        assert(stays_away(s[k], e, b));
    }
    lemma_settled_holds(u, e, b);
}

proof fn lemma_held_when_put_back(s: Seq<EntryV>, entries: Seq<JsonV>, b: Binding)
    requires
        is_held(s, b),
        spares(s, Change::Restore(entries), b),
        put_back(s, entries) is Ok,
    ensures
        is_held(put_back(s, entries)->Ok_0, b),
        found(put_back(s, entries)->Ok_0, b.id) == found(s, b.id),
    decreases entries.len(),
{
    if entries.len() > 0 {
        let d = entries.drop_last();
        assert forall|i: int|
            #![trigger d[i]]
            0 <= i < d.len() implies (offered(d[i]) matches Ok(item) ==> {
            let x = EntryV { id: or_empty(d[i].at("connector_id"@).text()), item };
            x.id != b.id && stays_away(x, found(s, b.id)->0, b)
        }) by {
            assert(d[i] == entries[i]);
        }
        lemma_held_when_put_back(s, d, b);
        let last = entries[entries.len() - 1];
        let item = offered(last)->Ok_0;
        lemma_held_beside(
            put_back(s, d)->Ok_0,
            or_empty(last.at("connector_id"@).text()),
            item,
            b,
        );
    }
}

/// A binding outlives a change that leaves it alone.
proof fn lemma_held_after(s: Seq<EntryV>, c: Change, b: Binding)
    requires
        is_held(s, b),
        spares(s, c, b),
    ensures
        after(s, c) matches Some(t) ==> is_held(t, b),
{
    lemma_keys();
    let e = found(s, b.id)->0;
    lemma_found_in(s, b.id);
    match c {
        Change::Issue(id, group, code, expires, now) => {
            if let Ok(item) = issuable(s, id, group) {
                let x = found(s, trimmed(id))->0;
                lemma_found_in(s, trimmed(id));
                assert(stays_away(x, e, b));
                lemma_held_beside(s, trimmed(id), with_code(item, code, expires, now), b);
            }
        },
        Change::Bind(id, code, session, group, now) => {
            if let Ok(item) = bindable(s, id, code, session, group, now) {
                let x = found(s, trimmed(id))->0;
                lemma_found_in(s, trimmed(id));
                assert(stays_away(x, e, b));
                let h = hex_digest(trimmed(session));
                let other = |y: EntryV| y.id != trimmed(id) && holds_hash(y, "session_hash"@, h);
                let k = choose|k: int| 0 <= k < s.len() && s[k] == e;
                assert(!other(s[k]));
                lemma_held_beside(
                    s,
                    trimmed(id),
                    bound_item(item, trimmed(session), now.text()),
                    b,
                );
            }
        },
        Change::Revoke(id, now) => {
            match found(s, id) {
                Some(x) => {
                    lemma_held_beside(s, id, revoked_at(x.item, now), b);
                },
                None => {
                    lemma_settled_holds(s, e, b);
                },
            }
        },
        Change::RetireActor(group_id, actor_id, now) => {
            lemma_held_beside_revoked(s, |x: EntryV| serves(x, group_id, actor_id), now, b);
        },
        Change::RetireGroup(group_id, now) => {
            lemma_held_beside_revoked(s, |x: EntryV| serves_group(x, group_id), now, b);
        },
        Change::Replace(connector, now) => {
            if let Ok(item) = offered(connector) {
                let p = |x: EntryV| crate::connectors::ops::in_use_for(x, item);
                let x = EntryV { id: text_or_empty(item, "connector_id"@), item };
                assert(!p(e));
                lemma_held_beside_revoked(s, p, now, b);
                lemma_held_beside(revoked_where(s, p, now), x.id, item, b);
            }
        },
        Change::Restore(entries) => {
            if put_back(s, entries) is Ok {
                lemma_held_when_put_back(s, entries, b);
                let t = put_back(s, entries)->Ok_0;
                lemma_found_in(t, b.id);
                lemma_settled_holds(t, e, b);
            }
        },
        Change::Update(id, item) => {
            if found(s, id) is None {
                lemma_settled_holds(s, e, b);
            } else if id == b.id {
                let x = EntryV { id, item };
                let u = stored(s, id, item);
                lemma_stored(s, id, item);
                assert(u.contains(x));
                lemma_settled_holds(u, x, b);
            } else {
                lemma_held_beside(s, id, item, b);
            }
        },
        Change::Merge(imported) => {
            let u = all_taken_over(s, imported);
            lemma_take_over_keeps(s, imported, e);
            let x = choose|x: EntryV| #[trigger]
                u.contains(x) && x.id == e.id && keeps_members(x.item, e.item);
            assert(e.item.contains_key("session_hash"@));
            assert(e.item.contains_key("binding_code_hash"@));
            assert(e.item.contains_key("kind"@));
            assert(e.item.contains_key("group_id"@));
            assert(e.item.contains_key("actor_id"@));
            assert(is_bound(x, b));
            assert(x.same_route(e));
            lemma_settled_holds(u, x, b);
        },
    }
}

/// A binding lasts through any changes that leave it alone.
pub proof fn a_binding_lasts(s: Seq<EntryV>, all: Seq<Change>, b: Binding)
    requires
        is_held(s, b),
        all_spare(s, all, b),
    ensures
        after_all(s, all) matches Some(t) ==> is_held(t, b),
    decreases all.len(),
{
    if all.len() > 0 {
        a_binding_lasts(s, all.drop_last(), b);
        if let Some(t) = after_all(s, all.drop_last()) {
            lemma_held_after(t, all.last(), b);
        }
    }
}

/// What a binding gives, for as long as a store holds it: its code is found nowhere and binds
/// nothing, no other code binds to its connector, and its conversation is found.
proof fn lemma_held_binding(
    s: Seq<EntryV>,
    b: Binding,
    id: Text,
    code: Text,
    session: Text,
    again: Text,
    other_session: Text,
    group: Result<GroupV, FailureV>,
    now: Instant,
)
    requires
        is_held(s, b),
        trimmed(id) == b.id,
        hex_digest(trimmed(code)) == b.code,
        hex_digest(trimmed(session)) == b.session,
        trimmed(session).len() > 0,
        hex_digest(trimmed(again)).len() > 0,
    ensures
        found(s, b.id) matches Some(e) && {
            &&& by_secret(s, "session_hash"@, session) == Ok::<Option<ObjV>, FailureV>(
                Some(e.item),
            )
            &&& by_secret(s, "binding_code_hash"@, code) == Ok::<Option<ObjV>, FailureV>(None)
            &&& actor_check(e.item, group) is Ok ==> session_route(s, session, group) == Ok::<
                Option<ObjV>,
                FailureV,
            >(Some(e.item))
            &&& bindable(s, id, again, other_session, group, now) is Err
            &&& actor_check(e.item, group) is Ok && trimmed(again).len() > 0 && trimmed(
                other_session,
            ).len() > 0 ==> bindable(s, id, again, other_session, group, now) == Err::<
                ObjV,
                FailureV,
            >(failed(FailureKind::InvalidInput, "session_binding_code_invalid"@))
        },
{
    lemma_keys();
    let e = found(s, b.id)->0;
    lemma_found_in(s, b.id);
    let p = |x: EntryV| holds_hash(x, "session_hash"@, b.session);
    let q = |x: EntryV| holds_hash(x, "binding_code_hash"@, b.code);
    lemma_selection(s, p);
    lemma_selection(s, q);
    if some_match(s, q) {
        let k = choose|k: int| 0 <= k < s.len() && q(#[trigger] s[k]);
        assert(s.contains(s[k]));
        if s[k].id == b.id {
            lemma_found(s, s[k]);
        }
    }
    assert forall|i: int, j: int| 0 <= i < j < s.len() && p(#[trigger] s[i]) implies !p(
        #[trigger] s[j],
    ) by {
        assert(s.contains(s[i]) && s.contains(s[j]));
        assert(crate::order::before(s[i].id, s[j].id));
        crate::order::strings_are_totally_ordered(s[i].id, s[i].id, s[i].id);
    }
    let f = s.filter(p);
    assert(f.contains(e));
    if f.len() >= 2 {
        lemma_two_matches(s, p);
    }
    assert(f.len() == 1);
    assert(f[0] == e);
}

/// A code binds at most once, and its conversation stays bound. After a conversation was bound with
/// a code that no other connector holds, and any changes of the store that leave that binding alone,
/// the code is found nowhere, no code binds to the connector, which is refused as an invalid code
/// where the actor may converse, and the conversation is found under its connector.
pub proof fn a_used_code_stays_used_and_its_conversation_bound(
    s: Seq<EntryV>,
    id: Text,
    code: Text,
    session: Text,
    group: Result<GroupV, FailureV>,
    now: Instant,
    all: Seq<Change>,
    again: Text,
    other_session: Text,
    later_group: Result<GroupV, FailureV>,
    later: Instant,
)
    requires
        is_as_read(s),
        bindable(s, id, code, session, group, now) is Ok,
        !some_match(
            s,
            |e: EntryV|
                e.id != trimmed(id) && holds_hash(
                    e,
                    "binding_code_hash"@,
                    hex_digest(trimmed(code)),
                ),
        ),
        all_spare(
            after(s, Change::Bind(id, code, session, group, now))->0,
            all,
            binding(id, code, session),
        ),
    ensures
        hex_digest(trimmed(again)).len() > 0 && hex_digest(trimmed(code)).len() > 0 ==> (after_all(
            after(s, Change::Bind(id, code, session, group, now))->0,
            all,
        ) matches Some(t) ==> found(t, trimmed(id)) matches Some(e) && {
            &&& by_secret(t, "session_hash"@, session) == Ok::<Option<ObjV>, FailureV>(
                Some(e.item),
            )
            &&& by_secret(t, "binding_code_hash"@, code) == Ok::<Option<ObjV>, FailureV>(None)
            &&& actor_check(e.item, later_group) is Ok ==> session_route(t, session, later_group)
                == Ok::<Option<ObjV>, FailureV>(Some(e.item))
            &&& bindable(t, id, again, other_session, later_group, later) is Err
            &&& actor_check(e.item, later_group) is Ok && trimmed(again).len() > 0 && trimmed(
                other_session,
            ).len() > 0 ==> bindable(t, id, again, other_session, later_group, later) == Err::<
                ObjV,
                FailureV,
            >(failed(FailureKind::InvalidInput, "session_binding_code_invalid"@))
        }),
{
    if hex_digest(trimmed(again)).len() > 0 && hex_digest(trimmed(code)).len() > 0 {
        let b = binding(id, code, session);
        lemma_binding_begins(s, id, code, session, group, now);
        let bound = after(s, Change::Bind(id, code, session, group, now))->0;
        a_binding_lasts(bound, all, b);
        if let Some(t) = after_all(bound, all) {
            lemma_held_binding(
                t,
                b,
                id,
                code,
                session,
                again,
                other_session,
                later_group,
                later,
            );
        }
    }
}

/// The binding of a conversation to a connector with a code.
pub open spec fn binding(id: Text, code: Text, session: Text) -> Binding {
    Binding {
        id: trimmed(id),
        code: hex_digest(trimmed(code)),
        session: hex_digest(trimmed(session)),
    }
}

/// Binding a conversation brings a binding into the store.
proof fn lemma_binding_begins(
    s: Seq<EntryV>,
    id: Text,
    code: Text,
    session: Text,
    group: Result<GroupV, FailureV>,
    now: Instant,
)
    requires
        is_as_read(s),
        bindable(s, id, code, session, group, now) is Ok,
        hex_digest(trimmed(code)).len() > 0,
        !some_match(
            s,
            |e: EntryV|
                e.id != trimmed(id) && holds_hash(
                    e,
                    "binding_code_hash"@,
                    hex_digest(trimmed(code)),
                ),
        ),
    ensures
        after(s, Change::Bind(id, code, session, group, now)) matches Some(t) && is_held(
            t,
            binding(id, code, session),
        ),
{
    lemma_keys();
    let b = binding(id, code, session);
    let item = bindable(s, id, code, session, group, now)->Ok_0;
    let e = found(s, b.id)->0;
    lemma_found_in(s, b.id);
    let x = EntryV { id: b.id, item: bound_item(item, trimmed(session), now.text()) };
    let u = stored(s, b.id, x.item);
    lemma_stored(s, b.id, x.item);
    assert(u.contains(x));
    assert(is_normal(e));
    lemma_normal_entry(e);
    assert(is_bound(x, b));
    let taken = |y: EntryV| y.id != b.id && holds_hash(y, "session_hash"@, b.session);
    let known = |y: EntryV| y.id != b.id && holds_hash(y, "binding_code_hash"@, b.code);
    assert forall|y: EntryV| #[trigger] u.contains(y) && y.id != b.id implies stays_away(
        y,
        x,
        b,
    ) by {
        assert(s.contains(y));
        let k = choose|k: int| 0 <= k < s.len() && s[k] == y;
        assert(!taken(s[k]));
        assert(!known(s[k]));
        if y.active() && y.same_route(x) {
            assert(y.same_route(e));
            assert(collapsed(s) == s);
            one_connector_in_use_for_each_actor(s, y, e);
        }
    }
    lemma_settled_holds(u, x, b);
}

} // verus!
