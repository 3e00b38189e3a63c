//! What a decision covers and what it leaves, told of the entries of the ledger themselves: the
//! sources that a request stands for, the handoffs it takes along, and whose turn it is.

use crate::connectors::outcomes::{is_the_actor, lemma_first_actor};
use crate::json::{JsonV, ObjV, text_array, text_field};
use crate::lists::{
    lemma_collected, lemma_first_at, lemma_first_match, lemma_first_where, lemma_selection, overlaps,
    some_match,
};
use crate::model::{ErrV, EventV, GroupState, GroupV};
use crate::order::{
    increasing, inserting_all_keeps_order, sorted_set, sorted_set_holds_the_same_texts_in_order,
};
use crate::relay::accept::acceptance;
use crate::relay::decide::{
    all_in, covering, is_same_decision, resolution, ResolutionV,
};
use crate::relay::facts::{
    covers_some, decides_some, delivery_state, escalated, handled, pending, unresolved,
};
use crate::relay::intent::IntentV;
use crate::relay::laws::lemma_with_open_sources;
use crate::relay::outcomes::{a_list_reads_as_its_texts, lists_text};
use crate::relay::recorded::is_the_entry;
use crate::relay::sources::{event_by_id, resolved, stand_for, stands_for, with_open_sources};
use crate::relay::state::{
    external_tasks, group_account, ids_of, intervention, open_active, open_escalated, review,
    targets_of, task_duty, user_tasks, work_items,
};
use crate::relay::work::{actor_work, blocked, live};
use crate::relay::status::{member_check};
use crate::relay::ids::{handoff_id_text, short_digest};
use crate::text::{joined, Text};
use vstd::prelude::*;

verus! {

/// The words of a responsibility differ.
pub(crate) proof fn lemma_duty_words()
    ensures
        "kind"@.len() == 4,
        "safe_to_idle"@.len() == 12,
        "responsibility"@.len() == 14,
        "responsibilities"@.len() == 16,
        "handoff_ids"@.len() == 11,
        "actor_ids"@.len() == 9,
        "reason"@.len() == 6,
        "tasks"@.len() == 5,
        "user_task_ids"@.len() == 13,
        "external_task_ids"@.len() == 17,
        "actor_work"@.len() == 10,
        "user_intervention"@.len() == 17,
        "waiting_responsibility"@.len() == 22,
        "none"@.len() == 4,
        "user"@.len() == 4,
        "external"@.len() == 8,
        "user_and_external"@.len() == 17,
        "user_pause"@.len() == 10,
        "foreman_review"@.len() == 14,
        "task_id"@.len() == 7,
        "actor_id"@.len() == 8,
        "waiting_on"@.len() == 10,
        "kind"@[0] == 'k',
        "none"@[0] == 'n',
        "user"@[0] == 'u',
        "responsibility"@[0] == 'r',
        "foreman_review"@[0] == 'f',
        "external_task_ids"@[0] == 'e',
        "user_intervention"@[0] == 'u',
        "user_and_external"@[0] == 'u',
        "actor_work"@[0] == 'a',
        "user_pause"@[0] == 'u',
        "waiting_on"@[0] == 'w',
        "user_intervention"@[5] == 'i',
        "user_and_external"@[5] == 'a',
        "external"@[0] == 'e',
        "actor_id"@[0] == 'a',
{
    reveal_strlit("kind");
    reveal_strlit("safe_to_idle");
    reveal_strlit("responsibility");
    reveal_strlit("responsibilities");
    reveal_strlit("handoff_ids");
    reveal_strlit("actor_ids");
    reveal_strlit("reason");
    reveal_strlit("tasks");
    reveal_strlit("user_task_ids");
    reveal_strlit("external_task_ids");
    reveal_strlit("actor_work");
    reveal_strlit("user_intervention");
    reveal_strlit("waiting_responsibility");
    reveal_strlit("none");
    reveal_strlit("user");
    reveal_strlit("external");
    reveal_strlit("user_and_external");
    reveal_strlit("user_pause");
    reveal_strlit("foreman_review");
    reveal_strlit("task_id");
    reveal_strlit("actor_id");
    reveal_strlit("waiting_on");
}

/// Whether an entry is a reminder of a decision.
pub open spec fn reminds(e: EventV) -> bool {
    e.kind == "chat.message"@ && text_field(e.data, "relay_kind"@) == Some("decision_reminder"@)
}

/// Whether an id that a request names stands for a source: itself where it is no reminder, and what
/// the reminder names where it is one.
pub open spec fn id_stands_for(events: Seq<EventV>, id: Text, source: Text) -> bool {
    exists|n: int| #[trigger]
        is_the_entry(events, n, id) && if reminds(events[n]) {
            lists_text(events[n].data, "relay_source_event_ids"@, source)
        } else {
            source == id
        }
}

/// Whether an id can be named: it is there, and is addressed to the one who decides if it is a
/// reminder.
pub open spec fn can_be_named(events: Seq<EventV>, addressed: Seq<Text>, id: Text) -> bool {
    exists|n: int| #[trigger]
        is_the_entry(events, n, id) && (reminds(events[n]) ==> addressed.contains(id))
}

proof fn lemma_entry(events: Seq<EventV>, id: Text)
    ensures
        forall|n: int| #[trigger]
            is_the_entry(events, n, id) ==> event_by_id(events, id) == Some(events[n]),
        event_by_id(events, id) matches Some(e) ==> exists|n: int| #[trigger]
            is_the_entry(events, n, id) && events[n] == e,
{
    let p = |e: EventV| e.id == id;
    let k = lemma_first_where(events, p);
    assert forall|n: int| #[trigger] is_the_entry(events, n, id) implies event_by_id(events, id)
        == Some(events[n]) by {
        lemma_first_at(events, p, n);
    }
    if event_by_id(events, id) is Some {
        assert(is_the_entry(events, k, id));
    }
}

proof fn lemma_stand_for(events: Seq<EventV>, addressed: Seq<Text>, actor_id: Text, ids: Seq<Text>)
    ensures
        stand_for(events, addressed, actor_id, ids) is Ok <==> forall|k: int|
            0 <= k < ids.len() ==> can_be_named(events, addressed, #[trigger] ids[k]),
        stand_for(events, addressed, actor_id, ids) matches Ok(all) ==> increasing(all) && forall|
            t: Text,
        | #[trigger]
            all.contains(t) <==> exists|k: int|
                0 <= k < ids.len() && id_stands_for(events, #[trigger] ids[k], t),
    decreases ids.len(),
{
    if ids.len() > 0 {
        let d = ids.drop_last();
        let id = ids.last();
        lemma_stand_for(events, addressed, actor_id, d);
        lemma_entry(events, id);
        assert(ids[ids.len() - 1] == id);
        assert(stands_for(events, addressed, actor_id, id) is Ok <==> can_be_named(
            events,
            addressed,
            id,
        ));
        if forall|k: int| 0 <= k < ids.len() ==> can_be_named(events, addressed, #[trigger] ids[k]) {
            assert forall|k: int| 0 <= k < d.len() implies can_be_named(
                events,
                addressed,
                #[trigger] d[k],
            ) by {
                assert(can_be_named(events, addressed, ids[k]));
            }
            assert(can_be_named(events, addressed, ids[ids.len() - 1]));
        }
        if stand_for(events, addressed, actor_id, ids) is Ok {
            assert forall|k: int| 0 <= k < ids.len() implies can_be_named(
                events,
                addressed,
                #[trigger] ids[k],
            ) by {
                if k < d.len() {
                    assert(d[k] == ids[k]);
                }
            }
            let known = stand_for(events, addressed, actor_id, d)->Ok_0;
            let more = stands_for(events, addressed, actor_id, id)->Ok_0;
            let all = stand_for(events, addressed, actor_id, ids)->Ok_0;
            inserting_all_keeps_order(known, more);
            assert forall|t: Text| #[trigger] more.contains(t) <==> id_stands_for(
                events,
                id,
                t,
            ) by {
                let n = choose|n: int| #[trigger]
                    is_the_entry(events, n, id) && events[n] == event_by_id(events, id)->0;
                a_list_reads_as_its_texts(events[n].data, "relay_source_event_ids"@, t);
                if more.contains(t) {
                    assert(is_the_entry(events, n, id));
                    assert(id_stands_for(events, id, t));
                }
                if id_stands_for(events, id, t) {
                    let m = choose|m: int| #[trigger]
                        is_the_entry(events, m, id) && if reminds(events[m]) {
                            lists_text(events[m].data, "relay_source_event_ids"@, t)
                        } else {
                            t == id
                        };
                    assert(events[m] == events[n]);
                    if !reminds(events[n]) {
                        assert(more[0] == t);
                    }
                }
            }
            assert forall|t: Text| #[trigger] all.contains(t) <==> exists|k: int|
                0 <= k < ids.len() && id_stands_for(events, #[trigger] ids[k], t) by {
                if known.contains(t) {
                    let k = choose|k: int| 0 <= k < d.len() && id_stands_for(events, #[trigger] d[k], t);
                    assert(ids[k] == d[k]);
                }
                if exists|k: int| 0 <= k < ids.len() && id_stands_for(events, #[trigger] ids[k], t) {
                    let k = choose|k: int|
                        0 <= k < ids.len() && id_stands_for(events, #[trigger] ids[k], t);
                    if k < d.len() {
                        assert(d[k] == ids[k]);
                    }
                }
            }
        }
    }
}

/// What a request names stands for its sources: a reminder for all that it reminds of, and anything
/// else for itself. What is not there, and a reminder of somebody else, is refused; and so is a
/// request that stands for nothing or for more than two hundred.
pub proof fn a_reminder_stands_for_what_it_reminds_of(
    events: Seq<EventV>,
    addressed: Seq<Text>,
    actor_id: Text,
    ids: Seq<Text>,
)
    ensures
        resolved(events, addressed, actor_id, ids) matches Ok(all) ==> {
            &&& 0 < all.len() <= 200
            &&& increasing(all)
            &&& forall|t: Text| #[trigger]
                all.contains(t) <==> exists|k: int|
                    0 <= k < ids.len() && id_stands_for(events, #[trigger] ids[k], t)
            &&& forall|k: int|
                0 <= k < ids.len() ==> can_be_named(events, addressed, #[trigger] ids[k])
        },
        (exists|k: int| 0 <= k < ids.len() && !can_be_named(events, addressed, #[trigger] ids[k]))
            ==> resolved(events, addressed, actor_id, ids) is Err,
{
    lemma_stand_for(events, addressed, actor_id, ids);
}

/// Whether an entry hands one of some sources to an actor.
pub open spec fn hands_over(e: EventV, to: Text, ids: Seq<Text>) -> bool {
    &&& e.kind == "coordination.handoff"@
    &&& text_field(e.data, "target_actor_id"@) == Some(to)
    &&& exists|t: Text| ids.contains(t) && #[trigger] lists_text(e.data, "source_event_ids"@, t)
}

/// Whether an entry is a decision on one of some sources.
pub open spec fn decides_one(e: EventV, ids: Seq<Text>) -> bool {
    &&& e.kind == "coordination.decision"@
    &&& exists|t: Text| ids.contains(t) && #[trigger] lists_text(e.data, "source_event_ids"@, t)
}

proof fn lemma_overlap(e: EventV, ids: Seq<Text>)
    ensures
        overlaps(e.strings("source_event_ids"@), ids) <==> exists|t: Text|
            ids.contains(t) && #[trigger] lists_text(e.data, "source_event_ids"@, t),
{
    let own = e.strings("source_event_ids"@);
    if overlaps(own, ids) {
        let k = choose|k: int| 0 <= k < own.len() && ids.contains(#[trigger] own[k]);
        assert(own.contains(own[k]));
        a_list_reads_as_its_texts(e.data, "source_event_ids"@, own[k]);
        assert(lists_text(e.data, "source_event_ids"@, own[k]));
    }
    if exists|t: Text| ids.contains(t) && #[trigger] lists_text(e.data, "source_event_ids"@, t) {
        let t = choose|t: Text|
            ids.contains(t) && #[trigger] lists_text(e.data, "source_event_ids"@, t);
        a_list_reads_as_its_texts(e.data, "source_event_ids"@, t);
        let k = choose|k: int| 0 <= k < own.len() && own[k] == t;
        assert(ids.contains(own[k]));
    }
}

/// A decision needs a handoff to the one who decides: without one that holds a source of it, it is
/// refused.
pub proof fn a_decision_needs_a_handoff(
    group_id: Text,
    events: Seq<EventV>,
    addressed: Seq<Text>,
    i: IntentV,
    ids: Seq<Text>,
)
    ensures
        (forall|n: int| 0 <= n < events.len() ==> !hands_over(#[trigger] events[n], i.by, ids)) ==> (
        resolution(group_id, events, addressed, i, ids) matches Err(e) && e.code
            == "relay_handoff_missing"@),
        resolution(group_id, events, addressed, i, ids) is Ok ==> exists|n: int|
            0 <= n < events.len() && hands_over(#[trigger] events[n], i.by, ids),
{
    let p = |e: EventV| covers_some(e, i.by, ids);
    lemma_selection(events, p);
    assert forall|n: int| 0 <= n < events.len() implies (p(#[trigger] events[n]) <==> hands_over(
        events[n],
        i.by,
        ids,
    )) by {
        lemma_overlap(events[n], ids);
    }
    if covering(events, i.by, ids).len() > 0 {
        let n = choose|n: int| 0 <= n < events.len() && p(#[trigger] events[n]);
        assert(hands_over(events[n], i.by, ids));
    }
}

/// Whether a recorded decision is the one that is asked for again: the same decision by the same
/// actor, with the same fingerprint where it has one.
pub open spec fn is_asked_again(e: EventV, i: IntentV) -> bool {
    &&& text_field(e.data, "decision"@) == Some(i.decision)
    &&& text_field(e.data, "by"@) == Some(i.by)
    &&& text_field(e.data, "request_fingerprint"@) matches Some(f) ==> f.len() == 0 || f
        == i.fingerprint
}

/// Where a source is decided already, the first decision on one of them counts: asked for again on
/// sources of its own it is replayed, and anything else is refused as a conflict.
pub proof fn a_decided_source_is_not_decided_again(
    group_id: Text,
    events: Seq<EventV>,
    addressed: Seq<Text>,
    i: IntentV,
    ids: Seq<Text>,
    n: int,
    m: int,
)
    requires
        0 <= m < events.len(),
        hands_over(events[m], i.by, ids),
        0 <= n < events.len(),
        decides_one(events[n], ids),
        forall|k: int| 0 <= k < n ==> !decides_one(#[trigger] events[k], ids),
    ensures
        ({
            let r = resolution(group_id, events, addressed, i, ids);
            let own = forall|k: int|
                0 <= k < ids.len() ==> lists_text(
                    events[n].data,
                    "source_event_ids"@,
                    #[trigger] ids[k],
                );
            &&& own && is_asked_again(events[n], i) ==> r == Ok::<ResolutionV, ErrV>(
                ResolutionV::Replay(events[n]),
            )
            &&& !(own && is_asked_again(events[n], i)) ==> (r matches Err(e) && e.code
                == "relay_decision_conflict"@)
        }),
{
    let p = |e: EventV| covers_some(e, i.by, ids);
    let q = |e: EventV| decides_some(e, ids);
    lemma_selection(events, p);
    lemma_overlap(events[m], ids);
    assert(p(events[m]));
    assert forall|k: int| 0 <= k < events.len() implies (q(#[trigger] events[k]) <==> decides_one(
        events[k],
        ids,
    )) by {
        lemma_overlap(events[k], ids);
    }
    assert forall|k: int| 0 <= k < n implies !q(#[trigger] events[k]) by {
        assert(!decides_one(events[k], ids));
    }
    lemma_first_at(events, q, n);
    let e = events[n];
    assert forall|k: int| 0 <= k < ids.len() implies (lists_text(
        e.data,
        "source_event_ids"@,
        #[trigger] ids[k],
    ) <==> e.strings("source_event_ids"@).contains(ids[k])) by {
        a_list_reads_as_its_texts(e.data, "source_event_ids"@, ids[k]);
    }
    assert(is_same_decision(e, i) <==> is_asked_again(e, i));
    if all_in(ids, e.strings("source_event_ids"@)) {
        assert forall|k: int| 0 <= k < ids.len() implies lists_text(
            e.data,
            "source_event_ids"@,
            #[trigger] ids[k],
        ) by {
            assert(e.strings("source_event_ids"@).contains(ids[k]));
        }
    } else {
        let k = choose|k: int|
            0 <= k < ids.len() && !e.strings("source_event_ids"@).contains(#[trigger] ids[k]);
        assert(!lists_text(e.data, "source_event_ids"@, ids[k]));
    }
}

proof fn lemma_only_open_sources(ids: Seq<Text>, handoffs: Seq<EventV>, events: Seq<EventV>)
    ensures
        forall|x: Text| #[trigger]
            with_open_sources(ids, handoffs, events).contains(x) ==> ids.contains(x) || exists|k: int|
                0 <= k < handoffs.len() && unresolved(events, #[trigger] handoffs[k]).contains(x),
    decreases handoffs.len(),
{
    if handoffs.len() == 0 {
        sorted_set_holds_the_same_texts_in_order(ids);
    } else {
        let d = handoffs.drop_last();
        lemma_only_open_sources(ids, d, events);
        lemma_with_open_sources(ids, d, events);
        inserting_all_keeps_order(
            with_open_sources(ids, d, events),
            unresolved(events, handoffs.last()),
        );
        assert forall|x: Text| #[trigger]
            with_open_sources(ids, handoffs, events).contains(x) implies ids.contains(x)
            || exists|k: int|
            0 <= k < handoffs.len() && unresolved(events, #[trigger] handoffs[k]).contains(x) by {
            if with_open_sources(ids, d, events).contains(x) {
                if !ids.contains(x) {
                    let k = choose|k: int|
                        0 <= k < d.len() && unresolved(events, #[trigger] d[k]).contains(x);
                    assert(handoffs[k] == d[k]);
                }
            } else {
                assert(unresolved(events, handoffs[handoffs.len() - 1]).contains(x));
            }
        }
    }
}

/// A new decision covers the sources it names, and along with them every other open source of the
/// handoffs that hold one of them; it takes along the handoffs to the one who decides that hold any
/// of these. None of the named sources is decided yet.
pub proof fn a_new_decision_takes_its_handoffs_along(
    group_id: Text,
    events: Seq<EventV>,
    addressed: Seq<Text>,
    i: IntentV,
    ids: Seq<Text>,
)
    ensures
        resolution(group_id, events, addressed, i, ids) matches Ok(ResolutionV::Fresh(s)) ==> {
            &&& forall|n: int| 0 <= n < events.len() ==> !decides_one(#[trigger] events[n], ids)
            &&& 0 < s.source_event_ids.len() <= 200
            &&& forall|t: Text| #[trigger]
                s.source_event_ids.contains(t) <==> ids.contains(t) || exists|n: int|
                    0 <= n < events.len() && hands_over(#[trigger] events[n], i.by, ids)
                        && unresolved(events, events[n]).contains(t)
            &&& forall|e: EventV| #[trigger]
                s.handoffs.contains(e) <==> events.contains(e) && hands_over(
                    e,
                    i.by,
                    s.source_event_ids,
                )
            &&& s.sources.len() == s.source_event_ids.len()
            &&& forall|h: Text| #[trigger]
                s.handoff_ids.contains(h) <==> exists|k: int|
                    0 <= k < s.handoffs.len() && text_field(
                        (#[trigger] s.handoffs[k]).data,
                        "handoff_id"@,
                    ) == Some(h)
        },
{
    if let Ok(ResolutionV::Fresh(s)) = resolution(group_id, events, addressed, i, ids) {
        let p = |e: EventV| covers_some(e, i.by, ids);
        let q = |e: EventV| decides_some(e, ids);
        let initial = covering(events, i.by, ids);
        lemma_first_match(events, q);
        assert forall|n: int| 0 <= n < events.len() implies !decides_one(#[trigger] events[n], ids) by {
            lemma_overlap(events[n], ids);
            assert(!q(events[n]));
        }
        lemma_selection(events, p);
        lemma_with_open_sources(ids, initial, events);
        lemma_only_open_sources(ids, initial, events);
        assert(s.source_event_ids == with_open_sources(ids, initial, events));
        assert forall|t: Text| #[trigger]
            s.source_event_ids.contains(t) <==> ids.contains(t) || exists|n: int|
                0 <= n < events.len() && hands_over(#[trigger] events[n], i.by, ids)
                    && unresolved(events, events[n]).contains(t) by {
            if exists|n: int|
                0 <= n < events.len() && hands_over(#[trigger] events[n], i.by, ids)
                    && unresolved(events, events[n]).contains(t) {
                let n = choose|n: int|
                    0 <= n < events.len() && hands_over(#[trigger] events[n], i.by, ids)
                        && unresolved(events, events[n]).contains(t);
                lemma_overlap(events[n], ids);
                assert(events.contains(events[n]) && p(events[n]));
                assert(initial.contains(events[n]));
                let k = choose|k: int| 0 <= k < initial.len() && initial[k] == events[n];
                assert(unresolved(events, initial[k]).contains(t));
            }
            if s.source_event_ids.contains(t) && !ids.contains(t) {
                let k = choose|k: int|
                    0 <= k < initial.len() && unresolved(events, #[trigger] initial[k]).contains(t);
                assert(initial.contains(initial[k]));
                let n = choose|n: int| 0 <= n < events.len() && events[n] == initial[k];
                lemma_overlap(events[n], ids);
                assert(hands_over(events[n], i.by, ids));
            }
        }
        let r = |e: EventV| covers_some(e, i.by, s.source_event_ids);
        lemma_selection(events, r);
        assert forall|e: EventV| #[trigger] s.handoffs.contains(e) <==> events.contains(e)
            && hands_over(e, i.by, s.source_event_ids) by {
            lemma_overlap(e, s.source_event_ids);
            assert(r(e) <==> hands_over(e, i.by, s.source_event_ids));
        }
        crate::relay::recorded::sources_are_addressed_to_the_decider(
            events,
            addressed,
            i.by,
            s.source_event_ids,
        );
        lemma_collected(s.handoffs, |e: EventV| text_field(e.data, "handoff_id"@));
    }
}

/// What is accepted of a decision is what it handles and the last record of its delivery to the
/// actor does not tell as accepted already; an actor that is not there is refused.
pub proof fn what_was_handled_is_accepted(
    g: GroupV,
    events: Seq<EventV>,
    actor_id: Text,
    source_ids: Seq<Text>,
    handoff_ids: Seq<Text>,
)
    ensures
        (forall|i: int| !#[trigger] is_the_actor(g.actors, i, actor_id)) ==> (acceptance(
            g,
            events,
            actor_id,
            source_ids,
            handoff_ids,
        ) matches Err(e) && e.code == "relay_actor_not_found"@),
        forall|i: int| #[trigger]
            is_the_actor(g.actors, i, actor_id) ==> (acceptance(
                g,
                events,
                actor_id,
                source_ids,
                handoff_ids,
            ) matches Ok(a) && a.created_at == g.actors[i].created_at && a.handled == handled(
                events,
                source_ids,
                handoff_ids,
            ) && forall|id: Text| #[trigger]
                a.accept.contains(id) <==> a.handled.contains(id) && delivery_state(
                    events,
                    actor_id,
                    id,
                ) != "accepted"@),
{
    lemma_first_actor(g.actors, actor_id);
    let all = handled(events, source_ids, handoff_ids);
    lemma_selection(all, |id: Text| !crate::relay::accept::is_accepted(events, actor_id, id));
}

/// Whether some handoff waits for a decision that the user does not have yet.
pub open spec fn waits_for_review(events: Seq<EventV>) -> bool {
    exists|n: int|
        0 <= n < events.len() && pending(events, #[trigger] events[n]) && !escalated(
            events,
            events[n].handoff(),
        )
}

/// Whether some handoff waits for a decision that the user has.
pub open spec fn waits_for_the_user(events: Seq<EventV>) -> bool {
    exists|n: int|
        0 <= n < events.len() && pending(events, #[trigger] events[n]) && escalated(
            events,
            events[n].handoff(),
        )
}

/// Whether some task is work of an actor.
pub open spec fn has_work(tasks: Seq<ObjV>) -> bool {
    exists|k: int| 0 <= k < tasks.len() && actor_work(#[trigger] tasks[k])
}

/// Whether some task is live.
pub open spec fn has_live(tasks: Seq<ObjV>) -> bool {
    exists|k: int| 0 <= k < tasks.len() && live(#[trigger] tasks[k])
}

proof fn lemma_open(events: Seq<EventV>)
    ensures
        open_active(events).len() > 0 <==> waits_for_review(events),
        open_escalated(events).len() > 0 <==> waits_for_the_user(events),
        events.filter(|e: EventV| pending(events, e)).len() > 0 <==> waits_for_review(events)
            || waits_for_the_user(events),
{
    let p = |e: EventV| pending(events, e);
    let open = events.filter(p);
    let a = |e: EventV| !escalated(events, e.handoff());
    let x = |e: EventV| escalated(events, e.handoff());
    lemma_selection(events, p);
    lemma_selection(open, a);
    lemma_selection(open, x);
    if open_active(events).len() > 0 {
        let k = choose|k: int| 0 <= k < open.len() && a(#[trigger] open[k]);
        assert(open.contains(open[k]));
        let n = choose|n: int| 0 <= n < events.len() && events[n] == open[k];
        assert(pending(events, events[n]));
    }
    if open_escalated(events).len() > 0 {
        let k = choose|k: int| 0 <= k < open.len() && x(#[trigger] open[k]);
        assert(open.contains(open[k]));
        let n = choose|n: int| 0 <= n < events.len() && events[n] == open[k];
        assert(pending(events, events[n]));
    }
    if waits_for_review(events) {
        let n = choose|n: int|
            0 <= n < events.len() && pending(events, #[trigger] events[n]) && !escalated(
                events,
                events[n].handoff(),
            );
        assert(events.contains(events[n]) && p(events[n]));
        assert(open.contains(events[n]));
        let k = choose|k: int| 0 <= k < open.len() && open[k] == events[n];
        assert(a(open[k]));
    }
    if waits_for_the_user(events) {
        let n = choose|n: int|
            0 <= n < events.len() && pending(events, #[trigger] events[n]) && escalated(
                events,
                events[n].handoff(),
            );
        assert(events.contains(events[n]) && p(events[n]));
        assert(open.contains(events[n]));
        let k = choose|k: int| 0 <= k < open.len() && open[k] == events[n];
        assert(x(open[k]));
    }
    if open.len() > 0 {
        assert(open.contains(open[0]));
        let n = choose|n: int| 0 <= n < events.len() && events[n] == open[0];
        assert(pending(events, events[n]));
        if escalated(events, events[n].handoff()) {
            assert(waits_for_the_user(events));
        } else {
            assert(waits_for_review(events));
        }
    }
}

/// Whose turn it is in a group: the user's who halted it; else the foreman's to review a handoff
/// that the user does not have; else, where the user has one, the actors' with work if there is
/// any, and the user's otherwise; else the actors' with work, or that of whom live tasks wait for,
/// or nobody's where no task is live.
pub proof fn it_is_somebodys_turn(g: GroupV, tasks: Seq<ObjV>, events: Seq<EventV>)
    ensures
        ({
            let halted = !g.running || g.state == GroupState::Paused || g.state
                == GroupState::Stopped;
            let kind = group_account(g, tasks, events).at("responsibility"@).at("kind"@);
            let duty = task_duty(tasks, crate::relay::state::foreman_of(g)).at("kind"@);
            &&& halted ==> kind == JsonV::Str("user_pause"@)
            &&& !halted && waits_for_review(events) ==> kind == JsonV::Str("foreman_review"@)
            &&& !halted && !waits_for_review(events) && waits_for_the_user(events) ==> kind
                == JsonV::Str(
                if has_work(tasks) {
                    "actor_work"@
                } else {
                    "user_intervention"@
                },
            )
            &&& !halted && !waits_for_review(events) && !waits_for_the_user(events) ==> kind == duty
            &&& duty == JsonV::Str("none"@) <==> !has_live(tasks)
            &&& duty == JsonV::Str("actor_work"@) <==> has_work(tasks)
            &&& has_live(tasks) && !has_work(tasks) ==> duty == JsonV::Str("user"@) || duty
                == JsonV::Str("external"@) || duty == JsonV::Str("user_and_external"@)
        }),
{
    lemma_duty_words();
    lemma_open(events);
    let foreman = crate::relay::state::foreman_of(g);
    let lives = |t: ObjV| live(t);
    let works = |t: ObjV| actor_work(t);
    lemma_selection(tasks, works);
    if some_match(tasks, lives) {
        let k = choose|k: int| 0 <= k < tasks.len() && lives(#[trigger] tasks[k]);
        assert(live(tasks[k]));
    }
    if some_match(tasks, works) {
        let k = choose|k: int| 0 <= k < tasks.len() && works(#[trigger] tasks[k]);
        assert(actor_work(tasks[k]));
        assert(live(tasks[k]));
    }
    if has_live(tasks) {
        let k = choose|k: int| 0 <= k < tasks.len() && live(#[trigger] tasks[k]);
        assert(lives(tasks[k]));
    }
    if has_work(tasks) {
        let k = choose|k: int| 0 <= k < tasks.len() && actor_work(#[trigger] tasks[k]);
        assert(works(tasks[k]));
    }
    assert(work_items(tasks, foreman).len() == tasks.filter(works).len());
}

/// Whether a task waits for the user.
pub open spec fn waits_on_the_user(t: ObjV) -> bool {
    live(t) && text_field(t, "waiting_on"@) == Some("user"@)
}

/// Whether a task waits for something outside, or is blocked.
pub open spec fn waits_on_the_outside(t: ObjV) -> bool {
    live(t) && (text_field(t, "waiting_on"@) == Some("external"@) || blocked(t))
}

/// The tasks that wait for the user, and those that wait for something outside, are told by the ids
/// of the live tasks that say so, and of no others.
pub proof fn waiting_tasks_are_told_by_whom_they_wait_for(tasks: Seq<ObjV>, id: Text)
    ensures
        user_tasks(tasks).contains(id) <==> exists|k: int|
            0 <= k < tasks.len() && waits_on_the_user(#[trigger] tasks[k]) && text_field(
                tasks[k],
                "id"@,
            ) == Some(id),
        external_tasks(tasks).contains(id) <==> exists|k: int|
            0 <= k < tasks.len() && waits_on_the_outside(#[trigger] tasks[k]) && text_field(
                tasks[k],
                "id"@,
            ) == Some(id),
{
    lemma_collected(
        tasks,
        |t: ObjV|
            if live(t) && text_field(t, "waiting_on"@) == Some("user"@) {
                text_field(t, "id"@)
            } else {
                None
            },
    );
    lemma_collected(
        tasks,
        |t: ObjV|
            if live(t) && (text_field(t, "waiting_on"@) == Some("external"@) || blocked(t)) {
                text_field(t, "id"@)
            } else {
                None
            },
    );
}

/// A review names the handoffs it is about and the actors they were handed to; an intervention of
/// the user names its handoffs and that the decision of the foreman is missing.
pub proof fn a_review_names_whom_the_work_was_handed_to(handoffs: Seq<EventV>, actor: Text)
    ensures
        review(handoffs).at("kind"@) == JsonV::Str("foreman_review"@),
        review(handoffs).at("handoff_ids"@) == text_array(ids_of(handoffs)),
        exists|named: Seq<Text>|
            review(handoffs).at("actor_ids"@) == #[trigger] text_array(named) && increasing(named)
                && (named.contains(actor) <==> exists|k: int|
                0 <= k < handoffs.len() && text_field(
                    (#[trigger] handoffs[k]).data,
                    "target_actor_id"@,
                ) == Some(actor)),
        intervention(handoffs).at("kind"@) == JsonV::Str("user_intervention"@),
        intervention(handoffs).at("handoff_ids"@) == text_array(ids_of(handoffs)),
        intervention(handoffs).at("reason"@) == JsonV::Str("foreman_decision_missing"@),
{
    lemma_duty_words();
    let targets = targets_of(handoffs);
    lemma_collected(handoffs, |e: EventV| text_field(e.data, "target_actor_id"@));
    sorted_set_holds_the_same_texts_in_order(targets);
    assert(review(handoffs).at("actor_ids"@) == text_array(sorted_set(targets)));
}

/// A status is told to members only: for an actor that is not in the group it is refused.
pub proof fn a_status_is_told_to_members(g: GroupV, actor_id: Text)
    ensures
        member_check(g, actor_id) is Ok <==> exists|i: int| #[trigger]
            is_the_actor(g.actors, i, actor_id),
        member_check(g, actor_id) matches Err(e) ==> e.code == "relay_actor_not_found"@,
{
    lemma_first_actor(g.actors, actor_id);
}

/// A handoff is named by the group, the actor whose turn ended, the one it is handed to and the turn,
/// all four: its id is a digest of them in this order.
pub proof fn a_handoff_is_named_by_its_turn(group: Text, source: Text, target: Text, turn: Text)
    ensures
        exists|parts: Seq<Text>|
            handoff_id_text(group, source, target, turn) == "relay-handoff"@ + ":"@ + short_digest(
                #[trigger] joined(parts, "\0"@),
            ) && parts.len() == 4 && parts[0] == group && parts[1] == source && parts[2] == target
                && parts[3] == turn,
{
    let parts = seq![group, source, target, turn];
    assert(parts.len() == 4 && parts[0] == group && parts[1] == source && parts[2] == target
        && parts[3] == turn);
    assert(handoff_id_text(group, source, target, turn) == "relay-handoff"@ + ":"@ + short_digest(
        joined(parts, "\0"@),
    ));
}

} // verus!
