//! What the notices, notes and reports of open handoffs tell, and to whom: the reminder of the
//! foreman, the word to the user, the note of a handoff, and the status that an actor asks for.

use crate::connectors::outcomes::{is_the_actor, lemma_first_actor};
use crate::json::{text_array, text_field, JsonV, ObjV};
use crate::lists::{lemma_last_at, lemma_last_where};
use crate::model::{ActorRuntime, EventV, GroupState, GroupV};
use crate::order::{increasing, inserting_all_keeps_order};
use crate::relay::facts::{delivery_state, escalated, pending_for, unresolved};
use crate::relay::idle::may_idle;
use crate::relay::notes::{note_due, note_of};
use crate::relay::remind::{
    arrival, batch_sources, escalation_request, first_of, ready_at, remind_step, reminder_request,
    RemindStepV,
};
use crate::relay::state::{group_account, ids_of};
use crate::relay::status::{pending_item, status_report};
use crate::text::Text;
use crate::time::{rfc3339, Instant};
use vstd::prelude::*;

verus! {

/// The members of notices, notes and reports differ.
pub(crate) proof fn lemma_notice_words()
    ensures
        "group_id"@.len() == 8,
        "by"@.len() == 2,
        "to"@.len() == 2,
        "message_mode"@.len() == 12,
        "text"@.len() == 4,
        "client_id"@.len() == 9,
        "relay_kind"@.len() == 10,
        "relay_actor_id"@.len() == 14,
        "relay_handoff_ids"@.len() == 17,
        "relay_source_event_ids"@.len() == 22,
        "reminded"@.len() == 8,
        "escalated"@.len() == 9,
        "reason"@.len() == 6,
        "reminder_event"@.len() == 14,
        "escalation_event"@.len() == 16,
        "pending"@.len() == 7,
        "count"@.len() == 5,
        "requires_decision"@.len() == 17,
        "awaiting_user_intervention"@.len() == 26,
        "caller_may_idle"@.len() == 15,
        "safe_to_idle"@.len() == 12,
        "responsibility"@.len() == 14,
        "responsibilities"@.len() == 16,
        "instructions"@.len() == 12,
        "handoff_id"@.len() == 10,
        "summary"@.len() == 7,
        "source_actor_id"@.len() == 15,
        "target_actor_id"@.len() == 15,
        "turn_id"@.len() == 7,
        "task_ids"@.len() == 8,
        "source_event_ids"@.len() == 16,
        "all_source_event_ids"@.len() == 20,
        "delivery"@.len() == 8,
        "decision_required"@.len() == 17,
        "decision_call"@.len() == 13,
        "event_id"@.len() == 8,
        "state"@.len() == 5,
        "tool"@.len() == 4,
        "action"@.len() == 6,
        "event_ids"@.len() == 9,
        "decisions"@.len() == 9,
        "continue_requires"@.len() == 17,
        "blocked_requires"@.len() == 16,
        "op"@.len() == 2,
        "kind"@.len() == 4,
        "id"@.len() == 2,
        "at"@.len() == 2,
        "task_id"@.len() == 7,
        "status"@.len() == 6,
        "decision_id"@.len() == 11,
        "escalation_event_id"@.len() == 19,
        "resolved"@.len() == 8,
        "waiting_user"@.len() == 12,
        "pending_review"@.len() == 14,
        "user_pause"@.len() == 10,
        "user_intervention"@.len() == 17,
        "group_id"@[0] == 'g',
        "reminded"@[0] == 'r',
        "task_ids"@[0] == 't',
        "delivery"@[0] == 'd',
        "event_id"@[0] == 'e',
        "resolved"@[0] == 'r',
        "by"@[0] == 'b',
        "to"@[0] == 't',
        "op"@[0] == 'o',
        "id"@[0] == 'i',
        "at"@[0] == 'a',
        "message_mode"@[0] == 'm',
        "safe_to_idle"@[0] == 's',
        "instructions"@[0] == 'i',
        "waiting_user"@[0] == 'w',
        "text"@[1] == 'e',
        "tool"@[1] == 'o',
        "text"@[0] == 't',
        "kind"@[0] == 'k',
        "client_id"@[0] == 'c',
        "escalated"@[0] == 'e',
        "event_ids"@[0] == 'e',
        "decisions"@[0] == 'd',
        "relay_kind"@[0] == 'r',
        "handoff_id"@[0] == 'h',
        "user_pause"@[0] == 'u',
        "relay_actor_id"@[2] == 'l',
        "reminder_event"@[2] == 'm',
        "responsibility"@[2] == 's',
        "relay_actor_id"@[0] == 'r',
        "pending_review"@[0] == 'p',
        "relay_handoff_ids"@[2] == 'l',
        "requires_decision"@[2] == 'q',
        "relay_handoff_ids"@[0] == 'r',
        "decision_required"@[0] == 'd',
        "continue_requires"@[0] == 'c',
        "user_intervention"@[0] == 'u',
        "reminded"@[2] == 'm',
        "resolved"@[2] == 's',
        "escalated"@[1] == 's',
        "event_ids"@[1] == 'v',
        "reason"@[0] == 'r',
        "action"@[0] == 'a',
        "status"@[0] == 's',
        "reminder_event"@[0] == 'r',
        "escalation_event"@[0] == 'e',
        "responsibilities"@[0] == 'r',
        "source_event_ids"@[0] == 's',
        "blocked_requires"@[0] == 'b',
        "pending"@[0] == 'p',
        "summary"@[0] == 's',
        "turn_id"@[0] == 't',
        "task_id"@[0] == 't',
        "count"@[0] == 'c',
        "state"@[0] == 's',
        "requires_decision"@[0] == 'r',
        "caller_may_idle"@[0] == 'c',
        "source_actor_id"@[0] == 's',
        "target_actor_id"@[0] == 't',
        "responsibility"@[0] == 'r',
        "turn_id"@[1] == 'u',
        "task_id"@[1] == 'a',
        "tool"@[0] == 't',
{
    reveal_strlit("group_id");
    reveal_strlit("by");
    reveal_strlit("to");
    reveal_strlit("message_mode");
    reveal_strlit("text");
    reveal_strlit("client_id");
    reveal_strlit("relay_kind");
    reveal_strlit("relay_actor_id");
    reveal_strlit("relay_handoff_ids");
    reveal_strlit("relay_source_event_ids");
    reveal_strlit("reminded");
    reveal_strlit("escalated");
    reveal_strlit("reason");
    reveal_strlit("reminder_event");
    reveal_strlit("escalation_event");
    reveal_strlit("pending");
    reveal_strlit("count");
    reveal_strlit("requires_decision");
    reveal_strlit("awaiting_user_intervention");
    reveal_strlit("caller_may_idle");
    reveal_strlit("safe_to_idle");
    reveal_strlit("responsibility");
    reveal_strlit("responsibilities");
    reveal_strlit("instructions");
    reveal_strlit("handoff_id");
    reveal_strlit("summary");
    reveal_strlit("source_actor_id");
    reveal_strlit("target_actor_id");
    reveal_strlit("turn_id");
    reveal_strlit("task_ids");
    reveal_strlit("source_event_ids");
    reveal_strlit("all_source_event_ids");
    reveal_strlit("delivery");
    reveal_strlit("decision_required");
    reveal_strlit("decision_call");
    reveal_strlit("event_id");
    reveal_strlit("state");
    reveal_strlit("tool");
    reveal_strlit("action");
    reveal_strlit("event_ids");
    reveal_strlit("decisions");
    reveal_strlit("continue_requires");
    reveal_strlit("blocked_requires");
    reveal_strlit("op");
    reveal_strlit("kind");
    reveal_strlit("id");
    reveal_strlit("at");
    reveal_strlit("task_id");
    reveal_strlit("status");
    reveal_strlit("decision_id");
    reveal_strlit("escalation_event_id");
    reveal_strlit("resolved");
    reveal_strlit("waiting_user");
    reveal_strlit("pending_review");
    reveal_strlit("user_pause");
    reveal_strlit("user_intervention");
}

/// A reminder goes to the foreman and a word of it to the user; both come from the system, and name
/// the handoffs and the sources that they are about.
pub proof fn the_foreman_is_reminded_and_the_user_is_told(
    group_id: Text,
    actor_id: Text,
    events: Seq<EventV>,
    handoffs: Seq<EventV>,
)
    ensures
        ({
            let r = reminder_request(group_id, actor_id, events, handoffs);
            let x = escalation_request(group_id, actor_id, events, handoffs);
            &&& r.op == "send"@ && x.op == "send"@
            &&& text_field(r.args, "group_id"@) == Some(group_id) && text_field(
                x.args,
                "group_id"@,
            ) == Some(group_id)
            &&& text_field(r.args, "by"@) == Some("system"@) && text_field(x.args, "by"@) == Some(
                "system"@,
            )
            &&& r.args["to"@] == JsonV::Arr(seq![JsonV::Str(actor_id)])
            &&& x.args["to"@] == JsonV::Arr(seq![JsonV::Str("user"@)])
            &&& text_field(r.args, "message_mode"@) == Some("send"@) && text_field(
                x.args,
                "message_mode"@,
            ) == Some("send"@)
            &&& text_field(r.args, "relay_kind"@) == Some("decision_reminder"@)
            &&& text_field(x.args, "relay_kind"@) == Some("decision_escalation"@)
            &&& text_field(x.args, "relay_actor_id"@) == Some(actor_id)
            &&& r.args["relay_handoff_ids"@] == text_array(ids_of(handoffs))
            &&& x.args["relay_handoff_ids"@] == text_array(ids_of(handoffs))
            &&& r.args["relay_source_event_ids"@] == text_array(batch_sources(events, handoffs))
            &&& x.args["relay_source_event_ids"@] == text_array(batch_sources(events, handoffs))
        }),
{
    lemma_notice_words();
}

/// A notice is about the sources of its handoffs that are still open, each once.
pub proof fn a_notice_is_about_open_sources(events: Seq<EventV>, handoffs: Seq<EventV>)
    ensures
        increasing(batch_sources(events, handoffs)),
        forall|id: Text| #[trigger]
            batch_sources(events, handoffs).contains(id) <==> exists|k: int|
                0 <= k < handoffs.len() && unresolved(events, #[trigger] handoffs[k]).contains(id),
    decreases handoffs.len(),
{
    if handoffs.len() > 0 {
        let d = handoffs.drop_last();
        a_notice_is_about_open_sources(events, d);
        inserting_all_keeps_order(batch_sources(events, d), unresolved(events, handoffs.last()));
        assert(handoffs[handoffs.len() - 1] == handoffs.last());
        assert forall|id: Text| #[trigger]
            batch_sources(events, handoffs).contains(id) <==> exists|k: int|
                0 <= k < handoffs.len() && unresolved(events, #[trigger] handoffs[k]).contains(
                    id,
                ) by {
            if batch_sources(events, d).contains(id) {
                let k = choose|k: int|
                    0 <= k < d.len() && unresolved(events, #[trigger] d[k]).contains(id);
                assert(handoffs[k] == d[k]);
            }
            if exists|k: int|
                0 <= k < handoffs.len() && unresolved(events, #[trigger] handoffs[k]).contains(id) {
                let k = choose|k: int|
                    0 <= k < handoffs.len() && unresolved(events, #[trigger] handoffs[k]).contains(
                        id,
                    );
                if k < d.len() {
                    assert(d[k] == handoffs[k]);
                }
            }
        }
    }
}

/// Notices are only for an enabled web model of a group that works: another actor gets none, and an
/// actor that is not there is refused.
pub proof fn only_a_working_web_model_is_noticed(
    g: GroupV,
    events: Seq<EventV>,
    actor_id: Text,
    idle: bool,
    now: Instant,
)
    ensures
        (forall|i: int| !#[trigger] is_the_actor(g.actors, i, actor_id)) ==> (remind_step(
            g,
            events,
            actor_id,
            idle,
            now,
        ) matches Err(e) && e.code == "relay_actor_not_found"@),
        forall|i: int| #[trigger]
            is_the_actor(g.actors, i, actor_id) ==> match remind_step(
                g,
                events,
                actor_id,
                idle,
                now,
            ) {
                Err(_) => false,
                Ok(RemindStepV::Inactive) => !(g.actors[i].enabled && g.actors[i].runtime
                    == ActorRuntime::WebModel && g.running && g.state != GroupState::Paused
                    && g.state != GroupState::Stopped),
                Ok(RemindStepV::Send(_, _)) => g.actors[i].enabled && g.actors[i].runtime
                    == ActorRuntime::WebModel && g.running && g.state != GroupState::Paused
                    && g.state != GroupState::Stopped,
            },
{
    lemma_first_actor(g.actors, actor_id);
}

/// Whether an entry is a delivery of a source to an actor that reached it, as far as is known.
pub open spec fn brought(e: EventV, actor_id: Text, id: Text) -> bool {
    &&& e.kind == "runtime.delivery"@
    &&& text_field(e.data, "actor_id"@) == Some(actor_id)
    &&& text_field(e.data, "source_event_id"@) == Some(id)
    &&& text_field(e.data, "state"@) == Some("accepted"@) || text_field(e.data, "state"@) == Some(
        "ambiguous"@,
    )
}

/// A source has arrived when the last delivery that reached the actor was recorded.
pub proof fn a_source_arrives_with_its_last_delivery(
    events: Seq<EventV>,
    actor_id: Text,
    id: Text,
    n: int,
)
    ensures
        0 <= n < events.len() && brought(events[n], actor_id, id) && (forall|m: int|
            n < m < events.len() ==> !brought(#[trigger] events[m], actor_id, id)) ==> arrival(
            events,
            actor_id,
            id,
        ) == match rfc3339(events[n].ts) {
            Some((s, f)) => Some(Instant { secs: s as i64, nanos: f as u32 }),
            None => None,
        },
        (forall|m: int|
            0 <= m < events.len() ==> !brought(#[trigger] events[m], actor_id, id)) ==> arrival(
            events,
            actor_id,
            id,
        ) is None,
{
    let p = |e: EventV| e.delivers(actor_id, id) && e.reached();
    assert forall|m: int| 0 <= m < events.len() implies (p(#[trigger] events[m]) <==> brought(
        events[m],
        actor_id,
        id,
    )) by {}
    if 0 <= n < events.len() && brought(events[n], actor_id, id) && (forall|m: int|
        n < m < events.len() ==> !brought(#[trigger] events[m], actor_id, id)) {
        assert forall|m: int| n < m < events.len() implies !p(#[trigger] events[m]) by {}
        lemma_last_at(events, p, n);
    }
    let k = lemma_last_where(events, p);
}

/// The sources of a handoff are all there when the last of them arrived; while one is missing, or
/// there is none, they are not.
pub proof fn sources_are_there_with_the_last(events: Seq<EventV>, actor_id: Text, ids: Seq<Text>)
    ensures
        ready_at(events, actor_id, ids) is Some <==> ids.len() > 0 && forall|k: int|
            0 <= k < ids.len() ==> arrival(events, actor_id, #[trigger] ids[k]) is Some,
        ready_at(events, actor_id, ids) matches Some(t) ==> (exists|k: int|
            0 <= k < ids.len() && arrival(events, actor_id, #[trigger] ids[k]) == Some(t))
            && forall|k: int|
            0 <= k < ids.len() ==> (arrival(events, actor_id, #[trigger] ids[k]) matches Some(u)
                && (u.secs < t.secs || (u.secs == t.secs && u.nanos <= t.nanos))),
    decreases ids.len(),
{
    if ids.len() > 0 {
        let d = ids.drop_last();
        sources_are_there_with_the_last(events, actor_id, d);
        assert(ids[ids.len() - 1] == ids.last());
        assert forall|k: int| 0 <= k < d.len() implies #[trigger] d[k] == ids[k] by {}
        if ready_at(events, actor_id, ids) is Some {
            let t = ready_at(events, actor_id, ids)->0;
            let last = arrival(events, actor_id, ids.last())->0;
            if ids.len() > 1 {
                let u = ready_at(events, actor_id, d)->0;
                let m = choose|m: int|
                    0 <= m < d.len() && arrival(events, actor_id, #[trigger] d[m]) == Some(u);
                assert(arrival(events, actor_id, ids[m]) == Some(u));
            }
            assert(arrival(events, actor_id, ids[ids.len() - 1]) == Some(last));
            assert forall|k: int| 0 <= k < ids.len() implies (arrival(
                events,
                actor_id,
                #[trigger] ids[k],
            ) matches Some(u) && (u.secs < t.secs || (u.secs == t.secs && u.nanos <= t.nanos))) by {
                if k < d.len() {
                    assert(arrival(events, actor_id, d[k]) is Some);
                }
            }
        }
        if forall|k: int| 0 <= k < ids.len() ==> arrival(events, actor_id, #[trigger] ids[k]) is Some {
            assert forall|k: int| 0 <= k < d.len() implies arrival(
                events,
                actor_id,
                #[trigger] d[k],
            ) is Some by {
                assert(arrival(events, actor_id, ids[k]) is Some);
            }
            assert(arrival(events, actor_id, ids[ids.len() - 1]) is Some);
        }
    }
}

/// Of more handoffs than a notice can name, the first ones are taken, in order.
pub proof fn a_notice_takes_the_first_handoffs(s: Seq<EventV>, n: nat)
    ensures
        first_of(s, n).len() == if s.len() < n {
            s.len()
        } else {
            n
        },
        forall|k: int| 0 <= k < first_of(s, n).len() ==> #[trigger] first_of(s, n)[k] == s[k],
{
}

/// The note of a handoff that is due says what the handoff is, from whom and for whom, and how it
/// stands.
pub proof fn a_note_tells_how_a_handoff_stands(
    coordination: ObjV,
    h: EventV,
    status: Text,
    decision_id: Option<Text>,
    escalation: Option<Text>,
)
    ensures
        note_due(coordination, h, status, decision_id, escalation) matches Some(m) ==> {
            &&& text_field(m, "op"@) == Some("coordination.relay.note"@)
            &&& text_field(m, "kind"@) == Some("handoff"@)
            &&& text_field(m, "id"@) == Some(crate::json::or_empty(text_field(h.data, "handoff_id"@)))
            &&& text_field(m, "at"@) == Some(h.ts)
            &&& text_field(m, "status"@) == Some(status)
            &&& text_field(m, "decision_id"@) == decision_id
            &&& text_field(m, "escalation_event_id"@) == escalation
            &&& m["source_actor_id"@] == JsonV::Obj(h.data).at("source_actor_id"@)
            &&& m["target_actor_id"@] == JsonV::Obj(h.data).at("target_actor_id"@)
            &&& m["turn_id"@] == JsonV::Obj(h.data).at("turn_id"@)
        },
        note_of(coordination, h.handoff()) is None ==> note_due(
            coordination,
            h,
            status,
            decision_id,
            escalation,
        ) is Some,
        note_of(coordination, h.handoff()) matches Some(n) ==> (n.at("status"@) == JsonV::Str(
            "pending_review"@,
        ) && (status == "resolved"@ || status == "waiting_user"@) ==> note_due(
            coordination,
            h,
            status,
            decision_id,
            escalation,
        ) is Some) && (n.at("status"@) == JsonV::Str("waiting_user"@) && status == "pending_review"@
            ==> note_due(coordination, h, status, decision_id, escalation) is None) && (n.at(
            "status"@,
        ) == JsonV::Str("waiting_user"@) && status == "resolved"@ ==> note_due(
            coordination,
            h,
            status,
            decision_id,
            escalation,
        ) is Some),
{
    lemma_notice_words();
}

/// What an actor is told of a handoff that waits for it: which sources are open and which it has in
/// all, how each open one was delivered, and whether the actor or the user is to decide.
pub proof fn an_open_handoff_is_told_in_full(events: Seq<EventV>, h: EventV, actor_id: Text)
    ensures
        ({
            let v = pending_item(events, h, actor_id);
            let open = unresolved(events, h);
            &&& v.at("handoff_id"@) == JsonV::Obj(h.data).at("handoff_id"@)
            &&& v.at("summary"@) == JsonV::Obj(h.data).at("summary"@)
            &&& v.at("source_actor_id"@) == JsonV::Obj(h.data).at("source_actor_id"@)
            &&& v.at("target_actor_id"@) == JsonV::Str(actor_id)
            &&& v.at("turn_id"@) == JsonV::Obj(h.data).at("turn_id"@)
            &&& v.at("source_event_ids"@) == text_array(open)
            &&& v.at("all_source_event_ids"@) == text_array(h.strings("source_event_ids"@))
            &&& v.at("awaiting_user_intervention"@) == JsonV::Bool(escalated(events, h.handoff()))
            &&& v.at("decision_required"@) == JsonV::Bool(!escalated(events, h.handoff()))
            &&& v.at("decision_call"@).at("event_ids"@) == text_array(open)
            &&& v.at("delivery"@) matches JsonV::Arr(all) && all.len() == open.len() && forall|k: int|
                0 <= k < open.len() ==> (#[trigger] all[k]).at("event_id"@) == JsonV::Str(open[k])
                    && all[k].at("state"@) == JsonV::Str(delivery_state(events, actor_id, open[k]))
        }),
{
    lemma_notice_words();
}

/// The state of a delivery is that of the last record of it.
pub proof fn the_last_record_tells_the_delivery(
    events: Seq<EventV>,
    actor_id: Text,
    id: Text,
    n: int,
)
    requires
        0 <= n < events.len(),
        events[n].kind == "runtime.delivery"@,
        text_field(events[n].data, "actor_id"@) == Some(actor_id),
        text_field(events[n].data, "source_event_id"@) == Some(id),
        forall|m: int|
            n < m < events.len() ==> !((#[trigger] events[m]).kind == "runtime.delivery"@
                && text_field(events[m].data, "actor_id"@) == Some(actor_id) && text_field(
                events[m].data,
                "source_event_id"@,
            ) == Some(id)),
    ensures
        delivery_state(events, actor_id, id) == crate::json::or_empty(
            text_field(events[n].data, "state"@),
        ),
{
    let p = |e: EventV| e.delivers(actor_id, id);
    assert forall|m: int| n < m < events.len() implies !p(#[trigger] events[m]) by {}
    lemma_last_at(events, p, n);
}

/// The status that an actor asks for holds every open handoff to it, in order, and asks for a
/// decision unless there is none, the group was halted, or the user has the word.
pub proof fn the_status_holds_every_open_handoff(
    g: GroupV,
    tasks: Seq<ObjV>,
    events: Seq<EventV>,
    actor_id: Text,
)
    ensures
        ({
            let m = status_report(g, tasks, events, actor_id);
            let current = group_account(g, tasks, events);
            let kind = current.at("responsibility"@).at("kind"@);
            let open = events.filter(|e: EventV| pending_for(events, e, actor_id));
            &&& m["pending"@] matches JsonV::Arr(all) && all.len() == open.len() && forall|k: int|
                0 <= k < open.len() ==> #[trigger] all[k] == pending_item(events, open[k], actor_id)
            &&& m["count"@] == JsonV::Int(open.len() as int)
            &&& m["requires_decision"@] == JsonV::Bool(
                open.len() > 0 && kind != JsonV::Str("user_pause"@) && kind != JsonV::Str(
                    "user_intervention"@,
                ),
            )
            &&& m["awaiting_user_intervention"@] == JsonV::Bool(
                kind == JsonV::Str("user_intervention"@),
            )
            &&& m["caller_may_idle"@] == JsonV::Bool(may_idle(current, actor_id))
            &&& m["safe_to_idle"@] == current.at("safe_to_idle"@)
            &&& m["responsibility"@] == current.at("responsibility"@)
            &&& m["responsibilities"@] == current.at("responsibilities"@)
        }),
{
    lemma_notice_words();
}

} // verus!
