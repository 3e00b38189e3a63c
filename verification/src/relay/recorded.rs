//! What is sent on and recorded under a decision, told of the requests, entries and notes
//! themselves: the next work, the entry of the decision, its notes and the handoffs of members.

use crate::connectors::outcomes::{is_the_actor, lemma_first_actor};
use crate::json::{list_field, text_array, text_field, JsonV, ObjV};
use crate::lists::{
    lemma_first_at, lemma_first_match, lemma_first_where, lemma_last_at, lemma_last_where,
    lemma_selection, some_match,
};
use crate::model::{ErrV, EventV, GroupV, RequestV};
use crate::order::{
    increasing, inserting_all_keeps_order, sorted_set, sorted_set_holds_the_same_texts_in_order,
};
use crate::relay::accept::{release_request, strings_at, turn_is_handled};
use crate::relay::decide::{decision_answer, facts, is_artifact, partial_check, ScopeV};
use crate::relay::facts::{covers_some, handled, reminder_ids};
use crate::relay::flow::{
    context_step, preview_step, reread_step, sent_step, DecideStepV, DraftV,
};
use crate::relay::handoff::{
    covered, event_ids, handoff_plan, implicit, implicit_turn, is_member_report, TurnV,
};
use crate::relay::idle::may_idle;
use crate::relay::ids::short_digest;
use crate::relay::intent::IntentV;
use crate::relay::notes::FactsV;
use crate::relay::outcomes::{
    a_list_reads_as_its_texts, is_named, lemma_sent_words, lists_text,
};
use crate::relay::sources::{event_by_id, source, sources_of, task_refs, tasks_of_events};
use crate::relay::words::lemma_decisions;
use crate::relay::work::{
    all_task_moves, candidates, decided_tasks, existing_or_inferred, live, referenced, source_owned,
    task_by_id, with_handoff_tasks,
};
use crate::text::{trimmed, Text};
use vstd::prelude::*;

verus! {

/// The members of what is recorded differ.
pub(crate) proof fn lemma_record_words()
    ensures
        "decision_id"@.len() == 11,
        "request_fingerprint"@.len() == 19,
        "by"@.len() == 2,
        "decision"@.len() == 8,
        "summary"@.len() == 7,
        "reason"@.len() == 6,
        "source_event_ids"@.len() == 16,
        "handoff_ids"@.len() == 11,
        "task_ids"@.len() == 8,
        "next_task_id"@.len() == 12,
        "visible_event_id"@.len() == 16,
        "responsibility"@.len() == 14,
        "caller_may_idle"@.len() == 15,
        "safe_to_idle"@.len() == 12,
        "status"@.len() == 6,
        "op"@.len() == 2,
        "kind"@.len() == 4,
        "id"@.len() == 2,
        "task_id"@.len() == 7,
        "next_actor_id"@.len() == 13,
        "at"@.len() == 2,
        "source_actor_id"@.len() == 15,
        "target_actor_id"@.len() == 15,
        "turn_id"@.len() == 7,
        "turn_status"@.len() == 11,
        "handoff_id"@.len() == 10,
        "resolved_at"@.len() == 11,
        "resolved_by"@.len() == 11,
        "escalation_event_id"@.len() == 19,
        "actor_id"@.len() == 8,
        "actor"@.len() == 5,
        "user"@.len() == 4,
        "external"@.len() == 8,
        "none"@.len() == 4,
        "relay"@.len() == 5,
        "decision_event_id"@.len() == 17,
        "replayed"@.len() == 8,
        "current_responsibility"@.len() == 22,
        "current_responsibilities"@.len() == 24,
        "instructions"@.len() == 12,
        "group_id"@.len() == 8,
        "event_ids"@.len() == 9,
        "delivery_id"@.len() == 11,
        "working"@.len() == 7,
        "active_event_ids"@.len() == 16,
        "active_turn_id"@.len() == 14,
        "decision_id"@[0] == 'd',
        "handoff_ids"@[0] == 'h',
        "turn_status"@[0] == 't',
        "resolved_at"@[0] == 'r',
        "resolved_by"@[0] == 'r',
        "decision_id"@[2] == 'c',
        "delivery_id"@[2] == 'l',
        "request_fingerprint"@[0] == 'r',
        "escalation_event_id"@[0] == 'e',
        "by"@[0] == 'b',
        "op"@[0] == 'o',
        "id"@[0] == 'i',
        "at"@[0] == 'a',
        "decision"@[0] == 'd',
        "task_ids"@[0] == 't',
        "actor_id"@[0] == 'a',
        "external"@[0] == 'e',
        "replayed"@[0] == 'r',
        "group_id"@[0] == 'g',
        "summary"@[0] == 's',
        "task_id"@[0] == 't',
        "turn_id"@[0] == 't',
        "working"@[0] == 'w',
        "reason"@[0] == 'r',
        "status"@[0] == 's',
        "source_event_ids"@[0] == 's',
        "visible_event_id"@[0] == 'v',
        "active_event_ids"@[0] == 'a',
        "delivery_id"@[0] == 'd',
        "next_task_id"@[0] == 'n',
        "safe_to_idle"@[0] == 's',
        "instructions"@[0] == 'i',
        "responsibility"@[0] == 'r',
        "active_turn_id"@[0] == 'a',
        "caller_may_idle"@[0] == 'c',
        "source_actor_id"@[0] == 's',
        "target_actor_id"@[0] == 't',
        "kind"@[0] == 'k',
        "user"@[0] == 'u',
        "none"@[0] == 'n',
        "task_id"@[1] == 'a',
        "turn_id"@[1] == 'u',
        "resolved_at"@[9] == 'a',
        "resolved_by"@[9] == 'b',
        "actor"@[0] == 'a',
        "relay"@[0] == 'r',
{
    reveal_strlit("decision_id");
    reveal_strlit("request_fingerprint");
    reveal_strlit("by");
    reveal_strlit("decision");
    reveal_strlit("summary");
    reveal_strlit("reason");
    reveal_strlit("source_event_ids");
    reveal_strlit("handoff_ids");
    reveal_strlit("task_ids");
    reveal_strlit("next_task_id");
    reveal_strlit("visible_event_id");
    reveal_strlit("responsibility");
    reveal_strlit("caller_may_idle");
    reveal_strlit("safe_to_idle");
    reveal_strlit("status");
    reveal_strlit("op");
    reveal_strlit("kind");
    reveal_strlit("id");
    reveal_strlit("task_id");
    reveal_strlit("next_actor_id");
    reveal_strlit("at");
    reveal_strlit("source_actor_id");
    reveal_strlit("target_actor_id");
    reveal_strlit("turn_id");
    reveal_strlit("turn_status");
    reveal_strlit("handoff_id");
    reveal_strlit("resolved_at");
    reveal_strlit("resolved_by");
    reveal_strlit("escalation_event_id");
    reveal_strlit("actor_id");
    reveal_strlit("actor");
    reveal_strlit("user");
    reveal_strlit("external");
    reveal_strlit("none");
    reveal_strlit("relay");
    reveal_strlit("decision_event_id");
    reveal_strlit("replayed");
    reveal_strlit("current_responsibility");
    reveal_strlit("current_responsibilities");
    reveal_strlit("instructions");
    reveal_strlit("group_id");
    reveal_strlit("event_ids");
    reveal_strlit("delivery_id");
    reveal_strlit("working");
    reveal_strlit("active_event_ids");
    reveal_strlit("active_turn_id");
}

/// Whether an actor can be given the next work: another than the one who decides, and an enabled
/// member of the group.
pub open spec fn may_be_given_work(g: GroupV, by: Text, next: Text) -> bool {
    &&& next != by
    &&& exists|i: int| #[trigger] is_the_actor(g.actors, i, next) && g.actors[i].enabled
}

/// A text that a request gives, or another in its place.
pub open spec fn given_or(args: ObjV, key: Text, other: Text) -> JsonV {
    match text_field(args, key) {
        Some(t) => JsonV::Str(t),
        None => JsonV::Str(other),
    }
}

/// Whether a request sends the next work of a decision: to the next actor and nobody else, as an
/// active task of theirs, under the id of the decision, and with a reference to what it decides.
pub open spec fn sends_next_work(
    q: RequestV,
    g: GroupV,
    request: RequestV,
    i: IntentV,
    s: ScopeV,
) -> bool {
    &&& q.op == "tracked_send"@
    &&& text_field(q.args, "group_id"@) == Some(g.group_id)
    &&& text_field(q.args, "by"@) == Some(i.by)
    &&& q.args["to"@] == JsonV::Arr(seq![JsonV::Str(i.next_actor_id)])
    &&& text_field(q.args, "assignee"@) == Some(i.next_actor_id)
    &&& text_field(q.args, "handoff_to"@) == Some(i.next_actor_id)
    &&& text_field(q.args, "title"@) == Some(i.next_title)
    &&& text_field(q.args, "text"@) == Some(i.next_text)
    &&& text_field(q.args, "status"@) == Some("active"@)
    &&& text_field(q.args, "waiting_on"@) == Some("actor"@)
    &&& text_field(q.args, "idempotency_key"@) == Some(s.decision_id)
    &&& q.args["outcome"@] == given_or(request.args, "outcome"@, i.next_text)
    &&& q.args["task_priority"@] == given_or(request.args, "task_priority"@, "normal"@)
    &&& q.args["insight"@] == given_or(request.args, "insight"@, Seq::empty())
    &&& q.args["refs"@] matches JsonV::Arr(refs) && refs.len() > 0 && {
        let r = refs.last();
        &&& r.at("kind"@) == JsonV::Str("relay_decision"@)
        &&& r.at("decision_id"@) == JsonV::Str(s.decision_id)
        &&& r.at("request_fingerprint"@) == JsonV::Str(i.fingerprint)
        &&& r.at("source_event_ids"@) == text_array(s.source_event_ids)
        &&& r.at("handoff_ids"@) == text_array(s.handoff_ids)
        &&& list_field(request.args, "refs"@) matches Some(given) ==> refs.drop_last() == given
        &&& list_field(request.args, "refs"@) is None ==> refs.len() == 1
    }
}

/// Only continue sends work on, and only to another enabled member of the group; what is sent is
/// the work that the request names. Every other decision goes on without sending.
pub proof fn the_next_work_goes_to_the_next_actor(
    g: GroupV,
    events: Seq<EventV>,
    tasks: Seq<ObjV>,
    request: RequestV,
    client_id: Text,
    d: DraftV,
    ids: Seq<Text>,
)
    requires
        partial_check(events, tasks, d.scope.decision_id, client_id, d.intent) is Ok,
        decided_tasks(request.args, d.scope.sources, d.scope.handoffs, tasks) == Ok::<
            Seq<Text>,
            ErrV,
        >(ids),
    ensures
        ({
            let step = context_step(g, events, tasks, request, client_id, d);
            let next = d.intent.next_actor_id;
            &&& d.intent.decision != "continue"@ ==> step == DecideStepV::Reread(
                d,
                ids,
                Seq::empty(),
                Seq::empty(),
            )
            &&& d.intent.decision == "continue"@ && may_be_given_work(g, d.intent.by, next) ==> (step
                matches DecideStepV::Send(e, given, q) && e == d && given == ids && sends_next_work(
                q,
                g,
                request,
                d.intent,
                d.scope,
            ))
            &&& d.intent.decision == "continue"@ && !may_be_given_work(g, d.intent.by, next) ==> (step
                matches DecideStepV::Refused(e) && (e.code == "relay_next_actor_invalid"@ || e.code
                == "relay_next_actor_not_found"@ || e.code == "relay_next_actor_stopped"@))
            &&& d.intent.decision == "continue"@ && next == d.intent.by ==> (step
                matches DecideStepV::Refused(e) && e.code == "relay_next_actor_invalid"@)
        }),
{
    lemma_sent_words();
    lemma_first_actor(g.actors, d.intent.next_actor_id);
    let given = list_field(request.args, "refs"@);
    if let DecideStepV::Send(e, given_ids, q) = context_step(
        g,
        events,
        tasks,
        request,
        client_id,
        d,
    ) {
        let refs = q.args["refs"@]->Arr_0;
        if let Some(v) = given {
            assert(refs.drop_last() =~= v);
        }
    }
}

/// The next work counts as given only once its message was sent in full; its task and its message
/// are those that the answer names.
pub proof fn next_work_counts_once_it_was_sent(d: DraftV, ids: Seq<Text>, reply: ObjV)
    ensures
        ({
            let sent = reply.contains_key("message_sent"@) && reply["message_sent"@] == JsonV::Bool(
                true,
            );
            let partial = reply.contains_key("partial_failure"@) && reply["partial_failure"@]
                == JsonV::Bool(true);
            let step = sent_step(d, ids, Ok(reply));
            &&& sent && !partial ==> (step matches DecideStepV::Reread(e, given, task, message) && e
                == d && given == ids && task == crate::json::or_empty(text_field(reply, "task_id"@))
                && message == crate::json::or_empty(text_field(reply, "event_id"@)))
            &&& !sent || partial ==> (step matches DecideStepV::Refused(e) && e.code
                == "relay_continue_incomplete"@)
        }),
{
}

/// Whether an entry is a message that was sent under a decision.
pub open spec fn was_sent_under(e: EventV, decision_id: Text) -> bool {
    e.kind == "chat.message"@ && exists|refs: Seq<JsonV>, k: int|
        e.data.contains_key("refs"@) && e.data["refs"@] == JsonV::Arr(refs) && 0 <= k < refs.len()
            && (#[trigger] refs[k]).at("kind"@) == JsonV::Str("relay_decision"@) && refs[k].at(
            "decision_id"@,
        ) == JsonV::Str(decision_id)
}

proof fn lemma_was_sent_under(e: EventV, decision_id: Text)
    ensures
        is_artifact(e, decision_id) <==> was_sent_under(e, decision_id),
{
    let p = |x: JsonV|
        x.at("kind"@).text() == Some("relay_decision"@) && x.at("decision_id"@).text() == Some(
            decision_id,
        );
    if let Some(refs) = list_field(e.data, "refs"@) {
        lemma_first_match(refs, p);
        if some_match(refs, p) {
            let k = choose|k: int| 0 <= k < refs.len() && p(#[trigger] refs[k]);
            assert(refs[k].at("kind"@) == JsonV::Str("relay_decision"@));
        }
        if was_sent_under(e, decision_id) {
            let (v, k) = choose|v: Seq<JsonV>, k: int|
                e.data.contains_key("refs"@) && e.data["refs"@] == JsonV::Arr(v) && 0 <= k < v.len()
                    && (#[trigger] v[k]).at("kind"@) == JsonV::Str("relay_decision"@) && v[k].at(
                    "decision_id"@,
                ) == JsonV::Str(decision_id);
            assert(p(refs[k]));
        }
    }
}

/// A decision that was half made is finished as it was begun: once its work was sent, another
/// decision or another intent is refused, and once its next task is there only continue goes on.
/// Where nothing was begun, nothing stands in the way.
pub proof fn a_half_made_decision_is_finished_as_it_was_begun(
    events: Seq<EventV>,
    tasks: Seq<ObjV>,
    decision_id: Text,
    client_id: Text,
    i: IntentV,
)
    ensures
        forall|n: int|
            0 <= n < events.len() && was_sent_under(#[trigger] events[n], decision_id) && (forall|
                m: int,
            |
                n < m < events.len() ==> !was_sent_under(#[trigger] events[m], decision_id)) && (
            match text_field(events[n].data, "relay_decision"@) {
                Some(d) => d != i.decision,
                None => i.decision != "continue"@,
            }) ==> partial_check(events, tasks, decision_id, client_id, i) is Err,
        forall|n: int|
            0 <= n < events.len() && was_sent_under(#[trigger] events[n], decision_id) && (forall|
                m: int,
            |
                n < m < events.len() ==> !was_sent_under(#[trigger] events[m], decision_id)) && (
            text_field(events[n].data, "relay_fingerprint"@) matches Some(f) && f.len() > 0 && f
                != i.fingerprint) ==> partial_check(events, tasks, decision_id, client_id, i)
                is Err,
        i.decision != "continue"@ && (exists|k: int|
            0 <= k < tasks.len() && text_field(#[trigger] tasks[k], "client_request_id"@) == Some(
                client_id,
            )) ==> partial_check(events, tasks, decision_id, client_id, i) is Err,
        (forall|n: int| 0 <= n < events.len() ==> !was_sent_under(#[trigger] events[n], decision_id))
            && (i.decision == "continue"@ || forall|k: int|
            0 <= k < tasks.len() ==> text_field(#[trigger] tasks[k], "client_request_id"@) != Some(
                client_id,
            )) ==> partial_check(events, tasks, decision_id, client_id, i) is Ok,
        partial_check(events, tasks, decision_id, client_id, i) matches Err(e) ==> e.code
            == "relay_decision_conflict"@,
{
    let p = |e: EventV| is_artifact(e, decision_id);
    let made = |t: ObjV| text_field(t, "client_request_id"@) == Some(client_id);
    assert forall|n: int| 0 <= n < events.len() implies (p(#[trigger] events[n]) <==> was_sent_under(
        events[n],
        decision_id,
    )) by {
        lemma_was_sent_under(events[n], decision_id);
    }
    assert forall|n: int|
        0 <= n < events.len() && was_sent_under(#[trigger] events[n], decision_id) && (forall|
            m: int,
        |
            n < m < events.len() ==> !was_sent_under(#[trigger] events[m], decision_id))
            implies crate::lists::last_match(events, p) == Some(events[n]) by {
        assert forall|m: int| n < m < events.len() implies !p(#[trigger] events[m]) by {}
        lemma_last_at(events, p, n);
    }
    let w = lemma_last_where(events, p);
    if exists|k: int|
        0 <= k < tasks.len() && text_field(#[trigger] tasks[k], "client_request_id"@) == Some(
            client_id,
        ) {
        let k = choose|k: int|
            0 <= k < tasks.len() && text_field(#[trigger] tasks[k], "client_request_id"@) == Some(
                client_id,
            );
        assert(made(tasks[k]));
    }
    if some_match(tasks, made) {
        let k = choose|k: int| 0 <= k < tasks.len() && made(#[trigger] tasks[k]);
        assert(text_field(tasks[k], "client_request_id"@) == Some(client_id));
    }
}

/// Whether the entry at a place is the first with an id.
pub open spec fn is_the_entry(events: Seq<EventV>, n: int, id: Text) -> bool {
    &&& 0 <= n < events.len()
    &&& events[n].id == id
    &&& forall|m: int| 0 <= m < n ==> (#[trigger] events[m]).id != id
}

/// Whether an id names a message or a notice that is addressed to the one who decides.
pub open spec fn is_a_source(events: Seq<EventV>, addressed: Seq<Text>, id: Text) -> bool {
    exists|n: int| #[trigger]
        is_the_entry(events, n, id) && (events[n].kind == "chat.message"@ || events[n].kind
            == "system.notify"@) && addressed.contains(id)
}

proof fn lemma_event_by_id(events: Seq<EventV>, id: Text)
    ensures
        forall|n: int| #[trigger]
            is_the_entry(events, n, id) ==> event_by_id(events, id) == Some(events[n]),
        event_by_id(events, id) matches Some(e) ==> exists|n: int| #[trigger]
            is_the_entry(events, n, id) && events[n] == e,
{
    let p = |e: EventV| e.id == id;
    let k = lemma_first_where(events, p);
    assert forall|n: int| #[trigger] is_the_entry(events, n, id) implies event_by_id(events, id)
        == Some(events[n]) by {
        lemma_first_at(events, p, n);
    }
    if event_by_id(events, id) is Some {
        assert(is_the_entry(events, k, id));
    }
}

/// A decision takes as its sources exactly what it names, in this order, where each is a message or
/// a notice addressed to the one who decides; one that is not is refused.
pub proof fn sources_are_addressed_to_the_decider(
    events: Seq<EventV>,
    addressed: Seq<Text>,
    actor_id: Text,
    ids: Seq<Text>,
)
    ensures
        sources_of(events, addressed, actor_id, ids) is Ok <==> forall|k: int|
            0 <= k < ids.len() ==> is_a_source(events, addressed, #[trigger] ids[k]),
        sources_of(events, addressed, actor_id, ids) matches Ok(all) ==> all.len() == ids.len()
            && forall|k: int|
            0 <= k < ids.len() ==> (#[trigger] all[k]).id == ids[k] && events.contains(all[k]),
        sources_of(events, addressed, actor_id, ids) matches Err(e) ==> e.code == "event_not_found"@
            || e.code == "relay_event_not_for_actor"@,
    decreases ids.len(),
{
    if ids.len() > 0 {
        let d = ids.drop_last();
        let id = ids.last();
        sources_are_addressed_to_the_decider(events, addressed, actor_id, d);
        lemma_event_by_id(events, id);
        assert(ids[ids.len() - 1] == id);
        assert forall|k: int| 0 <= k < d.len() implies #[trigger] d[k] == ids[k] by {}
        assert(source(events, addressed, actor_id, id) is Ok <==> is_a_source(
            events,
            addressed,
            id,
        ));
        if sources_of(events, addressed, actor_id, d) is Ok && is_a_source(events, addressed, id) {
            assert forall|k: int| 0 <= k < ids.len() implies is_a_source(
                events,
                addressed,
                #[trigger] ids[k],
            ) by {
                if k < d.len() {
                    assert(d[k] == ids[k]);
                }
            }
        }
        if forall|k: int| 0 <= k < ids.len() ==> is_a_source(events, addressed, #[trigger] ids[k]) {
            assert forall|k: int| 0 <= k < d.len() implies is_a_source(
                events,
                addressed,
                #[trigger] d[k],
            ) by {
                assert(is_a_source(events, addressed, ids[k]));
            }
            assert(is_a_source(events, addressed, ids[ids.len() - 1]));
        }
        if let Ok(all) = sources_of(events, addressed, actor_id, ids) {
            let known = sources_of(events, addressed, actor_id, d)->Ok_0;
            assert forall|k: int| 0 <= k < ids.len() implies (#[trigger] all[k]).id == ids[k]
                && events.contains(all[k]) by {
                if k < d.len() {
                    assert(all[k] == known[k]);
                    assert(d[k] == ids[k]);
                }
            }
        }
    }
}

/// Whether an entry refers to a task.
pub open spec fn refers_to(e: EventV, id: Text) -> bool {
    exists|refs: Seq<JsonV>, k: int|
        e.data.contains_key("refs"@) && e.data["refs"@] == JsonV::Arr(refs) && 0 <= k < refs.len()
            && (#[trigger] refs[k]).at("kind"@) == JsonV::Str("task_ref"@) && refs[k].at(
            "task_id"@,
        ) == JsonV::Str(id)
}

proof fn lemma_task_refs(e: EventV, id: Text)
    ensures
        task_refs(e).contains(id) <==> refers_to(e, id),
{
    let f = |x: JsonV| crate::relay::sources::referenced_task(x);
    if let Some(refs) = list_field(e.data, "refs"@) {
        crate::lists::lemma_collected(refs, f);
        if task_refs(e).contains(id) {
            let k = choose|k: int| 0 <= k < refs.len() && f(#[trigger] refs[k]) == Some(id);
            assert(refs[k].at("kind"@) == JsonV::Str("task_ref"@));
        }
        if refers_to(e, id) {
            let (v, k) = choose|v: Seq<JsonV>, k: int|
                e.data.contains_key("refs"@) && e.data["refs"@] == JsonV::Arr(v) && 0 <= k < v.len()
                    && (#[trigger] v[k]).at("kind"@) == JsonV::Str("task_ref"@) && v[k].at(
                    "task_id"@,
                ) == JsonV::Str(id);
            assert(f(refs[k]) == Some(id));
        }
    }
}

/// Whether a source refers to a task, or a handoff names it.
pub open spec fn is_about(sources: Seq<EventV>, handoffs: Seq<EventV>, id: Text) -> bool {
    (exists|k: int| 0 <= k < sources.len() && refers_to(#[trigger] sources[k], id)) || (exists|k: int|
        0 <= k < handoffs.len() && lists_text((#[trigger] handoffs[k]).data, "task_ids"@, id))
}

proof fn lemma_tasks_of_events(events: Seq<EventV>)
    ensures
        increasing(tasks_of_events(events)),
        forall|id: Text| #[trigger]
            tasks_of_events(events).contains(id) <==> exists|k: int|
                0 <= k < events.len() && refers_to(#[trigger] events[k], id),
    decreases events.len(),
{
    if events.len() > 0 {
        let d = events.drop_last();
        lemma_tasks_of_events(d);
        inserting_all_keeps_order(tasks_of_events(d), task_refs(events.last()));
        assert forall|id: Text| #[trigger]
            tasks_of_events(events).contains(id) <==> exists|k: int|
                0 <= k < events.len() && refers_to(#[trigger] events[k], id) by {
            lemma_task_refs(events.last(), id);
            assert(events[events.len() - 1] == events.last());
            if tasks_of_events(d).contains(id) {
                let k = choose|k: int| 0 <= k < d.len() && refers_to(#[trigger] d[k], id);
                assert(events[k] == d[k]);
            }
            if exists|k: int| 0 <= k < events.len() && refers_to(#[trigger] events[k], id) {
                let k = choose|k: int| 0 <= k < events.len() && refers_to(#[trigger] events[k], id);
                if k < d.len() {
                    assert(d[k] == events[k]);
                }
            }
        }
    }
}

proof fn lemma_with_handoff_tasks(ids: Seq<Text>, handoffs: Seq<EventV>)
    requires
        increasing(ids),
    ensures
        increasing(with_handoff_tasks(ids, handoffs)),
        forall|id: Text| #[trigger]
            with_handoff_tasks(ids, handoffs).contains(id) <==> ids.contains(id) || exists|k: int|
                0 <= k < handoffs.len() && lists_text(
                    (#[trigger] handoffs[k]).data,
                    "task_ids"@,
                    id,
                ),
    decreases handoffs.len(),
{
    if handoffs.len() > 0 {
        let d = handoffs.drop_last();
        lemma_with_handoff_tasks(ids, d);
        inserting_all_keeps_order(
            with_handoff_tasks(ids, d),
            handoffs.last().strings("task_ids"@),
        );
        assert forall|id: Text| #[trigger]
            with_handoff_tasks(ids, handoffs).contains(id) <==> ids.contains(id) || exists|k: int|
                0 <= k < handoffs.len() && lists_text(
                    (#[trigger] handoffs[k]).data,
                    "task_ids"@,
                    id,
                ) by {
            a_list_reads_as_its_texts(handoffs.last().data, "task_ids"@, id);
            assert(handoffs[handoffs.len() - 1] == handoffs.last());
            if exists|k: int| 0 <= k < d.len() && lists_text((#[trigger] d[k]).data, "task_ids"@, id) {
                let k = choose|k: int|
                    0 <= k < d.len() && lists_text((#[trigger] d[k]).data, "task_ids"@, id);
                assert(handoffs[k] == d[k]);
            }
            if exists|k: int|
                0 <= k < handoffs.len() && lists_text(
                    (#[trigger] handoffs[k]).data,
                    "task_ids"@,
                    id,
                ) {
                let k = choose|k: int|
                    0 <= k < handoffs.len() && lists_text(
                        (#[trigger] handoffs[k]).data,
                        "task_ids"@,
                        id,
                    );
                if k < d.len() {
                    assert(d[k] == handoffs[k]);
                }
            }
        }
    }
}

/// Whether an actor reported: it made one of the handoffs or wrote one of the sources.
pub open spec fn has_reported(sources: Seq<EventV>, handoffs: Seq<EventV>, actor: Text) -> bool {
    actor.len() > 0 && ((exists|k: int|
        0 <= k < handoffs.len() && text_field((#[trigger] handoffs[k]).data, "source_actor_id"@)
            == Some(actor)) || (exists|k: int|
        0 <= k < sources.len() && (#[trigger] sources[k]).by == actor))
}

/// Whether a task is assigned to an actor that reported.
pub open spec fn is_a_reporters(sources: Seq<EventV>, handoffs: Seq<EventV>, t: ObjV) -> bool {
    text_field(t, "assignee"@) matches Some(a) && has_reported(sources, handoffs, a)
}

proof fn lemma_source_owned(sources: Seq<EventV>, handoffs: Seq<EventV>, t: ObjV)
    ensures
        source_owned(handoffs, sources, t) <==> is_a_reporters(sources, handoffs, t),
{
    if let Some(a) = text_field(t, "assignee"@) {
        let made = |h: EventV| text_field(h.data, "source_actor_id"@) == Some(a);
        let wrote = |s: EventV| s.by == a;
        if some_match(handoffs, made) {
            let k = choose|k: int| 0 <= k < handoffs.len() && made(#[trigger] handoffs[k]);
            assert(text_field(handoffs[k].data, "source_actor_id"@) == Some(a));
        }
        if some_match(sources, wrote) {
            let k = choose|k: int| 0 <= k < sources.len() && wrote(#[trigger] sources[k]);
            assert(sources[k].by == a);
        }
        if exists|k: int|
            0 <= k < handoffs.len() && text_field((#[trigger] handoffs[k]).data, "source_actor_id"@)
                == Some(a) {
            let k = choose|k: int|
                0 <= k < handoffs.len() && text_field(
                    (#[trigger] handoffs[k]).data,
                    "source_actor_id"@,
                ) == Some(a);
            assert(made(handoffs[k]));
        }
        if exists|k: int| 0 <= k < sources.len() && (#[trigger] sources[k]).by == a {
            let k = choose|k: int| 0 <= k < sources.len() && (#[trigger] sources[k]).by == a;
            assert(wrote(sources[k]));
        }
    }
}

/// Whether some task has an id.
pub open spec fn is_there(tasks: Seq<ObjV>, id: Text) -> bool {
    exists|i: int| #[trigger] is_named(tasks, i, id)
}

proof fn lemma_is_there(tasks: Seq<ObjV>, id: Text)
    ensures
        task_by_id(tasks, id) is Some <==> is_there(tasks, id),
        forall|i: int| #[trigger]
            is_named(tasks, i, id) ==> task_by_id(tasks, id) == Some(tasks[i]),
{
    let p = |t: ObjV| text_field(t, "id"@) == Some(id);
    let k = lemma_first_where(tasks, p);
    assert forall|i: int| #[trigger] is_named(tasks, i, id) implies task_by_id(tasks, id) == Some(
        tasks[i],
    ) by {
        lemma_first_at(tasks, p, i);
    }
    if task_by_id(tasks, id) is Some {
        assert(is_named(tasks, k, id));
    }
}

/// A decision is about the tasks that its sources refer to and its handoffs name, as far as they are
/// there; about a task that the request names where that is one of them or is assigned to a member
/// that reported, which it has to be; and where there is none, about the one live task of the
/// members that reported, if there is just one.
pub proof fn a_decision_is_about_the_reported_tasks(
    args: ObjV,
    sources: Seq<EventV>,
    handoffs: Seq<EventV>,
    tasks: Seq<ObjV>,
)
    ensures
        ({
            let r = decided_tasks(args, sources, handoffs, tasks);
            let named = match text_field(args, "task_id"@) {
                Some(t) => trimmed(t),
                None => Seq::empty(),
            };
            &&& named.len() == 0 ==> r is Ok
            &&& named.len() > 0 && !is_there(tasks, named) ==> (r matches Err(e) && e.code
                == "relay_task_not_found"@)
            &&& named.len() > 0 ==> forall|i: int| #[trigger]
                is_named(tasks, i, named) ==> if is_about(sources, handoffs, named)
                    || is_a_reporters(sources, handoffs, tasks[i]) {
                    r matches Ok(ids) && ids.contains(named)
                } else {
                    r matches Err(e) && e.code == "relay_task_not_owned"@
                }
            &&& r matches Ok(ids) ==> {
                &&& forall|id: Text|
                    is_there(tasks, id) && #[trigger] is_about(sources, handoffs, id) ==> ids.contains(
                        id,
                    )
                &&& forall|id: Text| #[trigger]
                    ids.contains(id) ==> (is_there(tasks, id) && (is_about(sources, handoffs, id)
                        || id == named && named.len() > 0)) || (ids.len() == 1 && exists|i: int|
                        0 <= i < tasks.len() && text_field(#[trigger] tasks[i], "id"@) == Some(id)
                            && text_field(tasks[i], "status"@) != Some("done"@) && text_field(
                            tasks[i],
                            "status"@,
                        ) != Some("archived"@) && is_a_reporters(sources, handoffs, tasks[i]))
            }
        }),
{
    let refs = referenced(sources, handoffs);
    lemma_tasks_of_events(sources);
    lemma_with_handoff_tasks(tasks_of_events(sources), handoffs);
    assert forall|id: Text| #[trigger] refs.contains(id) <==> is_about(sources, handoffs, id) by {}
    assert forall|id: Text| #[trigger] is_there(tasks, id) <==> task_by_id(tasks, id) is Some by {
        lemma_is_there(tasks, id);
    }
    let named = match text_field(args, "task_id"@) {
        Some(t) => trimmed(t),
        None => Seq::empty(),
    };
    lemma_is_there(tasks, named);
    if let Some(t) = task_by_id(tasks, named) {
        lemma_source_owned(sources, handoffs, t);
    }
    let all = if named.len() == 0 {
        refs
    } else {
        crate::order::with_sorted(refs, named)
    };
    inserting_all_keeps_order(refs, seq![named]);
    assert(seq![named].drop_last() =~= Seq::<Text>::empty());
    assert(seq![named].last() == named);
    assert(crate::order::with_all_sorted(refs, Seq::empty()) == refs);
    assert(crate::order::with_all_sorted(refs, seq![named]) == crate::order::with_sorted(
        refs,
        named,
    ));
    assert(seq![named][0] == named);
    assert forall|id: Text| #[trigger] all.contains(id) <==> refs.contains(id) || (named.len() > 0
        && id == named) by {
        assert(seq![named].contains(id) <==> id == named);
    }
    let p = |id: Text| task_by_id(tasks, id) is Some;
    lemma_selection(all, p);
    let f = |t: ObjV|
        if live(t) && source_owned(handoffs, sources, t) {
            text_field(t, "id"@)
        } else {
            None
        };
    crate::lists::lemma_collected(tasks, f);
    let guess = candidates(tasks, handoffs, sources);
    assert forall|id: Text| guess.contains(id) implies exists|i: int|
        0 <= i < tasks.len() && text_field(#[trigger] tasks[i], "id"@) == Some(id) && text_field(
            tasks[i],
            "status"@,
        ) != Some("done"@) && text_field(tasks[i], "status"@) != Some("archived"@)
            && is_a_reporters(sources, handoffs, tasks[i]) by {
        let i = choose|i: int| 0 <= i < tasks.len() && f(#[trigger] tasks[i]) == Some(id);
        lemma_source_owned(sources, handoffs, tasks[i]);
        crate::relay::outcomes::a_task_is_work_while_it_is_live(tasks[i]);
    }
    let known = all.filter(p);
    let r = decided_tasks(args, sources, handoffs, tasks);
    if let Ok(ids) = r {
        assert(ids == existing_or_inferred(all, tasks, handoffs, sources));
        assert(ids == if known.len() == 0 && guess.len() == 1 {
            guess
        } else {
            known
        });
        assert forall|id: Text|
            is_there(tasks, id) && #[trigger] is_about(sources, handoffs, id) implies ids.contains(
            id,
        ) by {
            assert(refs.contains(id));
            assert(all.contains(id));
            assert(known.contains(id));
        }
        if named.len() > 0 {
            assert(all.contains(named));
            assert(is_there(tasks, named));
            assert(known.contains(named));
        }
        assert forall|id: Text| #[trigger] ids.contains(id) implies (is_there(tasks, id) && (
        is_about(sources, handoffs, id) || id == named && named.len() > 0)) || (ids.len() == 1
            && exists|i: int|
            0 <= i < tasks.len() && text_field(#[trigger] tasks[i], "id"@) == Some(id)
                && text_field(tasks[i], "status"@) != Some("done"@) && text_field(
                tasks[i],
                "status"@,
            ) != Some("archived"@) && is_a_reporters(sources, handoffs, tasks[i])) by {
            if known.contains(id) {
                assert(all.contains(id));
                assert(refs.contains(id) || id == named);
                assert(is_there(tasks, id));
            }
        }
    }
}

/// Whether a handoff to an actor covers a source.
pub open spec fn is_handed_over(events: Seq<EventV>, target: Text, id: Text) -> bool {
    exists|i: int|
        0 <= i < events.len() && (#[trigger] events[i]).kind == "coordination.handoff"@
            && text_field(events[i].data, "target_actor_id"@) == Some(target) && lists_text(
            events[i].data,
            "source_event_ids"@,
            id,
        )
}

proof fn lemma_covered(events: Seq<EventV>, target: Text, sources: Seq<EventV>, k: int)
    requires
        0 <= k < sources.len(),
    ensures
        covered(events, target, sources, sources[k].id) <==> is_handed_over(
            events,
            target,
            sources[k].id,
        ),
{
    let id = sources[k].id;
    if covered(events, target, sources, id) {
        let i = choose|i: int|
            0 <= i < events.len() && covers_some(#[trigger] events[i], target, event_ids(sources))
                && events[i].strings("source_event_ids"@).contains(id);
        a_list_reads_as_its_texts(events[i].data, "source_event_ids"@, id);
        assert(events[i].kind == "coordination.handoff"@);
    }
    if is_handed_over(events, target, id) {
        let i = choose|i: int|
            0 <= i < events.len() && (#[trigger] events[i]).kind == "coordination.handoff"@
                && text_field(events[i].data, "target_actor_id"@) == Some(target) && lists_text(
                events[i].data,
                "source_event_ids"@,
                id,
            );
        a_list_reads_as_its_texts(events[i].data, "source_event_ids"@, id);
        let own = events[i].strings("source_event_ids"@);
        let m = choose|m: int| 0 <= m < own.len() && own[m] == id;
        assert(event_ids(sources)[k] == id);
        assert(event_ids(sources).contains(own[m]));
        assert(covers_some(events[i], target, event_ids(sources)));
    }
}

/// Whether an entry is the report of a member: not of the user, of the system, of nobody, or of the
/// one it is for.
pub open spec fn is_of_a_member(e: EventV, target: Text) -> bool {
    e.by.len() > 0 && e.by != "user"@ && e.by != "system"@ && e.by != target
}

/// A source that no handoff covers yet becomes a handoff of its own where it is the report of a
/// member; one that is not a member's is refused. Nothing that is covered is handed over again.
pub proof fn reports_become_handoffs(events: Seq<EventV>, target: Text, sources: Seq<EventV>, n: nat)
    requires
        n <= sources.len(),
    ensures
        ({
            let (known, refused) = implicit(events, target, sources, n);
            &&& refused is None <==> forall|k: int|
                0 <= k < n && !is_handed_over(events, target, (#[trigger] sources[k]).id)
                    ==> is_of_a_member(sources[k], target)
            &&& refused is None ==> forall|k: int|
                0 <= k < n && !is_handed_over(events, target, (#[trigger] sources[k]).id)
                    ==> known.contains(sources[k])
            &&& forall|e: EventV| #[trigger]
                known.contains(e) ==> is_of_a_member(e, target) && !is_handed_over(
                    events,
                    target,
                    e.id,
                ) && sources.contains(e)
            &&& refused matches Some(e) ==> e.code == "relay_handoff_missing"@
        }),
    decreases n,
{
    if n > 0 {
        let m = (n - 1) as nat;
        reports_become_handoffs(events, target, sources, m);
        let s = sources[n - 1];
        lemma_covered(events, target, sources, n - 1);
        let (before_it, stopped) = implicit(events, target, sources, m);
        let (known, refused) = implicit(events, target, sources, n);
        assert(is_member_report(s, target) == is_of_a_member(s, target));
        assert(sources.contains(s));
        assert forall|e: EventV| #[trigger] known.contains(e) implies is_of_a_member(e, target)
            && !is_handed_over(events, target, e.id) && sources.contains(e) by {
            let k = choose|k: int| 0 <= k < known.len() && known[k] == e;
            if k < before_it.len() {
                assert(before_it[k] == e);
                assert(before_it.contains(e));
            }
        }
        if refused is None {
            assert forall|k: int|
                0 <= k < n && !is_handed_over(events, target, (#[trigger] sources[k]).id)
                    implies known.contains(sources[k]) by {
                if k < m {
                    assert(before_it.contains(sources[k]));
                    let j = choose|j: int|
                        0 <= j < before_it.len() && before_it[j] == sources[k];
                    assert(known[j] == sources[k]);
                } else {
                    assert(known[before_it.len() as int] == s);
                }
            }
        }
    }
}

/// A report that becomes a handoff of its own is from its writer to the one who decides, under a
/// turn of its own that says where it comes from.
pub proof fn a_report_is_handed_over_by_its_writer(group_id: Text, e: EventV, target: Text)
    ensures
        ({
            let t = implicit_turn(group_id, e, target);
            &&& t.group_id == group_id
            &&& t.source_actor_id == e.by
            &&& t.target_actor_id == target
            &&& t.turn_id == "implicit:"@ + e.id
            &&& t.status == "reported"@
        }),
{
}

/// The handoff of a turn is recorded where there are reports and none is recorded yet: from the
/// member to the one it works for, with all of its reports and the tasks that they refer to, waiting
/// for review. One that is there already is kept.
pub proof fn a_handoff_holds_its_reports(
    turn: TurnV,
    reports: Seq<EventV>,
    events: Seq<EventV>,
    coordination: ObjV,
    now: Text,
)
    ensures
        ({
            let r = handoff_plan(turn, reports, events, coordination, now);
            let id = short_digest(turn.handoff());
            &&& reports.len() == 0 ==> (r matches Err(e) && e.code == "relay_source_required"@)
            &&& reports.len() > 0 && event_by_id(events, id) is None ==> (r matches Ok(p) && (
            p.append matches Some(e) && {
                &&& e.id == id
                &&& e.kind == "coordination.handoff"@
                &&& e.group_id == turn.group_id
                &&& e.by == turn.source_actor_id
                &&& e.ts == now
                &&& text_field(e.data, "handoff_id"@) == Some(turn.handoff())
                &&& text_field(e.data, "source_actor_id"@) == Some(turn.source_actor_id)
                &&& text_field(e.data, "target_actor_id"@) == Some(turn.target_actor_id)
                &&& text_field(e.data, "turn_id"@) == Some(turn.turn_id)
                &&& text_field(e.data, "turn_status"@) == Some(turn.status)
                &&& text_field(e.data, "status"@) == Some("pending_review"@)
                &&& e.data["source_event_ids"@] == text_array(
                    reports.map_values(|x: EventV| x.id),
                )
                &&& e.data["task_ids"@] == text_array(tasks_of_events(reports))
                &&& p.handoff == e
            }))
            &&& reports.len() > 0 && (event_by_id(events, id) matches Some(known)) ==> {
                let known = event_by_id(events, id)->0;
                if known.kind == "coordination.handoff"@ && text_field(known.data, "handoff_id"@)
                    == Some(turn.handoff()) {
                    r matches Ok(p) && p.append is None && p.handoff.id == known.id
                        && p.handoff.kind == known.kind
                } else {
                    r matches Err(e) && e.code == "relay_handoff_conflict"@
                }
            }
        }),
{
    lemma_record_words();
}

/// Whose turn it is once a decision is made: the next actor's with the next task, the user's,
/// something outside's with the reason, or nobody's.
pub open spec fn passes_to(responsibility: JsonV, i: IntentV, next_task_id: Text) -> bool {
    let kind = responsibility.at("kind"@);
    &&& i.decision == "continue"@ ==> kind == JsonV::Str("actor"@) && responsibility.at(
        "actor_id"@,
    ) == JsonV::Str(i.next_actor_id) && responsibility.at("task_id"@) == JsonV::Str(next_task_id)
    &&& i.decision == "wait_user"@ ==> kind == JsonV::Str("user"@)
    &&& i.decision == "blocked"@ ==> kind == JsonV::Str("external"@) && responsibility.at(
        "reason"@,
    ) == JsonV::Str(i.reason)
    &&& i.decision == "complete"@ ==> kind == JsonV::Str("none"@)
}

/// What a decision says in one line.
pub open spec fn in_one_line(i: IntentV) -> Text {
    if i.decision == "continue"@ {
        "Continue with "@ + i.next_actor_id + ": "@ + i.next_title
    } else if i.decision == "wait_user"@ {
        "Waiting for user"@
    } else if i.decision == "complete"@ {
        "Complete"@
    } else {
        "Blocked: "@ + i.reason
    }
}

/// Whether a note says that a handoff was resolved by a decision.
pub open spec fn notes_resolved(note: ObjV, h: EventV, f: FactsV, now: Text) -> bool {
    &&& text_field(note, "op"@) == Some("coordination.relay.note"@)
    &&& text_field(note, "kind"@) == Some("handoff"@)
    &&& note["id"@] == JsonV::Obj(h.data).at("handoff_id"@)
    &&& text_field(note, "status"@) == Some("resolved"@)
    &&& text_field(note, "decision"@) == Some(f.decision)
    &&& text_field(note, "decision_id"@) == Some(f.decision_id)
    &&& text_field(note, "resolved_at"@) == Some(now)
    &&& text_field(note, "resolved_by"@) == Some(f.by)
    &&& text_field(note, "at"@) == Some(h.ts)
    &&& note["source_actor_id"@] == JsonV::Obj(h.data).at("source_actor_id"@)
    &&& note["target_actor_id"@] == JsonV::Obj(h.data).at("target_actor_id"@)
    &&& note["turn_id"@] == JsonV::Obj(h.data).at("turn_id"@)
}

/// Whether a note is that of a decision.
pub open spec fn notes_decision(note: ObjV, f: FactsV) -> bool {
    &&& text_field(note, "op"@) == Some("coordination.relay.note"@)
    &&& text_field(note, "kind"@) == Some("decision"@)
    &&& text_field(note, "id"@) == Some(f.decision_id)
    &&& text_field(note, "decision"@) == Some(f.decision)
    &&& text_field(note, "status"@) == Some("applied"@)
    &&& text_field(note, "summary"@) == Some(f.summary)
    &&& text_field(note, "reason"@) == Some(f.reason)
    &&& text_field(note, "by"@) == Some(f.by)
    &&& note["source_event_ids"@] == text_array(f.source_event_ids)
    &&& note["handoff_ids"@] == text_array(f.handoff_ids)
    &&& note["responsibility"@] == f.responsibility
}

/// What is drafted of a decision: it says what was asked, and by whom, of which sources, handoffs
/// and tasks; its operations move its tasks, then note each of its handoffs as resolved, and last
/// note the decision itself.
pub proof fn a_decision_is_drafted_as_asked(
    tasks: Seq<ObjV>,
    d: DraftV,
    task_ids: Seq<Text>,
    next_task_id: Text,
    visible_event_id: Text,
    now: Text,
)
    requires
        d.intent.decision == "continue"@ || d.intent.decision == "wait_user"@ || d.intent.decision
            == "complete"@ || d.intent.decision == "blocked"@,
    ensures
        reread_step(tasks, d, task_ids, next_task_id, visible_event_id, now)
            matches DecideStepV::Preview(e, f, ops) && {
            let moves = all_task_moves(tasks, task_ids, d.intent.decision, d.intent.reason);
            let hs = d.scope.handoffs;
            &&& e == d
            &&& f.decision_id == d.scope.decision_id
            &&& f.request_fingerprint == d.intent.fingerprint
            &&& f.by == d.intent.by
            &&& f.decision == d.intent.decision
            &&& f.reason == d.intent.reason
            &&& f.summary == in_one_line(d.intent)
            &&& f.source_event_ids == d.scope.source_event_ids
            &&& f.handoff_ids == d.scope.handoff_ids
            &&& f.task_ids == task_ids
            &&& f.next_task_id == next_task_id
            &&& f.visible_event_id == visible_event_id
            &&& passes_to(f.responsibility, d.intent, next_task_id)
            &&& ops.len() == moves.len() + hs.len() + 1
            &&& forall|k: int| 0 <= k < moves.len() ==> #[trigger] ops[k] == moves[k]
            &&& forall|k: int|
                0 <= k < hs.len() ==> notes_resolved(ops[moves.len() + k], #[trigger] hs[k], f, now)
            &&& notes_decision(ops.last(), f)
        },
{
    lemma_record_words();
    lemma_decisions();
}

/// What is recorded of a decision: an entry by the one who decided, with what it decided, of which
/// sources, handoffs and tasks, and whose turn it is; and the operations as drafted, the last of
/// which also tells whether the group and the caller may idle.
pub proof fn a_decision_is_recorded_as_drafted(
    g: GroupV,
    events: Seq<EventV>,
    previewed: Seq<ObjV>,
    d: DraftV,
    f: FactsV,
    ops: Seq<ObjV>,
    now: Text,
)
    requires
        ops.len() > 0,
    ensures
        preview_step(g, events, previewed, d, f, ops, now) matches DecideStepV::Commit(v) ==> {
            let m = v.event.data;
            let safe = m["safe_to_idle"@];
            let caller = m["caller_may_idle"@];
            &&& v.event.kind == "coordination.decision"@
            &&& v.event.id == d.scope.event_id
            &&& v.event.by == f.by
            &&& v.event.group_id == g.group_id
            &&& v.event.ts == now
            &&& text_field(m, "decision_id"@) == Some(f.decision_id)
            &&& text_field(m, "request_fingerprint"@) == Some(f.request_fingerprint)
            &&& text_field(m, "by"@) == Some(f.by)
            &&& text_field(m, "decision"@) == Some(f.decision)
            &&& text_field(m, "summary"@) == Some(f.summary)
            &&& text_field(m, "reason"@) == Some(f.reason)
            &&& text_field(m, "status"@) == Some("applied"@)
            &&& text_field(m, "next_task_id"@) == Some(f.next_task_id)
            &&& text_field(m, "visible_event_id"@) == Some(f.visible_event_id)
            &&& m["source_event_ids"@] == text_array(f.source_event_ids)
            &&& m["handoff_ids"@] == text_array(f.handoff_ids)
            &&& m["task_ids"@] == text_array(f.task_ids)
            &&& m["responsibility"@] == f.responsibility
            &&& v.operations.len() == ops.len()
            &&& v.operations.drop_last() == ops.drop_last()
            &&& v.operations.last()["safe_to_idle"@] == safe
            &&& v.operations.last()["caller_may_idle"@] == caller
            &&& notes_decision(ops.last(), f) ==> notes_decision(v.operations.last(), f)
        },
        !(preview_step(g, events, previewed, d, f, ops, now) is Commit) ==> f.decision
            == "complete"@ && (preview_step(g, events, previewed, d, f, ops, now)
            matches DecideStepV::Refused(e) && e.code == "relay_work_remains"@),
{
    lemma_record_words();
    if let DecideStepV::Commit(v) = preview_step(g, events, previewed, d, f, ops, now) {
        assert(v.operations.drop_last() =~= ops.drop_last());
    }
}

/// A decision leaves its group safe to idle exactly where it hands no work on, no other open handoff
/// of the foreman remains, and no task is left: no live one if all is complete, and no work of an
/// actor if something is waited for.
pub proof fn a_decision_tells_what_is_left(
    g: GroupV,
    events: Seq<EventV>,
    previewed: Seq<ObjV>,
    d: DraftV,
    f: FactsV,
    ops: Seq<ObjV>,
    now: Text,
)
    requires
        ops.len() > 0,
        f.decision == "continue"@ || f.decision == "wait_user"@ || f.decision == "complete"@
            || f.decision == "blocked"@,
    ensures
        preview_step(g, events, previewed, d, f, ops, now) matches DecideStepV::Commit(v) ==> {
            let others = crate::relay::decide::others_open(events, f.by, f.handoff_ids);
            let some_live = exists|i: int| 0 <= i < previewed.len() && live(#[trigger] previewed[i]);
            let some_work = exists|i: int|
                0 <= i < previewed.len() && crate::relay::work::actor_work(#[trigger] previewed[i]);
            v.event.data["safe_to_idle"@] == JsonV::Bool(
                f.decision != "continue"@ && others == 0 && (if f.decision == "complete"@ {
                    !some_live
                } else {
                    !some_work
                }),
            )
        },
{
    lemma_record_words();
    lemma_decisions();
    let lives = |t: ObjV| live(t);
    let works = |t: ObjV| crate::relay::work::actor_work(t);
    if some_match(previewed, lives) {
        let i = choose|i: int| 0 <= i < previewed.len() && lives(#[trigger] previewed[i]);
        assert(live(previewed[i]));
    }
    if some_match(previewed, works) {
        let i = choose|i: int| 0 <= i < previewed.len() && works(#[trigger] previewed[i]);
        assert(crate::relay::work::actor_work(previewed[i]));
    }
    if exists|i: int| 0 <= i < previewed.len() && live(#[trigger] previewed[i]) {
        let i = choose|i: int| 0 <= i < previewed.len() && live(#[trigger] previewed[i]);
        assert(lives(previewed[i]));
    }
    if exists|i: int|
        0 <= i < previewed.len() && crate::relay::work::actor_work(#[trigger] previewed[i]) {
        let i = choose|i: int|
            0 <= i < previewed.len() && crate::relay::work::actor_work(#[trigger] previewed[i]);
        assert(works(previewed[i]));
    }
}

/// The answer to a decision tells the entry that was recorded, whether it was there before, and
/// what the group is left with now.
pub proof fn the_answer_tells_the_recorded_decision(e: EventV, current: JsonV, replayed: bool)
    ensures
        ({
            let m = decision_answer(e, current, replayed);
            let by = match text_field(e.data, "by"@) {
                Some(t) => t,
                None => e.by,
            };
            &&& m["relay"@] == JsonV::Obj(e.data)
            &&& m["decision_event_id"@] == JsonV::Str(e.id)
            &&& m["replayed"@] == JsonV::Bool(replayed)
            &&& m["caller_may_idle"@] == JsonV::Bool(may_idle(current, by))
            &&& m["safe_to_idle"@] == current.at("safe_to_idle"@)
            &&& m["current_responsibility"@] == current.at("responsibility"@)
            &&& m["current_responsibilities"@] == current.at("responsibilities"@)
        }),
{
    lemma_record_words();
}

/// A turn of the foreman that is under way is ended by a decision exactly where every event of it
/// was handled; what ends it is its own turn, with its own events, as done.
pub proof fn a_handled_turn_is_released(
    state: JsonV,
    handled_ids: Seq<Text>,
    group_id: Text,
    actor_id: Text,
    decision_id: Text,
)
    ensures
        ({
            let active = strings_at(state, "active_event_ids"@);
            let turn = match state.at("active_turn_id"@) {
                JsonV::Str(t) => t,
                _ => Seq::empty(),
            };
            let q = release_request(state, group_id, actor_id, decision_id);
            &&& turn_is_handled(state, handled_ids) <==> state.at("status"@) == JsonV::Str(
                "working"@,
            ) && active.len() > 0 && turn.len() > 0 && forall|k: int|
                0 <= k < active.len() ==> handled_ids.contains(#[trigger] active[k])
            &&& q.op == "runtime_complete_turn"@
            &&& text_field(q.args, "group_id"@) == Some(group_id)
            &&& text_field(q.args, "actor_id"@) == Some(actor_id)
            &&& text_field(q.args, "by"@) == Some(actor_id)
            &&& text_field(q.args, "turn_id"@) == Some(turn)
            &&& q.args["event_ids"@] == text_array(active)
            &&& text_field(q.args, "status"@) == Some("done"@)
        }),
{
    lemma_record_words();
}

/// What a decision handles is its sources, and the reminders of its handoffs along with them.
pub proof fn a_decision_handles_the_reminders_too(
    events: Seq<EventV>,
    source_ids: Seq<Text>,
    handoff_ids: Seq<Text>,
    id: Text,
)
    ensures
        handled(events, source_ids, handoff_ids).contains(id) <==> source_ids.contains(id) || exists|
            i: int,
            h: Text,
        |
            0 <= i < events.len() && (#[trigger] events[i]).id == id && events[i].kind
                == "chat.message"@ && text_field(events[i].data, "relay_kind"@) == Some(
                "decision_reminder"@,
            ) && handoff_ids.contains(h) && #[trigger] lists_text(
                events[i].data,
                "relay_handoff_ids"@,
                h,
            ),
{
    let f = |e: EventV|
        if crate::relay::facts::reminds_of(e, handoff_ids) {
            Some(e.id)
        } else {
            None
        };
    sorted_set_holds_the_same_texts_in_order(source_ids);
    inserting_all_keeps_order(sorted_set(source_ids), reminder_ids(events, handoff_ids));
    crate::lists::lemma_collected(events, f);
    assert(sorted_set(source_ids).contains(id) <==> source_ids.contains(id));
    if reminder_ids(events, handoff_ids).contains(id) {
        let i = choose|i: int| 0 <= i < events.len() && f(#[trigger] events[i]) == Some(id);
        let own = events[i].strings("relay_handoff_ids"@);
        let k = choose|k: int| 0 <= k < own.len() && handoff_ids.contains(#[trigger] own[k]);
        assert(own.contains(own[k]));
        a_list_reads_as_its_texts(events[i].data, "relay_handoff_ids"@, own[k]);
        assert(events[i].id == id);
        assert(lists_text(events[i].data, "relay_handoff_ids"@, own[k]));
    }
    if exists|i: int, h: Text|
        0 <= i < events.len() && (#[trigger] events[i]).id == id && events[i].kind
            == "chat.message"@ && text_field(events[i].data, "relay_kind"@) == Some(
            "decision_reminder"@,
        ) && handoff_ids.contains(h) && #[trigger] lists_text(
            events[i].data,
            "relay_handoff_ids"@,
            h,
        ) {
        let (i, h) = choose|i: int, h: Text|
            0 <= i < events.len() && (#[trigger] events[i]).id == id && events[i].kind
                == "chat.message"@ && text_field(events[i].data, "relay_kind"@) == Some(
                "decision_reminder"@,
            ) && handoff_ids.contains(h) && #[trigger] lists_text(
                events[i].data,
                "relay_handoff_ids"@,
                h,
            );
        a_list_reads_as_its_texts(events[i].data, "relay_handoff_ids"@, h);
        let own = events[i].strings("relay_handoff_ids"@);
        let k = choose|k: int| 0 <= k < own.len() && own[k] == h;
        assert(handoff_ids.contains(own[k]));
        assert(f(events[i]) == Some(id));
    }
}

} // verus!
