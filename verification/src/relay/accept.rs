//! What follows a recorded decision: marking its sources as accepted and releasing the turn that
//! they were delivered in.

use crate::json::{or_empty, strings, text_array, text_or_empty, Json, JsonMap, JsonV};
use crate::json_access::{json_texts, strings_of};
use crate::lists::{any_of, lemma_views, lemma_views_push, select, some_match};
use crate::model::{
    ledger, outcome, refusal, DaemonRequest, ErrV, Event, EventV, GroupDoc, GroupV, OpError,
    RequestV,
};
use crate::relay::decide::{all_in, all_listed, decided_by, decision_actor};
use crate::relay::facts::{
    delivery_state, escalated, escalation_for_handoff, event_string_list, handled,
    handled_source_ids, latest_delivery_state, unresolved_handoffs_for_group,
};
use crate::relay::ids::DECISION_KIND;
use crate::text::{str_eq, texts, Text};
use vstd::prelude::*;
use vstd::string::*;

verus! {

broadcast use {lemma_views, lemma_views_push};

/// The deliveries to record after a decision: the actor's creation time, all events that the
/// decision handles, and those of them not yet accepted.
pub struct Acceptance {
    pub created_at: String,
    pub handled: Vec<String>,
    pub accept: Vec<String>,
}

/// The mathematical value of the deliveries to record.
pub struct AcceptanceV {
    pub created_at: Text,
    pub handled: Seq<Text>,
    pub accept: Seq<Text>,
}

impl View for Acceptance {
    type V = AcceptanceV;

    open spec fn view(&self) -> AcceptanceV {
        AcceptanceV {
            created_at: self.created_at@,
            handled: texts(self.handled@),
            accept: texts(self.accept@),
        }
    }
}

/// Whether the latest delivery of the event to the actor was accepted.
pub open spec fn is_accepted(events: Seq<EventV>, actor_id: Text, id: Text) -> bool {
    delivery_state(events, actor_id, id) == "accepted"@
}

fn accepted(events: &Vec<Event>, actor_id: &str, id: &str) -> (r: bool)
    ensures
        r == is_accepted(ledger(events@), actor_id@, id@),
{
    let s = latest_delivery_state(events, actor_id, id);
    str_eq(s.as_str(), "accepted")
}

/// The deliveries to record after a decision of an actor.
pub open spec fn acceptance(
    g: GroupV,
    events: Seq<EventV>,
    actor_id: Text,
    source_ids: Seq<Text>,
    handoff_ids: Seq<Text>,
) -> Result<AcceptanceV, ErrV> {
    match g.find(actor_id) {
        None => Err(refusal("relay_actor_not_found"@, "actor not found: "@ + actor_id)),
        Some(a) => {
            let all = handled(events, source_ids, handoff_ids);
            Ok(
                AcceptanceV {
                    created_at: a.created_at,
                    handled: all,
                    accept: all.filter(|id: Text| !is_accepted(events, actor_id, id)),
                },
            )
        },
    }
}

/// The deliveries to record after a decision of an actor: every event that it handles and that is
/// not accepted yet.
pub fn accept_handled_sources(
    group: &GroupDoc,
    events: &Vec<Event>,
    actor_id: &str,
    source_event_ids: &Vec<String>,
    handoff_ids: &Vec<String>,
) -> (r: Result<Acceptance, OpError>)
    ensures
        outcome(r) == acceptance(
            group@,
            ledger(events@),
            actor_id@,
            texts(source_event_ids@),
            texts(handoff_ids@),
        ),
{
    match group.find(actor_id) {
        None => Err(OpError::about("relay_actor_not_found", "actor not found: ", actor_id)),
        Some(a) => {
            let all = handled_source_ids(events, source_event_ids, handoff_ids);
            let ghost sp = |id: Text| !is_accepted(ledger(events@), actor_id@, id);
            let accept = select(
                &all,
                |id: &String| -> (b: bool)
                    ensures (b == !is_accepted(ledger(events@), actor_id@, id@))
                {
                    !accepted(events, actor_id, id.as_str())
                },
                |id: &String| -> (c: String)
                    ensures (c@ == id@)
                {
                    id.clone()
                },
                Ghost(sp),
            );
            Ok(Acceptance { created_at: a.created_at.clone(), handled: all, accept })
        },
    }
}

/// Whether the facts of a recorded decision still have to be completed: it is by a member of the
/// group, has an id, and handles an event that is not accepted.
pub open spec fn acceptance_due(g: GroupV, events: Seq<EventV>, e: EventV) -> bool {
    &&& e.is_decision()
    &&& g.find(decided_by(e)) is Some
    &&& text_or_empty(e.data, "decision_id"@).len() > 0
    &&& some_match(
        handled(events, e.strings("source_event_ids"@), e.strings("handoff_ids"@)),
        |id: Text| !is_accepted(events, decided_by(e), id),
    )
}

fn is_acceptance_due(group: &GroupDoc, events: &Vec<Event>, e: &Event) -> (r: bool)
    ensures
        r == acceptance_due(group@, ledger(events@), e@),
{
    if !e.is_kind(DECISION_KIND) {
        return false;
    }
    let actor = decision_actor(e);
    if group.find(actor.as_str()).is_none() {
        return false;
    }
    let id = e.data.text_or_empty("decision_id");
    if id.as_str().is_empty() {
        return false;
    }
    let all = handled_source_ids(
        events,
        &event_string_list(e, "source_event_ids"),
        &event_string_list(e, "handoff_ids"),
    );
    let ghost sp = |id: Text| !is_accepted(ledger(events@), decided_by(e@), id);
    any_of(
        &all,
        |id: &String| -> (b: bool)
            ensures (b == !is_accepted(ledger(events@), decided_by(e@), id@))
        {
            !accepted(events, actor.as_str(), id.as_str())
        },
        Ghost(sp),
    )
}

/// The recorded decisions whose facts still have to be completed, in the order of the ledger.
pub fn reconcile_recorded_decisions(group: &GroupDoc, events: &Vec<Event>) -> (r: Vec<Event>)
    ensures
        ledger(r@) == ledger(events@).filter(
            |e: EventV| acceptance_due(group@, ledger(events@), e),
        ),
{
    let ghost sp = |e: EventV| acceptance_due(group@, ledger(events@), e);
    select(
        events,
        |e: &Event| -> (b: bool)
            ensures (b == acceptance_due(group@, ledger(events@), e@))
        {
            is_acceptance_due(group, events, e)
        },
        |e: &Event| -> (c: Event)
            ensures (c@ == e@)
        {
            e.copy()
        },
        Ghost(sp),
    )
}

/// The open handoffs whose context note must say that they wait for the user.
pub fn reconcile_escalated_handoffs(events: &Vec<Event>) -> (r: Vec<Event>)
    ensures
        ledger(r@) == crate::relay::state::open_escalated(ledger(events@)),
{
    let open = unresolved_handoffs_for_group(events);
    let ghost sp = |e: EventV| escalated(ledger(events@), e.handoff());
    select(
        &open,
        |e: &Event| -> (b: bool)
            ensures (b == escalated(ledger(events@), e@.handoff()))
        {
            let id = e.data.text_or_empty("handoff_id");
            escalation_for_handoff(events, id.as_str())
        },
        |e: &Event| -> (c: Event)
            ensures (c@ == e@)
        {
            e.copy()
        },
        Ghost(sp),
    )
}

/// The strings of an array member; none where it is not an array.
pub open spec fn strings_at(v: JsonV, key: Text) -> Seq<Text> {
    match v.at(key).list() {
        Some(items) => strings(items),
        None => Seq::empty(),
    }
}

/// The strings of an array member; none where it is not an array.
pub fn strings_under(v: &Json, key: &str) -> (r: Vec<String>)
    ensures
        texts(r@) == strings_at(v@, key@),
{
    match v.list(key) {
        Some(items) => strings_of(items),
        None => {
            let r: Vec<String> = Vec::new();
            assert(texts(r@) =~= Seq::empty());
            r
        },
    }
}

/// Whether the working turn of an actor is done with: it has events, all of them handled, and an
/// id.
pub open spec fn turn_is_handled(state: JsonV, handled_ids: Seq<Text>) -> bool {
    let active = strings_at(state, "active_event_ids"@);
    &&& state.at("status"@) == JsonV::Str("working"@)
    &&& active.len() > 0
    &&& all_in(active, handled_ids)
    &&& or_empty(state.at("active_turn_id"@).text()).len() > 0
}

/// The request that completes the working turn of an actor under a decision.
pub open spec fn release_request(
    state: JsonV,
    group_id: Text,
    actor_id: Text,
    decision_id: Text,
) -> RequestV {
    RequestV {
        v: 1,
        op: "runtime_complete_turn"@,
        args: map![
            "group_id"@ => JsonV::Str(group_id),
            "actor_id"@ => JsonV::Str(actor_id),
            "by"@ => JsonV::Str(actor_id),
            "turn_id"@ => JsonV::Str(or_empty(state.at("active_turn_id"@).text())),
            "event_ids"@ => text_array(strings_at(state, "active_event_ids"@)),
            "delivery_id"@ => JsonV::Str("coordination:"@ + decision_id),
            "status"@ => JsonV::Str("done"@),
            "summary"@ => JsonV::Str(
                "Handled inside the active web-model turn by a durable relay decision."@,
            ),
        ],
    }
}

/// The request that completes the working turn of an actor, where the decision handled all of its
/// events. `state` is the runtime state of the actor.
pub fn release_active_turn_if_handled(
    state: &Json,
    group_id: &str,
    actor_id: &str,
    handled_ids: &Vec<String>,
    decision_id: &str,
) -> (r: Option<DaemonRequest>)
    ensures
        match r {
            Some(q) => turn_is_handled(state@, texts(handled_ids@)) && q@ == release_request(
                state@,
                group_id@,
                actor_id@,
                decision_id@,
            ),
            None => !turn_is_handled(state@, texts(handled_ids@)),
        },
{
    if !state.is("status", "working") {
        return None;
    }
    let active = strings_under(state, "active_event_ids");
    if active.len() == 0 || !all_listed(&active, handled_ids) {
        return None;
    }
    let turn_id = state.text_or_empty("active_turn_id");
    if turn_id.as_str().is_empty() {
        return None;
    }
    let mut delivery_id = "coordination:".to_owned();
    delivery_id.append(decision_id);
    let mut m = JsonMap::new();
    m.put("group_id", Json::str(group_id));
    m.put("actor_id", Json::str(actor_id));
    m.put("by", Json::str(actor_id));
    m.put("turn_id", Json::Str(turn_id));
    m.put("event_ids", json_texts(&active));
    m.put("delivery_id", Json::Str(delivery_id));
    m.put("status", Json::str("done"));
    m.put(
        "summary",
        Json::str("Handled inside the active web-model turn by a durable relay decision."),
    );
    Some(DaemonRequest { v: 1, op: "runtime_complete_turn".to_owned(), args: m })
}

} // verus!
