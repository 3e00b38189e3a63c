//! The relay status of an actor: what waits for it and whether it may idle.

use crate::json::{
    field, lemma_values, lemma_values_push, or_null, text_array, text_or_empty, values, Json,
    JsonMap, JsonV, ObjV,
};
use crate::json_access::json_texts;
use crate::lists::{lemma_views, lemma_views_push};
use crate::model::{
    check_outcome, ledger, refusal, ContextDoc, ErrV, Event, EventV, GroupDoc, GroupV, OpError,
};
use crate::relay::facts::{
    delivery_state, escalated, escalation_for_handoff, event_string_list, latest_delivery_state,
    pending_for, unresolved, unresolved_handoffs, unresolved_source_ids,
};
use crate::relay::idle::{actor_may_idle_from_state, may_idle};
use crate::relay::state::{current_group_state, group_account};
use crate::text::{texts, Text};
use vstd::prelude::*;

verus! {

broadcast use {lemma_views, lemma_views_push, lemma_values, lemma_values_push};

/// The check that an actor is in the group.
pub open spec fn member_check(g: GroupV, actor_id: Text) -> Result<(), ErrV> {
    if g.find(actor_id) is Some {
        Ok(())
    } else {
        Err(refusal("relay_actor_not_found"@, "actor not found: "@ + actor_id))
    }
}

/// Checks that an actor is in the group.
pub fn require_actor(group: &GroupDoc, actor_id: &str) -> (r: Result<(), OpError>)
    ensures
        check_outcome(r) == member_check(group@, actor_id@),
{
    if group.find(actor_id).is_some() {
        Ok(())
    } else {
        Err(OpError::about("relay_actor_not_found", "actor not found: ", actor_id))
    }
}

/// The delivery of a source event to an actor.
pub open spec fn delivery_item(events: Seq<EventV>, actor_id: Text, id: Text) -> JsonV {
    JsonV::Obj(
        map![
            "event_id"@ => JsonV::Str(id),
            "state"@ => JsonV::Str(delivery_state(events, actor_id, id)),
        ],
    )
}

/// How the actor is to decide on source events.
pub open spec fn decision_call(ids: Seq<Text>) -> JsonV {
    JsonV::Obj(
        map![
            "tool"@ => JsonV::Str("cccc_coordination"@),
            "action"@ => JsonV::Str("decide"@),
            "event_ids"@ => text_array(ids),
            "decisions"@ => text_array(
                seq!["continue"@, "wait_user"@, "complete"@, "blocked"@],
            ),
            "continue_requires"@ => text_array(
                seq!["next_actor_id"@, "next_title"@, "next_text"@],
            ),
            "blocked_requires"@ => text_array(seq!["reason"@]),
        ],
    )
}

/// An open handoff as the status shows it.
pub open spec fn pending_item(events: Seq<EventV>, h: EventV, actor_id: Text) -> JsonV {
    let open = unresolved(events, h);
    JsonV::Obj(
        map![
            "handoff_id"@ => or_null(field(h.data, "handoff_id"@)),
            "summary"@ => or_null(field(h.data, "summary"@)),
            "source_actor_id"@ => or_null(field(h.data, "source_actor_id"@)),
            "target_actor_id"@ => JsonV::Str(actor_id),
            "turn_id"@ => or_null(field(h.data, "turn_id"@)),
            "task_ids"@ => match field(h.data, "task_ids"@) {
                Some(v) => v,
                None => JsonV::Arr(Seq::empty()),
            },
            "source_event_ids"@ => text_array(open),
            "all_source_event_ids"@ => text_array(h.strings("source_event_ids"@)),
            "delivery"@ => JsonV::Arr(
                open.map_values(|id: Text| delivery_item(events, actor_id, id)),
            ),
            "awaiting_user_intervention"@ => JsonV::Bool(escalated(events, h.handoff())),
            "decision_required"@ => JsonV::Bool(!escalated(events, h.handoff())),
            "decision_call"@ => decision_call(open),
        ],
    )
}

/// The open handoffs of an actor as the status shows them.
pub open spec fn pending_items(events: Seq<EventV>, actor_id: Text) -> Seq<JsonV> {
    events.filter(|e: EventV| pending_for(events, e, actor_id)).map_values(
        |h: EventV| pending_item(events, h, actor_id),
    )
}

/// What the actor is told to do.
pub open spec fn instructions(suspended: bool, waiting: nat, raised: bool) -> Text {
    if suspended {
        "The user paused or stopped this group. Preserve the handoff and do not restart work automatically."@
    } else if waiting == 0 {
        "No unresolved member handoff is waiting for this actor."@
    } else if raised {
        "The Foreman received one decision reminder without recording responsibility. The handoff is preserved for user intervention; resume with an explicit relay decision when requested."@
    } else {
        "Review the human-readable source output, then call cccc_coordination(action=\"decide\", ...). Reading or replying alone does not resolve responsibility."@
    }
}

/// The relay status of an actor.
pub open spec fn status_report(
    g: GroupV,
    tasks: Seq<ObjV>,
    events: Seq<EventV>,
    actor_id: Text,
) -> ObjV {
    let items = pending_items(events, actor_id);
    let current = group_account(g, tasks, events);
    let kind = current.at("responsibility"@).at("kind"@);
    let suspended = kind == JsonV::Str("user_pause"@);
    let raised = kind == JsonV::Str("user_intervention"@);
    map![
        "pending"@ => JsonV::Arr(items),
        "count"@ => JsonV::Int(items.len() as int),
        "requires_decision"@ => JsonV::Bool(items.len() > 0 && !suspended && !raised),
        "awaiting_user_intervention"@ => JsonV::Bool(raised),
        "caller_may_idle"@ => JsonV::Bool(may_idle(current, actor_id)),
        "safe_to_idle"@ => current.at("safe_to_idle"@),
        "responsibility"@ => current.at("responsibility"@),
        "responsibilities"@ => current.at("responsibilities"@),
        "instructions"@ => JsonV::Str(instructions(suspended, items.len(), raised)),
    ]
}

fn text_list(a: &str, b: &str, c: &str, d: &str, n: usize) -> (r: Json)
    requires
        1 <= n <= 4,
    ensures
        r@ == text_array(seq![a@, b@, c@, d@].take(n as int)),
{
    let mut v: Vec<String> = Vec::new();
    v.push(a.to_owned());
    if n > 1 {
        v.push(b.to_owned());
    }
    if n > 2 {
        v.push(c.to_owned());
    }
    if n > 3 {
        v.push(d.to_owned());
    }
    proof {
        assert(texts(v@) =~= seq![a@, b@, c@, d@].take(n as int));
    }
    json_texts(&v)
}

fn decision_call_of(ids: &Vec<String>) -> (r: Json)
    ensures
        r@ == decision_call(texts(ids@)),
{
    let mut m = JsonMap::new();
    m.put("tool", Json::str("cccc_coordination"));
    m.put("action", Json::str("decide"));
    m.put("event_ids", json_texts(ids));
    m.put("decisions", text_list("continue", "wait_user", "complete", "blocked", 4));
    m.put(
        "continue_requires",
        text_list("next_actor_id", "next_title", "next_text", "", 3),
    );
    m.put("blocked_requires", text_list("reason", "", "", "", 1));
    proof {
        assert(seq!["continue"@, "wait_user"@, "complete"@, "blocked"@].take(4) =~= seq![
            "continue"@,
            "wait_user"@,
            "complete"@,
            "blocked"@,
        ]);
        assert(seq!["next_actor_id"@, "next_title"@, "next_text"@, ""@].take(3) =~= seq![
            "next_actor_id"@,
            "next_title"@,
            "next_text"@,
        ]);
        assert(seq!["reason"@, ""@, ""@, ""@].take(1) =~= seq!["reason"@]);
    }
    Json::Obj(m)
}

fn deliveries_of(events: &Vec<Event>, actor_id: &str, ids: &Vec<String>) -> (r: Json)
    ensures
        r@ == JsonV::Arr(
            texts(ids@).map_values(|id: Text| delivery_item(ledger(events@), actor_id@, id)),
        ),
{
    let mut v: Vec<Json> = Vec::new();
    let mut i: usize = 0;
    while i < ids.len()
        invariant
            i <= ids@.len(),
            values(v@).len() == i,
            forall|j: int|
                0 <= j < i ==> #[trigger] values(v@)[j] == delivery_item(
                    ledger(events@),
                    actor_id@,
                    ids@[j]@,
                ),
        decreases ids@.len() - i,
    {
        let mut m = JsonMap::new();
        m.put("event_id", Json::str(ids[i].as_str()));
        m.put("state", Json::Str(latest_delivery_state(events, actor_id, ids[i].as_str())));
        v.push(Json::Obj(m));
        i += 1;
    }
    proof {
        assert(values(v@) =~= texts(ids@).map_values(
            |id: Text| delivery_item(ledger(events@), actor_id@, id),
        ));
    }
    Json::Arr(v)
}

fn pending_item_of(events: &Vec<Event>, h: &Event, actor_id: &str) -> (r: Json)
    ensures
        r@ == pending_item(ledger(events@), h@, actor_id@),
{
    let all = event_string_list(h, "source_event_ids");
    let open = unresolved_source_ids(events, h);
    let id = h.data.text_or_empty("handoff_id");
    let raised = escalation_for_handoff(events, id.as_str());
    let tasks = match h.data.get("task_ids") {
        Some(v) => v.copy(),
        None => {
            let none: Vec<Json> = Vec::new();
            proof {
                assert(values(none@) =~= Seq::empty());
            }
            Json::Arr(none)
        },
    };
    let mut m = JsonMap::new();
    m.put("handoff_id", h.data.copy_or_null("handoff_id"));
    m.put("summary", h.data.copy_or_null("summary"));
    m.put("source_actor_id", h.data.copy_or_null("source_actor_id"));
    m.put("target_actor_id", Json::str(actor_id));
    m.put("turn_id", h.data.copy_or_null("turn_id"));
    m.put("task_ids", tasks);
    m.put("source_event_ids", json_texts(&open));
    m.put("all_source_event_ids", json_texts(&all));
    m.put("delivery", deliveries_of(events, actor_id, &open));
    m.put("awaiting_user_intervention", Json::Bool(raised));
    m.put("decision_required", Json::Bool(!raised));
    m.put("decision_call", decision_call_of(&open));
    Json::Obj(m)
}

fn pending_items_of(events: &Vec<Event>, actor_id: &str) -> (r: Vec<Json>)
    ensures
        values(r@) == pending_items(ledger(events@), actor_id@),
{
    let open = unresolved_handoffs(events, actor_id);
    let mut r: Vec<Json> = Vec::new();
    let mut i: usize = 0;
    while i < open.len()
        invariant
            i <= open@.len(),
            values(r@).len() == i,
            forall|j: int|
                0 <= j < i ==> #[trigger] values(r@)[j] == pending_item(
                    ledger(events@),
                    open@[j]@,
                    actor_id@,
                ),
        decreases open@.len() - i,
    {
        r.push(pending_item_of(events, &open[i], actor_id));
        i += 1;
    }
    proof {
        assert(values(r@) =~= pending_items(ledger(events@), actor_id@));
    }
    r
}

/// The relay status of an actor.
pub fn status(group: &GroupDoc, document: &ContextDoc, events: &Vec<Event>, actor_id: &str) -> (r:
    JsonMap)
    ensures
        r@ == status_report(group@, document@.tasks, ledger(events@), actor_id@),
{
    let items = pending_items_of(events, actor_id);
    let current = current_group_state(document, group, events);
    let duty = current.at("responsibility");
    let suspended = duty.is("kind", "user_pause");
    let raised = duty.is("kind", "user_intervention");
    let waiting = items.len();
    let told = if suspended {
        "The user paused or stopped this group. Preserve the handoff and do not restart work automatically."
    } else if waiting == 0 {
        "No unresolved member handoff is waiting for this actor."
    } else if raised {
        "The Foreman received one decision reminder without recording responsibility. The handoff is preserved for user intervention; resume with an explicit relay decision when requested."
    } else {
        "Review the human-readable source output, then call cccc_coordination(action=\"decide\", ...). Reading or replying alone does not resolve responsibility."
    };
    let mut m = JsonMap::new();
    m.put("pending", Json::Arr(items));
    m.put("count", Json::Int(waiting as i128));
    m.put("requires_decision", Json::Bool(waiting > 0 && !suspended && !raised));
    m.put("awaiting_user_intervention", Json::Bool(raised));
    m.put("caller_may_idle", Json::Bool(actor_may_idle_from_state(&current, actor_id)));
    m.put("safe_to_idle", current.at("safe_to_idle"));
    m.put("responsibility", duty);
    m.put("responsibilities", current.at("responsibilities"));
    m.put("instructions", Json::str(told));
    m
}

} // verus!
