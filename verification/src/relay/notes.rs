//! Context notes that make handoffs and decisions visible to the group.

use crate::json::{
    field, lemma_values_are_views, list_field, objects, or_null, text_array, values, Json, JsonMap,
    JsonV, ObjV,
};
use crate::json_access::json_texts;
use crate::lists::{find_first, first_match, lemma_views, lemma_views_push};
use crate::model::{ledger, ContextDoc, Event, EventV};
use crate::text::{opt_str, str_eq, texts, Text};
use vstd::prelude::*;

verus! {

broadcast use {lemma_views, lemma_views_push};

/// The value, or the default where there is none.
pub open spec fn or_value(v: Option<JsonV>, default: JsonV) -> JsonV {
    match v {
        Some(x) => x,
        None => default,
    }
}

/// The first task that a handoff names, or null.
pub open spec fn first_task(handoff: ObjV) -> JsonV {
    match list_field(handoff, "task_ids"@) {
        Some(v) => if v.len() > 0 {
            v[0]
        } else {
            JsonV::Null
        },
        None => JsonV::Null,
    }
}

/// The part of a note that repeats a handoff.
pub open spec fn handoff_facts(id: JsonV, handoff: EventV) -> ObjV {
    map![
        "op"@ => JsonV::Str("coordination.relay.note"@),
        "kind"@ => JsonV::Str("handoff"@),
        "id"@ => id,
        "at"@ => JsonV::Str(handoff.ts),
        "summary"@ => or_value(field(handoff.data, "summary"@), JsonV::Str("Relay handoff"@)),
        "task_id"@ => first_task(handoff.data),
        "source_event_ids"@ => or_value(
            field(handoff.data, "source_event_ids"@),
            JsonV::Arr(Seq::empty()),
        ),
        "source_actor_id"@ => or_null(field(handoff.data, "source_actor_id"@)),
        "target_actor_id"@ => or_null(field(handoff.data, "target_actor_id"@)),
        "turn_id"@ => or_null(field(handoff.data, "turn_id"@)),
    ]
}

fn copy_or(m: &JsonMap, key: &str, default: Json) -> (r: Json)
    ensures
        r@ == or_value(field(m@, key@), default@),
{
    match m.get(key) {
        Some(v) => v.copy(),
        None => default,
    }
}

fn first_task_of(handoff: &JsonMap) -> (r: Json)
    ensures
        r@ == first_task(handoff@),
{
    match handoff.list("task_ids") {
        Some(v) => {
            proof {
                crate::json::lemma_values(v@);
            }
            if v.len() > 0 {
                v[0].copy()
            } else {
                Json::Null
            }
        },
        None => Json::Null,
    }
}

fn handoff_facts_of(id: Json, handoff: &Event) -> (r: JsonMap)
    ensures
        r@ == handoff_facts(id@, handoff@),
{
    let none: Vec<Json> = Vec::new();
    proof {
        assert(values(none@) =~= Seq::empty());
    }
    let mut m = JsonMap::new();
    m.put("op", Json::str("coordination.relay.note"));
    m.put("kind", Json::str("handoff"));
    m.put("id", id);
    m.put("at", Json::str(handoff.ts.as_str()));
    m.put("summary", copy_or(&handoff.data, "summary", Json::str("Relay handoff")));
    m.put("task_id", first_task_of(&handoff.data));
    m.put("source_event_ids", copy_or(&handoff.data, "source_event_ids", Json::Arr(none)));
    m.put("source_actor_id", handoff.data.copy_or_null("source_actor_id"));
    m.put("target_actor_id", handoff.data.copy_or_null("target_actor_id"));
    m.put("turn_id", handoff.data.copy_or_null("turn_id"));
    m
}

/// The note that a handoff was resolved by a decision.
pub open spec fn resolved_note(
    handoff: EventV,
    decision_id: Text,
    by: Text,
    decision: Text,
    now: Text,
) -> ObjV {
    handoff_facts(or_null(field(handoff.data, "handoff_id"@)), handoff).insert(
        "status"@,
        JsonV::Str("resolved"@),
    ).insert("decision"@, JsonV::Str(decision)).insert("decision_id"@, JsonV::Str(decision_id)).insert(
        "resolved_at"@,
        JsonV::Str(now),
    ).insert("resolved_by"@, JsonV::Str(by))
}

/// The notes that the handoffs were resolved by a decision, one for each, in their order.
pub fn resolved_handoff_notes(
    handoffs: &Vec<Event>,
    decision_id: &str,
    by: &str,
    decision: &str,
    now: &str,
) -> (r: Vec<JsonMap>)
    ensures
        objects(r@) == ledger(handoffs@).map_values(
            |h: EventV| resolved_note(h, decision_id@, by@, decision@, now@),
        ),
{
    let mut r: Vec<JsonMap> = Vec::new();
    let mut i: usize = 0;
    while i < handoffs.len()
        invariant
            i <= handoffs@.len(),
            objects(r@).len() == i,
            forall|j: int|
                0 <= j < i ==> #[trigger] objects(r@)[j] == resolved_note(
                    ledger(handoffs@)[j],
                    decision_id@,
                    by@,
                    decision@,
                    now@,
                ),
        decreases handoffs@.len() - i,
    {
        let h = &handoffs[i];
        let mut m = handoff_facts_of(h.data.copy_or_null("handoff_id"), h);
        m.put("status", Json::str("resolved"));
        m.put("decision", Json::str(decision));
        m.put("decision_id", Json::str(decision_id));
        m.put("resolved_at", Json::str(now));
        m.put("resolved_by", Json::str(by));
        r.push(m);
        i += 1;
    }
    proof {
        assert(objects(r@) =~= ledger(handoffs@).map_values(
            |h: EventV| resolved_note(h, decision_id@, by@, decision@, now@),
        ));
    }
    r
}

/// A string value, or null where there is none.
pub open spec fn text_or_null(t: Option<Text>) -> JsonV {
    match t {
        Some(x) => JsonV::Str(x),
        None => JsonV::Null,
    }
}

fn json_or_null(t: Option<&str>) -> (r: Json)
    ensures
        r@ == text_or_null(opt_str(t)),
{
    match t {
        Some(x) => Json::str(x),
        None => Json::Null,
    }
}

/// The note of a handoff in a status.
pub open spec fn handoff_note(
    handoff: EventV,
    status: Text,
    decision_id: Option<Text>,
    escalation: Option<Text>,
) -> ObjV {
    handoff_facts(JsonV::Str(handoff.handoff()), handoff).insert("status"@, JsonV::Str(status)).insert(
        "decision_id"@,
        text_or_null(decision_id),
    ).insert("escalation_event_id"@, text_or_null(escalation))
}

/// The text, where it is not empty.
pub open spec fn nonempty(t: Option<Text>) -> Option<Text> {
    match t {
        Some(x) => if x.len() > 0 {
            Some(x)
        } else {
            None
        },
        None => None,
    }
}

/// The first note of a handoff in the context.
pub open spec fn note_of(coordination: ObjV, handoff_id: Text) -> Option<JsonV> {
    match list_field(coordination, "recent_handoffs"@) {
        Some(notes) => first_match(notes, |n: JsonV| n.at("id"@).text() == Some(handoff_id)),
        None => None,
    }
}

/// Whether a note already says what is to be noted: a resolved note always does; one that waits
/// for the user does against a pending one; else status, decision and escalation must agree.
pub open spec fn note_stands(
    note: JsonV,
    status: Text,
    decision_id: Option<Text>,
    escalation: Option<Text>,
) -> bool {
    let has = note.at("status"@).text();
    ||| has == Some("resolved"@)
    ||| has == Some("waiting_user"@) && status == "pending_review"@
    ||| has == Some(status) && note.at("decision_id"@).text() == nonempty(decision_id) && note.at(
        "escalation_event_id"@,
    ).text() == nonempty(escalation)
}

/// The note to write for a handoff, none where the context already says it.
pub open spec fn note_due(
    coordination: ObjV,
    handoff: EventV,
    status: Text,
    decision_id: Option<Text>,
    escalation: Option<Text>,
) -> Option<ObjV> {
    match note_of(coordination, handoff.handoff()) {
        Some(n) => if note_stands(n, status, decision_id, escalation) {
            None
        } else {
            Some(handoff_note(handoff, status, decision_id, escalation))
        },
        None => Some(handoff_note(handoff, status, decision_id, escalation)),
    }
}

fn text_matches(note: &Json, key: &str, wanted: Option<&str>) -> (r: bool)
    ensures
        r == (note@.at(key@).text() == nonempty(opt_str(wanted))),
{
    match wanted {
        Some(w) => if w.is_empty() {
            note.text(key).is_none()
        } else {
            note.is(key, w)
        },
        None => note.text(key).is_none(),
    }
}

/// The note to write for a handoff, none where the context already says it.
pub fn ensure_handoff_note(
    document: &ContextDoc,
    handoff: &Event,
    status: &str,
    decision_id: Option<&str>,
    escalation_event_id: Option<&str>,
) -> (r: Option<JsonMap>)
    ensures
        match r {
            Some(m) => note_due(
                document@.coordination,
                handoff@,
                status@,
                opt_str(decision_id),
                opt_str(escalation_event_id),
            ) == Some(m@),
            None => note_due(
                document@.coordination,
                handoff@,
                status@,
                opt_str(decision_id),
                opt_str(escalation_event_id),
            ) is None,
        },
{
    let handoff_id = handoff.data.text_or_empty("handoff_id");
    if let Some(notes) = document.coordination.list("recent_handoffs") {
        let ghost sp = |n: JsonV| n.at("id"@).text() == Some(handoff@.handoff());
        proof {
            lemma_values_are_views(notes@);
        }
        let found = find_first(
            notes,
            |n: &Json| -> (b: bool)
                ensures (b == (n@.at("id"@).text() == Some(handoff@.handoff())))
            {
                n.is("id", handoff_id.as_str())
            },
            Ghost(sp),
        );
        if let Some(n) = found {
            if n.is("status", "resolved") || (n.is("status", "waiting_user") && str_eq(
                status,
                "pending_review",
            )) || (n.is("status", status) && text_matches(n, "decision_id", decision_id)
                && text_matches(n, "escalation_event_id", escalation_event_id)) {
                return None;
            }
        }
    }
    let mut m = handoff_facts_of(Json::Str(handoff_id), handoff);
    m.put("status", Json::str(status));
    m.put("decision_id", json_or_null(decision_id));
    m.put("escalation_event_id", json_or_null(escalation_event_id));
    Some(m)
}

/// A string value, or null where it is empty.
pub open spec fn null_if_empty(t: Text) -> JsonV {
    if t.len() == 0 {
        JsonV::Null
    } else {
        JsonV::Str(t)
    }
}

fn json_null_if_empty(t: &str) -> (r: Json)
    ensures
        r@ == null_if_empty(t@),
{
    if t.is_empty() {
        Json::Null
    } else {
        Json::str(t)
    }
}

/// The facts of a decision that its note and its ledger entry share.
pub struct DecisionFacts {
    pub decision_id: String,
    pub request_fingerprint: String,
    pub by: String,
    pub decision: String,
    pub summary: String,
    pub reason: String,
    pub source_event_ids: Vec<String>,
    pub handoff_ids: Vec<String>,
    pub task_ids: Vec<String>,
    pub next_task_id: String,
    pub visible_event_id: String,
    pub responsibility: Json,
}

/// The mathematical value of the facts of a decision.
pub struct FactsV {
    pub decision_id: Text,
    pub request_fingerprint: Text,
    pub by: Text,
    pub decision: Text,
    pub summary: Text,
    pub reason: Text,
    pub source_event_ids: Seq<Text>,
    pub handoff_ids: Seq<Text>,
    pub task_ids: Seq<Text>,
    pub next_task_id: Text,
    pub visible_event_id: Text,
    pub responsibility: JsonV,
}

impl View for DecisionFacts {
    type V = FactsV;

    open spec fn view(&self) -> FactsV {
        FactsV {
            decision_id: self.decision_id@,
            request_fingerprint: self.request_fingerprint@,
            by: self.by@,
            decision: self.decision@,
            summary: self.summary@,
            reason: self.reason@,
            source_event_ids: texts(self.source_event_ids@),
            handoff_ids: texts(self.handoff_ids@),
            task_ids: texts(self.task_ids@),
            next_task_id: self.next_task_id@,
            visible_event_id: self.visible_event_id@,
            responsibility: self.responsibility@,
        }
    }
}

/// The context note of a decision, before it is known whether anybody may idle.
pub open spec fn draft_note(f: FactsV) -> ObjV {
    map![
        "op"@ => JsonV::Str("coordination.relay.note"@),
        "kind"@ => JsonV::Str("decision"@),
        "id"@ => JsonV::Str(f.decision_id),
        "request_fingerprint"@ => JsonV::Str(f.request_fingerprint),
        "summary"@ => JsonV::Str(f.summary),
        "task_id"@ => if f.task_ids.len() == 0 {
            JsonV::Null
        } else {
            null_if_empty(f.task_ids[0])
        },
        "decision"@ => JsonV::Str(f.decision),
        "status"@ => JsonV::Str("applied"@),
        "source_event_ids"@ => text_array(f.source_event_ids),
        "handoff_ids"@ => text_array(f.handoff_ids),
        "next_actor_id"@ => f.responsibility.at("actor_id"@),
        "next_task_id"@ => null_if_empty(f.next_task_id),
        "visible_event_id"@ => null_if_empty(f.visible_event_id),
        "safe_to_idle"@ => JsonV::Bool(false),
        "caller_may_idle"@ => JsonV::Bool(true),
        "reason"@ => JsonV::Str(f.reason),
        "responsibility"@ => f.responsibility,
        "by"@ => JsonV::Str(f.by),
    ]
}

/// The context note of a decision, before it is known whether anybody may idle.
pub fn decision_note(f: &DecisionFacts) -> (r: JsonMap)
    ensures
        r@ == draft_note(f@),
{
    let mut m = JsonMap::new();
    m.put("op", Json::str("coordination.relay.note"));
    m.put("kind", Json::str("decision"));
    m.put("id", Json::str(f.decision_id.as_str()));
    m.put("request_fingerprint", Json::str(f.request_fingerprint.as_str()));
    m.put("summary", Json::str(f.summary.as_str()));
    m.put(
        "task_id",
        if f.task_ids.len() == 0 {
            Json::Null
        } else {
            json_null_if_empty(f.task_ids[0].as_str())
        },
    );
    m.put("decision", Json::str(f.decision.as_str()));
    m.put("status", Json::str("applied"));
    m.put("source_event_ids", json_texts(&f.source_event_ids));
    m.put("handoff_ids", json_texts(&f.handoff_ids));
    m.put("next_actor_id", f.responsibility.at("actor_id"));
    m.put("next_task_id", json_null_if_empty(f.next_task_id.as_str()));
    m.put("visible_event_id", json_null_if_empty(f.visible_event_id.as_str()));
    m.put("safe_to_idle", Json::Bool(false));
    m.put("caller_may_idle", Json::Bool(true));
    m.put("reason", Json::str(f.reason.as_str()));
    m.put("responsibility", f.responsibility.copy());
    m.put("by", Json::str(f.by.as_str()));
    m
}

/// The data of the ledger entry that records a decision.
pub open spec fn decision_data(f: FactsV, caller_may_idle: bool, safe_to_idle: bool) -> ObjV {
    map![
        "decision_id"@ => JsonV::Str(f.decision_id),
        "request_fingerprint"@ => JsonV::Str(f.request_fingerprint),
        "by"@ => JsonV::Str(f.by),
        "decision"@ => JsonV::Str(f.decision),
        "summary"@ => JsonV::Str(f.summary),
        "reason"@ => JsonV::Str(f.reason),
        "source_event_ids"@ => text_array(f.source_event_ids),
        "handoff_ids"@ => text_array(f.handoff_ids),
        "task_ids"@ => text_array(f.task_ids),
        "next_task_id"@ => JsonV::Str(f.next_task_id),
        "visible_event_id"@ => JsonV::Str(f.visible_event_id),
        "responsibility"@ => f.responsibility,
        "caller_may_idle"@ => JsonV::Bool(caller_may_idle),
        "safe_to_idle"@ => JsonV::Bool(safe_to_idle),
        "status"@ => JsonV::Str("applied"@),
    ]
}

/// The data of the ledger entry that records a decision.
pub fn decision_event_data(f: &DecisionFacts, caller_may_idle: bool, safe_to_idle: bool) -> (r:
    JsonMap)
    ensures
        r@ == decision_data(f@, caller_may_idle, safe_to_idle),
{
    let mut m = JsonMap::new();
    m.put("decision_id", Json::str(f.decision_id.as_str()));
    m.put("request_fingerprint", Json::str(f.request_fingerprint.as_str()));
    m.put("by", Json::str(f.by.as_str()));
    m.put("decision", Json::str(f.decision.as_str()));
    m.put("summary", Json::str(f.summary.as_str()));
    m.put("reason", Json::str(f.reason.as_str()));
    m.put("source_event_ids", json_texts(&f.source_event_ids));
    m.put("handoff_ids", json_texts(&f.handoff_ids));
    m.put("task_ids", json_texts(&f.task_ids));
    m.put("next_task_id", Json::str(f.next_task_id.as_str()));
    m.put("visible_event_id", Json::str(f.visible_event_id.as_str()));
    m.put("responsibility", f.responsibility.copy());
    m.put("caller_may_idle", Json::Bool(caller_may_idle));
    m.put("safe_to_idle", Json::Bool(safe_to_idle));
    m.put("status", Json::str("applied"));
    m
}

} // verus!
