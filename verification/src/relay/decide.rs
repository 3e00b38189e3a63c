//! A relay decision, step by step: the sources it is about, whether it replays or contradicts an
//! earlier one, the work it dispatches, and the facts it leaves.

use crate::failure::Failure;
use crate::json::{
    field, flag_field, lemma_values_are_views, list_field, objects, text_array, text_field,
    text_or_empty, values, Json, JsonMap, JsonV, ObjV,
};
use crate::json_access::{copy_all, json_texts};
use crate::lists::{
    any_of, find_first, find_last, first_match, last_match, lemma_views, lemma_views_push, select,
    some_match,
};
use crate::model::{
    check_outcome, ledger, outcome, refusal, string_arg, ContextDoc, DaemonRequest, ErrV, Event,
    EventV, GroupDoc, GroupV, OpError, RequestV,
};
use crate::relay::facts::{
    covers_some, decides_some, escalated, escalation_for_handoff, event_string_list,
    handoffs_for_sources, overlapping_decision, pending_for, unresolved_handoffs,
};
use crate::relay::idle::{
    actor_may_idle_from_state, actor_may_idle_in_context, group_safe_to_idle, may_idle,
    may_idle_after, safe_after,
};
use crate::relay::ids::{
    decision_id, decision_id_text, decision_label, decision_label_text, short_digest,
    stable_event_id, DECISION_KIND,
};
use crate::relay::intent::{Intent, IntentV};
use crate::relay::notes::{
    decision_data, decision_event_data, decision_note, draft_note, resolved_handoff_notes,
    resolved_note, DecisionFacts, FactsV,
};
use crate::relay::sources::{
    complete_handoff_source_ids, counted, source_events, sources_of, with_open_sources,
};
use crate::relay::state::{ids_of, texts_under};
use crate::relay::work::{
    all_task_moves, decided_tasks, source_task_ids, task_decision_operations,
};
use crate::text::{copy_texts, has_text, str_eq, texts, Text};
use vstd::prelude::*;

verus! {

broadcast use {lemma_views, lemma_views_push};

/// The refusal of a decision that contradicts a recorded one.
pub open spec fn conflict() -> ErrV {
    refusal(
        "relay_decision_conflict"@,
        "one or more source events already have a different relay decision"@,
    )
}

/// Whether a recorded decision is the one that the request makes: the same decision by the same
/// actor, with the same fingerprint where one was recorded.
pub open spec fn is_same_decision(existing: EventV, i: IntentV) -> bool {
    let stored = text_or_empty(existing.data, "request_fingerprint"@);
    &&& text_field(existing.data, "decision"@) == Some(i.decision)
    &&& text_field(existing.data, "by"@) == Some(i.by)
    &&& stored.len() == 0 || stored == i.fingerprint
}

fn same_decision(existing: &Event, intent: &Intent) -> (r: bool)
    ensures
        r == is_same_decision(existing@, intent@),
{
    let stored = existing.data.text_or_empty("request_fingerprint");
    existing.data.is("decision", intent.decision.as_str()) && existing.data.is(
        "by",
        intent.by.as_str(),
    ) && (stored.as_str().is_empty() || str_eq(stored.as_str(), intent.fingerprint.as_str()))
}

/// The sources, handoffs and identifiers that a new decision covers.
pub struct Scope {
    pub source_event_ids: Vec<String>,
    pub sources: Vec<Event>,
    pub handoffs: Vec<Event>,
    pub handoff_ids: Vec<String>,
    pub decision_id: String,
    pub event_id: String,
}

/// The mathematical value of a scope.
pub struct ScopeV {
    pub source_event_ids: Seq<Text>,
    pub sources: Seq<EventV>,
    pub handoffs: Seq<EventV>,
    pub handoff_ids: Seq<Text>,
    pub decision_id: Text,
    pub event_id: Text,
}

impl View for Scope {
    type V = ScopeV;

    open spec fn view(&self) -> ScopeV {
        ScopeV {
            source_event_ids: texts(self.source_event_ids@),
            sources: ledger(self.sources@),
            handoffs: ledger(self.handoffs@),
            handoff_ids: texts(self.handoff_ids@),
            decision_id: self.decision_id@,
            event_id: self.event_id@,
        }
    }
}

/// How a request meets the ledger: it replays a recorded decision, or makes a new one.
pub enum Resolution {
    Replay(Event),
    Fresh(Scope),
}

/// The mathematical value of a resolution.
pub enum ResolutionV {
    Replay(EventV),
    Fresh(ScopeV),
}

impl View for Resolution {
    type V = ResolutionV;

    open spec fn view(&self) -> ResolutionV {
        match self {
            Resolution::Replay(e) => ResolutionV::Replay(e@),
            Resolution::Fresh(s) => ResolutionV::Fresh(s@),
        }
    }
}

/// A recorded decision on the requested sources, replayed or contradicted.
pub open spec fn meet(existing: EventV, i: IntentV) -> Result<ResolutionV, ErrV> {
    if is_same_decision(existing, i) {
        Ok(ResolutionV::Replay(existing))
    } else {
        Err(conflict())
    }
}

/// Whether every id is in the other list.
pub open spec fn all_in(ids: Seq<Text>, others: Seq<Text>) -> bool {
    forall|i: int| 0 <= i < ids.len() ==> others.contains(#[trigger] ids[i])
}

/// The handoffs for an actor that cover one of the source events.
pub open spec fn covering(events: Seq<EventV>, by: Text, ids: Seq<Text>) -> Seq<EventV> {
    events.filter(|e: EventV| covers_some(e, by, ids))
}

/// The scope of a new decision on a completed list of source events.
pub open spec fn scope_on(
    group_id: Text,
    events: Seq<EventV>,
    addressed: Seq<Text>,
    i: IntentV,
    ids: Seq<Text>,
) -> Result<ResolutionV, ErrV> {
    match sources_of(events, addressed, i.by, ids) {
        Err(e) => Err(e),
        Ok(sources) => {
            let handoffs = covering(events, i.by, ids);
            let did = decision_id_text(group_id, i.by, ids);
            match first_match(events, |e: EventV| decides_some(e, ids)) {
                Some(existing) => if existing.id != short_digest(did) {
                    Err(conflict())
                } else {
                    meet(existing, i)
                },
                None => Ok(
                    ResolutionV::Fresh(
                        ScopeV {
                            source_event_ids: ids,
                            sources,
                            handoffs,
                            handoff_ids: ids_of(handoffs),
                            decision_id: did,
                            event_id: short_digest(did),
                        },
                    ),
                ),
            }
        },
    }
}

/// How a request on resolved source events meets the ledger. The sources must belong to a handoff
/// for the caller. A request all of whose sources one decision covers replays that decision or
/// contradicts it; a request that mixes decided and other sources is refused; any other makes a
/// new decision, which takes in every open source of the handoffs it touches.
pub open spec fn resolution(
    group_id: Text,
    events: Seq<EventV>,
    addressed: Seq<Text>,
    i: IntentV,
    ids: Seq<Text>,
) -> Result<ResolutionV, ErrV> {
    let initial = covering(events, i.by, ids);
    if initial.len() == 0 {
        Err(
            refusal(
                "relay_handoff_missing"@,
                "source events do not belong to a relay handoff for this foreman"@,
            ),
        )
    } else {
        match first_match(events, |e: EventV| decides_some(e, ids)) {
            Some(existing) => if !all_in(ids, existing.strings("source_event_ids"@)) {
                Err(
                    refusal(
                        "relay_decision_conflict"@,
                        "this batch mixes a previous decision with other reports; decide the unhandled source events separately"@,
                    ),
                )
            } else {
                meet(existing, i)
            },
            None => match counted(with_open_sources(ids, initial, events)) {
                Err(e) => Err(e),
                Ok(all) => scope_on(group_id, events, addressed, i, all),
            },
        }
    }
}

fn contradiction() -> (r: OpError)
    ensures
        r@ == conflict(),
{
    OpError::new(
        "relay_decision_conflict",
        "one or more source events already have a different relay decision",
    )
}

pub(crate) fn all_listed(ids: &Vec<String>, others: &Vec<String>) -> (r: bool)
    ensures
        r == all_in(texts(ids@), texts(others@)),
{
    let mut i: usize = 0;
    while i < ids.len()
        invariant
            i <= ids@.len(),
            forall|j: int| 0 <= j < i ==> texts(others@).contains(#[trigger] texts(ids@)[j]),
        decreases ids@.len() - i,
    {
        if !has_text(others, ids[i].as_str()) {
            assert(!texts(others@).contains(texts(ids@)[i as int]));
            return false;
        }
        i += 1;
    }
    true
}

/// How a request on resolved source events meets the ledger.
pub fn resolve_decision(
    group_id: &str,
    events: &Vec<Event>,
    addressed: &Vec<String>,
    intent: &Intent,
    ids: &Vec<String>,
) -> (r: Result<Resolution, OpError>)
    ensures
        outcome(r) == resolution(
            group_id@,
            ledger(events@),
            texts(addressed@),
            intent@,
            texts(ids@),
        ),
{
    let by = intent.by.as_str();
    let initial = handoffs_for_sources(events, by, ids);
    if initial.len() == 0 {
        return Err(
            OpError::new(
                "relay_handoff_missing",
                "source events do not belong to a relay handoff for this foreman",
            ),
        );
    }
    if let Some(existing) = overlapping_decision(events, ids) {
        let decided = event_string_list(existing, "source_event_ids");
        if !all_listed(ids, &decided) {
            return Err(
                OpError::new(
                    "relay_decision_conflict",
                    "this batch mixes a previous decision with other reports; decide the unhandled source events separately",
                ),
            );
        }
        if !same_decision(existing, intent) {
            return Err(contradiction());
        }
        return Ok(Resolution::Replay(existing.copy()));
    }
    let all = complete_handoff_source_ids(ids, &initial, events)?;
    let sources = source_events(events, addressed, &all, by)?;
    let handoffs = handoffs_for_sources(events, by, &all);
    let handoff_ids = texts_under(&handoffs, "handoff_id");
    let did = decision_id(group_id, by, &all);
    let event_id = stable_event_id(did.as_str());
    if let Some(existing) = overlapping_decision(events, &all) {
        if !str_eq(existing.id.as_str(), event_id.as_str()) {
            return Err(contradiction());
        }
        if !same_decision(existing, intent) {
            return Err(contradiction());
        }
        return Ok(Resolution::Replay(existing.copy()));
    }
    Ok(
        Resolution::Fresh(
            Scope {
                source_event_ids: all,
                sources,
                handoffs,
                handoff_ids,
                decision_id: did,
                event_id,
            },
        ),
    )
}

/// The reference to a decision that an event carries.
pub open spec fn relay_ref(e: EventV, did: Text) -> Option<JsonV> {
    match list_field(e.data, "refs"@) {
        Some(items) => first_match(
            items,
            |x: JsonV|
                x.at("kind"@).text() == Some("relay_decision"@) && x.at("decision_id"@).text()
                    == Some(did),
        ),
        None => None,
    }
}

/// Whether an event is a message that a decision has already sent.
pub open spec fn is_artifact(e: EventV, did: Text) -> bool {
    e.kind == "chat.message"@ && relay_ref(e, did) is Some
}

/// The decision that a sent message belongs to.
pub open spec fn artifact_decision(e: EventV) -> Text {
    match text_field(e.data, "relay_decision"@) {
        Some(t) => t,
        None => "continue"@,
    }
}

/// The fingerprint that a sent message carries, in its own data or in its reference.
pub open spec fn artifact_fingerprint(e: EventV, did: Text) -> Text {
    let own = field(e.data, "relay_fingerprint"@);
    let found = match own {
        Some(v) => v.text(),
        None => match relay_ref(e, did) {
            Some(x) => x.at("request_fingerprint"@).text(),
            None => None,
        },
    };
    crate::json::or_empty(found)
}

/// The check that a decision does not contradict what an interrupted one has already done: the
/// latest message it sent, and a task it created, which only continue does.
pub open spec fn partial_check(
    events: Seq<EventV>,
    tasks: Seq<ObjV>,
    did: Text,
    client_id: Text,
    i: IntentV,
) -> Result<(), ErrV> {
    let sent = last_match(events, |e: EventV| is_artifact(e, did));
    if sent matches Some(e) && (artifact_decision(e) != i.decision || (artifact_fingerprint(
        e,
        did,
    ).len() > 0 && artifact_fingerprint(e, did) != i.fingerprint)) {
        Err(
            refusal(
                "relay_decision_conflict"@,
                "this handoff already has a different partially committed relay decision"@,
            ),
        )
    } else if i.decision != "continue"@ && some_match(
        tasks,
        |t: ObjV| text_field(t, "client_request_id"@) == Some(client_id),
    ) {
        Err(
            refusal(
                "relay_decision_conflict"@,
                "this handoff already created a next task and must be retried as continue"@,
            ),
        )
    } else {
        Ok(())
    }
}

fn find_ref<'a>(e: &'a Event, did: &str) -> (r: Option<&'a Json>)
    ensures
        crate::json::opt_json(r) == relay_ref(e@, did@),
{
    match e.data.list("refs") {
        Some(items) => {
            let ghost sp = |x: JsonV|
                x.at("kind"@).text() == Some("relay_decision"@) && x.at("decision_id"@).text()
                    == Some(did@);
            proof {
                lemma_values_are_views(items@);
            }
            find_first(
                items,
                |x: &Json| -> (b: bool)
                    ensures (b == (x@.at("kind"@).text() == Some("relay_decision"@) && x@.at(
                        "decision_id"@,
                    ).text() == Some(did@)))
                {
                    x.is("kind", "relay_decision") && x.is("decision_id", did)
                },
                Ghost(sp),
            )
        },
        None => None,
    }
}

fn fingerprint_of(e: &Event, did: &str) -> (r: String)
    ensures
        r@ == artifact_fingerprint(e@, did@),
{
    let found = match e.data.get("relay_fingerprint") {
        Some(v) => v.as_str(),
        None => match find_ref(e, did) {
            Some(x) => x.text("request_fingerprint"),
            None => None,
        },
    };
    match found {
        Some(t) => t.to_owned(),
        None => String::new(),
    }
}

/// Checks that a decision does not contradict what an interrupted one has already done.
/// `tracked_client_id` is the id under which the decision's next task is created.
pub fn ensure_partial_decision_compatible(
    events: &Vec<Event>,
    document: &ContextDoc,
    decision_id: &str,
    tracked_client_id: &str,
    intent: &Intent,
) -> (r: Result<(), OpError>)
    ensures
        check_outcome(r) == partial_check(
            ledger(events@),
            document@.tasks,
            decision_id@,
            tracked_client_id@,
            intent@,
        ),
{
    let ghost sp = |e: EventV| is_artifact(e, decision_id@);
    let sent = find_last(
        events,
        |e: &Event| -> (b: bool)
            ensures (b == is_artifact(e@, decision_id@))
        {
            e.is_kind("chat.message") && find_ref(e, decision_id).is_some()
        },
        Ghost(sp),
    );
    if let Some(e) = sent {
        let same = match e.data.text("relay_decision") {
            Some(t) => str_eq(t, intent.decision.as_str()),
            None => str_eq("continue", intent.decision.as_str()),
        };
        let fingerprint = fingerprint_of(e, decision_id);
        if !same || (!fingerprint.as_str().is_empty() && !str_eq(
            fingerprint.as_str(),
            intent.fingerprint.as_str(),
        )) {
            return Err(
                OpError::new(
                    "relay_decision_conflict",
                    "this handoff already has a different partially committed relay decision",
                ),
            );
        }
    }
    let ghost made = |t: ObjV| text_field(t, "client_request_id"@) == Some(tracked_client_id@);
    if !str_eq(intent.decision.as_str(), "continue") && any_of(
        &document.tasks,
        |t: &JsonMap| -> (b: bool)
            ensures (b == (text_field(t@, "client_request_id"@) == Some(tracked_client_id@)))
        {
            t.is("client_request_id", tracked_client_id)
        },
        Ghost(made),
    ) {
        return Err(
            OpError::new(
                "relay_decision_conflict",
                "this handoff already created a next task and must be retried as continue",
            ),
        );
    }
    Ok(())
}

/// The text argument under a key, or a default.
pub open spec fn arg_or(args: ObjV, key: Text, default: Text) -> Text {
    match text_field(args, key) {
        Some(t) => t,
        None => default,
    }
}

/// The references of a request with the reference to its decision behind them.
pub open spec fn refs_with_decision(args: ObjV, s: ScopeV, fingerprint: Text) -> Seq<JsonV> {
    let given = match list_field(args, "refs"@) {
        Some(v) => v,
        None => Seq::empty(),
    };
    given.push(
        JsonV::Obj(
            map![
                "kind"@ => JsonV::Str("relay_decision"@),
                "decision_id"@ => JsonV::Str(s.decision_id),
                "request_fingerprint"@ => JsonV::Str(fingerprint),
                "source_event_ids"@ => text_array(s.source_event_ids),
                "handoff_ids"@ => text_array(s.handoff_ids),
            ],
        ),
    )
}

/// The request that sends the next work and creates its task, once for the decision.
pub open spec fn tracked_request(group_id: Text, request: RequestV, s: ScopeV, i: IntentV) -> RequestV {
    RequestV {
        v: request.v,
        op: "tracked_send"@,
        args: map![
            "group_id"@ => JsonV::Str(group_id),
            "by"@ => JsonV::Str(i.by),
            "to"@ => JsonV::Arr(seq![JsonV::Str(i.next_actor_id)]),
            "assignee"@ => JsonV::Str(i.next_actor_id),
            "handoff_to"@ => JsonV::Str(i.next_actor_id),
            "title"@ => JsonV::Str(i.next_title),
            "text"@ => JsonV::Str(i.next_text),
            "outcome"@ => JsonV::Str(arg_or(request.args, "outcome"@, i.next_text)),
            "status"@ => JsonV::Str("active"@),
            "waiting_on"@ => JsonV::Str("actor"@),
            "task_type"@ => JsonV::Str("standard"@),
            "task_priority"@ => JsonV::Str(arg_or(request.args, "task_priority"@, "normal"@)),
            "checklist"@ => match field(request.args, "checklist"@) {
                Some(v) => v,
                None => JsonV::Arr(Seq::empty()),
            },
            "refs"@ => JsonV::Arr(refs_with_decision(request.args, s, i.fingerprint)),
            "insight"@ => JsonV::Str(arg_or(request.args, "insight"@, Seq::empty())),
            "idempotency_key"@ => JsonV::Str(s.decision_id),
        ],
    }
}

fn arg_or_default(request: &DaemonRequest, key: &str, default: &str) -> (r: Json)
    ensures
        r@ == JsonV::Str(arg_or(request@.args, key@, default@)),
{
    match string_arg(request, key) {
        Some(t) => Json::Str(t),
        None => Json::str(default),
    }
}

/// A list with one string.
pub(crate) fn one_text(t: &str) -> (r: Json)
    ensures
        r@ == JsonV::Arr(seq![JsonV::Str(t@)]),
{
    let mut v: Vec<Json> = Vec::new();
    v.push(Json::str(t));
    proof {
        crate::json::lemma_values(v@);
        assert(values(v@) =~= seq![JsonV::Str(t@)]);
    }
    Json::Arr(v)
}

fn refs_of(request: &DaemonRequest, scope: &Scope, fingerprint: &str) -> (r: Json)
    ensures
        r@ == JsonV::Arr(refs_with_decision(request@.args, scope@, fingerprint@)),
{
    let mut refs: Vec<Json> = match request.args.list("refs") {
        Some(v) => copy_all(v),
        None => Vec::new(),
    };
    let mut m = JsonMap::new();
    m.put("kind", Json::str("relay_decision"));
    m.put("decision_id", Json::str(scope.decision_id.as_str()));
    m.put("request_fingerprint", Json::str(fingerprint));
    m.put("source_event_ids", json_texts(&scope.source_event_ids));
    m.put("handoff_ids", json_texts(&scope.handoff_ids));
    let x = Json::Obj(m);
    proof {
        crate::json::lemma_values_push(refs@, x);
        crate::json::lemma_values(refs@);
        if list_field(request@.args, "refs"@) is None {
            assert(values(refs@) =~= Seq::empty());
        }
    }
    refs.push(x);
    Json::Arr(refs)
}

/// The request that sends the next work and creates its task, once for the decision.
pub fn tracked_continue(group_id: &str, request: &DaemonRequest, scope: &Scope, intent: &Intent) -> (r:
    DaemonRequest)
    ensures
        r@ == tracked_request(group_id@, request@, scope@, intent@),
{
    let next = intent.next_actor_id.as_str();
    let checklist = match request.args.get("checklist") {
        Some(v) => v.copy(),
        None => {
            let none: Vec<Json> = Vec::new();
            proof {
                assert(values(none@) =~= Seq::empty());
            }
            Json::Arr(none)
        },
    };
    proof {
        reveal_strlit("");
        assert(""@ =~= Seq::empty());
    }
    let mut m = JsonMap::new();
    m.put("group_id", Json::str(group_id));
    m.put("by", Json::str(intent.by.as_str()));
    m.put("to", one_text(next));
    m.put("assignee", Json::str(next));
    m.put("handoff_to", Json::str(next));
    m.put("title", Json::str(intent.next_title.as_str()));
    m.put("text", Json::str(intent.next_text.as_str()));
    m.put("outcome", arg_or_default(request, "outcome", intent.next_text.as_str()));
    m.put("status", Json::str("active"));
    m.put("waiting_on", Json::str("actor"));
    m.put("task_type", Json::str("standard"));
    m.put("task_priority", arg_or_default(request, "task_priority", "normal"));
    m.put("checklist", checklist);
    m.put("refs", refs_of(request, scope, intent.fingerprint.as_str()));
    m.put("insight", arg_or_default(request, "insight", ""));
    m.put("idempotency_key", Json::str(scope.decision_id.as_str()));
    DaemonRequest { v: request.v, op: "tracked_send".to_owned(), args: m }
}

/// What a decision commits to before anything is sent: its tasks, and the request that sends the
/// next work, if it continues.
pub struct Commitment {
    pub task_ids: Vec<String>,
    pub send: Option<DaemonRequest>,
}

/// The mathematical value of a commitment.
pub struct CommitmentV {
    pub task_ids: Seq<Text>,
    pub send: Option<RequestV>,
}

impl View for Commitment {
    type V = CommitmentV;

    open spec fn view(&self) -> CommitmentV {
        CommitmentV {
            task_ids: texts(self.task_ids@),
            send: match self.send {
                Some(q) => Some(q@),
                None => None,
            },
        }
    }
}

/// The check that the next actor is another one, exists and is enabled.
pub open spec fn next_actor_check(g: GroupV, i: IntentV) -> Result<(), ErrV> {
    if i.next_actor_id == i.by {
        Err(
            refusal(
                "relay_next_actor_invalid"@,
                "continue must hand concrete work to another actor"@,
            ),
        )
    } else {
        match g.find(i.next_actor_id) {
            None => Err(
                refusal(
                    "relay_next_actor_not_found"@,
                    "next actor not found: "@ + i.next_actor_id,
                ),
            ),
            Some(a) => if a.enabled {
                Ok(())
            } else {
                Err(
                    refusal(
                        "relay_next_actor_stopped"@,
                        "next actor is disabled: "@ + i.next_actor_id,
                    ),
                )
            },
        }
    }
}

/// What a new decision commits to before anything is sent.
pub open spec fn commitment(
    g: GroupV,
    events: Seq<EventV>,
    tasks: Seq<ObjV>,
    request: RequestV,
    client_id: Text,
    i: IntentV,
    s: ScopeV,
) -> Result<CommitmentV, ErrV> {
    match partial_check(events, tasks, s.decision_id, client_id, i) {
        Err(e) => Err(e),
        Ok(_) => match decided_tasks(request.args, s.sources, s.handoffs, tasks) {
            Err(e) => Err(e),
            Ok(ids) => if i.decision != "continue"@ {
                Ok(CommitmentV { task_ids: ids, send: None })
            } else {
                match next_actor_check(g, i) {
                    Err(e) => Err(e),
                    Ok(_) => Ok(
                        CommitmentV {
                            task_ids: ids,
                            send: Some(tracked_request(g.group_id, request, s, i)),
                        },
                    ),
                }
            },
        },
    }
}

/// What a new decision commits to before anything is sent.
pub fn commit_decision(
    group: &GroupDoc,
    events: &Vec<Event>,
    document: &ContextDoc,
    request: &DaemonRequest,
    tracked_client_id: &str,
    intent: &Intent,
    scope: &Scope,
) -> (r: Result<Commitment, OpError>)
    ensures
        outcome(r) == commitment(
            group@,
            ledger(events@),
            document@.tasks,
            request@,
            tracked_client_id@,
            intent@,
            scope@,
        ),
{
    ensure_partial_decision_compatible(
        events,
        document,
        scope.decision_id.as_str(),
        tracked_client_id,
        intent,
    )?;
    let task_ids = source_task_ids(request, &scope.sources, &scope.handoffs, document)?;
    if !str_eq(intent.decision.as_str(), "continue") {
        return Ok(Commitment { task_ids, send: None });
    }
    let next = intent.next_actor_id.as_str();
    if str_eq(next, intent.by.as_str()) {
        return Err(
            OpError::new(
                "relay_next_actor_invalid",
                "continue must hand concrete work to another actor",
            ),
        );
    }
    match group.find(next) {
        None => {
            return Err(
                OpError::about("relay_next_actor_not_found", "next actor not found: ", next),
            );
        },
        Some(a) => {
            if !a.enabled {
                return Err(
                    OpError::about("relay_next_actor_stopped", "next actor is disabled: ", next),
                );
            }
        },
    }
    let send = tracked_continue(group.group_id.as_str(), request, scope, intent);
    Ok(Commitment { task_ids, send: Some(send) })
}

/// The task and the message of the next work, where it was durably delivered.
pub open spec fn delivered_work(reply: ObjV) -> Result<(Text, Text), ErrV> {
    if flag_field(reply, "message_sent"@) != Some(true) || flag_field(reply, "partial_failure"@)
        == Some(true) {
        Err(
            refusal(
                "relay_continue_incomplete"@,
                "the next task was not durably delivered; retry the same decision"@,
            ),
        )
    } else {
        Ok((text_or_empty(reply, "task_id"@), text_or_empty(reply, "event_id"@)))
    }
}

/// The task and the message of the next work, where it was durably delivered.
pub fn read_delivered_work(reply: &JsonMap) -> (r: Result<(String, String), OpError>)
    ensures
        match r {
            Ok((a, b)) => delivered_work(reply@) == Ok::<(Text, Text), ErrV>((a@, b@)),
            Err(e) => delivered_work(reply@) == Err::<(Text, Text), ErrV>(e@),
        },
{
    let sent = match reply.flag("message_sent") {
        Some(b) => b,
        None => false,
    };
    let failed = match reply.flag("partial_failure") {
        Some(b) => b,
        None => false,
    };
    if !sent || failed {
        return Err(
            OpError::new(
                "relay_continue_incomplete",
                "the next task was not durably delivered; retry the same decision",
            ),
        );
    }
    Ok((reply.text_or_empty("task_id"), reply.text_or_empty("event_id")))
}

/// Whose the responsibility is after a decision.
pub open spec fn duty_after(i: IntentV, next_task_id: Text) -> JsonV {
    if i.decision == "continue"@ {
        JsonV::Obj(
            map![
                "kind"@ => JsonV::Str("actor"@),
                "actor_id"@ => JsonV::Str(i.next_actor_id),
                "task_id"@ => JsonV::Str(next_task_id),
            ],
        )
    } else if i.decision == "wait_user"@ {
        JsonV::Obj(map!["kind"@ => JsonV::Str("user"@)])
    } else if i.decision == "blocked"@ {
        JsonV::Obj(
            map!["kind"@ => JsonV::Str("external"@), "reason"@ => JsonV::Str(i.reason)],
        )
    } else {
        JsonV::Obj(map!["kind"@ => JsonV::Str("none"@)])
    }
}

fn duty_of(intent: &Intent, next_task_id: &str) -> (r: Json)
    ensures
        r@ == duty_after(intent@, next_task_id@),
{
    let mut m = JsonMap::new();
    let d = intent.decision.as_str();
    if str_eq(d, "continue") {
        m.put("kind", Json::str("actor"));
        m.put("actor_id", Json::str(intent.next_actor_id.as_str()));
        m.put("task_id", Json::str(next_task_id));
    } else if str_eq(d, "wait_user") {
        m.put("kind", Json::str("user"));
    } else if str_eq(d, "blocked") {
        m.put("kind", Json::str("external"));
        m.put("reason", Json::str(intent.reason.as_str()));
    } else {
        m.put("kind", Json::str("none"));
    }
    Json::Obj(m)
}

/// The facts of a decision.
pub open spec fn facts(
    i: IntentV,
    s: ScopeV,
    task_ids: Seq<Text>,
    next_task_id: Text,
    visible_event_id: Text,
) -> FactsV {
    FactsV {
        decision_id: s.decision_id,
        request_fingerprint: i.fingerprint,
        by: i.by,
        decision: i.decision,
        summary: decision_label_text(i.decision, i.reason, i.next_actor_id, i.next_title),
        reason: i.reason,
        source_event_ids: s.source_event_ids,
        handoff_ids: s.handoff_ids,
        task_ids,
        next_task_id,
        visible_event_id,
        responsibility: duty_after(i, next_task_id),
    }
}

/// The facts of a decision.
pub fn decision_facts(
    intent: &Intent,
    scope: &Scope,
    task_ids: &Vec<String>,
    next_task_id: &str,
    visible_event_id: &str,
) -> (r: DecisionFacts)
    ensures
        r@ == facts(intent@, scope@, texts(task_ids@), next_task_id@, visible_event_id@),
{
    DecisionFacts {
        decision_id: scope.decision_id.clone(),
        request_fingerprint: intent.fingerprint.clone(),
        by: intent.by.clone(),
        decision: intent.decision.clone(),
        summary: decision_label(
            intent.decision.as_str(),
            intent.reason.as_str(),
            intent.next_actor_id.as_str(),
            intent.next_title.as_str(),
        ),
        reason: intent.reason.clone(),
        source_event_ids: copy_texts(&scope.source_event_ids),
        handoff_ids: copy_texts(&scope.handoff_ids),
        task_ids: copy_texts(task_ids),
        next_task_id: next_task_id.to_owned(),
        visible_event_id: visible_event_id.to_owned(),
        responsibility: duty_of(intent, next_task_id),
    }
}

/// The operations that a decision tries on the context: the moves of its tasks, the notes that
/// its handoffs are resolved, and its own note.
pub open spec fn draft_operations(
    tasks: Seq<ObjV>,
    f: FactsV,
    handoffs: Seq<EventV>,
    now: Text,
) -> Seq<ObjV> {
    (all_task_moves(tasks, f.task_ids, f.decision, f.reason) + handoffs.map_values(
        |h: EventV| resolved_note(h, f.decision_id, f.by, f.decision, now),
    )).push(draft_note(f))
}

/// The operations that a decision tries on the context.
pub fn decision_operations(
    document: &ContextDoc,
    f: &DecisionFacts,
    handoffs: &Vec<Event>,
    now: &str,
) -> (r: Vec<JsonMap>)
    ensures
        objects(r@) == draft_operations(document@.tasks, f@, ledger(handoffs@), now@),
{
    let mut r = task_decision_operations(
        document,
        &f.task_ids,
        f.decision.as_str(),
        f.reason.as_str(),
    );
    let ghost moves = objects(r@);
    let mut notes = resolved_handoff_notes(
        handoffs,
        f.decision_id.as_str(),
        f.by.as_str(),
        f.decision.as_str(),
        now,
    );
    let ghost resolved = objects(notes@);
    r.append(&mut notes);
    proof {
        assert(objects(r@) =~= moves + resolved);
    }
    r.push(decision_note(f));
    r
}

/// The number of open handoffs of the caller that the decision does not resolve and the user does
/// not already have.
pub open spec fn others_open(events: Seq<EventV>, by: Text, handoff_ids: Seq<Text>) -> nat {
    events.filter(|e: EventV| pending_for(events, e, by)).filter(
        |e: EventV| is_other(events, e, handoff_ids),
    ).len()
}

/// Whether a handoff is none of the given ones and was not escalated.
pub open spec fn is_other(events: Seq<EventV>, e: EventV, handoff_ids: Seq<Text>) -> bool {
    match text_field(e.data, "handoff_id"@) {
        Some(id) => !handoff_ids.contains(id) && !escalated(events, id),
        None => false,
    }
}

fn count_others(events: &Vec<Event>, by: &str, handoff_ids: &Vec<String>) -> (r: usize)
    ensures
        r == others_open(ledger(events@), by@, texts(handoff_ids@)),
{
    let open = unresolved_handoffs(events, by);
    let ghost sp = |e: EventV| is_other(ledger(events@), e, texts(handoff_ids@));
    let others = select(
        &open,
        |e: &Event| -> (b: bool)
            ensures (b == is_other(ledger(events@), e@, texts(handoff_ids@)))
        {
            match e.data.text("handoff_id") {
                Some(id) => !has_text(handoff_ids, id) && !escalation_for_handoff(events, id),
                None => false,
            }
        },
        |e: &Event| -> (c: Event)
            ensures (c@ == e@)
        {
            e.copy()
        },
        Ghost(sp),
    );
    others.len()
}

/// The final form of a decision: the operations to commit and the entry to append.
pub struct Verdict {
    pub operations: Vec<JsonMap>,
    pub event: Event,
}

/// The mathematical value of the final form of a decision.
pub struct VerdictV {
    pub operations: Seq<ObjV>,
    pub event: EventV,
}

impl View for Verdict {
    type V = VerdictV;

    open spec fn view(&self) -> VerdictV {
        VerdictV { operations: objects(self.operations@), event: self.event@ }
    }
}

/// The operations with the outcome written into the last one.
pub open spec fn sealed(ops: Seq<ObjV>, safe: bool, caller: bool, visible: Text) -> Seq<ObjV> {
    if ops.len() == 0 {
        ops
    } else {
        ops.drop_last().push(
            ops.last().insert("safe_to_idle"@, JsonV::Bool(safe)).insert(
                "caller_may_idle"@,
                JsonV::Bool(caller),
            ).insert("visible_event_id"@, JsonV::Str(visible)),
        )
    }
}

/// The final form of a decision, given the tasks as the tried operations leave them. Complete is
/// refused while a live task or another open handoff remains.
pub open spec fn verdict(
    g: GroupV,
    events: Seq<EventV>,
    previewed: Seq<ObjV>,
    f: FactsV,
    event_id: Text,
    operations: Seq<ObjV>,
    now: Text,
) -> Result<VerdictV, ErrV> {
    let others = others_open(events, f.by, f.handoff_ids);
    let safe = safe_after(previewed, f.decision, others);
    let caller = g.halted() || may_idle_after(previewed, g, f.by, others);
    if f.decision == "complete"@ && !safe {
        Err(
            refusal(
                "relay_work_remains"@,
                "complete is not allowed while another live task or unresolved handoff remains"@,
            ),
        )
    } else {
        Ok(
            VerdictV {
                operations: sealed(operations, safe, caller, f.visible_event_id),
                event: EventV {
                    id: event_id,
                    ts: now,
                    kind: DECISION_KIND@,
                    group_id: g.group_id,
                    by: f.by,
                    data: decision_data(f, caller, safe),
                },
            },
        )
    }
}

/// The final form of a decision. `preview` is the context as the tried operations leave it.
pub fn conclude_decision(
    group: &GroupDoc,
    events: &Vec<Event>,
    preview: &ContextDoc,
    f: &DecisionFacts,
    event_id: &str,
    operations: Vec<JsonMap>,
    now: &str,
) -> (r: Result<Verdict, OpError>)
    ensures
        outcome(r) == verdict(
            group@,
            ledger(events@),
            preview@.tasks,
            f@,
            event_id@,
            objects(operations@),
            now@,
        ),
{
    let others = count_others(events, f.by.as_str(), &f.handoff_ids);
    let safe = group_safe_to_idle(preview, f.decision.as_str(), others);
    let caller = group.halted() || actor_may_idle_in_context(
        preview,
        group,
        f.by.as_str(),
        others,
    );
    if str_eq(f.decision.as_str(), "complete") && !safe {
        return Err(
            OpError::new(
                "relay_work_remains",
                "complete is not allowed while another live task or unresolved handoff remains",
            ),
        );
    }
    let ghost before = objects(operations@);
    let mut operations = operations;
    match operations.pop() {
        Some(mut last) => {
            proof {
                assert(objects(operations@) =~= before.drop_last());
            }
            last.put("safe_to_idle", Json::Bool(safe));
            last.put("caller_may_idle", Json::Bool(caller));
            last.put("visible_event_id", Json::str(f.visible_event_id.as_str()));
            operations.push(last);
        },
        None => {},
    }
    let event = Event {
        id: event_id.to_owned(),
        ts: now.to_owned(),
        kind: DECISION_KIND.to_owned(),
        group_id: group.group_id.clone(),
        by: f.by.clone(),
        data: decision_event_data(f, caller, safe),
    };
    Ok(Verdict { operations, event })
}

/// The refusal of a context write: a changed context asks for a retry of the same decision.
pub open spec fn sync_refusal(message: Text) -> ErrV {
    if message == "version_conflict"@ {
        refusal(
            "relay_context_changed"@,
            "the group context changed while this relay decision was being committed; retry the same decision"@,
        )
    } else {
        refusal("invalid_args"@, message)
    }
}

/// The refusal of a context write.
pub fn context_sync_error(error: &Failure) -> (r: OpError)
    ensures
        r@ == sync_refusal(error@.message),
{
    if str_eq(error.message.as_str(), "version_conflict") {
        OpError::new(
            "relay_context_changed",
            "the group context changed while this relay decision was being committed; retry the same decision",
        )
    } else {
        OpError::new("invalid_args", error.message.as_str())
    }
}

/// The actor that a recorded decision is by.
pub open spec fn decided_by(e: EventV) -> Text {
    match text_field(e.data, "by"@) {
        Some(t) => t,
        None => e.by,
    }
}

/// The answer to a decision request, over the account of the group after it.
pub open spec fn decision_answer(e: EventV, current: JsonV, replayed: bool) -> ObjV {
    map![
        "relay"@ => JsonV::Obj(e.data),
        "decision_event_id"@ => JsonV::Str(e.id),
        "replayed"@ => JsonV::Bool(replayed),
        "caller_may_idle"@ => JsonV::Bool(may_idle(current, decided_by(e))),
        "safe_to_idle"@ => current.at("safe_to_idle"@),
        "current_responsibility"@ => current.at("responsibility"@),
        "current_responsibilities"@ => current.at("responsibilities"@),
        "instructions"@ => JsonV::Str(
            "The relay decision is durable. Original actor messages remain the human-facing output; this record only transfers or ends machine responsibility. Read is not acknowledgement. safe_to_idle is recomputed from current tasks, handoffs, and user pause state."@,
        ),
    ]
}

/// The actor that a recorded decision is by.
pub fn decision_actor(e: &Event) -> (r: String)
    ensures
        r@ == decided_by(e@),
{
    match e.data.text("by") {
        Some(t) => t.to_owned(),
        None => e.by.clone(),
    }
}

/// The answer to a decision request. `current` is the account of the group after it.
pub fn decision_result(event: &Event, current: &Json, replayed: bool) -> (r: JsonMap)
    ensures
        r@ == decision_answer(event@, current@, replayed),
{
    let actor = decision_actor(event);
    let mut m = JsonMap::new();
    m.put("relay", Json::Obj(event.data.copy()));
    m.put("decision_event_id", Json::str(event.id.as_str()));
    m.put("replayed", Json::Bool(replayed));
    m.put("caller_may_idle", Json::Bool(actor_may_idle_from_state(current, actor.as_str())));
    m.put("safe_to_idle", current.at("safe_to_idle"));
    m.put("current_responsibility", current.at("responsibility"));
    m.put("current_responsibilities", current.at("responsibilities"));
    m.put(
        "instructions",
        Json::str(
            "The relay decision is durable. Original actor messages remain the human-facing output; this record only transfers or ends machine responsibility. Read is not acknowledgement. safe_to_idle is recomputed from current tasks, handoffs, and user pause state.",
        ),
    );
    m
}

} // verus!
