//! Recording the review obligation that a member turn leaves behind.

use crate::json::{text_array, text_field, Json, JsonMap, JsonV, ObjV};
use crate::json_access::json_texts;
use crate::lists::{lemma_views, lemma_views_push};
use crate::model::{ledger, refusal, ContextDoc, ErrV, Event, EventV, OpError};
use crate::relay::facts::{
    covers_some, decision_for_handoff, event_string_list, handoffs_for_sources, settled_by,
};
use crate::relay::ids::{
    handoff_id, handoff_id_text, handoff_label, handoff_label_text, short_digest, stable_event_id,
    HANDOFF_KIND,
};
use crate::relay::notes::{ensure_handoff_note, note_due};
use crate::relay::sources::{event_by_id, find_event, task_ids_from_events, tasks_of_events};
use crate::text::{has_text, str_eq, texts, Text};
use vstd::prelude::*;
use vstd::string::*;

verus! {

broadcast use {lemma_views, lemma_views_push};

/// A member turn that ended with reports for a target.
pub struct Turn {
    pub group_id: String,
    pub source_actor_id: String,
    pub target_actor_id: String,
    pub turn_id: String,
    pub status: String,
}

/// The mathematical value of a member turn.
pub struct TurnV {
    pub group_id: Text,
    pub source_actor_id: Text,
    pub target_actor_id: Text,
    pub turn_id: Text,
    pub status: Text,
}

impl View for Turn {
    type V = TurnV;

    open spec fn view(&self) -> TurnV {
        TurnV {
            group_id: self.group_id@,
            source_actor_id: self.source_actor_id@,
            target_actor_id: self.target_actor_id@,
            turn_id: self.turn_id@,
            status: self.status@,
        }
    }
}

impl TurnV {
    /// The identifier of the handoff that the turn leaves.
    pub open spec fn handoff(self) -> Text {
        handoff_id_text(
            self.group_id,
            self.source_actor_id,
            self.target_actor_id,
            self.turn_id,
        )
    }
}

/// The ids of the events.
pub open spec fn event_ids(events: Seq<EventV>) -> Seq<Text> {
    events.map_values(|e: EventV| e.id)
}

/// The ledger entry of a new handoff.
pub open spec fn new_handoff(turn: TurnV, reports: Seq<EventV>, now: Text) -> EventV {
    EventV {
        id: short_digest(turn.handoff()),
        ts: now,
        kind: HANDOFF_KIND@,
        group_id: turn.group_id,
        by: turn.source_actor_id,
        data: map![
            "handoff_id"@ => JsonV::Str(turn.handoff()),
            "source_event_ids"@ => text_array(event_ids(reports)),
            "source_actor_id"@ => JsonV::Str(turn.source_actor_id),
            "target_actor_id"@ => JsonV::Str(turn.target_actor_id),
            "turn_id"@ => JsonV::Str(turn.turn_id),
            "turn_status"@ => JsonV::Str(turn.status),
            "summary"@ => JsonV::Str(
                handoff_label_text(turn.source_actor_id, turn.status, reports.len()),
            ),
            "task_ids"@ => text_array(tasks_of_events(reports)),
            "status"@ => JsonV::Str("pending_review"@),
        ],
    }
}

/// What recording a handoff does: the entry to append, if it is new; the note to write, if the
/// context does not say it yet; and the handoff as it is returned.
pub struct HandoffPlan {
    pub append: Option<Event>,
    pub note: Option<JsonMap>,
    pub handoff: Event,
}

/// The mathematical value of a plan to record a handoff.
pub struct HandoffPlanV {
    pub append: Option<EventV>,
    pub note: Option<ObjV>,
    pub handoff: EventV,
}

impl View for HandoffPlan {
    type V = HandoffPlanV;

    open spec fn view(&self) -> HandoffPlanV {
        HandoffPlanV {
            append: match self.append {
                Some(e) => Some(e@),
                None => None,
            },
            note: match self.note {
                Some(m) => Some(m@),
                None => None,
            },
            handoff: self.handoff@,
        }
    }
}

/// The entry with a summary put in where it has none.
pub open spec fn with_summary(e: EventV, summary: Text) -> EventV {
    if e.data.contains_key("summary"@) {
        e
    } else {
        EventV { data: e.data.insert("summary"@, JsonV::Str(summary)), ..e }
    }
}

/// The plan for a handoff entry, new or known, over the ledger that holds it.
pub open spec fn plan_for(
    events: Seq<EventV>,
    coordination: ObjV,
    append: Option<EventV>,
    entry: EventV,
    summary: Text,
) -> HandoffPlanV {
    let settled = settled_by(events, entry);
    HandoffPlanV {
        append,
        note: note_due(
            coordination,
            entry,
            if settled is Some {
                "resolved"@
            } else {
                "pending_review"@
            },
            settled,
            None,
        ),
        handoff: with_summary(entry, summary),
    }
}

/// The plan to record the handoff of a turn. The same turn has one entry: recording it again
/// appends nothing; an entry of that id with other data is a conflict.
pub open spec fn handoff_plan(
    turn: TurnV,
    reports: Seq<EventV>,
    events: Seq<EventV>,
    coordination: ObjV,
    now: Text,
) -> Result<HandoffPlanV, ErrV> {
    let summary = handoff_label_text(turn.source_actor_id, turn.status, reports.len());
    if reports.len() == 0 {
        Err(
            refusal("relay_source_required"@, "relay handoff requires at least one source event"@),
        )
    } else {
        match event_by_id(events, short_digest(turn.handoff())) {
            Some(known) => if known.kind == HANDOFF_KIND@ && text_field(
                known.data,
                "handoff_id"@,
            ) == Some(turn.handoff()) {
                Ok(plan_for(events, coordination, None, known, summary))
            } else {
                Err(
                    refusal(
                        "relay_handoff_conflict"@,
                        "deterministic relay handoff id already belongs to different data"@,
                    ),
                )
            },
            None => {
                let entry = new_handoff(turn, reports, now);
                Ok(plan_for(events.push(entry), coordination, Some(entry), entry, summary))
            },
        }
    }
}

fn ids_of_events(events: &Vec<Event>) -> (r: Vec<String>)
    ensures
        texts(r@) == event_ids(ledger(events@)),
{
    let mut r: Vec<String> = Vec::new();
    let mut i: usize = 0;
    while i < events.len()
        invariant
            i <= events@.len(),
            r@.len() == i,
            forall|j: int| 0 <= j < i ==> (#[trigger] r@[j])@ == events@[j]@.id,
        decreases events@.len() - i,
    {
        r.push(events[i].id.clone());
        i += 1;
    }
    proof {
        assert(texts(r@) =~= event_ids(ledger(events@)));
    }
    r
}

fn new_handoff_of(turn: &Turn, reports: &Vec<Event>, now: &str, id: &str, summary: &str) -> (r:
    Event)
    requires
        id@ == turn@.handoff(),
        summary@ == handoff_label_text(
            turn@.source_actor_id,
            turn@.status,
            ledger(reports@).len(),
        ),
    ensures
        r@ == new_handoff(turn@, ledger(reports@), now@),
{
    let sources = ids_of_events(reports);
    let tasks = task_ids_from_events(reports);
    let mut m = JsonMap::new();
    m.put("handoff_id", Json::str(id));
    m.put("source_event_ids", json_texts(&sources));
    m.put("source_actor_id", Json::str(turn.source_actor_id.as_str()));
    m.put("target_actor_id", Json::str(turn.target_actor_id.as_str()));
    m.put("turn_id", Json::str(turn.turn_id.as_str()));
    m.put("turn_status", Json::str(turn.status.as_str()));
    m.put("summary", Json::str(summary));
    m.put("task_ids", json_texts(&tasks));
    m.put("status", Json::str("pending_review"));
    Event {
        id: stable_event_id(id),
        ts: now.to_owned(),
        kind: HANDOFF_KIND.to_owned(),
        group_id: turn.group_id.clone(),
        by: turn.source_actor_id.clone(),
        data: m,
    }
}

/// The plan to record the handoff of a turn with its reports, over the ledger and the context.
pub fn record_handoff(
    turn: &Turn,
    reports: &Vec<Event>,
    events: &Vec<Event>,
    document: &ContextDoc,
    now: &str,
) -> (r: Result<HandoffPlan, OpError>)
    ensures
        match r {
            Ok(p) => handoff_plan(
                turn@,
                ledger(reports@),
                ledger(events@),
                document@.coordination,
                now@,
            ) == Ok::<HandoffPlanV, ErrV>(p@),
            Err(e) => handoff_plan(
                turn@,
                ledger(reports@),
                ledger(events@),
                document@.coordination,
                now@,
            ) == Err::<HandoffPlanV, ErrV>(e@),
        },
{
    if reports.len() == 0 {
        return Err(
            OpError::new(
                "relay_source_required",
                "relay handoff requires at least one source event",
            ),
        );
    }
    let id = handoff_id(
        turn.group_id.as_str(),
        turn.source_actor_id.as_str(),
        turn.target_actor_id.as_str(),
        turn.turn_id.as_str(),
    );
    let event_id = stable_event_id(id.as_str());
    let summary = handoff_label(
        turn.source_actor_id.as_str(),
        turn.status.as_str(),
        reports.len(),
    );
    let mut append: Option<Event> = None;
    let mut entry = match find_event(events, event_id.as_str()) {
        Some(known) => {
            if !known.is_kind(HANDOFF_KIND) || !known.data.is("handoff_id", id.as_str()) {
                return Err(
                    OpError::new(
                        "relay_handoff_conflict",
                        "deterministic relay handoff id already belongs to different data",
                    ),
                );
            }
            known.copy()
        },
        None => {
            let e = new_handoff_of(turn, reports, now, id.as_str(), summary.as_str());
            append = Some(e.copy());
            proof {
                reveal_strlit("coordination.handoff");
                reveal_strlit("coordination.decision");
                assert("coordination.handoff"@.len() == 20);
                assert("coordination.decision"@.len() == 21);
                crate::relay::resolution::lemma_other_entry(ledger(events@), e@, e@);
            }
            e
        },
    };
    let settled = decision_for_handoff(events, &entry);
    let note = match &settled {
        Some(d) => ensure_handoff_note(document, &entry, "resolved", Some(d.as_str()), None),
        None => ensure_handoff_note(document, &entry, "pending_review", None, None),
    };
    if !entry.data.has("summary") {
        entry.data.put("summary", Json::Str(summary));
    }
    Ok(HandoffPlan { append, note, handoff: entry })
}

/// A source event by nobody, by the user, by the system or by the target itself is no member
/// report.
pub open spec fn is_member_report(source: EventV, target: Text) -> bool {
    source.by.len() > 0 && source.by != "user"@ && source.by != "system"@ && source.by != target
}

/// The source events that a handoff for the target covers.
pub open spec fn covered(events: Seq<EventV>, target: Text, sources: Seq<EventV>, id: Text) -> bool {
    exists|i: int|
        0 <= i < events.len() && covers_some(#[trigger] events[i], target, event_ids(sources))
            && events[i].strings("source_event_ids"@).contains(id)
}

/// The sources for which handoffs are recorded on the way, and the refusal that ends it, if any:
/// sources are taken in order, covered ones are passed over, and the first that is no member
/// report is refused.
pub open spec fn implicit(
    events: Seq<EventV>,
    target: Text,
    sources: Seq<EventV>,
    n: nat,
) -> (Seq<EventV>, Option<ErrV>)
    decreases n,
{
    if n == 0 || n > sources.len() {
        (Seq::empty(), None)
    } else {
        let (known, refused) = implicit(events, target, sources, (n - 1) as nat);
        let s = sources[n - 1];
        if refused is Some || covered(events, target, sources, s.id) {
            (known, refused)
        } else if is_member_report(s, target) {
            (known.push(s), None)
        } else {
            (
                known,
                Some(refusal("relay_handoff_missing"@, "event is not a member handoff: "@ + s.id)),
            )
        }
    }
}

/// The turn under which a lone report is handed off.
pub open spec fn implicit_turn(group_id: Text, source: EventV, target: Text) -> TurnV {
    TurnV {
        group_id,
        source_actor_id: source.by,
        target_actor_id: target,
        turn_id: "implicit:"@ + source.id,
        status: "reported"@,
    }
}

/// The turn under which a lone report is handed off.
pub fn implicit_turn_of(group_id: &str, source: &Event, target: &str) -> (r: Turn)
    ensures
        r@ == implicit_turn(group_id@, source@, target@),
{
    let mut turn_id = "implicit:".to_owned();
    turn_id.append(source.id.as_str());
    Turn {
        group_id: group_id.to_owned(),
        source_actor_id: source.by.clone(),
        target_actor_id: target.to_owned(),
        turn_id,
        status: "reported".to_owned(),
    }
}

/// The sources for which handoffs are recorded on the way, and the refusal that ends it, if any.
pub struct ImplicitHandoffs {
    pub record: Vec<Event>,
    pub refused: Option<OpError>,
}

fn is_covered(handoffs: &Vec<Event>, id: &str) -> (r: bool)
    ensures
        r == (exists|i: int|
            0 <= i < handoffs@.len() && (#[trigger] ledger(handoffs@)[i]).strings(
                "source_event_ids"@,
            ).contains(id@)),
{
    let mut i: usize = 0;
    while i < handoffs.len()
        invariant
            i <= handoffs@.len(),
            forall|j: int|
                0 <= j < i ==> !(#[trigger] ledger(handoffs@)[j]).strings(
                    "source_event_ids"@,
                ).contains(id@),
        decreases handoffs@.len() - i,
    {
        if has_text(&event_string_list(&handoffs[i], "source_event_ids"), id) {
            assert(ledger(handoffs@)[i as int].strings("source_event_ids"@).contains(id@));
            return true;
        }
        i += 1;
    }
    false
}

proof fn lemma_covered(
    events: Seq<EventV>,
    target: Text,
    sources: Seq<EventV>,
    handoffs: Seq<EventV>,
    id: Text,
)
    requires
        handoffs == events.filter(|e: EventV| covers_some(e, target, event_ids(sources))),
    ensures
        covered(events, target, sources, id) <==> exists|i: int|
            0 <= i < handoffs.len() && (#[trigger] handoffs[i]).strings(
                "source_event_ids"@,
            ).contains(id),
{
    let p = |e: EventV| covers_some(e, target, event_ids(sources));
    crate::lists::lemma_selection(events, p);
    if covered(events, target, sources, id) {
        let i = choose|i: int|
            0 <= i < events.len() && covers_some(#[trigger] events[i], target, event_ids(sources))
                && events[i].strings("source_event_ids"@).contains(id);
        assert(events.contains(events[i]) && p(events[i]));
        assert(handoffs.contains(events[i]));
        let j = choose|j: int| 0 <= j < handoffs.len() && handoffs[j] == events[i];
        assert(handoffs[j].strings("source_event_ids"@).contains(id));
    }
    if exists|i: int|
        0 <= i < handoffs.len() && (#[trigger] handoffs[i]).strings("source_event_ids"@).contains(
            id,
        ) {
        let i = choose|i: int|
            0 <= i < handoffs.len() && (#[trigger] handoffs[i]).strings(
                "source_event_ids"@,
            ).contains(id);
        assert(handoffs.contains(handoffs[i]));
        let j = choose|j: int| 0 <= j < events.len() && events[j] == handoffs[i];
        assert(covers_some(events[j], target, event_ids(sources)));
    }
}

/// The sources for which handoffs are recorded on the way, and the refusal that ends it, if any.
pub fn ensure_implicit_handoffs(
    events: &Vec<Event>,
    target_actor_id: &str,
    sources: &Vec<Event>,
) -> (r: ImplicitHandoffs)
    ensures
        ledger(r.record@) == implicit(
            ledger(events@),
            target_actor_id@,
            ledger(sources@),
            sources@.len(),
        ).0,
        match r.refused {
            Some(e) => implicit(
                ledger(events@),
                target_actor_id@,
                ledger(sources@),
                sources@.len(),
            ).1 == Some(e@),
            None => implicit(
                ledger(events@),
                target_actor_id@,
                ledger(sources@),
                sources@.len(),
            ).1 is None,
        },
{
    let ghost es = ledger(events@);
    let ghost ss = ledger(sources@);
    let ids = ids_of_events(sources);
    let handoffs = handoffs_for_sources(events, target_actor_id, &ids);
    let mut record: Vec<Event> = Vec::new();
    let mut refused: Option<OpError> = None;
    let mut i: usize = 0;
    proof {
        assert(ledger(record@) =~= Seq::empty());
    }
    while i < sources.len()
        invariant
            i <= sources@.len(),
            es == ledger(events@),
            ss == ledger(sources@),
            ledger(handoffs@) == es.filter(
                |e: EventV| covers_some(e, target_actor_id@, event_ids(ss)),
            ),
            ledger(record@) == implicit(es, target_actor_id@, ss, i as nat).0,
            match refused {
                Some(e) => implicit(es, target_actor_id@, ss, i as nat).1 == Some(e@),
                None => implicit(es, target_actor_id@, ss, i as nat).1 is None,
            },
        decreases sources@.len() - i,
    {
        let s = &sources[i];
        proof {
            lemma_covered(es, target_actor_id@, ss, ledger(handoffs@), s@.id);
        }
        if refused.is_none() && !is_covered(&handoffs, s.id.as_str()) {
            if s.by.as_str().is_empty() || str_eq(s.by.as_str(), "user") || str_eq(
                s.by.as_str(),
                "system",
            ) || str_eq(s.by.as_str(), target_actor_id) {
                refused = Some(
                    OpError::about(
                        "relay_handoff_missing",
                        "event is not a member handoff: ",
                        s.id.as_str(),
                    ),
                );
            } else {
                record.push(s.copy());
            }
        }
        i += 1;
    }
    ImplicitHandoffs { record, refused }
}

} // verus!
