//! The course of a relay decision. Each step names what is done outside before the next one:
//! handoffs are recorded before the decision is resolved, the next work is sent before the context
//! is changed, and the context is changed before the decision is recorded.

use crate::json::{objects, JsonMap, ObjV};
use crate::lists::{lemma_views, lemma_views_push};
use crate::model::{
    ledger, ContextDoc, DaemonRequest, ErrV, Event, EventV, GroupDoc, GroupV, OpError, RequestV,
};
use crate::relay::decide::{
    commit_decision, commitment, conclude_decision, decision_facts, decision_operations,
    delivered_work, draft_operations, facts, read_delivered_work, resolution, resolve_decision,
    verdict, Resolution, ResolutionV, Scope, ScopeV, Verdict, VerdictV,
};
use crate::relay::handoff::{ensure_implicit_handoffs, implicit};
use crate::relay::intent::{intent, read_intent, Intent, IntentV};
use crate::relay::notes::{DecisionFacts, FactsV};
use crate::relay::sources::{
    resolve_requested_sources, resolved, source_events, sources_of,
};
use crate::text::{texts, Text};
use vstd::prelude::*;

verus! {

broadcast use {lemma_views, lemma_views_push};

/// A new decision on its way: what is asked for and what it covers.
pub struct Draft {
    pub intent: Intent,
    pub scope: Scope,
}

/// The mathematical value of a new decision on its way.
pub struct DraftV {
    pub intent: IntentV,
    pub scope: ScopeV,
}

impl View for Draft {
    type V = DraftV;

    open spec fn view(&self) -> DraftV {
        DraftV { intent: self.intent@, scope: self.scope@ }
    }
}

/// A step of a decision.
pub enum DecideStep {
    /// The decision is refused; nothing more is done.
    Refused(OpError),
    /// Record a handoff for each of these reports. A refusal behind them ends the decision; else
    /// the ledger is read again for these source events.
    Record(Intent, Vec<String>, Vec<Event>, Option<OpError>),
    /// Complete the facts of this recorded decision, and answer with it.
    Replay(Event),
    /// Read the context.
    Context(Draft),
    /// Send the next work; these are the tasks of the decision.
    Send(Draft, Vec<String>, DaemonRequest),
    /// Read the context again; the task and the message of the next work come along.
    Reread(Draft, Vec<String>, String, String),
    /// Try these operations on the context without writing it.
    Preview(Draft, DecisionFacts, Vec<JsonMap>),
    /// Write these operations to the context, then append the entry to the ledger.
    Commit(Verdict),
}

/// The mathematical value of a step of a decision.
pub enum DecideStepV {
    Refused(ErrV),
    Record(IntentV, Seq<Text>, Seq<EventV>, Option<ErrV>),
    Replay(EventV),
    Context(DraftV),
    Send(DraftV, Seq<Text>, RequestV),
    Reread(DraftV, Seq<Text>, Text, Text),
    Preview(DraftV, FactsV, Seq<ObjV>),
    Commit(VerdictV),
}

/// The value of an optional refusal.
pub open spec fn opt_refusal(o: Option<OpError>) -> Option<ErrV> {
    match o {
        Some(e) => Some(e@),
        None => None,
    }
}

impl View for DecideStep {
    type V = DecideStepV;

    open spec fn view(&self) -> DecideStepV {
        match self {
            DecideStep::Refused(e) => DecideStepV::Refused(e@),
            DecideStep::Record(i, ids, reports, refused) => DecideStepV::Record(
                i@,
                texts(ids@),
                ledger(reports@),
                opt_refusal(*refused),
            ),
            DecideStep::Replay(e) => DecideStepV::Replay(e@),
            DecideStep::Context(d) => DecideStepV::Context(d@),
            DecideStep::Send(d, ids, q) => DecideStepV::Send(d@, texts(ids@), q@),
            DecideStep::Reread(d, ids, t, m) => DecideStepV::Reread(d@, texts(ids@), t@, m@),
            DecideStep::Preview(d, f, ops) => DecideStepV::Preview(d@, f@, objects(ops@)),
            DecideStep::Commit(v) => DecideStepV::Commit(v@),
        }
    }
}

/// The first step: the request is heard, its source events are found, and those without a handoff
/// get one.
pub open spec fn first_step(
    args: ObjV,
    g: GroupV,
    events: Seq<EventV>,
    addressed: Seq<Text>,
) -> DecideStepV {
    match intent(args, g) {
        Err(e) => DecideStepV::Refused(e),
        Ok(i) => match resolved(events, addressed, i.by, i.requested) {
            Err(e) => DecideStepV::Refused(e),
            Ok(ids) => match sources_of(events, addressed, i.by, ids) {
                Err(e) => DecideStepV::Refused(e),
                Ok(sources) => {
                    let (reports, refused) = implicit(events, i.by, sources, sources.len());
                    DecideStepV::Record(i, ids, reports, refused)
                },
            },
        },
    }
}

/// The first step of a decision. `addressed` are the ids of the events that are addressed to the
/// caller.
pub fn decide(
    request: &DaemonRequest,
    group: &GroupDoc,
    events: &Vec<Event>,
    addressed: &Vec<String>,
) -> (r: DecideStep)
    ensures
        r@ == first_step(
            request@.args,
            group@,
            ledger(events@),
            texts(addressed@),
        ),
{
    let i = match read_intent(request, group) {
        Ok(i) => i,
        Err(e) => {
            return DecideStep::Refused(e);
        },
    };
    let ids = match resolve_requested_sources(events, addressed, &i.requested, i.by.as_str()) {
        Ok(ids) => ids,
        Err(e) => {
            return DecideStep::Refused(e);
        },
    };
    let sources = match source_events(events, addressed, &ids, i.by.as_str()) {
        Ok(s) => s,
        Err(e) => {
            return DecideStep::Refused(e);
        },
    };
    let plan = ensure_implicit_handoffs(events, i.by.as_str(), &sources);
    DecideStep::Record(i, ids, plan.record, plan.refused)
}

/// The step over the ledger with the handoffs recorded: a replay, a refusal, or a new decision.
pub open spec fn recorded_step(
    g: GroupV,
    events: Seq<EventV>,
    addressed: Seq<Text>,
    i: IntentV,
    ids: Seq<Text>,
) -> DecideStepV {
    match resolution(g.group_id, events, addressed, i, ids) {
        Err(e) => DecideStepV::Refused(e),
        Ok(ResolutionV::Replay(e)) => DecideStepV::Replay(e),
        Ok(ResolutionV::Fresh(scope)) => DecideStepV::Context(DraftV { intent: i, scope }),
    }
}

/// The step over the ledger with the handoffs recorded.
pub fn after_recording(
    group: &GroupDoc,
    events: &Vec<Event>,
    addressed: &Vec<String>,
    i: Intent,
    ids: &Vec<String>,
) -> (r: DecideStep)
    ensures
        r@ == recorded_step(group@, ledger(events@), texts(addressed@), i@, texts(ids@)),
{
    match resolve_decision(group.group_id.as_str(), events, addressed, &i, ids) {
        Err(e) => DecideStep::Refused(e),
        Ok(Resolution::Replay(e)) => DecideStep::Replay(e),
        Ok(Resolution::Fresh(scope)) => DecideStep::Context(Draft { intent: i, scope }),
    }
}

/// The step over the context: a refusal, or the next work to send, or none to send.
pub open spec fn context_step(
    g: GroupV,
    events: Seq<EventV>,
    tasks: Seq<ObjV>,
    request: RequestV,
    client_id: Text,
    d: DraftV,
) -> DecideStepV {
    match commitment(g, events, tasks, request, client_id, d.intent, d.scope) {
        Err(e) => DecideStepV::Refused(e),
        Ok(c) => match c.send {
            Some(q) => DecideStepV::Send(d, c.task_ids, q),
            None => DecideStepV::Reread(d, c.task_ids, Seq::empty(), Seq::empty()),
        },
    }
}

/// The step over the context. `tracked_client_id` is the id under which the decision's next task
/// is created.
pub fn after_context(
    group: &GroupDoc,
    events: &Vec<Event>,
    document: &ContextDoc,
    request: &DaemonRequest,
    tracked_client_id: &str,
    d: Draft,
) -> (r: DecideStep)
    ensures
        r@ == context_step(
            group@,
            ledger(events@),
            document@.tasks,
            request@,
            tracked_client_id@,
            d@,
        ),
{
    match commit_decision(
        group,
        events,
        document,
        request,
        tracked_client_id,
        &d.intent,
        &d.scope,
    ) {
        Err(e) => DecideStep::Refused(e),
        Ok(c) => match c.send {
            Some(q) => DecideStep::Send(d, c.task_ids, q),
            None => DecideStep::Reread(d, c.task_ids, String::new(), String::new()),
        },
    }
}

/// The step after the next work was sent: without a durable delivery the decision is refused and
/// can be repeated.
pub open spec fn sent_step(d: DraftV, task_ids: Seq<Text>, reply: Result<ObjV, ErrV>) -> DecideStepV {
    match reply {
        Err(e) => DecideStepV::Refused(e),
        Ok(m) => match delivered_work(m) {
            Err(e) => DecideStepV::Refused(e),
            Ok((task, message)) => DecideStepV::Reread(d, task_ids, task, message),
        },
    }
}

/// The step after the next work was sent. `reply` is the answer to the sending.
pub fn after_send(d: Draft, task_ids: Vec<String>, reply: Result<JsonMap, OpError>) -> (r:
    DecideStep)
    ensures
        r@ == sent_step(d@, texts(task_ids@), crate::model::outcome(reply)),
{
    match reply {
        Err(e) => DecideStep::Refused(e),
        Ok(m) => match read_delivered_work(&m) {
            Err(e) => DecideStep::Refused(e),
            Ok((task, message)) => DecideStep::Reread(d, task_ids, task, message),
        },
    }
}

/// The step over the context as it is after the sending: the operations to try.
pub open spec fn reread_step(
    tasks: Seq<ObjV>,
    d: DraftV,
    task_ids: Seq<Text>,
    next_task_id: Text,
    visible_event_id: Text,
    now: Text,
) -> DecideStepV {
    let f = facts(d.intent, d.scope, task_ids, next_task_id, visible_event_id);
    DecideStepV::Preview(d, f, draft_operations(tasks, f, d.scope.handoffs, now))
}

/// The step over the context as it is after the sending.
pub fn after_reread(
    document: &ContextDoc,
    d: Draft,
    task_ids: &Vec<String>,
    next_task_id: &str,
    visible_event_id: &str,
    now: &str,
) -> (r: DecideStep)
    ensures
        r@ == reread_step(
            document@.tasks,
            d@,
            texts(task_ids@),
            next_task_id@,
            visible_event_id@,
            now@,
        ),
{
    let f = decision_facts(&d.intent, &d.scope, task_ids, next_task_id, visible_event_id);
    let ops = decision_operations(document, &f, &d.scope.handoffs, now);
    DecideStep::Preview(d, f, ops)
}

/// The last step: the final operations and the entry, or a refusal of complete.
pub open spec fn preview_step(
    g: GroupV,
    events: Seq<EventV>,
    previewed: Seq<ObjV>,
    d: DraftV,
    f: FactsV,
    operations: Seq<ObjV>,
    now: Text,
) -> DecideStepV {
    match verdict(g, events, previewed, f, d.scope.event_id, operations, now) {
        Err(e) => DecideStepV::Refused(e),
        Ok(v) => DecideStepV::Commit(v),
    }
}

/// The last step. `preview` is the context as the operations would leave it.
pub fn after_preview(
    group: &GroupDoc,
    events: &Vec<Event>,
    preview: &ContextDoc,
    d: &Draft,
    f: &DecisionFacts,
    operations: Vec<JsonMap>,
    now: &str,
) -> (r: DecideStep)
    ensures
        r@ == preview_step(
            group@,
            ledger(events@),
            preview@.tasks,
            d@,
            f@,
            objects(operations@),
            now@,
        ),
{
    match conclude_decision(
        group,
        events,
        preview,
        f,
        d.scope.event_id.as_str(),
        operations,
        now,
    ) {
        Err(e) => DecideStep::Refused(e),
        Ok(v) => DecideStep::Commit(v),
    }
}

/// How far a decision has come with a step.
pub open spec fn stage(s: DecideStepV) -> int {
    match s {
        DecideStepV::Record(_, _, _, _) => 1,
        DecideStepV::Context(_) => 2,
        DecideStepV::Send(_, _, _) => 3,
        DecideStepV::Reread(_, _, _, _) => 4,
        DecideStepV::Preview(_, _, _) => 5,
        DecideStepV::Commit(_) => 6,
        DecideStepV::Replay(_) => 7,
        DecideStepV::Refused(_) => 7,
    }
}

/// Every step takes a decision further: its next work is sent at most once, it is recorded at most
/// once, and a request that replays or is refused sends and records nothing of its own.
pub proof fn a_decision_moves_on(
    args: ObjV,
    g: GroupV,
    events: Seq<EventV>,
    addressed: Seq<Text>,
    i: IntentV,
    ids: Seq<Text>,
    tasks: Seq<ObjV>,
    request: RequestV,
    client_id: Text,
    d: DraftV,
    reply: Result<ObjV, ErrV>,
    task: Text,
    message: Text,
    f: FactsV,
    operations: Seq<ObjV>,
    now: Text,
)
    ensures
        stage(first_step(args, g, events, addressed)) >= 1,
        first_step(args, g, events, addressed) is Record || first_step(
            args,
            g,
            events,
            addressed,
        ) is Refused,
        stage(recorded_step(g, events, addressed, i, ids)) > 1,
        stage(context_step(g, events, tasks, request, client_id, d)) > 2,
        stage(sent_step(d, ids, reply)) > 3,
        stage(reread_step(tasks, d, ids, task, message, now)) > 4,
        stage(preview_step(g, events, tasks, d, f, operations, now)) > 5,
{
}

/// Only continue sends work.
pub proof fn only_continue_sends_work(
    g: GroupV,
    events: Seq<EventV>,
    tasks: Seq<ObjV>,
    request: RequestV,
    client_id: Text,
    d: DraftV,
)
    ensures
        context_step(g, events, tasks, request, client_id, d) is Send ==> d.intent.decision
            == "continue"@,
{
}

} // verus!
