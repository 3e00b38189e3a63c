//! The whole course of a request to decide, from the ledger that it finds to the ledger that it
//! leaves, whatever the outside answers on the way.

use crate::json::{JsonV, ObjV};
use crate::lists::some_match;
use crate::model::{refusal, ErrV, EventV, GroupV, RequestV};
use crate::relay::decide::{decision_answer, draft_operations, facts, others_open, VerdictV};
use crate::relay::flow::{
    context_step, first_step, preview_step, recorded_step, reread_step, sent_step, DecideStepV,
    DraftV,
};
use crate::relay::handoff::covered;
use crate::relay::intent::IntentV;
use crate::relay::repeat::{
    a_refused_complete_succeeds_once_the_work_is_done, a_repeated_request_replays_its_decision,
    an_open_decision_keeps_its_scope, leaves_alone, lemma_heard_again, same_but_summary, within,
    FirstRequest,
};
use crate::relay::sources::sources_of;
use crate::relay::work::{all_task_moves, live};
use crate::relay::words::lemma_decisions;
use crate::text::Text;
use vstd::prelude::*;

verus! {

/// What the outside answers in the course of one request: which events are for the caller, before
/// and after handoffs were recorded, and what recording them appended; the context, the id of the
/// next task, the answer to the sending of it and what that appended; the context again, and as the
/// operations would leave it; what writing it appended; and the time.
pub struct Answers {
    pub addressed: Seq<Text>,
    pub recorded: Seq<EventV>,
    pub then_addressed: Seq<Text>,
    pub tasks: Seq<ObjV>,
    pub client_id: Text,
    pub reply: Result<ObjV, ErrV>,
    pub sent: Seq<EventV>,
    pub tasks_again: Seq<ObjV>,
    pub previewed: Seq<ObjV>,
    pub synced: Seq<EventV>,
    pub now: Text,
}

/// How a request ends: refused, with a recorded decision, or with a new one.
pub enum End {
    Refused(ErrV),
    Replayed(EventV),
    Made(VerdictV),
}

/// The course of a request: the ledger that it leaves, the next work that it sent, the operations
/// that it wrote to the context, and how it ended.
pub struct Course {
    pub ledger: Seq<EventV>,
    pub sent: Option<RequestV>,
    pub written: Option<Seq<ObjV>>,
    pub end: End,
}

/// The ledger with the handoffs of reports recorded.
pub open spec fn with_handoffs(
    events: Seq<EventV>,
    reports: Seq<EventV>,
    a: Answers,
) -> Seq<EventV> {
    if reports.len() == 0 {
        events
    } else {
        events + a.recorded
    }
}

/// The end of a course: the context is read again, and the decision is recorded or refused.
pub open spec fn concluded(
    g: GroupV,
    known: Seq<EventV>,
    left: Seq<EventV>,
    sent: Option<RequestV>,
    d: DraftV,
    task_ids: Seq<Text>,
    next_task_id: Text,
    message_id: Text,
    a: Answers,
) -> Course {
    match reread_step(a.tasks_again, d, task_ids, next_task_id, message_id, a.now) {
        DecideStepV::Preview(e, f, operations) => match preview_step(
            g,
            known,
            a.previewed,
            e,
            f,
            operations,
            a.now,
        ) {
            DecideStepV::Commit(v) => Course {
                ledger: left + a.synced.push(v.event),
                sent,
                written: Some(v.operations),
                end: End::Made(v),
            },
            DecideStepV::Refused(x) => Course {
                ledger: left,
                sent,
                written: None,
                end: End::Refused(x),
            },
            _ => arbitrary(),
        },
        _ => arbitrary(),
    }
}

/// The course of a new decision: its next work is sent, if there is any, before it is concluded.
pub open spec fn carried_out(
    g: GroupV,
    known: Seq<EventV>,
    request: RequestV,
    d: DraftV,
    a: Answers,
) -> Course {
    match context_step(g, known, a.tasks, request, a.client_id, d) {
        DecideStepV::Refused(x) => Course {
            ledger: known,
            sent: None,
            written: None,
            end: End::Refused(x),
        },
        DecideStepV::Reread(e, task_ids, next, message) => concluded(
            g,
            known,
            known,
            None,
            e,
            task_ids,
            next,
            message,
            a,
        ),
        DecideStepV::Send(e, task_ids, q) => match sent_step(e, task_ids, a.reply) {
            DecideStepV::Refused(x) => Course {
                ledger: known + a.sent,
                sent: Some(q),
                written: None,
                end: End::Refused(x),
            },
            DecideStepV::Reread(f, ids, next, message) => concluded(
                g,
                known,
                known + a.sent,
                Some(q),
                f,
                ids,
                next,
                message,
                a,
            ),
            _ => arbitrary(),
        },
        _ => arbitrary(),
    }
}

/// The course of a request.
pub open spec fn course(g: GroupV, events: Seq<EventV>, request: RequestV, a: Answers) -> Course {
    match first_step(request.args, g, events, a.addressed) {
        DecideStepV::Refused(x) => Course {
            ledger: events,
            sent: None,
            written: None,
            end: End::Refused(x),
        },
        DecideStepV::Record(i, ids, reports, refused) => {
            let known = with_handoffs(events, reports, a);
            match refused {
                Some(x) => Course {
                    ledger: known,
                    sent: None,
                    written: None,
                    end: End::Refused(x),
                },
                None => match recorded_step(g, known, a.then_addressed, i, ids) {
                    DecideStepV::Refused(x) => Course {
                        ledger: known,
                        sent: None,
                        written: None,
                        end: End::Refused(x),
                    },
                    DecideStepV::Replay(e) => Course {
                        ledger: known,
                        sent: None,
                        written: None,
                        end: End::Replayed(e),
                    },
                    DecideStepV::Context(d) => carried_out(g, known, request, d, a),
                    _ => arbitrary(),
                },
            }
        },
        _ => arbitrary(),
    }
}

/// Whether the outside did what it was asked for: each report that was to be recorded has a handoff
/// in the ledger, events that were for the caller still are, and nothing but the relay itself
/// records a decision.
pub open spec fn is_faithful(
    g: GroupV,
    events: Seq<EventV>,
    request: RequestV,
    a: Answers,
) -> bool {
    &&& within(a.addressed, a.then_addressed)
    &&& forall|k: int| 0 <= k < a.recorded.len() ==> !(#[trigger] a.recorded[k]).is_decision()
    &&& forall|k: int| 0 <= k < a.sent.len() ==> !(#[trigger] a.sent[k]).is_decision()
    &&& forall|k: int| 0 <= k < a.synced.len() ==> !(#[trigger] a.synced[k]).is_decision()
    &&& first_step(request.args, g, events, a.addressed) matches DecideStepV::Record(
        i,
        ids,
        reports,
        _,
    ) ==> (sources_of(events, a.addressed, i.by, ids) matches Ok(sources) ==> forall|k: int|
        0 <= k < reports.len() ==> covered(
            with_handoffs(events, reports, a),
            i.by,
            sources,
            (#[trigger] reports[k]).id,
        ))
}

/// A request that came as far as a new decision, as it went there.
spec fn heard(g: GroupV, events: Seq<EventV>, request: RequestV, a: Answers) -> FirstRequest {
    let step = first_step(request.args, g, events, a.addressed);
    let i = step->Record_0;
    let ids = step->Record_1;
    let reports = step->Record_2;
    FirstRequest {
        args: request.args,
        group: g,
        events,
        addressed: a.addressed,
        recorded: if reports.len() == 0 {
            Seq::empty()
        } else {
            a.recorded
        },
        then_addressed: a.then_addressed,
        intent: i,
        ids,
        reports,
        sources: sources_of(events, a.addressed, i.by, ids)->Ok_0,
        draft: recorded_step(g, with_handoffs(events, reports, a), a.then_addressed, i, ids)->Context_0,
    }
}

/// Whether a request came as far as a new decision.
pub open spec fn comes_to_a_decision(
    g: GroupV,
    events: Seq<EventV>,
    request: RequestV,
    a: Answers,
) -> bool {
    first_step(request.args, g, events, a.addressed) matches DecideStepV::Record(
        i,
        ids,
        reports,
        None,
    ) && recorded_step(g, with_handoffs(events, reports, a), a.then_addressed, i, ids) is Context
}

/// The intent of a request that came as far as a new decision.
pub open spec fn intent_of(
    g: GroupV,
    events: Seq<EventV>,
    request: RequestV,
    a: Answers,
) -> IntentV {
    first_step(request.args, g, events, a.addressed)->Record_0
}

proof fn lemma_heard(g: GroupV, events: Seq<EventV>, request: RequestV, a: Answers)
    requires
        comes_to_a_decision(g, events, request, a),
        is_faithful(g, events, request, a),
    ensures
        heard(g, events, request, a).went_through(),
        heard(g, events, request, a).ledger() == with_handoffs(
            events,
            heard(g, events, request, a).reports,
            a,
        ),
{
    let r = heard(g, events, request, a);
    assert(r.ledger() =~= with_handoffs(events, r.reports, a));
}

/// A decision is made once. Where a request made a decision, a request that is the same but for its
/// summary, at any later time at which the caller leads the group, and for continue the group is
/// not halted, ends with that decision: nothing is appended to the ledger, nothing is sent, and
/// nothing is written. Its answer tells the decision as the first one did, and the account of the
/// group as it is then.
pub proof fn a_decision_is_made_once(
    g: GroupV,
    events: Seq<EventV>,
    request: RequestV,
    a: Answers,
    later: Seq<EventV>,
    h: GroupV,
    again: RequestV,
    b: Answers,
    v: VerdictV,
    then: JsonV,
    current: JsonV,
)
    requires
        is_faithful(g, events, request, a),
        course(g, events, request, a).end == End::Made(v),
        same_but_summary(request.args, again.args),
        h.is_foreman(intent_of(g, events, request, a).by),
        intent_of(g, events, request, a).decision == "continue"@ ==> !h.halted(),
        within(a.then_addressed, b.addressed),
        within(b.addressed, b.then_addressed),
    ensures
        course(h, course(g, events, request, a).ledger + later, again, b) == (Course {
            ledger: course(g, events, request, a).ledger + later,
            sent: None,
            written: None,
            end: End::Replayed(v.event),
        }),
        decision_answer(v.event, current, true)["relay"@] == decision_answer(
            v.event,
            then,
            false,
        )["relay"@],
        decision_answer(v.event, current, true)["replayed"@] == JsonV::Bool(true),
        decision_answer(v.event, current, true)["safe_to_idle"@] == current.at("safe_to_idle"@),
        decision_answer(v.event, current, true)["current_responsibility"@] == current.at(
            "responsibility"@,
        ),
{
    let r = heard(g, events, request, a);
    assert(comes_to_a_decision(g, events, request, a));
    lemma_heard(g, events, request, a);
    let known = r.ledger();
    let step = context_step(g, known, a.tasks, request, a.client_id, r.draft);
    let (between, task_ids, next, message) = match step {
        DecideStepV::Send(_, ids, _) => {
            let s = sent_step(r.draft, ids, a.reply);
            (a.sent + a.synced, ids, s->Reread_2, s->Reread_3)
        },
        _ => (a.synced, step->Reread_1, step->Reread_2, step->Reread_3),
    };
    let f = facts(r.intent, r.draft.scope, task_ids, next, message);
    let operations = draft_operations(a.tasks_again, f, r.draft.scope.handoffs, a.now);
    assert(r.draft.intent == r.intent);
    assert(preview_step(g, known, a.previewed, r.draft, f, operations, a.now)
        == DecideStepV::Commit(v));
    let left = course(g, events, request, a).ledger;
    assert(left =~= known + between.push(v.event));
    assert(left + later == known + between.push(v.event) + later);
    assert forall|k: int| 0 <= k < between.len() implies !(#[trigger] between[k]).is_decision() by {
        if step is Send && k >= a.sent.len() {
            assert(between[k] == a.synced[k - a.sent.len()]);
        }
    }
    a_repeated_request_replays_its_decision(
        r,
        task_ids,
        next,
        message,
        a.previewed,
        operations,
        a.now,
        v,
        between,
        later,
        again.args,
        h,
        b.addressed,
        then,
        current,
    );
    a_repeated_request_replays_its_decision(
        r,
        task_ids,
        next,
        message,
        a.previewed,
        operations,
        a.now,
        v,
        between,
        later,
        again.args,
        h,
        b.then_addressed,
        then,
        current,
    );
}

/// A request in a row of requests: what was appended to the ledger before it, the request, and what
/// the outside answers.
pub struct Turn {
    pub before: Seq<EventV>,
    pub request: RequestV,
    pub answers: Answers,
}

/// The ledger behind a row of requests, one after the other.
pub open spec fn behind_all(g: GroupV, events: Seq<EventV>, all: Seq<Turn>) -> Seq<EventV>
    decreases all.len(),
{
    if all.len() == 0 {
        events
    } else {
        let last = all.last();
        course(
            g,
            behind_all(g, events, all.drop_last()) + last.before,
            last.request,
            last.answers,
        ).ledger
    }
}

/// Of any number of requests that are the same but for their summaries, made one after the other,
/// one decides: once it has made a decision, all behind it end with that decision and append, send
/// and write nothing.
pub proof fn of_like_requests_one_decides(
    g: GroupV,
    events: Seq<EventV>,
    request: RequestV,
    a: Answers,
    v: VerdictV,
    all: Seq<Turn>,
    n: int,
)
    requires
        is_faithful(g, events, request, a),
        course(g, events, request, a).end == End::Made(v),
        forall|k: int|
            0 <= k < all.len() ==> same_but_summary(
                request.args,
                (#[trigger] all[k]).request.args,
            ) && within(a.then_addressed, all[k].answers.addressed) && within(
                all[k].answers.addressed,
                all[k].answers.then_addressed,
            ),
        0 <= n < all.len(),
    ensures
        ({
            let made = course(g, events, request, a).ledger;
            let found = behind_all(g, made, all.take(n)) + all[n].before;
            course(g, found, all[n].request, all[n].answers) == (Course {
                ledger: found,
                sent: None,
                written: None,
                end: End::Replayed(v.event),
            })
        }),
{
    let made = course(g, events, request, a).ledger;
    let later = lemma_row_only_grows(g, events, request, a, v, all, n);
    lemma_grown(behind_all(g, made, all.take(n)), made, later, all[n].before);
    lemma_decided_again(g, events, request, a, v, later + all[n].before, all[n]);
}

proof fn lemma_grown(all: Seq<EventV>, made: Seq<EventV>, later: Seq<EventV>, more: Seq<EventV>)
    requires
        all == made + later,
    ensures
        all + more == made + (later + more),
{
    assert(all + more =~= made + (later + more));
}

proof fn lemma_decided_again(
    g: GroupV,
    events: Seq<EventV>,
    request: RequestV,
    a: Answers,
    v: VerdictV,
    later: Seq<EventV>,
    t: Turn,
)
    requires
        is_faithful(g, events, request, a),
        course(g, events, request, a).end == End::Made(v),
        same_but_summary(request.args, t.request.args),
        within(a.then_addressed, t.answers.addressed),
        within(t.answers.addressed, t.answers.then_addressed),
    ensures
        course(g, course(g, events, request, a).ledger + later, t.request, t.answers) == (Course {
            ledger: course(g, events, request, a).ledger + later,
            sent: None,
            written: None,
            end: End::Replayed(v.event),
        }),
{
    assert(comes_to_a_decision(g, events, request, a));
    assert(crate::relay::intent::intent(request.args, g) is Ok);
    a_decision_is_made_once(
        g,
        events,
        request,
        a,
        later,
        g,
        t.request,
        t.answers,
        v,
        JsonV::Null,
        JsonV::Null,
    );
}

proof fn lemma_row_only_grows(
    g: GroupV,
    events: Seq<EventV>,
    request: RequestV,
    a: Answers,
    v: VerdictV,
    all: Seq<Turn>,
    n: int,
) -> (later: Seq<EventV>)
    requires
        is_faithful(g, events, request, a),
        course(g, events, request, a).end == End::Made(v),
        forall|k: int|
            0 <= k < all.len() ==> same_but_summary(
                request.args,
                (#[trigger] all[k]).request.args,
            ) && within(a.then_addressed, all[k].answers.addressed) && within(
                all[k].answers.addressed,
                all[k].answers.then_addressed,
            ),
        0 <= n <= all.len(),
    ensures
        behind_all(g, course(g, events, request, a).ledger, all.take(n)) == course(
            g,
            events,
            request,
            a,
        ).ledger + later,
    decreases n,
{
    let made = course(g, events, request, a).ledger;
    if n == 0 {
        assert(made + Seq::<EventV>::empty() =~= made);
        Seq::empty()
    } else {
        let before = lemma_row_only_grows(g, events, request, a, v, all, n - 1);
        let t = all[n - 1];
        let later = before + t.before;
        assert(all.take(n).drop_last() =~= all.take(n - 1));
        assert(all.take(n).last() == t);
        lemma_grown(behind_all(g, made, all.take(n - 1)), made, before, t.before);
        lemma_decided_again(g, events, request, a, v, later, t);
        later
    }
}

/// Whether work is left that complete must not hide: a task that would still be live, or another
/// handoff that waits for the caller.
pub open spec fn is_work_left(known: Seq<EventV>, d: DraftV, a: Answers) -> bool {
    some_match(a.previewed, |t: ObjV| live(t)) || others_open(
        known,
        d.intent.by,
        d.scope.handoff_ids,
    ) > 0
}

/// Whether a course is that of complete over a ledger: refused while work is left, with nothing
/// changed; recorded with the group quiet where none is left, with the moves of its tasks.
pub open spec fn is_completed(
    c: Course,
    g: GroupV,
    known: Seq<EventV>,
    request: RequestV,
    d: DraftV,
    a: Answers,
) -> bool {
    if is_work_left(known, d, a) {
        c == (Course {
            ledger: known,
            sent: None,
            written: None,
            end: End::Refused(
                refusal(
                    "relay_work_remains"@,
                    "complete is not allowed while another live task or unresolved handoff remains"@,
                ),
            ),
        })
    } else {
        &&& c.sent is None
        &&& c.end matches End::Made(v) && {
            &&& v.event.data["safe_to_idle"@] == JsonV::Bool(true)
            &&& c.written == Some(v.operations)
            &&& c.ledger == known + a.synced.push(v.event)
            &&& all_task_moves(
                a.tasks_again,
                context_step(g, known, a.tasks, request, a.client_id, d)->Reread_1,
                "complete"@,
                d.intent.reason,
            ).is_prefix_of(v.operations)
        }
    }
}

proof fn lemma_completed(
    g: GroupV,
    known: Seq<EventV>,
    addressed: Seq<Text>,
    request: RequestV,
    i: IntentV,
    ids: Seq<Text>,
    d: DraftV,
    a: Answers,
)
    requires
        i.decision == "complete"@,
        recorded_step(g, known, addressed, i, ids) == DecideStepV::Context(d),
        !(context_step(g, known, a.tasks, request, a.client_id, d) is Refused),
    ensures
        is_completed(carried_out(g, known, request, d, a), g, known, request, d, a),
{
    lemma_decisions();
    let task_ids = context_step(g, known, a.tasks, request, a.client_id, d)->Reread_1;
    let f = facts(i, d.scope, task_ids, Seq::empty(), Seq::empty());
    let operations = draft_operations(a.tasks_again, f, d.scope.handoffs, a.now);
    a_refused_complete_succeeds_once_the_work_is_done(
        g,
        known,
        addressed,
        i,
        ids,
        d,
        a.tasks,
        request,
        a.client_id,
        task_ids,
        a.previewed,
        operations,
        a.now,
        Seq::empty(),
        addressed,
    );
    if !is_work_left(known, d, a) {
        let v = preview_step(g, known, a.previewed, d, f, operations, a.now)->Commit_0;
        let moves = all_task_moves(a.tasks_again, task_ids, "complete"@, i.reason);
        assert(operations.drop_last() =~= moves + operations.drop_last().skip(moves.len() as int));
        assert(moves =~= v.operations.take(moves.len() as int));
    }
}

/// The decision that a request came to.
pub open spec fn draft_of(g: GroupV, events: Seq<EventV>, request: RequestV, a: Answers) -> DraftV {
    let step = first_step(request.args, g, events, a.addressed);
    recorded_step(
        g,
        with_handoffs(events, step->Record_2, a),
        a.then_addressed,
        step->Record_0,
        step->Record_1,
    )->Context_0
}

/// The ledger over which a request came to a decision.
pub open spec fn known_of(g: GroupV, events: Seq<EventV>, request: RequestV, a: Answers) -> Seq<
    EventV,
> {
    with_handoffs(events, first_step(request.args, g, events, a.addressed)->Record_2, a)
}

/// Complete hides no work. A request to complete that came as far as a decision, and that the
/// context does not refuse, is refused while work is left: nothing is appended behind the handoffs
/// that were recorded for it, nothing is sent, and nothing is written. With no work left the
/// decision is recorded, it says that the group may be quiet, and its tasks are moved to done.
pub proof fn complete_waits_until_no_work_is_left(
    g: GroupV,
    events: Seq<EventV>,
    request: RequestV,
    a: Answers,
)
    requires
        comes_to_a_decision(g, events, request, a),
        intent_of(g, events, request, a).decision == "complete"@,
        !(context_step(
            g,
            known_of(g, events, request, a),
            a.tasks,
            request,
            a.client_id,
            draft_of(g, events, request, a),
        ) is Refused),
    ensures
        is_completed(
            course(g, events, request, a),
            g,
            known_of(g, events, request, a),
            request,
            draft_of(g, events, request, a),
            a,
        ),
{
    let step = first_step(request.args, g, events, a.addressed);
    lemma_completed(
        g,
        known_of(g, events, request, a),
        a.then_addressed,
        request,
        step->Record_0,
        step->Record_1,
        draft_of(g, events, request, a),
        a,
    );
}

/// A request to complete can be made again. Over the ledger that the first one found, with any new
/// entries that leave its reports alone, it comes to the same decision, with nothing left to record,
/// and is judged by the work that is left then.
pub proof fn a_request_to_complete_can_be_repeated(
    g: GroupV,
    events: Seq<EventV>,
    request: RequestV,
    a: Answers,
    more: Seq<EventV>,
    b: Answers,
)
    requires
        is_faithful(g, events, request, a),
        comes_to_a_decision(g, events, request, a),
        intent_of(g, events, request, a).decision == "complete"@,
        within(a.then_addressed, b.addressed),
        within(b.addressed, b.then_addressed),
        forall|k: int|
            0 <= k < more.len() ==> leaves_alone(
                #[trigger] more[k],
                intent_of(g, events, request, a).by,
                draft_of(g, events, request, a).scope,
            ),
    ensures
        comes_to_a_decision(g, known_of(g, events, request, a) + more, request, b),
        intent_of(g, known_of(g, events, request, a) + more, request, b) == intent_of(
            g,
            events,
            request,
            a,
        ),
        draft_of(g, known_of(g, events, request, a) + more, request, b) == draft_of(
            g,
            events,
            request,
            a,
        ),
        known_of(g, known_of(g, events, request, a) + more, request, b) == known_of(
            g,
            events,
            request,
            a,
        ) + more,
{
    let r = heard(g, events, request, a);
    lemma_heard(g, events, request, a);
    let known = r.ledger();
    assert(r.draft.intent == r.intent);
    assert(g.is_foreman(r.intent.by));
    lemma_decisions();
    lemma_heard_again(r, request.args, g, more, b.addressed);
    an_open_decision_keeps_its_scope(
        g.group_id,
        known,
        a.then_addressed,
        r.intent,
        r.ids,
        r.draft.scope,
        more,
        b.then_addressed,
    );
}

} // verus!
