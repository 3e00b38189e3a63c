//! What holds of every visit: it always moves on, sends at most once, never sends again what may
//! have been sent, and records a delivery before it completes the turn.

use crate::delivery::attempt::{
    is_new_chat, on_bound, on_cleared, on_completed, on_conversation, on_marked, on_open,
    on_settled, on_submission, on_surface, on_wait, unverified_end,
};
use crate::delivery::plan::{AttemptV, NextV, Outcome, PlanV, ReceiptV, SubmissionV, VisitV};
use crate::delivery::recovery::{
    on_inspected, on_judged, on_legacy_conversation, on_legacy_inspected, on_legacy_marked,
    on_legacy_submission, on_legacy_turn, on_pending_url, on_receipt_turn, SearchV,
};
use crate::delivery::route::{
    by_status, on_legacy_url, on_probe, on_snapshot, on_start, on_statuses, seeking, status_is,
    without_receipt,
};
use crate::delivery::words::lemma_statuses;
use crate::json::JsonV;
use crate::text::Text;
use vstd::prelude::*;

verus! {

/// How far a visit has come with what it does next.
pub open spec fn stage(n: NextV) -> int {
    match n {
        NextV::AskStatuses(_) => 1,
        NextV::ProbeTarget => 2,
        NextV::ReceiptTurn(_) => 3,
        NextV::InspectReceipt(_) => 4,
        NextV::JudgeReceipt(_) => 5,
        NextV::LegacyUrl => 6,
        NextV::LegacyTurn(_) => 7,
        NextV::InspectLegacy(_, _) => 8,
        NextV::MarkLegacy(_, _) => 9,
        NextV::SubmitLegacy(_) => 10,
        NextV::LegacyConversation(_, _) => 11,
        NextV::Reconcile => 12,
        NextV::Snapshot => 13,
        NextV::WaitTurn(_) => 14,
        NextV::MarkPreparing(_, _) => 15,
        NextV::ProbeSurface(_) => 16,
        NextV::Open(_) => 16,
        NextV::Submit(_) => 17,
        NextV::ClearStaged(_, _) => 18,
        NextV::Complete(_, _) => 19,
        NextV::NewConversation(_, _) => 20,
        NextV::BindConversation(_, _, _, _) => 21,
        NextV::CompleteUnverified(_, _) => 22,
        NextV::PendingUrl(_) => 23,
        NextV::Done(_) => 24,
        NextV::Fail(_) => 24,
    }
}

/// How far a visit has come with the outcome of a search for a receipt.
pub open spec fn search_stage(v: VisitV, s: SearchV) -> int {
    match s {
        SearchV::Step(p) => stage(p.next),
        SearchV::NotFound => stage(without_receipt(v).next),
    }
}

proof fn lemma_by_status_stage(v: VisitV, proven: bool, now: Text)
    ensures
        stage(by_status(v, proven, now).next) > 2,
        stage(without_receipt(v).next) > 5,
        stage(seeking(v).next) > 13,
{
}

/// Up to the next turn, every answer takes the visit further: no request is made twice.
pub proof fn a_visit_moves_on_to_the_next_turn(
    v: VisitV,
    answer: JsonV,
    blocked: Option<JsonV>,
    url: Option<Text>,
    proven: bool,
    same_owner: bool,
    receipt: ReceiptV,
    kind: Option<Text>,
    now: Text,
)
    ensures
        stage(on_start(v, proven, now).next) >= 1,
        stage(on_statuses(v, answer, proven, now).next) > 1,
        stage(on_probe(v, blocked, proven, now).next) > 2,
        search_stage(v, on_receipt_turn(v, answer, v.surface)) > 3,
        search_stage(v, on_inspected(receipt, answer)) > 4,
        search_stage(v, on_judged(v, receipt, kind, url, now)) > 5,
        stage(on_legacy_url(v, url).next) > 6,
        stage(on_snapshot(v, same_owner, answer).next) > 13,
{
    lemma_by_status_stage(v, proven, now);
}

/// In the recovery of an older delivery every answer takes the visit further, and it is submitted
/// at most once.
pub proof fn a_recovery_moves_on(
    v: VisitV,
    a: AttemptV,
    turn: JsonV,
    answer: JsonV,
    marked: bool,
    s: SubmissionV,
    url: Option<Text>,
    now: Text,
)
    ensures
        stage(on_legacy_turn(v, answer).next) > 7,
        stage(on_legacy_inspected(v, turn, answer, now).next) > 8,
        stage(on_legacy_marked(a, marked).next) > 9,
        stage(on_legacy_submission(v, a, s, now).next) > 10,
        stage(on_legacy_conversation(a, answer, url, now).next) > 11,
        stage(on_pending_url(answer, url, now).next) > 23,
{
}

/// From the next turn on every answer takes the visit further: the prompt is sent at most once,
/// and only after the target was marked as preparing.
pub proof fn an_attempt_moves_on(
    v: VisitV,
    a: AttemptV,
    answer: JsonV,
    marked: bool,
    blocked: Option<JsonV>,
    error: Option<Text>,
    s: SubmissionV,
    found: Result<Option<Text>, Text>,
    url: Text,
    message: Text,
    ok: bool,
    why: Text,
    marker: Text,
    now: Text,
)
    ensures
        stage(on_wait(v, answer, now).next) > 14,
        !(on_wait(v, answer, now).next is Submit),
        stage(on_marked(v, a, marked).next) > 15,
        !marked ==> !(on_marked(v, a, marked).next is Submit),
        stage(on_surface(v, a, blocked).next) > 16,
        stage(on_open(v, a, error).next) > 16,
        stage(on_submission(v, a, s, marker, now).next) > 17,
        stage(on_cleared(v, a, s, error, marker, now).next) > 18,
        stage(on_completed(v, a, answer, error, now).next) > 19,
        stage(on_conversation(v, a, answer, found, now).next) > 20,
        stage(on_bound(v, a, answer, url, error, now).next) > 21,
        stage(unverified_end(a, message, ok, why).next) > 22,
{
}

/// A dispatch that was interrupted is never sent again: the visit settles it as ambiguous or ends,
/// without waiting for a turn and without sending.
pub proof fn an_interrupted_dispatch_is_not_sent_again(v: VisitV, proven: bool, now: Text)
    requires
        status_is(v.target, "submitting"@),
    ensures
        ({
            let n = on_start(v, proven, now).next;
            n is CompleteUnverified || n is Fail || n == NextV::Done(Outcome::Stopped)
        }),
{
    lemma_statuses();
}

/// A preparation that was interrupted before anything was sent is given up: its reservation is
/// released as failed, and nothing is recorded as received.
pub proof fn an_interrupted_preparation_is_released(v: VisitV, proven: bool, now: Text)
    requires
        status_is(v.target, "preparing"@),
    ensures
        ({
            let p = on_start(v, proven, now);
            &&& p.next is Done || p.next is Fail
            &&& forall|i: int|
                0 <= i < p.effects.len() && (#[trigger] p.effects[i]) is Record ==> p.effects[i]->Record_0.state
                    == "failed"@
        }),
{
}

/// A new chat whose submission was not seen stays fenced: no further turn is taken before its
/// address is known.
pub proof fn an_unseen_new_chat_takes_no_further_turn(v: VisitV, proven: bool, now: Text)
    requires
        status_is(v.target, "submission_ambiguous"@),
        is_new_chat(v.target),
    ensures
        ({
            let n = on_start(v, proven, now).next;
            n is ReceiptTurn || n is PendingUrl || n is Fail || n == NextV::Done(Outcome::Stopped)
        }),
        without_receipt(v).next == NextV::PendingUrl(v.target),
{
    lemma_statuses();
}

/// Whether a step records the delivery in a state.
pub open spec fn records(p: PlanV, state: Text) -> bool {
    exists|i: int|
        0 <= i < p.effects.len() && (#[trigger] p.effects[i]) is Record && p.effects[i]->Record_0.state
            == state
}

/// A turn is completed only behind a recorded fact: submitted where the prompt was seen to be
/// sent, ambiguous where it was not.
pub proof fn a_turn_is_completed_behind_a_recorded_fact(
    v: VisitV,
    a: AttemptV,
    s: SubmissionV,
    marker: Text,
    now: Text,
)
    ensures
        on_settled(v, a, s, marker, now).next is Complete ==> records(
            on_settled(v, a, s, marker, now),
            "submitted"@,
        ),
        on_settled(v, a, s, marker, now).next is CompleteUnverified ==> records(
            on_settled(v, a, s, marker, now),
            "ambiguous"@,
        ),
        on_settled(v, a, s, marker, now).next is Complete <==> s is Verified,
        on_settled(v, a, s, marker, now).next is CompleteUnverified <==> s is Ambiguous,
{
    let p = on_settled(v, a, s, marker, now);
    if s is Verified || s is Ambiguous {
        assert(p.effects[1] is Record);
    }
}

/// A prompt that was not sent leaves the message to be delivered again: the attempt is recorded
/// as failed, never as received.
pub proof fn an_unsent_prompt_is_never_a_receipt(
    v: VisitV,
    a: AttemptV,
    s: SubmissionV,
    marker: Text,
    now: Text,
)
    requires
        s is Deferred || s is Failed,
    ensures
        forall|i: int|
            0 <= i < on_settled(v, a, s, marker, now).effects.len() && (#[trigger] on_settled(
                v,
                a,
                s,
                marker,
                now,
            ).effects[i]) is Record ==> on_settled(v, a, s, marker, now).effects[i]->Record_0.state
                == "failed"@,
        on_settled(v, a, s, marker, now).next is Done,
{
}

} // verus!
