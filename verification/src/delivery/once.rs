//! What holds over any number of visits to one target: no event is part of two prompts that are
//! sent. The visits may be interrupted at any point.
//!
//! Of the outside this is taken for granted: the daemon hands out no turn with an event whose
//! delivery is recorded as submitted or ambiguous, and recovers an older delivery only of such
//! events; reconciling a delivery closes its events and leaves the target its delivery id; a
//! submission that the browser reports as deferred or failed sent nothing; and the target stays the
//! visits' own.

use crate::delivery::attempt::{
    delivered_end, dispatch_patch, not_submitted, on_bound, on_cleared, on_completed,
    on_conversation, on_marked, on_open, on_settled, on_submission, on_surface, on_wait, released,
    sending, unseen, unverified, unverified_end, verified,
};
use crate::delivery::plan::{AttemptV, EffectV, NextV, Outcome, PlanV, SubmissionV, VisitV};
use crate::delivery::prompt::delivery_id_text;
use crate::delivery::recovery::{
    legacy_pending, on_inspected, on_judged, on_legacy_conversation, on_legacy_inspected,
    on_legacy_marked, on_legacy_submission, on_legacy_turn, on_pending_url, on_receipt_turn,
    SearchV,
};
use crate::delivery::route::{
    by_status, interrupted, is_unreconciled, on_legacy_url, on_probe, on_snapshot, on_start,
    on_statuses, remembered, settled_patch, some_unverified, status_is, without_receipt,
};
use crate::delivery::words::{lemma_statuses, lemma_target_keys};
use crate::json::{strings, JsonV, ObjV};
use crate::text::{has_prefix, Text};
use vstd::prelude::*;

verus! {

/// The event ids in a list.
pub open spec fn events_in(v: JsonV) -> Seq<Text> {
    match v.list() {
        Some(items) => strings(items),
        None => Seq::empty(),
    }
}

/// The events of an attempt.
pub open spec fn events_of(a: AttemptV) -> Seq<Text> {
    events_in(a.event_ids)
}

/// The target with members written into it.
pub open spec fn patched(target: JsonV, members: ObjV) -> JsonV {
    match target {
        JsonV::Obj(m) => JsonV::Obj(m.union_prefer_right(members)),
        _ => JsonV::Obj(members),
    }
}

/// Where the visits to a target are.
pub enum Phase {
    /// No visit is under way.
    Resting,
    /// A visit carries out a plan.
    Planned(VisitV, PlanV),
    /// The prompt of an attempt was sent, and its outcome is not known yet.
    Sent(VisitV, AttemptV),
    /// The prompt of an older delivery was sent, and its outcome is not known yet.
    Resent(VisitV, AttemptV),
}

/// What the visits to a target have led to.
pub struct World {
    /// The stored target.
    pub target: JsonV,
    /// The events whose delivery is recorded as submitted or ambiguous, or was reconciled.
    pub closed: Seq<Text>,
    /// The attempts whose prompt was sent.
    pub sent: Seq<AttemptV>,
    pub phase: Phase,
}

/// What the outside answers.
pub enum Answer {
    Statuses(JsonV, bool, Text),
    Blocked(Option<JsonV>, bool, Text),
    Url(Option<Text>, Text),
    Turn(JsonV, JsonV),
    Inspected(JsonV, Text),
    Judged(Option<Text>, Option<Text>, Text),
    Marked(bool),
    LegacyUnsent(SubmissionV, bool, Text),
    Reconciled(bool, JsonV),
    Owner(bool),
    Work(JsonV, Text),
    Surface(Option<JsonV>),
    Opened(Option<Text>),
    Unsent(SubmissionV, bool, Text, Text),
    Cleared(Option<Text>, Text, Text),
    Completed(Option<Text>, Text),
    Conversation(Result<Option<Text>, Text>, Text),
    Bound(Option<Text>, Text),
    Closed(bool, Text),
}

/// What happens next.
pub enum Happening {
    /// A visit starts.
    Start(VisitV, bool, Text),
    /// The next effect of the plan is carried out.
    Effect,
    /// The outside answers what the plan asks for.
    Answer(Answer),
    /// The target is marked as submitting, and the prompt is sent.
    Send,
    /// The outcome of a prompt that was sent becomes known.
    Outcome(SubmissionV, Text, Text),
    /// The visit is interrupted.
    Interrupt,
}

/// The target and the closed events behind an effect.
pub open spec fn behind_effect(target: JsonV, closed: Seq<Text>, e: EffectV) -> (JsonV, Seq<Text>) {
    match e {
        EffectV::Patch(m) => (patched(target, m), closed),
        EffectV::Record(f) => if f.state == "submitted"@ || f.state == "ambiguous"@ {
            (target, closed + events_in(f.event_ids))
        } else {
            (target, closed)
        },
        _ => (target, closed),
    }
}

/// The plan that a search for a receipt leads to.
pub open spec fn plan_of(v: VisitV, s: SearchV) -> PlanV {
    match s {
        SearchV::Step(p) => p,
        SearchV::NotFound => without_receipt(v),
    }
}

/// Whether two lists have no text in common.
pub open spec fn apart(a: Seq<Text>, b: Seq<Text>) -> bool {
    forall|id: Text| #[trigger] a.contains(id) ==> !b.contains(id)
}

/// Whether the texts of a list are all in another.
pub open spec fn among(a: Seq<Text>, b: Seq<Text>) -> bool {
    forall|id: Text| #[trigger] a.contains(id) ==> b.contains(id)
}

/// The target, the closed events and the plan behind an answer; none where it does not answer what
/// was asked, or where the daemon would hand out a closed event, recover an older delivery whose
/// events are not closed, or give the target another delivery while it reconciles one.
pub open spec fn answered(
    target: JsonV,
    closed: Seq<Text>,
    v: VisitV,
    next: NextV,
    answer: Answer,
) -> Option<(JsonV, Seq<Text>, PlanV)> {
    match (next, answer) {
        (NextV::AskStatuses(_), Answer::Statuses(s, proven, now)) => Some(
            (target, closed, on_statuses(v, s, proven, now)),
        ),
        (NextV::ProbeTarget, Answer::Blocked(b, proven, now)) => Some(
            (target, closed, on_probe(v, b, proven, now)),
        ),
        (NextV::LegacyUrl, Answer::Url(u, _)) => Some((target, closed, on_legacy_url(v, u))),
        (NextV::PendingUrl(t), Answer::Url(u, now)) => Some(
            (target, closed, on_pending_url(t, u, now)),
        ),
        (NextV::ReceiptTurn(_), Answer::Turn(turn, surface)) => Some(
            (target, closed, plan_of(v, on_receipt_turn(v, turn, surface))),
        ),
        (NextV::InspectReceipt(r), Answer::Inspected(shown, _)) => Some(
            (target, closed, plan_of(v, on_inspected(r, shown))),
        ),
        (NextV::JudgeReceipt(r), Answer::Judged(kind, url, now)) => Some(
            (target, closed, plan_of(v, on_judged(v, r, kind, url, now))),
        ),
        (NextV::LegacyTurn(_), Answer::Turn(turn, _)) => if among(
            events_in(turn.at("turn"@).at("event_ids"@)),
            closed,
        ) {
            Some((target, closed, on_legacy_turn(v, turn)))
        } else {
            None
        },
        (NextV::InspectLegacy(turn, _), Answer::Inspected(shown, now)) => Some(
            (target, closed, on_legacy_inspected(v, turn, shown, now)),
        ),
        (NextV::MarkLegacy(a, m), Answer::Marked(marked)) => Some(
            (
                if marked {
                    patched(target, m)
                } else {
                    target
                },
                closed,
                on_legacy_marked(a, marked),
            ),
        ),
        (NextV::SubmitLegacy(a), Answer::LegacyUnsent(s, marked, now)) => if s is Deferred
            || s is Failed {
            Some(
                (
                    if marked {
                        patched(target, dispatch_patch("legacy_recovery_submitting"@))
                    } else {
                        target
                    },
                    closed,
                    on_legacy_submission(v, a, s, now),
                ),
            )
        } else {
            None
        },
        (NextV::LegacyConversation(a, b), Answer::Url(u, now)) => Some(
            (target, closed, on_legacy_conversation(a, b, u, now)),
        ),
        (NextV::Reconcile, Answer::Reconciled(done, t)) => if done && t.at("last_delivery_id"@)
            != target.at("last_delivery_id"@) {
            None
        } else if done {
            Some(
                (
                    t,
                    closed + events_in(target.at("last_delivery_event_ids"@)),
                    PlanV { effects: Seq::empty(), next: NextV::Snapshot },
                ),
            )
        } else {
            Some(
                (
                    target,
                    closed,
                    PlanV { effects: Seq::empty(), next: NextV::Done(Outcome::Ambiguous) },
                ),
            )
        },
        (NextV::Snapshot, Answer::Owner(same)) => Some(
            (target, closed, on_snapshot(v, same, target)),
        ),
        (NextV::WaitTurn(_), Answer::Work(wait, now)) => if apart(
            events_in(wait.at("turn"@).at("event_ids"@)),
            closed,
        ) {
            Some((target, closed, on_wait(v, wait, now)))
        } else {
            None
        },
        (NextV::MarkPreparing(a, m), Answer::Marked(marked)) => Some(
            (
                if marked {
                    patched(target, m)
                } else {
                    target
                },
                closed,
                on_marked(v, a, marked),
            ),
        ),
        (NextV::ProbeSurface(a), Answer::Surface(b)) => Some(
            (target, closed, on_surface(v, a, b)),
        ),
        (NextV::Open(a), Answer::Opened(e)) => Some((target, closed, on_open(v, a, e))),
        (NextV::Submit(a), Answer::Unsent(s, marked, marker, now)) => if s is Deferred
            || s is Failed {
            Some(
                (
                    if marked {
                        patched(target, dispatch_patch("submitting"@))
                    } else {
                        target
                    },
                    closed,
                    on_submission(v, a, s, marker, now),
                ),
            )
        } else {
            None
        },
        (NextV::ClearStaged(a, s), Answer::Cleared(e, marker, now)) => Some(
            (target, closed, on_cleared(v, a, s, e, marker, now)),
        ),
        (NextV::Complete(a, b), Answer::Completed(e, now)) => Some(
            (target, closed, on_completed(v, a, b, e, now)),
        ),
        (NextV::NewConversation(a, b), Answer::Conversation(found, now)) => Some(
            (target, closed, on_conversation(v, a, b, found, now)),
        ),
        (NextV::BindConversation(a, b, url, m), Answer::Bound(e, now)) => Some(
            (
                if e is None {
                    patched(target, m)
                } else {
                    target
                },
                closed,
                on_bound(v, a, b, url, e, now),
            ),
        ),
        (NextV::CompleteUnverified(a, message), Answer::Closed(ok, error)) => Some(
            (target, closed, unverified_end(a, message, ok, error)),
        ),
        _ => None,
    }
}

/// The world behind a happening; none where it cannot happen.
pub open spec fn behind(w: World, h: Happening) -> Option<World> {
    match (w.phase, h) {
        (_, Happening::Interrupt) => Some(World { phase: Phase::Resting, ..w }),
        (Phase::Resting, Happening::Start(v, proven, now)) => if v.target == w.target {
            Some(World { phase: Phase::Planned(v, on_start(v, proven, now)), ..w })
        } else {
            None
        },
        (Phase::Planned(v, p), Happening::Effect) => if p.effects.len() > 0 {
            let (target, closed) = behind_effect(w.target, w.closed, p.effects[0]);
            Some(
                World {
                    target,
                    closed,
                    phase: Phase::Planned(v, PlanV { effects: p.effects.drop_first(), ..p }),
                    ..w
                },
            )
        } else {
            None
        },
        (Phase::Planned(v, p), Happening::Answer(answer)) => if p.effects.len() == 0 {
            match answered(w.target, w.closed, v, p.next, answer) {
                Some((target, closed, plan)) => Some(
                    World { target, closed, phase: Phase::Planned(v, plan), ..w },
                ),
                None => None,
            }
        } else {
            None
        },
        (Phase::Planned(v, p), Happening::Send) => match p.next {
            NextV::Submit(a) => if p.effects.len() == 0 {
                Some(
                    World {
                        target: patched(w.target, dispatch_patch("submitting"@)),
                        sent: w.sent.push(a),
                        phase: Phase::Sent(v, a),
                        ..w
                    },
                )
            } else {
                None
            },
            NextV::SubmitLegacy(a) => if p.effects.len() == 0 {
                Some(
                    World {
                        target: patched(w.target, dispatch_patch("legacy_recovery_submitting"@)),
                        sent: w.sent.push(a),
                        phase: Phase::Resent(v, a),
                        ..w
                    },
                )
            } else {
                None
            },
            _ => None,
        },
        (Phase::Sent(v, a), Happening::Outcome(s, marker, now)) => if s is Verified
            || s is Ambiguous {
            Some(World { phase: Phase::Planned(v, on_submission(v, a, s, marker, now)), ..w })
        } else {
            None
        },
        (Phase::Resent(v, a), Happening::Outcome(s, _, now)) => if s is Verified
            || s is Ambiguous {
            Some(World { phase: Phase::Planned(v, on_legacy_submission(v, a, s, now)), ..w })
        } else {
            None
        },
        _ => None,
    }
}

/// The world behind a sequence of happenings; none where one of them cannot happen.
pub open spec fn behind_all(w: World, all: Seq<Happening>) -> Option<World>
    decreases all.len(),
{
    if all.len() == 0 {
        Some(w)
    } else {
        match behind_all(w, all.drop_last()) {
            Some(x) => behind(x, all.last()),
            None => None,
        }
    }
}

/// Whether no event is part of two attempts.
pub open spec fn each_event_once(sent: Seq<AttemptV>) -> bool {
    forall|i: int, j: int|
        0 <= i < j < sent.len() ==> apart(
            #[trigger] events_of(sent[i]),
            #[trigger] events_of(sent[j]),
        )
}

/// Whether the status of a target fences its last delivery: it may have been sent, and that may not
/// be recorded yet.
pub open spec fn is_fenced(target: JsonV) -> bool {
    status_is(target, "submitting"@) || status_is(target, "completion_ambiguous"@) || status_is(
        target,
        "submission_ambiguous_completion_pending"@,
    )
}

/// Whether an event is closed or fenced.
pub open spec fn is_guarded(target: JsonV, closed: Seq<Text>, id: Text) -> bool {
    closed.contains(id) || (is_fenced(target) && events_in(
        target.at("last_delivery_event_ids"@),
    ).contains(id))
}

/// Whether every event that was sent is closed or fenced.
pub open spec fn all_guarded(target: JsonV, closed: Seq<Text>, sent: Seq<AttemptV>) -> bool {
    forall|i: int, id: Text|
        0 <= i < sent.len() && #[trigger] events_of(sent[i]).contains(id) ==> is_guarded(
            target,
            closed,
            id,
        )
}

/// Whether every event that was sent is closed.
pub open spec fn all_closed(closed: Seq<Text>, sent: Seq<AttemptV>) -> bool {
    forall|i: int, id: Text|
        0 <= i < sent.len() && #[trigger] events_of(sent[i]).contains(id) ==> closed.contains(id)
}

/// Whether what a visit does next keeps events apart: a turn is taken, prepared or sent only with
/// everything closed that was sent.
pub open spec fn next_is_sound(
    target: JsonV,
    closed: Seq<Text>,
    sent: Seq<AttemptV>,
    next: NextV,
) -> bool {
    match next {
        NextV::Done(_) => true,
        NextV::Fail(_) => true,
        NextV::Reconcile => true,
        NextV::MarkPreparing(a, m) => all_closed(closed, sent) && apart(events_of(a), closed)
            && m.contains_key("last_delivery_event_ids"@) && m["last_delivery_event_ids"@]
            == a.event_ids,
        NextV::ProbeSurface(a) => is_ready(target, closed, sent, a),
        NextV::Open(a) => is_ready(target, closed, sent, a),
        NextV::Submit(a) => is_ready(target, closed, sent, a),
        _ => all_closed(closed, sent),
    }
}

/// Whether an attempt is ready to be sent: its events are apart from the closed ones, and the target
/// remembers them.
pub open spec fn is_ready(
    target: JsonV,
    closed: Seq<Text>,
    sent: Seq<AttemptV>,
    a: AttemptV,
) -> bool {
    &&& all_closed(closed, sent)
    &&& apart(events_of(a), closed)
    &&& target.at("last_delivery_event_ids"@) == a.event_ids
}

/// Whether a plan keeps events apart, whichever of its effects is the last to be carried out.
pub open spec fn plan_is_sound(
    target: JsonV,
    closed: Seq<Text>,
    sent: Seq<AttemptV>,
    effects: Seq<EffectV>,
    next: NextV,
) -> bool
    decreases effects.len(),
{
    &&& all_guarded(target, closed, sent)
    &&& if effects.len() == 0 {
        next_is_sound(target, closed, sent, next)
    } else {
        let (t, c) = behind_effect(target, closed, effects[0]);
        plan_is_sound(t, c, sent, effects.drop_first(), next)
    }
}

/// What holds of every world that visits lead to.
pub open spec fn is_sound(w: World) -> bool {
    &&& each_event_once(w.sent)
    &&& match w.phase {
        Phase::Resting => all_guarded(w.target, w.closed, w.sent),
        Phase::Planned(_, p) => plan_is_sound(w.target, w.closed, w.sent, p.effects, p.next),
        Phase::Sent(_, a) => {
            &&& w.sent.len() > 0
            &&& w.sent.last() == a
            &&& all_closed(w.closed, w.sent.drop_last())
            &&& status_is(w.target, "submitting"@)
            &&& w.target.at("last_delivery_event_ids"@) == a.event_ids
        },
        Phase::Resent(_, _) => all_closed(w.closed, w.sent),
    }
}

/// Whether a delivery id is one that was given before these visits.
pub open spec fn is_older_id(id: JsonV) -> bool {
    id.text() matches Some(t) && has_prefix(t, "wmd_"@)
}

/// Whether a target remembers an older delivery.
pub open spec fn is_older(target: JsonV) -> bool {
    is_older_id(target.at("last_delivery_id"@))
}

/// Whether effects leave the delivery id of the target as it is.
pub open spec fn keeps_id(effects: Seq<EffectV>) -> bool {
    forall|i: int|
        0 <= i < effects.len() ==> ((#[trigger] effects[i]) matches EffectV::Patch(m)
            ==> !m.contains_key("last_delivery_id"@))
}

/// Whether members give a target a delivery id that is not an older one.
pub open spec fn renews_id(m: ObjV) -> bool {
    m.contains_key("last_delivery_id"@) && !is_older_id(m["last_delivery_id"@])
}

/// Whether what a visit does next sends an older delivery only as the first of all, and everything
/// else only under a delivery id of its own. `seen` is the target as the visit found it.
pub open spec fn next_is_told(
    target: JsonV,
    seen: JsonV,
    closed: Seq<Text>,
    sent: Seq<AttemptV>,
    next: NextV,
) -> bool {
    match next {
        NextV::AskStatuses(_) => target.at("last_delivery_id"@) == seen.at("last_delivery_id"@),
        NextV::ProbeTarget => target.at("last_delivery_id"@) == seen.at("last_delivery_id"@),
        NextV::ReceiptTurn(_) => target.at("last_delivery_id"@) == seen.at("last_delivery_id"@),
        NextV::InspectReceipt(_) => target.at("last_delivery_id"@) == seen.at("last_delivery_id"@),
        NextV::JudgeReceipt(_) => target.at("last_delivery_id"@) == seen.at("last_delivery_id"@),
        NextV::LegacyUrl => sent.len() == 0,
        NextV::LegacyTurn(_) => sent.len() == 0,
        NextV::InspectLegacy(turn, _) => sent.len() == 0 && among(
            events_in(turn.at("event_ids"@)),
            closed,
        ),
        NextV::MarkLegacy(a, m) => sent.len() == 0 && among(events_of(a), closed) && renews_id(m),
        NextV::SubmitLegacy(a) => sent.len() == 0 && among(events_of(a), closed) && !is_older(
            target,
        ),
        NextV::MarkPreparing(_, m) => renews_id(m),
        NextV::ProbeSurface(_) => !is_older(target),
        NextV::Open(_) => !is_older(target),
        NextV::Submit(_) => !is_older(target),
        NextV::BindConversation(_, _, _, m) => !m.contains_key("last_delivery_id"@),
        _ => true,
    }
}

/// What holds of the delivery ids in every world that visits lead to.
pub open spec fn is_told(w: World) -> bool {
    &&& w.sent.len() > 0 ==> !is_older(w.target)
    &&& w.phase matches Phase::Planned(v, p) ==> keeps_id(p.effects) && next_is_told(
        w.target,
        v.target,
        w.closed,
        w.sent,
        p.next,
    )
}

/// Whether an attempt is on its way to be sent.
spec fn carries(next: NextV) -> bool {
    next is MarkPreparing || next is ProbeSurface || next is Open || next is Submit
}

/// With everything closed that was sent, any effects are sound.
proof fn lemma_closed_is_sound(
    target: JsonV,
    closed: Seq<Text>,
    sent: Seq<AttemptV>,
    effects: Seq<EffectV>,
    next: NextV,
)
    requires
        all_closed(closed, sent),
        !carries(next),
    ensures
        plan_is_sound(target, closed, sent, effects, next),
    decreases effects.len(),
{
    if effects.len() > 0 {
        let (t, c) = behind_effect(target, closed, effects[0]);
        assert forall|i: int, id: Text|
            0 <= i < sent.len() && #[trigger] events_of(sent[i]).contains(id) implies c.contains(
            id,
        ) by {
            let k = closed.index_of(id);
            assert(closed[k] == id);
            assert(c[k] == id);
        }
        lemma_closed_is_sound(t, c, sent, effects.drop_first(), next);
    }
}

/// A target without a fence guards only closed events.
proof fn lemma_unfenced(target: JsonV, closed: Seq<Text>, sent: Seq<AttemptV>)
    requires
        all_guarded(target, closed, sent),
        !is_fenced(target),
    ensures
        all_closed(closed, sent),
{
    assert forall|i: int, id: Text|
        0 <= i < sent.len() && #[trigger] events_of(sent[i]).contains(id) implies closed.contains(
        id,
    ) by {
        assert(is_guarded(target, closed, id));
    }
}

/// A plan that fences the last attempt, records it and goes on is sound.
proof fn lemma_recorded_is_sound(
    target: JsonV,
    closed: Seq<Text>,
    sent: Seq<AttemptV>,
    p: PlanV,
    event_ids: JsonV,
)
    requires
        all_guarded(target, closed, sent),
        forall|i: int, id: Text|
            0 <= i < sent.len() && #[trigger] events_of(sent[i]).contains(id) ==> closed.contains(
                id,
            ) || events_in(event_ids).contains(id),
        p.effects.len() == 2,
        p.effects[0] matches EffectV::Patch(m) && m.contains_key("last_delivery_event_ids"@)
            && m["last_delivery_event_ids"@] == event_ids && m.contains_key(
            "last_delivery_status"@,
        ) && is_fenced(JsonV::Obj(m)),
        p.effects[1] matches EffectV::Record(f) && f.event_ids == event_ids && (f.state
            == "submitted"@ || f.state == "ambiguous"@),
        !carries(p.next),
    ensures
        plan_is_sound(target, closed, sent, p.effects, p.next),
{
    let e = p.effects;
    let (t, c) = behind_effect(target, closed, e[0]);
    assert(c == closed);
    assert(t.at("last_delivery_event_ids"@) == event_ids);
    assert(is_fenced(t));
    assert(all_guarded(t, closed, sent));
    let rest = e.drop_first();
    assert(rest[0] == e[1]);
    let (u, d) = behind_effect(t, c, rest[0]);
    assert forall|i: int, id: Text|
        0 <= i < sent.len() && #[trigger] events_of(sent[i]).contains(id) implies d.contains(
        id,
    ) by {
        if closed.contains(id) {
            let k = closed.index_of(id);
            assert(d[k] == id);
        } else {
            let k = events_in(event_ids).index_of(id);
            assert(d[closed.len() + k] == id);
        }
    }
    lemma_closed_is_sound(u, d, sent, rest.drop_first(), p.next);
    assert(plan_is_sound(t, c, sent, rest, p.next));
}

proof fn lemma_unverified_is_sound(
    target: JsonV,
    closed: Seq<Text>,
    sent: Seq<AttemptV>,
    a: AttemptV,
    browser: JsonV,
    message: Text,
    now: Text,
)
    requires
        all_guarded(target, closed, sent),
        forall|i: int, id: Text|
            0 <= i < sent.len() && #[trigger] events_of(sent[i]).contains(id) ==> closed.contains(
                id,
            ) || events_of(a).contains(id),
    ensures
        plan_is_sound(
            target,
            closed,
            sent,
            unverified(a, browser, message, now).effects,
            unverified(a, browser, message, now).next,
        ),
{
    lemma_target_keys();
    let p = unverified(a, browser, message, now);
    let m = p.effects[0]->Patch_0;
    assert(m["last_delivery_status"@] == JsonV::Str("submission_ambiguous_completion_pending"@));
    assert(m["last_delivery_event_ids"@] == a.event_ids);
    assert(JsonV::Obj(m).at("last_delivery_status"@) == m["last_delivery_status"@]);
    lemma_recorded_is_sound(target, closed, sent, p, a.event_ids);
}

proof fn lemma_verified_is_sound(
    target: JsonV,
    closed: Seq<Text>,
    sent: Seq<AttemptV>,
    v: VisitV,
    a: AttemptV,
    browser: JsonV,
    now: Text,
)
    requires
        all_guarded(target, closed, sent),
        forall|i: int, id: Text|
            0 <= i < sent.len() && #[trigger] events_of(sent[i]).contains(id) ==> closed.contains(
                id,
            ) || events_of(a).contains(id),
    ensures
        plan_is_sound(
            target,
            closed,
            sent,
            verified(v, a, browser, now).effects,
            verified(v, a, browser, now).next,
        ),
{
    lemma_target_keys();
    let p = verified(v, a, browser, now);
    let m = p.effects[0]->Patch_0;
    assert(m["last_delivery_status"@] == JsonV::Str("completion_ambiguous"@));
    assert(m["last_delivery_event_ids"@] == a.event_ids);
    assert(JsonV::Obj(m).at("last_delivery_status"@) == m["last_delivery_status"@]);
    lemma_recorded_is_sound(target, closed, sent, p, a.event_ids);
}

/// A visit starts with a sound plan.
proof fn lemma_start_is_sound(w: World, v: VisitV, proven: bool, now: Text)
    requires
        all_guarded(w.target, w.closed, w.sent),
        v.target == w.target,
    ensures
        ({
            let p = on_start(v, proven, now);
            plan_is_sound(w.target, w.closed, w.sent, p.effects, p.next)
        }),
{
    let p = on_start(v, proven, now);
    if is_fenced(w.target) {
        lemma_statuses();
        if status_is(w.target, "submitting"@) {
            assert forall|i: int, id: Text|
                0 <= i < w.sent.len() && #[trigger] events_of(w.sent[i]).contains(
                    id,
                ) implies w.closed.contains(id) || events_in(
                v.target.at("last_delivery_event_ids"@),
            ).contains(id) by {
                assert(is_guarded(w.target, w.closed, id));
            }
            if let Ok(a) = remembered(v.target) {
                lemma_unverified_is_sound(
                    w.target,
                    w.closed,
                    w.sent,
                    a,
                    not_submitted("interrupted_dispatch"@, interrupted()),
                    interrupted(),
                    now,
                );
            }
        } else {
            assert("completion_ambiguous"@[0] != "submission_ambiguous"@[0]);
            assert(w.target.at("last_delivery_status"@) != JsonV::Str("submission_ambiguous"@));
            assert(w.target.at("last_delivery_status"@) != JsonV::Str("preparing"@));
            assert(w.target.at("last_delivery_status"@) != JsonV::Str("deferred"@));
            assert(w.target.at("last_delivery_status"@) != JsonV::Str("submitted"@));
            assert(w.target.at("last_delivery_status"@) != JsonV::Str("pending_new_chat_bind"@));
            assert(w.target.at("last_delivery_status"@) != JsonV::Str(
                "legacy_recovery_submitting"@,
            ));
            assert(is_unreconciled(w.target));
        }
    } else {
        lemma_unfenced(w.target, w.closed, w.sent);
        lemma_closed_is_sound(w.target, w.closed, w.sent, p.effects, p.next);
    }
}

/// What a visit does behind an answer is sound.
proof fn lemma_answer_is_sound(w: World, v: VisitV, next: NextV, answer: Answer)
    requires
        all_guarded(w.target, w.closed, w.sent),
        next_is_sound(w.target, w.closed, w.sent, next),
    ensures
        answered(w.target, w.closed, v, next, answer) matches Some((target, closed, p))
            ==> plan_is_sound(target, closed, w.sent, p.effects, p.next),
{
    if let Some((target, closed, p)) = answered(w.target, w.closed, v, next, answer) {
        if next is Reconcile {
            lemma_reconciled_is_sound(w, target, closed, p);
        } else if next is WaitTurn {
            if carries(p.next) {
                lemma_target_keys();
            } else {
                lemma_closed_is_sound(target, closed, w.sent, p.effects, p.next);
            }
        } else if carries(next) && carries(p.next) {
            lemma_carried_is_sound(w, v, next, answer);
        } else {
            if next is LegacyTurn || next is InspectLegacy || next is MarkLegacy
                || next is SubmitLegacy || next is LegacyConversation {
                lemma_recovery_carries_nothing(w.target, w.closed, v, next, answer);
            } else if next is ClearStaged || next is Complete || next is NewConversation
                || next is BindConversation || next is CompleteUnverified {
                lemma_end_carries_nothing(w.target, w.closed, v, next, answer);
            } else if !carries(next) {
                lemma_search_carries_nothing(w.target, w.closed, v, next, answer);
            }
            lemma_closed_is_sound(target, closed, w.sent, p.effects, p.next);
        }
    }
}

/// Before the next turn, nothing is on its way to be sent.
#[verifier::spinoff_prover]
proof fn lemma_search_carries_nothing(
    target: JsonV,
    closed: Seq<Text>,
    v: VisitV,
    next: NextV,
    answer: Answer,
)
    requires
        next is AskStatuses || next is ProbeTarget || next is ReceiptTurn || next is InspectReceipt
            || next is JudgeReceipt || next is PendingUrl || next is LegacyUrl || next is Snapshot,
    ensures
        carries_nothing(target, closed, v, next, answer),
{
}

/// In the recovery of an older delivery, nothing else is on its way to be sent.
#[verifier::spinoff_prover]
proof fn lemma_recovery_carries_nothing(
    target: JsonV,
    closed: Seq<Text>,
    v: VisitV,
    next: NextV,
    answer: Answer,
)
    requires
        next is LegacyTurn || next is InspectLegacy || next is MarkLegacy || next is SubmitLegacy
            || next is LegacyConversation,
    ensures
        carries_nothing(target, closed, v, next, answer),
{
}

/// Behind a submission, nothing is on its way to be sent.
#[verifier::spinoff_prover]
proof fn lemma_end_carries_nothing(
    target: JsonV,
    closed: Seq<Text>,
    v: VisitV,
    next: NextV,
    answer: Answer,
)
    requires
        next is ClearStaged || next is Complete || next is NewConversation
            || next is BindConversation || next is CompleteUnverified,
    ensures
        carries_nothing(target, closed, v, next, answer),
{
}

/// Whether an answer closes nothing and leaves nothing on its way to be sent.
spec fn carries_nothing(
    target: JsonV,
    closed: Seq<Text>,
    v: VisitV,
    next: NextV,
    answer: Answer,
) -> bool {
    answered(target, closed, v, next, answer) matches Some((_, c, p)) ==> c == closed && !carries(
        p.next,
    )
}

/// Reconciling closes what the target fenced.
proof fn lemma_reconciled_is_sound(w: World, target: JsonV, closed: Seq<Text>, p: PlanV)
    requires
        all_guarded(w.target, w.closed, w.sent),
        (closed == w.closed + events_in(w.target.at("last_delivery_event_ids"@)) && !carries(p.next))
            || (closed == w.closed && target == w.target && p.next is Done),
        p.effects.len() == 0,
    ensures
        plan_is_sound(target, closed, w.sent, p.effects, p.next),
{
    if !(p.next is Done && closed == w.closed && target == w.target) {
        let more = events_in(w.target.at("last_delivery_event_ids"@));
        assert forall|i: int, id: Text|
            0 <= i < w.sent.len() && #[trigger] events_of(w.sent[i]).contains(
                id,
            ) implies closed.contains(id) by {
            assert(is_guarded(w.target, w.closed, id));
            if w.closed.contains(id) {
                assert(closed[w.closed.index_of(id)] == id);
            } else {
                assert(closed[w.closed.len() + more.index_of(id)] == id);
            }
        }
        lemma_closed_is_sound(target, closed, w.sent, p.effects, p.next);
    }
}

/// An attempt stays ready on its way.
proof fn lemma_carried_is_sound(w: World, v: VisitV, next: NextV, answer: Answer)
    requires
        all_guarded(w.target, w.closed, w.sent),
        next_is_sound(w.target, w.closed, w.sent, next),
        carries(next),
        answered(w.target, w.closed, v, next, answer) matches Some((_, _, p)) && carries(p.next),
    ensures
        answered(w.target, w.closed, v, next, answer) matches Some((target, closed, p))
            && plan_is_sound(target, closed, w.sent, p.effects, p.next),
{
    reveal_with_fuel(plan_is_sound, 3);
    let (target, closed, p) = answered(w.target, w.closed, v, next, answer)->Some_0;
    assert(closed == w.closed);
    assert(all_guarded(target, closed, w.sent));
    assert(next_is_sound(target, closed, w.sent, p.next));
    if p.effects.len() > 0 {
        assert(p.effects.len() == 2);
        assert(p.effects.drop_first()[0] == p.effects[1]);
        assert(p.effects.drop_first().drop_first().len() == 0);
    }
}

/// Sending an attempt that is ready repeats no event.
proof fn lemma_send_is_sound(w: World)
    requires
        is_sound(w),
        w.phase matches Phase::Planned(_, p) && p.next is Submit,
        behind(w, Happening::Send) is Some,
    ensures
        is_sound(behind(w, Happening::Send)->Some_0),
{
    let x = behind(w, Happening::Send)->Some_0;
    let a = x.sent.last();
    assert(x.sent.drop_last() =~= w.sent);
    assert forall|i: int, j: int| 0 <= i < j < x.sent.len() implies apart(
        #[trigger] events_of(x.sent[i]),
        #[trigger] events_of(x.sent[j]),
    ) by {
        if j == w.sent.len() {
            assert forall|id: Text| #[trigger]
                events_of(x.sent[i]).contains(id) implies !events_of(x.sent[j]).contains(id) by {
                assert(events_of(w.sent[i]).contains(id));
                assert(w.closed.contains(id));
            }
        } else {
            assert(apart(events_of(w.sent[i]), events_of(w.sent[j])));
        }
    }
    lemma_target_keys();
}

/// Sending an older delivery is the first that is sent, and its events are closed.
proof fn lemma_resend_is_sound(w: World)
    requires
        is_sound(w),
        is_told(w),
        w.phase matches Phase::Planned(_, p) && p.next is SubmitLegacy,
        behind(w, Happening::Send) is Some,
    ensures
        is_sound(behind(w, Happening::Send)->Some_0),
{
    let x = behind(w, Happening::Send)->Some_0;
    assert(x.sent.len() == 1);
    assert forall|i: int, id: Text|
        0 <= i < x.sent.len() && #[trigger] events_of(x.sent[i]).contains(
            id,
        ) implies x.closed.contains(id) by {}
}

/// Whatever happens, a sound world stays sound.
proof fn lemma_stays_sound(w: World, h: Happening)
    requires
        is_sound(w),
        is_told(w),
    ensures
        behind(w, h) matches Some(x) ==> is_sound(x),
{
    if let Some(x) = behind(w, h) {
        match (w.phase, h) {
            (Phase::Sent(v, a), Happening::Interrupt) => {
                lemma_sent_is_guarded(w);
            },
            (_, Happening::Interrupt) => {},
            (Phase::Resting, Happening::Start(v, proven, now)) => {
                lemma_start_is_sound(w, v, proven, now);
            },
            (Phase::Planned(v, p), Happening::Effect) => {},
            (Phase::Planned(v, p), Happening::Answer(answer)) => {
                lemma_answer_is_sound(w, v, p.next, answer);
            },
            (Phase::Planned(v, p), Happening::Send) => {
                if p.next is Submit {
                    lemma_send_is_sound(w);
                } else {
                    lemma_resend_is_sound(w);
                }
            },
            (Phase::Resent(v, a), Happening::Outcome(s, marker, now)) => {
                let q = on_legacy_submission(v, a, s, now);
                lemma_closed_is_sound(w.target, w.closed, w.sent, q.effects, q.next);
            },
            (Phase::Sent(v, a), Happening::Outcome(s, marker, now)) => {
                lemma_sent_is_guarded(w);
                match s {
                    SubmissionV::Verified(browser) => {
                        lemma_verified_is_sound(w.target, w.closed, w.sent, v, a, browser, now);
                    },
                    SubmissionV::Ambiguous(browser) => {
                        lemma_unverified_is_sound(
                            w.target,
                            w.closed,
                            w.sent,
                            a,
                            browser,
                            unseen(),
                            now,
                        );
                    },
                    _ => {},
                }
            },
            _ => {},
        }
    }
}

/// What was sent last is fenced until its outcome is recorded.
proof fn lemma_sent_is_guarded(w: World)
    requires
        is_sound(w),
        w.phase is Sent,
    ensures
        all_guarded(w.target, w.closed, w.sent),
        forall|i: int, id: Text|
            0 <= i < w.sent.len() && #[trigger] events_of(w.sent[i]).contains(id)
                ==> w.closed.contains(id) || events_of(w.sent.last()).contains(id),
{
    assert forall|i: int, id: Text|
        0 <= i < w.sent.len() && #[trigger] events_of(w.sent[i]).contains(
            id,
        ) implies w.closed.contains(id) || events_of(w.sent.last()).contains(id) by {
        if i < w.sent.len() - 1 {
            assert(events_of(w.sent.drop_last()[i]).contains(id));
        }
    }
    assert(is_fenced(w.target));
}

/// Over any number of visits to a target, interrupted or not, no event is part of two prompts that
/// are sent, as long as the daemon hands out no turn with an event whose delivery is recorded as
/// submitted or ambiguous or was reconciled, and recovers an older delivery only of such events.
pub proof fn no_event_is_sent_twice(w: World, all: Seq<Happening>)
    requires
        w.sent.len() == 0,
        w.phase is Resting,
    ensures
        behind_all(w, all) matches Some(x) ==> each_event_once(x.sent),
{
    lemma_visits_stay_sound(w, all);
}

proof fn lemma_visits_stay_sound(w: World, all: Seq<Happening>)
    requires
        w.sent.len() == 0,
        w.phase is Resting,
    ensures
        behind_all(w, all) matches Some(x) ==> is_sound(x) && is_told(x),
    decreases all.len(),
{
    if all.len() > 0 {
        lemma_visits_stay_sound(w, all.drop_last());
        if let Some(x) = behind_all(w, all.drop_last()) {
            lemma_stays_sound(x, all.last());
            lemma_stays_told(x, all.last());
        }
    }
}

proof fn lemma_keeps_both(a: Seq<EffectV>, b: Seq<EffectV>)
    requires
        keeps_id(a),
        keeps_id(b),
    ensures
        keeps_id(a + b),
{
    assert forall|i: int| 0 <= i < (a + b).len() implies ((#[trigger] (a + b)[i])
        matches EffectV::Patch(m) ==> !m.contains_key("last_delivery_id"@)) by {
        if i < a.len() {
            assert((a + b)[i] == a[i]);
        } else {
            assert((a + b)[i] == b[i - a.len()]);
        }
    }
}

/// By the status of the target, a visit recovers an older delivery only where nothing was sent.
#[verifier::spinoff_prover]
proof fn lemma_by_status_is_told(w: World, v: VisitV, proven: bool, now: Text)
    requires
        w.sent.len() > 0 ==> !is_older(w.target),
        w.target.at("last_delivery_id"@) == v.target.at("last_delivery_id"@),
    ensures
        ({
            let p = by_status(v, proven, now);
            keeps_id(p.effects) && next_is_told(w.target, v.target, w.closed, w.sent, p.next)
        }),
        ({
            let p = without_receipt(v);
            keeps_id(p.effects) && next_is_told(w.target, v.target, w.closed, w.sent, p.next)
        }),
{
    lemma_target_keys();
}

proof fn lemma_start_is_told(w: World, v: VisitV, proven: bool, now: Text)
    requires
        w.sent.len() > 0 ==> !is_older(w.target),
        w.target == v.target,
    ensures
        ({
            let p = on_start(v, proven, now);
            keeps_id(p.effects) && next_is_told(w.target, v.target, w.closed, w.sent, p.next)
        }),
{
    lemma_target_keys();
    lemma_by_status_is_told(w, v, proven, now);
}

/// Whether the answer to what a visit asks for keeps the delivery ids in order.
spec fn answer_is_told(w: World, v: VisitV, next: NextV, answer: Answer) -> bool {
    answered(w.target, w.closed, v, next, answer) matches Some((target, closed, p)) ==> {
        &&& keeps_id(p.effects)
        &&& next_is_told(target, v.target, closed, w.sent, p.next)
        &&& w.sent.len() > 0 ==> !is_older(target)
    }
}

/// Before the next turn.
#[verifier::spinoff_prover]
proof fn lemma_search_is_told(w: World, v: VisitV, next: NextV, answer: Answer)
    requires
        w.sent.len() > 0 ==> !is_older(w.target),
        next_is_told(w.target, v.target, w.closed, w.sent, next),
        next is AskStatuses || next is ProbeTarget || next is ReceiptTurn || next is InspectReceipt
            || next is JudgeReceipt,
    ensures
        answer_is_told(w, v, next, answer),
{
    lemma_target_keys();
    match answer {
        Answer::Statuses(s, proven, now) => {
            lemma_by_status_is_told(w, v, proven, now);
            let first = seq![
                EffectV::Patch(settled_patch(some_unverified(v.target, s, v.actor_id))),
            ];
            lemma_keeps_both(first, by_status(v, proven, now).effects);
        },
        Answer::Blocked(b, proven, now) => {
            lemma_by_status_is_told(w, v, proven, now);
        },
        Answer::Judged(kind, url, now) => {
            lemma_by_status_is_told(w, v, true, now);
            if let NextV::JudgeReceipt(r) = next {
                if kind is Some {
                    let p = plan_of(v, on_judged(v, r, kind, url, now));
                    assert(keeps_id(p.effects));
                }
            }
        },
        _ => {
            lemma_by_status_is_told(w, v, true, Seq::empty());
        },
    }
}

/// In the recovery of an older delivery.
#[verifier::spinoff_prover]
proof fn lemma_recovery_is_told(w: World, v: VisitV, next: NextV, answer: Answer)
    requires
        w.sent.len() > 0 ==> !is_older(w.target),
        next_is_told(w.target, v.target, w.closed, w.sent, next),
        next is LegacyUrl || next is LegacyTurn || next is InspectLegacy || next is MarkLegacy
            || next is SubmitLegacy || next is LegacyConversation || next is PendingUrl
            || next is Reconcile || next is Snapshot,
    ensures
        answer_is_told(w, v, next, answer),
{
    lemma_target_keys();
    lemma_delivery_id_is_new(v.actor_id);
}

/// From the next turn on.
#[verifier::spinoff_prover]
proof fn lemma_attempt_is_told(w: World, v: VisitV, next: NextV, answer: Answer)
    requires
        w.sent.len() > 0 ==> !is_older(w.target),
        next_is_told(w.target, v.target, w.closed, w.sent, next),
        next is WaitTurn || next is MarkPreparing || next is ProbeSurface || next is Open
            || next is Submit,
    ensures
        answer_is_told(w, v, next, answer),
{
    match (next, answer) {
        (NextV::WaitTurn(_), Answer::Work(wait, now)) => {
            lemma_wait_is_told(v, wait, now);
        },
        (NextV::MarkPreparing(a, m), Answer::Marked(_)) => {
            lemma_sending_keeps(v, a);
            lemma_released_keeps(a, "browser binding or target changed before preparation"@);
        },
        (NextV::ProbeSurface(a), Answer::Surface(_)) => {
            lemma_sending_keeps(v, a);
            let first = seq![EffectV::AutoClose, EffectV::Schedule];
            lemma_keeps_both(first, sending(v, a).effects);
        },
        (NextV::Open(a), Answer::Opened(e)) => {
            lemma_sending_keeps(v, a);
            if let Some(e) = e {
                lemma_released_keeps(a, e);
            }
        },
        _ => {
            lemma_target_keys();
        },
    }
}

/// A turn that was handed out is prepared under a delivery id of its own.
proof fn lemma_wait_is_told(v: VisitV, wait: JsonV, now: Text)
    ensures
        on_wait(v, wait, now).effects.len() == 0,
        match on_wait(v, wait, now).next {
            NextV::MarkPreparing(_, m) => renews_id(m),
            n => n is Done || n is Fail,
        },
{
    lemma_target_keys();
    lemma_delivery_id_is_new(v.actor_id);
}

proof fn lemma_sending_keeps(v: VisitV, a: AttemptV)
    ensures
        keeps_id(sending(v, a).effects),
        sending(v, a).next is Submit || sending(v, a).next is Done || sending(v, a).next is Fail,
{
    lemma_target_keys();
}

proof fn lemma_released_keeps(a: AttemptV, error: Text)
    ensures
        keeps_id(released(a, error).effects),
        released(a, error).next is Done,
{
    lemma_target_keys();
}

/// Behind a submission.
#[verifier::spinoff_prover]
proof fn lemma_end_is_told(w: World, v: VisitV, next: NextV, answer: Answer)
    requires
        w.sent.len() > 0 ==> !is_older(w.target),
        next_is_told(w.target, v.target, w.closed, w.sent, next),
        next is ClearStaged || next is Complete || next is NewConversation
            || next is BindConversation || next is CompleteUnverified,
    ensures
        answer_is_told(w, v, next, answer),
{
    lemma_target_keys();
    match (next, answer) {
        (NextV::ClearStaged(a, s), Answer::Cleared(e, marker, now)) => {
            lemma_settled_keeps(v, a, s, marker, now);
            if let Some(e) = e {
                lemma_settled_keeps(v, a, SubmissionV::Failed(e), marker, now);
            }
        },
        (NextV::Complete(a, b), Answer::Completed(e, now)) => {
            lemma_delivered_keeps(v, a, b, false, Seq::empty(), Seq::empty(), now);
        },
        (NextV::NewConversation(a, b), Answer::Conversation(found, now)) => {
            lemma_delivered_keeps(v, a, b, true, Seq::empty(), Seq::empty(), now);
        },
        (NextV::BindConversation(a, b, url, m), Answer::Bound(e, now)) => {
            lemma_delivered_keeps(v, a, b, false, url, Seq::empty(), now);
            if let Some(e) = e {
                lemma_delivered_keeps(v, a, b, true, Seq::empty(), e, now);
            }
        },
        _ => {},
    }
}

#[verifier::spinoff_prover]
proof fn lemma_settled_keeps(v: VisitV, a: AttemptV, s: SubmissionV, marker: Text, now: Text)
    ensures
        keeps_id(on_settled(v, a, s, marker, now).effects),
        on_settled(v, a, s, marker, now).next is Complete || on_settled(v, a, s, marker, now).next
            is CompleteUnverified || on_settled(v, a, s, marker, now).next is Done || on_settled(
            v,
            a,
            s,
            marker,
            now,
        ).next is Fail,
{
    lemma_target_keys();
}

#[verifier::spinoff_prover]
proof fn lemma_delivered_keeps(
    v: VisitV,
    a: AttemptV,
    browser: JsonV,
    pending: bool,
    url: Text,
    error: Text,
    now: Text,
)
    ensures
        keeps_id(delivered_end(v, a, browser, pending, url, error, now).effects),
        delivered_end(v, a, browser, pending, url, error, now).next is Done,
{
    lemma_target_keys();
}

proof fn lemma_delivery_id_is_new(actor_id: Text)
    ensures
        forall|turn_id: Text|
            !has_prefix(#[trigger] delivery_id_text(actor_id, turn_id), "wmd_"@),
{
    reveal_strlit("webdelivery:");
    reveal_strlit("wmd_");
    assert forall|turn_id: Text|
        !has_prefix(#[trigger] delivery_id_text(actor_id, turn_id), "wmd_"@) by {
        assert("webdelivery:"@[1] == 'e' && "wmd_"@[1] == 'm');
        assert(delivery_id_text(actor_id, turn_id)[1] == 'e');
        if has_prefix(delivery_id_text(actor_id, turn_id), "wmd_"@) {
            assert(delivery_id_text(actor_id, turn_id).take(4)[1] == 'm');
        }
    }
}

/// Whatever happens, the delivery ids stay in order.
proof fn lemma_stays_told(w: World, h: Happening)
    requires
        is_told(w),
    ensures
        behind(w, h) matches Some(x) ==> is_told(x),
{
    if let Some(x) = behind(w, h) {
        match (w.phase, h) {
            (Phase::Resting, Happening::Start(v, proven, now)) => {
                lemma_start_is_told(w, v, proven, now);
            },
            (Phase::Planned(v, p), Happening::Effect) => {
                lemma_effect_is_told(w, v, p);
            },
            (Phase::Planned(v, p), Happening::Answer(answer)) => {
                let n = p.next;
                if n is AskStatuses || n is ProbeTarget || n is ReceiptTurn || n is InspectReceipt
                    || n is JudgeReceipt {
                    lemma_search_is_told(w, v, n, answer);
                } else if n is WaitTurn || n is MarkPreparing || n is ProbeSurface || n is Open
                    || n is Submit {
                    lemma_attempt_is_told(w, v, n, answer);
                } else if n is ClearStaged || n is Complete || n is NewConversation
                    || n is BindConversation || n is CompleteUnverified {
                    lemma_end_is_told(w, v, n, answer);
                } else if !(n is Done || n is Fail) {
                    lemma_recovery_is_told(w, v, n, answer);
                }
            },
            (Phase::Planned(v, p), Happening::Send) => {
                lemma_target_keys();
            },
            (Phase::Sent(v, a), Happening::Outcome(s, marker, now)) => {
                lemma_outcome_is_told(v, a, s, marker, now);
            },
            (Phase::Resent(v, a), Happening::Outcome(s, marker, now)) => {
                lemma_outcome_is_told(v, a, s, marker, now);
            },
            _ => {},
        }
    }
}

#[verifier::spinoff_prover]
proof fn lemma_outcome_is_told(v: VisitV, a: AttemptV, s: SubmissionV, marker: Text, now: Text)
    requires
        s is Verified || s is Ambiguous,
    ensures
        keeps_id(on_submission(v, a, s, marker, now).effects),
        on_submission(v, a, s, marker, now).next is Complete || on_submission(
            v,
            a,
            s,
            marker,
            now,
        ).next is CompleteUnverified,
        keeps_id(on_legacy_submission(v, a, s, now).effects),
        on_legacy_submission(v, a, s, now).next is LegacyConversation || on_legacy_submission(
            v,
            a,
            s,
            now,
        ).next is Done,
{
    lemma_target_keys();
}

proof fn lemma_effect_is_told(w: World, v: VisitV, p: PlanV)
    requires
        is_told(w),
        w.phase == Phase::Planned(v, p),
        p.effects.len() > 0,
    ensures
        behind(w, Happening::Effect) matches Some(x) && is_told(x),
{
    let x = behind(w, Happening::Effect)->Some_0;
    let e = p.effects[0];
    assert(x.target.at("last_delivery_id"@) == w.target.at("last_delivery_id"@));
    assert forall|i: int| 0 <= i < p.effects.drop_first().len() implies ((
    #[trigger] p.effects.drop_first()[i]) matches EffectV::Patch(m) ==> !m.contains_key(
        "last_delivery_id"@,
    )) by {
        assert(p.effects.drop_first()[i] == p.effects[i + 1]);
    }
    assert forall|id: Text| #[trigger] w.closed.contains(id) implies x.closed.contains(id) by {
        let k = w.closed.index_of(id);
        assert(x.closed[k] == id);
    }
}

/// An older delivery is submitted at most once: once the target is marked for it, no target with the
/// same delivery counts as holding an older one.
pub proof fn an_older_delivery_is_submitted_once(
    v: VisitV,
    turn: JsonV,
    shown: JsonV,
    now: Text,
    target: JsonV,
    later: JsonV,
)
    ensures
        on_legacy_inspected(v, turn, shown, now).next matches NextV::MarkLegacy(a, m) ==> (
        later.at("last_delivery_id"@) == patched(target, m).at("last_delivery_id"@)
            ==> !legacy_pending(later)),
{
    if let NextV::MarkLegacy(a, m) = on_legacy_inspected(v, turn, shown, now).next {
        lemma_target_keys();
        assert(m["last_delivery_id"@] == JsonV::Str(a.delivery_id));
        reveal_strlit("webdelivery:");
        reveal_strlit("wmd_");
        assert("webdelivery:"@.len() == 12);
        assert("wmd_"@.len() == 4);
        assert(a.delivery_id[1] == 'e');
        assert("wmd_"@[1] == 'm');
    }
}

/// A visit that sent its prompt ends as submitted or ambiguous, or fails: where it ends as idle,
/// deferred or stopped, nothing was sent.
pub proof fn a_visit_that_ends_unsent_sent_nothing(
    v: VisitV,
    a: AttemptV,
    browser: JsonV,
    error: Option<Text>,
    found: Result<Option<Text>, Text>,
    url: Text,
    message: Text,
    ok: bool,
    why: Text,
    marker: Text,
    now: Text,
)
    ensures
        on_submission(v, a, SubmissionV::Verified(browser), marker, now).next is Complete,
        on_submission(v, a, SubmissionV::Ambiguous(browser), marker, now).next
            is CompleteUnverified,
        ends_as_sent(on_completed(v, a, browser, error, now).next),
        ends_as_sent(on_conversation(v, a, browser, found, now).next),
        ends_as_sent(on_bound(v, a, browser, url, error, now).next),
        ends_as_sent(unverified_end(a, message, ok, why).next),
{
}

/// Whether a visit, where it is over, ends as submitted or ambiguous.
pub open spec fn ends_as_sent(next: NextV) -> bool {
    next matches NextV::Done(o) ==> o is Submitted || o is Ambiguous
}

} // verus!
