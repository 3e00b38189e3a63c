//! The way of a visit from what the target says of the last delivery to the next turn.

use crate::delivery::attempt::{
    complete_ambiguous_attempt, is_active, is_new_chat, not_submitted, not_submitted_of, opt_value,
    released, retry_unsubmitted_turn, unverified, url_of,
};
use crate::delivery::plan::{
    after_effects, draft_is_empty, draft_length, evidence, just, needs_person, only, over, passing,
    requires_browser_action, retryable_pre_send_deferral, with_effect, Attempt, AttemptV, Effect,
    EffectV, Next, NextV, Outcome, Plan, PlanV, Visit, VisitV,
};
use crate::delivery::prompt::{
    answered, browser_wait_args, needed, required, wait_args, ApiError, ApiErrorV,
};
use crate::delivery::recovery::{
    is_legacy_pending_delivery, legacy_pending, recover_args, recover_legacy_pending_delivery,
    recover_verified_ambiguous_submission, receipt_start, Search, SearchV,
};
use crate::json::{alike, lemma_values_are_views, or_empty, Json, JsonMap, JsonV, ObjV};
use crate::lists::{any_of, lemma_views, lemma_views_push, some_match, views};
use crate::text::{opt_text, Text};
use vstd::prelude::*;

verus! {

broadcast use {lemma_views, lemma_views_push};

/// The status of the last delivery of a target.
pub open spec fn status_is(target: JsonV, status: Text) -> bool {
    target.at("last_delivery_status"@) == JsonV::Str(status)
}

/// What the page showed at the last delivery of a target.
pub open spec fn shown(target: JsonV) -> JsonV {
    target.at("last_submission_evidence"@)
}

/// The last attempt that the target remembers, or what it does not remember of it.
pub open spec fn remembered(target: JsonV) -> Result<AttemptV, ApiErrorV> {
    match needed(target, "last_delivery_turn_id"@) {
        Err(e) => Err(e),
        Ok(turn_id) => match needed(target, "last_delivery_id"@) {
            Err(e) => Err(e),
            Ok(delivery_id) => Ok(
                AttemptV {
                    turn_id,
                    event_ids: target.at("last_delivery_event_ids"@),
                    delivery_id,
                    turn: JsonV::Null,
                    prompt: Seq::empty(),
                    seed: None,
                },
            ),
        },
    }
}

fn remember(target: &Json) -> (r: Result<Attempt, ApiError>)
    ensures
        answered(r) == remembered(target@),
{
    let turn_id = required(target, "last_delivery_turn_id")?;
    let delivery_id = required(target, "last_delivery_id")?;
    Ok(
        Attempt {
            turn_id,
            event_ids: target.at("last_delivery_event_ids"),
            delivery_id,
            turn: Json::Null,
            prompt: String::new(),
            seed: None,
        },
    )
}

/// Whether the last delivery was put off before it was sent and is kept.
pub open spec fn is_kept(target: JsonV) -> bool {
    status_is(target, "deferred"@) && (passing(shown(target)) || needs_person(shown(target)))
}

/// The start of a visit that may run: a conversation known to be gone ends it; a preparation that
/// was interrupted is given up; a kept delivery is checked against the ledger first.
pub open spec fn on_start(v: VisitV, proven: bool, now: Text) -> PlanV {
    if !is_active(v.surface) && evidence(shown(v.target)) == JsonV::Str(
        "bound_conversation_unavailable"@,
    ) {
        over(Outcome::Stopped)
    } else if status_is(v.target, "preparing"@) {
        match remembered(v.target) {
            Err(e) => only(NextV::Fail(e)),
            Ok(a) => released(a, "browser preparation was interrupted before any Send action"@),
        }
    } else if is_kept(v.target) {
        only(
            NextV::AskStatuses(
                map![
                    "group_id"@ => JsonV::Str(v.group_id),
                    "event_ids"@ => v.target.at("last_delivery_event_ids"@),
                ],
            ),
        )
    } else {
        by_status(v, proven, now)
    }
}

/// Whether a visit may run at all: nothing holds automation, and the actor is to be delivered to.
pub fn may_visit(held: bool, enabled: bool) -> (r: bool)
    ensures
        r == (!held && enabled),
{
    !held && enabled
}

/// The start of a visit that may run. `proven` says whether the stored evidence of the last
/// submission is direct.
pub fn start(visit: &Visit, proven: bool, now: &str) -> (r: Plan)
    ensures
        r@ == on_start(visit@, proven, now@),
{
    let stored = visit.target.at("last_submission_evidence");
    if !visit.surface.is_true("active") && stored.is(
        "submission_evidence",
        "bound_conversation_unavailable",
    ) {
        return just(Next::Done(Outcome::Stopped));
    }
    if visit.target.is("last_delivery_status", "preparing") {
        return match remember(&visit.target) {
            Err(e) => just(Next::Fail(e)),
            Ok(a) => retry_unsubmitted_turn(
                &a,
                "browser preparation was interrupted before any Send action",
            ),
        };
    }
    if visit.target.is("last_delivery_status", "deferred") && (retryable_pre_send_deferral(&stored)
        || requires_browser_action(&stored)) {
        let mut m = JsonMap::new();
        m.put("group_id", Json::str(visit.group_id.as_str()));
        m.put("event_ids", visit.target.at("last_delivery_event_ids"));
        return just(Next::AskStatuses(m));
    }
    go_by_status(visit, proven, now)
}

/// The state in which the ledger has the delivery of an event to the actor.
pub open spec fn ledger_state(statuses: JsonV, id: JsonV, actor_id: Text) -> JsonV {
    statuses.at("statuses"@).at(or_empty(id.text())).at("obligation_status"@).at(actor_id).at(
        "delivery_state"@,
    )
}

fn ledger_state_of(statuses: &Json, id: &Json, actor_id: &str) -> (r: Json)
    ensures
        r@ == ledger_state(statuses@, id@, actor_id@),
{
    let key = match id.as_str() {
        Some(t) => t.to_owned(),
        None => String::new(),
    };
    let all = statuses.at("statuses");
    let one = all.at(key.as_str());
    let owed = one.at("obligation_status");
    let mine = owed.at(actor_id);
    mine.at("delivery_state")
}

/// Whether the ledger has the delivery of an event as settled.
pub open spec fn is_settled(state: JsonV) -> bool {
    state.text() == Some("accepted"@) || state.text() == Some("ambiguous"@)
}

/// Whether every event of the last delivery is settled in the ledger, and there are some.
pub open spec fn all_settled(target: JsonV, statuses: JsonV, actor_id: Text) -> bool {
    match target.at("last_delivery_event_ids"@).list() {
        None => false,
        Some(ids) => ids.len() > 0 && !some_match(
            ids,
            |id: JsonV| !is_settled(ledger_state(statuses, id, actor_id)),
        ),
    }
}

/// Whether some event of the last delivery is settled without having been seen.
pub open spec fn some_unverified(target: JsonV, statuses: JsonV, actor_id: Text) -> bool {
    match target.at("last_delivery_event_ids"@).list() {
        None => false,
        Some(ids) => some_match(
            ids,
            |id: JsonV| ledger_state(statuses, id, actor_id) == JsonV::Str("ambiguous"@),
        ),
    }
}

/// The members that record that a kept delivery was settled meanwhile.
pub open spec fn settled_patch(unverified: bool) -> ObjV {
    map![
        "last_delivery_status"@ => JsonV::Str(
            if unverified {
                "submission_ambiguous"@
            } else {
                "handled"@
            },
        ),
        "last_error"@ => JsonV::Str(
            if unverified {
                "The earlier delivery remains unverified; it will not be automatically resubmitted."@
            } else {
                Seq::empty()
            },
        ),
    ]
}

/// The step after the ledger was asked about a kept delivery.
pub open spec fn on_statuses(v: VisitV, statuses: JsonV, proven: bool, now: Text) -> PlanV {
    if all_settled(v.target, statuses, v.actor_id) {
        by_status(v, proven, now).behind(
            seq![
                EffectV::Patch(settled_patch(some_unverified(v.target, statuses, v.actor_id))),
            ],
        )
    } else {
        kept(v, proven, now)
    }
}

fn settled_of(visit: &Visit, statuses: &Json) -> (r: (bool, bool))
    ensures
        r.0 == all_settled(visit@.target, statuses@, visit@.actor_id),
        r.1 == some_unverified(visit@.target, statuses@, visit@.actor_id),
{
    match visit.target.list("last_delivery_event_ids") {
        None => (false, false),
        Some(ids) => {
            proof {
                lemma_values_are_views(ids@);
            }
            let ghost open = |id: JsonV|
                !is_settled(ledger_state(statuses@, id, visit@.actor_id));
            let ghost vague = |id: JsonV|
                ledger_state(statuses@, id, visit@.actor_id) == JsonV::Str("ambiguous"@);
            let some_open = any_of(
                ids,
                |id: &Json| -> (b: bool)
                    ensures (b == !is_settled(ledger_state(statuses@, id@, visit@.actor_id)))
                {
                    let s = ledger_state_of(statuses, id, visit.actor_id.as_str());
                    !(crate::text::is_text(s.as_str(), "accepted") || crate::text::is_text(
                        s.as_str(),
                        "ambiguous",
                    ))
                },
                Ghost(open),
            );
            let some_vague = any_of(
                ids,
                |id: &Json| -> (b: bool)
                    ensures (b == (ledger_state(statuses@, id@, visit@.actor_id) == JsonV::Str(
                        "ambiguous"@,
                    )))
                {
                    let s = ledger_state_of(statuses, id, visit.actor_id.as_str());
                    crate::text::is_text(s.as_str(), "ambiguous")
                },
                Ghost(vague),
            );
            (ids.len() > 0 && !some_open, some_vague)
        },
    }
}

/// The step after the ledger was asked about a kept delivery.
pub fn after_statuses(visit: &Visit, statuses: &Json, proven: bool, now: &str) -> (r: Plan)
    ensures
        r@ == on_statuses(visit@, statuses@, proven, now@),
{
    let (all, vague) = settled_of(visit, statuses);
    if !all {
        return keep(visit, proven, now);
    }
    let mut m = JsonMap::new();
    m.put(
        "last_delivery_status",
        Json::str(
            if vague {
                "submission_ambiguous"
            } else {
                "handled"
            },
        ),
    );
    m.put(
        "last_error",
        if vague {
            Json::str(
                "The earlier delivery remains unverified; it will not be automatically resubmitted.",
            )
        } else {
            Json::Str(String::new())
        },
    );
    let mut effects: Vec<Effect> = Vec::new();
    effects.push(Effect::Patch(m));
    proof {
        assert(views(effects@) =~= seq![EffectV::Patch(settled_patch(vague))]);
    }
    after_effects(effects, go_by_status(visit, proven, now))
}

/// The step with a kept delivery: one that a person must unblock waits for the page to be open;
/// on an open page the blocker is looked at, but no page is taken away from another conversation
/// for an archived one.
pub open spec fn kept(v: VisitV, proven: bool, now: Text) -> PlanV {
    if !is_active(v.surface) {
        if needs_person(shown(v.target)) {
            over(Outcome::Stopped)
        } else {
            by_status(v, proven, now)
        }
    } else {
        let effects = if v.auto_close {
            seq![EffectV::Schedule]
        } else {
            Seq::empty()
        };
        PlanV {
            effects,
            next: if evidence(shown(v.target)) == JsonV::Str("not_sent_conversation_archived"@)
                && !alike(v.surface.at("url"@), v.target.at("url"@)) {
                NextV::Done(Outcome::Stopped)
            } else {
                NextV::ProbeTarget
            },
        }
    }
}

fn keep(visit: &Visit, proven: bool, now: &str) -> (r: Plan)
    ensures
        r@ == kept(visit@, proven, now@),
{
    let stored = visit.target.at("last_submission_evidence");
    if !visit.surface.is_true("active") {
        if requires_browser_action(&stored) {
            return just(Next::Done(Outcome::Stopped));
        }
        return go_by_status(visit, proven, now);
    }
    let here = visit.surface.at("url");
    let wanted = visit.target.at("url");
    let next = if stored.is("submission_evidence", "not_sent_conversation_archived")
        && !here.same(&wanted) {
        Next::Done(Outcome::Stopped)
    } else {
        Next::ProbeTarget
    };
    if visit.auto_close {
        with_effect(Effect::Schedule, next)
    } else {
        just(next)
    }
}

/// The step after the page of a kept delivery was looked at: while it is blocked the visit ends
/// and the message stays; a page without a draft and without a need for a person may be managed.
pub open spec fn on_probe(v: VisitV, blocked: Option<JsonV>, proven: bool, now: Text) -> PlanV {
    match blocked {
        None => by_status(v, proven, now),
        Some(browser) => {
            let held = seq![EffectV::Hold(browser)];
            let managed = if v.manage_browser && !needs_person(browser) && draft_length(browser)
                == 0 {
                seq![EffectV::AutoClose, EffectV::Schedule]
            } else {
                Seq::empty()
            };
            let noted = if !alike(evidence(browser), evidence(shown(v.target))) {
                seq![EffectV::Patch(map!["last_submission_evidence"@ => browser])]
            } else {
                Seq::empty()
            };
            PlanV {
                effects: held + managed + noted,
                next: NextV::Done(
                    if needs_person(browser) {
                        Outcome::Stopped
                    } else {
                        Outcome::Idle
                    },
                ),
            }
        },
    }
}

/// The step after the page of a kept delivery was looked at.
pub fn after_probe(visit: &Visit, blocked: Option<Json>, proven: bool, now: &str) -> (r: Plan)
    ensures
        r@ == on_probe(visit@, opt_value(blocked), proven, now@),
{
    let browser = match blocked {
        None => {
            return go_by_status(visit, proven, now);
        },
        Some(b) => b,
    };
    let person = requires_browser_action(&browser);
    let stored = visit.target.at("last_submission_evidence");
    let seen = browser.at("submission_evidence");
    let known = stored.at("submission_evidence");
    let mut effects: Vec<Effect> = Vec::new();
    effects.push(Effect::Hold(browser.copy()));
    if visit.manage_browser && !person && draft_is_empty(&browser) {
        effects.push(Effect::AutoClose);
        effects.push(Effect::Schedule);
    }
    if !seen.same(&known) {
        let mut m = JsonMap::new();
        m.put("last_submission_evidence", browser);
        effects.push(Effect::Patch(m));
    }
    let outcome = if person {
        Outcome::Stopped
    } else {
        Outcome::Idle
    };
    proof {
        assert(views(effects@) =~= on_probe(visit@, Some(browser@), proven, now@).effects);
    }
    Plan { effects, next: Next::Done(outcome) }
}

/// What is said of a dispatch that was interrupted.
pub open spec fn interrupted() -> Text {
    "browser delivery was interrupted after its at-most-once dispatch fence; the message will not be redelivered automatically"@
}

/// What is said of the dispatch of an older delivery that was interrupted.
pub open spec fn legacy_interrupted() -> Text {
    "legacy browser recovery was interrupted after dispatch began; the committed message will not be submitted again"@
}

/// The step by the status of the last delivery. One that was being sent is settled as ambiguous
/// and not sent again; one without a receipt is looked for; only then is the next turn sought.
pub open spec fn by_status(v: VisitV, proven: bool, now: Text) -> PlanV {
    if status_is(v.target, "submitting"@) {
        match remembered(v.target) {
            Err(e) => only(NextV::Fail(e)),
            Ok(a) => unverified(
                a,
                not_submitted("interrupted_dispatch"@, interrupted()),
                interrupted(),
                now,
            ),
        }
    } else if status_is(v.target, "legacy_recovery_submitting"@) {
        PlanV {
            effects: seq![
                EffectV::Patch(
                    map![
                        "last_delivery_status"@ => JsonV::Str("submission_ambiguous"@),
                        "last_delivery_at"@ => JsonV::Str(now),
                        "last_submission_evidence"@ => not_submitted(
                            "interrupted_legacy_dispatch"@,
                            legacy_interrupted(),
                        ),
                        "last_error"@ => JsonV::Str(legacy_interrupted()),
                    ],
                ),
                EffectV::Connector(
                    "ambiguous"@,
                    or_empty(v.target.at("last_delivery_turn_id"@).text()),
                    legacy_interrupted(),
                ),
            ],
            next: if is_new_chat(v.target) {
                NextV::PendingUrl(v.target)
            } else {
                NextV::Done(Outcome::Ambiguous)
            },
        }
    } else if url_of(v).len() == 0 && !is_new_chat(v.target) {
        over(Outcome::Idle)
    } else if status_is(v.target, "submission_ambiguous"@) {
        match receipt_start(v, proven) {
            SearchV::Step(p) => p,
            SearchV::NotFound => without_receipt(v),
        }
    } else {
        past_receipt(v)
    }
}

/// The step where no receipt was found: a new chat stays fenced until its address is known; any
/// other conversation goes on with later turns, and the unverified one is not sent again.
pub open spec fn without_receipt(v: VisitV) -> PlanV {
    if is_new_chat(v.target) {
        only(NextV::PendingUrl(v.target))
    } else {
        past_receipt(v)
    }
}

/// Whether a completion was left open.
pub open spec fn is_unreconciled(target: JsonV) -> bool {
    status_is(target, "ambiguous"@) || status_is(target, "completion_ambiguous"@) || status_is(
        target,
        "submission_ambiguous_completion_pending"@,
    ) || status_is(target, "completion_conflict"@)
}

/// The step past the search for a receipt.
pub open spec fn past_receipt(v: VisitV) -> PlanV {
    if legacy_pending(v.target) {
        only(NextV::LegacyUrl)
    } else if is_unreconciled(v.target) {
        only(NextV::Reconcile)
    } else {
        seeking(v)
    }
}

/// The step that seeks the next turn; a new chat that was sent to must have an address first.
pub open spec fn seeking(v: VisitV) -> PlanV {
    if is_new_chat(v.target) && (status_is(v.target, "submitted"@) || status_is(
        v.target,
        "pending_new_chat_bind"@,
    )) {
        only(NextV::PendingUrl(v.target))
    } else {
        only(NextV::WaitTurn(wait_args(v.base_args)))
    }
}

fn seek(visit: &Visit) -> (r: Plan)
    ensures
        r@ == seeking(visit@),
{
    let t = &visit.target;
    if t.is("kind", "new_chat") && (t.is("last_delivery_status", "submitted") || t.is(
        "last_delivery_status",
        "pending_new_chat_bind",
    )) {
        just(Next::PendingUrl(t.copy()))
    } else {
        just(Next::WaitTurn(browser_wait_args(&visit.base_args)))
    }
}

fn go_past_receipt(visit: &Visit) -> (r: Plan)
    ensures
        r@ == past_receipt(visit@),
{
    let t = &visit.target;
    let k = "last_delivery_status";
    if is_legacy_pending_delivery(t) {
        just(Next::LegacyUrl)
    } else if t.is(k, "ambiguous") || t.is(k, "completion_ambiguous") || t.is(
        k,
        "submission_ambiguous_completion_pending",
    ) || t.is(k, "completion_conflict") {
        just(Next::Reconcile)
    } else {
        seek(visit)
    }
}

/// The step where no receipt was found.
pub fn after_no_receipt(visit: &Visit) -> (r: Plan)
    ensures
        r@ == without_receipt(visit@),
{
    if visit.target.is("kind", "new_chat") {
        just(Next::PendingUrl(visit.target.copy()))
    } else {
        go_past_receipt(visit)
    }
}

fn go_by_status(visit: &Visit, proven: bool, now: &str) -> (r: Plan)
    ensures
        r@ == by_status(visit@, proven, now@),
{
    let t = &visit.target;
    if t.is("last_delivery_status", "submitting") {
        let message =
            "browser delivery was interrupted after its at-most-once dispatch fence; the message will not be redelivered automatically";
        return match remember(t) {
            Err(e) => just(Next::Fail(e)),
            Ok(a) => complete_ambiguous_attempt(
                a,
                not_submitted_of("interrupted_dispatch", message),
                message,
                now,
            ),
        };
    }
    if t.is("last_delivery_status", "legacy_recovery_submitting") {
        let message =
            "legacy browser recovery was interrupted after dispatch began; the committed message will not be submitted again";
        let mut m = JsonMap::new();
        m.put("last_delivery_status", Json::str("submission_ambiguous"));
        m.put("last_delivery_at", Json::str(now));
        m.put(
            "last_submission_evidence",
            not_submitted_of("interrupted_legacy_dispatch", message),
        );
        m.put("last_error", Json::str(message));
        let mut effects: Vec<Effect> = Vec::new();
        effects.push(Effect::Patch(m));
        effects.push(
            Effect::Connector(
                "ambiguous".to_owned(),
                t.text_or_empty("last_delivery_turn_id"),
                message.to_owned(),
            ),
        );
        proof {
            assert(views(effects@) =~= by_status(visit@, proven, now@).effects);
        }
        return Plan {
            effects,
            next: if t.is("kind", "new_chat") {
                Next::PendingUrl(t.copy())
            } else {
                Next::Done(Outcome::Ambiguous)
            },
        };
    }
    let url = t.text_or_empty("url");
    if url.as_str().is_empty() && !t.is("kind", "new_chat") {
        return just(Next::Done(Outcome::Idle));
    }
    if t.is("last_delivery_status", "submission_ambiguous") {
        return match recover_verified_ambiguous_submission(visit, proven) {
            Search::Step(p) => p,
            Search::NotFound => after_no_receipt(visit),
        };
    }
    go_past_receipt(visit)
}

/// The step after the conversation of an older delivery was looked for.
pub open spec fn on_legacy_url(v: VisitV, url: Option<Text>) -> PlanV {
    match url {
        Some(_) => only(NextV::PendingUrl(v.target)),
        None => only(NextV::LegacyTurn(recover_args(v))),
    }
}

/// The step after the conversation of an older delivery was looked for.
pub fn after_legacy_url(visit: &Visit, url: Option<String>) -> (r: Plan)
    ensures
        r@ == on_legacy_url(visit@, opt_text(url)),
{
    match url {
        Some(_) => just(Next::PendingUrl(visit.target.copy())),
        None => recover_legacy_pending_delivery(visit),
    }
}

/// The step after an open completion was reconciled, or was not.
pub fn after_reconcile(reconciled: bool) -> (r: Plan)
    ensures
        r@ == if reconciled {
            only(NextV::Snapshot)
        } else {
            over(Outcome::Ambiguous)
        },
{
    if reconciled {
        just(Next::Snapshot)
    } else {
        just(Next::Done(Outcome::Ambiguous))
    }
}

/// The step after the target was read again: a target that belongs to another binding ends the
/// visit.
pub open spec fn on_snapshot(v: VisitV, same_owner: bool, target: JsonV) -> PlanV {
    if !same_owner {
        over(Outcome::Idle)
    } else if is_new_chat(target) {
        only(NextV::PendingUrl(target))
    } else if status_is(target, "submission_ambiguous"@) {
        seeking(v)
    } else {
        over(Outcome::Submitted)
    }
}

/// The step after the target was read again.
pub fn after_snapshot(visit: &Visit, same_owner: bool, target: &Json) -> (r: Plan)
    ensures
        r@ == on_snapshot(visit@, same_owner, target@),
{
    if !same_owner {
        just(Next::Done(Outcome::Idle))
    } else if target.is("kind", "new_chat") {
        just(Next::PendingUrl(target.copy()))
    } else if target.is("last_delivery_status", "submission_ambiguous") {
        seek(visit)
    } else {
        just(Next::Done(Outcome::Submitted))
    }
}

} // verus!
