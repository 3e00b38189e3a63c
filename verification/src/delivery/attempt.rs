//! One turn from its reservation to its receipt. The turn is given up before anything is sent, or
//! sent once and then settled; it is never sent twice.

use crate::delivery::plan::{
    after_effects, draft_is_empty, draft_length, evidence, just, needs_person, only, over, passing,
    requires_browser_action, retryable_pre_send_deferral, with_effect, Attempt, AttemptV,
    DeliveryFact, Effect, EffectV, FactV, Next, NextV, Outcome, Plan, PlanV, Submission,
    SubmissionV, Visit, VisitV,
};
use crate::delivery::prompt::{
    browser_delivery_id, browser_prompt, build_browser_prompt, delivery_id_text, event_label,
    event_label_of, needed, opt_seed, required, ApiError, ApiErrorV, BootstrapSeed, SeedV,
    BOOTSTRAP_SEED_VERSION,
};
use crate::json::{or_empty, Json, JsonMap, JsonV, ObjV};
use crate::lists::{lemma_views, lemma_views_push, views};
use crate::text::{contains_text, occurs, Text};
use vstd::prelude::*;

verus! {

broadcast use {lemma_views, lemma_views_push};

/// An empty object.
pub open spec fn nothing() -> ObjV {
    Map::<Text, JsonV>::empty()
}

/// The address of the conversation of a visit; empty where there is none.
pub open spec fn url_of(v: VisitV) -> Text {
    or_empty(v.target.at("url"@).text())
}

/// Whether the target of a visit is a chat that does not exist yet.
pub open spec fn is_new_chat(target: JsonV) -> bool {
    target.at("kind"@) == JsonV::Str("new_chat"@)
}

/// A fact about an attempt.
pub open spec fn fact(a: AttemptV, state: Text, detail: Text, extra: ObjV) -> FactV {
    FactV {
        turn_id: a.turn_id,
        event_ids: a.event_ids,
        delivery_id: a.delivery_id,
        state,
        detail,
        extra,
    }
}

fn fact_of(a: &Attempt, state: &str, detail: &str, extra: JsonMap) -> (r: DeliveryFact)
    ensures
        r@ == fact(a@, state@, detail@, extra@),
{
    DeliveryFact {
        turn_id: a.turn_id.clone(),
        event_ids: a.event_ids.copy(),
        delivery_id: a.delivery_id.clone(),
        state: state.to_owned(),
        detail: detail.to_owned(),
        extra,
    }
}

fn connector_effect(status: &str, turn_id: &str, error: &str) -> (r: Effect)
    ensures
        r@ == EffectV::Connector(status@, turn_id@, error@),
{
    Effect::Connector(status.to_owned(), turn_id.to_owned(), error.to_owned())
}

fn url_text(visit: &Visit) -> (r: String)
    ensures
        r@ == url_of(visit@),
{
    visit.target.text_or_empty("url")
}

fn new_chat(visit: &Visit) -> (r: bool)
    ensures
        r == is_new_chat(visit@.target),
{
    visit.target.is("kind", "new_chat")
}

/// What a page is recorded to have shown when nothing was sent.
pub open spec fn not_submitted(kind: Text, error: Text) -> JsonV {
    JsonV::Obj(
        map![
            "submitted"@ => JsonV::Bool(false),
            "submission_evidence"@ => JsonV::Str(kind),
            "error"@ => JsonV::Str(error),
        ],
    )
}

/// What a page is recorded to have shown when nothing was sent.
pub(crate) fn not_submitted_of(kind: &str, error: &str) -> (r: Json)
    ensures
        r@ == not_submitted(kind@, error@),
{
    let mut m = JsonMap::new();
    m.put("submitted", Json::Bool(false));
    m.put("submission_evidence", Json::str(kind));
    m.put("error", Json::str(error));
    Json::Obj(m)
}

/// A turn given up before anything was sent: its reservation is released as failed, so that the
/// original message can be delivered again, and it is never acknowledged as received.
pub open spec fn released(a: AttemptV, error: Text) -> PlanV {
    PlanV {
        effects: seq![
            EffectV::Record(fact(a, "failed"@, error, nothing())),
            EffectV::Patch(
                map![
                    "last_delivery_status"@ => JsonV::Str("deferred"@),
                    "last_error"@ => JsonV::Str(error),
                    "last_submission_evidence"@ => not_submitted(
                        "not_sent_before_dispatch"@,
                        error,
                    ),
                ],
            ),
            EffectV::Connector("deferred"@, a.turn_id, error),
        ],
        next: NextV::Done(Outcome::Deferred),
    }
}

/// Gives a turn up before anything was sent.
pub fn retry_unsubmitted_turn(a: &Attempt, error: &str) -> (r: Plan)
    ensures
        r@ == released(a@, error@),
{
    let mut m = JsonMap::new();
    m.put("last_delivery_status", Json::str("deferred"));
    m.put("last_error", Json::str(error));
    m.put("last_submission_evidence", not_submitted_of("not_sent_before_dispatch", error));
    let mut effects: Vec<Effect> = Vec::new();
    effects.push(Effect::Record(fact_of(a, "failed", error, JsonMap::new())));
    effects.push(Effect::Patch(m));
    effects.push(connector_effect("deferred", a.turn_id.as_str(), error));
    proof {
        assert(views(effects@) =~= released(a@, error@).effects);
    }
    Plan { effects, next: Next::Done(Outcome::Deferred) }
}

/// A turn that may have been sent: it is recorded as ambiguous and completed, so that it is never
/// sent again.
pub open spec fn unverified(a: AttemptV, browser: JsonV, message: Text, now: Text) -> PlanV {
    PlanV {
        effects: seq![
            EffectV::Patch(
                map![
                    "last_delivery_status"@ => JsonV::Str(
                        "submission_ambiguous_completion_pending"@,
                    ),
                    "last_delivery_turn_id"@ => JsonV::Str(a.turn_id),
                    "last_delivery_event_ids"@ => a.event_ids,
                    "last_delivery_reconcile_attempts"@ => JsonV::Int(0),
                    "last_delivery_at"@ => JsonV::Str(now),
                    "last_submission_evidence"@ => browser,
                    "last_error"@ => JsonV::Str(message),
                ],
            ),
            EffectV::Record(fact(a, "ambiguous"@, message, nothing())),
        ],
        next: NextV::CompleteUnverified(a, message),
    }
}

/// Settles a turn that may have been sent.
pub fn complete_ambiguous_attempt(a: Attempt, browser: Json, message: &str, now: &str) -> (r: Plan)
    ensures
        r@ == unverified(a@, browser@, message@, now@),
{
    let mut m = JsonMap::new();
    m.put("last_delivery_status", Json::str("submission_ambiguous_completion_pending"));
    m.put("last_delivery_turn_id", Json::str(a.turn_id.as_str()));
    m.put("last_delivery_event_ids", a.event_ids.copy());
    m.put("last_delivery_reconcile_attempts", Json::Int(0));
    m.put("last_delivery_at", Json::str(now));
    m.put("last_submission_evidence", browser);
    m.put("last_error", Json::str(message));
    let mut effects: Vec<Effect> = Vec::new();
    effects.push(Effect::Patch(m));
    effects.push(Effect::Record(fact_of(&a, "ambiguous", message, JsonMap::new())));
    proof {
        assert(views(effects@) =~= unverified(a@, browser@, message@, now@).effects);
    }
    Plan { effects, next: Next::CompleteUnverified(a, message.to_owned()) }
}

/// The error of a result; empty where there is none.
pub open spec fn error_of(r: Result<(), String>) -> Text {
    match r {
        Ok(_) => Seq::empty(),
        Err(e) => e@,
    }
}

/// The end of an unverified submission, by how the completion of its turn went.
pub open spec fn unverified_end(a: AttemptV, message: Text, ok: bool, error: Text) -> PlanV {
    let patch = EffectV::Patch(
        map![
            "last_delivery_status"@ => JsonV::Str(
                if ok {
                    "submission_ambiguous"@
                } else {
                    "submission_ambiguous_completion_pending"@
                },
            ),
            "last_error"@ => JsonV::Str(
                if error.len() == 0 {
                    message
                } else {
                    error
                },
            ),
        ],
    );
    PlanV {
        effects: if ok {
            seq![patch, EffectV::Connector("ambiguous"@, a.turn_id, message)]
        } else {
            seq![patch]
        },
        next: NextV::Done(Outcome::Ambiguous),
    }
}

/// The end of an unverified submission. `completed` is how the completion of its turn went.
pub fn after_unverified_completion(a: &Attempt, message: &str, completed: Result<(), String>) -> (r:
    Plan)
    ensures
        r@ == unverified_end(a@, message@, completed is Ok, error_of(completed)),
{
    let ok = completed.is_ok();
    let error = match completed {
        Ok(_) => String::new(),
        Err(e) => e,
    };
    let mut m = JsonMap::new();
    m.put(
        "last_delivery_status",
        Json::str(
            if ok {
                "submission_ambiguous"
            } else {
                "submission_ambiguous_completion_pending"
            },
        ),
    );
    m.put(
        "last_error",
        if error.as_str().is_empty() {
            Json::str(message)
        } else {
            Json::str(error.as_str())
        },
    );
    let mut effects: Vec<Effect> = Vec::new();
    effects.push(Effect::Patch(m));
    if ok {
        effects.push(connector_effect("ambiguous", a.turn_id.as_str(), message));
    }
    proof {
        assert(views(effects@) =~= unverified_end(a@, message@, ok, error@).effects);
    }
    Plan { effects, next: Next::Done(Outcome::Ambiguous) }
}

/// The attempt at a turn, before its prompt is made.
pub open spec fn reserved(v: VisitV, turn: JsonV, turn_id: Text) -> AttemptV {
    AttemptV {
        turn_id,
        event_ids: turn.at("event_ids"@),
        delivery_id: delivery_id_text(v.actor_id, turn_id),
        turn,
        prompt: Seq::empty(),
        seed: None,
    }
}

/// The members that mark the target as preparing an attempt.
pub open spec fn preparing_patch(a: AttemptV, now: Text) -> ObjV {
    map![
        "last_delivery_id"@ => JsonV::Str(a.delivery_id),
        "last_delivery_turn_id"@ => JsonV::Str(a.turn_id),
        "last_delivery_event_ids"@ => a.event_ids,
        "last_delivery_status"@ => JsonV::Str("preparing"@),
        "last_delivery_started_at"@ => JsonV::Str(now),
        "last_submission_evidence"@ => JsonV::Null,
        "last_error"@ => JsonV::Str(Seq::empty()),
    ]
}

/// The step after the next turn was waited for.
pub open spec fn on_wait(v: VisitV, wait: JsonV, now: Text) -> PlanV {
    if wait.at("status"@) != JsonV::Str("work_available"@) {
        over(Outcome::Idle)
    } else {
        match needed(wait.at("turn"@), "turn_id"@) {
            Err(e) => only(NextV::Fail(e)),
            Ok(turn_id) => {
                let a = reserved(v, wait.at("turn"@), turn_id);
                only(NextV::MarkPreparing(a, preparing_patch(a, now)))
            },
        }
    }
}

/// The step after the next turn was waited for.
pub fn after_wait(visit: &Visit, wait: &Json, now: &str) -> (r: Plan)
    ensures
        r@ == on_wait(visit@, wait@, now@),
{
    if !wait.is("status", "work_available") {
        return just(Next::Done(Outcome::Idle));
    }
    let turn = wait.at("turn");
    let turn_id = match required(&turn, "turn_id") {
        Ok(t) => t,
        Err(e) => {
            return just(Next::Fail(e));
        },
    };
    let delivery_id = browser_delivery_id(visit.actor_id.as_str(), turn_id.as_str());
    let event_ids = turn.at("event_ids");
    let a = Attempt {
        turn_id,
        event_ids,
        delivery_id,
        turn,
        prompt: String::new(),
        seed: None,
    };
    let mut m = JsonMap::new();
    m.put("last_delivery_id", Json::str(a.delivery_id.as_str()));
    m.put("last_delivery_turn_id", Json::str(a.turn_id.as_str()));
    m.put("last_delivery_event_ids", a.event_ids.copy());
    m.put("last_delivery_status", Json::str("preparing"));
    m.put("last_delivery_started_at", Json::str(now));
    m.put("last_submission_evidence", Json::Null);
    m.put("last_error", Json::Str(String::new()));
    just(Next::MarkPreparing(a, m))
}

/// Whether the browser shows a page.
pub open spec fn is_active(surface: JsonV) -> bool {
    surface.at("active"@) == JsonV::Bool(true)
}

/// The step that sends an attempt: its prompt is made first.
pub open spec fn sending(v: VisitV, a: AttemptV) -> PlanV {
    match browser_prompt(
        a.turn,
        v.target,
        url_of(v),
        v.actor_id,
        a.delivery_id,
        event_label(a.turn, "event_ids"@),
    ) {
        Err(e) => only(NextV::Fail(e)),
        Ok((prompt, seed)) => only(NextV::Submit(AttemptV { prompt, seed, ..a })),
    }
}

/// An attempt with its prompt, or why it has none.
pub(crate) fn with_prompt(visit: &Visit, a: Attempt) -> (r: Result<Attempt, ApiError>)
    ensures
        match r {
            Ok(b) => browser_prompt(
                a@.turn,
                visit@.target,
                url_of(visit@),
                visit@.actor_id,
                a@.delivery_id,
                event_label(a@.turn, "event_ids"@),
            ) == Ok::<(Text, Option<SeedV>), ApiErrorV>((b@.prompt, b@.seed)) && b@ == (AttemptV {
                prompt: b@.prompt,
                seed: b@.seed,
                ..a@
            }),
            Err(e) => browser_prompt(
                a@.turn,
                visit@.target,
                url_of(visit@),
                visit@.actor_id,
                a@.delivery_id,
                event_label(a@.turn, "event_ids"@),
            ) == Err::<(Text, Option<SeedV>), ApiErrorV>(e@),
        },
{
    let url = url_text(visit);
    let label = event_label_of(&a.turn, "event_ids");
    let (prompt, seed) = build_browser_prompt(
        &a.turn,
        &visit.target,
        url.as_str(),
        visit.actor_id.as_str(),
        a.delivery_id.as_str(),
        label.as_str(),
    )?;
    Ok(
        Attempt {
            turn_id: a.turn_id,
            event_ids: a.event_ids,
            delivery_id: a.delivery_id,
            turn: a.turn,
            prompt,
            seed,
        },
    )
}

fn send(visit: &Visit, a: Attempt) -> (r: Plan)
    ensures
        r@ == sending(visit@, a@),
{
    match with_prompt(visit, a) {
        Ok(b) => just(Next::Submit(b)),
        Err(e) => just(Next::Fail(e)),
    }
}

/// The step after the target was marked as preparing, or was found to have changed.
pub open spec fn on_marked(v: VisitV, a: AttemptV, marked: bool) -> PlanV {
    if !marked {
        released(a, "browser binding or target changed before preparation"@)
    } else if !is_active(v.surface) {
        PlanV {
            effects: seq![EffectV::Schedule, EffectV::AutoClose],
            next: NextV::Open(a),
        }
    } else if v.manage_browser {
        only(NextV::ProbeSurface(a))
    } else {
        sending(v, a)
    }
}

/// The step after the target was marked as preparing, or was found to have changed.
pub fn after_marked(visit: &Visit, a: Attempt, marked: bool) -> (r: Plan)
    ensures
        r@ == on_marked(visit@, a@, marked),
{
    if !marked {
        return retry_unsubmitted_turn(&a, "browser binding or target changed before preparation");
    }
    if !visit.surface.is_true("active") {
        let mut effects: Vec<Effect> = Vec::new();
        effects.push(Effect::Schedule);
        effects.push(Effect::AutoClose);
        proof {
            assert(views(effects@) =~= seq![EffectV::Schedule, EffectV::AutoClose]);
        }
        return Plan { effects, next: Next::Open(a) };
    }
    if visit.manage_browser {
        return just(Next::ProbeSurface(a));
    }
    send(visit, a)
}

/// Whether a page leaves the visit in charge: nothing blocks it, or only something that passes
/// and no draft of a person.
pub open spec fn may_take_over(blocker: Option<JsonV>) -> bool {
    match blocker {
        None => true,
        Some(b) => draft_length(b) == 0 && !needs_person(b),
    }
}

/// The value of an optional document.
pub open spec fn opt_value(o: Option<Json>) -> Option<JsonV> {
    match o {
        Some(x) => Some(x@),
        None => None,
    }
}

/// The step after the open page was looked at.
pub open spec fn on_surface(v: VisitV, a: AttemptV, blocker: Option<JsonV>) -> PlanV {
    if may_take_over(blocker) {
        sending(v, a).behind(seq![EffectV::AutoClose, EffectV::Schedule])
    } else {
        sending(v, a)
    }
}

/// The step after the open page was looked at.
pub fn after_surface_probe(visit: &Visit, a: Attempt, blocker: Option<Json>) -> (r: Plan)
    ensures
        r@ == on_surface(visit@, a@, opt_value(blocker)),
{
    let take = match &blocker {
        None => true,
        Some(b) => draft_is_empty(b) && !requires_browser_action(b),
    };
    let plan = send(visit, a);
    if take {
        let mut effects: Vec<Effect> = Vec::new();
        effects.push(Effect::AutoClose);
        effects.push(Effect::Schedule);
        proof {
            assert(views(effects@) =~= seq![EffectV::AutoClose, EffectV::Schedule]);
        }
        after_effects(effects, plan)
    } else {
        plan
    }
}

/// The step after the browser was opened, or failed to open.
pub open spec fn on_open(v: VisitV, a: AttemptV, error: Option<Text>) -> PlanV {
    match error {
        Some(e) => released(a, e),
        None => sending(v, a),
    }
}

/// The failure in a result.
pub open spec fn failure(r: Result<(), String>) -> Option<Text> {
    match r {
        Ok(_) => None,
        Err(e) => Some(e@),
    }
}

/// The step after the browser was opened, or failed to open.
pub fn after_open(visit: &Visit, a: Attempt, opened: Result<(), String>) -> (r: Plan)
    ensures
        r@ == on_open(visit@, a@, failure(opened)),
{
    match opened {
        Ok(_) => send(visit, a),
        Err(e) => retry_unsubmitted_turn(&a, e.as_str()),
    }
}

/// What is recorded right before the prompt is sent, where the actor still may be delivered to.
pub open spec fn dispatch_fact(v: VisitV, a: AttemptV, enabled: bool) -> Result<FactV, Text> {
    if enabled {
        Ok(
            fact(
                a,
                "submitting"@,
                Seq::empty(),
                map![
                    "target_url"@ => JsonV::Str(url_of(v)),
                    "auto_bind_new_chat"@ => JsonV::Bool(is_new_chat(v.target)),
                ],
            ),
        )
    } else {
        Err("actor stopped during browser preparation"@)
    }
}

/// What is recorded right before the prompt is sent, where the actor still may be delivered to.
pub fn before_dispatch(visit: &Visit, a: &Attempt, enabled: bool) -> (r: Result<
    DeliveryFact,
    String,
>)
    ensures
        match r {
            Ok(f) => dispatch_fact(visit@, a@, enabled) == Ok::<FactV, Text>(f@),
            Err(e) => dispatch_fact(visit@, a@, enabled) == Err::<FactV, Text>(e@),
        },
{
    if !enabled {
        return Err("actor stopped during browser preparation".to_owned());
    }
    let mut m = JsonMap::new();
    m.put("target_url", Json::Str(url_text(visit)));
    m.put("auto_bind_new_chat", Json::Bool(new_chat(visit)));
    let none = String::new();
    Ok(fact_of(a, "submitting", none.as_str(), m))
}

/// The members that mark the target as sending.
pub open spec fn dispatch_patch(status: Text) -> ObjV {
    map!["last_delivery_status"@ => JsonV::Str(status)]
}

/// The members that mark the target as sending.
pub fn dispatch_mark(status: &str) -> (r: JsonMap)
    ensures
        r@ == dispatch_patch(status@),
{
    let mut m = JsonMap::new();
    m.put("last_delivery_status", Json::str(status));
    m
}

/// Whether the prompt may be sent: the permit was given, and the target was still this attempt's
/// when it was marked. `updated` is looked at only with a permit.
pub fn acquire_dispatch_permit(permitted: bool, updated: bool) -> (r: Result<(), String>)
    ensures
        r is Ok <==> permitted && updated,
        r matches Err(e) ==> e@ == if permitted {
            "browser attempt changed before Send"@
        } else {
            "browser binding or target changed before Send"@
        },
{
    if !permitted {
        Err("browser binding or target changed before Send".to_owned())
    } else if !updated {
        Err("browser attempt changed before Send".to_owned())
    } else {
        Ok(())
    }
}

/// The members that record a verified submission whose turn is still to be completed.
pub open spec fn pending_patch(
    turn_id: Text,
    event_ids: JsonV,
    browser: JsonV,
    seed: Option<SeedV>,
    target_url: Text,
    now: Text,
) -> ObjV {
    let base = map![
        "last_delivery_status"@ => JsonV::Str("completion_ambiguous"@),
        "last_delivery_turn_id"@ => JsonV::Str(turn_id),
        "last_delivery_event_ids"@ => event_ids,
        "last_delivery_reconcile_attempts"@ => JsonV::Int(0),
        "last_delivery_at"@ => JsonV::Str(now),
        "last_submission_evidence"@ => browser,
        "last_error"@ => JsonV::Str("delivery_completion_pending"@),
    ];
    match seed {
        Some(s) => base.insert("bootstrap_seed_delivered_at"@, JsonV::Str(now)).insert(
            "bootstrap_seed_version"@,
            JsonV::Str(BOOTSTRAP_SEED_VERSION@),
        ).insert("bootstrap_seed_digest"@, JsonV::Str(s.digest)).insert(
            "bootstrap_seed_conversation_url"@,
            JsonV::Str(target_url),
        ),
        None => base,
    }
}

/// The members that record a verified submission whose turn is still to be completed.
pub fn completion_pending_patch(
    turn_id: &str,
    event_ids: Json,
    browser: Json,
    seed: &Option<BootstrapSeed>,
    target_url: &str,
    now: &str,
) -> (r: JsonMap)
    ensures
        r@ == pending_patch(
            turn_id@,
            event_ids@,
            browser@,
            opt_seed(*seed),
            target_url@,
            now@,
        ),
{
    let mut m = JsonMap::new();
    m.put("last_delivery_status", Json::str("completion_ambiguous"));
    m.put("last_delivery_turn_id", Json::str(turn_id));
    m.put("last_delivery_event_ids", event_ids);
    m.put("last_delivery_reconcile_attempts", Json::Int(0));
    m.put("last_delivery_at", Json::str(now));
    m.put("last_submission_evidence", browser);
    m.put("last_error", Json::str("delivery_completion_pending"));
    if let Some(s) = seed {
        m.put("bootstrap_seed_delivered_at", Json::str(now));
        m.put("bootstrap_seed_version", Json::str(BOOTSTRAP_SEED_VERSION));
        m.put("bootstrap_seed_digest", Json::str(s.digest.as_str()));
        m.put("bootstrap_seed_conversation_url", Json::str(target_url));
    }
    m
}

/// The text of what the page showed.
pub open spec fn evidence_text(browser: JsonV) -> Text {
    or_empty(evidence(browser).text())
}

/// The step after a prompt was seen to be sent: the fact is recorded before the turn is completed.
pub open spec fn verified(v: VisitV, a: AttemptV, browser: JsonV, now: Text) -> PlanV {
    PlanV {
        effects: seq![
            EffectV::Patch(
                pending_patch(a.turn_id, a.event_ids, browser, a.seed, url_of(v), now),
            ),
            EffectV::Record(
                fact(
                    a,
                    "submitted"@,
                    evidence_text(browser),
                    map![
                        "target_url"@ => JsonV::Str(url_of(v)),
                        "auto_bind_new_chat"@ => JsonV::Bool(is_new_chat(v.target)),
                    ],
                ),
            ),
        ],
        next: NextV::Complete(a, browser),
    }
}

/// The end of a visit that found the page not ready.
pub open spec fn postponed(v: VisitV, a: AttemptV, browser: JsonV) -> PlanV {
    let message = "browser model is not ready for a safe prompt submission"@;
    PlanV {
        effects: seq![
            EffectV::Hold(browser),
            EffectV::Patch(
                map![
                    "last_delivery_status"@ => JsonV::Str("deferred"@),
                    "last_submission_evidence"@ => browser,
                    "last_error"@ => JsonV::Str(message),
                ],
            ),
            EffectV::Record(
                fact(
                    a,
                    "failed"@,
                    message,
                    map!["target_url"@ => JsonV::Str(url_of(v))],
                ),
            ),
            EffectV::Connector("deferred"@, a.turn_id, message),
        ],
        next: NextV::Done(
            if needs_person(browser) {
                Outcome::Stopped
            } else if passing(browser) {
                Outcome::Idle
            } else {
                Outcome::Deferred
            },
        ),
    }
}

/// The end of a visit that found the bound conversation gone.
pub open spec fn unreachable_end(v: VisitV, a: AttemptV, error: Text) -> PlanV {
    PlanV {
        effects: seq![
            EffectV::Patch(
                map![
                    "last_delivery_status"@ => JsonV::Str("failed"@),
                    "last_submission_evidence"@ => not_submitted(
                        "bound_conversation_unavailable"@,
                        error,
                    ),
                    "last_error"@ => JsonV::Str(error),
                ],
            ),
            EffectV::Connector("failed"@, a.turn_id, error),
            EffectV::Record(
                fact(a, "failed"@, error, map!["target_url"@ => JsonV::Str(url_of(v))]),
            ),
        ],
        next: NextV::Done(Outcome::Stopped),
    }
}

/// What is said of a submission that was attempted and not seen.
pub open spec fn unseen() -> Text {
    "browser submission was attempted but could not be verified; this message will not be redelivered automatically"@
}

/// The step after a submission, once a prompt that was not sent is off the page. `marker` is the
/// text by which an error says that the bound conversation is gone.
pub open spec fn on_settled(
    v: VisitV,
    a: AttemptV,
    s: SubmissionV,
    marker: Text,
    now: Text,
) -> PlanV {
    match s {
        SubmissionV::Verified(browser) => verified(v, a, browser, now),
        SubmissionV::Deferred(browser) => postponed(v, a, browser),
        SubmissionV::Ambiguous(browser) => unverified(a, browser, unseen(), now),
        SubmissionV::Failed(error) => if occurs(error, marker) {
            unreachable_end(v, a, error)
        } else {
            released(a, error)
        },
    }
}

fn verified_plan(visit: &Visit, a: Attempt, browser: Json, now: &str) -> (r: Plan)
    ensures
        r@ == verified(visit@, a@, browser@, now@),
{
    let url = url_text(visit);
    let shown = browser.text_or_empty("submission_evidence");
    let patch = completion_pending_patch(
        a.turn_id.as_str(),
        a.event_ids.copy(),
        browser.copy(),
        &a.seed,
        url.as_str(),
        now,
    );
    let mut m = JsonMap::new();
    m.put("target_url", Json::Str(url));
    m.put("auto_bind_new_chat", Json::Bool(new_chat(visit)));
    let mut effects: Vec<Effect> = Vec::new();
    effects.push(Effect::Patch(patch));
    effects.push(Effect::Record(fact_of(&a, "submitted", shown.as_str(), m)));
    proof {
        assert(views(effects@) =~= verified(visit@, a@, browser@, now@).effects);
    }
    Plan { effects, next: Next::Complete(a, browser) }
}

fn postponed_plan(visit: &Visit, a: &Attempt, browser: Json) -> (r: Plan)
    ensures
        r@ == postponed(visit@, a@, browser@),
{
    let message = "browser model is not ready for a safe prompt submission";
    let outcome = if requires_browser_action(&browser) {
        Outcome::Stopped
    } else if retryable_pre_send_deferral(&browser) {
        Outcome::Idle
    } else {
        Outcome::Deferred
    };
    let mut m = JsonMap::new();
    m.put("last_delivery_status", Json::str("deferred"));
    m.put("last_submission_evidence", browser.copy());
    m.put("last_error", Json::str(message));
    let mut extra = JsonMap::new();
    extra.put("target_url", Json::Str(url_text(visit)));
    let mut effects: Vec<Effect> = Vec::new();
    effects.push(Effect::Hold(browser));
    effects.push(Effect::Patch(m));
    effects.push(Effect::Record(fact_of(a, "failed", message, extra)));
    effects.push(connector_effect("deferred", a.turn_id.as_str(), message));
    proof {
        assert(views(effects@) =~= postponed(visit@, a@, browser@).effects);
    }
    Plan { effects, next: Next::Done(outcome) }
}

fn unreachable_plan(visit: &Visit, a: &Attempt, error: &str) -> (r: Plan)
    ensures
        r@ == unreachable_end(visit@, a@, error@),
{
    let mut m = JsonMap::new();
    m.put("last_delivery_status", Json::str("failed"));
    m.put("last_submission_evidence", not_submitted_of("bound_conversation_unavailable", error));
    m.put("last_error", Json::str(error));
    let mut extra = JsonMap::new();
    extra.put("target_url", Json::Str(url_text(visit)));
    let mut effects: Vec<Effect> = Vec::new();
    effects.push(Effect::Patch(m));
    effects.push(connector_effect("failed", a.turn_id.as_str(), error));
    effects.push(Effect::Record(fact_of(a, "failed", error, extra)));
    proof {
        assert(views(effects@) =~= unreachable_end(visit@, a@, error@).effects);
    }
    Plan { effects, next: Next::Done(Outcome::Stopped) }
}

fn settle(visit: &Visit, a: Attempt, s: Submission, marker: &str, now: &str) -> (r: Plan)
    ensures
        r@ == on_settled(visit@, a@, s@, marker@, now@),
{
    match s {
        Submission::Verified(browser) => verified_plan(visit, a, browser, now),
        Submission::Deferred(browser) => postponed_plan(visit, &a, browser),
        Submission::Ambiguous(browser) => complete_ambiguous_attempt(
            a,
            browser,
            "browser submission was attempted but could not be verified; this message will not be redelivered automatically",
            now,
        ),
        Submission::Failed(error) => if contains_text(error.as_str(), marker) {
            unreachable_plan(visit, &a, error.as_str())
        } else {
            retry_unsubmitted_turn(&a, error.as_str())
        },
    }
}

/// The step after a submission: a prompt that was not sent is taken off the page first.
pub open spec fn on_submission(
    v: VisitV,
    a: AttemptV,
    s: SubmissionV,
    marker: Text,
    now: Text,
) -> PlanV {
    if s is Deferred || s is Failed {
        only(NextV::ClearStaged(a, s))
    } else {
        on_settled(v, a, s, marker, now)
    }
}

/// The step after a submission.
pub fn after_submission(visit: &Visit, a: Attempt, s: Submission, marker: &str, now: &str) -> (r:
    Plan)
    ensures
        r@ == on_submission(visit@, a@, s@, marker@, now@),
{
    match &s {
        Submission::Deferred(_) => just(Next::ClearStaged(a, s)),
        Submission::Failed(_) => just(Next::ClearStaged(a, s)),
        _ => settle(visit, a, s, marker, now),
    }
}

/// The step after the prompt was taken off the page; a failure to do so takes the place of the
/// submission.
pub open spec fn on_cleared(
    v: VisitV,
    a: AttemptV,
    s: SubmissionV,
    error: Option<Text>,
    marker: Text,
    now: Text,
) -> PlanV {
    match error {
        Some(e) => on_settled(v, a, SubmissionV::Failed(e), marker, now),
        None => on_settled(v, a, s, marker, now),
    }
}

/// The step after the prompt was taken off the page.
pub fn after_cleared(
    visit: &Visit,
    a: Attempt,
    s: Submission,
    cleared: Result<(), String>,
    marker: &str,
    now: &str,
) -> (r: Plan)
    ensures
        r@ == on_cleared(visit@, a@, s@, failure(cleared), marker@, now@),
{
    match cleared {
        Ok(_) => settle(visit, a, s, marker, now),
        Err(e) => settle(visit, a, Submission::Failed(e), marker, now),
    }
}

/// The members that bind the target to the conversation of a new chat.
pub open spec fn bind_patch(url: Text, now: Text) -> ObjV {
    map![
        "state"@ => JsonV::Str("bound_existing_chat"@),
        "kind"@ => JsonV::Str("existing_chat"@),
        "url"@ => JsonV::Str(url),
        "saved_at"@ => JsonV::Str(now),
        "bound_at"@ => JsonV::Str(now),
        "next_delivery"@ => JsonV::Str("existing_chat"@),
        "bootstrap_seed_conversation_url"@ => JsonV::Str(url),
    ]
}

/// The members that bind the target to the conversation of a new chat.
pub fn bind_new_chat_target(url: &str, now: &str) -> (r: JsonMap)
    ensures
        r@ == bind_patch(url@, now@),
{
    let mut m = JsonMap::new();
    m.put("state", Json::str("bound_existing_chat"));
    m.put("kind", Json::str("existing_chat"));
    m.put("url", Json::str(url));
    m.put("saved_at", Json::str(now));
    m.put("bound_at", Json::str(now));
    m.put("next_delivery", Json::str("existing_chat"));
    m.put("bootstrap_seed_conversation_url", Json::str(url));
    m
}

/// The end of a verified submission: where its new chat stands, and what the records say.
pub open spec fn delivered_end(
    v: VisitV,
    a: AttemptV,
    browser: JsonV,
    pending: bool,
    bound_url: Text,
    bind_error: Text,
    now: Text,
) -> PlanV {
    let error = if bind_error.len() > 0 {
        bind_error
    } else if pending {
        "conversation_url_pending"@
    } else {
        Seq::empty()
    };
    let base = map![
        "last_delivery_status"@ => JsonV::Str(
            if pending {
                "pending_new_chat_bind"@
            } else {
                "submitted"@
            },
        ),
        "last_delivery_at"@ => JsonV::Str(now),
        "last_error"@ => JsonV::Str(error),
        "last_submission_evidence"@ => browser,
    ];
    let patch = if pending {
        base.insert("state"@, JsonV::Str("new_chat_submitted"@)).insert(
            "submitted_at"@,
            JsonV::Str(now),
        ).insert("delivery_id"@, JsonV::Str(a.delivery_id)).insert(
            "next_delivery"@,
            JsonV::Str("wait_for_new_chat_bind"@),
        )
    } else {
        base
    };
    let always = seq![
        EffectV::Patch(patch),
        EffectV::Connector("submitted"@, a.turn_id, Seq::empty()),
    ];
    let bound = if bound_url.len() > 0 {
        seq![
            EffectV::Record(
                fact(
                    a,
                    "bound"@,
                    evidence_text(browser),
                    map![
                        "target_url"@ => JsonV::Str(url_of(v)),
                        "bound_conversation_url"@ => JsonV::Str(bound_url),
                        "pending_conversation_url"@ => JsonV::Bool(false),
                        "auto_bind_new_chat"@ => JsonV::Bool(true),
                    ],
                ),
            ),
        ]
    } else {
        Seq::empty()
    };
    let waiting = if pending {
        seq![
            EffectV::Record(
                fact(
                    a,
                    "pending"@,
                    error,
                    map![
                        "target_url"@ => JsonV::Str(url_of(v)),
                        "pending_conversation_url"@ => JsonV::Bool(true),
                        "auto_bind_new_chat"@ => JsonV::Bool(true),
                    ],
                ),
            ),
        ]
    } else {
        Seq::empty()
    };
    PlanV {
        effects: always + bound + waiting,
        next: NextV::Done(Outcome::Submitted),
    }
}

fn finish(
    visit: &Visit,
    a: &Attempt,
    browser: Json,
    pending: bool,
    bound_url: &str,
    bind_error: &str,
    now: &str,
) -> (r: Plan)
    ensures
        r@ == delivered_end(
            visit@,
            a@,
            browser@,
            pending,
            bound_url@,
            bind_error@,
            now@,
        ),
{
    let error = if !bind_error.is_empty() {
        bind_error.to_owned()
    } else if pending {
        "conversation_url_pending".to_owned()
    } else {
        String::new()
    };
    let shown = browser.text_or_empty("submission_evidence");
    let mut m = JsonMap::new();
    m.put(
        "last_delivery_status",
        Json::str(
            if pending {
                "pending_new_chat_bind"
            } else {
                "submitted"
            },
        ),
    );
    m.put("last_delivery_at", Json::str(now));
    m.put("last_error", Json::str(error.as_str()));
    m.put("last_submission_evidence", browser);
    if pending {
        m.put("state", Json::str("new_chat_submitted"));
        m.put("submitted_at", Json::str(now));
        m.put("delivery_id", Json::str(a.delivery_id.as_str()));
        m.put("next_delivery", Json::str("wait_for_new_chat_bind"));
    }
    let none = String::new();
    let mut effects: Vec<Effect> = Vec::new();
    effects.push(Effect::Patch(m));
    effects.push(connector_effect("submitted", a.turn_id.as_str(), none.as_str()));
    if !bound_url.is_empty() {
        let mut extra = JsonMap::new();
        extra.put("target_url", Json::Str(url_text(visit)));
        extra.put("bound_conversation_url", Json::str(bound_url));
        extra.put("pending_conversation_url", Json::Bool(false));
        extra.put("auto_bind_new_chat", Json::Bool(true));
        effects.push(Effect::Record(fact_of(a, "bound", shown.as_str(), extra)));
    }
    if pending {
        let mut extra = JsonMap::new();
        extra.put("target_url", Json::Str(url_text(visit)));
        extra.put("pending_conversation_url", Json::Bool(true));
        extra.put("auto_bind_new_chat", Json::Bool(true));
        effects.push(Effect::Record(fact_of(a, "pending", error.as_str(), extra)));
    }
    proof {
        assert(views(effects@) =~= delivered_end(
            visit@,
            a@,
            browser@,
            pending,
            bound_url@,
            bind_error@,
            now@,
        ).effects);
    }
    Plan { effects, next: Next::Done(Outcome::Submitted) }
}

/// The step after the turn of a verified submission was completed, or was not.
pub open spec fn on_completed(
    v: VisitV,
    a: AttemptV,
    browser: JsonV,
    error: Option<Text>,
    now: Text,
) -> PlanV {
    match error {
        Some(e) => PlanV {
            effects: seq![
                EffectV::Patch(
                    map![
                        "last_delivery_status"@ => JsonV::Str("completion_ambiguous"@),
                        "last_delivery_turn_id"@ => JsonV::Str(a.turn_id),
                        "last_delivery_event_ids"@ => a.event_ids,
                        "last_delivery_reconcile_attempts"@ => JsonV::Int(0),
                        "last_submission_evidence"@ => browser,
                        "last_error"@ => JsonV::Str(e),
                    ],
                ),
            ],
            next: NextV::Done(Outcome::Ambiguous),
        },
        None => if is_new_chat(v.target) {
            only(NextV::NewConversation(a, browser))
        } else {
            delivered_end(v, a, browser, false, Seq::empty(), Seq::empty(), now)
        },
    }
}

/// The step after the turn of a verified submission was completed, or was not.
pub fn after_completed(
    visit: &Visit,
    a: Attempt,
    browser: Json,
    completed: Result<(), String>,
    now: &str,
) -> (r: Plan)
    ensures
        r@ == on_completed(visit@, a@, browser@, failure(completed), now@),
{
    match completed {
        Err(e) => {
            let mut m = JsonMap::new();
            m.put("last_delivery_status", Json::str("completion_ambiguous"));
            m.put("last_delivery_turn_id", Json::str(a.turn_id.as_str()));
            m.put("last_delivery_event_ids", a.event_ids.copy());
            m.put("last_delivery_reconcile_attempts", Json::Int(0));
            m.put("last_submission_evidence", browser);
            m.put("last_error", Json::Str(e));
            with_effect(Effect::Patch(m), Next::Done(Outcome::Ambiguous))
        },
        Ok(_) => {
            if new_chat(visit) {
                just(Next::NewConversation(a, browser))
            } else {
                let none = String::new();
                finish(visit, &a, browser, false, none.as_str(), none.as_str(), now)
            }
        },
    }
}

/// The value of a search for a conversation.
pub open spec fn sought(r: Result<Option<String>, String>) -> Result<Option<Text>, Text> {
    match r {
        Ok(Some(u)) => Ok(Some(u@)),
        Ok(None) => Ok(None),
        Err(e) => Err(e@),
    }
}

/// The step after the conversation of a new chat was waited for.
pub open spec fn on_conversation(
    v: VisitV,
    a: AttemptV,
    browser: JsonV,
    found: Result<Option<Text>, Text>,
    now: Text,
) -> PlanV {
    match found {
        Ok(Some(url)) => only(NextV::BindConversation(a, browser, url, bind_patch(url, now))),
        Ok(None) => delivered_end(v, a, browser, true, Seq::empty(), Seq::empty(), now),
        Err(e) => delivered_end(v, a, browser, true, Seq::empty(), e, now),
    }
}

/// The step after the conversation of a new chat was waited for.
pub fn after_conversation(
    visit: &Visit,
    a: Attempt,
    browser: Json,
    found: Result<Option<String>, String>,
    now: &str,
) -> (r: Plan)
    ensures
        r@ == on_conversation(visit@, a@, browser@, sought(found), now@),
{
    let none = String::new();
    match found {
        Ok(Some(url)) => {
            let patch = bind_new_chat_target(url.as_str(), now);
            just(Next::BindConversation(a, browser, url, patch))
        },
        Ok(None) => finish(visit, &a, browser, true, none.as_str(), none.as_str(), now),
        Err(e) => finish(visit, &a, browser, true, none.as_str(), e.as_str(), now),
    }
}

/// The end of a delivery to a new chat, by whether the target could be bound to it.
pub open spec fn on_bound(
    v: VisitV,
    a: AttemptV,
    browser: JsonV,
    url: Text,
    error: Option<Text>,
    now: Text,
) -> PlanV {
    match error {
        Some(e) => delivered_end(v, a, browser, true, Seq::empty(), e, now),
        None => delivered_end(v, a, browser, false, url, Seq::empty(), now),
    }
}

/// The end of a delivery to a new chat.
pub fn after_bound(
    visit: &Visit,
    a: Attempt,
    browser: Json,
    url: &str,
    bound: Result<(), String>,
    now: &str,
) -> (r: Plan)
    ensures
        r@ == on_bound(visit@, a@, browser@, url@, failure(bound), now@),
{
    let none = String::new();
    match bound {
        Ok(_) => finish(visit, &a, browser, false, url, none.as_str(), now),
        Err(e) => finish(visit, &a, browser, true, none.as_str(), e.as_str(), now),
    }
}

} // verus!
