//! Deliveries left open by an earlier visit: new chats without an address, submissions without a
//! receipt, and drafts of an older kind.

use crate::delivery::attempt::{bind_new_chat_target, bind_patch, is_new_chat, url_of, with_prompt};
use crate::delivery::plan::{
    evidence, just, only, over, with_effect, Attempt, AttemptV, DeliveryFact, Effect, EffectV,
    FactV, Next, NextV, Outcome, Plan, PlanV, Receipt, ReceiptV, Submission, SubmissionV, Visit,
    VisitV,
};
use crate::delivery::prompt::{
    answered, browser_delivery_id, browser_prompt, build_browser_prompt, event_label,
    event_label_of, legacy_prompt, legacy_wmd_staged_prompt, needed, required, ApiError, ApiErrorV,
    BootstrapSeed, BOOTSTRAP_SEED_VERSION,
};
use crate::json::{alike, or_empty, Json, JsonMap, JsonV, ObjV};
use crate::json_access::copy_all;
use crate::lists::{lemma_views, lemma_views_push, views};
use crate::text::{has_prefix, opt_text, starts_with, Text};
use vstd::prelude::*;

verus! {

broadcast use {lemma_views, lemma_views_push};

/// What is recorded of a new chat once its address is known, where the target remembers the
/// delivery that opened it.
pub open spec fn resolved_fact(target: JsonV, url: Text) -> Option<FactV> {
    match (
        target.at("last_delivery_turn_id"@).text(),
        target.at("last_delivery_id"@).text(),
        target.at("last_delivery_event_ids"@).list(),
    ) {
        (Some(turn_id), Some(delivery_id), Some(ids)) => Some(
            FactV {
                turn_id,
                event_ids: JsonV::Arr(ids),
                delivery_id,
                state: "bound"@,
                detail: "conversation_url_bound"@,
                extra: map![
                    "target_url"@ => JsonV::Str(or_empty(target.at("url"@).text())),
                    "bound_conversation_url"@ => JsonV::Str(url),
                    "resolved_pending_new_chat"@ => JsonV::Bool(true),
                ],
            },
        ),
        _ => None,
    }
}

/// The step after the conversation of a pending new chat was looked for: without an address the
/// chat stays pending; with one, the target is bound to it.
pub open spec fn on_pending_url(target: JsonV, url: Option<Text>, now: Text) -> PlanV {
    match url {
        None => PlanV {
            effects: seq![
                EffectV::Patch(
                    map![
                        "last_delivery_status"@ => JsonV::Str("pending_new_chat_bind"@),
                        "last_error"@ => JsonV::Str("conversation_url_pending"@),
                    ],
                ),
            ],
            next: NextV::Done(Outcome::Ambiguous),
        },
        Some(u) => {
            let bound = seq![
                EffectV::Patch(bind_patch(u, now)),
                EffectV::Patch(
                    map![
                        "last_delivery_status"@ => JsonV::Str("submitted"@),
                        "last_error"@ => JsonV::Str(Seq::empty()),
                    ],
                ),
            ];
            PlanV {
                effects: match resolved_fact(target, u) {
                    Some(f) => bound.push(EffectV::Record(f)),
                    None => bound,
                },
                next: NextV::Done(Outcome::Submitted),
            }
        },
    }
}

fn resolved_fact_of(target: &Json, url: &str) -> (r: Option<DeliveryFact>)
    ensures
        match r {
            Some(f) => resolved_fact(target@, url@) == Some(f@),
            None => resolved_fact(target@, url@) is None,
        },
{
    let turn_id = match target.text("last_delivery_turn_id") {
        Some(t) => t.to_owned(),
        None => {
            return None;
        },
    };
    let delivery_id = match target.text("last_delivery_id") {
        Some(t) => t.to_owned(),
        None => {
            return None;
        },
    };
    let ids = match target.list("last_delivery_event_ids") {
        Some(v) => copy_all(v),
        None => {
            return None;
        },
    };
    let mut m = JsonMap::new();
    m.put("target_url", Json::Str(target.text_or_empty("url")));
    m.put("bound_conversation_url", Json::str(url));
    m.put("resolved_pending_new_chat", Json::Bool(true));
    Some(
        DeliveryFact {
            turn_id,
            event_ids: Json::Arr(ids),
            delivery_id,
            state: "bound".to_owned(),
            detail: "conversation_url_bound".to_owned(),
            extra: m,
        },
    )
}

/// The step after the conversation of a pending new chat was looked for.
pub fn resolve_pending_new_chat(target: &Json, url: Option<String>, now: &str) -> (r: Plan)
    ensures
        r@ == on_pending_url(target@, opt_text(url), now@),
{
    let mut m = JsonMap::new();
    match url {
        None => {
            m.put("last_delivery_status", Json::str("pending_new_chat_bind"));
            m.put("last_error", Json::str("conversation_url_pending"));
            with_effect(Effect::Patch(m), Next::Done(Outcome::Ambiguous))
        },
        Some(u) => {
            m.put("last_delivery_status", Json::str("submitted"));
            m.put("last_error", Json::Str(String::new()));
            let mut effects: Vec<Effect> = Vec::new();
            effects.push(Effect::Patch(bind_new_chat_target(u.as_str(), now)));
            effects.push(Effect::Patch(m));
            match resolved_fact_of(target, u.as_str()) {
                Some(f) => {
                    effects.push(Effect::Record(f));
                },
                None => {},
            }
            proof {
                assert(views(effects@) =~= on_pending_url(target@, Some(u@), now@).effects);
            }
            Plan { effects, next: Next::Done(Outcome::Submitted) }
        },
    }
}

/// The arguments that recover the turn of the last delivery.
pub open spec fn recover_args(v: VisitV) -> ObjV {
    v.base_args.insert("event_ids"@, v.target.at("last_delivery_event_ids"@))
}

fn recover_args_of(visit: &Visit) -> (r: JsonMap)
    ensures
        r@ == recover_args(visit@),
{
    let mut m = visit.base_args.copy();
    m.put("event_ids", visit.target.at("last_delivery_event_ids"));
    m
}

/// Whether the last submission left only an unconfirmed echo.
pub open spec fn is_provisional(v: VisitV) -> bool {
    evidence(v.target.at("last_submission_evidence"@)) == JsonV::Str(
        "optimistic_echo_unconfirmed"@,
    )
}

/// How the search for a receipt goes on: with a step, or not at all.
pub enum Search {
    Step(Plan),
    NotFound,
}

/// The mathematical value of how the search for a receipt goes on.
pub enum SearchV {
    Step(PlanV),
    NotFound,
}

impl View for Search {
    type V = SearchV;

    open spec fn view(&self) -> SearchV {
        match self {
            Search::Step(p) => SearchV::Step(p@),
            Search::NotFound => SearchV::NotFound,
        }
    }
}

/// The start of the search for a receipt of an unverified submission: there must be evidence of
/// it, direct or provisional. `proven` says whether the stored evidence is direct.
pub open spec fn receipt_start(v: VisitV, proven: bool) -> SearchV {
    if !proven && !is_provisional(v) {
        SearchV::NotFound
    } else {
        match needed(v.target, "last_delivery_turn_id"@) {
            Err(e) => SearchV::Step(only(NextV::Fail(e))),
            Ok(_) => match needed(v.target, "last_delivery_id"@) {
                Err(e) => SearchV::Step(only(NextV::Fail(e))),
                Ok(_) => SearchV::Step(only(NextV::ReceiptTurn(recover_args(v)))),
            },
        }
    }
}

/// The start of the search for a receipt of an unverified submission.
pub fn recover_verified_ambiguous_submission(visit: &Visit, proven: bool) -> (r: Search)
    ensures
        r@ == receipt_start(visit@, proven),
{
    let stored = visit.target.at("last_submission_evidence");
    let provisional = stored.is("submission_evidence", "optimistic_echo_unconfirmed");
    if !proven && !provisional {
        return Search::NotFound;
    }
    if let Err(e) = required(&visit.target, "last_delivery_turn_id") {
        return Search::Step(just(Next::Fail(e)));
    }
    if let Err(e) = required(&visit.target, "last_delivery_id") {
        return Search::Step(just(Next::Fail(e)));
    }
    Search::Step(just(Next::ReceiptTurn(recover_args_of(visit))))
}

/// The receipt that is looked for, with the prompt that was sent.
pub open spec fn receipt_for(v: VisitV, turn: JsonV) -> Result<ReceiptV, ApiErrorV> {
    match needed(v.target, "last_delivery_turn_id"@) {
        Err(e) => Err(e),
        Ok(turn_id) => match needed(v.target, "last_delivery_id"@) {
            Err(e) => Err(e),
            Ok(delivery_id) => match browser_prompt(
                turn,
                v.target,
                url_of(v),
                v.actor_id,
                delivery_id,
                event_label(v.target, "last_delivery_event_ids"@),
            ) {
                Err(e) => Err(e),
                Ok((prompt, seed)) => Ok(
                    ReceiptV {
                        turn_id,
                        delivery_id,
                        prompt,
                        seed,
                        submission: v.target.at("last_submission_evidence"@),
                    },
                ),
            },
        },
    }
}

fn receipt_of(visit: &Visit, turn: &Json) -> (r: Result<Receipt, ApiError>)
    ensures
        answered(r) == receipt_for(visit@, turn@),
{
    let turn_id = required(&visit.target, "last_delivery_turn_id")?;
    let delivery_id = required(&visit.target, "last_delivery_id")?;
    let url = visit.target.text_or_empty("url");
    let label = event_label_of(&visit.target, "last_delivery_event_ids");
    let (prompt, seed) = build_browser_prompt(
        turn,
        &visit.target,
        url.as_str(),
        visit.actor_id.as_str(),
        delivery_id.as_str(),
        label.as_str(),
    )?;
    Ok(
        Receipt {
            turn_id,
            delivery_id,
            prompt,
            seed,
            submission: visit.target.at("last_submission_evidence"),
        },
    )
}

/// The step after the turn of a lost receipt was recovered. A provisional echo is looked for again
/// only on the page that sent it, which must be open at this very conversation; no page is opened
/// and nothing is sent for a receipt.
pub open spec fn on_receipt_turn(v: VisitV, recovered: JsonV, surface: JsonV) -> SearchV {
    match receipt_for(v, recovered.at("turn"@)) {
        Err(e) => SearchV::Step(only(NextV::Fail(e))),
        Ok(receipt) => if !is_provisional(v) {
            SearchV::Step(only(NextV::JudgeReceipt(receipt)))
        } else if surface.at("active"@) != JsonV::Bool(true) || !alike(
            surface.at("url"@),
            v.target.at("url"@),
        ) {
            SearchV::NotFound
        } else {
            SearchV::Step(only(NextV::InspectReceipt(receipt)))
        },
    }
}

/// The step after the turn of a lost receipt was recovered. `surface` is the page as it is now.
pub fn after_receipt_turn(visit: &Visit, recovered: &Json, surface: &Json) -> (r: Search)
    ensures
        r@ == on_receipt_turn(visit@, recovered@, surface@),
{
    let turn = recovered.at("turn");
    let receipt = match receipt_of(visit, &turn) {
        Ok(x) => x,
        Err(e) => {
            return Search::Step(just(Next::Fail(e)));
        },
    };
    let stored = visit.target.at("last_submission_evidence");
    if !stored.is("submission_evidence", "optimistic_echo_unconfirmed") {
        return Search::Step(just(Next::JudgeReceipt(receipt)));
    }
    let here = surface.at("url");
    let wanted = visit.target.at("url");
    if !surface.is_true("active") || !here.same(&wanted) {
        return Search::NotFound;
    }
    Search::Step(just(Next::InspectReceipt(receipt)))
}

/// A document with a member replaced; one that is no object becomes an object.
pub open spec fn with_member(v: JsonV, key: Text, x: JsonV) -> JsonV {
    match v {
        JsonV::Obj(m) => JsonV::Obj(m.insert(key, x)),
        _ => JsonV::Obj(map![key => x]),
    }
}

/// The step after the page was looked at again for the echo of the prompt.
pub open spec fn on_inspected(receipt: ReceiptV, current: JsonV) -> SearchV {
    let observed = current.at("observed"@);
    if observed.at("echo_found"@) != JsonV::Bool(true) {
        SearchV::NotFound
    } else {
        SearchV::Step(
            only(
                NextV::JudgeReceipt(
                    ReceiptV {
                        submission: with_member(receipt.submission, "observed"@, observed),
                        ..receipt
                    },
                ),
            ),
        )
    }
}

/// The step after the page was looked at again for the echo of the prompt.
pub fn after_inspected(receipt: Receipt, current: &Json) -> (r: Search)
    ensures
        r@ == on_inspected(receipt@, current@),
{
    let observed = current.at("observed");
    if !observed.is_true("echo_found") {
        return Search::NotFound;
    }
    let submission = match receipt.submission {
        Json::Obj(m) => {
            let mut m = m;
            m.put("observed", observed);
            Json::Obj(m)
        },
        _ => {
            let mut m = JsonMap::new();
            m.put("observed", observed);
            Json::Obj(m)
        },
    };
    Search::Step(
        just(
            Next::JudgeReceipt(
                Receipt {
                    turn_id: receipt.turn_id,
                    delivery_id: receipt.delivery_id,
                    prompt: receipt.prompt,
                    seed: receipt.seed,
                    submission,
                },
            ),
        ),
    )
}

/// The members that record a delivered bootstrap.
pub open spec fn seed_patch(digest: Text, url: Text, now: Text) -> ObjV {
    map![
        "bootstrap_seed_delivered_at"@ => JsonV::Str(now),
        "bootstrap_seed_version"@ => JsonV::Str(BOOTSTRAP_SEED_VERSION@),
        "bootstrap_seed_digest"@ => JsonV::Str(digest),
        "bootstrap_seed_conversation_url"@ => JsonV::Str(url),
    ]
}

/// The members that record a delivered bootstrap.
pub fn mark_bootstrap_seed_delivered(seed: &BootstrapSeed, url: &str, now: &str) -> (r: JsonMap)
    ensures
        r@ == seed_patch(seed@.digest, url@, now@),
{
    let mut m = JsonMap::new();
    m.put("bootstrap_seed_delivered_at", Json::str(now));
    m.put("bootstrap_seed_version", Json::str(BOOTSTRAP_SEED_VERSION));
    m.put("bootstrap_seed_digest", Json::str(seed.digest.as_str()));
    m.put("bootstrap_seed_conversation_url", Json::str(url));
    m
}

/// The evidence of a recovered submission.
pub open spec fn recovered_evidence(submission: JsonV, kind: Text) -> JsonV {
    match submission {
        JsonV::Obj(m) => JsonV::Obj(
            m.insert("submitted"@, JsonV::Bool(true)).insert(
                "submission_evidence"@,
                JsonV::Str(kind),
            ).insert("recovered_from"@, JsonV::Str("submission_ambiguous"@)),
        ),
        other => other,
    }
}

/// A list with one effect where there is one, else an empty one.
pub open spec fn one_if(b: bool, e: EffectV) -> Seq<EffectV> {
    if b {
        seq![e]
    } else {
        Seq::empty()
    }
}

/// The end of the search for a receipt: `kind` is the direct evidence, if it is one; `url` is the
/// conversation that the page was seen at, if it belongs to the target.
pub open spec fn on_judged(
    v: VisitV,
    receipt: ReceiptV,
    kind: Option<Text>,
    url: Option<Text>,
    now: Text,
) -> SearchV {
    match kind {
        None => SearchV::NotFound,
        Some(kind) => {
            let fresh = is_new_chat(v.target);
            let pending = fresh && url is None;
            let seeded = one_if(
                receipt.seed is Some,
                EffectV::Patch(
                    seed_patch(
                        receipt.seed->0.digest,
                        match url {
                            Some(u) => u,
                            None => url_of(v),
                        },
                        now,
                    ),
                ),
            );
            let bound = one_if(fresh && url is Some, EffectV::Patch(bind_patch(url->0, now)));
            let rest = seq![
                EffectV::Patch(
                    map![
                        "last_delivery_status"@ => JsonV::Str(
                            if pending {
                                "pending_new_chat_bind"@
                            } else {
                                "submitted"@
                            },
                        ),
                        "last_delivery_at"@ => JsonV::Str(now),
                        "last_submission_evidence"@ => recovered_evidence(
                            receipt.submission,
                            kind,
                        ),
                        "last_error"@ => JsonV::Str(
                            if pending {
                                "conversation_url_pending"@
                            } else {
                                Seq::empty()
                            },
                        ),
                    ],
                ),
                EffectV::Record(
                    FactV {
                        turn_id: receipt.turn_id,
                        event_ids: v.target.at("last_delivery_event_ids"@),
                        delivery_id: receipt.delivery_id,
                        state: "submitted"@,
                        detail: kind,
                        extra: map![
                            "target_url"@ => JsonV::Str(url_of(v)),
                            "recovered_from"@ => JsonV::Str("submission_ambiguous"@),
                        ],
                    },
                ),
                EffectV::Connector("submitted"@, receipt.turn_id, Seq::empty()),
            ];
            SearchV::Step(
                PlanV {
                    effects: seeded + bound + rest,
                    next: NextV::Done(Outcome::Submitted),
                },
            )
        },
    }
}

/// The end of the search for a receipt.
pub fn after_judged(
    visit: &Visit,
    receipt: Receipt,
    kind: Option<String>,
    url: Option<String>,
    now: &str,
) -> (r: Search)
    ensures
        r@ == on_judged(visit@, receipt@, opt_text(kind), opt_text(url), now@),
{
    let ghost before = receipt@;
    let kind = match kind {
        Some(k) => k,
        None => {
            return Search::NotFound;
        },
    };
    let fresh = visit.target.is("kind", "new_chat");
    let pending = fresh && url.is_none();
    let target_url = visit.target.text_or_empty("url");
    let mut effects: Vec<Effect> = Vec::new();
    if let Some(s) = &receipt.seed {
        let at = match &url {
            Some(u) => u.clone(),
            None => target_url.clone(),
        };
        effects.push(Effect::Patch(mark_bootstrap_seed_delivered(s, at.as_str(), now)));
    }
    if fresh {
        if let Some(u) = &url {
            effects.push(Effect::Patch(bind_new_chat_target(u.as_str(), now)));
        }
    }
    let shown = match receipt.submission {
        Json::Obj(m) => {
            let mut m = m;
            m.put("submitted", Json::Bool(true));
            m.put("submission_evidence", Json::str(kind.as_str()));
            m.put("recovered_from", Json::str("submission_ambiguous"));
            Json::Obj(m)
        },
        other => other,
    };
    let mut m = JsonMap::new();
    m.put(
        "last_delivery_status",
        Json::str(
            if pending {
                "pending_new_chat_bind"
            } else {
                "submitted"
            },
        ),
    );
    m.put("last_delivery_at", Json::str(now));
    m.put("last_submission_evidence", shown);
    m.put(
        "last_error",
        if pending {
            Json::str("conversation_url_pending")
        } else {
            Json::Str(String::new())
        },
    );
    let mut extra = JsonMap::new();
    extra.put("target_url", Json::Str(target_url));
    extra.put("recovered_from", Json::str("submission_ambiguous"));
    effects.push(Effect::Patch(m));
    effects.push(
        Effect::Record(
            DeliveryFact {
                turn_id: receipt.turn_id.clone(),
                event_ids: visit.target.at("last_delivery_event_ids"),
                delivery_id: receipt.delivery_id.clone(),
                state: "submitted".to_owned(),
                detail: kind.clone(),
                extra,
            },
        ),
    );
    effects.push(Effect::Connector("submitted".to_owned(), receipt.turn_id, String::new()));
    proof {
        let told = on_judged(visit@, before, Some(kind@), opt_text(url), now@)->Step_0;
        assert(views(effects@) =~= told.effects);
    }
    Search::Step(Plan { effects, next: Next::Done(Outcome::Submitted) })
}

/// Whether the target holds a delivery of an older kind that was never seen to be sent.
pub open spec fn legacy_pending(target: JsonV) -> bool {
    let status = target.at("last_delivery_status"@).text();
    &&& is_new_chat(target)
    &&& status == Some("submitted"@) || status == Some("pending_new_chat_bind"@)
    &&& target.at("last_delivery_id"@).text() matches Some(id) && has_prefix(id, "wmd_"@)
    &&& evidence(target.at("last_submission_evidence"@)).text() != Some("message_echo"@)
}

/// Whether the target holds a delivery of an older kind that was never seen to be sent.
pub fn is_legacy_pending_delivery(target: &Json) -> (r: bool)
    ensures
        r == legacy_pending(target@),
{
    let old_id = match target.text("last_delivery_id") {
        Some(id) => starts_with(id, "wmd_"),
        None => false,
    };
    let stored = target.at("last_submission_evidence");
    target.is("kind", "new_chat") && (target.is("last_delivery_status", "submitted") || target.is(
        "last_delivery_status",
        "pending_new_chat_bind",
    )) && old_id && !stored.is("submission_evidence", "message_echo")
}

/// The start of the recovery of an older delivery: its turn is asked for.
pub fn recover_legacy_pending_delivery(visit: &Visit) -> (r: Plan)
    ensures
        r@ == only(NextV::LegacyTurn(recover_args(visit@))),
{
    just(Next::LegacyTurn(recover_args_of(visit)))
}

/// The step after the turn of an older delivery was recovered.
pub open spec fn on_legacy_turn(v: VisitV, recovered: JsonV) -> PlanV {
    match legacy_prompt(recovered.at("turn"@)) {
        Err(e) => only(NextV::Fail(e)),
        Ok(draft) => match needed(v.target, "url"@) {
            Err(e) => only(NextV::Fail(e)),
            Ok(_) => only(NextV::InspectLegacy(recovered.at("turn"@), draft)),
        },
    }
}

/// The step after the turn of an older delivery was recovered.
pub fn after_legacy_turn(visit: &Visit, recovered: &Json) -> (r: Plan)
    ensures
        r@ == on_legacy_turn(visit@, recovered@),
{
    let turn = recovered.at("turn");
    let draft = match legacy_wmd_staged_prompt(&turn) {
        Ok(t) => t,
        Err(e) => {
            return just(Next::Fail(e));
        },
    };
    if let Err(e) = required(&visit.target, "url") {
        return just(Next::Fail(e));
    }
    just(Next::InspectLegacy(turn, draft))
}

/// The end of the recovery of an older delivery whose draft is gone.
pub open spec fn legacy_lost(v: VisitV, inspection: JsonV) -> PlanV {
    let message = "legacy browser submission cannot be verified automatically; the draft or page state no longer matches the committed turn"@;
    PlanV {
        effects: seq![
            EffectV::Patch(
                map![
                    "last_delivery_status"@ => JsonV::Str("legacy_submission_unverified"@),
                    "last_submission_evidence"@ => inspection,
                    "last_error"@ => JsonV::Str(message),
                ],
            ),
            EffectV::Connector(
                "ambiguous"@,
                or_empty(v.target.at("last_delivery_turn_id"@).text()),
                message,
            ),
        ],
        next: NextV::Done(Outcome::Ambiguous),
    }
}

/// The members that mark the target as submitting an older delivery.
pub open spec fn legacy_mark(v: VisitV, a: AttemptV, now: Text) -> ObjV {
    map![
        "last_delivery_id"@ => JsonV::Str(a.delivery_id),
        "last_delivery_turn_id"@ => JsonV::Str(a.turn_id),
        "last_delivery_event_ids"@ => v.target.at("last_delivery_event_ids"@),
        "last_delivery_status"@ => JsonV::Str("legacy_recovery_submitting"@),
        "last_delivery_started_at"@ => JsonV::Str(now),
        "last_error"@ => JsonV::Str(Seq::empty()),
    ]
}

/// The step after the page was looked at for the draft of an older delivery.
pub open spec fn on_legacy_inspected(v: VisitV, turn: JsonV, inspection: JsonV, now: Text) -> PlanV {
    if inspection.at("recoverable"@) != JsonV::Bool(true) {
        legacy_lost(v, inspection)
    } else {
        match needed(turn, "turn_id"@) {
            Err(e) => only(NextV::Fail(e)),
            Ok(turn_id) => {
                let a = crate::delivery::attempt::reserved(v, turn, turn_id);
                match browser_prompt(
                    a.turn,
                    v.target,
                    url_of(v),
                    v.actor_id,
                    a.delivery_id,
                    event_label(a.turn, "event_ids"@),
                ) {
                    Err(e) => only(NextV::Fail(e)),
                    Ok((prompt, seed)) => {
                        let b = AttemptV { prompt, seed, ..a };
                        only(NextV::MarkLegacy(b, legacy_mark(v, b, now)))
                    },
                }
            },
        }
    }
}

/// The step after the page was looked at for the draft of an older delivery.
pub fn after_legacy_inspected(visit: &Visit, turn: Json, inspection: Json, now: &str) -> (r: Plan)
    ensures
        r@ == on_legacy_inspected(visit@, turn@, inspection@, now@),
{
    if !inspection.is_true("recoverable") {
        let message =
            "legacy browser submission cannot be verified automatically; the draft or page state no longer matches the committed turn";
        let mut m = JsonMap::new();
        m.put("last_delivery_status", Json::str("legacy_submission_unverified"));
        m.put("last_submission_evidence", inspection);
        m.put("last_error", Json::str(message));
        let turn_id = visit.target.text_or_empty("last_delivery_turn_id");
        let mut effects: Vec<Effect> = Vec::new();
        effects.push(Effect::Patch(m));
        effects.push(Effect::Connector("ambiguous".to_owned(), turn_id, message.to_owned()));
        proof {
            assert(views(effects@) =~= legacy_lost(visit@, inspection@).effects);
        }
        return Plan { effects, next: Next::Done(Outcome::Ambiguous) };
    }
    let turn_id = match required(&turn, "turn_id") {
        Ok(t) => t,
        Err(e) => {
            return just(Next::Fail(e));
        },
    };
    let delivery_id = browser_delivery_id(visit.actor_id.as_str(), turn_id.as_str());
    let event_ids = turn.at("event_ids");
    let a = Attempt {
        turn_id,
        event_ids,
        delivery_id,
        turn,
        prompt: String::new(),
        seed: None,
    };
    let b = match with_prompt(visit, a) {
        Ok(b) => b,
        Err(e) => {
            return just(Next::Fail(e));
        },
    };
    let mut m = JsonMap::new();
    m.put("last_delivery_id", Json::str(b.delivery_id.as_str()));
    m.put("last_delivery_turn_id", Json::str(b.turn_id.as_str()));
    m.put("last_delivery_event_ids", visit.target.at("last_delivery_event_ids"));
    m.put("last_delivery_status", Json::str("legacy_recovery_submitting"));
    m.put("last_delivery_started_at", Json::str(now));
    m.put("last_error", Json::Str(String::new()));
    just(Next::MarkLegacy(b, m))
}

/// The step after the target was marked as submitting an older delivery, or was found to have
/// changed.
pub open spec fn on_legacy_marked(a: AttemptV, marked: bool) -> PlanV {
    if marked {
        only(NextV::SubmitLegacy(a))
    } else {
        over(Outcome::Idle)
    }
}

/// The step after the target was marked as submitting an older delivery.
pub fn after_legacy_marked(a: Attempt, marked: bool) -> (r: Plan)
    ensures
        r@ == on_legacy_marked(a@, marked),
{
    if marked {
        just(Next::SubmitLegacy(a))
    } else {
        just(Next::Done(Outcome::Idle))
    }
}

/// The step after an older delivery was submitted.
pub open spec fn on_legacy_submission(v: VisitV, a: AttemptV, s: SubmissionV, now: Text) -> PlanV {
    match s {
        SubmissionV::Verified(browser) => PlanV {
            effects: one_if(
                a.seed is Some,
                EffectV::Patch(seed_patch(a.seed->0.digest, url_of(v), now)),
            ),
            next: NextV::LegacyConversation(a, browser),
        },
        SubmissionV::Deferred(browser) => PlanV {
            effects: seq![
                EffectV::Patch(
                    map![
                        "last_delivery_status"@ => JsonV::Str("legacy_submission_unverified"@),
                        "last_submission_evidence"@ => browser,
                        "last_error"@ => JsonV::Str(
                            "legacy delivery was safely restaged, but ChatGPT did not expose an enabled Send control"@,
                        ),
                    ],
                ),
            ],
            next: NextV::Done(Outcome::Deferred),
        },
        SubmissionV::Ambiguous(browser) => {
            let message = "legacy recovery attempted submission but could not verify whether ChatGPT accepted it; automatic redelivery is paused"@;
            PlanV {
                effects: seq![
                    EffectV::Patch(
                        map![
                            "last_delivery_status"@ => JsonV::Str("submission_ambiguous"@),
                            "last_submission_evidence"@ => browser,
                            "last_error"@ => JsonV::Str(message),
                            "last_delivery_at"@ => JsonV::Str(now),
                        ],
                    ),
                    EffectV::Connector("ambiguous"@, a.turn_id, message),
                ],
                next: NextV::Done(Outcome::Ambiguous),
            }
        },
        SubmissionV::Failed(error) => PlanV {
            effects: seq![
                EffectV::Patch(
                    map![
                        "last_delivery_status"@ => JsonV::Str("failed"@),
                        "last_error"@ => JsonV::Str(error),
                    ],
                ),
            ],
            next: NextV::Fail(
                ApiErrorV::Unavailable("web_model_legacy_recovery_failed"@, error),
            ),
        },
    }
}

/// The step after an older delivery was submitted.
pub fn after_legacy_submission(visit: &Visit, a: Attempt, s: Submission, now: &str) -> (r: Plan)
    ensures
        r@ == on_legacy_submission(visit@, a@, s@, now@),
{
    let mut m = JsonMap::new();
    let mut effects: Vec<Effect> = Vec::new();
    match s {
        Submission::Verified(browser) => {
            if let Some(seed) = &a.seed {
                let url = visit.target.text_or_empty("url");
                effects.push(Effect::Patch(mark_bootstrap_seed_delivered(seed, url.as_str(), now)));
            }
            proof {
                assert(views(effects@) =~= one_if(
                    a@.seed is Some,
                    EffectV::Patch(seed_patch(a@.seed->0.digest, url_of(visit@), now@)),
                ));
            }
            Plan { effects, next: Next::LegacyConversation(a, browser) }
        },
        Submission::Deferred(browser) => {
            m.put("last_delivery_status", Json::str("legacy_submission_unverified"));
            m.put("last_submission_evidence", browser);
            m.put(
                "last_error",
                Json::str(
                    "legacy delivery was safely restaged, but ChatGPT did not expose an enabled Send control",
                ),
            );
            with_effect(Effect::Patch(m), Next::Done(Outcome::Deferred))
        },
        Submission::Ambiguous(browser) => {
            let message =
                "legacy recovery attempted submission but could not verify whether ChatGPT accepted it; automatic redelivery is paused";
            m.put("last_delivery_status", Json::str("submission_ambiguous"));
            m.put("last_submission_evidence", browser);
            m.put("last_error", Json::str(message));
            m.put("last_delivery_at", Json::str(now));
            effects.push(Effect::Patch(m));
            effects.push(
                Effect::Connector("ambiguous".to_owned(), a.turn_id.clone(), message.to_owned()),
            );
            proof {
                assert(views(effects@) =~= on_legacy_submission(
                    visit@,
                    a@,
                    SubmissionV::Ambiguous(browser@),
                    now@,
                ).effects);
            }
            Plan { effects, next: Next::Done(Outcome::Ambiguous) }
        },
        Submission::Failed(error) => {
            m.put("last_delivery_status", Json::str("failed"));
            m.put("last_error", Json::str(error.as_str()));
            with_effect(
                Effect::Patch(m),
                Next::Fail(
                    ApiError::Unavailable("web_model_legacy_recovery_failed".to_owned(), error),
                ),
            )
        },
    }
}

/// The end of the recovery of an older delivery, by whether its conversation has an address.
pub open spec fn on_legacy_conversation(
    a: AttemptV,
    browser: JsonV,
    url: Option<Text>,
    now: Text,
) -> PlanV {
    let pending = url is None;
    PlanV {
        effects: one_if(!pending, EffectV::Patch(bind_patch(url->0, now))) + seq![
            EffectV::Patch(
                map![
                    "last_delivery_status"@ => JsonV::Str(
                        if pending {
                            "pending_new_chat_bind"@
                        } else {
                            "submitted"@
                        },
                    ),
                    "last_delivery_at"@ => JsonV::Str(now),
                    "last_submission_evidence"@ => browser,
                    "last_error"@ => JsonV::Str(
                        if pending {
                            "conversation_url_pending"@
                        } else {
                            Seq::empty()
                        },
                    ),
                ],
            ),
            EffectV::Connector("submitted"@, a.turn_id, Seq::empty()),
        ],
        next: NextV::Done(Outcome::Submitted),
    }
}

/// The end of the recovery of an older delivery.
pub fn after_legacy_conversation(a: &Attempt, browser: Json, url: Option<String>, now: &str) -> (r:
    Plan)
    ensures
        r@ == on_legacy_conversation(a@, browser@, opt_text(url), now@),
{
    let pending = url.is_none();
    let mut effects: Vec<Effect> = Vec::new();
    if let Some(u) = &url {
        effects.push(Effect::Patch(bind_new_chat_target(u.as_str(), now)));
    }
    let mut m = JsonMap::new();
    m.put(
        "last_delivery_status",
        Json::str(
            if pending {
                "pending_new_chat_bind"
            } else {
                "submitted"
            },
        ),
    );
    m.put("last_delivery_at", Json::str(now));
    m.put("last_submission_evidence", browser);
    m.put(
        "last_error",
        if pending {
            Json::str("conversation_url_pending")
        } else {
            Json::Str(String::new())
        },
    );
    effects.push(Effect::Patch(m));
    effects.push(Effect::Connector("submitted".to_owned(), a.turn_id.clone(), String::new()));
    proof {
        assert(views(effects@) =~= on_legacy_conversation(
            a@,
            browser@,
            opt_text(url),
            now@,
        ).effects);
    }
    Plan { effects, next: Next::Done(Outcome::Submitted) }
}

} // verus!
