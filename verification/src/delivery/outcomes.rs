//! What a delivery comes to, told of the target and of the recorded facts themselves: what the
//! target holds once the effects of a step are carried out in order, and what is recorded beside.

use crate::delivery::attempt::{
    delivered_end, dispatch_fact, dispatch_patch, on_bound, on_completed, on_conversation, on_marked,
    on_open, on_settled, on_surface, on_wait, unverified_end,
};
use crate::delivery::plan::{
    AttemptV, EffectV, FactV, NextV, Outcome, PlanV, ReceiptV, SubmissionV, VisitV,
};
use crate::delivery::recovery::{
    legacy_pending, on_inspected, on_judged, on_legacy_conversation, on_legacy_inspected,
    on_legacy_marked, on_legacy_submission, on_pending_url, on_receipt_turn, receipt_start, SearchV,
};
use crate::delivery::prompt::{
    browser_prompt, delivery_id_text, event_label, legacy_line, legacy_prompt, seed_digest, seed_text,
};
use crate::delivery::route::{
    all_settled, is_settled, ledger_state, on_legacy_url, on_probe, on_snapshot, on_start,
    on_statuses,
};
use crate::delivery::visit::{address_pending, at_end, may_begin};
use crate::delivery::words::lemma_statuses;
use crate::json::{alike, JsonV};
use crate::lists::some_match;
use crate::text::{is_blank, occurs, Text};
use crate::time::Instant;
use vstd::prelude::*;

verus! {

/// The members of a target and of a fact differ.
pub(crate) proof fn lemma_members_differ()
    ensures
        "last_delivery_id"@.len() == 16,
        "last_delivery_turn_id"@.len() == 21,
        "last_delivery_event_ids"@.len() == 23,
        "last_delivery_status"@.len() == 20,
        "last_delivery_started_at"@.len() == 24,
        "last_delivery_at"@.len() == 16,
        "last_delivery_reconcile_attempts"@.len() == 32,
        "last_submission_evidence"@.len() == 24,
        "last_error"@.len() == 10,
        "bootstrap_seed_delivered_at"@.len() == 27,
        "bootstrap_seed_version"@.len() == 22,
        "bootstrap_seed_digest"@.len() == 21,
        "bootstrap_seed_conversation_url"@.len() == 31,
        "state"@.len() == 5,
        "kind"@.len() == 4,
        "url"@.len() == 3,
        "saved_at"@.len() == 8,
        "bound_at"@.len() == 8,
        "next_delivery"@.len() == 13,
        "submitted_at"@.len() == 12,
        "delivery_id"@.len() == 11,
        "target_url"@.len() == 10,
        "bound_conversation_url"@.len() == 22,
        "resolved_pending_new_chat"@.len() == 25,
        "pending_conversation_url"@.len() == 24,
        "auto_bind_new_chat"@.len() == 18,
        "recovered_from"@.len() == 14,
        "submitted"@.len() == 9,
        "submission_evidence"@.len() == 19,
        "error"@.len() == 5,
        "last_delivery_id"@[14] == 'i',
        "last_delivery_at"@[14] == 'a',
        "last_delivery_turn_id"@[0] == 'l',
        "bootstrap_seed_digest"@[0] == 'b',
        "last_delivery_started_at"@[5] == 'd',
        "last_submission_evidence"@[5] == 's',
        "last_delivery_started_at"@[0] == 'l',
        "pending_conversation_url"@[0] == 'p',
        "last_submission_evidence"@[0] == 'l',
        "last_error"@[0] == 'l',
        "target_url"@[0] == 't',
        "bootstrap_seed_version"@[2] == 'o',
        "bound_conversation_url"@[2] == 'u',
        "state"@[0] == 's',
        "error"@[0] == 'e',
        "saved_at"@[0] == 's',
        "bound_at"@[0] == 'b',
{
    reveal_strlit("last_delivery_id");
    reveal_strlit("last_delivery_turn_id");
    reveal_strlit("last_delivery_event_ids");
    reveal_strlit("last_delivery_status");
    reveal_strlit("last_delivery_started_at");
    reveal_strlit("last_delivery_at");
    reveal_strlit("last_delivery_reconcile_attempts");
    reveal_strlit("last_submission_evidence");
    reveal_strlit("last_error");
    reveal_strlit("bootstrap_seed_delivered_at");
    reveal_strlit("bootstrap_seed_version");
    reveal_strlit("bootstrap_seed_digest");
    reveal_strlit("bootstrap_seed_conversation_url");
    reveal_strlit("state");
    reveal_strlit("kind");
    reveal_strlit("url");
    reveal_strlit("saved_at");
    reveal_strlit("bound_at");
    reveal_strlit("next_delivery");
    reveal_strlit("submitted_at");
    reveal_strlit("delivery_id");
    reveal_strlit("target_url");
    reveal_strlit("bound_conversation_url");
    reveal_strlit("resolved_pending_new_chat");
    reveal_strlit("pending_conversation_url");
    reveal_strlit("auto_bind_new_chat");
    reveal_strlit("recovered_from");
    reveal_strlit("submitted");
    reveal_strlit("submission_evidence");
    reveal_strlit("error");
}

/// A member of the target once the first of some effects are carried out in order: the last patch
/// that writes it counts.
pub open spec fn member_behind(target: JsonV, effects: Seq<EffectV>, n: nat, key: Text) -> JsonV
    decreases n,
{
    if n == 0 {
        target.at(key)
    } else {
        match effects[n - 1] {
            EffectV::Patch(m) => if m.contains_key(key) {
                m[key]
            } else {
                member_behind(target, effects, (n - 1) as nat, key)
            },
            _ => member_behind(target, effects, (n - 1) as nat, key),
        }
    }
}

/// A member of the target once effects are carried out in order.
pub open spec fn member_after(target: JsonV, effects: Seq<EffectV>, key: Text) -> JsonV {
    member_behind(target, effects, effects.len(), key)
}

/// The facts that the first of some effects record, in order.
pub open spec fn recorded_behind(effects: Seq<EffectV>, n: nat) -> Seq<FactV>
    decreases n,
{
    if n == 0 {
        Seq::empty()
    } else {
        match effects[n - 1] {
            EffectV::Record(f) => recorded_behind(effects, (n - 1) as nat).push(f),
            _ => recorded_behind(effects, (n - 1) as nat),
        }
    }
}

/// The facts that effects record, in order.
pub open spec fn recorded(effects: Seq<EffectV>) -> Seq<FactV> {
    recorded_behind(effects, effects.len())
}

/// Whether the target is bound to the conversation at an address once effects are carried out.
pub open spec fn is_bound_after(target: JsonV, effects: Seq<EffectV>, url: Text) -> bool {
    &&& member_after(target, effects, "kind"@) == JsonV::Str("existing_chat"@)
    &&& member_after(target, effects, "state"@) == JsonV::Str("bound_existing_chat"@)
    &&& member_after(target, effects, "url"@) == JsonV::Str(url)
    &&& member_after(target, effects, "bootstrap_seed_conversation_url"@) == JsonV::Str(url)
    &&& member_after(target, effects, "next_delivery"@) == JsonV::Str("existing_chat"@)
}

/// Whether effects leave the target where it is: bound or not, to the same address.
pub open spec fn stays_where_it_is(target: JsonV, effects: Seq<EffectV>) -> bool {
    &&& member_after(target, effects, "kind"@) == target.at("kind"@)
    &&& member_after(target, effects, "url"@) == target.at("url"@)
}

/// Whether the last delivery of the target has a status and an error once effects are carried out.
pub open spec fn is_told_after(
    target: JsonV,
    effects: Seq<EffectV>,
    status: Text,
    error: Text,
) -> bool {
    &&& member_after(target, effects, "last_delivery_status"@) == JsonV::Str(status)
    &&& member_after(target, effects, "last_error"@) == JsonV::Str(error)
}

/// Once the address of a pending new chat is found, the target is bound to it, and the fact that
/// is recorded of the last delivery names the same address; before that the target stays what it
/// is, and nothing is recorded.
pub proof fn a_found_conversation_is_the_bound_one(target: JsonV, url: Option<Text>, now: Text)
    ensures
        ({
            let p = on_pending_url(target, url, now);
            let facts = recorded(p.effects);
            match url {
                Some(u) => {
                    &&& is_bound_after(target, p.effects, u)
                    &&& member_after(target, p.effects, "bound_at"@) == JsonV::Str(now)
                    &&& is_told_after(target, p.effects, "submitted"@, Seq::empty())
                    &&& p.next == NextV::Done(Outcome::Submitted)
                    &&& match (
                        target.at("last_delivery_turn_id"@),
                        target.at("last_delivery_id"@),
                        target.at("last_delivery_event_ids"@),
                    ) {
                        (JsonV::Str(turn), JsonV::Str(delivery), JsonV::Arr(ids)) => {
                            &&& facts.len() == 1
                            &&& facts[0].state == "bound"@
                            &&& facts[0].turn_id == turn
                            &&& facts[0].delivery_id == delivery
                            &&& facts[0].event_ids == JsonV::Arr(ids)
                            &&& facts[0].extra.contains_key("bound_conversation_url"@)
                            &&& facts[0].extra["bound_conversation_url"@] == JsonV::Str(u)
                        },
                        _ => facts.len() == 0,
                    }
                },
                None => {
                    &&& stays_where_it_is(target, p.effects)
                    &&& is_told_after(
                        target,
                        p.effects,
                        "pending_new_chat_bind"@,
                        "conversation_url_pending"@,
                    )
                    &&& p.next == NextV::Done(Outcome::Ambiguous)
                    &&& facts.len() == 0
                },
            }
        }),
        forall|key: Text|
            key == "last_delivery_id"@ || key == "last_delivery_turn_id"@ || key
                == "last_delivery_event_ids"@ || key == "last_submission_evidence"@
                ==> #[trigger] member_after(target, on_pending_url(target, url, now).effects, key)
                == target.at(key),
{
    reveal_with_fuel(member_behind, 8);
    reveal_with_fuel(recorded_behind, 8);
    lemma_members_differ();
}

/// Whether effects note that the instructions of a session were delivered into a conversation.
pub open spec fn is_seeded_after(
    target: JsonV,
    effects: Seq<EffectV>,
    digest: Text,
    url: Text,
    now: Text,
) -> bool {
    &&& member_after(target, effects, "bootstrap_seed_delivered_at"@) == JsonV::Str(now)
    &&& member_after(target, effects, "bootstrap_seed_version"@) == JsonV::Str(
        "web-model-bootstrap-normal-system-prompt-v2"@,
    )
    &&& member_after(target, effects, "bootstrap_seed_digest"@) == JsonV::Str(digest)
    &&& member_after(target, effects, "bootstrap_seed_conversation_url"@) == JsonV::Str(url)
}

/// Whether the one fact that effects record is of a delivery, in a state.
pub open spec fn records_one(
    effects: Seq<EffectV>,
    turn_id: Text,
    event_ids: JsonV,
    delivery_id: Text,
    state: Text,
) -> bool {
    let facts = recorded(effects);
    &&& facts.len() == 1
    &&& facts[0].turn_id == turn_id
    &&& facts[0].event_ids == event_ids
    &&& facts[0].delivery_id == delivery_id
    &&& facts[0].state == state
}

/// The address in a target, or nothing.
pub open spec fn address(target: JsonV) -> Text {
    match target.at("url"@) {
        JsonV::Str(u) => u,
        _ => Seq::empty(),
    }
}

/// A receipt that is found settles the delivery that the target remembers as submitted, under its
/// own turn, events and id: a new chat whose address is known is bound to it, one whose address is
/// not known waits for it, and any other target stays where it is. Without a receipt nothing is
/// settled.
pub proof fn a_receipt_settles_its_delivery(
    v: VisitV,
    r: ReceiptV,
    kind: Option<Text>,
    url: Option<Text>,
    now: Text,
)
    ensures
        kind is None ==> on_judged(v, r, kind, url, now) is NotFound,
        kind is Some ==> on_judged(v, r, kind, url, now) is Step,
        on_judged(v, r, kind, url, now) matches SearchV::Step(p) ==> {
            let fresh = v.target.at("kind"@) == JsonV::Str("new_chat"@);
            &&& p.next == NextV::Done(Outcome::Submitted)
            &&& fresh && url is Some ==> is_bound_after(v.target, p.effects, url->0)
            &&& fresh && url is None ==> is_told_after(
                v.target,
                p.effects,
                "pending_new_chat_bind"@,
                "conversation_url_pending"@,
            )
            &&& !(fresh && url is None) ==> is_told_after(
                v.target,
                p.effects,
                "submitted"@,
                Seq::empty(),
            )
            &&& !(fresh && url is Some) ==> stays_where_it_is(v.target, p.effects)
            &&& records_one(
                p.effects,
                r.turn_id,
                v.target.at("last_delivery_event_ids"@),
                r.delivery_id,
                "submitted"@,
            )
            &&& r.seed is Some ==> is_seeded_after(
                v.target,
                p.effects,
                r.seed->0.digest,
                match url {
                    Some(u) => u,
                    None => address(v.target),
                },
                now,
            )
            &&& r.seed is None ==> member_after(v.target, p.effects, "bootstrap_seed_digest"@)
                == v.target.at("bootstrap_seed_digest"@)
            &&& r.submission is Obj ==> {
                let shown = member_after(v.target, p.effects, "last_submission_evidence"@);
                &&& shown.at("submitted"@) == JsonV::Bool(true)
                &&& shown.at("submission_evidence"@) == JsonV::Str(kind->0)
            }
        },
{
    reveal_with_fuel(member_behind, 8);
    reveal_with_fuel(recorded_behind, 8);
    lemma_members_differ();
}

/// An older delivery that was submitted again is bound to the conversation that it led to, or waits
/// for its address.
pub proof fn a_resubmitted_delivery_is_bound_where_it_led(
    target: JsonV,
    a: AttemptV,
    browser: JsonV,
    url: Option<Text>,
    now: Text,
)
    ensures
        ({
            let p = on_legacy_conversation(a, browser, url, now);
            &&& p.next == NextV::Done(Outcome::Submitted)
            &&& recorded(p.effects).len() == 0
            &&& member_after(target, p.effects, "last_submission_evidence"@) == browser
            &&& match url {
                Some(u) => is_bound_after(target, p.effects, u) && is_told_after(
                    target,
                    p.effects,
                    "submitted"@,
                    Seq::empty(),
                ),
                None => stays_where_it_is(target, p.effects) && is_told_after(
                    target,
                    p.effects,
                    "pending_new_chat_bind"@,
                    "conversation_url_pending"@,
                ),
            }
        }),
{
    reveal_with_fuel(member_behind, 8);
    reveal_with_fuel(recorded_behind, 8);
    lemma_members_differ();
}

/// How the resubmission of an older delivery went is told by the target: only a verified one goes
/// on to its conversation, an unverified one is ambiguous and is not sent again, and one that did
/// not go out is unverified or failed.
pub proof fn a_resubmission_is_told(v: VisitV, a: AttemptV, s: SubmissionV, now: Text)
    ensures
        ({
            let p = on_legacy_submission(v, a, s, now);
            let status = member_after(v.target, p.effects, "last_delivery_status"@);
            &&& stays_where_it_is(v.target, p.effects)
            &&& recorded(p.effects).len() == 0
            &&& match s {
                SubmissionV::Verified(browser) => p.next == NextV::LegacyConversation(a, browser),
                SubmissionV::Ambiguous(_) => p.next == NextV::Done(Outcome::Ambiguous) && status
                    == JsonV::Str("submission_ambiguous"@),
                SubmissionV::Deferred(_) => p.next == NextV::Done(Outcome::Deferred) && status
                    == JsonV::Str("legacy_submission_unverified"@),
                SubmissionV::Failed(_) => p.next is Fail && status == JsonV::Str("failed"@),
            }
            &&& s is Verified && a.seed is Some ==> is_seeded_after(
                v.target,
                p.effects,
                a.seed->0.digest,
                address(v.target),
                now,
            )
            &&& !(s is Verified && a.seed is Some) ==> member_after(
                v.target,
                p.effects,
                "bootstrap_seed_digest"@,
            ) == v.target.at("bootstrap_seed_digest"@)
        }),
{
    reveal_with_fuel(member_behind, 8);
    reveal_with_fuel(recorded_behind, 8);
    lemma_members_differ();
}

/// A new chat is bound to the conversation that its prompt led to.
pub proof fn a_new_chat_is_bound_where_it_led(
    v: VisitV,
    a: AttemptV,
    browser: JsonV,
    found: Result<Option<Text>, Text>,
    now: Text,
)
    ensures
        ({
            let p = on_conversation(v, a, browser, found, now);
            match found {
                Ok(Some(u)) => {
                    &&& p.effects.len() == 0
                    &&& p.next matches NextV::BindConversation(b, shown, url, m) && b == a && shown
                        == browser && url == u && is_bound_after(
                        v.target,
                        seq![EffectV::Patch(m)],
                        u,
                    )
                },
                Ok(None) => waits_for_its_address(v, a, p, "conversation_url_pending"@),
                Err(e) => waits_for_its_address(
                    v,
                    a,
                    p,
                    if e.len() > 0 {
                        e
                    } else {
                        "conversation_url_pending"@
                    },
                ),
            }
        }),
{
    reveal_with_fuel(member_behind, 8);
    lemma_members_differ();
    lemma_waits(v, a, browser, Seq::empty(), now);
    if let Err(e) = found {
        lemma_waits(v, a, browser, e, now);
    }
}

/// Whether a step leaves a new chat to be bound later.
pub open spec fn waits_for_its_address(v: VisitV, a: AttemptV, p: PlanV, error: Text) -> bool {
    &&& p.next == NextV::Done(Outcome::Submitted)
    &&& stays_where_it_is(v.target, p.effects)
    &&& is_told_after(v.target, p.effects, "pending_new_chat_bind"@, error)
    &&& member_after(v.target, p.effects, "state"@) == JsonV::Str("new_chat_submitted"@)
    &&& member_after(v.target, p.effects, "delivery_id"@) == JsonV::Str(a.delivery_id)
    &&& records_one(p.effects, a.turn_id, a.event_ids, a.delivery_id, "pending"@)
}

#[verifier::spinoff_prover]
proof fn lemma_waits(v: VisitV, a: AttemptV, browser: JsonV, error: Text, now: Text)
    ensures
        waits_for_its_address(
            v,
            a,
            delivered_end(v, a, browser, true, Seq::empty(), error, now),
            if error.len() > 0 {
                error
            } else {
                "conversation_url_pending"@
            },
        ),
{
    reveal_with_fuel(member_behind, 8);
    reveal_with_fuel(recorded_behind, 8);
    lemma_members_differ();
}

#[verifier::spinoff_prover]
proof fn lemma_delivered(v: VisitV, a: AttemptV, browser: JsonV, url: Text, now: Text)
    ensures
        ({
            let p = delivered_end(v, a, browser, false, url, Seq::empty(), now);
            &&& p.next == NextV::Done(Outcome::Submitted)
            &&& stays_where_it_is(v.target, p.effects)
            &&& is_told_after(v.target, p.effects, "submitted"@, Seq::empty())
            &&& url.len() == 0 ==> recorded(p.effects).len() == 0
            &&& url.len() > 0 ==> {
                &&& records_one(p.effects, a.turn_id, a.event_ids, a.delivery_id, "bound"@)
                &&& recorded(p.effects)[0].extra.contains_key("bound_conversation_url"@)
                &&& recorded(p.effects)[0].extra["bound_conversation_url"@] == JsonV::Str(url)
            }
        }),
{
    reveal_with_fuel(member_behind, 8);
    reveal_with_fuel(recorded_behind, 8);
    lemma_members_differ();
}

/// Once a new chat is bound its delivery is submitted, and the fact that is recorded names the
/// address; where it could not be bound it waits.
pub proof fn a_bound_chat_ends_its_delivery(
    v: VisitV,
    a: AttemptV,
    browser: JsonV,
    url: Text,
    error: Option<Text>,
    now: Text,
)
    ensures
        ({
            let p = on_bound(v, a, browser, url, error, now);
            match error {
                Some(e) => waits_for_its_address(
                    v,
                    a,
                    p,
                    if e.len() > 0 {
                        e
                    } else {
                        "conversation_url_pending"@
                    },
                ),
                None => {
                    &&& p.next == NextV::Done(Outcome::Submitted)
                    &&& stays_where_it_is(v.target, p.effects)
                    &&& is_told_after(v.target, p.effects, "submitted"@, Seq::empty())
                    &&& url.len() > 0 ==> {
                        &&& records_one(p.effects, a.turn_id, a.event_ids, a.delivery_id, "bound"@)
                        &&& recorded(p.effects)[0].extra.contains_key("bound_conversation_url"@)
                        &&& recorded(p.effects)[0].extra["bound_conversation_url"@] == JsonV::Str(
                            url,
                        )
                    }
                },
            }
        }),
{
    lemma_delivered(v, a, browser, url, now);
    if let Some(e) = error {
        lemma_waits(v, a, browser, e, now);
    }
}

/// A completed turn ends its delivery as submitted, unless it opened a new chat: then its
/// conversation is looked for. A turn that was not completed is left to be reconciled.
pub proof fn a_completed_turn_ends_its_delivery(
    v: VisitV,
    a: AttemptV,
    browser: JsonV,
    error: Option<Text>,
    now: Text,
)
    ensures
        ({
            let p = on_completed(v, a, browser, error, now);
            let fresh = v.target.at("kind"@) == JsonV::Str("new_chat"@);
            &&& recorded(p.effects).len() == 0
            &&& stays_where_it_is(v.target, p.effects)
            &&& error matches Some(e) ==> {
                &&& p.next == NextV::Done(Outcome::Ambiguous)
                &&& is_told_after(v.target, p.effects, "completion_ambiguous"@, e)
                &&& member_after(v.target, p.effects, "last_delivery_turn_id"@) == JsonV::Str(
                    a.turn_id,
                )
                &&& member_after(v.target, p.effects, "last_delivery_event_ids"@) == a.event_ids
            }
            &&& error is None && fresh ==> p.next == NextV::NewConversation(a, browser)
            &&& error is None && !fresh ==> p.next == NextV::Done(Outcome::Submitted)
                && is_told_after(v.target, p.effects, "submitted"@, Seq::empty())
        }),
{
    reveal_with_fuel(member_behind, 8);
    reveal_with_fuel(recorded_behind, 8);
    lemma_members_differ();
    lemma_delivered(v, a, browser, Seq::empty(), now);
}

/// Whether what a page shows asks for a person.
pub open spec fn asks_for_a_person(shown: JsonV) -> bool {
    let e = shown.at("submission_evidence"@);
    ||| e == JsonV::Str("not_sent_conversation_archived"@)
    ||| e == JsonV::Str("not_sent_rate_limited"@)
    ||| e == JsonV::Str("not_sent_access_denied"@)
    ||| e == JsonV::Str("not_sent_verification_required"@)
    ||| e == JsonV::Str("not_sent_login_required"@)
}

/// Whether what a page shows passes by itself.
pub open spec fn passes_by_itself(shown: JsonV) -> bool {
    let e = shown.at("submission_evidence"@);
    ||| e == JsonV::Str("not_sent_chat_busy"@)
    ||| e == JsonV::Str("not_sent_composer_occupied"@)
    ||| e == JsonV::Str("not_sent_composer_unavailable"@)
}

/// How a submission went is told by the target and by one fact of the attempt: a verified one is
/// submitted and its turn completed, an unverified one is ambiguous and its turn closed, and one
/// that did not go out failed and is left to be delivered again. The target stays where it is.
#[verifier::spinoff_prover]
pub proof fn a_submission_is_told(
    v: VisitV,
    a: AttemptV,
    s: SubmissionV,
    marker: Text,
    now: Text,
)
    ensures
        ({
            let p = on_settled(v, a, s, marker, now);
            let status = member_after(v.target, p.effects, "last_delivery_status"@);
            &&& stays_where_it_is(v.target, p.effects)
            &&& match s {
                SubmissionV::Verified(browser) => {
                    &&& p.next == NextV::Complete(a, browser)
                    &&& status == JsonV::Str("completion_ambiguous"@)
                    &&& remembers(v.target, p.effects, a)
                    &&& member_after(v.target, p.effects, "last_submission_evidence"@) == browser
                    &&& records_one(p.effects, a.turn_id, a.event_ids, a.delivery_id, "submitted"@)
                    &&& a.seed is Some ==> is_seeded_after(
                        v.target,
                        p.effects,
                        a.seed->0.digest,
                        address(v.target),
                        now,
                    )
                },
                SubmissionV::Ambiguous(browser) => {
                    &&& p.next matches NextV::CompleteUnverified(b, _) && b == a
                    &&& status == JsonV::Str("submission_ambiguous_completion_pending"@)
                    &&& remembers(v.target, p.effects, a)
                    &&& member_after(v.target, p.effects, "last_submission_evidence"@) == browser
                    &&& records_one(p.effects, a.turn_id, a.event_ids, a.delivery_id, "ambiguous"@)
                },
                SubmissionV::Deferred(browser) => {
                    &&& p.next == NextV::Done(
                        if asks_for_a_person(browser) {
                            Outcome::Stopped
                        } else if passes_by_itself(browser) {
                            Outcome::Idle
                        } else {
                            Outcome::Deferred
                        },
                    )
                    &&& status == JsonV::Str("deferred"@)
                    &&& member_after(v.target, p.effects, "last_submission_evidence"@) == browser
                    &&& records_one(p.effects, a.turn_id, a.event_ids, a.delivery_id, "failed"@)
                },
                SubmissionV::Failed(e) => {
                    let shown = member_after(v.target, p.effects, "last_submission_evidence"@);
                    &&& records_one(p.effects, a.turn_id, a.event_ids, a.delivery_id, "failed"@)
                    &&& is_told_after(
                        v.target,
                        p.effects,
                        if occurs(e, marker) {
                            "failed"@
                        } else {
                            "deferred"@
                        },
                        e,
                    )
                    &&& p.next == NextV::Done(
                        if occurs(e, marker) {
                            Outcome::Stopped
                        } else {
                            Outcome::Deferred
                        },
                    )
                    &&& shown.at("submitted"@) == JsonV::Bool(false)
                    &&& shown.at("submission_evidence"@) == JsonV::Str(
                        if occurs(e, marker) {
                            "bound_conversation_unavailable"@
                        } else {
                            "not_sent_before_dispatch"@
                        },
                    )
                },
            }
            &&& !(s is Verified && a.seed is Some) ==> member_after(
                v.target,
                p.effects,
                "bootstrap_seed_digest"@,
            ) == v.target.at("bootstrap_seed_digest"@)
        }),
{
    reveal_with_fuel(member_behind, 8);
    reveal_with_fuel(recorded_behind, 8);
    lemma_members_differ();
}

/// Whether the target remembers the turn and the events of an attempt once effects are carried out.
pub open spec fn remembers(target: JsonV, effects: Seq<EffectV>, a: AttemptV) -> bool {
    &&& member_after(target, effects, "last_delivery_turn_id"@) == JsonV::Str(a.turn_id)
    &&& member_after(target, effects, "last_delivery_event_ids"@) == a.event_ids
}

/// An unverified submission ends as ambiguous, whether its turn could be closed or not; it is never
/// told as submitted.
pub proof fn an_unverified_submission_stays_ambiguous(
    target: JsonV,
    a: AttemptV,
    message: Text,
    ok: bool,
    error: Text,
)
    ensures
        ({
            let p = unverified_end(a, message, ok, error);
            &&& p.next == NextV::Done(Outcome::Ambiguous)
            &&& recorded(p.effects).len() == 0
            &&& stays_where_it_is(target, p.effects)
            &&& is_told_after(
                target,
                p.effects,
                if ok {
                    "submission_ambiguous"@
                } else {
                    "submission_ambiguous_completion_pending"@
                },
                if error.len() == 0 {
                    message
                } else {
                    error
                },
            )
        }),
{
    reveal_with_fuel(member_behind, 8);
    reveal_with_fuel(recorded_behind, 8);
    lemma_members_differ();
}

/// Whether a text opens with another.
pub open spec fn opens_with(t: Text, start: Text) -> bool {
    t.len() >= start.len() && t.take(start.len() as int) == start
}

/// Whether the target notes that instructions with a digest were delivered at an address.
pub open spec fn is_seeded(target: JsonV, url: Text, digest: Text) -> bool {
    &&& target.at("bootstrap_seed_delivered_at"@) matches JsonV::Str(at) && at.len() > 0
    &&& target.at("bootstrap_seed_version"@) == JsonV::Str(
        "web-model-bootstrap-normal-system-prompt-v2"@,
    )
    &&& target.at("bootstrap_seed_digest"@) == JsonV::Str(digest)
    &&& target.at("bootstrap_seed_conversation_url"@) == JsonV::Str(url)
}

/// A prompt is made of any turn that has a text and instructions. It opens with the instructions
/// exactly where the target does not note that they were delivered at its address; then it names
/// its delivery, its events and its actor.
pub proof fn a_prompt_brings_its_instructions_once(
    turn: JsonV,
    target: JsonV,
    url: Text,
    actor_id: Text,
    delivery_id: Text,
    label: Text,
)
    ensures
        ({
            let r = browser_prompt(turn, target, url, actor_id, delivery_id, label);
            let head = "[cccc] Browser batch "@ + delivery_id + " events="@ + label + " actor="@
                + actor_id + "\n"@;
            &&& r is Ok <==> (turn.at("coalesced_text"@) matches JsonV::Str(t) && !is_blank(t)) && (
            turn.at("system_prompt"@) matches JsonV::Str(t) && !is_blank(t))
            &&& r matches Ok((t, Some(seed))) ==> {
                &&& !is_seeded(target, url, seed.digest)
                &&& opens_with(t, seed.text + "\n\n"@ + head)
                &&& seed.digest == seed_digest(seed.text)
                &&& exists|i: int|
                    0 <= i <= seed.text.len() - turn.at("system_prompt"@)->Str_0.len()
                        && #[trigger] seed.text.subrange(
                        i,
                        i + turn.at("system_prompt"@)->Str_0.len(),
                    ) == turn.at("system_prompt"@)->Str_0
            }
            &&& r matches Ok((t, None)) ==> {
                &&& opens_with(t, head)
                &&& exists|digest: Text| #[trigger] is_seeded(target, url, digest)
            }
        }),
{
    let r = browser_prompt(turn, target, url, actor_id, delivery_id, label);
    let head = "[cccc] Browser batch "@ + delivery_id + " events="@ + label + " actor="@ + actor_id
        + "\n"@;
    if let Ok((t, seed)) = r {
        let system = turn.at("system_prompt"@)->Str_0;
        if let Some(seed) = seed {
            assert(t.take((seed.text + "\n\n"@ + head).len() as int) =~= seed.text + "\n\n"@
                + head);
            let i = "[CCCC] Session bootstrap for this browser chat:\n\n"@.len() as int;
            assert(seed.text.subrange(i, i + system.len()) =~= system);
        } else {
            assert(t.take(head.len() as int) =~= head);
            assert(is_seeded(target, url, seed_digest(seed_text(system))));
        }
    }
}

/// A turn that is handed out is prepared before anything is sent: the attempt is of its turn and
/// its events, under an id of the actor and the turn, and so the target is marked.
pub proof fn a_turn_is_prepared_under_its_own_id(v: VisitV, wait: JsonV, now: Text)
    ensures
        ({
            let p = on_wait(v, wait, now);
            let turn = wait.at("turn"@);
            &&& p.effects.len() == 0
            &&& wait.at("status"@) != JsonV::Str("work_available"@) ==> p.next == NextV::Done(
                Outcome::Idle,
            )
            &&& wait.at("status"@) == JsonV::Str("work_available"@) ==> match turn.at("turn_id"@) {
                JsonV::Str(id) => if is_blank(id) {
                    p.next is Fail
                } else {
                    p.next matches NextV::MarkPreparing(a, m) && {
                        let marked = seq![EffectV::Patch(m)];
                        &&& a.turn_id == id
                        &&& a.turn == turn
                        &&& a.event_ids == turn.at("event_ids"@)
                        &&& opens_with(a.delivery_id, "webdelivery:"@ + v.actor_id + ":"@)
                        &&& remembers(v.target, marked, a)
                        &&& member_after(v.target, marked, "last_delivery_id"@) == JsonV::Str(
                            a.delivery_id,
                        )
                        &&& is_told_after(v.target, marked, "preparing"@, Seq::empty())
                        &&& member_after(v.target, marked, "last_submission_evidence"@)
                            == JsonV::Null
                        &&& stays_where_it_is(v.target, marked)
                    }
                },
                _ => p.next is Fail,
            }
        }),
{
    reveal_with_fuel(member_behind, 3);
    lemma_members_differ();
    let start = "webdelivery:"@ + v.actor_id + ":"@;
    if let JsonV::Str(id) = wait.at("turn"@).at("turn_id"@) {
        let d = delivery_id_text(v.actor_id, id);
        assert(d.take(start.len() as int) =~= start);
    }
}

/// What is sent is the attempt that was prepared, with the prompt of its own turn; an attempt whose
/// target was not marked, or whose browser did not open, is given up instead.
pub proof fn what_was_prepared_is_sent(
    v: VisitV,
    a: AttemptV,
    marked: bool,
    blocker: Option<JsonV>,
    error: Option<Text>,
)
    ensures
        is_sent_or_fails(v, a, on_surface(v, a, blocker).next),
        error is None ==> is_sent_or_fails(v, a, on_open(v, a, error).next),
        error is Some ==> is_given_up(v, a, on_open(v, a, error), error->0),
        !marked ==> is_given_up(
            v,
            a,
            on_marked(v, a, marked),
            "browser binding or target changed before preparation"@,
        ),
        marked ==> ({
            let n = on_marked(v, a, marked).next;
            let open = v.surface.at("active"@) == JsonV::Bool(true);
            &&& !open ==> n == NextV::Open(a)
            &&& open && v.manage_browser ==> n == NextV::ProbeSurface(a)
            &&& open && !v.manage_browser ==> is_sent_or_fails(v, a, n)
        }),
{
    reveal_with_fuel(member_behind, 4);
    reveal_with_fuel(recorded_behind, 4);
    lemma_members_differ();
}

/// Whether a step sends an attempt, or fails because its turn has no prompt.
pub open spec fn is_sent_or_fails(v: VisitV, a: AttemptV, next: NextV) -> bool {
    let made = browser_prompt(
        a.turn,
        v.target,
        address(v.target),
        v.actor_id,
        a.delivery_id,
        event_label(a.turn, "event_ids"@),
    );
    match made {
        Err(e) => next == NextV::Fail(e),
        Ok((prompt, seed)) => next matches NextV::Submit(b) && {
            &&& b.turn_id == a.turn_id
            &&& b.event_ids == a.event_ids
            &&& b.delivery_id == a.delivery_id
            &&& b.turn == a.turn
            &&& b.prompt == prompt
            &&& b.seed == seed
        },
    }
}

/// Whether a step gives an attempt up: it failed, and its message can be delivered again.
pub open spec fn is_given_up(v: VisitV, a: AttemptV, p: PlanV, error: Text) -> bool {
    &&& p.next == NextV::Done(Outcome::Deferred)
    &&& is_told_after(v.target, p.effects, "deferred"@, error)
    &&& stays_where_it_is(v.target, p.effects)
    &&& records_one(p.effects, a.turn_id, a.event_ids, a.delivery_id, "failed"@)
}

/// The status of the last delivery of a target.
pub open spec fn status_of(target: JsonV) -> JsonV {
    target.at("last_delivery_status"@)
}

/// Whether a target still has a delivery open: one that is prepared, under way or not reconciled,
/// or a new chat whose address is not known.
pub open spec fn has_open_delivery(target: JsonV) -> bool {
    let s = status_of(target);
    let fresh = target.at("kind"@) == JsonV::Str("new_chat"@);
    ||| s == JsonV::Str("preparing"@)
    ||| s == JsonV::Str("submitting"@)
    ||| s == JsonV::Str("legacy_recovery_submitting"@)
    ||| s == JsonV::Str("ambiguous"@)
    ||| s == JsonV::Str("completion_ambiguous"@)
    ||| s == JsonV::Str("submission_ambiguous_completion_pending"@)
    ||| s == JsonV::Str("completion_conflict"@)
    ||| fresh && (s == JsonV::Str("submission_ambiguous"@) || s == JsonV::Str("submitted"@) || s
        == JsonV::Str("pending_new_chat_bind"@))
}

/// A visit takes a turn only where no delivery is open, and only for a target with an address or a
/// new chat; it asks for the turn as the browser's.
pub proof fn a_turn_is_taken_when_nothing_is_open(v: VisitV, proven: bool, now: Text)
    ensures
        on_start(v, proven, now).next matches NextV::WaitTurn(args) ==> {
            &&& !has_open_delivery(v.target)
            &&& address(v.target).len() > 0 || v.target.at("kind"@) == JsonV::Str("new_chat"@)
            &&& args == v.base_args.insert("transport"@, JsonV::Str("web_model_browser"@))
        },
        !has_open_delivery(v.target) && address(v.target).len() > 0 && status_of(v.target)
            != JsonV::Str("deferred"@) && status_of(v.target) != JsonV::Str("submission_ambiguous"@)
            && v.surface.at("active"@) == JsonV::Bool(true) ==> on_start(v, proven, now).next
            is WaitTurn,
        status_of(v.target) == JsonV::Str("preparing"@) || status_of(v.target) == JsonV::Str(
            "submitting"@,
        ) ==> !(on_start(v, proven, now).next is WaitTurn) && !(on_start(v, proven, now).next
            is Reconcile) && !(on_start(v, proven, now).next is PendingUrl),
{
    lemma_statuses();
}

/// What a visit that was interrupted left behind is settled under its own turn, events and id: a
/// preparation is given up, a dispatch is ambiguous.
pub proof fn an_interrupted_delivery_is_settled_as_itself(
    v: VisitV,
    turn: Text,
    delivery: Text,
    proven: bool,
    now: Text,
)
    requires
        v.target.at("last_delivery_turn_id"@) == JsonV::Str(turn),
        v.target.at("last_delivery_id"@) == JsonV::Str(delivery),
        !is_blank(turn),
        !is_blank(delivery),
        v.surface.at("active"@) == JsonV::Bool(true),
    ensures
        ({
            let p = on_start(v, proven, now);
            let ids = v.target.at("last_delivery_event_ids"@);
            &&& status_of(v.target) == JsonV::Str("preparing"@) ==> {
                &&& p.next == NextV::Done(Outcome::Deferred)
                &&& member_after(v.target, p.effects, "last_delivery_status"@) == JsonV::Str(
                    "deferred"@,
                )
                &&& records_one(p.effects, turn, ids, delivery, "failed"@)
            }
            &&& status_of(v.target) == JsonV::Str("submitting"@) ==> {
                &&& p.next matches NextV::CompleteUnverified(a, _) && a.turn_id == turn
                    && a.event_ids == ids && a.delivery_id == delivery
                &&& member_after(v.target, p.effects, "last_delivery_status"@) == JsonV::Str(
                    "submission_ambiguous_completion_pending"@,
                )
                &&& records_one(p.effects, turn, ids, delivery, "ambiguous"@)
            }
        }),
{
    reveal_with_fuel(member_behind, 4);
    reveal_with_fuel(recorded_behind, 4);
    lemma_members_differ();
    lemma_statuses();
}

/// The state of an event for an actor, as the ledger tells it.
pub open spec fn told_state(statuses: JsonV, id: JsonV, actor_id: Text) -> JsonV {
    let of_event = statuses.at("statuses"@).at(
        match id {
            JsonV::Str(t) => t,
            _ => Seq::empty(),
        },
    );
    of_event.at("obligation_status"@).at(actor_id).at("delivery_state"@)
}

/// A delivery that was put off is over once every one of its events is accepted or ambiguous for
/// the actor: it is handled then, or ambiguous if one of them is. Otherwise the target is not told
/// so.
pub proof fn a_deferred_delivery_ends_with_its_events(
    v: VisitV,
    statuses: JsonV,
    ids: Seq<JsonV>,
    proven: bool,
    now: Text,
)
    requires
        v.target.at("last_delivery_event_ids"@) == JsonV::Arr(ids),
        status_of(v.target) == JsonV::Str("deferred"@),
    ensures
        ({
            let p = on_statuses(v, statuses, proven, now);
            let over = ids.len() > 0 && forall|i: int|
                0 <= i < ids.len() ==> {
                    let s = told_state(statuses, #[trigger] ids[i], v.actor_id);
                    s == JsonV::Str("accepted"@) || s == JsonV::Str("ambiguous"@)
                };
            let doubtful = exists|i: int|
                0 <= i < ids.len() && told_state(statuses, #[trigger] ids[i], v.actor_id)
                    == JsonV::Str("ambiguous"@);
            &&& over ==> p.effects.len() > 0 && (p.effects[0] matches EffectV::Patch(m)
                && m.contains_key("last_delivery_status"@) && m["last_delivery_status"@]
                == JsonV::Str(
                if doubtful {
                    "submission_ambiguous"@
                } else {
                    "handled"@
                },
            ))
            &&& !over ==> member_after(v.target, p.effects, "last_delivery_status"@)
                == JsonV::Str("deferred"@)
        }),
{
    reveal_with_fuel(member_behind, 4);
    lemma_members_differ();
    lemma_statuses();
    reveal_strlit("handled");
    let open = |id: JsonV| !is_settled(ledger_state(statuses, id, v.actor_id));
    let bad = |id: JsonV| ledger_state(statuses, id, v.actor_id) == JsonV::Str("ambiguous"@);
    assert forall|id: JsonV| #[trigger]
        told_state(statuses, id, v.actor_id) == ledger_state(statuses, id, v.actor_id) by {}
    if some_match(ids, open) {
        let k = choose|k: int| 0 <= k < ids.len() && open(#[trigger] ids[k]);
        let s = told_state(statuses, ids[k], v.actor_id);
        assert(!(s == JsonV::Str("accepted"@) || s == JsonV::Str("ambiguous"@)));
    } else {
        assert forall|i: int| 0 <= i < ids.len() implies {
            let s = told_state(statuses, #[trigger] ids[i], v.actor_id);
            s == JsonV::Str("accepted"@) || s == JsonV::Str("ambiguous"@)
        } by {
            assert(!open(ids[i]));
        }
    }
    if some_match(ids, bad) {
        let k = choose|k: int| 0 <= k < ids.len() && bad(#[trigger] ids[k]);
        assert(told_state(statuses, ids[k], v.actor_id) == JsonV::Str("ambiguous"@));
    } else {
        assert forall|i: int| 0 <= i < ids.len() implies told_state(
            statuses,
            #[trigger] ids[i],
            v.actor_id,
        ) != JsonV::Str("ambiguous"@) by {
            assert(!bad(ids[i]));
        }
    }
}

/// A blocked page ends the visit without a word to the ledger: it stops where a person is asked
/// for, and is idle otherwise; a page that is free goes on as the target tells.
pub proof fn a_blocked_page_ends_the_visit(
    v: VisitV,
    blocked: Option<JsonV>,
    proven: bool,
    now: Text,
)
    ensures
        blocked matches Some(b) ==> {
            let p = on_probe(v, blocked, proven, now);
            &&& p.next == NextV::Done(
                if asks_for_a_person(b) {
                    Outcome::Stopped
                } else {
                    Outcome::Idle
                },
            )
            &&& recorded(p.effects).len() == 0
            &&& stays_where_it_is(v.target, p.effects)
            &&& member_after(v.target, p.effects, "last_delivery_status"@) == status_of(v.target)
            &&& p.effects.len() > 0 && p.effects[0] == EffectV::Hold(b)
        },
{
    reveal_with_fuel(member_behind, 6);
    reveal_with_fuel(recorded_behind, 6);
    lemma_members_differ();
}

/// Behind a reconciled delivery the visit goes on only under the same owner: a new chat is looked
/// for, an ambiguous delivery makes room for the next turn, and any other is submitted.
pub proof fn a_reconciled_delivery_goes_on(v: VisitV, same_owner: bool, target: JsonV)
    ensures
        ({
            let p = on_snapshot(v, same_owner, target);
            let fresh = target.at("kind"@) == JsonV::Str("new_chat"@);
            &&& p.effects.len() == 0
            &&& !same_owner ==> p.next == NextV::Done(Outcome::Idle)
            &&& same_owner && fresh ==> p.next == NextV::PendingUrl(target)
            &&& same_owner && !fresh && status_of(target) != JsonV::Str("submission_ambiguous"@)
                ==> p.next == NextV::Done(Outcome::Submitted)
            &&& same_owner && !fresh && status_of(target) == JsonV::Str("submission_ambiguous"@)
                ==> p.next is WaitTurn || p.next == NextV::PendingUrl(v.target)
        }),
{
}

/// Right before a prompt is sent, the delivery is recorded as being submitted, under the turn, the
/// events and the id of the attempt; where the actor may not be delivered to any more, nothing is.
pub proof fn a_dispatch_is_recorded_before_it_is_made(v: VisitV, a: AttemptV, enabled: bool)
    ensures
        enabled ==> (dispatch_fact(v, a, enabled) matches Ok(f) && f.state == "submitting"@
            && f.turn_id == a.turn_id && f.event_ids == a.event_ids && f.delivery_id
            == a.delivery_id),
        !enabled ==> dispatch_fact(v, a, enabled) is Err,
        forall|status: Text, target: JsonV|
            #![trigger member_after(
                target,
                seq![EffectV::Patch(dispatch_patch(status))],
                "last_delivery_status"@,
            )]
            member_after(
                target,
                seq![EffectV::Patch(dispatch_patch(status))],
                "last_delivery_status"@,
            ) == JsonV::Str(status),
{
    reveal_with_fuel(member_behind, 3);
}

/// Whether the page was seen to echo a prompt without confirming it.
pub open spec fn echo_is_unconfirmed(target: JsonV) -> bool {
    target.at("last_submission_evidence"@).at("submission_evidence"@) == JsonV::Str(
        "optimistic_echo_unconfirmed"@,
    )
}

/// A receipt is looked for where the ledger proves the submission or the page echoed it without
/// confirming it; it is looked for by the turn of the very events that the target remembers. Where
/// neither holds there is none.
pub proof fn a_receipt_is_looked_for_where_there_may_be_one(v: VisitV, proven: bool)
    ensures
        !proven && !echo_is_unconfirmed(v.target) ==> receipt_start(v, proven) is NotFound,
        (proven || echo_is_unconfirmed(v.target)) && (v.target.at("last_delivery_turn_id"@)
            matches JsonV::Str(t) && !is_blank(t)) && (v.target.at("last_delivery_id"@)
            matches JsonV::Str(d) && !is_blank(d)) ==> (receipt_start(v, proven)
            matches SearchV::Step(p) && p.effects.len() == 0 && (p.next matches NextV::ReceiptTurn(
            args,
        ) && args == v.base_args.insert("event_ids"@, v.target.at("last_delivery_event_ids"@)))),
{
}

/// What is looked for is the prompt that the target remembers, of its own turn and delivery: the
/// page is looked at again only where it is open at the address of the target and the echo was not
/// confirmed, and an echo that is not there is no receipt.
pub proof fn a_receipt_is_that_of_the_remembered_prompt(
    v: VisitV,
    recovered: JsonV,
    surface: JsonV,
    receipt: ReceiptV,
    current: JsonV,
)
    ensures
        on_receipt_turn(v, recovered, surface) matches SearchV::Step(p) ==> match p.next {
            NextV::JudgeReceipt(r) => !echo_is_unconfirmed(v.target) && is_remembered(
                v,
                recovered.at("turn"@),
                r,
            ),
            NextV::InspectReceipt(r) => echo_is_unconfirmed(v.target) && surface.at("active"@)
                == JsonV::Bool(true) && alike(surface.at("url"@), v.target.at("url"@))
                && is_remembered(v, recovered.at("turn"@), r),
            n => n is Fail,
        },
        on_receipt_turn(v, recovered, surface) is NotFound ==> echo_is_unconfirmed(v.target) && (
        surface.at("active"@) != JsonV::Bool(true) || !alike(
            surface.at("url"@),
            v.target.at("url"@),
        )),
        current.at("observed"@).at("echo_found"@) != JsonV::Bool(true) ==> on_inspected(
            receipt,
            current,
        ) is NotFound,
        current.at("observed"@).at("echo_found"@) == JsonV::Bool(true) ==> (on_inspected(
            receipt,
            current,
        ) matches SearchV::Step(p) && (p.next matches NextV::JudgeReceipt(r) && r.turn_id
            == receipt.turn_id && r.delivery_id == receipt.delivery_id && r.prompt == receipt.prompt
            && r.seed == receipt.seed && r.submission.at("observed"@) == current.at("observed"@))),
{
}

/// Whether a receipt is that of the delivery that the target remembers.
pub open spec fn is_remembered(v: VisitV, turn: JsonV, r: ReceiptV) -> bool {
    &&& v.target.at("last_delivery_turn_id"@) == JsonV::Str(r.turn_id)
    &&& v.target.at("last_delivery_id"@) == JsonV::Str(r.delivery_id)
    &&& r.submission == v.target.at("last_submission_evidence"@)
    &&& browser_prompt(
        turn,
        v.target,
        address(v.target),
        v.actor_id,
        r.delivery_id,
        event_label(v.target, "last_delivery_event_ids"@),
    ) matches Ok((prompt, seed)) && r.prompt == prompt && r.seed == seed
}

/// An older delivery is recovered where a new chat was submitted or waits for its address under an
/// id of the older form, and the page did not echo the message.
pub proof fn an_older_delivery_is_told_by_its_id(target: JsonV)
    ensures
        legacy_pending(target) <==> target.at("kind"@) == JsonV::Str("new_chat"@) && (status_of(
            target,
        ) == JsonV::Str("submitted"@) || status_of(target) == JsonV::Str(
            "pending_new_chat_bind"@,
        )) && (target.at("last_delivery_id"@) matches JsonV::Str(id) && opens_with(id, "wmd_"@))
            && target.at("last_submission_evidence"@).at("submission_evidence"@) != JsonV::Str(
            "message_echo"@,
        ),
{
    reveal_strlit("wmd_");
    assert("wmd_"@.len() == 4);
}

/// An older delivery is submitted again only where its draft is still there to be recovered, and
/// only once the target was marked for it, under an id of the present form; otherwise it ends as
/// not verified.
pub proof fn an_older_delivery_is_submitted_again_when_recoverable(
    v: VisitV,
    turn: JsonV,
    inspection: JsonV,
    a: AttemptV,
    marked: bool,
    now: Text,
)
    ensures
        ({
            let p = on_legacy_inspected(v, turn, inspection, now);
            &&& inspection.at("recoverable"@) != JsonV::Bool(true) ==> {
                &&& p.next == NextV::Done(Outcome::Ambiguous)
                &&& member_after(v.target, p.effects, "last_delivery_status"@) == JsonV::Str(
                    "legacy_submission_unverified"@,
                )
                &&& member_after(v.target, p.effects, "last_submission_evidence"@) == inspection
                &&& stays_where_it_is(v.target, p.effects)
                &&& recorded(p.effects).len() == 0
            }
            &&& inspection.at("recoverable"@) == JsonV::Bool(true) ==> p.effects.len() == 0 && match p.next {
                NextV::MarkLegacy(b, m) => {
                    let mark = seq![EffectV::Patch(m)];
                    &&& turn.at("turn_id"@) == JsonV::Str(b.turn_id)
                    &&& b.event_ids == turn.at("event_ids"@)
                    &&& opens_with(b.delivery_id, "webdelivery:"@ + v.actor_id + ":"@)
                    &&& is_told_after(
                        v.target,
                        mark,
                        "legacy_recovery_submitting"@,
                        Seq::empty(),
                    )
                    &&& member_after(v.target, mark, "last_delivery_id"@) == JsonV::Str(
                        b.delivery_id,
                    )
                    &&& member_after(v.target, mark, "last_delivery_turn_id"@) == JsonV::Str(
                        b.turn_id,
                    )
                    &&& member_after(v.target, mark, "last_delivery_event_ids"@) == v.target.at(
                        "last_delivery_event_ids"@,
                    )
                    &&& stays_where_it_is(v.target, mark)
                },
                n => n is Fail,
            }
        }),
        on_legacy_marked(a, marked).effects.len() == 0,
        on_legacy_marked(a, marked).next == if marked {
            NextV::SubmitLegacy(a)
        } else {
            NextV::Done(Outcome::Idle)
        },
{
    reveal_with_fuel(member_behind, 4);
    reveal_with_fuel(recorded_behind, 4);
    lemma_members_differ();
    let start = "webdelivery:"@ + v.actor_id + ":"@;
    if let NextV::MarkLegacy(b, m) = on_legacy_inspected(v, turn, inspection, now).next {
        assert(b.delivery_id == delivery_id_text(v.actor_id, b.turn_id));
        assert(b.delivery_id.take(start.len() as int) =~= start);
    }
}

/// A resubmission that was interrupted is ambiguous and is not made again; where it opened a new
/// chat its conversation is looked for.
pub proof fn an_interrupted_resubmission_is_ambiguous(v: VisitV, proven: bool, now: Text)
    requires
        status_of(v.target) == JsonV::Str("legacy_recovery_submitting"@),
        v.surface.at("active"@) == JsonV::Bool(true),
    ensures
        ({
            let p = on_start(v, proven, now);
            &&& member_after(v.target, p.effects, "last_delivery_status"@) == JsonV::Str(
                "submission_ambiguous"@,
            )
            &&& stays_where_it_is(v.target, p.effects)
            &&& recorded(p.effects).len() == 0
            &&& p.next == if v.target.at("kind"@) == JsonV::Str("new_chat"@) {
                NextV::PendingUrl(v.target)
            } else {
                NextV::Done(Outcome::Ambiguous)
            }
        }),
{
    reveal_with_fuel(member_behind, 4);
    reveal_with_fuel(recorded_behind, 4);
    lemma_members_differ();
    lemma_statuses();
}

/// An older delivery whose conversation is known waits for its address like any other; else its turn
/// is recovered by the very events that the target remembers.
pub proof fn an_older_delivery_is_looked_for(v: VisitV, url: Option<Text>)
    ensures
        on_legacy_url(v, url).effects.len() == 0,
        url is Some ==> on_legacy_url(v, url).next == NextV::PendingUrl(v.target),
        url is None ==> on_legacy_url(v, url).next == NextV::LegacyTurn(
            v.base_args.insert("event_ids"@, v.target.at("last_delivery_event_ids"@)),
        ),
{
}

/// What is asked of a target that has a delivery open: one that was not reconciled is reconciled,
/// and a new chat that was submitted is looked for.
pub proof fn an_open_delivery_is_taken_up(v: VisitV, proven: bool, now: Text)
    requires
        v.surface.at("active"@) == JsonV::Bool(true),
        !legacy_pending(v.target),
        address(v.target).len() > 0 || v.target.at("kind"@) == JsonV::Str("new_chat"@),
    ensures
        ({
            let s = status_of(v.target);
            let p = on_start(v, proven, now);
            let fresh = v.target.at("kind"@) == JsonV::Str("new_chat"@);
            &&& s == JsonV::Str("ambiguous"@) || s == JsonV::Str("completion_ambiguous"@) || s
                == JsonV::Str("submission_ambiguous_completion_pending"@) || s == JsonV::Str(
                "completion_conflict"@,
            ) ==> p.effects.len() == 0 && p.next == NextV::Reconcile
            &&& fresh && (s == JsonV::Str("submitted"@) || s == JsonV::Str(
                "pending_new_chat_bind"@,
            )) ==> p.effects.len() == 0 && p.next == NextV::PendingUrl(v.target)
            &&& s == JsonV::Str("submission_ambiguous"@) && !proven && !echo_is_unconfirmed(v.target)
                ==> p.effects.len() == 0 && if fresh {
                p.next == NextV::PendingUrl(v.target)
            } else {
                p.next is WaitTurn
            }
        }),
{
    lemma_statuses();
    reveal_strlit("ambiguous");
    reveal_strlit("completion_conflict");
    assert("ambiguous"@.len() == 9 && "ambiguous"@[0] == 'a');
    assert("completion_conflict"@.len() == 19);
}

/// A delivery that was put off asks the ledger for its events first; while it is put off and the
/// page is not open, a page that asks for a person stops the visit.
pub proof fn a_deferred_delivery_asks_for_its_events(
    v: VisitV,
    statuses: JsonV,
    proven: bool,
    now: Text,
)
    requires
        status_of(v.target) == JsonV::Str("deferred"@),
        asks_for_a_person(v.target.at("last_submission_evidence"@)) || passes_by_itself(
            v.target.at("last_submission_evidence"@),
        ),
    ensures
        v.surface.at("active"@) == JsonV::Bool(true) ==> (on_start(v, proven, now).next
            matches NextV::AskStatuses(m) && m["event_ids"@] == v.target.at(
            "last_delivery_event_ids"@,
        ) && m["group_id"@] == JsonV::Str(v.group_id)),
        !all_settled(v.target, statuses, v.actor_id) && v.surface.at("active"@) != JsonV::Bool(true)
            && asks_for_a_person(v.target.at("last_submission_evidence"@)) ==> on_statuses(
            v,
            statuses,
            proven,
            now,
        ).next == NextV::Done(Outcome::Stopped),
{
    lemma_statuses();
    reveal_strlit("group_id");
    reveal_strlit("event_ids");
    assert("group_id"@.len() == 8);
    assert("event_ids"@.len() == 9);
}

/// An automatic visit begins only once its time has come; no visit begins while another new chat
/// waits for its address. A visit is automatic where the page is not open or closes by itself.
pub proof fn a_visit_begins_in_its_time(
    other_chat_pending: bool,
    surface: JsonV,
    auto_close: bool,
    not_before: Option<Instant>,
    now: Instant,
)
    ensures
        ({
            let automatic = surface.at("active"@) != JsonV::Bool(true) || auto_close;
            let early = not_before matches Some(t) && (now.secs < t.secs || (now.secs == t.secs
                && now.nanos < t.nanos));
            may_begin(other_chat_pending, surface, auto_close, not_before, now)
                <==> !other_chat_pending && !(automatic && early)
        }),
{
}

/// Whether a target is a new chat whose address is still to be found.
pub open spec fn waits_for_an_address(target: JsonV) -> bool {
    let s = status_of(target);
    target.at("kind"@) == JsonV::Str("new_chat"@) && (s == JsonV::Str("pending_new_chat_bind"@) || s
        == JsonV::Str("submitted"@) || s == JsonV::Str("completion_ambiguous"@) || s == JsonV::Str(
        "submission_ambiguous"@,
    ))
}

/// Whether an echo is still on its way to be confirmed: the page shows a request whose answer has
/// not begun.
pub open spec fn waits_for_a_confirmation(target: JsonV, blocked: Option<JsonV>) -> bool {
    echo_is_unconfirmed(target) && (blocked matches Some(b) && (b.at("latest_turn_id"@)
        matches JsonV::Str(id) && opens_with(id, "request-"@)) && b.at("response_started"@)
        != JsonV::Bool(true))
}

/// At the end of a visit the browser is closed where one was visited, no address and no confirmation
/// is waited for, and no draft stands on the page; and the next visit is due at once where the
/// delivery was put off, something is waited for, or the visit failed or was put off.
pub proof fn a_visit_ends_with_what_is_left(
    target: JsonV,
    visited: bool,
    blocked: Option<JsonV>,
    ended: Option<Outcome>,
)
    ensures
        ({
            let c = at_end(target, visited, blocked, ended);
            let address = waits_for_an_address(target);
            let receipt = visited && !address && waits_for_a_confirmation(target, blocked);
            let draft = blocked matches Some(b) && (b.at("composer_chars"@).count() matches Some(n)
                && n > 0);
            &&& address_pending(target) <==> address
            &&& c.close <==> visited && !address && !draft && !receipt
            &&& !visited ==> c.schedule is None
            &&& visited ==> c.schedule == Some(
                status_of(target) == JsonV::Str("deferred"@) || address || receipt || ended is None
                    || ended == Some(Outcome::Deferred),
            )
        }),
{
    lemma_statuses();
    reveal_strlit("request-");
    assert("request-"@.len() == 8);
}

/// The draft of an older delivery is its messages one after the other, each with its writer and the
/// actor; one that is too long is cut short and says so.
pub proof fn an_older_draft_holds_its_messages(
    turn: JsonV,
    actor_id: Text,
    messages: Seq<JsonV>,
)
    requires
        turn.at("actor_id"@) == JsonV::Str(actor_id),
        !is_blank(actor_id),
        turn.at("messages"@) == JsonV::Arr(messages),
    ensures
        legacy_prompt(turn) matches Ok(t) && {
            let lines = messages.map_values(
                |e: JsonV|
                    "["@ + crate::json::or_empty(e.at("by"@).text()) + " -> "@ + actor_id + "] "@
                        + crate::json::or_empty(e.at("data"@).at("text"@).text()),
            );
            let all = crate::text::joined(lines, "\n\n"@);
            &&& all.len() <= 24_000 ==> t == all
            &&& all.len() > 24_000 ==> t == all.take(23_920)
                + "\n\n[cccc] coalesced turn text truncated"@
        },
{
    let own = messages.map_values(|e: JsonV| legacy_line(e, actor_id));
    let lines = messages.map_values(
        |e: JsonV|
            "["@ + crate::json::or_empty(e.at("by"@).text()) + " -> "@ + actor_id + "] "@
                + crate::json::or_empty(e.at("data"@).at("text"@).text()),
    );
    assert(own =~= lines);
}

} // verus!
