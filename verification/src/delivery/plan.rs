//! What a delivery visit does next: effects to carry out in order, and then one request to the
//! outside or the end of the visit.

use crate::delivery::prompt::{opt_seed, ApiError, ApiErrorV, BootstrapSeed, SeedV};
use crate::json::{Json, JsonMap, JsonV, ObjV};
use crate::lists::{lemma_views, lemma_views_push, views};
use crate::text::Text;
use vstd::prelude::*;

verus! {

broadcast use {lemma_views, lemma_views_push};

/// How a visit ended.
#[derive(PartialEq, Eq, Structural, Clone, Copy, Debug)]
pub enum Outcome {
    Submitted,
    Idle,
    Deferred,
    Ambiguous,
    Stopped,
}

/// A visit to the conversation of an actor: what was known when it began.
pub struct Visit {
    pub group_id: String,
    pub actor_id: String,
    pub manage_browser: bool,
    pub auto_close: bool,
    pub base_args: JsonMap,
    pub target: Json,
    pub surface: Json,
}

/// The mathematical value of a visit.
pub struct VisitV {
    pub group_id: Text,
    pub actor_id: Text,
    pub manage_browser: bool,
    pub auto_close: bool,
    pub base_args: ObjV,
    pub target: JsonV,
    pub surface: JsonV,
}

impl View for Visit {
    type V = VisitV;

    open spec fn view(&self) -> VisitV {
        VisitV {
            group_id: self.group_id@,
            actor_id: self.actor_id@,
            manage_browser: self.manage_browser,
            auto_close: self.auto_close,
            base_args: self.base_args@,
            target: self.target@,
            surface: self.surface@,
        }
    }
}

/// A fact about a delivery that goes to the ledger.
pub struct DeliveryFact {
    pub turn_id: String,
    pub event_ids: Json,
    pub delivery_id: String,
    pub state: String,
    pub detail: String,
    pub extra: JsonMap,
}

/// The mathematical value of a fact about a delivery.
pub struct FactV {
    pub turn_id: Text,
    pub event_ids: JsonV,
    pub delivery_id: Text,
    pub state: Text,
    pub detail: Text,
    pub extra: ObjV,
}

impl View for DeliveryFact {
    type V = FactV;

    open spec fn view(&self) -> FactV {
        FactV {
            turn_id: self.turn_id@,
            event_ids: self.event_ids@,
            delivery_id: self.delivery_id@,
            state: self.state@,
            detail: self.detail@,
            extra: self.extra@,
        }
    }
}

/// Something to be done before the next request.
pub enum Effect {
    /// Write members into the stored target of the actor.
    Patch(JsonMap),
    /// Show a status, a turn and an error at the connector.
    Connector(String, String, String),
    /// Record a fact in the ledger.
    Record(DeliveryFact),
    /// Reserve the delay before the next automatic visit.
    Schedule,
    /// Let the visit close the browser when it is done.
    AutoClose,
    /// Hold automation where the page shows a restriction.
    Hold(Json),
}

/// The mathematical value of an effect.
pub enum EffectV {
    Patch(ObjV),
    Connector(Text, Text, Text),
    Record(FactV),
    Schedule,
    AutoClose,
    Hold(JsonV),
}

impl View for Effect {
    type V = EffectV;

    open spec fn view(&self) -> EffectV {
        match self {
            Effect::Patch(m) => EffectV::Patch(m@),
            Effect::Connector(s, t, e) => EffectV::Connector(s@, t@, e@),
            Effect::Record(f) => EffectV::Record(f@),
            Effect::Schedule => EffectV::Schedule,
            Effect::AutoClose => EffectV::AutoClose,
            Effect::Hold(v) => EffectV::Hold(v@),
        }
    }
}

/// A turn on its way into a conversation.
pub struct Attempt {
    pub turn_id: String,
    pub event_ids: Json,
    pub delivery_id: String,
    pub turn: Json,
    pub prompt: String,
    pub seed: Option<BootstrapSeed>,
}

/// The mathematical value of an attempt.
pub struct AttemptV {
    pub turn_id: Text,
    pub event_ids: JsonV,
    pub delivery_id: Text,
    pub turn: JsonV,
    pub prompt: Text,
    pub seed: Option<SeedV>,
}

impl View for Attempt {
    type V = AttemptV;

    open spec fn view(&self) -> AttemptV {
        AttemptV {
            turn_id: self.turn_id@,
            event_ids: self.event_ids@,
            delivery_id: self.delivery_id@,
            turn: self.turn@,
            prompt: self.prompt@,
            seed: opt_seed(self.seed),
        }
    }
}

/// A past submission whose receipt is looked for.
pub struct Receipt {
    pub turn_id: String,
    pub delivery_id: String,
    pub prompt: String,
    pub seed: Option<BootstrapSeed>,
    pub submission: Json,
}

/// The mathematical value of a past submission.
pub struct ReceiptV {
    pub turn_id: Text,
    pub delivery_id: Text,
    pub prompt: Text,
    pub seed: Option<SeedV>,
    pub submission: JsonV,
}

impl View for Receipt {
    type V = ReceiptV;

    open spec fn view(&self) -> ReceiptV {
        ReceiptV {
            turn_id: self.turn_id@,
            delivery_id: self.delivery_id@,
            prompt: self.prompt@,
            seed: opt_seed(self.seed),
            submission: self.submission@,
        }
    }
}

/// How the submission of a prompt went: what the page showed, or why it failed.
pub enum Submission {
    Verified(Json),
    Deferred(Json),
    Ambiguous(Json),
    Failed(String),
}

/// The mathematical value of how a submission went.
pub enum SubmissionV {
    Verified(JsonV),
    Deferred(JsonV),
    Ambiguous(JsonV),
    Failed(Text),
}

impl View for Submission {
    type V = SubmissionV;

    open spec fn view(&self) -> SubmissionV {
        match self {
            Submission::Verified(v) => SubmissionV::Verified(v@),
            Submission::Deferred(v) => SubmissionV::Deferred(v@),
            Submission::Ambiguous(v) => SubmissionV::Ambiguous(v@),
            Submission::Failed(e) => SubmissionV::Failed(e@),
        }
    }
}

/// What comes after the effects: the end of the visit, or a request whose answer decides.
pub enum Next {
    /// The visit is over.
    Done(Outcome),
    /// The visit failed.
    Fail(ApiError),
    /// Ask the ledger for the states of the delivered events.
    AskStatuses(JsonMap),
    /// Look whether the page of the target is blocked.
    ProbeTarget,
    /// Look for the conversation that an older delivery has led to.
    LegacyUrl,
    /// Look for the conversation that a new chat of this target has led to.
    PendingUrl(Json),
    /// Recover the turn whose receipt is looked for.
    ReceiptTurn(JsonMap),
    /// Look at the page again for the echo of the prompt.
    InspectReceipt(Receipt),
    /// Judge the evidence of the submission.
    JudgeReceipt(Receipt),
    /// Recover the turn of an older delivery.
    LegacyTurn(JsonMap),
    /// Look whether the page still shows the draft of an older delivery; the turn comes along.
    InspectLegacy(Json, String),
    /// Mark the target as submitting an older delivery.
    MarkLegacy(Attempt, JsonMap),
    /// Submit the prompt of an older delivery.
    SubmitLegacy(Attempt),
    /// Wait for the conversation that the submission of an older delivery leads to.
    LegacyConversation(Attempt, Json),
    /// Reconcile a completion that was left open.
    Reconcile,
    /// Read the target again.
    Snapshot,
    /// Wait for the next turn.
    WaitTurn(JsonMap),
    /// Mark the target as preparing the turn.
    MarkPreparing(Attempt, JsonMap),
    /// Look whether the open page is blocked.
    ProbeSurface(Attempt),
    /// Open the browser.
    Open(Attempt),
    /// Type and send the prompt.
    Submit(Attempt),
    /// Take the prompt off the page again after it was not sent.
    ClearStaged(Attempt, Submission),
    /// Complete the turn of a verified submission.
    Complete(Attempt, Json),
    /// Wait for the conversation that a new chat leads to.
    NewConversation(Attempt, Json),
    /// Bind the target to the conversation of a new chat.
    BindConversation(Attempt, Json, String, JsonMap),
    /// Complete the turn of an unverified submission; the message says why it is unverified.
    CompleteUnverified(Attempt, String),
}

/// The mathematical value of what comes after the effects.
pub enum NextV {
    Done(Outcome),
    Fail(ApiErrorV),
    AskStatuses(ObjV),
    ProbeTarget,
    LegacyUrl,
    PendingUrl(JsonV),
    ReceiptTurn(ObjV),
    InspectReceipt(ReceiptV),
    JudgeReceipt(ReceiptV),
    LegacyTurn(ObjV),
    InspectLegacy(JsonV, Text),
    MarkLegacy(AttemptV, ObjV),
    SubmitLegacy(AttemptV),
    LegacyConversation(AttemptV, JsonV),
    Reconcile,
    Snapshot,
    WaitTurn(ObjV),
    MarkPreparing(AttemptV, ObjV),
    ProbeSurface(AttemptV),
    Open(AttemptV),
    Submit(AttemptV),
    ClearStaged(AttemptV, SubmissionV),
    Complete(AttemptV, JsonV),
    NewConversation(AttemptV, JsonV),
    BindConversation(AttemptV, JsonV, Text, ObjV),
    CompleteUnverified(AttemptV, Text),
}

impl View for Next {
    type V = NextV;

    open spec fn view(&self) -> NextV {
        match self {
            Next::Done(o) => NextV::Done(*o),
            Next::Fail(e) => NextV::Fail(e@),
            Next::AskStatuses(m) => NextV::AskStatuses(m@),
            Next::ProbeTarget => NextV::ProbeTarget,
            Next::LegacyUrl => NextV::LegacyUrl,
            Next::PendingUrl(t) => NextV::PendingUrl(t@),
            Next::ReceiptTurn(m) => NextV::ReceiptTurn(m@),
            Next::InspectReceipt(r) => NextV::InspectReceipt(r@),
            Next::JudgeReceipt(r) => NextV::JudgeReceipt(r@),
            Next::LegacyTurn(m) => NextV::LegacyTurn(m@),
            Next::InspectLegacy(t, p) => NextV::InspectLegacy(t@, p@),
            Next::MarkLegacy(a, m) => NextV::MarkLegacy(a@, m@),
            Next::SubmitLegacy(a) => NextV::SubmitLegacy(a@),
            Next::LegacyConversation(a, b) => NextV::LegacyConversation(a@, b@),
            Next::Reconcile => NextV::Reconcile,
            Next::Snapshot => NextV::Snapshot,
            Next::WaitTurn(m) => NextV::WaitTurn(m@),
            Next::MarkPreparing(a, m) => NextV::MarkPreparing(a@, m@),
            Next::ProbeSurface(a) => NextV::ProbeSurface(a@),
            Next::Open(a) => NextV::Open(a@),
            Next::Submit(a) => NextV::Submit(a@),
            Next::ClearStaged(a, s) => NextV::ClearStaged(a@, s@),
            Next::Complete(a, b) => NextV::Complete(a@, b@),
            Next::NewConversation(a, b) => NextV::NewConversation(a@, b@),
            Next::BindConversation(a, b, u, m) => NextV::BindConversation(a@, b@, u@, m@),
            Next::CompleteUnverified(a, m) => NextV::CompleteUnverified(a@, m@),
        }
    }
}

/// A step of a visit: effects in order, then what comes next.
pub struct Plan {
    pub effects: Vec<Effect>,
    pub next: Next,
}

/// The mathematical value of a step.
pub struct PlanV {
    pub effects: Seq<EffectV>,
    pub next: NextV,
}

impl View for Plan {
    type V = PlanV;

    open spec fn view(&self) -> PlanV {
        PlanV { effects: views(self.effects@), next: self.next@ }
    }
}

impl PlanV {
    /// The step with effects carried out before it.
    pub open spec fn behind(self, effects: Seq<EffectV>) -> PlanV {
        PlanV { effects: effects + self.effects, ..self }
    }
}

/// A step without effects.
pub open spec fn only(next: NextV) -> PlanV {
    PlanV { effects: Seq::empty(), next }
}

/// The end of a visit without effects.
pub open spec fn over(outcome: Outcome) -> PlanV {
    only(NextV::Done(outcome))
}

/// A step without effects.
pub fn just(next: Next) -> (r: Plan)
    ensures
        r@ == only(next@),
{
    let effects: Vec<Effect> = Vec::new();
    proof {
        assert(views(effects@) =~= Seq::empty());
    }
    Plan { effects, next }
}

/// A step with one effect.
pub fn with_effect(effect: Effect, next: Next) -> (r: Plan)
    ensures
        r@ == (PlanV { effects: seq![effect@], next: next@ }),
{
    let mut effects: Vec<Effect> = Vec::new();
    effects.push(effect);
    proof {
        assert(views(effects@) =~= seq![effect@]);
    }
    Plan { effects, next }
}

/// The step with effects carried out before it.
pub fn after_effects(effects: Vec<Effect>, plan: Plan) -> (r: Plan)
    ensures
        r@ == plan@.behind(views(effects@)),
{
    let mut all = effects;
    let mut rest = plan.effects;
    let ghost a = views(all@);
    let ghost b = views(rest@);
    all.append(&mut rest);
    proof {
        assert(views(all@) =~= a + b);
    }
    Plan { effects: all, next: plan.next }
}

/// What the page showed when a prompt was not sent.
pub open spec fn evidence(v: JsonV) -> JsonV {
    v.at("submission_evidence"@)
}

/// Whether a prompt was not sent because the page was not ready, which passes.
pub open spec fn passing(v: JsonV) -> bool {
    let e = evidence(v).text();
    e == Some("not_sent_chat_busy"@) || e == Some("not_sent_composer_occupied"@) || e == Some(
        "not_sent_composer_unavailable"@,
    )
}

/// Whether a prompt was not sent for a reason that a person must remove.
pub open spec fn needs_person(v: JsonV) -> bool {
    let e = evidence(v).text();
    e == Some("not_sent_conversation_archived"@) || e == Some("not_sent_rate_limited"@) || e
        == Some("not_sent_access_denied"@) || e == Some("not_sent_verification_required"@) || e
        == Some("not_sent_login_required"@)
}

/// Whether a prompt was not sent because the page was not ready, which passes.
pub fn retryable_pre_send_deferral(evidence: &Json) -> (r: bool)
    ensures
        r == passing(evidence@),
{
    let k = "submission_evidence";
    evidence.is(k, "not_sent_chat_busy") || evidence.is(k, "not_sent_composer_occupied")
        || evidence.is(k, "not_sent_composer_unavailable")
}

/// Whether a prompt was not sent for a reason that a person must remove.
pub fn requires_browser_action(evidence: &Json) -> (r: bool)
    ensures
        r == needs_person(evidence@),
{
    let k = "submission_evidence";
    evidence.is(k, "not_sent_conversation_archived") || evidence.is(k, "not_sent_rate_limited")
        || evidence.is(k, "not_sent_access_denied") || evidence.is(
        k,
        "not_sent_verification_required",
    ) || evidence.is(k, "not_sent_login_required")
}

/// The number of characters that stand in the composer of a page.
pub open spec fn draft_length(v: JsonV) -> int {
    match v.at("composer_chars"@).count() {
        Some(n) => n,
        None => 0,
    }
}

/// Whether the composer of a page is empty.
pub fn draft_is_empty(v: &Json) -> (r: bool)
    ensures
        r == (draft_length(v@) == 0),
{
    match v.get("composer_chars") {
        Some(x) => match x.as_u64() {
            Some(n) => n == 0,
            None => true,
        },
        None => true,
    }
}

} // verus!
