//! What a decision request asks for, and what it must say to be heard.

use crate::json::{text_field, ObjV};
use crate::model::{
    check_outcome, outcome, refusal, required_arg, required_text, string_arg, DaemonRequest, ErrV,
    GroupDoc, GroupV, OpError,
};
use crate::relay::ids::{decision_fingerprint, fingerprint_text};
use crate::relay::sources::{requested, source_event_ids};
use crate::text::{lowered, str_eq, texts, to_lower, trim, trimmed, Text};
use vstd::prelude::*;

verus! {

/// A well-formed decision request.
pub struct Intent {
    pub by: String,
    pub decision: String,
    pub reason: String,
    pub next_actor_id: String,
    pub next_title: String,
    pub next_text: String,
    pub fingerprint: String,
    pub requested: Vec<String>,
}

/// The mathematical value of a well-formed decision request.
pub struct IntentV {
    pub by: Text,
    pub decision: Text,
    pub reason: Text,
    pub next_actor_id: Text,
    pub next_title: Text,
    pub next_text: Text,
    pub fingerprint: Text,
    pub requested: Seq<Text>,
}

impl View for Intent {
    type V = IntentV;

    open spec fn view(&self) -> IntentV {
        IntentV {
            by: self.by@,
            decision: self.decision@,
            reason: self.reason@,
            next_actor_id: self.next_actor_id@,
            next_title: self.next_title@,
            next_text: self.next_text@,
            fingerprint: self.fingerprint@,
            requested: texts(self.requested@),
        }
    }
}

/// The trimmed value of a required argument.
pub open spec fn required_trimmed(args: ObjV, key: Text) -> Result<Text, ErrV> {
    match required_text(args, key) {
        Ok(t) => Ok(trimmed(t)),
        Err(e) => Err(e),
    }
}

/// The trimmed value of a required argument.
pub fn trimmed_arg(request: &DaemonRequest, key: &str) -> (r: Result<String, OpError>)
    ensures
        outcome(r) == required_trimmed(request@.args, key@),
{
    let t = required_arg(request, key)?;
    Ok(trim(t.as_str()))
}

/// The actor that makes a request: `by`, or else `actor_id`, trimmed.
pub open spec fn caller(args: ObjV) -> Text {
    match text_field(args, "by"@) {
        Some(t) => trimmed(t),
        None => match text_field(args, "actor_id"@) {
            Some(t) => trimmed(t),
            None => Seq::empty(),
        },
    }
}

fn caller_of(request: &DaemonRequest) -> (r: String)
    ensures
        r@ == caller(request@.args),
{
    match string_arg(request, "by") {
        Some(t) => trim(t.as_str()),
        None => match string_arg(request, "actor_id") {
            Some(t) => trim(t.as_str()),
            None => String::new(),
        },
    }
}

/// The check that an actor is the foreman.
pub open spec fn foreman_check(g: GroupV, actor_id: Text) -> Result<(), ErrV> {
    if g.is_foreman(actor_id) {
        Ok(())
    } else {
        Err(
            refusal(
                "relay_decision_forbidden"@,
                "relay decisions require the current foreman"@,
            ),
        )
    }
}

/// Checks that an actor is the foreman.
pub fn require_foreman(group: &GroupDoc, actor_id: &str) -> (r: Result<(), OpError>)
    ensures
        check_outcome(r) == foreman_check(group@, actor_id@),
{
    if group.is_foreman(actor_id) {
        return Ok(());
    }
    Err(
        OpError::new(
            "relay_decision_forbidden",
            "relay decisions require the current foreman",
        ),
    )
}

/// Whether the word names one of the four decisions.
pub open spec fn is_decision_word(d: Text) -> bool {
    d == "continue"@ || d == "wait_user"@ || d == "complete"@ || d == "blocked"@
}

/// The decision that a request names, in lower case.
pub open spec fn named_decision(args: ObjV) -> Result<Text, ErrV> {
    match required_text(args, "decision"@) {
        Err(e) => Err(e),
        Ok(t) => {
            let d = lowered(trimmed(t));
            if is_decision_word(d) {
                Ok(d)
            } else {
                Err(
                    refusal(
                        "invalid_relay_decision"@,
                        "decision must be continue, wait_user, complete, or blocked"@,
                    ),
                )
            }
        },
    }
}

/// The reason that a request gives, trimmed.
pub open spec fn given_reason(args: ObjV) -> Text {
    match text_field(args, "reason"@) {
        Some(t) => trimmed(t),
        None => Seq::empty(),
    }
}

/// The next piece of work: its actor, its title and its text.
pub open spec fn next_work(args: ObjV) -> Result<(Text, Text, Text), ErrV> {
    match required_trimmed(args, "next_actor_id"@) {
        Err(e) => Err(e),
        Ok(actor) => match required_trimmed(args, "next_title"@) {
            Err(e) => Err(e),
            Ok(title) => match required_trimmed(args, "next_text"@) {
                Err(e) => Err(e),
                Ok(text) => if actor.len() == 0 || title.len() == 0 || text.len() == 0 {
                    Err(
                        refusal(
                            "relay_continue_incomplete"@,
                            "continue requires non-empty next_actor_id, next_title, and next_text"@,
                        ),
                    )
                } else {
                    Ok((actor, title, text))
                },
            },
        },
    }
}

/// The next piece of work under a decision: only continue has one, and only in a group that the
/// user has not halted.
pub open spec fn work_under(decision: Text, args: ObjV, g: GroupV) -> Result<
    (Text, Text, Text),
    ErrV,
> {
    if decision != "continue"@ {
        Ok((Seq::empty(), Seq::empty(), Seq::empty()))
    } else if g.halted() {
        Err(
            refusal(
                "relay_group_paused"@,
                "continue cannot dispatch new work while the user has paused or stopped the group"@,
            ),
        )
    } else {
        next_work(args)
    }
}

/// What a decision request asks for. It is heard only from the foreman; blocked needs a reason;
/// continue needs concrete next work; and it must name source events.
pub open spec fn intent(args: ObjV, g: GroupV) -> Result<IntentV, ErrV> {
    let by = caller(args);
    let reason = given_reason(args);
    match foreman_check(g, by) {
        Err(e) => Err(e),
        Ok(_) => match named_decision(args) {
            Err(e) => Err(e),
            Ok(decision) => if decision == "blocked"@ && reason.len() == 0 {
                Err(refusal("relay_reason_required"@, "blocked requires a concrete reason"@))
            } else {
                match work_under(decision, args, g) {
                    Err(e) => Err(e),
                    Ok((actor, title, text)) => match requested(args) {
                        Err(e) => Err(e),
                        Ok(ids) => Ok(
                            IntentV {
                                by,
                                decision,
                                reason,
                                next_actor_id: actor,
                                next_title: title,
                                next_text: text,
                                fingerprint: fingerprint_text(
                                    decision,
                                    reason,
                                    actor,
                                    title,
                                    text,
                                    args,
                                ),
                                requested: ids,
                            },
                        ),
                    },
                }
            },
        },
    }
}

fn next_work_of(request: &DaemonRequest) -> (r: Result<(String, String, String), OpError>)
    ensures
        match r {
            Ok((a, b, c)) => next_work(request@.args) == Ok::<(Text, Text, Text), ErrV>(
                (a@, b@, c@),
            ),
            Err(e) => next_work(request@.args) == Err::<(Text, Text, Text), ErrV>(e@),
        },
{
    let actor = trimmed_arg(request, "next_actor_id")?;
    let title = trimmed_arg(request, "next_title")?;
    let text = trimmed_arg(request, "next_text")?;
    if actor.as_str().is_empty() || title.as_str().is_empty() || text.as_str().is_empty() {
        return Err(
            OpError::new(
                "relay_continue_incomplete",
                "continue requires non-empty next_actor_id, next_title, and next_text",
            ),
        );
    }
    Ok((actor, title, text))
}

/// What a decision request asks for.
pub fn read_intent(request: &DaemonRequest, group: &GroupDoc) -> (r: Result<Intent, OpError>)
    ensures
        outcome(r) == intent(request@.args, group@),
{
    let by = caller_of(request);
    require_foreman(group, by.as_str())?;
    let named = required_arg(request, "decision")?;
    let named = trim(named.as_str());
    let decision = to_lower(named.as_str());
    let go_on = str_eq(decision.as_str(), "continue");
    let stuck = str_eq(decision.as_str(), "blocked");
    if !go_on && !stuck && !str_eq(decision.as_str(), "wait_user") && !str_eq(
        decision.as_str(),
        "complete",
    ) {
        return Err(
            OpError::new(
                "invalid_relay_decision",
                "decision must be continue, wait_user, complete, or blocked",
            ),
        );
    }
    let reason = match string_arg(request, "reason") {
        Some(t) => trim(t.as_str()),
        None => String::new(),
    };
    if stuck && reason.as_str().is_empty() {
        return Err(OpError::new("relay_reason_required", "blocked requires a concrete reason"));
    }
    let mut next_actor_id = String::new();
    let mut next_title = String::new();
    let mut next_text = String::new();
    if go_on {
        if group.halted() {
            return Err(
                OpError::new(
                    "relay_group_paused",
                    "continue cannot dispatch new work while the user has paused or stopped the group",
                ),
            );
        }
        let (a, b, c) = next_work_of(request)?;
        next_actor_id = a;
        next_title = b;
        next_text = c;
    }
    let fingerprint = decision_fingerprint(
        decision.as_str(),
        reason.as_str(),
        next_actor_id.as_str(),
        next_title.as_str(),
        next_text.as_str(),
        request,
    );
    let requested = source_event_ids(request)?;
    Ok(
        Intent {
            by,
            decision,
            reason,
            next_actor_id,
            next_title,
            next_text,
            fingerprint,
            requested,
        },
    )
}

/// A halted group refuses continue, whatever else the request says, as long as the foreman asks.
pub proof fn a_halted_group_dispatches_no_work(args: ObjV, g: GroupV)
    requires
        g.halted(),
    ensures
        intent(args, g) matches Ok(i) ==> i.decision != "continue"@,
{
}

/// A request that is heard comes from the foreman, names between one and the most source events
/// that a decision may cover, gives a reason if it is blocked, and concrete work if it continues.
pub proof fn a_heard_request_is_complete(args: ObjV, g: GroupV)
    ensures
        intent(args, g) matches Ok(i) ==> {
            &&& g.is_foreman(i.by)
            &&& is_decision_word(i.decision)
            &&& 0 < i.requested.len() <= crate::relay::sources::MAX_SOURCE_EVENTS
            &&& i.decision == "blocked"@ ==> i.reason.len() > 0
            &&& i.decision == "continue"@ ==> i.next_actor_id.len() > 0 && i.next_title.len() > 0
                && i.next_text.len() > 0
        },
{
}

} // verus!
