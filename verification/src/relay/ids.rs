//! Stable identifiers, labels and the fingerprint of a decision request.

use crate::json::{field, or_null, text_field, ObjV};
use crate::json_write::{json_literal, json_text, literal};
use crate::model::{string_arg, DaemonRequest};
use crate::order::{sort_texts, sorted_list};
use crate::text::{
    decimal, decimal_text, first_chars, head, hex, hex_text, join, joined, str_eq, texts, Text,
};
use sha2::{Digest, Sha256};
use vstd::prelude::*;
use vstd::string::*;
use vstd::utf8::*;

verus! {

/// The kind of a ledger entry that records a member handoff.
pub const HANDOFF_KIND: &'static str = "coordination.handoff";

/// The kind of a ledger entry that records a relay decision.
pub const DECISION_KIND: &'static str = "coordination.decision";

/// The SHA-256 digest of a byte string.
pub uninterp spec fn sha256(bytes: Seq<u8>) -> Seq<u8>;

/// Calls `sha2::Sha256::digest`. Claims that the result is the digest of exactly these bytes, a
/// function of them alone, and that it has 32 bytes.
#[verifier::external_body]
pub(crate) fn digest(bytes: &[u8]) -> (r: Vec<u8>)
    ensures
        r@ == sha256(bytes@),
        r@.len() == 32,
{
    Sha256::digest(bytes).to_vec()
}

/// The lower-case hexadecimal digest of a text.
pub open spec fn hex_digest(t: Text) -> Text {
    hex_text(sha256(encode_utf8(t)))
}

/// The first 32 digits of the hexadecimal digest of a text.
pub open spec fn short_digest(t: Text) -> Text {
    first_chars(hex_digest(t), 32)
}

/// The lower-case hexadecimal digest of a string.
pub fn hex_digest_of(t: &str) -> (r: String)
    ensures
        r@ == hex_digest(t@),
        r@.len() == 64,
{
    let d = digest(t.as_bytes());
    hex(&d)
}

/// The first 32 digits of the hexadecimal digest of a string.
pub fn short_digest_of(t: &str) -> (r: String)
    ensures
        r@ == short_digest(t@),
{
    let h = hex_digest_of(t);
    head(h.as_str(), 32)
}

/// An identifier that depends on the prefix and the parts alone.
pub open spec fn stable_id_text(prefix: Text, parts: Seq<Text>) -> Text {
    prefix + ":"@ + short_digest(joined(parts, "\0"@))
}

/// An identifier that depends on the prefix and the parts alone.
pub fn stable_id(prefix: &str, parts: &Vec<String>) -> (r: String)
    ensures
        r@ == stable_id_text(prefix@, texts(parts@)),
{
    let all = join(parts, "\0");
    let d = short_digest_of(all.as_str());
    let mut r = prefix.to_owned();
    r.append(":");
    r.append(d.as_str());
    r
}

/// The ledger id of a fact with a stable identifier.
pub fn stable_event_id(id: &str) -> (r: String)
    ensures
        r@ == short_digest(id@),
{
    short_digest_of(id)
}

/// The identifier of the decision of an actor on a set of source events.
pub open spec fn decision_id_text(group_id: Text, actor_id: Text, event_ids: Seq<Text>) -> Text {
    stable_id_text("relay-decision"@, seq![group_id, actor_id] + sorted_list(event_ids))
}

/// The identifier of the decision of an actor on a set of source events.
pub fn decision_id(group_id: &str, actor_id: &str, event_ids: &Vec<String>) -> (r: String)
    ensures
        r@ == decision_id_text(group_id@, actor_id@, texts(event_ids@)),
{
    let mut sorted = sort_texts(event_ids);
    let ghost s = texts(sorted@);
    let mut parts: Vec<String> = Vec::new();
    parts.push(group_id.to_owned());
    parts.push(actor_id.to_owned());
    parts.append(&mut sorted);
    proof {
        assert(texts(parts@) =~= seq![group_id@, actor_id@] + s);
    }
    stable_id("relay-decision", &parts)
}

/// The identifier of a decision does not depend on the order in which its source events are named.
pub proof fn decision_id_ignores_the_order_of_sources(
    group_id: Text,
    actor_id: Text,
    a: Seq<Text>,
    b: Seq<Text>,
)
    requires
        a.to_multiset() == b.to_multiset(),
    ensures
        decision_id_text(group_id, actor_id, a) == decision_id_text(group_id, actor_id, b),
{
    crate::order::sorting_ignores_arrangement(a, b);
}

/// The identifier of the handoff that a member turn leaves for its target.
pub open spec fn handoff_id_text(group: Text, source: Text, target: Text, turn: Text) -> Text {
    stable_id_text("relay-handoff"@, seq![group, source, target, turn])
}

/// The identifier of the handoff that a member turn leaves for its target.
pub fn handoff_id(group: &str, source: &str, target: &str, turn: &str) -> (r: String)
    ensures
        r@ == handoff_id_text(group@, source@, target@, turn@),
{
    let mut parts: Vec<String> = Vec::new();
    parts.push(group.to_owned());
    parts.push(source.to_owned());
    parts.push(target.to_owned());
    parts.push(turn.to_owned());
    proof {
        assert(texts(parts@) =~= seq![group@, source@, target@, turn@]);
    }
    stable_id("relay-handoff", &parts)
}

/// The summary of a handoff.
pub open spec fn handoff_label_text(source: Text, status: Text, count: nat) -> Text {
    source + " ended this turn ("@ + status + "); "@ + decimal_text(count)
        + " original report(s) preserved"@
}

/// The summary of a handoff.
pub fn handoff_label(source_actor_id: &str, status: &str, report_count: usize) -> (r: String)
    ensures
        r@ == handoff_label_text(source_actor_id@, status@, report_count as nat),
{
    let mut r = source_actor_id.to_owned();
    r.append(" ended this turn (");
    r.append(status);
    r.append("); ");
    let n = decimal(report_count as u128);
    r.append(n.as_str());
    r.append(" original report(s) preserved");
    r
}

/// The summary of a decision.
pub open spec fn decision_label_text(
    decision: Text,
    reason: Text,
    next_actor_id: Text,
    next_title: Text,
) -> Text {
    if decision == "continue"@ {
        "Continue with "@ + next_actor_id + ": "@ + next_title
    } else if decision == "wait_user"@ {
        "Waiting for user"@
    } else if decision == "complete"@ {
        "Complete"@
    } else if decision == "blocked"@ {
        "Blocked: "@ + reason
    } else {
        decision
    }
}

/// The summary of a decision.
pub fn decision_label(
    decision: &str,
    reason: &str,
    next_actor_id: &str,
    next_title: &str,
) -> (r: String)
    ensures
        r@ == decision_label_text(decision@, reason@, next_actor_id@, next_title@),
{
    if str_eq(decision, "continue") {
        let mut r = "Continue with ".to_owned();
        r.append(next_actor_id);
        r.append(": ");
        r.append(next_title);
        r
    } else if str_eq(decision, "wait_user") {
        "Waiting for user".to_owned()
    } else if str_eq(decision, "complete") {
        "Complete".to_owned()
    } else if str_eq(decision, "blocked") {
        let mut r = "Blocked: ".to_owned();
        r.append(reason);
        r
    } else {
        decision.to_owned()
    }
}

/// A named part of an intent, framed by zero characters.
pub open spec fn intent_part(name: Text, value: Text) -> Text {
    name + "\0"@ + value + "\0"@
}

/// The JSON form of an optional string.
pub open spec fn opt_literal(t: Option<Text>) -> Text {
    match t {
        Some(x) => json_literal(x),
        None => "null"@,
    }
}

/// The JSON text of the checklist that a request carries; that of null where it carries none.
pub open spec fn checklist_text(args: ObjV) -> Text {
    json_text(or_null(field(args, "checklist"@)))
}

/// All that a decision request asks for, as one text: its parts in a fixed order, each framed.
pub open spec fn intent_text(
    decision: Text,
    reason: Text,
    next_actor_id: Text,
    next_title: Text,
    next_text: Text,
    args: ObjV,
) -> Text {
    intent_part("decision"@, json_literal(decision)) + intent_part("reason"@, json_literal(reason))
        + intent_part("next_actor_id"@, json_literal(next_actor_id)) + intent_part(
        "next_title"@,
        json_literal(next_title),
    ) + intent_part("next_text"@, json_literal(next_text)) + intent_part(
        "task_id"@,
        opt_literal(text_field(args, "task_id"@)),
    ) + intent_part("outcome"@, opt_literal(text_field(args, "outcome"@))) + intent_part(
        "task_priority"@,
        opt_literal(text_field(args, "task_priority"@)),
    ) + intent_part("checklist"@, checklist_text(args)) + intent_part(
        "insight"@,
        opt_literal(text_field(args, "insight"@)),
    )
}

/// The fingerprint of a decision request.
pub open spec fn fingerprint_text(
    decision: Text,
    reason: Text,
    next_actor_id: Text,
    next_title: Text,
    next_text: Text,
    args: ObjV,
) -> Text {
    "relay-intent:"@ + short_digest(
        intent_text(decision, reason, next_actor_id, next_title, next_text, args),
    )
}

fn add_part(all: &mut String, name: &str, value: &str)
    ensures
        final(all)@ == old(all)@ + intent_part(name@, value@),
{
    let ghost start = all@;
    all.append(name);
    all.append("\0");
    all.append(value);
    all.append("\0");
    proof {
        assert(all@ =~= start + intent_part(name@, value@));
    }
}

fn opt_literal_of(request: &DaemonRequest, key: &str) -> (r: String)
    ensures
        r@ == opt_literal(text_field(request@.args, key@)),
{
    match string_arg(request, key) {
        Some(t) => literal(t.as_str()),
        None => "null".to_owned(),
    }
}

/// The fingerprint of a decision request. The summary of a request is no part of it.
pub fn decision_fingerprint(
    decision: &str,
    reason: &str,
    next_actor_id: &str,
    next_title: &str,
    next_text: &str,
    request: &DaemonRequest,
) -> (r: String)
    ensures
        r@ == fingerprint_text(
            decision@,
            reason@,
            next_actor_id@,
            next_title@,
            next_text@,
            request@.args,
        ),
{
    let mut all = String::new();
    let part = literal(decision);
    add_part(&mut all, "decision", part.as_str());
    proof {
        assert(all@ =~= intent_part("decision"@, json_literal(decision@)));
    }
    let part = literal(reason);
    add_part(&mut all, "reason", part.as_str());
    let part = literal(next_actor_id);
    add_part(&mut all, "next_actor_id", part.as_str());
    let part = literal(next_title);
    add_part(&mut all, "next_title", part.as_str());
    let part = literal(next_text);
    add_part(&mut all, "next_text", part.as_str());
    let part = opt_literal_of(request, "task_id");
    add_part(&mut all, "task_id", part.as_str());
    let part = opt_literal_of(request, "outcome");
    add_part(&mut all, "outcome", part.as_str());
    let part = opt_literal_of(request, "task_priority");
    add_part(&mut all, "task_priority", part.as_str());
    let list = request.args.copy_or_null("checklist");
    let part = list.write();
    add_part(&mut all, "checklist", part.as_str());
    let part = opt_literal_of(request, "insight");
    add_part(&mut all, "insight", part.as_str());
    let d = short_digest_of(all.as_str());
    let mut r = "relay-intent:".to_owned();
    r.append(d.as_str());
    r
}

} // verus!
