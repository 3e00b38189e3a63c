//! The words of the relay: the members of its requests, entries and answers, told apart by their
//! lengths and letters.

use vstd::prelude::*;

verus! {

/// The members of a request to decide differ from its summary.
pub(crate) proof fn lemma_request_keys()
    ensures
        "summary"@.len() == 7,
        "by"@.len() == 2,
        "actor_id"@.len() == 8,
        "decision"@.len() == 8,
        "reason"@.len() == 6,
        "next_actor_id"@.len() == 13,
        "next_title"@.len() == 10,
        "next_text"@.len() == 9,
        "event_id"@.len() == 8,
        "event_ids"@.len() == 9,
        "task_id"@.len() == 7,
        "outcome"@.len() == 7,
        "task_priority"@.len() == 13,
        "checklist"@.len() == 9,
        "insight"@.len() == 7,
        "summary"@[0] == 's',
        "task_id"@[0] == 't',
        "outcome"@[0] == 'o',
        "insight"@[0] == 'i',
{
    reveal_strlit("summary");
    reveal_strlit("by");
    reveal_strlit("actor_id");
    reveal_strlit("decision");
    reveal_strlit("reason");
    reveal_strlit("next_actor_id");
    reveal_strlit("next_title");
    reveal_strlit("next_text");
    reveal_strlit("event_id");
    reveal_strlit("event_ids");
    reveal_strlit("task_id");
    reveal_strlit("outcome");
    reveal_strlit("task_priority");
    reveal_strlit("checklist");
    reveal_strlit("insight");
}

/// The members of a handoff differ.
pub(crate) proof fn lemma_handoff_keys()
    ensures
        "handoff_id"@.len() == 10,
        "source_event_ids"@.len() == 16,
        "source_actor_id"@.len() == 15,
        "target_actor_id"@.len() == 15,
        "turn_id"@.len() == 7,
        "turn_status"@.len() == 11,
        "summary"@.len() == 7,
        "task_ids"@.len() == 8,
        "status"@.len() == 6,
        "source_actor_id"@[0] == 's',
        "target_actor_id"@[0] == 't',
        "turn_id"@[0] == 't',
        "summary"@[0] == 's',
{
    reveal_strlit("handoff_id");
    reveal_strlit("source_event_ids");
    reveal_strlit("source_actor_id");
    reveal_strlit("target_actor_id");
    reveal_strlit("turn_id");
    reveal_strlit("turn_status");
    reveal_strlit("summary");
    reveal_strlit("task_ids");
    reveal_strlit("status");
}

/// The members of a recorded decision differ.
pub(crate) proof fn lemma_decision_keys()
    ensures
        "decision_id"@.len() == 11,
        "request_fingerprint"@.len() == 19,
        "by"@.len() == 2,
        "decision"@.len() == 8,
        "summary"@.len() == 7,
        "reason"@.len() == 6,
        "source_event_ids"@.len() == 16,
        "handoff_ids"@.len() == 11,
        "task_ids"@.len() == 8,
        "next_task_id"@.len() == 12,
        "visible_event_id"@.len() == 16,
        "responsibility"@.len() == 14,
        "caller_may_idle"@.len() == 15,
        "safe_to_idle"@.len() == 12,
        "status"@.len() == 6,
        "decision_id"@[0] == 'd',
        "decision"@[0] == 'd',
        "source_event_ids"@[0] == 's',
        "handoff_ids"@[0] == 'h',
        "task_ids"@[0] == 't',
        "visible_event_id"@[0] == 'v',
        "next_task_id"@[0] == 'n',
        "safe_to_idle"@[0] == 's',
        "reason"@[0] == 'r',
        "status"@[0] == 's',
{
    reveal_strlit("decision_id");
    reveal_strlit("request_fingerprint");
    reveal_strlit("by");
    reveal_strlit("decision");
    reveal_strlit("summary");
    reveal_strlit("reason");
    reveal_strlit("source_event_ids");
    reveal_strlit("handoff_ids");
    reveal_strlit("task_ids");
    reveal_strlit("next_task_id");
    reveal_strlit("visible_event_id");
    reveal_strlit("responsibility");
    reveal_strlit("caller_may_idle");
    reveal_strlit("safe_to_idle");
    reveal_strlit("status");
}

/// The members of an answer to a decision differ.
pub(crate) proof fn lemma_answer_keys()
    ensures
        "relay"@.len() == 5,
        "decision_event_id"@.len() == 17,
        "replayed"@.len() == 8,
        "caller_may_idle"@.len() == 15,
        "safe_to_idle"@.len() == 12,
        "current_responsibility"@.len() == 22,
        "current_responsibilities"@.len() == 24,
        "instructions"@.len() == 12,
        "safe_to_idle"@[0] == 's',
        "instructions"@[0] == 'i',
{
    reveal_strlit("relay");
    reveal_strlit("decision_event_id");
    reveal_strlit("replayed");
    reveal_strlit("caller_may_idle");
    reveal_strlit("safe_to_idle");
    reveal_strlit("current_responsibility");
    reveal_strlit("current_responsibilities");
    reveal_strlit("instructions");
}

/// The members of a reminder or an escalation differ.
pub(crate) proof fn lemma_notice_keys()
    ensures
        "group_id"@.len() == 8,
        "by"@.len() == 2,
        "to"@.len() == 2,
        "message_mode"@.len() == 12,
        "text"@.len() == 4,
        "client_id"@.len() == 9,
        "relay_kind"@.len() == 10,
        "relay_actor_id"@.len() == 14,
        "relay_handoff_ids"@.len() == 17,
        "relay_source_event_ids"@.len() == 22,
        "by"@[0] == 'b',
        "to"@[0] == 't',
        "relay_actor_id"@[6] == 'a',
{
    reveal_strlit("group_id");
    reveal_strlit("by");
    reveal_strlit("to");
    reveal_strlit("message_mode");
    reveal_strlit("text");
    reveal_strlit("client_id");
    reveal_strlit("relay_kind");
    reveal_strlit("relay_actor_id");
    reveal_strlit("relay_handoff_ids");
    reveal_strlit("relay_source_event_ids");
}

/// The decisions differ.
pub(crate) proof fn lemma_decisions()
    ensures
        "complete"@.len() == 8,
        "continue"@.len() == 8,
        "wait_user"@.len() == 9,
        "blocked"@.len() == 7,
        "complete"@[2] == 'm',
        "continue"@[2] == 'n',
{
    reveal_strlit("complete");
    reveal_strlit("continue");
    reveal_strlit("wait_user");
    reveal_strlit("blocked");
}

} // verus!
