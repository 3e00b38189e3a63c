//! The words of a target: its members and the statuses of its last delivery, told apart by their
//! lengths and letters.

use vstd::prelude::*;

verus! {

/// The members of a target differ.
pub(crate) proof fn lemma_target_keys()
    ensures
        "last_delivery_id"@.len() == 16,
        "last_delivery_turn_id"@.len() == 21,
        "last_delivery_event_ids"@.len() == 23,
        "last_delivery_status"@.len() == 20,
        "last_delivery_started_at"@.len() == 24,
        "last_delivery_at"@.len() == 16,
        "last_delivery_reconcile_attempts"@.len() == 32,
        "last_submission_evidence"@.len() == 24,
        "last_error"@.len() == 10,
        "bootstrap_seed_delivered_at"@.len() == 27,
        "bootstrap_seed_version"@.len() == 22,
        "bootstrap_seed_digest"@.len() == 21,
        "bootstrap_seed_conversation_url"@.len() == 31,
        "state"@.len() == 5,
        "kind"@.len() == 4,
        "url"@.len() == 3,
        "saved_at"@.len() == 8,
        "bound_at"@.len() == 8,
        "next_delivery"@.len() == 13,
        "submitted_at"@.len() == 12,
        "delivery_id"@.len() == 11,
        "last_delivery_id"@[14] == 'i',
        "last_delivery_at"@[14] == 'a',
{
    reveal_strlit("last_delivery_id");
    reveal_strlit("last_delivery_turn_id");
    reveal_strlit("last_delivery_event_ids");
    reveal_strlit("last_delivery_status");
    reveal_strlit("last_delivery_started_at");
    reveal_strlit("last_delivery_at");
    reveal_strlit("last_delivery_reconcile_attempts");
    reveal_strlit("last_submission_evidence");
    reveal_strlit("last_error");
    reveal_strlit("bootstrap_seed_delivered_at");
    reveal_strlit("bootstrap_seed_version");
    reveal_strlit("bootstrap_seed_digest");
    reveal_strlit("bootstrap_seed_conversation_url");
    reveal_strlit("state");
    reveal_strlit("kind");
    reveal_strlit("url");
    reveal_strlit("saved_at");
    reveal_strlit("bound_at");
    reveal_strlit("next_delivery");
    reveal_strlit("submitted_at");
    reveal_strlit("delivery_id");
}

/// The statuses of a delivery differ.
pub(crate) proof fn lemma_statuses()
    ensures
        "preparing"@.len() == 9,
        "deferred"@.len() == 8,
        "submitting"@.len() == 10,
        "submitted"@.len() == 9,
        "completion_ambiguous"@.len() == 20,
        "submission_ambiguous"@.len() == 20,
        "submission_ambiguous_completion_pending"@.len() == 39,
        "legacy_recovery_submitting"@.len() == 26,
        "pending_new_chat_bind"@.len() == 21,
        "completion_ambiguous"@[0] == 'c',
        "submission_ambiguous"@[0] == 's',
        "preparing"@[0] == 'p',
        "submitted"@[0] == 's',
{
    reveal_strlit("preparing");
    reveal_strlit("deferred");
    reveal_strlit("submitting");
    reveal_strlit("submitted");
    reveal_strlit("completion_ambiguous");
    reveal_strlit("submission_ambiguous");
    reveal_strlit("submission_ambiguous_completion_pending");
    reveal_strlit("legacy_recovery_submitting");
    reveal_strlit("pending_new_chat_bind");
}

} // verus!
