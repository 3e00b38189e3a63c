//! What an operation does to the shared context, told of the notes and members themselves.

use crate::context::{
    applied, briefed, change_entry, copied, merged, noted, origin_time, relay_note, relay_noted,
    run_from, with_machine_fields, ProgressV,
};
use crate::json::{field, text_field, JsonV, ObjV};
use crate::model::ContextV;
use crate::text::{is_blank, Text};
use vstd::prelude::*;

verus! {

/// The members of notes and briefs differ.
pub(crate) proof fn lemma_context_words()
    ensures
        "id"@.len() == 2,
        "at"@.len() == 2,
        "summary"@.len() == 7,
        "task_id"@.len() == 7,
        "by"@.len() == 2,
        "decision"@.len() == 8,
        "state"@.len() == 5,
        "status"@.len() == 6,
        "source_event_ids"@.len() == 16,
        "source_actor_id"@.len() == 15,
        "target_actor_id"@.len() == 15,
        "turn_id"@.len() == 7,
        "handoff_ids"@.len() == 11,
        "next_actor_id"@.len() == 13,
        "next_task_id"@.len() == 12,
        "visible_event_id"@.len() == 16,
        "safe_to_idle"@.len() == 12,
        "caller_may_idle"@.len() == 15,
        "reason"@.len() == 6,
        "responsibility"@.len() == 14,
        "resolved_at"@.len() == 11,
        "resolved_by"@.len() == 11,
        "decision_id"@.len() == 11,
        "request_fingerprint"@.len() == 19,
        "reminder_event_id"@.len() == 17,
        "escalation_event_id"@.len() == 19,
        "objective"@.len() == 9,
        "current_focus"@.len() == 13,
        "constraints"@.len() == 11,
        "project_brief"@.len() == 13,
        "project_brief_stale"@.len() == 19,
        "updated_by"@.len() == 10,
        "updated_at"@.len() == 10,
        "id"@[0] == 'i',
        "at"@[0] == 'a',
        "by"@[0] == 'b',
        "summary"@[0] == 's',
        "task_id"@[0] == 't',
        "turn_id"@[0] == 't',
        "task_id"@[1] == 'a',
        "turn_id"@[1] == 'u',
        "status"@[0] == 's',
        "reason"@[0] == 'r',
        "source_event_ids"@[0] == 's',
        "visible_event_id"@[0] == 'v',
        "source_actor_id"@[0] == 's',
        "target_actor_id"@[0] == 't',
        "caller_may_idle"@[0] == 'c',
        "handoff_ids"@[0] == 'h',
        "resolved_at"@[0] == 'r',
        "resolved_by"@[0] == 'r',
        "decision_id"@[0] == 'd',
        "constraints"@[0] == 'c',
        "next_actor_id"@[0] == 'n',
        "current_focus"@[0] == 'c',
        "project_brief"@[0] == 'p',
        "next_task_id"@[0] == 'n',
        "safe_to_idle"@[0] == 's',
        "resolved_at"@[9] == 'a',
        "resolved_by"@[9] == 'b',
        "request_fingerprint"@[0] == 'r',
        "escalation_event_id"@[0] == 'e',
        "project_brief_stale"@[0] == 'p',
        "updated_by"@[8] == 'b',
        "updated_at"@[8] == 'a',
{
    reveal_strlit("id");
    reveal_strlit("at");
    reveal_strlit("summary");
    reveal_strlit("task_id");
    reveal_strlit("by");
    reveal_strlit("decision");
    reveal_strlit("state");
    reveal_strlit("status");
    reveal_strlit("source_event_ids");
    reveal_strlit("source_actor_id");
    reveal_strlit("target_actor_id");
    reveal_strlit("turn_id");
    reveal_strlit("handoff_ids");
    reveal_strlit("next_actor_id");
    reveal_strlit("next_task_id");
    reveal_strlit("visible_event_id");
    reveal_strlit("safe_to_idle");
    reveal_strlit("caller_may_idle");
    reveal_strlit("reason");
    reveal_strlit("responsibility");
    reveal_strlit("resolved_at");
    reveal_strlit("resolved_by");
    reveal_strlit("decision_id");
    reveal_strlit("request_fingerprint");
    reveal_strlit("reminder_event_id");
    reveal_strlit("escalation_event_id");
    reveal_strlit("objective");
    reveal_strlit("current_focus");
    reveal_strlit("constraints");
    reveal_strlit("project_brief");
    reveal_strlit("project_brief_stale");
    reveal_strlit("updated_by");
    reveal_strlit("updated_at");
}

/// Whether a member of a relay note is machine state.
pub open spec fn is_machine_state(key: Text) -> bool {
    ||| key == "decision"@
    ||| key == "state"@
    ||| key == "status"@
    ||| key == "source_event_ids"@
    ||| key == "source_actor_id"@
    ||| key == "target_actor_id"@
    ||| key == "turn_id"@
    ||| key == "handoff_ids"@
    ||| key == "next_actor_id"@
    ||| key == "next_task_id"@
    ||| key == "visible_event_id"@
    ||| key == "safe_to_idle"@
    ||| key == "caller_may_idle"@
    ||| key == "reason"@
    ||| key == "responsibility"@
    ||| key == "resolved_at"@
    ||| key == "resolved_by"@
    ||| key == "decision_id"@
    ||| key == "request_fingerprint"@
    ||| key == "reminder_event_id"@
    ||| key == "escalation_event_id"@
}

#[verifier::spinoff_prover]
proof fn lemma_machine_fields(m: ObjV, op: ObjV, key: Text)
    ensures
        field(with_machine_fields(m, op), key) == if is_machine_state(key) && op.contains_key(key) {
            Some(op[key])
        } else {
            field(m, key)
        },
{
    lemma_one_copied(m, op, "decision"@, key);
    let m1 = copied(m, op, "decision"@);
    lemma_one_copied(m1, op, "state"@, key);
    let m2 = copied(m1, op, "state"@);
    lemma_one_copied(m2, op, "status"@, key);
    let m3 = copied(m2, op, "status"@);
    lemma_one_copied(m3, op, "source_event_ids"@, key);
    let m4 = copied(m3, op, "source_event_ids"@);
    lemma_one_copied(m4, op, "source_actor_id"@, key);
    let m5 = copied(m4, op, "source_actor_id"@);
    lemma_one_copied(m5, op, "target_actor_id"@, key);
    let m6 = copied(m5, op, "target_actor_id"@);
    lemma_one_copied(m6, op, "turn_id"@, key);
    let m7 = copied(m6, op, "turn_id"@);
    lemma_one_copied(m7, op, "handoff_ids"@, key);
    let m8 = copied(m7, op, "handoff_ids"@);
    lemma_one_copied(m8, op, "next_actor_id"@, key);
    let m9 = copied(m8, op, "next_actor_id"@);
    lemma_one_copied(m9, op, "next_task_id"@, key);
    let m10 = copied(m9, op, "next_task_id"@);
    lemma_one_copied(m10, op, "visible_event_id"@, key);
    let m11 = copied(m10, op, "visible_event_id"@);
    lemma_one_copied(m11, op, "safe_to_idle"@, key);
    let m12 = copied(m11, op, "safe_to_idle"@);
    lemma_one_copied(m12, op, "caller_may_idle"@, key);
    let m13 = copied(m12, op, "caller_may_idle"@);
    lemma_one_copied(m13, op, "reason"@, key);
    let m14 = copied(m13, op, "reason"@);
    lemma_one_copied(m14, op, "responsibility"@, key);
    let m15 = copied(m14, op, "responsibility"@);
    lemma_one_copied(m15, op, "resolved_at"@, key);
    let m16 = copied(m15, op, "resolved_at"@);
    lemma_one_copied(m16, op, "resolved_by"@, key);
    let m17 = copied(m16, op, "resolved_by"@);
    lemma_one_copied(m17, op, "decision_id"@, key);
    let m18 = copied(m17, op, "decision_id"@);
    lemma_one_copied(m18, op, "request_fingerprint"@, key);
    let m19 = copied(m18, op, "request_fingerprint"@);
    lemma_one_copied(m19, op, "reminder_event_id"@, key);
    let m20 = copied(m19, op, "reminder_event_id"@);
    lemma_one_copied(m20, op, "escalation_event_id"@, key);
    let m21 = copied(m20, op, "escalation_event_id"@);
    assert(with_machine_fields(m, op) == m21);
}

proof fn lemma_one_copied(m: ObjV, op: ObjV, copy: Text, key: Text)
    ensures
        field(copied(m, op, copy), key) == if key == copy && op.contains_key(key) {
            Some(op[key])
        } else {
            field(m, key)
        },
{
    reveal(copied);
}

/// A relay note holds its id, its time, its summary, its task and its author, and of the machine
/// state just what the operation gives.
pub proof fn a_relay_note_holds_what_it_is_given(
    op: ObjV,
    id: Text,
    summary: Text,
    at: JsonV,
    by: Text,
    key: Text,
)
    ensures
        ({
            let n = relay_note(op, id, summary, at, by);
            &&& n.at("id"@) == JsonV::Str(id)
            &&& n.at("at"@) == at
            &&& n.at("summary"@) == JsonV::Str(summary)
            &&& n.at("by"@) == JsonV::Str(by)
            &&& n.at("task_id"@) == JsonV::Obj(op).at("task_id"@)
            &&& is_machine_state(key) ==> n.at(key) == JsonV::Obj(op).at(key)
            &&& n.get(key) is Some ==> is_machine_state(key) || key == "id"@ || key == "at"@ || key
                == "summary"@ || key == "by"@ || key == "task_id"@
        }),
{
    lemma_context_words();
    let base = map![
        "id"@ => JsonV::Str(id),
        "at"@ => at,
        "summary"@ => JsonV::Str(summary),
        "task_id"@ => crate::json::or_null(field(op, "task_id"@)),
        "by"@ => JsonV::Str(by),
    ];
    lemma_machine_fields(base, op, "id"@);
    lemma_machine_fields(base, op, "at"@);
    lemma_machine_fields(base, op, "summary"@);
    lemma_machine_fields(base, op, "by"@);
    lemma_machine_fields(base, op, "task_id"@);
    lemma_machine_fields(base, op, key);
    if is_machine_state(key) {
        assert(!base.contains_key(key));
    }
}

/// The list that an operation writes its note into.
pub open spec fn its_list(op: ObjV) -> Option<Text> {
    match text_field(op, "kind"@) {
        None => Some("recent_decisions"@),
        Some(k) => if k == "decision"@ {
            Some("recent_decisions"@)
        } else if k == "handoff"@ {
            Some("recent_handoffs"@)
        } else {
            None
        },
    }
}

/// Whether a context differs from another in one member of its coordination only.
pub open spec fn differs_only_in(d: ContextV, e: ContextV, key: Text) -> bool {
    &&& e.tasks == d.tasks
    &&& e.meta == d.meta
    &&& forall|k: Text|
        k != key ==> (#[trigger] e.coordination.contains_key(k) <==> d.coordination.contains_key(k))
            && (d.coordination.contains_key(k) ==> e.coordination[k] == d.coordination[k])
}

/// The notes of a list; none where it is no list.
pub open spec fn notes_in(d: ContextV, key: Text) -> Option<Seq<JsonV>> {
    if !d.coordination.contains_key(key) {
        Some(Seq::empty())
    } else {
        match d.coordination[key] {
            JsonV::Arr(v) => Some(v),
            _ => None,
        }
    }
}

/// Whether a member is a text of more than blanks.
pub open spec fn has_words(op: ObjV, key: Text) -> bool {
    text_field(op, key) matches Some(t) && !is_blank(t)
}

/// A note is added at the end of the list of its kind, with its time, summary, task and author, and
/// the oldest give way beyond a hundred; nothing else of the context changes. It has to have a
/// summary and a kind that is known.
pub proof fn a_note_is_added_at_the_end(d: ContextV, op: ObjV, by: Text, now: Text)
    ensures
        noted(d, op, by, now) is Ok <==> has_words(op, "summary"@) && (its_list(op) matches Some(key)
            && notes_in(d, key) is Some),
        noted(d, op, by, now) matches Ok(e) ==> (its_list(op) matches Some(key) && (notes_in(d, key)
            matches Some(old_notes) && (notes_in(e, key) matches Some(new_notes) && {
            let n = new_notes.last();
            &&& differs_only_in(d, e, key)
            &&& new_notes.len() == if old_notes.len() + 1 <= 100 {
                old_notes.len() + 1
            } else {
                100
            }
            &&& new_notes.drop_last() == old_notes.skip(old_notes.len() - (new_notes.len() - 1))
            &&& n.at("at"@) == JsonV::Str(now)
            &&& n.at("by"@) == JsonV::Str(by)
            &&& n.at("summary"@).text() == text_field(op, "summary"@)
            &&& n.at("task_id"@) == JsonV::Obj(op).at("task_id"@)
        }))),
{
    lemma_context_words();
    if let Ok(e) = noted(d, op, by, now) {
        let key = its_list(op)->0;
        let old_notes = notes_in(d, key)->0;
        let new_notes = notes_in(e, key)->0;
        assert(new_notes.drop_last() =~= old_notes.skip(old_notes.len() - (new_notes.len() - 1)));
    }
}

/// A relay note is written into the list of its kind: over the note with its id where there is one,
/// whose time it keeps, and at the end otherwise. Nothing else of the context changes.
pub proof fn a_relay_note_is_written_under_its_id(d: ContextV, op: ObjV, by: Text, now: Text)
    ensures
        relay_noted(d, op, by, now) is Ok <==> has_words(op, "summary"@) && has_words(op, "id"@) && (
        its_list(op) matches Some(key) && notes_in(d, key) is Some),
        relay_noted(d, op, by, now) matches Ok(e) ==> (its_list(op) matches Some(key)
            && differs_only_in(d, e, key) && (notes_in(d, key) matches Some(old_notes) && (notes_in(
            e,
            key,
        ) matches Some(new_notes) && {
            let id = text_field(op, "id"@)->0;
            let summary = text_field(op, "summary"@)->0;
            &&& (forall|i: int|
                0 <= i < old_notes.len() ==> (#[trigger] old_notes[i]).at("id"@) != JsonV::Str(id))
                ==> new_notes.last() == relay_note(op, id, summary, JsonV::Str(now), by)
            &&& forall|i: int|
                0 <= i < old_notes.len() && (#[trigger] old_notes[i]).at("id"@) == JsonV::Str(id) && (
                forall|j: int| 0 <= j < i ==> (#[trigger] old_notes[j]).at("id"@) != JsonV::Str(id))
                    ==> new_notes == old_notes.update(
                    i,
                    relay_note(
                        op,
                        id,
                        summary,
                        match old_notes[i].get("at"@) {
                            Some(at) => at,
                            None => JsonV::Str(now),
                        },
                        by,
                    ),
                )
        }))),
{
    if let Ok(e) = relay_noted(d, op, by, now) {
        let key = its_list(op)->0;
        let old_notes = notes_in(d, key)->0;
        let new_notes = notes_in(e, key)->0;
        let id = text_field(op, "id"@)->0;
        let summary = text_field(op, "summary"@)->0;
        let p = |n: JsonV| n.at("id"@).text() == Some(id);
        let w = crate::lists::lemma_first_where(old_notes, p);
        if forall|i: int|
            0 <= i < old_notes.len() ==> (#[trigger] old_notes[i]).at("id"@) != JsonV::Str(id) {
            assert(crate::lists::first_match(old_notes, p) is None) by {
                if crate::lists::first_match(old_notes, p) is Some {
                    assert(old_notes[w].at("id"@) == JsonV::Str(id));
                }
            }
        }
        assert forall|i: int|
            0 <= i < old_notes.len() && (#[trigger] old_notes[i]).at("id"@) == JsonV::Str(id) && (
            forall|j: int| 0 <= j < i ==> (#[trigger] old_notes[j]).at("id"@) != JsonV::Str(id))
                implies new_notes == old_notes.update(
            i,
            relay_note(
                op,
                id,
                summary,
                match old_notes[i].get("at"@) {
                    Some(at) => at,
                    None => JsonV::Str(now),
                },
                by,
            ),
        ) by {
            assert forall|j: int| 0 <= j < i implies !p(#[trigger] old_notes[j]) by {
                assert(old_notes[j].at("id"@) != JsonV::Str(id));
            }
            crate::lists::lemma_first_at(old_notes, p, i);
            let at = origin_time(Some(old_notes[i]), now);
            crate::context::a_relay_note_is_replaced_in_place(
                old_notes,
                id,
                relay_note(op, id, summary, at, by),
                i,
            );
        }
    }
}

/// Whether a member belongs to the brief.
pub open spec fn is_of_the_brief(key: Text) -> bool {
    ||| key == "objective"@
    ||| key == "current_focus"@
    ||| key == "constraints"@
    ||| key == "project_brief"@
    ||| key == "project_brief_stale"@
}

/// An update of the brief writes the members of the brief that it gives, and by whom and when; its
/// other members and the rest of the context stay.
pub proof fn a_brief_is_updated_as_given(d: ContextV, op: ObjV, by: Text, now: Text, key: Text)
    ensures
        briefed(d, op, by, now) is Ok <==> !d.coordination.contains_key("brief"@)
            || d.coordination["brief"@] is Obj,
        briefed(d, op, by, now) matches Ok(e) ==> differs_only_in(d, e, "brief"@) && (
        e.coordination["brief"@] matches JsonV::Obj(m) && {
            let known = JsonV::Obj(d.coordination).at("brief"@);
            &&& m["updated_by"@] == JsonV::Str(by)
            &&& m["updated_at"@] == JsonV::Str(now)
            &&& is_of_the_brief(key) && op.contains_key(key) ==> JsonV::Obj(m).at(key) == op[key]
            &&& !(is_of_the_brief(key) && op.contains_key(key)) && key != "updated_by"@ && key
                != "updated_at"@ ==> JsonV::Obj(m).get(key) == known.get(key)
        }),
{
    lemma_context_words();
    if let Ok(e) = briefed(d, op, by, now) {
        let m = match field(d.coordination, "brief"@) {
            None => Map::<Text, JsonV>::empty(),
            Some(v) => v.object()->0,
        };
        lemma_one_copied(m, op, "objective"@, key);
        let m1 = copied(m, op, "objective"@);
        lemma_one_copied(m1, op, "current_focus"@, key);
        let m2 = copied(m1, op, "current_focus"@);
        lemma_one_copied(m2, op, "constraints"@, key);
        let m3 = copied(m2, op, "constraints"@);
        lemma_one_copied(m3, op, "project_brief"@, key);
        let m4 = copied(m3, op, "project_brief"@);
        lemma_one_copied(m4, op, "project_brief_stale"@, key);
        let m5 = copied(m4, op, "project_brief_stale"@);
        let m6 = m5.insert("updated_by"@, JsonV::Str(by)).insert("updated_at"@, JsonV::Str(now));
        assert(e.coordination["brief"@] == JsonV::Obj(m6));
        assert(key != "updated_by"@ && key != "updated_at"@ ==> field(m6, key) == field(m5, key));
    }
}

/// A merge of the meta data takes the status of the project over and nothing else.
pub proof fn only_the_project_status_is_merged(d: ContextV, op: ObjV)
    ensures
        merged(d, op) is Ok <==> op.contains_key("data"@) && op["data"@] is Obj,
        merged(d, op) matches Ok(e) ==> {
            &&& e.tasks == d.tasks
            &&& e.coordination == d.coordination
            &&& op["data"@].get("project_status"@) matches Some(v) ==> e.meta == d.meta.insert(
                "project_status"@,
                v,
            )
            &&& op["data"@].get("project_status"@) is None ==> e.meta == d.meta
        },
{
    reveal(copied);
}

/// Each operation is the one that its name says; one that has no known name is refused.
pub proof fn an_operation_is_what_its_name_says(d: ContextV, op: ObjV, by: Text, now: Text)
    ensures
        ({
            let name = text_field(op, "op"@);
            let r = applied(d, op, by, now);
            &&& name == Some("coordination.brief.update"@) ==> r == briefed(d, op, by, now)
            &&& name == Some("coordination.note.add"@) ==> r == noted(d, op, by, now)
            &&& name == Some("coordination.relay.note"@) ==> r == relay_noted(d, op, by, now)
            &&& name == Some("meta.merge"@) ==> r == merged(d, op)
            &&& r is Ok ==> name == Some("coordination.brief.update"@) || name == Some(
                "coordination.note.add"@,
            ) || name == Some("coordination.relay.note"@) || name == Some("meta.merge"@)
        }),
{
    reveal_strlit("coordination.brief.update");
    reveal_strlit("coordination.note.add");
    reveal_strlit("coordination.relay.note");
    reveal_strlit("meta.merge");
    assert("coordination.brief.update"@.len() == 25);
    assert("coordination.note.add"@.len() == 21);
    assert("coordination.relay.note"@.len() == 23);
    assert("meta.merge"@.len() == 10);
}

/// Operations are applied one after the other: the first that belongs elsewhere stops them there,
/// the first that is refused ends them, and otherwise the next goes on from what it left.
pub proof fn operations_are_applied_in_order(
    d: ContextV,
    ops: Seq<ObjV>,
    from: int,
    by: Text,
    now: Text,
)
    requires
        0 <= from < ops.len(),
    ensures
        ({
            let r = run_from(d, ops, from, by, now);
            let name = text_field(ops[from], "op"@);
            let elsewhere = name == Some("task.create"@) || name == Some("task.update"@) || name
                == Some("task.move"@) || name == Some("task.restore"@) || name == Some(
                "task.delete"@,
            ) || name == Some("agent_state.update"@) || name == Some("agent_state.clear"@);
            &&& elsewhere ==> r == (d, ProgressV::Elsewhere(from))
            &&& !elsewhere && name is Some ==> match applied(d, ops[from], by, now) {
                Ok(next) => r == run_from(next, ops, from + 1, by, now),
                Err(e) => r == (d, ProgressV::Refused(e)),
            }
        }),
{
}

/// Changes are recorded once there is one, with the version that they lead to.
pub proof fn changes_are_recorded_with_their_version(version: Text, changes: Seq<JsonV>)
    ensures
        changes.len() == 0 <==> change_entry(version, changes) is None,
        change_entry(version, changes) matches Some(m) ==> m["version"@] == JsonV::Str(version)
            && m["changes"@] == JsonV::Arr(changes),
{
    reveal_strlit("version");
    reveal_strlit("changes");
    assert("version"@[0] == 'v');
    assert("changes"@[0] == 'c');
}

} // verus!
