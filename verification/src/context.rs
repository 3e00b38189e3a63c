//! Operations on the shared context of a group.

use crate::failure::{other_failure, said, Failure, FailureV};
use crate::json::{
    field, lemma_values, lemma_values_are_views, lemma_values_push, objects, or_null, text_field,
    values, Json, JsonMap, JsonV, ObjV,
};
use crate::json_access::copy_all;
use crate::lists::{find_first, first_match, lemma_views, lemma_views_push};
use crate::model::{ContextDoc, ContextV};
use crate::text::{blank, is_blank, str_eq, Text};
use vstd::prelude::*;
use vstd::string::*;

verus! {

broadcast use {lemma_views, lemma_views_push, lemma_values, lemma_values_push};

/// The most notes of a kind that the context keeps.
pub const MAX_NOTES: usize = 100;

/// The object with a member of the operation copied in, where the operation has it.
#[verifier::opaque]
pub open spec fn copied(m: ObjV, op: ObjV, key: Text) -> ObjV {
    if op.contains_key(key) {
        m.insert(key, op[key])
    } else {
        m
    }
}

proof fn lemma_copied(m: ObjV, op: ObjV, key: Text, other: Text)
    requires
        key != other,
    ensures
        field(copied(m, op, key), other) == field(m, other),
{
    reveal(copied);
}

fn copy_member(m: &mut JsonMap, op: &JsonMap, key: &str)
    ensures
        final(m)@ == copied(old(m)@, op@, key@),
{
    proof {
        reveal(copied);
    }
    match op.get(key) {
        Some(v) => {
            m.put(key, v.copy());
        },
        None => {},
    }
}

/// A string member that is not blank.
pub open spec fn required_member(op: ObjV, key: Text) -> Result<Text, FailureV> {
    match text_field(op, key) {
        Some(t) => if is_blank(t) {
            Err(other_failure(key + " is required"@))
        } else {
            Ok(t)
        },
        None => Err(other_failure(key + " is required"@)),
    }
}

fn required(op: &JsonMap, key: &str) -> (r: Result<String, Failure>)
    ensures
        said(r) == required_member(op@, key@),
{
    if let Some(t) = op.text(key) {
        if !blank(t) {
            return Ok(t.to_owned());
        }
    }
    let mut m = key.to_owned();
    m.append(" is required");
    Err(Failure::other(m.as_str()))
}

/// The list that notes of a kind go to.
pub open spec fn list_for(kind: Text) -> Result<Text, FailureV> {
    if kind == "decision"@ {
        Ok("recent_decisions"@)
    } else if kind == "handoff"@ {
        Ok("recent_handoffs"@)
    } else {
        Err(other_failure("note kind must be decision or handoff"@))
    }
}

/// The list that notes of a kind go to.
pub fn note_key(kind: &str) -> (r: Result<String, Failure>)
    ensures
        said(r) == list_for(kind@),
{
    if str_eq(kind, "decision") {
        Ok("recent_decisions".to_owned())
    } else if str_eq(kind, "handoff") {
        Ok("recent_handoffs".to_owned())
    } else {
        Err(Failure::other("note kind must be decision or handoff"))
    }
}

/// The kind of note that an operation writes; a decision where it does not say.
pub open spec fn kind_of(op: ObjV) -> Text {
    match text_field(op, "kind"@) {
        Some(t) => t,
        None => "decision"@,
    }
}

/// The list that an operation writes to.
pub open spec fn target_list(op: ObjV) -> Result<Text, FailureV> {
    list_for(kind_of(op))
}

fn target_key(op: &JsonMap) -> (r: Result<String, Failure>)
    ensures
        said(r) == target_list(op@),
{
    match op.text("kind") {
        Some(t) => note_key(t),
        None => note_key("decision"),
    }
}

/// The notes under a key; none where there is no list yet.
pub open spec fn notes_under(coordination: ObjV, key: Text) -> Result<Seq<JsonV>, FailureV> {
    match field(coordination, key) {
        None => Ok(Seq::empty()),
        Some(v) => match v.list() {
            Some(notes) => Ok(notes),
            None => Err(other_failure("invalid notes"@)),
        },
    }
}

fn note_list(doc: &ContextDoc, key: &str) -> (r: Result<Vec<Json>, Failure>)
    ensures
        match r {
            Ok(v) => notes_under(doc@.coordination, key@) == Ok::<Seq<JsonV>, FailureV>(values(v@)),
            Err(e) => notes_under(doc@.coordination, key@) == Err::<Seq<JsonV>, FailureV>(e@),
        },
{
    match doc.coordination.get(key) {
        None => {
            let v: Vec<Json> = Vec::new();
            proof {
                assert(values(v@) =~= Seq::empty());
            }
            Ok(v)
        },
        Some(x) => match x.as_array() {
            Some(v) => Ok(copy_all(v)),
            None => Err(Failure::other("invalid notes")),
        },
    }
}

/// The last notes of a list, at most [`MAX_NOTES`].
pub open spec fn newest(notes: Seq<JsonV>) -> Seq<JsonV> {
    if notes.len() <= MAX_NOTES {
        notes
    } else {
        notes.skip(notes.len() - MAX_NOTES)
    }
}

/// Keeps the last notes of a list, at most [`MAX_NOTES`].
pub fn trim_notes(notes: &mut Vec<Json>)
    ensures
        values(final(notes)@) == newest(values(old(notes)@)),
{
    let ghost all = values(notes@);
    let ghost mut gone: int = 0;
    proof {
        assert(all.skip(0) =~= all);
    }
    while notes.len() > MAX_NOTES
        invariant
            0 <= gone <= all.len(),
            values(notes@) == all.skip(gone),
            gone > 0 ==> notes@.len() >= MAX_NOTES,
        decreases notes@.len(),
    {
        let ghost b = notes@;
        notes.remove(0);
        proof {
            assert(values(notes@) =~= values(b).skip(1));
            assert(all.skip(gone).skip(1) =~= all.skip(gone + 1));
            gone = gone + 1;
        }
    }
    proof {
        if gone > 0 {
            assert(values(notes@).len() == MAX_NOTES);
            assert(gone == all.len() - MAX_NOTES);
        }
    }
}

/// The context with the notes under a key replaced.
pub open spec fn with_notes(d: ContextV, key: Text, notes: Seq<JsonV>) -> ContextV {
    ContextV { coordination: d.coordination.insert(key, JsonV::Arr(notes)), ..d }
}

/// A note that anybody may add: when, what, about which task, by whom, and nothing else.
pub open spec fn public_note(op: ObjV, summary: Text, by: Text, now: Text) -> JsonV {
    JsonV::Obj(
        map![
            "at"@ => JsonV::Str(now),
            "summary"@ => JsonV::Str(summary),
            "task_id"@ => or_null(field(op, "task_id"@)),
            "by"@ => JsonV::Str(by),
        ],
    )
}

/// The context after a note is added.
pub open spec fn noted(d: ContextV, op: ObjV, by: Text, now: Text) -> Result<ContextV, FailureV> {
    match required_member(op, "summary"@) {
        Err(e) => Err(e),
        Ok(summary) => match target_list(op) {
            Err(e) => Err(e),
            Ok(key) => match notes_under(d.coordination, key) {
                Err(e) => Err(e),
                Ok(notes) => Ok(
                    with_notes(d, key, newest(notes.push(public_note(op, summary, by, now)))),
                ),
            },
        },
    }
}

/// The outcome of an operation on the context: the context it leaves, or a refusal that leaves
/// the context as it was.
pub open spec fn leaves(
    before: ContextV,
    after: ContextV,
    r: Result<(), Failure>,
    told: Result<ContextV, FailureV>,
) -> bool {
    match r {
        Ok(_) => told == Ok::<ContextV, FailureV>(after),
        Err(e) => told == Err::<ContextV, FailureV>(e@) && after == before,
    }
}

/// Adds a note that anybody may add.
pub fn add_note(doc: &mut ContextDoc, op: &JsonMap, by: &str, now: &str) -> (r: Result<(), Failure>)
    ensures
        leaves(old(doc)@, final(doc)@, r, noted(old(doc)@, op@, by@, now@)),
{
    let summary = required(op, "summary")?;
    let key = target_key(op)?;
    let mut notes = note_list(doc, key.as_str())?;
    let mut m = JsonMap::new();
    m.put("at", Json::str(now));
    m.put("summary", Json::Str(summary));
    m.put("task_id", op.copy_or_null("task_id"));
    m.put("by", Json::str(by));
    notes.push(Json::Obj(m));
    trim_notes(&mut notes);
    doc.coordination.put(key.as_str(), Json::Arr(notes));
    Ok(())
}

/// The first note with an id.
pub open spec fn note_with_id(notes: Seq<JsonV>, id: Text) -> Option<JsonV> {
    first_match(notes, |n: JsonV| n.at("id"@).text() == Some(id))
}

/// The members that a relay note takes over from its operation.
pub open spec fn with_machine_fields(m: ObjV, op: ObjV) -> ObjV {
    let m = copied(m, op, "decision"@);
    let m = copied(m, op, "state"@);
    let m = copied(m, op, "status"@);
    let m = copied(m, op, "source_event_ids"@);
    let m = copied(m, op, "source_actor_id"@);
    let m = copied(m, op, "target_actor_id"@);
    let m = copied(m, op, "turn_id"@);
    let m = copied(m, op, "handoff_ids"@);
    let m = copied(m, op, "next_actor_id"@);
    let m = copied(m, op, "next_task_id"@);
    let m = copied(m, op, "visible_event_id"@);
    let m = copied(m, op, "safe_to_idle"@);
    let m = copied(m, op, "caller_may_idle"@);
    let m = copied(m, op, "reason"@);
    let m = copied(m, op, "responsibility"@);
    let m = copied(m, op, "resolved_at"@);
    let m = copied(m, op, "resolved_by"@);
    let m = copied(m, op, "decision_id"@);
    let m = copied(m, op, "request_fingerprint"@);
    let m = copied(m, op, "reminder_event_id"@);
    copied(m, op, "escalation_event_id"@)
}

/// The time that a relay note bears: that of the note it replaces, else now.
pub open spec fn origin_time(known: Option<JsonV>, now: Text) -> JsonV {
    match known {
        Some(n) => match n.get("at"@) {
            Some(v) => v,
            None => JsonV::Str(now),
        },
        None => JsonV::Str(now),
    }
}

/// A relay note.
pub open spec fn relay_note(
    op: ObjV,
    id: Text,
    summary: Text,
    at: JsonV,
    by: Text,
) -> JsonV {
    JsonV::Obj(
        with_machine_fields(
            map![
                "id"@ => JsonV::Str(id),
                "at"@ => at,
                "summary"@ => JsonV::Str(summary),
                "task_id"@ => or_null(field(op, "task_id"@)),
                "by"@ => JsonV::Str(by),
            ],
            op,
        ),
    )
}

/// The list with the first note of the id replaced; without one, with the note at the end and the
/// oldest notes beyond the limit gone.
pub open spec fn upserted(notes: Seq<JsonV>, id: Text, note: JsonV) -> Seq<JsonV> {
    let p = |n: JsonV| n.at("id"@).text() == Some(id);
    if first_match(notes, p) is Some {
        replaced_first(notes, p, note)
    } else {
        newest(notes.push(note))
    }
}

/// The list with its first element that meets the condition replaced.
pub open spec fn replaced_first<A>(s: Seq<A>, p: spec_fn(A) -> bool, x: A) -> Seq<A>
    decreases s.len(),
{
    if s.len() == 0 {
        s
    } else if p(s[0]) {
        s.update(0, x)
    } else {
        seq![s[0]] + replaced_first(s.drop_first(), p, x)
    }
}

/// The context after a relay note is written.
pub open spec fn relay_noted(d: ContextV, op: ObjV, by: Text, now: Text) -> Result<ContextV, FailureV> {
    match required_member(op, "summary"@) {
        Err(e) => Err(e),
        Ok(summary) => match required_member(op, "id"@) {
            Err(e) => Err(e),
            Ok(id) => match target_list(op) {
                Err(e) => Err(e),
                Ok(key) => match notes_under(d.coordination, key) {
                    Err(e) => Err(e),
                    Ok(notes) => {
                        let at = origin_time(note_with_id(notes, id), now);
                        Ok(
                            with_notes(
                                d,
                                key,
                                upserted(notes, id, relay_note(op, id, summary, at, by)),
                            ),
                        )
                    },
                },
            },
        },
    }
}

fn copy_machine_fields(m: &mut JsonMap, op: &JsonMap)
    ensures
        final(m)@ == with_machine_fields(old(m)@, op@),
{
    copy_member(m, op, "decision");
    copy_member(m, op, "state");
    copy_member(m, op, "status");
    copy_member(m, op, "source_event_ids");
    copy_member(m, op, "source_actor_id");
    copy_member(m, op, "target_actor_id");
    copy_member(m, op, "turn_id");
    copy_member(m, op, "handoff_ids");
    copy_member(m, op, "next_actor_id");
    copy_member(m, op, "next_task_id");
    copy_member(m, op, "visible_event_id");
    copy_member(m, op, "safe_to_idle");
    copy_member(m, op, "caller_may_idle");
    copy_member(m, op, "reason");
    copy_member(m, op, "responsibility");
    copy_member(m, op, "resolved_at");
    copy_member(m, op, "resolved_by");
    copy_member(m, op, "decision_id");
    copy_member(m, op, "request_fingerprint");
    copy_member(m, op, "reminder_event_id");
    copy_member(m, op, "escalation_event_id");
}

proof fn lemma_replaced_at<A>(s: Seq<A>, p: spec_fn(A) -> bool, x: A, i: int)
    requires
        0 <= i < s.len(),
        p(s[i]),
        forall|j: int| 0 <= j < i ==> !p(#[trigger] s[j]),
    ensures
        replaced_first(s, p, x) == s.update(i, x),
        first_match(s, p) == Some(s[i]),
    decreases s.len(),
{
    if i > 0 {
        assert(!p(s[0]));
        let d = s.drop_first();
        assert forall|j: int| 0 <= j < i - 1 implies !p(#[trigger] d[j]) by {
            assert(!p(s[j + 1]));
        }
        lemma_replaced_at(d, p, x, i - 1);
        assert(seq![s[0]] + d.update(i - 1, x) =~= s.update(i, x));
    }
}

proof fn lemma_no_match<A>(s: Seq<A>, p: spec_fn(A) -> bool)
    requires
        forall|j: int| 0 <= j < s.len() ==> !p(#[trigger] s[j]),
    ensures
        first_match(s, p) is None,
{
    crate::lists::lemma_first_match(s, p);
}

fn upsert(notes: &mut Vec<Json>, id: &str, note: Json)
    ensures
        values(final(notes)@) == upserted(values(old(notes)@), id@, note@),
{
    let ghost all = values(notes@);
    let ghost p = |n: JsonV| n.at("id"@).text() == Some(id@);
    let mut i: usize = 0;
    while i < notes.len()
        invariant
            i <= notes@.len(),
            all == values(notes@),
            values(old(notes)@) == all,
            p == (|n: JsonV| n.at("id"@).text() == Some(id@)),
            forall|j: int| 0 <= j < i ==> !p(#[trigger] all[j]),
        decreases notes@.len() - i,
    {
        if notes[i].is("id", id) {
            proof {
                assert(p(all[i as int]));
                lemma_replaced_at(all, p, note@, i as int);
            }
            notes[i] = note;
            proof {
                assert(values(notes@) =~= all.update(i as int, note@));
            }
            return;
        }
        i += 1;
    }
    proof {
        lemma_no_match(all, p);
    }
    notes.push(note);
    trim_notes(notes);
}

fn time_of(notes: &Vec<Json>, id: &str, now: &str) -> (r: Json)
    ensures
        r@ == origin_time(note_with_id(values(notes@), id@), now@),
{
    let ghost sp = |n: JsonV| n.at("id"@).text() == Some(id@);
    proof {
        lemma_values_are_views(notes@);
    }
    let known = find_first(
        notes,
        |n: &Json| -> (b: bool)
            ensures (b == (n@.at("id"@).text() == Some(id@)))
        {
            n.is("id", id)
        },
        Ghost(sp),
    );
    match known {
        Some(n) => match n.get("at") {
            Some(v) => v.copy(),
            None => Json::str(now),
        },
        None => Json::str(now),
    }
}

/// Writes a relay note: a note of the same id is replaced in its place and keeps its time.
pub fn upsert_relay_note(doc: &mut ContextDoc, op: &JsonMap, by: &str, now: &str) -> (r: Result<
    (),
    Failure,
>)
    ensures
        leaves(old(doc)@, final(doc)@, r, relay_noted(old(doc)@, op@, by@, now@)),
{
    let summary = required(op, "summary")?;
    let id = required(op, "id")?;
    let key = target_key(op)?;
    let mut notes = note_list(doc, key.as_str())?;
    let at = time_of(&notes, id.as_str(), now);
    let mut m = JsonMap::new();
    m.put("id", Json::str(id.as_str()));
    m.put("at", at);
    m.put("summary", Json::Str(summary));
    m.put("task_id", op.copy_or_null("task_id"));
    m.put("by", Json::str(by));
    copy_machine_fields(&mut m, op);
    upsert(&mut notes, id.as_str(), Json::Obj(m));
    doc.coordination.put(key.as_str(), Json::Arr(notes));
    Ok(())
}

/// The context after the brief is updated.
pub open spec fn briefed(d: ContextV, op: ObjV, by: Text, now: Text) -> Result<ContextV, FailureV> {
    let known = match field(d.coordination, "brief"@) {
        None => Some(Map::<Text, JsonV>::empty()),
        Some(v) => v.object(),
    };
    match known {
        None => Err(other_failure("invalid brief"@)),
        Some(m) => {
            let m = copied(m, op, "objective"@);
            let m = copied(m, op, "current_focus"@);
            let m = copied(m, op, "constraints"@);
            let m = copied(m, op, "project_brief"@);
            let m = copied(m, op, "project_brief_stale"@);
            let m = m.insert("updated_by"@, JsonV::Str(by)).insert("updated_at"@, JsonV::Str(now));
            Ok(ContextV { coordination: d.coordination.insert("brief"@, JsonV::Obj(m)), ..d })
        },
    }
}

/// Updates the brief with the members that the operation has.
pub fn update_brief(doc: &mut ContextDoc, op: &JsonMap, by: &str, now: &str) -> (r: Result<
    (),
    Failure,
>)
    ensures
        leaves(old(doc)@, final(doc)@, r, briefed(old(doc)@, op@, by@, now@)),
{
    let mut m = match doc.coordination.get("brief") {
        None => JsonMap::new(),
        Some(v) => match v.as_object() {
            Some(o) => o.copy(),
            None => {
                return Err(Failure::other("invalid brief"));
            },
        },
    };
    copy_member(&mut m, op, "objective");
    copy_member(&mut m, op, "current_focus");
    copy_member(&mut m, op, "constraints");
    copy_member(&mut m, op, "project_brief");
    copy_member(&mut m, op, "project_brief_stale");
    m.put("updated_by", Json::str(by));
    m.put("updated_at", Json::str(now));
    doc.coordination.put("brief", Json::Obj(m));
    Ok(())
}

/// The context after metadata is merged: only the project status is taken over.
pub open spec fn merged(d: ContextV, op: ObjV) -> Result<ContextV, FailureV> {
    match or_null(field(op, "data"@)).object() {
        None => Err(other_failure("data is required"@)),
        Some(data) => Ok(ContextV { meta: copied(d.meta, data, "project_status"@), ..d }),
    }
}

/// Merges metadata.
pub fn merge_meta(doc: &mut ContextDoc, op: &JsonMap) -> (r: Result<(), Failure>)
    ensures
        leaves(old(doc)@, final(doc)@, r, merged(old(doc)@, op@)),
{
    if let Some(v) = op.get("data") {
        if let Some(data) = v.as_object() {
            copy_member(&mut doc.meta, data, "project_status");
            return Ok(());
        }
    }
    Err(Failure::other("data is required"))
}

/// Whether another part of the context owns an operation: tasks and agent states.
pub open spec fn is_elsewhere(name: Text) -> bool {
    name == "task.create"@ || name == "task.update"@ || name == "task.move"@ || name
        == "task.restore"@ || name == "task.delete"@ || name == "agent_state.update"@ || name
        == "agent_state.clear"@
}

/// The name of an operation.
pub open spec fn op_name(op: ObjV) -> Text {
    crate::json::or_empty(text_field(op, "op"@))
}

/// The context after an operation that is owned here.
pub open spec fn applied(d: ContextV, op: ObjV, by: Text, now: Text) -> Result<ContextV, FailureV> {
    let name = op_name(op);
    if name == "coordination.brief.update"@ {
        briefed(d, op, by, now)
    } else if name == "coordination.note.add"@ {
        noted(d, op, by, now)
    } else if name == "coordination.relay.note"@ {
        relay_noted(d, op, by, now)
    } else if name == "meta.merge"@ {
        merged(d, op)
    } else {
        Err(other_failure("unknown context op: "@ + name))
    }
}

/// Applies an operation that is owned here.
pub fn apply_one(doc: &mut ContextDoc, op: &JsonMap, by: &str, now: &str) -> (r: Result<(), Failure>)
    ensures
        leaves(old(doc)@, final(doc)@, r, applied(old(doc)@, op@, by@, now@)),
{
    let name = op.text_or_empty("op");
    if str_eq(name.as_str(), "coordination.brief.update") {
        update_brief(doc, op, by, now)
    } else if str_eq(name.as_str(), "coordination.note.add") {
        add_note(doc, op, by, now)
    } else if str_eq(name.as_str(), "coordination.relay.note") {
        upsert_relay_note(doc, op, by, now)
    } else if str_eq(name.as_str(), "meta.merge") {
        merge_meta(doc, op)
    } else {
        let mut m = "unknown context op: ".to_owned();
        m.append(name.as_str());
        Err(Failure::other(m.as_str()))
    }
}

/// How far a run of operations came.
pub enum Progress {
    /// All operations are applied; these are their changes.
    Done(Vec<Json>),
    /// The operation at this place is owned by another part; the ones before it are applied.
    Elsewhere(usize),
    /// An operation was refused.
    Refused(Failure),
}

/// The mathematical value of how far a run of operations came.
pub enum ProgressV {
    Done(Seq<JsonV>),
    Elsewhere(int),
    Refused(FailureV),
}

impl View for Progress {
    type V = ProgressV;

    open spec fn view(&self) -> ProgressV {
        match self {
            Progress::Done(v) => ProgressV::Done(values(v@)),
            Progress::Elsewhere(i) => ProgressV::Elsewhere(*i as int),
            Progress::Refused(e) => ProgressV::Refused(e@),
        }
    }
}

/// The change that an applied operation is reported as.
pub open spec fn change(index: int, op: ObjV) -> JsonV {
    JsonV::Obj(
        map![
            "index"@ => JsonV::Int(index),
            "op"@ => JsonV::Str(op_name(op)),
            "detail"@ => JsonV::Str("applied"@),
        ],
    )
}

/// The changes of a run of operations.
pub open spec fn changes(ops: Seq<ObjV>) -> Seq<JsonV> {
    Seq::new(ops.len(), |i: int| change(i, ops[i]))
}

/// The context after the operations from a place on, and how far they came. The run stops at the
/// first operation that is owned elsewhere or refused.
pub open spec fn run_from(
    d: ContextV,
    ops: Seq<ObjV>,
    from: int,
    by: Text,
    now: Text,
) -> (ContextV, ProgressV)
    decreases ops.len() - from,
{
    if from < 0 || from >= ops.len() {
        (d, ProgressV::Done(changes(ops)))
    } else if is_elsewhere(op_name(ops[from])) {
        (d, ProgressV::Elsewhere(from))
    } else {
        match applied(d, ops[from], by, now) {
            Ok(next) => run_from(next, ops, from + 1, by, now),
            Err(e) => (d, ProgressV::Refused(e)),
        }
    }
}

fn owned_elsewhere(op: &JsonMap) -> (r: bool)
    ensures
        r == is_elsewhere(op_name(op@)),
{
    let name = op.text_or_empty("op");
    let n = name.as_str();
    str_eq(n, "task.create") || str_eq(n, "task.update") || str_eq(n, "task.move") || str_eq(
        n,
        "task.restore",
    ) || str_eq(n, "task.delete") || str_eq(n, "agent_state.update") || str_eq(
        n,
        "agent_state.clear",
    )
}

fn changes_of(ops: &Vec<JsonMap>) -> (r: Vec<Json>)
    ensures
        values(r@) == changes(objects(ops@)),
{
    let mut r: Vec<Json> = Vec::new();
    let mut i: usize = 0;
    while i < ops.len()
        invariant
            i <= ops@.len(),
            values(r@).len() == i,
            forall|j: int| 0 <= j < i ==> #[trigger] values(r@)[j] == change(j, ops@[j]@),
        decreases ops@.len() - i,
    {
        let mut m = JsonMap::new();
        m.put("index", Json::Int(i as i128));
        m.put("op", Json::Str(ops[i].text_or_empty("op")));
        m.put("detail", Json::str("applied"));
        r.push(Json::Obj(m));
        i += 1;
    }
    proof {
        assert(values(r@) =~= changes(objects(ops@)));
    }
    r
}

/// Applies the operations from a place on, until the end, until one that another part owns, or
/// until one is refused.
pub fn apply_all(doc: &mut ContextDoc, operations: &Vec<JsonMap>, from: usize, by: &str, now: &str) -> (r:
    Progress)
    ensures
        (final(doc)@, r@) == run_from(
            old(doc)@,
            objects(operations@),
            from as int,
            by@,
            now@,
        ),
{
    let ghost ops = objects(operations@);
    let mut i: usize = from;
    while i < operations.len()
        invariant
            ops == objects(operations@),
            from <= i,
            i <= operations@.len() || i == from,
            run_from(old(doc)@, ops, from as int, by@, now@) == run_from(
                doc@,
                ops,
                i as int,
                by@,
                now@,
            ),
        decreases operations@.len() - i,
    {
        if owned_elsewhere(&operations[i]) {
            return Progress::Elsewhere(i);
        }
        match apply_one(doc, &operations[i], by, now) {
            Ok(_) => {},
            Err(e) => {
                return Progress::Refused(e);
            },
        }
        i += 1;
    }
    Progress::Done(changes_of(operations))
}

/// What the ledger says of a change of the context; nothing where nothing has changed.
pub open spec fn change_entry(version: Text, changes: Seq<JsonV>) -> Option<ObjV> {
    if changes.len() == 0 {
        None
    } else {
        Some(map!["version"@ => JsonV::Str(version), "changes"@ => JsonV::Arr(changes)])
    }
}

/// What the ledger says of a change of the context. `version` is the version that the change led
/// to.
pub fn context_event_data(version: &str, changes: Vec<Json>) -> (r: Option<JsonMap>)
    ensures
        match r {
            Some(m) => change_entry(version@, values(changes@)) == Some(m@),
            None => change_entry(version@, values(changes@)) is None,
        },
{
    if changes.len() == 0 {
        return None;
    }
    let mut m = JsonMap::new();
    m.put("version", Json::str(version));
    m.put("changes", Json::Arr(changes));
    Some(m)
}

/// A note that anybody may add holds no machine state: it has a time, a summary, a task and an
/// author, whatever the operation carries besides.
pub proof fn public_notes_hold_no_machine_state(op: ObjV, summary: Text, by: Text, now: Text, key: Text)
    ensures
        public_note(op, summary, by, now).get(key) is Some ==> key == "at"@ || key == "summary"@
            || key == "task_id"@ || key == "by"@,
{
}

/// The notes of a list never outgrow the limit through a new note.
pub proof fn notes_stay_bounded(notes: Seq<JsonV>, note: JsonV)
    ensures
        newest(notes.push(note)).len() <= MAX_NOTES,
        newest(notes.push(note)).len() > 0,
        newest(notes.push(note)).last() == note,
{
}

/// Writing a relay note of an id that is there replaces exactly that note: the list keeps its
/// length, every other note stays where it is.
pub proof fn a_relay_note_is_replaced_in_place(notes: Seq<JsonV>, id: Text, note: JsonV, i: int)
    requires
        0 <= i < notes.len(),
        notes[i].at("id"@).text() == Some(id),
        forall|j: int| 0 <= j < i ==> (#[trigger] notes[j]).at("id"@).text() != Some(id),
    ensures
        upserted(notes, id, note) == notes.update(i, note),
{
    let p = |n: JsonV| n.at("id"@).text() == Some(id);
    assert forall|j: int| 0 <= j < i implies !p(#[trigger] notes[j]) by {
        assert(notes[j].at("id"@).text() != Some(id));
    }
    lemma_replaced_at(notes, p, note, i);
}

#[verifier::spinoff_prover]
proof fn lemma_machine_fields_keep_time(m0: ObjV, op: ObjV)
    ensures
        field(with_machine_fields(m0, op), "at"@) == field(m0, "at"@),
{
    lemma_note_keys();
    lemma_copied(m0, op, "decision"@, "at"@);
    let m1 = copied(m0, op, "decision"@);
    lemma_copied(m1, op, "state"@, "at"@);
    let m2 = copied(m1, op, "state"@);
    lemma_copied(m2, op, "status"@, "at"@);
    let m3 = copied(m2, op, "status"@);
    lemma_copied(m3, op, "source_event_ids"@, "at"@);
    let m4 = copied(m3, op, "source_event_ids"@);
    lemma_copied(m4, op, "source_actor_id"@, "at"@);
    let m5 = copied(m4, op, "source_actor_id"@);
    lemma_copied(m5, op, "target_actor_id"@, "at"@);
    let m6 = copied(m5, op, "target_actor_id"@);
    lemma_copied(m6, op, "turn_id"@, "at"@);
    let m7 = copied(m6, op, "turn_id"@);
    lemma_copied(m7, op, "handoff_ids"@, "at"@);
    let m8 = copied(m7, op, "handoff_ids"@);
    lemma_copied(m8, op, "next_actor_id"@, "at"@);
    let m9 = copied(m8, op, "next_actor_id"@);
    lemma_copied(m9, op, "next_task_id"@, "at"@);
    let m10 = copied(m9, op, "next_task_id"@);
    lemma_copied(m10, op, "visible_event_id"@, "at"@);
    let m11 = copied(m10, op, "visible_event_id"@);
    lemma_copied(m11, op, "safe_to_idle"@, "at"@);
    let m12 = copied(m11, op, "safe_to_idle"@);
    lemma_copied(m12, op, "caller_may_idle"@, "at"@);
    let m13 = copied(m12, op, "caller_may_idle"@);
    lemma_copied(m13, op, "reason"@, "at"@);
    let m14 = copied(m13, op, "reason"@);
    lemma_copied(m14, op, "responsibility"@, "at"@);
    let m15 = copied(m14, op, "responsibility"@);
    lemma_copied(m15, op, "resolved_at"@, "at"@);
    let m16 = copied(m15, op, "resolved_at"@);
    lemma_copied(m16, op, "resolved_by"@, "at"@);
    let m17 = copied(m16, op, "resolved_by"@);
    lemma_copied(m17, op, "decision_id"@, "at"@);
    let m18 = copied(m17, op, "decision_id"@);
    lemma_copied(m18, op, "request_fingerprint"@, "at"@);
    let m19 = copied(m18, op, "request_fingerprint"@);
    lemma_copied(m19, op, "reminder_event_id"@, "at"@);
    let m20 = copied(m19, op, "reminder_event_id"@);
    lemma_copied(m20, op, "escalation_event_id"@, "at"@);
    let m21 = copied(m20, op, "escalation_event_id"@);
    assert(with_machine_fields(m0, op) == m21);
}

/// Writing a relay note again keeps the time of the note that it replaces.
pub proof fn a_relay_note_keeps_its_origin_time(
    op: ObjV,
    id: Text,
    summary: Text,
    by: Text,
    at: JsonV,
    now: Text,
)
    ensures
        origin_time(Some(relay_note(op, id, summary, at, by)), now) == at,
{
    lemma_note_keys();
    let base = map![
        "id"@ => JsonV::Str(id),
        "at"@ => at,
        "summary"@ => JsonV::Str(summary),
        "task_id"@ => or_null(field(op, "task_id"@)),
        "by"@ => JsonV::Str(by),
    ];
    lemma_machine_fields_keep_time(base, op);
}

proof fn lemma_note_keys()
    ensures
        "at"@.len() == 2 && "at"@[0] == 'a',
        "by"@.len() == 2 && "by"@[0] == 'b',
        "id"@.len() == 2,
        "summary"@.len() == 7,
        "task_id"@.len() == 7,
        "decision"@.len() == 8,
        "state"@.len() == 5,
        "status"@.len() == 6,
        "source_event_ids"@.len() == 16,
        "source_actor_id"@.len() == 15,
        "target_actor_id"@.len() == 15,
        "turn_id"@.len() == 7,
        "handoff_ids"@.len() == 11,
        "next_actor_id"@.len() == 13,
        "next_task_id"@.len() == 12,
        "visible_event_id"@.len() == 16,
        "safe_to_idle"@.len() == 12,
        "caller_may_idle"@.len() == 15,
        "reason"@.len() == 6,
        "responsibility"@.len() == 14,
        "resolved_at"@.len() == 11,
        "resolved_by"@.len() == 11,
        "decision_id"@.len() == 11,
        "request_fingerprint"@.len() == 19,
        "reminder_event_id"@.len() == 17,
        "escalation_event_id"@.len() == 19,
{
    reveal_strlit("at");
    reveal_strlit("by");
    reveal_strlit("id");
    reveal_strlit("summary");
    reveal_strlit("task_id");
    reveal_strlit("decision");
    reveal_strlit("state");
    reveal_strlit("status");
    reveal_strlit("source_event_ids");
    reveal_strlit("source_actor_id");
    reveal_strlit("target_actor_id");
    reveal_strlit("turn_id");
    reveal_strlit("handoff_ids");
    reveal_strlit("next_actor_id");
    reveal_strlit("next_task_id");
    reveal_strlit("visible_event_id");
    reveal_strlit("safe_to_idle");
    reveal_strlit("caller_may_idle");
    reveal_strlit("reason");
    reveal_strlit("responsibility");
    reveal_strlit("resolved_at");
    reveal_strlit("resolved_by");
    reveal_strlit("decision_id");
    reveal_strlit("request_fingerprint");
    reveal_strlit("reminder_event_id");
    reveal_strlit("escalation_event_id");
}

} // verus!
