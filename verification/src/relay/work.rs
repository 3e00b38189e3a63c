//! Tasks of the shared context: which are live, whose they are, and which a decision moves.

use crate::json::{list_field, objects, text_field, Json, JsonMap, JsonV, ObjV};
use crate::lists::{
    any_of, collect, find_first, first_match, lemma_views, lemma_views_push, select, some_match,
};
use crate::model::{
    ledger, refusal, string_arg, texts_outcome, ContextDoc, DaemonRequest, ErrV, Event, EventV,
    OpError,
};
use crate::order::{insert_all, insert_sorted, with_all_sorted, with_sorted};
use crate::relay::facts::event_string_list;
use crate::relay::sources::{task_ids_from_events, tasks_of_events};
use crate::text::{has_text, opt_text, str_eq, texts, trim, trimmed, Text};
use vstd::prelude::*;

verus! {

broadcast use {lemma_views, lemma_views_push};

/// The status of a task; one without a status is planned.
pub open spec fn task_status(t: ObjV) -> Text {
    match text_field(t, "status"@) {
        Some(s) => s,
        None => "planned"@,
    }
}

/// Whether a task is neither done nor archived.
pub open spec fn live(t: ObjV) -> bool {
    task_status(t) != "done"@ && task_status(t) != "archived"@
}

/// Whether a task waits for the user or for something outside.
pub open spec fn waits_outside(t: ObjV) -> bool {
    let w = text_field(t, "waiting_on"@);
    w == Some("user"@) || w == Some("external"@)
}

/// Whether a task is blocked by others.
pub open spec fn blocked(t: ObjV) -> bool {
    match list_field(t, "blocked_by"@) {
        Some(v) => v.len() > 0,
        None => false,
    }
}

/// Whether a task is live work of an actor.
pub open spec fn actor_work(t: ObjV) -> bool {
    live(t) && !waits_outside(t) && !blocked(t)
}

pub(crate) fn is_live(t: &JsonMap) -> (r: bool)
    ensures
        r == live(t@),
{
    match t.text("status") {
        Some(s) => !str_eq(s, "done") && !str_eq(s, "archived"),
        None => {
            proof {
                reveal_strlit("planned");
                reveal_strlit("done");
                reveal_strlit("archived");
                assert("planned"@.len() == 7);
                assert("done"@.len() == 4);
                assert("archived"@.len() == 8);
            }
            true
        },
    }
}

pub(crate) fn is_waiting_outside(t: &JsonMap) -> (r: bool)
    ensures
        r == waits_outside(t@),
{
    t.is("waiting_on", "user") || t.is("waiting_on", "external")
}

pub(crate) fn is_blocked(t: &JsonMap) -> (r: bool)
    ensures
        r == blocked(t@),
{
    match t.list("blocked_by") {
        Some(v) => {
            proof {
                crate::json::lemma_values(v@);
            }
            v.len() > 0
        },
        None => false,
    }
}

pub(crate) fn is_actor_work(t: &JsonMap) -> (r: bool)
    ensures
        r == actor_work(t@),
{
    is_live(t) && !is_waiting_outside(t) && !is_blocked(t)
}

/// The first task with an id.
pub open spec fn task_by_id(tasks: Seq<ObjV>, id: Text) -> Option<ObjV> {
    first_match(tasks, |t: ObjV| text_field(t, "id"@) == Some(id))
}

/// The first task with an id.
pub fn find_task<'a>(document: &'a ContextDoc, id: &str) -> (r: Option<&'a JsonMap>)
    ensures
        crate::json::opt_obj(r) == task_by_id(document@.tasks, id@),
{
    let ghost sp = |t: ObjV| text_field(t, "id"@) == Some(id@);
    find_first(
        &document.tasks,
        |t: &JsonMap| -> (b: bool)
            ensures (b == (text_field(t@, "id"@) == Some(id@)))
        {
            t.is("id", id)
        },
        Ghost(sp),
    )
}

/// Whether the actor made one of the handoffs or wrote one of the source events.
pub open spec fn is_source_actor(handoffs: Seq<EventV>, sources: Seq<EventV>, actor: Text) -> bool {
    actor.len() > 0 && (some_match(
        handoffs,
        |h: EventV| text_field(h.data, "source_actor_id"@) == Some(actor),
    ) || some_match(sources, |s: EventV| s.by == actor))
}

fn source_actor(handoffs: &Vec<Event>, sources: &Vec<Event>, actor: &str) -> (r: bool)
    ensures
        r == is_source_actor(ledger(handoffs@), ledger(sources@), actor@),
{
    if actor.is_empty() {
        return false;
    }
    let ghost made = |h: EventV| text_field(h.data, "source_actor_id"@) == Some(actor@);
    let ghost wrote = |s: EventV| s.by == actor@;
    any_of(
        handoffs,
        |h: &Event| -> (b: bool)
            ensures (b == (text_field(h@.data, "source_actor_id"@) == Some(actor@)))
        {
            h.data.is("source_actor_id", actor)
        },
        Ghost(made),
    ) || any_of(
        sources,
        |s: &Event| -> (b: bool)
            ensures (b == (s@.by == actor@))
        {
            str_eq(s.by.as_str(), actor)
        },
        Ghost(wrote),
    )
}

/// Whether a task is assigned to a source member.
pub open spec fn source_owned(handoffs: Seq<EventV>, sources: Seq<EventV>, t: ObjV) -> bool {
    match text_field(t, "assignee"@) {
        Some(a) => is_source_actor(handoffs, sources, a),
        None => false,
    }
}

fn owned_by_source(handoffs: &Vec<Event>, sources: &Vec<Event>, t: &JsonMap) -> (r: bool)
    ensures
        r == source_owned(ledger(handoffs@), ledger(sources@), t@),
{
    match t.text("assignee") {
        Some(a) => source_actor(handoffs, sources, a),
        None => false,
    }
}

/// The texts with the tasks that the handoffs name put in, in order.
pub open spec fn with_handoff_tasks(ids: Seq<Text>, handoffs: Seq<EventV>) -> Seq<Text>
    decreases handoffs.len(),
{
    if handoffs.len() == 0 {
        ids
    } else {
        with_all_sorted(
            with_handoff_tasks(ids, handoffs.drop_last()),
            handoffs.last().strings("task_ids"@),
        )
    }
}

/// The tasks that the sources and the handoffs refer to.
pub open spec fn referenced(sources: Seq<EventV>, handoffs: Seq<EventV>) -> Seq<Text> {
    with_handoff_tasks(tasks_of_events(sources), handoffs)
}

fn referenced_tasks(sources: &Vec<Event>, handoffs: &Vec<Event>) -> (r: Vec<String>)
    ensures
        texts(r@) == referenced(ledger(sources@), ledger(handoffs@)),
{
    let ghost hs = ledger(handoffs@);
    let mut r = task_ids_from_events(sources);
    let ghost start = texts(r@);
    let mut i: usize = 0;
    while i < handoffs.len()
        invariant
            i <= handoffs@.len(),
            hs == ledger(handoffs@),
            texts(r@) == with_handoff_tasks(start, hs.take(i as int)),
        decreases handoffs@.len() - i,
    {
        let more = event_string_list(&handoffs[i], "task_ids");
        insert_all(&mut r, &more);
        proof {
            assert(hs.take(i + 1).drop_last() =~= hs.take(i as int));
        }
        i += 1;
    }
    proof {
        assert(hs.take(i as int) =~= hs);
    }
    r
}

/// The task that the request names, trimmed; none where it is blank.
pub open spec fn named_task(args: ObjV) -> Option<Text> {
    match text_field(args, "task_id"@) {
        Some(t) => if trimmed(t).len() > 0 {
            Some(trimmed(t))
        } else {
            None
        },
        None => None,
    }
}

/// The live tasks that are assigned to a source member.
pub open spec fn candidates(
    tasks: Seq<ObjV>,
    handoffs: Seq<EventV>,
    sources: Seq<EventV>,
) -> Seq<Text> {
    tasks.filter_map(
        |t: ObjV|
            if live(t) && source_owned(handoffs, sources, t) {
                text_field(t, "id"@)
            } else {
                None
            },
    )
}

/// The existing tasks among the ids; where there are none, the one live task of the source
/// members, if there is just one.
pub open spec fn existing_or_inferred(
    ids: Seq<Text>,
    tasks: Seq<ObjV>,
    handoffs: Seq<EventV>,
    sources: Seq<EventV>,
) -> Seq<Text> {
    let known = ids.filter(|id: Text| task_by_id(tasks, id) is Some);
    let guess = candidates(tasks, handoffs, sources);
    if known.len() == 0 && guess.len() == 1 {
        guess
    } else {
        known
    }
}

/// The tasks that a decision is about. A task that the request names must exist, and be referred
/// to by the handoff or assigned to its source member.
pub open spec fn decided_tasks(
    args: ObjV,
    sources: Seq<EventV>,
    handoffs: Seq<EventV>,
    tasks: Seq<ObjV>,
) -> Result<Seq<Text>, ErrV> {
    let refs = referenced(sources, handoffs);
    match named_task(args) {
        None => Ok(existing_or_inferred(refs, tasks, handoffs, sources)),
        Some(id) => match task_by_id(tasks, id) {
            None => Err(refusal("relay_task_not_found"@, "task not found: "@ + id)),
            Some(t) => if refs.contains(id) || source_owned(handoffs, sources, t) {
                Ok(existing_or_inferred(with_sorted(refs, id), tasks, handoffs, sources))
            } else {
                Err(
                    refusal(
                        "relay_task_not_owned"@,
                        "task_id must be referenced by the handoff or assigned to its source member"@,
                    ),
                )
            },
        },
    }
}

/// The tasks that a decision is about.
pub fn source_task_ids(
    request: &DaemonRequest,
    sources: &Vec<Event>,
    handoffs: &Vec<Event>,
    document: &ContextDoc,
) -> (r: Result<Vec<String>, OpError>)
    ensures
        texts_outcome(r) == decided_tasks(
            request@.args,
            ledger(sources@),
            ledger(handoffs@),
            document@.tasks,
        ),
{
    let mut refs = referenced_tasks(sources, handoffs);
    if let Some(raw) = string_arg(request, "task_id") {
        let id = trim(raw.as_str());
        if !id.as_str().is_empty() {
            match find_task(document, id.as_str()) {
                None => {
                    return Err(
                        OpError::about("relay_task_not_found", "task not found: ", id.as_str()),
                    );
                },
                Some(t) => {
                    if !has_text(&refs, id.as_str()) && !owned_by_source(handoffs, sources, t) {
                        return Err(
                            OpError::new(
                                "relay_task_not_owned",
                                "task_id must be referenced by the handoff or assigned to its source member",
                            ),
                        );
                    }
                },
            }
            insert_sorted(&mut refs, id);
        }
    }
    let ghost known = |id: Text| task_by_id(document@.tasks, id) is Some;
    let ids = select(
        &refs,
        |id: &String| -> (b: bool)
            ensures (b == (task_by_id(document@.tasks, id@) is Some))
        {
            find_task(document, id.as_str()).is_some()
        },
        |id: &String| -> (c: String)
            ensures (c@ == id@)
        {
            id.clone()
        },
        Ghost(known),
    );
    if ids.len() == 0 {
        let ghost sf = |t: ObjV|
            if live(t) && source_owned(ledger(handoffs@), ledger(sources@), t) {
                text_field(t, "id"@)
            } else {
                None
            };
        let guess = collect(
            &document.tasks,
            |t: &JsonMap| -> (x: Option<String>)
                ensures (opt_text(x) == (if live(t@) && source_owned(
                    ledger(handoffs@),
                    ledger(sources@),
                    t@,
                ) {
                    text_field(t@, "id"@)
                } else {
                    None
                }))
            {
                if is_live(t) && owned_by_source(handoffs, sources, t) {
                    match t.text("id") {
                        Some(x) => Some(x.to_owned()),
                        None => None,
                    }
                } else {
                    None
                }
            },
            Ghost(sf),
        );
        if guess.len() == 1 {
            return Ok(guess);
        }
    }
    Ok(ids)
}

/// The operations that move one task under a decision.
pub open spec fn task_moves(t: ObjV, id: Text, decision: Text, reason: Text) -> Seq<ObjV> {
    let update = Map::<Text, JsonV>::empty().insert("op"@, JsonV::Str("task.update"@)).insert(
        "task_id"@,
        JsonV::Str(id),
    ).insert("handoff_to"@, JsonV::Null);
    let move_to = Map::<Text, JsonV>::empty().insert("op"@, JsonV::Str("task.move"@)).insert(
        "task_id"@,
        JsonV::Str(id),
    );
    if task_status(t) == "archived"@ {
        Seq::empty()
    } else if decision == "continue"@ || decision == "complete"@ {
        seq![
            update.insert("waiting_on"@, JsonV::Str("none"@)),
            move_to.insert("status"@, JsonV::Str("done"@)),
        ]
    } else if decision == "wait_user"@ {
        seq![
            update.insert("waiting_on"@, JsonV::Str("user"@)),
            move_to.insert("status"@, JsonV::Str("active"@)),
        ]
    } else if decision == "blocked"@ {
        seq![
            update.insert("waiting_on"@, JsonV::Str("external"@)).insert(
                "notes"@,
                JsonV::Str(reason),
            ),
            move_to.insert("status"@, JsonV::Str("active"@)),
        ]
    } else {
        Seq::empty()
    }
}

/// The operations that a decision makes on its tasks: an archived or unknown task is left alone;
/// continue and complete finish the others, wait_user and blocked keep them active and say whom
/// they wait for.
pub open spec fn all_task_moves(
    tasks: Seq<ObjV>,
    ids: Seq<Text>,
    decision: Text,
    reason: Text,
) -> Seq<ObjV>
    decreases ids.len(),
{
    if ids.len() == 0 {
        Seq::empty()
    } else {
        all_task_moves(tasks, ids.drop_last(), decision, reason) + (match task_by_id(
            tasks,
            ids.last(),
        ) {
            Some(t) => task_moves(t, ids.last(), decision, reason),
            None => Seq::empty(),
        })
    }
}

fn move_task(id: &str, status: &str) -> (r: JsonMap)
    ensures
        r@ == Map::<Text, JsonV>::empty().insert("op"@, JsonV::Str("task.move"@)).insert(
            "task_id"@,
            JsonV::Str(id@),
        ).insert("status"@, JsonV::Str(status@)),
{
    let mut m = JsonMap::new();
    m.put("op", Json::str("task.move"));
    m.put("task_id", Json::str(id));
    m.put("status", Json::str(status));
    m
}

/// The operations that a decision makes on its tasks.
pub fn task_decision_operations(
    document: &ContextDoc,
    task_ids: &Vec<String>,
    decision: &str,
    reason: &str,
) -> (r: Vec<JsonMap>)
    ensures
        objects(r@) == all_task_moves(document@.tasks, texts(task_ids@), decision@, reason@),
{
    let ghost ids = texts(task_ids@);
    let mut r: Vec<JsonMap> = Vec::new();
    let mut i: usize = 0;
    proof {
        assert(objects(r@) =~= Seq::empty());
    }
    while i < task_ids.len()
        invariant
            i <= task_ids@.len(),
            ids == texts(task_ids@),
            objects(r@) == all_task_moves(
                document@.tasks,
                ids.take(i as int),
                decision@,
                reason@,
            ),
        decreases task_ids@.len() - i,
    {
        let id = task_ids[i].as_str();
        let ghost start = objects(r@);
        proof {
            assert(ids.take(i + 1).drop_last() =~= ids.take(i as int));
        }
        match find_task(document, id) {
            Some(t) => {
                let archived = t.is("status", "archived");
                proof {
                    reveal_strlit("planned");
                    reveal_strlit("archived");
                    assert("planned"@.len() == 7);
                    assert("archived"@.len() == 8);
                    assert(archived == (task_status(t@) == "archived"@));
                }
                if !archived {
                    let mut update = JsonMap::new();
                    update.put("op", Json::str("task.update"));
                    update.put("task_id", Json::str(id));
                    update.put("handoff_to", Json::Null);
                    if str_eq(decision, "continue") || str_eq(decision, "complete") {
                        update.put("waiting_on", Json::str("none"));
                        r.push(update);
                        r.push(move_task(id, "done"));
                    } else if str_eq(decision, "wait_user") {
                        update.put("waiting_on", Json::str("user"));
                        r.push(update);
                        r.push(move_task(id, "active"));
                    } else if str_eq(decision, "blocked") {
                        update.put("waiting_on", Json::str("external"));
                        update.put("notes", Json::str(reason));
                        r.push(update);
                        r.push(move_task(id, "active"));
                    }
                }
                proof {
                    assert(objects(r@) =~= start + task_moves(t@, id@, decision@, reason@));
                }
            },
            None => {
                assert(objects(r@) =~= start + Seq::empty());
            },
        }
        i += 1;
    }
    proof {
        assert(ids.take(i as int) =~= ids);
    }
    r
}

} // verus!
