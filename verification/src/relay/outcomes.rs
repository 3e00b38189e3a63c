//! What a decision comes to, told of the requests, entries and operations themselves: which tasks
//! move where, what is sent on and to whom, and what is recorded.

use crate::connectors::outcomes::{is_the_actor, lemma_first_actor, trimmed_member};
use crate::json::{field, list_field, strings, strings_field, text_field, JsonV, ObjV};
use crate::lists::{
    lemma_collected, lemma_first_at, lemma_first_where, lemma_last_match, lemma_selection,
};
use crate::model::{ActorRole, ErrV, EventV, GroupState, GroupV};
use crate::relay::facts::{escalated, handoff_decided, pending, source_decided};
use crate::relay::intent::intent;
use crate::relay::sources::{all_strings, cleaned, requested, single_id};
use crate::relay::state::owner;
use crate::relay::words::lemma_decisions;
use crate::relay::work::{actor_work, all_task_moves, live, task_by_id, task_moves};
use crate::text::{is_blank, lowered, trimmed, Text};
use vstd::prelude::*;

verus! {

/// The words of an operation on a task differ.
pub(crate) proof fn lemma_operation_words()
    ensures
        "op"@.len() == 2,
        "task_id"@.len() == 7,
        "handoff_to"@.len() == 10,
        "waiting_on"@.len() == 10,
        "notes"@.len() == 5,
        "status"@.len() == 6,
        "task.update"@.len() == 11,
        "task.move"@.len() == 9,
        "none"@.len() == 4,
        "user"@.len() == 4,
        "external"@.len() == 8,
        "done"@.len() == 4,
        "active"@.len() == 6,
        "planned"@.len() == 7,
        "archived"@.len() == 8,
        "task_id"@[0] == 't',
        "planned"@[0] == 'p',
        "handoff_to"@[0] == 'h',
        "waiting_on"@[0] == 'w',
        "status"@[0] == 's',
        "active"@[0] == 'a',
        "none"@[0] == 'n',
        "user"@[0] == 'u',
        "done"@[0] == 'd',
        "external"@[0] == 'e',
        "archived"@[0] == 'a',
{
    reveal_strlit("op");
    reveal_strlit("task_id");
    reveal_strlit("handoff_to");
    reveal_strlit("waiting_on");
    reveal_strlit("notes");
    reveal_strlit("status");
    reveal_strlit("task.update");
    reveal_strlit("task.move");
    reveal_strlit("none");
    reveal_strlit("user");
    reveal_strlit("external");
    reveal_strlit("done");
    reveal_strlit("active");
    reveal_strlit("planned");
    reveal_strlit("archived");
}

/// Whether the task at a place is the one that an id names: the first with it.
pub open spec fn is_named(tasks: Seq<ObjV>, i: int, id: Text) -> bool {
    &&& 0 <= i < tasks.len()
    &&& text_field(tasks[i], "id"@) == Some(id)
    &&& forall|j: int| 0 <= j < i ==> text_field(#[trigger] tasks[j], "id"@) != Some(id)
}

/// Whether an operation says whom a task waits for, and that nobody is to take it over.
pub open spec fn says_whom(op: ObjV, id: Text, whom: Text) -> bool {
    &&& text_field(op, "op"@) == Some("task.update"@)
    &&& text_field(op, "task_id"@) == Some(id)
    &&& text_field(op, "waiting_on"@) == Some(whom)
    &&& op.contains_key("handoff_to"@) && op["handoff_to"@] == JsonV::Null
    &&& !op.contains_key("status"@)
}

/// Whether an operation moves a task to a status.
pub open spec fn moves_to(op: ObjV, id: Text, status: Text) -> bool {
    &&& text_field(op, "op"@) == Some("task.move"@)
    &&& text_field(op, "task_id"@) == Some(id)
    &&& text_field(op, "status"@) == Some(status)
    &&& !op.contains_key("waiting_on"@)
}

/// Whether two operations that follow each other settle a task under a decision: a task that is
/// continued or completed waits for nobody and is done, one that waits for the user stays active
/// and waits for the user, and a blocked one stays active, waits for something outside and says why.
pub open spec fn settle_task(
    first: ObjV,
    second: ObjV,
    id: Text,
    decision: Text,
    reason: Text,
) -> bool {
    &&& decision == "continue"@ || decision == "complete"@ ==> says_whom(first, id, "none"@)
        && moves_to(second, id, "done"@) && !first.contains_key("notes"@)
    &&& decision == "wait_user"@ ==> says_whom(first, id, "user"@) && moves_to(
        second,
        id,
        "active"@,
    ) && !first.contains_key("notes"@)
    &&& decision == "blocked"@ ==> says_whom(first, id, "external"@) && moves_to(
        second,
        id,
        "active"@,
    ) && text_field(first, "notes"@) == Some(reason)
}

proof fn lemma_task_is_settled(t: ObjV, id: Text, decision: Text, reason: Text)
    ensures
        ({
            let ops = task_moves(t, id, decision, reason);
            let decided = decision == "continue"@ || decision == "complete"@ || decision
                == "wait_user"@ || decision == "blocked"@;
            if text_field(t, "status"@) == Some("archived"@) || !decided {
                ops.len() == 0
            } else {
                ops.len() == 2 && settle_task(ops[0], ops[1], id, decision, reason)
            }
        }),
{
    lemma_operation_words();
    lemma_decisions();
}

/// Every task of a decision that is there and not archived is settled as the decision says: under
/// blocked and wait_user it stays active and waits, under continue and complete it is done.
pub proof fn a_decision_settles_its_tasks(
    tasks: Seq<ObjV>,
    ids: Seq<Text>,
    decision: Text,
    reason: Text,
    k: int,
    i: int,
)
    requires
        0 <= k < ids.len(),
        is_named(tasks, i, ids[k]),
        text_field(tasks[i], "status"@) != Some("archived"@),
        decision == "continue"@ || decision == "complete"@ || decision == "wait_user"@ || decision
            == "blocked"@,
    ensures
        exists|n: int|
            0 <= n && n + 1 < all_task_moves(tasks, ids, decision, reason).len() && settle_task(
                #[trigger] all_task_moves(tasks, ids, decision, reason)[n],
                all_task_moves(tasks, ids, decision, reason)[n + 1],
                ids[k],
                decision,
                reason,
            ),
    decreases ids.len(),
{
    let all = all_task_moves(tasks, ids, decision, reason);
    let d = ids.drop_last();
    let front = all_task_moves(tasks, d, decision, reason);
    if k == ids.len() - 1 {
        let t = tasks[i];
        lemma_first_at(tasks, |t: ObjV| text_field(t, "id"@) == Some(ids[k]), i);
        assert(task_by_id(tasks, ids[k]) == Some(t));
        lemma_task_is_settled(t, ids[k], decision, reason);
        let own = task_moves(t, ids[k], decision, reason);
        assert(all == front + own);
        assert(all[front.len() as int] == own[0]);
        assert(all[front.len() as int + 1] == own[1]);
    } else {
        assert(d[k] == ids[k]);
        a_decision_settles_its_tasks(tasks, d, decision, reason, k, i);
        let n = choose|n: int|
            0 <= n && n + 1 < front.len() && settle_task(
                #[trigger] front[n],
                front[n + 1],
                ids[k],
                decision,
                reason,
            );
        assert(all[n] == front[n]);
        assert(all[n + 1] == front[n + 1]);
    }
}

/// Whether the two operations at a place settle a task that the decision names, that is there and
/// that is not archived.
pub open spec fn settles_a_named_task(
    ops: Seq<ObjV>,
    n: int,
    tasks: Seq<ObjV>,
    ids: Seq<Text>,
    decision: Text,
    reason: Text,
) -> bool {
    exists|k: int, i: int|
        #![trigger is_named(tasks, i, ids[k])]
        0 <= k < ids.len() && is_named(tasks, i, ids[k]) && text_field(tasks[i], "status"@) != Some(
            "archived"@,
        ) && n + 1 < ops.len() && settle_task(ops[n], ops[n + 1], ids[k], decision, reason)
}

/// A decision does nothing else to tasks: its operations come in pairs, and each pair settles a
/// task that it names, that is there and that is not archived.
pub proof fn a_decision_leaves_other_tasks_alone(
    tasks: Seq<ObjV>,
    ids: Seq<Text>,
    decision: Text,
    reason: Text,
    n: int,
)
    requires
        0 <= n < all_task_moves(tasks, ids, decision, reason).len(),
        n % 2 == 0,
    ensures
        decision == "continue"@ || decision == "complete"@ || decision == "wait_user"@ || decision
            == "blocked"@,
        settles_a_named_task(
            all_task_moves(tasks, ids, decision, reason),
            n,
            tasks,
            ids,
            decision,
            reason,
        ),
    decreases ids.len(),
{
    let all = all_task_moves(tasks, ids, decision, reason);
    let d = ids.drop_last();
    let front = all_task_moves(tasks, d, decision, reason);
    lemma_pairs(tasks, d, decision, reason);
    if n < front.len() {
        a_decision_leaves_other_tasks_alone(tasks, d, decision, reason, n);
        let (k, i) = choose|k: int, i: int|
            #![trigger is_named(tasks, i, d[k])]
            0 <= k < d.len() && is_named(tasks, i, d[k]) && text_field(tasks[i], "status"@) != Some(
                "archived"@,
            ) && n + 1 < front.len() && settle_task(front[n], front[n + 1], d[k], decision, reason);
        assert(all[n] == front[n]);
        assert(all[n + 1] == front[n + 1]);
        assert(is_named(tasks, i, ids[k]));
    } else {
        let k = ids.len() - 1;
        let i = lemma_first_where(tasks, |t: ObjV| text_field(t, "id"@) == Some(ids[k]));
        assert(task_by_id(tasks, ids[k]) == Some(tasks[i]));
        lemma_task_is_settled(tasks[i], ids[k], decision, reason);
        let own = task_moves(tasks[i], ids[k], decision, reason);
        assert(all == front + own);
        assert(all[n] == own[0]);
        assert(all[n + 1] == own[1]);
        assert(is_named(tasks, i, ids[k]));
    }
}

proof fn lemma_pairs(tasks: Seq<ObjV>, ids: Seq<Text>, decision: Text, reason: Text)
    ensures
        all_task_moves(tasks, ids, decision, reason).len() % 2 == 0,
    decreases ids.len(),
{
    if ids.len() > 0 {
        lemma_pairs(tasks, ids.drop_last(), decision, reason);
        if let Some(t) = task_by_id(tasks, ids.last()) {
            lemma_task_is_settled(t, ids.last(), decision, reason);
        }
    }
}

/// Only continue and complete finish tasks: under any other decision no operation moves a task to
/// done, and every move leaves its task active.
pub proof fn only_continue_and_complete_finish_tasks(
    tasks: Seq<ObjV>,
    ids: Seq<Text>,
    decision: Text,
    reason: Text,
    n: int,
)
    requires
        0 <= n < all_task_moves(tasks, ids, decision, reason).len(),
    ensures
        ({
            let op = all_task_moves(tasks, ids, decision, reason)[n];
            let finishes = decision == "continue"@ || decision == "complete"@;
            &&& text_field(op, "op"@) == Some("task.move"@) <==> n % 2 == 1
            &&& text_field(op, "op"@) == Some("task.update"@) <==> n % 2 == 0
            &&& n % 2 == 1 ==> text_field(op, "status"@) == Some(
                if finishes {
                    "done"@
                } else {
                    "active"@
                },
            )
        }),
{
    lemma_operation_words();
    lemma_decisions();
    let m = if n % 2 == 0 {
        n
    } else {
        n - 1
    };
    a_decision_leaves_other_tasks_alone(tasks, ids, decision, reason, m);
}

/// The members of the next work differ.
pub(crate) proof fn lemma_sent_words()
    ensures
        "group_id"@.len() == 8,
        "by"@.len() == 2,
        "to"@.len() == 2,
        "assignee"@.len() == 8,
        "handoff_to"@.len() == 10,
        "title"@.len() == 5,
        "text"@.len() == 4,
        "outcome"@.len() == 7,
        "status"@.len() == 6,
        "waiting_on"@.len() == 10,
        "task_type"@.len() == 9,
        "task_priority"@.len() == 13,
        "checklist"@.len() == 9,
        "refs"@.len() == 4,
        "insight"@.len() == 7,
        "idempotency_key"@.len() == 15,
        "kind"@.len() == 4,
        "decision_id"@.len() == 11,
        "request_fingerprint"@.len() == 19,
        "source_event_ids"@.len() == 16,
        "handoff_ids"@.len() == 11,
        "group_id"@[0] == 'g',
        "assignee"@[0] == 'a',
        "by"@[0] == 'b',
        "to"@[0] == 't',
        "handoff_to"@[0] == 'h',
        "waiting_on"@[0] == 'w',
        "text"@[0] == 't',
        "refs"@[0] == 'r',
        "kind"@[0] == 'k',
        "outcome"@[0] == 'o',
        "insight"@[0] == 'i',
        "task_type"@[0] == 't',
        "checklist"@[0] == 'c',
        "decision_id"@[0] == 'd',
        "handoff_ids"@[0] == 'h',
{
    reveal_strlit("group_id");
    reveal_strlit("by");
    reveal_strlit("to");
    reveal_strlit("assignee");
    reveal_strlit("handoff_to");
    reveal_strlit("title");
    reveal_strlit("text");
    reveal_strlit("outcome");
    reveal_strlit("status");
    reveal_strlit("waiting_on");
    reveal_strlit("task_type");
    reveal_strlit("task_priority");
    reveal_strlit("checklist");
    reveal_strlit("refs");
    reveal_strlit("insight");
    reveal_strlit("idempotency_key");
    reveal_strlit("kind");
    reveal_strlit("decision_id");
    reveal_strlit("request_fingerprint");
    reveal_strlit("source_event_ids");
    reveal_strlit("handoff_ids");
}

/// Whether a list that a member holds has a text.
pub open spec fn lists_text(m: ObjV, key: Text, t: Text) -> bool {
    exists|v: Seq<JsonV>, k: int|
        m.contains_key(key) && m[key] == JsonV::Arr(v) && 0 <= k < v.len() && #[trigger] v[k]
            == JsonV::Str(t)
}

/// What is read of a list of texts is what it holds.
pub proof fn a_list_reads_as_its_texts(m: ObjV, key: Text, t: Text)
    ensures
        strings_field(m, key).contains(t) <==> lists_text(m, key, t),
{
    let f = |x: JsonV| x.text();
    if let Some(v) = list_field(m, key) {
        lemma_collected(v, f);
        if strings_field(m, key).contains(t) {
            let k = choose|k: int| 0 <= k < v.len() && f(#[trigger] v[k]) == Some(t);
            assert(v[k] == JsonV::Str(t));
        }
        if lists_text(m, key, t) {
            let (w, k) = choose|w: Seq<JsonV>, k: int|
                m.contains_key(key) && m[key] == JsonV::Arr(w) && 0 <= k < w.len() && #[trigger] w[k]
                    == JsonV::Str(t);
            assert(f(v[k]) == Some(t));
        }
    }
}

/// A task is live until it is done or archived. It is work of an actor while it is live, waits
/// neither for the user nor for something outside, and no other task blocks it.
pub proof fn a_task_is_work_while_it_is_live(t: ObjV)
    ensures
        live(t) <==> text_field(t, "status"@) != Some("done"@) && text_field(t, "status"@) != Some(
            "archived"@,
        ),
        actor_work(t) <==> live(t) && text_field(t, "waiting_on"@) != Some("user"@) && text_field(
            t,
            "waiting_on"@,
        ) != Some("external"@) && !(t.contains_key("blocked_by"@) && (t["blocked_by"@]
            matches JsonV::Arr(v) && v.len() > 0)),
{
    lemma_operation_words();
}

/// A task is the work of its assignee, or else of the one it is handed to; one that names nobody is
/// the foreman's.
pub proof fn a_task_is_its_assignees(t: ObjV, foreman: Text)
    ensures
        match text_field(t, "assignee"@) {
            Some(a) => owner(t, foreman) == if is_blank(a) {
                foreman
            } else {
                a
            },
            None => match text_field(t, "handoff_to"@) {
                Some(h) => owner(t, foreman) == if is_blank(h) {
                    foreman
                } else {
                    h
                },
                None => owner(t, foreman) == foreman,
            },
        },
{
}

/// Whether a decision of the ledger names a text under a key.
pub open spec fn a_decision_names(events: Seq<EventV>, key: Text, t: Text) -> bool {
    exists|i: int|
        0 <= i < events.len() && (#[trigger] events[i]).kind == "coordination.decision"@
            && lists_text(events[i].data, key, t)
}

/// The handoff that an entry names, or nothing.
pub open spec fn named_handoff(e: EventV) -> Text {
    match text_field(e.data, "handoff_id"@) {
        Some(t) => t,
        None => Seq::empty(),
    }
}

/// A handoff waits until a decision names it or all of its sources.
pub proof fn a_handoff_waits_for_a_decision(events: Seq<EventV>, e: EventV)
    ensures
        pending(events, e) <==> e.kind == "coordination.handoff"@ && !a_decision_names(
            events,
            "handoff_ids"@,
            named_handoff(e),
        ) && exists|t: Text| #[trigger]
            lists_text(e.data, "source_event_ids"@, t) && !a_decision_names(
                events,
                "source_event_ids"@,
                t,
            ),
{
    let id = named_handoff(e);
    assert forall|i: int, key: Text, t: Text|
        #![trigger events[i], lists_text(events[i].data, key, t)]
        0 <= i < events.len() implies (events[i].strings(key).contains(t) <==> lists_text(
        events[i].data,
        key,
        t,
    )) by {
        a_list_reads_as_its_texts(events[i].data, key, t);
    }
    if handoff_decided(events, id) {
        let i = choose|i: int| 0 <= i < events.len() && (#[trigger] events[i]).decides_handoff(id);
        a_list_reads_as_its_texts(events[i].data, "handoff_ids"@, id);
        assert(events[i].kind == "coordination.decision"@);
    }
    if a_decision_names(events, "handoff_ids"@, id) {
        let i = choose|i: int|
            0 <= i < events.len() && (#[trigger] events[i]).kind == "coordination.decision"@
                && lists_text(events[i].data, "handoff_ids"@, id);
        a_list_reads_as_its_texts(events[i].data, "handoff_ids"@, id);
        assert(events[i].decides_handoff(id));
    }
    assert forall|t: Text|
        #[trigger] source_decided(events, t) <==> a_decision_names(
            events,
            "source_event_ids"@,
            t,
        ) by {
        if source_decided(events, t) {
            let i = choose|i: int| 0 <= i < events.len() && (#[trigger] events[i]).decides_source(t);
            a_list_reads_as_its_texts(events[i].data, "source_event_ids"@, t);
            assert(events[i].kind == "coordination.decision"@);
        }
        if a_decision_names(events, "source_event_ids"@, t) {
            let i = choose|i: int|
                0 <= i < events.len() && (#[trigger] events[i]).kind == "coordination.decision"@
                    && lists_text(events[i].data, "source_event_ids"@, t);
            a_list_reads_as_its_texts(events[i].data, "source_event_ids"@, t);
            assert(events[i].decides_source(t));
        }
    }
    let all = e.strings("source_event_ids"@);
    let p = |t: Text| !source_decided(events, t);
    lemma_selection(all, p);
    if all.filter(p).len() > 0 {
        let k = choose|k: int| 0 <= k < all.len() && p(#[trigger] all[k]);
        a_list_reads_as_its_texts(e.data, "source_event_ids"@, all[k]);
        assert(all.contains(all[k]));
        assert(!source_decided(events, all[k]));
        assert(lists_text(e.data, "source_event_ids"@, all[k]));
    }
    if exists|t: Text| #[trigger]
        lists_text(e.data, "source_event_ids"@, t) && !a_decision_names(
            events,
            "source_event_ids"@,
            t,
        ) {
        let t = choose|t: Text| #[trigger]
            lists_text(e.data, "source_event_ids"@, t) && !a_decision_names(
                events,
                "source_event_ids"@,
                t,
            );
        a_list_reads_as_its_texts(e.data, "source_event_ids"@, t);
        assert(!source_decided(events, t));
        let k = choose|k: int| 0 <= k < all.len() && all[k] == t;
        assert(p(all[k]));
    }
}

/// A handoff is the user's once a message of the ledger has raised it to the user.
pub proof fn a_handoff_is_raised_by_a_message(events: Seq<EventV>, id: Text)
    ensures
        escalated(events, id) <==> exists|i: int|
            0 <= i < events.len() && (#[trigger] events[i]).kind == "chat.message"@ && text_field(
                events[i].data,
                "relay_kind"@,
            ) == Some("decision_escalation"@) && lists_text(
                events[i].data,
                "relay_handoff_ids"@,
                id,
            ),
{
    let p = |e: EventV| e.notice("decision_escalation"@, id);
    lemma_last_match(events, p);
    if escalated(events, id) {
        let i = choose|i: int| 0 <= i < events.len() && p(#[trigger] events[i]);
        a_list_reads_as_its_texts(events[i].data, "relay_handoff_ids"@, id);
        assert(events[i].kind == "chat.message"@);
    }
    if exists|i: int|
        0 <= i < events.len() && (#[trigger] events[i]).kind == "chat.message"@ && text_field(
            events[i].data,
            "relay_kind"@,
        ) == Some("decision_escalation"@) && lists_text(events[i].data, "relay_handoff_ids"@, id) {
        let i = choose|i: int|
            0 <= i < events.len() && (#[trigger] events[i]).kind == "chat.message"@ && text_field(
                events[i].data,
                "relay_kind"@,
            ) == Some("decision_escalation"@) && lists_text(
                events[i].data,
                "relay_handoff_ids"@,
                id,
            );
        a_list_reads_as_its_texts(events[i].data, "relay_handoff_ids"@, id);
        assert(p(events[i]));
    }
}

/// The one who asks for a decision.
pub open spec fn asker(args: ObjV) -> Text {
    match text_field(args, "by"@) {
        Some(t) => trimmed(t),
        None => match text_field(args, "actor_id"@) {
            Some(t) => trimmed(t),
            None => Seq::empty(),
        },
    }
}

/// Whether the actor that an id names is a foreman of the group.
pub open spec fn leads(g: GroupV, id: Text) -> bool {
    exists|i: int| #[trigger]
        is_the_actor(g.actors, i, id) && g.actors[i].role == ActorRole::Foreman
}

/// Whether a member is a text of more than blanks.
pub open spec fn says(args: ObjV, key: Text) -> bool {
    text_field(args, key) matches Some(t) && trimmed(t).len() > 0
}

/// The decision that a request names.
pub open spec fn asked_decision(args: ObjV) -> Text {
    match text_field(args, "decision"@) {
        Some(t) => lowered(trimmed(t)),
        None => Seq::empty(),
    }
}

/// A request to decide is heard exactly where the foreman asks, names one of the four decisions and
/// its sources, gives a reason to be blocked, and names the next actor, title and text to continue,
/// which a halted group cannot. What is heard is what it says, without blanks around.
pub proof fn the_foreman_is_heard(args: ObjV, g: GroupV)
    ensures
        ({
            let d = asked_decision(args);
            let go_on = d == "continue"@;
            intent(args, g) is Ok <==> {
                &&& leads(g, asker(args))
                &&& text_field(args, "decision"@) is Some
                &&& d == "continue"@ || d == "wait_user"@ || d == "complete"@ || d == "blocked"@
                &&& d == "blocked"@ ==> says(args, "reason"@)
                &&& go_on ==> g.running && g.state != GroupState::Paused && g.state
                    != GroupState::Stopped
                &&& go_on ==> says(args, "next_actor_id"@) && says(args, "next_title"@) && says(
                    args,
                    "next_text"@,
                )
                &&& requested(args) is Ok
            }
        }),
        intent(args, g) matches Ok(i) ==> {
            let go_on = i.decision == "continue"@;
            &&& i.by == asker(args)
            &&& i.decision == asked_decision(args)
            &&& i.reason == trimmed_member(args, "reason"@)
            &&& go_on ==> i.next_actor_id == trimmed_member(args, "next_actor_id"@) && i.next_title
                == trimmed_member(args, "next_title"@) && i.next_text == trimmed_member(
                args,
                "next_text"@,
            )
            &&& !go_on ==> i.next_actor_id.len() == 0 && i.next_title.len() == 0 && i.next_text.len()
                == 0
            &&& requested(args) == Ok::<Seq<Text>, ErrV>(i.requested)
        },
        !leads(g, asker(args)) ==> (intent(args, g) matches Err(e) && e.code
            == "relay_decision_forbidden"@),
{
    lemma_decisions();
    lemma_first_actor(g.actors, asker(args));
}

/// The sources that a request names are those it gives, without blanks around and each once; there
/// has to be one, and no more than two hundred.
pub proof fn a_request_names_its_sources(args: ObjV)
    ensures
        requested(args) matches Ok(ids) ==> {
            &&& 0 < ids.len() <= 200
            &&& ids.no_duplicates()
            &&& forall|t: Text| #[trigger]
                ids.contains(t) ==> t.len() > 0 && exists|raw: Text| #[trigger]
                    is_given(args, raw) && trimmed(raw) == t
            &&& forall|raw: Text| #[trigger]
                is_given(args, raw) && trimmed(raw).len() > 0 ==> ids.contains(trimmed(raw))
        },
        args.contains_key("event_ids"@) && !(args["event_ids"@] is Arr) ==> requested(args) is Err,
        args.contains_key("event_ids"@) && (args["event_ids"@] matches JsonV::Arr(v) && exists|
            k: int,
        | 0 <= k < v.len() && !(#[trigger] v[k] is Str)) ==> requested(args) is Err,
        (forall|raw: Text| #[trigger] is_given(args, raw) ==> trimmed(raw).len() == 0)
            ==> requested(args) is Err,
{
    let all = match field(args, "event_ids"@) {
        None => single_id(args),
        Some(v) => match v.list() {
            Some(items) => single_id(args) + strings(items),
            None => Seq::empty(),
        },
    };
    lemma_cleaned(all);
    let f = |x: JsonV| x.text();
    assert forall|raw: Text| requested(args) is Ok || (field(args, "event_ids"@) matches Some(v)
        ==> v is Arr) implies (all.contains(raw) <==> #[trigger] is_given(args, raw)) by {
        let one = single_id(args);
        if one.len() > 0 {
            assert(one[0] == one[0]);
        }
        match field(args, "event_ids"@) {
            None => {},
            Some(v) => {
                if let Some(items) = v.list() {
                    lemma_collected(items, f);
                    let more = strings(items);
                    a_list_reads_as_its_texts(args, "event_ids"@, raw);
                    if all.contains(raw) {
                        let k = choose|k: int| 0 <= k < all.len() && all[k] == raw;
                        if k >= one.len() {
                            assert(more[k - one.len()] == raw);
                            assert(more.contains(raw));
                        }
                    }
                    if more.contains(raw) {
                        let k = choose|k: int| 0 <= k < more.len() && more[k] == raw;
                        assert(all[one.len() + k] == raw);
                    }
                    if one.contains(raw) {
                        assert(all[0] == raw);
                    }
                }
            },
        }
        if text_field(args, "event_id"@) == Some(raw) {
            assert(one[0] == raw);
            assert(all[0] == raw);
        }
    }
    if let Some(JsonV::Arr(v)) = field(args, "event_ids"@) {
        if exists|k: int| 0 <= k < v.len() && !(#[trigger] v[k] is Str) {
            let k = choose|k: int| 0 <= k < v.len() && !(#[trigger] v[k] is Str);
            assert(v[k].text() is None);
            assert(!all_strings(v));
        }
    }
    if (forall|raw: Text| #[trigger] is_given(args, raw) ==> trimmed(raw).len() == 0) && requested(
        args,
    ) is Ok {
        let ids = requested(args)->Ok_0;
        assert(ids.contains(ids[0]));
        let raw = choose|raw: Text| all.contains(raw) && trimmed(raw) == ids[0];
        assert(is_given(args, raw));
    }
    if let Ok(ids) = requested(args) {
        assert(ids == cleaned(all));
        assert forall|t: Text| #[trigger] ids.contains(t) implies t.len() > 0 && exists|raw: Text|
            #[trigger] is_given(args, raw) && trimmed(raw) == t by {
            let raw = choose|raw: Text| all.contains(raw) && trimmed(raw) == t;
            assert(is_given(args, raw));
        }
        assert forall|raw: Text| #[trigger]
            is_given(args, raw) && trimmed(raw).len() > 0 implies ids.contains(trimmed(raw)) by {
            assert(all.contains(raw));
        }
    }
}

/// Whether a request gives a text as a source.
pub open spec fn is_given(args: ObjV, raw: Text) -> bool {
    text_field(args, "event_id"@) == Some(raw) || lists_text(args, "event_ids"@, raw)
}

proof fn lemma_cleaned(s: Seq<Text>)
    ensures
        cleaned(s).no_duplicates(),
        forall|t: Text| #[trigger]
            cleaned(s).contains(t) ==> t.len() > 0 && exists|raw: Text|
                s.contains(raw) && #[trigger] trimmed(raw) == t,
        forall|raw: Text| s.contains(raw) && (#[trigger] trimmed(raw)).len() > 0 ==> cleaned(
            s,
        ).contains(trimmed(raw)),
    decreases s.len(),
{
    if s.len() > 0 {
        let d = s.drop_last();
        lemma_cleaned(d);
        let c = cleaned(d);
        let r = cleaned(s);
        let x = trimmed(s.last());
        assert(s[s.len() - 1] == s.last());
        assert(s.contains(s.last()));
        assert forall|t: Text| #[trigger] r.contains(t) implies t.len() > 0 && exists|raw: Text|
            s.contains(raw) && #[trigger] trimmed(raw) == t by {
            if c.contains(t) {
                let raw = choose|raw: Text| d.contains(raw) && #[trigger] trimmed(raw) == t;
                let k = choose|k: int| 0 <= k < d.len() && d[k] == raw;
                assert(s[k] == raw);
                assert(s.contains(raw));
            } else {
                let k = choose|k: int| 0 <= k < r.len() && r[k] == t;
                if k < c.len() {
                    assert(c[k] == t);
                }
                assert(t == x);
            }
        }
        assert forall|raw: Text| s.contains(raw) && (#[trigger] trimmed(raw)).len() > 0 implies r.contains(
            trimmed(raw),
        ) by {
            let k = choose|k: int| 0 <= k < s.len() && s[k] == raw;
            if k < d.len() {
                assert(d[k] == raw);
                assert(d.contains(raw));
                let m = choose|m: int| 0 <= m < c.len() && c[m] == trimmed(raw);
                assert(r[m] == trimmed(raw));
            } else if !c.contains(x) {
                assert(r[c.len() as int] == x);
            }
        }
    }
}

} // verus!
