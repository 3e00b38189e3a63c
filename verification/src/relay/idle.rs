//! Whether an actor, or the whole group, may be quiet.

use crate::json::{lemma_values_are_views, or_empty, text_field, Json, JsonMap, JsonV, ObjV};
use crate::lists::{any_of, lemma_views, lemma_views_push, some_match};
use crate::model::{ContextDoc, EventV, GroupDoc, GroupV};
use crate::order::{sorted_set, sorted_set_holds_the_same_texts_in_order};
use crate::relay::facts::{escalated, pending};
use crate::relay::state::{
    bare, foreman_of, group_account, intervention, only_if, open_active, open_escalated, owner,
    review, targets_of, task_duty, work_item, work_items,
};
use crate::relay::work::{actor_work, blocked, is_actor_work, is_live, live};
use crate::text::{blank, is_blank, str_eq, Text};
use vstd::prelude::*;

verus! {

broadcast use {lemma_views, lemma_views_push};

/// Whether an array member holds a value that meets the condition.
pub open spec fn some_in(v: JsonV, key: Text, p: spec_fn(JsonV) -> bool) -> bool {
    match v.at(key).list() {
        Some(items) => some_match(items, p),
        None => false,
    }
}

/// Whether a responsibility keeps an actor from idling: a review that names it, or work of its own.
pub open spec fn blocks(responsibility: JsonV, actor_id: Text) -> bool {
    let kind = or_empty(responsibility.at("kind"@).text());
    if kind == "foreman_review"@ {
        some_in(responsibility, "actor_ids"@, |v: JsonV| v.text() == Some(actor_id))
    } else if kind == "actor_work"@ {
        some_in(responsibility, "tasks"@, |t: JsonV| t.at("actor_id"@).text() == Some(actor_id))
    } else {
        false
    }
}

/// Whether a responsibility keeps an actor from idling.
pub fn responsibility_blocks_actor(responsibility: &Json, actor_id: &str) -> (r: bool)
    ensures
        r == blocks(responsibility@, actor_id@),
{
    let kind = responsibility.text_or_empty("kind");
    if str_eq(kind.as_str(), "foreman_review") {
        match responsibility.list("actor_ids") {
            Some(items) => {
                let ghost sp = |v: JsonV| v.text() == Some(actor_id@);
                proof {
                    lemma_values_are_views(items@);
                }
                any_of(
                    items,
                    |v: &Json| -> (b: bool)
                        ensures (b == (v@.text() == Some(actor_id@)))
                    {
                        match v.as_str() {
                            Some(t) => str_eq(t, actor_id),
                            None => false,
                        }
                    },
                    Ghost(sp),
                )
            },
            None => false,
        }
    } else if str_eq(kind.as_str(), "actor_work") {
        match responsibility.list("tasks") {
            Some(items) => {
                let ghost sp = |t: JsonV| t.at("actor_id"@).text() == Some(actor_id@);
                proof {
                    lemma_values_are_views(items@);
                }
                any_of(
                    items,
                    |t: &Json| -> (b: bool)
                        ensures (b == (t@.at("actor_id"@).text() == Some(actor_id@)))
                    {
                        t.is("actor_id", actor_id)
                    },
                    Ghost(sp),
                )
            },
            None => false,
        }
    } else {
        false
    }
}

/// Whether an actor may idle under an account of responsibilities: none in the list keeps it from
/// idling; without a list, neither the responsibility nor the actor work does.
pub open spec fn may_idle(current: JsonV, actor_id: Text) -> bool {
    match current.at("responsibilities"@).list() {
        Some(all) => !some_match(all, |r: JsonV| blocks(r, actor_id)),
        None => !blocks(current.at("responsibility"@), actor_id) && !blocks(
            current.at("actor_work"@),
            actor_id,
        ),
    }
}

/// Whether an actor may idle under an account of responsibilities.
pub fn actor_may_idle_from_state(current: &Json, actor_id: &str) -> (r: bool)
    ensures
        r == may_idle(current@, actor_id@),
{
    match current.list("responsibilities") {
        Some(all) => {
            let ghost sp = |r: JsonV| blocks(r, actor_id@);
            proof {
                lemma_values_are_views(all@);
            }
            !any_of(
                all,
                |r: &Json| -> (b: bool)
                    ensures (b == blocks(r@, actor_id@))
                {
                    responsibility_blocks_actor(r, actor_id)
                },
                Ghost(sp),
            )
        },
        None => {
            let duty = current.at("responsibility");
            let work = current.at("actor_work");
            !responsibility_blocks_actor(&duty, actor_id) && !responsibility_blocks_actor(
                &work,
                actor_id,
            )
        },
    }
}

/// Whether a task is live work that keeps the actor: it names the actor as an owner, or names
/// nobody and the actor is a foreman.
pub open spec fn keeps(g: GroupV, t: ObjV, actor_id: Text) -> bool {
    let a = text_field(t, "assignee"@);
    let h = text_field(t, "handoff_to"@);
    actor_work(t) && (a == Some(actor_id) && !is_blank(actor_id) || h == Some(actor_id)
        && !is_blank(actor_id) || (is_blank(or_empty(a)) && is_blank(or_empty(h)) && g.is_foreman(
        actor_id,
    )))
}

/// Whether an actor may idle after a decision: no other handoff waits, and no live task keeps it.
pub open spec fn may_idle_after(
    tasks: Seq<ObjV>,
    g: GroupV,
    actor_id: Text,
    other_handoffs: nat,
) -> bool {
    other_handoffs == 0 && !some_match(tasks, |t: ObjV| keeps(g, t, actor_id))
}

fn is_kept(group: &GroupDoc, t: &JsonMap, actor_id: &str) -> (r: bool)
    ensures
        r == keeps(group@, t@, actor_id@),
{
    if !is_actor_work(t) {
        return false;
    }
    proof {
        assert(crate::text::trimmed_start(Seq::<char>::empty()) =~= Seq::empty());
        assert(is_blank(Seq::empty()));
    }
    let assignee = t.text_or_empty("assignee");
    let handoff_to = t.text_or_empty("handoff_to");
    let no_assignee = blank(assignee.as_str());
    let no_handoff = blank(handoff_to.as_str());
    (!no_assignee && str_eq(assignee.as_str(), actor_id)) || (!no_handoff && str_eq(
        handoff_to.as_str(),
        actor_id,
    )) || (no_assignee && no_handoff && group.is_foreman(actor_id))
}

/// Whether an actor may idle after a decision.
pub fn actor_may_idle_in_context(
    document: &ContextDoc,
    group: &GroupDoc,
    actor_id: &str,
    other_handoffs: usize,
) -> (r: bool)
    ensures
        r == may_idle_after(document@.tasks, group@, actor_id@, other_handoffs as nat),
{
    if other_handoffs > 0 {
        return false;
    }
    let ghost sp = |t: ObjV| keeps(group@, t, actor_id@);
    !any_of(
        &document.tasks,
        |t: &JsonMap| -> (b: bool)
            ensures (b == keeps(group@, t@, actor_id@))
        {
            is_kept(group, t, actor_id)
        },
        Ghost(sp),
    )
}

/// Whether a decision leaves the group quiet: never while other handoffs wait and never after
/// continue; after complete where no task is live; after wait_user and blocked where every live
/// task waits for somebody outside or is blocked.
pub open spec fn safe_after(tasks: Seq<ObjV>, decision: Text, other_handoffs: nat) -> bool {
    if decision == "continue"@ || other_handoffs > 0 {
        false
    } else if decision == "complete"@ {
        !some_match(tasks, |t: ObjV| live(t))
    } else if decision == "wait_user"@ || decision == "blocked"@ {
        !some_match(tasks, |t: ObjV| actor_work(t))
    } else {
        false
    }
}

/// Whether a decision leaves the group quiet.
pub fn group_safe_to_idle(document: &ContextDoc, decision: &str, other_handoffs: usize) -> (r: bool)
    ensures
        r == safe_after(document@.tasks, decision@, other_handoffs as nat),
{
    if str_eq(decision, "continue") || other_handoffs > 0 {
        return false;
    }
    let ghost lives = |t: ObjV| live(t);
    let ghost works = |t: ObjV| actor_work(t);
    if str_eq(decision, "complete") {
        !any_of(
            &document.tasks,
            |t: &JsonMap| -> (b: bool)
                ensures (b == live(t@))
            {
                is_live(t)
            },
            Ghost(lives),
        )
    } else if str_eq(decision, "wait_user") || str_eq(decision, "blocked") {
        !any_of(
            &document.tasks,
            |t: &JsonMap| -> (b: bool)
                ensures (b == actor_work(t@))
            {
                is_actor_work(t)
            },
            Ghost(works),
        )
    } else {
        false
    }
}

proof fn lemma_kinds()
    ensures
        "foreman_review"@ != "actor_work"@,
        "user_pause"@ != "foreman_review"@,
        "user_pause"@ != "actor_work"@,
        "none"@ != "foreman_review"@,
        "none"@ != "actor_work"@,
        "user"@ != "foreman_review"@,
        "user"@ != "actor_work"@,
        "external"@ != "foreman_review"@,
        "external"@ != "actor_work"@,
        "user_and_external"@ != "foreman_review"@,
        "user_and_external"@ != "actor_work"@,
        "user_intervention"@ != "foreman_review"@,
        "user_intervention"@ != "actor_work"@,
        "kind"@ != "tasks"@,
        "kind"@ != "handoff_ids"@,
        "kind"@ != "actor_ids"@,
        "kind"@ != "reason"@,
        "kind"@ != "user_task_ids"@,
        "kind"@ != "external_task_ids"@,
        "actor_id"@ != "waiting_on"@,
        "safe_to_idle"@ != "responsibilities"@,
        "safe_to_idle"@ != "responsibility"@,
        "safe_to_idle"@ != "actor_work"@,
        "safe_to_idle"@ != "user_intervention"@,
        "safe_to_idle"@ != "waiting_responsibility"@,
{
    reveal_strlit("foreman_review");
    reveal_strlit("actor_work");
    reveal_strlit("user_pause");
    reveal_strlit("none");
    reveal_strlit("user");
    reveal_strlit("external");
    reveal_strlit("user_and_external");
    reveal_strlit("user_intervention");
    reveal_strlit("kind");
    reveal_strlit("tasks");
    reveal_strlit("handoff_ids");
    reveal_strlit("actor_ids");
    reveal_strlit("reason");
    reveal_strlit("user_task_ids");
    reveal_strlit("external_task_ids");
    reveal_strlit("actor_id");
    reveal_strlit("waiting_on");
    reveal_strlit("safe_to_idle");
    reveal_strlit("responsibilities");
    reveal_strlit("responsibility");
    reveal_strlit("waiting_responsibility");
    assert("foreman_review"@[0] == 'f');
    assert("actor_work"@[0] == 'a');
    assert("user_pause"@[0] == 'u');
    assert("none"@[0] == 'n');
    assert("user"@[0] == 'u');
    assert("external"@[0] == 'e');
    assert("user_and_external"@[0] == 'u');
    assert("user_intervention"@[0] == 'u');
    assert("kind"@[0] == 'k');
    assert("tasks"@[0] == 't');
    assert("handoff_ids"@[0] == 'h');
    assert("actor_ids"@[0] == 'a');
    assert("reason"@[0] == 'r');
    assert("user_task_ids"@[0] == 'u');
    assert("external_task_ids"@[0] == 'e');
    assert("actor_id"@[0] == 'a');
    assert("waiting_on"@[0] == 'w');
    assert("safe_to_idle"@[0] == 's');
    assert("responsibilities"@[0] == 'r');
    assert("responsibility"@[0] == 'r');
    assert("waiting_responsibility"@[0] == 'w');
}

/// Whether an open handoff that was not escalated is for the actor.
pub open spec fn must_review(events: Seq<EventV>, actor_id: Text) -> bool {
    exists|i: int|
        0 <= i < events.len() && pending(events, #[trigger] events[i]) && !escalated(
            events,
            events[i].handoff(),
        ) && text_field(events[i].data, "target_actor_id"@) == Some(actor_id)
}

/// Whether a live task is work of the actor.
pub open spec fn must_work(tasks: Seq<ObjV>, foreman: Text, actor_id: Text) -> bool {
    exists|i: int|
        0 <= i < tasks.len() && actor_work(#[trigger] tasks[i]) && owner(tasks[i], foreman)
            == actor_id
}

proof fn lemma_review_blocks(events: Seq<EventV>, actor_id: Text)
    ensures
        blocks(review(open_active(events)), actor_id) <==> must_review(events, actor_id),
{
    lemma_kinds();
    let active = open_active(events);
    let r = review(active);
    let target = |e: EventV| text_field(e.data, "target_actor_id"@);
    let targets = targets_of(active);
    let sorted = sorted_set(targets);
    sorted_set_holds_the_same_texts_in_order(targets);
    let named = |v: JsonV| v.text() == Some(actor_id);
    let items = sorted.map_values(|t: Text| JsonV::Str(t));
    assert(r.at("actor_ids"@).list() == Some(items));
    assert(r.at("kind"@).text() == Some("foreman_review"@));
    assert(some_match(items, named) <==> sorted.contains(actor_id)) by {
        if some_match(items, named) {
            let i = choose|i: int| 0 <= i < items.len() && named(#[trigger] items[i]);
            assert(sorted[i] == actor_id);
        }
        if sorted.contains(actor_id) {
            let i = choose|i: int| 0 <= i < sorted.len() && sorted[i] == actor_id;
            assert(named(items[i]));
        }
    }
    let open = events.filter(|e: EventV| pending(events, e));
    crate::lists::lemma_selection(events, |e: EventV| pending(events, e));
    crate::lists::lemma_selection(open, |e: EventV| !escalated(events, e.handoff()));
    if targets.contains(actor_id) {
        active.lemma_filter_map_contains(target, actor_id);
        let i = choose|i: int| 0 <= i < active.len() && target(active[i]) == Some(actor_id);
        assert(active.contains(active[i]));
        assert(open.contains(active[i]));
        assert(events.contains(active[i]));
        let j = choose|j: int| 0 <= j < events.len() && events[j] == active[i];
        assert(pending(events, events[j]));
    }
    if must_review(events, actor_id) {
        let i = choose|i: int|
            0 <= i < events.len() && pending(events, #[trigger] events[i]) && !escalated(
                events,
                events[i].handoff(),
            ) && text_field(events[i].data, "target_actor_id"@) == Some(actor_id);
        assert(events.contains(events[i]));
        assert(open.contains(events[i]));
        assert(active.contains(events[i]));
        let j = choose|j: int| 0 <= j < active.len() && active[j] == events[i];
        lemma_filter_map_has(active, target, j);
    }
}

pub proof fn lemma_filter_map_has<A, B>(s: Seq<A>, f: spec_fn(A) -> Option<B>, i: int)
    requires
        0 <= i < s.len(),
        f(s[i]) is Some,
    ensures
        s.filter_map(f).contains(f(s[i])->0),
    decreases s.len(),
{
    let d = s.drop_last();
    if i < s.len() - 1 {
        lemma_filter_map_has(d, f, i);
        let k = choose|k: int| 0 <= k < d.filter_map(f).len() && d.filter_map(f)[k] == f(s[i])->0;
        assert(s.filter_map(f)[k] == f(s[i])->0);
    } else {
        assert(s.filter_map(f)[d.filter_map(f).len() as int] == f(s[i])->0);
    }
}

proof fn lemma_duty_blocks(tasks: Seq<ObjV>, foreman: Text, actor_id: Text)
    requires
        actor_id.len() > 0,
    ensures
        blocks(task_duty(tasks, foreman), actor_id) <==> must_work(tasks, foreman, actor_id),
        must_work(tasks, foreman, actor_id) ==> task_duty(tasks, foreman).at("kind"@)
            == JsonV::Str("actor_work"@),
        task_duty(tasks, foreman).at("kind"@) == JsonV::Str("none"@) || task_duty(
            tasks,
            foreman,
        ).at("kind"@) == JsonV::Str("actor_work"@) || !blocks(
            task_duty(tasks, foreman),
            actor_id,
        ),
{
    lemma_kinds();
    let items = work_items(tasks, foreman);
    let work = |t: ObjV| actor_work(t);
    let lives = |t: ObjV| live(t);
    let chosen = tasks.filter(work);
    let mine = |t: JsonV| t.at("actor_id"@).text() == Some(actor_id);
    crate::lists::lemma_selection(tasks, work);
    assert(some_match(items, mine) <==> must_work(tasks, foreman, actor_id)) by {
        if some_match(items, mine) {
            let i = choose|i: int| 0 <= i < items.len() && mine(#[trigger] items[i]);
            assert(items[i] == work_item(chosen[i], foreman));
            assert(chosen.contains(chosen[i]));
            let j = choose|j: int| 0 <= j < tasks.len() && tasks[j] == chosen[i];
            assert(actor_work(tasks[j]) && owner(tasks[j], foreman) == actor_id);
        }
        if must_work(tasks, foreman, actor_id) {
            let j = choose|j: int|
                0 <= j < tasks.len() && actor_work(#[trigger] tasks[j]) && owner(
                    tasks[j],
                    foreman,
                ) == actor_id;
            assert(tasks.contains(tasks[j]));
            assert(chosen.contains(tasks[j]));
            let i = choose|i: int| 0 <= i < chosen.len() && chosen[i] == tasks[j];
            assert(items[i] == work_item(chosen[i], foreman));
            assert(mine(items[i]));
        }
    }
    if items.len() > 0 {
        assert(chosen.len() > 0);
        let i = choose|i: int| 0 <= i < tasks.len() && work(#[trigger] tasks[i]);
        assert(lives(tasks[i]));
    }
}

/// An actor may idle in a working group exactly when no open handoff that the user does not
/// already have waits for its review, and no live task is its work.
pub proof fn an_actor_idles_iff_nothing_waits_for_it(
    g: GroupV,
    tasks: Seq<ObjV>,
    events: Seq<EventV>,
    actor_id: Text,
)
    requires
        !g.halted(),
        actor_id.len() > 0,
    ensures
        may_idle(group_account(g, tasks, events), actor_id) <==> !must_review(events, actor_id)
            && !must_work(tasks, foreman_of(g), actor_id),
{
    lemma_kinds();
    let foreman = foreman_of(g);
    let duty = task_duty(tasks, foreman);
    let state = group_account(g, tasks, events);
    let open = events.filter(|e: EventV| pending(events, e));
    let active = open_active(events);
    let raised = open_escalated(events);
    let bad = |r: JsonV| blocks(r, actor_id);
    lemma_review_blocks(events, actor_id);
    lemma_duty_blocks(tasks, foreman, actor_id);
    assert(!blocks(intervention(raised), actor_id));
    crate::lists::lemma_selection(events, |e: EventV| pending(events, e));
    crate::lists::lemma_selection(open, |e: EventV| !escalated(events, e.handoff()));
    if active.len() == 0 {
        assert(!must_review(events, actor_id)) by {
            if must_review(events, actor_id) {
                let i = choose|i: int|
                    0 <= i < events.len() && pending(events, #[trigger] events[i]) && !escalated(
                        events,
                        events[i].handoff(),
                    ) && text_field(events[i].data, "target_actor_id"@) == Some(actor_id);
                assert(events.contains(events[i]));
                assert(open.contains(events[i]));
                assert(active.contains(events[i]));
            }
        }
    }
    let all = state.at("responsibilities"@).list()->0;
    if open.len() == 0 {
        assert(active.len() == 0) by {
            if active.len() > 0 {
                assert(active.contains(active[0]));
                assert(open.contains(active[0]));
            }
        }
        if some_match(tasks, |t: ObjV| live(t)) {
            assert(all == seq![duty]);
            assert(all[0] == duty);
            assert(bad(duty) ==> some_match(all, bad));
        } else {
            assert(all == Seq::<JsonV>::empty());
        }
    } else if active.len() > 0 {
        let work = duty.at("kind"@) == JsonV::Str("actor_work"@);
        let waiting = duty.at("kind"@) != JsonV::Str("none"@) && !work;
        assert(all == seq![review(active)] + only_if(work, duty) + only_if(
            raised.len() > 0,
            intervention(raised),
        ) + only_if(waiting, duty));
        assert(all[0] == review(active));
        if work {
            assert(all[1] == duty);
        }
        if bad(review(active)) {
            assert(bad(all[0]));
        }
        if bad(duty) {
            assert(work);
            assert(bad(all[1]));
        }
    } else {
        let work = duty.at("kind"@) == JsonV::Str("actor_work"@);
        if work {
            assert(all == seq![duty, intervention(raised)]);
            assert(all[0] == duty);
        } else {
            assert(all == seq![intervention(raised)] + only_if(
                duty.at("kind"@) != JsonV::Str("none"@),
                duty,
            ));
        }
        if bad(duty) {
            assert(bad(all[0]));
        }
    }
}

/// A halted group lets every actor idle.
pub proof fn a_halted_group_lets_everyone_idle(
    g: GroupV,
    tasks: Seq<ObjV>,
    events: Seq<EventV>,
    actor_id: Text,
)
    requires
        g.halted(),
    ensures
        may_idle(group_account(g, tasks, events), actor_id),
        group_account(g, tasks, events).at("safe_to_idle"@) == JsonV::Bool(true),
        group_account(g, tasks, events).at("responsibility"@) == bare("user_pause"@),
{
    lemma_kinds();
    reveal_strlit("responsibility");
    reveal_strlit("responsibilities");
    assert("responsibility"@.len() == 14);
    assert("responsibilities"@.len() == 16);
}

/// A working group is safe to idle exactly when no handoff waits for the foreman's review and no
/// live task is work of an actor.
pub proof fn a_group_is_quiet_iff_no_work_is_left(g: GroupV, tasks: Seq<ObjV>, events: Seq<EventV>)
    requires
        !g.halted(),
    ensures
        group_account(g, tasks, events).at("safe_to_idle"@) == JsonV::Bool(
            open_active(events).len() == 0 && !some_match(tasks, |t: ObjV| actor_work(t)),
        ),
{
    lemma_kinds();
    let foreman = foreman_of(g);
    let work = |t: ObjV| actor_work(t);
    let lives = |t: ObjV| live(t);
    let items = work_items(tasks, foreman);
    let open = events.filter(|e: EventV| pending(events, e));
    crate::lists::lemma_selection(tasks, work);
    crate::lists::lemma_selection(open, |e: EventV| !escalated(events, e.handoff()));
    if open.len() == 0 && open_active(events).len() > 0 {
        assert(open_active(events).contains(open_active(events)[0]));
        assert(open.contains(open_active(events)[0]));
    }
    if items.len() > 0 {
        let i = choose|i: int| 0 <= i < tasks.len() && work(#[trigger] tasks[i]);
        assert(lives(tasks[i]));
    }
}

} // verus!
