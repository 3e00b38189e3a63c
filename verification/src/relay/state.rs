//! Who is responsible now: the tasks, the open handoffs and the user's pause taken together.

use crate::json::{
    field, lemma_values, lemma_values_push, objects, or_empty, or_null, text_array, text_field,
    text_or_empty, values, Json, JsonMap, JsonV, ObjV,
};
use crate::json_access::json_texts;
use crate::lists::{any_of, collect, lemma_views, lemma_views_push, select, some_match};
use crate::model::{ledger, ContextDoc, Event, EventV, GroupDoc, GroupV};
use crate::order::{sort_unique, sorted_set};
use crate::relay::facts::{
    escalated, escalation_for_handoff, pending, unresolved_handoffs_for_group,
};
use crate::relay::work::{actor_work, blocked, is_actor_work, is_blocked, is_live, live};
use crate::text::{blank, is_blank, opt_text, texts, Text};
use vstd::prelude::*;

verus! {

broadcast use {lemma_views, lemma_views_push, lemma_values, lemma_values_push};

/// A responsibility of a kind with nothing else to it.
pub open spec fn bare(kind: Text) -> JsonV {
    JsonV::Obj(map!["kind"@ => JsonV::Str(kind)])
}

/// The account of a group's responsibilities.
pub open spec fn account(safe: bool, responsibility: JsonV, all: Seq<JsonV>) -> JsonV {
    JsonV::Obj(
        map![
            "safe_to_idle"@ => JsonV::Bool(safe),
            "responsibility"@ => responsibility,
            "responsibilities"@ => JsonV::Arr(all),
        ],
    )
}

/// The owner that a task names first, in `assignee` or else `handoff_to`.
pub open spec fn named_owner(t: ObjV) -> Option<Text> {
    match text_field(t, "assignee"@) {
        Some(a) => Some(a),
        None => text_field(t, "handoff_to"@),
    }
}

/// The owner of a task: the one it names, else the foreman.
pub open spec fn owner(t: ObjV, foreman: Text) -> Text {
    match named_owner(t) {
        Some(a) => if is_blank(a) {
            foreman
        } else {
            a
        },
        None => foreman,
    }
}

/// A task as an item of actor work.
pub open spec fn work_item(t: ObjV, foreman: Text) -> JsonV {
    JsonV::Obj(
        map![
            "task_id"@ => or_null(field(t, "id"@)),
            "actor_id"@ => if owner(t, foreman).len() == 0 {
                JsonV::Null
            } else {
                JsonV::Str(owner(t, foreman))
            },
            "waiting_on"@ => or_null(field(t, "waiting_on"@)),
        ],
    )
}

/// The items of actor work among the tasks.
pub open spec fn work_items(tasks: Seq<ObjV>, foreman: Text) -> Seq<JsonV> {
    tasks.filter(|t: ObjV| actor_work(t)).map_values(|t: ObjV| work_item(t, foreman))
}

/// The live tasks that wait for the user.
pub open spec fn user_tasks(tasks: Seq<ObjV>) -> Seq<Text> {
    tasks.filter_map(
        |t: ObjV|
            if live(t) && text_field(t, "waiting_on"@) == Some("user"@) {
                text_field(t, "id"@)
            } else {
                None
            },
    )
}

/// The live tasks that wait for something outside or are blocked.
pub open spec fn external_tasks(tasks: Seq<ObjV>) -> Seq<Text> {
    tasks.filter_map(
        |t: ObjV|
            if live(t) && (text_field(t, "waiting_on"@) == Some("external"@) || blocked(t)) {
                text_field(t, "id"@)
            } else {
                None
            },
    )
}

/// The responsibility that the tasks leave: none where no task is live, actor work where an actor
/// has some, else the user's or somebody's outside.
pub open spec fn task_duty(tasks: Seq<ObjV>, foreman: Text) -> JsonV {
    if !some_match(tasks, |t: ObjV| live(t)) {
        bare("none"@)
    } else if work_items(tasks, foreman).len() > 0 {
        JsonV::Obj(
            map![
                "kind"@ => JsonV::Str("actor_work"@),
                "tasks"@ => JsonV::Arr(work_items(tasks, foreman)),
            ],
        )
    } else {
        JsonV::Obj(
            map![
                "kind"@ => JsonV::Str(
                    if external_tasks(tasks).len() == 0 {
                        "user"@
                    } else if user_tasks(tasks).len() == 0 {
                        "external"@
                    } else {
                        "user_and_external"@
                    },
                ),
                "user_task_ids"@ => text_array(user_tasks(tasks)),
                "external_task_ids"@ => text_array(external_tasks(tasks)),
            ],
        )
    }
}

/// What the tasks alone say of a group.
pub open spec fn task_account(tasks: Seq<ObjV>, foreman: Text) -> JsonV {
    let duty = task_duty(tasks, foreman);
    account(
        work_items(tasks, foreman).len() == 0,
        duty,
        if some_match(tasks, |t: ObjV| live(t)) {
            seq![duty]
        } else {
            Seq::empty()
        },
    )
}

fn bare_duty(kind: &str) -> (r: Json)
    ensures
        r@ == bare(kind@),
{
    let mut m = JsonMap::new();
    m.put("kind", Json::str(kind));
    Json::Obj(m)
}

fn account_of(safe: bool, responsibility: Json, all: Vec<Json>) -> (r: Json)
    ensures
        r@ == account(safe, responsibility@, values(all@)),
{
    let mut m = JsonMap::new();
    m.put("safe_to_idle", Json::Bool(safe));
    m.put("responsibility", responsibility);
    m.put("responsibilities", Json::Arr(all));
    Json::Obj(m)
}

fn owner_of(t: &JsonMap, foreman: &str) -> (r: String)
    ensures
        r@ == owner(t@, foreman@),
{
    let named = match t.text("assignee") {
        Some(a) => Some(a),
        None => t.text("handoff_to"),
    };
    match named {
        Some(a) => if blank(a) {
            foreman.to_owned()
        } else {
            a.to_owned()
        },
        None => foreman.to_owned(),
    }
}

fn work_item_of(t: &JsonMap, foreman: &str) -> (r: Json)
    ensures
        r@ == work_item(t@, foreman@),
{
    let o = owner_of(t, foreman);
    let mut m = JsonMap::new();
    m.put("task_id", t.copy_or_null("id"));
    m.put(
        "actor_id",
        if o.as_str().is_empty() {
            Json::Null
        } else {
            Json::Str(o)
        },
    );
    m.put("waiting_on", t.copy_or_null("waiting_on"));
    Json::Obj(m)
}

fn work_items_of(tasks: &Vec<JsonMap>, foreman: &str) -> (r: Vec<Json>)
    ensures
        values(r@) == work_items(objects(tasks@), foreman@),
{
    let ghost sp = |t: ObjV| actor_work(t);
    let work = select(
        tasks,
        |t: &JsonMap| -> (b: bool)
            ensures (b == actor_work(t@))
        {
            is_actor_work(t)
        },
        |t: &JsonMap| -> (c: JsonMap)
            ensures (c@ == t@)
        {
            t.copy()
        },
        Ghost(sp),
    );
    let mut r: Vec<Json> = Vec::new();
    let mut i: usize = 0;
    while i < work.len()
        invariant
            i <= work@.len(),
            values(r@).len() == i,
            forall|j: int|
                0 <= j < i ==> #[trigger] values(r@)[j] == work_item(objects(work@)[j], foreman@),
        decreases work@.len() - i,
    {
        r.push(work_item_of(&work[i], foreman));
        i += 1;
    }
    proof {
        assert(values(r@) =~= work_items(objects(tasks@), foreman@));
    }
    r
}

fn user_tasks_of(tasks: &Vec<JsonMap>) -> (r: Vec<String>)
    ensures
        texts(r@) == user_tasks(objects(tasks@)),
{
    let ghost sf = |t: ObjV|
        if live(t) && text_field(t, "waiting_on"@) == Some("user"@) {
            text_field(t, "id"@)
        } else {
            None
        };
    collect(
        tasks,
        |t: &JsonMap| -> (x: Option<String>)
            ensures (opt_text(x) == (if live(t@) && text_field(t@, "waiting_on"@) == Some(
                "user"@,
            ) {
                text_field(t@, "id"@)
            } else {
                None
            }))
        {
            if is_live(t) && t.is("waiting_on", "user") {
                match t.text("id") {
                    Some(x) => Some(x.to_owned()),
                    None => None,
                }
            } else {
                None
            }
        },
        Ghost(sf),
    )
}

fn external_tasks_of(tasks: &Vec<JsonMap>) -> (r: Vec<String>)
    ensures
        texts(r@) == external_tasks(objects(tasks@)),
{
    let ghost sf = |t: ObjV|
        if live(t) && (text_field(t, "waiting_on"@) == Some("external"@) || blocked(t)) {
            text_field(t, "id"@)
        } else {
            None
        };
    collect(
        tasks,
        |t: &JsonMap| -> (x: Option<String>)
            ensures (opt_text(x) == (if live(t@) && (text_field(t@, "waiting_on"@) == Some(
                "external"@,
            ) || blocked(t@)) {
                text_field(t@, "id"@)
            } else {
                None
            }))
        {
            if is_live(t) && (t.is("waiting_on", "external") || is_blocked(t)) {
                match t.text("id") {
                    Some(x) => Some(x.to_owned()),
                    None => None,
                }
            } else {
                None
            }
        },
        Ghost(sf),
    )
}

fn any_live(tasks: &Vec<JsonMap>) -> (r: bool)
    ensures
        r == some_match(objects(tasks@), |t: ObjV| live(t)),
{
    let ghost sp = |t: ObjV| live(t);
    any_of(
        tasks,
        |t: &JsonMap| -> (b: bool)
            ensures (b == live(t@))
        {
            is_live(t)
        },
        Ghost(sp),
    )
}

proof fn lemma_work_is_live(tasks: Seq<ObjV>, foreman: Text)
    ensures
        work_items(tasks, foreman).len() > 0 ==> some_match(tasks, |t: ObjV| live(t)),
        work_items(tasks, foreman).len() > 0 <==> some_match(tasks, |t: ObjV| actor_work(t)),
{
    let work = |t: ObjV| actor_work(t);
    let lives = |t: ObjV| live(t);
    crate::lists::lemma_selection(tasks, work);
    if some_match(tasks, work) {
        let i = choose|i: int| 0 <= i < tasks.len() && work(#[trigger] tasks[i]);
        assert(lives(tasks[i]));
    }
}

/// The foreman that unowned work falls to; empty where none is available.
pub open spec fn foreman_of(g: GroupV) -> Text {
    or_empty(g.available_foreman)
}

/// What the tasks alone say of a group.
pub fn task_group_state(document: &ContextDoc, group: &GroupDoc) -> (r: Json)
    ensures
        r@ == task_account(document@.tasks, foreman_of(group@)),
{
    let foreman = match &group.available_foreman {
        Some(f) => f.clone(),
        None => String::new(),
    };
    let ghost tasks = document@.tasks;
    proof {
        lemma_work_is_live(tasks, foreman@);
    }
    if !any_live(&document.tasks) {
        let none: Vec<Json> = Vec::new();
        assert(values(none@) =~= Seq::empty());
        return account_of(true, bare_duty("none"), none);
    }
    let work = work_items_of(&document.tasks, foreman.as_str());
    let mut duty = JsonMap::new();
    let safe = work.len() == 0;
    if !safe {
        duty.put("kind", Json::str("actor_work"));
        duty.put("tasks", Json::Arr(work));
    } else {
        let users = user_tasks_of(&document.tasks);
        let outside = external_tasks_of(&document.tasks);
        duty.put(
            "kind",
            Json::str(
                if outside.len() == 0 {
                    "user"
                } else if users.len() == 0 {
                    "external"
                } else {
                    "user_and_external"
                },
            ),
        );
        duty.put("user_task_ids", json_texts(&users));
        duty.put("external_task_ids", json_texts(&outside));
    }
    let duty = Json::Obj(duty);
    let mut all: Vec<Json> = Vec::new();
    all.push(duty.copy());
    proof {
        assert(values(all@) =~= seq![task_duty(tasks, foreman@)]);
    }
    account_of(safe, duty, all)
}

/// The identifiers of the handoffs.
pub open spec fn ids_of(handoffs: Seq<EventV>) -> Seq<Text> {
    handoffs.filter_map(|e: EventV| text_field(e.data, "handoff_id"@))
}

/// The actors that the handoffs are for.
pub open spec fn targets_of(handoffs: Seq<EventV>) -> Seq<Text> {
    handoffs.filter_map(|e: EventV| text_field(e.data, "target_actor_id"@))
}

/// The open handoffs that were escalated to the user.
pub open spec fn open_escalated(events: Seq<EventV>) -> Seq<EventV> {
    events.filter(|e: EventV| pending(events, e)).filter(
        |e: EventV| escalated(events, e.handoff()),
    )
}

/// The open handoffs that wait for the foreman.
pub open spec fn open_active(events: Seq<EventV>) -> Seq<EventV> {
    events.filter(|e: EventV| pending(events, e)).filter(
        |e: EventV| !escalated(events, e.handoff()),
    )
}

/// The user's responsibility for escalated handoffs.
pub open spec fn intervention(handoffs: Seq<EventV>) -> JsonV {
    JsonV::Obj(
        map![
            "kind"@ => JsonV::Str("user_intervention"@),
            "handoff_ids"@ => text_array(ids_of(handoffs)),
            "reason"@ => JsonV::Str("foreman_decision_missing"@),
        ],
    )
}

/// The foreman's responsibility for open handoffs.
pub open spec fn review(handoffs: Seq<EventV>) -> JsonV {
    JsonV::Obj(
        map![
            "kind"@ => JsonV::Str("foreman_review"@),
            "handoff_ids"@ => text_array(ids_of(handoffs)),
            "actor_ids"@ => text_array(sorted_set(targets_of(handoffs))),
        ],
    )
}

/// A list with one value where the condition holds, else an empty one.
pub open spec fn only_if(b: bool, x: JsonV) -> Seq<JsonV> {
    if b {
        seq![x]
    } else {
        Seq::empty()
    }
}

/// The object with one more member where the condition holds.
pub open spec fn member_if(m: ObjV, b: bool, key: Text, x: JsonV) -> ObjV {
    if b {
        m.insert(key, x)
    } else {
        m
    }
}

/// The account while some handoff waits for the foreman.
pub open spec fn review_account(duty: JsonV, active: Seq<EventV>, raised: Seq<EventV>) -> JsonV {
    let kind = duty.at("kind"@);
    let work = kind == JsonV::Str("actor_work"@);
    let waiting = kind != JsonV::Str("none"@) && !work;
    let user = raised.len() > 0;
    let all = seq![review(active)] + only_if(work, duty) + only_if(user, intervention(raised))
        + only_if(waiting, duty);
    let base = map![
        "safe_to_idle"@ => JsonV::Bool(false),
        "responsibility"@ => review(active),
    ];
    JsonV::Obj(
        member_if(
            member_if(
                member_if(base, work, "actor_work"@, duty),
                user,
                "user_intervention"@,
                intervention(raised),
            ),
            waiting,
            "waiting_responsibility"@,
            duty,
        ).insert("responsibilities"@, JsonV::Arr(all)),
    )
}

/// The account while every open handoff was escalated to the user.
pub open spec fn intervention_account(safe: JsonV, duty: JsonV, raised: Seq<EventV>) -> JsonV {
    let kind = duty.at("kind"@);
    if kind == JsonV::Str("actor_work"@) {
        JsonV::Obj(
            map![
                "safe_to_idle"@ => JsonV::Bool(false),
                "responsibility"@ => duty,
                "user_intervention"@ => intervention(raised),
                "responsibilities"@ => JsonV::Arr(seq![duty, intervention(raised)]),
            ],
        )
    } else {
        JsonV::Obj(
            map![
                "safe_to_idle"@ => safe,
                "responsibility"@ => intervention(raised),
                "waiting_responsibility"@ => duty,
                "responsibilities"@ => JsonV::Arr(
                    seq![intervention(raised)] + only_if(kind != JsonV::Str("none"@), duty),
                ),
            ],
        )
    }
}

/// Who is responsible in a group: the user while it is halted; else the foreman for open
/// handoffs, the user for escalated ones, and whoever the tasks wait for.
pub open spec fn group_account(g: GroupV, tasks: Seq<ObjV>, events: Seq<EventV>) -> JsonV {
    let duty = task_duty(tasks, foreman_of(g));
    if g.halted() {
        account(true, bare("user_pause"@), seq![bare("user_pause"@)])
    } else if events.filter(|e: EventV| pending(events, e)).len() == 0 {
        task_account(tasks, foreman_of(g))
    } else if open_active(events).len() > 0 {
        review_account(duty, open_active(events), open_escalated(events))
    } else {
        intervention_account(
            JsonV::Bool(work_items(tasks, foreman_of(g)).len() == 0),
            duty,
            open_escalated(events),
        )
    }
}

fn ids_of_handoffs(handoffs: &Vec<Event>) -> (r: Vec<String>)
    ensures
        texts(r@) == ids_of(ledger(handoffs@)),
{
    texts_under(handoffs, "handoff_id")
}

/// The texts that the entries hold under a key.
pub(crate) fn texts_under(v: &Vec<Event>, key: &str) -> (r: Vec<String>)
    ensures
        texts(r@) == ledger(v@).filter_map(|e: EventV| text_field(e.data, key@)),
{
    let ghost sf = |e: EventV| text_field(e.data, key@);
    collect(
        v,
        |e: &Event| -> (x: Option<String>)
            ensures (opt_text(x) == text_field(e@.data, key@))
        {
            match e.data.text(key) {
                Some(x) => Some(x.to_owned()),
                None => None,
            }
        },
        Ghost(sf),
    )
}

fn intervention_of(handoffs: &Vec<Event>) -> (r: Json)
    ensures
        r@ == intervention(ledger(handoffs@)),
{
    let ids = ids_of_handoffs(handoffs);
    let mut m = JsonMap::new();
    m.put("kind", Json::str("user_intervention"));
    m.put("handoff_ids", json_texts(&ids));
    m.put("reason", Json::str("foreman_decision_missing"));
    Json::Obj(m)
}

fn review_of(handoffs: &Vec<Event>) -> (r: Json)
    ensures
        r@ == review(ledger(handoffs@)),
{
    let ids = ids_of_handoffs(handoffs);
    let targets = texts_under(handoffs, "target_actor_id");
    let targets = sort_unique(&targets);
    let mut m = JsonMap::new();
    m.put("kind", Json::str("foreman_review"));
    m.put("handoff_ids", json_texts(&ids));
    m.put("actor_ids", json_texts(&targets));
    Json::Obj(m)
}

fn split_open(events: &Vec<Event>, open: &Vec<Event>, raised: bool) -> (r: Vec<Event>)
    ensures
        ledger(r@) == ledger(open@).filter(
            |e: EventV| escalated(ledger(events@), e.handoff()) == raised,
        ),
{
    let ghost sp = |e: EventV| escalated(ledger(events@), e.handoff()) == raised;
    select(
        open,
        |e: &Event| -> (b: bool)
            ensures (b == (escalated(ledger(events@), e@.handoff()) == raised))
        {
            let id = e.data.text_or_empty("handoff_id");
            escalation_for_handoff(events, id.as_str()) == raised
        },
        |e: &Event| -> (c: Event)
            ensures (c@ == e@)
        {
            e.copy()
        },
        Ghost(sp),
    )
}

proof fn lemma_same_selection<A>(s: Seq<A>, p: spec_fn(A) -> bool, q: spec_fn(A) -> bool)
    requires
        forall|x: A| #[trigger] p(x) == q(x),
    ensures
        s.filter(p) == s.filter(q),
    decreases s.len(),
{
    reveal(Seq::filter);
    if s.len() > 0 {
        lemma_same_selection(s.drop_last(), p, q);
    }
}

/// Who is responsible in a group now.
pub fn current_group_state(document: &ContextDoc, group: &GroupDoc, events: &Vec<Event>) -> (r:
    Json)
    ensures
        r@ == group_account(group@, document@.tasks, ledger(events@)),
{
    if group.halted() {
        let mut all: Vec<Json> = Vec::new();
        all.push(bare_duty("user_pause"));
        proof {
            assert(values(all@) =~= seq![bare("user_pause"@)]);
        }
        return account_of(true, bare_duty("user_pause"), all);
    }
    let ghost es = ledger(events@);
    let ghost tasks = document@.tasks;
    let tasks_now = task_group_state(document, group);
    let open = unresolved_handoffs_for_group(events);
    if open.len() == 0 {
        return tasks_now;
    }
    proof {
        reveal_strlit("safe_to_idle");
        reveal_strlit("responsibility");
        reveal_strlit("responsibilities");
        assert("safe_to_idle"@.len() == 12);
        assert("responsibility"@.len() == 14);
        assert("responsibilities"@.len() == 16);
        lemma_same_selection(
            ledger(open@),
            |e: EventV| escalated(es, e.handoff()) == true,
            |e: EventV| escalated(es, e.handoff()),
        );
        lemma_same_selection(
            ledger(open@),
            |e: EventV| escalated(es, e.handoff()) == false,
            |e: EventV| !escalated(es, e.handoff()),
        );
    }
    let duty = tasks_now.at("responsibility");
    let safe = tasks_now.at("safe_to_idle");
    let raised = split_open(events, &open, true);
    let active = split_open(events, &open, false);
    let work = duty.is("kind", "actor_work");
    let none = duty.is("kind", "none");
    let user = raised.len() > 0;
    if active.len() > 0 {
        let now = review_of(&active);
        let mut all: Vec<Json> = Vec::new();
        let mut state = JsonMap::new();
        state.put("safe_to_idle", Json::Bool(false));
        all.push(now.copy());
        state.put("responsibility", now);
        if work {
            all.push(duty.copy());
            state.put("actor_work", duty.copy());
        }
        if user {
            let step_in = intervention_of(&raised);
            all.push(step_in.copy());
            state.put("user_intervention", step_in);
        }
        if !none && !work {
            all.push(duty.copy());
            state.put("waiting_responsibility", duty);
        }
        proof {
            let d = task_duty(tasks, foreman_of(group@));
            assert(values(all@) =~= seq![review(open_active(es))] + only_if(work, d) + only_if(
                user,
                intervention(open_escalated(es)),
            ) + only_if(!none && !work, d));
        }
        state.put("responsibilities", Json::Arr(all));
        return Json::Obj(state);
    }
    let step_in = intervention_of(&raised);
    let mut state = JsonMap::new();
    let mut all: Vec<Json> = Vec::new();
    if work {
        all.push(duty.copy());
        all.push(step_in.copy());
        proof {
            assert(values(all@) =~= seq![duty@, step_in@]);
        }
        state.put("safe_to_idle", Json::Bool(false));
        state.put("responsibility", duty);
        state.put("user_intervention", step_in);
        state.put("responsibilities", Json::Arr(all));
        return Json::Obj(state);
    }
    all.push(step_in.copy());
    if !none {
        all.push(duty.copy());
    }
    proof {
        assert(values(all@) =~= seq![step_in@] + only_if(!none, duty@));
    }
    state.put("safe_to_idle", safe);
    state.put("responsibility", step_in);
    state.put("waiting_responsibility", duty);
    state.put("responsibilities", Json::Arr(all));
    Json::Obj(state)
}

} // verus!
