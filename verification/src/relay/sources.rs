//! Which source events and tasks a decision is about.

use crate::json::{field, lemma_values_are_views, list_field, text_field, values, Json, JsonV, ObjV};
use crate::lists::{collect, find_first, first_match, lemma_views, lemma_views_push};
use crate::model::{
    check_outcome, ledger, ledger_outcome, opt_event, refusal, string_arg, texts_outcome,
    DaemonRequest, ErrV, Event, EventV, OpError,
};
use crate::order::{
    insert_all, insert_sorted, sort_unique, sorted_set, with_all_sorted, with_sorted,
};
use crate::relay::facts::{event_string_list, unresolved, unresolved_source_ids};
use crate::text::{has_text, opt_text, str_eq, texts, trim, trimmed, Text};
use vstd::prelude::*;
use vstd::string::*;

verus! {

broadcast use {lemma_views, lemma_views_push};

/// The most source events that one decision may cover.
pub const MAX_SOURCE_EVENTS: usize = 200;

/// The texts of a list, trimmed, without the empty ones and without repetition.
pub open spec fn cleaned(s: Seq<Text>) -> Seq<Text>
    decreases s.len(),
{
    if s.len() == 0 {
        Seq::empty()
    } else {
        let c = cleaned(s.drop_last());
        let t = trimmed(s.last());
        if t.len() == 0 || c.contains(t) {
            c
        } else {
            c.push(t)
        }
    }
}

fn clean(v: &Vec<String>) -> (r: Vec<String>)
    ensures
        texts(r@) == cleaned(texts(v@)),
{
    let mut r: Vec<String> = Vec::new();
    let mut i: usize = 0;
    proof {
        assert(texts(r@) =~= cleaned(texts(v@).take(0)));
    }
    while i < v.len()
        invariant
            i <= v@.len(),
            texts(r@) == cleaned(texts(v@).take(i as int)),
        decreases v@.len() - i,
    {
        proof {
            assert(texts(v@).take(i + 1).drop_last() =~= texts(v@).take(i as int));
        }
        let t = trim(v[i].as_str());
        if !t.as_str().is_empty() && !has_text(&r, t.as_str()) {
            r.push(t);
        }
        i += 1;
    }
    assert(texts(v@).take(i as int) =~= texts(v@));
    r
}

/// Whether every element is a string.
pub open spec fn all_strings(v: Seq<JsonV>) -> bool {
    forall|i: int| 0 <= i < v.len() ==> (#[trigger] v[i]).text() is Some
}

/// The event ids that the request names one by one.
pub open spec fn single_id(args: ObjV) -> Seq<Text> {
    match text_field(args, "event_id"@) {
        Some(t) => seq![t],
        None => Seq::empty(),
    }
}

/// The source events that a request names: `event_id` and `event_ids`, trimmed, without the empty
/// ones and without repetition; at least one and at most [`MAX_SOURCE_EVENTS`].
pub open spec fn requested(args: ObjV) -> Result<Seq<Text>, ErrV> {
    match field(args, "event_ids"@) {
        None => bounded(cleaned(single_id(args))),
        Some(v) => match v.list() {
            None => Err(
                refusal("invalid_event_ids"@, "event_ids must be an array of strings"@),
            ),
            Some(items) => if !all_strings(items) {
                Err(refusal("invalid_event_ids"@, "event_ids must contain only strings"@))
            } else {
                bounded(cleaned(single_id(args) + crate::json::strings(items)))
            },
        },
    }
}

/// The ids, where there are some and not too many.
pub open spec fn bounded(ids: Seq<Text>) -> Result<Seq<Text>, ErrV> {
    if 0 < ids.len() <= MAX_SOURCE_EVENTS {
        Ok(ids)
    } else {
        Err(
            refusal(
                "invalid_event_ids"@,
                "provide between 1 and 200 unique source event ids"@,
            ),
        )
    }
}

fn only_strings(v: &Vec<Json>) -> (r: bool)
    ensures
        r == all_strings(values(v@)),
{
    broadcast use crate::json::lemma_values;

    let mut i: usize = 0;
    proof {
        crate::json::lemma_values(v@);
    }
    while i < v.len()
        invariant
            i <= v@.len(),
            values(v@).len() == v@.len(),
            forall|j: int| 0 <= j < v@.len() ==> #[trigger] values(v@)[j] == v@[j]@,
            forall|j: int| 0 <= j < i ==> (#[trigger] values(v@)[j]).text() is Some,
        decreases v@.len() - i,
    {
        if v[i].as_str().is_none() {
            assert(values(v@)[i as int].text() is None);
            return false;
        }
        i += 1;
    }
    true
}

/// The source events that a request names.
pub fn source_event_ids(request: &DaemonRequest) -> (r: Result<Vec<String>, OpError>)
    ensures
        texts_outcome(r) == requested(request@.args),
{
    let mut raw: Vec<String> = Vec::new();
    if let Some(id) = string_arg(request, "event_id") {
        raw.push(id);
    }
    proof {
        assert(texts(raw@) =~= single_id(request@.args));
    }
    match request.args.get("event_ids") {
        Some(items) => {
            match items.as_array() {
                Some(v) => {
                    if !only_strings(v) {
                        return Err(
                            OpError::new("invalid_event_ids", "event_ids must contain only strings"),
                        );
                    }
                    let mut more = crate::json_access::strings_of(v);
                    let ghost a = texts(raw@);
                    let ghost b = texts(more@);
                    raw.append(&mut more);
                    proof {
                        assert(texts(raw@) =~= a + b);
                    }
                },
                None => {
                    return Err(
                        OpError::new("invalid_event_ids", "event_ids must be an array of strings"),
                    );
                },
            }
        },
        None => {},
    }
    let ids = clean(&raw);
    if ids.len() == 0 || ids.len() > MAX_SOURCE_EVENTS {
        return Err(
            OpError::new(
                "invalid_event_ids",
                "provide between 1 and 200 unique source event ids",
            ),
        );
    }
    Ok(ids)
}

/// The check that a decision covers at least one and at most [`MAX_SOURCE_EVENTS`] source events.
pub open spec fn count_check(n: nat) -> Result<(), ErrV> {
    if 0 < n <= MAX_SOURCE_EVENTS {
        Ok(())
    } else {
        Err(
            refusal(
                "invalid_event_ids"@,
                "relay handoff must contain between 1 and 200 source events"@,
            ),
        )
    }
}

/// Checks that a decision covers at least one and at most [`MAX_SOURCE_EVENTS`] source events.
pub fn validate_source_count(event_ids: &Vec<String>) -> (r: Result<(), OpError>)
    ensures
        check_outcome(r) == count_check(event_ids@.len()),
{
    if event_ids.len() == 0 || event_ids.len() > MAX_SOURCE_EVENTS {
        return Err(
            OpError::new(
                "invalid_event_ids",
                "relay handoff must contain between 1 and 200 source events",
            ),
        );
    }
    Ok(())
}

/// The first entry with an id.
pub open spec fn event_by_id(events: Seq<EventV>, id: Text) -> Option<EventV> {
    first_match(events, |e: EventV| e.id == id)
}

/// The first entry with an id.
pub fn find_event<'a>(events: &'a Vec<Event>, id: &str) -> (r: Option<&'a Event>)
    ensures
        opt_event(r) == event_by_id(ledger(events@), id@),
{
    let ghost sp = |e: EventV| e.id == id@;
    find_first(
        events,
        |e: &Event| -> (b: bool)
            ensures (b == (e@.id == id@))
        {
            str_eq(e.id.as_str(), id)
        },
        Ghost(sp),
    )
}

/// Whether the entry is a reminder to decide.
pub open spec fn is_reminder(e: EventV) -> bool {
    e.kind == "chat.message"@ && text_field(e.data, "relay_kind"@) == Some("decision_reminder"@)
}

/// The source events that one named event stands for: a reminder stands for the sources it
/// reminds of, any other event for itself. `addressed` are the ids of the events that are
/// addressed to the actor.
pub open spec fn stands_for(
    events: Seq<EventV>,
    addressed: Seq<Text>,
    actor_id: Text,
    id: Text,
) -> Result<Seq<Text>, ErrV> {
    match event_by_id(events, id) {
        None => Err(refusal("event_not_found"@, "event not found: "@ + id)),
        Some(e) => if !is_reminder(e) {
            Ok(seq![id])
        } else if addressed.contains(id) {
            Ok(e.strings("relay_source_event_ids"@))
        } else {
            Err(
                refusal(
                    "relay_event_not_for_actor"@,
                    "reminder is not addressed to actor "@ + actor_id + ": "@ + id,
                ),
            )
        },
    }
}

/// All source events that the named events stand for, each once and in order; the first event
/// that stands for nothing is refused.
pub open spec fn stand_for(
    events: Seq<EventV>,
    addressed: Seq<Text>,
    actor_id: Text,
    ids: Seq<Text>,
) -> Result<Seq<Text>, ErrV>
    decreases ids.len(),
{
    if ids.len() == 0 {
        Ok(Seq::empty())
    } else {
        match stand_for(events, addressed, actor_id, ids.drop_last()) {
            Err(e) => Err(e),
            Ok(known) => match stands_for(events, addressed, actor_id, ids.last()) {
                Err(e) => Err(e),
                Ok(more) => Ok(with_all_sorted(known, more)),
            },
        }
    }
}

/// The list, where its length is within the bounds.
pub open spec fn counted(ids: Seq<Text>) -> Result<Seq<Text>, ErrV> {
    match count_check(ids.len()) {
        Ok(_) => Ok(ids),
        Err(e) => Err(e),
    }
}

/// The source events that a request resolves to.
pub open spec fn resolved(
    events: Seq<EventV>,
    addressed: Seq<Text>,
    actor_id: Text,
    ids: Seq<Text>,
) -> Result<Seq<Text>, ErrV> {
    match stand_for(events, addressed, actor_id, ids) {
        Err(e) => Err(e),
        Ok(all) => counted(all),
    }
}

proof fn lemma_stand_for_error(
    events: Seq<EventV>,
    addressed: Seq<Text>,
    actor_id: Text,
    ids: Seq<Text>,
    n: int,
)
    requires
        0 <= n <= ids.len(),
        stand_for(events, addressed, actor_id, ids.take(n)) is Err,
    ensures
        stand_for(events, addressed, actor_id, ids) == stand_for(
            events,
            addressed,
            actor_id,
            ids.take(n),
        ),
    decreases ids.len() - n,
{
    if n == ids.len() {
        assert(ids.take(n) =~= ids);
    } else {
        assert(ids.take(n + 1).drop_last() =~= ids.take(n));
        lemma_stand_for_error(events, addressed, actor_id, ids, n + 1);
    }
}

/// The source events that a request resolves to. `addressed` are the ids of the events that are
/// addressed to the actor.
pub fn resolve_requested_sources(
    events: &Vec<Event>,
    addressed: &Vec<String>,
    ids: &Vec<String>,
    actor_id: &str,
) -> (r: Result<Vec<String>, OpError>)
    ensures
        texts_outcome(r) == resolved(ledger(events@), texts(addressed@), actor_id@, texts(ids@)),
{
    let ghost es = ledger(events@);
    let ghost ad = texts(addressed@);
    let ghost all = texts(ids@);
    let mut known: Vec<String> = Vec::new();
    let mut i: usize = 0;
    proof {
        assert(texts(known@) =~= Seq::empty());
    }
    while i < ids.len()
        invariant
            i <= ids@.len(),
            es == ledger(events@),
            ad == texts(addressed@),
            all == texts(ids@),
            stand_for(es, ad, actor_id@, all.take(i as int)) == Ok::<Seq<Text>, ErrV>(
                texts(known@),
            ),
        decreases ids@.len() - i,
    {
        proof {
            assert(all.take(i + 1).drop_last() =~= all.take(i as int));
            if stand_for(es, ad, actor_id@, all.take(i + 1)) is Err {
                lemma_stand_for_error(es, ad, actor_id@, all, i + 1);
            }
        }
        let id = ids[i].as_str();
        match find_event(events, id) {
            None => {
                return Err(OpError::about("event_not_found", "event not found: ", id));
            },
            Some(e) => {
                if e.is_kind("chat.message") && e.data.is("relay_kind", "decision_reminder") {
                    if !has_text(addressed, id) {
                        let mut m = "reminder is not addressed to actor ".to_owned();
                        m.append(actor_id);
                        m.append(": ");
                        m.append(id);
                        return Err(OpError::new("relay_event_not_for_actor", m.as_str()));
                    }
                    let more = event_string_list(e, "relay_source_event_ids");
                    insert_all(&mut known, &more);
                } else {
                    let ghost before = texts(known@);
                    insert_sorted(&mut known, ids[i].clone());
                    proof {
                        let one = seq![all[i as int]];
                        assert(one.drop_last() =~= Seq::empty());
                        assert(with_all_sorted(before, one.drop_last()) == before);
                        assert(with_all_sorted(before, one) == with_sorted(before, all[i as int]));
                    }
                }
            },
        }
        i += 1;
    }
    proof {
        assert(all.take(i as int) =~= all);
    }
    validate_source_count(&known)?;
    Ok(known)
}

/// The source event with an id, where it is one for the actor.
pub open spec fn source(
    events: Seq<EventV>,
    addressed: Seq<Text>,
    actor_id: Text,
    id: Text,
) -> Result<EventV, ErrV> {
    match event_by_id(events, id) {
        None => Err(refusal("event_not_found"@, "event not found: "@ + id)),
        Some(e) => if (e.kind == "chat.message"@ || e.kind == "system.notify"@)
            && addressed.contains(id) {
            Ok(e)
        } else {
            Err(
                refusal(
                    "relay_event_not_for_actor"@,
                    "event is not a relay source for actor "@ + actor_id + ": "@ + id,
                ),
            )
        },
    }
}

/// The source events with the ids, in the order of the ids; the first that is none for the actor
/// is refused.
pub open spec fn sources_of(
    events: Seq<EventV>,
    addressed: Seq<Text>,
    actor_id: Text,
    ids: Seq<Text>,
) -> Result<Seq<EventV>, ErrV>
    decreases ids.len(),
{
    if ids.len() == 0 {
        Ok(Seq::empty())
    } else {
        match sources_of(events, addressed, actor_id, ids.drop_last()) {
            Err(e) => Err(e),
            Ok(known) => match source(events, addressed, actor_id, ids.last()) {
                Err(e) => Err(e),
                Ok(e) => Ok(known.push(e)),
            },
        }
    }
}

proof fn lemma_sources_error(
    events: Seq<EventV>,
    addressed: Seq<Text>,
    actor_id: Text,
    ids: Seq<Text>,
    n: int,
)
    requires
        0 <= n <= ids.len(),
        sources_of(events, addressed, actor_id, ids.take(n)) is Err,
    ensures
        sources_of(events, addressed, actor_id, ids) == sources_of(
            events,
            addressed,
            actor_id,
            ids.take(n),
        ),
    decreases ids.len() - n,
{
    if n == ids.len() {
        assert(ids.take(n) =~= ids);
    } else {
        assert(ids.take(n + 1).drop_last() =~= ids.take(n));
        lemma_sources_error(events, addressed, actor_id, ids, n + 1);
    }
}

/// The source events with the ids, in the order of the ids.
pub fn source_events(
    events: &Vec<Event>,
    addressed: &Vec<String>,
    ids: &Vec<String>,
    actor_id: &str,
) -> (r: Result<Vec<Event>, OpError>)
    ensures
        ledger_outcome(r) == sources_of(
            ledger(events@),
            texts(addressed@),
            actor_id@,
            texts(ids@),
        ),
{
    let ghost es = ledger(events@);
    let ghost ad = texts(addressed@);
    let ghost all = texts(ids@);
    let mut known: Vec<Event> = Vec::new();
    let mut i: usize = 0;
    proof {
        assert(ledger(known@) =~= Seq::empty());
    }
    while i < ids.len()
        invariant
            i <= ids@.len(),
            es == ledger(events@),
            ad == texts(addressed@),
            all == texts(ids@),
            sources_of(es, ad, actor_id@, all.take(i as int)) == Ok::<Seq<EventV>, ErrV>(
                ledger(known@),
            ),
        decreases ids@.len() - i,
    {
        proof {
            assert(all.take(i + 1).drop_last() =~= all.take(i as int));
            if sources_of(es, ad, actor_id@, all.take(i + 1)) is Err {
                lemma_sources_error(es, ad, actor_id@, all, i + 1);
            }
        }
        let id = ids[i].as_str();
        match find_event(events, id) {
            None => {
                return Err(OpError::about("event_not_found", "event not found: ", id));
            },
            Some(e) => {
                if !(e.is_kind("chat.message") || e.is_kind("system.notify")) || !has_text(
                    addressed,
                    id,
                ) {
                    let mut m = "event is not a relay source for actor ".to_owned();
                    m.append(actor_id);
                    m.append(": ");
                    m.append(id);
                    return Err(OpError::new("relay_event_not_for_actor", m.as_str()));
                }
                known.push(e.copy());
            },
        }
        i += 1;
    }
    proof {
        assert(all.take(i as int) =~= all);
    }
    Ok(known)
}

/// The ids with every open source event of the handoffs put in, in order.
pub open spec fn with_open_sources(
    ids: Seq<Text>,
    handoffs: Seq<EventV>,
    events: Seq<EventV>,
) -> Seq<Text>
    decreases handoffs.len(),
{
    if handoffs.len() == 0 {
        sorted_set(ids)
    } else {
        with_all_sorted(
            with_open_sources(ids, handoffs.drop_last(), events),
            unresolved(events, handoffs.last()),
        )
    }
}

/// The source events that a decision covers: those requested and every open one of the handoffs
/// they belong to.
pub fn complete_handoff_source_ids(
    requested: &Vec<String>,
    handoffs: &Vec<Event>,
    events: &Vec<Event>,
) -> (r: Result<Vec<String>, OpError>)
    ensures
        texts_outcome(r) == counted(
            with_open_sources(texts(requested@), ledger(handoffs@), ledger(events@)),
        ),
{
    let ghost hs = ledger(handoffs@);
    let mut ids = sort_unique(requested);
    let mut i: usize = 0;
    while i < handoffs.len()
        invariant
            i <= handoffs@.len(),
            hs == ledger(handoffs@),
            texts(ids@) == with_open_sources(
                texts(requested@),
                hs.take(i as int),
                ledger(events@),
            ),
        decreases handoffs@.len() - i,
    {
        let more = unresolved_source_ids(events, &handoffs[i]);
        insert_all(&mut ids, &more);
        proof {
            assert(hs.take(i + 1).drop_last() =~= hs.take(i as int));
        }
        i += 1;
    }
    proof {
        assert(hs.take(i as int) =~= hs);
    }
    validate_source_count(&ids)?;
    Ok(ids)
}

/// The task that a reference names, where it is a task reference.
pub open spec fn referenced_task(item: JsonV) -> Option<Text> {
    if item.at("kind"@).text() == Some("task_ref"@) {
        item.at("task_id"@).text()
    } else {
        None
    }
}

/// The tasks that an event refers to.
pub open spec fn task_refs(e: EventV) -> Seq<Text> {
    match list_field(e.data, "refs"@) {
        Some(items) => items.filter_map(|x: JsonV| referenced_task(x)),
        None => Seq::empty(),
    }
}

/// The tasks that the events refer to, each once and in order.
pub open spec fn tasks_of_events(events: Seq<EventV>) -> Seq<Text>
    decreases events.len(),
{
    if events.len() == 0 {
        Seq::empty()
    } else {
        with_all_sorted(tasks_of_events(events.drop_last()), task_refs(events.last()))
    }
}

fn task_refs_of(e: &Event) -> (r: Vec<String>)
    ensures
        texts(r@) == task_refs(e@),
{
    match e.data.list("refs") {
        Some(items) => {
            let ghost sf = |x: JsonV| referenced_task(x);
            proof {
                lemma_values_are_views(items@);
            }
            collect(
                items,
                |x: &Json| -> (t: Option<String>)
                    ensures (opt_text(t) == referenced_task(x@))
                {
                    if x.is("kind", "task_ref") {
                        match x.text("task_id") {
                            Some(t) => Some(t.to_owned()),
                            None => None,
                        }
                    } else {
                        None
                    }
                },
                Ghost(sf),
            )
        },
        None => {
            let r: Vec<String> = Vec::new();
            assert(texts(r@) =~= Seq::empty());
            r
        },
    }
}

/// The tasks that the events refer to, each once and in order.
pub fn task_ids_from_events(events: &Vec<Event>) -> (r: Vec<String>)
    ensures
        texts(r@) == tasks_of_events(ledger(events@)),
{
    let ghost es = ledger(events@);
    let mut r: Vec<String> = Vec::new();
    let mut i: usize = 0;
    proof {
        assert(texts(r@) =~= Seq::empty());
    }
    while i < events.len()
        invariant
            i <= events@.len(),
            es == ledger(events@),
            texts(r@) == tasks_of_events(es.take(i as int)),
        decreases events@.len() - i,
    {
        let more = task_refs_of(&events[i]);
        insert_all(&mut r, &more);
        proof {
            assert(es.take(i + 1).drop_last() =~= es.take(i as int));
        }
        i += 1;
    }
    proof {
        assert(es.take(i as int) =~= es);
    }
    r
}

} // verus!
