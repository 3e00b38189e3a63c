//! What the ledger says about handoffs, decisions and deliveries.

use crate::json::{strings_field, text_field, text_or_empty};
use crate::lists::{
    any_of, find_first, find_last, first_match, last_match, lemma_views, lemma_views_push, overlaps,
    select, some_match,
};
use crate::model::{ledger, opt_event, Event, EventV};
use crate::order::{sort_unique, sorted_set};
use crate::relay::ids::{DECISION_KIND, HANDOFF_KIND};
use crate::text::{has_text, texts, Text};
use vstd::prelude::*;

verus! {

broadcast use {lemma_views, lemma_views_push};

impl EventV {
    /// Whether the entry records a relay decision.
    pub open spec fn is_decision(self) -> bool {
        self.kind == DECISION_KIND@
    }

    /// Whether the entry records a member handoff.
    pub open spec fn is_handoff(self) -> bool {
        self.kind == HANDOFF_KIND@
    }

    /// The identifier of the handoff that the entry records.
    pub open spec fn handoff(self) -> Text {
        text_or_empty(self.data, "handoff_id"@)
    }

    /// The strings in a list of the entry's data.
    pub open spec fn strings(self, key: Text) -> Seq<Text> {
        strings_field(self.data, key)
    }

    /// Whether the entry decides the handoff.
    pub open spec fn decides_handoff(self, handoff_id: Text) -> bool {
        self.is_decision() && self.strings("handoff_ids"@).contains(handoff_id)
    }

    /// Whether the entry decides the source event.
    pub open spec fn decides_source(self, id: Text) -> bool {
        self.is_decision() && self.strings("source_event_ids"@).contains(id)
    }

    /// Whether the entry is a chat message of a relay kind about a handoff.
    pub open spec fn notice(self, relay_kind: Text, handoff_id: Text) -> bool {
        &&& self.kind == "chat.message"@
        &&& text_field(self.data, "relay_kind"@) == Some(relay_kind)
        &&& self.strings("relay_handoff_ids"@).contains(handoff_id)
    }

    /// Whether the entry records a delivery of the source event to the actor.
    pub open spec fn delivers(self, actor_id: Text, source: Text) -> bool {
        &&& self.kind == "runtime.delivery"@
        &&& text_field(self.data, "actor_id"@) == Some(actor_id)
        &&& text_field(self.data, "source_event_id"@) == Some(source)
    }

    /// Whether the recorded delivery reached the actor, as far as can be known.
    pub open spec fn reached(self) -> bool {
        let state = text_field(self.data, "state"@);
        state == Some("accepted"@) || state == Some("ambiguous"@)
    }
}

/// The strings in a list of an entry's data; other elements are left out.
pub fn event_string_list(event: &Event, field: &str) -> (r: Vec<String>)
    ensures
        texts(r@) == event@.strings(field@),
{
    event.data.strings(field)
}

/// Whether an entry of the ledger decides the handoff.
pub open spec fn handoff_decided(events: Seq<EventV>, handoff_id: Text) -> bool {
    exists|i: int| 0 <= i < events.len() && (#[trigger] events[i]).decides_handoff(handoff_id)
}

/// Whether an entry of the ledger decides the source event.
pub open spec fn source_decided(events: Seq<EventV>, id: Text) -> bool {
    exists|i: int| 0 <= i < events.len() && (#[trigger] events[i]).decides_source(id)
}

/// The source events of a handoff that no decision covers: none once a decision names the
/// handoff, else those that no decision names.
pub open spec fn unresolved(events: Seq<EventV>, handoff: EventV) -> Seq<Text> {
    if handoff_decided(events, handoff.handoff()) {
        Seq::empty()
    } else {
        handoff.strings("source_event_ids"@).filter(|id: Text| !source_decided(events, id))
    }
}

fn decided_handoff(events: &Vec<Event>, handoff_id: &str) -> (r: bool)
    ensures
        r == handoff_decided(ledger(events@), handoff_id@),
{
    let ghost sp = |e: EventV| e.decides_handoff(handoff_id@);
    let r = any_of(
        events,
        |e: &Event| -> (b: bool)
            ensures (b == e@.decides_handoff(handoff_id@))
        {
            e.is_kind(DECISION_KIND) && has_text(&event_string_list(e, "handoff_ids"), handoff_id)
        },
        Ghost(sp),
    );
    proof {
        let s = ledger(events@);
        if some_match(s, sp) {
            let i = choose|i: int| 0 <= i < s.len() && sp(#[trigger] s[i]);
            assert(s[i].decides_handoff(handoff_id@));
        }
        if handoff_decided(s, handoff_id@) {
            let i = choose|i: int|
                0 <= i < s.len() && (#[trigger] s[i]).decides_handoff(handoff_id@);
            assert(sp(s[i]));
        }
    }
    r
}

fn decided_source(events: &Vec<Event>, id: &str) -> (r: bool)
    ensures
        r == source_decided(ledger(events@), id@),
{
    let ghost sp = |e: EventV| e.decides_source(id@);
    let r = any_of(
        events,
        |e: &Event| -> (b: bool)
            ensures (b == e@.decides_source(id@))
        {
            e.is_kind(DECISION_KIND) && has_text(&event_string_list(e, "source_event_ids"), id)
        },
        Ghost(sp),
    );
    proof {
        let s = ledger(events@);
        if some_match(s, sp) {
            let i = choose|i: int| 0 <= i < s.len() && sp(#[trigger] s[i]);
            assert(s[i].decides_source(id@));
        }
        if source_decided(s, id@) {
            let i = choose|i: int| 0 <= i < s.len() && (#[trigger] s[i]).decides_source(id@);
            assert(sp(s[i]));
        }
    }
    r
}

/// The source events of a handoff that no decision covers.
pub fn unresolved_source_ids(events: &Vec<Event>, handoff: &Event) -> (r: Vec<String>)
    ensures
        texts(r@) == unresolved(ledger(events@), handoff@),
{
    let handoff_id = handoff.data.text_or_empty("handoff_id");
    if decided_handoff(events, handoff_id.as_str()) {
        let r: Vec<String> = Vec::new();
        assert(texts(r@) =~= Seq::empty());
        return r;
    }
    let sources = event_string_list(handoff, "source_event_ids");
    let ghost sp = |id: Text| !source_decided(ledger(events@), id);
    select(
        &sources,
        |id: &String| -> (b: bool)
            ensures (b == !source_decided(ledger(events@), id@))
        {
            !decided_source(events, id.as_str())
        },
        |id: &String| -> (c: String)
            ensures (c@ == id@)
        {
            id.clone()
        },
        Ghost(sp),
    )
}

/// Whether the entry is a handoff with a source event that no decision covers.
pub open spec fn pending(events: Seq<EventV>, e: EventV) -> bool {
    e.is_handoff() && unresolved(events, e).len() > 0
}

/// Whether the entry is a handoff for the actor with a source event that no decision covers.
pub open spec fn pending_for(events: Seq<EventV>, e: EventV, actor_id: Text) -> bool {
    pending(events, e) && text_field(e.data, "target_actor_id"@) == Some(actor_id)
}

fn is_pending(events: &Vec<Event>, e: &Event) -> (r: bool)
    ensures
        r == pending(ledger(events@), e@),
{
    e.is_kind(HANDOFF_KIND) && unresolved_source_ids(events, e).len() > 0
}

/// The handoffs of the group with a source event that no decision covers.
pub fn unresolved_handoffs_for_group(events: &Vec<Event>) -> (r: Vec<Event>)
    ensures
        ledger(r@) == ledger(events@).filter(|e: EventV| pending(ledger(events@), e)),
{
    let ghost sp = |e: EventV| pending(ledger(events@), e);
    select(
        events,
        |e: &Event| -> (b: bool)
            ensures (b == pending(ledger(events@), e@))
        {
            is_pending(events, e)
        },
        |e: &Event| -> (c: Event)
            ensures (c@ == e@)
        {
            e.copy()
        },
        Ghost(sp),
    )
}

/// The handoffs for an actor with a source event that no decision covers.
pub fn unresolved_handoffs(events: &Vec<Event>, target_actor_id: &str) -> (r: Vec<Event>)
    ensures
        ledger(r@) == ledger(events@).filter(
            |e: EventV| pending_for(ledger(events@), e, target_actor_id@),
        ),
{
    let ghost sp = |e: EventV| pending_for(ledger(events@), e, target_actor_id@);
    select(
        events,
        |e: &Event| -> (b: bool)
            ensures (b == pending_for(ledger(events@), e@, target_actor_id@))
        {
            is_pending(events, e) && e.data.is("target_actor_id", target_actor_id)
        },
        |e: &Event| -> (c: Event)
            ensures (c@ == e@)
        {
            e.copy()
        },
        Ghost(sp),
    )
}

/// Whether two lists of strings have a string in common.
pub fn share_text(a: &Vec<String>, b: &Vec<String>) -> (r: bool)
    ensures
        r == overlaps(texts(a@), texts(b@)),
{
    let mut i: usize = 0;
    while i < a.len()
        invariant
            i <= a@.len(),
            forall|j: int| 0 <= j < i ==> !texts(b@).contains(#[trigger] texts(a@)[j]),
        decreases a@.len() - i,
    {
        if has_text(b, a[i].as_str()) {
            assert(texts(b@).contains(texts(a@)[i as int]));
            return true;
        }
        i += 1;
    }
    false
}

/// Whether the entry is a handoff for the actor that covers one of the source events.
pub open spec fn covers_some(e: EventV, actor_id: Text, ids: Seq<Text>) -> bool {
    &&& e.is_handoff()
    &&& text_field(e.data, "target_actor_id"@) == Some(actor_id)
    &&& overlaps(e.strings("source_event_ids"@), ids)
}

/// The handoffs for an actor that cover one of the source events.
pub fn handoffs_for_sources(
    events: &Vec<Event>,
    target_actor_id: &str,
    source_ids: &Vec<String>,
) -> (r: Vec<Event>)
    ensures
        ledger(r@) == ledger(events@).filter(
            |e: EventV| covers_some(e, target_actor_id@, texts(source_ids@)),
        ),
{
    let ghost sp = |e: EventV| covers_some(e, target_actor_id@, texts(source_ids@));
    select(
        events,
        |e: &Event| -> (b: bool)
            ensures (b == covers_some(e@, target_actor_id@, texts(source_ids@)))
        {
            e.is_kind(HANDOFF_KIND) && e.data.is("target_actor_id", target_actor_id)
                && share_text(&event_string_list(e, "source_event_ids"), source_ids)
        },
        |e: &Event| -> (c: Event)
            ensures (c@ == e@)
        {
            e.copy()
        },
        Ghost(sp),
    )
}

/// Whether the entry is a decision on one of the source events.
pub open spec fn decides_some(e: EventV, ids: Seq<Text>) -> bool {
    e.is_decision() && overlaps(e.strings("source_event_ids"@), ids)
}

/// The first decision on one of the source events.
pub fn overlapping_decision<'a>(events: &'a Vec<Event>, source_ids: &Vec<String>) -> (r: Option<
    &'a Event,
>)
    ensures
        opt_event(r) == first_match(
            ledger(events@),
            |e: EventV| decides_some(e, texts(source_ids@)),
        ),
{
    let ghost sp = |e: EventV| decides_some(e, texts(source_ids@));
    find_first(
        events,
        |e: &Event| -> (b: bool)
            ensures (b == decides_some(e@, texts(source_ids@)))
        {
            e.is_kind(DECISION_KIND) && share_text(
                &event_string_list(e, "source_event_ids"),
                source_ids,
            )
        },
        Ghost(sp),
    )
}

/// The identifier of the decision that settled a handoff: the latest that names it; where none
/// does and no source is open, the latest on one of its sources.
pub open spec fn settled_by(events: Seq<EventV>, handoff: EventV) -> Option<Text> {
    match last_match(events, |e: EventV| e.decides_handoff(handoff.handoff())) {
        Some(d) => text_field(d.data, "decision_id"@),
        None => if unresolved(events, handoff).len() > 0 {
            None
        } else {
            match last_match(
                events,
                |e: EventV| decides_some(e, handoff.strings("source_event_ids"@)),
            ) {
                Some(d) => Some(text_or_empty(d.data, "decision_id"@)),
                None => None,
            }
        },
    }
}

/// The identifier of the decision that settled a handoff.
pub fn decision_for_handoff(events: &Vec<Event>, handoff: &Event) -> (r: Option<String>)
    ensures
        crate::text::opt_text(r) == settled_by(ledger(events@), handoff@),
{
    let handoff_id = handoff.data.text_or_empty("handoff_id");
    let ghost named = |e: EventV| e.decides_handoff(handoff@.handoff());
    let found = find_last(
        events,
        |e: &Event| -> (b: bool)
            ensures (b == e@.decides_handoff(handoff@.handoff()))
        {
            e.is_kind(DECISION_KIND) && has_text(
                &event_string_list(e, "handoff_ids"),
                handoff_id.as_str(),
            )
        },
        Ghost(named),
    );
    if let Some(d) = found {
        return match d.data.text("decision_id") {
            Some(t) => Some(t.to_owned()),
            None => None,
        };
    }
    if unresolved_source_ids(events, handoff).len() > 0 {
        return None;
    }
    let sources = event_string_list(handoff, "source_event_ids");
    let ghost on_source = |e: EventV| decides_some(e, handoff@.strings("source_event_ids"@));
    let found = find_last(
        events,
        |e: &Event| -> (b: bool)
            ensures (b == decides_some(e@, handoff@.strings("source_event_ids"@)))
        {
            e.is_kind(DECISION_KIND) && share_text(
                &event_string_list(e, "source_event_ids"),
                &sources,
            )
        },
        Ghost(on_source),
    );
    match found {
        Some(d) => Some(d.data.text_or_empty("decision_id")),
        None => None,
    }
}

/// The state of the latest delivery of a source event to an actor; empty where there is none.
pub open spec fn delivery_state(events: Seq<EventV>, actor_id: Text, source: Text) -> Text {
    match last_match(events, |e: EventV| e.delivers(actor_id, source)) {
        Some(e) => text_or_empty(e.data, "state"@),
        None => Seq::empty(),
    }
}

fn is_delivery(e: &Event, actor_id: &str, source: &str) -> (r: bool)
    ensures
        r == e@.delivers(actor_id@, source@),
{
    e.is_kind("runtime.delivery") && e.data.is("actor_id", actor_id) && e.data.is(
        "source_event_id",
        source,
    )
}

/// The state of the latest delivery of a source event to an actor; empty where there is none.
pub fn latest_delivery_state(events: &Vec<Event>, actor_id: &str, source_event_id: &str) -> (r:
    String)
    ensures
        r@ == delivery_state(ledger(events@), actor_id@, source_event_id@),
{
    let ghost sp = |e: EventV| e.delivers(actor_id@, source_event_id@);
    let found = find_last(
        events,
        |e: &Event| -> (b: bool)
            ensures (b == e@.delivers(actor_id@, source_event_id@))
        {
            is_delivery(e, actor_id, source_event_id)
        },
        Ghost(sp),
    );
    match found {
        Some(e) => e.data.text_or_empty("state"),
        None => String::new(),
    }
}

/// The latest delivery of a source event to an actor that reached it.
pub open spec fn reached_delivery(
    events: Seq<EventV>,
    actor_id: Text,
    source: Text,
) -> Option<EventV> {
    last_match(events, |e: EventV| e.delivers(actor_id, source) && e.reached())
}

/// The latest delivery of a source event to an actor that reached it.
pub fn latest_reached_delivery<'a>(
    events: &'a Vec<Event>,
    actor_id: &str,
    source_event_id: &str,
) -> (r: Option<&'a Event>)
    ensures
        opt_event(r) == reached_delivery(ledger(events@), actor_id@, source_event_id@),
{
    let ghost sp = |e: EventV| e.delivers(actor_id@, source_event_id@) && e.reached();
    find_last(
        events,
        |e: &Event| -> (b: bool)
            ensures (b == (e@.delivers(actor_id@, source_event_id@) && e@.reached()))
        {
            is_delivery(e, actor_id, source_event_id) && (e.data.is("state", "accepted")
                || e.data.is("state", "ambiguous"))
        },
        Ghost(sp),
    )
}

/// The latest relay message of a kind about a handoff.
pub open spec fn latest_notice(events: Seq<EventV>, kind: Text, handoff_id: Text) -> Option<
    EventV,
> {
    last_match(events, |e: EventV| e.notice(kind, handoff_id))
}

fn is_notice(e: &Event, kind: &str, handoff_id: &str) -> (r: bool)
    ensures
        r == e@.notice(kind@, handoff_id@),
{
    e.is_kind("chat.message") && e.data.is("relay_kind", kind) && has_text(
        &event_string_list(e, "relay_handoff_ids"),
        handoff_id,
    )
}

fn find_notice<'a>(events: &'a Vec<Event>, kind: &str, handoff_id: &str) -> (r: Option<&'a Event>)
    ensures
        opt_event(r) == latest_notice(ledger(events@), kind@, handoff_id@),
{
    let ghost sp = |e: EventV| e.notice(kind@, handoff_id@);
    find_last(
        events,
        |e: &Event| -> (b: bool)
            ensures (b == e@.notice(kind@, handoff_id@))
        {
            is_notice(e, kind, handoff_id)
        },
        Ghost(sp),
    )
}

/// The latest reminder about a handoff.
pub fn reminder_event_for_handoff<'a>(events: &'a Vec<Event>, handoff_id: &str) -> (r: Option<
    &'a Event,
>)
    ensures
        opt_event(r) == latest_notice(ledger(events@), "decision_reminder"@, handoff_id@),
{
    find_notice(events, "decision_reminder", handoff_id)
}

/// The latest escalation of a handoff to the user.
pub fn escalation_event_for_handoff<'a>(events: &'a Vec<Event>, handoff_id: &str) -> (r: Option<
    &'a Event,
>)
    ensures
        opt_event(r) == latest_notice(ledger(events@), "decision_escalation"@, handoff_id@),
{
    find_notice(events, "decision_escalation", handoff_id)
}

/// Whether a handoff was escalated to the user.
pub open spec fn escalated(events: Seq<EventV>, handoff_id: Text) -> bool {
    latest_notice(events, "decision_escalation"@, handoff_id) is Some
}

/// Whether a handoff was escalated to the user.
pub fn escalation_for_handoff(events: &Vec<Event>, handoff_id: &str) -> (r: bool)
    ensures
        r == escalated(ledger(events@), handoff_id@),
{
    escalation_event_for_handoff(events, handoff_id).is_some()
}

/// Whether the entry is a reminder about one of the handoffs.
pub open spec fn reminds_of(e: EventV, handoff_ids: Seq<Text>) -> bool {
    &&& e.kind == "chat.message"@
    &&& text_field(e.data, "relay_kind"@) == Some("decision_reminder"@)
    &&& overlaps(e.strings("relay_handoff_ids"@), handoff_ids)
}

/// The identifiers of the reminders about the handoffs.
pub open spec fn reminder_ids(events: Seq<EventV>, handoff_ids: Seq<Text>) -> Seq<Text> {
    events.filter_map(
        |e: EventV| if reminds_of(e, handoff_ids) {
            Some(e.id)
        } else {
            None
        },
    )
}

/// The events that a decision handles: its sources and the reminders about its handoffs, each
/// once and in order.
pub open spec fn handled(
    events: Seq<EventV>,
    source_ids: Seq<Text>,
    handoff_ids: Seq<Text>,
) -> Seq<Text> {
    crate::order::with_all_sorted(sorted_set(source_ids), reminder_ids(events, handoff_ids))
}

/// The events that a decision handles.
pub fn handled_source_ids(
    events: &Vec<Event>,
    source_event_ids: &Vec<String>,
    handoff_ids: &Vec<String>,
) -> (r: Vec<String>)
    ensures
        texts(r@) == handled(ledger(events@), texts(source_event_ids@), texts(handoff_ids@)),
{
    let ghost s = ledger(events@);
    let ghost hs = texts(handoff_ids@);
    let ghost f = |e: EventV|
        if reminds_of(e, hs) {
            Some(e.id)
        } else {
            None
        };
    let mut reminders: Vec<String> = Vec::new();
    let mut i: usize = 0;
    proof {
        assert(texts(reminders@) =~= s.take(0).filter_map(f));
    }
    while i < events.len()
        invariant
            i <= events@.len(),
            s == ledger(events@),
            hs == texts(handoff_ids@),
            f == (|e: EventV|
                if reminds_of(e, hs) {
                    Some(e.id)
                } else {
                    None
                }),
            texts(reminders@) == s.take(i as int).filter_map(f),
        decreases events@.len() - i,
    {
        proof {
            s.lemma_filter_map_take_succ(f, i as int);
        }
        let e = &events[i];
        if e.is_kind("chat.message") && e.data.is("relay_kind", "decision_reminder")
            && share_text(&event_string_list(e, "relay_handoff_ids"), handoff_ids) {
            reminders.push(e.id.clone());
        }
        proof {
            assert(texts(reminders@) =~= s.take(i + 1).filter_map(f));
        }
        i += 1;
    }
    assert(s.take(i as int) =~= s);
    let mut ids = sort_unique(source_event_ids);
    crate::order::insert_all(&mut ids, &reminders);
    ids
}

} // verus!
