//! Reminding a foreman of an undecided handoff once, and handing it to the user after that.

use crate::json::{text_array, text_field, text_or_empty, Json, JsonMap, JsonV, ObjV};
use crate::json_access::json_texts;
use crate::lists::{lemma_selection, lemma_views, lemma_views_push, select};
use crate::model::{
    ledger, outcome, refusal, ActorRuntime, ActorV, DaemonRequest, ErrV, Event, EventV, GroupDoc,
    GroupV, OpError, RequestV,
};
use crate::order::{insert_all, with_all_sorted};
use crate::relay::decide::one_text;
use crate::relay::facts::{
    escalated, escalation_for_handoff, latest_notice, latest_reached_delivery, pending_for,
    reached_delivery, reminder_event_for_handoff, unresolved, unresolved_handoffs,
    unresolved_source_ids,
};
use crate::relay::ids::{stable_id, stable_id_text};
use crate::relay::laws::lemma_strings_of_text_array;
use crate::relay::state::{ids_of, texts_under};
use crate::relay::words::lemma_notice_keys;
use crate::text::{decimal, decimal_text, texts, Text};
use crate::time::{read_instant, rfc3339, time_passes_by_the_nanosecond, Instant};
use vstd::prelude::*;
use vstd::string::*;

verus! {

broadcast use {lemma_views, lemma_views_push};

/// How long a delivered report may stay undecided before the foreman is reminded.
pub const REMINDER_AFTER_SECONDS: i64 = 20;

/// How long a delivered reminder may stay unanswered before the user is told.
pub const ESCALATION_AFTER_SECONDS: i64 = 30;

/// The most handoffs that one reminder or escalation names.
pub const BATCH: usize = 10;

/// The instant at which a source event reached the actor.
pub open spec fn arrival(events: Seq<EventV>, actor_id: Text, id: Text) -> Option<Instant> {
    match reached_delivery(events, actor_id, id) {
        None => None,
        Some(e) => match rfc3339(e.ts) {
            None => None,
            Some((s, n)) => Some(Instant { secs: s as i64, nanos: n as u32 }),
        },
    }
}

/// The instant at which the last of the source events reached the actor; none while one of them
/// has not, and none for no events at all.
pub open spec fn ready_at(events: Seq<EventV>, actor_id: Text, ids: Seq<Text>) -> Option<Instant>
    decreases ids.len(),
{
    if ids.len() == 0 {
        None
    } else {
        match arrival(events, actor_id, ids.last()) {
            None => None,
            Some(t) => if ids.len() == 1 {
                Some(t)
            } else {
                match ready_at(events, actor_id, ids.drop_last()) {
                    None => None,
                    Some(u) => Some(u.later(t)),
                }
            },
        }
    }
}

proof fn lemma_not_ready(events: Seq<EventV>, actor_id: Text, ids: Seq<Text>, i: int)
    requires
        0 <= i < ids.len(),
        arrival(events, actor_id, ids[i]) is None,
    ensures
        ready_at(events, actor_id, ids) is None,
    decreases ids.len(),
{
    if i < ids.len() - 1 {
        lemma_not_ready(events, actor_id, ids.drop_last(), i);
    }
}

/// The instant at which the last of the source events reached the actor.
pub fn delivered_at(events: &Vec<Event>, actor_id: &str, source_event_ids: &Vec<String>) -> (r:
    Option<Instant>)
    ensures
        r == ready_at(ledger(events@), actor_id@, texts(source_event_ids@)),
{
    let ghost es = ledger(events@);
    let ghost ids = texts(source_event_ids@);
    let mut latest: Option<Instant> = None;
    let mut i: usize = 0;
    while i < source_event_ids.len()
        invariant
            i <= source_event_ids@.len(),
            es == ledger(events@),
            ids == texts(source_event_ids@),
            latest == ready_at(es, actor_id@, ids.take(i as int)),
            i > 0 ==> latest is Some,
        decreases source_event_ids@.len() - i,
    {
        proof {
            assert(ids.take(i + 1).drop_last() =~= ids.take(i as int));
            assert(ids.take(i + 1).last() == ids[i as int]);
            if arrival(es, actor_id@, ids[i as int]) is None {
                lemma_not_ready(es, actor_id@, ids, i as int);
            }
        }
        let at = match latest_reached_delivery(events, actor_id, source_event_ids[i].as_str()) {
            Some(e) => match read_instant(e.ts.as_str()) {
                Some(t) => t,
                None => {
                    return None;
                },
            },
            None => {
                return None;
            },
        };
        latest = match latest {
            Some(u) => Some(u.max(at)),
            None => Some(at),
        };
        i += 1;
    }
    proof {
        assert(ids.take(i as int) =~= ids);
    }
    latest
}

/// Whether the foreman is due a reminder of an open handoff: none was sent, it was not escalated,
/// and its open sources reached the foreman long enough ago.
pub open spec fn reminder_due(events: Seq<EventV>, actor_id: Text, h: EventV, now: Instant) -> bool {
    &&& !escalated(events, h.handoff())
    &&& latest_notice(events, "decision_reminder"@, h.handoff()) is None
    &&& match ready_at(events, actor_id, unresolved(events, h)) {
        Some(t) => t.is_past(REMINDER_AFTER_SECONDS as int, now),
        None => false,
    }
}

/// Whether the user is due to be told of an open handoff: the foreman was reminded, its page is
/// idle, the handoff was not escalated, and the reminder reached the foreman long enough ago.
pub open spec fn escalation_due(
    events: Seq<EventV>,
    actor_id: Text,
    h: EventV,
    browser_idle: bool,
    now: Instant,
) -> bool {
    &&& !escalated(events, h.handoff())
    &&& browser_idle
    &&& match latest_notice(events, "decision_reminder"@, h.handoff()) {
        None => false,
        Some(reminder) => match ready_at(events, actor_id, seq![reminder.id]) {
            Some(t) => t.is_past(ESCALATION_AFTER_SECONDS as int, now),
            None => false,
        },
    }
}

fn is_reminder_due(events: &Vec<Event>, actor_id: &str, h: &Event, now: Instant) -> (r: bool)
    ensures
        r == reminder_due(ledger(events@), actor_id@, h@, now),
{
    let id = h.data.text_or_empty("handoff_id");
    if escalation_for_handoff(events, id.as_str()) {
        return false;
    }
    if reminder_event_for_handoff(events, id.as_str()).is_some() {
        return false;
    }
    let open = unresolved_source_ids(events, h);
    match delivered_at(events, actor_id, &open) {
        Some(t) => t.past(REMINDER_AFTER_SECONDS, now),
        None => false,
    }
}

fn is_escalation_due(
    events: &Vec<Event>,
    actor_id: &str,
    h: &Event,
    browser_idle: bool,
    now: Instant,
) -> (r: bool)
    ensures
        r == escalation_due(ledger(events@), actor_id@, h@, browser_idle, now),
{
    let id = h.data.text_or_empty("handoff_id");
    if escalation_for_handoff(events, id.as_str()) || !browser_idle {
        return false;
    }
    match reminder_event_for_handoff(events, id.as_str()) {
        None => false,
        Some(reminder) => {
            let mut one: Vec<String> = Vec::new();
            one.push(reminder.id.clone());
            proof {
                assert(texts(one@) =~= seq![reminder@.id]);
            }
            match delivered_at(events, actor_id, &one) {
                Some(t) => t.past(ESCALATION_AFTER_SECONDS, now),
                None => false,
            }
        },
    }
}

/// The first elements of a list, at most `n` of them.
pub open spec fn first_of<A>(s: Seq<A>, n: nat) -> Seq<A> {
    if s.len() <= n {
        s
    } else {
        s.take(n as int)
    }
}

/// The handoffs to remind of, and those to hand to the user.
pub struct Due {
    pub reminders: Vec<Event>,
    pub escalations: Vec<Event>,
}

/// The open handoffs of the actor to remind of, the first ones of them.
pub open spec fn reminders_due(events: Seq<EventV>, actor_id: Text, now: Instant) -> Seq<EventV> {
    first_of(
        events.filter(|e: EventV| pending_for(events, e, actor_id)).filter(
            |h: EventV| reminder_due(events, actor_id, h, now),
        ),
        BATCH as nat,
    )
}

/// The open handoffs of the actor to hand to the user, the first ones of them.
pub open spec fn escalations_due(
    events: Seq<EventV>,
    actor_id: Text,
    browser_idle: bool,
    now: Instant,
) -> Seq<EventV> {
    first_of(
        events.filter(|e: EventV| pending_for(events, e, actor_id)).filter(
            |h: EventV| escalation_due(events, actor_id, h, browser_idle, now),
        ),
        BATCH as nat,
    )
}

fn keep_first(v: &mut Vec<Event>, n: usize)
    ensures
        ledger(final(v)@) == first_of(ledger(old(v)@), n as nat),
{
    let ghost start = ledger(v@);
    if v.len() > n {
        v.truncate(n);
        proof {
            assert(ledger(v@) =~= start.take(n as int));
        }
    }
}

/// The handoffs to remind of, and those to hand to the user.
pub fn due_notices(events: &Vec<Event>, actor_id: &str, browser_idle: bool, now: Instant) -> (r: Due)
    ensures
        ledger(r.reminders@) == reminders_due(ledger(events@), actor_id@, now),
        ledger(r.escalations@) == escalations_due(ledger(events@), actor_id@, browser_idle, now),
{
    let open = unresolved_handoffs(events, actor_id);
    let ghost remind = |h: EventV| reminder_due(ledger(events@), actor_id@, h, now);
    let ghost escalate = |h: EventV|
        escalation_due(ledger(events@), actor_id@, h, browser_idle, now);
    let mut reminders = select(
        &open,
        |h: &Event| -> (b: bool)
            ensures (b == reminder_due(ledger(events@), actor_id@, h@, now))
        {
            is_reminder_due(events, actor_id, h, now)
        },
        |h: &Event| -> (c: Event)
            ensures (c@ == h@)
        {
            h.copy()
        },
        Ghost(remind),
    );
    let mut escalations = select(
        &open,
        |h: &Event| -> (b: bool)
            ensures (b == escalation_due(ledger(events@), actor_id@, h@, browser_idle, now))
        {
            is_escalation_due(events, actor_id, h, browser_idle, now)
        },
        |h: &Event| -> (c: Event)
            ensures (c@ == h@)
        {
            h.copy()
        },
        Ghost(escalate),
    );
    keep_first(&mut reminders, BATCH);
    keep_first(&mut escalations, BATCH);
    Due { reminders, escalations }
}

/// Whether an actor takes part in reminders: it is an enabled web model in a group that is not
/// halted.
pub open spec fn is_attended(g: GroupV, a: ActorV) -> bool {
    a.runtime == ActorRuntime::WebModel && a.enabled && !g.halted()
}

/// Whether reminders are due to an actor at all; one that is not in the group is refused.
pub open spec fn attended(g: GroupV, actor_id: Text) -> Result<bool, ErrV> {
    match g.find(actor_id) {
        None => Err(refusal("relay_actor_not_found"@, "actor not found: "@ + actor_id)),
        Some(a) => Ok(is_attended(g, a)),
    }
}

/// Whether reminders are due to an actor at all; one that is not in the group is refused.
pub fn attends(group: &GroupDoc, actor_id: &str) -> (r: Result<bool, OpError>)
    ensures
        match r {
            Ok(b) => attended(group@, actor_id@) == Ok::<bool, ErrV>(b),
            Err(e) => attended(group@, actor_id@) == Err::<bool, ErrV>(e@),
        },
{
    match group.find(actor_id) {
        None => Err(OpError::about("relay_actor_not_found", "actor not found: ", actor_id)),
        Some(a) => Ok(a.runtime == ActorRuntime::WebModel && a.enabled && !group.halted()),
    }
}

/// The open source events of the handoffs, each once and in order.
pub open spec fn batch_sources(events: Seq<EventV>, handoffs: Seq<EventV>) -> Seq<Text>
    decreases handoffs.len(),
{
    if handoffs.len() == 0 {
        Seq::empty()
    } else {
        with_all_sorted(
            batch_sources(events, handoffs.drop_last()),
            unresolved(events, handoffs.last()),
        )
    }
}

/// The identifiers of the handoffs.
pub fn relay_batch_handoff_ids(handoffs: &Vec<Event>) -> (r: Vec<String>)
    ensures
        texts(r@) == ids_of(ledger(handoffs@)),
{
    texts_under(handoffs, "handoff_id")
}

/// The open source events of the handoffs, each once and in order.
pub fn relay_batch_source_ids(events: &Vec<Event>, handoffs: &Vec<Event>) -> (r: Vec<String>)
    ensures
        texts(r@) == batch_sources(ledger(events@), ledger(handoffs@)),
{
    let ghost hs = ledger(handoffs@);
    let mut r: Vec<String> = Vec::new();
    let mut i: usize = 0;
    proof {
        assert(texts(r@) =~= Seq::empty());
    }
    while i < handoffs.len()
        invariant
            i <= handoffs@.len(),
            hs == ledger(handoffs@),
            texts(r@) == batch_sources(ledger(events@), hs.take(i as int)),
        decreases handoffs@.len() - i,
    {
        let more = unresolved_source_ids(events, &handoffs[i]);
        insert_all(&mut r, &more);
        proof {
            assert(hs.take(i + 1).drop_last() =~= hs.take(i as int));
        }
        i += 1;
    }
    proof {
        assert(hs.take(i as int) =~= hs);
    }
    r
}

/// A list of strings in the form that `{:?}` writes.
pub uninterp spec fn debug_list(v: Seq<Text>) -> Text;

/// Calls `<Vec<String> as std::fmt::Debug>::fmt`. Claims that the text depends on the strings
/// alone.
#[verifier::external_body]
fn debug_of(v: &Vec<String>) -> (r: String)
    ensures
        r@ == debug_list(texts(v@)),
{
    format!("{:?}", v)
}

/// The text of a reminder.
pub open spec fn reminder_text(sources: Seq<Text>) -> Text {
    "[CCCC] A completed member handoff is still waiting for a recorded decision. Review the original report(s) already in this conversation, then call cccc_coordination(action=\"decide\", event_ids="@
        + debug_list(sources)
        + ", decision=\"continue\"|\"wait_user\"|\"complete\"|\"blocked\"). Your normal reply remains the human-facing output; do not repeat the report in the tool call. Reading or replying alone does not resolve this handoff. continue must include next_actor_id, next_title, and next_text."@
}

/// The text of an escalation.
pub open spec fn escalation_text(count: nat, sources: Seq<Text>) -> Text {
    "[CCCC] Collaboration is waiting for your decision. The web Foreman received "@ + decimal_text(
        count,
    )
        + " completed member handoff(s) and one reminder, but did not record whether to continue, wait for you, complete, or mark the work blocked. The original reports are preserved under event IDs "@
        + debug_list(sources)
        + ". Ask the Foreman to resume with an explicit relay decision. No model will be woken repeatedly while responsibility is with you."@
}

/// The request that sends a reminder. The same handoffs give the same client id, so that it is
/// sent once.
pub open spec fn reminder_request(
    group_id: Text,
    actor_id: Text,
    events: Seq<EventV>,
    handoffs: Seq<EventV>,
) -> RequestV {
    RequestV {
        v: 1,
        op: "send"@,
        args: map![
            "group_id"@ => JsonV::Str(group_id),
            "by"@ => JsonV::Str("system"@),
            "to"@ => JsonV::Arr(seq![JsonV::Str(actor_id)]),
            "message_mode"@ => JsonV::Str("send"@),
            "text"@ => JsonV::Str(reminder_text(batch_sources(events, handoffs))),
            "client_id"@ => JsonV::Str(stable_id_text("relay-reminder"@, ids_of(handoffs))),
            "relay_kind"@ => JsonV::Str("decision_reminder"@),
            "relay_handoff_ids"@ => text_array(ids_of(handoffs)),
            "relay_source_event_ids"@ => text_array(batch_sources(events, handoffs)),
        ],
    }
}

/// The request that hands handoffs to the user.
pub open spec fn escalation_request(
    group_id: Text,
    actor_id: Text,
    events: Seq<EventV>,
    handoffs: Seq<EventV>,
) -> RequestV {
    RequestV {
        v: 1,
        op: "send"@,
        args: map![
            "group_id"@ => JsonV::Str(group_id),
            "by"@ => JsonV::Str("system"@),
            "to"@ => JsonV::Arr(seq![JsonV::Str("user"@)]),
            "message_mode"@ => JsonV::Str("send"@),
            "text"@ => JsonV::Str(
                escalation_text(handoffs.len(), batch_sources(events, handoffs)),
            ),
            "client_id"@ => JsonV::Str(stable_id_text("relay-escalation"@, ids_of(handoffs))),
            "relay_kind"@ => JsonV::Str("decision_escalation"@),
            "relay_actor_id"@ => JsonV::Str(actor_id),
            "relay_handoff_ids"@ => text_array(ids_of(handoffs)),
            "relay_source_event_ids"@ => text_array(batch_sources(events, handoffs)),
        ],
    }
}

/// The request that sends a reminder of the handoffs to the foreman.
pub fn send_decision_reminder(
    group_id: &str,
    actor_id: &str,
    events: &Vec<Event>,
    handoffs: &Vec<Event>,
) -> (r: DaemonRequest)
    ensures
        r@ == reminder_request(group_id@, actor_id@, ledger(events@), ledger(handoffs@)),
{
    let ids = relay_batch_handoff_ids(handoffs);
    let sources = relay_batch_source_ids(events, handoffs);
    let listed = debug_of(&sources);
    let mut text =
        "[CCCC] A completed member handoff is still waiting for a recorded decision. Review the original report(s) already in this conversation, then call cccc_coordination(action=\"decide\", event_ids=".to_owned();
    text.append(listed.as_str());
    text.append(
        ", decision=\"continue\"|\"wait_user\"|\"complete\"|\"blocked\"). Your normal reply remains the human-facing output; do not repeat the report in the tool call. Reading or replying alone does not resolve this handoff. continue must include next_actor_id, next_title, and next_text.",
    );
    let client_id = stable_id("relay-reminder", &ids);
    let mut m = JsonMap::new();
    m.put("group_id", Json::str(group_id));
    m.put("by", Json::str("system"));
    m.put("to", one_text(actor_id));
    m.put("message_mode", Json::str("send"));
    m.put("text", Json::Str(text));
    m.put("client_id", Json::Str(client_id));
    m.put("relay_kind", Json::str("decision_reminder"));
    m.put("relay_handoff_ids", json_texts(&ids));
    m.put("relay_source_event_ids", json_texts(&sources));
    DaemonRequest { v: 1, op: "send".to_owned(), args: m }
}

/// The request that hands the handoffs to the user.
pub fn send_user_escalation(
    group_id: &str,
    actor_id: &str,
    events: &Vec<Event>,
    handoffs: &Vec<Event>,
) -> (r: DaemonRequest)
    ensures
        r@ == escalation_request(group_id@, actor_id@, ledger(events@), ledger(handoffs@)),
{
    let ids = relay_batch_handoff_ids(handoffs);
    let sources = relay_batch_source_ids(events, handoffs);
    let listed = debug_of(&sources);
    let count = decimal(handoffs.len() as u128);
    let mut text =
        "[CCCC] Collaboration is waiting for your decision. The web Foreman received ".to_owned();
    text.append(count.as_str());
    text.append(
        " completed member handoff(s) and one reminder, but did not record whether to continue, wait for you, complete, or mark the work blocked. The original reports are preserved under event IDs ",
    );
    text.append(listed.as_str());
    text.append(
        ". Ask the Foreman to resume with an explicit relay decision. No model will be woken repeatedly while responsibility is with you.",
    );
    let client_id = stable_id("relay-escalation", &ids);
    let mut m = JsonMap::new();
    m.put("group_id", Json::str(group_id));
    m.put("by", Json::str("system"));
    m.put("to", one_text("user"));
    m.put("message_mode", Json::str("send"));
    m.put("text", Json::Str(text));
    m.put("client_id", Json::Str(client_id));
    m.put("relay_kind", Json::str("decision_escalation"));
    m.put("relay_actor_id", Json::str(actor_id));
    m.put("relay_handoff_ids", json_texts(&ids));
    m.put("relay_source_event_ids", json_texts(&sources));
    DaemonRequest { v: 1, op: "send".to_owned(), args: m }
}

/// The answer to a reminder check that sent nothing.
pub open spec fn nothing_sent(reason: Text) -> ObjV {
    map![
        "reminded"@ => JsonV::Bool(false),
        "escalated"@ => JsonV::Bool(false),
        "reason"@ => JsonV::Str(reason),
    ]
}

/// The answer to a reminder check of an actor that takes no part.
pub fn inactive_answer() -> (r: JsonMap)
    ensures
        r@ == nothing_sent("actor_inactive"@),
{
    let mut m = JsonMap::new();
    m.put("reminded", Json::Bool(false));
    m.put("escalated", Json::Bool(false));
    m.put("reason", Json::str("actor_inactive"));
    m
}

/// The value of an optional document, or null.
pub open spec fn opt_or_null(o: Option<Json>) -> JsonV {
    match o {
        Some(x) => x@,
        None => JsonV::Null,
    }
}

/// The answer to a reminder check: which of the two messages were sent.
pub open spec fn notice_answer(reminder: Option<Json>, escalation: Option<Json>) -> ObjV {
    if reminder is None && escalation is None {
        nothing_sent("none_due"@)
    } else {
        map![
            "reminded"@ => JsonV::Bool(reminder is Some),
            "escalated"@ => JsonV::Bool(escalation is Some),
            "reminder_event"@ => opt_or_null(reminder),
            "escalation_event"@ => opt_or_null(escalation),
        ]
    }
}

/// The answer to a reminder check. The arguments are the events of the messages that were sent.
pub fn reminder_answer(reminder: Option<Json>, escalation: Option<Json>) -> (r: JsonMap)
    ensures
        r@ == notice_answer(reminder, escalation),
{
    let mut m = JsonMap::new();
    let reminded = reminder.is_some();
    let handed_over = escalation.is_some();
    m.put("reminded", Json::Bool(reminded));
    m.put("escalated", Json::Bool(handed_over));
    if !reminded && !handed_over {
        m.put("reason", Json::str("none_due"));
        return m;
    }
    m.put(
        "reminder_event",
        match reminder {
            Some(x) => x,
            None => Json::Null,
        },
    );
    m.put(
        "escalation_event",
        match escalation {
            Some(x) => x,
            None => Json::Null,
        },
    );
    m
}

/// What a reminder check does.
pub enum RemindStep {
    /// Answer that the actor takes no part.
    Inactive,
    /// Send these messages. The handoffs of an escalation are noted as waiting for the user once
    /// it is sent.
    Send(Option<DaemonRequest>, Option<(DaemonRequest, Vec<Event>)>),
}

/// The mathematical value of what a reminder check does.
pub enum RemindStepV {
    Inactive,
    Send(Option<RequestV>, Option<(RequestV, Seq<EventV>)>),
}

impl View for RemindStep {
    type V = RemindStepV;

    open spec fn view(&self) -> RemindStepV {
        match self {
            RemindStep::Inactive => RemindStepV::Inactive,
            RemindStep::Send(a, b) => RemindStepV::Send(
                match a {
                    Some(q) => Some(q@),
                    None => None,
                },
                match b {
                    Some((q, h)) => Some((q@, ledger(h@))),
                    None => None,
                },
            ),
        }
    }
}

/// What a reminder check does: one reminder of the handoffs that are due one, and one escalation
/// of those that are due that.
pub open spec fn remind_step(
    g: GroupV,
    events: Seq<EventV>,
    actor_id: Text,
    browser_idle: bool,
    now: Instant,
) -> Result<RemindStepV, ErrV> {
    match attended(g, actor_id) {
        Err(e) => Err(e),
        Ok(false) => Ok(RemindStepV::Inactive),
        Ok(true) => {
            let first = reminders_due(events, actor_id, now);
            let last = escalations_due(events, actor_id, browser_idle, now);
            Ok(
                RemindStepV::Send(
                    if first.len() > 0 {
                        Some(reminder_request(g.group_id, actor_id, events, first))
                    } else {
                        None
                    },
                    if last.len() > 0 {
                        Some((escalation_request(g.group_id, actor_id, events, last), last))
                    } else {
                        None
                    },
                ),
            )
        },
    }
}

/// What a reminder check does.
pub fn remind_due(
    group: &GroupDoc,
    events: &Vec<Event>,
    actor_id: &str,
    browser_idle: bool,
    now: Instant,
) -> (r: Result<RemindStep, OpError>)
    ensures
        outcome(r) == remind_step(group@, ledger(events@), actor_id@, browser_idle, now),
{
    if !attends(group, actor_id)? {
        return Ok(RemindStep::Inactive);
    }
    let due = due_notices(events, actor_id, browser_idle, now);
    let group_id = group.group_id.as_str();
    let reminder = if due.reminders.len() > 0 {
        Some(send_decision_reminder(group_id, actor_id, events, &due.reminders))
    } else {
        None
    };
    let escalation = if due.escalations.len() > 0 {
        let q = send_user_escalation(group_id, actor_id, events, &due.escalations);
        Some((q, due.escalations))
    } else {
        None
    };
    Ok(RemindStep::Send(reminder, escalation))
}

/// A halted group is never reminded, and neither is an actor that is stopped or no web model.
pub proof fn a_halted_group_is_not_reminded(
    g: GroupV,
    events: Seq<EventV>,
    actor_id: Text,
    browser_idle: bool,
    now: Instant,
)
    ensures
        g.halted() ==> !(remind_step(g, events, actor_id, browser_idle, now) matches Ok(
            RemindStepV::Send(_, _),
        )),
        g.find(actor_id) matches Some(a) && (!a.enabled || a.runtime != ActorRuntime::WebModel)
            ==> remind_step(g, events, actor_id, browser_idle, now) == Ok::<RemindStepV, ErrV>(
            RemindStepV::Inactive,
        ),
{
}

/// A handoff is reminded of once and escalated once: after a reminder that names it none is due
/// again, and after an escalation that names it nothing is due any more. No handoff is due both
/// at a time.
pub proof fn each_notice_is_sent_once(
    events: Seq<EventV>,
    actor_id: Text,
    h: EventV,
    idle: bool,
    now: Instant,
)
    ensures
        latest_notice(events, "decision_reminder"@, h.handoff()) is Some ==> !reminder_due(
            events,
            actor_id,
            h,
            now,
        ),
        escalated(events, h.handoff()) ==> !reminder_due(events, actor_id, h, now)
            && !escalation_due(events, actor_id, h, idle, now),
        !(reminder_due(events, actor_id, h, now) && escalation_due(
            events,
            actor_id,
            h,
            idle,
            now,
        )),
        !idle ==> !escalation_due(events, actor_id, h, idle, now),
{
}

/// A notice that names a handoff stays the answer to whether it was sent, whatever is appended.
pub proof fn a_notice_is_never_forgotten(
    events: Seq<EventV>,
    more: Seq<EventV>,
    kind: Text,
    handoff_id: Text,
)
    ensures
        latest_notice(events + more, kind, handoff_id) is Some <==> latest_notice(
            events,
            kind,
            handoff_id,
        ) is Some || latest_notice(more, kind, handoff_id) is Some,
    decreases more.len(),
{
    if more.len() == 0 {
        assert(events + more =~= events);
    } else {
        a_notice_is_never_forgotten(events, more.drop_last(), kind, handoff_id);
        assert((events + more).drop_last() =~= events + more.drop_last());
        assert((events + more).last() == more.last());
    }
}

proof fn lemma_ids_of(handoffs: Seq<EventV>, h: EventV)
    requires
        handoffs.contains(h),
        text_field(h.data, "handoff_id"@) is Some,
    ensures
        ids_of(handoffs).contains(h.handoff()),
    decreases handoffs.len(),
{
    let f = |e: EventV| text_field(e.data, "handoff_id"@);
    let d = handoffs.drop_last();
    let i = choose|i: int| 0 <= i < handoffs.len() && handoffs[i] == h;
    assert(ids_of(handoffs) == handoffs.filter_map(f));
    assert(ids_of(d) == d.filter_map(f));
    reveal(Seq::filter_map);
    if i < d.len() {
        assert(d[i] == h);
        lemma_ids_of(d, h);
        let k = choose|k: int| 0 <= k < ids_of(d).len() && ids_of(d)[k] == h.handoff();
        assert(ids_of(handoffs)[k] == h.handoff());
    } else {
        assert(ids_of(handoffs).last() == h.handoff());
    }
}

/// Whether a message is the one that a request asks to send: it holds the request's members.
pub open spec fn is_sent_for(e: EventV, request: RequestV) -> bool {
    &&& e.kind == "chat.message"@
    &&& forall|k: Text|
        #![trigger request.args.contains_key(k)]
        request.args.contains_key(k) ==> e.data.contains_key(k) && e.data[k] == request.args[k]
}

/// The message that a reminder check sends is a notice of each handoff that it was due for.
pub proof fn a_sent_notice_names_its_handoffs(
    group_id: Text,
    actor_id: Text,
    events: Seq<EventV>,
    handoffs: Seq<EventV>,
    h: EventV,
    e: EventV,
)
    requires
        handoffs.contains(h),
        text_field(h.data, "handoff_id"@) is Some,
    ensures
        is_sent_for(e, reminder_request(group_id, actor_id, events, handoffs)) ==> e.notice(
            "decision_reminder"@,
            h.handoff(),
        ),
        is_sent_for(e, escalation_request(group_id, actor_id, events, handoffs)) ==> e.notice(
            "decision_escalation"@,
            h.handoff(),
        ),
{
    lemma_notice_keys();
    lemma_ids_of(handoffs, h);
    lemma_strings_of_text_array(ids_of(handoffs));
    let q = reminder_request(group_id, actor_id, events, handoffs).args;
    assert(q.contains_key("relay_kind"@) && q["relay_kind"@] == JsonV::Str("decision_reminder"@));
    assert(q.contains_key("relay_handoff_ids"@) && q["relay_handoff_ids"@] == text_array(
        ids_of(handoffs),
    ));
    let r = escalation_request(group_id, actor_id, events, handoffs).args;
    assert(r.contains_key("relay_kind"@) && r["relay_kind"@] == JsonV::Str("decision_escalation"@));
    assert(r.contains_key("relay_handoff_ids"@) && r["relay_handoff_ids"@] == text_array(
        ids_of(handoffs),
    ));
}

/// Over all checks a handoff is reminded of at most once and handed to the user at most once: with
/// the message in the ledger, it is not due again, whatever else is appended.
pub proof fn a_handoff_is_noticed_once(
    events: Seq<EventV>,
    more: Seq<EventV>,
    actor_id: Text,
    h: EventV,
    idle: bool,
    now: Instant,
)
    ensures
        latest_notice(events, "decision_reminder"@, h.handoff()) is Some ==> !reminder_due(
            events + more,
            actor_id,
            h,
            now,
        ),
        escalated(events, h.handoff()) ==> !reminder_due(events + more, actor_id, h, now)
            && !escalation_due(events + more, actor_id, h, idle, now),
{
    a_notice_is_never_forgotten(events, more, "decision_reminder"@, h.handoff());
    a_notice_is_never_forgotten(events, more, "decision_escalation"@, h.handoff());
}

/// A check of an active web model reminds of an open handoff just when no notice of it was sent and
/// its open sources all reached the foreman, the last of them twenty seconds ago or more; and hands
/// it to the user just when the page is idle, that was not done yet, and a reminder reached the
/// foreman thirty seconds ago or more. Of more than a message can name, the first ones are taken.
pub proof fn notices_come_by_the_clock(
    g: GroupV,
    events: Seq<EventV>,
    actor_id: Text,
    h: EventV,
    idle: bool,
    now: Instant,
)
    requires
        attended(g, actor_id) == Ok::<bool, ErrV>(true),
        events.contains(h),
        pending_for(events, h, actor_id),
        now.is_usual(),
        events.filter(|e: EventV| pending_for(events, e, actor_id)).filter(
            |e: EventV| reminder_due(events, actor_id, e, now),
        ).len() <= BATCH,
        events.filter(|e: EventV| pending_for(events, e, actor_id)).filter(
            |e: EventV| escalation_due(events, actor_id, e, idle, now),
        ).len() <= BATCH,
    ensures
        remind_step(g, events, actor_id, idle, now) matches Ok(RemindStepV::Send(r, x)) && {
            let first = reminders_due(events, actor_id, now);
            let last = escalations_due(events, actor_id, idle, now);
            &&& r == if first.len() > 0 {
                Some(reminder_request(g.group_id, actor_id, events, first))
            } else {
                None
            }
            &&& x == if last.len() > 0 {
                Some((escalation_request(g.group_id, actor_id, events, last), last))
            } else {
                None
            }
            &&& ready_at(events, actor_id, unresolved(events, h)) matches Some(t) ==> t.is_usual()
                ==> (first.contains(h) <==> !escalated(events, h.handoff()) && latest_notice(
                events,
                "decision_reminder"@,
                h.handoff(),
            ) is None && t.nanos_to(now) >= 20_000_000_000)
            &&& ready_at(events, actor_id, unresolved(events, h)) is None ==> !first.contains(h)
            &&& latest_notice(events, "decision_reminder"@, h.handoff()) is None ==> !last.contains(
                h,
            )
            &&& latest_notice(events, "decision_reminder"@, h.handoff()) matches Some(n) ==> (
            match arrival(events, actor_id, n.id) {
                Some(t) => t.is_usual() ==> (last.contains(h) <==> !escalated(events, h.handoff())
                    && idle && t.nanos_to(now) >= 30_000_000_000),
                None => !last.contains(h),
            })
        },
{
    let open = events.filter(|e: EventV| pending_for(events, e, actor_id));
    let due = |e: EventV| reminder_due(events, actor_id, e, now);
    let late = |e: EventV| escalation_due(events, actor_id, e, idle, now);
    lemma_selection(events, |e: EventV| pending_for(events, e, actor_id));
    lemma_selection(open, due);
    lemma_selection(open, late);
    if let Some(t) = ready_at(events, actor_id, unresolved(events, h)) {
        if t.is_usual() {
            time_passes_by_the_nanosecond(t, REMINDER_AFTER_SECONDS as int, now);
        }
    }
    if let Some(n) = latest_notice(events, "decision_reminder"@, h.handoff()) {
        assert(ready_at(events, actor_id, seq![n.id]) == arrival(events, actor_id, n.id));
        if let Some(t) = arrival(events, actor_id, n.id) {
            if t.is_usual() {
                time_passes_by_the_nanosecond(t, ESCALATION_AFTER_SECONDS as int, now);
            }
        }
    }
}

} // verus!
