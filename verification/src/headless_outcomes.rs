//! What the end of a member's turn comes to, told of the group and of the member's own messages:
//! whether the foreman is told, by what, and what the messages of a provider mean for the turn.

use crate::connectors::outcomes::{is_the_actor, lemma_first_actor};
use crate::headless::{
    asked, ends, is_on_its_way, is_report, notice_for, MessageActionV, NoticeV, TurnV,
};
use crate::json::{list_field, text_field, JsonV};
use crate::lists::{lemma_last_at, lemma_last_where, some_match};
use crate::model::{ActorRuntime, EventV, GroupState, GroupV, RequestV};
use crate::order::before;
use crate::text::{trimmed, Text};
use vstd::prelude::*;

verus! {

/// The words of a turn's end differ.
pub(crate) proof fn lemma_turn_words()
    ensures
        "group_id"@.len() == 8,
        "by"@.len() == 2,
        "to"@.len() == 2,
        "message_mode"@.len() == 12,
        "client_id"@.len() == 9,
        "text"@.len() == 4,
        "source_actor_id"@.len() == 15,
        "source_turn_id"@.len() == 14,
        "source_event_id"@.len() == 15,
        "actor_ids"@.len() == 9,
        "code"@.len() == 4,
        "message"@.len() == 7,
        "turn/started"@.len() == 12,
        "turn/completed"@.len() == 14,
        "thread/status/changed"@.len() == 21,
        "waiting"@.len() == 7,
        "working"@.len() == 7,
        "mail"@.len() == 4,
        "by"@[0] == 'b',
        "to"@[0] == 't',
        "message_mode"@[0] == 'm',
        "turn/started"@[0] == 't',
        "client_id"@[0] == 'c',
        "actor_ids"@[0] == 'a',
        "text"@[0] == 't',
        "code"@[0] == 'c',
        "mail"@[0] == 'm',
        "source_actor_id"@[7] == 'a',
        "source_event_id"@[7] == 'e',
        "source_turn_id"@[0] == 's',
        "turn/completed"@[0] == 't',
        "message"@[0] == 'm',
        "waiting"@[0] == 'w',
        "working"@[0] == 'w',
        "waiting"@[1] == 'a',
        "working"@[1] == 'o',
{
    reveal_strlit("group_id");
    reveal_strlit("by");
    reveal_strlit("to");
    reveal_strlit("message_mode");
    reveal_strlit("client_id");
    reveal_strlit("text");
    reveal_strlit("source_actor_id");
    reveal_strlit("source_turn_id");
    reveal_strlit("source_event_id");
    reveal_strlit("actor_ids");
    reveal_strlit("code");
    reveal_strlit("message");
    reveal_strlit("turn/started");
    reveal_strlit("turn/completed");
    reveal_strlit("thread/status/changed");
    reveal_strlit("waiting");
    reveal_strlit("working");
    reveal_strlit("mail");
}

/// Whether a group works under a web-model foreman that is available and is not the member itself.
pub open spec fn works_under(g: GroupV, lead: Text, actor_id: Text) -> bool {
    &&& g.running
    &&& g.state != GroupState::Paused
    &&& g.state != GroupState::Stopped
    &&& g.available_foreman == Some(lead)
    &&& lead != actor_id
    &&& exists|i: int| #[trigger]
        is_the_actor(g.actors, i, lead) && g.actors[i].runtime == ActorRuntime::WebModel
}

/// Whether a message of a member is addressed to the foreman and was sent once the turn had begun.
pub open spec fn is_own_report(e: EventV, actor_id: Text, lead: Text, since: Text) -> bool {
    &&& e.by == actor_id
    &&& !before(e.ts, since)
    &&& exists|to: Seq<JsonV>, k: int|
        e.data.contains_key("to"@) && e.data["to"@] == JsonV::Arr(to) && 0 <= k < to.len()
            && #[trigger] to[k] == JsonV::Str(lead)
}

proof fn lemma_is_report(e: EventV, actor_id: Text, lead: Text, since: Text)
    ensures
        is_report(e, actor_id, lead, since) <==> is_own_report(e, actor_id, lead, since),
{
    let hit = |id: JsonV| id.text() == Some(lead);
    if let Some(to) = list_field(e.data, "to"@) {
        if some_match(to, hit) {
            let k = choose|k: int| 0 <= k < to.len() && hit(#[trigger] to[k]);
            assert(to[k] == JsonV::Str(lead));
        }
        if exists|t: Seq<JsonV>, k: int|
            e.data["to"@] == JsonV::Arr(t) && 0 <= k < t.len() && #[trigger] t[k] == JsonV::Str(
                lead,
            ) {
            let (t, k) = choose|t: Seq<JsonV>, k: int|
                e.data["to"@] == JsonV::Arr(t) && 0 <= k < t.len() && #[trigger] t[k] == JsonV::Str(
                    lead,
                );
            assert(hit(to[k]));
        }
    }
}

/// Whether a request sends the foreman a notice that a turn of a member ended.
pub open spec fn tells_of_the_end(
    q: RequestV,
    g: GroupV,
    actor_id: Text,
    lead: Text,
    turn: TurnV,
    message: JsonV,
    client_id: Text,
) -> bool {
    let status = match message.at("params"@).at("turn"@).at("status"@) {
        JsonV::Str(t) => t,
        _ => "ended"@,
    };
    &&& q.op == "send"@
    &&& text_field(q.args, "group_id"@) == Some(g.group_id)
    &&& text_field(q.args, "by"@) == Some("system"@)
    &&& q.args["to"@] == JsonV::Arr(seq![JsonV::Str(lead)])
    &&& text_field(q.args, "message_mode"@) == Some("send"@)
    &&& text_field(q.args, "client_id"@) == Some(client_id)
    &&& text_field(q.args, "source_actor_id"@) == Some(actor_id)
    &&& text_field(q.args, "source_turn_id"@) == Some(turn.turn_id)
    &&& text_field(q.args, "text"@) == Some(
        "[CCCC] Member "@ + actor_id + " ended this turn ("@ + status
            + "). Please review its actual result and decide the next step; this notice does not mark the task complete."@,
    )
}

/// Whether a request has the message of a member delivered to the foreman.
pub open spec fn delivers_the_report(
    q: RequestV,
    g: GroupV,
    actor_id: Text,
    lead: Text,
    report: EventV,
) -> bool {
    &&& q.op == "message_deliver"@
    &&& text_field(q.args, "group_id"@) == Some(g.group_id)
    &&& text_field(q.args, "by"@) == Some(actor_id)
    &&& text_field(q.args, "source_event_id"@) == Some(report.id)
    &&& q.args["actor_ids"@] == JsonV::Arr(seq![JsonV::Str(lead)])
}

/// Where a member has sent the foreman nothing since its turn began, the end of the turn is told by
/// a notice, whatever it sent before.
pub proof fn an_unreported_turn_is_told(
    g: GroupV,
    actor_id: Text,
    lead: Text,
    turn: TurnV,
    message: JsonV,
    recent: Seq<EventV>,
    client_id: Text,
)
    requires
        works_under(g, lead, actor_id),
        forall|i: int|
            0 <= i < recent.len() ==> !is_own_report(
                #[trigger] recent[i],
                actor_id,
                lead,
                turn.started_at,
            ),
    ensures
        notice_for(g, actor_id, turn, message, recent, client_id) matches NoticeV::Send(q)
            && tells_of_the_end(q, g, actor_id, lead, turn, message, client_id),
{
    lemma_turn_words();
    lemma_first_actor(g.actors, lead);
    let p = |e: EventV| is_report(e, actor_id, lead, turn.started_at);
    let k = lemma_last_where(recent, p);
    if crate::lists::last_match(recent, p) is Some {
        lemma_is_report(recent[k], actor_id, lead, turn.started_at);
    }
}

/// The last message that a member sent the foreman since its turn began stands for the notice: one
/// that was only mailed is delivered, any other was received already.
pub proof fn a_reported_turn_is_told_by_its_report(
    g: GroupV,
    actor_id: Text,
    lead: Text,
    turn: TurnV,
    message: JsonV,
    recent: Seq<EventV>,
    client_id: Text,
    i: int,
)
    requires
        works_under(g, lead, actor_id),
        0 <= i < recent.len(),
        is_own_report(recent[i], actor_id, lead, turn.started_at),
        forall|j: int|
            i < j < recent.len() ==> !is_own_report(
                #[trigger] recent[j],
                actor_id,
                lead,
                turn.started_at,
            ),
    ensures
        ({
            let r = notice_for(g, actor_id, turn, message, recent, client_id);
            if text_field(recent[i].data, "message_mode"@) == Some("mail"@) {
                r matches NoticeV::Deliver(q) && delivers_the_report(
                    q,
                    g,
                    actor_id,
                    lead,
                    recent[i],
                )
            } else {
                r == NoticeV::Nothing
            }
        }),
{
    lemma_turn_words();
    lemma_first_actor(g.actors, lead);
    let p = |e: EventV| is_report(e, actor_id, lead, turn.started_at);
    lemma_is_report(recent[i], actor_id, lead, turn.started_at);
    assert forall|j: int| i < j < recent.len() implies !p(#[trigger] recent[j]) by {
        lemma_is_report(recent[j], actor_id, lead, turn.started_at);
    }
    lemma_last_at(recent, p, i);
}

/// Without a foreman to tell, nothing is sent and nothing is delivered; and what is delivered was
/// never sent before the turn began.
pub proof fn nobody_else_is_told(
    g: GroupV,
    actor_id: Text,
    turn: TurnV,
    message: JsonV,
    recent: Seq<EventV>,
    client_id: Text,
)
    ensures
        (forall|lead: Text| !#[trigger] works_under(g, lead, actor_id)) ==> notice_for(
            g,
            actor_id,
            turn,
            message,
            recent,
            client_id,
        ) == NoticeV::Nothing,
        notice_for(g, actor_id, turn, message, recent, client_id) matches NoticeV::Deliver(q)
            ==> exists|i: int, lead: Text|
            0 <= i < recent.len() && #[trigger] is_own_report(
                recent[i],
                actor_id,
                lead,
                turn.started_at,
            ) && delivers_the_report(q, g, actor_id, lead, recent[i]),
{
    lemma_turn_words();
    if let Some(lead) = g.available_foreman {
        lemma_first_actor(g.actors, lead);
        let p = |e: EventV| is_report(e, actor_id, lead, turn.started_at);
        let k = lemma_last_where(recent, p);
        if crate::lists::last_match(recent, p) is Some {
            lemma_is_report(recent[k], actor_id, lead, turn.started_at);
        }
        if crate::headless::web_foreman(g, actor_id) is Some {
            assert(works_under(g, lead, actor_id));
        }
    }
}

/// The turn that a message of a provider is about.
pub open spec fn turn_named(message: JsonV) -> JsonV {
    message.at("params"@).at("turn"@).at("id"@)
}

/// Whether a message of a provider tells that the session waits for a person.
pub open spec fn asks_a_person(message: JsonV) -> bool {
    exists|flags: Seq<JsonV>, k: int|
        message.at("params"@).at("status"@).at("activeFlags"@) == JsonV::Arr(flags) && 0 <= k
            < flags.len() && (#[trigger] flags[k] == JsonV::Str("waitingOnApproval"@) || flags[k]
            == JsonV::Str("waitingOnUserInput"@))
}

/// What a message of a provider means: a request is refused under its own id, a start names its
/// turn, an end ends the turn, and a session is shown as waiting while it waits for a person, and as
/// working again once it goes on. Anything else means nothing.
pub proof fn a_provider_message_is_understood(message: JsonV, busy: bool, status: Text)
    ensures
        ({
            let r = asked(message, busy, status);
            let method = message.at("method"@);
            let requests = message is Obj && message->Obj_0.contains_key("id"@);
            &&& requests ==> match method {
                JsonV::Str(m) => r matches MessageActionV::Refuse(id, error) && id
                    == message->Obj_0["id"@] && error["code"@] == JsonV::Int(-32601),
                _ => r == MessageActionV::Ignore,
            }
            &&& !requests && method == JsonV::Str("turn/started"@) ==> match turn_named(message) {
                JsonV::Str(t) => r == if trimmed(t).len() > 0 {
                    MessageActionV::Started(trimmed(t))
                } else {
                    MessageActionV::Ignore
                },
                _ => r == MessageActionV::Ignore,
            }
            &&& !requests && method == JsonV::Str("turn/completed"@) ==> r
                == MessageActionV::Completed
            &&& !requests && method == JsonV::Str("thread/status/changed"@) ==> r
                == if asks_a_person(message) {
                MessageActionV::Show("waiting"@)
            } else if message.at("params"@).at("status"@).at("type"@) == JsonV::Str("active"@)
                && busy && status == "waiting"@ {
                MessageActionV::Show("working"@)
            } else {
                MessageActionV::Ignore
            }
            &&& !requests && method != JsonV::Str("turn/started"@) && method != JsonV::Str(
                "turn/completed"@,
            ) && method != JsonV::Str("thread/status/changed"@) ==> r == MessageActionV::Ignore
        }),
{
    lemma_turn_words();
    let hit = |f: JsonV|
        f.text() == Some("waitingOnApproval"@) || f.text() == Some("waitingOnUserInput"@);
    if let JsonV::Arr(all) = message.at("params"@).at("status"@).at("activeFlags"@) {
        if some_match(all, hit) {
            let k = choose|k: int| 0 <= k < all.len() && hit(#[trigger] all[k]);
            assert(all[k] == JsonV::Str("waitingOnApproval"@) || all[k] == JsonV::Str(
                "waitingOnUserInput"@,
            ));
            assert(asks_a_person(message));
        }
        if asks_a_person(message) {
            let (flags, k) = choose|flags: Seq<JsonV>, k: int|
                message.at("params"@).at("status"@).at("activeFlags"@) == JsonV::Arr(flags) && 0
                    <= k < flags.len() && (#[trigger] flags[k] == JsonV::Str("waitingOnApproval"@)
                    || flags[k] == JsonV::Str("waitingOnUserInput"@));
            assert(hit(all[k]));
        }
    }
}

/// A completion ends the turn that it names; one that names none ends whatever turn there is, and
/// one of another turn ends nothing.
pub proof fn a_completion_ends_the_turn_it_names(message: JsonV, turn: TurnV)
    ensures
        ends(message, turn) <==> match turn_named(message) {
            JsonV::Str(t) => t.len() == 0 || turn.turn_id.len() == 0 || t == turn.turn_id,
            _ => true,
        },
{
}

/// A report that is delivered, on its way or in doubt already needs no second delivery; any other
/// failure is told.
pub proof fn a_report_on_its_way_is_no_failure(code: Text)
    ensures
        is_on_its_way(code) <==> code == "already_delivered"@ || code == "delivery_in_progress"@
            || code == "delivery_ambiguous"@,
{
}

} // verus!
