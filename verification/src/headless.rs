//! Turns of local members: which turn is active, what a provider message means for it, and what
//! the web foreman is told when it ends.

use crate::failure::{other_failure, Failure};
use crate::json::{
    lemma_values_are_views, list_field, or_empty, text_field, Json, JsonMap, JsonV, ObjV,
};
use crate::lists::{any_of, find_last, last_match, lemma_views, lemma_views_push, some_match};
use crate::model::{
    ledger, ActorRuntime, DaemonRequest, Event, EventV, GroupDoc, GroupV, OpError, RequestV,
};
use crate::order::{before, str_before};
use crate::relay::decide::one_text;
use crate::text::{is_text, opt_text, str_eq, trim, trimmed, Text};
use vstd::prelude::*;
use vstd::string::*;

verus! {

broadcast use {lemma_views, lemma_views_push};

/// A turn that a member works on.
pub struct ActiveTurn {
    pub turn_id: String,
    pub started_at: String,
}

/// The mathematical value of a turn that a member works on.
pub struct TurnV {
    pub turn_id: Text,
    pub started_at: Text,
}

impl View for ActiveTurn {
    type V = TurnV;

    open spec fn view(&self) -> TurnV {
        TurnV { turn_id: self.turn_id@, started_at: self.started_at@ }
    }
}

/// The value of an optional turn.
pub open spec fn opt_turn(o: Option<ActiveTurn>) -> Option<TurnV> {
    match o {
        Some(t) => Some(t@),
        None => None,
    }
}

/// What a started turn is to a session.
#[derive(PartialEq, Eq, Structural, Clone, Copy, Debug)]
pub enum StartedTurnDisposition {
    /// The session had no turn and takes this one on.
    Adopted,
    /// It is the turn that the session works on.
    Matched,
    /// The session works on another turn.
    Conflict,
}

/// Observes a started turn: an idle session takes it on; an active one keeps its own.
pub fn observe_started_turn(active: &mut Option<ActiveTurn>, turn_id: &str, now: &str) -> (r:
    StartedTurnDisposition)
    ensures
        match opt_turn(*old(active)) {
            Some(t) => opt_turn(*final(active)) == Some(t) && r == if t.turn_id == turn_id@ {
                StartedTurnDisposition::Matched
            } else {
                StartedTurnDisposition::Conflict
            },
            None => r == StartedTurnDisposition::Adopted && opt_turn(*final(active)) == Some(
                TurnV { turn_id: turn_id@, started_at: now@ },
            ),
        },
{
    match active {
        Some(t) => {
            if str_eq(t.turn_id.as_str(), turn_id) {
                StartedTurnDisposition::Matched
            } else {
                StartedTurnDisposition::Conflict
            }
        },
        None => {
            *active = Some(
                ActiveTurn { turn_id: turn_id.to_owned(), started_at: now.to_owned() },
            );
            StartedTurnDisposition::Adopted
        },
    }
}

/// What is done with a session whose provider reports that a turn was started.
#[derive(PartialEq, Eq, Structural, Clone, Copy, Debug)]
pub enum StartedStep {
    /// Show that the session works on the turn.
    ShowWorking,
    /// Nothing: the session works on the turn already.
    Nothing,
    /// Stop the session: it works on another turn.
    Stop,
}

/// What is done with a session whose provider reports that a turn was started: a session without a
/// turn takes it on, and one that works on another turn is stopped.
pub fn handle_managed_turn_started(active: &mut Option<ActiveTurn>, turn_id: &str, now: &str) -> (r:
    StartedStep)
    ensures
        match opt_turn(*old(active)) {
            Some(t) => opt_turn(*final(active)) == Some(t) && r == if t.turn_id == turn_id@ {
                StartedStep::Nothing
            } else {
                StartedStep::Stop
            },
            None => r == StartedStep::ShowWorking && opt_turn(*final(active)) == Some(
                TurnV { turn_id: turn_id@, started_at: now@ },
            ),
        },
{
    match observe_started_turn(active, turn_id, now) {
        StartedTurnDisposition::Adopted => StartedStep::ShowWorking,
        StartedTurnDisposition::Matched => StartedStep::Nothing,
        StartedTurnDisposition::Conflict => StartedStep::Stop,
    }
}

/// The turn that a session works on.
pub fn active_context(active: &Option<ActiveTurn>) -> (r: Option<String>)
    ensures
        opt_text(r) == match opt_turn(*active) {
            Some(t) => Some(t.turn_id),
            None => None,
        },
{
    match active {
        Some(t) => Some(t.turn_id.clone()),
        None => None,
    }
}

/// The id of the turn that a message is about.
pub open spec fn message_turn(message: JsonV) -> Option<Text> {
    message.at("params"@).at("turn"@).at("id"@).text()
}

fn message_turn_of(message: &Json) -> (r: Option<String>)
    ensures
        opt_text(r) == message_turn(message@),
{
    let params = message.at("params");
    let turn = params.at("turn");
    match turn.text("id") {
        Some(t) => Some(t.to_owned()),
        None => None,
    }
}

/// Whether a completion message ends the active turn: it names it, or one of the two has no id.
pub open spec fn ends(message: JsonV, turn: TurnV) -> bool {
    let reported = or_empty(message_turn(message));
    reported.len() == 0 || turn.turn_id.len() == 0 || reported == turn.turn_id
}

/// Ends the active turn where the message does, and returns it.
pub fn complete_turn(active: &mut Option<ActiveTurn>, message: &Json) -> (r: Option<ActiveTurn>)
    ensures
        match opt_turn(*old(active)) {
            Some(t) => if ends(message@, t) {
                opt_turn(r) == Some(t) && *final(active) is None
            } else {
                r is None && opt_turn(*final(active)) == Some(t)
            },
            None => r is None && *final(active) is None,
        },
{
    let reported = match message_turn_of(message) {
        Some(t) => t,
        None => String::new(),
    };
    let over = match active {
        None => false,
        Some(t) => reported.as_str().is_empty() || t.turn_id.as_str().is_empty() || str_eq(
            reported.as_str(),
            t.turn_id.as_str(),
        ),
    };
    if over {
        active.take()
    } else {
        None
    }
}

/// A turn that was taken on is active until its own completion ends it.
pub proof fn a_turn_lasts_until_its_own_completion(message: JsonV, turn: TurnV)
    requires
        turn.turn_id.len() > 0,
    ensures
        message_turn(message) == Some(turn.turn_id) ==> ends(message, turn),
        message_turn(message) matches Some(other) && other.len() > 0 && other != turn.turn_id
            ==> !ends(message, turn),
{
}

/// What a provider message asks of a session.
pub enum MessageAction {
    /// Answer a request that is not supported: its id and the error.
    Refuse(Json, JsonMap),
    /// Observe that a turn was started.
    Started(String),
    /// End the active turn.
    Completed,
    /// Show a status with the active turn.
    Show(String),
    /// Nothing.
    Ignore,
}

/// The mathematical value of what a message asks of a session.
pub enum MessageActionV {
    Refuse(JsonV, ObjV),
    Started(Text),
    Completed,
    Show(Text),
    Ignore,
}

impl View for MessageAction {
    type V = MessageActionV;

    open spec fn view(&self) -> MessageActionV {
        match self {
            MessageAction::Refuse(id, e) => MessageActionV::Refuse(id@, e@),
            MessageAction::Started(t) => MessageActionV::Started(t@),
            MessageAction::Completed => MessageActionV::Completed,
            MessageAction::Show(s) => MessageActionV::Show(s@),
            MessageAction::Ignore => MessageActionV::Ignore,
        }
    }
}

/// The error with which an unsupported request is answered.
pub open spec fn unsupported(method: Text) -> ObjV {
    map![
        "code"@ => JsonV::Int(-32601),
        "message"@ => JsonV::Str(
            "CCCC headless does not support provider request: "@ + method,
        ),
    ]
}

/// Whether the flags say that the session waits for a person.
pub open spec fn waits_for_person(message: JsonV) -> bool {
    match message.at("params"@).at("status"@).at("activeFlags"@).list() {
        Some(flags) => some_match(
            flags,
            |f: JsonV|
                f.text() == Some("waitingOnApproval"@) || f.text() == Some(
                    "waitingOnUserInput"@,
                ),
        ),
        None => false,
    }
}

/// Whether the message says that the session is active.
pub open spec fn says_active(message: JsonV) -> bool {
    message.at("params"@).at("status"@).at("type"@).text() == Some("active"@)
}

/// What an announcement asks of a session with or without an active turn, in a status.
pub open spec fn announced(message: JsonV, busy: bool, status: Text) -> MessageActionV {
    let method = message.at("method"@).text();
    if method == Some("turn/started"@) {
        match message_turn(message) {
            Some(t) => if trimmed(t).len() > 0 {
                MessageActionV::Started(trimmed(t))
            } else {
                MessageActionV::Ignore
            },
            None => MessageActionV::Ignore,
        }
    } else if method == Some("turn/completed"@) {
        MessageActionV::Completed
    } else if method == Some("thread/status/changed"@) {
        if waits_for_person(message) {
            MessageActionV::Show("waiting"@)
        } else if says_active(message) && busy && status == "waiting"@ {
            MessageActionV::Show("working"@)
        } else {
            MessageActionV::Ignore
        }
    } else {
        MessageActionV::Ignore
    }
}

/// What a message asks of a session: requests are refused, answers ignored, announcements heard.
pub open spec fn asked(message: JsonV, busy: bool, status: Text) -> MessageActionV {
    match message.get("id"@) {
        Some(id) => match message.at("method"@).text() {
            Some(method) => MessageActionV::Refuse(id, unsupported(method)),
            None => MessageActionV::Ignore,
        },
        None => announced(message, busy, status),
    }
}

fn waiting(message: &Json) -> (r: bool)
    ensures
        r == waits_for_person(message@),
{
    let params = message.at("params");
    let status = params.at("status");
    match status.list("activeFlags") {
        Some(flags) => {
            proof {
                lemma_values_are_views(flags@);
            }
            let ghost sp = |f: JsonV|
                f.text() == Some("waitingOnApproval"@) || f.text() == Some("waitingOnUserInput"@);
            any_of(
                flags,
                |f: &Json| -> (b: bool)
                    ensures (b == (f@.text() == Some("waitingOnApproval"@) || f@.text() == Some(
                        "waitingOnUserInput"@,
                    )))
                {
                    is_text(f.as_str(), "waitingOnApproval") || is_text(
                        f.as_str(),
                        "waitingOnUserInput",
                    )
                },
                Ghost(sp),
            )
        },
        None => false,
    }
}

/// What an announcement asks of a session.
pub fn handle_announced_message(message: &Json, busy: bool, status: &str) -> (r: MessageAction)
    ensures
        r@ == announced(message@, busy, status@),
{
    if message.is("method", "turn/started") {
        if let Some(t) = message_turn_of(message) {
            let t = trim(t.as_str());
            if !t.as_str().is_empty() {
                return MessageAction::Started(t);
            }
        }
        return MessageAction::Ignore;
    }
    if message.is("method", "turn/completed") {
        return MessageAction::Completed;
    }
    if message.is("method", "thread/status/changed") {
        if waiting(message) {
            return MessageAction::Show("waiting".to_owned());
        }
        let params = message.at("params");
        let state = params.at("status");
        if state.is("type", "active") && busy && str_eq(status, "waiting") {
            return MessageAction::Show("working".to_owned());
        }
    }
    MessageAction::Ignore
}

/// What a message asks of a session. `busy` says whether it has an active turn.
pub fn handle_message(message: &Json, busy: bool, status: &str) -> (r: MessageAction)
    ensures
        r@ == asked(message@, busy, status@),
{
    match message.get("id") {
        Some(id) => match message.text("method") {
            Some(method) => {
                let mut text = "CCCC headless does not support provider request: ".to_owned();
                text.append(method);
                let mut m = JsonMap::new();
                m.put("code", Json::Int(-32601));
                m.put("message", Json::Str(text));
                MessageAction::Refuse(id.copy(), m)
            },
            None => MessageAction::Ignore,
        },
        None => handle_announced_message(message, busy, status),
    }
}

/// What is done for the web foreman when a member ends a turn.
pub enum Notice {
    /// Nothing.
    Nothing,
    /// Have the member's own report delivered.
    Deliver(DaemonRequest),
    /// Send a notice.
    Send(DaemonRequest),
}

/// The mathematical value of what is done for the web foreman.
pub enum NoticeV {
    Nothing,
    Deliver(RequestV),
    Send(RequestV),
}

impl View for Notice {
    type V = NoticeV;

    open spec fn view(&self) -> NoticeV {
        match self {
            Notice::Nothing => NoticeV::Nothing,
            Notice::Deliver(q) => NoticeV::Deliver(q@),
            Notice::Send(q) => NoticeV::Send(q@),
        }
    }
}

/// The web foreman that a member reports to: the one available foreman, if it is a web model and
/// not the member itself, in a group that is not halted.
pub open spec fn web_foreman(g: GroupV, actor_id: Text) -> Option<Text> {
    if g.halted() {
        None
    } else {
        match g.available_foreman {
            None => None,
            Some(lead) => match g.find(lead) {
                Some(a) => if a.runtime == ActorRuntime::WebModel && lead != actor_id {
                    Some(lead)
                } else {
                    None
                },
                None => None,
            },
        }
    }
}

/// Whether an event is a report of the member to the foreman since its turn began.
pub open spec fn is_report(e: EventV, actor_id: Text, lead: Text, since: Text) -> bool {
    &&& e.by == actor_id
    &&& !before(e.ts, since)
    &&& match list_field(e.data, "to"@) {
        Some(to) => some_match(to, |id: JsonV| id.text() == Some(lead)),
        None => false,
    }
}

/// The request that delivers a report that was sent as mail.
pub open spec fn deliver_request(group_id: Text, actor_id: Text, event_id: Text, lead: Text) -> RequestV {
    RequestV {
        v: 1,
        op: "message_deliver"@,
        args: map![
            "group_id"@ => JsonV::Str(group_id),
            "by"@ => JsonV::Str(actor_id),
            "source_event_id"@ => JsonV::Str(event_id),
            "actor_ids"@ => JsonV::Arr(seq![JsonV::Str(lead)]),
        ],
    }
}

/// The status in which a member's turn ended.
pub open spec fn end_status(message: JsonV) -> Text {
    match message.at("params"@).at("turn"@).at("status"@).text() {
        Some(t) => t,
        None => "ended"@,
    }
}

/// The request that sends a completion notice.
pub open spec fn notice_request(
    group_id: Text,
    actor_id: Text,
    lead: Text,
    turn_id: Text,
    status: Text,
    client_id: Text,
) -> RequestV {
    RequestV {
        v: 1,
        op: "send"@,
        args: map![
            "group_id"@ => JsonV::Str(group_id),
            "by"@ => JsonV::Str("system"@),
            "to"@ => JsonV::Arr(seq![JsonV::Str(lead)]),
            "message_mode"@ => JsonV::Str("send"@),
            "client_id"@ => JsonV::Str(client_id),
            "text"@ => JsonV::Str(
                "[CCCC] Member "@ + actor_id + " ended this turn ("@ + status
                    + "). Please review its actual result and decide the next step; this notice does not mark the task complete."@,
            ),
            "source_actor_id"@ => JsonV::Str(actor_id),
            "source_turn_id"@ => JsonV::Str(turn_id),
        ],
    }
}

/// What is done for the web foreman when a member ends a turn. A report of the member itself takes
/// the place of a notice; one sent as mail is delivered.
pub open spec fn notice_for(
    g: GroupV,
    actor_id: Text,
    turn: TurnV,
    message: JsonV,
    recent: Seq<EventV>,
    client_id: Text,
) -> NoticeV {
    match web_foreman(g, actor_id) {
        None => NoticeV::Nothing,
        Some(lead) => match last_match(
            recent,
            |e: EventV| is_report(e, actor_id, lead, turn.started_at),
        ) {
            Some(report) => if text_field(report.data, "message_mode"@) == Some("mail"@) {
                NoticeV::Deliver(deliver_request(g.group_id, actor_id, report.id, lead))
            } else {
                NoticeV::Nothing
            },
            None => NoticeV::Send(
                notice_request(
                    g.group_id,
                    actor_id,
                    lead,
                    turn.turn_id,
                    end_status(message),
                    client_id,
                ),
            ),
        },
    }
}

fn reports_to(e: &Event, lead: &str) -> (r: bool)
    ensures
        r == match list_field(e@.data, "to"@) {
            Some(to) => some_match(to, |id: JsonV| id.text() == Some(lead@)),
            None => false,
        },
{
    match e.data.list("to") {
        Some(to) => {
            proof {
                lemma_values_are_views(to@);
            }
            let ghost sp = |id: JsonV| id.text() == Some(lead@);
            any_of(
                to,
                |id: &Json| -> (b: bool)
                    ensures (b == (id@.text() == Some(lead@)))
                {
                    is_text(id.as_str(), lead)
                },
                Ghost(sp),
            )
        },
        None => false,
    }
}

fn web_foreman_of(group: &GroupDoc, actor_id: &str) -> (r: Option<String>)
    ensures
        opt_text(r) == web_foreman(group@, actor_id@),
{
    if group.halted() {
        return None;
    }
    match &group.available_foreman {
        None => None,
        Some(lead) => match group.find(lead.as_str()) {
            Some(a) => if a.runtime == ActorRuntime::WebModel && !str_eq(lead.as_str(), actor_id) {
                Some(lead.clone())
            } else {
                None
            },
            None => None,
        },
    }
}

/// The key under which the notice of a turn's completion is sent once.
pub fn completion_key(turn: &ActiveTurn) -> (r: String)
    ensures
        r@ == "completion:"@ + turn@.turn_id,
{
    let mut key = "completion:".to_string();
    key.append(turn.turn_id.as_str());
    key
}

/// What is done for the web foreman when a member ends a turn. `recent` are the latest chat
/// messages of the group; `client_id` is the id under which the notice is sent once.
pub fn notify_web_foreman(
    group: &GroupDoc,
    actor_id: &str,
    turn: &ActiveTurn,
    message: &Json,
    recent: &Vec<Event>,
    client_id: &str,
) -> (r: Notice)
    ensures
        r@ == notice_for(
            group@,
            actor_id@,
            turn@,
            message@,
            ledger(recent@),
            client_id@,
        ),
{
    let lead = match web_foreman_of(group, actor_id) {
        Some(l) => l,
        None => {
            return Notice::Nothing;
        },
    };
    let ghost sp = |e: EventV| is_report(e, actor_id@, lead@, turn@.started_at);
    let report = find_last(
        recent,
        |e: &Event| -> (b: bool)
            ensures (b == is_report(e@, actor_id@, lead@, turn@.started_at))
        {
            str_eq(e.by.as_str(), actor_id) && !str_before(e.ts.as_str(), turn.started_at.as_str())
                && reports_to(e, lead.as_str())
        },
        Ghost(sp),
    );
    let mut m = JsonMap::new();
    m.put("group_id", Json::str(group.group_id.as_str()));
    if let Some(e) = report {
        if e.data.is("message_mode", "mail") {
            m.put("by", Json::str(actor_id));
            m.put("source_event_id", Json::str(e.id.as_str()));
            m.put("actor_ids", one_text(lead.as_str()));
            return Notice::Deliver(
                DaemonRequest { v: 1, op: "message_deliver".to_owned(), args: m },
            );
        }
        return Notice::Nothing;
    }
    let params = message.at("params");
    let ended = params.at("turn");
    let status = match ended.text("status") {
        Some(t) => t.to_owned(),
        None => "ended".to_owned(),
    };
    let mut text = "[CCCC] Member ".to_owned();
    text.append(actor_id);
    text.append(" ended this turn (");
    text.append(status.as_str());
    text.append(
        "). Please review its actual result and decide the next step; this notice does not mark the task complete.",
    );
    m.put("by", Json::str("system"));
    m.put("to", one_text(lead.as_str()));
    m.put("message_mode", Json::str("send"));
    m.put("client_id", Json::str(client_id));
    m.put("text", Json::Str(text));
    m.put("source_actor_id", Json::str(actor_id));
    m.put("source_turn_id", Json::str(turn.turn_id.as_str()));
    Notice::Send(DaemonRequest { v: 1, op: "send".to_owned(), args: m })
}

/// Whether a refused delivery of a report means that it is on its way already.
pub open spec fn is_on_its_way(code: Text) -> bool {
    code == "already_delivered"@ || code == "delivery_in_progress"@ || code
        == "delivery_ambiguous"@
}

/// The failure of a refused delivery of a report, none where it is on its way already.
pub fn delivery_failure(error: &OpError) -> (r: Option<Failure>)
    ensures
        match r {
            Some(f) => !is_on_its_way(error@.code) && f@ == other_failure(
                error@.code + ": "@ + error@.message,
            ),
            None => is_on_its_way(error@.code),
        },
{
    let code = error.code.as_str();
    if str_eq(code, "already_delivered") || str_eq(code, "delivery_in_progress") || str_eq(
        code,
        "delivery_ambiguous",
    ) {
        return None;
    }
    let mut m = error.code.clone();
    m.append(": ");
    m.append(error.message.as_str());
    Some(Failure::other(m.as_str()))
}

/// A halted group, a member that is the foreman itself, and a member that has already reported by
/// a message bring no notice; no notice is ever sent beside a report.
pub proof fn a_report_replaces_the_notice(
    g: GroupV,
    actor_id: Text,
    turn: TurnV,
    message: JsonV,
    recent: Seq<EventV>,
    client_id: Text,
)
    ensures
        g.halted() ==> notice_for(g, actor_id, turn, message, recent, client_id)
            == NoticeV::Nothing,
        g.available_foreman == Some(actor_id) ==> notice_for(
            g,
            actor_id,
            turn,
            message,
            recent,
            client_id,
        ) == NoticeV::Nothing,
        web_foreman(g, actor_id) matches Some(lead) && some_match(
            recent,
            |e: EventV| is_report(e, actor_id, lead, turn.started_at),
        ) ==> !(notice_for(g, actor_id, turn, message, recent, client_id) is Send),
{
    if web_foreman(g, actor_id) is Some {
        let lead = web_foreman(g, actor_id)->0;
        crate::lists::lemma_last_match(
            recent,
            |e: EventV| is_report(e, actor_id, lead, turn.started_at),
        );
    }
}

/// Telling of the same completion again asks for the same message under the same id, whatever
/// messages of others came in between, the first notice among them; so where a message is kept
/// once for its id, the notice is there once.
pub proof fn a_repeated_notice_is_the_same_message(
    g: GroupV,
    actor_id: Text,
    turn: TurnV,
    message: JsonV,
    recent: Seq<EventV>,
    more: Seq<EventV>,
    client_id: Text,
    q: RequestV,
)
    requires
        notice_for(g, actor_id, turn, message, recent, client_id) == NoticeV::Send(q),
        forall|k: int| 0 <= k < more.len() ==> (#[trigger] more[k]).by != actor_id,
    ensures
        notice_for(g, actor_id, turn, message, recent + more, client_id) == NoticeV::Send(q),
        text_field(q.args, "client_id"@) == Some(client_id),
        text_field(q.args, "by"@) == Some("system"@),
    decreases more.len(),
{
    reveal_strlit("group_id");
    reveal_strlit("by");
    reveal_strlit("to");
    reveal_strlit("message_mode");
    reveal_strlit("client_id");
    reveal_strlit("text");
    reveal_strlit("source_actor_id");
    reveal_strlit("source_turn_id");
    assert("group_id"@.len() == 8);
    assert("by"@.len() == 2 && "by"@[0] == 'b');
    assert("to"@.len() == 2 && "to"@[0] == 't');
    assert("message_mode"@.len() == 12);
    assert("client_id"@.len() == 9);
    assert("text"@.len() == 4);
    assert("source_actor_id"@.len() == 15);
    assert("source_turn_id"@.len() == 14);
    if more.len() == 0 {
        assert(recent + more =~= recent);
    } else {
        let fewer = more.drop_last();
        assert forall|k: int| 0 <= k < fewer.len() implies (#[trigger] fewer[k]).by != actor_id by {
            assert(fewer[k] == more[k]);
        }
        a_repeated_notice_is_the_same_message(
            g,
            actor_id,
            turn,
            message,
            recent,
            fewer,
            client_id,
            q,
        );
        assert((recent + more).drop_last() =~= recent + fewer);
        assert((recent + more).last() == more[more.len() - 1]);
    }
}

} // verus!
