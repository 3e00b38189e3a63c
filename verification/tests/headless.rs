//! Turns of local members, and what is said to the web foreman when one ends.

use cccc_relay::failure::FailureKind;
use cccc_relay::headless::{
    active_context, complete_turn, completion_key, delivery_failure, handle_managed_turn_started,
    handle_message, notify_web_foreman, observe_started_turn, ActiveTurn, MessageAction, Notice,
    StartedStep, StartedTurnDisposition,
};
use cccc_relay::json::{Json, JsonMap};
use cccc_relay::model::{
    Actor, ActorRole, ActorRuntime, DaemonRequest, Event, GroupDoc, GroupState, OpError,
};

const START: &str = "2026-09-05T00:00:00Z";

fn text(value: &str) -> Json {
    Json::Str(value.to_string())
}

fn list(values: &[&str]) -> Json {
    Json::Arr(values.iter().map(|value| text(value)).collect())
}

fn object(entries: Vec<(&str, Json)>) -> JsonMap {
    JsonMap {
        entries: entries
            .into_iter()
            .map(|(key, value)| (key.to_string(), value))
            .collect(),
    }
}

fn turn(id: &str) -> ActiveTurn {
    ActiveTurn { turn_id: id.to_string(), started_at: START.to_string() }
}

fn about_turn(method: &str, id: &str, status: &str) -> Json {
    Json::Obj(object(vec![
        ("method", text(method)),
        (
            "params",
            Json::Obj(object(vec![(
                "turn",
                Json::Obj(object(vec![("id", text(id)), ("status", text(status))])),
            )])),
        ),
    ]))
}

#[test]
fn an_untracked_codex_turn_is_adopted_until_its_completion() {
    let mut active_turn = None;
    assert_eq!(
        observe_started_turn(&mut active_turn, "turn-terminal", START),
        StartedTurnDisposition::Adopted
    );
    match &active_turn {
        Some(active) => assert_eq!(active.turn_id, "turn-terminal"),
        None => panic!("no adopted turn"),
    }
}

#[test]
fn a_repeated_started_event_matches_the_active_turn_but_not_an_overlap() {
    let mut active_turn = Some(turn("turn-terminal"));
    assert_eq!(
        observe_started_turn(&mut active_turn, "turn-terminal", START),
        StartedTurnDisposition::Matched
    );
    assert_eq!(
        observe_started_turn(&mut active_turn, "turn-overlap", START),
        StartedTurnDisposition::Conflict
    );
}

/// The messages and deliveries of a group; a message of one client id is kept once.
struct Ledger {
    group: GroupDoc,
    messages: Vec<Event>,
    delivered: Vec<String>,
    next: u64,
}

impl Ledger {
    fn append(&mut self, by: &str, data: JsonMap) -> String {
        self.next += 1;
        let id = format!("event-{}", self.next);
        self.messages.push(Event {
            id: id.clone(),
            ts: format!("2026-09-05T00:00:{:02}Z", self.next),
            kind: "chat.message".to_string(),
            group_id: self.group.group_id.clone(),
            by: by.to_string(),
            data,
        });
        id
    }

    fn latest(&self) -> String {
        format!("2026-09-05T00:00:{:02}Z", self.next + 1)
    }

    fn notify(&mut self, turn: &ActiveTurn, message: &Json) {
        let client_id = format!("tracked:{}:worker:{}", self.group.group_id, completion_key(turn));
        match notify_web_foreman(&self.group, "worker", turn, message, &self.messages, &client_id) {
            Notice::Nothing => {}
            Notice::Send(request) => {
                assert_eq!(request.op, "send");
                if !self.messages.iter().any(|event| event.data.is("client_id", &client_id)) {
                    self.append("system", request.args.copy());
                }
            }
            Notice::Deliver(request) => {
                assert_eq!(request.op, "message_deliver");
                let id = request.args.text_or_empty("source_event_id");
                if !self.delivered.contains(&id) {
                    self.delivered.push(id);
                }
            }
        }
    }
}

#[test]
fn completion_notice_is_durable_deduplicated_and_does_not_replace_a_report() {
    let actor = |id: &str, runtime: ActorRuntime, role: ActorRole| Actor {
        id: id.to_string(),
        enabled: true,
        runtime,
        role,
        created_at: START.to_string(),
    };
    let mut ledger = Ledger {
        group: GroupDoc {
            group_id: "handoff".to_string(),
            running: true,
            state: GroupState::Active,
            actors: vec![
                actor("web-lead", ActorRuntime::WebModel, ActorRole::Foreman),
                actor("worker", ActorRuntime::Local, ActorRole::Peer),
            ],
            available_foreman: Some("web-lead".to_string()),
        },
        messages: Vec::new(),
        delivered: Vec::new(),
        next: 0,
    };
    let completed = about_turn("turn/completed", "turn-one", "completed");
    let first = turn("turn-one");
    ledger.notify(&first, &completed);
    ledger.notify(&first, &completed);
    assert_eq!(ledger.messages.len(), 1);
    let notice = &ledger.messages[0].data;
    assert!(notice.copy_or_null("to").same(&list(&["web-lead"])));
    assert!(notice.is("message_mode", "send"));
    assert!(notice.is(
        "text",
        "[CCCC] Member worker ended this turn (completed). Please review its actual result and decide the next step; this notice does not mark the task complete."
    ));

    let second = ActiveTurn { turn_id: "turn-two".to_string(), started_at: ledger.latest() };
    ledger.append(
        "worker",
        object(vec![
            ("to", list(&["web-lead"])),
            ("message_mode", text("send")),
            ("text", text("Actual result")),
        ]),
    );
    ledger.notify(&second, &completed);
    assert_eq!(ledger.messages.len(), 2);

    let mailed_turn = ActiveTurn { turn_id: "turn-mail".to_string(), started_at: ledger.latest() };
    let mailed = ledger.append(
        "worker",
        object(vec![
            ("to", list(&["web-lead"])),
            ("message_mode", text("mail")),
            ("text", text("Final report by mail")),
        ]),
    );
    ledger.notify(&mailed_turn, &completed);
    ledger.notify(&mailed_turn, &completed);
    assert_eq!(ledger.messages.len(), 3, "mail promotion duplicated the report");
    assert_eq!(
        ledger.delivered,
        vec![mailed],
        "mailed final report never entered the native delivery path"
    );

    ledger.group.state = GroupState::Paused;
    let third = ActiveTurn { turn_id: "turn-three".to_string(), started_at: ledger.latest() };
    ledger.notify(&third, &completed);
    assert_eq!(ledger.messages.len(), 3);
}

#[test]
fn a_turn_ends_only_with_its_own_completion() {
    let mut active = Some(turn("turn-a"));
    assert!(complete_turn(&mut active, &about_turn("turn/completed", "turn-b", "completed")).is_none());
    assert_eq!(active_context(&active), Some("turn-a".to_string()));
    match complete_turn(&mut active, &about_turn("turn/completed", "turn-a", "completed")) {
        Some(ended) => assert_eq!(ended.turn_id, "turn-a"),
        None => panic!("the turn did not end"),
    }
    assert_eq!(active_context(&active), None);
    assert!(complete_turn(&mut active, &about_turn("turn/completed", "turn-a", "completed")).is_none());
    let mut unnamed = Some(turn("turn-a"));
    assert!(complete_turn(&mut unnamed, &about_turn("turn/completed", "", "completed")).is_some());
}

#[test]
fn an_overlapping_turn_stops_the_session() {
    let mut active = None;
    assert_eq!(
        handle_managed_turn_started(&mut active, "turn-a", START),
        StartedStep::ShowWorking
    );
    assert_eq!(handle_managed_turn_started(&mut active, "turn-a", START), StartedStep::Nothing);
    assert_eq!(handle_managed_turn_started(&mut active, "turn-b", START), StartedStep::Stop);
    assert_eq!(active_context(&active), Some("turn-a".to_string()));
}

#[test]
fn a_request_of_the_provider_is_refused() {
    let request = Json::Obj(object(vec![("id", Json::Int(7)), ("method", text("fs/read"))]));
    match handle_message(&request, false, "idle") {
        MessageAction::Refuse(id, error) => {
            assert!(id.same(&Json::Int(7)));
            assert!(error.copy_or_null("code").same(&Json::Int(-32601)));
            assert!(error.is(
                "message",
                "CCCC headless does not support provider request: fs/read"
            ));
        }
        _ => panic!("the request is not supported"),
    }
    let reply = Json::Obj(object(vec![("id", Json::Int(7))]));
    assert!(matches!(handle_message(&reply, false, "idle"), MessageAction::Ignore));
}

#[test]
fn announcements_start_and_end_turns_and_show_waiting() {
    match handle_message(&about_turn("turn/started", " turn-a ", ""), false, "idle") {
        MessageAction::Started(id) => assert_eq!(id, "turn-a"),
        _ => panic!("a turn was started"),
    }
    assert!(matches!(
        handle_message(&about_turn("turn/completed", "turn-a", "completed"), true, "working"),
        MessageAction::Completed
    ));
    let changed = |kind: &str, flags: &[&str]| {
        Json::Obj(object(vec![
            ("method", text("thread/status/changed")),
            (
                "params",
                Json::Obj(object(vec![(
                    "status",
                    Json::Obj(object(vec![("type", text(kind)), ("activeFlags", list(flags))])),
                )])),
            ),
        ]))
    };
    match handle_message(&changed("active", &["waitingOnApproval"]), true, "working") {
        MessageAction::Show(status) => assert_eq!(status, "waiting"),
        _ => panic!("the member waits"),
    }
    match handle_message(&changed("active", &[]), true, "waiting") {
        MessageAction::Show(status) => assert_eq!(status, "working"),
        _ => panic!("the member works again"),
    }
    assert!(matches!(
        handle_message(&changed("active", &[]), false, "waiting"),
        MessageAction::Ignore
    ));
}

#[test]
fn a_delivery_on_its_way_is_no_failure() {
    for code in ["already_delivered", "delivery_in_progress", "delivery_ambiguous"] {
        assert!(delivery_failure(&OpError::new(code, "x")).is_none());
    }
    match delivery_failure(&OpError::new("io_error", "disk full")) {
        Some(failure) => {
            assert_eq!(failure.kind, FailureKind::Other);
            assert_eq!(failure.message, "io_error: disk full");
        }
        None => panic!("the delivery has failed"),
    }
}

#[test]
fn a_notice_carries_its_turn() {
    let group = GroupDoc {
        group_id: "g".to_string(),
        running: true,
        state: GroupState::Active,
        actors: vec![Actor {
            id: "web-lead".to_string(),
            enabled: true,
            runtime: ActorRuntime::WebModel,
            role: ActorRole::Foreman,
            created_at: START.to_string(),
        }],
        available_foreman: Some("web-lead".to_string()),
    };
    let message = Json::Obj(JsonMap::new());
    let request: DaemonRequest =
        match notify_web_foreman(&group, "worker", &turn("t-1"), &message, &Vec::new(), "key-1") {
            Notice::Send(request) => request,
            _ => panic!("no report was made"),
        };
    assert!(request.args.is("source_turn_id", "t-1"));
    assert!(request.args.is("source_actor_id", "worker"));
    assert!(request.args.is("client_id", "key-1"));
    assert!(request.args.text_or_empty("text").contains("(ended)"));
}
