//! Relay decisions from end to end, on a group whose ledger and context are held in memory.

use cccc_relay::context::{apply_all, Progress};
use cccc_relay::failure::Failure;
use cccc_relay::json::{Json, JsonMap};
use cccc_relay::model::{
    required_arg, string_arg, bool_arg, Actor, ActorRole, ActorRuntime, ContextDoc, DaemonRequest,
    Event, GroupDoc, GroupState, OpError,
};
use cccc_relay::relay::accept::{
    accept_handled_sources, reconcile_escalated_handoffs, reconcile_recorded_decisions,
    release_active_turn_if_handled,
};
use cccc_relay::relay::decide::{decision_actor, decision_result, tracked_continue, Scope};
use cccc_relay::relay::dispatch::{handle, with_relay_lock, RelayOperation};
use cccc_relay::relay::facts::{
    escalation_event_for_handoff, event_string_list, latest_delivery_state, unresolved_source_ids,
};
use cccc_relay::relay::flow::{
    after_context, after_preview, after_recording, after_reread, after_send, decide, DecideStep,
};
use cccc_relay::relay::handoff::{implicit_turn_of, record_handoff, Turn};
use cccc_relay::relay::idle::actor_may_idle_from_state;
use cccc_relay::relay::ids::{
    decision_fingerprint, decision_id, stable_event_id, DECISION_KIND, HANDOFF_KIND,
};
use cccc_relay::relay::intent::Intent;
use cccc_relay::relay::notes::ensure_handoff_note;
use cccc_relay::relay::remind::{inactive_answer, remind_due, reminder_answer, RemindStep};
use cccc_relay::relay::state::current_group_state;
use cccc_relay::relay::status::{require_actor, status};
use cccc_relay::time::Instant;

const NOW: i64 = 1_800_000_000;

fn text(value: &str) -> Json {
    Json::Str(value.to_string())
}

fn list(values: &[&str]) -> Json {
    Json::Arr(values.iter().map(|value| text(value)).collect())
}

fn object(entries: Vec<(&str, Json)>) -> JsonMap {
    JsonMap {
        entries: entries
            .into_iter()
            .map(|(key, value)| (key.to_string(), value))
            .collect(),
    }
}

fn stamp(seconds: i64) -> String {
    Instant { secs: seconds, nanos: 0 }.stamp()
}

fn ok<T>(outcome: Result<T, OpError>) -> T {
    match outcome {
        Ok(value) => value,
        Err(error) => panic!("{}: {}", error.code, error.message),
    }
}

fn refused<T>(outcome: Result<T, OpError>) -> OpError {
    match outcome {
        Ok(_) => panic!("the request was not refused"),
        Err(error) => error,
    }
}

fn entry(map: &JsonMap, key: &str) -> Json {
    map.copy_or_null(key)
}

fn is_text(value: &Json, expected: &str) -> bool {
    value.same(&text(expected))
}

fn is_flag(map: &JsonMap, key: &str, expected: bool) -> bool {
    map.flag(key) == Some(expected)
}

fn event_json(event: &Event) -> Json {
    Json::Obj(object(vec![
        ("id", text(&event.id)),
        ("ts", text(&event.ts)),
        ("kind", text(&event.kind)),
        ("group_id", text(&event.group_id)),
        ("by", text(&event.by)),
        ("data", Json::Obj(event.data.copy())),
    ]))
}

fn copy_context(document: &ContextDoc) -> ContextDoc {
    ContextDoc {
        coordination: document.coordination.copy(),
        tasks: document.tasks.iter().map(|task| task.copy()).collect(),
        meta: document.meta.copy(),
    }
}

fn same_context(a: &ContextDoc, b: &ContextDoc) -> bool {
    let tasks = |document: &ContextDoc| {
        Json::Arr(document.tasks.iter().map(|task| Json::Obj(task.copy())).collect())
    };
    Json::Obj(a.coordination.copy()).same(&Json::Obj(b.coordination.copy()))
        && tasks(a).same(&tasks(b))
        && Json::Obj(a.meta.copy()).same(&Json::Obj(b.meta.copy()))
}

struct Fixture {
    group: GroupDoc,
    events: Vec<Event>,
    context: ContextDoc,
    working: Option<(String, Vec<String>)>,
    next: u64,
}

impl Fixture {
    fn new(title: &str) -> Self {
        let actor = |id: &str, runtime: ActorRuntime, role: ActorRole| Actor {
            id: id.to_string(),
            enabled: true,
            runtime,
            role,
            created_at: stamp(NOW - 1000),
        };
        Self {
            group: GroupDoc {
                group_id: format!("group {title}"),
                running: true,
                state: GroupState::Active,
                actors: vec![
                    actor("web-lead", ActorRuntime::WebModel, ActorRole::Foreman),
                    actor("worker-a", ActorRuntime::Local, ActorRole::Peer),
                    actor("worker-b", ActorRuntime::Local, ActorRole::Peer),
                ],
                available_foreman: Some("web-lead".to_string()),
            },
            events: Vec::new(),
            context: ContextDoc {
                coordination: JsonMap::new(),
                tasks: Vec::new(),
                meta: JsonMap::new(),
            },
            working: None,
            next: 0,
        }
    }

    fn fresh(&mut self) -> String {
        self.next += 1;
        format!("{:032x}", self.next)
    }

    fn append(&mut self, kind: &str, by: &str, ts: String, data: JsonMap) -> Event {
        let event = Event {
            id: self.fresh(),
            ts,
            kind: kind.to_string(),
            group_id: self.group.group_id.clone(),
            by: by.to_string(),
            data,
        };
        self.events.push(event.copy());
        event
    }

    /// The events that are addressed to an actor.
    fn addressed(&self, actor_id: &str) -> Vec<String> {
        self.events
            .iter()
            .filter(|event| {
                event.kind == "chat.message"
                    && event.data.strings("to").iter().any(|to| to == actor_id)
            })
            .map(|event| event.id.clone())
            .collect()
    }

    /// The addressed messages whose delivery was not accepted.
    fn pending_sources(&self, actor_id: &str) -> Vec<String> {
        self.addressed(actor_id)
            .into_iter()
            .filter(|id| latest_delivery_state(&self.events, actor_id, id) != "accepted")
            .collect()
    }

    fn state_of(&self, event_id: &str) -> String {
        latest_delivery_state(&self.events, "web-lead", event_id)
    }

    /// Task operations, which the context leaves to the owner of the tasks.
    fn task_operation(&mut self, document: &mut ContextDoc, operation: &JsonMap) {
        if operation.is("op", "task.create") {
            let mut task = operation.copy();
            let id = format!("T{}", document.tasks.len() + 1);
            task.put("id", text(&id));
            task.drop_key("op");
            document.tasks.push(task);
        } else {
            let id = operation.text_or_empty("task_id");
            for task in document.tasks.iter_mut() {
                if task.is("id", &id) {
                    for key in ["status", "waiting_on", "handoff_to", "notes"] {
                        if let Some(value) = operation.get(key) {
                            task.put(key, value.copy());
                        }
                    }
                }
            }
        }
    }

    fn preview(&mut self, operations: &Vec<JsonMap>, by: &str) -> Result<ContextDoc, OpError> {
        let mut document = copy_context(&self.context);
        let now = stamp(NOW);
        let mut from = 0;
        loop {
            match apply_all(&mut document, operations, from, by, &now) {
                Progress::Done(_) => return Ok(document),
                Progress::Elsewhere(at) => {
                    let operation = operations[at].copy();
                    self.task_operation(&mut document, &operation);
                    from = at + 1;
                }
                Progress::Refused(failure) => {
                    return Err(cccc_relay::relay::decide::context_sync_error(&failure));
                }
            }
        }
    }

    fn sync(&mut self, operations: Vec<JsonMap>, by: &str) {
        let document = ok(self.preview(&operations, by));
        self.context = document;
        self.append("context.sync", by, stamp(NOW), JsonMap::new());
    }

    fn task(&mut self, title: &str, assignee: &str) -> String {
        self.sync(
            vec![object(vec![
                ("op", text("task.create")),
                ("title", text(title)),
                ("outcome", text(&format!("Finish {title}"))),
                ("status", text("active")),
                ("assignee", text(assignee)),
                ("waiting_on", text("actor")),
            ])],
            "web-lead",
        );
        self.context.tasks[self.context.tasks.len() - 1].text_or_empty("id")
    }

    fn finish(&mut self, task_id: &str, by: &str) {
        self.sync(
            vec![object(vec![
                ("op", text("task.move")),
                ("task_id", text(task_id)),
                ("status", text("done")),
            ])],
            by,
        );
    }

    fn report(&mut self, actor_id: &str, body: &str, task_id: Option<&str>) -> Event {
        let refs = match task_id {
            Some(id) => vec![Json::Obj(object(vec![
                ("kind", text("task_ref")),
                ("task_id", text(id)),
                ("title", text("Source task")),
                ("status", text("active")),
                ("waiting_on", text("actor")),
            ]))],
            None => Vec::new(),
        };
        self.append(
            "chat.message",
            actor_id,
            stamp(NOW),
            object(vec![
                ("to", list(&["web-lead"])),
                ("message_mode", text("mail")),
                ("text", text(body)),
                ("refs", Json::Arr(refs)),
            ]),
        )
    }

    fn record(&mut self, turn: &Turn, reports: &Vec<Event>) -> Result<Event, OpError> {
        let plan = record_handoff(turn, reports, &self.events, &self.context, &stamp(NOW))?;
        if let Some(event) = plan.append {
            self.events.push(event);
        }
        if let Some(note) = plan.note {
            let by = plan.handoff.by.clone();
            self.sync(vec![note], &by);
        }
        Ok(plan.handoff)
    }

    fn handoff_of(&mut self, reports: &Vec<Event>, turn_id: &str) -> Event {
        let turn = Turn {
            group_id: self.group.group_id.clone(),
            source_actor_id: reports[0].by.clone(),
            target_actor_id: "web-lead".to_string(),
            turn_id: turn_id.to_string(),
            status: "completed".to_string(),
        };
        ok(self.record(&turn, reports))
    }

    fn handoff(&mut self, report: &Event, turn_id: &str) -> Event {
        self.handoff_of(&vec![report.copy()], turn_id)
    }

    fn deliver(&mut self, event_id: &str, state: &str, transport: &str, seconds_ago: i64) {
        let data = object(vec![
            ("actor_id", text("web-lead")),
            ("source_event_id", text(event_id)),
            ("state", text(state)),
            ("transport", text(transport)),
        ]);
        self.append("runtime.delivery", "system", stamp(NOW - seconds_ago), data);
    }

    fn claim_for_web(&mut self, event: &Event) {
        self.deliver(&event.id, "claimed", "web_model_browser", 0);
    }

    fn wait_next_turn(&mut self) {
        let ids = self.pending_sources("web-lead");
        self.working = Some(("turn-web".to_string(), ids));
    }

    fn actor_state(&self) -> Json {
        Json::Obj(match &self.working {
            Some((turn, ids)) => object(vec![
                ("status", text("working")),
                ("active_turn_id", text(turn)),
                (
                    "active_event_ids",
                    Json::Arr(ids.iter().map(|id| text(id)).collect()),
                ),
            ]),
            None => object(vec![("status", text("waiting"))]),
        })
    }

    fn accept(
        &mut self,
        actor_id: &str,
        source_ids: &Vec<String>,
        handoff_ids: &Vec<String>,
        decision: &str,
    ) -> Result<(), OpError> {
        let plan =
            accept_handled_sources(&self.group, &self.events, actor_id, source_ids, handoff_ids)?;
        for id in &plan.accept {
            self.deliver(id, "accepted", "coordination_decision", 0);
        }
        let state = self.actor_state();
        let group_id = self.group.group_id.clone();
        if let Some(request) =
            release_active_turn_if_handled(&state, &group_id, actor_id, &plan.handled, decision)
        {
            assert_eq!(request.op, "runtime_complete_turn");
            assert_eq!(
                request.args.text_or_empty("delivery_id"),
                format!("coordination:{decision}")
            );
            self.working = None;
        }
        Ok(())
    }

    fn answer(&self, event: &Event, replayed: bool) -> JsonMap {
        let current = current_group_state(&self.context, &self.group, &self.events);
        decision_result(event, &current, replayed)
    }

    /// The id under which the next task of a decision is created.
    fn tracked_client_id(&self, actor_id: &str, decision: &str) -> String {
        format!("tracked-send:{}:{actor_id}:{decision}", self.group.group_id)
    }

    fn tracked_send(&mut self, request: &DaemonRequest) -> JsonMap {
        let by = request.args.text_or_empty("by");
        let client_id = self.tracked_client_id(&by, &request.args.text_or_empty("idempotency_key"));
        let task_id = match self
            .context
            .tasks
            .iter()
            .find(|task| task.is("client_request_id", &client_id))
        {
            Some(task) => task.text_or_empty("id"),
            None => {
                let mut operation = object(vec![
                    ("op", text("task.create")),
                    ("client_request_id", text(&client_id)),
                ]);
                for key in ["title", "outcome", "status", "assignee", "waiting_on"] {
                    operation.put(key, entry(&request.args, key));
                }
                self.sync(vec![operation], &by);
                self.context.tasks[self.context.tasks.len() - 1].text_or_empty("id")
            }
        };
        let event_id = match self
            .events
            .iter()
            .find(|event| event.data.is("client_id", &client_id))
        {
            Some(event) => event.id.clone(),
            None => {
                let data = object(vec![
                    ("to", entry(&request.args, "to")),
                    ("text", entry(&request.args, "text")),
                    ("refs", entry(&request.args, "refs")),
                    ("client_id", text(&client_id)),
                ]);
                self.append("chat.message", &by, stamp(NOW), data).id
            }
        };
        object(vec![
            ("message_sent", Json::Bool(true)),
            ("task_id", text(&task_id)),
            ("event_id", text(&event_id)),
        ])
    }

    fn send(&mut self, request: &DaemonRequest) -> Event {
        assert_eq!(request.op, "send");
        let mut data = request.args.copy();
        let by = data.text_or_empty("by");
        data.drop_key("group_id");
        data.drop_key("by");
        self.append("chat.message", &by, stamp(NOW), data)
    }

    fn decide_request(&mut self, request: &DaemonRequest) -> Result<JsonMap, OpError> {
        required_arg(request, "group_id")?;
        let caller = string_arg(request, "by").unwrap_or_default();
        let caller = caller.trim().to_string();
        let addressed = self.addressed(&caller);
        let mut step = decide(request, &self.group, &self.events, &addressed);
        loop {
            step = match step {
                DecideStep::Refused(error) => return Err(error),
                DecideStep::Record(intent, ids, reports, refusal) => {
                    for report in &reports {
                        let turn = implicit_turn_of(&self.group.group_id, report, &intent.by);
                        self.record(&turn, &vec![report.copy()])?;
                    }
                    if let Some(error) = refusal {
                        return Err(error);
                    }
                    let addressed = self.addressed(&intent.by);
                    after_recording(&self.group, &self.events, &addressed, intent, &ids)
                }
                DecideStep::Replay(event) => {
                    let by = decision_actor(&event);
                    let sources = event_string_list(&event, "source_event_ids");
                    let handoffs = event_string_list(&event, "handoff_ids");
                    let id = event.data.text_or_empty("decision_id");
                    self.accept(&by, &sources, &handoffs, &id)?;
                    return Ok(self.answer(&event, true));
                }
                DecideStep::Context(draft) => {
                    let client_id =
                        self.tracked_client_id(&draft.intent.by, &draft.scope.decision_id);
                    after_context(
                        &self.group,
                        &self.events,
                        &self.context,
                        request,
                        &client_id,
                        draft,
                    )
                }
                DecideStep::Send(draft, tasks, sending) => {
                    let reply = self.tracked_send(&sending);
                    after_send(draft, tasks, Ok(reply))
                }
                DecideStep::Reread(draft, tasks, next_task, message) => {
                    after_reread(&self.context, draft, &tasks, &next_task, &message, &stamp(NOW))
                }
                DecideStep::Preview(draft, facts, operations) => {
                    let preview = self.preview(&operations, &draft.intent.by)?;
                    after_preview(
                        &self.group,
                        &self.events,
                        &preview,
                        &draft,
                        &facts,
                        operations,
                        &stamp(NOW),
                    )
                }
                DecideStep::Commit(verdict) => {
                    let by = verdict.event.by.clone();
                    self.sync(verdict.operations, &by);
                    self.events.push(verdict.event.copy());
                    let sources = event_string_list(&verdict.event, "source_event_ids");
                    let handoffs = event_string_list(&verdict.event, "handoff_ids");
                    let id = verdict.event.data.text_or_empty("decision_id");
                    self.accept(&by, &sources, &handoffs, &id)?;
                    return Ok(self.answer(&verdict.event, false));
                }
            }
        }
    }

    fn decide(&mut self, mut args: JsonMap) -> Result<JsonMap, OpError> {
        args.put("group_id", text(&self.group.group_id));
        args.put("by", text("web-lead"));
        let request = DaemonRequest { v: 1, op: "coordination_decide".to_string(), args };
        assert_eq!(handle(&request), Some(RelayOperation::Decide));
        with_relay_lock(Ok(()), || self.decide_request(&request))
    }

    fn reconcile(&mut self) -> Result<(), OpError> {
        for decision in reconcile_recorded_decisions(&self.group, &self.events) {
            let by = decision_actor(&decision);
            let sources = event_string_list(&decision, "source_event_ids");
            let handoffs = event_string_list(&decision, "handoff_ids");
            let id = decision.data.text_or_empty("decision_id");
            self.accept(&by, &sources, &handoffs, &id)?;
        }
        for handoff in reconcile_escalated_handoffs(&self.events) {
            let id = handoff.data.text_or_empty("handoff_id");
            let escalation = match escalation_event_for_handoff(&self.events, &id) {
                Some(event) => event.id.clone(),
                None => continue,
            };
            self.note_waiting(&handoff, &escalation);
        }
        Ok(())
    }

    fn note_waiting(&mut self, handoff: &Event, escalation: &str) {
        let due =
            ensure_handoff_note(&self.context, handoff, "waiting_user", None, Some(escalation));
        if let Some(note) = due {
            self.sync(vec![note], &handoff.by);
        }
    }

    fn status(&mut self) -> JsonMap {
        let request = DaemonRequest {
            v: 1,
            op: "coordination_relay_status".to_string(),
            args: object(vec![
                ("group_id", text(&self.group.group_id)),
                ("actor_id", text("web-lead")),
                ("by", text("web-lead")),
            ]),
        };
        assert_eq!(handle(&request), Some(RelayOperation::Status));
        ok(require_actor(&self.group, "web-lead"));
        ok(self.reconcile());
        status(&self.group, &self.context, &self.events, "web-lead")
    }

    fn remind(&mut self, browser_idle: bool) -> JsonMap {
        let request = DaemonRequest {
            v: 1,
            op: "coordination_relay_remind".to_string(),
            args: object(vec![
                ("group_id", text(&self.group.group_id)),
                ("actor_id", text("web-lead")),
                ("by", text("web-lead")),
                ("browser_idle", Json::Bool(browser_idle)),
            ]),
        };
        assert_eq!(handle(&request), Some(RelayOperation::Remind));
        let idle = bool_arg(&request, "browser_idle", false);
        let now = Instant { secs: NOW, nanos: 0 };
        if let RemindStep::Inactive =
            ok(remind_due(&self.group, &self.events, "web-lead", idle, now))
        {
            return inactive_answer();
        }
        ok(self.reconcile());
        match ok(remind_due(&self.group, &self.events, "web-lead", idle, now)) {
            RemindStep::Inactive => inactive_answer(),
            RemindStep::Send(reminder, escalation) => {
                let reminder = reminder.map(|request| event_json(&self.send(&request)));
                let escalation = escalation.map(|(request, handoffs)| {
                    let event = self.send(&request);
                    for handoff in &handoffs {
                        self.note_waiting(handoff, &event.id);
                    }
                    event_json(&event)
                });
                reminder_answer(reminder, escalation)
            }
        }
    }

    fn current(&self) -> Json {
        current_group_state(&self.context, &self.group, &self.events)
    }

    fn task_entry(&self, task_id: &str, key: &str) -> Json {
        match self.context.tasks.iter().find(|task| task.is("id", task_id)) {
            Some(task) => entry(task, key),
            None => panic!("no task {task_id}"),
        }
    }

    fn task_is(&self, task_id: &str, key: &str, expected: &str) -> bool {
        is_text(&self.task_entry(task_id, key), expected)
    }

    fn note(&self, handoff: &Event) -> JsonMap {
        let id = handoff.data.text_or_empty("handoff_id");
        let notes = self.notes();
        match notes.iter().find(|note| note.is("id", &id)) {
            Some(note) => note.copy(),
            None => panic!("no note {id}"),
        }
    }

    fn notes(&self) -> Vec<JsonMap> {
        match self.context.coordination.list("recent_handoffs") {
            Some(notes) => notes
                .iter()
                .map(|note| match note.as_object() {
                    Some(map) => map.copy(),
                    None => panic!("a note is an object"),
                })
                .collect(),
            None => Vec::new(),
        }
    }

    fn count(&self, kind: &str) -> usize {
        self.events.iter().filter(|event| event.kind == kind).count()
    }

    fn notices(&self, kind: &str) -> usize {
        self.events.iter().filter(|event| event.data.is("relay_kind", kind)).count()
    }

    fn messages(&self, to: &str) -> Vec<Event> {
        self.events
            .iter()
            .filter(|event| {
                event.kind == "chat.message"
                    && event.by == "web-lead"
                    && entry(&event.data, "to").same(&list(&[to]))
            })
            .map(|event| event.copy())
            .collect()
    }

    fn accepted(&self, event_id: &str) -> usize {
        self.events
            .iter()
            .filter(|event| {
                event.kind == "runtime.delivery"
                    && event.data.is("source_event_id", event_id)
                    && event.data.is("state", "accepted")
            })
            .count()
    }
}

fn wait_user(ids: &[&str]) -> JsonMap {
    object(vec![("event_ids", list(ids)), ("decision", text("wait_user"))])
}

fn wait_user_saying(ids: &[&str], summary: &str) -> JsonMap {
    object(vec![
        ("event_ids", list(ids)),
        ("decision", text("wait_user")),
        ("summary", text(summary)),
    ])
}

#[test]
fn continue_creates_real_work_resolves_the_report_and_replays_without_duplicates() {
    let mut fixture = Fixture::new("relay continue");
    let source_task = fixture.task("Implement relay", "worker-a");
    let report = fixture.report(
        "worker-a",
        "Implemented the relay and verified the focused tests. Review the diff before merging.",
        Some(&source_task),
    );
    fixture.handoff(&report, "turn-continue");
    fixture.claim_for_web(&report);
    assert_eq!(fixture.pending_sources("web-lead").len(), 1);

    let request = object(vec![
        ("event_ids", list(&[&report.id])),
        ("decision", text("continue")),
        ("next_actor_id", text("worker-b")),
        ("next_title", text("Run the complete regression")),
        (
            "next_text",
            text("Run all affected Rust tests and report any regression with exact evidence."),
        ),
        ("outcome", text("All affected tests pass with recorded evidence")),
    ]);
    let first = ok(fixture.decide(request.copy()));
    let relay = entry(&first, "relay");
    assert!(relay.is("decision", "continue"));
    assert!(is_flag(&first, "caller_may_idle", true));
    assert!(relay.at("safe_to_idle").same(&Json::Bool(false)));
    assert!(is_flag(&first, "safe_to_idle", false));
    assert!(entry(&first, "current_responsibility").is("kind", "actor_work"));
    let next_task = relay.text_or_empty("next_task_id");

    assert!(fixture.task_is(&source_task, "status", "done"));
    assert!(fixture.task_is(&next_task, "status", "active"));
    assert!(fixture.task_is(&next_task, "assignee", "worker-b"));
    assert!(fixture.task_is(&next_task, "waiting_on", "actor"));
    assert_eq!(fixture.count(DECISION_KIND), 1);
    let delegated = fixture.messages("worker-b");
    assert_eq!(delegated.len(), 1, "continue must have one visible task message");
    assert!(delegated[0].data.is(
        "text",
        "Run all affected Rust tests and report any regression with exact evidence."
    ));
    assert!(!delegated[0].data.text_or_empty("text").contains("Previous handoff reviewed"));
    assert_eq!(fixture.state_of(&report.id), "accepted");
    assert!(
        fixture.pending_sources("web-lead").is_empty(),
        "handled report was still eligible for browser wake"
    );

    let replay = ok(fixture.decide(request));
    assert!(is_flag(&replay, "replayed", true));
    assert_eq!(fixture.context.tasks.len(), 2, "replay created another next task");
    assert_eq!(fixture.count(DECISION_KIND), 1);
    assert_eq!(
        fixture.messages("worker-b").len(),
        1,
        "replay duplicated the visible task message"
    );

    let conflict = refused(fixture.decide(wait_user(&[&report.id])));
    assert_eq!(conflict.code, "relay_decision_conflict");
}

#[test]
fn wait_user_records_machine_state_without_duplicating_the_original_output() {
    let mut fixture = Fixture::new("relay wait user");
    let source_task = fixture.task("Inspect interaction", "worker-a");
    let report = fixture.report(
        "worker-a",
        "The implementation is ready, but the user must choose between the two interaction variants.",
        Some(&source_task),
    );
    fixture.handoff(&report, "turn-wait-user");
    let result = ok(fixture.decide(wait_user(&[&report.id])));
    let relay = entry(&result, "relay");
    assert!(relay.is("decision", "wait_user"));
    assert!(relay.is("summary", "Waiting for user"));
    assert!(relay.at("responsibility").is("kind", "user"));
    assert!(is_flag(&result, "safe_to_idle", true));

    assert!(fixture.task_is(&source_task, "status", "active"));
    assert!(fixture.task_is(&source_task, "waiting_on", "user"));
    assert_eq!(
        fixture.count("chat.message"),
        1,
        "decide duplicated the original visible report"
    );
    assert_eq!(fixture.messages("user").len(), 0);
}

#[test]
fn task_updates_are_limited_to_the_handoff_source_and_unique_unreferenced_work_is_inferred() {
    let mut fixture = Fixture::new("relay task ownership");
    let source_task = fixture.task("Unreferenced source task", "worker-a");
    let unrelated_task = fixture.task("Unrelated task", "worker-b");
    let report = fixture.report("worker-a", "Source task finished.", None);
    fixture.handoff(&report, "turn-owned-task");

    let mut request =
        wait_user_saying(&[&report.id], "Do not mutate this unrelated task.");
    request.put("task_id", text(&unrelated_task));
    let error = refused(fixture.decide(request));
    assert_eq!(error.code, "relay_task_not_owned");
    assert!(fixture.task_is(&unrelated_task, "status", "active"));

    let complete = object(vec![
        ("event_ids", list(&[&report.id])),
        ("decision", text("complete")),
        ("summary", text("The one source-owned task is complete.")),
    ]);
    let result = refused(fixture.decide(complete.copy()));
    assert_eq!(result.code, "relay_work_remains");
    assert!(fixture.task_is(&source_task, "status", "active"));

    fixture.finish(&unrelated_task, "worker-b");
    let result = ok(fixture.decide(complete));
    assert!(entry(&result, "relay").at("task_ids").same(&list(&[&source_task])));
    assert!(fixture.task_is(&source_task, "status", "done"));
}

#[test]
fn replay_recomputes_group_safety_after_new_work_appears() {
    let mut fixture = Fixture::new("replay current safety");
    let report = fixture.report("worker-a", "Please ask the user.", None);
    fixture.handoff(&report, "turn-replay-safety");
    let request = wait_user_saying(&[&report.id], "Please confirm the next direction.");
    let first = ok(fixture.decide(request.copy()));
    assert!(is_flag(&first, "safe_to_idle", true));
    fixture.task("New actor-owned work", "worker-b");
    let replay = ok(fixture.decide(request));
    assert!(is_flag(&replay, "replayed", true));
    assert!(
        entry(&replay, "relay").is_true("safe_to_idle"),
        "historical fact changed"
    );
    assert!(
        is_flag(&replay, "safe_to_idle", false),
        "current responsibility stayed stale"
    );
    assert!(entry(&replay, "current_responsibility").is("kind", "actor_work"));
}

#[test]
fn complete_refuses_to_hide_other_live_work_then_succeeds_after_it_is_done() {
    let mut fixture = Fixture::new("relay complete");
    let source_task = fixture.task("Primary task", "worker-a");
    let other_task = fixture.task("Still unfinished", "worker-b");
    let report = fixture.report(
        "worker-a",
        "Primary task is complete and tested.",
        Some(&source_task),
    );
    fixture.handoff(&report, "turn-complete");

    let request = object(vec![
        ("event_ids", list(&[&report.id])),
        ("decision", text("complete")),
        ("summary", text("The requested work is complete and verified.")),
    ]);
    let blocked = refused(fixture.decide(request.copy()));
    assert_eq!(blocked.code, "relay_work_remains");
    assert!(fixture.task_is(&source_task, "status", "active"));
    assert!(fixture.task_is(&other_task, "status", "active"));
    assert_eq!(fixture.count(DECISION_KIND), 0);
    assert!(
        !fixture.events.iter().any(|event| {
            event.kind == "chat.message"
                && event.by == "web-lead"
                && event.data.is("text", "The requested work is complete and verified.")
        }),
        "rejected complete was shown to the user"
    );

    fixture.finish(&other_task, "worker-b");
    let completed = ok(fixture.decide(request));
    assert!(entry(&completed, "relay").is("decision", "complete"));
    assert!(entry(&completed, "relay").is_true("safe_to_idle"));
    assert!(fixture.task_is(&source_task, "status", "done"));
}

#[test]
fn relay_status_reports_current_group_responsibility_not_only_pending_handoffs() {
    let mut fixture = Fixture::new("current responsibility");
    let task_id = fixture.task("Actor still owns work", "worker-a");
    let active = fixture.status();
    assert!(entry(&active, "count").same(&Json::Int(0)));
    assert!(is_flag(&active, "safe_to_idle", false));
    let responsibility = entry(&active, "responsibility");
    assert!(responsibility.is("kind", "actor_work"));
    match responsibility.list("tasks") {
        Some(tasks) => assert!(tasks[0].is("task_id", &task_id)),
        None => panic!("no tasks"),
    }

    fixture.group.state = GroupState::Paused;
    let paused = fixture.status();
    assert!(is_flag(&paused, "safe_to_idle", true));
    assert!(entry(&paused, "responsibility").is("kind", "user_pause"));
}

#[test]
fn user_pause_blocks_continue_and_automatic_reminders_without_losing_the_handoff() {
    let mut fixture = Fixture::new("paused relay");
    let report = fixture.report("worker-a", "Ready for the next task.", None);
    fixture.handoff(&report, "turn-paused");
    fixture.group.state = GroupState::Paused;
    let error = refused(fixture.decide(object(vec![
        ("event_ids", list(&[&report.id])),
        ("decision", text("continue")),
        ("summary", text("Continue")),
        ("next_actor_id", text("worker-b")),
        ("next_title", text("Next")),
        ("next_text", text("Do the next step")),
    ])));
    assert_eq!(error.code, "relay_group_paused");
    assert_eq!(fixture.context.tasks.len(), 0);
    assert_eq!(fixture.count(DECISION_KIND), 0);

    fixture.deliver(&report.id, "accepted", "web_model_browser", 30);
    let reminder = fixture.remind(false);
    assert!(is_flag(&reminder, "reminded", false));
    assert!(reminder.is("reason", "actor_inactive"));
    let state = fixture.status();
    assert!(
        entry(&state, "count").same(&Json::Int(1)),
        "pause discarded the handoff"
    );
}

#[test]
fn blocked_requires_a_reason_and_waiting_state_remains_visible() {
    let mut fixture = Fixture::new("relay blocked");
    let source_task = fixture.task("External integration", "worker-a");
    let report = fixture.report(
        "worker-a",
        "The provider endpoint rejects the required request.",
        Some(&source_task),
    );
    fixture.handoff(&report, "turn-blocked");
    let mut request = object(vec![
        ("event_ids", list(&[&report.id])),
        ("decision", text("blocked")),
        ("summary", text("The external provider is blocking progress.")),
    ]);
    let missing = refused(fixture.decide(request.copy()));
    assert_eq!(missing.code, "relay_reason_required");

    request.put("reason", text("The provider returns HTTP 503 for the required endpoint."));
    let result = ok(fixture.decide(request));
    let relay = entry(&result, "relay");
    assert!(relay.is_true("safe_to_idle"));
    assert!(relay.at("responsibility").is("kind", "external"));
    assert!(fixture.task_is(&source_task, "waiting_on", "external"));
    assert!(fixture.task_is(
        &source_task,
        "notes",
        "The provider returns HTTP 503 for the required endpoint."
    ));
}

#[test]
fn reading_mail_is_not_acknowledgement_but_deciding_cancels_later_browser_wake() {
    let mut fixture = Fixture::new("read then decide");
    let task_id = fixture.task("Review report", "worker-a");
    let report = fixture.report(
        "worker-a",
        "Read this report through CCCC while the web model is still answering.",
        Some(&task_id),
    );
    fixture.handoff(&report, "turn-read");
    fixture.claim_for_web(&report);
    fixture.wait_next_turn();
    assert!(fixture.actor_state().is("status", "working"));

    let data = object(vec![("actor_id", text("web-lead")), ("event_id", text(&report.id))]);
    fixture.append("mail.read", "web-lead", stamp(NOW), data);
    assert_eq!(
        fixture.pending_sources("web-lead"),
        vec![report.id.clone()],
        "read was incorrectly treated as acknowledgement"
    );

    ok(fixture.decide(wait_user_saying(
        &[&report.id],
        "I reviewed the report inside the current turn. Please confirm the release window.",
    )));
    assert!(
        fixture.pending_sources("web-lead").is_empty(),
        "explicit handling did not suppress the later browser wake"
    );
    assert!(
        fixture.actor_state().is("status", "waiting"),
        "the claimed browser turn remained stuck after in-turn handling"
    );
}

#[test]
fn status_reconciles_a_durable_decision_whose_transport_acceptance_was_interrupted() {
    let mut fixture = Fixture::new("decision acceptance recovery");
    let report = fixture.report("worker-a", "Reviewed output.", None);
    let handoff = fixture.handoff(&report, "turn-recovery");
    fixture.claim_for_web(&report);
    let decision_id = "decision-recovery";
    let decision = Event {
        id: stable_event_id(decision_id),
        ts: stamp(NOW),
        kind: DECISION_KIND.to_string(),
        group_id: fixture.group.group_id.clone(),
        by: "web-lead".to_string(),
        data: object(vec![
            ("decision_id", text(decision_id)),
            ("by", text("web-lead")),
            ("decision", text("wait_user")),
            ("summary", text("Wait for the user's approval.")),
            ("source_event_ids", list(&[&report.id])),
            ("handoff_ids", Json::Arr(vec![entry(&handoff.data, "handoff_id")])),
            ("status", text("applied")),
            ("caller_may_idle", Json::Bool(true)),
            ("safe_to_idle", Json::Bool(true)),
        ]),
    };
    fixture.events.push(decision);
    assert_eq!(fixture.state_of(&report.id), "claimed");
    let result = fixture.status();
    assert!(entry(&result, "count").same(&Json::Int(0)));
    assert_eq!(fixture.state_of(&report.id), "accepted");
}

#[test]
fn delivered_unresolved_handoff_gets_one_reminder_and_decision_resolves_it_too() {
    let mut fixture = Fixture::new("relay reminder");
    let task_id = fixture.task("Review result", "worker-a");
    let report = fixture.report(
        "worker-a",
        "The result reached the web conversation but no decision was recorded.",
        Some(&task_id),
    );
    let handoff = fixture.handoff(&report, "turn-reminder");
    fixture.deliver(&report.id, "accepted", "web_model_browser", 30);

    let first = fixture.remind(false);
    assert!(is_flag(&first, "reminded", true));
    let reminder = entry(&first, "reminder_event");
    let reminder_id = reminder.text_or_empty("id");
    assert!(reminder.at("data").text_or_empty("text").contains("call cccc_coordination"));
    let second = fixture.remind(false);
    assert!(is_flag(&second, "reminded", false));
    assert_eq!(fixture.notices("decision_reminder"), 1);

    ok(fixture.decide(wait_user_saying(&[&reminder_id], "Please approve the final rollout.")));
    assert_eq!(fixture.state_of(&reminder_id), "accepted");
    assert!(fixture.note(&handoff).is("status", "resolved"));
}

#[test]
fn repeated_completion_after_a_decision_never_reopens_the_resolved_handoff() {
    let mut fixture = Fixture::new("resolved handoff replay");
    let report = fixture.report("worker-a", "Final human-readable result.", None);
    fixture.handoff(&report, "turn-resolved-replay");
    ok(fixture.decide(wait_user_saying(&[&report.id], "Please approve the verified result.")));
    let before = copy_context(&fixture.context);
    fixture.handoff(&report, "turn-resolved-replay");
    assert!(
        same_context(&before, &fixture.context),
        "duplicate completion rewrote context"
    );
    let notes = fixture.notes();
    assert_eq!(notes.len(), 1);
    assert!(notes[0].is("status", "resolved"));
    assert!(!notes[0].text_or_empty("decision_id").is_empty());
}

#[test]
fn one_visible_output_resolves_every_message_in_the_same_member_handoff() {
    let mut fixture = Fixture::new("multi-output decision");
    let first = fixture.report("worker-a", "First human-readable result.", None);
    let second = fixture.report("worker-a", "Second human-readable result.", None);
    fixture.handoff_of(&vec![first.copy(), second.copy()], "turn-multi-output");
    fixture.claim_for_web(&first);
    fixture.claim_for_web(&second);

    let result = ok(fixture.decide(object(vec![
        ("event_id", text(&first.id)),
        ("decision", text("wait_user")),
        (
            "summary",
            text("Both visible outputs were reviewed. Please choose the next direction."),
        ),
    ])));
    let mut expected_ids = vec![first.id.as_str(), second.id.as_str()];
    expected_ids.sort();
    assert!(entry(&result, "relay").at("source_event_ids").same(&list(&expected_ids)));
    for event_id in [&first.id, &second.id] {
        assert_eq!(fixture.state_of(event_id), "accepted");
    }
}

#[test]
fn legacy_member_report_can_be_decided_without_a_preexisting_machine_handoff() {
    let mut fixture = Fixture::new("implicit handoff");
    let report = fixture.report("worker-a", "Legacy human-readable report.", None);
    let result = ok(fixture.decide(wait_user_saying(
        &[&report.id],
        "Please confirm the next requirement.",
    )));
    assert!(entry(&result, "relay").is("decision", "wait_user"));
    assert_eq!(fixture.count(HANDOFF_KIND), 1);
    assert_eq!(fixture.count(DECISION_KIND), 1);
}

#[test]
fn only_the_foreman_may_decide_and_continue_requires_concrete_work() {
    let mut fixture = Fixture::new("relay permissions");
    let report = fixture.report("worker-a", "Ready for review.", None);
    fixture.handoff(&report, "turn-permission");
    let mut args = wait_user_saying(&[&report.id], "Need user input");
    args.put("group_id", text(&fixture.group.group_id));
    args.put("by", text("worker-a"));
    let request = DaemonRequest { v: 1, op: "coordination_decide".to_string(), args };
    let forbidden = refused(fixture.decide_request(&request));
    assert_eq!(forbidden.code, "relay_decision_forbidden");

    let incomplete = refused(fixture.decide(object(vec![
        ("event_ids", list(&[&report.id])),
        ("decision", text("continue")),
        ("summary", text("Continue the work")),
    ])));
    assert_eq!(incomplete.code, "invalid_args");
    assert_eq!(fixture.count(DECISION_KIND), 0);
}

#[test]
fn decide_reuses_the_original_output_and_ignores_legacy_summary_wording() {
    let mut fixture = Fixture::new("relay original output");
    let report = fixture.report("worker-a", "A visible report already exists.", None);
    fixture.handoff(&report, "turn-original-output");
    let first = ok(fixture.decide(wait_user(&[&report.id])));
    assert!(entry(&first, "relay").is("summary", "Waiting for user"));
    let replay = ok(fixture.decide(wait_user_saying(
        &[&report.id],
        "Legacy callers may still send wording, but it is not a second output.",
    )));
    assert!(is_flag(&replay, "replayed", true));
    assert_eq!(fixture.count("chat.message"), 1);
}

/// Sends the next work of a continue decision, as if the decision broke off right after it.
fn broken_off(fixture: &mut Fixture, report: &Event, handoff: &Event, next_text: &str) -> JsonMap {
    let sources = vec![report.id.clone()];
    let id = decision_id(&fixture.group.group_id, "web-lead", &sources);
    let request = DaemonRequest {
        v: 1,
        op: "coordination_decide".to_string(),
        args: object(vec![
            ("decision", text("continue")),
            ("summary", text("Run the final verification.")),
            ("next_actor_id", text("worker-b")),
            ("next_title", text("Final verification")),
            ("next_text", text(next_text)),
        ]),
    };
    let fingerprint = decision_fingerprint(
        "continue",
        "",
        "worker-b",
        "Final verification",
        next_text,
        &request,
    );
    let intent = Intent {
        by: "web-lead".to_string(),
        decision: "continue".to_string(),
        reason: String::new(),
        next_actor_id: "worker-b".to_string(),
        next_title: "Final verification".to_string(),
        next_text: next_text.to_string(),
        fingerprint,
        requested: sources.clone(),
    };
    let scope = Scope {
        source_event_ids: sources,
        sources: vec![report.copy()],
        handoffs: vec![handoff.copy()],
        handoff_ids: vec![handoff.data.text_or_empty("handoff_id")],
        decision_id: id.clone(),
        event_id: stable_event_id(&id),
    };
    let sending = tracked_continue(&fixture.group.group_id, &request, &scope, &intent);
    assert_eq!(sending.op, "tracked_send");
    fixture.tracked_send(&sending)
}

#[test]
fn a_partially_dispatched_continue_cannot_be_changed_to_wait_user() {
    let mut fixture = Fixture::new("continue decision intent");
    let report = fixture.report(
        "worker-a",
        "The implementation needs one more verification pass.",
        None,
    );
    let handoff = fixture.handoff(&report, "turn-continue-partial");
    let sent = broken_off(
        &mut fixture,
        &report,
        &handoff,
        "Run the full affected regression and report exact evidence.",
    );
    assert!(is_flag(&sent, "message_sent", true));

    let conflict =
        refused(fixture.decide(wait_user_saying(&[&report.id], "Ask the user instead.")));
    assert_eq!(conflict.code, "relay_decision_conflict");
    assert_eq!(fixture.count(DECISION_KIND), 0);
    assert_eq!(fixture.messages("worker-b").len(), 1);
}

#[test]
fn an_applied_decision_replay_rejects_changed_machine_intent() {
    let mut fixture = Fixture::new("exact replay intent");
    let report = fixture.report("worker-a", "The provider is unavailable.", None);
    fixture.handoff(&report, "turn-exact-replay");
    let blocked = |reason: &str| {
        object(vec![
            ("event_ids", list(&[&report.id])),
            ("decision", text("blocked")),
            ("reason", text(reason)),
        ])
    };
    ok(fixture.decide(blocked("The provider returns HTTP 503.")));
    let conflict = refused(fixture.decide(blocked("The credential is invalid.")));
    assert_eq!(conflict.code, "relay_decision_conflict");
    assert_eq!(fixture.count(DECISION_KIND), 1);
}

#[test]
fn the_same_partially_dispatched_continue_recovers_without_duplicate_work() {
    let mut fixture = Fixture::new("continue decision recovery");
    let report = fixture.report(
        "worker-a",
        "The implementation needs one final verification.",
        None,
    );
    let handoff = fixture.handoff(&report, "turn-continue-recovery");
    broken_off(
        &mut fixture,
        &report,
        &handoff,
        "Run the affected regression and report exact evidence.",
    );
    let result = ok(fixture.decide(object(vec![
        ("event_ids", list(&[&report.id])),
        ("decision", text("continue")),
        ("summary", text("Run the final verification.")),
        ("next_actor_id", text("worker-b")),
        ("next_title", text("Final verification")),
        ("next_text", text("Run the affected regression and report exact evidence.")),
    ])));
    assert!(entry(&result, "relay").is("decision", "continue"));
    let relay_tasks = fixture
        .context
        .tasks
        .iter()
        .filter(|task| task.text_or_empty("client_request_id").contains("tracked-send:"))
        .count();
    assert_eq!(relay_tasks, 1);
    assert_eq!(fixture.messages("worker-b").len(), 1);
}

#[test]
fn a_task_only_partial_continue_blocks_a_different_decision() {
    let mut fixture = Fixture::new("task-only decision intent");
    let report = fixture.report("worker-a", "A follow-up task was prepared.", None);
    fixture.handoff(&report, "turn-task-only");
    let id = decision_id(&fixture.group.group_id, "web-lead", &vec![report.id.clone()]);
    let client_id = fixture.tracked_client_id("web-lead", &id);
    fixture.sync(
        vec![object(vec![
            ("op", text("task.create")),
            ("title", text("Prepared follow-up")),
            ("outcome", text("Finish it")),
            ("status", text("active")),
            ("assignee", text("worker-b")),
            ("waiting_on", text("actor")),
            ("client_request_id", text(&client_id)),
        ])],
        "web-lead",
    );
    let conflict =
        refused(fixture.decide(wait_user_saying(&[&report.id], "Ask the user instead.")));
    assert_eq!(conflict.code, "relay_decision_conflict");
}

#[test]
fn resolving_one_handoff_does_not_tell_the_foreman_to_idle_with_another_pending() {
    let mut fixture = Fixture::new("multiple relay obligations");
    let first = fixture.report("worker-a", "First result needs a decision.", None);
    let second = fixture.report("worker-b", "Second result also needs a decision.", None);
    fixture.handoff(&first, "turn-first-obligation");
    fixture.handoff(&second, "turn-second-obligation");

    let first_result = ok(fixture.decide(wait_user_saying(
        &[&first.id],
        "The first result needs user input.",
    )));
    assert!(is_flag(&first_result, "caller_may_idle", false));
    assert!(is_flag(&first_result, "safe_to_idle", false));
    assert!(entry(&first_result, "current_responsibility").is("kind", "foreman_review"));

    let pending = fixture.status();
    assert!(entry(&pending, "count").same(&Json::Int(1)));
    assert!(is_flag(&pending, "caller_may_idle", false));

    let second_result = ok(fixture.decide(wait_user_saying(
        &[&second.id],
        "The second result also needs user input.",
    )));
    assert!(is_flag(&second_result, "caller_may_idle", true));
    assert!(is_flag(&second_result, "safe_to_idle", true));
}

#[test]
fn unassigned_live_work_remains_the_foremans_triage_responsibility() {
    let mut fixture = Fixture::new("unassigned responsibility");
    fixture.sync(
        vec![object(vec![
            ("op", text("task.create")),
            ("title", text("Unassigned follow-up")),
            ("outcome", text("Find an owner")),
            ("status", text("active")),
            ("waiting_on", text("actor")),
        ])],
        "web-lead",
    );
    let state = fixture.current();
    assert!(state.at("safe_to_idle").same(&Json::Bool(false)));
    assert!(state.at("responsibility").is("kind", "actor_work"));
    match state.at("responsibility").list("tasks") {
        Some(tasks) => assert!(tasks[0].is("actor_id", "web-lead")),
        None => panic!("no tasks"),
    }
    assert!(!actor_may_idle_from_state(&state, "web-lead"));
    assert!(actor_may_idle_from_state(&state, "worker-a"));
}

#[test]
fn repeated_status_reads_do_not_reappend_completed_delivery_facts() {
    let mut fixture = Fixture::new("status reconciliation cost");
    let report = fixture.report("worker-a", "The result needs user approval.", None);
    fixture.handoff(&report, "turn-status-stable");
    fixture.claim_for_web(&report);
    ok(fixture.decide(wait_user_saying(&[&report.id], "Please approve the verified result.")));
    assert_eq!(fixture.accepted(&report.id), 1);
    for _ in 0..20 {
        fixture.status();
    }
    assert_eq!(fixture.accepted(&report.id), 1);
}

#[test]
fn an_in_turn_decision_does_not_reopen_the_same_report_at_member_completion() {
    let mut fixture = Fixture::new("early handled report");
    let report = fixture.report("worker-a", "The result is ready for user review.", None);
    ok(fixture.decide(wait_user_saying(&[&report.id], "Please review the completed result.")));
    fixture.handoff(&report, "real-managed-turn");
    let state = fixture.status();
    assert!(
        entry(&state, "count").same(&Json::Int(0)),
        "late completion reopened handled output"
    );
    assert!(is_flag(&state, "requires_decision", false));
}

#[test]
fn a_new_output_after_an_early_decision_remains_a_separate_review_obligation() {
    let mut fixture = Fixture::new("partial early handling");
    let first = fixture.report("worker-a", "First result was reviewed early.", None);
    ok(fixture.decide(wait_user_saying(&[&first.id], "Please review the first result.")));
    let second = fixture.report(
        "worker-a",
        "A second result arrived before the turn ended.",
        None,
    );
    fixture.handoff_of(&vec![first.copy(), second.copy()], "real-multi-output-turn");
    let pending = fixture.status();
    assert!(entry(&pending, "count").same(&Json::Int(1)));
    match pending.list("pending") {
        Some(items) => {
            assert!(items[0].at("source_event_ids").same(&list(&[&second.id])));
            assert!(items[0]
                .at("all_source_event_ids")
                .same(&list(&[&first.id, &second.id])));
        }
        None => panic!("no pending list"),
    }
    ok(fixture.decide(wait_user_saying(
        &[&second.id],
        "Please also review the second result.",
    )));
    let final_state = fixture.status();
    assert!(entry(&final_state, "count").same(&Json::Int(0)));
}

#[test]
fn an_idle_foreman_that_ignores_one_reminder_escalates_once_to_the_user() {
    let mut fixture = Fixture::new("relay escalation");
    let report = fixture.report(
        "worker-a",
        "The finished work needs a durable next-step decision.",
        None,
    );
    let handoff = fixture.handoff(&report, "turn-escalation");
    fixture.deliver(&report.id, "accepted", "web_model_browser", 90);
    let reminded = fixture.remind(false);
    assert!(is_flag(&reminded, "reminded", true));
    assert!(is_flag(&reminded, "escalated", false));
    let reminder_id = entry(&reminded, "reminder_event").text_or_empty("id");
    fixture.deliver(&reminder_id, "accepted", "web_model_browser", 40);

    let busy = fixture.remind(false);
    assert!(is_flag(&busy, "escalated", false), "a working web page was escalated");
    let escalated = fixture.remind(true);
    assert!(is_flag(&escalated, "reminded", false));
    assert!(is_flag(&escalated, "escalated", true));
    let escalation = entry(&escalated, "escalation_event");
    let escalation_id = escalation.text_or_empty("id");
    assert!(escalation.at("data").at("to").same(&list(&["user"])));
    assert!(escalation
        .at("data")
        .text_or_empty("text")
        .contains("No model will be woken repeatedly"));

    let state = fixture.status();
    assert!(entry(&state, "count").same(&Json::Int(1)));
    assert!(is_flag(&state, "requires_decision", false));
    assert!(is_flag(&state, "awaiting_user_intervention", true));
    assert!(is_flag(&state, "caller_may_idle", true));
    assert!(is_flag(&state, "safe_to_idle", true));
    assert!(entry(&state, "responsibility").is("kind", "user_intervention"));
    let note = fixture.note(&handoff);
    assert!(note.is("status", "waiting_user"));
    assert!(note.is("escalation_event_id", &escalation_id));
    assert!(
        fixture.pending_sources("web-lead").is_empty(),
        "the user escalation re-entered the web model queue and could create a loop"
    );

    let repeated = fixture.remind(true);
    assert!(is_flag(&repeated, "escalated", false));
    assert_eq!(fixture.notices("decision_escalation"), 1);

    ok(fixture.decide(wait_user_saying(
        &[&report.id],
        "Please choose the next step for the preserved result.",
    )));
    let resolved = fixture.status();
    assert!(entry(&resolved, "count").same(&Json::Int(0)));
}

#[test]
fn user_escalation_does_not_hide_another_actors_live_work() {
    let mut fixture = Fixture::new("escalation plus live task");
    let live_task = fixture.task("Independent implementation", "worker-b");
    let report = fixture.report("worker-a", "A different result needs intervention.", None);
    let handoff = fixture.handoff(&report, "turn-escalation-with-live-work");
    fixture.deliver(&report.id, "accepted", "web_model_browser", 90);
    let reminder = fixture.remind(false);
    let reminder_id = entry(&reminder, "reminder_event").text_or_empty("id");
    fixture.deliver(&reminder_id, "accepted", "web_model_browser", 40);
    assert!(is_flag(&fixture.remind(true), "escalated", true));
    let state = fixture.current();
    assert!(
        state.at("safe_to_idle").same(&Json::Bool(false)),
        "live work was hidden by user escalation"
    );
    assert!(state.at("responsibility").is("kind", "actor_work"));
    match state.at("responsibility").list("tasks") {
        Some(tasks) => assert!(tasks[0].is("task_id", &live_task)),
        None => panic!("no tasks"),
    }
    assert_eq!(state.list("responsibilities").map(|items| items.len()), Some(2));
    assert!(!actor_may_idle_from_state(&state, "worker-b"));
    assert!(actor_may_idle_from_state(&state, "web-lead"));
    assert!(state
        .at("user_intervention")
        .at("handoff_ids")
        .same(&Json::Arr(vec![entry(&handoff.data, "handoff_id")])));
}

#[test]
fn foreman_review_does_not_hide_a_peers_independent_live_task() {
    let mut fixture = Fixture::new("review plus live peer task");
    let task_id = fixture.task("Independent peer work", "worker-b");
    let report = fixture.report("worker-a", "Review this completed result.", None);
    let handoff = fixture.handoff(&report, "turn-review-with-live-work");
    let state = fixture.current();
    assert!(state.at("safe_to_idle").same(&Json::Bool(false)));
    assert!(state.at("responsibility").is("kind", "foreman_review"));
    assert!(!actor_may_idle_from_state(&state, "web-lead"));
    assert!(!actor_may_idle_from_state(&state, "worker-b"));
    match state.at("actor_work").list("tasks") {
        Some(tasks) => assert!(tasks[0].is("task_id", &task_id)),
        None => panic!("no tasks"),
    }
    assert_eq!(state.list("responsibilities").map(|items| items.len()), Some(2));
    assert!(state
        .at("responsibility")
        .at("handoff_ids")
        .same(&Json::Arr(vec![entry(&handoff.data, "handoff_id")])));
}

#[test]
fn a_verbose_member_turn_keeps_all_human_outputs_inside_one_decidable_handoff() {
    let mut fixture = Fixture::new("verbose member handoff");
    let reports = (0..25)
        .map(|index| {
            fixture.report(
                "worker-a",
                &format!("Visible result part {index}: evidence and remaining risk."),
                None,
            )
        })
        .collect::<Vec<_>>();
    let handoff = fixture.handoff_of(&reports, "turn-verbose-output");
    assert_eq!(handoff.data.list("source_event_ids").map(|ids| ids.len()), Some(25));
    ok(fixture.decide(object(vec![
        ("event_id", text(&reports[0].id)),
        ("decision", text("wait_user")),
        (
            "summary",
            text("All 25 visible output parts were reviewed. Please choose the rollout window."),
        ),
    ])));
    let state = fixture.status();
    assert!(entry(&state, "count").same(&Json::Int(0)));
    let accepted = fixture
        .events
        .iter()
        .filter(|event| {
            event.kind == "runtime.delivery"
                && event.data.is("actor_id", "web-lead")
                && event.data.is("state", "accepted")
        })
        .count();
    assert_eq!(accepted, 25);
}

#[test]
fn status_repairs_the_context_note_after_an_escalation_write_is_interrupted() {
    let mut fixture = Fixture::new("escalation context recovery");
    let report = fixture.report("worker-a", "The result needs human intervention.", None);
    let handoff = fixture.handoff(&report, "turn-escalation-recovery");
    let handoff_id = handoff.data.text_or_empty("handoff_id");
    let escalation = fixture.append(
        "chat.message",
        "system",
        stamp(NOW),
        object(vec![
            ("to", list(&["user"])),
            ("message_mode", text("send")),
            ("text", text("Collaboration is waiting for your decision.")),
            ("relay_kind", text("decision_escalation")),
            ("relay_actor_id", text("web-lead")),
            ("relay_handoff_ids", list(&[&handoff_id])),
            ("relay_source_event_ids", list(&[&report.id])),
        ]),
    );
    assert!(fixture.notes()[0].is("status", "pending_review"));

    let result = fixture.status();
    assert!(is_flag(&result, "awaiting_user_intervention", true));
    let note = fixture.note(&handoff);
    assert!(note.is("status", "waiting_user"));
    assert!(note.is("escalation_event_id", &escalation.id));
}

#[test]
fn replay_cannot_claim_success_for_a_batch_containing_a_new_report() {
    let mut fixture = Fixture::new("mixed handled and new sources");
    let first = fixture.report("worker-a", "Already reviewed.", None);
    fixture.handoff(&first, "first-turn");
    ok(fixture.decide(wait_user(&[&first.id])));
    let second = fixture.report("worker-b", "New result still needs review.", None);
    let handoff = fixture.handoff(&second, "second-turn");
    let error = refused(fixture.decide(wait_user(&[&first.id, &second.id])));
    assert_eq!(error.code, "relay_decision_conflict");
    assert_eq!(fixture.count(DECISION_KIND), 1);
    assert_eq!(
        unresolved_source_ids(&fixture.events, &handoff),
        vec![second.id.clone()]
    );
    ok(fixture.decide(wait_user(&[&second.id])));
    assert_eq!(fixture.count(DECISION_KIND), 2);
}

#[test]
fn recording_wait_during_a_paused_active_turn_does_not_report_a_false_failure() {
    let mut fixture = Fixture::new("paused active relay");
    let report = fixture.report("worker-a", "Please review before resuming.", None);
    fixture.handoff(&report, "paused-active-turn");
    fixture.claim_for_web(&report);
    fixture.wait_next_turn();
    fixture.group.state = GroupState::Paused;
    let result = ok(fixture.decide(wait_user(&[&report.id])));
    assert!(entry(&result, "current_responsibility").is("kind", "user_pause"));
    assert!(is_flag(&result, "caller_may_idle", true));
    let replay = ok(fixture.decide(wait_user(&[&report.id])));
    assert!(is_flag(&replay, "replayed", true));
    assert_eq!(fixture.count(DECISION_KIND), 1);
    assert_eq!(fixture.group.state, GroupState::Paused);
}

#[test]
fn a_turn_with_an_unhandled_event_keeps_running() {
    let mut fixture = Fixture::new("partly handled turn");
    let first = fixture.report("worker-a", "First.", None);
    let second = fixture.report("worker-b", "Second.", None);
    fixture.handoff(&first, "turn-a");
    fixture.handoff(&second, "turn-b");
    fixture.wait_next_turn();
    ok(fixture.decide(wait_user(&[&first.id])));
    assert!(fixture.actor_state().is("status", "working"));

    let mut fixture = Fixture::new("wholly handled turn");
    let first = fixture.report("worker-a", "First.", None);
    let second = fixture.report("worker-b", "Second.", None);
    fixture.handoff(&first, "turn-a");
    fixture.handoff(&second, "turn-b");
    fixture.wait_next_turn();
    ok(fixture.decide(wait_user(&[&first.id, &second.id])));
    assert!(fixture.actor_state().is("status", "waiting"));
}

#[test]
fn repeating_every_request_leaves_one_entry_each() {
    let mut fixture = Fixture::new("repeated requests");
    let report = fixture.report("worker-a", "The completed result needs a decision.", None);
    fixture.handoff(&report, "turn-repeated");
    fixture.deliver(&report.id, "accepted", "web_model_browser", 90);
    for _ in 0..10 {
        fixture.remind(false);
    }
    assert_eq!(fixture.notices("decision_reminder"), 1);
    let reminder_id = match fixture
        .events
        .iter()
        .find(|event| event.data.is("relay_kind", "decision_reminder"))
    {
        Some(event) => event.id.clone(),
        None => panic!("no reminder"),
    };
    fixture.deliver(&reminder_id, "accepted", "web_model_browser", 40);
    for _ in 0..10 {
        fixture.remind(true);
    }
    assert_eq!(fixture.notices("decision_escalation"), 1);
    for _ in 0..10 {
        ok(fixture.decide(wait_user(&[&report.id])));
    }
    assert_eq!(fixture.count(DECISION_KIND), 1);
    assert_eq!(fixture.count(HANDOFF_KIND), 1);
}

fn continue_with(report: &Event, actor: &str, title: &str) -> JsonMap {
    object(vec![
        ("event_ids", list(&[&report.id])),
        ("decision", text("continue")),
        ("next_actor_id", text(actor)),
        ("next_title", text(title)),
        ("next_text", text("Do it.")),
    ])
}

#[test]
fn a_decision_is_one_of_four() {
    let mut fixture = Fixture::new("unknown decision");
    let report = fixture.report("worker-a", "Done.", None);
    let mut request = wait_user(&[&report.id]);
    request.put("decision", text("postpone"));
    assert_eq!(refused(fixture.decide(request.copy())).code, "invalid_relay_decision");
    request.put("decision", text(" WAIT_USER "));
    let answer = ok(fixture.decide(request));
    assert!(entry(&answer, "relay").is("decision", "wait_user"));
}

#[test]
fn next_work_goes_to_another_enabled_actor() {
    let mut fixture = Fixture::new("next actor");
    let report = fixture.report("worker-a", "Done.", None);
    let code = |outcome: Result<JsonMap, OpError>| refused(outcome).code;
    assert_eq!(
        code(fixture.decide(continue_with(&report, "web-lead", "Next"))),
        "relay_next_actor_invalid"
    );
    assert_eq!(
        code(fixture.decide(continue_with(&report, "nobody", "Next"))),
        "relay_next_actor_not_found"
    );
    assert_eq!(
        code(fixture.decide(continue_with(&report, "worker-b", "  "))),
        "relay_continue_incomplete"
    );
    fixture.group.actors[2].enabled = false;
    assert_eq!(
        code(fixture.decide(continue_with(&report, "worker-b", "Next"))),
        "relay_next_actor_stopped"
    );
    assert_eq!(fixture.count(DECISION_KIND), 0);
    assert_eq!(fixture.messages("worker-b").len(), 0);
    fixture.group.actors[2].enabled = true;
    ok(fixture.decide(continue_with(&report, "worker-b", "Next")));
}

#[test]
fn work_that_was_not_delivered_is_no_decision() {
    let mut fixture = Fixture::new("undelivered work");
    let report = fixture.report("worker-a", "Done.", None);
    let mut args = continue_with(&report, "worker-b", "Next");
    args.put("group_id", text(&fixture.group.group_id));
    args.put("by", text("web-lead"));
    let request = DaemonRequest { v: 1, op: "coordination_decide".to_string(), args };
    let handoff = fixture.handoff(&report, "turn");
    assert!(!handoff.id.is_empty());
    let addressed = fixture.addressed("web-lead");
    let (intent, ids) =
        match decide(&request, &fixture.group, &fixture.events, &addressed) {
            DecideStep::Record(intent, ids, _, None) => (intent, ids),
            _ => panic!("the handoff is recorded"),
        };
    let draft = match after_recording(&fixture.group, &fixture.events, &addressed, intent, &ids) {
        DecideStep::Context(draft) => draft,
        _ => panic!("the decision is new"),
    };
    let step = after_context(
        &fixture.group,
        &fixture.events,
        &fixture.context,
        &request,
        "client",
        draft,
    );
    match step {
        DecideStep::Send(draft, tasks, _) => {
            let half = object(vec![
                ("message_sent", Json::Bool(true)),
                ("partial_failure", Json::Bool(true)),
            ]);
            match after_send(draft, tasks, Ok(half)) {
                DecideStep::Refused(error) => {
                    assert_eq!(error.code, "relay_continue_incomplete")
                }
                _ => panic!("the work was not delivered"),
            }
        }
        _ => panic!("the work is sent"),
    }
}

#[test]
fn sources_are_events_for_the_foreman() {
    let mut fixture = Fixture::new("sources");
    let report = fixture.report("worker-a", "Done.", None);
    let code = |outcome: Result<JsonMap, OpError>| refused(outcome).code;
    assert_eq!(code(fixture.decide(wait_user(&["nowhere"]))), "event_not_found");
    assert_eq!(code(fixture.decide(wait_user(&[]))), "invalid_event_ids");
    let mut odd = wait_user(&[&report.id]);
    odd.put("event_ids", text("not a list"));
    assert_eq!(code(fixture.decide(odd.copy())), "invalid_event_ids");
    odd.put("event_ids", Json::Arr(vec![Json::Int(1)]));
    assert_eq!(code(fixture.decide(odd)), "invalid_event_ids");
    let other = fixture.append(
        "chat.message",
        "worker-a",
        stamp(NOW),
        object(vec![("to", list(&["worker-b"]))]),
    );
    assert_eq!(
        code(fixture.decide(wait_user(&[&other.id]))),
        "relay_event_not_for_actor"
    );
    let own = fixture.append(
        "chat.message",
        "user",
        stamp(NOW),
        object(vec![("to", list(&["web-lead"]))]),
    );
    assert_eq!(code(fixture.decide(wait_user(&[&own.id]))), "relay_handoff_missing");
    let mut named = wait_user(&[&report.id]);
    named.put("task_id", text("T99"));
    assert_eq!(code(fixture.decide(named)), "relay_task_not_found");
}

#[test]
fn a_handoff_needs_a_source_and_its_own_entry() {
    let mut fixture = Fixture::new("handoff errors");
    let turn = Turn {
        group_id: fixture.group.group_id.clone(),
        source_actor_id: "worker-a".to_string(),
        target_actor_id: "web-lead".to_string(),
        turn_id: "t".to_string(),
        status: "completed".to_string(),
    };
    assert_eq!(
        refused(fixture.record(&turn, &Vec::new())).code,
        "relay_source_required"
    );
    let report = fixture.report("worker-a", "Done.", None);
    let handoff = ok(fixture.record(&turn, &vec![report.copy()]));
    let again = ok(fixture.record(&turn, &vec![report.copy()]));
    assert_eq!(handoff.id, again.id);
    assert_eq!(fixture.count(HANDOFF_KIND), 1);
    for event in fixture.events.iter_mut() {
        if event.id == handoff.id {
            event.kind = "chat.message".to_string();
        }
    }
    assert_eq!(
        refused(fixture.record(&turn, &vec![report])).code,
        "relay_handoff_conflict"
    );
}

#[test]
fn strangers_have_no_relay() {
    let mut fixture = Fixture::new("strangers");
    assert_eq!(
        refused(require_actor(&fixture.group, "nobody")).code,
        "relay_actor_not_found"
    );
    let now = Instant { secs: NOW, nanos: 0 };
    match remind_due(&fixture.group, &fixture.events, "nobody", true, now) {
        Err(error) => assert_eq!(error.code, "relay_actor_not_found"),
        Ok(_) => panic!("the actor is unknown"),
    }
    match remind_due(&fixture.group, &fixture.events, "worker-a", true, now) {
        Ok(RemindStep::Inactive) => {}
        _ => panic!("a local actor is not reminded"),
    }
    let ids = vec!["e".to_string()];
    match accept_handled_sources(&fixture.group, &fixture.events, "nobody", &ids, &ids) {
        Err(error) => assert_eq!(error.code, "relay_actor_not_found"),
        Ok(_) => panic!("the actor is unknown"),
    }
    let quiet = fixture.remind(true);
    assert!(quiet.is("reason", "none_due"));
    assert!(handle(&DaemonRequest {
        v: 1,
        op: "other".to_string(),
        args: JsonMap::new()
    })
    .is_none());
    let lost = with_relay_lock(Err(OpError::new("io_error", "no lock")), || {
        Ok::<u32, OpError>(1)
    });
    assert_eq!(refused(lost).code, "io_error");
    assert_eq!(
        cccc_relay::relay::decide::context_sync_error(&Failure::other("version_conflict")).code,
        "relay_context_changed"
    );
    assert_eq!(
        cccc_relay::relay::decide::context_sync_error(&Failure::other("bad note")).code,
        "invalid_args"
    );
}

#[test]
fn a_reminder_waits_twenty_seconds_and_an_escalation_thirty() {
    let mut fixture = Fixture::new("waiting times");
    let report = fixture.report("worker-a", "Done.", None);
    fixture.handoff(&report, "turn");
    fixture.deliver(&report.id, "accepted", "web_model_browser", 19);
    assert!(is_flag(&fixture.remind(false), "reminded", false));
    fixture.deliver(&report.id, "accepted", "web_model_browser", 20);
    let reminded = fixture.remind(false);
    assert!(is_flag(&reminded, "reminded", true));
    let id = entry(&reminded, "reminder_event").text_or_empty("id");
    assert_eq!(
        entry(&reminded, "reminder_event").at("data").text_or_empty("text"),
        format!("[CCCC] A completed member handoff is still waiting for a recorded decision. Review the original report(s) already in this conversation, then call cccc_coordination(action=\"decide\", event_ids={:?}, decision=\"continue\"|\"wait_user\"|\"complete\"|\"blocked\"). Your normal reply remains the human-facing output; do not repeat the report in the tool call. Reading or replying alone does not resolve this handoff. continue must include next_actor_id, next_title, and next_text.", vec![report.id.clone()])
    );
    fixture.deliver(&id, "accepted", "web_model_browser", 29);
    assert!(is_flag(&fixture.remind(true), "escalated", false));
    fixture.deliver(&id, "accepted", "web_model_browser", 30);
    assert!(is_flag(&fixture.remind(true), "escalated", true));
}
