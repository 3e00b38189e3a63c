//! How a conversation comes to its group: the gateway's tools and the onboarding of a chat.

use cccc_relay::failure::{Failure, FailureKind};
use cccc_relay::gateway::{
    authorize_call, binding_error, bound_context, call, catalog, check_call, connector_for_code,
    core_tools, handle as route_request, required_binding, Request, Route, ToolError,
};
use cccc_relay::json::{Json, JsonMap};
use cccc_relay::model::{ActorRuntime, DaemonRequest, OpError};
use cccc_relay::onboarding::{
    actor_request, callback_ready, check_admission, check_path, check_reuse, choose_title, connect, connect_answer,
    connect_failure, exact_group, group_create_args, handle, onboard_failure, read_applicant,
    read_chat_url, workspace, GroupCard, GroupMeta, Member, Onboarding, ScopeEntry,
};

use cccc_relay::onboarding_flow::{
    after_actor, after_bound, after_created, after_deleted, after_directory,
    after_directory_gone, after_entries, after_found_group, after_joined, after_loaded_bound,
    after_loaded_created, after_made, after_normalized, after_removed, after_report,
    after_revoked, after_saved, after_started, onboard, Applicant, Current, Directory, Founded,
    OnboardStep,
};

const AT: &str = "2026-09-05T00:00:00Z";

fn text(value: &str) -> Json {
    Json::Str(value.to_string())
}

fn object(entries: Vec<(&str, Json)>) -> JsonMap {
    JsonMap {
        entries: entries
            .into_iter()
            .map(|(key, value)| (key.to_string(), value))
            .collect(),
    }
}

fn tree(entries: Vec<(&str, Json)>) -> Json {
    Json::Obj(object(entries))
}

fn code<T>(outcome: Result<T, ToolError>) -> String {
    match outcome {
        Ok(_) => panic!("the call was not refused"),
        Err(error) => error.code,
    }
}

fn refusal<T>(outcome: Result<T, OpError>) -> String {
    match outcome {
        Ok(_) => panic!("the request was not refused"),
        Err(error) => error.code,
    }
}

#[test]
fn the_catalog_adds_three_tools() {
    let named = |name: &str| tree(vec![("name", text(name))]);
    let tools = vec![named("cccc_bootstrap"), named("cccc_admin")];
    let core = core_tools(&tools, &vec!["cccc_bootstrap".to_string()]);
    assert_eq!(core.len(), 1);
    let all = catalog(core);
    let names: Vec<String> = all.iter().map(|tool| tool.text_or_empty("name")).collect();
    assert_eq!(
        names,
        vec![
            "cccc_bootstrap".to_string(),
            "cccc_session_bind".to_string(),
            "cccc_group_create".to_string(),
            "cccc_group_bind".to_string(),
        ]
    );
}

#[test]
fn requests_are_read_by_their_method() {
    let tools = catalog(Vec::new());
    let request = |method: &str, params: Json| tree(vec![("method", text(method)), ("params", params)]);
    assert!(matches!(
        route_request(&request("tools/list", Json::Null), &tools),
        Request::List
    ));
    assert!(matches!(route_request(&request("ping", Json::Null), &tools), Request::Forward));
    let invalid = |params: Json| match route_request(&request("tools/call", params), &tools) {
        Request::Invalid(code, message) => {
            assert_eq!(code, -32602);
            message
        }
        _ => panic!("the call is invalid"),
    };
    assert_eq!(invalid(Json::Null), "tools/call params must be an object");
    assert_eq!(
        invalid(tree(vec![])),
        "tools/call name must be a non-empty string"
    );
    assert_eq!(
        invalid(tree(vec![("name", text("cccc_session_bind")), ("arguments", Json::Int(1))])),
        "tools/call arguments must be an object"
    );
    assert_eq!(invalid(tree(vec![("name", text("other"))])), "Unknown gateway tool");
    let params = tree(vec![
        ("name", text("cccc_session_bind")),
        ("arguments", tree(vec![("code", text("c"))])),
        ("_meta", tree(vec![("openai/session", text(" chat-1 "))])),
    ]);
    match route_request(&request("tools/call", params), &tools) {
        Request::Call(name, arguments, session) => {
            assert_eq!(name, "cccc_session_bind");
            assert!(arguments.is("code", "c"));
            assert_eq!(session, Some("chat-1".to_string()));
        }
        _ => panic!("the call is valid"),
    }
}

#[test]
fn the_identity_of_a_conversation_is_no_argument() {
    match call("cccc_group_create", &object(vec![("path", text("/work"))]), "chat-1") {
        Route::Daemon(op, args) => {
            assert_eq!(op, "web_model_chat_create");
            assert!(args.is("session", "chat-1"));
            assert!(args.is("by", "user"));
            assert!(args.is("path", "/work"));
        }
        _ => panic!("the daemon makes the group"),
    }
    for key in ["session", "by"] {
        match call("cccc_group_bind", &object(vec![(key, text("x"))]), "chat-1") {
            Route::Refused(error) => assert_eq!(error.code, "invalid_request"),
            _ => panic!("the identity was forged"),
        }
    }
    match call("cccc_session_bind", &object(vec![("code", text(" c "))]), "chat-1") {
        Route::Bind(code) => assert_eq!(code, "c"),
        _ => panic!("the conversation is bound"),
    }
    match call("cccc_session_bind", &object(vec![("code", text(" "))]), "chat-1") {
        Route::Refused(error) => assert_eq!(error.code, "session_binding_code_invalid"),
        _ => panic!("the code is blank"),
    }
    let two = object(vec![("code", text("c")), ("group_id", text("g"))]);
    match call("cccc_session_bind", &two, "chat-1") {
        Route::Refused(error) => assert_eq!(error.code, "invalid_args"),
        _ => panic!("only the code is taken"),
    }
    assert!(matches!(call("cccc_bootstrap", &JsonMap::new(), "chat-1"), Route::Bound));
}

#[test]
fn a_bound_conversation_stays_in_its_group() {
    let check = |name: &str, arguments: JsonMap| check_call(name, &arguments, "g1");
    assert!(check("cccc_task", object(vec![("group_id", text(" g1 "))])).is_ok());
    assert!(check("cccc_task", object(vec![("group_id", Json::Null)])).is_ok());
    assert_eq!(
        code(check("cccc_task", object(vec![("group_id", text("g2"))]))),
        "group_scope_mismatch"
    );
    assert_eq!(
        code(check("cccc_task", object(vec![("dst_group_id", text("g2"))]))),
        "group_scope_mismatch"
    );
    assert_eq!(
        code(check("cccc_task", object(vec![("group_id", Json::Int(1))]))),
        "invalid_args"
    );
    for name in ["cccc_remote_list", "cccc_im_bind", "cccc_capability_import", "cccc_capability_uninstall"] {
        assert_eq!(code(check(name, JsonMap::new())), "group_scope_mismatch");
    }
    for action in ["create", "resolve", "use"] {
        assert_eq!(
            code(check("cccc_group", object(vec![("action", text(action))]))),
            "group_scope_mismatch"
        );
    }
    let nested = |tool: &str, arguments: Json| {
        object(vec![("tool_name", text(tool)), ("tool_arguments", arguments)])
    };
    assert_eq!(
        code(check("cccc_capability_use", nested("cccc_capability_use", Json::Null))),
        "capability_use_invalid_tool"
    );
    assert_eq!(
        code(check(
            "cccc_capability_use",
            nested("cccc_task", tree(vec![("group_id", text("g2"))]))
        )),
        "group_scope_mismatch"
    );
    assert_eq!(
        code(check("cccc_capability_use", nested("cccc_task", Json::Int(1)))),
        "invalid_args"
    );
    assert!(check("cccc_capability_use", nested("cccc_task", Json::Null)).is_ok());
}

#[test]
fn a_call_through_the_gateway_needs_its_own_connector() {
    let own = object(vec![("group_id", text("g1")), ("actor_id", text("web"))]);
    let arguments = JsonMap::new();
    let authorize = |gateway: bool, connector: Option<&JsonMap>, actor: &str| {
        authorize_call(gateway, connector, "cccc_task", &arguments, "g1", actor)
    };
    assert!(authorize(true, Some(&own), "web").is_ok());
    assert_eq!(code(authorize(true, Some(&own), "other")), "session_binding_required");
    assert_eq!(code(authorize(true, None, "web")), "session_binding_required");
    assert!(authorize(false, None, "web").is_ok());
    assert_eq!(required_binding().code, "session_binding_required");
    let revoked = Failure::new(FailureKind::PermissionDenied, "connector_revoked");
    assert_eq!(binding_error(&revoked, true).code, "connector_revoked");
    assert_eq!(binding_error(&Failure::other("disk full"), false).code, "session_binding_failed");
}

fn request(op: &str, args: JsonMap) -> DaemonRequest {
    DaemonRequest { v: 1, op: op.to_string(), args }
}

#[test]
fn an_applicant_comes_through_the_gateway() {
    let args = |extra: Vec<(&str, Json)>| {
        let mut args = object(vec![("by", text("user")), ("session", text("chat-1"))]);
        for (key, value) in extra {
            args.put(key, value);
        }
        args
    };
    let create = request("web_model_chat_create", args(vec![("path", text("/work"))]));
    assert_eq!(handle(&create), Some(Onboarding::Create));
    match read_applicant(Onboarding::Create, &create) {
        Ok((session, url)) => {
            assert_eq!(session, "chat-1");
            assert_eq!(url, "");
        }
        Err(error) => panic!("{}", error.code),
    }
    let bind = request(
        "web_model_chat_bind",
        args(vec![("group", text("g")), ("chat_url", text(" u "))]),
    );
    assert_eq!(handle(&bind), Some(Onboarding::Bind));
    assert!(matches!(read_applicant(Onboarding::Bind, &bind), Ok((_, url)) if url == "u"));
    assert_eq!(refusal(read_applicant(Onboarding::Bind, &create)), "invalid_request");
    assert_eq!(handle(&request("other", JsonMap::new())), None);
    let forged = request("web_model_chat_create", object(vec![("by", text("worker"))]));
    assert_eq!(refusal(read_applicant(Onboarding::Create, &forged)), "permission_denied");
    let nameless = request("web_model_chat_create", object(vec![("by", text("user"))]));
    assert_eq!(refusal(read_applicant(Onboarding::Create, &nameless)), "invalid_args");
    let odd = request("web_model_chat_create", args(vec![("title", Json::Int(1))]));
    assert_eq!(refusal(read_applicant(Onboarding::Create, &odd)), "invalid_request");
}

#[test]
fn addresses_paths_and_titles_are_checked() {
    assert!(matches!(read_chat_url("", None), Ok(None)));
    assert!(matches!(read_chat_url("x", Some("y".to_string())), Ok(Some(url)) if url == "y"));
    assert_eq!(refusal(read_chat_url("x", None)), "invalid_chat_url");
    assert!(check_path("/work", true, false).is_ok());
    assert!(check_path("~/work", false, false).is_ok());
    assert_eq!(refusal(check_path("work", false, false)), "invalid_scope_path");
    assert_eq!(refusal(check_path("/home/.cccc", true, true)), "invalid_scope_path");
    let titled = request("x", object(vec![("title", text(" Relay "))]));
    assert_eq!(choose_title(&titled, "work"), "Relay");
    let blank = request("x", object(vec![("title", text(" "))]));
    assert_eq!(choose_title(&blank, "work"), "work");
    assert_eq!(choose_title(&request("x", JsonMap::new()), "work"), "work");
    let args = group_create_args("/work", "Relay");
    assert!(args.is("path", "/work"));
    assert_eq!(args.flag("set_active"), Some(false));
}

#[test]
fn a_group_is_found_by_its_id_or_its_unique_name() {
    let meta = |id: &str, title: &str| GroupMeta { group_id: id.to_string(), title: title.to_string() };
    let groups = vec![meta("g1", " Relay "), meta("g2", "Twice"), meta("g3", "Twice")];
    assert!(matches!(exact_group(true, &groups, "g9"), Ok(id) if id == "g9"));
    assert!(matches!(exact_group(false, &groups, "Relay"), Ok(id) if id == "g1"));
    assert_eq!(refusal(exact_group(false, &groups, "Rel")), "group_not_found");
    assert_eq!(refusal(exact_group(false, &groups, "Twice")), "ambiguous_group");
}

fn member(id: &str, runtime: ActorRuntime) -> Member {
    Member {
        id: id.to_string(),
        title: format!("title of {id}"),
        runtime,
        shown_runtime: text("web_model"),
        shown_role: text("foreman"),
        visible: true,
    }
}

fn card(members: Vec<Member>) -> GroupCard {
    GroupCard {
        group_id: "g1".to_string(),
        title: "Relay".to_string(),
        scopes: vec![ScopeEntry { key: "k".to_string(), url: "/work".to_string() }],
        active_scope_key: "k".to_string(),
        members,
    }
}

#[test]
fn a_chat_gets_a_foreman_of_its_own() {
    let empty = card(Vec::new());
    let none = Vec::new();
    match connect(&empty, &none, Some("https://chatgpt.com/c/1"), None, AT) {
        Ok(plan) => {
            assert_eq!(plan.actor_id, "chat-foreman");
            assert_eq!(plan.label, "ChatGPT Foreman");
            assert!(plan.add_actor.is_some());
            assert!(plan.connector.is_none());
            assert!(plan.bind);
            match plan.save_target {
                Some(target) => assert!(target.is("url", "https://chatgpt.com/c/1")),
                None => panic!("the address is saved"),
            }
        }
        Err(error) => panic!("{}", error.code),
    }
    let local = card(vec![member("boss", ActorRuntime::Local)]);
    assert_eq!(refusal(connect(&local, &none, None, None, AT)), "foreman_conflict");
    let web = card(vec![member("web", ActorRuntime::WebModel)]);
    let held = vec![object(vec![
        ("connector_id", text("c1")),
        ("group_id", text("g1")),
        ("actor_id", text("web")),
        ("session_hash", text("h")),
    ])];
    assert_eq!(refusal(connect(&web, &held, None, None, AT)), "group_already_bound");
    match connect(&web, &held, None, Some(&held[0]), AT) {
        Ok(plan) => {
            assert!(!plan.bind);
            assert!(plan.add_actor.is_none());
            assert!(plan.save_target.is_none());
        }
        Err(error) => panic!("{}", error.code),
    }
    let elsewhere = object(vec![("group_id", text("g2"))]);
    assert_eq!(
        refusal(connect(&web, &none, None, Some(&elsewhere), AT)),
        "session_already_bound"
    );
    let gone = object(vec![("group_id", text("g1")), ("actor_id", text("gone"))]);
    assert_eq!(
        refusal(connect(&web, &none, None, Some(&gone), AT)),
        "connector_actor_unavailable"
    );
    let homeless = GroupCard { scopes: Vec::new(), ..card(Vec::new()) };
    assert_eq!(workspace(&homeless), None);
    assert_eq!(refusal(connect(&homeless, &none, None, None, AT)), "workspace_required");
}

#[test]
fn a_repeated_request_reuses_its_group() {
    let group = card(Vec::new());
    assert_eq!(workspace(&group), Some("/work".to_string()));
    assert!(check_reuse(&group, "/work", "Relay").is_ok());
    assert!(check_reuse(&group, "/work/", "Relay").is_ok());
    assert!(check_reuse(&group, "//./work/.", "Relay").is_ok());
    assert_eq!(refusal(check_reuse(&group, "work", "Relay")), "session_already_bound");
    assert_eq!(refusal(check_reuse(&group, "/work/..", "Relay")), "session_already_bound");
    assert_eq!(refusal(check_reuse(&group, "/other", "Relay")), "session_already_bound");
    assert_eq!(refusal(check_reuse(&group, "/work", "Other")), "session_already_bound");
}

#[test]
fn the_answer_says_whether_messages_can_come_back() {
    let target = tree(vec![("kind", text("existing_chat"))]);
    assert!(callback_ready(&target, true));
    assert!(!callback_ready(&target, false));
    assert!(!callback_ready(&Json::Null, true));
    let hidden = Member { visible: false, ..member("hidden", ActorRuntime::Local) };
    let group = card(vec![member("web", ActorRuntime::WebModel), hidden]);
    let answer = connect_answer(&group, "web", true, false);
    assert!(answer.is("status", "configured"));
    assert!(answer.is("role", "foreman"));
    assert!(answer.is("workspace", "/work"));
    assert_eq!(answer.list("members").map(|members| members.len()), Some(1));
    assert!(connect_answer(&group, "web", false, true).is("status", "needs_chat_url"));
    assert!(actor_request("g1", "web").is("actor_id", "web"));
}

#[test]
fn a_failed_cleanup_is_told() {
    let error = || OpError::new("io_error", "disk full");
    let kept = connect_failure(error(), &Vec::new());
    assert_eq!(kept.code, "io_error");
    let told = connect_failure(error(), &vec!["a".to_string(), "b".to_string()]);
    assert_eq!(told.code, "onboarding_cleanup_failed");
    assert_eq!(told.message, "disk full; a; b");
    assert_eq!(onboard_failure(error(), None, None).code, "io_error");
    assert_eq!(
        onboard_failure(error(), Some("busy".to_string()), Some("x".to_string())).message,
        "disk full; could not remove incomplete group: busy"
    );
    assert_eq!(
        onboard_failure(error(), None, Some("full".to_string())).message,
        "disk full; could not remove newly created empty directory: full"
    );
}

#[test]
fn a_code_and_a_conversation_lead_to_a_connector() {
    assert_eq!(code(connector_for_code(None)), "session_binding_code_invalid");
    assert_eq!(code(connector_for_code(Some(&JsonMap::new()))), "session_binding_failed");
    let connector = object(vec![
        ("connector_id", text("c1")),
        ("group_id", text("g1")),
        ("actor_id", text("web")),
    ]);
    assert!(matches!(connector_for_code(Some(&connector)), Ok(id) if id == "c1"));
    assert!(matches!(
        bound_context(Some(&connector)),
        Ok((group, actor)) if group == "g1" && actor == "web"
    ));
    assert_eq!(code(bound_context(None)), "session_binding_required");
    let half = object(vec![("group_id", text("g1"))]);
    assert_eq!(code(bound_context(Some(&half))), "session_binding_required");
}

/// A daemon that fails at one step of an onboarding, and what it was asked to do.
struct Daemon {
    fails_at: &'static str,
    bound: Option<JsonMap>,
    members: bool,
    exists: bool,
    log: Vec<String>,
}

impl Daemon {
    fn new(fails_at: &'static str) -> Daemon {
        Daemon { fails_at, bound: None, members: false, exists: false, log: Vec::new() }
    }

    fn does(&mut self, what: &str) -> Result<(), OpError> {
        self.log.push(what.to_string());
        if self.fails_at == what {
            Err(OpError::new("io_error", &format!("{what} failed")))
        } else {
            Ok(())
        }
    }

    fn group(&self) -> GroupCard {
        card(if self.members {
            vec![member("web", ActorRuntime::WebModel)]
        } else {
            Vec::new()
        })
    }

    fn run(&mut self, kind: Onboarding, args: JsonMap) -> Result<JsonMap, OpError> {
        let asked = request("x", args);
        let mut step = onboard(kind, &asked);
        loop {
            step = match step {
                OnboardStep::Refused(error) => return Err(error),
                OnboardStep::Done(answer) => return Ok(answer),
                OnboardStep::Normalize(session, given) => {
                    let stable = if given.starts_with("https://chatgpt.com/c/") {
                        Some(given.clone())
                    } else {
                        None
                    };
                    after_normalized(session, &given, stable)
                }
                OnboardStep::FindBound(applicant) => {
                    assert_eq!(applicant.session, "chat-1");
                    let bound = self.bound.as_ref().map(|bound| bound.copy());
                    after_bound(kind, &asked, applicant, bound, true)
                }
                OnboardStep::FindDirectory(applicant, bound, raw) => {
                    let directory = Directory {
                        path: raw,
                        name: "work".to_string(),
                        internal: self.fails_at == "internal",
                        exists: self.exists,
                    };
                    after_directory(&asked, applicant, bound, Ok(directory))
                }
                OnboardStep::LoadBound(applicant, bound, path, title) => {
                    after_loaded_bound(applicant, bound, &path, &title, Ok(self.group()))
                }
                OnboardStep::CreateGroup(applicant, args, directory) => {
                    assert!(args.is("by", "user"));
                    let reply = self.does("create group").map(|_| {
                        if self.fails_at == "nameless" {
                            JsonMap::new()
                        } else {
                            object(vec![("group_id", text("g1"))])
                        }
                    });
                    after_created(applicant, directory, reply)
                }
                OnboardStep::LoadCreated(applicant, id, directory) => {
                    assert_eq!(id, "g1");
                    after_loaded_created(applicant, directory, Ok(self.group()))
                }
                OnboardStep::FindGroup(applicant, bound, token) => {
                    assert_eq!(token, "g1");
                    after_found_group(applicant, bound, Ok(self.group()))
                }
                OnboardStep::Connect(applicant, bound, group, founded) => {
                    let entries = self.does("read connectors").map(|_| Vec::new());
                    after_entries(applicant, bound, group, founded, entries, AT)
                }
                OnboardStep::AddActor(joining) => {
                    let added = self.does("add actor");
                    after_actor(joining, added)
                }
                OnboardStep::MakeConnector(joining) => {
                    assert_eq!(joining.plan.actor_id, "chat-foreman");
                    let made = self.does("make connector").map(|_| {
                        if self.fails_at == "unnamed connector" {
                            JsonMap::new()
                        } else {
                            object(vec![("connector_id", text("c1"))])
                        }
                    });
                    after_made(joining, made)
                }
                OnboardStep::StartActor(joining) => {
                    assert_eq!(joining.connector_id, "c1");
                    let started = self.does("start actor");
                    after_started(joining, started)
                }
                OnboardStep::SaveTarget(joining) => {
                    let saved = self.does("save target");
                    after_saved(joining, saved)
                }
                OnboardStep::Bind(joining) => {
                    assert_eq!(joining.session, "chat-1");
                    let joined = self.does("bind");
                    after_joined(joining, joined)
                }
                OnboardStep::Report(joining) => {
                    let current = self.does("report").map(|_| Current {
                        group: card(vec![member("chat-foreman", ActorRuntime::WebModel)]),
                        target: tree(vec![("kind", text("existing_chat"))]),
                        stable: true,
                    });
                    after_report(joining, current)
                }
                OnboardStep::Revoke(joining, error, id) => {
                    self.log.push(format!("revoke {id}"));
                    after_revoked(joining, error, None)
                }
                OnboardStep::RemoveActor(joining, error, failures) => {
                    self.log.push("remove actor".to_string());
                    let removed = if self.fails_at == "start actor" {
                        Err(OpError::new("busy", "actor is busy"))
                    } else {
                        Ok(())
                    };
                    after_removed(joining, error, failures, removed)
                }
                OnboardStep::DeleteGroup(error, id, directory) => {
                    self.log.push(format!("delete {id}"));
                    after_deleted(error, directory, Ok(()))
                }
                OnboardStep::RemoveDirectory(error, path) => {
                    self.log.push(format!("remove {path}"));
                    after_directory_gone(error, None)
                }
            }
        }
    }
}

fn creation() -> JsonMap {
    object(vec![
        ("by", text("user")),
        ("session", text("chat-1")),
        ("path", text("/work")),
        ("title", text("Relay")),
        ("chat_url", text("https://chatgpt.com/c/1")),
    ])
}

#[test]
fn an_onboarding_binds_the_conversation_last() {
    let mut daemon = Daemon::new("");
    match daemon.run(Onboarding::Create, creation()) {
        Ok(answer) => {
            assert!(answer.is("status", "configured"));
            assert_eq!(answer.flag("reused"), Some(false));
        }
        Err(error) => panic!("{}: {}", error.code, error.message),
    }
    assert_eq!(
        daemon.log,
        vec![
            "create group",
            "read connectors",
            "add actor",
            "make connector",
            "start actor",
            "save target",
            "bind",
            "report",
        ]
    );
}

#[test]
fn a_failed_onboarding_takes_back_what_it_made() {
    let after = |fails_at: &'static str| {
        let mut daemon = Daemon::new(fails_at);
        let error = match daemon.run(Onboarding::Create, creation()) {
            Ok(_) => panic!("the onboarding failed"),
            Err(error) => error,
        };
        let undone: Vec<String> = daemon
            .log
            .iter()
            .filter(|entry| {
                entry.starts_with("re") && !entry.starts_with("read") && *entry != "report"
                    || entry.starts_with("delete")
            })
            .cloned()
            .collect();
        (error.code, error.message, undone)
    };
    assert_eq!(
        after("bind"),
        (
            "io_error".to_string(),
            "bind failed".to_string(),
            vec![
                "revoke c1".to_string(),
                "remove actor".to_string(),
                "delete g1".to_string(),
                "remove /work".to_string(),
            ]
        )
    );
    assert_eq!(
        after("make connector").2,
        vec!["remove actor".to_string(), "delete g1".to_string(), "remove /work".to_string()]
    );
    assert_eq!(
        after("add actor").2,
        vec!["delete g1".to_string(), "remove /work".to_string()]
    );
    assert_eq!(after("create group").2, Vec::<String>::new());
    assert_eq!(
        after("start actor").1,
        "start actor failed; actor is busy".to_string()
    );
    assert_eq!(after("unnamed connector").0, "connector_unavailable");
    assert_eq!(after("nameless").0, "group_unavailable");
    assert_eq!(after("internal").0, "invalid_scope_path");
}

#[test]
fn a_conversation_that_is_not_let_in_is_told_so_first() {
    let applicant = || Applicant { session: "chat-1".to_string(), url: None };
    let nothing = || Founded { group: false, directory: None };
    let unread = || Err(OpError::new("io_error", "disk full"));
    let told = |step: OnboardStep| match step {
        OnboardStep::Refused(error) => error.code,
        OnboardStep::DeleteGroup(error, id, _) => format!("{} of {id}", error.code),
        _ => panic!("the conversation is not let in"),
    };
    let web = || card(vec![member("web", ActorRuntime::WebModel)]);
    let elsewhere = || Some(object(vec![("group_id", text("g2"))]));
    let gone = || Some(object(vec![("group_id", text("g1")), ("actor_id", text("gone"))]));
    let homeless = || GroupCard { scopes: Vec::new(), ..web() };
    let local = || card(vec![member("boss", ActorRuntime::Local)]);
    for (bound, group, code) in [
        (elsewhere(), web(), "session_already_bound"),
        (None, homeless(), "workspace_required"),
        (gone(), web(), "connector_actor_unavailable"),
        (None, local(), "foreman_conflict"),
    ] {
        assert_eq!(refusal(check_admission(&group, bound.as_ref())), code);
        let step = after_entries(applicant(), bound, group, nothing(), unread(), AT);
        assert_eq!(told(step), code);
    }
    assert_eq!(told(after_entries(applicant(), None, web(), nothing(), unread(), AT)), "io_error");
    assert_eq!(told(after_found_group(applicant(), elsewhere(), Ok(web()))), "session_already_bound");
    assert_eq!(told(after_loaded_created(applicant(), None, Ok(local()))), "foreman_conflict of g1");
    match check_admission(&web(), None) {
        Ok(Some(member)) => assert_eq!(member.id, "web"),
        _ => panic!("the member is let in"),
    }
    assert!(matches!(check_admission(&card(Vec::new()), None), Ok(None)));
}

#[test]
fn a_bound_conversation_reuses_its_group() {
    let mut daemon = Daemon::new("");
    daemon.members = true;
    daemon.exists = true;
    daemon.bound = Some(object(vec![("group_id", text("g1")), ("actor_id", text("web"))]));
    let mut args = creation();
    args.put("title", text("Other"));
    assert_eq!(refusal(daemon.run(Onboarding::Create, args)), "session_already_bound");
    assert!(daemon.log.is_empty());
    let bind = object(vec![
        ("by", text("user")),
        ("session", text("chat-1")),
        ("group", text("g1")),
        ("chat_url", text("not stable")),
    ]);
    assert_eq!(refusal(daemon.run(Onboarding::Bind, bind)), "invalid_chat_url");
}
