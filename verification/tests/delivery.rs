//! Visits to the conversation of a web model: prompts, attempts, recoveries and their ends.

use cccc_relay::delivery::attempt::{
    acquire_dispatch_permit, after_bound, after_cleared, after_completed, after_conversation,
    after_marked, after_open, after_submission, after_surface_probe, after_unverified_completion,
    after_wait, before_dispatch, bind_new_chat_target, complete_ambiguous_attempt,
    completion_pending_patch, dispatch_mark, retry_unsubmitted_turn,
};
use cccc_relay::delivery::image::{compatibility_image_for_delivery, mark_image};
use cccc_relay::delivery::plan::{
    draft_is_empty, requires_browser_action, retryable_pre_send_deferral, Attempt, DeliveryFact,
    Effect, Next, Outcome, Plan, Receipt, Submission, Visit,
};
use cccc_relay::delivery::prompt::{
    bootstrap_seed_digest, browser_delivery_id, browser_wait_args, build_browser_prompt,
    event_label_of, legacy_wmd_staged_prompt, needs_image, required, ApiError, BootstrapSeed,
    BOOTSTRAP_SEED_VERSION, WEB_TRANSPORT_NOTE,
};
use cccc_relay::delivery::recovery::{
    after_inspected, after_judged, after_legacy_conversation, after_legacy_inspected,
    after_legacy_marked, after_legacy_submission, after_legacy_turn, after_receipt_turn,
    is_legacy_pending_delivery, mark_bootstrap_seed_delivered, recover_legacy_pending_delivery,
    recover_verified_ambiguous_submission, resolve_pending_new_chat, Search,
};
use cccc_relay::delivery::route::{
    after_legacy_url, after_no_receipt, after_probe, after_reconcile, after_snapshot,
    after_statuses, may_visit, start,
};
use cccc_relay::delivery::visit::{
    begin_visit, close_visit, pending_url, SessionGuard, Sessions,
};
use cccc_relay::json::{Json, JsonMap};
use cccc_relay::time::Instant;

const AT: &str = "2026-09-05T00:00:00Z";
const CHAT: &str = "https://chatgpt.com/c/one";

fn text(value: &str) -> Json {
    Json::Str(value.to_string())
}

fn list(values: &[&str]) -> Json {
    Json::Arr(values.iter().map(|value| text(value)).collect())
}

fn object(entries: Vec<(&str, Json)>) -> JsonMap {
    JsonMap {
        entries: entries
            .into_iter()
            .map(|(key, value)| (key.to_string(), value))
            .collect(),
    }
}

fn tree(entries: Vec<(&str, Json)>) -> Json {
    Json::Obj(object(entries))
}

fn turn() -> Json {
    tree(vec![
        ("turn_id", text("runtime:web:42")),
        ("event_ids", list(&["e1", "e2"])),
        ("coalesced_text", text("Do the work.")),
        ("system_prompt", text("You are the lead.")),
    ])
}

fn existing_chat(status: &str) -> Json {
    tree(vec![
        ("kind", text("existing_chat")),
        ("url", text(CHAT)),
        ("last_delivery_status", text(status)),
        ("last_delivery_id", text("webdelivery:web:42")),
        ("last_delivery_turn_id", text("runtime:web:42")),
        ("last_delivery_event_ids", list(&["e1", "e2"])),
    ])
}

fn new_chat(status: &str) -> Json {
    let mut target = match existing_chat(status) {
        Json::Obj(map) => map,
        _ => unreachable!(),
    };
    target.put("kind", text("new_chat"));
    Json::Obj(target)
}

fn with(value: Json, key: &str, member: Json) -> Json {
    match value {
        Json::Obj(mut map) => {
            map.put(key, member);
            Json::Obj(map)
        }
        _ => panic!("an object is changed"),
    }
}

fn evidence(kind: &str) -> Json {
    tree(vec![("submission_evidence", text(kind))])
}

fn visit(target: Json, active: bool) -> Visit {
    Visit {
        group_id: "g".to_string(),
        actor_id: "web".to_string(),
        manage_browser: true,
        auto_close: false,
        base_args: object(vec![("group_id", text("g")), ("actor_id", text("web"))]),
        target,
        surface: tree(vec![("active", Json::Bool(active)), ("url", text(CHAT))]),
    }
}

/// What the outside answers when a visit asks.
struct Outside {
    submission: fn() -> Submission,
    cleared: Result<(), String>,
    completed: Result<(), String>,
    conversation: Option<String>,
    marked: bool,
    opened: Result<(), String>,
    work: bool,
}

fn outside() -> Outside {
    Outside {
        submission: || Submission::Verified(evidence("message_echo")),
        cleared: Ok(()),
        completed: Ok(()),
        conversation: None,
        marked: true,
        opened: Ok(()),
        work: true,
    }
}

/// What a visit has left behind.
struct Trace {
    target: Json,
    facts: Vec<DeliveryFact>,
    connector: Vec<String>,
    held: usize,
    submitted: usize,
    end: Result<Outcome, String>,
}

fn run(visit: &Visit, outside: &Outside) -> Trace {
    let mut trace = Trace {
        target: visit.target.copy(),
        facts: Vec::new(),
        connector: Vec::new(),
        held: 0,
        submitted: 0,
        end: Err(String::new()),
    };
    let mut plan: Plan = start(visit, false, AT);
    let patch = |target: &mut Json, members: &JsonMap| {
        for (key, value) in &members.entries {
            if let Json::Obj(map) = target {
                map.put(key, value.copy());
            }
        }
    };
    loop {
        for effect in plan.effects {
            match effect {
                Effect::Patch(members) => patch(&mut trace.target, &members),
                Effect::Connector(status, _, _) => trace.connector.push(status),
                Effect::Record(fact) => trace.facts.push(fact),
                Effect::Schedule => {}
                Effect::AutoClose => {}
                Effect::Hold(_) => trace.held += 1,
            }
        }
        plan = match plan.next {
            Next::Done(outcome) => {
                trace.end = Ok(outcome);
                return trace;
            }
            Next::Fail(error) => {
                trace.end = Err(match error {
                    ApiError::Bad(message) => message,
                    ApiError::Unavailable(code, message) => format!("{code}: {message}"),
                });
                return trace;
            }
            Next::WaitTurn(args) => {
                assert!(args.is("transport", "web_model_browser"));
                let wait = if outside.work {
                    tree(vec![("status", text("work_available")), ("turn", turn())])
                } else {
                    tree(vec![("status", text("idle"))])
                };
                after_wait(visit, &wait, AT)
            }
            Next::MarkPreparing(attempt, members) => {
                if outside.marked {
                    patch(&mut trace.target, &members);
                }
                after_marked(visit, attempt, outside.marked)
            }
            Next::ProbeSurface(attempt) => after_surface_probe(visit, attempt, None),
            Next::Open(attempt) => after_open(visit, attempt, outside.opened.clone()),
            Next::Submit(attempt) => {
                match before_dispatch(visit, &attempt, true) {
                    Ok(fact) => trace.facts.push(fact),
                    Err(error) => panic!("{error}"),
                }
                patch(&mut trace.target, &dispatch_mark("submitting"));
                trace.submitted += 1;
                after_submission(visit, attempt, (outside.submission)(), "gone away", AT)
            }
            Next::ClearStaged(attempt, submission) => after_cleared(
                visit,
                attempt,
                submission,
                outside.cleared.clone(),
                "gone away",
                AT,
            ),
            Next::Complete(attempt, browser) => {
                after_completed(visit, attempt, browser, outside.completed.clone(), AT)
            }
            Next::NewConversation(attempt, browser) => {
                after_conversation(visit, attempt, browser, Ok(outside.conversation.clone()), AT)
            }
            Next::BindConversation(attempt, browser, url, members) => {
                patch(&mut trace.target, &members);
                after_bound(visit, attempt, browser, &url, Ok(()), AT)
            }
            Next::CompleteUnverified(attempt, message) => {
                after_unverified_completion(&attempt, &message, outside.completed.clone())
            }
            Next::PendingUrl(target) => {
                resolve_pending_new_chat(&target, outside.conversation.clone(), AT)
            }
            Next::LegacyUrl => after_legacy_url(visit, outside.conversation.clone()),
            Next::Reconcile => after_reconcile(outside.completed.is_ok()),
            Next::Snapshot => after_snapshot(visit, true, &trace.target),
            Next::AskStatuses(_) => after_statuses(visit, &Json::Null, false, AT),
            Next::ProbeTarget => after_probe(visit, Some(evidence("not_sent_chat_busy")), false, AT),
            _ => panic!("the visit asks for something else"),
        }
    }
}

fn states(trace: &Trace) -> Vec<String> {
    trace.facts.iter().map(|fact| fact.state.clone()).collect()
}

fn attempt() -> Attempt {
    Attempt {
        turn_id: "runtime:web:42".to_string(),
        event_ids: list(&["e1", "e2"]),
        delivery_id: "webdelivery:web:42".to_string(),
        turn: turn(),
        prompt: String::new(),
        seed: None,
    }
}

#[test]
fn rejected_session_guard_cannot_release_the_current_owner() {
    let mut workers = Sessions::new();
    let mut in_flight = Sessions::new();
    for registry in [&mut workers, &mut in_flight] {
        let key = "guard-contention-6e8bc430-9c3a-11d9-9669-0800200c9a66";
        let held = match SessionGuard::acquire(registry, key) {
            Some(guard) => guard,
            None => panic!("first owner"),
        };
        for _ in 0..10 {
            assert!(
                SessionGuard::acquire(registry, key).is_none(),
                "rejected acquisition erased the live owner's registration"
            );
            assert!(
                registry.contains(key),
                "a rejected contender released another worker's guard"
            );
        }
        held.release(registry);
        match SessionGuard::acquire(registry, key) {
            Some(next) => next.release(registry),
            None => panic!("owner released normally"),
        }
        assert!(!registry.contains(key));
    }
}

#[test]
fn releasing_one_key_keeps_the_others() {
    let mut sessions = Sessions::new();
    let first = SessionGuard::acquire(&mut sessions, "a");
    let second = SessionGuard::acquire(&mut sessions, "b");
    assert!(second.is_some());
    match first {
        Some(guard) => guard.release(&mut sessions),
        None => panic!("first owner"),
    }
    assert!(!sessions.contains("a"));
    assert!(sessions.contains("b"));
}

#[test]
fn a_turn_is_submitted_completed_and_recorded() {
    let visit = visit(existing_chat("submitted"), true);
    let trace = run(&visit, &outside());
    assert_eq!(trace.end, Ok(Outcome::Submitted));
    assert_eq!(states(&trace), vec!["submitting".to_string(), "submitted".to_string()]);
    assert!(trace.target.is("last_delivery_status", "submitted"));
    assert!(trace.target.is("last_error", ""));
    assert!(trace.target.is("bootstrap_seed_conversation_url", CHAT));
    assert_eq!(trace.connector, vec!["submitted".to_string()]);
}

#[test]
fn without_work_a_visit_is_idle() {
    let visit = visit(existing_chat("submitted"), true);
    let trace = run(&visit, &Outside { work: false, ..outside() });
    assert_eq!(trace.end, Ok(Outcome::Idle));
    assert_eq!(trace.submitted, 0);
}

#[test]
fn a_closed_browser_is_opened_and_its_failure_releases_the_turn() {
    let visit = visit(existing_chat("submitted"), false);
    assert_eq!(run(&visit, &outside()).end, Ok(Outcome::Submitted));
    let broken = Outside { opened: Err("no browser".to_string()), ..outside() };
    let trace = run(&visit, &broken);
    assert_eq!(trace.end, Ok(Outcome::Deferred));
    assert_eq!(trace.submitted, 0);
    assert_eq!(states(&trace), vec!["failed".to_string()]);
    assert!(trace.target.is("last_delivery_status", "deferred"));
    assert!(trace.target.is("last_error", "no browser"));
}

#[test]
fn a_changed_target_is_not_prepared() {
    let visit = visit(existing_chat("submitted"), true);
    let trace = run(&visit, &Outside { marked: false, ..outside() });
    assert_eq!(trace.end, Ok(Outcome::Deferred));
    assert!(trace
        .target
        .is("last_error", "browser binding or target changed before preparation"));
}

#[test]
fn an_unsent_prompt_is_kept_for_the_next_visit() {
    let visit = visit(existing_chat("submitted"), true);
    let busy = Outside {
        submission: || Submission::Deferred(evidence("not_sent_chat_busy")),
        ..outside()
    };
    let trace = run(&visit, &busy);
    assert_eq!(trace.end, Ok(Outcome::Idle));
    assert_eq!(trace.held, 1);
    assert_eq!(states(&trace), vec!["submitting".to_string(), "failed".to_string()]);
    assert!(trace.target.is("last_delivery_status", "deferred"));
    let limited = Outside {
        submission: || Submission::Deferred(evidence("not_sent_rate_limited")),
        ..outside()
    };
    assert_eq!(run(&visit, &limited).end, Ok(Outcome::Stopped));
    let other = Outside {
        submission: || Submission::Deferred(evidence("not_sent_other")),
        ..outside()
    };
    assert_eq!(run(&visit, &other).end, Ok(Outcome::Deferred));
}

#[test]
fn a_failed_submission_is_released_unless_the_conversation_is_gone() {
    let visit = visit(existing_chat("submitted"), true);
    let failed =
        Outside { submission: || Submission::Failed("page crashed".to_string()), ..outside() };
    let trace = run(&visit, &failed);
    assert_eq!(trace.end, Ok(Outcome::Deferred));
    assert!(trace
        .target
        .at("last_submission_evidence")
        .is("submission_evidence", "not_sent_before_dispatch"));
    let gone = Outside {
        submission: || Submission::Failed("the chat has gone away".to_string()),
        ..outside()
    };
    let trace = run(&visit, &gone);
    assert_eq!(trace.end, Ok(Outcome::Stopped));
    assert!(trace
        .target
        .at("last_submission_evidence")
        .is("submission_evidence", "bound_conversation_unavailable"));
    let stuck = Outside { cleared: Err("composer is stuck".to_string()), ..failed };
    assert!(run(&visit, &stuck).target.is("last_error", "composer is stuck"));
}

#[test]
fn an_unverified_submission_is_completed_and_not_repeated() {
    let visit_one = visit(existing_chat("submitted"), true);
    let unclear =
        Outside { submission: || Submission::Ambiguous(evidence("unknown")), ..outside() };
    let trace = run(&visit_one, &unclear);
    assert_eq!(trace.end, Ok(Outcome::Ambiguous));
    assert_eq!(states(&trace), vec!["submitting".to_string(), "ambiguous".to_string()]);
    assert!(trace.target.is("last_delivery_status", "submission_ambiguous"));
    assert_eq!(trace.connector, vec!["ambiguous".to_string()]);
    let open = Outside { completed: Err("ledger is away".to_string()), ..unclear };
    let trace = run(&visit_one, &open);
    assert!(trace
        .target
        .is("last_delivery_status", "submission_ambiguous_completion_pending"));
    assert!(trace.target.is("last_error", "ledger is away"));
    let visit_two = visit(trace.target, true);
    let trace = run(&visit_two, &open);
    assert_eq!(trace.end, Ok(Outcome::Ambiguous));
    assert_eq!(trace.submitted, 0);
}

#[test]
fn a_completion_that_fails_is_reconciled_later() {
    let visit_one = visit(existing_chat("submitted"), true);
    let open = Outside { completed: Err("ledger is away".to_string()), ..outside() };
    let trace = run(&visit_one, &open);
    assert_eq!(trace.end, Ok(Outcome::Ambiguous));
    assert!(trace.target.is("last_delivery_status", "completion_ambiguous"));
    let visit_two = visit(trace.target, true);
    let trace = run(&visit_two, &outside());
    assert_eq!(trace.end, Ok(Outcome::Submitted));
    assert_eq!(trace.submitted, 0);
}

#[test]
fn a_new_chat_is_bound_or_waited_for() {
    let visit_one = visit(new_chat(""), true);
    let found = Outside { conversation: Some("https://chatgpt.com/c/new".to_string()), ..outside() };
    let trace = run(&visit_one, &found);
    assert_eq!(trace.end, Ok(Outcome::Submitted));
    assert!(trace.target.is("kind", "existing_chat"));
    assert!(trace.target.is("url", "https://chatgpt.com/c/new"));
    assert_eq!(
        states(&trace),
        vec!["submitting".to_string(), "submitted".to_string(), "bound".to_string()]
    );
    let trace = run(&visit_one, &outside());
    assert!(trace.target.is("last_delivery_status", "pending_new_chat_bind"));
    assert!(trace.target.is("last_error", "conversation_url_pending"));
    assert!(pending_url(&trace.target));
    let visit_two = visit(trace.target.copy(), true);
    let trace = run(&visit_two, &outside());
    assert_eq!(trace.end, Ok(Outcome::Ambiguous));
    assert_eq!(trace.submitted, 0);
    let visit_three = visit(trace.target.copy(), true);
    let trace = run(&visit_three, &found);
    assert_eq!(trace.end, Ok(Outcome::Submitted));
    assert_eq!(states(&trace), vec!["bound".to_string()]);
    assert_eq!(trace.submitted, 0);
}

#[test]
fn an_interrupted_dispatch_is_not_repeated() {
    let visit_one = visit(existing_chat("submitting"), true);
    let trace = run(&visit_one, &outside());
    assert_eq!(trace.end, Ok(Outcome::Ambiguous));
    assert_eq!(trace.submitted, 0);
    assert_eq!(states(&trace), vec!["ambiguous".to_string()]);
    assert!(trace
        .target
        .at("last_submission_evidence")
        .is("submission_evidence", "interrupted_dispatch"));
    let visit_two = visit(existing_chat("preparing"), true);
    let trace = run(&visit_two, &outside());
    assert_eq!(trace.end, Ok(Outcome::Deferred));
    assert!(trace
        .target
        .is("last_error", "browser preparation was interrupted before any Send action"));
    let visit_three = visit(existing_chat("legacy_recovery_submitting"), true);
    let trace = run(&visit_three, &outside());
    assert_eq!(trace.end, Ok(Outcome::Ambiguous));
    assert!(trace.target.is("last_delivery_status", "submission_ambiguous"));
    let nameless = visit(
        tree(vec![("url", text(CHAT)), ("last_delivery_status", text("preparing"))]),
        true,
    );
    assert_eq!(
        run(&nameless, &outside()).end,
        Err("runtime turn missing last_delivery_turn_id".to_string())
    );
}

#[test]
fn over_several_visits_an_event_is_sent_once() {
    let verified: fn() -> Submission = || Submission::Verified(evidence("message_echo"));
    let unclear: fn() -> Submission = || Submission::Ambiguous(evidence("unknown"));
    for submission in [verified, unclear] {
        for failures in 0..3 {
            let mut target = existing_chat("submitted");
            let mut closed = false;
            let mut sent = 0;
            for n in 0..4 {
                let completed =
                    if n < failures { Err("ledger is away".to_string()) } else { Ok(()) };
                let around = Outside { work: !closed, submission, completed, ..outside() };
                let trace = run(&visit(target, true), &around);
                sent += trace.submitted;
                closed = closed
                    || states(&trace).iter().any(|state| state == "submitted" || state == "ambiguous");
                target = trace.target;
            }
            assert_eq!(sent, 1);
        }
    }
}

#[test]
fn a_kept_prompt_is_given_up_once_the_ledger_has_settled_it() {
    let target = with(
        existing_chat("deferred"),
        "last_submission_evidence",
        evidence("not_sent_chat_busy"),
    );
    let visit = visit(target, true);
    match start(&visit, false, AT).next {
        Next::AskStatuses(args) => {
            assert!(args.copy_or_null("event_ids").same(&list(&["e1", "e2"])))
        }
        _ => panic!("the ledger is asked first"),
    }
    let state = |first: &str, second: &str| {
        let of = |state: &str| {
            tree(vec![(
                "obligation_status",
                tree(vec![("web", tree(vec![("delivery_state", text(state))]))]),
            )])
        };
        tree(vec![("statuses", tree(vec![("e1", of(first)), ("e2", of(second))]))])
    };
    let patch_of = |plan: Plan| match &plan.effects[0] {
        Effect::Patch(members) => members.text_or_empty("last_delivery_status"),
        _ => panic!("the target is marked"),
    };
    let accepted = after_statuses(&visit, &state("accepted", "accepted"), false, AT);
    assert_eq!(patch_of(accepted), "handled");
    let unclear = after_statuses(&visit, &state("accepted", "ambiguous"), false, AT);
    assert_eq!(patch_of(unclear), "submission_ambiguous");
    let open = after_statuses(&visit, &state("accepted", "claimed"), false, AT);
    assert!(matches!(open.next, Next::ProbeTarget));
    let trace = run(&visit, &outside());
    assert_eq!(trace.end, Ok(Outcome::Idle));
    assert_eq!(trace.held, 1);
}

#[test]
fn a_blocked_page_that_needs_a_person_stops_the_visit() {
    let target = with(
        existing_chat("deferred"),
        "last_submission_evidence",
        evidence("not_sent_login_required"),
    );
    let closed = visit(target.copy(), false);
    match after_statuses(&closed, &Json::Null, false, AT).next {
        Next::Done(outcome) => assert_eq!(outcome, Outcome::Stopped),
        _ => panic!("nobody has logged in"),
    }
    let open = visit(target, true);
    match after_probe(&open, Some(evidence("not_sent_login_required")), false, AT).next {
        Next::Done(outcome) => assert_eq!(outcome, Outcome::Stopped),
        _ => panic!("nobody has logged in"),
    }
    match after_probe(&open, None, false, AT).next {
        Next::WaitTurn(_) => {}
        _ => panic!("the page is free again"),
    }
}

#[test]
fn a_provisional_receipt_is_looked_for_again() {
    let target = with(
        existing_chat("submission_ambiguous"),
        "last_submission_evidence",
        evidence("optimistic_echo_unconfirmed"),
    );
    let visit_one = visit(target, true);
    match recover_verified_ambiguous_submission(&visit_one, false) {
        Search::Step(plan) => assert!(matches!(plan.next, Next::ReceiptTurn(_))),
        Search::NotFound => panic!("the echo may be there by now"),
    }
    let recovered = tree(vec![("turn", turn())]);
    let receipt = || -> Receipt {
        match after_receipt_turn(&visit_one, &recovered, &visit_one.surface) {
            Search::Step(plan) => match plan.next {
                Next::InspectReceipt(receipt) => receipt,
                _ => panic!("the page is inspected"),
            },
            Search::NotFound => panic!("the page is open"),
        }
    };
    assert!(receipt().prompt.ends_with("Do the work."));
    let seen = tree(vec![("observed", tree(vec![("echo_found", Json::Bool(true))]))]);
    let judged = match after_inspected(receipt(), &seen) {
        Search::Step(plan) => match plan.next {
            Next::JudgeReceipt(receipt) => receipt,
            _ => panic!("the evidence is judged"),
        },
        Search::NotFound => panic!("the echo was found"),
    };
    assert!(judged.submission.at("observed").is_true("echo_found"));
    assert!(matches!(after_inspected(receipt(), &Json::Null), Search::NotFound));
    match after_judged(&visit_one, judged, Some("message_echo".to_string()), None, AT) {
        Search::Step(plan) => match plan.next {
            Next::Done(outcome) => assert_eq!(outcome, Outcome::Submitted),
            _ => panic!("the delivery is settled"),
        },
        Search::NotFound => panic!("the evidence holds"),
    }
    assert!(matches!(
        after_judged(&visit_one, receipt(), None, None, AT),
        Search::NotFound
    ));
    let plain = visit(existing_chat("submission_ambiguous"), true);
    assert!(matches!(
        recover_verified_ambiguous_submission(&plain, false),
        Search::NotFound
    ));
    assert!(matches!(after_no_receipt(&plain).next, Next::WaitTurn(_)));
}

#[test]
fn an_older_delivery_is_recovered_by_its_draft() {
    let mut target = match new_chat("submitted") {
        Json::Obj(map) => map,
        _ => unreachable!(),
    };
    target.put("last_delivery_id", text("wmd_7"));
    let target = Json::Obj(target);
    assert!(is_legacy_pending_delivery(&target));
    assert!(!is_legacy_pending_delivery(&new_chat("submitted")));
    let visit = visit(target, true);
    assert!(matches!(start(&visit, false, AT).next, Next::LegacyUrl));
    assert!(matches!(recover_legacy_pending_delivery(&visit).next, Next::LegacyTurn(_)));
    let message = tree(vec![
        ("by", text("worker")),
        ("data", tree(vec![("text", text("Done."))])),
    ]);
    let recovered = tree(vec![(
        "turn",
        with(
            with(turn(), "actor_id", text("web")),
            "messages",
            Json::Arr(vec![message]),
        ),
    )]);
    let turn = match after_legacy_turn(&visit, &recovered).next {
        Next::InspectLegacy(turn, draft) => {
            assert_eq!(draft, "[worker -> web] Done.");
            turn
        }
        _ => panic!("the draft is looked for"),
    };
    match after_legacy_inspected(&visit, turn.copy(), Json::Null, AT).next {
        Next::Done(outcome) => assert_eq!(outcome, Outcome::Ambiguous),
        _ => panic!("the draft is lost"),
    }
    let recoverable = tree(vec![("recoverable", Json::Bool(true))]);
    let attempt = match after_legacy_inspected(&visit, turn, recoverable, AT).next {
        Next::MarkLegacy(attempt, mark) => {
            assert!(mark.is("last_delivery_status", "legacy_recovery_submitting"));
            attempt
        }
        _ => panic!("the target is marked"),
    };
    assert_eq!(attempt.delivery_id, "webdelivery:web:42");
    let attempt = match after_legacy_marked(attempt, true).next {
        Next::SubmitLegacy(attempt) => attempt,
        _ => panic!("the prompt is submitted"),
    };
    let plan = after_legacy_submission(
        &visit,
        attempt,
        Submission::Verified(evidence("message_echo")),
        AT,
    );
    match plan.next {
        Next::LegacyConversation(attempt, browser) => {
            let plan = after_legacy_conversation(&attempt, browser, Some(CHAT.to_string()), AT);
            assert_eq!(plan.effects.len(), 3);
            match plan.next {
                Next::Done(outcome) => assert_eq!(outcome, Outcome::Submitted),
                _ => panic!("the delivery is settled"),
            }
        }
        _ => panic!("the conversation is waited for"),
    }
}

#[test]
fn the_ends_of_an_older_submission() {
    let visit = visit(new_chat("submitted"), true);
    let end = |submission: Submission| after_legacy_submission(&visit, attempt(), submission, AT).next;
    match end(Submission::Deferred(Json::Null)) {
        Next::Done(outcome) => assert_eq!(outcome, Outcome::Deferred),
        _ => panic!("nothing was sent"),
    }
    match end(Submission::Ambiguous(Json::Null)) {
        Next::Done(outcome) => assert_eq!(outcome, Outcome::Ambiguous),
        _ => panic!("nothing was verified"),
    }
    match end(Submission::Failed("page crashed".to_string())) {
        Next::Fail(ApiError::Unavailable(code, message)) => {
            assert_eq!(code, "web_model_legacy_recovery_failed");
            assert_eq!(message, "page crashed");
        }
        _ => panic!("the recovery failed"),
    }
}

#[test]
fn a_stopped_actor_is_not_dispatched_to() {
    let visit = visit(existing_chat("preparing"), true);
    match before_dispatch(&visit, &attempt(), false) {
        Err(error) => assert_eq!(error, "actor stopped during browser preparation"),
        Ok(_) => panic!("the actor was stopped"),
    }
    match before_dispatch(&visit, &attempt(), true) {
        Ok(fact) => {
            assert_eq!(fact.state, "submitting");
            assert!(fact.extra.is("target_url", CHAT));
        }
        Err(error) => panic!("{error}"),
    }
    assert_eq!(acquire_dispatch_permit(true, true), Ok(()));
    assert_eq!(
        acquire_dispatch_permit(false, true),
        Err("browser binding or target changed before Send".to_string())
    );
    assert_eq!(
        acquire_dispatch_permit(true, false),
        Err("browser attempt changed before Send".to_string())
    );
    assert!(dispatch_mark("submitting").is("last_delivery_status", "submitting"));
}

#[test]
fn patches_name_what_they_mark() {
    let seed = Some(BootstrapSeed { text: "seed".to_string(), digest: "d".to_string() });
    let patch = completion_pending_patch("t", list(&["e"]), Json::Null, &seed, CHAT, AT);
    assert!(patch.is("last_delivery_status", "completion_ambiguous"));
    assert!(patch.is("bootstrap_seed_digest", "d"));
    assert!(patch.is("bootstrap_seed_version", BOOTSTRAP_SEED_VERSION));
    let patch = completion_pending_patch("t", list(&["e"]), Json::Null, &None, CHAT, AT);
    assert!(!patch.has("bootstrap_seed_digest"));
    assert!(bind_new_chat_target(CHAT, AT).is("state", "bound_existing_chat"));
    let seed = BootstrapSeed { text: "seed".to_string(), digest: "d".to_string() };
    assert!(mark_bootstrap_seed_delivered(&seed, CHAT, AT)
        .is("bootstrap_seed_conversation_url", CHAT));
    match retry_unsubmitted_turn(&attempt(), "why").next {
        Next::Done(outcome) => assert_eq!(outcome, Outcome::Deferred),
        _ => panic!("the turn is released"),
    }
    match complete_ambiguous_attempt(attempt(), Json::Null, "why", AT).next {
        Next::CompleteUnverified(_, message) => assert_eq!(message, "why"),
        _ => panic!("the turn is completed"),
    }
}

#[test]
fn evidence_is_sorted_by_what_it_asks_for() {
    for kind in [
        "not_sent_chat_busy",
        "not_sent_composer_occupied",
        "not_sent_composer_unavailable",
    ] {
        assert!(retryable_pre_send_deferral(&evidence(kind)));
        assert!(!requires_browser_action(&evidence(kind)));
    }
    for kind in [
        "not_sent_conversation_archived",
        "not_sent_rate_limited",
        "not_sent_access_denied",
        "not_sent_verification_required",
        "not_sent_login_required",
    ] {
        assert!(!retryable_pre_send_deferral(&evidence(kind)));
        assert!(requires_browser_action(&evidence(kind)));
    }
    assert!(draft_is_empty(&Json::Null));
    assert!(draft_is_empty(&tree(vec![("composer_chars", Json::Int(0))])));
    assert!(!draft_is_empty(&tree(vec![("composer_chars", Json::Int(5))])));
}

#[test]
fn a_prompt_is_seeded_once_for_each_conversation() {
    let build = |target: &Json, turn: &Json| {
        match build_browser_prompt(turn, target, CHAT, "web", "webdelivery:web:42", "e1,e2") {
            Ok(built) => built,
            Err(_) => panic!("the turn is complete"),
        }
    };
    let seed_text = format!(
        "[CCCC] Session bootstrap for this browser chat:\n\nYou are the lead.\n\n{WEB_TRANSPORT_NOTE}"
    );
    let (prompt, seed) = build(&Json::Null, &turn());
    assert_eq!(
        prompt,
        format!("{seed_text}\n\n[cccc] Browser batch webdelivery:web:42 events=e1,e2 actor=web\nDo the work.")
    );
    let digest = match seed {
        Some(seed) => seed.digest,
        None => panic!("the conversation is new"),
    };
    assert_eq!(digest, bootstrap_seed_digest(&seed_text));
    assert_eq!(digest.len(), 20);
    let target = tree(vec![
        ("bootstrap_seed_delivered_at", text(AT)),
        ("bootstrap_seed_version", text(BOOTSTRAP_SEED_VERSION)),
        ("bootstrap_seed_digest", text(&digest)),
        ("bootstrap_seed_conversation_url", text(CHAT)),
    ]);
    let (prompt, seed) = build(&target, &turn());
    assert!(seed.is_none());
    assert_eq!(
        prompt,
        "[cccc] Browser batch webdelivery:web:42 events=e1,e2 actor=web\nDo the work."
    );
    let elsewhere = with(target, "bootstrap_seed_conversation_url", text("other"));
    assert!(build(&elsewhere, &turn()).1.is_some());
    let picture = with(
        turn(),
        "delivery",
        tree(vec![("web_model_mode", text("image_compat"))]),
    );
    assert!(needs_image(&picture));
    assert!(!needs_image(&turn()));
    assert!(build(&elsewhere, &picture).0.contains("[CCCC] Compatibility attachment"));
    match build_browser_prompt(&Json::Null, &elsewhere, CHAT, "web", "d", "e") {
        Err(ApiError::Bad(message)) => assert_eq!(message, "runtime turn missing coalesced_text"),
        _ => panic!("the turn has no text"),
    }
}

#[test]
fn small_parts_of_a_prompt() {
    assert_eq!(browser_delivery_id("web", "runtime:web:42"), "webdelivery:web:42");
    assert_eq!(browser_delivery_id("web", "42"), "webdelivery:web:42");
    assert_eq!(event_label_of(&turn(), "event_ids"), "e1,e2");
    let args = browser_wait_args(&object(vec![("group_id", text("g"))]));
    assert!(args.is("group_id", "g"));
    assert!(args.is("transport", "web_model_browser"));
    match required(&turn(), "coalesced_text") {
        Ok(value) => assert_eq!(value, "Do the work."),
        Err(_) => panic!("the text is there"),
    }
    assert!(required(&tree(vec![("a", text("  "))]), "a").is_err());
    let long = tree(vec![
        ("by", text("w")),
        ("data", tree(vec![("text", text(&"x".repeat(30_000)))])),
    ]);
    let turn = tree(vec![("actor_id", text("web")), ("messages", Json::Arr(vec![long]))]);
    match legacy_wmd_staged_prompt(&turn) {
        Ok(draft) => {
            assert!(draft.ends_with("\n\n[cccc] coalesced turn text truncated"));
            assert_eq!(draft.chars().count(), 23_920 + 38);
        }
        Err(_) => panic!("the turn has messages"),
    }
    match legacy_wmd_staged_prompt(&tree(vec![("actor_id", text("web"))])) {
        Err(ApiError::Bad(message)) => {
            assert_eq!(message, "recovered runtime turn missing messages")
        }
        _ => panic!("the turn has no messages"),
    }
}

fn crc_of(bytes: &[u8]) -> u32 {
    let mut crc: u32 = 0xffff_ffff;
    for byte in bytes {
        crc ^= *byte as u32;
        for _ in 0..8 {
            crc = if crc & 1 == 1 { (crc >> 1) ^ 0xedb8_8320 } else { crc >> 1 };
        }
    }
    !crc
}

#[test]
fn the_picture_carries_the_mark_of_its_delivery() {
    let (name, bytes) = match compatibility_image_for_delivery(" webdelivery:web:42 ") {
        Ok(image) => image,
        Err(_) => panic!("the picture is sound"),
    };
    assert!(name.starts_with("cccc-mcp-compat-"));
    assert!(name.ends_with(".png"));
    assert_eq!(name.len(), 16 + 16 + 4);
    assert_eq!(&bytes[0..8], &[0x89, 0x50, 0x4e, 0x47, 0x0d, 0x0a, 0x1a, 0x0a]);
    let mut at = 8;
    let mut kinds = Vec::new();
    while at < bytes.len() {
        let length =
            u32::from_be_bytes([bytes[at], bytes[at + 1], bytes[at + 2], bytes[at + 3]]) as usize;
        let body = &bytes[at + 4..at + 8 + length];
        let sum = u32::from_be_bytes([
            bytes[at + 8 + length],
            bytes[at + 9 + length],
            bytes[at + 10 + length],
            bytes[at + 11 + length],
        ]);
        assert_eq!(crc_of(body), sum);
        kinds.push(body[0..4].to_vec());
        at += 12 + length;
    }
    assert_eq!(kinds[kinds.len() - 2], b"tEXt".to_vec());
    assert_eq!(kinds[kinds.len() - 1], b"IEND".to_vec());
    let same = compatibility_image_for_delivery("webdelivery:web:42");
    match same {
        Ok((again, copy)) => {
            assert_eq!(again, name);
            assert_eq!(copy, bytes);
        }
        Err(_) => panic!("the picture is sound"),
    }
}

#[test]
fn a_picture_that_cannot_be_marked_is_refused() {
    let refused = |outcome: Result<(String, Vec<u8>), ApiError>| match outcome {
        Err(ApiError::Bad(message)) => message,
        _ => panic!("the picture is unsound"),
    };
    assert_eq!(
        refused(compatibility_image_for_delivery(" ")),
        "compatibility image delivery_id is required"
    );
    assert_eq!(
        refused(mark_image(Ok(vec![1, 2, 3]), "d")),
        "compatibility image is missing its terminal PNG chunk"
    );
    assert_eq!(
        refused(mark_image(Err("bad byte".to_string()), "d")),
        "decode compatibility image: bad byte"
    );
}

#[test]
fn an_automatic_visit_waits_for_its_time() {
    let now = Instant { secs: 100, nanos: 0 };
    let later = Some(Instant { secs: 101, nanos: 0 });
    let open = tree(vec![("active", Json::Bool(true))]);
    assert!(begin_visit(false, &open, false, later, now));
    assert!(!begin_visit(false, &open, true, later, now));
    assert!(!begin_visit(false, &Json::Null, false, later, now));
    assert!(begin_visit(false, &Json::Null, false, None, now));
    assert!(begin_visit(false, &Json::Null, false, Some(now), now));
    assert!(!begin_visit(true, &open, false, None, now));
    assert!(may_visit(false, true));
    assert!(!may_visit(true, true));
    assert!(!may_visit(false, false));
}

#[test]
fn a_visit_closes_the_browser_unless_something_is_pending() {
    let done = Some(Outcome::Submitted);
    let settled = close_visit(&existing_chat("submitted"), true, &None, done);
    assert!(settled.close);
    assert_eq!(settled.schedule, Some(false));
    let draft = Some(tree(vec![("composer_chars", Json::Int(3))]));
    assert!(!close_visit(&existing_chat("submitted"), true, &draft, done).close);
    let pending = close_visit(&new_chat("submitted"), true, &None, done);
    assert!(!pending.close);
    assert_eq!(pending.schedule, Some(true));
    let unvisited = close_visit(&existing_chat("submitted"), false, &None, done);
    assert!(!unvisited.close);
    assert_eq!(unvisited.schedule, None);
    let deferred = close_visit(&existing_chat("deferred"), true, &None, done);
    assert_eq!(deferred.schedule, Some(true));
    for ended in [None, Some(Outcome::Deferred)] {
        assert_eq!(
            close_visit(&existing_chat("submitted"), true, &None, ended).schedule,
            Some(true)
        );
    }
    let optimistic = with(
        existing_chat("submission_ambiguous"),
        "last_submission_evidence",
        evidence("optimistic_echo_unconfirmed"),
    );
    let flying = Some(tree(vec![("latest_turn_id", text("request-1"))]));
    assert!(!close_visit(&optimistic, true, &flying, done).close);
    let answered = Some(tree(vec![
        ("latest_turn_id", text("request-1")),
        ("response_started", Json::Bool(true)),
    ]));
    assert!(close_visit(&optimistic, true, &answered, done).close);
}
