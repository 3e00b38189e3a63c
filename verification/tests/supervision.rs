//! Which actors are visited, in which order, and how a stalled page is recovered.

use cccc_relay::json::{Json, JsonMap};
use cccc_relay::model::{ActorRuntime, GroupState};
use cccc_relay::probe::{
    after_confirm, after_fresh, after_reload, completed_turn, reconcile_relay_page, Observed,
    ProbeState, ProbeStep, LONGEST_DELAY, PROBE_TIMEOUT, RECHECK_INTERVAL,
};
use cccc_relay::supervisor::{
    actor_delivery_enabled, actor_setting_with_process, browser_delivery_requested,
    group_actor_delivery_enabled, group_state_allows_delivery, is_reachable, normalize,
    relay_reminder_args, running_browser_actors, BrowserActor, BrowserGroup,
};

const AT: &str = "2026-09-05T00:00:00Z";

fn text(value: &str) -> Json {
    Json::Str(value.to_string())
}

fn object(entries: Vec<(&str, Json)>) -> JsonMap {
    JsonMap {
        entries: entries
            .into_iter()
            .map(|(key, value)| (key.to_string(), value))
            .collect(),
    }
}

fn actor() -> BrowserActor {
    BrowserActor {
        id: "web".to_string(),
        runtime: ActorRuntime::WebModel,
        headless: true,
        enabled: true,
        mode: String::new(),
        provider: "chatgpt".to_string(),
        connector_provider: None,
        target: None,
    }
}

#[test]
fn settings_are_trimmed_and_lowered() {
    assert_eq!(normalize("  ChatGPT_Web "), "chatgpt_web");
    let own = vec![None, Some("  ".to_string()), Some(" Browser ".to_string())];
    let process = vec![Some("PULL".to_string())];
    assert_eq!(actor_setting_with_process(&own, &process), "browser");
    assert_eq!(actor_setting_with_process(&vec![None], &process), "pull");
    assert_eq!(actor_setting_with_process(&Vec::new(), &Vec::new()), "");
}

#[test]
fn delivery_by_browser_is_asked_for_by_mode_or_provider() {
    for mode in ["pull", "native", "remote_mcp", "off", "disabled", "none"] {
        assert!(!browser_delivery_requested(mode, "chatgpt"));
    }
    for mode in ["browser", "chatgpt", "chatgpt_browser", "browser_delivery"] {
        assert!(browser_delivery_requested(mode, ""));
    }
    for provider in ["chatgpt", "chatgpt_web", "browser_web_model", "chatgpt_browser"] {
        assert!(browser_delivery_requested("", provider));
    }
    assert!(!browser_delivery_requested("", "other"));
}

#[test]
fn only_an_enabled_web_actor_of_a_running_group_is_delivered_to() {
    let enabled = |a: &BrowserActor| group_actor_delivery_enabled(true, GroupState::Active, a);
    assert!(enabled(&actor()));
    assert!(!enabled(&BrowserActor { enabled: false, ..actor() }));
    assert!(!enabled(&BrowserActor { headless: false, ..actor() }));
    assert!(!enabled(&BrowserActor { runtime: ActorRuntime::Local, ..actor() }));
    assert!(!enabled(&BrowserActor { mode: "off".to_string(), ..actor() }));
    let unset = BrowserActor { provider: String::new(), ..actor() };
    assert!(!enabled(&unset));
    assert!(enabled(&BrowserActor {
        connector_provider: Some(" ChatGPT ".to_string()),
        ..unset
    }));
    for state in [GroupState::Paused, GroupState::Stopped] {
        assert!(!group_actor_delivery_enabled(true, state, &actor()));
        assert!(!group_state_allows_delivery(true, state));
    }
    assert!(group_state_allows_delivery(true, GroupState::Idle));
    assert!(!group_state_allows_delivery(false, GroupState::Active));
    let group = BrowserGroup { group_id: "g".to_string(), running: true, state: GroupState::Active, actors: vec![actor()] };
    assert!(actor_delivery_enabled(Some(&group), "web"));
    assert!(!actor_delivery_enabled(Some(&group), "other"));
    assert!(!actor_delivery_enabled(None, "web"));
}

#[test]
fn the_longest_waiting_actor_is_visited_first() {
    let visited = |id: &str, at: &str| BrowserActor {
        id: id.to_string(),
        target: Some(Json::Obj(object(vec![("last_delivery_started_at", text(at))]))),
        ..actor()
    };
    let group = |id: &str, state: GroupState, actors: Vec<BrowserActor>| BrowserGroup {
        group_id: id.to_string(),
        running: true,
        state,
        actors,
    };
    let order = running_browser_actors(&vec![
        group(
            "g1",
            GroupState::Active,
            vec![
                visited("late", "2026-09-05T00:00:30Z"),
                actor(),
                BrowserActor { enabled: false, ..actor() },
            ],
        ),
        group("g2", GroupState::Paused, vec![actor()]),
        group(
            "g3",
            GroupState::Active,
            vec![
                visited("early", "2026-09-05T02:00:10+02:00"),
                visited("tied", "2026-09-05T00:00:10Z"),
                visited("odd", "yesterday"),
            ],
        ),
    ]);
    let ids: Vec<(&str, &str)> =
        order.iter().map(|c| (c.group_id.as_str(), c.actor_id.as_str())).collect();
    assert_eq!(
        ids,
        vec![("g1", "web"), ("g3", "odd"), ("g3", "early"), ("g3", "tied"), ("g1", "late")]
    );
}

#[test]
fn a_reminder_says_who_asks_and_whether_the_page_is_idle() {
    let args = relay_reminder_args(object(vec![("group_id", text("g"))]), "web", Some(true));
    assert!(args.is("group_id", "g"));
    assert!(args.is("by", "web"));
    assert_eq!(args.flag("browser_idle"), Some(true));
    let unknown = relay_reminder_args(JsonMap::new(), "web", None);
    assert_eq!(unknown.flag("browser_idle"), Some(false));
}

#[test]
fn an_actor_is_reachable_by_an_address_or_a_new_chat() {
    assert!(is_reachable(&Json::Obj(object(vec![("kind", text("new_chat"))]))));
    assert!(is_reachable(&Json::Obj(object(vec![("url", text("https://chatgpt.com/c/one"))]))));
    assert!(!is_reachable(&Json::Obj(JsonMap::new())));
}

fn page(running: bool) -> Observed {
    Observed {
        url: "https://chatgpt.com/c/one".to_string(),
        latest_turn_id: "turn-1".to_string(),
        running,
        stop_visible: false,
        composer_chars: 0,
        page_blocker: String::new(),
    }
}

fn resting() -> ProbeState {
    ProbeState::new()
}

fn look(state: &mut ProbeState, observed: &Observed, now: u64) -> ProbeStep {
    reconcile_relay_page(state, observed, false, false, true, "web", now)
}

#[test]
fn a_stalled_page_is_compared_with_a_fresh_one_and_loaded_again() {
    let mut state = resting();
    assert!(matches!(look(&mut state, &page(true), 1_000), ProbeStep::Open));
    assert_eq!(state.after, Some(1_000 + RECHECK_INTERVAL));
    assert_eq!(state.delay, 2 * RECHECK_INTERVAL);
    assert!(matches!(look(&mut state, &page(true), 2_000), ProbeStep::Inspect));
    let fresh = page(false);
    let done = completed_turn(&fresh, "https://chatgpt.com/c/one", false, true, Some("turn-2".to_string()));
    assert_eq!(done, Some("turn-2".to_string()));
    assert!(matches!(
        after_fresh(&mut state, &fresh, false, done.clone(), "web", 3_000, AT),
        ProbeStep::Rest
    ));
    assert!(matches!(
        after_fresh(&mut state, &fresh, false, done.clone(), "web", 4_000, AT),
        ProbeStep::Confirm
    ));
    assert!(matches!(
        after_confirm(&mut state, &page(true), true, "web"),
        ProbeStep::Reload
    ));
    assert!(state.probe.is_none());
    after_reload(&mut state, "https://chatgpt.com/c/one", &done, AT);
    assert!(state.outcome.is("state", "refreshed"));
    assert!(state.outcome.is("completed_turn", "turn-2"));
    assert_eq!(state.delay, RECHECK_INTERVAL);
}

#[test]
fn a_draft_keeps_the_page_as_it_is() {
    let mut state = resting();
    assert!(matches!(look(&mut state, &page(true), 1_000), ProbeStep::Open));
    let drafted = Observed { composer_chars: 4, ..page(true) };
    assert!(matches!(look(&mut state, &drafted, 2_000), ProbeStep::Cancel));
    assert!(state.probe.is_none());
    assert_eq!(state.after, None);
    assert!(matches!(look(&mut state, &page(true), 3_000), ProbeStep::Open));
    assert!(matches!(
        after_confirm(&mut state, &drafted, false, "web"),
        ProbeStep::Cancel
    ));
}

#[test]
fn a_blocked_page_is_left_alone_until_it_changes() {
    let mut state = resting();
    assert!(matches!(look(&mut state, &page(true), 1_000), ProbeStep::Open));
    let barred = Observed { page_blocker: "rate_limited".to_string(), ..page(false) };
    assert!(matches!(
        after_fresh(&mut state, &barred, false, None, "web", 2_000, AT),
        ProbeStep::Cancel
    ));
    assert!(state.outcome.is("state", "blocked"));
    assert!(state.outcome.is("reason", "rate_limited"));
    assert!(matches!(look(&mut state, &page(true), 9_000_000), ProbeStep::Rest));
    let moved = Observed { latest_turn_id: "turn-9".to_string(), ..page(true) };
    assert!(matches!(look(&mut state, &moved, 9_000_000), ProbeStep::Open));
    assert!(matches!(
        after_fresh(&mut state, &page(false), true, None, "web", 9_000_001, AT),
        ProbeStep::Cancel
    ));
    assert!(state.outcome.is("reason", "login_required"));
}

#[test]
fn waits_grow_and_a_probe_runs_out() {
    let mut state = resting();
    let mut now: u64 = 0;
    for _ in 0..6 {
        assert!(matches!(look(&mut state, &page(true), now), ProbeStep::Open));
        assert!(matches!(
            after_fresh(&mut state, &page(true), false, None, "web", now + PROBE_TIMEOUT, AT),
            ProbeStep::Cancel
        ));
        assert!(matches!(look(&mut state, &page(true), now + 1), ProbeStep::Rest));
        now += LONGEST_DELAY;
    }
    assert_eq!(state.delay, LONGEST_DELAY);
    assert!(matches!(
        reconcile_relay_page(&mut state, &page(false), false, true, true, "web", now),
        ProbeStep::Cancel
    ));
    assert_eq!(state.delay, RECHECK_INTERVAL);
}

#[test]
fn a_probe_belongs_to_its_owner() {
    let mut state = resting();
    assert!(matches!(look(&mut state, &page(true), 0), ProbeStep::Open));
    assert!(matches!(
        reconcile_relay_page(&mut state, &page(true), false, false, true, "other", 1),
        ProbeStep::Rest
    ));
    let drafted = Observed { composer_chars: 4, ..page(true) };
    assert!(matches!(
        reconcile_relay_page(&mut state, &drafted, false, false, true, "other", 1),
        ProbeStep::Rest
    ));
    assert!(matches!(
        reconcile_relay_page(&mut state, &page(false), false, true, true, "other", 1),
        ProbeStep::Rest
    ));
    assert!(state.probe.is_some());
    assert!(!state.cancel_relay_probe("other"));
    assert!(state.probe.is_some());
    assert!(state.cancel_relay_probe("web"));
    assert!(state.probe.is_none());
    assert_eq!(completed_turn(&page(true), "https://chatgpt.com/c/one", false, true, Some("t".to_string())), None);
}
