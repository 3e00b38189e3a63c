//! Connectors: their store, the binding of conversations, and what is shown of them.

use cccc_relay::connectors::binding::{
    bind_session, find_binding_code, find_session, find_session_route, issue_binding,
    prepare_binding, validate_session_actor,
};
use cccc_relay::connectors::entry::{
    hash_secret, is_revoked, normalized_entry, secret_matches, secret_preview,
};
use cccc_relay::connectors::merge::{after_write, merge_maps, migrate_settings_store};
use cccc_relay::connectors::ops::{
    load, replace_active, restore, retire_actor, retire_group, revoke, update_connector,
};
use cccc_relay::connectors::provisioning::{
    binding_answer, can_show, connector_base_url, create, create_answer, io_error, list as newest_first,
    list_answer, public, read_wanted, record_connector, revoke_answer, CreateError,
};
use cccc_relay::connectors::store::{collapse_active_duplicates, connector_map, Store};
use cccc_relay::connectors::written::store_document;
use cccc_relay::delivery::prompt::ApiError;
use cccc_relay::failure::{Failure, FailureKind};
use cccc_relay::json::{Json, JsonMap};
use cccc_relay::model::{Actor, ActorRole, ActorRuntime, GroupDoc, GroupState};
use cccc_relay::time::Instant;

const NOW: Instant = Instant { secs: 1_790_000_000, nanos: 0 };
const STAMP: &str = "2026-09-21T14:13:20+00:00";

fn text(value: &str) -> Json {
    Json::Str(value.to_string())
}

fn object(entries: Vec<(&str, Json)>) -> JsonMap {
    JsonMap {
        entries: entries
            .into_iter()
            .map(|(key, value)| (key.to_string(), value))
            .collect(),
    }
}

fn connector(revoked: bool, updated_at: &str) -> Json {
    Json::Obj(object(vec![
        ("connector_id", text("wmc_retired")),
        ("group_id", text("g_test")),
        ("actor_id", text("web1")),
        ("provider", text("chatgpt")),
        ("secret_hash", text(&hash_secret("fixture-secret"))),
        ("revoked", Json::Bool(revoked)),
        ("created_at", text("2026-08-28T00:00:00Z")),
        ("updated_at", text(updated_at)),
    ]))
}

#[test]
fn canonical_revocation_wins_over_a_newer_legacy_settings_entry() {
    let canonical = connector_map(&Json::Obj(object(vec![(
        "wmc_retired",
        connector(true, "2026-08-28T00:00:01Z"),
    )])));
    let legacy = Json::Obj(object(vec![
        ("wmc_retired", connector(false, "2026-08-28T00:00:02Z")),
        (
            "wmc_retired_alias",
            Json::Obj(object(vec![
                ("connector_id", text(" wmc_retired_alias ")),
                ("group_id", text(" g_test ")),
                ("actor_id", text("web1 ")),
                ("provider", text("chatgpt")),
                ("secret_hash", text(&hash_secret("legacy-alias-secret"))),
                ("revoked", Json::Bool(false)),
                ("created_at", text("2026-08-28T00:00:02Z")),
                ("updated_at", text("2026-08-28T00:00:02Z")),
            ])),
        ),
    ]));
    let migration = migrate_settings_store(&canonical, Some(&legacy));
    assert!(migration.remove);
    let store = match migration.write {
        Some(store) => store,
        None => panic!("the settings hold connectors"),
    };
    let connectors = load(&store);
    let found = connectors.iter().find(|item| item.is("connector_id", "wmc_retired"));
    match found {
        Some(item) => assert_eq!(item.flag("revoked"), Some(true)),
        None => panic!("no retired connector"),
    }
    assert_eq!(connectors.len(), 1);
}

#[test]
fn settings_without_connectors_are_only_removed() {
    let canonical = Store::new();
    let migration = migrate_settings_store(&canonical, Some(&Json::Obj(JsonMap::new())));
    assert!(migration.remove);
    assert!(migration.write.is_none());
    let migration = migrate_settings_store(&canonical, None);
    assert!(!migration.remove);
    assert!(migration.write.is_none());
}

#[test]
fn older_settings_stay_where_the_store_cannot_be_written() {
    let legacy = Json::Obj(object(vec![("wmc_retired", connector(false, "2026-08-28T00:00:02Z"))]));
    let migration = migrate_settings_store(&Store::new(), Some(&legacy));
    assert!(migration.write.is_some());
    fails_as(
        after_write(&migration, Err(Failure::new(FailureKind::Outside(3), "disk full"))),
        FailureKind::Outside(3),
        "disk full",
    );
    assert!(succeeds(after_write(&migration, Ok(()))));
    assert!(!succeeds(after_write(&migrate_settings_store(&Store::new(), None), Ok(()))));
    let store = present_store(migration.write);
    let again = present_store(migrate_settings_store(&store, Some(&legacy)).write);
    assert_eq!(again.entries.len(), 1);
}

fn present_store(store: Option<Store>) -> Store {
    match store {
        Some(store) => store,
        None => panic!("the settings hold connectors"),
    }
}

#[test]
fn a_binding_lasts_through_changes_of_other_connectors() {
    let mut home = Home::new();
    let code = home.issue("route-a");
    succeeds(home.bind("route-a", &code, "chat"));
    let other = home.issue("route-b");
    succeeds(home.bind("route-b", &other, "other-chat"));
    assert!(update_connector(&mut home.store, "route-a", |mut item: JsonMap| {
        item.put("last_activity_at", text("2027-01-01T00:00:00Z"));
        item
    }));
    let group_b = home.groups[1].group_id.clone();
    let retired = retire_actor(&mut home.store, &group_b, "web-lead", STAMP);
    let entries: Vec<Json> = retired.into_iter().map(|item| Json::Obj(item)).collect();
    succeeds(restore(&mut home.store, &entries));
    assert!(revoke(&mut home.store, "route-b", STAMP));
    let fresh = Json::Obj(object(vec![
        ("connector_id", text("route-c")),
        ("group_id", text(&group_b)),
        ("actor_id", text("web-lead")),
        ("secret_hash", text(&hash_secret("fixture-only"))),
    ]));
    succeeds(replace_active(&mut home.store, &fresh, STAMP));
    fails_as(
        home.bind("route-a", &code, "third-chat"),
        FailureKind::InvalidInput,
        "session_binding_code_invalid",
    );
    assert!(succeeds(find_binding_code(&home.store, &code)).is_none());
    let found = present(succeeds(home.find("chat")));
    assert!(found.is("connector_id", "route-a"));
    assert!(succeeds(home.find("other-chat")).is_none());
}

/// Two groups, each with a web foreman and a connector of it.
struct Home {
    store: Store,
    groups: Vec<GroupDoc>,
}

impl Home {
    fn new() -> Home {
        let mut home = Home { store: Store::new(), groups: Vec::new() };
        for id in ["route-a", "route-b"] {
            let group_id = format!("group-of-{id}");
            home.groups.push(GroupDoc {
                group_id: group_id.clone(),
                running: false,
                state: GroupState::Active,
                actors: vec![Actor {
                    id: "web-lead".to_string(),
                    enabled: true,
                    runtime: ActorRuntime::WebModel,
                    role: ActorRole::Foreman,
                    created_at: STAMP.to_string(),
                }],
                available_foreman: Some("web-lead".to_string()),
            });
            let item = Json::Obj(object(vec![
                ("connector_id", text(id)),
                ("group_id", text(&group_id)),
                ("actor_id", text("web-lead")),
                ("secret_hash", text(&hash_secret("fixture-only"))),
                ("provider", text("chatgpt")),
            ]));
            replace_active(&mut home.store, &item, STAMP).expect("connector");
        }
        home
    }

    fn group_of(&self, item: &JsonMap) -> Result<GroupDoc, Failure> {
        let id = item.text_or_empty("group_id");
        match self.groups.iter().find(|group| group.group_id == id) {
            Some(group) => Ok(GroupDoc {
                group_id: group.group_id.clone(),
                running: group.running,
                state: group.state,
                actors: group
                    .actors
                    .iter()
                    .map(|actor| Actor {
                        id: actor.id.clone(),
                        enabled: actor.enabled,
                        runtime: actor.runtime,
                        role: actor.role,
                        created_at: actor.created_at.clone(),
                    })
                    .collect(),
                available_foreman: group.available_foreman.clone(),
            }),
            None => Err(Failure::other(&format!("group not found: {id}"))),
        }
    }

    fn group_for(&self, connector_id: &str) -> Result<GroupDoc, Failure> {
        match self.store.get(connector_id) {
            Some(entry) => self.group_of(&entry.item),
            None => Err(Failure::other("no connector")),
        }
    }

    fn prepare(&mut self, connector_id: &str, ttl: i64) -> Result<JsonMap, Failure> {
        let group = self.group_for(connector_id);
        prepare_binding(&mut self.store, connector_id, ttl, &group, NOW)
    }

    fn issue(&mut self, connector_id: &str) -> String {
        self.prepare(connector_id, 600).expect_code()
    }

    fn bind(&mut self, connector_id: &str, code: &str, session: &str) -> Result<JsonMap, Failure> {
        let group = self.group_for(connector_id);
        bind_session(&mut self.store, connector_id, code, session, &group, NOW)
    }

    fn find(&self, session: &str) -> Result<Option<JsonMap>, Failure> {
        let group = match find_session_route(&self.store, session)? {
            Some(item) => self.group_of(&item),
            None => Err(Failure::other("no conversation")),
        };
        find_session(&self.store, session, &group)
    }
}

trait Told {
    fn expect_code(self) -> String;
    fn refusal(self) -> String;
}

impl Told for Result<JsonMap, Failure> {
    fn expect_code(self) -> String {
        match self {
            Ok(told) => told.text_or_empty("code"),
            Err(error) => panic!("{error:?}"),
        }
    }

    fn refusal(self) -> String {
        match self {
            Ok(_) => panic!("binding must be rejected"),
            Err(error) => error.message,
        }
    }
}

fn succeeds<T>(outcome: Result<T, Failure>) -> T {
    match outcome {
        Ok(value) => value,
        Err(error) => panic!("{error:?}"),
    }
}

fn fails_as<T>(outcome: Result<T, Failure>, kind: FailureKind, message: &str) {
    match outcome {
        Ok(_) => panic!("it must fail"),
        Err(error) => {
            assert_eq!(error.kind, kind);
            assert_eq!(error.message, message);
        }
    }
}

fn present(found: Option<JsonMap>) -> JsonMap {
    match found {
        Some(item) => item,
        None => panic!("nothing was found"),
    }
}

fn written(value: &Json) -> String {
    match value {
        Json::Null => "null".to_string(),
        Json::Bool(b) => format!("{b}"),
        Json::Int(n) => format!("{n}"),
        Json::Real(t) => t.clone(),
        Json::Str(s) => format!("{s:?}"),
        Json::Arr(items) => items.iter().map(|item| written(item)).collect::<Vec<_>>().join(","),
        Json::Obj(map) => map
            .entries
            .iter()
            .map(|(key, item)| format!("{key:?}:{}", written(item)))
            .collect::<Vec<_>>()
            .join(","),
    }
}

#[test]
fn session_binding_preserves_old_owner_until_single_use_replacement_commits() {
    let mut home = Home::new();
    let first = home.issue("route-a");
    assert!(present(succeeds(find_binding_code(&home.store, &first))).is("connector_id", "route-a"));
    let bound = succeeds(home.bind("route-a", &first, "chat-original"));
    assert!(bound.is("group_id", &home.groups[0].group_id));
    assert!(bound.get("secret").is_none());
    let next = home.issue("route-a");
    assert!(succeeds(home.find("chat-original")).is_some());
    assert_eq!(
        home.bind("route-a", "wrong", "chat-replacement").refusal(),
        "session_binding_code_invalid"
    );
    assert!(succeeds(home.find("chat-original")).is_some());
    succeeds(home.bind("route-a", &next, "chat-replacement"));
    assert!(succeeds(home.find("chat-original")).is_none());
    assert!(succeeds(find_binding_code(&home.store, &next)).is_none());
    assert_eq!(
        home.bind("route-a", &next, "chat-attacker").refusal(),
        "session_binding_code_invalid"
    );
    assert!(present(succeeds(home.find("chat-replacement")))
        .is("group_id", &home.groups[0].group_id));
    let disk = load(&home.store)
        .into_iter()
        .map(|item| written(&Json::Obj(item)))
        .collect::<Vec<_>>()
        .join("\n");
    for secret in [first.as_str(), next.as_str(), "chat-original", "chat-replacement"] {
        assert!(!disk.contains(secret), "raw binding material was persisted");
    }
}

#[test]
fn session_binding_rejects_cross_group_reuse_without_consuming_the_other_code() {
    let mut home = Home::new();
    let a = home.issue("route-a");
    let b = home.issue("route-b");
    succeeds(home.bind("route-a", &a, "chat-a"));
    assert_eq!(home.bind("route-b", &b, "chat-a").refusal(), "session_already_bound");
    succeeds(home.bind("route-b", &b, "chat-b"));
    assert!(present(succeeds(home.find("chat-a"))).is("group_id", &home.groups[0].group_id));
    assert!(present(succeeds(home.find("chat-b"))).is("group_id", &home.groups[1].group_id));
    assert!(succeeds(home.find("")).is_none());
    assert!(succeeds(find_binding_code(&home.store, "")).is_none());
}

#[test]
fn session_binding_expiry_and_revocation_keep_the_current_owner() {
    let mut home = Home::new();
    let code = home.issue("route-a");
    succeeds(home.bind("route-a", &code, "active-chat"));
    let expired = home.prepare("route-a", 0).expect_code();
    assert_eq!(
        home.bind("route-a", &expired, "new-chat").refusal(),
        "session_binding_code_expired"
    );
    assert!(succeeds(home.find("active-chat")).is_some());
    let cancelled = home.issue("route-a");
    let current = home.issue("route-a");
    assert!(home.bind("route-a", &cancelled, "new-chat").is_err());
    assert_eq!(home.bind("route-a", "", "new-chat").refusal(), "session_binding_code_invalid");
    assert_eq!(home.bind("route-a", &current, " ").refusal(), "session_binding_required");
    assert!(revoke(&mut home.store, "route-a", STAMP));
    assert!(succeeds(home.find("active-chat")).is_none());
    assert_eq!(home.bind("route-a", &current, "new-chat").refusal(), "connector_revoked");
}

#[test]
fn session_binding_revalidates_disabled_replaced_and_demoted_foremen() {
    let mut home = Home::new();
    let code = home.issue("route-a");
    succeeds(home.bind("route-a", &code, "active-chat"));
    let pending = home.issue("route-a");
    for change in ["disabled", "local", "demoted", "removed"] {
        let original = succeeds(home.group_for("route-a"));
        match change {
            "disabled" => home.groups[0].actors[0].enabled = false,
            "local" => home.groups[0].actors[0].runtime = ActorRuntime::Local,
            "demoted" => {
                home.groups[0].actors[0].role = ActorRole::Peer;
                home.groups[0].actors.insert(
                    0,
                    Actor {
                        id: "new-lead".to_string(),
                        enabled: true,
                        runtime: ActorRuntime::Local,
                        role: ActorRole::Foreman,
                        created_at: STAMP.to_string(),
                    },
                );
            }
            "removed" => home.groups[0].actors.clear(),
            _ => unreachable!(),
        }
        assert_eq!(
            home.bind("route-a", &pending, "new-chat").refusal(),
            "connector_actor_unavailable"
        );
        assert!(home.find("active-chat").is_err());
        assert!(home.prepare("route-a", 600).is_err());
        home.groups[0] = original;
    }
    succeeds(home.bind("route-a", &pending, "new-chat"));
    assert!(succeeds(home.find("new-chat")).is_some());
}

#[test]
fn two_claims_of_one_code_or_one_conversation_have_one_winner() {
    let mut home = Home::new();
    let code = home.issue("route-a");
    succeeds(home.bind("route-a", &code, "chat-one"));
    assert_eq!(
        home.bind("route-a", &code, "chat-two").refusal(),
        "session_binding_code_invalid"
    );
    let mut home = Home::new();
    let a = home.issue("route-a");
    let b = home.issue("route-b");
    succeeds(home.bind("route-a", &a, "chat-one"));
    assert_eq!(home.bind("route-b", &b, "chat-one").refusal(), "session_already_bound");
}

#[test]
fn a_code_is_told_with_its_expiry_and_kept_as_a_hash() {
    let mut home = Home::new();
    let group = home.group_for("route-a");
    let told =
        succeeds(issue_binding(&mut home.store, " route-a ", "secret-code", 60, &group, NOW));
    assert!(told.is("code", "secret-code"));
    assert!(told.is("binding_expires_at", "2026-09-21T14:14:20+00:00"));
    let item = present(succeeds(find_binding_code(&home.store, "secret-code")));
    assert!(item.is("binding_code_hash", &hash_secret("secret-code")));
    assert_eq!(
        issue_binding(&mut home.store, "route-z", "secret-code", 60, &group, NOW).refusal(),
        "connector_not_found"
    );
    let first = home.issue("route-a");
    let second = home.issue("route-a");
    assert_ne!(first, second);
    assert!(first.len() >= 32);
}

#[test]
fn the_longest_life_of_a_code_is_an_hour() {
    let mut home = Home::new();
    let told = succeeds(home.prepare("route-a", 1_000_000));
    assert!(told.is("binding_expires_at", "2026-09-21T15:13:20+00:00"));
    let told = succeeds(home.prepare("route-a", -5));
    assert!(told.is("binding_expires_at", STAMP));
}

#[test]
fn a_written_store_is_read_back() {
    let mut home = Home::new();
    let code = home.issue("route-a");
    succeeds(home.bind("route-a", &code, "chat"));
    assert!(revoke(&mut home.store, "route-b", STAMP));
    let again = connector_map(&store_document(&home.store));
    assert_eq!(again.entries.len(), home.store.entries.len());
    for (a, b) in again.entries.iter().zip(home.store.entries.iter()) {
        assert_eq!(a.id, b.id);
        assert!(Json::Obj(a.item.copy()).same(&Json::Obj(b.item.copy())));
    }
    match store_document(&home.store) {
        Json::Obj(root) => {
            assert_eq!(root.entries.len(), 1);
            match root.get("connectors") {
                Some(held) => assert!(held.at("route-a").is("actor_id", "web-lead")),
                None => panic!("no connectors"),
            }
        }
        _ => panic!("the document is an object"),
    }
}

#[test]
fn two_holders_of_one_conversation_conflict() {
    let mut store = Store::new();
    for id in ["one", "two"] {
        let raw = Json::Obj(object(vec![
            ("connector_id", text(id)),
            ("kind", text("web_model_connector")),
            ("group_id", text(&format!("group-{id}"))),
            ("actor_id", text("web")),
            ("secret_hash", text(&hash_secret("fixture-only"))),
            ("session_hash", text(&hash_secret("chat"))),
        ]));
        match normalized_entry(id, &raw) {
            Some(item) => store.put(id, item),
            None => panic!("the connector is valid"),
        }
    }
    match find_session_route(&store, "chat") {
        Ok(_) => panic!("two connectors hold the conversation"),
        Err(error) => {
            assert_eq!(error.kind, FailureKind::Other);
            assert_eq!(error.message, "connector_binding_conflict");
        }
    }
}

#[test]
fn only_a_connector_of_a_web_foreman_may_converse() {
    let home = Home::new();
    let group = home.group_for("route-a");
    let other = object(vec![("kind", text("other")), ("actor_id", text("web-lead"))]);
    fails_as(
        validate_session_actor(&other, &group),
        FailureKind::InvalidInput,
        "invalid_connector_kind",
    );
    let missing = Err(Failure::new(FailureKind::Outside(7), "group not found: g"));
    match home.store.get("route-a") {
        Some(entry) => {
            succeeds(validate_session_actor(&entry.item, &group));
            fails_as(
                validate_session_actor(&entry.item, &missing),
                FailureKind::Outside(7),
                "group not found: g",
            );
        }
        None => panic!("no connector"),
    }
}

#[test]
fn each_refusal_has_its_kind() {
    let mut home = Home::new();
    fails_as(home.prepare("nobody", 600), FailureKind::NotFound, "connector_not_found");
    let code = home.issue("route-a");
    fails_as(
        home.bind("route-a", &code, " "),
        FailureKind::InvalidInput,
        "session_binding_required",
    );
    fails_as(
        home.bind("route-a", "wrong", "chat"),
        FailureKind::InvalidInput,
        "session_binding_code_invalid",
    );
    let expired = home.prepare("route-a", 0).expect_code();
    fails_as(
        home.bind("route-a", &expired, "chat"),
        FailureKind::TimedOut,
        "session_binding_code_expired",
    );
    let code = home.issue("route-a");
    succeeds(home.bind("route-a", &code, "chat"));
    let other = home.issue("route-b");
    fails_as(
        home.bind("route-b", &other, "chat"),
        FailureKind::AlreadyExists,
        "session_already_bound",
    );
    home.groups[0].actors[0].enabled = false;
    fails_as(
        home.bind("route-a", &code, "chat"),
        FailureKind::PermissionDenied,
        "connector_actor_unavailable",
    );
    assert!(revoke(&mut home.store, "route-a", STAMP));
    fails_as(
        home.bind("route-a", &code, "chat"),
        FailureKind::PermissionDenied,
        "connector_revoked",
    );
}

#[test]
fn a_used_code_is_found_nowhere() {
    let mut home = Home::new();
    let code = home.issue("route-a");
    assert!(succeeds(find_binding_code(&home.store, &code)).is_some());
    succeeds(home.bind("route-a", &code, "chat"));
    assert!(succeeds(find_binding_code(&home.store, &code)).is_none());
    fails_as(
        home.bind("route-a", &code, "other-chat"),
        FailureKind::InvalidInput,
        "session_binding_code_invalid",
    );
    assert!(succeeds(home.find("chat")).is_some());
    assert!(succeeds(home.find("other-chat")).is_none());
}

#[test]
fn a_secret_opens_by_itself_or_by_its_hash() {
    let plain = object(vec![("secret", text("open"))]);
    let hashed = object(vec![("secret_hash", text(&hash_secret("open")))]);
    for item in [&plain, &hashed] {
        assert!(secret_matches(item, "open"));
        assert!(!secret_matches(item, "other"));
        assert!(!secret_matches(item, ""));
    }
    assert_eq!(
        hash_secret("abc"),
        "ba7816bf8f01cfea414140de5dae2223b00361a396177a9cb410ff61f20015ad"
    );
    assert_eq!(secret_preview("short"), "****");
    assert_eq!(secret_preview("0123456789abcdef"), "012345...cdef");
}

#[test]
fn a_new_connector_takes_the_place_of_the_one_in_use() {
    let mut home = Home::new();
    let item = Json::Obj(object(vec![
        ("connector_id", text("route-c")),
        ("group_id", text(&home.groups[0].group_id)),
        ("actor_id", text("web-lead")),
        ("secret_hash", text(&hash_secret("fixture-only"))),
    ]));
    assert_eq!(
        succeeds(replace_active(&mut home.store, &item, STAMP)),
        vec!["route-a".to_string()]
    );
    match (home.store.get("route-a"), home.store.get("route-c"), home.store.get("route-b")) {
        (Some(a), Some(c), Some(b)) => {
            assert!(is_revoked(&a.item));
            assert!(!is_revoked(&c.item));
            assert!(!is_revoked(&b.item));
        }
        _ => panic!("a connector is missing"),
    }
    fails_as(
        replace_active(&mut home.store, &Json::Obj(JsonMap::new()), STAMP),
        FailureKind::InvalidData,
        "connector_id is required",
    );
    let odd = Json::Obj(object(vec![("connector_id", text(" "))]));
    fails_as(
        replace_active(&mut home.store, &odd, STAMP),
        FailureKind::InvalidData,
        "invalid web-model connector",
    );
}

#[test]
fn restoring_gives_back_what_was_retired() {
    let mut home = Home::new();
    let before = load(&home.store);
    let group_id = home.groups[0].group_id.clone();
    let retired = retire_actor(&mut home.store, &group_id, "web-lead", STAMP);
    assert_eq!(retired.len(), 1);
    match home.store.get("route-a") {
        Some(entry) => assert!(is_revoked(&entry.item)),
        None => panic!("no connector"),
    }
    let entries: Vec<Json> = retired.into_iter().map(|item| Json::Obj(item)).collect();
    succeeds(restore(&mut home.store, &entries));
    let after = load(&home.store);
    assert_eq!(before.len(), after.len());
    for (a, b) in before.iter().zip(after.iter()) {
        assert!(Json::Obj(a.copy()).same(&Json::Obj(b.copy())));
    }
    let retired = retire_group(&mut home.store, &group_id, STAMP);
    assert_eq!(retired.len(), 1);
    assert!(retire_group(&mut home.store, "nobody", STAMP).is_empty());
    assert!(restore(&mut home.store, &vec![Json::Null]).is_err());
}

#[test]
fn a_connector_is_changed_in_place() {
    let mut home = Home::new();
    let with_note = |mut item: JsonMap| {
        item.put("note", text("hello"));
        item
    };
    assert!(update_connector(&mut home.store, "route-a", with_note));
    assert!(!update_connector(&mut home.store, "route-z", with_note));
    match home.store.get("route-a") {
        Some(entry) => {
            assert!(entry.item.is("note", "hello"));
            assert!(entry.item.is("actor_id", "web-lead"));
        }
        None => panic!("no connector"),
    }
}

#[test]
fn of_two_connectors_in_use_the_newer_stays() {
    let raw = |id: &str, at: &str| {
        Json::Obj(object(vec![
            ("connector_id", text(id)),
            ("group_id", text("g")),
            ("actor_id", text("web")),
            ("secret_hash", text(&hash_secret("fixture-only"))),
            ("created_at", text(at)),
            ("updated_at", text(at)),
        ]))
    };
    let mut store = Store::new();
    for (id, at) in [("old", "2026-01-01T00:00:00Z"), ("new", "2026-02-01T00:00:00Z")] {
        match normalized_entry(id, &raw(id, at)) {
            Some(item) => store.put(id, item),
            None => panic!("the connector is valid"),
        }
    }
    let once = collapse_active_duplicates(&store);
    let state = |store: &Store, id: &str| match store.get(id) {
        Some(entry) => is_revoked(&entry.item),
        None => panic!("no connector"),
    };
    assert!(state(&once, "old"));
    assert!(!state(&once, "new"));
    let twice = collapse_active_duplicates(&once);
    assert_eq!(load(&once).len(), load(&twice).len());
    assert!(!state(&twice, "new"));
    let merged = merge_maps(&once, &store);
    assert!(state(&merged, "old"));
    assert!(!state(&merged, "new"));
}

#[test]
fn public_connector_contains_binding_status_without_private_binding_material() {
    let item = object(vec![
        ("connector_id", text("wmc_test")),
        ("group_id", text("g_test")),
        ("actor_id", text("lead")),
        ("secret", text("private-secret")),
        ("secret_hash", text("private-hash")),
        ("session_hash", text("private-session")),
        ("binding_code_hash", text("private-code")),
        ("previous_session_hash", text("previous-private-session")),
        ("session_bound_at", text("2026-09-05T00:00:00Z")),
    ]);
    let result = public(&item, "");
    assert_eq!(result.flag("session_bound"), Some(true));
    for name in [
        "secret",
        "secret_hash",
        "session_hash",
        "binding_code_hash",
        "previous_session_hash",
    ] {
        assert!(result.get(name).is_none(), "private field {name}");
    }
}

#[test]
fn a_secret_is_cut_only_between_characters() {
    let item = |secret: &str| object(vec![("secret", text(secret))]);
    assert!(can_show(&item("short")));
    assert!(can_show(&item("wmcs_0123456789")));
    assert!(can_show(&item("\u{e9}\u{e9}\u{e9}-0123456789")));
    assert!(!can_show(&item("12345\u{e9}-0123456789")));
    assert!(can_show(&object(vec![
        ("secret", text("12345\u{e9}-0123456789")),
        ("secret_preview", text("12345...6789")),
    ])));
    assert!(can_show(&JsonMap::new()));
}

#[test]
fn a_shown_connector_has_its_addresses() {
    let item = object(vec![
        ("connector_id", text("wmc_1")),
        ("secret", text("wmcs_0123456789")),
    ]);
    let result = public(&item, "https://example.org");
    assert_eq!(result.flag("session_bound"), Some(false));
    assert_eq!(result.flag("secret_available"), Some(true));
    assert!(result.is("secret_preview", "wmcs_0...6789"));
    let url = result.text_or_empty("connector_url");
    assert!(url.starts_with("https://example.org"));
    assert!(url.ends_with("wmc_1"));
    assert_eq!(
        result.text_or_empty("connector_url_with_token"),
        format!("{url}?token=wmcs_0123456789")
    );
    assert_eq!(connector_base_url(" https://example.org/ui/ "), "https://example.org");
    assert_eq!(connector_base_url("https://example.org/ui"), "https://example.org");
}

#[test]
fn connectors_are_listed_with_the_newest_first() {
    let item = |id: &str, at: &str| {
        object(vec![("connector_id", text(id)), ("created_at", text(at)), ("updated_at", text(at))])
    };
    let sorted = newest_first(&vec![
        item("a", "2026-01-01T00:00:00Z"),
        item("b", "2026-03-01T00:00:00Z"),
        item("c", "2026-02-01T00:00:00Z"),
    ]);
    let ids: Vec<String> = sorted.iter().map(|item| item.text_or_empty("connector_id")).collect();
    assert_eq!(ids, vec!["b".to_string(), "c".to_string(), "a".to_string()]);
}

#[test]
fn a_connector_is_made_for_a_web_actor() {
    let home = Home::new();
    let group = || match home.group_for("route-a") {
        Ok(group) => Some(group),
        Err(_) => None,
    };
    assert!(create(&group(), "g", "web-lead").is_ok());
    match create(&None, "g", "web-lead") {
        Err(CreateError::NotFound(message)) => assert_eq!(message, "group not found: g"),
        _ => panic!("the group is missing"),
    }
    match create(&group(), "g", "nobody") {
        Err(CreateError::NotFound(message)) => assert_eq!(message, "actor not found: nobody"),
        _ => panic!("the actor is missing"),
    }
    let mut local = group();
    if let Some(group) = &mut local {
        group.actors[0].runtime = ActorRuntime::Local;
    }
    match create(&local, "g", "web-lead") {
        Err(CreateError::Bad(message)) => assert_eq!(
            message,
            "web-model connectors require an actor with runtime=web_model"
        ),
        _ => panic!("the actor is local"),
    }
}

#[test]
fn the_answer_with_a_code_names_its_route() {
    let told = object(vec![("code", text("c"))]);
    let connector = object(vec![
        ("group_id", text("g")),
        ("actor_id", text("a")),
        ("session_hash", text("h")),
    ]);
    let answer = binding_answer(&told, &connector);
    assert!(answer.is("code", "c"));
    assert!(answer.is("group_id", "g"));
    assert!(answer.is("actor_id", "a"));
    assert_eq!(answer.flag("session_bound"), Some(true));
}

#[test]
fn an_activity_repeats_its_status() {
    let activity = record_connector("sent", "turn-1", "");
    assert_eq!(activity.method, "browser/delivery");
    assert_eq!(activity.call_status, "sent");
    assert_eq!(activity.wait_status, "sent");
    assert_eq!(activity.turn_id, "turn-1");
    match io_error(&Failure::other("disk full")) {
        ApiError::Bad(message) => assert_eq!(message, "disk full"),
        _ => panic!("an input or output error is a bad request"),
    }
}

#[test]
fn the_answers_of_the_control_plane() {
    let item = object(vec![
        ("connector_id", text("wmc_1")),
        ("secret", text("wmcs_0123456789")),
        ("secret_hash", text("h")),
    ]);
    let answer = create_answer(&item, "", &vec!["wmc_0".to_string()]);
    assert!(answer.is("secret", "wmcs_0123456789"));
    assert_eq!(answer.strings("replaced_connector_ids"), vec!["wmc_0".to_string()]);
    let shown = answer.copy_or_null("connector");
    assert!(shown.is("connector_url", "/mcp/web-model/wmc_1"));
    assert!(shown.get("secret").is_none());
    match list_answer(&vec![item], "").list("connectors") {
        Some(all) => {
            assert_eq!(all.len(), 1);
            assert!(all[0].same(&shown));
        }
        None => panic!("no list"),
    }
    let asked = Json::Obj(object(vec![("label", text("mine"))]));
    assert_eq!(read_wanted(&asked), ("chatgpt".to_string(), "mine".to_string()));
    match revoke_answer(true, "wmc_1") {
        Ok(answer) => assert!(answer.is("connector_id", "wmc_1")),
        Err(_) => panic!("the connector was revoked"),
    }
    match revoke_answer(false, "wmc_1") {
        Err(CreateError::NotFound(message)) => {
            assert_eq!(message, "web-model connector not found")
        }
        _ => panic!("there was no connector"),
    }
}
