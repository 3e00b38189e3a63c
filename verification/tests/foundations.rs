//! Texts, their order, JSON values, instants, paths and the ids of the relay.

use cccc_relay::json::{Json, JsonMap};
use cccc_relay::json_access::{json_texts, strings_of};
use cccc_relay::model::{required_arg, string_arg, bool_arg, DaemonRequest};
use cccc_relay::order::{insert_sorted, sort_texts, sort_unique, str_before};
use cccc_relay::paths::{lock_path, relay_lock_path, same_path, store_path};
use cccc_relay::relay::ids::{
    decision_fingerprint, decision_id, decision_label, handoff_id, handoff_label, hex_digest_of,
    stable_event_id, stable_id,
};
use cccc_relay::relay::sources::{source_event_ids, validate_source_count, MAX_SOURCE_EVENTS};
use cccc_relay::text::{
    blank, contains_text, decimal, has_text, head, hex, join, starts_with, tail_after, to_lower,
    trim,
};
use cccc_relay::time::{read_instant, Instant};
use sha2::Digest;

fn text(value: &str) -> Json {
    Json::Str(value.to_string())
}

fn object(entries: Vec<(&str, Json)>) -> JsonMap {
    JsonMap {
        entries: entries
            .into_iter()
            .map(|(key, value)| (key.to_string(), value))
            .collect(),
    }
}

fn texts(values: &[&str]) -> Vec<String> {
    values.iter().map(|value| value.to_string()).collect()
}

fn request(args: JsonMap) -> DaemonRequest {
    DaemonRequest { v: 1, op: "op".to_string(), args }
}

#[test]
fn texts_behave_as_in_std() {
    for sample in [" a b ", "", "\u{3000}x\u{a0}", "\tA\n", "no"] {
        assert_eq!(trim(sample), sample.trim());
        assert_eq!(blank(sample), sample.trim().is_empty());
        assert_eq!(to_lower(sample), sample.to_ascii_lowercase());
        assert_eq!(starts_with(sample, "A"), sample.starts_with("A"));
        assert_eq!(contains_text(sample, "b"), sample.contains("b"));
    }
    assert_eq!(tail_after("a:b:c", ':'), "c");
    assert_eq!(tail_after("abc", ':'), "abc");
    assert_eq!(join(&texts(&["a", "b"]), ", "), "a, b");
    assert_eq!(join(&Vec::new(), ", "), "");
    assert_eq!(decimal(0), "0");
    assert_eq!(decimal(u64::MAX as u128), "18446744073709551615");
    assert_eq!(hex(&vec![0, 15, 255]), "000fff");
    assert_eq!(head("abc", 2), "ab");
    assert_eq!(head("abc", 9), "abc");
    assert!(has_text(&texts(&["a", "b"]), "b"));
    assert!(!has_text(&texts(&["a", "b"]), "c"));
}

#[test]
fn texts_are_ordered_as_in_std() {
    for a in ["", "a", "ab", "b", "\u{e9}", "\u{10000}", "\u{ffff}"] {
        for b in ["", "a", "ab", "b", "\u{e9}", "\u{10000}", "\u{ffff}"] {
            assert_eq!(str_before(a, b), a < b);
        }
    }
    assert_eq!(sort_unique(&texts(&["b", "a", "b"])), texts(&["a", "b"]));
    assert_eq!(sort_texts(&texts(&["b", "a", "b"])), texts(&["a", "b", "b"]));
    let mut set = texts(&["a", "c"]);
    insert_sorted(&mut set, "b".to_string());
    insert_sorted(&mut set, "b".to_string());
    assert_eq!(set, texts(&["a", "b", "c"]));
}

#[test]
fn members_of_objects_are_read_and_written() {
    let mut map = object(vec![("a", text("x")), ("b", Json::Bool(true)), ("a", text("y"))]);
    assert!(map.is("a", "y"), "the later member holds");
    assert_eq!(map.flag("b"), Some(true));
    assert_eq!(map.flag("a"), None);
    map.put("a", Json::Int(3));
    assert!(map.copy_or_null("a").same(&Json::Int(3)));
    assert_eq!(map.copy_or_null("a").as_u64(), Some(3));
    assert_eq!(Json::Int(-1).as_u64(), None);
    map.drop_key("a");
    assert!(!map.has("a"));
    assert!(map.copy_or_null("a").same(&Json::Null));
    let list = json_texts(&texts(&["p", "q"]));
    map.put("l", list);
    assert_eq!(map.strings("l"), texts(&["p", "q"]));
    assert_eq!(strings_of(&vec![text("p"), Json::Null]), texts(&["p"]));
}

#[test]
fn objects_are_the_same_in_any_order() {
    let a = Json::Obj(object(vec![("x", Json::Int(1)), ("y", Json::Arr(vec![Json::Null]))]));
    let b = Json::Obj(object(vec![("y", Json::Arr(vec![Json::Null])), ("x", Json::Int(1))]));
    assert!(a.same(&b));
    assert!(a.copy().same(&a));
    let c = Json::Obj(object(vec![("x", Json::Int(2)), ("y", Json::Arr(vec![Json::Null]))]));
    assert!(!a.same(&c));
    assert!(a.at("x").same(&Json::Int(1)));
    assert!(a.at("z").same(&Json::Null));
    assert!(Json::Null.at("z").same(&Json::Null));
}

#[test]
fn arguments_are_read_from_requests() {
    let given = request(object(vec![("a", text("x")), ("f", Json::Bool(false))]));
    assert_eq!(string_arg(&given, "a"), Some("x".to_string()));
    assert_eq!(string_arg(&given, "f"), None);
    assert!(!bool_arg(&given, "f", true));
    assert!(bool_arg(&given, "a", true));
    match required_arg(&given, "z") {
        Err(error) => {
            assert_eq!(error.code, "invalid_args");
            assert_eq!(error.message, "missing required argument: z");
        }
        Ok(_) => panic!("the argument is missing"),
    }
}

#[test]
fn instants_are_read_and_written() {
    let at = Instant { secs: 1_790_000_000, nanos: 0 };
    assert_eq!(at.stamp(), "2026-09-21T14:13:20+00:00");
    for stamp in ["2026-09-21T14:13:20+00:00", "2026-09-21T14:13:20Z", "2026-09-21T16:13:20+02:00"] {
        match read_instant(stamp) {
            Some(read) => {
                assert_eq!(read.secs, at.secs);
                assert_eq!(read.nanos, 0);
            }
            None => panic!("the stamp is valid"),
        }
    }
    assert!(read_instant("yesterday").is_none());
    let later = Instant { secs: at.secs + 20, nanos: 0 };
    assert!(later.after(at));
    assert!(!at.after(at));
    assert_eq!(at.max(later).secs, later.secs);
    assert!(at.past(20, later));
    assert!(!at.past(21, later));
    assert!(!at.past(20, Instant { secs: at.secs + 19, nanos: 999_999_999 }));
    let half = Instant { secs: at.secs, nanos: 500_000_000 };
    assert!(!half.past(20, Instant { secs: at.secs + 20, nanos: 499_999_999 }));
    assert!(half.past(20, Instant { secs: at.secs + 20, nanos: 500_000_000 }));
    assert!(Instant { secs: 0, nanos: 0 }.past(1, Instant { secs: 253_402_300_799, nanos: 0 }));
}

#[test]
fn files_have_their_places() {
    assert!(store_path("/home").starts_with("/home/"));
    assert_eq!(lock_path("/home"), format!("{}.lock", store_path("/home")));
    assert_eq!(
        relay_lock_path("/home/groups/g"),
        "/home/groups/g/state/ledger/coordination_relay.lock"
    );
}

#[test]
fn ids_are_stable() {
    assert_eq!(
        hex_digest_of(""),
        "e3b0c44298fc1c149afbf4c8996fb92427ae41e4649b934ca495991b7852b855"
    );
    assert_eq!(stable_event_id(""), "e3b0c44298fc1c149afbf4c8996fb924");
    let a = decision_id("g", "web", &texts(&["e1", "e2"]));
    assert_eq!(a, decision_id("g", "web", &texts(&["e2", "e1"])));
    assert_ne!(a, decision_id("g", "web", &texts(&["e1"])));
    assert_ne!(a, decision_id("g", "other", &texts(&["e1", "e2"])));
    assert!(handoff_id("g", "a", "b", "t").starts_with("relay-handoff"));
    assert_ne!(handoff_id("g", "a", "b", "t"), handoff_id("g", "a", "b", "u"));
    assert_eq!(
        handoff_id("g", "a", "b", "t"),
        stable_id("relay-handoff", &texts(&["g", "a", "b", "t"]))
    );
}

#[test]
fn labels_say_what_was_decided() {
    assert_eq!(decision_label("wait_user", "", "", ""), "Waiting for user");
    assert_ne!(
        decision_label("blocked", "no power", "", ""),
        decision_label("blocked", "no money", "", "")
    );
    assert!(decision_label("continue", "", "worker-b", "Next").contains("worker-b"));
    assert!(handoff_label("worker-a", "completed", 3).contains("worker-a"));
    assert!(handoff_label("worker-a", "completed", 3).contains("3"));
}

#[test]
fn a_value_is_written_as_serde_json_writes_it() {
    let value = Json::Obj(object(vec![
        ("b", Json::Arr(vec![Json::Null, Json::Bool(true), Json::Int(-12), text("\"\\\n\u{7f}\u{e9}")])),
        ("a\u{1}", Json::Obj(object(vec![("z", Json::Real("1.5".to_string())), ("y", Json::Int(0))]))),
        ("", Json::Arr(Vec::new())),
        ("c", Json::Obj(JsonMap::new())),
    ]));
    let mut inner = serde_json::Map::new();
    inner.insert("y".to_string(), serde_json::Value::from(0));
    inner.insert("z".to_string(), serde_json::Value::from(1.5));
    let mut outer = serde_json::Map::new();
    outer.insert("".to_string(), serde_json::Value::Array(Vec::new()));
    outer.insert("a\u{1}".to_string(), serde_json::Value::Object(inner));
    outer.insert(
        "b".to_string(),
        serde_json::Value::Array(vec![
            serde_json::Value::Null,
            serde_json::Value::from(true),
            serde_json::Value::from(-12),
            serde_json::Value::from("\"\\\n\u{7f}\u{e9}"),
        ]),
    );
    outer.insert("c".to_string(), serde_json::Value::Object(serde_json::Map::new()));
    assert_eq!(value.write(), serde_json::to_string(&outer).unwrap());
    assert_eq!(Json::Int(i64::MIN as i128).write(), i64::MIN.to_string());
    assert_eq!(Json::Int(u64::MAX as i128).write(), u64::MAX.to_string());
}

#[test]
fn both_zeros_are_the_same_number() {
    let zero = |sign: &str| Json::Arr(vec![Json::Real(format!("{sign}0.0"))]);
    assert!(zero("").same(&zero("-")));
    assert!(zero("-").same(&zero("-")));
    assert!(!zero("").same(&Json::Arr(vec![Json::Int(0)])));
    assert!(!zero("").same(&Json::Arr(vec![Json::Real("0.5".to_string())])));
}

#[test]
fn paths_are_compared_by_their_parts() {
    for (a, b) in [
        ("/p", "/p/"),
        ("/p//q", "/p/./q/."),
        ("p/q", "p/q/"),
        ("./p", "p"),
        ("/p/../q", "/q"),
        ("/p", "p"),
        ("", "."),
        ("/", "//"),
        (".", "./."),
        ("..", "../"),
        ("/p", "/P"),
        ("./p/.", "./p"),
    ] {
        let expected = std::path::Path::new(a) == std::path::Path::new(b);
        assert_eq!(same_path(a, b), expected, "{a:?} and {b:?}");
        assert_eq!(same_path(b, a), expected, "{b:?} and {a:?}");
    }
}

#[test]
fn a_fingerprint_tells_intents_apart_and_ignores_the_summary() {
    let print = |reason: &str, args: JsonMap| {
        decision_fingerprint("blocked", reason, "", "", "", &request(args))
    };
    let plain = print("r", JsonMap::new());
    assert!(plain.starts_with("relay-intent:"));
    assert_eq!(plain.len(), "relay-intent:".len() + 32);
    assert_eq!(plain, print("r", object(vec![("summary", text("s"))])));
    assert_eq!(plain, print("r", object(vec![("checklist", Json::Null)])));
    assert_ne!(plain, print("q", JsonMap::new()));
    assert_ne!(plain, print("r", object(vec![("task_id", text("T1"))])));
    assert_ne!(plain, print("r", object(vec![("checklist", Json::Arr(vec![text("one")]))])));
    assert_ne!(print("r\"", JsonMap::new()), print("r\\\"", JsonMap::new()));
}

#[test]
fn a_fingerprint_is_the_digest_of_the_framed_intent() {
    let step = object(vec![("title", text("b")), ("done", Json::Bool(false))]);
    let args = object(vec![
        ("outcome", text("tab\there \"x\" \u{1} \u{e9}")),
        ("checklist", Json::Arr(vec![Json::Obj(step)])),
    ]);
    let print = decision_fingerprint(
        "continue",
        "",
        "worker-b",
        "Next \\ step",
        "line one\nline two",
        &request(args),
    );
    let mut framed: Vec<u8> = Vec::new();
    for (name, value) in [
        ("decision", serde_json::to_string("continue").unwrap()),
        ("reason", serde_json::to_string("").unwrap()),
        ("next_actor_id", serde_json::to_string("worker-b").unwrap()),
        ("next_title", serde_json::to_string("Next \\ step").unwrap()),
        ("next_text", serde_json::to_string("line one\nline two").unwrap()),
        ("task_id", "null".to_string()),
        ("outcome", serde_json::to_string("tab\there \"x\" \u{1} \u{e9}").unwrap()),
        ("task_priority", "null".to_string()),
        ("checklist", "[{\"done\":false,\"title\":\"b\"}]".to_string()),
        ("insight", "null".to_string()),
    ] {
        framed.extend_from_slice(name.as_bytes());
        framed.push(0);
        framed.extend_from_slice(value.as_bytes());
        framed.push(0);
    }
    assert_eq!(print, format!("relay-intent:{:.32x}", sha2::Sha256::digest(&framed)));
}

#[test]
fn a_decision_names_a_bounded_number_of_sources() {
    let many = |n: usize| (0..n).map(|i| format!("e{i}")).collect::<Vec<_>>();
    assert!(validate_source_count(&many(MAX_SOURCE_EVENTS)).is_ok());
    assert!(validate_source_count(&many(MAX_SOURCE_EVENTS + 1)).is_err());
    let given = request(object(vec![
        ("event_ids", Json::Arr(vec![text("b"), text(" a "), text("b")])),
        ("event_id", text("c")),
    ]));
    match source_event_ids(&given) {
        Ok(ids) => assert!(ids.contains(&"b".to_string())),
        Err(error) => panic!("{}: {}", error.code, error.message),
    }
    assert!(source_event_ids(&request(JsonMap::new())).is_err());
}
