//! Notes, the brief and the shared data of a group's context.

use cccc_relay::context::{
    add_note, apply_all, apply_one, context_event_data, merge_meta, note_key, trim_notes, update_brief,
    upsert_relay_note, Progress, MAX_NOTES,
};
use cccc_relay::failure::FailureKind;
use cccc_relay::json::{Json, JsonMap};
use cccc_relay::model::ContextDoc;

fn text(value: &str) -> Json {
    Json::Str(value.to_string())
}

fn list(values: &[&str]) -> Json {
    Json::Arr(values.iter().map(|value| text(value)).collect())
}

fn object(entries: Vec<(&str, Json)>) -> JsonMap {
    JsonMap {
        entries: entries
            .into_iter()
            .map(|(key, value)| (key.to_string(), value))
            .collect(),
    }
}

fn empty() -> ContextDoc {
    ContextDoc {
        coordination: JsonMap::new(),
        tasks: Vec::new(),
        meta: JsonMap::new(),
    }
}

fn notes(doc: &ContextDoc, key: &str) -> Vec<JsonMap> {
    match doc.coordination.list(key) {
        Some(items) => items
            .iter()
            .map(|item| match item.as_object() {
                Some(map) => map.copy(),
                None => panic!("a note is an object"),
            })
            .collect(),
        None => Vec::new(),
    }
}

#[test]
fn public_notes_cannot_forge_machine_relay_state() {
    let mut doc = empty();
    let operation = object(vec![
        ("op", text("coordination.note.add")),
        ("kind", text("decision")),
        ("id", text("forged")),
        ("summary", text("Human note")),
        ("safe_to_idle", Json::Bool(true)),
        ("status", text("applied")),
    ]);
    add_note(&mut doc, &operation, "peer", "2026-09-05T00:00:00Z").expect("public note");
    let note = &notes(&doc, "recent_decisions")[0];
    assert!(note.is("summary", "Human note"));
    assert!(note.get("id").is_none());
    assert!(note.get("safe_to_idle").is_none());
    assert!(note.get("status").is_none());
}

#[test]
fn internal_relay_notes_upsert_without_losing_machine_fields_or_origin_time() {
    let mut doc = empty();
    let mut first = object(vec![
        ("op", text("coordination.relay.note")),
        ("kind", text("handoff")),
        ("id", text("handoff-1")),
        ("summary", text("Human-readable result")),
        ("source_event_ids", list(&["event-1"])),
        ("source_actor_id", text("worker")),
        ("target_actor_id", text("lead")),
        ("status", text("pending_review")),
    ]);
    upsert_relay_note(&mut doc, &first, "worker", "2026-09-05T00:00:00Z").expect("add handoff");
    let created_at = notes(&doc, "recent_handoffs")[0].copy_or_null("at");
    assert!(created_at.same(&text("2026-09-05T00:00:00Z")));
    first.put("status", text("resolved"));
    first.put("decision_id", text("decision-1"));
    first.put("resolved_by", text("lead"));
    upsert_relay_note(&mut doc, &first, "lead", "2026-09-06T00:00:00Z").expect("resolve handoff");
    let notes = notes(&doc, "recent_handoffs");
    assert_eq!(notes.len(), 1);
    assert!(notes[0].copy_or_null("at").same(&created_at));
    assert!(notes[0].is("status", "resolved"));
    assert!(notes[0].is("decision_id", "decision-1"));
    assert!(notes[0].copy_or_null("source_event_ids").same(&list(&["event-1"])));
}

#[test]
fn each_kind_of_note_has_its_list() {
    assert_eq!(note_key("decision").expect("decisions"), "recent_decisions");
    assert_eq!(note_key("handoff").expect("handoffs"), "recent_handoffs");
    assert!(note_key("other").is_err());
}

#[test]
fn notes_keep_the_newest_hundred() {
    let mut items: Vec<Json> = (0..105).map(|n| Json::Int(n)).collect();
    trim_notes(&mut items);
    assert_eq!(items.len(), MAX_NOTES);
    let mut doc = empty();
    for n in 0..103 {
        let operation = object(vec![
            ("kind", text("handoff")),
            ("summary", text(&format!("note {n}"))),
        ]);
        add_note(&mut doc, &operation, "peer", "2026-09-05T00:00:00Z").expect("note");
    }
    let kept = notes(&doc, "recent_handoffs");
    assert_eq!(kept.len(), 100);
    assert!(kept.iter().any(|note| note.is("summary", "note 102")));
    assert!(!kept.iter().any(|note| note.is("summary", "note 2")));
}

#[test]
fn a_note_without_a_summary_is_refused_and_changes_nothing() {
    let mut doc = empty();
    let operation = object(vec![("kind", text("decision"))]);
    assert!(add_note(&mut doc, &operation, "peer", "2026-09-05T00:00:00Z").is_err());
    assert!(doc.coordination.entries.is_empty());
    let unknown = object(vec![("kind", text("rumour")), ("summary", text("x"))]);
    assert!(add_note(&mut doc, &unknown, "peer", "2026-09-05T00:00:00Z").is_err());
    assert!(doc.coordination.entries.is_empty());
}

#[test]
fn only_the_project_status_is_merged() {
    let mut doc = empty();
    let operation = object(vec![(
        "data",
        Json::Obj(object(vec![("project_status", text("green")), ("size", Json::Int(3))])),
    )]);
    merge_meta(&mut doc, &operation).expect("merge");
    assert!(doc.meta.is("project_status", "green"));
    assert!(!doc.meta.has("size"));
    match merge_meta(&mut doc, &JsonMap::new()) {
        Ok(_) => panic!("there is nothing to merge"),
        Err(error) => {
            assert_eq!(error.kind, FailureKind::Other);
            assert_eq!(error.message, "data is required");
        }
    }
}

#[test]
fn operations_stop_where_another_part_owns_them() {
    let mut doc = empty();
    let note = object(vec![
        ("op", text("coordination.note.add")),
        ("kind", text("decision")),
        ("summary", text("first")),
    ]);
    let task = object(vec![("op", text("task.create")), ("title", text("work"))]);
    let operations = vec![note.copy(), task, note];
    let now = "2026-09-05T00:00:00Z";
    match apply_all(&mut doc, &operations, 0, "peer", now) {
        Progress::Elsewhere(at) => assert_eq!(at, 1),
        _ => panic!("the task operation is owned elsewhere"),
    }
    assert_eq!(notes(&doc, "recent_decisions").len(), 1);
    match apply_all(&mut doc, &operations, 2, "peer", now) {
        Progress::Done(_) => {}
        _ => panic!("the rest is applied"),
    }
    assert_eq!(notes(&doc, "recent_decisions").len(), 2);
}

#[test]
fn an_unknown_operation_is_refused() {
    let mut doc = empty();
    let operation = object(vec![("op", text("coordination.forget"))]);
    assert!(apply_one(&mut doc, &operation, "peer", "2026-09-05T00:00:00Z").is_err());
    match apply_all(&mut doc, &vec![operation], 0, "peer", "2026-09-05T00:00:00Z") {
        Progress::Refused(_) => {}
        _ => panic!("the operation is unknown"),
    }
}

#[test]
fn the_brief_says_who_changed_it_and_when() {
    let mut doc = empty();
    let operation = object(vec![
        ("op", text("coordination.brief.update")),
        ("objective", text("Ship it")),
    ]);
    update_brief(&mut doc, &operation, "lead", "2026-09-05T00:00:00Z").expect("brief");
    match doc.coordination.get("brief") {
        Some(brief) => {
            assert!(brief.is("objective", "Ship it"));
            assert!(brief.is("updated_by", "lead"));
            assert!(brief.is("updated_at", "2026-09-05T00:00:00Z"));
        }
        None => panic!("no brief"),
    }
}

#[test]
fn only_a_change_is_told_to_the_ledger() {
    assert!(context_event_data("v1", Vec::new()).is_none());
    match context_event_data("v1", vec![Json::Int(1)]) {
        Some(data) => {
            assert!(data.is("version", "v1"));
            assert_eq!(data.list("changes").map(|changes| changes.len()), Some(1));
        }
        None => panic!("something has changed"),
    }
}
