use blaze::appdata::app_data_dir;
use blaze::events::{collect_pending_events, ActionHint, FsEvent, PendingPathEvent, PendingPathEventWithId};
use blaze::indexer::{plan_batch, watcher_step, BatchStep, WatcherAction, WatcherEvent};
use blaze::schema::{build_schema, entry_document, IndexFields};
use blaze::types::FileEntry;
use blaze::walker::file_entry_from_path;
use tantivy::schema::{FieldType, IndexRecordOption, Value};

fn pending(id: u64, action: ActionHint, path: &str) -> PendingPathEventWithId {
    PendingPathEventWithId {
        inner: PendingPathEvent { action, raw_flags: 0x100, path: path.to_string() },
        event_id: id,
    }
}

#[test]
fn batch_plan_applies_then_commits_then_checkpoints() {
    let batch = vec![pending(7, ActionHint::SyncPath, "/u/a"), pending(12, ActionHint::Remove, "/u/b")];
    let steps = plan_batch(&batch);
    assert_eq!(steps.len(), 4);
    match &steps[0] {
        BatchStep::Apply(e) => {
            assert_eq!(e.path, "/u/a");
            assert_eq!(e.action, ActionHint::SyncPath);
        }
        other => panic!("unexpected first step {:?}", other),
    }
    match &steps[1] {
        BatchStep::Apply(e) => {
            assert_eq!(e.path, "/u/b");
            assert_eq!(e.action, ActionHint::Remove);
        }
        other => panic!("unexpected second step {:?}", other),
    }
    assert!(matches!(steps[2], BatchStep::Commit));
    match &steps[3] {
        BatchStep::StoreCheckpoint(v) => assert_eq!(v, "12"),
        other => panic!("unexpected last step {:?}", other),
    }
}

#[test]
fn batch_plan_without_event_id_stores_no_checkpoint() {
    let steps = plan_batch(&vec![pending(0, ActionHint::Ignore, "/u/a")]);
    assert_eq!(steps.len(), 2);
    assert!(matches!(steps[0], BatchStep::Apply(_)));
    assert!(matches!(steps[1], BatchStep::Commit));
    let empty = plan_batch(&Vec::new());
    assert_eq!(empty.len(), 1);
    assert!(matches!(empty[0], BatchStep::Commit));
}

#[test]
fn batch_plan_checkpoint_is_highest_id_of_collected_batch() {
    let mut buffer = vec![
        FsEvent { id: 40, raw_flags: 0x100, path: "/u/a".to_string() },
        FsEvent { id: 90, raw_flags: 0x100, path: "/data/db/x".to_string() },
        FsEvent { id: 41, raw_flags: 0x200, path: "/u/a".to_string() },
    ];
    let batch = collect_pending_events(&mut buffer, "/data");
    let steps = plan_batch(&batch);
    assert_eq!(steps.len(), 3);
    match &steps[0] {
        BatchStep::Apply(e) => assert_eq!(e.action, ActionHint::Remove),
        other => panic!("unexpected first step {:?}", other),
    }
    match &steps[2] {
        BatchStep::StoreCheckpoint(v) => assert_eq!(v, "41"),
        other => panic!("unexpected last step {:?}", other),
    }
}

#[test]
fn watcher_decisions() {
    let data = "/data";
    assert_eq!(watcher_step(&WatcherEvent::Shutdown(true), data), WatcherAction::Stop);
    assert_eq!(watcher_step(&WatcherEvent::Shutdown(false), data), WatcherAction::Continue);
    assert_eq!(watcher_step(&WatcherEvent::StreamEnded, data), WatcherAction::Stop);
    assert_eq!(watcher_step(&WatcherEvent::Sent(true), data), WatcherAction::Continue);
    assert_eq!(watcher_step(&WatcherEvent::Sent(false), data), WatcherAction::Stop);
    let event = |p: &str| WatcherEvent::StreamEvent(p.to_string());
    assert_eq!(watcher_step(&event("/Users/me/notes.txt"), data), WatcherAction::Forward);
    assert_eq!(watcher_step(&event("/Users/me/.env"), data), WatcherAction::Skip);
    assert_eq!(watcher_step(&event("/Users/me/.git/HEAD"), data), WatcherAction::Skip);
    assert_eq!(watcher_step(&event("/Users/me/node_modules/x.js"), data), WatcherAction::Skip);
    assert_eq!(watcher_step(&event("/data/db/main.db"), data), WatcherAction::Skip);
}

#[test]
fn entry_parent_and_name_rebuild_the_path() {
    for (path, parent, name) in [("/a/b.txt", "/a", "b.txt"), ("/a", "/", "a"), ("a", "", "a"), ("x/y/z", "x/y", "z")] {
        let e = file_entry_from_path(path, 1, None, "file", 1).unwrap();
        assert_eq!(e.parent, parent);
        assert_eq!(e.name, name);
        let std_parent = std::path::Path::new(path).parent().unwrap().to_str().unwrap();
        assert_eq!(e.parent, std_parent);
        let rebuilt = if e.parent.is_empty() {
            e.name.clone()
        } else if e.parent == "/" {
            format!("/{}", e.name)
        } else {
            format!("{}/{}", e.parent, e.name)
        };
        assert_eq!(rebuilt, path);
    }
}

#[test]
fn schema_field_options() {
    let schema = build_schema();
    let id = schema.get_field("id").unwrap();
    match schema.get_field_entry(id).field_type() {
        FieldType::U64(o) => {
            assert!(o.is_indexed());
            assert!(o.fieldnorms());
            assert!(o.is_stored());
            assert!(!o.is_fast());
        }
        other => panic!("id has type {:?}", other),
    }
    for (name, tokenizer, record) in [
        ("kind", "raw", IndexRecordOption::Basic),
        ("path", "raw", IndexRecordOption::Basic),
        ("name", "default", IndexRecordOption::WithFreqsAndPositions),
    ] {
        let field = schema.get_field(name).unwrap();
        match schema.get_field_entry(field).field_type() {
            FieldType::Str(o) => {
                assert!(o.is_stored(), "{} stored", name);
                let indexing = o.get_indexing_options().unwrap();
                assert_eq!(indexing.tokenizer(), tokenizer);
                assert_eq!(indexing.index_option(), record);
                assert!(indexing.fieldnorms());
            }
            other => panic!("{} has type {:?}", name, other),
        }
    }
}

#[test]
fn documents_hold_the_entry() {
    let schema = build_schema();
    let fields = IndexFields {
        id: schema.get_field("id").unwrap(),
        kind: schema.get_field("kind").unwrap(),
        path: schema.get_field("path").unwrap(),
        name: schema.get_field("name").unwrap(),
    };
    let file = FileEntry {
        id: -1,
        path: "/u/a.txt".to_string(),
        parent: "/u".to_string(),
        name: "a.txt".to_string(),
        size: Some(3),
        modified: None,
        kind: "file".to_string(),
        indexed: 1,
    };
    let doc = entry_document(&fields, &file);
    assert_eq!(doc.len(), 4);
    assert_eq!(doc.get_first(fields.id).unwrap().as_u64(), Some(u64::MAX));
    assert_eq!(doc.get_first(fields.kind).unwrap().as_str(), Some("file"));
    assert_eq!(doc.get_first(fields.path).unwrap().as_str(), Some("/u/a.txt"));
    assert_eq!(doc.get_first(fields.name).unwrap().as_str(), Some("a.txt"));
}

#[test]
fn data_directory_override_and_default() {
    assert_eq!(app_data_dir(Some("/tmp/blaze-data".to_string())), "/tmp/blaze-data");
    let d = app_data_dir(None);
    assert!(d.ends_with("/com.Harsh.Blaze"));
    assert!(d.len() > "/com.Harsh.Blaze".len());
}
