use blaze::appdata::{
    app_data_dir, db_path_candidates, index_dir, resolve_app_data_dir, select_db_path,
};
use blaze::checkpoint::{
    checkpoint_value, decide_start, format_u64, parse_u64, start_since, MetadataLookup, StartPlan,
    CHECKPOINT_KEY, SINCE_NOW,
};
use blaze::db::{batch_bounds, entry_from_row, size_from_sql, size_to_sql, sort_dir_entries, BATCH_SIZE};
use blaze::defaults::{ignored_dirs_defaults, theme_default, walker_dirs_defaults};
use blaze::events::{
    classify_fsevent_flags, collect_pending_events, max_event_id, ActionHint, FsEvent,
};
use blaze::indexer::{
    indexer_step, ChannelEvent, IndexerAction, IndexerPhase, is_dir_kind, plan_delete, plan_event, plan_sync, stored_location, DeletePlan, EventPlan,
    StatOutcome, SyncStep,
};
use blaze::schema::{build_schema, has_expected_fields, plan_index_open, IndexOpenPlan};
use blaze::types::{FileEntry, UserData};

fn ev(id: u64, flags: u32, path: &str) -> FsEvent {
    FsEvent { id, raw_flags: flags, path: path.to_string() }
}

#[test]
fn flags_classification() {
    assert_eq!(classify_fsevent_flags(0x200), ActionHint::Remove);
    assert_eq!(classify_fsevent_flags(0x200 | 0x100), ActionHint::Remove);
    assert_eq!(classify_fsevent_flags(0x100), ActionHint::SyncPath);
    assert_eq!(classify_fsevent_flags(0x1000), ActionHint::SyncPath);
    assert_eq!(classify_fsevent_flags(0x800), ActionHint::SyncPath);
    assert_eq!(classify_fsevent_flags(0x0), ActionHint::Ignore);
    assert_eq!(classify_fsevent_flags(0x10000), ActionHint::Ignore);
}

#[test]
fn batch_keeps_latest_event_per_path() {
    let data = "/data";
    let mut buffer = vec![
        ev(1, 0x100, "/u/a"),
        ev(2, 0x100, "/u/b"),
        ev(3, 0x200, "/u/a"),
        ev(4, 0x100, "/u/.git/x"),
        ev(5, 0x1000, "/data/db/main.db"),
        ev(6, 0x0, "/u/c"),
    ];
    let batch = collect_pending_events(&mut buffer, data);
    assert!(buffer.is_empty());
    let got: Vec<(u64, &str, ActionHint)> =
        batch.iter().map(|p| (p.event_id, p.inner.path.as_str(), p.inner.action)).collect();
    assert_eq!(
        got,
        vec![(2, "/u/b", ActionHint::SyncPath), (3, "/u/a", ActionHint::Remove), (6, "/u/c", ActionHint::Ignore)]
    );
    assert_eq!(max_event_id(&batch), 6);
}

#[test]
fn empty_batch() {
    let mut buffer = vec![ev(9, 0x100, "/u/.x")];
    let batch = collect_pending_events(&mut buffer, "/data");
    assert!(batch.is_empty());
    assert_eq!(max_event_id(&batch), 0);
    assert_eq!(checkpoint_value(0), None);
}

#[test]
fn decimal_roundtrip() {
    assert_eq!(format_u64(0), "0");
    assert_eq!(format_u64(1234567), "1234567");
    assert_eq!(format_u64(u64::MAX), "18446744073709551615");
    for n in [0u64, 7, 10, 99, 100, 123456789, u64::MAX - 1, u64::MAX] {
        assert_eq!(parse_u64(&format_u64(n)), Some(n));
        assert_eq!(format_u64(n), n.to_string());
    }
}

#[test]
fn parsing_matches_std() {
    for s in ["", "+", "-", "-1", "+12", "007", "12a", " 1", "18446744073709551615", "18446744073709551616", "99999999999999999999", "0"] {
        assert_eq!(parse_u64(s), s.parse::<u64>().ok(), "input {:?}", s);
    }
}

#[test]
fn warm_and_cold_starts() {
    let stored = checkpoint_value(4242).unwrap();
    assert_eq!(stored, "4242");
    assert_eq!(decide_start(true, MetadataLookup::Found(stored)), StartPlan::Resume(4242));
    assert_eq!(decide_start(false, MetadataLookup::Found("4242".to_string())), StartPlan::ColdStart);
    assert_eq!(decide_start(true, MetadataLookup::Found("oops".to_string())), StartPlan::ColdStart);
    assert_eq!(decide_start(true, MetadataLookup::Missing), StartPlan::ColdStart);
    assert_eq!(decide_start(true, MetadataLookup::Failed), StartPlan::ColdStart);
    assert_eq!(start_since(StartPlan::ColdStart), SINCE_NOW);
    assert_eq!(start_since(StartPlan::Resume(5)), 5);
    assert_eq!(SINCE_NOW, u64::MAX);
    assert_eq!(CHECKPOINT_KEY, "last_fsevent_id");
}

#[test]
fn event_planning() {
    assert_eq!(plan_event(ActionHint::SyncPath), EventPlan::StatThenSync);
    assert_eq!(plan_event(ActionHint::Remove), EventPlan::Delete);
    assert_eq!(plan_event(ActionHint::Ignore), EventPlan::Ignore);
    assert!(matches!(plan_sync("/u/a", StatOutcome::NotFound), SyncStep::Delete));
    assert!(matches!(plan_sync("/u/a", StatOutcome::Failed), SyncStep::StatFailed));
    let found = StatOutcome::Found { is_file: true, is_dir: false, is_symlink: false, len: 5, modified_secs: Some(10) };
    match plan_sync("/u/a.txt", found) {
        SyncStep::Upsert(e) => {
            assert_eq!(e.path, "/u/a.txt");
            assert_eq!(e.parent, "/u");
            assert_eq!(e.name, "a.txt");
            assert_eq!(e.kind, "file");
            assert_eq!(e.indexed, 1);
            assert_eq!(e.size, Some(5));
            assert_eq!(e.modified, Some(10));
        }
        _ => panic!("expected an upsert"),
    }
    let root = StatOutcome::Found { is_file: false, is_dir: true, is_symlink: false, len: 0, modified_secs: None };
    assert!(matches!(plan_sync("/", root), SyncStep::NoTerminalName));
}

#[test]
fn delete_planning() {
    assert!(is_dir_kind("dir"));
    assert!(!is_dir_kind("file"));
    assert_eq!(stored_location("/u/d/f.txt"), ("/u/d".to_string(), "f.txt".to_string()));
    assert_eq!(stored_location("/"), (String::new(), String::new()));
    match plan_delete("/u/d", Some("dir".to_string())) {
        DeletePlan::Directory { root, like_pattern } => {
            assert_eq!(root, "/u/d");
            assert_eq!(like_pattern, "/u/d/%");
        }
        _ => panic!("expected a directory removal"),
    }
    for kind in [Some("file".to_string()), None] {
        match plan_delete("/u/d/f.txt", kind) {
            DeletePlan::File { parent, name, path } => {
                assert_eq!(parent, "/u/d");
                assert_eq!(name, "f.txt");
                assert_eq!(path, "/u/d/f.txt");
            }
            _ => panic!("expected a file removal"),
        }
    }
}

#[test]
fn batches_of_a_thousand() {
    assert_eq!(BATCH_SIZE, 1000);
    assert!(batch_bounds(0).is_empty());
    assert_eq!(batch_bounds(1), vec![(0, 1)]);
    assert_eq!(batch_bounds(1000), vec![(0, 1000)]);
    assert_eq!(batch_bounds(2500), vec![(0, 1000), (1000, 2000), (2000, 2500)]);
}

#[test]
fn sizes_roundtrip() {
    assert_eq!(size_to_sql(Some(u64::MAX)), Some(-1));
    assert_eq!(size_from_sql(Some(-1)), Some(u64::MAX));
    assert_eq!(size_from_sql(size_to_sql(Some(123))), Some(123));
    assert_eq!(size_to_sql(None), None);
}

fn entry(id: i64, name: &str, kind: &str) -> FileEntry {
    entry_from_row(id, "/d".to_string(), name.to_string(), Some(1), None, kind.to_string(), 0)
}

#[test]
fn rows_become_entries() {
    let e = entry_from_row(7, "/".to_string(), "a".to_string(), Some(-1), Some(3), "file".to_string(), 1);
    assert_eq!(e.path, "/a");
    assert_eq!(e.size, Some(u64::MAX));
    assert_eq!(e.modified, Some(3));
    assert_eq!(e.indexed, 1);
    let e = entry_from_row(7, "/d".to_string(), "a".to_string(), None, None, "dir".to_string(), 0);
    assert_eq!(e.path, "/d/a");
    assert_eq!(e.size, None);
}

#[test]
fn directory_listing_order() {
    let input = vec![entry(1, "b", "file"), entry(2, "a", "file"), entry(3, "B", "dir"), entry(4, "a", "dir"), entry(5, "a", "dir"), entry(6, "é", "file")];
    let sorted = sort_dir_entries(input);
    let ids: Vec<i64> = sorted.iter().map(|e| e.id).collect();
    assert_eq!(ids, vec![3, 4, 5, 2, 1, 6]);
    let mut expected = vec![entry(1, "b", "file"), entry(2, "a", "file"), entry(3, "B", "dir"), entry(4, "a", "dir"), entry(5, "a", "dir"), entry(6, "é", "file")];
    expected.sort_by(|a, b| a.name.cmp(&b.name).then_with(|| a.kind.cmp(&b.kind)));
    let expected_ids: Vec<i64> = expected.iter().map(|e| e.id).collect();
    assert_eq!(ids, expected_ids);
    let again: Vec<i64> = sort_dir_entries(sorted).iter().map(|e| e.id).collect();
    assert_eq!(again, ids);
}

#[test]
fn schema_fields() {
    let schema = build_schema();
    assert!(has_expected_fields(&schema));
    let names: Vec<String> = schema.fields().map(|(_, e)| e.name().to_string()).collect();
    assert_eq!(names, vec!["id", "kind", "path", "name"]);
    let mut b = tantivy::schema::Schema::builder();
    b.add_u64_field("id", tantivy::schema::INDEXED);
    assert!(!has_expected_fields(&b.build()));
    assert_eq!(plan_index_open(true, true), IndexOpenPlan::Reuse);
    assert_eq!(plan_index_open(true, false), IndexOpenPlan::Recreate);
    assert_eq!(plan_index_open(false, true), IndexOpenPlan::Create);
}

#[test]
fn data_and_db_locations() {
    assert_eq!(app_data_dir(Some("/tmp/blaze".to_string())), "/tmp/blaze");
    assert_eq!(
        resolve_app_data_dir(None, Some("/home/me/.local/share".to_string()), None),
        "/home/me/.local/share/com.Harsh.Blaze"
    );
    assert_eq!(
        resolve_app_data_dir(None, None, Some("/Users/me".to_string())),
        "/Users/me/Library/Application Support/com.Harsh.Blaze"
    );
    assert_eq!(resolve_app_data_dir(None, None, None), "./Library/Application Support/com.Harsh.Blaze");
    assert_eq!(resolve_app_data_dir(Some("x".to_string()), Some("y".to_string()), None), "x");
    assert_eq!(index_dir("/data"), "/data/db/tantivy");
    let c = db_path_candidates("/w");
    assert_eq!(c, ("/w/.db/main.db".to_string(), "/w/../.db/main.db".to_string()));
    assert_eq!(select_db_path(Some("/e.db".to_string()), c.clone(), true, true), "/e.db");
    assert_eq!(select_db_path(None, c.clone(), false, true), "/w/../.db/main.db");
    assert_eq!(select_db_path(None, c.clone(), true, true), "/w/.db/main.db");
    assert_eq!(select_db_path(None, c, false, false), "/w/.db/main.db");
}

#[test]
fn defaults_and_user_data() {
    assert_eq!(theme_default(), "dark");
    assert_eq!(ignored_dirs_defaults(), vec!["node_modules", "__pycache__"]);
    assert_eq!(walker_dirs_defaults(), vec!["/Users", "/Applications"]);
    let u = UserData::default();
    assert!(u.new_user);
    assert_eq!(u.theme, "dark");
    assert_eq!(u.ignored_dirs, vec!["node_modules", "__pycache__"]);
    assert_eq!(u.walker_dirs, vec!["/Users", "/Applications"]);
}

#[test]
fn indexer_loop_steps() {
    assert_eq!(indexer_step(IndexerPhase::Waiting, ChannelEvent::Received), (IndexerPhase::Collecting, IndexerAction::Poll));
    assert_eq!(indexer_step(IndexerPhase::Waiting, ChannelEvent::Closed), (IndexerPhase::Stopped, IndexerAction::Stop));
    assert_eq!(indexer_step(IndexerPhase::Collecting, ChannelEvent::Received), (IndexerPhase::Collecting, IndexerAction::Poll));
    assert_eq!(indexer_step(IndexerPhase::Collecting, ChannelEvent::Empty), (IndexerPhase::Collecting, IndexerAction::Sleep));
    assert_eq!(
        indexer_step(IndexerPhase::Collecting, ChannelEvent::WindowElapsed),
        (IndexerPhase::Waiting, IndexerAction::ApplyBatch { then_stop: false })
    );
    assert_eq!(
        indexer_step(IndexerPhase::Collecting, ChannelEvent::Closed),
        (IndexerPhase::Stopped, IndexerAction::ApplyBatch { then_stop: true })
    );
    assert_eq!(indexer_step(IndexerPhase::Stopped, ChannelEvent::Received), (IndexerPhase::Stopped, IndexerAction::Stop));
}

#[test]
fn platform_data_dir_holds_the_app_directory() {
    let dir = app_data_dir(None);
    assert!(dir.ends_with("/com.Harsh.Blaze"), "{}", dir);
}
