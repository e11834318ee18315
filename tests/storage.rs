use agents_core::error::AgentError;
use agents_core::storage::{
    backup_stamp, copy_plan, restore_description, sort_newest_first, trash_file_name,
    BackupInfo, FileWalk, StorageManager,
};

fn record(stamp: u64) -> BackupInfo {
    BackupInfo {
        timestamp: stamp,
        path: format!("/r/.agents/backups/backup_{}", stamp),
        original_path: "/r".to_string(),
        files: vec![],
        description: None,
    }
}

#[test]
fn manager_paths() {
    let m = StorageManager::new("/r");
    assert_eq!(m.base_path(), "/r");
    assert_eq!(m.backup_path(), "/r/.agents/backups");
    assert_eq!(m.full_path("memory/a.json"), "/r/memory/a.json");
    assert_eq!(m.trash_path(), "/r/.agents/trash");
    assert_eq!(m.backup_dir(1700000000), "/r/.agents/backups/backup_1700000000");
}

#[test]
fn atomic_write_goes_through_a_distinct_sibling() {
    let m = StorageManager::new("/r");
    let t = m.temp_path("agents.prompts.json", 123456789);
    assert_eq!(t, "/r/agents.prompts.tmp.123456789");
    assert_ne!(t, m.full_path("agents.prompts.json"));
    assert!(t.starts_with("/r/"));
    assert!(!t[3..].contains('/'));
}

#[test]
fn file_exists_sees_the_filesystem() {
    let m = StorageManager::new("/");
    assert!(m.file_exists(""));
    assert!(!m.file_exists("surely/not/here/at/all.json"));
}

#[test]
fn trash_names() {
    assert_eq!(trash_file_name("notes/todo.md", 100).unwrap(), "100.todo.md.md");
    assert_eq!(trash_file_name("README", 7).unwrap(), "7.README.bak");
    assert_eq!(trash_file_name("notes/", 7).unwrap(), "7.notes.bak");
    assert!(matches!(
        trash_file_name("dir/..", 7),
        Err(AgentError::InvalidPath(m)) if m == "Invalid file name"
    ));
    let m = StorageManager::new("/r");
    assert_eq!(
        m.trash_destination("a/b.txt", 5).unwrap(),
        "/r/.agents/trash/5.b.txt.txt"
    );
}

#[test]
fn trashing_twice_in_different_seconds_gives_distinct_names() {
    let m = StorageManager::new("/r");
    let first = m.trash_destination("memory/x.json", 1000).unwrap();
    let second = m.trash_destination("memory/x.json", 1001).unwrap();
    assert_ne!(first, second);
    // Within one second the names collide: a known limit of second stamps.
    assert_eq!(first, m.trash_destination("memory/x.json", 1000).unwrap());
}

#[test]
fn backup_record_and_round_trip_plan() {
    let m = StorageManager::new("/r");
    let files = vec!["a.txt".to_string(), "memory/b.json".to_string()];
    let rec = m.backup_record(42, files.clone(), Some("label".to_string()));
    assert_eq!(rec.timestamp, 42);
    assert_eq!(rec.path, "/r/.agents/backups/backup_42");
    assert_eq!(rec.original_path, "/r");
    assert_eq!(rec.files, files);
    assert_eq!(rec.description.as_deref(), Some("label"));
    let take = m.backup_copies(&rec);
    let back = m.restore_copies(&rec);
    assert_eq!(
        take,
        vec![
            ("/r/a.txt".to_string(), "/r/.agents/backups/backup_42/a.txt".to_string()),
            (
                "/r/memory/b.json".to_string(),
                "/r/.agents/backups/backup_42/memory/b.json".to_string()
            ),
        ]
    );
    assert_eq!(back.len(), take.len());
    for (t, b) in take.iter().zip(back.iter()) {
        assert_eq!(t.0, b.1);
        assert_eq!(t.1, b.0);
    }
    assert_eq!(copy_plan("x", "y", &vec![]), vec![]);
    let found = m.found_backup(9, "/r/.agents/backups/backup_9".to_string(), vec![]);
    assert!(found.description.is_none());
    assert_eq!(found.original_path, "/r");
}

#[test]
fn restore_label() {
    assert_eq!(restore_description(17), "Pre-restore backup before restoring from 17");
}

#[test]
fn backup_directory_names() {
    assert_eq!(backup_stamp("backup_1700000000"), Some(1700000000));
    assert_eq!(backup_stamp("backup_"), None);
    assert_eq!(backup_stamp("backup_x1"), None);
    assert_eq!(backup_stamp("backups_1"), None);
    assert_eq!(backup_stamp("trash"), None);
    assert_eq!(backup_stamp("backup_+5"), Some(5));
}

#[test]
fn backups_are_listed_newest_first() {
    let sorted = sort_newest_first(vec![record(2), record(3), record(1)]);
    let stamps: Vec<u64> = sorted.iter().map(|b| b.timestamp).collect();
    assert_eq!(stamps, vec![3, 2, 1]);
    let again = sort_newest_first(vec![record(1), record(2), record(3)]);
    let stamps: Vec<u64> = again.iter().map(|b| b.timestamp).collect();
    assert_eq!(stamps, vec![3, 2, 1]);
    assert!(sort_newest_first(vec![]).is_empty());
}

#[test]
fn walk_skips_the_reserved_tree() {
    let mut w = FileWalk::new();
    let top = w.next_dir().unwrap();
    assert_eq!(top, "");
    w.visit(
        &top,
        &vec![
            (".agents".to_string(), true),
            ("memory".to_string(), true),
            ("agents.prompts.json".to_string(), false),
        ],
    );
    let sub = w.next_dir().unwrap();
    assert_eq!(sub, "memory");
    w.visit(
        &sub,
        &vec![("a.json".to_string(), false), (".agents".to_string(), false)],
    );
    assert!(w.next_dir().is_none());
    assert_eq!(
        w.into_files(),
        vec!["agents.prompts.json".to_string(), "memory/a.json".to_string()]
    );
}
