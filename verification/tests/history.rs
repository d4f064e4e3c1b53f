use codex_core::history::{
    is_rollout_of, is_session_file_name, rollout_suffix_of, session_id_of, EntryKind,
    RolloutSearch, SessionListing, WalkEntry, DAY_LEVEL, SESSION_ID_LEN,
};

fn dir(path: &str) -> WalkEntry {
    let name = path.rsplit('/').next().map(|n| n.to_string());
    WalkEntry { path: path.to_string(), name, kind: EntryKind::Directory }
}

fn file(path: &str) -> WalkEntry {
    let name = path.rsplit('/').next().map(|n| n.to_string());
    WalkEntry { path: path.to_string(), name, kind: EntryKind::File }
}

#[test]
fn session_files_end_with_jsonl() {
    assert!(is_session_file_name("rollout-2025-01-02-abc.jsonl"));
    assert!(is_session_file_name(".jsonl"));
    assert!(!is_session_file_name("rollout.json"));
    assert!(!is_session_file_name("rollout.jsonl.bak"));
    assert!(!is_session_file_name("jsonl"));
    assert!(!is_session_file_name(""));
}

#[test]
fn rollout_suffix_is_dash_id_jsonl() {
    assert_eq!(rollout_suffix_of("1234-abcd"), "-1234-abcd.jsonl");
    assert_eq!(rollout_suffix_of(""), "-.jsonl");
    assert!(is_rollout_of("rollout-2025-01-02T03-04-05-1234-abcd.jsonl", "1234-abcd"));
    assert!(is_rollout_of("-1234-abcd.jsonl", "1234-abcd"));
    assert!(!is_rollout_of("1234-abcd.jsonl", "1234-abcd"));
    assert!(!is_rollout_of("rollout-1234-abcd.json", "1234-abcd"));
    assert!(!is_rollout_of("rollout-x1234-abcd.jsonl", "1234-abcd"));
}

#[test]
fn listing_walks_year_month_day() {
    assert_eq!(DAY_LEVEL, 3);
    let next = |path: &str| Some(path.to_string());
    let mut walk = SessionListing::new("/s".to_string());
    walk.visit(dir("/s/too-early"));
    assert_eq!(walk.next_directory(), next("/s"));
    walk.visit(dir("/s/2024"));
    walk.visit(file("/s/stray.jsonl"));
    walk.visit(dir("/s/2025"));
    assert_eq!(walk.next_directory(), next("/s/2024"));
    walk.visit(dir("/s/2024/12"));
    assert_eq!(walk.next_directory(), next("/s/2025"));
    walk.visit(dir("/s/2025/01"));
    assert_eq!(walk.next_directory(), next("/s/2024/12"));
    walk.visit(dir("/s/2024/12/31"));
    walk.visit(file("/s/2024/12/note.jsonl"));
    assert_eq!(walk.next_directory(), next("/s/2025/01"));
    walk.visit(dir("/s/2025/01/01"));
    assert_eq!(walk.next_directory(), next("/s/2024/12/31"));
    walk.visit(file("/s/2024/12/31/a.jsonl"));
    walk.visit(file("/s/2024/12/31/a.txt"));
    walk.visit(dir("/s/2024/12/31/deeper"));
    walk.visit(dir("/s/2024/12/31/dir.jsonl"));
    assert_eq!(walk.next_directory(), next("/s/2025/01/01"));
    walk.visit(file("/s/2025/01/01/b.jsonl"));
    walk.visit(
        WalkEntry { path: "/s/2025/01/01/c.jsonl".to_string(), name: None, kind: EntryKind::File },
    );
    assert_eq!(walk.next_directory(), None);
    walk.visit(file("/s/2025/01/01/too-late.jsonl"));
    walk.visit(dir("/s/too-late"));
    assert_eq!(walk.next_directory(), None);
    assert_eq!(
        walk.into_files(),
        vec![
            "/s/2024/12/31/a.jsonl".to_string(),
            "/s/2024/12/31/dir.jsonl".to_string(),
            "/s/2025/01/01/b.jsonl".to_string(),
        ]
    );
}

#[test]
fn listing_of_an_empty_store_is_empty() {
    let mut walk = SessionListing::new("/s".to_string());
    assert_eq!(walk.next_directory(), Some("/s".to_string()));
    assert_eq!(walk.next_directory(), None);
    assert!(walk.into_files().is_empty());
}

#[test]
fn search_reads_the_newest_directory_first() {
    let mut search = RolloutSearch::new("/s".to_string(), "id-1");
    assert_eq!(search.next_directory(), Some("/s".to_string()));
    search.visit(dir("/s/2024"));
    search.visit(dir("/s/2025"));
    search.visit(file("/s/rollout-id-2.jsonl"));
    assert_eq!(search.next_directory(), Some("/s/2025".to_string()));
    search.visit(file("/s/2025/rollout-x-id-1.jsonl"));
    search.visit(file("/s/2025/rollout-y-id-1.jsonl"));
    search.visit(dir("/s/2025/more"));
    assert_eq!(search.next_directory(), None);
    assert_eq!(search.into_found(), Some("/s/2025/rollout-x-id-1.jsonl".to_string()));
}

#[test]
fn search_finds_nothing_in_an_empty_store() {
    let mut search = RolloutSearch::new("/s".to_string(), "id-1");
    assert_eq!(search.next_directory(), Some("/s".to_string()));
    search.visit(WalkEntry {
        path: "/s/link-id-1.jsonl".to_string(),
        name: Some("link-id-1.jsonl".to_string()),
        kind: EntryKind::Other,
    });
    search.visit(WalkEntry {
        path: "/s/odd-id-1.jsonl".to_string(),
        name: None,
        kind: EntryKind::File,
    });
    search.visit(dir("/s/dir-id-1.jsonl"));
    assert_eq!(search.next_directory(), Some("/s/dir-id-1.jsonl".to_string()));
    assert_eq!(search.next_directory(), None);
    assert_eq!(search.into_found(), None);
}

#[test]
fn session_id_is_read_from_the_file_name() {
    assert_eq!(SESSION_ID_LEN, 36);
    let id = "0199a1b2-c3d4-7e5f-8a6b-1c2d3e4f5a6b";
    let name = format!("rollout-2025-09-30T12-00-00-{}.jsonl", id);
    assert_eq!(session_id_of(&name), Some(id.to_string()));
    assert!(is_rollout_of(&name, id));
    assert_eq!(session_id_of(&format!("-{}.jsonl", id)), Some(id.to_string()));
    assert_eq!(session_id_of(&format!("{}.jsonl", id)), None);
    assert_eq!(session_id_of(&format!("rollout-{}.json", id)), None);
    assert_eq!(session_id_of(&format!("rollout_{}.jsonl", id)), None);
    assert_eq!(session_id_of("rollout-short.jsonl"), None);
    assert_eq!(session_id_of(".jsonl"), None);
    assert_eq!(session_id_of(""), None);
}
