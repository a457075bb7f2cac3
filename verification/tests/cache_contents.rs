use grok2api::cache::{CacheTally, CachedFile, DirEntry, EvictionRun};
use grok2api::download::DownloadService;
use serde_json::Value;

fn service() -> DownloadService {
    DownloadService::new("/srv", "".to_string(), "".to_string(), 60)
}

fn file(name: &str, size: u64, mtime_ms: i64) -> DirEntry {
    DirEntry { name: name.to_string(), is_file: true, size, mtime_ms }
}

fn directory(name: &str) -> DirEntry {
    DirEntry { name: name.to_string(), is_file: false, size: 4096, mtime_ms: 9 }
}

fn cached(id: usize, age: u64, size: u64) -> CachedFile {
    CachedFile { id, age, size }
}

fn names(page: &Value) -> Vec<String> {
    let items = page["items"].as_array().unwrap();
    items.iter().map(|i| i["name"].as_str().unwrap().to_string()).collect()
}

#[test]
fn files_are_counted() {
    let s = service();
    let entries = vec![file("a", 10, 1), directory("d"), file("b", 5, 2)];
    assert_eq!(s.get_stats(Some(&entries)), CacheTally { count: 2, total: 15 });
    assert_eq!(s.get_stats(Some(&vec![])), CacheTally { count: 0, total: 0 });
    assert_eq!(s.get_stats(None), CacheTally { count: 0, total: 0 });
}

#[test]
fn removed_files_are_counted() {
    let s = service();
    let entries = vec![file("a", 10, 1), directory("d"), file("b", 5, 2), file("c", 1, 2)];
    let tally = s.clear(Some(&entries), &vec![true, true, false, true]);
    assert_eq!(tally, CacheTally { count: 2, total: 16 });
    assert_eq!(s.clear(None, &vec![]), CacheTally { count: 0, total: 0 });
}

#[test]
fn tallies_are_reported() {
    let report = CacheTally { count: 3, total: 9 }.report(Value::from(1.25));
    assert_eq!(report, serde_json::from_str::<Value>(r#"{"count":3,"size_mb":1.25}"#).unwrap());
}

#[test]
fn images_are_listed_newest_first() {
    let s = service();
    let entries = vec![file("old", 1, 10), directory("d"), file("new", 2, 30), file("mid", 3, 20)];
    let page = s.list_files("image", 1, 10, Some(&entries), &vec![]);
    let expected = r#"{"total":3,"page":1,"page_size":10,"items":[
        {"name":"new","size_bytes":2,"mtime_ms":30,"view_url":"/v1/files/image/new"},
        {"name":"mid","size_bytes":3,"mtime_ms":20,"view_url":"/v1/files/image/mid"},
        {"name":"old","size_bytes":1,"mtime_ms":10,"view_url":"/v1/files/image/old"}]}"#;
    assert_eq!(page, serde_json::from_str::<Value>(expected).unwrap());
}

#[test]
fn files_of_one_time_keep_their_order() {
    let s = service();
    let entries = vec![file("a", 1, 5), file("b", 1, 7), file("c", 1, 5), file("d", 1, -1), file("e", 1, 5)];
    let page = s.list_files("image", 1, 10, Some(&entries), &vec![]);
    assert_eq!(names(&page), vec!["b", "a", "c", "e", "d"]);
}

#[test]
fn pages_hold_every_file_once() {
    let s = service();
    let entries: Vec<DirEntry> = (0..5).map(|i| file(&format!("f{}", i), 1, i)).collect();
    let page = |n: usize| names(&s.list_files("image", n, 2, Some(&entries), &vec![]));
    assert_eq!(page(0), vec!["f4", "f3"]);
    assert_eq!(page(1), vec!["f4", "f3"]);
    assert_eq!(page(2), vec!["f2", "f1"]);
    assert_eq!(page(3), vec!["f0"]);
    assert!(s.page_exists(Some(&entries), 3, 2));
    assert!(!s.page_exists(Some(&entries), 4, 2));
    assert!(s.page_exists(Some(&entries), 2, 5));
    assert_eq!(names(&s.list_files("image", 2, 5, Some(&entries), &vec![])).len(), 0);
    assert!(!s.page_exists(Some(&entries), usize::MAX, 3));
    assert!(!s.page_exists(Some(&entries), 2, usize::MAX));
    assert!(s.page_exists(Some(&entries), 7, 0));
    assert!(s.page_exists(None, 7, 7));
}

#[test]
fn videos_come_with_their_preview() {
    let s = service();
    let entries = vec![file("a.mp4", 1, 2), file("b.mp4", 1, 1)];
    let images: Vec<String> = ["a.png", "c.jpg", "a.jpg"].iter().map(|n| n.to_string()).collect();
    let page = s.list_files("video", 1, 10, Some(&entries), &images);
    assert_eq!(page["items"][0]["view_url"], "/v1/files/video/a.mp4");
    assert_eq!(page["items"][0]["preview_url"], "/v1/files/image/a.jpg");
    assert!(page["items"][1].get("preview_url").is_none());
    let page = s.list_files("image", 1, 10, Some(&entries), &images);
    assert!(page["items"][0].get("preview_url").is_none());
}

#[test]
fn a_missing_directory_lists_nothing() {
    let page = service().list_files("video", 9, 20, None, &vec![]);
    let expected = r#"{"total":0,"page":9,"page_size":20,"items":[]}"#;
    assert_eq!(page, serde_json::from_str::<Value>(expected).unwrap());
}

#[test]
fn files_are_deleted_by_name() {
    let s = service();
    assert_eq!(s.delete_file("image", "a/b.png"), "/srv/data/tmp/image/a-b.png");
    assert_eq!(s.delete_file("video", "v.mp4"), "/srv/data/tmp/video/v.mp4");
    assert_eq!(s.file_deleted(true, true)["deleted"], true);
    assert_eq!(s.file_deleted(true, false)["deleted"], false);
    assert_eq!(s.file_deleted(false, true)["deleted"], false);
}

#[test]
fn room_is_made_by_age() {
    let mut run = EvictionRun::new(vec![cached(0, 7, 10), cached(1, 3, 20), cached(2, 7, 30)]);
    assert_eq!(run.total(), 60);
    assert_eq!(run.next(false), Some(1));
    assert_eq!(run.total(), 40);
    assert_eq!(run.next(false), Some(0));
    assert_eq!(run.total(), 30);
    assert_eq!(run.next(true), None);
    assert_eq!(run.total(), 30);
    assert_eq!(run.next(false), Some(2));
    assert_eq!(run.total(), 0);
    assert_eq!(run.next(false), None);
}

#[test]
fn nothing_leaves_a_cache_that_is_not_cleaned() {
    let s = service();
    let mut run = s.check_limit(false, vec![cached(8, 1, 5)]);
    assert_eq!(run.total(), 0);
    assert_eq!(run.next(false), None);
    let mut run = s.check_limit(true, vec![cached(8, 1, 5)]);
    assert_eq!(run.next(false), Some(8));
}

#[test]
fn no_more_files_go_than_need_be() {
    let files = || vec![cached(0, 7, 10), cached(1, 3, 20), cached(2, 7, 30), cached(3, 9, 5)];
    let gone = |limit: u64, target: u64| {
        let mut run = EvictionRun::new(files());
        let mut ids = Vec::new();
        let mut enough = run.total() <= limit;
        while let Some(id) = run.next(enough) {
            ids.push(id);
            enough = run.total() <= target;
        }
        ids
    };
    assert_eq!(gone(65, 0), Vec::<usize>::new());
    assert_eq!(gone(64, 64), vec![1]);
    assert_eq!(gone(60, 44), vec![1, 0]);
    assert_eq!(gone(60, 5), vec![1, 0, 2]);
    assert_eq!(gone(60, 4), vec![1, 0, 2, 3]);
}
