use clipstack::config::Config;
use clipstack::history::{ClipboardItem, HistoryManager};
use clipstack::store::StoreError;

fn test_config(enabled: bool, max_items: usize) -> Config {
    Config { enabled, max_items, start_on_login: false, shortcut: String::new() }
}

fn fresh_manager(max_items: usize) -> HistoryManager {
    let conn = rusqlite::Connection::open_in_memory().unwrap();
    HistoryManager::new(conn, &test_config(true, max_items)).unwrap()
}

fn stored_ids(mgr: HistoryManager) -> Vec<String> {
    let conn = mgr.into_store();
    let mut stmt = conn.prepare("SELECT id FROM clipboard_items").unwrap();
    let ids = stmt
        .query_map([], |row| row.get::<usize, String>(0))
        .unwrap()
        .map(|r| r.unwrap())
        .collect();
    ids
}

#[test]
fn capacity_and_store_match_cache() {
    let config = test_config(true, 3);
    let mut mgr = fresh_manager(3);
    let contents = ["a", "b", "c", "d", "e"];
    for (step, c) in contents.iter().enumerate() {
        assert_eq!(mgr.add_item(c.to_string(), &config), Ok(true));
        assert!(mgr.get_items().len() <= 3, "step {}", step);
    }
    let cache_ids: Vec<String> = mgr.get_items().iter().map(|i| i.id.clone()).collect();
    let mut store_ids = stored_ids(mgr);
    let mut expected = cache_ids.clone();
    store_ids.sort();
    expected.sort();
    assert_eq!(store_ids, expected);
}

#[test]
fn consecutive_dedup_stores_once() {
    let config = test_config(true, 10);
    let mut mgr = fresh_manager(10);
    assert_eq!(mgr.add_item("hello".to_string(), &config), Ok(true));
    assert_eq!(mgr.add_item("hello".to_string(), &config), Ok(false));
    assert_eq!(mgr.get_items().len(), 1);
    assert_eq!(stored_ids(mgr).len(), 1);
}

#[test]
fn dedup_only_against_most_recent() {
    let config = test_config(true, 10);
    let mut mgr = fresh_manager(10);
    assert_eq!(mgr.add_item("x".to_string(), &config), Ok(true));
    assert_eq!(mgr.add_item("y".to_string(), &config), Ok(true));
    assert_eq!(mgr.add_item("x".to_string(), &config), Ok(true));
    assert_eq!(mgr.get_items().len(), 3);
}

#[test]
fn items_most_recent_first_with_decreasing_timestamps() {
    let config = test_config(true, 10);
    let mut mgr = fresh_manager(10);
    for c in ["one", "two", "three"] {
        assert_eq!(mgr.add_item(c.to_string(), &config), Ok(true));
    }
    let items: Vec<&ClipboardItem> = mgr.get_items().iter().collect();
    assert_eq!(items[0].content, "three");
    assert_eq!(items[1].content, "two");
    assert_eq!(items[2].content, "one");
    assert!(items[0].timestamp > items[1].timestamp);
    assert!(items[1].timestamp > items[2].timestamp);
}

#[test]
fn disabled_leaves_cache_and_store_unchanged() {
    let disabled = test_config(false, 10);
    let mut mgr = fresh_manager(10);
    for c in ["a", "b", "a"] {
        assert_eq!(mgr.add_item(c.to_string(), &disabled), Ok(false));
    }
    assert_eq!(mgr.get_items().len(), 0);
    assert_eq!(stored_ids(mgr).len(), 0);
}

#[test]
fn blank_content_is_skipped() {
    let config = test_config(true, 10);
    let mut mgr = fresh_manager(10);
    assert_eq!(mgr.add_item(String::new(), &config), Ok(false));
    assert_eq!(mgr.add_item("   \t\r\n  ".to_string(), &config), Ok(false));
    assert_eq!(mgr.add_item("\u{00a0}\u{2003}".to_string(), &config), Ok(false));
    assert_eq!(mgr.add_item("  a  ".to_string(), &config), Ok(true));
    assert_eq!(mgr.get_items().len(), 1);
}

#[test]
fn eviction_drops_exactly_the_oldest() {
    let config = test_config(true, 3);
    let mut mgr = fresh_manager(3);
    for c in ["A", "B", "C", "D"] {
        assert_eq!(mgr.add_item(c.to_string(), &config), Ok(true));
    }
    let contents: Vec<String> = mgr.get_items().iter().map(|i| i.content.clone()).collect();
    assert_eq!(contents, vec!["D".to_string(), "C".to_string(), "B".to_string()]);
    let surviving: Vec<String> = mgr.get_items().iter().map(|i| i.id.clone()).collect();
    let store = stored_ids(mgr);
    assert_eq!(store.len(), 3);
    for id in store {
        assert!(surviving.contains(&id));
    }
}

#[test]
fn search_is_case_insensitive_and_ordered() {
    let config = test_config(true, 10);
    let mut mgr = fresh_manager(10);
    for c in ["WORLD PEACE", "foo", "Hello World"] {
        assert_eq!(mgr.add_item(c.to_string(), &config), Ok(true));
    }
    let hits: Vec<String> = mgr.search("world").iter().map(|i| i.content.clone()).collect();
    assert_eq!(hits, vec!["Hello World".to_string(), "WORLD PEACE".to_string()]);
}

#[test]
fn empty_query_returns_everything() {
    let config = test_config(true, 10);
    let mut mgr = fresh_manager(10);
    for c in ["a", "b", "c"] {
        assert_eq!(mgr.add_item(c.to_string(), &config), Ok(true));
    }
    let hits: Vec<String> = mgr.search("").iter().map(|i| i.content.clone()).collect();
    assert_eq!(hits, vec!["c".to_string(), "b".to_string(), "a".to_string()]);
}

#[test]
fn search_without_hits_is_empty() {
    let config = test_config(true, 10);
    let mut mgr = fresh_manager(10);
    assert_eq!(mgr.add_item("something".to_string(), &config), Ok(true));
    assert!(mgr.search("absent").is_empty());
}

#[test]
fn clear_all_empties_cache_and_store() {
    let config = test_config(true, 10);
    let mut mgr = fresh_manager(10);
    for c in ["a", "b"] {
        assert_eq!(mgr.add_item(c.to_string(), &config), Ok(true));
    }
    assert_eq!(mgr.clear_all(), Ok(()));
    assert_eq!(mgr.get_items().len(), 0);
    assert_eq!(stored_ids(mgr).len(), 0);
}

#[test]
fn restart_reproduces_cache_content_and_order() {
    let config = test_config(true, 10);
    let mut mgr = fresh_manager(10);
    for c in ["first", "second", "third"] {
        assert_eq!(mgr.add_item(c.to_string(), &config), Ok(true));
    }
    let before: Vec<(String, String, i64)> = mgr
        .get_items()
        .iter()
        .map(|i| (i.id.clone(), i.content.clone(), i.timestamp))
        .collect();
    let conn = mgr.into_store();
    let reloaded = HistoryManager::new(conn, &config).unwrap();
    let after: Vec<(String, String, i64)> = reloaded
        .get_items()
        .iter()
        .map(|i| (i.id.clone(), i.content.clone(), i.timestamp))
        .collect();
    assert_eq!(before, after);
}

#[test]
fn fresh_identifiers_are_distinct_and_hyphenated() {
    let config = test_config(true, 10);
    let mut mgr = fresh_manager(10);
    assert_eq!(mgr.add_item("a".to_string(), &config), Ok(true));
    assert_eq!(mgr.add_item("b".to_string(), &config), Ok(true));
    let items: Vec<&ClipboardItem> = mgr.get_items().iter().collect();
    assert_eq!(items[0].id.len(), 36);
    assert_eq!(items[1].id.len(), 36);
    assert_ne!(items[0].id, items[1].id);
}

#[test]
fn clipboard_item_new_carries_content() {
    let item = ClipboardItem::new("payload".to_string());
    assert_eq!(item.content, "payload");
    assert_eq!(item.id.len(), 36);
    assert!(item.timestamp > 1_500_000_000_000);
}

#[test]
fn unwritable_store_reports_unavailable() {
    let conn = rusqlite::Connection::open_in_memory().unwrap();
    conn.pragma_update(None, "query_only", true).unwrap();
    match HistoryManager::new(conn, &test_config(true, 10)) {
        Err(StoreError::Unavailable) => {},
        other => panic!("expected an unavailable store, got {:?}", other.is_ok()),
    }
}

#[test]
fn failed_write_is_distinct_from_policy_skip() {
    let config = test_config(true, 10);
    let mut mgr = fresh_manager(10);
    assert_eq!(mgr.add_item("kept".to_string(), &config), Ok(true));
    let conn = mgr.into_store();
    conn.pragma_update(None, "query_only", true).unwrap();
    let mut readonly = match HistoryManager::new(conn, &config) {
        Ok(m) => m,
        Err(_) => return,
    };
    assert_eq!(readonly.get_items().len(), 1);
    assert_eq!(readonly.add_item("fresh".to_string(), &config), Err(StoreError::WriteFailed));
    assert_eq!(readonly.get_items().len(), 1);
    assert_eq!(readonly.add_item("kept".to_string(), &config), Ok(false));
    assert_eq!(readonly.clear_all(), Err(StoreError::WriteFailed));
    assert_eq!(readonly.get_items().len(), 1);
}
