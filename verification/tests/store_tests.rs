use clipboard_history::db::HistoryStore;
use clipboard_history::models::NewClipboardItem;

fn text_item(text: &str, created_at: i64) -> NewClipboardItem {
    NewClipboardItem {
        format: "text".to_string(),
        category: "text".to_string(),
        text: Some(text.to_string()),
        html: None,
        file_path: None,
        color: None,
        image: None,
        image_width: None,
        image_height: None,
        created_at,
    }
}

#[test]
fn insert_then_get_by_id_returns_every_field_unchanged() {
    let mut store = HistoryStore::new();
    let item = NewClipboardItem {
        format: "image".to_string(),
        category: "image".to_string(),
        text: Some("t".to_string()),
        html: Some("<b>h</b>".to_string()),
        file_path: Some("/p".to_string()),
        color: Some("#abc".to_string()),
        image: Some(vec![9, 8, 7]),
        image_width: Some(3),
        image_height: Some(1),
        created_at: 4242,
    };
    let id = store.insert_item(item).unwrap();
    assert_eq!(id, 1);
    let row = store.get_item(id).expect("inserted record must be found");
    assert_eq!(row.id, 1);
    assert_eq!(row.format, "image");
    assert_eq!(row.category, "image");
    assert_eq!(row.text.as_deref(), Some("t"));
    assert_eq!(row.html.as_deref(), Some("<b>h</b>"));
    assert_eq!(row.file_path.as_deref(), Some("/p"));
    assert_eq!(row.color.as_deref(), Some("#abc"));
    assert_eq!(row.image, Some(vec![9, 8, 7]));
    assert_eq!(row.image_width, Some(3));
    assert_eq!(row.image_height, Some(1));
    assert_eq!(row.created_at, 4242);
}

#[test]
fn ids_are_assigned_in_insertion_order_starting_at_one() {
    let mut store = HistoryStore::new();
    assert_eq!(store.insert_item(text_item("a", 1)).unwrap(), 1);
    assert_eq!(store.insert_item(text_item("b", 2)).unwrap(), 2);
    assert_eq!(store.insert_item(text_item("c", 3)).unwrap(), 3);
    assert_eq!(store.len(), 3);
}

#[test]
fn get_of_an_unknown_id_is_none() {
    let mut store = HistoryStore::new();
    store.insert_item(text_item("a", 1)).unwrap();
    assert!(store.get_item(0).is_none());
    assert!(store.get_item(-7).is_none());
    assert!(store.get_item(2).is_none());
    assert!(store.get_item(99).is_none());
}

#[test]
fn list_recent_returns_newest_first() {
    let mut store = HistoryStore::new();
    store.insert_item(text_item("first", 100)).unwrap();
    store.insert_item(text_item("second", 200)).unwrap();
    store.insert_item(text_item("third", 300)).unwrap();
    let rows = store.list_items(3);
    let times: Vec<i64> = rows.iter().map(|r| r.created_at).collect();
    assert_eq!(times, vec![300, 200, 100]);
}

#[test]
fn list_recent_is_bounded_by_the_limit() {
    let mut store = HistoryStore::new();
    for t in [10, 20, 30, 40, 50] {
        store.insert_item(text_item("x", t)).unwrap();
    }
    let rows = store.list_items(2);
    let times: Vec<i64> = rows.iter().map(|r| r.created_at).collect();
    assert_eq!(times, vec![50, 40]);
}

#[test]
fn equal_timestamps_order_by_later_insertion_first() {
    let mut store = HistoryStore::new();
    store.insert_item(text_item("old", 100)).unwrap();
    store.insert_item(text_item("tie-a", 200)).unwrap();
    store.insert_item(text_item("tie-b", 200)).unwrap();
    let rows = store.list_items(10);
    let ids: Vec<i64> = rows.iter().map(|r| r.id).collect();
    assert_eq!(ids, vec![3, 2, 1]);
}

#[test]
fn search_matches_substrings_of_text() {
    let mut store = HistoryStore::new();
    store.insert_item(text_item("hello world", 1)).unwrap();
    store.insert_item(text_item("goodbye", 2)).unwrap();
    let rows = store.search_items("lo wor", 10);
    assert_eq!(rows.len(), 1);
    assert_eq!(rows[0].text.as_deref(), Some("hello world"));
}

#[test]
fn search_is_case_sensitive() {
    let mut store = HistoryStore::new();
    store.insert_item(text_item("Hello", 1)).unwrap();
    assert_eq!(store.search_items("hello", 10).len(), 0);
    assert_eq!(store.search_items("Hello", 10).len(), 1);
}

#[test]
fn search_looks_at_html_file_path_and_color_too() {
    let mut store = HistoryStore::new();
    let mut html = text_item("plain", 1);
    html.html = Some("<b>needle</b>".to_string());
    store.insert_item(html).unwrap();
    let mut path = text_item("plain", 2);
    path.file_path = Some("C:\\needle\\x".to_string());
    store.insert_item(path).unwrap();
    let mut color = text_item("plain", 3);
    color.color = Some("#needle".to_string());
    store.insert_item(color).unwrap();
    store.insert_item(text_item("plain", 4)).unwrap();
    assert_eq!(store.search_items("needle", 10).len(), 3);
}

#[test]
fn search_with_empty_string_matches_records_with_text_fields() {
    let mut store = HistoryStore::new();
    store.insert_item(text_item("anything", 1)).unwrap();
    let rows = store.search_items("", 10);
    assert_eq!(rows.len(), 1);
}

#[test]
fn date_range_search_keeps_only_records_inside_the_range() {
    let mut store = HistoryStore::new();
    store.insert_item(text_item("foo", 100)).unwrap();
    store.insert_item(text_item("foo", 200)).unwrap();
    store.insert_item(text_item("foo", 300)).unwrap();
    let rows = store.search_items_by_date_range("foo", 150, 250, 10);
    assert_eq!(rows.len(), 1);
    assert_eq!(rows[0].created_at, 200);
}

#[test]
fn date_range_bounds_are_inclusive() {
    let mut store = HistoryStore::new();
    store.insert_item(text_item("a", 150)).unwrap();
    store.insert_item(text_item("b", 200)).unwrap();
    store.insert_item(text_item("c", 250)).unwrap();
    store.insert_item(text_item("d", 251)).unwrap();
    let rows = store.list_items_by_date_range(150, 250, 10);
    let times: Vec<i64> = rows.iter().map(|r| r.created_at).collect();
    assert_eq!(times, vec![250, 200, 150]);
}

#[test]
fn date_range_search_also_filters_by_the_query() {
    let mut store = HistoryStore::new();
    store.insert_item(text_item("foo", 200)).unwrap();
    store.insert_item(text_item("bar", 210)).unwrap();
    let rows = store.search_items_by_date_range("foo", 100, 300, 10);
    assert_eq!(rows.len(), 1);
    assert_eq!(rows[0].text.as_deref(), Some("foo"));
}
