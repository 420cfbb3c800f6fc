use clipboard_history::db::HistoryStore;
use clipboard_history::history::{
    list_history, list_history_by_date, search_history, search_history_by_date, set_clipboard,
    WriteAction,
};
use clipboard_history::models::NewClipboardItem;

fn text_item(text: &str, created_at: i64) -> NewClipboardItem {
    NewClipboardItem {
        format: "text".to_string(),
        category: "text".to_string(),
        text: Some(text.to_string()),
        html: None,
        file_path: None,
        color: None,
        image: None,
        image_width: None,
        image_height: None,
        created_at,
    }
}

#[test]
fn list_history_defaults_to_all_when_under_the_default_limit() {
    let mut store = HistoryStore::new();
    store.insert_item(text_item("a", 1)).unwrap();
    store.insert_item(text_item("b", 2)).unwrap();
    store.insert_item(text_item("c", 3)).unwrap();
    let items = list_history(&store, None);
    assert_eq!(items.len(), 3);
    let times: Vec<i64> = items.iter().map(|i| i.created_at).collect();
    assert_eq!(times, vec![3, 2, 1]);
}

#[test]
fn limits_below_one_clamp_to_one() {
    let mut store = HistoryStore::new();
    store.insert_item(text_item("a", 1)).unwrap();
    store.insert_item(text_item("b", 2)).unwrap();
    let items = list_history(&store, Some(0));
    assert_eq!(items.len(), 1);
    assert_eq!(items[0].created_at, 2);
    let items = list_history(&store, Some(-5));
    assert_eq!(items.len(), 1);
}

#[test]
fn huge_limits_clamp_to_a_thousand() {
    let mut store = HistoryStore::new();
    store.insert_item(text_item("a", 1)).unwrap();
    let items = list_history(&store, Some(1_000_000));
    assert_eq!(items.len(), 1);
}

#[test]
fn empty_or_whitespace_search_lists_everything() {
    let mut store = HistoryStore::new();
    store.insert_item(text_item("alpha", 1)).unwrap();
    store.insert_item(text_item("beta", 2)).unwrap();
    assert_eq!(search_history(&store, "", None).len(), 2);
    assert_eq!(search_history(&store, "   ", None).len(), 2);
}

#[test]
fn search_query_is_trimmed_before_matching() {
    let mut store = HistoryStore::new();
    store.insert_item(text_item("alpha", 1)).unwrap();
    store.insert_item(text_item("beta", 2)).unwrap();
    let items = search_history(&store, "  alpha  ", None);
    assert_eq!(items.len(), 1);
    assert_eq!(items[0].text.as_deref(), Some("alpha"));
}

#[test]
fn date_commands_filter_and_order_like_the_store() {
    let mut store = HistoryStore::new();
    store.insert_item(text_item("foo", 100)).unwrap();
    store.insert_item(text_item("foo", 200)).unwrap();
    store.insert_item(text_item("foo", 300)).unwrap();
    let items = list_history_by_date(&store, 150, 350, None);
    let times: Vec<i64> = items.iter().map(|i| i.created_at).collect();
    assert_eq!(times, vec![300, 200]);
    let items = search_history_by_date(&store, "foo", 150, 250, Some(10));
    assert_eq!(items.len(), 1);
    assert_eq!(items[0].created_at, 200);
    let items = search_history_by_date(&store, "  ", 150, 250, Some(10));
    assert_eq!(items.len(), 1);
}

#[test]
fn set_clipboard_on_a_missing_id_fails_with_not_found() {
    let store = HistoryStore::new();
    let err = set_clipboard(&store, 1).unwrap_err();
    assert_eq!(err, "record not found");
    let mut store = HistoryStore::new();
    store.insert_item(text_item("a", 1)).unwrap();
    assert!(set_clipboard(&store, 2).is_err());
}

#[test]
fn set_clipboard_writes_the_text_of_a_text_record() {
    let mut store = HistoryStore::new();
    store.insert_item(text_item("hello", 1)).unwrap();
    match set_clipboard(&store, 1).unwrap() {
        WriteAction::SetText(t) => assert_eq!(t, "hello"),
        _ => panic!("expected a text write"),
    }
}

#[test]
fn set_clipboard_prefers_html_and_falls_back_to_text() {
    let mut store = HistoryStore::new();
    let mut item = text_item("fallback", 1);
    item.format = "html".to_string();
    item.html = Some("<b>rich</b>".to_string());
    store.insert_item(item).unwrap();
    match set_clipboard(&store, 1).unwrap() {
        WriteAction::SetHtml(h) => assert_eq!(h, "<b>rich</b>"),
        _ => panic!("expected an html write"),
    }
    let mut item = text_item("fallback", 2);
    item.format = "html".to_string();
    store.insert_item(item).unwrap();
    match set_clipboard(&store, 2).unwrap() {
        WriteAction::SetText(t) => assert_eq!(t, "fallback"),
        _ => panic!("expected a text write"),
    }
}

#[test]
fn set_clipboard_writes_image_bytes_with_dimensions() {
    let mut store = HistoryStore::new();
    let item = NewClipboardItem {
        format: "image".to_string(),
        category: "image".to_string(),
        text: None,
        html: None,
        file_path: None,
        color: None,
        image: Some(vec![1, 2, 3, 4]),
        image_width: Some(1),
        image_height: Some(1),
        created_at: 7,
    };
    store.insert_item(item).unwrap();
    match set_clipboard(&store, 1).unwrap() {
        WriteAction::SetImage(bytes, w, h) => {
            assert_eq!(bytes, vec![1, 2, 3, 4]);
            assert_eq!(w, 1);
            assert_eq!(h, 1);
        },
        _ => panic!("expected an image write"),
    }
}

#[test]
fn set_clipboard_of_an_image_record_without_bytes_writes_nothing() {
    let mut store = HistoryStore::new();
    let mut item = text_item("x", 1);
    item.format = "image".to_string();
    item.text = None;
    store.insert_item(item).unwrap();
    match set_clipboard(&store, 1).unwrap() {
        WriteAction::Nothing => {},
        _ => panic!("expected no write"),
    }
}

#[test]
fn set_clipboard_falls_back_to_file_path_then_color() {
    let mut store = HistoryStore::new();
    let mut item = text_item("x", 1);
    item.text = None;
    item.file_path = Some("/tmp/f".to_string());
    store.insert_item(item).unwrap();
    match set_clipboard(&store, 1).unwrap() {
        WriteAction::SetText(t) => assert_eq!(t, "/tmp/f"),
        _ => panic!("expected the file path"),
    }
    let mut item = text_item("x", 2);
    item.text = None;
    item.color = Some("#abc".to_string());
    store.insert_item(item).unwrap();
    match set_clipboard(&store, 2).unwrap() {
        WriteAction::SetText(t) => assert_eq!(t, "#abc"),
        _ => panic!("expected the color"),
    }
}
