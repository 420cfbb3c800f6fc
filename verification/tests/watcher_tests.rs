use clipboard_history::clipboard::{
    candidate_from_image, candidate_from_text, hash_image, hash_text, retry_delay_ms, Watcher,
};

#[test]
fn the_capture_retry_allows_five_attempts_sixty_millis_apart() {
    assert_eq!(retry_delay_ms(1), Some(60));
    assert_eq!(retry_delay_ms(4), Some(60));
    assert_eq!(retry_delay_ms(5), None);
    assert_eq!(retry_delay_ms(1000), None);
}
use clipboard_history::db::HistoryStore;

#[test]
fn the_dedup_loop_stores_once_per_logical_change() {
    let mut watcher = Watcher::new();
    let mut store = HistoryStore::new();
    for (text, at) in [("same", 1), ("same", 2), ("other", 3), ("other", 4)] {
        let captured = candidate_from_text(text, at).unwrap();
        if watcher.observe(captured.hash) {
            store.insert_item(captured.item).unwrap();
        }
    }
    let rows = store.list_items(10);
    assert_eq!(rows.len(), 2);
    assert_eq!(rows[0].text.as_deref(), Some("other"));
    assert_eq!(rows[1].text.as_deref(), Some("same"));
}

#[test]
fn identical_consecutive_text_captures_store_only_once() {
    let mut watcher = Watcher::new();
    let first = candidate_from_text("hello", 1).unwrap();
    let second = candidate_from_text("hello", 2).unwrap();
    assert!(watcher.observe(first.hash));
    assert!(!watcher.observe(second.hash));
}

#[test]
fn captures_differing_by_one_byte_both_store() {
    let mut watcher = Watcher::new();
    let first = candidate_from_text("hello", 1).unwrap();
    let second = candidate_from_text("hellp", 2).unwrap();
    assert!(watcher.observe(first.hash));
    assert!(watcher.observe(second.hash));
}

#[test]
fn a_repeat_after_a_change_stores_again() {
    let mut watcher = Watcher::new();
    assert!(watcher.observe(hash_text("a")));
    assert!(watcher.observe(hash_text("b")));
    assert!(watcher.observe(hash_text("a")));
    assert!(!watcher.observe(hash_text("a")));
}

#[test]
fn image_keys_compare_bytes_and_dimensions() {
    let mut watcher = Watcher::new();
    assert!(watcher.observe(hash_image(&vec![1, 2, 3, 4], 1, 1)));
    assert!(!watcher.observe(hash_image(&vec![1, 2, 3, 4], 1, 1)));
    assert!(watcher.observe(hash_image(&vec![1, 2, 3, 5], 1, 1)));
    assert!(watcher.observe(hash_image(&vec![1, 2, 3, 5], 4, 1)));
}

#[test]
fn text_and_image_keys_never_collide() {
    let mut watcher = Watcher::new();
    assert!(watcher.observe(hash_text("abc")));
    assert!(watcher.observe(hash_image(&vec![97, 98, 99], 3, 1)));
}

#[test]
fn empty_or_whitespace_text_yields_no_candidate() {
    assert!(candidate_from_text("", 1).is_none());
    assert!(candidate_from_text("   \t\n", 1).is_none());
}

#[test]
fn text_candidates_carry_the_trimmed_classified_payload() {
    let captured = candidate_from_text("  https://example.com  ", 123).unwrap();
    assert_eq!(captured.item.format, "text");
    assert_eq!(captured.item.category, "link");
    assert_eq!(captured.item.text.as_deref(), Some("https://example.com"));
    assert_eq!(captured.item.html, None);
    assert_eq!(captured.item.image, None);
    assert_eq!(captured.item.created_at, 123);
}

#[test]
fn color_candidates_record_the_color_field() {
    let captured = candidate_from_text(" #aabbcc ", 5).unwrap();
    assert_eq!(captured.item.format, "color");
    assert_eq!(captured.item.category, "text");
    assert_eq!(captured.item.color.as_deref(), Some("#aabbcc"));
}

#[test]
fn image_candidates_carry_bytes_and_dimensions() {
    let captured = candidate_from_image(vec![1, 2, 3, 4], 1, 1, 77);
    assert_eq!(captured.item.format, "image");
    assert_eq!(captured.item.category, "image");
    assert_eq!(captured.item.image, Some(vec![1, 2, 3, 4]));
    assert_eq!(captured.item.image_width, Some(1));
    assert_eq!(captured.item.image_height, Some(1));
    assert_eq!(captured.item.text, None);
    assert_eq!(captured.item.created_at, 77);
}
