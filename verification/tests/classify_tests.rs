use clipboard_history::classify::{
    classify_text, detect_color, looks_like_file_path, looks_like_url, strip_html, trim_str,
};
use clipboard_history::clipboard::format_log_line;

#[test]
fn colors_of_every_hex_length_classify_as_color() {
    for input in ["#abc", "#abcd", "#aabbcc", "#aabbccdd"] {
        let c = classify_text(input);
        assert_eq!(c.format, "color");
        assert_eq!(c.category, "text");
        assert_eq!(c.color.as_deref(), Some(input));
        assert_eq!(c.file_path, None);
    }
}

#[test]
fn wrong_length_or_non_hex_is_not_a_color() {
    for input in ["#ab", "#abcde", "#xyz123", "abc", "#", ""] {
        let c = classify_text(input);
        assert_ne!(c.format, "color");
        assert_eq!(c.color, None);
    }
}

#[test]
fn detect_color_returns_trimmed_text() {
    assert_eq!(detect_color("  #AaBbCc  ").as_deref(), Some("#AaBbCc"));
    assert_eq!(detect_color("#12345"), None);
    assert_eq!(detect_color("no color"), None);
}

#[test]
fn drive_letter_path_classifies_as_file_before_url_matching() {
    let c = classify_text("C:\\Users\\a");
    assert_eq!(c.format, "file");
    assert_eq!(c.category, "file");
    assert_eq!(c.file_path.as_deref(), Some("C:\\Users\\a"));
    assert_eq!(c.color, None);
}

#[test]
fn unc_unix_and_forward_slash_drive_paths_are_files() {
    for input in ["\\\\server\\share", "/usr/local/bin", "D:/data/x.txt"] {
        let c = classify_text(input);
        assert_eq!(c.format, "file");
        assert_eq!(c.category, "file");
        assert_eq!(c.file_path.as_deref(), Some(input));
    }
}

#[test]
fn looks_like_file_path_trims_its_input() {
    assert!(looks_like_file_path("   /etc/hosts   "));
    assert!(!looks_like_file_path("etc/hosts"));
    assert!(!looks_like_file_path("x:"));
}

#[test]
fn urls_classify_as_links_ignoring_ascii_case() {
    for input in ["http://example.com", "https://example.com", "HTTPS://X.COM", "HtTp://y"] {
        let c = classify_text(input);
        assert_eq!(c.format, "text");
        assert_eq!(c.category, "link");
    }
}

#[test]
fn non_urls_classify_as_plain_text() {
    for input in ["httpx://nope", "ftp://host", "example.com", "just words"] {
        let c = classify_text(input);
        assert_eq!(c.format, "text");
        assert_eq!(c.category, "text");
    }
}

#[test]
fn looks_like_url_does_not_trim() {
    assert!(looks_like_url("https://a"));
    assert!(!looks_like_url("   https://a"));
    assert!(!looks_like_url("https:/x"));
}

#[test]
fn classification_trims_surrounding_whitespace() {
    let c = classify_text("\t  #abc \n");
    assert_eq!(c.format, "color");
    assert_eq!(c.color.as_deref(), Some("#abc"));
}

#[test]
fn classify_is_deterministic_on_repeated_calls() {
    let a = classify_text("https://example.com/x");
    let b = classify_text("https://example.com/x");
    assert_eq!(a.format, b.format);
    assert_eq!(a.category, b.category);
    assert_eq!(a.color, b.color);
    assert_eq!(a.file_path, b.file_path);
}

#[test]
fn strip_html_removes_tags_and_keeps_text() {
    assert_eq!(strip_html("<b>hi</b> there"), "hi there");
    assert_eq!(strip_html("no tags"), "no tags");
    assert_eq!(strip_html("<div><p>a</p>b</div>"), "ab");
    assert_eq!(strip_html(""), "");
}

#[test]
fn strip_html_drops_text_inside_an_unclosed_tag() {
    assert_eq!(strip_html("a<unclosed rest"), "a");
    assert_eq!(strip_html("a>b<c"), "ab");
}

#[test]
fn trimming_agrees_with_the_standard_library() {
    for s in [
        "  x  ",
        "\t\n abc \r\n",
        "",
        "   ",
        "\u{00A0}#abc\u{3000}",
        "\u{2028}a b\u{205F}",
        "no trim",
        "\u{1680}x",
    ] {
        assert_eq!(trim_str(s), s.trim());
    }
}

#[test]
fn unicode_whitespace_is_trimmed_before_classification() {
    let c = classify_text("\u{00A0}#abc\u{3000}");
    assert_eq!(c.format, "color");
    assert_eq!(c.color.as_deref(), Some("#abc"));
}

#[test]
fn log_line_has_millis_space_message_newline() {
    assert_eq!(format_log_line(1234, "hello"), "1234 hello\n");
    assert_eq!(format_log_line(0, "x"), "0 x\n");
    assert_eq!(format_log_line(1700000000000, ""), "1700000000000 \n");
}
