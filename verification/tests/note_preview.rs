use lazynote_core::service::note_service::{derive_markdown_preview, preview_from};


#[test]
fn preview_extracts_first_image_path() {
    let preview = derive_markdown_preview("x ![a](one.png) y ![b](two.png)");
    assert_eq!(preview.preview_image.as_deref(), Some("one.png"));
}

#[test]
fn preview_strips_markdown_symbols_and_limits_length() {
    let source = "# title\n\n- [link](https://example.com)\n**bold** `code`";
    let preview = derive_markdown_preview(source);
    let text = preview.preview_text.expect("preview_text should exist");
    assert!(!text.contains('#'));
    assert!(!text.contains('*'));
    assert!(text.len() <= 100);
}

#[test]
fn preview_handles_complex_markdown_and_unicode_text() {
    let source = r#"
# title heading

> quote line

![cover]( https://cdn.example.com/first.png )
Paragraph with [ref](https://example.com/path?q=1) and **bold** + `code`.

![second](two.png)
"#;
    let preview = derive_markdown_preview(source);
    assert_eq!(
        preview.preview_image.as_deref(),
        Some("https://cdn.example.com/first.png")
    );
    let text = preview.preview_text.expect("preview_text should exist");
    assert!(text.contains("title heading"));
    assert!(text.contains("quote line"));
    assert!(!text.contains("!["));
    assert!(!text.contains("]("));
    assert!(text.len() <= 100);
}

#[test]
fn preview_returns_none_for_symbol_only_content() {
    let preview = derive_markdown_preview("### *** ``` ~~ []() ![]()");
    assert!(preview.preview_text.is_none());
    assert!(preview.preview_image.is_none());
}

#[test]
fn preview_text_is_cut_at_one_hundred_characters() {
    let long = "x".repeat(150);
    let preview = derive_markdown_preview(&long);
    assert_eq!(preview.preview_text, Some("x".repeat(100)));
    assert_eq!(preview.preview_image, None);
}

#[test]
fn preview_replaces_links_by_their_labels() {
    let preview = derive_markdown_preview("see [the docs](https://example.com) now");
    assert_eq!(preview.preview_text.as_deref(), Some("see the docs now"));
}

#[test]
fn preview_from_trims_both_parts() {
    let preview = preview_from(Some("  a.png "), "  some text  ");
    assert_eq!(preview.preview_image.as_deref(), Some("a.png"));
    assert_eq!(preview.preview_text.as_deref(), Some("some text"));
    let empty = preview_from(Some("   "), "   ");
    assert_eq!(empty.preview_image, None);
    assert_eq!(empty.preview_text, None);
}
