//! Tests for the markdown conversion and HTML escaping.

use slides_rs::markdown::markdown_to_html;
use slides_rs::text::html_escape;

#[test]
fn test_markdown_bold() {
    assert_eq!(markdown_to_html("**bold**"), "<strong>bold</strong>");
    assert_eq!(
        markdown_to_html("a **bold** word"),
        "a <strong>bold</strong> word"
    );
}

#[test]
fn test_markdown_italic() {
    assert_eq!(markdown_to_html("*italic*"), "<em>italic</em>");
    assert_eq!(
        markdown_to_html("an *italic* word"),
        "an <em>italic</em> word"
    );
}

#[test]
fn test_markdown_code() {
    assert_eq!(markdown_to_html("`code`"), "<code>code</code>");
    assert_eq!(
        markdown_to_html("use `let x = 1`"),
        "use <code>let x = 1</code>"
    );
}

#[test]
fn test_markdown_mixed() {
    assert_eq!(
        markdown_to_html("**bold** and *italic* and `code`"),
        "<strong>bold</strong> and <em>italic</em> and <code>code</code>"
    );
}

#[test]
fn test_markdown_strikethrough() {
    assert_eq!(markdown_to_html("~~deleted~~"), "<del>deleted</del>");
}

#[test]
fn test_markdown_multiline() {
    let input = "# Heading\n\nSome **bold** text.\n\n- item 1\n- item 2";
    let output = markdown_to_html(input);
    assert!(output.contains("<h1>Heading</h1>"));
    assert!(output.contains("<strong>bold</strong>"));
    assert!(output.contains("<li>item 1</li>"));
}

#[test]
fn test_markdown_keeps_multiple_paragraphs_wrapped() {
    let output = markdown_to_html("one\n\ntwo");
    assert!(output.contains("<p>one</p>"));
    assert!(output.contains("<p>two</p>"));
}

#[test]
fn test_html_escape_all_significant_chars() {
    assert_eq!(
        html_escape(r#"<a href="x">&</a>"#),
        "&lt;a href=&quot;x&quot;&gt;&amp;&lt;/a&gt;"
    );
    assert_eq!(html_escape("plain"), "plain");
}
