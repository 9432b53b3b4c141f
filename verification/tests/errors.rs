//! Tests for centralized error handling.

use slides_rs::error::Error;

#[test]
fn test_error_display_messages() {
    let err = Error::DecksNotFound;
    assert_eq!(err.message(), "decks.yaml not found");

    let err = Error::DeckNotFound("my-talk".to_string());
    assert_eq!(err.message(), "Deck 'my-talk' not found in decks.yaml");

    let err = Error::NoSlides("empty-deck".to_string());
    assert_eq!(err.message(), "No slides found for deck 'empty-deck'");

    let err = Error::DirNotEmpty;
    assert_eq!(
        err.message(),
        "Directory is not empty. 'slides init' requires an empty directory."
    );

    let err = Error::DirExists("/tmp/existing".to_string());
    assert_eq!(err.message(), "Directory '/tmp/existing' already exists");

    let err = Error::ThumbnailsNotFound;
    assert_eq!(
        err.message(),
        "Thumbnails not found. Run 'slides build' first."
    );

    let err = Error::NoThumbnails;
    assert_eq!(err.message(), "No thumbnails found in output/thumbnails/");

    let err = Error::TemplateNotFound("missing.html".to_string());
    assert_eq!(err.message(), "Template 'missing.html' not found");

    let err = Error::TranslationNotFound("slides/translations/fr.yaml".to_string());
    assert_eq!(
        err.message(),
        "Translation file not found: slides/translations/fr.yaml"
    );
}

#[test]
fn test_error_debug_format() {
    let err = Error::DecksNotFound;
    let debug = format!("{:?}", err);
    assert!(debug.contains("DecksNotFound"));
}

#[test]
fn test_file_errors_include_path() {
    let err = Error::FileRead {
        path: "/path/to/file.txt".to_string(),
        message: "file not found".to_string(),
    };
    let msg = err.message();
    assert!(msg.contains("/path/to/file.txt"));
    assert!(msg.contains("Could not read"));
}

#[test]
fn test_yaml_parse_error_includes_context() {
    let err = Error::YamlParse {
        path: "config.yaml".to_string(),
        message: "invalid syntax at line 5".to_string(),
    };
    let msg = err.message();
    assert!(msg.contains("config.yaml"));
    assert!(msg.contains("invalid syntax"));
}

#[test]
fn test_template_render_error_includes_template_name() {
    let err = Error::TemplateRender {
        template: "intro.html".to_string(),
        message: "undefined variable 'title'".to_string(),
    };
    let msg = err.message();
    assert!(msg.contains("intro.html"));
    assert!(msg.contains("undefined variable"));
}
