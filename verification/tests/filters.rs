//! Tests for the render-time filters and functions, exercised through the
//! real template engine.

use slides_rs::filters::{apply_trans_filter, dump_filter, markdown_filter};
use slides_rs::functions::{asset_function, dump_function};
use slides_rs::strmap::StrMap;
use std::collections::BTreeMap;

fn create_test_env(translations: StrMap) -> minijinja::Environment<'static> {
    let mut env = minijinja::Environment::new();
    env.add_filter(
        "trans",
        move |k: &minijinja::Value, p: Option<minijinja::Value>| {
            apply_trans_filter(&translations, k, p)
        },
    );
    env.add_filter("markdown", markdown_filter);
    env
}

fn empty_ctx() -> BTreeMap<String, minijinja::Value> {
    BTreeMap::new()
}

#[test]
fn test_trans_filter_basic() {
    let mut translations = StrMap::new();
    translations.insert("greeting".to_string(), "Hello".to_string());
    translations.insert("slides.intro.title".to_string(), "Welcome".to_string());

    let env = create_test_env(translations);

    let tmpl = env
        .template_from_str(r#"{{ "greeting" | trans }}"#)
        .unwrap();
    assert_eq!(tmpl.render(empty_ctx()).unwrap(), "Hello");

    let tmpl = env
        .template_from_str(r#"{{ "slides.intro.title" | trans }}"#)
        .unwrap();
    assert_eq!(tmpl.render(empty_ctx()).unwrap(), "Welcome");
}

#[test]
fn test_trans_filter_missing_key_returns_undefined() {
    let env = create_test_env(StrMap::new());

    let tmpl = env
        .template_from_str(r#"{{ "unknown.key" | trans | default("Fallback") }}"#)
        .unwrap();

    assert_eq!(tmpl.render(empty_ctx()).unwrap(), "Fallback");
}

#[test]
fn test_trans_filter_with_params() {
    let mut translations = StrMap::new();
    translations.insert("greeting".to_string(), "Hello, {name}!".to_string());
    translations.insert(
        "welcome".to_string(),
        "{name} welcome to {place}".to_string(),
    );

    let env = create_test_env(translations);

    let tmpl = env
        .template_from_str(r#"{{ "greeting" | trans(name="World") }}"#)
        .unwrap();
    assert_eq!(tmpl.render(empty_ctx()).unwrap(), "Hello, World!");

    let tmpl = env
        .template_from_str(r#"{{ "welcome" | trans(name="Michael", place="Rust") }}"#)
        .unwrap();
    assert_eq!(
        tmpl.render(empty_ctx()).unwrap(),
        "Michael welcome to Rust"
    );
}

#[test]
fn test_trans_filter_chaining_with_default() {
    let mut translations = StrMap::new();
    translations.insert("existing".to_string(), "Found".to_string());

    let env = create_test_env(translations);

    let tmpl = env
        .template_from_str(r#"{{ "existing" | trans }}"#)
        .unwrap();
    assert_eq!(tmpl.render(empty_ctx()).unwrap(), "Found");

    let tmpl = env
        .template_from_str(r#"{{ "missing" | trans | default("Fallback") }}"#)
        .unwrap();
    assert_eq!(tmpl.render(empty_ctx()).unwrap(), "Fallback");

    let tmpl = env
        .template_from_str(r#"{{ "existing" | trans | default("Fallback") }}"#)
        .unwrap();
    assert_eq!(tmpl.render(empty_ctx()).unwrap(), "Found");
}

#[test]
fn test_trans_filter_returns_raw_text() {
    let mut translations = StrMap::new();
    translations.insert(
        "point1".to_string(),
        "**Lehrmedium #1** für alle Kurse".to_string(),
    );

    let env = create_test_env(translations);

    let tmpl = env.template_from_str(r#"{{ "point1" | trans }}"#).unwrap();
    assert_eq!(
        tmpl.render(empty_ctx()).unwrap(),
        "**Lehrmedium #1** für alle Kurse"
    );

    let tmpl = env
        .template_from_str(r#"{{ "point1" | trans | markdown }}"#)
        .unwrap();
    assert_eq!(
        tmpl.render(empty_ctx()).unwrap(),
        "<strong>Lehrmedium #1</strong> für alle Kurse"
    );
}

#[test]
fn test_markdown_filter_standalone() {
    let env = create_test_env(StrMap::new());

    let tmpl = env.template_from_str(r#"{{ text | markdown }}"#).unwrap();
    let mut ctx = BTreeMap::new();
    ctx.insert("text".to_string(), minijinja::Value::from("**bold** text"));
    let result = tmpl.render(ctx).unwrap();
    assert_eq!(result, "<strong>bold</strong> text");
}

#[test]
fn test_dump_filter() {
    let mut env = minijinja::Environment::new();
    env.add_filter("dump", dump_filter);

    let tmpl = env.template_from_str(r#"{{ data | dump }}"#).unwrap();
    let mut inner = BTreeMap::new();
    inner.insert("name".to_string(), minijinja::Value::from("test"));
    inner.insert("count".to_string(), minijinja::Value::from(42));
    let mut ctx = BTreeMap::new();
    ctx.insert("data".to_string(), minijinja::Value::from_iter(inner));
    let result = tmpl.render(ctx).unwrap();

    assert!(result.contains("<pre><code>"));
    assert!(result.contains("</code></pre>"));
    assert!(result.contains("name"));
    assert!(result.contains("test"));
    assert!(result.contains("42"));
}

#[test]
fn test_dump_function_with_argument() {
    let mut env = minijinja::Environment::new();
    env.add_function("dump", dump_function);
    env.add_function("asset", asset_function);

    let tmpl = env.template_from_str(r#"{{ dump(data) }}"#).unwrap();
    let mut inner = BTreeMap::new();
    inner.insert("foo".to_string(), minijinja::Value::from("bar"));
    let mut ctx = BTreeMap::new();
    ctx.insert("data".to_string(), minijinja::Value::from_iter(inner));
    let result = tmpl.render(ctx).unwrap();

    assert!(result.contains("<pre><code>"));
    assert!(result.contains("foo"));
    assert!(result.contains("bar"));
}

#[test]
fn test_dump_function_without_argument() {
    let mut env = minijinja::Environment::new();
    env.add_function("dump", dump_function);
    env.add_function("asset", asset_function);

    let tmpl = env.template_from_str(r#"{{ dump() }}"#).unwrap();
    let mut ctx = BTreeMap::new();
    ctx.insert(
        "app".to_string(),
        minijinja::Value::from_iter([("total", 5)]),
    );
    ctx.insert(
        "slide".to_string(),
        minijinja::Value::from_iter([("current", 1)]),
    );
    let result = tmpl.render(ctx).unwrap();

    assert!(result.contains("&quot;app&quot;"));
    assert!(result.contains("&quot;slide&quot;"));
    assert!(result.contains("&quot;total&quot;: 5"));
    assert!(result.contains("&quot;current&quot;: 1"));
}

#[test]
fn test_asset_function_depth() {
    let mut env = minijinja::Environment::new();
    env.add_function("asset", asset_function);

    let tmpl = env.template_from_str(r#"{{ asset("logo.png") }}"#).unwrap();
    let result = tmpl.render(empty_ctx()).unwrap();
    assert_eq!(result, "assets/logo.png");

    let mut ctx = BTreeMap::new();
    ctx.insert(
        "_output_path".to_string(),
        minijinja::Value::from("presenter/slide-1.html"),
    );
    let result = tmpl.render(ctx).unwrap();
    assert_eq!(result, "../assets/logo.png");
}

#[test]
fn test_asset_function_empty_name() {
    let mut env = minijinja::Environment::new();
    env.add_function("asset", asset_function);

    let tmpl = env.template_from_str(r#"{{ asset("") }}"#).unwrap();
    let result = tmpl.render(empty_ctx()).unwrap();
    assert_eq!(result, "assets/");
}

#[test]
fn test_substitute_params_literal_replacement() {
    let params = vec![
        ("name".to_string(), "World".to_string()),
        ("place".to_string(), "Rust".to_string()),
    ];
    let out = slides_rs::filters::substitute_params("{name} welcome to {place}", &params);
    assert_eq!(out, "World welcome to Rust");

    let twice = slides_rs::filters::substitute_params("{x} and {x}", &vec![(
        "x".to_string(),
        "y".to_string(),
    )]);
    assert_eq!(twice, "y and y");
}

#[test]
fn test_trans_filter_non_string_key_is_undefined() {
    // A mistyped key joins the missing-key path: the undefined sentinel,
    // through which a default can be chained.
    let mut translations = StrMap::new();
    translations.insert("greeting".to_string(), "Hello".to_string());
    let env = create_test_env(translations);

    let tmpl = env
        .template_from_str(r#"{{ 42 | trans | default("Fallback") }}"#)
        .unwrap();
    assert_eq!(tmpl.render(empty_ctx()).unwrap(), "Fallback");
}
