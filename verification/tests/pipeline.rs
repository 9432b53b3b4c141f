//! End-to-end and component tests for the build pipeline: manifest
//! resolution, slide collection, translation flattening, navigation, the
//! render passes and the watch-loop decisions.

use slides_rs::deck::Deck;
use slides_rs::error::Error;
use slides_rs::extensions::{expand_pattern, get_template_extension};
use slides_rs::manifest::{DeckConfig, DeckConfigCollection};
use slides_rs::nav::SlideNav;
use slides_rs::pdf::generate_secure_password;
use slides_rs::project::Project;
use slides_rs::render::{group_sections, render_deck_pages, render_overview, render_print};
use slides_rs::slide::Slide;
use slides_rs::strmap::StrMap;
use slides_rs::translations;
use slides_rs::watch::{batch_actionable, is_ignored_path, watch_step, WatchAction, WatchEvent,
    WatchState};

fn nav_template() -> String {
    let mut t = String::from("<!DOCTYPE html>\n<html><body>");
    t.push_str("{% if slide.prev %}<a href=\"slide-{{ slide.prev }}.html\">prev</a>{% endif %}");
    t.push_str("{% if slide.next %}<a href=\"slide-{{ slide.next }}.html\">next</a>{% endif %}");
    t.push_str("<h1>{{ slide.current }} / {{ app.total }}</h1></body></html>");
    t
}

fn three_file_tree() -> Vec<(String, String)> {
    vec![
        ("01-intro.html".to_string(), nav_template()),
        ("02-content.html".to_string(), nav_template()),
        ("03-end.html".to_string(), nav_template()),
    ]
}

fn slide(template: &str, key: Option<&str>) -> Slide {
    Slide {
        template: template.to_string(),
        section_key: key.map(|k| k.to_string()),
    }
}

#[test]
fn test_extension_priority_order() {
    assert_eq!(
        get_template_extension("x.html.twig"),
        Some(".html.twig".to_string())
    );
    assert_eq!(get_template_extension("x.twig"), Some(".twig".to_string()));
    assert_eq!(get_template_extension("x.html"), Some(".html".to_string()));
    assert_eq!(get_template_extension("x.css"), None);
}

#[test]
fn test_expand_pattern_substitutes_suffixes() {
    let expanded = expand_pattern("*.html");
    assert_eq!(
        expanded,
        vec![
            "*.html.twig".to_string(),
            "*.html.jinja2".to_string(),
            "*.html.jinja".to_string(),
            "*.jinja2".to_string(),
            "*.jinja".to_string(),
            "*.twig".to_string(),
            "*.html".to_string(),
        ]
    );
    assert_eq!(expand_pattern("*.twig"), vec!["*.twig".to_string()]);
}

#[test]
fn test_collection_orders_lexicographically() {
    let files = vec![
        "b.html".to_string(),
        "a.html".to_string(),
        "c.html".to_string(),
    ];
    let config = DeckConfig::Flat(vec!["*.html".to_string()]);
    let slides = config.load_slides(&files);
    let names: Vec<&str> = slides.iter().map(|s| s.template.as_str()).collect();
    assert_eq!(names, vec!["a.html", "b.html", "c.html"]);
}

#[test]
fn test_collection_dedups_by_base_name() {
    let files = vec!["intro.html".to_string(), "intro.twig".to_string()];
    let config = DeckConfig::Flat(vec!["*.html".to_string()]);
    let slides = config.load_slides(&files);
    assert_eq!(slides.len(), 1);
    // The suffix table is consulted longest-first, so the `.twig` branch of
    // the expansion runs before the `.html` branch and wins the base name.
    assert_eq!(slides[0].template, "intro.twig");
}

#[test]
fn test_collection_ignores_unrecognized_files() {
    let files = vec!["style.css".to_string(), "a.html".to_string()];
    let config = DeckConfig::Flat(vec!["*".to_string()]);
    let slides = config.load_slides(&files);
    assert_eq!(slides.len(), 1);
    assert_eq!(slides[0].template, "a.html");
}

#[test]
fn test_flat_manifest_resolves_in_order() {
    let text = "default:\n  - \"intro.html\"\n  - \"outro.html\"\n";
    let decks = DeckConfigCollection::load(Some(text)).unwrap();
    let config = decks.get("default").unwrap();
    let pairs = config.resolve_pairs();
    assert_eq!(pairs.len(), 2);
    assert_eq!(pairs[0].0, "intro.html");
    assert_eq!(pairs[0].1, None);
    assert_eq!(pairs[1].0, "outro.html");
}

#[test]
fn test_sectioned_manifest_keeps_declaration_order() {
    let text = "talk:\n  intro:\n    - \"i1.html\"\n    - \"i2.html\"\n  main:\n    - \"m1.html\"\n";
    let decks = DeckConfigCollection::load(Some(text)).unwrap();
    let config = decks.get("talk").unwrap();
    let pairs = config.resolve_pairs();
    assert_eq!(pairs.len(), 3);
    assert_eq!(pairs[0].0, "i1.html");
    assert_eq!(pairs[0].1, Some("intro".to_string()));
    assert_eq!(pairs[1].0, "i2.html");
    assert_eq!(pairs[1].1, Some("intro".to_string()));
    assert_eq!(pairs[2].0, "m1.html");
    assert_eq!(pairs[2].1, Some("main".to_string()));
}

#[test]
fn test_manifest_errors() {
    assert!(matches!(
        DeckConfigCollection::load(None),
        Err(Error::DecksNotFound)
    ));
    assert!(matches!(
        DeckConfigCollection::load(Some("invalid: yaml: content: [[[")),
        Err(Error::DecksParseError(_))
    ));
    let decks = DeckConfigCollection::load(Some("default:\n  - \"*.html\"\n")).unwrap();
    assert!(matches!(
        decks.get("nonexistent"),
        Err(Error::DeckNotFound(_))
    ));
}

#[test]
fn test_translations_flatten_nested_document() {
    let text = "intro:\n  title: Hello\n  count: 3\n  flag: true\nplain: text\n";
    let map = translations::load(text, "slides/translations/en.yaml").unwrap();
    assert_eq!(map.get("intro.title").unwrap(), "Hello");
    assert_eq!(map.get("intro.count").unwrap(), "3");
    assert_eq!(map.get("intro.flag").unwrap(), "true");
    assert_eq!(map.get("plain").unwrap(), "text");
    assert!(map.get("intro").is_none());
}

#[test]
fn test_translations_parse_error() {
    let err = translations::load("a: [unclosed", "slides/translations/de.yaml");
    assert!(matches!(err, Err(Error::YamlParse { .. })));
}

#[test]
fn test_navigation_boundaries() {
    let first = SlideNav::new(0, 3);
    assert_eq!(first.current, 1);
    assert_eq!(first.prev, None);
    assert_eq!(first.next, Some(2));
    assert!(first.is_first);
    assert!(!first.is_last);

    let middle = SlideNav::new(1, 3);
    assert_eq!(middle.prev, Some(1));
    assert_eq!(middle.next, Some(3));

    let last = SlideNav::new(2, 3);
    assert_eq!(last.prev, Some(2));
    assert_eq!(last.next, None);
    assert!(!last.is_first);
    assert!(last.is_last);
}

#[test]
fn test_section_adjacency_grouping() {
    let slides = vec![
        slide("1.html", Some("A")),
        slide("2.html", Some("A")),
        slide("3.html", Some("B")),
        slide("4.html", Some("A")),
    ];
    let groups = group_sections(&slides);
    assert_eq!(groups.len(), 3);
    assert_eq!(groups[0].key, Some("A".to_string()));
    assert_eq!(groups[0].slides.len(), 2);
    assert_eq!(groups[0].slides[0], (1, "1.html".to_string()));
    assert_eq!(groups[0].slides[1], (2, "2.html".to_string()));
    assert_eq!(groups[1].key, Some("B".to_string()));
    assert_eq!(groups[1].slides.len(), 1);
    assert_eq!(groups[1].slides[0], (3, "3.html".to_string()));
    assert_eq!(groups[2].key, Some("A".to_string()));
    assert_eq!(groups[2].slides.len(), 1);
    assert_eq!(groups[2].slides[0], (4, "4.html".to_string()));
}

#[test]
fn test_end_to_end_three_slide_build() {
    let mut deck = Project::at(".").deck("default", "en");
    let manifest = "default:\n  - \"*.html\"\n";
    let files = three_file_tree();
    let built = deck.build_html(Some(manifest), &files, None).unwrap();

    assert_eq!(built.pages.len(), 3);
    assert!(built.pages.get("slide-1.html").is_some());
    assert!(built.pages.get("slide-2.html").is_some());
    assert!(built.pages.get("slide-3.html").is_some());
    assert!(built.pages.get("slide-4.html").is_none());

    let second = built.pages.get("slide-2.html").unwrap();
    assert!(second.contains("slide-1.html"));
    assert!(second.contains("slide-3.html"));
    assert!(second.contains("2 / 3"));

    let first = built.pages.get("slide-1.html").unwrap();
    assert!(!first.contains("slide-0.html"));
    assert!(first.contains("slide-2.html"));
}

#[test]
fn test_build_is_deterministic() {
    let manifest = "default:\n  - \"*.html\"\n";
    let files = three_file_tree();
    let translation = "greeting: Hello\n";

    let mut first = Project::at(".").deck("default", "en");
    let a = first.build_html(Some(manifest), &files, Some(translation)).unwrap();
    let mut second = Project::at(".").deck("default", "en");
    let b = second.build_html(Some(manifest), &files, Some(translation)).unwrap();

    assert_eq!(a.pages.len(), b.pages.len());
    let mut i = 0;
    while i < a.pages.len() {
        assert_eq!(a.pages.key_at(i), b.pages.key_at(i));
        assert_eq!(a.pages.value_at(i), b.pages.value_at(i));
        i += 1;
    }
    assert_eq!(a.overview, b.overview);
    assert_eq!(a.print, b.print);
}

#[test]
fn test_build_fallback_translation_missing_locale() {
    let mut deck = Project::at(".").deck("default", "fr");
    let manifest = "default:\n  - \"*.html\"\n";
    let files = three_file_tree();
    // No translation document at all: the build must still succeed.
    let built = deck.build_html(Some(manifest), &files, None).unwrap();
    assert_eq!(built.pages.len(), 3);
    // A malformed document falls back to an empty map, not a failure.
    let mut deck2 = Project::at(".").deck("default", "fr");
    let built2 = deck2.build_html(Some(manifest), &files, Some("a: [broken")).unwrap();
    assert_eq!(built2.pages.len(), 3);
}

#[test]
fn test_build_error_cases() {
    let files = three_file_tree();
    let mut deck = Project::at(".").deck("default", "en");
    assert!(matches!(
        deck.build_html(None, &files, None),
        Err(Error::DecksNotFound)
    ));
    let mut deck = Project::at(".").deck("default", "en");
    assert!(matches!(
        deck.build_html(Some("invalid: yaml: content: [[["), &files, None),
        Err(Error::DecksParseError(_))
    ));
    let mut deck = Project::at(".").deck("missing-deck", "en");
    assert!(matches!(
        deck.build_html(Some("default:\n  - \"*.html\"\n"), &files, None),
        Err(Error::DeckNotFound(_))
    ));
    let mut deck = Project::at(".").deck("default", "en");
    assert!(matches!(
        deck.build_html(Some("default:\n  - \"nonexistent/*.html\"\n"), &files, None),
        Err(Error::NoSlides(_))
    ));
}

#[test]
fn test_overview_only_with_template() {
    // Slides live under deck/ so the special page templates at the root do
    // not themselves match the deck pattern.
    let manifest = "default:\n  - \"deck/*.html\"\n";
    let mut files = vec![
        ("deck/01-intro.html".to_string(), nav_template()),
        ("deck/02-content.html".to_string(), nav_template()),
        ("deck/03-end.html".to_string(), nav_template()),
    ];

    let mut deck = Project::at(".").deck("default", "en");
    let built = deck.build_html(Some(manifest), &files, None).unwrap();
    assert!(built.overview.is_none());
    assert!(built.print.is_none());

    let mut overview_tmpl = String::from("{% for s in sections %}[{{ s.key }}:");
    overview_tmpl.push_str("{% for sl in s.slides %} slide-{{ sl.number }}.html{% endfor %}]");
    overview_tmpl.push_str("{% endfor %}");
    files.push(("overview.html".to_string(), overview_tmpl));
    let mut deck2 = Project::at(".").deck("default", "en");
    let built2 = deck2.build_html(Some(manifest), &files, None).unwrap();
    let overview = built2.overview.expect("overview should render");
    assert!(overview.contains("slide-1.html"));
    assert!(overview.contains("slide-2.html"));
    assert!(overview.contains("slide-3.html"));
    // The overview page itself is not a deck slide.
    assert_eq!(built2.pages.len(), 3);
}

#[test]
fn test_render_overview_without_template() {
    let mut layouts = StrMap::new();
    layouts.insert("test.html".to_string(), "<h1>{{ title }}</h1>".to_string());
    let translations = StrMap::new();
    let slides = vec![slide("test.html", None)];
    let result = render_overview(&layouts, &translations, &slides, &StrMap::new());
    assert!(result.is_none());
}

#[test]
fn test_render_presenter_pages_without_template() {
    let mut layouts = StrMap::new();
    layouts.insert("test.html".to_string(), "<h1>{{ title }}</h1>".to_string());
    let translations = StrMap::new();
    let slides = vec![slide("test.html", None)];
    let result =
        slides_rs::render::render_presenter_pages(&layouts, &translations, &slides, &StrMap::new());
    assert_eq!(result.len(), 0);
}

#[test]
fn test_presenter_pages_extract_notes() {
    let manifest = "default:\n  - \"deck/*.html\"\n";
    let mut files = vec![
        ("deck/01-intro.html".to_string(), nav_template()),
        ("deck/02-content.html".to_string(), nav_template()),
        ("deck/03-end.html".to_string(), nav_template()),
    ];
    files.push((
        "presenter.html".to_string(),
        "<div class=\"notes\">{{ notes }}</div><p>{{ slide.current }} / {{ app.total }}</p><link href=\"{{ asset('style.css') }}\">".to_string(),
    ));
    files.push((
        "deck/04-notes.html".to_string(),
        "{% block notes %}**remember this**{% endblock %}<h1>content</h1>".to_string(),
    ));
    let mut deck = Project::at(".").deck("default", "en");
    let built = deck.build_html(Some(manifest), &files, None).unwrap();
    assert_eq!(built.presenter.len(), 4);
    let page = built.presenter.get("slide-4.html").expect("presenter page");
    assert!(page.contains("<strong>remember this</strong>"));
    // Presenter pages live one directory deeper, so assets resolve upward.
    assert!(page.contains("../assets/style.css"));
}

#[test]
fn test_print_page_lists_all_slides() {
    let manifest = "default:\n  - \"deck/*.html\"\n";
    let mut files = vec![
        ("deck/01-intro.html".to_string(), nav_template()),
        ("deck/02-content.html".to_string(), nav_template()),
        ("deck/03-end.html".to_string(), nav_template()),
    ];
    files.push((
        "print.html".to_string(),
        "{% for s in slides %}{{ s.number }}:{{ s.template }} {% endfor %}of {{ app.total }}".to_string(),
    ));
    let mut deck = Project::at(".").deck("default", "en");
    let built = deck.build_html(Some(manifest), &files, None).unwrap();
    let print = built.print.expect("print should render");
    assert!(print.contains("1:deck/01-intro.html"));
    assert!(print.contains("3:deck/03-end.html"));
    assert!(print.contains("of 3"));
}

#[test]
fn test_partial_failure_skips_broken_slide() {
    let mut layouts = StrMap::new();
    layouts.insert("a.html".to_string(), "<h1>A</h1>".to_string());
    layouts.insert("b.html".to_string(), "{{ nothing.attr }}".to_string());
    layouts.insert("c.html".to_string(), "<h1>C</h1>".to_string());
    let translations = StrMap::new();
    let slides = vec![
        slide("a.html", None),
        slide("b.html", None),
        slide("c.html", None),
    ];
    let pages = render_deck_pages(&slides, &layouts, &translations, &StrMap::new());
    assert!(pages.get("slide-1.html").is_some());
    assert!(pages.get("slide-2.html").is_none());
    assert!(pages.get("slide-3.html").is_some());
    assert_eq!(pages.len(), 2);
}

#[test]
fn test_missing_template_skips_slide() {
    let mut layouts = StrMap::new();
    layouts.insert("a.html".to_string(), "<h1>A</h1>".to_string());
    let translations = StrMap::new();
    let slides = vec![slide("a.html", None), slide("gone.html", None)];
    let pages = render_deck_pages(&slides, &layouts, &translations, &StrMap::new());
    assert!(pages.get("slide-1.html").is_some());
    assert!(pages.get("slide-2.html").is_none());
}

#[test]
fn test_aliased_suffix_registered_under_canonical_name() {
    let files = vec![
        ("intro.twig".to_string(), "<h1>from twig</h1>".to_string()),
    ];
    let layouts = slides_rs::layouts::load_layouts(&files);
    assert!(layouts.get("intro.twig").is_some());
    assert_eq!(layouts.get("intro.html").unwrap(), "<h1>from twig</h1>");
}

#[test]
fn test_render_print_without_template() {
    let layouts = StrMap::new();
    let translations = StrMap::new();
    let slides: Vec<Slide> = Vec::new();
    assert!(render_print(&layouts, &translations, &slides, &StrMap::new()).is_none());
}

#[test]
fn test_watch_ignores_editor_artifacts() {
    assert!(is_ignored_path("slides/templates/.intro.html.swp"));
    assert!(is_ignored_path("slides/templates/intro.html.tmp"));
    assert!(is_ignored_path("slides/templates/intro.html~"));
    assert!(!is_ignored_path("slides/templates/intro.html"));

    assert!(!batch_actionable(&vec![
        "a.swp".to_string(),
        "b~".to_string()
    ]));
    assert!(batch_actionable(&vec![
        "a.swp".to_string(),
        "slides/templates/intro.html".to_string()
    ]));
    assert!(!batch_actionable(&Vec::new()));
}

#[test]
fn test_watch_step_transitions() {
    let started = watch_step(WatchState::Idle, &WatchEvent::Started);
    assert_eq!(started, (WatchState::Watching, WatchAction::Wait));

    let batch = WatchEvent::BatchArrived(vec!["slides/templates/a.html".to_string()]);
    let rebuilding = watch_step(WatchState::Watching, &batch);
    assert_eq!(rebuilding, (WatchState::Rebuilding, WatchAction::Rebuild));

    let quiet = WatchEvent::BatchArrived(vec!["a.swp".to_string()]);
    assert_eq!(
        watch_step(WatchState::Watching, &quiet),
        (WatchState::Watching, WatchAction::Wait)
    );

    assert_eq!(
        watch_step(WatchState::Rebuilding, &WatchEvent::RebuildFinished),
        (WatchState::Watching, WatchAction::Wait)
    );
    assert_eq!(
        watch_step(WatchState::Watching, &WatchEvent::WatchError),
        (WatchState::Watching, WatchAction::Wait)
    );
    assert_eq!(
        watch_step(WatchState::Watching, &WatchEvent::ChannelClosed),
        (WatchState::Stopped, WatchAction::Stop)
    );
}

#[test]
fn test_generate_secure_password() {
    let password = generate_secure_password();
    assert_eq!(password.chars().count(), 16);

    let second = generate_secure_password();
    assert_ne!(password, second);

    let charset = "ABCDEFGHJKLMNPQRSTUVWXYZabcdefghijkmnpqrstuvwxyz23456789!@#$%";
    for c in password.chars() {
        assert!(charset.contains(c));
    }
}

#[test]
fn test_deck_paths() {
    let deck = Deck::new("default", "en", "/work/talk");
    assert_eq!(deck.decks_config(), "/work/talk/decks.yaml");
    assert_eq!(deck.templates_dir(), "/work/talk/slides/templates");
    assert_eq!(deck.translations_dir(), "/work/talk/slides/translations");
    assert_eq!(deck.assets_dir(), "/work/talk/slides/assets");
    assert_eq!(deck.output_dir(), "/work/talk/output");
    assert_eq!(deck.translation_file(), "/work/talk/slides/translations/en.yaml");
}

#[test]
fn test_deck_load_sets_slides() {
    let mut deck = Deck::new("default", "en", ".");
    let files = vec!["b.html".to_string(), "a.html".to_string()];
    deck.load(Some("default:\n  - \"*.html\"\n"), &files).unwrap();
    assert_eq!(deck.slides.len(), 2);
    assert_eq!(deck.slides[0].template, "a.html");
    assert_eq!(deck.slides[1].template, "b.html");
}

#[test]
fn test_slides_not_deduplicated_across_sections() {
    // A slide enumerated by patterns in two sections appears once per
    // matching pattern; deduplication is per pattern only.
    let text = "talk:\n  one:\n    - \"x.html\"\n  two:\n    - \"x.html\"\n";
    let decks = DeckConfigCollection::load(Some(text)).unwrap();
    let config = decks.get("talk").unwrap();
    let files = vec!["x.html".to_string()];
    let slides = config.load_slides(&files);
    assert_eq!(slides.len(), 2);
    assert_eq!(slides[0].template, "x.html");
    assert_eq!(slides[0].section_key, Some("one".to_string()));
    assert_eq!(slides[1].template, "x.html");
    assert_eq!(slides[1].section_key, Some("two".to_string()));
}

#[test]
fn test_empty_batch_not_actionable() {
    let (state, action) = watch_step(
        WatchState::Watching,
        &WatchEvent::BatchArrived(Vec::new()),
    );
    assert_eq!(state, WatchState::Watching);
    assert_eq!(action, WatchAction::Wait);
}

#[test]
fn test_source_helper_includes_raw_file() {
    // The raw-source helper hands a named file of the template tree back
    // verbatim; a missing name fails that template's render.
    let manifest = "default:\n  - \"deck/*.html\"\n";
    let files = vec![
        (
            "deck/01-code.html".to_string(),
            "<pre>{{ source(\"snippets/hello.js\") }}</pre>".to_string(),
        ),
        (
            "deck/02-missing.html".to_string(),
            "<pre>{{ source(\"snippets/absent.js\") }}</pre>".to_string(),
        ),
        ("snippets/hello.js".to_string(), "console.log(1);".to_string()),
    ];
    let mut deck = Project::at(".").deck("default", "en");
    let built = deck.build_html(Some(manifest), &files, None).unwrap();
    let first = built.pages.get("slide-1.html").expect("sourced slide renders");
    assert!(first.contains("console.log(1);"));
    // The slide sourcing an absent file fails its render and is skipped.
    assert!(built.pages.get("slide-2.html").is_none());
}
