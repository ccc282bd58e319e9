//! End-to-end and scenario tests for the renderer, run against the
//! real template engine and data-file parser.

use s4::catalog::{language_code_of, load_catalog, LangFile};
use s4::error::SiteError;
use s4::links::rewrite_link;
use s4::paths::{is_page_template, output_location, route_of_page};
use s4::render::{build_site, render_language, OutputFile};

fn lang_file(name: &str, contents: &str) -> LangFile {
    LangFile { name: name.to_string(), contents: contents.to_string() }
}

fn demo_tera() -> tera::Tera {
    let mut tera = tera::Tera::default();
    tera.add_raw_template("pages/about.html", "{{ title }} ({{ lang }})").unwrap();
    tera.add_raw_template("pages/index.html", "home: {{ title }}").unwrap();
    tera.add_raw_template("pages/langs.html", "{{ available_langs | join(sep=\",\") }}").unwrap();
    tera.add_raw_template("pages/nav.html", "{{ \"about\" | link | safe }}").unwrap();
    tera.add_raw_template("partials/footer.html", "never rendered standalone").unwrap();
    tera
}

fn demo_catalog() -> s4::catalog::Catalog {
    let files = vec![
        lang_file("en.toml", "title = \"Hello\""),
        lang_file("de.toml", "title = \"Hallo\""),
        lang_file("notes.txt", "not a language"),
    ];
    load_catalog(&files).unwrap()
}

fn find<'a>(outputs: &'a [OutputFile], path: &str) -> &'a OutputFile {
    outputs
        .iter()
        .find(|o| o.path == path)
        .unwrap_or_else(|| panic!("no output at {path}"))
}

#[test]
fn link_rewrites_relative_path() {
    assert_eq!(rewrite_link("fr", "about"), "/fr/about");
}

#[test]
fn link_strips_leading_separator_exactly_once() {
    assert_eq!(rewrite_link("fr", "/about"), "/fr/about");
    assert_eq!(rewrite_link("fr", "//about"), "/fr//about");
    assert_eq!(rewrite_link("en", ""), "/en/");
}

#[test]
fn page_route_strips_namespace_and_suffix() {
    assert!(is_page_template("pages/about.html"));
    assert!(!is_page_template("partials/footer.html"));
    assert_eq!(route_of_page("pages/about.html"), "about");
    assert_eq!(route_of_page("pages/docs/intro.html"), "docs/intro");
}

#[test]
fn output_layout_follows_the_rules() {
    // prefixed pass: <code>/<route>/index.html
    assert_eq!(
        output_location("about", "fr", false),
        ("fr/about".to_string(), "fr/about/index.html".to_string())
    );
    // root pass: <route>/index.html
    assert_eq!(
        output_location("about", "fr", true),
        ("about".to_string(), "about/index.html".to_string())
    );
}

#[test]
fn index_route_collapses() {
    assert_eq!(route_of_page("pages/index.html"), "index");
    assert_eq!(output_location("index", "fr", true), ("".to_string(), "index.html".to_string()));
    assert_eq!(
        output_location("index", "fr", false),
        ("fr".to_string(), "fr/index.html".to_string())
    );
    // only a final segment named exactly "index" collapses
    assert_eq!(
        output_location("myindex", "fr", false),
        ("fr/myindex".to_string(), "fr/myindex/index.html".to_string())
    );
    // a nested index collapses to its parent directory, keeping the
    // leading segments
    assert_eq!(
        output_location("docs/index", "fr", false),
        ("fr/docs".to_string(), "fr/docs/index.html".to_string())
    );
    assert_eq!(
        output_location("blog/index", "fr", true),
        ("blog".to_string(), "blog/index.html".to_string())
    );
}

#[test]
fn nested_index_page_collapses_to_its_parent_directory() {
    let mut tera = tera::Tera::default();
    tera.add_raw_template("pages/blog/index.html", "posts").unwrap();
    tera.add_raw_template("pages/index.html", "home").unwrap();
    let catalog = demo_catalog();
    let outputs = build_site(&mut tera, &catalog, "en").unwrap();
    assert_eq!(find(&outputs, "blog/index.html").contents, "posts");
    assert_eq!(find(&outputs, "en/blog/index.html").contents, "posts");
    assert_eq!(find(&outputs, "de/blog/index.html").contents, "posts");
    assert_eq!(find(&outputs, "index.html").contents, "home");
    // the two index pages never collapse onto the same output file
    assert_eq!(outputs.len(), 6);
}

#[test]
fn language_codes_come_from_toml_file_names() {
    assert_eq!(language_code_of("en.toml"), Some("en".to_string()));
    assert_eq!(language_code_of("pt-br.toml"), Some("pt-br".to_string()));
    assert_eq!(language_code_of("a.b.toml"), Some("a.b".to_string()));
    assert_eq!(language_code_of("notes.txt"), None);
    assert_eq!(language_code_of(".toml"), None);
    assert_eq!(language_code_of("entoml"), None);
}

#[test]
fn catalog_skips_files_with_other_extensions() {
    let catalog = demo_catalog();
    let codes: Vec<String> = catalog.code_list();
    assert_eq!(codes, vec!["en".to_string(), "de".to_string()]);
}

#[test]
fn catalog_reports_unparseable_language_file() {
    let files = vec![lang_file("en.toml", "= not toml")];
    match load_catalog(&files) {
        Err(SiteError::LangParse { code, message }) => {
            assert_eq!(code, "en");
            assert!(!message.is_empty());
        }
        other => panic!("expected a parse failure, got {:?}", other.map(|c| c.code_list())),
    }
}

#[test]
fn build_renders_every_page_for_every_language_and_the_root() {
    let mut tera = demo_tera();
    let catalog = demo_catalog();
    let outputs = build_site(&mut tera, &catalog, "en").unwrap();

    // 4 page templates, rendered for: root pass, en pass, de pass.
    assert_eq!(outputs.len(), 12);
    assert_eq!(find(&outputs, "about/index.html").contents, "Hello (en)");
    assert_eq!(find(&outputs, "en/about/index.html").contents, "Hello (en)");
    assert_eq!(find(&outputs, "de/about/index.html").contents, "Hallo (de)");
    assert_eq!(find(&outputs, "index.html").contents, "home: Hello");
    assert_eq!(find(&outputs, "de/index.html").contents, "home: Hallo");
    // the partial produced no output
    assert!(outputs.iter().all(|o| o.template.starts_with("pages/")));
}

#[test]
fn available_langs_lists_every_language_in_every_pass() {
    let mut tera = demo_tera();
    let catalog = demo_catalog();
    let outputs = build_site(&mut tera, &catalog, "en").unwrap();
    assert_eq!(find(&outputs, "langs/index.html").contents, "en,de");
    assert_eq!(find(&outputs, "en/langs/index.html").contents, "en,de");
    assert_eq!(find(&outputs, "de/langs/index.html").contents, "en,de");
}

#[test]
fn links_point_at_the_prefixed_tree_even_from_the_root_pass() {
    let mut tera = demo_tera();
    let catalog = demo_catalog();
    let outputs = build_site(&mut tera, &catalog, "en").unwrap();
    assert_eq!(find(&outputs, "nav/index.html").contents, "/en/about");
    assert_eq!(find(&outputs, "en/nav/index.html").contents, "/en/about");
    assert_eq!(find(&outputs, "de/nav/index.html").contents, "/de/about");
}

#[test]
fn missing_default_language_fails_before_anything_is_rendered() {
    let mut tera = demo_tera();
    let catalog = demo_catalog();
    match build_site(&mut tera, &catalog, "fr") {
        Err(SiteError::DefaultLangMissing { code }) => assert_eq!(code, "fr"),
        _ => panic!("expected the missing default language to be rejected"),
    }
}

#[test]
fn render_failure_names_the_language_and_the_template() {
    let mut tera = tera::Tera::default();
    tera.add_raw_template("pages/bad.html", "{{ no_such_value }}").unwrap();
    let catalog = demo_catalog();
    match build_site(&mut tera, &catalog, "en") {
        Err(SiteError::Render { code, template, message }) => {
            assert_eq!(code, "en");
            assert_eq!(template, "pages/bad.html");
            assert!(!message.is_empty());
        }
        _ => panic!("expected the undefined variable to fail the build"),
    }
}

#[test]
fn non_map_language_data_cannot_become_a_context() {
    let mut tera = demo_tera();
    let data = toml::Value::Integer(3);
    let codes = vec!["en".to_string()];
    match render_language(&mut tera, "en", &data, &codes, false) {
        Err(SiteError::ContextBuild { code, message }) => {
            assert_eq!(code, "en");
            assert!(!message.is_empty());
        }
        _ => panic!("expected scalar language data to be rejected"),
    }
}

#[test]
fn empty_catalog_rejects_any_default_language() {
    let mut tera = demo_tera();
    let catalog = load_catalog(&Vec::new()).unwrap();
    assert!(catalog.entries.is_empty());
    match build_site(&mut tera, &catalog, "en") {
        Err(SiteError::DefaultLangMissing { code }) => assert_eq!(code, "en"),
        _ => panic!("expected an empty catalog to reject the default language"),
    }
}

#[test]
fn page_template_without_html_suffix_keeps_its_name_as_route() {
    let mut tera = tera::Tera::default();
    tera.add_raw_template("pages/raw", "bare").unwrap();
    let catalog = demo_catalog();
    let outputs = build_site(&mut tera, &catalog, "en").unwrap();
    assert_eq!(route_of_page("pages/raw"), "raw");
    assert_eq!(find(&outputs, "raw/index.html").contents, "bare");
    assert_eq!(find(&outputs, "de/raw/index.html").contents, "bare");
}

#[test]
fn rebuilding_unchanged_inputs_yields_identical_outputs() {
    let catalog = demo_catalog();
    let mut first = tera::Tera::default();
    first.add_raw_template("pages/about.html", "{{ title }} {{ \"x\" | link }}").unwrap();
    let mut second = tera::Tera::default();
    second.add_raw_template("pages/about.html", "{{ title }} {{ \"x\" | link }}").unwrap();

    let mut a: Vec<(String, String)> = build_site(&mut first, &catalog, "en")
        .unwrap()
        .into_iter()
        .map(|o| (o.path, o.contents))
        .collect();
    let mut b: Vec<(String, String)> = build_site(&mut second, &catalog, "en")
        .unwrap()
        .into_iter()
        .map(|o| (o.path, o.contents))
        .collect();
    a.sort();
    b.sort();
    assert_eq!(a, b);
}
