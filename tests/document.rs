use std::collections::HashMap;
use template_filler::{Document, Error};

const TEMPLATE_VALID: &str = r#"""
- firstname: {{firstname}}
  lastname: {{lastname}}
"""#;
const VARIABLES_VALID: &[&str] = &["firstname", "lastname"];

fn data(pairs: &[(&str, &str)]) -> HashMap<String, String> {
    pairs.iter().map(|(k, v)| (k.to_string(), v.to_string())).collect()
}

#[test]
fn get_variables_valid() {
    let text = format!("{}\n", TEMPLATE_VALID);
    let res = Document::open("/tmp/dir/template-valid.yml.hbs", &text);
    assert!(res.is_ok());
    let doc = res.unwrap();
    let variables: Vec<&str> = doc.variables();
    assert_eq!(&variables, VARIABLES_VALID);
}

#[test]
fn firstname_lastname_scenario() {
    let text = "- firstname: {{firstname}}\n  lastname: {{lastname}}\n";
    let doc = Document::open("people.yml.hbs", text).unwrap();
    assert_eq!(doc.variables(), vec!["firstname", "lastname"]);
    let out = doc
        .render(&data(&[("firstname", "Ada"), ("lastname", "Lovelace")]))
        .unwrap();
    assert_eq!(out, "- firstname: Ada\n  lastname: Lovelace\n");
}

#[test]
fn root_path_is_invalid_template() {
    match Document::open("/", "{{a}}") {
        Err(Error::InvalidTemplate(p)) => assert_eq!(p, "/"),
        other => panic!("unexpected result: {:?}", other.map(|d| d.path().to_string())),
    }
}

#[test]
fn parent_path_is_invalid_template() {
    assert!(matches!(
        Document::open("templates/..", "{{a}}"),
        Err(Error::InvalidTemplate(_))
    ));
}

#[test]
fn path_is_kept() {
    let doc = Document::open("dir/t.hbs", "x").unwrap();
    assert_eq!(doc.path(), "dir/t.hbs");
}

#[test]
fn literal_text_has_no_variables() {
    let doc = Document::open("t.hbs", "just some text\nwith lines\n").unwrap();
    assert!(doc.variables().is_empty());
    let empty = Document::open("t.hbs", "").unwrap();
    assert!(empty.variables().is_empty());
}

#[test]
fn repeated_variable_listed_once_in_first_order() {
    let doc = Document::open("t.hbs", "{{a}} one {{a}} two {{b}}").unwrap();
    assert_eq!(doc.variables(), vec!["a", "b"]);
    let doc = Document::open("t.hbs", "{{b}}{{a}}{{b}}{{c}}{{a}}").unwrap();
    assert_eq!(doc.variables(), vec!["b", "a", "c"]);
}

#[test]
fn complex_expressions_have_no_variables() {
    let text = "{{upper name}} {{this}} {{a.b}} {{@root.c}} {{@index}} {{lookup x y}}";
    let doc = Document::open("t.hbs", text).unwrap();
    assert!(doc.variables().is_empty());
}

#[test]
fn raw_and_block_expressions_are_not_collected() {
    let doc = Document::open("t.hbs", "{{{raw}}} {{#if cond}}{{inner}}{{/if}} {{x}}").unwrap();
    assert_eq!(doc.variables(), vec!["x"]);
}

#[test]
fn variables_twice_identical() {
    let doc = Document::open("t.hbs", "{{z}} {{y}} {{z}} {{x}}").unwrap();
    let first = doc.variables();
    let second = doc.variables();
    assert_eq!(first, second);
    assert_eq!(first, vec!["z", "y", "x"]);
    let again = Document::open("u.hbs", "{{z}} {{y}} {{z}} {{x}}").unwrap();
    assert_eq!(again.variables(), first);
}

#[test]
fn malformed_template_is_template_error() {
    assert!(matches!(Document::open("t.hbs", "{{a"), Err(Error::Template(_))));
    assert!(matches!(
        Document::open("t.hbs", "{{#if a}}no end"),
        Err(Error::Template(_))
    ));
}

#[test]
fn full_mapping_leaves_no_markers() {
    let doc = Document::open("t.hbs", "{{a}}-{{b}}-{{a}}").unwrap();
    let out = doc.render(&data(&[("a", "1"), ("b", "2")])).unwrap();
    assert_eq!(out, "1-2-1");
    assert!(!out.contains("{{"));
    assert!(!out.contains("}}"));
}

#[test]
fn missing_key_renders_empty() {
    let doc = Document::open("t.hbs", "[{{a}}] [{{b}}] [{{a}}]").unwrap();
    let out = doc.render(&data(&[("b", "B")])).unwrap();
    assert_eq!(out, "[] [B] []");
    let out = doc.render(&HashMap::new()).unwrap();
    assert_eq!(out, "[] [] []");
}

#[test]
fn escaping_follows_brace_count() {
    let doc = Document::open("t.hbs", "{{v}} {{{v}}}").unwrap();
    let out = doc.render(&data(&[("v", "<b>&")])).unwrap();
    assert_eq!(out, "&lt;b&gt;&amp; <b>&");
}

#[test]
fn helpers_are_evaluated_when_rendering() {
    let doc = Document::open("t.hbs", "{{#if a}}yes{{else}}no{{/if}}").unwrap();
    assert_eq!(doc.render(&data(&[("a", "x")])).unwrap(), "yes");
    assert_eq!(doc.render(&HashMap::new()).unwrap(), "no");
}

#[test]
fn missing_partial_is_render_error() {
    let doc = Document::open("t.hbs", "{{> absent}}").unwrap();
    assert!(matches!(doc.render(&HashMap::new()), Err(Error::Render(_))));
}

#[test]
fn template_name_is_file_name() {
    assert_eq!(
        template_filler::document::template_name("a/b/t.yml.hbs").unwrap(),
        "t.yml.hbs"
    );
    assert!(matches!(
        template_filler::document::template_name("/"),
        Err(Error::InvalidTemplate(_))
    ));
}

#[test]
fn self_including_inline_partial_is_refused() {
    let doc = Document::open("t.hbs", "{{#*inline \"p\"}}{{> p}}{{/inline}}{{> p}}").unwrap();
    assert!(matches!(doc.render(&HashMap::new()), Err(Error::Decorator)));
}

#[test]
fn decorators_with_whitespace_and_trim_are_refused() {
    for text in [
        "{{* inline}}",
        "{{~ # * inline \"p\"}}x{{/inline}}",
        "a {{\n#\t*inline \"p\"}}x{{/inline}} b",
    ] {
        let doc = Document::open("t.hbs", text).unwrap();
        assert!(matches!(doc.render(&HashMap::new()), Err(Error::Decorator)), "{}", text);
    }
}

#[test]
fn star_outside_decorators_still_renders() {
    let doc = Document::open("t.hbs", "a * b {{x}} *{{y}}* {*}").unwrap();
    let out = doc.render(&data(&[("x", "1"), ("y", "2")])).unwrap();
    assert_eq!(out, "a * b 1 *2* {*}");
}

#[test]
fn missing_partial_with_block_renders_block() {
    let doc = Document::open("t.hbs", "{{#> p}}fallback {{x}}{{/p}}").unwrap();
    assert_eq!(doc.render(&data(&[("x", "1")])).unwrap(), "fallback 1");
}

#[test]
fn raw_substitutions_are_not_collected() {
    let doc = Document::open("t.hbs", "{{{a}}} {{&b}} {{c}}").unwrap();
    assert_eq!(doc.variables(), vec!["c"]);
}
