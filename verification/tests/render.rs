use serde_json::Value;
use theme_css::render::{
    default_style_of, generate_merged_css, name_of_theme, push_declaration, render_theme,
    text_member,
};
use theme_css::resolve::CssEntry;

fn json(text: &str) -> Value {
    serde_json::from_str(text).unwrap()
}

fn entry(name: &str, literal: &str) -> CssEntry {
    CssEntry { name: name.to_string(), literal: literal.to_string() }
}

#[test]
fn rule_is_scoped_to_the_normalized_name() {
    let css = render_theme("Night Owl", &vec![entry("background", "\"#000\"")]);
    assert_eq!(css, "body.theme.night_owl {\n  --background: \"#000\";\n}\n");
}

#[test]
fn no_entries_give_an_empty_rule() {
    assert_eq!(render_theme("Plain", &vec![]), "body.theme.plain {\n}\n");
}

#[test]
fn entries_keep_their_order() {
    let css = render_theme("t", &vec![entry("b", "1"), entry("a", "2"), entry("b", "3")]);
    assert_eq!(css, "body.theme.t {\n  --b: 1;\n  --a: 2;\n  --b: 3;\n}\n");
}

#[test]
fn declaration_line_has_two_spaces_and_a_semicolon() {
    let mut css = String::from("x");
    push_declaration(&mut css, &entry("player_1_cursor", "\"#fff\""));
    assert_eq!(css, "x  --player_1_cursor: \"#fff\";\n");
}

#[test]
fn merged_css_lays_the_theme_over_the_default() {
    let default = json(
        r##"{"themes": [{"name": "Default", "style": {
            "background": "#fff", "border": "#ccc",
            "players": [{"cursor": "#00f"}],
            "syntax": {"keyword": {"color": "red"}}
        }}]}"##,
    );
    let theme = json(
        r##"{"name": "Night Owl", "appearance": "Dark", "style": {
            "background": "#000",
            "players": [{"cursor": "#0ff"}, {"cursor": "#f0f"}],
            "syntax": {"keyword": {"color": "blue", "font_weight": 700}}
        }}"##,
    );
    assert_eq!(
        generate_merged_css(&default, &theme),
        "body.theme.night_owl {\n\
         \x20 --background: \"#000\";\n\
         \x20 --border: \"#ccc\";\n\
         \x20 --player_1_cursor: \"#0ff\";\n\
         \x20 --syntax_keyword_color: \"blue\";\n\
         \x20 --syntax_keyword_font_weight: 700;\n\
         }\n"
    );
}

#[test]
fn theme_without_name_is_styled_as_unnamed_theme() {
    let default = json(r#"{"themes": [{"style": {"a": "1"}}]}"#);
    let theme = json(r#"{"style": {}}"#);
    assert_eq!(generate_merged_css(&default, &theme), "body.theme.unnamed_theme {\n  --a: \"1\";\n}\n");
    let numbered = json(r#"{"name": 7, "style": {}}"#);
    assert_eq!(generate_merged_css(&default, &numbered), "body.theme.unnamed_theme {\n  --a: \"1\";\n}\n");
}

#[test]
fn theme_without_style_gets_the_defaults() {
    let default = json(r#"{"themes": [{"style": {"a": "1", "players": [{"x": "p"}]}}]}"#);
    let expected = "body.theme.bare {\n  --a: \"1\";\n  --player_1_x: \"p\";\n}\n";
    assert_eq!(generate_merged_css(&default, &json(r#"{"name": "Bare"}"#)), expected);
    assert_eq!(generate_merged_css(&default, &json(r#"{"name": "Bare", "style": 3}"#)), expected);
    assert_eq!(generate_merged_css(&default, &json(r#"{"name": "Bare", "style": null}"#)), expected);
}

#[test]
fn default_without_style_gives_an_empty_rule() {
    let theme = json(r#"{"name": "T", "style": {"a": "1"}}"#);
    for default in [
        r#"{}"#,
        r#"{"themes": []}"#,
        r#"{"themes": {"style": {"a": "0"}}}"#,
        r#"{"themes": [{"name": "no style"}]}"#,
        r#"{"themes": [{"style": "x"}]}"#,
        r#"[1]"#,
        r#"null"#,
    ] {
        assert_eq!(generate_merged_css(&json(default), &theme), "body.theme.t {\n}\n");
    }
}

#[test]
fn only_the_first_default_theme_counts() {
    let default = json(r#"{"themes": [{"style": {"a": "1"}}, {"style": {"b": "2"}}]}"#);
    let theme = json(r#"{"name": "T", "style": {"b": "3"}}"#);
    assert_eq!(generate_merged_css(&default, &theme), "body.theme.t {\n  --a: \"1\";\n}\n");
}

#[test]
fn theme_that_is_no_object_has_no_name_and_no_style() {
    let default = json(r#"{"themes": [{"style": {"a": "1"}}]}"#);
    assert_eq!(
        generate_merged_css(&default, &json(r#""odd""#)),
        "body.theme.unnamed_theme {\n  --a: \"1\";\n}\n"
    );
}

#[test]
fn text_member_falls_back() {
    let v = json(r#"{"name": "N", "count": 2, "none": null}"#);
    assert_eq!(text_member(&v, "name", "f"), "N");
    assert_eq!(text_member(&v, "count", "f"), "f");
    assert_eq!(text_member(&v, "none", "f"), "f");
    assert_eq!(text_member(&v, "missing", "f"), "f");
    assert_eq!(text_member(&json("[]"), "name", "f"), "f");
}

#[test]
fn default_style_is_that_of_the_first_theme() {
    let doc = json(r#"{"themes": [{"style": {"a": 1}}, {"style": {"b": 2}}]}"#);
    assert_eq!(default_style_of(&doc), Some(&json(r#"{"a": 1}"#)));
    assert_eq!(default_style_of(&json(r#"{"themes": []}"#)), None);
    assert_eq!(default_style_of(&json(r#"{"themes": [{}]}"#)), None);
    assert_eq!(
        default_style_of(&json(r#"{"themes": [{"style": null}]}"#)),
        Some(&serde_json::Value::Null)
    );
    assert_eq!(default_style_of(&json(r#"{"themes": ["x"]}"#)), None);
    assert_eq!(default_style_of(&json(r#"{}"#)), None);
}

#[test]
fn name_of_theme_falls_back_to_the_placeholder() {
    assert_eq!(name_of_theme(&json(r#"{"name": "Ayu"}"#)), "Ayu");
    assert_eq!(name_of_theme(&json(r#"{"name": ""}"#)), "");
    assert_eq!(name_of_theme(&json(r#"{"name": null}"#)), "Unnamed Theme");
    assert_eq!(name_of_theme(&json(r#"{}"#)), "Unnamed Theme");
    assert_eq!(name_of_theme(&json(r#"3"#)), "Unnamed Theme");
}
