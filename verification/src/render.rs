//! Stylesheets: the declarations of a theme inside one CSS rule.

use crate::json::{
    as_text, element, held, json_of, list, list_in, lookup, member, opt_json, table, table_in,
    value_in, Json,
};
use crate::names::{normalize, to_snake_case};
use crate::resolve::{declarations, resolve, resolve_style, CssEntry, Declaration};
use serde_json::Value;
use vstd::prelude::*;
use vstd::string::StringExecFns;

verus! {

/// The line of one declaration: `  --name: literal;`.
pub open spec fn declaration_line(d: Declaration) -> Seq<char> {
    "  --"@ + d.name + ": "@ + d.literal + ";\n"@
}

/// The lines of the first `n` declarations, in order.
pub open spec fn lines_upto(ds: Seq<Declaration>, n: nat) -> Seq<char>
    decreases n,
{
    if n == 0 {
        Seq::empty()
    } else {
        lines_upto(ds, (n - 1) as nat) + declaration_line(ds[n - 1])
    }
}

/// The stylesheet of a theme: one rule, scoped to the theme's canonical
/// name, that holds one line for each declaration, in order.
pub open spec fn stylesheet(theme_name: Seq<char>, ds: Seq<Declaration>) -> Seq<char> {
    "body.theme."@ + normalize(theme_name) + " {\n"@ + lines_upto(ds, ds.len()) + "}\n"@
}

/// The text of a JSON string, `fallback` for every other value.
pub open spec fn text_or(j: Json, fallback: Seq<char>) -> Seq<char> {
    match j {
        Json::Text(s) => s,
        _ => fallback,
    }
}

/// The first theme of a default document, `Null` where it lists none.
pub open spec fn first_theme(document: Json) -> Json {
    element(list(member(document, "themes"@)), 0)
}

/// The style that a default document gives: that of its first theme.
pub open spec fn default_style(document: Json) -> Json {
    member(first_theme(document), "style"@)
}

/// The name of a theme, `Unnamed Theme` where it has none.
pub open spec fn theme_name(theme: Json) -> Seq<char> {
    text_or(member(theme, "name"@), "Unnamed Theme"@)
}

/// The stylesheet of `theme` over the defaults of `default_document`.
pub open spec fn merged_css(default_document: Json, theme: Json) -> Seq<char> {
    stylesheet(
        theme_name(theme),
        resolve(default_style(default_document), member(theme, "style"@)),
    )
}

/// Appends the line of one declaration to `css`.
pub fn push_declaration(css: &mut String, entry: &CssEntry)
    ensures
        final(css)@ == old(css)@ + declaration_line(entry@),
{
    css.append("  --");
    css.append(entry.name.as_str());
    css.append(": ");
    css.append(entry.literal.as_str());
    css.append(";\n");
}

/// The stylesheet of a theme: a `body.theme.<name>` rule, `<name>` being the
/// canonical form of `theme_name`, with one custom property for each entry,
/// in the given order. Without entries the rule is empty.
pub fn render_theme(theme_name: &str, entries: &Vec<CssEntry>) -> (css: String)
    ensures
        css@ == stylesheet(theme_name@, declarations(entries@)),
{
    let mut css = "body.theme.".to_owned();
    css.append(to_snake_case(theme_name).as_str());
    css.append(" {\n");
    let ghost head = css@;
    let ghost ds = declarations(entries@);
    let mut i: usize = 0;
    while i < entries.len()
        invariant
            i <= entries.len(),
            ds == declarations(entries@),
            css@ == head + lines_upto(ds, i as nat),
        decreases entries.len() - i,
    {
        push_declaration(&mut css, &entries[i]);
        i += 1;
    }
    css.append("}\n");
    css
}

/// The text filed under `key` in the object `v`, `fallback` where `v` is no
/// object, has no such key, or holds something other than a string there.
pub fn text_member<'a>(v: &'a Value, key: &str, fallback: &'a str) -> (r: &'a str)
    ensures
        r@ == text_or(member(json_of(*v), key@), fallback@),
{
    match value_in(table_in(Some(v)), key) {
        Some(found) => match as_text(found) {
            Some(text) => text,
            None => fallback,
        },
        None => fallback,
    }
}

/// The style of the first theme of `document`: `Some` exactly where
/// `document` lists a first theme and that theme has a `style` key.
pub fn default_style_of<'a>(document: &'a Value) -> (r: Option<&'a Value>)
    ensures
        held(r) == lookup(table(first_theme(json_of(*document))), "style"@),
        opt_json(r) == default_style(json_of(*document)),
{
    let themes = list_in(value_in(table_in(Some(document)), "themes"));
    let first = match themes {
        Some(themes) => if themes.len() > 0 {
            Some(&themes[0])
        } else {
            None
        },
        None => None,
    };
    value_in(table_in(first), "style")
}

/// The name of `theme`, `Unnamed Theme` where it has none or holds
/// something other than a string under `name`.
pub fn name_of_theme<'a>(theme: &'a Value) -> (r: &'a str)
    ensures
        r@ == theme_name(json_of(*theme)),
{
    text_member(theme, "name", "Unnamed Theme")
}

/// The stylesheet of `theme`: its style laid over the style of the first
/// theme of `default`, inside a rule scoped to the theme's name. A missing
/// or malformed style on either side counts as an empty mapping.
pub fn generate_merged_css(default: &Value, theme: &Value) -> (css: String)
    ensures
        css@ == merged_css(json_of(*default), json_of(*theme)),
{
    let theme_name = name_of_theme(theme);
    let default_style = default_style_of(default);
    let theme_style = value_in(table_in(Some(theme)), "style");
    let entries = resolve_style(default_style, theme_style);
    render_theme(theme_name, &entries)
}

} // verus!
