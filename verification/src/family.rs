//! Theme families: one document that lists several themes.
//!
//! Processing a family gives, for each of its themes, a descriptor and a
//! stylesheet, and one index that imports the stylesheets. Nothing here
//! touches the file system: the caller writes the texts where they belong.

use crate::json::{
    json_of, jsons_of, list, list_in, member, opt_list, parse_document, parsed, table_in,
    value_in, Json,
};
use crate::names::{normalize, to_snake_case};
use crate::render::{
    generate_merged_css, merged_css, name_of_theme, text_member, text_or, theme_name,
};
use crate::text::string_from_chars;
use serde_json::Value;
use vstd::prelude::*;
use vstd::string::StringExecFns;

verus! {

/// What is recorded about one theme: what a `ThemeDescriptor` stands for.
pub struct Descriptor {
    pub name: Seq<char>,
    pub appearance: Seq<char>,
    pub family: Seq<char>,
    pub css: Seq<char>,
}

/// What is recorded about one theme: its name as given, its appearance in
/// canonical form, the family it belongs to, and the path of its stylesheet
/// relative to the output root.
#[derive(Clone, Debug, PartialEq, Eq)]
pub struct ThemeDescriptor {
    pub name: String,
    pub appearance: String,
    pub family: String,
    pub css: String,
}

impl View for ThemeDescriptor {
    type V = Descriptor;

    open spec fn view(&self) -> Descriptor {
        Descriptor {
            name: self.name@,
            appearance: self.appearance@,
            family: self.family@,
            css: self.css@,
        }
    }
}

/// One stylesheet to write: what a `Stylesheet` stands for.
pub struct Sheet {
    pub file_name: Seq<char>,
    pub text: Seq<char>,
}

/// One stylesheet to write: the name of its file inside the extension's
/// directory, and its text.
#[derive(Clone, Debug, PartialEq, Eq)]
pub struct Stylesheet {
    pub file_name: String,
    pub text: String,
}

impl View for Stylesheet {
    type V = Sheet;

    open spec fn view(&self) -> Sheet {
        Sheet { file_name: self.file_name@, text: self.text@ }
    }
}

/// What one family gives: what a `FamilyOutput` stands for.
pub struct Output {
    pub descriptors: Seq<Descriptor>,
    pub stylesheets: Seq<Sheet>,
    pub index: Option<Seq<char>>,
}

/// What one family gives: a descriptor and a stylesheet for each theme, in
/// the order of the family document, and the index that imports the
/// stylesheets. A family without themes has no index.
#[derive(Clone, Debug, PartialEq, Eq)]
pub struct FamilyOutput {
    pub descriptors: Vec<ThemeDescriptor>,
    pub stylesheets: Vec<Stylesheet>,
    pub index: Option<String>,
}

impl View for FamilyOutput {
    type V = Output;

    open spec fn view(&self) -> Output {
        Output {
            descriptors: descriptors(self.descriptors@),
            stylesheets: sheets(self.stylesheets@),
            index: match self.index {
                Some(text) => Some(text@),
                None => None,
            },
        }
    }
}

/// The place of the last `.` among the first `n` characters of `name`, or -1.
pub open spec fn last_dot(name: Seq<char>, n: nat) -> int
    decreases n,
{
    if n == 0 {
        -1
    } else if name[n - 1] == '.' {
        n - 1
    } else {
        last_dot(name, (n - 1) as nat)
    }
}

/// A file name without its extension: what stands before the last `.`. A
/// name without a `.`, or with its only `.` in front, has no extension.
pub open spec fn file_stem(name: Seq<char>) -> Seq<char> {
    let dot = last_dot(name, name.len());
    if dot > 0 {
        name.take(dot)
    } else {
        name
    }
}

/// The themes that a family document lists; none where it has no `themes`
/// key or holds something other than an array there.
pub open spec fn family_themes(family: Json) -> Seq<Json> {
    list(member(family, "themes"@))
}

/// The name of the file of a theme's stylesheet.
pub open spec fn stylesheet_file(theme: Json) -> Seq<char> {
    normalize(theme_name(theme)) + ".css"@
}

/// The descriptor of a theme of the family read from `family_file`, which
/// belongs to the extension `extension_name`.
pub open spec fn descriptor(
    theme: Json,
    extension_name: Seq<char>,
    family_file: Seq<char>,
) -> Descriptor {
    Descriptor {
        name: theme_name(theme),
        appearance: normalize(text_or(member(theme, "appearance"@), "unknown"@)),
        family: file_stem(family_file),
        css: normalize(extension_name) + "/"@ + stylesheet_file(theme),
    }
}

/// The stylesheet of a theme over the defaults of `default_document`.
pub open spec fn sheet(theme: Json, default_document: Json) -> Sheet {
    Sheet { file_name: stylesheet_file(theme), text: merged_css(default_document, theme) }
}

/// The statement that imports the stylesheet at `target`.
pub open spec fn import_line(target: Seq<char>) -> Seq<char> {
    "@import url(\""@ + target + "\");\n"@
}

/// The import statements of the first `n` of `targets`, in order.
pub open spec fn imports_upto(targets: Seq<Seq<char>>, n: nat) -> Seq<char>
    decreases n,
{
    if n == 0 {
        Seq::empty()
    } else {
        imports_upto(targets, (n - 1) as nat) + import_line(targets[n - 1])
    }
}

/// The import statements of all of `targets`, in order.
pub open spec fn imports(targets: Seq<Seq<char>>) -> Seq<char> {
    imports_upto(targets, targets.len())
}

/// The index of a family: one import for each theme's stylesheet file, in
/// the order of the themes.
pub open spec fn index_text(themes: Seq<Json>) -> Seq<char> {
    imports(themes.map_values(|theme: Json| stylesheet_file(theme)))
}

/// The descriptors that `items` stand for.
pub open spec fn descriptors(items: Seq<ThemeDescriptor>) -> Seq<Descriptor> {
    items.map_values(|d: ThemeDescriptor| d@)
}

/// The stylesheets that `items` stand for.
pub open spec fn sheets(items: Seq<Stylesheet>) -> Seq<Sheet> {
    items.map_values(|s: Stylesheet| s@)
}

/// What the family `family` gives over `default_document`: for each theme
/// it lists, in order, a descriptor and a stylesheet, and the index of the
/// stylesheets where it lists any theme.
pub open spec fn family_output(
    family: Json,
    default_document: Json,
    extension_name: Seq<char>,
    family_file: Seq<char>,
) -> Output {
    let themes = family_themes(family);
    Output {
        descriptors: themes.map_values(
            |theme: Json| descriptor(theme, extension_name, family_file),
        ),
        stylesheets: themes.map_values(|theme: Json| sheet(theme, default_document)),
        index: if themes.len() > 0 {
            Some(index_text(themes))
        } else {
            None
        },
    }
}

/// The identifier of the family read from the file called `name`: the file
/// name without its extension.
pub fn family_identifier(name: &str) -> (r: String)
    ensures
        r@ == file_stem(name@),
{
    let mut chars: Vec<char> = Vec::new();
    let mut dot: Option<usize> = None;
    for c in it: name.chars()
        invariant
            it.seq() == name@,
            chars@ == name@.take(it.index() as int),
            match dot {
                Some(at) => at < it.index() && at == last_dot(name@, it.index() as nat),
                None => last_dot(name@, it.index() as nat) == -1,
            },
    {
        if c == '.' {
            dot = Some(chars.len());
        }
        chars.push(c);
    }
    if let Some(at) = dot {
        if at > 0 {
            chars.truncate(at);
        }
    }
    string_from_chars(&chars)
}

/// The name of the file of the stylesheet of the theme called `theme_name`.
pub fn stylesheet_file_name(theme_name: &str) -> (r: String)
    ensures
        r@ == normalize(theme_name@) + ".css"@,
{
    let mut r = to_snake_case(theme_name);
    r.append(".css");
    r
}

/// Appends to `index` the statement that imports the stylesheet at `target`.
pub fn push_import(index: &mut String, target: &str)
    ensures
        final(index)@ == old(index)@ + import_line(target@),
{
    index.append("@import url(\"");
    index.append(target);
    index.append("\");\n");
}

/// The themes that `family` lists: `Some` exactly where `family` is an
/// object that holds an array under `themes`.
pub fn themes_of<'a>(family: &'a Value) -> (r: Option<&'a Vec<Value>>)
    ensures
        r is Some <==> member(json_of(*family), "themes"@) is List,
        opt_list(r) == family_themes(json_of(*family)),
{
    list_in(value_in(table_in(Some(family)), "themes"))
}

/// The descriptor of `theme`.
pub fn describe_theme(
    theme: &Value,
    extension_name: &str,
    family_file: &str,
) -> (r: ThemeDescriptor)
    ensures
        r@ == descriptor(json_of(*theme), extension_name@, family_file@),
{
    let name = name_of_theme(theme);
    let appearance = text_member(theme, "appearance", "unknown");
    let mut css = to_snake_case(extension_name);
    css.append("/");
    css.append(stylesheet_file_name(name).as_str());
    ThemeDescriptor {
        name: name.to_owned(),
        appearance: to_snake_case(appearance),
        family: family_identifier(family_file),
        css,
    }
}

/// The index of `theme_json`: one import for each theme's stylesheet file,
/// in the order of the themes; empty where the document lists no themes.
pub fn generate_extension_index_css(theme_json: &Value) -> (r: String)
    ensures
        r@ == index_text(family_themes(json_of(*theme_json))),
{
    let mut index = String::new();
    let ghost themes = family_themes(json_of(*theme_json));
    let ghost targets = themes.map_values(|theme: Json| stylesheet_file(theme));
    if let Some(listed) = themes_of(theme_json) {
        let mut i: usize = 0;
        while i < listed.len()
            invariant
                i <= listed.len(),
                jsons_of(listed@) == themes,
                targets == themes.map_values(|theme: Json| stylesheet_file(theme)),
                index@ == imports_upto(targets, i as nat),
            decreases listed.len() - i,
        {
            let file = stylesheet_file_name(name_of_theme(&listed[i]));
            push_import(&mut index, file.as_str());
            i += 1;
        }
    }
    index
}

/// What the family `family` gives over the defaults of `default`: for each
/// theme it lists, in order, a descriptor and a stylesheet, and the index
/// that imports the stylesheets. A document that lists no themes gives
/// nothing, and no index.
pub fn process_family(
    family: &Value,
    default: &Value,
    extension_name: &str,
    family_file: &str,
) -> (out: FamilyOutput)
    ensures
        out@ == family_output(json_of(*family), json_of(*default), extension_name@, family_file@),
        out.descriptors@.len() == family_themes(json_of(*family)).len(),
        out.stylesheets@.len() == family_themes(json_of(*family)).len(),
        out.index is None <==> family_themes(json_of(*family)).len() == 0,
{
    let ghost themes = family_themes(json_of(*family));
    let ghost ext = extension_name@;
    let ghost file = family_file@;
    let ghost default_json = json_of(*default);
    let mut found: Vec<ThemeDescriptor> = Vec::new();
    let mut written: Vec<Stylesheet> = Vec::new();
    if let Some(listed) = themes_of(family) {
        let mut i: usize = 0;
        while i < listed.len()
            invariant
                i <= listed.len(),
                jsons_of(listed@) == themes,
                ext == extension_name@,
                file == family_file@,
                default_json == json_of(*default),
                found@.len() == i,
                written@.len() == i,
                forall|k: int|
                    0 <= k < i ==> (#[trigger] found@[k])@ == descriptor(themes[k], ext, file),
                forall|k: int|
                    0 <= k < i ==> (#[trigger] written@[k])@ == sheet(themes[k], default_json),
            decreases listed.len() - i,
        {
            let theme = &listed[i];
            found.push(describe_theme(theme, extension_name, family_file));
            written.push(
                Stylesheet {
                    file_name: stylesheet_file_name(name_of_theme(theme)),
                    text: generate_merged_css(default, theme),
                },
            );
            i += 1;
        }
    }
    assert(descriptors(found@) =~= themes.map_values(|theme: Json| descriptor(theme, ext, file)));
    assert(sheets(written@) =~= themes.map_values(|theme: Json| sheet(theme, default_json)));
    let index = if found.len() > 0 {
        Some(generate_extension_index_css(family))
    } else {
        None
    };
    FamilyOutput { descriptors: found, stylesheets: written, index }
}

/// What the family spelled by `family_text` gives over the defaults of
/// `default`: that of `process_family` where the text is a JSON document,
/// and `None` where it is malformed.
pub fn process_theme(
    family_text: &str,
    default: &Value,
    extension_name: &str,
    family_file: &str,
) -> (r: Option<FamilyOutput>)
    ensures
        match parsed(family_text@) {
            Some(family) => r is Some && r->0@ == family_output(
                family,
                json_of(*default),
                extension_name@,
                family_file@,
            ),
            None => r is None,
        },
{
    match parse_document(family_text) {
        Some(family) => Some(process_family(&family, default, extension_name, family_file)),
        None => None,
    }
}

/// Appends to `master` one import for the stylesheet of each of `themes`,
/// by its path relative to the output root, in order.
pub fn push_master_imports(master: &mut String, themes: &Vec<ThemeDescriptor>)
    ensures
        final(master)@ == old(master)@ + imports(
            descriptors(themes@).map_values(|d: Descriptor| d.css),
        ),
{
    let ghost targets = descriptors(themes@).map_values(|d: Descriptor| d.css);
    let ghost before = master@;
    let mut i: usize = 0;
    while i < themes.len()
        invariant
            i <= themes.len(),
            targets == descriptors(themes@).map_values(|d: Descriptor| d.css),
            master@ == before + imports_upto(targets, i as nat),
        decreases themes.len() - i,
    {
        push_import(master, themes[i].css.as_str());
        i += 1;
    }
}

/// A family without themes gives nothing: no descriptor, no stylesheet and
/// no index. With themes it gives one descriptor and one stylesheet for
/// each, and an index.
pub proof fn lemma_empty_family_gives_nothing(
    family: Json,
    default_document: Json,
    extension_name: Seq<char>,
    family_file: Seq<char>,
)
    ensures
        ({
            let out = family_output(family, default_document, extension_name, family_file);
            &&& out.descriptors.len() == family_themes(family).len()
            &&& out.stylesheets.len() == family_themes(family).len()
            &&& out.index is None <==> family_themes(family).len() == 0
        }),
{
}

} // verus!
