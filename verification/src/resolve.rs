//! The style cascade: a theme's style laid over the default style.
//!
//! The default style decides which variables exist. For each of its keys the
//! theme's value is taken where the theme has one, the default's otherwise.
//! One traversal, `cascade`, serves the top-level keys, each player and each
//! syntax category; they differ in the prefix of the names they give out.

use crate::json::{
    as_table, as_text, compact_text, element, held, json_of, json_text, list, list_in, lookup,
    member, opt_json, opt_list, opt_table, table, table_at, table_entries, table_in,
    table_of, value_in, Json,
};
use crate::names::{normalize, to_snake_case};
use crate::text::{decimal, push_char, push_decimal, same_text};
use serde_json::Value;
use vstd::prelude::*;
use vstd::string::StringExecFns;

verus! {

/// One CSS custom property, `--name: literal;`: what a `CssEntry` stands for.
pub struct Declaration {
    pub name: Seq<char>,
    pub literal: Seq<char>,
}

/// One CSS custom property, as text.
#[derive(Clone, Debug, PartialEq, Eq)]
pub struct CssEntry {
    pub name: String,
    pub literal: String,
}

impl View for CssEntry {
    type V = Declaration;

    open spec fn view(&self) -> Declaration {
        Declaration { name: self.name@, literal: self.literal@ }
    }
}

/// The declarations that `entries` stand for.
pub open spec fn declarations(entries: Seq<CssEntry>) -> Seq<Declaration> {
    entries.map_values(|e: CssEntry| e@)
}

/// `s` between double quotes, its characters as they are.
pub open spec fn quoted(s: Seq<char>) -> Seq<char> {
    seq!['"'] + s + seq!['"']
}

/// The CSS text of a value: a string quoted as it is, anything else in its
/// compact JSON form.
pub open spec fn literal(j: Json) -> Seq<char> {
    match j {
        Json::Text(s) => quoted(s),
        _ => json_text(j),
    }
}

/// Whether a literal is written out: not when it is empty or reads `null`.
pub open spec fn emitted(literal: Seq<char>) -> bool {
    literal.len() > 0 && literal != "null"@
}

/// The two top-level keys that hold nested data and are no variables themselves.
pub open spec fn is_reserved(key: Seq<char>) -> bool {
    key == "players"@ || key == "syntax"@
}

/// An override that stands for no value: the empty string.
pub open spec fn is_blank(j: Json) -> bool {
    j == Json::Text(Seq::<char>::empty())
}

/// The value that wins for one key. The override wins where there is one;
/// at the top level a blank override gives way to the default.
pub open spec fn resolved(
    default_value: Json,
    override_value: Option<Json>,
    top_level: bool,
) -> Json {
    match override_value {
        Some(v) => if top_level && is_blank(v) {
            default_value
        } else {
            v
        },
        None => default_value,
    }
}

/// What a key with the literal `text` gives: one declaration, named by
/// `prefix` and the canonical key, or none where the literal is not written out.
pub open spec fn declared(prefix: Seq<char>, key: Seq<char>, text: Seq<char>) -> Seq<Declaration> {
    if emitted(text) {
        seq![Declaration { name: prefix + normalize(key), literal: text }]
    } else {
        Seq::empty()
    }
}

/// What one entry of the defaults gives: the declaration of its winning
/// value, or none for a reserved key at the top level.
pub open spec fn cascade_entry(
    prefix: Seq<char>,
    entry: (Seq<char>, Json),
    overrides: Seq<(Seq<char>, Json)>,
    top_level: bool,
) -> Seq<Declaration> {
    if top_level && is_reserved(entry.0) {
        Seq::empty()
    } else {
        declared(prefix, entry.0, literal(resolved(entry.1, lookup(overrides, entry.0), top_level)))
    }
}

/// What the first `n` entries of the defaults give, in their order.
pub open spec fn cascade_upto(
    prefix: Seq<char>,
    defaults: Seq<(Seq<char>, Json)>,
    overrides: Seq<(Seq<char>, Json)>,
    top_level: bool,
    n: nat,
) -> Seq<Declaration>
    decreases n,
{
    if n == 0 {
        Seq::empty()
    } else {
        cascade_upto(prefix, defaults, overrides, top_level, (n - 1) as nat) + cascade_entry(
            prefix,
            defaults[n - 1],
            overrides,
            top_level,
        )
    }
}

/// The declarations of one mapping: one for each key of `defaults` whose
/// winning value is written out, in the order of `defaults`.
pub open spec fn cascade(
    prefix: Seq<char>,
    defaults: Seq<(Seq<char>, Json)>,
    overrides: Seq<(Seq<char>, Json)>,
    top_level: bool,
) -> Seq<Declaration> {
    cascade_upto(prefix, defaults, overrides, top_level, defaults.len())
}

/// The prefix of the names of the player with the number `number`.
pub open spec fn player_prefix(number: nat) -> Seq<char> {
    "player_"@ + decimal(number) + "_"@
}

/// The declarations of the player at index `i`, whose number is `i + 1`:
/// players count from one.
pub open spec fn player_entry(
    default_players: Seq<Json>,
    override_players: Seq<Json>,
    i: int,
) -> Seq<Declaration> {
    cascade(
        player_prefix((i + 1) as nat),
        table(element(default_players, i)),
        table(element(override_players, i)),
        false,
    )
}

/// The declarations of the first `n` players.
pub open spec fn players_upto(
    default_players: Seq<Json>,
    override_players: Seq<Json>,
    n: nat,
) -> Seq<Declaration>
    decreases n,
{
    if n == 0 {
        Seq::empty()
    } else {
        players_upto(default_players, override_players, (n - 1) as nat) + player_entry(
            default_players,
            override_players,
            n - 1,
        )
    }
}

/// The number of player slots walked: the longer of the two sequences.
pub open spec fn player_slots(default_players: Seq<Json>, override_players: Seq<Json>) -> nat {
    if default_players.len() >= override_players.len() {
        default_players.len()
    } else {
        override_players.len()
    }
}

/// The declarations of all players, by index, then by key.
pub open spec fn players_pass(
    default_players: Seq<Json>,
    override_players: Seq<Json>,
) -> Seq<Declaration> {
    players_upto(
        default_players,
        override_players,
        player_slots(default_players, override_players),
    )
}

/// The prefix of the names of one syntax category.
pub open spec fn syntax_prefix(category: Seq<char>) -> Seq<char> {
    "syntax_"@ + normalize(category) + "_"@
}

/// The category that wins: the override's where it has the key, whatever it holds.
pub open spec fn winning_category(
    entry: (Seq<char>, Json),
    overrides: Seq<(Seq<char>, Json)>,
) -> Json {
    match lookup(overrides, entry.0) {
        Some(v) => v,
        None => entry.1,
    }
}

/// The declarations of one syntax category: those of the winning category's
/// own keys, and none at all where the winning category is no mapping.
pub open spec fn syntax_entry(
    entry: (Seq<char>, Json),
    overrides: Seq<(Seq<char>, Json)>,
) -> Seq<Declaration> {
    match winning_category(entry, overrides) {
        Json::Table(keys) => cascade(syntax_prefix(entry.0), keys, Seq::empty(), false),
        _ => Seq::empty(),
    }
}

/// The declarations of the first `n` syntax categories.
pub open spec fn syntax_upto(
    defaults: Seq<(Seq<char>, Json)>,
    overrides: Seq<(Seq<char>, Json)>,
    n: nat,
) -> Seq<Declaration>
    decreases n,
{
    if n == 0 {
        Seq::empty()
    } else {
        syntax_upto(defaults, overrides, (n - 1) as nat) + syntax_entry(defaults[n - 1], overrides)
    }
}

/// The declarations of all syntax categories, in the order of the defaults.
pub open spec fn syntax_pass(
    defaults: Seq<(Seq<char>, Json)>,
    overrides: Seq<(Seq<char>, Json)>,
) -> Seq<Declaration> {
    syntax_upto(defaults, overrides, defaults.len())
}

/// The declarations of a theme: `override_style` laid over `default_style`.
/// Top-level keys come first, then the players, then the syntax categories.
/// A style that is no mapping counts as an empty one.
pub open spec fn resolve(default_style: Json, override_style: Json) -> Seq<Declaration> {
    cascade(Seq::empty(), table(default_style), table(override_style), true) + players_pass(
        list(member(default_style, "players"@)),
        list(member(override_style, "players"@)),
    ) + syntax_pass(
        table(member(default_style, "syntax"@)),
        table(member(override_style, "syntax"@)),
    )
}

/// `s` between double quotes.
pub fn quote(s: &str) -> (r: String)
    ensures
        r@ == quoted(s@),
{
    let mut r = String::new();
    push_char(&mut r, '"');
    r.append(s);
    push_char(&mut r, '"');
    r
}

/// The CSS text of `v`: a string quoted as it is, anything else in its
/// compact JSON form.
pub fn css_literal(v: &Value) -> (r: String)
    ensures
        r@ == literal(json_of(*v)),
{
    match as_text(v) {
        Some(s) => quote(s),
        None => compact_text(v),
    }
}

/// Whether `literal` is written out: not when it is empty or reads `null`.
pub fn is_emitted(literal: &str) -> (r: bool)
    ensures
        r == emitted(literal@),
{
    !literal.is_empty() && !same_text(literal, "null")
}

/// Whether `key` is `players` or `syntax`.
pub fn is_reserved_key(key: &str) -> (r: bool)
    ensures
        r == is_reserved(key@),
{
    same_text(key, "players") || same_text(key, "syntax")
}

/// Whether `v` is the empty string.
pub fn is_blank_value(v: &Value) -> (r: bool)
    ensures
        r == is_blank(json_of(*v)),
{
    match as_text(v) {
        Some(s) => {
            let blank = s.is_empty();
            assert(blank == (s@ =~= Seq::<char>::empty()));
            blank
        },
        None => false,
    }
}

/// The value that wins for one key.
pub fn winning_value<'a>(
    default_value: &'a Value,
    override_value: Option<&'a Value>,
    top_level: bool,
) -> (r: &'a Value)
    ensures
        json_of(*r) == resolved(json_of(*default_value), held(override_value), top_level),
{
    match override_value {
        Some(v) => if top_level && is_blank_value(v) {
            default_value
        } else {
            v
        },
        None => default_value,
    }
}

/// Appends to `out` the declaration of `key` with the literal `text`, named
/// by `prefix` and the canonical key. A literal that is empty or reads
/// `null` is not written out, and `out` stays as it is.
pub fn push_entry(out: &mut Vec<CssEntry>, prefix: &str, key: &str, text: String)
    ensures
        declarations(final(out)@) == declarations(old(out)@) + declared(prefix@, key@, text@),
{
    if is_emitted(text.as_str()) {
        let mut name = prefix.to_owned();
        name.append(to_snake_case(key).as_str());
        out.push(CssEntry { name, literal: text });
    }
}

/// Appends to `out` the declarations of one mapping: for each key of
/// `defaults`, in order, the declaration of its winning value, named by
/// `prefix` and the canonical key. At the top level the reserved keys are
/// passed over and a blank override gives way to the default.
pub fn cascade_into(
    out: &mut Vec<CssEntry>,
    prefix: &str,
    defaults: &serde_json::Map<String, Value>,
    overrides: Option<&serde_json::Map<String, Value>>,
    top_level: bool,
)
    ensures
        declarations(final(out)@) == declarations(old(out)@) + cascade(
            prefix@,
            table_of(*defaults),
            opt_table(overrides),
            top_level,
        ),
{
    let entries = table_entries(defaults);
    let ghost before = declarations(out@);
    let ghost model = table_of(*defaults);
    let mut i: usize = 0;
    while i < entries.len()
        invariant
            i <= entries.len(),
            model == table_of(*defaults),
            entries@.len() == model.len(),
            forall|k: int|
                0 <= k < entries@.len() ==> (#[trigger] entries@[k]).0@ == model[k].0 && json_of(
                    *entries@[k].1,
                ) == model[k].1,
            declarations(out@) == before + cascade_upto(
                prefix@,
                model,
                opt_table(overrides),
                top_level,
                i as nat,
            ),
        decreases entries.len() - i,
    {
        let key: &String = entries[i].0;
        let default_value: &Value = entries[i].1;
        if !(top_level && is_reserved_key(key.as_str())) {
            let value = winning_value(default_value, value_in(overrides, key.as_str()), top_level);
            push_entry(out, prefix, key.as_str(), css_literal(value));
        }
        i += 1;
    }
}

/// The prefix of the names of the player with the number `number`.
pub fn player_name_prefix(number: usize) -> (r: String)
    ensures
        r@ == player_prefix(number as nat),
{
    let mut r = "player_".to_owned();
    push_decimal(&mut r, number);
    r.append("_");
    r
}

/// The prefix of the names of the syntax category `category`.
pub fn syntax_name_prefix(category: &str) -> (r: String)
    ensures
        r@ == syntax_prefix(category@),
{
    let mut r = "syntax_".to_owned();
    r.append(to_snake_case(category).as_str());
    r.append("_");
    r
}

/// Appends to `out` the declarations of the players: slot by slot up to the
/// longer of the two arrays, each slot's keys taken from the default player.
/// A slot that holds no mapping counts as an empty one.
pub fn players_into(
    out: &mut Vec<CssEntry>,
    default_players: Option<&Vec<Value>>,
    override_players: Option<&Vec<Value>>,
)
    ensures
        declarations(final(out)@) == declarations(old(out)@) + players_pass(
            opt_list(default_players),
            opt_list(override_players),
        ),
{
    let default_len = match default_players {
        Some(players) => players.len(),
        None => 0,
    };
    let override_len = match override_players {
        Some(players) => players.len(),
        None => 0,
    };
    let slots = if default_len >= override_len {
        default_len
    } else {
        override_len
    };
    let ghost before = declarations(out@);
    let ghost defaults = opt_list(default_players);
    let ghost overrides = opt_list(override_players);
    let mut i: usize = 0;
    while i < slots
        invariant
            i <= slots,
            defaults == opt_list(default_players),
            overrides == opt_list(override_players),
            declarations(out@) == before + players_upto(defaults, overrides, i as nat),
        decreases slots - i,
    {
        if let Some(player) = table_at(default_players, i) {
            let prefix = player_name_prefix(i + 1);
            cascade_into(out, prefix.as_str(), player, table_at(override_players, i), false);
        }
        i += 1;
    }
}

/// Appends to `out` the declarations of the syntax categories: for each
/// category of `defaults`, in order, the keys of the winning category. A
/// winning category that is no mapping gives nothing.
pub fn syntax_into(
    out: &mut Vec<CssEntry>,
    defaults: Option<&serde_json::Map<String, Value>>,
    overrides: Option<&serde_json::Map<String, Value>>,
)
    ensures
        declarations(final(out)@) == declarations(old(out)@) + syntax_pass(
            opt_table(defaults),
            opt_table(overrides),
        ),
{
    let ghost before = declarations(out@);
    if let Some(categories) = defaults {
        let entries = table_entries(categories);
        let ghost model = table_of(*categories);
        let mut i: usize = 0;
        while i < entries.len()
            invariant
                i <= entries.len(),
                model == table_of(*categories),
                entries@.len() == model.len(),
                forall|k: int|
                    0 <= k < entries@.len() ==> (#[trigger] entries@[k]).0@ == model[k].0
                        && json_of(*entries@[k].1) == model[k].1,
                declarations(out@) == before + syntax_upto(model, opt_table(overrides), i as nat),
            decreases entries.len() - i,
        {
            let key: &String = entries[i].0;
            let default_category: &Value = entries[i].1;
            let category = match value_in(overrides, key.as_str()) {
                Some(v) => v,
                None => default_category,
            };
            if let Some(keys) = as_table(category) {
                let prefix = syntax_name_prefix(key.as_str());
                cascade_into(out, prefix.as_str(), keys, None, false);
            }
            i += 1;
        }
    }
}

/// The declarations of a theme: `override_style` laid over `default_style`.
///
/// Top-level keys come first, then the players, then the syntax categories.
/// A style that is missing or no mapping counts as an empty mapping, so the
/// result only ever gets shorter.
pub fn resolve_style(
    default_style: Option<&Value>,
    override_style: Option<&Value>,
) -> (entries: Vec<CssEntry>)
    ensures
        declarations(entries@) == resolve(opt_json(default_style), opt_json(override_style)),
{
    let defaults = table_in(default_style);
    let overrides = table_in(override_style);
    let mut entries: Vec<CssEntry> = Vec::new();
    if let Some(defaults) = defaults {
        proof {
            reveal_strlit("");
            assert(""@ =~= Seq::<char>::empty());
        }
        cascade_into(&mut entries, "", defaults, overrides, true);
    }
    players_into(
        &mut entries,
        list_in(value_in(defaults, "players")),
        list_in(value_in(overrides, "players")),
    );
    syntax_into(
        &mut entries,
        table_in(value_in(defaults, "syntax")),
        table_in(value_in(overrides, "syntax")),
    );
    entries
}

/// The value that wins for the top-level key at `i` of the default style.
pub open spec fn top_level_winner(default_style: Json, override_style: Json, i: int) -> Json {
    resolved(
        table(default_style)[i].1,
        lookup(table(override_style), table(default_style)[i].0),
        true,
    )
}

proof fn lemma_cascade_holds_entry(
    prefix: Seq<char>,
    defaults: Seq<(Seq<char>, Json)>,
    overrides: Seq<(Seq<char>, Json)>,
    top_level: bool,
    n: nat,
    i: int,
    d: Declaration,
)
    requires
        0 <= i < n <= defaults.len(),
        cascade_entry(prefix, defaults[i], overrides, top_level).contains(d),
    ensures
        cascade_upto(prefix, defaults, overrides, top_level, n).contains(d),
    decreases n,
{
    let before = cascade_upto(prefix, defaults, overrides, top_level, (n - 1) as nat);
    let step = cascade_entry(prefix, defaults[n - 1], overrides, top_level);
    if i == n - 1 {
        let k = choose|k: int| 0 <= k < step.len() && step[k] == d;
        assert((before + step)[before.len() + k] == d);
    } else {
        lemma_cascade_holds_entry(prefix, defaults, overrides, top_level, (n - 1) as nat, i, d);
        let k = choose|k: int| 0 <= k < before.len() && before[k] == d;
        assert((before + step)[k] == d);
    }
}

/// Precedence. For a top-level key of the default style the override's
/// value is declared where the override holds the key with a value that is
/// not blank, and the default's value otherwise: whenever the literal of
/// that value is written out at all, the resolved style declares it under
/// the key's canonical name.
pub proof fn lemma_override_takes_precedence(default_style: Json, override_style: Json, i: int)
    requires
        0 <= i < table(default_style).len(),
        !is_reserved(table(default_style)[i].0),
        emitted(literal(top_level_winner(default_style, override_style, i))),
    ensures
        resolve(default_style, override_style).contains(
            Declaration {
                name: normalize(table(default_style)[i].0),
                literal: literal(top_level_winner(default_style, override_style, i)),
            },
        ),
{
    let defaults = table(default_style);
    let overrides = table(override_style);
    let d = Declaration {
        name: normalize(defaults[i].0),
        literal: literal(top_level_winner(default_style, override_style, i)),
    };
    let step = cascade_entry(Seq::empty(), defaults[i], overrides, true);
    assert(step[0] == d);
    lemma_cascade_holds_entry(Seq::empty(), defaults, overrides, true, defaults.len(), i, d);
    let top = cascade(Seq::empty(), defaults, overrides, true);
    let k = choose|k: int| 0 <= k < top.len() && top[k] == d;
    assert(resolve(default_style, override_style)[k] == d);
}

proof fn lemma_cascade_upto_named(
    prefix: Seq<char>,
    defaults: Seq<(Seq<char>, Json)>,
    overrides: Seq<(Seq<char>, Json)>,
    top_level: bool,
    n: nat,
    d: Declaration,
)
    requires
        n <= defaults.len(),
        cascade_upto(prefix, defaults, overrides, top_level, n).contains(d),
    ensures
        exists|i: int|
            0 <= i < n && d.name == prefix + normalize((#[trigger] defaults[i]).0) && !(top_level
                && is_reserved(defaults[i].0)),
    decreases n,
{
    if n > 0 {
        let before = cascade_upto(prefix, defaults, overrides, top_level, (n - 1) as nat);
        let step = cascade_entry(prefix, defaults[n - 1], overrides, top_level);
        let k = choose|k: int| 0 <= k < (before + step).len() && (before + step)[k] == d;
        if k < before.len() {
            lemma_cascade_upto_named(prefix, defaults, overrides, top_level, (n - 1) as nat, d);
        }
    }
}

/// The default decides which variables exist: every declaration of a
/// cascade is named after a key of the defaults, and at the top level after
/// one that is not reserved.
pub proof fn lemma_cascade_is_named_by_defaults(
    prefix: Seq<char>,
    defaults: Seq<(Seq<char>, Json)>,
    overrides: Seq<(Seq<char>, Json)>,
    top_level: bool,
    d: Declaration,
)
    requires
        cascade(prefix, defaults, overrides, top_level).contains(d),
    ensures
        exists|i: int|
            0 <= i < defaults.len() && d.name == prefix + normalize((#[trigger] defaults[i]).0)
                && !(top_level && is_reserved(defaults[i].0)),
{
    lemma_cascade_upto_named(prefix, defaults, overrides, top_level, defaults.len(), d);
}

proof fn lemma_cascade_upto_ignores_foreign_keys(
    prefix: Seq<char>,
    defaults: Seq<(Seq<char>, Json)>,
    first: Seq<(Seq<char>, Json)>,
    second: Seq<(Seq<char>, Json)>,
    top_level: bool,
    n: nat,
)
    requires
        n <= defaults.len(),
        forall|i: int|
            0 <= i < defaults.len() ==> lookup(first, (#[trigger] defaults[i]).0) == lookup(
                second,
                defaults[i].0,
            ),
    ensures
        cascade_upto(prefix, defaults, first, top_level, n) == cascade_upto(
            prefix,
            defaults,
            second,
            top_level,
            n,
        ),
    decreases n,
{
    if n > 0 {
        lemma_cascade_upto_ignores_foreign_keys(
            prefix,
            defaults,
            first,
            second,
            top_level,
            (n - 1) as nat,
        );
    }
}

/// Keys that only the override holds change nothing: two overrides that
/// hold the same under every key of the defaults give the same declarations.
pub proof fn lemma_cascade_ignores_foreign_keys(
    prefix: Seq<char>,
    defaults: Seq<(Seq<char>, Json)>,
    first: Seq<(Seq<char>, Json)>,
    second: Seq<(Seq<char>, Json)>,
    top_level: bool,
)
    requires
        forall|i: int|
            0 <= i < defaults.len() ==> lookup(first, (#[trigger] defaults[i]).0) == lookup(
                second,
                defaults[i].0,
            ),
    ensures
        cascade(prefix, defaults, first, top_level) == cascade(prefix, defaults, second, top_level),
{
    lemma_cascade_upto_ignores_foreign_keys(
        prefix,
        defaults,
        first,
        second,
        top_level,
        defaults.len(),
    );
}

proof fn lemma_found_key_is_listed(entries: Seq<(Seq<char>, Json)>, key: Seq<char>)
    requires
        lookup(entries, key) is Some,
    ensures
        exists|i: int| 0 <= i < entries.len() && (#[trigger] entries[i]).0 == key,
    decreases entries.len(),
{
    if entries[0].0 != key {
        lemma_found_key_is_listed(entries.drop_first(), key);
        let i = choose|i: int|
            0 <= i < entries.drop_first().len() && (#[trigger] entries.drop_first()[i]).0 == key;
        assert(entries[i + 1].0 == key);
    }
}

proof fn lemma_member_follows_keys(
    default_style: Json,
    first: Json,
    second: Json,
    key: Seq<char>,
)
    requires
        forall|i: int|
            0 <= i < table(default_style).len() ==> lookup(
                table(first),
                (#[trigger] table(default_style)[i]).0,
            ) == lookup(table(second), table(default_style)[i].0),
        lookup(table(default_style), key) is Some,
    ensures
        member(first, key) == member(second, key),
{
    lemma_found_key_is_listed(table(default_style), key);
}

/// The default style is the schema. Two override styles that hold the same
/// under every top-level key of the default style resolve to the same
/// declarations: a key that only the override holds never shows, and that
/// goes for players and syntax too where the default has none.
pub proof fn lemma_resolve_ignores_foreign_keys(default_style: Json, first: Json, second: Json)
    requires
        forall|i: int|
            0 <= i < table(default_style).len() ==> lookup(
                table(first),
                (#[trigger] table(default_style)[i]).0,
            ) == lookup(table(second), table(default_style)[i].0),
    ensures
        resolve(default_style, first) == resolve(default_style, second),
{
    lemma_cascade_ignores_foreign_keys(
        Seq::empty(),
        table(default_style),
        table(first),
        table(second),
        true,
    );
    if lookup(table(default_style), "players"@) is Some {
        lemma_member_follows_keys(default_style, first, second, "players"@);
    } else {
        lemma_players_follow_default(Seq::empty(), list(member(first, "players"@)));
        lemma_players_follow_default(Seq::empty(), list(member(second, "players"@)));
    }
    if lookup(table(default_style), "syntax"@) is Some {
        lemma_member_follows_keys(default_style, first, second, "syntax"@);
    }
}

proof fn lemma_players_upto_stops(default_players: Seq<Json>, override_players: Seq<Json>, n: nat)
    requires
        n >= default_players.len(),
    ensures
        players_upto(default_players, override_players, n) == players_upto(
            default_players,
            override_players,
            default_players.len(),
        ),
    decreases n,
{
    if n > default_players.len() {
        lemma_players_upto_stops(default_players, override_players, (n - 1) as nat);
    }
}

/// Players follow the default. A slot beyond the last player of the default
/// gives nothing, however many players the override lists: the declarations
/// of the players are those of the default's slots.
pub proof fn lemma_players_follow_default(default_players: Seq<Json>, override_players: Seq<Json>)
    ensures
        players_pass(default_players, override_players) == players_upto(
            default_players,
            override_players,
            default_players.len(),
        ),
{
    lemma_players_upto_stops(
        default_players,
        override_players,
        player_slots(default_players, override_players),
    );
}

/// A syntax category is taken whole. Where the override holds the category,
/// its value stands in for the default's, whatever either holds: a mapping
/// gives the declarations of its own keys, and anything else gives none, so
/// that nothing of the default's category shows.
pub proof fn lemma_syntax_category_is_taken_whole(
    entry: (Seq<char>, Json),
    overrides: Seq<(Seq<char>, Json)>,
    winner: Json,
)
    requires
        lookup(overrides, entry.0) == Some(winner),
    ensures
        syntax_entry(entry, overrides) == syntax_entry((entry.0, winner), Seq::empty()),
        winner is Table ==> syntax_entry(entry, overrides) == cascade(
            syntax_prefix(entry.0),
            table(winner),
            Seq::empty(),
            false,
        ),
        !(winner is Table) ==> syntax_entry(entry, overrides) == Seq::<Declaration>::empty(),
{
}

/// A style that is no mapping counts as an empty one. Without a default
/// mapping nothing is declared, whatever the override holds, and an
/// override that is no mapping changes nothing of what the default declares.
pub proof fn lemma_malformed_style_counts_as_empty(default_style: Json, override_style: Json)
    ensures
        !(default_style is Table) ==> resolve(default_style, override_style).len() == 0,
        !(override_style is Table) ==> resolve(default_style, override_style) == resolve(
            default_style,
            Json::Table(Seq::empty()),
        ),
{
    if !(default_style is Table) {
        lemma_players_follow_default(
            Seq::empty(),
            list(member(override_style, "players"@)),
        );
    }
}

} // verus!
