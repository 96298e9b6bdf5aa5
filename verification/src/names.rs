//! Canonical names: lowercase words joined by single underscores.
//!
//! `to_snake_case` turns an identifier-like string (`fooBar`, `Night Owl`)
//! into the token used for CSS variable names and file names. The classes
//! of ASCII characters are spelled out here; those of all other characters
//! are the ones of Unicode, as the standard library reports them.

use crate::text::string_from_chars;
use vstd::prelude::*;

verus! {

/// The character that joins the words of a canonical name.
pub const SEPARATOR: char = '_';

/// Whether `c` has the Unicode `Uppercase` property, as `char::is_uppercase` reports it.
pub uninterp spec fn char_is_uppercase(c: char) -> bool;

/// Whether `c` has the Unicode `Lowercase` property, as `char::is_lowercase` reports it.
pub uninterp spec fn char_is_lowercase(c: char) -> bool;

/// Whether `c` is alphabetic or numeric, as `char::is_alphanumeric` reports it.
pub uninterp spec fn char_is_alphanumeric(c: char) -> bool;

/// The characters that `char::to_lowercase` yields for `c`, in order.
pub uninterp spec fn char_lowercase(c: char) -> Seq<char>;

/// `char::is_uppercase` consults the Unicode tables; its answer is only named here.
pub assume_specification[ char::is_uppercase ](c: char) -> (r: bool)
    ensures
        r == char_is_uppercase(c),
;

/// `char::is_lowercase` consults the Unicode tables; its answer is only named here.
pub assume_specification[ char::is_lowercase ](c: char) -> (r: bool)
    ensures
        r == char_is_lowercase(c),
;

/// `char::is_alphanumeric` consults the Unicode tables; its answer is only named here.
pub assume_specification[ char::is_alphanumeric ](c: char) -> (r: bool)
    ensures
        r == char_is_alphanumeric(c),
;

/// Collects what `char::to_lowercase` yields for `c`: the lowercase mapping of
/// the Unicode tables, one or more characters. Only named here.
#[verifier::external_body]
fn lowercase_chars(c: char) -> (r: Vec<char>)
    ensures
        r@ == char_lowercase(c),
{
    c.to_lowercase().collect()
}

/// `c` with the ASCII capitals `A` to `Z` mapped to `a` to `z`.
pub open spec fn ascii_lowercase(c: char) -> char {
    if 'A' <= c && c <= 'Z' {
        ((c as u8) + 32) as char
    } else {
        c
    }
}

/// Whether `c` is an ASCII character.
pub open spec fn is_ascii_char(c: char) -> bool {
    c <= '\u{7f}'
}

/// Whether `c` is uppercase: among ASCII characters the capitals `A` to `Z`.
pub open spec fn is_uppercase(c: char) -> bool {
    if is_ascii_char(c) {
        'A' <= c && c <= 'Z'
    } else {
        char_is_uppercase(c)
    }
}

/// Whether `c` is lowercase: among ASCII characters the letters `a` to `z`.
pub open spec fn is_lowercase(c: char) -> bool {
    if is_ascii_char(c) {
        'a' <= c && c <= 'z'
    } else {
        char_is_lowercase(c)
    }
}

/// Whether `c` is a letter or a digit: among ASCII characters `A` to `Z`,
/// `a` to `z` and `0` to `9`.
pub open spec fn is_alphanumeric(c: char) -> bool {
    if is_ascii_char(c) {
        ('A' <= c && c <= 'Z') || ('a' <= c && c <= 'z') || ('0' <= c && c <= '9')
    } else {
        char_is_alphanumeric(c)
    }
}

/// The lowercase form of `c`: for an ASCII character its ASCII lowering.
pub open spec fn lowercase(c: char) -> Seq<char> {
    if is_ascii_char(c) {
        seq![ascii_lowercase(c)]
    } else {
        char_lowercase(c)
    }
}

/// `out` with `c` appended, except that a separator never follows a separator.
pub open spec fn emit(out: Seq<char>, c: char) -> Seq<char> {
    if c == SEPARATOR && out.len() > 0 && out.last() == SEPARATOR {
        out
    } else {
        out.push(c)
    }
}

/// `out` with the characters of `cs` emitted one after the other.
pub open spec fn emit_all(out: Seq<char>, cs: Seq<char>) -> Seq<char>
    decreases cs.len(),
{
    if cs.len() == 0 {
        out
    } else {
        emit(emit_all(out, cs.drop_last()), cs.last())
    }
}

/// What one input character contributes, given its character classes.
///
/// An uppercase character contributes its lowercase form, after a separator
/// when it opens a new word (`boundary`); any other alphanumeric character
/// contributes itself, ASCII capitals lowered; everything else contributes a
/// separator.
pub open spec fn piece(
    c: char,
    uppercase: bool,
    alphanumeric: bool,
    lowered: Seq<char>,
    boundary: bool,
) -> Seq<char> {
    if uppercase {
        if boundary {
            seq![SEPARATOR] + lowered
        } else {
            lowered
        }
    } else if alphanumeric {
        seq![ascii_lowercase(c)]
    } else {
        seq![SEPARATOR]
    }
}

/// What the character at `i` contributes to the canonical form of `s`: a
/// word boundary lies before it when the character before it is lowercase.
pub open spec fn contribution(s: Seq<char>, i: int) -> Seq<char> {
    piece(
        s[i],
        is_uppercase(s[i]),
        is_alphanumeric(s[i]),
        lowercase(s[i]),
        i > 0 && is_lowercase(s[i - 1]),
    )
}

/// The output after the first `n` characters of `s`, trailing separators included.
pub open spec fn scan(s: Seq<char>, n: nat) -> Seq<char>
    decreases n,
{
    if n == 0 {
        Seq::empty()
    } else {
        emit_all(scan(s, (n - 1) as nat), contribution(s, n - 1))
    }
}

/// `t` without its trailing separators.
pub open spec fn trim_separators(t: Seq<char>) -> Seq<char>
    decreases t.len(),
{
    if t.len() > 0 && t.last() == SEPARATOR {
        trim_separators(t.drop_last())
    } else {
        t
    }
}

/// The canonical form of `s`.
pub open spec fn normalize(s: Seq<char>) -> Seq<char> {
    trim_separators(scan(s, s.len()))
}

/// No two separators stand side by side in `t`.
pub open spec fn no_doubled_separator(t: Seq<char>) -> bool {
    forall|i: int| 0 <= i < t.len() - 1 ==> !(t[i] == SEPARATOR && #[trigger] t[i + 1] == SEPARATOR)
}

/// `t` does not end in a separator.
pub open spec fn no_trailing_separator(t: Seq<char>) -> bool {
    t.len() == 0 || t.last() != SEPARATOR
}

/// Every character of `t` stands for itself: read as input, the character
/// at each place contributes exactly itself.
pub open spec fn settled(t: Seq<char>) -> bool {
    forall|i: int| 0 <= i < t.len() ==> #[trigger] contribution(t, i) == seq![t[i]]
}

/// A character that is handed on as it is, wherever it stands:
/// the separator, or an alphanumeric character that is not uppercase and no
/// ASCII capital.
pub open spec fn passes(c: char) -> bool {
    c == SEPARATOR || (!is_uppercase(c) && is_alphanumeric(c) && ascii_lowercase(c) == c)
}

/// Every character of `cs` passes.
pub open spec fn all_pass(cs: Seq<char>) -> bool {
    forall|i: int| 0 <= i < cs.len() ==> passes(#[trigger] cs[i])
}

/// What `c` is lowered to passes: the lowercase form of an uppercase
/// character, the ASCII lowering of any other alphanumeric character.
pub open spec fn lowers_well(c: char) -> bool {
    if is_uppercase(c) {
        all_pass(lowercase(c))
    } else if is_alphanumeric(c) {
        passes(ascii_lowercase(c))
    } else {
        true
    }
}

/// Every character of `s` is lowered to characters that pass.
pub open spec fn well_cased(s: Seq<char>) -> bool {
    forall|i: int| 0 <= i < s.len() ==> lowers_well(#[trigger] s[i])
}

/// Every character of `s` is an ASCII character.
pub open spec fn all_ascii(s: Seq<char>) -> bool {
    forall|i: int| 0 <= i < s.len() ==> is_ascii_char(#[trigger] s[i])
}

/// `c` with the ASCII capitals `A` to `Z` mapped to `a` to `z`.
pub fn to_ascii_lower(c: char) -> (r: char)
    ensures
        r == ascii_lowercase(c),
{
    if 'A' <= c && c <= 'Z' {
        let b: u8 = c as u8;
        (b + 32) as char
    } else {
        c
    }
}

/// Whether `c` is uppercase.
pub fn is_uppercase_char(c: char) -> (r: bool)
    ensures
        r == is_uppercase(c),
{
    if c <= '\u{7f}' {
        'A' <= c && c <= 'Z'
    } else {
        c.is_uppercase()
    }
}

/// Whether `c` is lowercase.
pub fn is_lowercase_char(c: char) -> (r: bool)
    ensures
        r == is_lowercase(c),
{
    if c <= '\u{7f}' {
        'a' <= c && c <= 'z'
    } else {
        c.is_lowercase()
    }
}

/// Whether `c` is a letter or a digit.
pub fn is_alphanumeric_char(c: char) -> (r: bool)
    ensures
        r == is_alphanumeric(c),
{
    if c <= '\u{7f}' {
        ('A' <= c && c <= 'Z') || ('a' <= c && c <= 'z') || ('0' <= c && c <= '9')
    } else {
        c.is_alphanumeric()
    }
}

/// The lowercase form of `c`, one or more characters.
pub fn lowercase_of(c: char) -> (r: Vec<char>)
    ensures
        r@ == lowercase(c),
{
    if c <= '\u{7f}' {
        let mut r: Vec<char> = Vec::new();
        r.push(to_ascii_lower(c));
        r
    } else {
        lowercase_chars(c)
    }
}

/// Emits `c` at the end of `out`: appended, unless it is a separator that
/// would follow a separator.
pub fn push_collapsed(out: &mut Vec<char>, c: char)
    ensures
        final(out)@ == emit(old(out)@, c),
{
    let n = out.len();
    if !(c == SEPARATOR && n > 0 && out[n - 1] == SEPARATOR) {
        out.push(c);
    }
}

/// Appends to `out` what the input character `c` contributes, given its
/// character classes: `uppercase`, `alphanumeric`, its lowercase form
/// `lowered` (read only for an uppercase character), and whether a word
/// boundary lies before it.
pub fn push_piece(
    out: &mut Vec<char>,
    c: char,
    uppercase: bool,
    alphanumeric: bool,
    lowered: &Vec<char>,
    boundary: bool,
)
    ensures
        final(out)@ == emit_all(old(out)@, piece(c, uppercase, alphanumeric, lowered@, boundary)),
{
    if uppercase {
        if boundary {
            push_collapsed(out, SEPARATOR);
        }
        let ghost start = out@;
        let mut i: usize = 0;
        while i < lowered.len()
            invariant
                i <= lowered.len(),
                out@ == emit_all(start, lowered@.take(i as int)),
            decreases lowered.len() - i,
        {
            push_collapsed(out, lowered[i]);
            assert(lowered@.take(i + 1).drop_last() =~= lowered@.take(i as int));
            i += 1;
        }
        assert(lowered@.take(lowered.len() as int) =~= lowered@);
        proof {
            if boundary {
                lemma_emit_all_after_one(old(out)@, SEPARATOR, lowered@);
            }
        }
    } else if alphanumeric {
        push_collapsed(out, to_ascii_lower(c));
        proof {
            lemma_emit_all_one(old(out)@, ascii_lowercase(c));
        }
    } else {
        push_collapsed(out, SEPARATOR);
        proof {
            lemma_emit_all_one(old(out)@, SEPARATOR);
        }
    }
}

/// Drops the separators at the end of `out`.
pub fn pop_trailing_separators(out: &mut Vec<char>)
    ensures
        final(out)@ == trim_separators(old(out)@),
{
    while out.len() > 0 && out[out.len() - 1] == SEPARATOR
        invariant
            trim_separators(out@) == trim_separators(old(out)@),
        decreases out.len(),
    {
        out.pop();
    }
}

/// The canonical form of `s`: lowercase words joined by single separators.
///
/// Camel-case boundaries become separators (`fooBar` gives `foo_bar`, while
/// `FOO` gives `foo`), characters that are neither letters nor digits become
/// separators, runs of separators are collapsed to one, and separators at the
/// end are dropped. Every string has a canonical form, possibly empty.
pub fn to_snake_case(s: &str) -> (r: String)
    ensures
        r@ == normalize(s@),
        no_doubled_separator(r@),
        no_trailing_separator(r@),
{
    let mut out: Vec<char> = Vec::new();
    let mut prev_lowercase = false;
    for c in it: s.chars()
        invariant
            it.seq() == s@,
            out@ == scan(s@, it.index() as nat),
            prev_lowercase == (it.index() > 0 && is_lowercase(s@[it.index() - 1])),
    {
        let uppercase = is_uppercase_char(c);
        let lowered = if uppercase {
            lowercase_of(c)
        } else {
            Vec::new()
        };
        push_piece(&mut out, c, uppercase, is_alphanumeric_char(c), &lowered, prev_lowercase);
        prev_lowercase = is_lowercase_char(c);
    }
    pop_trailing_separators(&mut out);
    proof {
        lemma_normalize_collapses_separators(s@);
    }
    string_from_chars(&out)
}

proof fn lemma_emit_all_one(out: Seq<char>, c: char)
    ensures
        emit_all(out, seq![c]) == emit(out, c),
{
    assert(seq![c].drop_last() =~= Seq::<char>::empty());
    assert(emit_all(out, Seq::<char>::empty()) == out);
}

proof fn lemma_emit_all_after_one(out: Seq<char>, c: char, cs: Seq<char>)
    ensures
        emit_all(out, seq![c] + cs) == emit_all(emit(out, c), cs),
    decreases cs.len(),
{
    if cs.len() == 0 {
        lemma_emit_all_one(out, c);
    } else {
        assert((seq![c] + cs).drop_last() =~= seq![c] + cs.drop_last());
        lemma_emit_all_after_one(out, c, cs.drop_last());
    }
}

proof fn lemma_emit_all_keeps_single(out: Seq<char>, cs: Seq<char>)
    requires
        no_doubled_separator(out),
    ensures
        no_doubled_separator(emit_all(out, cs)),
    decreases cs.len(),
{
    if cs.len() > 0 {
        lemma_emit_all_keeps_single(out, cs.drop_last());
    }
}

proof fn lemma_scan_single(s: Seq<char>, n: nat)
    ensures
        no_doubled_separator(scan(s, n)),
    decreases n,
{
    if n > 0 {
        lemma_scan_single(s, (n - 1) as nat);
        lemma_emit_all_keeps_single(scan(s, (n - 1) as nat), contribution(s, n - 1));
    }
}

proof fn lemma_trim(t: Seq<char>)
    requires
        no_doubled_separator(t),
    ensures
        no_doubled_separator(trim_separators(t)),
        no_trailing_separator(trim_separators(t)),
    decreases t.len(),
{
    if t.len() > 0 && t.last() == SEPARATOR {
        lemma_trim(t.drop_last());
    }
}

/// The canonical form never holds two separators side by side, and never
/// ends in one: runs of separators are collapsed and trailing ones dropped.
pub proof fn lemma_normalize_collapses_separators(s: Seq<char>)
    ensures
        no_doubled_separator(normalize(s)),
        no_trailing_separator(normalize(s)),
{
    lemma_scan_single(s, s.len());
    lemma_trim(scan(s, s.len()));
}

proof fn lemma_scan_of_settled(t: Seq<char>, n: nat)
    requires
        settled(t),
        no_doubled_separator(t),
        n <= t.len(),
    ensures
        scan(t, n) == t.take(n as int),
    decreases n,
{
    if n > 0 {
        lemma_scan_of_settled(t, (n - 1) as nat);
        lemma_emit_all_one(t.take(n - 1), t[n - 1]);
        if n >= 2 {
            assert(!(t[n - 2] == SEPARATOR && t[n - 2 + 1] == SEPARATOR));
        }
    }
}

/// Normalizing twice gives what normalizing once gives, whenever every
/// character of the canonical form stands for itself (`settled`).
///
/// Without that condition the law fails: a character whose lowercase form
/// holds a character that is not alphanumeric is rewritten by the second
/// pass, and so is a capital without a lowercase form that follows a letter.
/// Both take characters beyond ASCII: see `lemma_normalize_idempotent_on_ascii`.
pub proof fn lemma_normalize_idempotent(s: Seq<char>)
    requires
        settled(normalize(s)),
    ensures
        normalize(normalize(s)) == normalize(s),
{
    let t = normalize(s);
    lemma_normalize_collapses_separators(s);
    lemma_scan_of_settled(t, t.len());
}

proof fn lemma_emit_all_passes(out: Seq<char>, cs: Seq<char>)
    requires
        all_pass(out),
        all_pass(cs),
    ensures
        all_pass(emit_all(out, cs)),
    decreases cs.len(),
{
    if cs.len() > 0 {
        lemma_emit_all_passes(out, cs.drop_last());
    }
}

proof fn lemma_scan_passes(s: Seq<char>, n: nat)
    requires
        well_cased(s),
        n <= s.len(),
    ensures
        all_pass(scan(s, n)),
    decreases n,
{
    if n > 0 {
        lemma_scan_passes(s, (n - 1) as nat);
        lemma_emit_all_passes(scan(s, (n - 1) as nat), contribution(s, n - 1));
    }
}

proof fn lemma_trim_passes(t: Seq<char>)
    requires
        all_pass(t),
    ensures
        all_pass(trim_separators(t)),
    decreases t.len(),
{
    if t.len() > 0 && t.last() == SEPARATOR {
        lemma_trim_passes(t.drop_last());
    }
}

/// The canonical form of a well-cased string is settled, so that
/// normalizing it again changes nothing.
pub proof fn lemma_well_cased_is_settled(s: Seq<char>)
    requires
        well_cased(s),
    ensures
        settled(normalize(s)),
        normalize(normalize(s)) == normalize(s),
{
    lemma_scan_passes(s, s.len());
    lemma_trim_passes(scan(s, s.len()));
    lemma_normalize_idempotent(s);
}

/// Normalizing twice gives what normalizing once gives for every string of
/// ASCII characters.
pub proof fn lemma_normalize_idempotent_on_ascii(s: Seq<char>)
    requires
        all_ascii(s),
    ensures
        normalize(normalize(s)) == normalize(s),
{
    assert forall|i: int| 0 <= i < s.len() implies lowers_well(#[trigger] s[i]) by {
        assert(is_ascii_char(s[i]));
    }
    lemma_well_cased_is_settled(s);
}

} // verus!
