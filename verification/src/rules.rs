//! Field rules and the small text transformations shared by the layouts.
use vstd::prelude::*;

use crate::document::{FieldAction, FieldRule};
use crate::text::{
    chars_of, chars_of_string, contains_char, contains_char_chars, copy_chars, digits, is_blank,
    is_blank_chars, only_digits_chars, opt_or_empty, opt_text_or_empty, replace, replace_chars,
    slice_chars, squash_ws, squash_ws_chars, str_eq, str_to_string, string_of, take_chars,
    trim, trim_chars, upper_seq,
};

verus! {

/// What a string rule makes of the source text.
pub open spec fn string_rule(source: Seq<char>, rule: FieldRule) -> Seq<char> {
    match rule.action {
        FieldAction::Source => source,
        FieldAction::Zero => seq!['0'],
        FieldAction::Empty | FieldAction::Ignore => seq![],
        FieldAction::Constant => opt_or_empty(rule.value),
    }
}

/// The texts that a constant rule reads as "true".
pub open spec fn is_true_text(s: Seq<char>) -> bool {
    s == "1"@ || s == "true"@ || s == "TRUE"@ || s == "S"@ || s == "s"@
}

/// What a boolean rule makes of the source flag.
pub open spec fn bool_rule(source: bool, rule: FieldRule) -> bool {
    match rule.action {
        FieldAction::Source => source,
        FieldAction::Zero | FieldAction::Empty | FieldAction::Ignore => false,
        FieldAction::Constant => match rule.value {
            Some(v) => is_true_text(v@),
            None => false,
        },
    }
}

/// Applies a string rule.
pub fn apply_string_rule(source: &str, rule: &FieldRule) -> (r: Vec<char>)
    ensures
        r@ == string_rule(source@, *rule),
{
    match rule.action {
        FieldAction::Source => chars_of(source),
        FieldAction::Zero => {
            let mut v: Vec<char> = Vec::new();
            v.push('0');
            proof {
                assert(v@ =~= seq!['0']);
            }
            v
        },
        FieldAction::Empty | FieldAction::Ignore => Vec::new(),
        FieldAction::Constant => {
            let s = opt_text_or_empty(&rule.value);
            chars_of_string(&s)
        },
    }
}

/// Applies a boolean rule.
pub fn apply_bool_rule(source: bool, rule: &FieldRule) -> (r: bool)
    ensures
        r == bool_rule(source, *rule),
{
    match rule.action {
        FieldAction::Source => source,
        FieldAction::Zero | FieldAction::Empty | FieldAction::Ignore => false,
        FieldAction::Constant => match &rule.value {
            Some(v) => {
                let s = v.as_str();
                str_eq(s, "1") || str_eq(s, "true") || str_eq(s, "TRUE") || str_eq(s, "S")
                    || str_eq(s, "s")
            },
            None => false,
        },
    }
}

/// Whether the observation goes to an extended `*OBS` line: never when
/// blank; otherwise as the mode says, or when longer than 40 characters.
pub open spec fn emits_obs(obs: Seq<char>, mode: Seq<char>) -> bool {
    if is_blank(obs) {
        false
    } else if mode == "always"@ {
        true
    } else if mode == "never"@ {
        false
    } else {
        obs.len() > 40
    }
}

pub fn should_emit_obs(obs: &Vec<char>, mode: &str) -> (r: bool)
    ensures
        r == emits_obs(obs@, mode@),
{
    if is_blank_chars(obs) {
        return false;
    }
    if str_eq(mode, "always") {
        true
    } else if str_eq(mode, "never") {
        false
    } else {
        obs.len() > 40
    }
}

/// Line breaks (`\r\n`, `\n`, `\r`) turned into spaces, then trimmed.
pub open spec fn obs_line_text(v: Seq<char>) -> Seq<char> {
    trim(replace(replace(replace(v, "\r\n"@, " "@), "\n"@, " "@), "\r"@, " "@))
}

pub fn sanitize_obs_line(value: &Vec<char>) -> (r: Vec<char>)
    ensures
        r@ == obs_line_text(value@),
{
    proof {
        reveal_strlit("\r\n");
        reveal_strlit("\n");
        reveal_strlit("\r");
    }
    let crlf = chars_of("\r\n");
    let lf = chars_of("\n");
    let cr = chars_of("\r");
    let sp = chars_of(" ");
    let a = replace_chars(value, &crlf, &sp);
    let b = replace_chars(&a, &lf, &sp);
    let c = replace_chars(&b, &cr, &sp);
    trim_chars(&c)
}

/// The ASCII digits of `v`, keeping only the last `size` of them.
pub open spec fn fit_left(v: Seq<char>, size: int) -> Seq<char> {
    let d = digits(v);
    if d.len() >= size {
        d.skip(d.len() - size)
    } else {
        d
    }
}

pub fn fit_left_chars(value: &Vec<char>, size: usize) -> (r: Vec<char>)
    ensures
        r@ == fit_left(value@, size as int),
{
    let d = only_digits_chars(value);
    if d.len() >= size {
        slice_chars(&d, d.len() - size, d.len())
    } else {
        d
    }
}

/// Date as `DDMMAA`, read from `AAAA-MM-DD` (with a dash) or `DDMMAAAA`.
pub open spec fn ddmmaa(v: Seq<char>) -> Seq<char> {
    let d = digits(v);
    if d.len() >= 8 {
        if contains_char(v, '-') {
            d.subrange(6, 8) + d.subrange(4, 6) + d.subrange(2, 4)
        } else {
            d.subrange(0, 2) + d.subrange(2, 4) + d.subrange(6, 8)
        }
    } else {
        seq![]
    }
}

/// Date as `DDMMAAAA`, read from `AAAA-MM-DD` (with a dash) or `DDMMAAAA`.
pub open spec fn ddmmaaaa(v: Seq<char>) -> Seq<char> {
    let d = digits(v);
    if d.len() >= 8 {
        if contains_char(v, '-') {
            d.subrange(6, 8) + d.subrange(4, 6) + d.subrange(0, 4)
        } else {
            d.subrange(0, 2) + d.subrange(2, 4) + d.subrange(4, 8)
        }
    } else {
        seq![]
    }
}

pub fn ddmmaa_chars(value: &Vec<char>) -> (r: Vec<char>)
    ensures
        r@ == ddmmaa(value@),
{
    let d = only_digits_chars(value);
    if d.len() >= 8 {
        if contains_char_chars(value, '-') {
            let a = slice_chars(&d, 6, 8);
            let b = slice_chars(&d, 4, 6);
            let c = slice_chars(&d, 2, 4);
            let mut out = copy_chars(&a);
            crate::text::append_chars(&mut out, &b);
            crate::text::append_chars(&mut out, &c);
            out
        } else {
            let a = slice_chars(&d, 0, 2);
            let b = slice_chars(&d, 2, 4);
            let c = slice_chars(&d, 6, 8);
            let mut out = copy_chars(&a);
            crate::text::append_chars(&mut out, &b);
            crate::text::append_chars(&mut out, &c);
            out
        }
    } else {
        Vec::new()
    }
}

pub fn ddmmaaaa_chars(value: &Vec<char>) -> (r: Vec<char>)
    ensures
        r@ == ddmmaaaa(value@),
{
    let d = only_digits_chars(value);
    if d.len() >= 8 {
        if contains_char_chars(value, '-') {
            let a = slice_chars(&d, 6, 8);
            let b = slice_chars(&d, 4, 6);
            let c = slice_chars(&d, 0, 4);
            let mut out = copy_chars(&a);
            crate::text::append_chars(&mut out, &b);
            crate::text::append_chars(&mut out, &c);
            out
        } else {
            let a = slice_chars(&d, 0, 2);
            let b = slice_chars(&d, 2, 4);
            let c = slice_chars(&d, 4, 8);
            let mut out = copy_chars(&a);
            crate::text::append_chars(&mut out, &b);
            crate::text::append_chars(&mut out, &c);
            out
        }
    } else {
        Vec::new()
    }
}

/// The first text that is not blank, or the empty text.
pub open spec fn first_non_blank(values: Seq<Seq<char>>) -> Seq<char>
    decreases values.len(),
{
    if values.len() == 0 {
        seq![]
    } else if !is_blank(values[0]) {
        values[0]
    } else {
        first_non_blank(values.drop_first())
    }
}

/// The first of two texts that is not blank, or the empty text.
pub open spec fn first_of_two(a: Seq<char>, b: Seq<char>) -> Seq<char> {
    if !is_blank(a) {
        a
    } else if !is_blank(b) {
        b
    } else {
        seq![]
    }
}

pub fn first_non_empty_of_two(a: &Vec<char>, b: &Vec<char>) -> (r: Vec<char>)
    ensures
        r@ == first_of_two(a@, b@),
        r@ == first_non_blank(seq![a@, b@]),
{
    proof {
        let vs = seq![a@, b@];
        assert(vs.drop_first() =~= seq![b@]);
        assert(vs.drop_first().drop_first() =~= Seq::<Seq<char>>::empty());
        reveal_with_fuel(first_non_blank, 3);
        assert(vs[0] == a@ && vs[1] == b@);
    }
    if !is_blank_chars(a) {
        copy_chars(a)
    } else if !is_blank_chars(b) {
        copy_chars(b)
    } else {
        Vec::new()
    }
}

/// The first text that is not blank, or the empty text.
pub fn first_non_empty(values: &Vec<String>) -> (r: String)
    ensures
        r@ == first_non_blank(values@.map_values(|s: String| s@)),
{
    let ghost vs = values@.map_values(|s: String| s@);
    let mut i: usize = 0;
    proof {
        assert(vs.skip(0) =~= vs);
    }
    while i < values.len()
        invariant
            i <= values@.len(),
            vs == values@.map_values(|s: String| s@),
            first_non_blank(vs) == first_non_blank(vs.skip(i as int)),
        decreases values@.len() - i,
    {
        proof {
            assert(vs.skip(i as int)[0] == values@[i as int]@);
            assert(vs.skip(i as int).drop_first() =~= vs.skip(i + 1));
        }
        let v = chars_of_string(&values[i]);
        if !is_blank_chars(&v) {
            return values[i].clone();
        }
        i = i + 1;
    }
    String::new()
}

/// White space collapsed to single spaces (`sanitize_text` before
/// upper-casing).
pub fn squash_spaces(value: &Vec<char>) -> (r: Vec<char>)
    ensures
        r@ == squash_ws(value@),
{
    squash_ws_chars(value)
}

} // verus!

verus! {

/// Accented Latin letters folded to their ASCII base letter; other
/// non-ASCII characters become a space.
pub open spec fn ascii_fold(c: char) -> char {
    if c == '\u{e1}' || c == '\u{e0}' || c == '\u{e3}' || c == '\u{e2}' || c == '\u{e4}' || c
        == '\u{c1}' || c == '\u{c0}' || c == '\u{c3}' || c == '\u{c2}' || c == '\u{c4}' {
        'A'
    } else if c == '\u{e9}' || c == '\u{e8}' || c == '\u{ea}' || c == '\u{eb}' || c == '\u{c9}'
        || c == '\u{c8}' || c == '\u{ca}' || c == '\u{cb}' {
        'E'
    } else if c == '\u{ed}' || c == '\u{ec}' || c == '\u{ee}' || c == '\u{ef}' || c == '\u{cd}'
        || c == '\u{cc}' || c == '\u{ce}' || c == '\u{cf}' {
        'I'
    } else if c == '\u{f3}' || c == '\u{f2}' || c == '\u{f5}' || c == '\u{f4}' || c == '\u{f6}'
        || c == '\u{d3}' || c == '\u{d2}' || c == '\u{d5}' || c == '\u{d4}' || c == '\u{d6}' {
        'O'
    } else if c == '\u{fa}' || c == '\u{f9}' || c == '\u{fb}' || c == '\u{fc}' || c == '\u{da}'
        || c == '\u{d9}' || c == '\u{db}' || c == '\u{dc}' {
        'U'
    } else if c == '\u{e7}' || c == '\u{c7}' {
        'C'
    } else if c == '\u{f1}' || c == '\u{d1}' {
        'N'
    } else if (c as int) < 128 {
        c
    } else {
        ' '
    }
}

pub open spec fn ascii_fold_seq(s: Seq<char>) -> Seq<char> {
    s.map_values(|c: char| ascii_fold(c))
}

pub fn ascii_fold_char(c: char) -> (r: char)
    ensures
        r == ascii_fold(c),
{
    if c == '\u{e1}' || c == '\u{e0}' || c == '\u{e3}' || c == '\u{e2}' || c == '\u{e4}' || c
        == '\u{c1}' || c == '\u{c0}' || c == '\u{c3}' || c == '\u{c2}' || c == '\u{c4}' {
        'A'
    } else if c == '\u{e9}' || c == '\u{e8}' || c == '\u{ea}' || c == '\u{eb}' || c == '\u{c9}'
        || c == '\u{c8}' || c == '\u{ca}' || c == '\u{cb}' {
        'E'
    } else if c == '\u{ed}' || c == '\u{ec}' || c == '\u{ee}' || c == '\u{ef}' || c == '\u{cd}'
        || c == '\u{cc}' || c == '\u{ce}' || c == '\u{cf}' {
        'I'
    } else if c == '\u{f3}' || c == '\u{f2}' || c == '\u{f5}' || c == '\u{f4}' || c == '\u{f6}'
        || c == '\u{d3}' || c == '\u{d2}' || c == '\u{d5}' || c == '\u{d4}' || c == '\u{d6}' {
        'O'
    } else if c == '\u{fa}' || c == '\u{f9}' || c == '\u{fb}' || c == '\u{fc}' || c == '\u{da}'
        || c == '\u{d9}' || c == '\u{db}' || c == '\u{dc}' {
        'U'
    } else if c == '\u{e7}' || c == '\u{c7}' {
        'C'
    } else if c == '\u{f1}' || c == '\u{d1}' {
        'N'
    } else if (c as u32) < 128 {
        c
    } else {
        ' '
    }
}

/// `sanitize_ascii`: every character folded to ASCII.
pub fn sanitize_ascii(value: &Vec<char>) -> (r: Vec<char>)
    ensures
        r@ == ascii_fold_seq(value@),
{
    let mut out: Vec<char> = Vec::new();
    for i in 0..value.len()
        invariant
            out@ == ascii_fold_seq(value@.take(i as int)),
    {
        out.push(ascii_fold_char(value[i]));
        proof {
            assert(ascii_fold_seq(value@.take(i + 1)) =~= ascii_fold_seq(value@.take(i as int)).push(
                ascii_fold(value@[i as int]),
            ));
        }
    }
    proof {
        assert(value@.take(value@.len() as int) =~= value@);
    }
    out
}

/// Folded to ASCII, white space collapsed, upper-cased.  The text is
/// ASCII once folded, so Unicode upper-casing is ASCII upper-casing here.
pub open spec fn text_ascii(v: Seq<char>) -> Seq<char> {
    upper_seq(squash_ws(ascii_fold_seq(v)))
}

pub fn sanitize_text_ascii(value: &Vec<char>) -> (r: Vec<char>)
    ensures
        r@ == text_ascii(value@),
{
    let a = sanitize_ascii(value);
    let s = squash_ws_chars(&a);
    crate::text::upper_chars(&s)
}

/// Folded to ASCII, line breaks turned to spaces, white space collapsed.
pub open spec fn obs_line_ascii(v: Seq<char>) -> Seq<char> {
    trim(
        squash_ws(
            replace(
                replace(replace(ascii_fold_seq(v), "\r\n"@, " "@), "\n"@, " "@),
                "\r"@,
                " "@,
            ),
        ),
    )
}

pub fn sanitize_obs_line_ascii(value: &Vec<char>) -> (r: Vec<char>)
    ensures
        r@ == obs_line_ascii(value@),
{
    proof {
        reveal_strlit("\r\n");
        reveal_strlit("\n");
        reveal_strlit("\r");
    }
    let folded = sanitize_ascii(value);
    let crlf = chars_of("\r\n");
    let lf = chars_of("\n");
    let cr = chars_of("\r");
    let sp = chars_of(" ");
    let a = replace_chars(&folded, &crlf, &sp);
    let b = replace_chars(&a, &lf, &sp);
    let c = replace_chars(&b, &cr, &sp);
    let d = squash_ws_chars(&c);
    trim_chars(&d)
}

} // verus!
