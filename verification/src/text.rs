//! Character-level text model shared by the parsers, mappers and exporters.
//!
//! Texts are modelled as `Seq<char>`; the executable helpers work on
//! `Vec<char>` and on `&str`/`String` through `chars_of` and `string_of`.
use vstd::prelude::*;
use vstd::std_specs::iter::IteratorSpec;

verus! {

broadcast use vstd::string::group_string_axioms;

// ---------------------------------------------------------------------------
// Character classes
// ---------------------------------------------------------------------------

pub open spec fn is_digit(c: char) -> bool {
    '0' <= c && c <= '9'
}

pub open spec fn is_upper(c: char) -> bool {
    'A' <= c && c <= 'Z'
}

pub open spec fn is_lower(c: char) -> bool {
    'a' <= c && c <= 'z'
}

pub open spec fn is_alpha(c: char) -> bool {
    is_upper(c) || is_lower(c)
}

pub open spec fn is_alnum(c: char) -> bool {
    is_digit(c) || is_alpha(c)
}

pub open spec fn is_ascii(c: char) -> bool {
    (c as int) < 128
}

/// The Unicode `White_Space` property, which is what `char::is_whitespace`
/// (and therefore `str::trim` and `str::split_whitespace`) tests.
pub open spec fn is_ws(c: char) -> bool {
    ||| ('\u{9}' <= c && c <= '\u{d}')
    ||| c == ' '
    ||| c == '\u{85}'
    ||| c == '\u{a0}'
    ||| c == '\u{1680}'
    ||| ('\u{2000}' <= c && c <= '\u{200a}')
    ||| c == '\u{2028}'
    ||| c == '\u{2029}'
    ||| c == '\u{202f}'
    ||| c == '\u{205f}'
    ||| c == '\u{3000}'
}

pub open spec fn upper_of(c: char) -> char {
    if is_lower(c) {
        ((c as int) - 32) as char
    } else {
        c
    }
}

pub open spec fn lower_of(c: char) -> char {
    if is_upper(c) {
        ((c as int) + 32) as char
    } else {
        c
    }
}

pub open spec fn upper_seq(s: Seq<char>) -> Seq<char> {
    s.map_values(|c: char| upper_of(c))
}

pub open spec fn lower_seq(s: Seq<char>) -> Seq<char> {
    s.map_values(|c: char| lower_of(c))
}

/// Number of bytes of the UTF-8 encoding of a character.
pub open spec fn utf8_width(c: char) -> nat {
    if (c as int) < 0x80 {
        1
    } else if (c as int) < 0x800 {
        2
    } else if (c as int) < 0x10000 {
        3
    } else {
        4
    }
}

/// Number of bytes of the UTF-8 encoding of a text (what `str::len` returns).
pub open spec fn utf8_len(s: Seq<char>) -> nat
    decreases s.len(),
{
    if s.len() == 0 {
        0
    } else {
        utf8_len(s.drop_last()) + utf8_width(s.last())
    }
}

pub fn is_digit_char(c: char) -> (r: bool)
    ensures
        r == is_digit(c),
{
    c >= '0' && c <= '9'
}

pub fn is_alnum_char(c: char) -> (r: bool)
    ensures
        r == is_alnum(c),
{
    (c >= '0' && c <= '9') || (c >= 'A' && c <= 'Z') || (c >= 'a' && c <= 'z')
}

pub fn is_alpha_char(c: char) -> (r: bool)
    ensures
        r == is_alpha(c),
{
    (c >= 'A' && c <= 'Z') || (c >= 'a' && c <= 'z')
}

pub fn is_ws_char(c: char) -> (r: bool)
    ensures
        r == is_ws(c),
{
    (c >= '\u{9}' && c <= '\u{d}') || c == ' ' || c == '\u{85}' || c == '\u{a0}' || c
        == '\u{1680}' || (c >= '\u{2000}' && c <= '\u{200a}') || c == '\u{2028}' || c
        == '\u{2029}' || c == '\u{202f}' || c == '\u{205f}' || c == '\u{3000}'
}

pub fn upper_char(c: char) -> (r: char)
    ensures
        r == upper_of(c),
{
    if c >= 'a' && c <= 'z' {
        (((c as u32) - 32) as u8) as char
    } else {
        c
    }
}

pub fn lower_char(c: char) -> (r: char)
    ensures
        r == lower_of(c),
{
    if c >= 'A' && c <= 'Z' {
        (((c as u32) + 32) as u8) as char
    } else {
        c
    }
}

pub fn utf8_width_of(c: char) -> (r: usize)
    ensures
        r == utf8_width(c),
{
    if (c as u32) < 0x80 {
        1
    } else if (c as u32) < 0x800 {
        2
    } else if (c as u32) < 0x10000 {
        3
    } else {
        4
    }
}

// ---------------------------------------------------------------------------
// Conversions between `&str` / `String` and `Vec<char>`
// ---------------------------------------------------------------------------

pub fn chars_of(s: &str) -> (r: Vec<char>)
    ensures
        r@ == s@,
{
    let mut it = s.chars();
    let mut out: Vec<char> = Vec::new();
    loop
        invariant
            it.remaining() == s@.skip(out@.len() as int),
            out@ == s@.take(out@.len() as int),
            out@.len() <= s@.len(),
        ensures
            out@ == s@,
        decreases s@.len() - out@.len(),
    {
        match it.next() {
            Some(c) => {
                proof {
                    assert(s@.skip(out@.len() as int).len() > 0);
                }
                out.push(c);
                proof {
                    assert(s@.take(out@.len() as int) =~= s@.take(out@.len() - 1).push(c));
                    assert(s@.skip(out@.len() as int) =~= s@.skip(out@.len() - 1).drop_first());
                }
            },
            None => {
                proof {
                    assert(out@ =~= s@);
                }
                break ;
            },
        }
    }
    out
}

/// `String::push`.
#[verifier::external_body]
pub fn push_char(s: &mut String, c: char)
    ensures
        final(s)@ == old(s)@.push(c),
{
    s.push(c);
}

pub fn string_of(v: &Vec<char>) -> (r: String)
    ensures
        r@ == v@,
{
    let mut s = String::new();
    for i in 0..v.len()
        invariant
            s@ == v@.take(i as int),
    {
        push_char(&mut s, v[i]);
        proof {
            assert(v@.take(i + 1) =~= v@.take(i as int).push(v@[i as int]));
        }
    }
    proof {
        assert(v@.take(v.len() as int) =~= v@);
    }
    s
}

pub fn str_to_string(s: &str) -> (r: String)
    ensures
        r@ == s@,
{
    let v = chars_of(s);
    string_of(&v)
}

pub fn copy_string(s: &String) -> (r: String)
    ensures
        r@ == s@,
{
    s.clone()
}

pub fn chars_of_string(s: &String) -> (r: Vec<char>)
    ensures
        r@ == s@,
{
    chars_of(s.as_str())
}

pub fn copy_chars(v: &Vec<char>) -> (r: Vec<char>)
    ensures
        r@ == v@,
{
    let mut out: Vec<char> = Vec::new();
    for i in 0..v.len()
        invariant
            out@ == v@.take(i as int),
    {
        out.push(v[i]);
        proof {
            assert(v@.take(i + 1) =~= v@.take(i as int).push(v@[i as int]));
        }
    }
    proof {
        assert(v@.take(v.len() as int) =~= v@);
    }
    out
}

pub fn concat_chars(a: &Vec<char>, b: &Vec<char>) -> (r: Vec<char>)
    ensures
        r@ == a@ + b@,
{
    let mut out = copy_chars(a);
    for i in 0..b.len()
        invariant
            out@ == a@ + b@.take(i as int),
    {
        out.push(b[i]);
        proof {
            assert(b@.take(i + 1) =~= b@.take(i as int).push(b@[i as int]));
        }
    }
    proof {
        assert(b@.take(b.len() as int) =~= b@);
    }
    out
}

pub fn append_chars(out: &mut Vec<char>, b: &Vec<char>)
    ensures
        final(out)@ == old(out)@ + b@,
{
    let ghost start = out@;
    for i in 0..b.len()
        invariant
            out@ == start + b@.take(i as int),
    {
        out.push(b[i]);
        proof {
            assert(b@.take(i + 1) =~= b@.take(i as int).push(b@[i as int]));
        }
    }
    proof {
        assert(b@.take(b.len() as int) =~= b@);
    }
}

pub fn append_str(out: &mut Vec<char>, s: &str)
    ensures
        final(out)@ == old(out)@ + s@,
{
    let v = chars_of(s);
    append_chars(out, &v);
}

pub fn chars_eq(a: &Vec<char>, b: &Vec<char>) -> (r: bool)
    ensures
        r == (a@ == b@),
{
    if a.len() != b.len() {
        return false;
    }
    let mut i: usize = 0;
    while i < a.len()
        invariant
            a@.len() == b@.len(),
            i <= a@.len(),
            forall|k: int| 0 <= k < i ==> a@[k] == b@[k],
        decreases a@.len() - i,
    {
        if a[i] != b[i] {
            return false;
        }
        i = i + 1;
    }
    proof {
        assert(a@ =~= b@);
    }
    true
}

pub fn str_eq(a: &str, b: &str) -> (r: bool)
    ensures
        r == (a@ == b@),
{
    let va = chars_of(a);
    let vb = chars_of(b);
    chars_eq(&va, &vb)
}

// ---------------------------------------------------------------------------
// Filters and maps
// ---------------------------------------------------------------------------

/// The ASCII decimal digits of `s`, in order.
pub open spec fn digits(s: Seq<char>) -> Seq<char>
    decreases s.len(),
{
    if s.len() == 0 {
        seq![]
    } else if is_digit(s.last()) {
        digits(s.drop_last()).push(s.last())
    } else {
        digits(s.drop_last())
    }
}

/// The ASCII letters and digits of `s`, in order, upper-cased.
pub open spec fn alnum_upper(s: Seq<char>) -> Seq<char>
    decreases s.len(),
{
    if s.len() == 0 {
        seq![]
    } else if is_alnum(s.last()) {
        alnum_upper(s.drop_last()).push(upper_of(s.last()))
    } else {
        alnum_upper(s.drop_last())
    }
}

/// The ASCII letters and digits of `s`, in order.
pub open spec fn alnum(s: Seq<char>) -> Seq<char>
    decreases s.len(),
{
    if s.len() == 0 {
        seq![]
    } else if is_alnum(s.last()) {
        alnum(s.drop_last()).push(s.last())
    } else {
        alnum(s.drop_last())
    }
}

pub proof fn lemma_digits_len(s: Seq<char>)
    ensures
        digits(s).len() <= s.len(),
        forall|k: int| 0 <= k < digits(s).len() ==> is_digit(#[trigger] digits(s)[k]),
    decreases s.len(),
{
    if s.len() > 0 {
        lemma_digits_len(s.drop_last());
    }
}

pub proof fn lemma_digits_of_digits(s: Seq<char>)
    requires
        forall|k: int| 0 <= k < s.len() ==> is_digit(#[trigger] s[k]),
    ensures
        digits(s) == s,
    decreases s.len(),
{
    if s.len() > 0 {
        lemma_digits_of_digits(s.drop_last());
        assert(s.drop_last().push(s.last()) =~= s);
    }
}

pub fn only_digits_chars(v: &Vec<char>) -> (r: Vec<char>)
    ensures
        r@ == digits(v@),
{
    let mut out: Vec<char> = Vec::new();
    for i in 0..v.len()
        invariant
            out@ == digits(v@.take(i as int)),
    {
        proof {
            assert(v@.take(i + 1).drop_last() =~= v@.take(i as int));
        }
        if is_digit_char(v[i]) {
            out.push(v[i]);
        }
    }
    proof {
        assert(v@.take(v.len() as int) =~= v@);
    }
    out
}

/// Keeps only the ASCII decimal digits of a text.
pub fn only_digits(value: &str) -> (r: String)
    ensures
        r@ == digits(value@),
{
    let v = chars_of(value);
    let d = only_digits_chars(&v);
    string_of(&d)
}

pub fn only_alnum_upper_chars(v: &Vec<char>) -> (r: Vec<char>)
    ensures
        r@ == alnum_upper(v@),
{
    let mut out: Vec<char> = Vec::new();
    for i in 0..v.len()
        invariant
            out@ == alnum_upper(v@.take(i as int)),
    {
        proof {
            assert(v@.take(i + 1).drop_last() =~= v@.take(i as int));
        }
        if is_alnum_char(v[i]) {
            out.push(upper_char(v[i]));
        }
    }
    proof {
        assert(v@.take(v.len() as int) =~= v@);
    }
    out
}

pub fn only_alnum_chars(v: &Vec<char>) -> (r: Vec<char>)
    ensures
        r@ == alnum(v@),
{
    let mut out: Vec<char> = Vec::new();
    for i in 0..v.len()
        invariant
            out@ == alnum(v@.take(i as int)),
    {
        proof {
            assert(v@.take(i + 1).drop_last() =~= v@.take(i as int));
        }
        if is_alnum_char(v[i]) {
            out.push(v[i]);
        }
    }
    proof {
        assert(v@.take(v.len() as int) =~= v@);
    }
    out
}

/// Keeps the ASCII letters and digits of a text, upper-cased.
pub fn only_alphanum_upper(value: &str) -> (r: String)
    ensures
        r@ == alnum_upper(value@),
{
    let v = chars_of(value);
    let d = only_alnum_upper_chars(&v);
    string_of(&d)
}

pub fn upper_chars(v: &Vec<char>) -> (r: Vec<char>)
    ensures
        r@ == upper_seq(v@),
{
    let mut out: Vec<char> = Vec::new();
    for i in 0..v.len()
        invariant
            out@ == upper_seq(v@.take(i as int)),
    {
        out.push(upper_char(v[i]));
        proof {
            assert(upper_seq(v@.take(i + 1)) =~= upper_seq(v@.take(i as int)).push(
                upper_of(v@[i as int]),
            ));
        }
    }
    proof {
        assert(v@.take(v.len() as int) =~= v@);
    }
    out
}

pub fn lower_chars(v: &Vec<char>) -> (r: Vec<char>)
    ensures
        r@ == lower_seq(v@),
{
    let mut out: Vec<char> = Vec::new();
    for i in 0..v.len()
        invariant
            out@ == lower_seq(v@.take(i as int)),
    {
        out.push(lower_char(v[i]));
        proof {
            assert(lower_seq(v@.take(i + 1)) =~= lower_seq(v@.take(i as int)).push(
                lower_of(v@[i as int]),
            ));
        }
    }
    proof {
        assert(v@.take(v.len() as int) =~= v@);
    }
    out
}

/// `str::to_ascii_uppercase`.
pub fn ascii_upper(value: &str) -> (r: String)
    ensures
        r@ == upper_seq(value@),
{
    let v = chars_of(value);
    let u = upper_chars(&v);
    string_of(&u)
}

/// `str::to_ascii_lowercase`.
pub fn ascii_lower(value: &str) -> (r: String)
    ensures
        r@ == lower_seq(value@),
{
    let v = chars_of(value);
    let u = lower_chars(&v);
    string_of(&u)
}

pub fn utf8_len_of(v: &Vec<char>) -> (r: usize)
    requires
        v@.len() * 4 <= usize::MAX,
    ensures
        r == utf8_len(v@),
{
    let mut n: usize = 0;
    for i in 0..v.len()
        invariant
            v@.len() * 4 <= usize::MAX,
            n == utf8_len(v@.take(i as int)),
            n <= 4 * i,
    {
        proof {
            assert(v@.take(i + 1).drop_last() =~= v@.take(i as int));
        }
        n = n + utf8_width_of(v[i]);
    }
    proof {
        assert(v@.take(v.len() as int) =~= v@);
    }
    n
}

// ---------------------------------------------------------------------------
// Trimming
// ---------------------------------------------------------------------------

pub open spec fn trim_start(s: Seq<char>) -> Seq<char>
    decreases s.len(),
{
    if s.len() > 0 && is_ws(s[0]) {
        trim_start(s.drop_first())
    } else {
        s
    }
}

pub open spec fn trim_end(s: Seq<char>) -> Seq<char>
    decreases s.len(),
{
    if s.len() > 0 && is_ws(s.last()) {
        trim_end(s.drop_last())
    } else {
        s
    }
}

/// `str::trim`: white space removed at both ends.
pub open spec fn trim(s: Seq<char>) -> Seq<char> {
    trim_end(trim_start(s))
}

/// A text made of white space only (`s.trim().is_empty()`).
pub open spec fn is_blank(s: Seq<char>) -> bool {
    trim(s).len() == 0
}

pub proof fn lemma_trim_end_empty(s: Seq<char>)
    ensures
        trim_end(s).len() == 0 <==> forall|k: int| 0 <= k < s.len() ==> is_ws(#[trigger] s[k]),
    decreases s.len(),
{
    if s.len() > 0 {
        lemma_trim_end_empty(s.drop_last());
        if is_ws(s.last()) {
            assert forall|k: int| 0 <= k < s.drop_last().len() implies s.drop_last()[k] == s[k] by {}
            if forall|k: int| 0 <= k < s.drop_last().len() ==> is_ws(#[trigger] s.drop_last()[k]) {
                assert forall|k: int| 0 <= k < s.len() implies is_ws(#[trigger] s[k]) by {
                    if k < s.len() - 1 {
                        assert(s.drop_last()[k] == s[k]);
                    }
                }
            }
        } else {
            assert(!is_ws(s[s.len() - 1]));
        }
    }
}

pub proof fn lemma_trim_start_empty(s: Seq<char>)
    ensures
        trim_start(s).len() == 0 <==> forall|k: int| 0 <= k < s.len() ==> is_ws(#[trigger] s[k]),
    decreases s.len(),
{
    if s.len() > 0 {
        lemma_trim_start_empty(s.drop_first());
        if is_ws(s[0]) {
            if forall|k: int| 0 <= k < s.drop_first().len() ==> is_ws(#[trigger] s.drop_first()[k]) {
                assert forall|k: int| 0 <= k < s.len() implies is_ws(#[trigger] s[k]) by {
                    if k > 0 {
                        assert(s.drop_first()[k - 1] == s[k]);
                    }
                }
            } else {
                let k = choose|k: int|
                    0 <= k < s.drop_first().len() && !is_ws(#[trigger] s.drop_first()[k]);
                assert(s[k + 1] == s.drop_first()[k]);
            }
        }
    }
}

pub proof fn lemma_trim_start_suffix(s: Seq<char>)
    ensures
        exists|a: int| 0 <= a <= s.len() && trim_start(s) == s.skip(a) && forall|k: int|
            0 <= k < a ==> is_ws(#[trigger] s[k]),
    decreases s.len(),
{
    if s.len() > 0 && is_ws(s[0]) {
        lemma_trim_start_suffix(s.drop_first());
        let a = choose|a: int|
            0 <= a <= s.drop_first().len() && trim_start(s.drop_first()) == s.drop_first().skip(a)
                && forall|k: int| 0 <= k < a ==> is_ws(#[trigger] s.drop_first()[k]);
        assert(s.drop_first().skip(a) =~= s.skip(a + 1));
        assert forall|k: int| 0 <= k < a + 1 implies is_ws(#[trigger] s[k]) by {
            if k > 0 {
                assert(s.drop_first()[k - 1] == s[k]);
            }
        }
    } else {
        assert(s.skip(0) =~= s);
    }
}

pub proof fn lemma_trim_end_prefix(s: Seq<char>)
    ensures
        trim_end(s).len() <= s.len(),
        trim_end(s) == s.take(trim_end(s).len() as int),
        trim_end(s).len() > 0 ==> !is_ws(trim_end(s).last()),
    decreases s.len(),
{
    if s.len() > 0 && is_ws(s.last()) {
        lemma_trim_end_prefix(s.drop_last());
        let t = trim_end(s.drop_last());
        assert(s.drop_last().take(t.len() as int) =~= s.take(t.len() as int));
    } else {
        assert(s.take(s.len() as int) =~= s);
    }
}

pub proof fn lemma_trim_start_first(s: Seq<char>)
    ensures
        trim_start(s).len() > 0 ==> !is_ws(trim_start(s)[0]),
    decreases s.len(),
{
    if s.len() > 0 && is_ws(s[0]) {
        lemma_trim_start_first(s.drop_first());
    }
}

/// A text whose first and last characters are not white space is its own
/// trim.
pub proof fn lemma_trim_solid(s: Seq<char>)
    requires
        s.len() > 0,
        !is_ws(s[0]),
        !is_ws(s.last()),
    ensures
        trim(s) == s,
{
    assert(trim_start(s) == s);
    assert(trim_end(s) == s);
}

/// The digits of two texts one after the other.
pub proof fn lemma_digits_concat(a: Seq<char>, b: Seq<char>)
    ensures
        digits(a + b) == digits(a) + digits(b),
    decreases b.len(),
{
    if b.len() == 0 {
        assert(a + b =~= a);
        assert(digits(a) + digits(b) =~= digits(a));
    } else {
        lemma_digits_concat(a, b.drop_last());
        assert((a + b).drop_last() =~= a + b.drop_last());
        assert((a + b).last() == b.last());
        assert(digits(a) + digits(b.drop_last()).push(b.last()) =~= (digits(a) + digits(b.drop_last())).push(
            b.last(),
        ));
    }
}

/// Trimming twice is trimming once.
pub proof fn lemma_trim_idempotent(s: Seq<char>)
    ensures
        trim(trim(s)) == trim(s),
{
    let t = trim_start(s);
    let u = trim_end(t);
    lemma_trim_start_first(s);
    lemma_trim_end_prefix(t);
    if u.len() > 0 {
        assert(u[0] == t[0]);
    }
    assert(trim_start(u) == u);
    assert(trim_end(u) == u);
}

/// The blank texts are exactly those made of white space.
pub proof fn lemma_blank_iff_all_ws(s: Seq<char>)
    ensures
        is_blank(s) <==> forall|k: int| 0 <= k < s.len() ==> is_ws(#[trigger] s[k]),
{
    lemma_trim_end_empty(trim_start(s));
    lemma_trim_start_empty(s);
    lemma_trim_start_suffix(s);
    let a = choose|a: int|
        0 <= a <= s.len() && trim_start(s) == s.skip(a) && forall|k: int|
            0 <= k < a ==> is_ws(#[trigger] s[k]);
    if forall|k: int| 0 <= k < trim_start(s).len() ==> is_ws(#[trigger] trim_start(s)[k]) {
        assert forall|k: int| 0 <= k < s.len() implies is_ws(#[trigger] s[k]) by {
            if k >= a {
                assert(trim_start(s)[k - a] == s[k]);
            }
        }
    }
}

pub fn trim_chars(v: &Vec<char>) -> (r: Vec<char>)
    ensures
        r@ == trim(v@),
{
    let n = v.len();
    let mut i: usize = 0;
    proof {
        assert(v@.skip(0) =~= v@);
    }
    while i < n && is_ws_char(v[i])
        invariant
            n == v@.len(),
            i <= n,
            trim_start(v@) == trim_start(v@.skip(i as int)),
        decreases n - i,
    {
        proof {
            assert(v@.skip(i as int).drop_first() =~= v@.skip(i + 1));
        }
        i = i + 1;
    }
    let ghost t = v@.skip(i as int);
    assert(trim_start(v@) == t);
    let mut j: usize = n;
    while j > i && is_ws_char(v[j - 1])
        invariant
            n == v@.len(),
            i <= j <= n,
            t == v@.skip(i as int),
            trim(v@) == trim_end(v@.subrange(i as int, j as int)),
        decreases j,
    {
        proof {
            assert(v@.subrange(i as int, j as int).drop_last() =~= v@.subrange(
                i as int,
                j - 1,
            ));
        }
        j = j - 1;
    }
    proof {
        assert(v@.skip(i as int) =~= v@.subrange(i as int, n as int));
    }
    let mut out: Vec<char> = Vec::new();
    let mut k: usize = i;
    while k < j
        invariant
            i <= k <= j <= n,
            n == v@.len(),
            out@ == v@.subrange(i as int, k as int),
        decreases j - k,
    {
        out.push(v[k]);
        proof {
            assert(v@.subrange(i as int, k + 1) =~= v@.subrange(i as int, k as int).push(
                v@[k as int],
            ));
        }
        k = k + 1;
    }
    out
}

pub open spec fn strip_leading(s: Seq<char>, c: char) -> Seq<char>
    decreases s.len(),
{
    if s.len() > 0 && s[0] == c {
        strip_leading(s.drop_first(), c)
    } else {
        s
    }
}

pub open spec fn strip_trailing(s: Seq<char>, c: char) -> Seq<char>
    decreases s.len(),
{
    if s.len() > 0 && s.last() == c {
        strip_trailing(s.drop_last(), c)
    } else {
        s
    }
}

/// `str::trim_matches` with one character: every copy of `c` removed at
/// both ends.
pub open spec fn trim_matches(s: Seq<char>, c: char) -> Seq<char> {
    strip_trailing(strip_leading(s, c), c)
}

pub fn trim_matches_chars(v: &Vec<char>, c: char) -> (r: Vec<char>)
    ensures
        r@ == trim_matches(v@, c),
{
    let n = v.len();
    let mut i: usize = 0;
    proof {
        assert(v@.skip(0) =~= v@);
    }
    while i < n && v[i] == c
        invariant
            n == v@.len(),
            i <= n,
            strip_leading(v@, c) == strip_leading(v@.skip(i as int), c),
        decreases n - i,
    {
        proof {
            assert(v@.skip(i as int).drop_first() =~= v@.skip(i + 1));
        }
        i = i + 1;
    }
    let ghost t = v@.skip(i as int);
    assert(strip_leading(v@, c) == t);
    let mut j: usize = n;
    proof {
        assert(v@.skip(i as int) =~= v@.subrange(i as int, n as int));
    }
    while j > i && v[j - 1] == c
        invariant
            n == v@.len(),
            i <= j <= n,
            trim_matches(v@, c) == strip_trailing(v@.subrange(i as int, j as int), c),
        decreases j,
    {
        proof {
            assert(v@.subrange(i as int, j as int).drop_last() =~= v@.subrange(
                i as int,
                j - 1,
            ));
        }
        j = j - 1;
    }
    slice_chars(v, i, j)
}

/// `str::trim_end_matches` with one character.
pub fn strip_trailing_chars(v: &Vec<char>, c: char) -> (r: Vec<char>)
    ensures
        r@ == strip_trailing(v@, c),
{
    let mut j = v.len();
    proof {
        assert(v@.subrange(0, j as int) =~= v@);
    }
    while j > 0 && v[j - 1] == c
        invariant
            j <= v@.len(),
            strip_trailing(v@, c) == strip_trailing(v@.subrange(0, j as int), c),
        decreases j,
    {
        proof {
            assert(v@.subrange(0, j as int).drop_last() =~= v@.subrange(0, j - 1));
        }
        j = j - 1;
    }
    slice_chars(v, 0, j)
}

/// `str::trim` into an owned string.
pub fn trim_str(value: &str) -> (r: String)
    ensures
        r@ == trim(value@),
{
    let v = chars_of(value);
    let t = trim_chars(&v);
    string_of(&t)
}

pub fn is_blank_chars(v: &Vec<char>) -> (r: bool)
    ensures
        r == is_blank(v@),
{
    let t = trim_chars(v);
    t.len() == 0
}

/// `value.trim().is_empty()`.
pub fn is_blank_str(value: &str) -> (r: bool)
    ensures
        r == is_blank(value@),
{
    let v = chars_of(value);
    is_blank_chars(&v)
}

// ---------------------------------------------------------------------------
// Prefixes, suffixes and sub-texts
// ---------------------------------------------------------------------------

pub open spec fn starts_with(s: Seq<char>, p: Seq<char>) -> bool {
    p.len() <= s.len() && s.take(p.len() as int) == p
}

pub open spec fn ends_with(s: Seq<char>, p: Seq<char>) -> bool {
    p.len() <= s.len() && s.skip(s.len() - p.len()) == p
}

pub open spec fn occurs_at(s: Seq<char>, p: Seq<char>, i: int) -> bool {
    0 <= i && i + p.len() <= s.len() && s.subrange(i, i + p.len()) == p
}

pub open spec fn contains_text(s: Seq<char>, p: Seq<char>) -> bool {
    exists|i: int| occurs_at(s, p, i)
}

pub open spec fn contains_char(s: Seq<char>, c: char) -> bool {
    exists|i: int| 0 <= i < s.len() && s[i] == c
}

pub fn matches_at(v: &Vec<char>, p: &Vec<char>, i: usize) -> (r: bool)
    ensures
        r == occurs_at(v@, p@, i as int),
{
    if i > v.len() || p.len() > v.len() - i {
        return false;
    }
    let mut k: usize = 0;
    while k < p.len()
        invariant
            i + p.len() <= v.len(),
            k <= p@.len(),
            forall|m: int| 0 <= m < k ==> v@[i + m] == p@[m],
        decreases p@.len() - k,
    {
        if v[i + k] != p[k] {
            assert(v@.subrange(i as int, i + p@.len())[k as int] != p@[k as int]);
            return false;
        }
        k = k + 1;
    }
    assert(v@.subrange(i as int, i + p@.len()) =~= p@);
    true
}

pub fn starts_with_chars(v: &Vec<char>, p: &Vec<char>) -> (r: bool)
    ensures
        r == starts_with(v@, p@),
{
    let r = matches_at(v, p, 0);
    proof {
        assert(v@.subrange(0, p@.len() as int) =~= v@.take(p@.len() as int));
    }
    r
}

pub fn ends_with_chars(v: &Vec<char>, p: &Vec<char>) -> (r: bool)
    ensures
        r == ends_with(v@, p@),
{
    if p.len() > v.len() {
        return false;
    }
    let r = matches_at(v, p, v.len() - p.len());
    proof {
        assert(v@.subrange(v@.len() - p@.len(), v@.len() as int) =~= v@.skip(
            v@.len() - p@.len(),
        ));
    }
    r
}

/// `str::starts_with` with a text pattern.
pub fn str_starts_with(value: &str, prefix: &str) -> (r: bool)
    ensures
        r == starts_with(value@, prefix@),
{
    let v = chars_of(value);
    let p = chars_of(prefix);
    starts_with_chars(&v, &p)
}

/// `str::ends_with` with a text pattern.
pub fn str_ends_with(value: &str, suffix: &str) -> (r: bool)
    ensures
        r == ends_with(value@, suffix@),
{
    let v = chars_of(value);
    let p = chars_of(suffix);
    ends_with_chars(&v, &p)
}

pub fn contains_chars(v: &Vec<char>, p: &Vec<char>) -> (r: bool)
    ensures
        r == contains_text(v@, p@),
{
    if p.len() > v.len() {
        return false;
    }
    if p.len() == 0 {
        assert(v@.subrange(0, 0) =~= p@);
        assert(occurs_at(v@, p@, 0));
        return true;
    }
    let mut i: usize = 0;
    while i <= v.len() - p.len()
        invariant
            1 <= p.len() <= v.len(),
            i <= v@.len() - p@.len() + 1,
            forall|m: int| 0 <= m < i ==> !occurs_at(v@, p@, m),
        decreases v@.len() - p@.len() + 1 - i,
    {
        if matches_at(v, p, i) {
            return true;
        }
        i = i + 1;
    }
    proof {
        assert forall|m: int| !occurs_at(v@, p@, m) by {
            if 0 <= m && m < i {
            }
        }
    }
    false
}

/// `str::contains` with a text pattern.
pub fn str_contains(value: &str, pattern: &str) -> (r: bool)
    ensures
        r == contains_text(value@, pattern@),
{
    let v = chars_of(value);
    let p = chars_of(pattern);
    contains_chars(&v, &p)
}

pub fn contains_char_chars(v: &Vec<char>, c: char) -> (r: bool)
    ensures
        r == contains_char(v@, c),
{
    let mut i: usize = 0;
    while i < v.len()
        invariant
            i <= v@.len(),
            forall|m: int| 0 <= m < i ==> v@[m] != c,
        decreases v@.len() - i,
    {
        if v[i] == c {
            return true;
        }
        i = i + 1;
    }
    false
}

/// `str::contains` with a character pattern.
pub fn str_contains_char(value: &str, c: char) -> (r: bool)
    ensures
        r == contains_char(value@, c),
{
    let v = chars_of(value);
    contains_char_chars(&v, c)
}

// ---------------------------------------------------------------------------
// Splitting and joining
// ---------------------------------------------------------------------------

/// `str::split` on one character: the pieces between the separators.
pub open spec fn split_on(s: Seq<char>, sep: char) -> Seq<Seq<char>>
    decreases s.len(),
{
    if s.len() == 0 {
        seq![seq![]]
    } else {
        let r = split_on(s.drop_last(), sep);
        if s.last() == sep {
            r.push(seq![])
        } else {
            r.update(r.len() - 1, r.last().push(s.last()))
        }
    }
}

pub proof fn lemma_split_on_nonempty(s: Seq<char>, sep: char)
    ensures
        split_on(s, sep).len() >= 1,
    decreases s.len(),
{
    if s.len() > 0 {
        lemma_split_on_nonempty(s.drop_last(), sep);
    }
}

pub fn split_chars(v: &Vec<char>, sep: char) -> (r: Vec<Vec<char>>)
    ensures
        r@.len() == split_on(v@, sep).len(),
        forall|k: int| 0 <= k < r@.len() ==> (#[trigger] r@[k])@ == split_on(v@, sep)[k],
{
    let mut done: Vec<Vec<char>> = Vec::new();
    let mut cur: Vec<char> = Vec::new();
    for i in 0..v.len()
        invariant
            split_on(v@.take(i as int), sep).len() == done@.len() + 1,
            forall|k: int| 0 <= k < done@.len() ==> (#[trigger] done@[k])@ == split_on(v@.take(i as int), sep)[k],
            cur@ == split_on(v@.take(i as int), sep).last(),
    {
        proof {
            assert(v@.take(i + 1).drop_last() =~= v@.take(i as int));
            lemma_split_on_nonempty(v@.take(i as int), sep);
        }
        if v[i] == sep {
            done.push(cur);
            cur = Vec::new();
        } else {
            cur.push(v[i]);
        }
    }
    proof {
        assert(v@.take(v.len() as int) =~= v@);
    }
    done.push(cur);
    done
}

/// `str::split` on one character, into owned strings.
pub fn split_str(value: &str, sep: char) -> (r: Vec<String>)
    ensures
        r@.len() == split_on(value@, sep).len(),
        forall|k: int| 0 <= k < r@.len() ==> (#[trigger] r@[k])@ == split_on(value@, sep)[k],
{
    let v = chars_of(value);
    let parts = split_chars(&v, sep);
    let mut out: Vec<String> = Vec::new();
    for i in 0..parts.len()
        invariant
            out@.len() == i,
            parts@.len() == split_on(value@, sep).len(),
            forall|k: int| 0 <= k < parts@.len() ==> (#[trigger] parts@[k])@ == split_on(value@, sep)[k],
            forall|k: int| 0 <= k < i ==> (#[trigger] out@[k])@ == split_on(value@, sep)[k],
    {
        out.push(string_of(&parts[i]));
    }
    out
}

pub open spec fn strip_cr(s: Seq<char>) -> Seq<char> {
    if s.len() > 0 && s.last() == '\r' {
        s.drop_last()
    } else {
        s
    }
}

/// `str::split` on a text pattern: the pieces between the non-overlapping
/// occurrences of `pat`, found scanning from the left.
pub open spec fn split_text(s: Seq<char>, pat: Seq<char>) -> Seq<Seq<char>>
    recommends
        pat.len() > 0,
    decreases s.len(),
{
    if pat.len() == 0 || s.len() == 0 {
        seq![s]
    } else if starts_with(s, pat) {
        seq![seq![]] + split_text(s.skip(pat.len() as int), pat)
    } else {
        let r = split_text(s.drop_first(), pat);
        r.update(0, seq![s[0]] + r[0])
    }
}

pub proof fn lemma_split_text_nonempty(s: Seq<char>, pat: Seq<char>)
    ensures
        split_text(s, pat).len() >= 1,
    decreases s.len(),
{
    if pat.len() > 0 && s.len() > 0 {
        if starts_with(s, pat) {
            lemma_split_text_nonempty(s.skip(pat.len() as int), pat);
        } else {
            lemma_split_text_nonempty(s.drop_first(), pat);
        }
    }
}

pub open spec fn glue(done: Seq<Seq<char>>, cur: Seq<char>, rest: Seq<Seq<char>>) -> Seq<Seq<char>> {
    done + seq![cur + rest[0]] + rest.skip(1)
}

pub fn split_text_chars(v: &Vec<char>, pat: &Vec<char>) -> (r: Vec<Vec<char>>)
    requires
        pat@.len() > 0,
    ensures
        r@.map_values(|p: Vec<char>| p@) == split_text(v@, pat@),
{
    let mut done: Vec<Vec<char>> = Vec::new();
    let mut cur: Vec<char> = Vec::new();
    let mut i: usize = 0;
    proof {
        assert(v@.skip(0) =~= v@);
        lemma_split_text_nonempty(v@, pat@);
        let r = split_text(v@, pat@);
        assert(glue(Seq::empty(), Seq::empty(), r) =~= r);
        assert(done@.map_values(|p: Vec<char>| p@) =~= Seq::<Seq<char>>::empty());
    }
    while i < v.len()
        invariant
            pat@.len() > 0,
            i <= v@.len(),
            split_text(v@, pat@) == glue(
                done@.map_values(|p: Vec<char>| p@),
                cur@,
                split_text(v@.skip(i as int), pat@),
            ),
        decreases v@.len() - i,
    {
        let m = matches_at(v, pat, i);
        let ghost ds = done@.map_values(|p: Vec<char>| p@);
        proof {
            let t = v@.skip(i as int);
            if m {
                assert(t.take(pat@.len() as int) =~= v@.subrange(i as int, i + pat@.len()));
                assert(t.skip(pat@.len() as int) =~= v@.skip(i + pat@.len()));
            } else {
                if starts_with(t, pat@) {
                    assert(t.take(pat@.len() as int) =~= v@.subrange(i as int, i + pat@.len()));
                }
                assert(t.drop_first() =~= v@.skip(i + 1));
                assert(t[0] == v@[i as int]);
            }
        }
        if m {
            let ghost c = cur@;
            done.push(cur);
            cur = Vec::new();
            proof {
                let rest = split_text(v@.skip(i + pat@.len()), pat@);
                lemma_split_text_nonempty(v@.skip(i + pat@.len()), pat@);
                assert(done@.map_values(|p: Vec<char>| p@) =~= ds.push(c));
                let whole = seq![seq![]] + rest;
                assert(glue(ds, c, whole) =~= glue(ds.push(c), seq![], rest));
            }
            i = i + pat.len();
        } else {
            let ghost c = cur@;
            cur.push(v[i]);
            proof {
                let rest = split_text(v@.skip(i + 1), pat@);
                lemma_split_text_nonempty(v@.skip(i + 1), pat@);
                let whole = rest.update(0, seq![v@[i as int]] + rest[0]);
                assert(c + (seq![v@[i as int]] + rest[0]) =~= c.push(v@[i as int]) + rest[0]);
                assert(whole.skip(1) =~= rest.skip(1));
                assert(glue(ds, c, whole) =~= glue(ds, c.push(v@[i as int]), rest));
                assert(done@.map_values(|p: Vec<char>| p@) == ds);
            }
            i = i + 1;
        }
    }
    proof {
        assert(v@.skip(i as int) =~= Seq::<char>::empty());
        let ds = done@.map_values(|p: Vec<char>| p@);
        assert(glue(ds, cur@, seq![seq![]]) =~= ds.push(cur@));
    }
    let ghost ds = done@.map_values(|p: Vec<char>| p@);
    let ghost c = cur@;
    done.push(cur);
    proof {
        assert(done@.map_values(|p: Vec<char>| p@) =~= ds.push(c));
    }
    done
}

/// `str::lines`: pieces between `\n`, without the empty piece after a
/// final `\n`, each with one trailing `\r` removed.
pub open spec fn lines_of(s: Seq<char>) -> Seq<Seq<char>> {
    let p = split_on(s, '\n');
    let q = if p.last().len() == 0 {
        p.drop_last()
    } else {
        p
    };
    q.map_values(|x: Seq<char>| strip_cr(x))
}

pub fn strip_cr_chars(v: Vec<char>) -> (r: Vec<char>)
    ensures
        r@ == strip_cr(v@),
{
    let mut v = v;
    if v.len() > 0 && v[v.len() - 1] == '\r' {
        v.pop();
    }
    v
}

pub fn lines_chars(v: &Vec<char>) -> (r: Vec<Vec<char>>)
    ensures
        r@.len() == lines_of(v@).len(),
        forall|k: int| 0 <= k < r@.len() ==> (#[trigger] r@[k])@ == lines_of(v@)[k],
{
    let parts = split_chars(v, '\n');
    proof {
        lemma_split_on_nonempty(v@, '\n');
    }
    let n = if parts[parts.len() - 1].len() == 0 {
        parts.len() - 1
    } else {
        parts.len()
    };
    let mut out: Vec<Vec<char>> = Vec::new();
    let mut i: usize = 0;
    while i < n
        invariant
            n <= parts@.len(),
            parts@.len() == split_on(v@, '\n').len(),
            forall|k: int| 0 <= k < parts@.len() ==> (#[trigger] parts@[k])@ == split_on(v@, '\n')[k],
            n == lines_of(v@).len(),
            out@.len() == i,
            i <= n,
            forall|k: int| 0 <= k < i ==> (#[trigger] out@[k])@ == lines_of(v@)[k],
        decreases n - i,
    {
        let p = copy_chars(&parts[i]);
        out.push(strip_cr_chars(p));
        i = i + 1;
    }
    out
}

/// `str::lines`, into owned strings.
pub fn lines_str(value: &str) -> (r: Vec<String>)
    ensures
        r@.len() == lines_of(value@).len(),
        forall|k: int| 0 <= k < r@.len() ==> (#[trigger] r@[k])@ == lines_of(value@)[k],
{
    let v = chars_of(value);
    let ls = lines_chars(&v);
    let mut out: Vec<String> = Vec::new();
    for i in 0..ls.len()
        invariant
            out@.len() == i,
            ls@.len() == lines_of(value@).len(),
            forall|k: int| 0 <= k < ls@.len() ==> (#[trigger] ls@[k])@ == lines_of(value@)[k],
            forall|k: int| 0 <= k < i ==> (#[trigger] out@[k])@ == lines_of(value@)[k],
    {
        out.push(string_of(&ls[i]));
    }
    out
}

/// Pieces between white space characters.
pub open spec fn split_ws(s: Seq<char>) -> Seq<Seq<char>>
    decreases s.len(),
{
    if s.len() == 0 {
        seq![seq![]]
    } else {
        let r = split_ws(s.drop_last());
        if is_ws(s.last()) {
            r.push(seq![])
        } else {
            r.update(r.len() - 1, r.last().push(s.last()))
        }
    }
}

pub proof fn lemma_split_ws_nonempty(s: Seq<char>)
    ensures
        split_ws(s).len() >= 1,
    decreases s.len(),
{
    if s.len() > 0 {
        lemma_split_ws_nonempty(s.drop_last());
    }
}

pub open spec fn non_empty_piece(w: Seq<char>) -> bool {
    w.len() > 0
}

/// `str::split_whitespace`: the non-empty pieces between white space.
pub open spec fn words(s: Seq<char>) -> Seq<Seq<char>> {
    split_ws(s).filter(|w: Seq<char>| non_empty_piece(w))
}

/// `join`: the pieces with `sep` between consecutive ones.
pub open spec fn join(pieces: Seq<Seq<char>>, sep: Seq<char>) -> Seq<char>
    decreases pieces.len(),
{
    if pieces.len() == 0 {
        seq![]
    } else if pieces.len() == 1 {
        pieces[0]
    } else {
        join(pieces.drop_last(), sep) + sep + pieces.last()
    }
}

pub fn join_chars(pieces: &Vec<Vec<char>>, sep: &Vec<char>) -> (r: Vec<char>)
    ensures
        r@ == join(pieces@.map_values(|p: Vec<char>| p@), sep@),
{
    let ghost ps = pieces@.map_values(|p: Vec<char>| p@);
    let mut out: Vec<char> = Vec::new();
    for i in 0..pieces.len()
        invariant
            ps == pieces@.map_values(|p: Vec<char>| p@),
            out@ == join(ps.take(i as int), sep@),
    {
        proof {
            assert(ps.take(i + 1).drop_last() =~= ps.take(i as int));
            assert(ps.take(i + 1).last() == pieces@[i as int]@);
        }
        if i > 0 {
            append_chars(&mut out, sep);
        } else {
            assert(ps.take(1)[0] == ps[0]);
        }
        append_chars(&mut out, &pieces[i]);
    }
    proof {
        assert(ps.take(pieces.len() as int) =~= ps);
    }
    out
}

/// Joins owned strings with a separator.
pub fn join_strings(pieces: &Vec<String>, sep: &str) -> (r: String)
    ensures
        r@ == join(pieces@.map_values(|p: String| p@), sep@),
{
    let ghost ps = pieces@.map_values(|p: String| p@);
    let mut cs: Vec<Vec<char>> = Vec::new();
    for i in 0..pieces.len()
        invariant
            ps == pieces@.map_values(|p: String| p@),
            cs@.len() == i,
            forall|k: int| 0 <= k < i ==> (#[trigger] cs@[k])@ == ps[k],
    {
        cs.push(chars_of_string(&pieces[i]));
    }
    let sepv = chars_of(sep);
    let j = join_chars(&cs, &sepv);
    proof {
        assert(cs@.map_values(|p: Vec<char>| p@) =~= ps);
    }
    string_of(&j)
}

pub fn words_chars(v: &Vec<char>) -> (r: Vec<Vec<char>>)
    ensures
        r@.map_values(|p: Vec<char>| p@) == words(v@),
{
    let mut out: Vec<Vec<char>> = Vec::new();
    let mut cur: Vec<char> = Vec::new();
    for i in 0..v.len()
        invariant
            out@.map_values(|p: Vec<char>| p@) == split_ws(v@.take(i as int)).drop_last().filter(
                |w: Seq<char>| non_empty_piece(w),
            ),
            cur@ == split_ws(v@.take(i as int)).last(),
    {
        proof {
            assert(v@.take(i + 1).drop_last() =~= v@.take(i as int));
            lemma_split_ws_nonempty(v@.take(i as int));
        }
        let ghost before = split_ws(v@.take(i as int));
        if is_ws_char(v[i]) {
            proof {
                let after = split_ws(v@.take(i + 1));
                assert(after == before.push(seq![]));
                assert(after.drop_last() =~= before);
                assert(before =~= before.drop_last().push(before.last()));
                before.drop_last().lemma_filter_push(before.last(), |w: Seq<char>| non_empty_piece(w));
            }
            if cur.len() > 0 {
                let ghost old_out = out@;
                out.push(cur);
                proof {
                    assert(out@.map_values(|p: Vec<char>| p@) =~= old_out.map_values(
                        |p: Vec<char>| p@,
                    ).push(before.last()));
                }
            }
            cur = Vec::new();
        } else {
            proof {
                let after = split_ws(v@.take(i + 1));
                assert(after.drop_last() =~= before.drop_last());
            }
            cur.push(v[i]);
        }
    }
    proof {
        assert(v@.take(v.len() as int) =~= v@);
        lemma_split_ws_nonempty(v@);
        let p = split_ws(v@);
        assert(p =~= p.drop_last().push(p.last()));
        p.drop_last().lemma_filter_push(p.last(), |w: Seq<char>| non_empty_piece(w));
    }
    if cur.len() > 0 {
        let ghost old_out = out@;
        out.push(cur);
        proof {
            assert(out@.map_values(|p: Vec<char>| p@) =~= old_out.map_values(|p: Vec<char>| p@).push(
                split_ws(v@).last(),
            ));
        }
    }
    out
}

/// `split_whitespace().collect::<Vec<_>>().join(" ")`: runs of white space
/// become one space and the ends are trimmed.
pub open spec fn squash_ws(s: Seq<char>) -> Seq<char> {
    join(words(s), seq![' '])
}

pub fn squash_ws_chars(v: &Vec<char>) -> (r: Vec<char>)
    ensures
        r@ == squash_ws(v@),
{
    let ws = words_chars(v);
    let mut sep: Vec<char> = Vec::new();
    sep.push(' ');
    proof {
        assert(sep@ =~= seq![' ']);
    }
    join_chars(&ws, &sep)
}

// ---------------------------------------------------------------------------
// Replacing
// ---------------------------------------------------------------------------

/// `str::replace`: every non-overlapping occurrence of `pat` (scanning
/// from the left) replaced by `rep`.
pub open spec fn replace(s: Seq<char>, pat: Seq<char>, rep: Seq<char>) -> Seq<char>
    recommends
        pat.len() > 0,
    decreases s.len(),
{
    if pat.len() == 0 || s.len() == 0 {
        s
    } else if starts_with(s, pat) {
        rep + replace(s.skip(pat.len() as int), pat, rep)
    } else {
        seq![s[0]] + replace(s.drop_first(), pat, rep)
    }
}

pub fn replace_chars(v: &Vec<char>, pat: &Vec<char>, rep: &Vec<char>) -> (r: Vec<char>)
    requires
        pat@.len() > 0,
    ensures
        r@ == replace(v@, pat@, rep@),
{
    let mut out: Vec<char> = Vec::new();
    let mut i: usize = 0;
    proof {
        assert(v@.skip(0) =~= v@);
    }
    while i < v.len()
        invariant
            pat@.len() > 0,
            i <= v@.len(),
            replace(v@, pat@, rep@) == out@ + replace(v@.skip(i as int), pat@, rep@),
        decreases v@.len() - i,
    {
        let m = matches_at(v, pat, i);
        proof {
            let t = v@.skip(i as int);
            if m {
                assert(t.take(pat@.len() as int) =~= v@.subrange(i as int, i + pat@.len()));
                assert(t.skip(pat@.len() as int) =~= v@.skip(i + pat@.len()));
            } else {
                if starts_with(t, pat@) {
                    assert(t.take(pat@.len() as int) =~= v@.subrange(i as int, i + pat@.len()));
                }
                assert(t.drop_first() =~= v@.skip(i + 1));
                assert(t[0] == v@[i as int]);
            }
        }
        if m {
            let ghost old_out = out@;
            append_chars(&mut out, rep);
            proof {
                assert(old_out + (rep@ + replace(v@.skip(i + pat@.len()), pat@, rep@)) =~= old_out
                    + rep@ + replace(v@.skip(i + pat@.len()), pat@, rep@));
            }
            i = i + pat.len();
        } else {
            let ghost old_out = out@;
            out.push(v[i]);
            proof {
                assert(old_out + (seq![v@[i as int]] + replace(v@.skip(i + 1), pat@, rep@))
                    =~= old_out.push(v@[i as int]) + replace(v@.skip(i + 1), pat@, rep@));
            }
            i = i + 1;
        }
    }
    proof {
        assert(v@.skip(i as int).len() == 0);
        assert(out@ + v@.skip(i as int) =~= out@);
    }
    out
}

/// `str::replace` with text patterns.
pub fn replace_str(value: &str, pat: &str, rep: &str) -> (r: String)
    requires
        pat@.len() > 0,
    ensures
        r@ == replace(value@, pat@, rep@),
{
    let v = chars_of(value);
    let p = chars_of(pat);
    let q = chars_of(rep);
    let out = replace_chars(&v, &p, &q);
    string_of(&out)
}

// ---------------------------------------------------------------------------
// Small text utilities used across the library
// ---------------------------------------------------------------------------

/// The first `n` characters (`chars().take(n)`).
pub open spec fn take_chars(s: Seq<char>, n: int) -> Seq<char> {
    if n < s.len() {
        s.take(n)
    } else {
        s
    }
}

pub fn take_chars_vec(v: &Vec<char>, n: usize) -> (r: Vec<char>)
    ensures
        r@ == take_chars(v@, n as int),
{
    let m = if n < v.len() {
        n
    } else {
        v.len()
    };
    let mut out: Vec<char> = Vec::new();
    for i in 0..m
        invariant
            m <= v@.len(),
            out@ == v@.take(i as int),
    {
        out.push(v[i]);
        proof {
            assert(v@.take(i + 1) =~= v@.take(i as int).push(v@[i as int]));
        }
    }
    proof {
        assert(v@.take(v@.len() as int) =~= v@);
    }
    out
}

/// The characters from index `a` (inclusive) to `b` (exclusive).
pub fn slice_chars(v: &Vec<char>, a: usize, b: usize) -> (r: Vec<char>)
    requires
        a <= b <= v@.len(),
    ensures
        r@ == v@.subrange(a as int, b as int),
{
    let mut out: Vec<char> = Vec::new();
    let mut k: usize = a;
    while k < b
        invariant
            a <= k <= b <= v@.len(),
            out@ == v@.subrange(a as int, k as int),
        decreases b - k,
    {
        out.push(v[k]);
        proof {
            assert(v@.subrange(a as int, k + 1) =~= v@.subrange(a as int, k as int).push(
                v@[k as int],
            ));
        }
        k = k + 1;
    }
    out
}

/// `trimmed.is_empty() ? None : Some(trimmed)`.
pub open spec fn optional_text(s: Seq<char>) -> Option<Seq<char>> {
    if trim(s).len() == 0 {
        None
    } else {
        Some(trim(s))
    }
}

pub open spec fn opt_view(o: Option<String>) -> Option<Seq<char>> {
    match o {
        Some(s) => Some(s@),
        None => None,
    }
}

/// The text trimmed, or nothing when it is blank.
pub fn optional_string(value: &str) -> (r: Option<String>)
    ensures
        opt_view(r) == optional_text(value@),
{
    let t = trim_str(value);
    if t.as_str().is_empty() {
        None
    } else {
        Some(t)
    }
}

pub fn opt_string_clone(o: &Option<String>) -> (r: Option<String>)
    ensures
        opt_view(r) == opt_view(*o),
{
    match o {
        Some(s) => Some(s.clone()),
        None => None,
    }
}

/// `opt.as_deref().unwrap_or("")`.
pub open spec fn opt_or_empty(o: Option<String>) -> Seq<char> {
    match o {
        Some(s) => s@,
        None => seq![],
    }
}

pub fn opt_text_or_empty(o: &Option<String>) -> (r: String)
    ensures
        r@ == opt_or_empty(*o),
{
    match o {
        Some(s) => s.clone(),
        None => String::new(),
    }
}

/// The decimal writing of a natural number.
pub open spec fn decimal(n: nat) -> Seq<char>
    decreases n,
{
    if n < 10 {
        seq![('0' as int + n) as char]
    } else {
        decimal(n / 10).push(('0' as int + (n % 10)) as char)
    }
}

pub fn decimal_chars(n: u128) -> (r: Vec<char>)
    ensures
        r@ == decimal(n as nat),
    decreases n,
{
    if n < 10 {
        let mut v: Vec<char> = Vec::new();
        v.push(((n as u8) + 48) as char);
        proof {
            assert(v@ =~= seq![('0' as int + n) as char]);
        }
        v
    } else {
        let mut v = decimal_chars(n / 10);
        v.push((((n % 10) as u8) + 48) as char);
        v
    }
}

/// `n.to_string()` for an unsigned number.
pub fn decimal_string(n: u64) -> (r: String)
    ensures
        r@ == decimal(n as nat),
{
    let v = decimal_chars(n as u128);
    string_of(&v)
}

/// The decimal writing of a number, left-padded with zeros to `w` digits
/// (`format!("{:0w$}", n)`).
pub open spec fn zero_pad(s: Seq<char>, w: int) -> Seq<char> {
    if s.len() >= w {
        s
    } else {
        Seq::new((w - s.len()) as nat, |i: int| '0') + s
    }
}

pub fn zero_pad_chars(v: &Vec<char>, w: usize) -> (r: Vec<char>)
    ensures
        r@ == zero_pad(v@, w as int),
{
    if v.len() >= w {
        return copy_chars(v);
    }
    let mut out: Vec<char> = Vec::new();
    let n = w - v.len();
    for i in 0..n
        invariant
            out@ == Seq::new(i as nat, |k: int| '0'),
    {
        out.push('0');
        proof {
            assert(out@ =~= Seq::new((i + 1) as nat, |k: int| '0'));
        }
    }
    let r = concat_chars(&out, v);
    r
}

} // verus!

verus! {

/// Names what `str::to_uppercase` returns (full Unicode upper-casing).
pub uninterp spec fn unicode_upper(s: Seq<char>) -> Seq<char>;

/// Names what `str::to_lowercase` returns (full Unicode lower-casing).
pub uninterp spec fn unicode_lower(s: Seq<char>) -> Seq<char>;

/// `str::to_uppercase`: its result is named, not described.
#[verifier::external_body]
pub(crate) fn to_uppercase_str(s: &str) -> (r: String)
    ensures
        r@ == unicode_upper(s@),
{
    s.to_uppercase()
}

/// `str::to_lowercase`: its result is named, not described.
#[verifier::external_body]
pub(crate) fn to_lowercase_str(s: &str) -> (r: String)
    ensures
        r@ == unicode_lower(s@),
{
    s.to_lowercase()
}

/// The shortest prefix of whole characters whose UTF-8 encoding holds at
/// least `b` bytes.
pub open spec fn byte_prefix(s: Seq<char>, b: int) -> Seq<char>
    decreases s.len(),
{
    if b <= 0 || s.len() == 0 {
        seq![]
    } else {
        seq![s[0]] + byte_prefix(s.drop_first(), b - utf8_width(s[0]))
    }
}

/// `&s[..b]` where `b` falls on a character boundary.
pub fn byte_prefix_chars(v: &Vec<char>, b: usize) -> (r: Vec<char>)
    ensures
        r@ == byte_prefix(v@, b as int),
{
    let mut out: Vec<char> = Vec::new();
    let mut i: usize = 0;
    let mut left: usize = b;
    proof {
        assert(v@.skip(0) =~= v@);
    }
    while left > 0 && i < v.len()
        invariant
            i <= v@.len(),
            byte_prefix(v@, b as int) == out@ + byte_prefix(v@.skip(i as int), left as int),
        decreases v@.len() - i,
    {
        let w = utf8_width_of(v[i]);
        proof {
            let t = v@.skip(i as int);
            assert(t[0] == v@[i as int]);
            assert(t.drop_first() =~= v@.skip(i + 1));
            assert(out@ + (seq![v@[i as int]] + byte_prefix(v@.skip(i + 1), left - w)) =~= out@.push(
                v@[i as int],
            ) + byte_prefix(v@.skip(i + 1), left - w));
            if left <= w {
                assert(byte_prefix(v@.skip(i + 1), left - w) == Seq::<char>::empty());
            }
        }
        out.push(v[i]);
        left = if left > w {
            left - w
        } else {
            0
        };
        i = i + 1;
    }
    proof {
        assert(out@ + Seq::<char>::empty() =~= out@);
    }
    out
}

} // verus!

verus! {

pub proof fn lemma_utf8_len_prefix(s: Seq<char>, i: int)
    requires
        0 <= i <= s.len(),
    ensures
        utf8_len(s.take(i)) <= utf8_len(s),
    decreases s.len(),
{
    if i < s.len() {
        assert(s.take(i) =~= s.drop_last().take(i));
        lemma_utf8_len_prefix(s.drop_last(), i);
    } else {
        assert(s.take(i) =~= s);
    }
}

/// Whether the UTF-8 encoding of `v` is longer than `n` bytes.
pub fn utf8_len_gt(v: &Vec<char>, n: usize) -> (r: bool)
    ensures
        r == (utf8_len(v@) > n),
{
    let mut sum: usize = 0;
    let mut i: usize = 0;
    while i < v.len()
        invariant
            i <= v@.len(),
            sum == utf8_len(v@.take(i as int)),
            sum <= n,
        decreases v@.len() - i,
    {
        proof {
            assert(v@.take(i + 1).drop_last() =~= v@.take(i as int));
        }
        let w = utf8_width_of(v[i]);
        if w > n - sum {
            proof {
                lemma_utf8_len_prefix(v@, i + 1);
            }
            return true;
        }
        sum = sum + w;
        i = i + 1;
    }
    proof {
        assert(v@.take(i as int) =~= v@);
    }
    false
}

} // verus!

verus! {

/// The UTF-8 length of `v` when it is at most `cap` bytes.
pub fn utf8_len_upto(v: &Vec<char>, cap: usize) -> (r: Option<usize>)
    ensures
        r matches Some(n) ==> n == utf8_len(v@) && n <= cap,
        r is None ==> utf8_len(v@) > cap,
{
    let mut sum: usize = 0;
    let mut i: usize = 0;
    while i < v.len()
        invariant
            i <= v@.len(),
            sum == utf8_len(v@.take(i as int)),
            sum <= cap,
        decreases v@.len() - i,
    {
        proof {
            assert(v@.take(i + 1).drop_last() =~= v@.take(i as int));
        }
        let w = utf8_width_of(v[i]);
        if w > cap - sum {
            proof {
                lemma_utf8_len_prefix(v@, i + 1);
            }
            return None;
        }
        sum = sum + w;
        i = i + 1;
    }
    proof {
        assert(v@.take(i as int) =~= v@);
    }
    Some(sum)
}

} // verus!
