//! Amounts written as text.
//!
//! An amount is read the way the invoice screens accept it: white space is
//! ignored, `1.234,56` and `1234,56` are Brazilian notation, several dots
//! are thousands separators except the last one, and what remains is a
//! signed decimal.  Amounts are held exactly, in cents, rounded half up at
//! the third decimal place.
use vstd::prelude::*;

use crate::numbers::{all_digits, digit_value, digits_value, parse_u64, parse_u64_chars, parse_nat};
use crate::text::{
    chars_of, concat_chars, contains_char, decimal, decimal_chars, is_digit, is_digit_char,
    is_ws, is_ws_char, slice_chars, string_of, trim, trim_chars, trim_end, trim_start,
};

verus! {

broadcast use vstd::string::group_string_axioms;

// ---------------------------------------------------------------------------
// Character edits
// ---------------------------------------------------------------------------

/// `s` without its white space.
pub open spec fn drop_ws(s: Seq<char>) -> Seq<char>
    decreases s.len(),
{
    if s.len() == 0 {
        seq![]
    } else if is_ws(s.last()) {
        drop_ws(s.drop_last())
    } else {
        drop_ws(s.drop_last()).push(s.last())
    }
}

/// `s` without any `c`.
pub open spec fn without_char(s: Seq<char>, c: char) -> Seq<char>
    decreases s.len(),
{
    if s.len() == 0 {
        seq![]
    } else if s.last() == c {
        without_char(s.drop_last(), c)
    } else {
        without_char(s.drop_last(), c).push(s.last())
    }
}

/// `s` with every `a` written as `b`.
pub open spec fn swap_char(s: Seq<char>, a: char, b: char) -> Seq<char>
    decreases s.len(),
{
    if s.len() == 0 {
        seq![]
    } else if s.last() == a {
        swap_char(s.drop_last(), a, b).push(b)
    } else {
        swap_char(s.drop_last(), a, b).push(s.last())
    }
}

/// How many times `c` occurs in `s`.
pub open spec fn count_char(s: Seq<char>, c: char) -> nat
    decreases s.len(),
{
    if s.len() == 0 {
        0
    } else if s.last() == c {
        count_char(s.drop_last(), c) + 1
    } else {
        count_char(s.drop_last(), c)
    }
}

/// The position of the last `c` in `s`, or -1.
pub open spec fn last_index(s: Seq<char>, c: char) -> int
    decreases s.len(),
{
    if s.len() == 0 {
        -1
    } else if s.last() == c {
        s.len() - 1
    } else {
        last_index(s.drop_last(), c)
    }
}

/// The characters a number may hold: digits, `.` and `-`.
pub open spec fn number_chars(s: Seq<char>) -> Seq<char>
    decreases s.len(),
{
    if s.len() == 0 {
        seq![]
    } else if is_digit(s.last()) || s.last() == '.' || s.last() == '-' {
        number_chars(s.drop_last()).push(s.last())
    } else {
        number_chars(s.drop_last())
    }
}

/// Every dot but the last removed.
pub open spec fn keep_last_dot(s: Seq<char>) -> Seq<char> {
    let i = last_index(s, '.');
    if i < 0 {
        s
    } else {
        without_char(s.take(i), '.') + s.skip(i)
    }
}

/// The decimal text an amount is read from.
pub open spec fn money_text(value: Seq<char>) -> Seq<char> {
    let s = drop_ws(trim(value));
    let t = if contains_char(s, ',') && contains_char(s, '.') {
        swap_char(without_char(s, '.'), ',', '.')
    } else if contains_char(s, ',') {
        swap_char(s, ',', '.')
    } else if count_char(s, '.') > 1 {
        keep_last_dot(s)
    } else {
        s
    };
    number_chars(t)
}

/// A signed decimal: an optional `-`, digits with at most one `.`, and at
/// least one digit; its sign, integer digits and fraction digits.
pub open spec fn decimal_parts(f: Seq<char>) -> Option<(bool, Seq<char>, Seq<char>)> {
    let neg = f.len() > 0 && f[0] == '-';
    let body = if neg {
        f.drop_first()
    } else {
        f
    };
    let i = last_index(body, '.');
    let ip = if i < 0 {
        body
    } else {
        body.take(i)
    };
    let fp = if i < 0 {
        seq![]
    } else {
        body.skip(i + 1)
    };
    if all_digits(ip) && all_digits(fp) && ip.len() + fp.len() > 0 {
        Some((neg, ip, fp))
    } else {
        None
    }
}

pub open spec fn frac_digit(fp: Seq<char>, k: int) -> nat {
    if 0 <= k < fp.len() {
        digit_value(fp[k])
    } else {
        0
    }
}

/// The value in cents, rounded half up at the third decimal place.
pub open spec fn cents_of(ip: Seq<char>, fp: Seq<char>) -> nat {
    digits_value(ip) * 100 + frac_digit(fp, 0) * 10 + frac_digit(fp, 1) + if frac_digit(fp, 2)
        >= 5 {
        1nat
    } else {
        0nat
    }
}

/// The sign and the size in cents of an amount written as text.
pub open spec fn money_amount(value: Seq<char>) -> Option<(bool, nat)> {
    match decimal_parts(money_text(value)) {
        Some((neg, ip, fp)) => Some((neg, cents_of(ip, fp))),
        None => None,
    }
}

// ---------------------------------------------------------------------------
// Executable edits
// ---------------------------------------------------------------------------

pub fn drop_ws_chars(v: &Vec<char>) -> (r: Vec<char>)
    ensures
        r@ == drop_ws(v@),
{
    let mut out: Vec<char> = Vec::new();
    for i in 0..v.len()
        invariant
            out@ == drop_ws(v@.take(i as int)),
    {
        proof {
            assert(v@.take(i + 1).drop_last() =~= v@.take(i as int));
        }
        if !is_ws_char(v[i]) {
            out.push(v[i]);
        }
    }
    proof {
        assert(v@.take(v.len() as int) =~= v@);
    }
    out
}

pub fn without_char_chars(v: &Vec<char>, c: char) -> (r: Vec<char>)
    ensures
        r@ == without_char(v@, c),
{
    let mut out: Vec<char> = Vec::new();
    for i in 0..v.len()
        invariant
            out@ == without_char(v@.take(i as int), c),
    {
        proof {
            assert(v@.take(i + 1).drop_last() =~= v@.take(i as int));
        }
        if v[i] != c {
            out.push(v[i]);
        }
    }
    proof {
        assert(v@.take(v.len() as int) =~= v@);
    }
    out
}

pub fn swap_char_chars(v: &Vec<char>, a: char, b: char) -> (r: Vec<char>)
    ensures
        r@ == swap_char(v@, a, b),
{
    let mut out: Vec<char> = Vec::new();
    for i in 0..v.len()
        invariant
            out@ == swap_char(v@.take(i as int), a, b),
    {
        proof {
            assert(v@.take(i + 1).drop_last() =~= v@.take(i as int));
        }
        if v[i] == a {
            out.push(b);
        } else {
            out.push(v[i]);
        }
    }
    proof {
        assert(v@.take(v.len() as int) =~= v@);
    }
    out
}

pub proof fn lemma_count_char_le(s: Seq<char>, c: char)
    ensures
        count_char(s, c) <= s.len(),
    decreases s.len(),
{
    if s.len() > 0 {
        lemma_count_char_le(s.drop_last(), c);
    }
}

pub fn count_char_chars(v: &Vec<char>, c: char) -> (r: usize)
    ensures
        r == count_char(v@, c),
{
    let mut n: usize = 0;
    for i in 0..v.len()
        invariant
            n == count_char(v@.take(i as int), c),
            n <= i,
    {
        proof {
            assert(v@.take(i + 1).drop_last() =~= v@.take(i as int));
        }
        if v[i] == c {
            n = n + 1;
        }
    }
    proof {
        assert(v@.take(v.len() as int) =~= v@);
    }
    n
}

pub proof fn lemma_last_index_bounds(s: Seq<char>, c: char)
    ensures
        -1 <= last_index(s, c) < s.len(),
        last_index(s, c) >= 0 ==> s[last_index(s, c)] == c,
        last_index(s, c) < 0 ==> !contains_char(s, c),
        forall|k: int| last_index(s, c) < k < s.len() ==> s[k] != c,
    decreases s.len(),
{
    if s.len() > 0 {
        lemma_last_index_bounds(s.drop_last(), c);
        if s.last() != c {
            if last_index(s, c) < 0 {
                assert forall|k: int| 0 <= k < s.len() implies s[k] != c by {
                    if k < s.len() - 1 {
                        assert(s.drop_last()[k] == s[k]);
                    }
                }
            } else {
                assert forall|k: int| last_index(s, c) < k < s.len() implies s[k] != c by {
                    if k < s.len() - 1 {
                        assert(s.drop_last()[k] == s[k]);
                    }
                }
            }
        }
    }
}

pub fn last_index_chars(v: &Vec<char>, c: char) -> (r: Option<usize>)
    ensures
        match r {
            Some(i) => last_index(v@, c) == i as int,
            None => last_index(v@, c) == -1,
        },
{
    let mut found: Option<usize> = None;
    for i in 0..v.len()
        invariant
            match found {
                Some(k) => last_index(v@.take(i as int), c) == k as int,
                None => last_index(v@.take(i as int), c) == -1,
            },
    {
        proof {
            assert(v@.take(i + 1).drop_last() =~= v@.take(i as int));
        }
        if v[i] == c {
            found = Some(i);
        }
    }
    proof {
        assert(v@.take(v.len() as int) =~= v@);
    }
    found
}

pub fn number_chars_of(v: &Vec<char>) -> (r: Vec<char>)
    ensures
        r@ == number_chars(v@),
{
    let mut out: Vec<char> = Vec::new();
    for i in 0..v.len()
        invariant
            out@ == number_chars(v@.take(i as int)),
    {
        proof {
            assert(v@.take(i + 1).drop_last() =~= v@.take(i as int));
        }
        if is_digit_char(v[i]) || v[i] == '.' || v[i] == '-' {
            out.push(v[i]);
        }
    }
    proof {
        assert(v@.take(v.len() as int) =~= v@);
    }
    out
}

pub fn contains_char_vec(v: &Vec<char>, c: char) -> (r: bool)
    ensures
        r == contains_char(v@, c),
{
    for i in 0..v.len()
        invariant
            forall|k: int| 0 <= k < i ==> v@[k] != c,
    {
        if v[i] == c {
            return true;
        }
    }
    false
}

/// The decimal text an amount is read from.
pub fn money_text_chars(value: &str) -> (r: Vec<char>)
    ensures
        r@ == money_text(value@),
{
    let raw = chars_of(value);
    let t = trim_chars(&raw);
    let s = drop_ws_chars(&t);
    let has_comma = contains_char_vec(&s, ',');
    let has_dot = contains_char_vec(&s, '.');
    let u = if has_comma && has_dot {
        let w = without_char_chars(&s, '.');
        swap_char_chars(&w, ',', '.')
    } else if has_comma {
        swap_char_chars(&s, ',', '.')
    } else if count_char_chars(&s, '.') > 1 {
        match last_index_chars(&s, '.') {
            Some(i) => {
                proof {
                    lemma_last_index_bounds(s@, '.');
                }
                let head = slice_chars(&s, 0, i);
                let tail = slice_chars(&s, i, s.len());
                let h = without_char_chars(&head, '.');
                proof {
                    assert(head@ =~= s@.take(i as int));
                    assert(tail@ =~= s@.skip(i as int));
                }
                concat_chars(&h, &tail)
            },
            None => crate::text::copy_chars(&s),
        }
    } else {
        crate::text::copy_chars(&s)
    };
    number_chars_of(&u)
}

// ---------------------------------------------------------------------------
// Amounts
// ---------------------------------------------------------------------------

/// An amount: its sign and its size in cents.
#[derive(Debug, Clone, Copy, PartialEq, Eq, Structural)]
pub struct Money {
    pub negative: bool,
    pub cents: u64,
}

/// The signed value of an amount, in cents.
pub open spec fn signed_cents(m: Money) -> int {
    if m.negative {
        -(m.cents as int)
    } else {
        m.cents as int
    }
}

/// What reading an amount gives, where its size fits in 64 bits.
pub open spec fn money_of(value: Seq<char>) -> Option<Money> {
    match money_amount(value) {
        Some((neg, c)) => if c <= u64::MAX {
            Some(Money { negative: neg, cents: c as u64 })
        } else {
            None
        },
        None => None,
    }
}

proof fn lemma_digits_prefix_all(s: Seq<char>, i: int)
    requires
        all_digits(s),
        0 <= i <= s.len(),
    ensures
        all_digits(s.take(i)),
        all_digits(s.skip(i)),
{
    assert forall|k: int| 0 <= k < s.take(i).len() implies is_digit(#[trigger] s.take(i)[k]) by {
        assert(s.take(i)[k] == s[k]);
    }
    assert forall|k: int| 0 <= k < s.skip(i).len() implies is_digit(#[trigger] s.skip(i)[k]) by {
        assert(s.skip(i)[k] == s[k + i]);
    }
}

fn all_digits_chars(v: &Vec<char>) -> (r: bool)
    ensures
        r == all_digits(v@),
{
    for i in 0..v.len()
        invariant
            forall|k: int| 0 <= k < i ==> is_digit(#[trigger] v@[k]),
    {
        if !is_digit_char(v[i]) {
            return false;
        }
    }
    true
}

fn frac_digit_of(fp: &Vec<char>, k: usize) -> (r: u64)
    requires
        all_digits(fp@),
    ensures
        r == frac_digit(fp@, k as int),
        r <= 9,
{
    if k < fp.len() {
        let c = fp[k];
        assert(is_digit(fp@[k as int]));
        (c as u32 - 48) as u64
    } else {
        0
    }
}

/// The sign, integer digits and fraction digits of an amount written as
/// text, as `decimal_parts(money_text(value))`.
pub fn money_parts(value: &str) -> (r: Option<(bool, Vec<char>, Vec<char>)>)
    ensures
        match r {
            Some((n, ip, fp)) => decimal_parts(money_text(value@)) == Some((n, ip@, fp@)),
            None => decimal_parts(money_text(value@)) is None,
        },
{
    let f = money_text_chars(value);
    let neg = f.len() > 0 && f[0] == '-';
    let body = if neg {
        slice_chars(&f, 1, f.len())
    } else {
        slice_chars(&f, 0, f.len())
    };
    proof {
        if neg {
            assert(body@ =~= f@.drop_first());
        } else {
            assert(body@ =~= f@);
        }
    }
    let dot = last_index_chars(&body, '.');
    proof {
        lemma_last_index_bounds(body@, '.');
    }
    let (ip, fp) = match dot {
        Some(i) => (slice_chars(&body, 0, i), slice_chars(&body, i + 1, body.len())),
        None => (slice_chars(&body, 0, body.len()), Vec::new()),
    };
    proof {
        match dot {
            Some(i) => {
                assert(ip@ =~= body@.take(i as int));
                assert(fp@ =~= body@.skip(i + 1));
            },
            None => {
                assert(ip@ =~= body@);
                assert(fp@ =~= Seq::<char>::empty());
            },
        }
    }
    if !all_digits_chars(&ip) || !all_digits_chars(&fp) || ip.len() + fp.len() == 0 {
        return None;
    }
    Some((neg, ip, fp))
}

/// Reads an amount written as text.  `None` where the text holds no signed
/// decimal, or where its size in cents does not fit in 64 bits.
pub fn parse_money(value: &str) -> (r: Option<Money>)
    ensures
        r == money_of(value@),
{
    let (neg, ip, fp) = match money_parts(value) {
        Some(p) => p,
        None => {
            return None;
        },
    };
    let whole: u64 = if ip.len() == 0 {
        0
    } else {
        match parse_u64_chars(&ip) {
            Some(w) => {
                proof {
                    if ip@.len() > 0 && ip@[0] == '+' {
                        assert(!is_digit(ip@[0]));
                    }
                    assert(parse_nat(ip@) == Some(digits_value(ip@)));
                }
                w
            },
            None => {
                proof {
                    if ip@[0] == '+' {
                        assert(!is_digit(ip@[0]));
                    }
                    assert(parse_nat(ip@) == Some(digits_value(ip@)));
                    assert(digits_value(ip@) > u64::MAX);
                    assert(cents_of(ip@, fp@) > u64::MAX) by (nonlinear_arith)
                        requires
                            digits_value(ip@) > u64::MAX,
                            cents_of(ip@, fp@) >= digits_value(ip@) * 100,
                    ;
                }
                return None;
            },
        }
    };
    proof {
        if ip@.len() == 0 {
            assert(digits_value(ip@) == 0);
        }
    }
    let d0 = frac_digit_of(&fp, 0);
    let d1 = frac_digit_of(&fp, 1);
    let d2 = frac_digit_of(&fp, 2);
    let up: u128 = if d2 >= 5 {
        1
    } else {
        0
    };
    let total: u128 = (whole as u128) * 100 + (d0 as u128) * 10 + (d1 as u128) + up;
    if total > 0xffff_ffff_ffff_ffffu128 {
        return None;
    }
    Some(Money { negative: neg, cents: total as u64 })
}

/// Whether some digit of a text is not zero.
pub open spec fn has_nonzero_digit(s: Seq<char>) -> bool {
    exists|k: int| 0 <= k < s.len() && s[k] != '0'
}

/// Whether an amount read from text is above zero: unsigned, with some
/// digit that is not zero.
pub open spec fn money_positive(value: Seq<char>) -> bool {
    match decimal_parts(money_text(value)) {
        Some((neg, ip, fp)) => !neg && (has_nonzero_digit(ip) || has_nonzero_digit(fp)),
        None => false,
    }
}

fn has_nonzero_digit_exec(v: &Vec<char>) -> (r: bool)
    ensures
        r == has_nonzero_digit(v@),
{
    for i in 0..v.len()
        invariant
            forall|k: int| 0 <= k < i ==> v@[k] == '0',
    {
        if v[i] != '0' {
            return true;
        }
    }
    false
}

/// Whether an amount written as text is above zero.
pub fn is_money_positive(value: &str) -> (r: bool)
    ensures
        r == money_positive(value@),
{
    match money_parts(value) {
        Some((neg, ip, fp)) => !neg && (has_nonzero_digit_exec(&ip) || has_nonzero_digit_exec(&fp)),
        None => false,
    }
}

/// Two digits of a number below one hundred.
pub open spec fn two_digits(n: nat) -> Seq<char> {
    seq![('0' as int + n / 10) as char, ('0' as int + n % 10) as char]
}

/// `format!("{:.2}", x)`: the sign, the units and two decimals.
pub open spec fn money_format(m: Money) -> Seq<char> {
    (if m.negative {
        seq!['-']
    } else {
        seq![]
    }) + decimal((m.cents / 100) as nat) + seq!['.'] + two_digits((m.cents % 100) as nat)
}

/// Writes an amount with two decimals.
pub fn format_money2(m: Money) -> (r: String)
    ensures
        r@ == money_format(m),
{
    let mut out: Vec<char> = Vec::new();
    if m.negative {
        out.push('-');
    }
    let units = decimal_chars((m.cents / 100) as u128);
    let mut out = concat_chars(&out, &units);
    out.push('.');
    let rest = m.cents % 100;
    out.push((((rest / 10) as u8) + 48) as char);
    out.push((((rest % 10) as u8) + 48) as char);
    proof {
        assert(out@ =~= money_format(m));
    }
    string_of(&out)
}

/// The amount in two decimals, `0.00` where the text holds none.
pub open spec fn money2_text(value: Seq<char>) -> Seq<char> {
    match money_of(value) {
        Some(m) => money_format(m),
        None => seq!['0', '.', '0', '0'],
    }
}

/// Rewrites an amount written as text with two decimals.
pub fn to_money2(value: &str) -> (r: String)
    ensures
        r@ == money2_text(value@),
{
    match parse_money(value) {
        Some(m) => format_money2(m),
        None => {
            let mut out: Vec<char> = Vec::new();
            out.push('0');
            out.push('.');
            out.push('0');
            out.push('0');
            proof {
                assert(out@ =~= seq!['0', '.', '0', '0']);
            }
            string_of(&out)
        },
    }
}

// ---------------------------------------------------------------------------
// Reading back what was written
// ---------------------------------------------------------------------------

/// A character that can stand in a written amount: a digit, `.` or `-`.
pub open spec fn amount_char(c: char) -> bool {
    is_digit(c) || c == '.' || c == '-'
}

pub open spec fn amount_chars_only(s: Seq<char>) -> bool {
    forall|k: int| 0 <= k < s.len() ==> amount_char(#[trigger] s[k])
}

proof fn lemma_decimal_digits(n: nat)
    ensures
        decimal(n).len() > 0,
        all_digits(decimal(n)),
        digits_value(decimal(n)) == n,
    decreases n,
{
    if n >= 10 {
        lemma_decimal_digits(n / 10);
        let d = decimal(n / 10);
        let c = ('0' as int + (n % 10)) as char;
        assert(decimal(n) == d.push(c));
        assert(decimal(n).drop_last() =~= d);
        assert(decimal(n).last() == c);
        assert(digit_value(c) == n % 10);
        assert(digits_value(decimal(n)) == digits_value(d) * 10 + digit_value(c));
        assert((n / 10) * 10 + n % 10 == n) by (nonlinear_arith);
        assert forall|k: int| 0 <= k < decimal(n).len() implies is_digit(#[trigger] decimal(n)[k]) by {
            if k < d.len() {
                assert(decimal(n)[k] == d[k]);
            }
        }
    } else {
        let c = ('0' as int + n) as char;
        assert(decimal(n) == seq![c]);
        assert(decimal(n).drop_last() =~= Seq::<char>::empty());
        assert(decimal(n).last() == c);
        assert(digit_value(c) == n);
        assert(digits_value(decimal(n)) == digits_value(Seq::<char>::empty()) * 10 + digit_value(c));
    }
}

/// An amount written with two decimals is plain ASCII: a sign, digits
/// and a point.
pub proof fn lemma_money2_ascii(value: Seq<char>)
    ensures
        forall|k: int| 0 <= k < money2_text(value).len() ==> (#[trigger] money2_text(value)[k] as int) < 0x80,
{
    match money_of(value) {
        Some(m) => {
            let sign: Seq<char> = if m.negative { seq!['-'] } else { seq![] };
            let u = decimal((m.cents / 100) as nat);
            let t = two_digits((m.cents % 100) as nat);
            lemma_decimal_digits((m.cents / 100) as nat);
            let w = money_format(m);
            assert(w == sign + u + seq!['.'] + t);
            assert forall|k: int| 0 <= k < w.len() implies (#[trigger] w[k] as int) < 0x80 by {
                if k < sign.len() {
                    assert(w[k] == sign[k]);
                } else if k < sign.len() + u.len() {
                    assert(w[k] == u[k - sign.len()]);
                    assert(is_digit(u[k - sign.len()]));
                } else if k == sign.len() + u.len() {
                    assert(w[k] == '.');
                } else {
                    assert(w[k] == t[k - sign.len() - u.len() - 1]);
                }
            }
        },
        None => {},
    }
}

proof fn lemma_drop_ws_keeps(s: Seq<char>)
    requires
        forall|k: int| 0 <= k < s.len() ==> !is_ws(#[trigger] s[k]),
    ensures
        drop_ws(s) == s,
    decreases s.len(),
{
    if s.len() > 0 {
        assert(!is_ws(s[s.len() - 1]));
        lemma_drop_ws_keeps(s.drop_last());
        assert(s.drop_last().push(s.last()) =~= s);
    }
}

proof fn lemma_number_chars_keeps(s: Seq<char>)
    requires
        amount_chars_only(s),
    ensures
        number_chars(s) == s,
    decreases s.len(),
{
    if s.len() > 0 {
        assert(amount_char(s[s.len() - 1]));
        lemma_number_chars_keeps(s.drop_last());
        assert(s.drop_last().push(s.last()) =~= s);
    }
}

proof fn lemma_count_char_append(a: Seq<char>, b: Seq<char>, c: char)
    ensures
        count_char(a + b, c) == count_char(a, c) + count_char(b, c),
    decreases b.len(),
{
    if b.len() > 0 {
        assert((a + b).drop_last() =~= a + b.drop_last());
        assert((a + b).last() == b.last());
        lemma_count_char_append(a, b.drop_last(), c);
    } else {
        assert(a + b =~= a);
    }
}

proof fn lemma_last_index_append(a: Seq<char>, b: Seq<char>, c: char)
    requires
        forall|k: int| 0 <= k < b.len() ==> #[trigger] b[k] != c,
    ensures
        last_index(a + b, c) == last_index(a, c),
    decreases b.len(),
{
    if b.len() > 0 {
        assert((a + b).drop_last() =~= a + b.drop_last());
        assert((a + b).last() == b[b.len() - 1]);
        lemma_last_index_append(a, b.drop_last(), c);
    } else {
        assert(a + b =~= a);
    }
}

/// The pieces of a written amount.
pub open spec fn format_pieces(m: Money) -> (Seq<char>, Seq<char>, Seq<char>) {
    let sign: Seq<char> = if m.negative {
        seq!['-']
    } else {
        seq![]
    };
    (sign, decimal((m.cents / 100) as nat), two_digits((m.cents % 100) as nat))
}

proof fn lemma_format_chars(m: Money)
    ensures
        money_format(m).len() > 0,
        amount_chars_only(money_format(m)),
        money_format(m) =~= format_pieces(m).0 + (format_pieces(m).1 + seq!['.'] + format_pieces(m).2),
        all_digits(format_pieces(m).1),
        format_pieces(m).1.len() > 0,
        all_digits(format_pieces(m).2),
        format_pieces(m).2.len() == 2,
{
    let (sign, d, t) = format_pieces(m);
    let s = money_format(m);
    lemma_decimal_digits((m.cents / 100) as nat);
    assert(s =~= sign + (d + seq!['.'] + t));
    assert(is_digit(t[0]) && is_digit(t[1]));
    assert forall|k: int| 0 <= k < s.len() implies amount_char(#[trigger] s[k]) by {
        if k < sign.len() {
        } else if k < sign.len() + d.len() {
            assert(s[k] == d[k - sign.len()]);
        } else if k == sign.len() + d.len() {
        } else {
            assert(s[k] == t[k - sign.len() - d.len() - 1]);
        }
    }
}

proof fn lemma_format_reads_unchanged(m: Money)
    ensures
        money_text(money_format(m)) == money_format(m),
{
    let (sign, d, t) = format_pieces(m);
    let body = d + seq!['.'] + t;
    let s = money_format(m);
    lemma_format_chars(m);
    assert forall|k: int| 0 <= k < s.len() implies !is_ws(#[trigger] s[k]) by {
        assert(amount_char(s[k]));
    }
    assert(!is_ws(s[0]));
    assert(trim_start(s) == s);
    assert(!is_ws(s[s.len() - 1]));
    assert(trim_end(s) == s);
    lemma_drop_ws_keeps(s);
    assert forall|k: int| 0 <= k < s.len() implies #[trigger] s[k] != ',' by {
        assert(amount_char(s[k]));
    }
    assert(!contains_char(s, ','));
    assert forall|k: int| 0 <= k < t.len() implies #[trigger] t[k] != '.' by {}
    assert forall|k: int| 0 <= k < d.len() implies #[trigger] d[k] != '.' by {}
    assert forall|k: int| 0 <= k < sign.len() implies #[trigger] sign[k] != '.' by {}
    lemma_count_none(t, '.');
    lemma_count_none(d, '.');
    lemma_count_none(sign, '.');
    assert(count_char(seq!['.'], '.') == 1) by {
        let one: Seq<char> = seq!['.'];
        assert(one.len() == 1);
        assert(one.last() == '.');
        assert(one.drop_last() =~= Seq::<char>::empty());
        assert(count_char(Seq::<char>::empty(), '.') == 0);
    }
    lemma_count_char_append(d, seq!['.'], '.');
    lemma_count_char_append(d + seq!['.'], t, '.');
    lemma_count_char_append(sign, body, '.');
    assert(count_char(s, '.') == 1);
    lemma_number_chars_keeps(s);
}

proof fn lemma_format_parts(m: Money)
    ensures
        decimal_parts(money_format(m)) == Some((m.negative, format_pieces(m).1, format_pieces(m).2)),
{
    let (sign, d, t) = format_pieces(m);
    let body = d + seq!['.'] + t;
    let s = money_format(m);
    lemma_format_chars(m);
    assert((s[0] == '-') == m.negative) by {
        if !m.negative {
            assert(s[0] == d[0]);
            assert(is_digit(d[0]));
        }
    }
    let b2 = if m.negative {
        s.drop_first()
    } else {
        s
    };
    assert(b2 =~= body);
    assert forall|k: int| 0 <= k < t.len() implies #[trigger] t[k] != '.' by {}
    lemma_last_index_append(d + seq!['.'], t, '.');
    assert(last_index(d + seq!['.'], '.') == d.len()) by {
        assert((d + seq!['.']).last() == '.');
    }
    assert(body.take(d.len() as int) =~= d);
    assert(body.skip(d.len() as int + 1) =~= t);
}

/// Reading back an amount written with two decimals gives the same amount:
/// its sign and its cents.
pub proof fn law_money_read_back(m: Money)
    ensures
        money_of(money_format(m)) == Some(m),
{
    let (sign, d, t) = format_pieces(m);
    let u = (m.cents / 100) as nat;
    let r = (m.cents % 100) as nat;
    lemma_format_reads_unchanged(m);
    lemma_format_parts(m);
    lemma_decimal_digits(u);
    assert(frac_digit(t, 0) == r / 10);
    assert(frac_digit(t, 1) == r % 10);
    assert(frac_digit(t, 2) == 0);
    assert(r / 10 * 10 + r % 10 == r) by (nonlinear_arith);
    assert(u * 100 + r == m.cents) by (nonlinear_arith)
        requires
            u == m.cents / 100,
            r == m.cents % 100,
    ;
    assert(cents_of(d, t) == m.cents);
}

proof fn lemma_count_none(s: Seq<char>, c: char)
    requires
        forall|k: int| 0 <= k < s.len() ==> #[trigger] s[k] != c,
    ensures
        count_char(s, c) == 0,
    decreases s.len(),
{
    if s.len() > 0 {
        assert(s[s.len() - 1] != c);
        lemma_count_none(s.drop_last(), c);
    }
}

} // verus!
