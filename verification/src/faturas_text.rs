//! Small text rules of the invoice (faturas) tool: dates, file kinds,
//! bounded message lists, the log, CSV cells and fixed-width fields.
use vstd::prelude::*;

use crate::faturas::{NfeFaturasCounts, NfeFaturasLogItem, NfeFaturasSettings};
use crate::numbers::{parse_nat, parse_u64_chars, parse_u64};
use crate::text::{
    append_chars, byte_prefix, is_digit, byte_prefix_chars, chars_of, chars_of_string, concat_chars,
    contains_char, contains_char_chars, contains_text, contains_chars, copy_chars, digits, ends_with,
    ends_with_chars, lower_chars, lower_seq, only_digits_chars, replace, replace_chars, slice_chars,
    string_of, trim, trim_chars, utf8_len, utf8_len_upto, utf8_width, zero_pad, zero_pad_chars,
};

verus! {

broadcast use vstd::string::group_string_axioms;

// ---------------------------------------------------------------------------
// Dates
// ---------------------------------------------------------------------------

/// Whether byte `b` of the UTF-8 encoding of `s` starts a character.
pub open spec fn boundary_at(s: Seq<char>, b: int) -> bool {
    utf8_len(byte_prefix(s, b)) == b
}

/// The index of the character that starts at byte `b`.
pub open spec fn index_at(s: Seq<char>, b: int) -> int {
    byte_prefix(s, b).len() as int
}

/// Whether byte `b` of `s` is a `-`.
pub open spec fn dash_at(s: Seq<char>, b: int) -> bool {
    boundary_at(s, b) && index_at(s, b) < s.len() && s[index_at(s, b)] == '-'
}

/// An ISO date at the start: ten bytes, with `-` at bytes 4 and 7.
pub open spec fn iso_start(s: Seq<char>) -> bool {
    boundary_at(s, 10) && dash_at(s, 4) && dash_at(s, 7)
}

/// The digits `DDMMYYYY` of a date written `YYYY-MM-DD...` or with its
/// digits in order; from other texts their first eight digits (or all of
/// them when fewer).
pub open spec fn date_digits(value: Seq<char>) -> Seq<char> {
    let s = trim(value);
    if s.len() == 0 {
        seq![]
    } else if iso_start(s) {
        let a = index_at(s, 4);
        let b = index_at(s, 7);
        let c = index_at(s, 10);
        s.subrange(b + 1, c) + s.subrange(a + 1, b) + s.take(a)
    } else {
        let d = digits(s);
        if d.len() >= 8 {
            d.take(8)
        } else {
            d
        }
    }
}

pub proof fn lemma_byte_prefix_is_prefix(s: Seq<char>, b: int)
    ensures
        byte_prefix(s, b).len() <= s.len(),
        byte_prefix(s, b) == s.take(byte_prefix(s, b).len() as int),
    decreases s.len(),
{
    if !(b <= 0 || s.len() == 0) {
        lemma_byte_prefix_is_prefix(s.drop_first(), b - utf8_width(s[0]));
        let t = byte_prefix(s.drop_first(), b - utf8_width(s[0]));
        assert(seq![s[0]] + t =~= s.take(t.len() as int + 1));
    }
}

pub proof fn lemma_byte_prefix_mono(s: Seq<char>, b1: int, b2: int)
    requires
        b1 <= b2,
    ensures
        byte_prefix(s, b1).len() <= byte_prefix(s, b2).len(),
    decreases s.len(),
{
    if !(b1 <= 0 || s.len() == 0) {
        lemma_byte_prefix_mono(s.drop_first(), b1 - utf8_width(s[0]), b2 - utf8_width(s[0]));
    }
}

proof fn lemma_iso_order(s: Seq<char>)
    requires
        iso_start(s),
    ensures
        0 <= index_at(s, 4) < index_at(s, 7) < index_at(s, 10) <= s.len(),
{
    lemma_byte_prefix_mono(s, 4, 7);
    lemma_byte_prefix_mono(s, 7, 10);
    lemma_byte_prefix_is_prefix(s, 4);
    lemma_byte_prefix_is_prefix(s, 7);
    lemma_byte_prefix_is_prefix(s, 10);
    if index_at(s, 4) == index_at(s, 7) {
        assert(byte_prefix(s, 4) == byte_prefix(s, 7));
    }
    if index_at(s, 7) == index_at(s, 10) {
        assert(byte_prefix(s, 7) == byte_prefix(s, 10));
    }
}

fn boundary_index(s: &Vec<char>, b: usize) -> (r: Option<usize>)
    ensures
        match r {
            Some(k) => boundary_at(s@, b as int) && k as int == index_at(s@, b as int),
            None => !boundary_at(s@, b as int),
        },
{
    let p = byte_prefix_chars(s, b);
    match utf8_len_upto(&p, b) {
        Some(n) => {
            if n == b {
                Some(p.len())
            } else {
                None
            }
        },
        None => None,
    }
}

fn dash_index(s: &Vec<char>, b: usize) -> (r: Option<usize>)
    ensures
        match r {
            Some(k) => dash_at(s@, b as int) && k as int == index_at(s@, b as int),
            None => !dash_at(s@, b as int),
        },
{
    match boundary_index(s, b) {
        Some(k) => {
            if k < s.len() && s[k] == '-' {
                Some(k)
            } else {
                None
            }
        },
        None => None,
    }
}

/// The digits `DDMMYYYY` of a date (see `date_digits`).
pub fn ddmmyyyy_to_digits(value: &str) -> (r: String)
    ensures
        r@ == date_digits(value@),
{
    let raw = chars_of(value);
    let s = trim_chars(&raw);
    if s.len() == 0 {
        return String::new();
    }
    let ten = boundary_index(&s, 10);
    let four = dash_index(&s, 4);
    let seven = dash_index(&s, 7);
    if let (Some(c), Some(a), Some(b)) = (ten, four, seven) {
        proof {
            lemma_iso_order(s@);
        }
        let day = slice_chars(&s, b + 1, c);
        let month = slice_chars(&s, a + 1, b);
        let year = slice_chars(&s, 0, a);
        let dm = concat_chars(&day, &month);
        let out = concat_chars(&dm, &year);
        proof {
            assert(year@ =~= s@.take(a as int));
        }
        return string_of(&out);
    }
    let d = only_digits_chars(&s);
    if d.len() >= 8 {
        let first = slice_chars(&d, 0, 8);
        proof {
            assert(first@ =~= d@.take(8));
        }
        string_of(&first)
    } else {
        string_of(&d)
    }
}

/// `DD/MM/YYYY` from exactly eight digits, else the empty text.
pub open spec fn br_date(value: Seq<char>) -> Seq<char> {
    let d = digits(value);
    if d.len() != 8 {
        seq![]
    } else {
        d.subrange(0, 2) + seq!['/'] + d.subrange(2, 4) + seq!['/'] + d.subrange(4, 8)
    }
}

/// Eight digits.
pub open spec fn eight_digits(d: Seq<char>) -> bool {
    d.len() == 8 && forall|i: int| 0 <= i < 8 ==> is_digit(#[trigger] d[i])
}

/// Eight digits written `DD/MM/YYYY`.
pub open spec fn slashed(d: Seq<char>) -> Seq<char> {
    d.subrange(0, 2) + seq!['/'] + d.subrange(2, 4) + seq!['/'] + d.subrange(4, 8)
}

proof fn lemma_ascii_byte_prefix(s: Seq<char>, b: int)
    requires
        0 <= b <= s.len(),
        forall|i: int| 0 <= i < s.len() ==> (#[trigger] s[i] as int) < 0x80,
    ensures
        byte_prefix(s, b) == s.take(b),
    decreases s.len(),
{
    if b > 0 {
        assert(utf8_width(s[0]) == 1);
        assert forall|i: int| 0 <= i < s.drop_first().len() implies (#[trigger] s.drop_first()[i] as int) < 0x80 by {
            assert(s.drop_first()[i] == s[i + 1]);
        }
        lemma_ascii_byte_prefix(s.drop_first(), b - 1);
        assert(seq![s[0]] + s.drop_first().take(b - 1) =~= s.take(b));
    } else {
        assert(s.take(0) =~= Seq::<char>::empty());
    }
}

proof fn lemma_slashed_digits(d: Seq<char>)
    requires
        eight_digits(d),
    ensures
        date_digits(slashed(d)) == d,
{
    let x = slashed(d);
    assert(x.len() == 10);
    assert(x[0] == d[0] && x[9] == d[7]);
    crate::text::lemma_trim_solid(x);
    assert forall|i: int| 0 <= i < x.len() implies (#[trigger] x[i] as int) < 0x80 by {
        if i < 2 {
            assert(x[i] == d[i]);
        } else if 2 < i < 5 {
            assert(x[i] == d[i - 1]);
        } else if 5 < i {
            assert(x[i] == d[i - 2]);
        }
    }
    lemma_ascii_byte_prefix(x, 4);
    assert(x[4] == d[3]);
    assert(!dash_at(x, 4));
    let p1 = d.subrange(0, 2);
    let p2 = d.subrange(2, 4);
    let p3 = d.subrange(4, 8);
    assert forall|i: int| 0 <= i < p1.len() implies is_digit(#[trigger] p1[i]) by {
        assert(p1[i] == d[i]);
    }
    assert forall|i: int| 0 <= i < p2.len() implies is_digit(#[trigger] p2[i]) by {
        assert(p2[i] == d[i + 2]);
    }
    assert forall|i: int| 0 <= i < p3.len() implies is_digit(#[trigger] p3[i]) by {
        assert(p3[i] == d[i + 4]);
    }
    crate::text::lemma_digits_of_digits(p1);
    crate::text::lemma_digits_of_digits(p2);
    crate::text::lemma_digits_of_digits(p3);
    let sl: Seq<char> = seq!['/'];
    assert(digits(sl) =~= Seq::<char>::empty()) by {
        assert(sl.drop_last() =~= Seq::<char>::empty());
        assert(!is_digit(sl.last()));
        assert(digits(sl) == digits(sl.drop_last()));
        assert(digits(Seq::<char>::empty()) =~= Seq::<char>::empty());
    }
    crate::text::lemma_digits_concat(p1, sl);
    crate::text::lemma_digits_concat(p1 + sl, p2);
    crate::text::lemma_digits_concat(p1 + sl + p2, sl);
    crate::text::lemma_digits_concat(p1 + sl + p2 + sl, p3);
    assert(digits(x) =~= d);
    assert(d.take(8) =~= d);
}

/// The two ways of writing a date go back and forth: eight digits written
/// `DD/MM/YYYY` read back as the same digits, and a `DD/MM/YYYY` text of
/// digits read as digits writes back as the same text.
pub proof fn law_date_forms_round_trip(d: Seq<char>)
    requires
        eight_digits(d),
    ensures
        date_digits(br_date(d)) == d,
        br_date(date_digits(slashed(d))) == slashed(d),
{
    crate::text::lemma_digits_of_digits(d);
    lemma_slashed_digits(d);
}

/// Writes eight digits as `DD/MM/YYYY` (the empty text otherwise).
pub fn digits_to_br_date(value: &str) -> (r: String)
    ensures
        r@ == br_date(value@),
{
    let v = chars_of(value);
    let d = only_digits_chars(&v);
    if d.len() != 8 {
        return String::new();
    }
    let mut out = slice_chars(&d, 0, 2);
    out.push('/');
    let mm = slice_chars(&d, 2, 4);
    append_chars(&mut out, &mm);
    out.push('/');
    let yy = slice_chars(&d, 4, 8);
    append_chars(&mut out, &yy);
    proof {
        assert(out@ =~= br_date(value@));
    }
    string_of(&out)
}

/// Whether a text holds exactly eight digits.
pub fn is_valid_dig_date(value: &str) -> (r: bool)
    ensures
        r == (digits(value@).len() == 8),
{
    let v = chars_of(value);
    only_digits_chars(&v).len() == 8
}

// ---------------------------------------------------------------------------
// File kinds
// ---------------------------------------------------------------------------

/// The kind of an input by the end of its name, in any ASCII case.
pub open spec fn kind_of_name(name: Seq<char>) -> Seq<char> {
    let l = lower_seq(name);
    if ends_with(l, seq!['.', 'x', 'm', 'l']) {
        seq!['x', 'm', 'l']
    } else if ends_with(l, seq!['.', 'z', 'i', 'p']) {
        seq!['z', 'i', 'p']
    } else if ends_with(l, seq!['.', 's', 'p', 'e', 'd']) || ends_with(l, seq!['.', 't', 'x', 't']) {
        seq!['s', 'p', 'e', 'd']
    } else if ends_with(l, seq!['.', 'c', 's', 'v']) {
        seq!['c', 's', 'v']
    } else {
        seq!['u', 'n', 'k', 'n', 'o', 'w', 'n']
    }
}

fn word(s: &str) -> (r: Vec<char>)
    ensures
        r@ == s@,
{
    chars_of(s)
}

/// The kind of an input: `xml`, `zip`, `sped` (`.sped` or `.txt`), `csv`
/// or `unknown`.
pub fn classify_kind_from_name(name: &str) -> (r: String)
    ensures
        r@ == kind_of_name(name@),
{
    let raw = chars_of(name);
    let l = lower_chars(&raw);
    let xml = word(".xml");
    let zip = word(".zip");
    let sped = word(".sped");
    let txt = word(".txt");
    let csv = word(".csv");
    proof {
        reveal_strlit(".xml");
        reveal_strlit(".zip");
        reveal_strlit(".sped");
        reveal_strlit(".txt");
        reveal_strlit(".csv");
        reveal_strlit("xml");
        reveal_strlit("zip");
        reveal_strlit("sped");
        reveal_strlit("csv");
        reveal_strlit("unknown");
        assert(xml@ =~= seq!['.', 'x', 'm', 'l']);
        assert(zip@ =~= seq!['.', 'z', 'i', 'p']);
        assert(sped@ =~= seq!['.', 's', 'p', 'e', 'd']);
        assert(txt@ =~= seq!['.', 't', 'x', 't']);
        assert(csv@ =~= seq!['.', 'c', 's', 'v']);
    }
    if ends_with_chars(&l, &xml) {
        "xml".to_string()
    } else if ends_with_chars(&l, &zip) {
        "zip".to_string()
    } else if ends_with_chars(&l, &sped) || ends_with_chars(&l, &txt) {
        "sped".to_string()
    } else if ends_with_chars(&l, &csv) {
        "csv".to_string()
    } else {
        "unknown".to_string()
    }
}

/// Whether a text looks like an NF-e document.
pub open spec fn xml_like(text: Seq<char>) -> bool {
    let t = lower_seq(text);
    contains_text(t, seq!['<', 'n', 'f', 'e']) || contains_text(t, seq!['<', 'i', 'n', 'f', 'n', 'f', 'e'])
        || contains_text(t, seq!['<', 'n', 'f', 'e', 'p', 'r', 'o', 'c'])
}

/// Whether a text holds `<nfe`, `<infnfe` or `<nfeproc` in any ASCII case.
pub fn looks_like_xml(text: &str) -> (r: bool)
    ensures
        r == xml_like(text@),
{
    let raw = chars_of(text);
    let t = lower_chars(&raw);
    let a = word("<nfe");
    let b = word("<infnfe");
    let c = word("<nfeproc");
    proof {
        reveal_strlit("<nfe");
        reveal_strlit("<infnfe");
        reveal_strlit("<nfeproc");
        assert(a@ =~= seq!['<', 'n', 'f', 'e']);
        assert(b@ =~= seq!['<', 'i', 'n', 'f', 'n', 'f', 'e']);
        assert(c@ =~= seq!['<', 'n', 'f', 'e', 'p', 'r', 'o', 'c']);
    }
    contains_chars(&t, &a) || contains_chars(&t, &b) || contains_chars(&t, &c)
}

/// Whether a text looks like a SPED file.
pub open spec fn sped_like(text: Seq<char>) -> bool {
    contains_text(text, seq!['|', 'C', '1', '0', '0', '|']) || contains_text(text, seq!['|', '0', '1', '5', '0', '|'])
        || contains_text(text, seq!['|', '0', '0', '0', '0', '|'])
}

/// Whether a text holds a `|C100|`, `|0150|` or `|0000|` record.
pub fn looks_like_sped(text: &str) -> (r: bool)
    ensures
        r == sped_like(text@),
{
    let t = chars_of(text);
    let a = word("|C100|");
    let b = word("|0150|");
    let c = word("|0000|");
    proof {
        reveal_strlit("|C100|");
        reveal_strlit("|0150|");
        reveal_strlit("|0000|");
        assert(a@ =~= seq!['|', 'C', '1', '0', '0', '|']);
        assert(b@ =~= seq!['|', '0', '1', '5', '0', '|']);
        assert(c@ =~= seq!['|', '0', '0', '0', '0', '|']);
    }
    contains_chars(&t, &a) || contains_chars(&t, &b) || contains_chars(&t, &c)
}

pub open spec fn names_view(v: Seq<String>) -> Seq<Seq<char>> {
    v.map_values(|s: String| s@)
}

/// How many names of each kind a list holds: `(xml, sped, zip)`.
pub open spec fn kind_counts(names: Seq<Seq<char>>) -> (nat, nat, nat)
    decreases names.len(),
{
    if names.len() == 0 {
        (0, 0, 0)
    } else {
        let c = kind_counts(names.drop_last());
        let k = kind_of_name(names.last());
        if k == seq!['x', 'm', 'l'] {
            (c.0 + 1, c.1, c.2)
        } else if k == seq!['s', 'p', 'e', 'd'] {
            (c.0, c.1 + 1, c.2)
        } else if k == seq!['z', 'i', 'p'] {
            (c.0, c.1, c.2 + 1)
        } else {
            c
        }
    }
}

proof fn lemma_kind_counts_bound(names: Seq<Seq<char>>)
    ensures
        kind_counts(names).0 + kind_counts(names).1 + kind_counts(names).2 <= names.len(),
    decreases names.len(),
{
    if names.len() > 0 {
        lemma_kind_counts_bound(names.drop_last());
    }
}

/// Counts the inputs of each kind by their file names.
pub fn count_input_files(names: &Vec<String>) -> (r: NfeFaturasCounts)
    ensures
        (r.xml as nat, r.sped as nat, r.zip as nat) == kind_counts(names_view(names@)),
{
    let mut xml: usize = 0;
    let mut sped: usize = 0;
    let mut zip: usize = 0;
    for i in 0..names.len()
        invariant
            (xml as nat, sped as nat, zip as nat) == kind_counts(names_view(names@.take(i as int))),
            xml + sped + zip <= i,
    {
        proof {
            reveal_strlit("xml");
            reveal_strlit("sped");
            reveal_strlit("zip");
            assert(names_view(names@.take(i + 1)).drop_last() =~= names_view(names@.take(i as int)));
            assert(names_view(names@.take(i + 1)).last() == names@[i as int]@);
            assert("xml"@ =~= seq!['x', 'm', 'l']);
            assert("sped"@ =~= seq!['s', 'p', 'e', 'd']);
            assert("zip"@ =~= seq!['z', 'i', 'p']);
            reveal_strlit("xml");
            reveal_strlit("sped");
            reveal_strlit("zip");
        }
        let k = classify_kind_from_name(names[i].as_str());
        if crate::text::str_eq(k.as_str(), "xml") {
            xml = xml + 1;
        } else if crate::text::str_eq(k.as_str(), "sped") {
            sped = sped + 1;
        } else if crate::text::str_eq(k.as_str(), "zip") {
            zip = zip + 1;
        }
    }
    proof {
        assert(names@.take(names@.len() as int) =~= names@);
    }
    NfeFaturasCounts { xml, sped, zip }
}

// ---------------------------------------------------------------------------
// Messages and the log
// ---------------------------------------------------------------------------

/// The most messages a list keeps.
pub const MAX_MESSAGES: usize = 30;

/// Appends a message while the list holds fewer than thirty.
pub fn push_bounded(list: &mut Vec<String>, value: String)
    ensures
        old(list)@.len() < 30 ==> final(list)@ == old(list)@.push(value),
        old(list)@.len() >= 30 ==> final(list)@ == old(list)@,
{
    if list.len() < MAX_MESSAGES {
        list.push(value);
    }
}

/// The most entries the log keeps.
pub const MAX_LOG: usize = 500;

/// A log entry as values: time stamp, level, message and details.
pub type LogView = (Seq<char>, Seq<char>, Seq<char>, Option<Seq<char>>);

pub open spec fn log_view(l: NfeFaturasLogItem) -> LogView {
    (l.ts@, l.level@, l.msg@, match l.meta {
        Some(m) => Some(m@),
        None => None,
    })
}

pub open spec fn logs_view(v: Seq<NfeFaturasLogItem>) -> Seq<LogView> {
    v.map_values(|l: NfeFaturasLogItem| log_view(l))
}

/// The log with an entry put in front: the newest first, at most 500.
pub open spec fn push_front(log: Seq<LogView>, item: LogView) -> Seq<LogView> {
    let l = seq![item] + log;
    if l.len() > 500 {
        l.take(500)
    } else {
        l
    }
}

/// The log after entries are put in front one after the other.
pub open spec fn log_after(log: Seq<LogView>, items: Seq<LogView>) -> Seq<LogView>
    decreases items.len(),
{
    if items.len() == 0 {
        log
    } else {
        push_front(log_after(log, items.drop_last()), items.last())
    }
}

/// However many entries are pushed, a log of at most 500 entries stays at
/// most 500 entries long, and the last entry pushed comes first.
pub proof fn law_log_keeps_newest(log: Seq<LogView>, items: Seq<LogView>)
    requires
        log.len() <= 500,
    ensures
        log_after(log, items).len() <= 500,
        items.len() > 0 ==> log_after(log, items)[0] == items.last(),
    decreases items.len(),
{
    if items.len() > 0 {
        law_log_keeps_newest(log, items.drop_last());
        let before = log_after(log, items.drop_last());
        let l = seq![items.last()] + before;
        if l.len() > 500 {
            assert(l.take(500)[0] == l[0]);
        }
    }
}

/// Puts an entry at the front of the log, stamped with `ts`, and keeps the
/// newest 500.
pub fn log_push(logs: &mut Vec<NfeFaturasLogItem>, ts: &str, level: &str, msg: &str, meta: Option<String>)
    ensures
        logs_view(final(logs)@) == push_front(logs_view(old(logs)@), (ts@, level@, msg@, match meta {
            Some(m) => Some(m@),
            None => None,
        })),
{
    let item = NfeFaturasLogItem {
        ts: ts.to_string(),
        level: level.to_string(),
        msg: msg.to_string(),
        meta,
    };
    let ghost iv = log_view(item);
    logs.insert(0, item);
    proof {
        assert(logs_view(logs@) =~= seq![iv] + logs_view(old(logs)@));
    }
    if logs.len() > MAX_LOG {
        let ghost before = logs@;
        logs.truncate(MAX_LOG);
        proof {
            assert(logs_view(logs@) =~= logs_view(before).take(500));
        }
    }
}

// ---------------------------------------------------------------------------
// CSV cells and fixed-width fields
// ---------------------------------------------------------------------------

/// A CSV cell of the invoice export: quoted, with inner quotes doubled,
/// when it holds `"`, `;`, a line feed or a carriage return.
pub open spec fn csv_cell(v: Seq<char>) -> Seq<char> {
    if contains_char(v, '"') || contains_char(v, ';') || contains_char(v, '\n') || contains_char(v, '\r') {
        seq!['"'] + replace(v, seq!['"'], seq!['"', '"']) + seq!['"']
    } else {
        v
    }
}

pub fn csv_escape(value: &str) -> (r: String)
    ensures
        r@ == csv_cell(value@),
{
    let v = chars_of(value);
    if contains_char_chars(&v, '"') || contains_char_chars(&v, ';') || contains_char_chars(&v, '\n')
        || contains_char_chars(&v, '\r') {
        let mut q: Vec<char> = Vec::new();
        q.push('"');
        let mut qq: Vec<char> = Vec::new();
        qq.push('"');
        qq.push('"');
        proof {
            assert(q@ =~= seq!['"']);
            assert(qq@ =~= seq!['"', '"']);
        }
        let inner = replace_chars(&v, &q, &qq);
        let mut out: Vec<char> = Vec::new();
        out.push('"');
        append_chars(&mut out, &inner);
        out.push('"');
        proof {
            assert(out@ =~= seq!['"'] + replace(v@, seq!['"'], seq!['"', '"']) + seq!['"']);
        }
        string_of(&out)
    } else {
        string_of(&v)
    }
}

/// The width the series is padded to, read from the settings (0 when the
/// setting is not a number).
pub open spec fn serie_width(settings_digits: Seq<char>) -> nat {
    match parse_nat(settings_digits) {
        Some(n) => if n <= usize::MAX {
            n
        } else {
            0
        },
        None => 0,
    }
}

/// The digits of a series, left-padded with zeros to the configured width.
pub open spec fn padded_serie(serie: Seq<char>, settings_digits: Seq<char>) -> Seq<char> {
    let w = serie_width(settings_digits);
    let s = digits(serie);
    if s.len() == 0 || w == 0 {
        s
    } else {
        zero_pad(s, w as int)
    }
}

pub fn pad_serie_with_zeros(serie: &str, settings: &NfeFaturasSettings) -> (r: String)
    ensures
        r@ == padded_serie(serie@, settings.serie_digits@),
{
    let sd = chars_of(settings.serie_digits.as_str());
    let width: usize = match parse_u64_chars(&sd) {
        Some(n) => {
            if n <= usize::MAX as u64 {
                n as usize
            } else {
                0
            }
        },
        None => 0,
    };
    proof {
        match parse_nat(sd@) {
            Some(n) => {
                if n <= u64::MAX {
                    assert(parse_u64(sd@) == Some(n as u64));
                }
            },
            None => {},
        }
    }
    let raw = chars_of(serie);
    let s = only_digits_chars(&raw);
    if s.len() == 0 || width == 0 {
        return string_of(&s);
    }
    let p = zero_pad_chars(&s, width);
    string_of(&p)
}

} // verus!
