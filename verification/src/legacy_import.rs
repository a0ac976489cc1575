//! Importing a legacy pipe file of invoice installments.
//!
//! Each line is `CNPJ|UF|IE|SERIE|...|NF|DT ESCRIT|PARCELA|DT VENC|VL NF|VL FAT`.
//! Valid lines are grouped by note (CNPJ, series, number and entry date,
//! in the order of that key) and become one row per installment; invalid
//! lines and doubtful values are reported, thirty messages at most.
use vstd::prelude::*;

use crate::calendar::{calendar_date_texts, digit_date, slash_date, valid_ymd};
use crate::faturas::{row_view, rows_view, NfeFaturasRow, RowView};
use crate::legacy_pipe::{fields_of, pipe_fields};
use crate::money::{format_money2, is_money_positive, money_format, money_of, money_positive, parse_money, signed_cents, Money};
use crate::numbers::{parse_i64, parse_i64_chars, parse_u32, parse_u32_chars};
use crate::sped::texts;
use crate::faturas::{meta_view, MetaView, NfeMeta};
use crate::faturas_index::{
    build_xml_index, cents_text, compute_total_from_meta, entry_for, format_cents, meta_total, notes_view, signed_of,
    sort_texts, sort_texts_exec, vecs_view, xml_entries_view, SpedNote,
};
use crate::faturas_text::{br_date, date_digits, digits_to_br_date};
use crate::text::{
    alnum_upper, chars_eq, append_chars, append_str, chars_of, chars_of_string, concat_chars, contains_text,
    contains_chars, copy_chars, copy_string, decimal, decimal_chars, digits, is_alpha, is_alpha_char,
    is_blank, is_blank_chars, join, join_strings, lines_chars, lines_of, only_alnum_upper_chars,
    only_digits_chars, split_on, string_of, strip_leading, trim, trim_chars, upper_chars, upper_seq,
    utf8_len, utf8_len_upto,
};
use crate::numbers::{lemma_text_lt_total, lemma_text_lt_transitive, text_lt, text_lt_chars};

verus! {

broadcast use vstd::string::group_string_axioms;

// ---------------------------------------------------------------------------
// Dates of the legacy file
// ---------------------------------------------------------------------------

pub open spec fn date_sep(c: char) -> bool {
    c == '/' || c == '-' || c == '.'
}

/// The pieces of `s` between `/`, `-` and `.`.
pub open spec fn split_date(s: Seq<char>) -> Seq<Seq<char>>
    decreases s.len(),
{
    if s.len() == 0 {
        seq![seq![]]
    } else {
        let r = split_date(s.drop_last());
        if date_sep(s.last()) {
            r.push(seq![])
        } else {
            r.update(r.len() - 1, r.last().push(s.last()))
        }
    }
}

proof fn lemma_split_date_nonempty(s: Seq<char>)
    ensures
        split_date(s).len() >= 1,
    decreases s.len(),
{
    if s.len() > 0 {
        lemma_split_date_nonempty(s.drop_last());
    }
}

/// The non-empty pieces, in order.
pub open spec fn non_empty_pieces(ps: Seq<Seq<char>>) -> Seq<Seq<char>>
    decreases ps.len(),
{
    if ps.len() == 0 {
        seq![]
    } else if ps.last().len() == 0 {
        non_empty_pieces(ps.drop_last())
    } else {
        non_empty_pieces(ps.drop_last()).push(ps.last())
    }
}

/// `str::parse::<i32>()`.
pub open spec fn parse_i32(s: Seq<char>) -> Option<i32> {
    match parse_i64(s) {
        Some(v) => if i32::MIN <= v <= i32::MAX {
            Some(v as i32)
        } else {
            None
        },
        None => None,
    }
}

/// A date of the legacy file, `D/M/Y` with `/`, `-` or `.`, two-digit
/// years in the 2000s: written as `DD/MM/YYYY` and as `DDMMYYYY`.
pub open spec fn legacy_date(value: Seq<char>) -> Option<(Seq<char>, Seq<char>)> {
    let parts = non_empty_pieces(split_date(trim(value)));
    if parts.len() != 3 {
        None
    } else {
        match (parse_u32(parts[0]), parse_u32(parts[1]), parse_i32(parts[2])) {
            (Some(d), Some(m), Some(y0)) => {
                let y = if utf8_len(parts[2]) == 2 {
                    y0 + 2000
                } else {
                    y0 as int
                };
                if valid_ymd(y, m as int, d as int) {
                    Some((slash_date(y, m as int, d as int), digit_date(y, m as int, d as int)))
                } else {
                    None
                }
            },
            _ => None,
        }
    }
}

fn split_date_chars(v: &Vec<char>) -> (r: Vec<Vec<char>>)
    ensures
        r@.len() == split_date(v@).len(),
        forall|k: int| 0 <= k < r@.len() ==> (#[trigger] r@[k])@ == split_date(v@)[k],
{
    let mut done: Vec<Vec<char>> = Vec::new();
    let mut cur: Vec<char> = Vec::new();
    for i in 0..v.len()
        invariant
            split_date(v@.take(i as int)).len() == done@.len() + 1,
            forall|k: int| 0 <= k < done@.len() ==> (#[trigger] done@[k])@ == split_date(v@.take(i as int))[k],
            cur@ == split_date(v@.take(i as int)).last(),
    {
        proof {
            assert(v@.take(i + 1).drop_last() =~= v@.take(i as int));
            lemma_split_date_nonempty(v@.take(i as int));
        }
        let c = v[i];
        if c == '/' || c == '-' || c == '.' {
            done.push(cur);
            cur = Vec::new();
        } else {
            cur.push(c);
        }
    }
    proof {
        assert(v@.take(v.len() as int) =~= v@);
    }
    done.push(cur);
    done
}

fn non_empty_pieces_of(ps: Vec<Vec<char>>) -> (r: Vec<Vec<char>>)
    ensures
        r@.map_values(|p: Vec<char>| p@) == non_empty_pieces(ps@.map_values(|p: Vec<char>| p@)),
{
    let ghost pv = ps@.map_values(|p: Vec<char>| p@);
    let mut out: Vec<Vec<char>> = Vec::new();
    let mut i: usize = 0;
    while i < ps.len()
        invariant
            i <= ps@.len(),
            pv == ps@.map_values(|p: Vec<char>| p@),
            out@.map_values(|p: Vec<char>| p@) == non_empty_pieces(pv.take(i as int)),
        decreases ps@.len() - i,
    {
        proof {
            assert(pv.take(i + 1).drop_last() =~= pv.take(i as int));
            assert(pv.take(i + 1).last() == ps@[i as int]@);
        }
        if ps[i].len() > 0 {
            let p = copy_chars(&ps[i]);
            proof {
                assert(out@.push(p).map_values(|p: Vec<char>| p@) =~= out@.map_values(|p: Vec<char>| p@).push(p@));
            }
            out.push(p);
        }
        i = i + 1;
    }
    proof {
        assert(pv.take(ps@.len() as int) =~= pv);
    }
    out
}

pub fn parse_i32_chars(v: &Vec<char>) -> (r: Option<i32>)
    ensures
        r == parse_i32(v@),
{
    match parse_i64_chars(v) {
        Some(n) => {
            if n >= -2147483648i64 && n <= 2147483647i64 {
                Some(n as i32)
            } else {
                None
            }
        },
        None => None,
    }
}

/// Reads a date of the legacy file.
pub fn parse_legacy_date(value: &str) -> (r: Option<(String, String)>)
    ensures
        match r {
            Some((a, b)) => legacy_date(value@) == Some((a@, b@)),
            None => legacy_date(value@) is None,
        },
{
    let raw = chars_of(value);
    let t = trim_chars(&raw);
    let pieces = split_date_chars(&t);
    proof {
        assert(pieces@.map_values(|p: Vec<char>| p@) =~= split_date(t@));
    }
    let parts = non_empty_pieces_of(pieces);
    let ghost pv = parts@.map_values(|p: Vec<char>| p@);
    if parts.len() != 3 {
        return None;
    }
    proof {
        assert(pv[0] == parts@[0]@);
        assert(pv[1] == parts@[1]@);
        assert(pv[2] == parts@[2]@);
    }
    let day = match parse_u32_chars(&parts[0]) {
        Some(d) => d,
        None => {
            return None;
        },
    };
    let month = match parse_u32_chars(&parts[1]) {
        Some(m) => m,
        None => {
            return None;
        },
    };
    let y0 = match parse_i32_chars(&parts[2]) {
        Some(y) => y,
        None => {
            return None;
        },
    };
    let two = match utf8_len_upto(&parts[2], 2) {
        Some(n) => n == 2,
        None => false,
    };
    let year: i32 = if two {
        proof {
            assert(utf8_len(parts@[2]@) == 2);
            lemma_short_year(parts@[2]@, y0);
        }
        y0 + 2000
    } else {
        y0
    };
    calendar_date_texts(year, month, day)
}

proof fn lemma_short_year(s: Seq<char>, y: i32)
    requires
        utf8_len(s) == 2,
        parse_i32(s) == Some(y),
    ensures
        -9 <= y <= 99,
{
    lemma_utf8_len_ge_len(s);
    let body = if s.len() > 0 && (s[0] == '-' || s[0] == '+') {
        s.drop_first()
    } else {
        s
    };
    assert(crate::numbers::all_digits(body));
    assert(body.len() <= 2);
    if body.len() == 2 {
        assert(s[0] != '-' && s[0] != '+') by {
            if s[0] == '-' || s[0] == '+' {
                assert(body.len() == s.len() - 1);
            }
        }
        assert(crate::text::is_digit(body[0]));
        assert(crate::text::is_digit(body[1]));
        assert(body.drop_last().drop_last() =~= Seq::<char>::empty());
        assert(body.drop_last().last() == body[0]);
        assert(crate::numbers::digits_value(body.drop_last().drop_last()) == 0);
        assert(crate::numbers::digits_value(body.drop_last()) <= 9);
        assert(crate::numbers::digits_value(body) <= 99);
    } else if body.len() == 1 {
        assert(crate::text::is_digit(body[0]));
        assert(body.drop_last() =~= Seq::<char>::empty());
        assert(crate::numbers::digits_value(body.drop_last()) == 0);
        assert(crate::numbers::digits_value(body) <= 9);
    }
}

proof fn lemma_utf8_len_ge_len(s: Seq<char>)
    ensures
        utf8_len(s) >= s.len(),
    decreases s.len(),
{
    if s.len() > 0 {
        lemma_utf8_len_ge_len(s.drop_last());
    }
}

// ---------------------------------------------------------------------------
// Lines
// ---------------------------------------------------------------------------

/// `Linha N` followed by a message.
pub open spec fn line_msg(n: nat, tail: Seq<char>) -> Seq<char> {
    "Linha "@ + decimal(n) + tail
}

pub open spec fn has_alpha(s: Seq<char>) -> bool {
    exists|k: int| 0 <= k < s.len() && is_alpha(s[k])
}

pub open spec fn first_field(f: Seq<Seq<char>>) -> Seq<char> {
    if f.len() > 0 {
        f[0]
    } else {
        seq![]
    }
}

/// Whether a line is the header of the file: on the first line, a field
/// naming the CNPJ, the issuer, the series or the entry; on any line, a
/// first field naming the CNPJ or the issuer; on the first three lines,
/// letters with fewer than eleven digits.
pub open spec fn header_line(f: Seq<Seq<char>>, idx: int) -> bool {
    let joined = upper_seq(join(f, "|"@));
    let first = upper_seq(first_field(f));
    ||| (idx == 0 && (contains_text(joined, "CNPJ"@) || contains_text(joined, "EMITENTE"@) || contains_text(
        joined,
        "SERIE"@,
    ) || contains_text(joined, "ESCRIT"@)))
    ||| contains_text(first, "CNPJ"@)
    ||| contains_text(first, "EMITENTE"@)
    ||| (idx < 3 && has_alpha(joined) && digits(joined).len() < 11)
}

/// A valid line: its CNPJ, state, state registration, series and number;
/// its entry date (written and as digits), installment and due date; its
/// note and installment amounts, and whether the installment is above zero.
pub type Entry = (
    (Seq<char>, Seq<char>, Seq<char>, Seq<char>, Seq<char>),
    (Seq<char>, Seq<char>, Seq<char>, Seq<char>),
    (Money, Money, bool),
);

/// What a line of fields says, or why it is refused.
pub open spec fn legacy_entry(f: Seq<Seq<char>>, n: nat) -> Result<Entry, Seq<char>> {
    if f.len() < 11 {
        Err(line_msg(n, ": colunas insuficientes."@))
    } else if digits(f[0]).len() != 14 {
        Err(line_msg(n, ": CNPJ inválido."@))
    } else if utf8_len(upper_seq(f[1])) != 2 {
        Err(line_msg(n, ": UF inválida."@))
    } else if digits(f[5]).len() == 0 {
        Err(line_msg(n, ": NF Num ausente."@))
    } else if legacy_date(f[6]) is None {
        Err(line_msg(n, ": DT Escrit inválida."@))
    } else if legacy_date(f[8]) is None {
        Err(line_msg(n, ": DT VENC inválida."@))
    } else if money_of(f[9]) is None {
        Err(line_msg(n, ": VL NF inválido."@))
    } else if money_of(f[10]) is None {
        Err(line_msg(n, ": VL Fatura inválido."@))
    } else {
        let escrit = legacy_date(f[6]).unwrap();
        Ok(
            (
                (digits(f[0]), upper_seq(f[1]), alnum_upper(f[2]), f[3], digits(f[5])),
                (escrit.0, escrit.1, f[7], legacy_date(f[8]).unwrap().0),
                (money_of(f[9]).unwrap(), money_of(f[10]).unwrap(), money_positive(f[10])),
            ),
        )
    }
}

/// A valid line, as read.
pub struct LegacyEntry {
    pub cnpj: String,
    pub uf: String,
    pub ie: String,
    pub serie: String,
    pub nf_numero: String,
    pub dt_escrit: String,
    pub dt_escrit_digits: String,
    pub parcela: String,
    pub dt_venc: String,
    pub vl_nf: Money,
    pub vl_fat: Money,
    pub fat_positive: bool,
}

pub open spec fn entry_view(e: LegacyEntry) -> Entry {
    (
        (e.cnpj@, e.uf@, e.ie@, e.serie@, e.nf_numero@),
        (e.dt_escrit@, e.dt_escrit_digits@, e.parcela@, e.dt_venc@),
        (e.vl_nf, e.vl_fat, e.fat_positive),
    )
}

fn line_message(n: usize, tail: &str) -> (r: String)
    ensures
        r@ == line_msg(n as nat, tail@),
{
    let mut v = chars_of("Linha ");
    let d = decimal_chars(n as u128);
    append_chars(&mut v, &d);
    append_str(&mut v, tail);
    string_of(&v)
}

/// Reads a line of fields (see `legacy_entry`).
pub fn legacy_entry_of(f: &Vec<String>, n: usize) -> (r: Result<LegacyEntry, String>)
    ensures
        match r {
            Ok(e) => legacy_entry(texts(f@), n as nat) == Ok::<Entry, Seq<char>>(entry_view(e)),
            Err(m) => legacy_entry(texts(f@), n as nat) == Err::<Entry, Seq<char>>(m@),
        },
{
    let ghost fv = texts(f@);
    if f.len() < 11 {
        return Err(line_message(n, ": colunas insuficientes."));
    }
    proof {
        assert forall|k: int| 0 <= k < 11 implies fv[k] == (#[trigger] f@[k])@ by {}
    }
    let c0 = chars_of(f[0].as_str());
    let cnpj = only_digits_chars(&c0);
    if cnpj.len() != 14 {
        return Err(line_message(n, ": CNPJ inválido."));
    }
    let c1 = chars_of(f[1].as_str());
    let uf = upper_chars(&c1);
    let uf_ok = match utf8_len_upto(&uf, 2) {
        Some(k) => k == 2,
        None => false,
    };
    if !uf_ok {
        return Err(line_message(n, ": UF inválida."));
    }
    let c2 = chars_of(f[2].as_str());
    let ie = only_alnum_upper_chars(&c2);
    let c5 = chars_of(f[5].as_str());
    let nf = only_digits_chars(&c5);
    if nf.len() == 0 {
        return Err(line_message(n, ": NF Num ausente."));
    }
    let (escrit, escrit_digits) = match parse_legacy_date(f[6].as_str()) {
        Some(p) => p,
        None => {
            return Err(line_message(n, ": DT Escrit inválida."));
        },
    };
    let (venc, _venc_digits) = match parse_legacy_date(f[8].as_str()) {
        Some(p) => p,
        None => {
            return Err(line_message(n, ": DT VENC inválida."));
        },
    };
    let vl_nf = match parse_money(f[9].as_str()) {
        Some(m) => m,
        None => {
            return Err(line_message(n, ": VL NF inválido."));
        },
    };
    let vl_fat = match parse_money(f[10].as_str()) {
        Some(m) => m,
        None => {
            return Err(line_message(n, ": VL Fatura inválido."));
        },
    };
    let fat_positive = is_money_positive(f[10].as_str());
    Ok(
        LegacyEntry {
            cnpj: string_of(&cnpj),
            uf: string_of(&uf),
            ie: string_of(&ie),
            serie: copy_string(&f[3]),
            nf_numero: string_of(&nf),
            dt_escrit: escrit,
            dt_escrit_digits: escrit_digits,
            parcela: copy_string(&f[7]),
            dt_venc: venc,
            vl_nf,
            vl_fat,
            fat_positive,
        },
    )
}

/// Whether a line is the header of the file (see `header_line`).
pub fn is_legacy_header_line(fields: &Vec<String>, line_index: usize) -> (r: bool)
    ensures
        r == header_line(texts(fields@), line_index as int),
{
    let joined_s = join_strings(fields, "|");
    proof {
        assert(fields@.map_values(|p: String| p@) =~= texts(fields@));
    }
    let jc = chars_of(joined_s.as_str());
    let joined = upper_chars(&jc);
    let first_raw = if fields.len() > 0 {
        chars_of(fields[0].as_str())
    } else {
        Vec::new()
    };
    proof {
        if fields@.len() > 0 {
            assert(texts(fields@)[0] == fields@[0]@);
        }
    }
    let first = upper_chars(&first_raw);
    let cnpj = chars_of("CNPJ");
    let emitente = chars_of("EMITENTE");
    let serie = chars_of("SERIE");
    let escrit = chars_of("ESCRIT");
    if line_index == 0 && (contains_chars(&joined, &cnpj) || contains_chars(&joined, &emitente)
        || contains_chars(&joined, &serie) || contains_chars(&joined, &escrit)) {
        return true;
    }
    if contains_chars(&first, &cnpj) || contains_chars(&first, &emitente) {
        return true;
    }
    if line_index >= 3 {
        return false;
    }
    let mut alpha = false;
    let mut k: usize = 0;
    while k < joined.len()
        invariant
            k <= joined@.len(),
            alpha == exists|j: int| 0 <= j < k && is_alpha(joined@[j]),
        decreases joined@.len() - k,
    {
        if is_alpha_char(joined[k]) {
            alpha = true;
        }
        k = k + 1;
    }
    alpha && only_digits_chars(&joined).len() < 11
}

// ---------------------------------------------------------------------------
// Groups
// ---------------------------------------------------------------------------

/// An installment of a group: its number, due date and amount.
pub type DupV = (Seq<char>, Seq<char>, Money);

/// A group: its key; CNPJ, state, state registration, series, number and
/// entry date; the note amount of its first line; its installments.
pub type GroupV = (Seq<char>, (Seq<char>, Seq<char>, Seq<char>, Seq<char>, Seq<char>, Seq<char>), Money, Seq<DupV>);

/// `CNPJ|SERIE|NF|DDMMYYYY`.
pub open spec fn group_key(e: Entry) -> Seq<char> {
    e.0.0 + "|"@ + e.0.3 + "|"@ + e.0.4 + "|"@ + e.1.1
}

/// The installment of a line: its number, else `NF/SERIE`.
pub open spec fn entry_dup(e: Entry) -> DupV {
    (if is_blank(e.1.2) {
        e.0.4 + "/"@ + e.0.3
    } else {
        e.1.2
    }, e.1.3, e.2.1)
}

/// The first group at or after `j` with the key, or -1.
pub open spec fn key_from(gs: Seq<GroupV>, key: Seq<char>, j: int) -> int
    decreases gs.len() - j,
{
    if j < 0 || j >= gs.len() {
        -1
    } else if gs[j].0 == key {
        j
    } else {
        key_from(gs, key, j + 1)
    }
}

/// Where a new key goes: before the first greater key at or after `j`.
pub open spec fn insert_from(gs: Seq<GroupV>, key: Seq<char>, j: int) -> int
    decreases gs.len() - j,
{
    if j < 0 || j >= gs.len() {
        gs.len() as int
    } else if text_lt(key, gs[j].0) {
        j
    } else {
        insert_from(gs, key, j + 1)
    }
}

/// Whether two amounts differ by more than one cent.
pub open spec fn differ(a: Money, b: Money) -> bool {
    signed_cents(a) - signed_cents(b) > 1 || signed_cents(b) - signed_cents(a) > 1
}

/// A line added to its group, and whether its note amount differs from
/// the group's.
pub open spec fn add_entry(gs: Seq<GroupV>, e: Entry) -> (Seq<GroupV>, bool) {
    let key = group_key(e);
    let k = key_from(gs, key, 0);
    if k >= 0 {
        let g = gs[k];
        (gs.update(k, (g.0, g.1, g.2, g.3.push(entry_dup(e)))), differ(g.2, e.2.0))
    } else {
        let p = insert_from(gs, key, 0);
        (gs.insert(p, (key, (e.0.0, e.0.1, e.0.2, e.0.3, e.0.4, e.1.0), e.2.0, seq![entry_dup(e)])), false)
    }
}

pub open spec fn bounded_push(s: Seq<Seq<char>>, m: Seq<char>) -> Seq<Seq<char>> {
    if s.len() < 30 {
        s.push(m)
    } else {
        s
    }
}

/// The reading state: header seen, groups, invalid lines (count and
/// messages), warnings (count and messages).
pub type Scan = (bool, Seq<GroupV>, nat, Seq<Seq<char>>, nat, Seq<Seq<char>>);

/// A valid line's warnings and group.
pub open spec fn scan_entry(st: Scan, e: Entry, n: nat) -> Scan {
    let w1 = if !e.2.2 {
        (st.4 + 1, bounded_push(st.5, line_msg(n, ": VL Fatura <= 0."@)))
    } else {
        (st.4, st.5)
    };
    let w2 = if is_blank(e.1.2) {
        (w1.0 + 1, bounded_push(w1.1, line_msg(n, ": Parcela vazia (fallback aplicado)."@)))
    } else {
        w1
    };
    let (gs, diverges) = add_entry(st.1, e);
    let w3 = if diverges {
        (w2.0 + 1, bounded_push(w2.1, line_msg(n, ": VL NF divergente dentro do grupo."@)))
    } else {
        w2
    };
    (st.0, gs, st.2, st.3, w3.0 as nat, w3.1)
}

/// One line read (its index is `idx`).
pub open spec fn scan_line(st: Scan, raw: Seq<char>, idx: int) -> Scan {
    let t = trim(raw);
    if t.len() == 0 {
        st
    } else {
        let f = pipe_fields(t);
        if !st.0 && header_line(f, idx) {
            (true, st.1, st.2, st.3, st.4, st.5)
        } else {
            match legacy_entry(f, (idx + 1) as nat) {
                Err(m) => (st.0, st.1, st.2 + 1, bounded_push(st.3, m), st.4, st.5),
                Ok(e) => scan_entry(st, e, (idx + 1) as nat),
            }
        }
    }
}

/// The state after the first `n` lines.
pub open spec fn scan_lines(lines: Seq<Seq<char>>, n: int) -> Scan
    decreases n,
{
    if n <= 0 {
        (false, seq![], 0, seq![], 0, seq![])
    } else {
        scan_line(scan_lines(lines, n - 1), lines[n - 1], n - 1)
    }
}

/// The lines of the file, after any leading byte-order marks.
pub open spec fn legacy_lines(text: Seq<char>) -> Seq<Seq<char>> {
    lines_of(strip_leading(text, '\u{feff}'))
}

/// An installment of a group.
pub struct LegacyDup {
    pub n_dup: String,
    pub d_venc: String,
    pub v_dup: Money,
}

/// The installments of one note.
pub struct LegacyGroup {
    pub key: Vec<char>,
    pub cnpj: String,
    pub uf: String,
    pub ie: String,
    pub serie: String,
    pub nf_numero: String,
    pub dt_escrit: String,
    pub total_nf: Money,
    pub duplicatas: Vec<LegacyDup>,
}

pub open spec fn dup_v(d: LegacyDup) -> DupV {
    (d.n_dup@, d.d_venc@, d.v_dup)
}

pub open spec fn group_v(g: LegacyGroup) -> GroupV {
    (g.key@, (g.cnpj@, g.uf@, g.ie@, g.serie@, g.nf_numero@, g.dt_escrit@), g.total_nf, g.duplicatas@.map_values(
        |d: LegacyDup| dup_v(d),
    ))
}

pub open spec fn groups_v(gs: Seq<LegacyGroup>) -> Seq<GroupV> {
    gs.map_values(|g: LegacyGroup| group_v(g))
}

fn entry_dup_of(e: &LegacyEntry) -> (r: LegacyDup)
    ensures
        dup_v(r) == entry_dup(entry_view(*e)),
{
    let pv = chars_of(e.parcela.as_str());
    let n_dup = if is_blank_chars(&pv) {
        let mut v = chars_of(e.nf_numero.as_str());
        v.push('/');
        append_str(&mut v, e.serie.as_str());
        proof {
            assert(v@ =~= e.nf_numero@ + "/"@ + e.serie@) by {
                reveal_strlit("/");
            }
        }
        string_of(&v)
    } else {
        copy_string(&e.parcela)
    };
    LegacyDup { n_dup, d_venc: copy_string(&e.dt_venc), v_dup: e.vl_fat }
}

fn key_of(e: &LegacyEntry) -> (r: Vec<char>)
    ensures
        r@ == group_key(entry_view(*e)),
{
    let mut v = chars_of(e.cnpj.as_str());
    v.push('|');
    append_str(&mut v, e.serie.as_str());
    v.push('|');
    append_str(&mut v, e.nf_numero.as_str());
    v.push('|');
    append_str(&mut v, e.dt_escrit_digits.as_str());
    proof {
        reveal_strlit("|");
        assert(v@ =~= group_key(entry_view(*e)));
    }
    v
}

fn differ_exec(a: Money, b: Money) -> (r: bool)
    ensures
        r == differ(a, b),
{
    let sa: i128 = if a.negative {
        0i128 - (a.cents as i128)
    } else {
        a.cents as i128
    };
    let sb: i128 = if b.negative {
        0i128 - (b.cents as i128)
    } else {
        b.cents as i128
    };
    sa - sb > 1 || sb - sa > 1
}

/// Adds a valid line to its group; whether its note amount differs.
fn add_entry_exec(groups: &mut Vec<LegacyGroup>, e: LegacyEntry) -> (r: bool)
    ensures
        (groups_v(final(groups)@), r) == add_entry(groups_v(old(groups)@), entry_view(e)),
{
    let ghost gv = groups_v(groups@);
    let ghost ev = entry_view(e);
    let key = key_of(&e);
    let mut j: usize = 0;
    while j < groups.len()
        invariant
            gv == groups_v(groups@),
            key@ == group_key(ev),
            ev == entry_view(e),
            gv == groups_v(old(groups)@),
            j <= groups@.len(),
            key_from(gv, key@, 0) == key_from(gv, key@, j as int),
        decreases groups@.len() - j,
    {
        assert(gv[j as int] == group_v(groups@[j as int]));
        if crate::text::chars_eq(&groups[j].key, &key) {
            let dup = entry_dup_of(&e);
            let diverges = differ_exec(groups[j].total_nf, e.vl_nf);
            let mut g = groups.remove(j);
            let ghost before = g.duplicatas@;
            let ghost dv = dup_v(dup);
            assert(dv == entry_dup(ev));
            g.duplicatas.push(dup);
            proof {
                let m1 = g.duplicatas@.map_values(|d: LegacyDup| dup_v(d));
                let m0 = before.map_values(|d: LegacyDup| dup_v(d));
                assert(m1.len() == m0.len() + 1);
                assert forall|k: int| 0 <= k < m1.len() implies m1[k] == m0.push(dv)[k] by {
                    if k < m0.len() {
                        assert(g.duplicatas@[k] == before[k]);
                    }
                }
                assert(m1 =~= m0.push(dv));
            }
            groups.insert(j, g);
            proof {
                assert(groups_v(groups@) =~= gv.update(j as int, (gv[j as int].0, gv[j as int].1, gv[j as int].2, gv[j as int].3.push(entry_dup(ev)))));
            }
            proof {
                assert(gv[j as int].0 == key@);
            }
            return diverges;
        }
        j = j + 1;
    }
    let mut p: usize = 0;
    let mut stop = false;
    while !stop && p < groups.len()
        invariant
            gv == groups_v(groups@),
            key@ == group_key(ev),
            ev == entry_view(e),
            gv == groups_v(old(groups)@),
            p <= groups@.len(),
            key_from(gv, key@, 0) == -1,
            stop ==> p < groups@.len() && text_lt(key@, gv[p as int].0),
            insert_from(gv, key@, 0) == insert_from(gv, key@, p as int),
        decreases groups@.len() - p + if stop {
            0int
        } else {
            1int
        },
    {
        assert(gv[p as int] == group_v(groups@[p as int]));
        if text_lt_chars(&key, &groups[p].key) {
            stop = true;
        } else {
            p = p + 1;
        }
    }
    let dup = entry_dup_of(&e);
    let mut dups: Vec<LegacyDup> = Vec::new();
    dups.push(dup);
    proof {
        assert(dups@.map_values(|d: LegacyDup| dup_v(d)) =~= seq![entry_dup(ev)]);
    }
    let g = LegacyGroup {
        key,
        cnpj: e.cnpj,
        uf: e.uf,
        ie: e.ie,
        serie: e.serie,
        nf_numero: e.nf_numero,
        dt_escrit: e.dt_escrit,
        total_nf: e.vl_nf,
        duplicatas: dups,
    };
    groups.insert(p, g);
    proof {
        assert(groups_v(groups@) =~= gv.insert(p as int, group_v(g)));
    }
    false
}


// ---------------------------------------------------------------------------
// Reading the file
// ---------------------------------------------------------------------------

pub open spec fn scan_view(header: bool, groups: Seq<LegacyGroup>, invalid_count: usize, invalid_lines: Seq<String>, warning_count: usize, warnings: Seq<String>) -> Scan {
    (header, groups_v(groups), invalid_count as nat, texts(invalid_lines), warning_count as nat, texts(warnings))
}

/// Appends a message while the list holds fewer than thirty.
fn push_msg(list: &mut Vec<String>, m: String)
    ensures
        texts(final(list)@) == bounded_push(texts(old(list)@), m@),
{
    let ghost mv = m@;
    if list.len() < 30 {
        list.push(m);
        proof {
            assert(texts(list@) =~= texts(old(list)@).push(mv));
        }
    }
}

pub proof fn lemma_split_on_len(s: Seq<char>, sep: char)
    ensures
        split_on(s, sep).len() <= s.len() + 1,
    decreases s.len(),
{
    if s.len() > 0 {
        lemma_split_on_len(s.drop_last(), sep);
        crate::text::lemma_split_on_nonempty(s.drop_last(), sep);
    }
}

pub proof fn lemma_strip_leading_len(s: Seq<char>, c: char)
    ensures
        strip_leading(s, c).len() <= s.len(),
    decreases s.len(),
{
    if s.len() > 0 && s[0] == c {
        lemma_strip_leading_len(s.drop_first(), c);
    }
}

pub(crate) fn strip_leading_chars(v: &Vec<char>, c: char) -> (r: Vec<char>)
    ensures
        r@ == strip_leading(v@, c),
{
    let mut i: usize = 0;
    proof {
        assert(v@.skip(0) =~= v@);
    }
    while i < v.len() && v[i] == c
        invariant
            i <= v@.len(),
            strip_leading(v@, c) == strip_leading(v@.skip(i as int), c),
        decreases v@.len() - i,
    {
        proof {
            assert(v@.skip(i as int).drop_first() =~= v@.skip(i + 1));
        }
        i = i + 1;
    }
    let r = crate::text::slice_chars(v, i, v.len());
    proof {
        assert(r@ =~= v@.skip(i as int));
    }
    r
}

/// The row of one installment of a group.
pub open spec fn legacy_row(g: GroupV, d: DupV, filial: Seq<char>, source: Seq<char>) -> RowView {
    (
        (seq![], filial, g.1.0, g.1.1, g.1.2, g.1.3, g.1.4, g.1.5, g.1.5),
        (0u8, d.0, d.1, money_format(d.2), source),
        (false, true, false),
    )
}

pub open spec fn group_rows(g: GroupV, filial: Seq<char>, source: Seq<char>) -> Seq<RowView> {
    g.3.map_values(|d: DupV| legacy_row(g, d, filial, source))
}

/// The rows of the groups, group after group.
pub open spec fn all_rows(gs: Seq<GroupV>, filial: Seq<char>, source: Seq<char>) -> Seq<RowView>
    decreases gs.len(),
{
    if gs.len() == 0 {
        seq![]
    } else {
        all_rows(gs.drop_last(), filial, source) + group_rows(gs.last(), filial, source)
    }
}

/// The branch CNPJ given for the rows: its digits when there are fourteen.
pub open spec fn guessed_filial(cnpj_filial: Option<Seq<char>>) -> Option<Seq<char>> {
    match cnpj_filial {
        Some(c) => if digits(c).len() == 14 {
            Some(digits(c))
        } else {
            None
        },
        None => None,
    }
}

fn legacy_row_exec(g: &LegacyGroup, d: &LegacyDup, filial: &String, source: &String) -> (r: NfeFaturasRow)
    ensures
        row_view(r) == legacy_row(group_v(*g), dup_v(*d), filial@, source@),
{
    NfeFaturasRow {
        chave: String::new(),
        desdob: 0,
        cnpj_filial: copy_string(filial),
        cnpj_cpf: copy_string(&g.cnpj),
        uf: copy_string(&g.uf),
        ie: copy_string(&g.ie),
        nf_serie: copy_string(&g.serie),
        nf_numero: copy_string(&g.nf_numero),
        data_emissao: copy_string(&g.dt_escrit),
        data_entrada: copy_string(&g.dt_escrit),
        num_fatura: copy_string(&d.n_dup),
        data_vencimento: copy_string(&d.d_venc),
        valor_bruto_fat: format_money2(d.v_dup),
        source: copy_string(source),
        sped_matched: false,
        legado: true,
        consolidated: false,
    }
}

fn rows_of_groups(groups: &Vec<LegacyGroup>, filial: &String, source: &String) -> (r: Vec<NfeFaturasRow>)
    ensures
        rows_view(r@) == all_rows(groups_v(groups@), filial@, source@),
{
    let ghost gv = groups_v(groups@);
    let mut rows: Vec<NfeFaturasRow> = Vec::new();
    for gi in 0..groups.len()
        invariant
            gv == groups_v(groups@),
            rows_view(rows@) == all_rows(gv.take(gi as int), filial@, source@),
    {
        proof {
            assert(gv.take(gi + 1).drop_last() =~= gv.take(gi as int));
            assert(gv.take(gi + 1).last() == group_v(groups@[gi as int]));
        }
        let g = &groups[gi];
        let ghost gg = group_v(*g);
        let ghost base = rows_view(rows@);
        for di in 0..g.duplicatas.len()
            invariant
                gg == group_v(*g),
                rows_view(rows@) == base + group_rows(gg, filial@, source@).take(di as int),
        {
            let row = legacy_row_exec(g, &g.duplicatas[di], filial, source);
            proof {
                assert(gg.3[di as int] == dup_v(g.duplicatas@[di as int]));
                assert(group_rows(gg, filial@, source@).take(di + 1) =~= group_rows(gg, filial@, source@).take(
                    di as int,
                ).push(row_view(row)));
            }
            let ghost prev = rows@;
            let ghost rv = row_view(row);
            rows.push(row);
            proof {
                assert(rows_view(rows@) =~= rows_view(prev).push(rv));
                assert(rows_view(rows@) =~= base + group_rows(gg, filial@, source@).take(di + 1));
            }
        }
        proof {
            assert(group_rows(gg, filial@, source@).take(g.duplicatas@.len() as int) =~= group_rows(gg, filial@, source@));
        }
    }
    proof {
        assert(gv.take(groups@.len() as int) =~= gv);
    }
    rows
}

/// The lines of a legacy file read: header, groups and messages.
pub open spec fn legacy_scan(text: Seq<char>) -> Scan {
    scan_lines(legacy_lines(text), legacy_lines(text).len() as int)
}

/// What reading a legacy file gives before any cross-check: the rows, the
/// number of notes, the messages, and whether the branch CNPJ is unknown.
pub open spec fn legacy_rows_of(text: Seq<char>, file_name: Seq<char>, cnpj_filial: Option<Seq<char>>) -> Seq<RowView> {
    all_rows(legacy_scan(text).1, text_or_empty(guessed_filial(cnpj_filial)), "LEGADO:"@ + file_name)
}

pub open spec fn text_or_empty(o: Option<Seq<char>>) -> Seq<char> {
    match o {
        Some(t) => t,
        None => seq![],
    }
}

/// The warnings after the rows are built: one more when the branch CNPJ is
/// unknown and there are rows.
pub open spec fn final_warnings(text: Seq<char>, file_name: Seq<char>, cnpj_filial: Option<Seq<char>>) -> (nat, Seq<Seq<char>>) {
    let st = legacy_scan(text);
    if guessed_filial(cnpj_filial) is None && legacy_rows_of(text, file_name, cnpj_filial).len() > 0 {
        (st.4 + 1, bounded_push(st.5, "CNPJ da filial não definido (coluna CNPJFILIAL ficará vazia)."@))
    } else {
        (st.4, st.5)
    }
}


// ---------------------------------------------------------------------------
// Cross-checking with the XMLs and the SPED files
// ---------------------------------------------------------------------------

/// `CNPJ|SERIE|NF` of a group, series and number as digits.
pub open spec fn check_key(g: GroupV) -> Seq<char> {
    g.1.0 + "|"@ + digits(g.1.3) + "|"@ + digits(g.1.4)
}

/// The sum of a group's installments, in cents.
pub open spec fn dups_total(d: Seq<DupV>) -> int
    decreases d.len(),
{
    if d.len() == 0 {
        0
    } else {
        dups_total(d.drop_last()) + signed_cents(d.last().2)
    }
}

pub open spec fn abs_diff(a: int, b: int) -> int {
    if a >= b {
        a - b
    } else {
        b - a
    }
}

/// `NF n/s`.
pub open spec fn nf_label(g: GroupV) -> Seq<char> {
    "NF "@ + g.1.4 + "/"@ + g.1.3
}

/// The due dates of the XML installments that are dates.
pub open spec fn xml_vencs(m: MetaView) -> Seq<Seq<char>> {
    non_empty_pieces(m.1.map_values(|d: (Seq<char>, Seq<char>, Seq<char>)| br_date(date_digits(d.1))))
}

pub open spec fn legacy_vencs(g: GroupV) -> Seq<Seq<char>> {
    g.3.map_values(|d: DupV| d.1)
}

/// What the XML of a group's note says against it.
pub open spec fn xml_msgs(g: GroupV, xe: Seq<(Seq<char>, MetaView)>) -> Seq<Seq<char>> {
    match entry_for(xe, check_key(g), 0) {
        Some(m) => {
            let total = dups_total(g.3);
            let a = if abs_diff(meta_total(m), total) > 5 {
                seq![
                    "XML: total divergente para "@ + nf_label(g) + " (legado "@ + cents_text(total) + " x XML "@
                        + cents_text(meta_total(m)) + ")."@,
                ]
            } else {
                seq![]
            };
            let lv = legacy_vencs(g);
            let xv = xml_vencs(m);
            let b = if xv.len() > 0 && lv.len() > 0 && sort_texts(xv) != sort_texts(lv) {
                seq!["XML: vencimentos divergentes na "@ + nf_label(g) + "."@]
            } else {
                seq![]
            };
            a + b
        },
        None => if xe.len() > 0 {
            seq!["XML: "@ + nf_label(g) + " não encontrada para CNPJ "@ + g.1.0 + "."@]
        } else {
            seq![]
        },
    }
}

/// What the SPED files say against a group's note.
pub open spec fn sped_msgs(g: GroupV, se: Seq<(Seq<char>, SpedNote)>) -> Seq<Seq<char>> {
    match entry_for(se, check_key(g), 0) {
        Some((dt, vl)) => {
            let a = if dt.len() > 0 && dt != g.1.5 {
                seq![
                    "SPED: DT_E_S divergente na "@ + nf_label(g) + " (legado "@ + g.1.5 + " x SPED "@ + dt + ")."@,
                ]
            } else {
                seq![]
            };
            let b = match vl {
                Some(v) => if abs_diff(signed_cents(v), signed_cents(g.2)) > 5 {
                    seq![
                        "SPED: VL_DOC divergente na "@ + nf_label(g) + " (legado "@ + cents_text(signed_cents(g.2))
                            + " x SPED "@ + cents_text(signed_cents(v)) + ")."@,
                    ]
                } else {
                    seq![]
                },
                None => seq![],
            };
            a + b
        },
        None => if se.len() > 0 {
            seq!["SPED: "@ + nf_label(g) + " não encontrada para CNPJ "@ + g.1.0 + "."@]
        } else {
            seq![]
        },
    }
}

/// The divergences of the groups, group after group.
pub open spec fn group_divergences(gs: Seq<GroupV>, xe: Seq<(Seq<char>, MetaView)>, se: Seq<(Seq<char>, SpedNote)>) -> Seq<Seq<char>>
    decreases gs.len(),
{
    if gs.len() == 0 {
        seq![]
    } else {
        group_divergences(gs.drop_last(), xe, se) + xml_msgs(gs.last(), xe) + sped_msgs(gs.last(), se)
    }
}

/// All divergences of a cross-check.
pub open spec fn divergences_of(gs: Seq<GroupV>, xe: Seq<(Seq<char>, MetaView)>, se: Seq<(Seq<char>, SpedNote)>) -> Seq<Seq<char>> {
    if xe.len() == 0 && se.len() == 0 {
        seq!["XML/SPED não processados. Carregue e processe antes para conferir."@]
    } else {
        group_divergences(gs, xe, se)
    }
}

/// The first thirty messages.
pub open spec fn first_thirty(s: Seq<Seq<char>>) -> Seq<Seq<char>> {
    if s.len() > 30 {
        s.take(30)
    } else {
        s
    }
}

/// The lists a legacy import reports hold at most thirty messages, the
/// first ones found.
pub proof fn law_reported_lists_bounded(s: Seq<Seq<char>>)
    ensures
        first_thirty(s).len() <= 30,
        first_thirty(s) == s.take(first_thirty(s).len() as int),
{
    if s.len() <= 30 {
        assert(s.take(s.len() as int) =~= s);
    }
}

proof fn lemma_first_thirty_push(s: Seq<Seq<char>>, m: Seq<char>)
    ensures
        first_thirty(s.push(m)) == bounded_push(first_thirty(s), m),
{
    if s.len() >= 30 {
        assert(s.push(m).take(30) =~= s.take(30));
    }
}

fn nf_label_of(g: &LegacyGroup) -> (r: Vec<char>)
    ensures
        r@ == nf_label(group_v(*g)),
{
    let mut v: Vec<char> = Vec::new();
    append_str(&mut v, "NF ");
    append_str(&mut v, g.nf_numero.as_str());
    append_str(&mut v, "/");
    append_str(&mut v, g.serie.as_str());
    v
}

fn check_key_of(g: &LegacyGroup) -> (r: Vec<char>)
    ensures
        r@ == check_key(group_v(*g)),
{
    let mut v: Vec<char> = Vec::new();
    append_str(&mut v, g.cnpj.as_str());
    append_str(&mut v, "|");
    let s = only_digits_chars(&chars_of(g.serie.as_str()));
    append_chars(&mut v, &s);
    append_str(&mut v, "|");
    let n = only_digits_chars(&chars_of(g.nf_numero.as_str()));
    append_chars(&mut v, &n);
    proof {
        assert(v@ =~= check_key(group_v(*g)));
    }
    v
}

/// The sum of a group's installments; a group holds fewer than 2^61 of them.
fn dups_total_of(g: &LegacyGroup) -> (r: i128)
    requires
        g.duplicatas@.len() <= 0x2000_0000_0000_0000,
    ensures
        r as int == dups_total(group_v(*g).3),
        -0x2000_0000_0000_0000 * crate::faturas_index::money_bound() <= r <= 0x2000_0000_0000_0000
            * crate::faturas_index::money_bound(),
{
    let ghost dv = group_v(*g).3;
    let mut sum: i128 = 0;
    for i in 0..g.duplicatas.len()
        invariant
            dv == group_v(*g).3,
            g.duplicatas@.len() <= 0x2000_0000_0000_0000,
            sum as int == dups_total(dv.take(i as int)),
            -(i * crate::faturas_index::money_bound()) <= sum <= i * crate::faturas_index::money_bound(),
    {
        proof {
            assert(dv.take(i + 1).drop_last() =~= dv.take(i as int));
            assert(dv.take(i + 1).last() == dup_v(g.duplicatas@[i as int]));
            assert((i + 1) * crate::faturas_index::money_bound() <= 0x2000_0000_0000_0000 * crate::faturas_index::money_bound()) by (nonlinear_arith)
                requires
                    i + 1 <= 0x2000_0000_0000_0000,
            ;
            assert(i * crate::faturas_index::money_bound() + crate::faturas_index::money_bound() == (i + 1) * crate::faturas_index::money_bound()) by (nonlinear_arith);
        }
        sum = sum + signed_of(g.duplicatas[i].v_dup);
    }
    proof {
        assert(dv.take(dv.len() as int) =~= dv);
        assert(g.duplicatas@.len() * crate::faturas_index::money_bound() <= 0x2000_0000_0000_0000 * crate::faturas_index::money_bound()) by (nonlinear_arith)
            requires
                g.duplicatas@.len() <= 0x2000_0000_0000_0000,
        ;
    }
    sum
}

fn abs_diff_exec(a: i128, b: i128) -> (r: bool)
    requires
        -0x4000_0000_0000_0000_0000_0000_0000_0000 < a < 0x4000_0000_0000_0000_0000_0000_0000_0000,
        -0x4000_0000_0000_0000_0000_0000_0000_0000 < b < 0x4000_0000_0000_0000_0000_0000_0000_0000,
    ensures
        r == (abs_diff(a as int, b as int) > 5),
{
    if a >= b {
        a - b > 5
    } else {
        b - a > 5
    }
}

fn vecs_eq(a: &Vec<Vec<char>>, b: &Vec<Vec<char>>) -> (r: bool)
    ensures
        r == (vecs_view(a@) == vecs_view(b@)),
{
    if a.len() != b.len() {
        proof {
            assert(vecs_view(a@).len() != vecs_view(b@).len());
        }
        return false;
    }
    for i in 0..a.len()
        invariant
            a@.len() == b@.len(),
            forall|k: int| 0 <= k < i ==> a@[k]@ == b@[k]@,
    {
        if !chars_eq(&a[i], &b[i]) {
            proof {
                assert(vecs_view(a@)[i as int] != vecs_view(b@)[i as int]);
            }
            return false;
        }
    }
    proof {
        assert(vecs_view(a@) =~= vecs_view(b@));
    }
    true
}

fn xml_vencs_of(m: &NfeMeta) -> (r: Vec<Vec<char>>)
    ensures
        vecs_view(r@) == xml_vencs(meta_view(*m)),
{
    let ghost dv = meta_view(*m).1;
    let ghost mapped = dv.map_values(|d: (Seq<char>, Seq<char>, Seq<char>)| br_date(date_digits(d.1)));
    let mut out: Vec<Vec<char>> = Vec::new();
    for i in 0..m.dup_list.len()
        invariant
            dv == meta_view(*m).1,
            mapped == dv.map_values(|d: (Seq<char>, Seq<char>, Seq<char>)| br_date(date_digits(d.1))),
            vecs_view(out@) == non_empty_pieces(mapped.take(i as int)),
    {
        proof {
            assert(mapped.take(i + 1).drop_last() =~= mapped.take(i as int));
            assert(mapped.take(i + 1).last() == br_date(date_digits(m.dup_list@[i as int].d_venc@)));
        }
        let d = digits_to_br_date(crate::faturas_text::ddmmyyyy_to_digits(m.dup_list[i].d_venc.as_str()).as_str());
        let dc = chars_of(d.as_str());
        if dc.len() > 0 {
            let ghost prev = out@;
            out.push(dc);
            proof {
                assert(vecs_view(out@) =~= vecs_view(prev).push(d@));
            }
        }
    }
    proof {
        assert(mapped.take(m.dup_list@.len() as int) =~= mapped);
    }
    out
}

fn legacy_vencs_of(g: &LegacyGroup) -> (r: Vec<Vec<char>>)
    ensures
        vecs_view(r@) == legacy_vencs(group_v(*g)),
{
    let mut out: Vec<Vec<char>> = Vec::new();
    for i in 0..g.duplicatas.len()
        invariant
            out@.len() == i,
            forall|k: int| 0 <= k < i ==> (#[trigger] out@[k])@ == g.duplicatas@[k].d_venc@,
    {
        out.push(chars_of(g.duplicatas[i].d_venc.as_str()));
    }
    proof {
        assert(vecs_view(out@) =~= legacy_vencs(group_v(*g)));
    }
    out
}

fn find_xml(entries: &Vec<(String, NfeMeta)>, key: &Vec<char>) -> (r: Option<usize>)
    ensures
        match r {
            Some(k) => k < entries@.len() && entry_for(xml_entries_view(entries@), key@, 0) == Some(
                meta_view(entries@[k as int].1),
            ),
            None => entry_for(xml_entries_view(entries@), key@, 0) is None,
        },
{
    let ghost ev = xml_entries_view(entries@);
    let mut j: usize = 0;
    while j < entries.len()
        invariant
            ev == xml_entries_view(entries@),
            j <= entries@.len(),
            entry_for(ev, key@, 0) == entry_for(ev, key@, j as int),
        decreases entries@.len() - j,
    {
        let k = chars_of(entries[j].0.as_str());
        if chars_eq(&k, key) {
            return Some(j);
        }
        j = j + 1;
    }
    None
}

fn find_sped(entries: &Vec<(String, String, Option<Money>)>, key: &Vec<char>) -> (r: Option<usize>)
    ensures
        match r {
            Some(k) => k < entries@.len() && entry_for(notes_view(entries@), key@, 0) == Some(
                (entries@[k as int].1@, entries@[k as int].2),
            ),
            None => entry_for(notes_view(entries@), key@, 0) is None,
        },
{
    let ghost ev = notes_view(entries@);
    let mut j: usize = 0;
    while j < entries.len()
        invariant
            ev == notes_view(entries@),
            j <= entries@.len(),
            entry_for(ev, key@, 0) == entry_for(ev, key@, j as int),
        decreases entries@.len() - j,
    {
        let k = chars_of(entries[j].0.as_str());
        if chars_eq(&k, key) {
            return Some(j);
        }
        j = j + 1;
    }
    None
}

/// The divergences of one group (see `xml_msgs` and `sped_msgs`).
fn group_msgs_of(g: &LegacyGroup, xe: &Vec<(String, NfeMeta)>, se: &Vec<(String, String, Option<Money>)>) -> (r: Vec<String>)
    requires
        g.duplicatas@.len() <= 0x2000_0000_0000_0000,
        forall|k: int| 0 <= k < xe@.len() ==> (#[trigger] xe@[k]).1.dup_list@.len() < 0x100_0000_0000_0000,
    ensures
        texts(r@) == xml_msgs(group_v(*g), xml_entries_view(xe@)) + sped_msgs(group_v(*g), notes_view(se@)),
{
    let ghost gv = group_v(*g);
    let key = check_key_of(g);
    let label = nf_label_of(g);
    let mut out: Vec<String> = Vec::new();
    let ghost mut expect: Seq<Seq<char>> = seq![];
    match find_xml(xe, &key) {
        Some(k) => {
            let m = &xe[k].1;
            let total = dups_total_of(g);
            let xml_total = compute_total_from_meta(m);
            proof {
                crate::faturas_index::lemma_meta_total_bound(meta_view(*m));
            }
            if abs_diff_exec(xml_total, total) {
                let mut v: Vec<char> = Vec::new();
                append_str(&mut v, "XML: total divergente para ");
                append_chars(&mut v, &label);
                append_str(&mut v, " (legado ");
                append_str(&mut v, format_cents(total).as_str());
                append_str(&mut v, " x XML ");
                append_str(&mut v, format_cents(xml_total).as_str());
                append_str(&mut v, ").");
                out.push(string_of(&v));
            }
            let lv = sort_texts_exec(legacy_vencs_of(g));
            let xv0 = xml_vencs_of(m);
            let xn = xv0.len();
            let xv = sort_texts_exec(xv0);
            if xn > 0 && g.duplicatas.len() > 0 && !vecs_eq(&xv, &lv) {
                let mut v: Vec<char> = Vec::new();
                append_str(&mut v, "XML: vencimentos divergentes na ");
                append_chars(&mut v, &label);
                append_str(&mut v, ".");
                out.push(string_of(&v));
            }
            proof {
                assert(texts(out@) =~= xml_msgs(gv, xml_entries_view(xe@)));
            }
        },
        None => {
            if xe.len() > 0 {
                let mut v: Vec<char> = Vec::new();
                append_str(&mut v, "XML: ");
                append_chars(&mut v, &label);
                append_str(&mut v, " não encontrada para CNPJ ");
                append_str(&mut v, g.cnpj.as_str());
                append_str(&mut v, ".");
                out.push(string_of(&v));
            }
            proof {
                assert(texts(out@) =~= xml_msgs(gv, xml_entries_view(xe@)));
            }
        },
    }
    let ghost first = texts(out@);
    let mut second: Vec<String> = Vec::new();
    match find_sped(se, &key) {
        Some(k) => {
            let dt = &se[k].1;
            let dtc = chars_of(dt.as_str());
            let own = chars_of(g.dt_escrit.as_str());
            if dtc.len() > 0 && !chars_eq(&dtc, &own) {
                let mut v: Vec<char> = Vec::new();
                append_str(&mut v, "SPED: DT_E_S divergente na ");
                append_chars(&mut v, &label);
                append_str(&mut v, " (legado ");
                append_str(&mut v, g.dt_escrit.as_str());
                append_str(&mut v, " x SPED ");
                append_str(&mut v, dt.as_str());
                append_str(&mut v, ").");
                second.push(string_of(&v));
            }
            match se[k].2 {
                Some(vl) => {
                    let a = signed_of(vl);
                    let b = signed_of(g.total_nf);
                    if abs_diff_exec(a, b) {
                        let mut v: Vec<char> = Vec::new();
                        append_str(&mut v, "SPED: VL_DOC divergente na ");
                        append_chars(&mut v, &label);
                        append_str(&mut v, " (legado ");
                        append_str(&mut v, format_cents(b).as_str());
                        append_str(&mut v, " x SPED ");
                        append_str(&mut v, format_cents(a).as_str());
                        append_str(&mut v, ").");
                        second.push(string_of(&v));
                    }
                },
                None => {},
            }
            proof {
                assert(texts(second@) =~= sped_msgs(gv, notes_view(se@)));
            }
        },
        None => {
            if se.len() > 0 {
                let mut v: Vec<char> = Vec::new();
                append_str(&mut v, "SPED: ");
                append_chars(&mut v, &label);
                append_str(&mut v, " não encontrada para CNPJ ");
                append_str(&mut v, g.cnpj.as_str());
                append_str(&mut v, ".");
                second.push(string_of(&v));
            }
            proof {
                assert(texts(second@) =~= sped_msgs(gv, notes_view(se@)));
            }
        },
    }
    let ghost sv = texts(second@);
    out.append(&mut second);
    proof {
        assert(texts(out@) =~= first + sv);
    }
    out
}


// ---------------------------------------------------------------------------
// Bounds
// ---------------------------------------------------------------------------

proof fn lemma_key_from_bounds(gs: Seq<GroupV>, key: Seq<char>, j: int)
    requires
        0 <= j,
    ensures
        -1 <= key_from(gs, key, j) < gs.len(),
        key_from(gs, key, j) >= 0 ==> key_from(gs, key, j) >= j,
    decreases gs.len() - j,
{
    if j < gs.len() && gs[j].0 != key {
        lemma_key_from_bounds(gs, key, j + 1);
    }
}

proof fn lemma_insert_from_bounds(gs: Seq<GroupV>, key: Seq<char>, j: int)
    requires
        0 <= j,
    ensures
        0 <= insert_from(gs, key, j) <= gs.len(),
    decreases gs.len() - j,
{
    if j < gs.len() && !text_lt(key, gs[j].0) {
        lemma_insert_from_bounds(gs, key, j + 1);
    }
}

proof fn lemma_add_entry_bounds(gs: Seq<GroupV>, e: Entry, n: int)
    requires
        gs.len() < n,
        forall|k: int| 0 <= k < gs.len() ==> (#[trigger] gs[k]).3.len() < n,
    ensures
        add_entry(gs, e).0.len() <= n,
        forall|k: int| 0 <= k < add_entry(gs, e).0.len() ==> (#[trigger] add_entry(gs, e).0[k]).3.len() <= n,
{
    lemma_key_from_bounds(gs, group_key(e), 0);
    lemma_insert_from_bounds(gs, group_key(e), 0);
    let r = add_entry(gs, e).0;
    let k0 = key_from(gs, group_key(e), 0);
    if k0 < 0 {
        let p = insert_from(gs, group_key(e), 0);
        assert forall|k: int| 0 <= k < r.len() implies (#[trigger] r[k]).3.len() <= n by {
            if k < p {
                assert(r[k] == gs[k]);
            } else if k > p {
                assert(r[k] == gs[k - 1]);
            }
        }
    }
}

proof fn lemma_scan_bounds(lines: Seq<Seq<char>>, n: int)
    requires
        0 <= n <= lines.len(),
    ensures
        scan_lines(lines, n).2 <= n,
        scan_lines(lines, n).4 <= 3 * n,
        scan_lines(lines, n).1.len() <= n,
        forall|k: int| 0 <= k < scan_lines(lines, n).1.len() ==> (#[trigger] scan_lines(lines, n).1[k]).3.len() <= n,
    decreases n,
{
    if n > 0 {
        lemma_scan_bounds(lines, n - 1);
        let st = scan_lines(lines, n - 1);
        let t = trim(lines[n - 1]);
        if t.len() > 0 {
            let f = pipe_fields(t);
            if !(!st.0 && header_line(f, n - 1)) {
                match legacy_entry(f, n as nat) {
                    Ok(e) => {
                        lemma_add_entry_bounds(st.1, e, n);
                    },
                    Err(_) => {},
                }
            }
        }
    }
}

// ---------------------------------------------------------------------------
// Order of the groups
// ---------------------------------------------------------------------------

/// The groups' keys strictly increase, so no key occurs twice.
pub open spec fn groups_sorted(gs: Seq<GroupV>) -> bool {
    forall|i: int, j: int| 0 <= i < j < gs.len() ==> text_lt(#[trigger] gs[i].0, #[trigger] gs[j].0)
}

proof fn lemma_key_from_absent(gs: Seq<GroupV>, key: Seq<char>, j: int)
    requires
        0 <= j,
        key_from(gs, key, j) == -1,
    ensures
        forall|k: int| j <= k < gs.len() ==> (#[trigger] gs[k]).0 != key,
    decreases gs.len() - j,
{
    if j < gs.len() {
        lemma_key_from_absent(gs, key, j + 1);
    }
}

proof fn lemma_insert_from_place(gs: Seq<GroupV>, key: Seq<char>, j: int)
    requires
        0 <= j <= gs.len(),
    ensures
        j <= insert_from(gs, key, j) <= gs.len(),
        forall|k: int| j <= k < insert_from(gs, key, j) ==> !text_lt(key, (#[trigger] gs[k]).0),
        insert_from(gs, key, j) < gs.len() ==> text_lt(key, gs[insert_from(gs, key, j)].0),
    decreases gs.len() - j,
{
    if j < gs.len() && !text_lt(key, gs[j].0) {
        lemma_insert_from_place(gs, key, j + 1);
    }
}

proof fn lemma_add_entry_sorted(gs: Seq<GroupV>, e: Entry)
    requires
        groups_sorted(gs),
    ensures
        groups_sorted(add_entry(gs, e).0),
{
    let key = group_key(e);
    let k0 = key_from(gs, key, 0);
    lemma_key_from_bounds(gs, key, 0);
    let r = add_entry(gs, e).0;
    if k0 >= 0 {
        assert forall|i: int, j: int| 0 <= i < j < r.len() implies text_lt(#[trigger] r[i].0, #[trigger] r[j].0) by {
            assert(r[i].0 == gs[i].0);
            assert(r[j].0 == gs[j].0);
        }
    } else {
        lemma_key_from_absent(gs, key, 0);
        lemma_insert_from_place(gs, key, 0);
        let p = insert_from(gs, key, 0);
        assert forall|i: int, j: int| 0 <= i < j < r.len() implies text_lt(#[trigger] r[i].0, #[trigger] r[j].0) by {
            if j < p {
                assert(r[i] == gs[i] && r[j] == gs[j]);
            } else if i > p {
                assert(r[i] == gs[i - 1] && r[j] == gs[j - 1]);
            } else if j == p {
                assert(r[i] == gs[i]);
                assert(!text_lt(key, gs[i].0));
                lemma_text_lt_total(key, gs[i].0);
            } else if i == p {
                assert(r[j] == gs[j - 1]);
                if j - 1 > p {
                    lemma_text_lt_transitive(key, gs[p].0, gs[j - 1].0);
                }
            } else {
                assert(r[i] == gs[i] && r[j] == gs[j - 1]);
            }
        }
    }
}

proof fn lemma_scan_sorted(lines: Seq<Seq<char>>, n: int)
    requires
        0 <= n <= lines.len(),
    ensures
        groups_sorted(scan_lines(lines, n).1),
    decreases n,
{
    if n > 0 {
        lemma_scan_sorted(lines, n - 1);
        let st = scan_lines(lines, n - 1);
        let t = trim(lines[n - 1]);
        if t.len() > 0 {
            let f = pipe_fields(t);
            if !(!st.0 && header_line(f, n - 1)) {
                match legacy_entry(f, n as nat) {
                    Ok(e) => {
                        lemma_add_entry_sorted(st.1, e);
                    },
                    Err(_) => {},
                }
            }
        }
    }
}

/// The notes of a legacy file come out in the order of their key
/// (`CNPJ|SERIE|NF|DDMMYYYY`), each key once.
pub proof fn law_legacy_notes_sorted(text: Seq<char>)
    ensures
        groups_sorted(legacy_scan(text).1),
{
    lemma_scan_sorted(legacy_lines(text), legacy_lines(text).len() as int);
}

proof fn lemma_group_divergences_len(gs: Seq<GroupV>, xe: Seq<(Seq<char>, MetaView)>, se: Seq<(Seq<char>, SpedNote)>)
    ensures
        group_divergences(gs, xe, se).len() <= 4 * gs.len(),
    decreases gs.len(),
{
    if gs.len() > 0 {
        lemma_group_divergences_len(gs.drop_last(), xe, se);
    }
}

proof fn lemma_lines_len(text: Seq<char>)
    ensures
        legacy_lines(text).len() <= text.len() + 1,
{
    let c = strip_leading(text, '\u{feff}');
    lemma_strip_leading_len(text, '\u{feff}');
    lemma_split_on_len(c, '\n');
    crate::text::lemma_split_on_nonempty(c, '\n');
    let p = split_on(c, '\n');
    let q = if p.last().len() == 0 {
        p.drop_last()
    } else {
        p
    };
    assert(lines_of(c).len() == q.len());
}

proof fn lemma_xml_entries_bound(mv: Seq<MetaView>)
    requires
        forall|j: int| 0 <= j < mv.len() ==> (#[trigger] mv[j]).1.len() < 0x100_0000_0000_0000,
    ensures
        forall|k: int| 0 <= k < crate::faturas_index::xml_entries(mv).len() ==> (#[trigger] crate::faturas_index::xml_entries(
            mv,
        )[k]).1.1.len() < 0x100_0000_0000_0000,
    decreases mv.len(),
{
    if mv.len() > 0 {
        assert forall|j: int| 0 <= j < mv.drop_last().len() implies (#[trigger] mv.drop_last()[j]).1.len()
            < 0x100_0000_0000_0000 by {
            assert(mv.drop_last()[j] == mv[j]);
        }
        lemma_xml_entries_bound(mv.drop_last());
        assert(mv.last() == mv[mv.len() - 1]);
        let e = crate::faturas_index::xml_entries(mv.drop_last());
        let r = crate::faturas_index::xml_entries(mv);
        assert forall|k: int| 0 <= k < r.len() implies (#[trigger] r[k]).1.1.len() < 0x100_0000_0000_0000 by {
            if k < e.len() {
                assert(r[k] == e[k]);
            }
        }
    }
}

/// The reading state, as values.
struct ScanState {
    header: bool,
    groups: Vec<LegacyGroup>,
    invalid_count: usize,
    invalid_lines: Vec<String>,
    warning_count: usize,
    warnings: Vec<String>,
}

spec fn state_view(st: ScanState) -> Scan {
    scan_view(st.header, st.groups@, st.invalid_count, st.invalid_lines@, st.warning_count, st.warnings@)
}

/// Reads one line of the file (its index is `idx`).
fn scan_line_exec(st: &mut ScanState, line: &Vec<char>, idx: usize)
    requires
        idx < usize::MAX / 8 + 1,
        old(st).invalid_count <= idx,
        old(st).warning_count <= 3 * idx,
    ensures
        state_view(*final(st)) == scan_line(state_view(*old(st)), line@, idx as int),
{
    let t = trim_chars(line);
    if t.len() > 0 {
        let f = fields_of(&t);
        if !st.header && is_legacy_header_line(&f, idx) {
            st.header = true;
        } else {
            match legacy_entry_of(&f, idx + 1) {
                Err(m) => {
                    st.invalid_count = st.invalid_count + 1;
                    push_msg(&mut st.invalid_lines, m);
                },
                Ok(e) => {
                    let n = idx + 1;
                    let ghost ev = entry_view(e);
                    let ghost s0 = state_view(*st);
                    if !e.fat_positive {
                        st.warning_count = st.warning_count + 1;
                        push_msg(&mut st.warnings, line_message(n, ": VL Fatura <= 0."));
                    }
                    let blank = is_blank_chars(&chars_of(e.parcela.as_str()));
                    if blank {
                        st.warning_count = st.warning_count + 1;
                        push_msg(&mut st.warnings, line_message(n, ": Parcela vazia (fallback aplicado)."));
                    }
                    let div = add_entry_exec(&mut st.groups, e);
                    if div {
                        st.warning_count = st.warning_count + 1;
                        push_msg(&mut st.warnings, line_message(n, ": VL NF divergente dentro do grupo."));
                    }
                    proof {
                        assert(state_view(*st) == scan_entry(s0, ev, n as nat));
                    }
                },
            }
        }
    }
}

// ---------------------------------------------------------------------------
// The import
// ---------------------------------------------------------------------------

/// What a legacy import gives: the rows, the number of notes and of
/// installments, the invalid lines, the warnings and the divergences
/// (counts, and the first thirty messages).
pub struct LegacyStats {
    pub rows: Vec<NfeFaturasRow>,
    pub notes: usize,
    pub parcelas: usize,
    pub invalid_count: usize,
    pub invalid_lines: Vec<String>,
    pub warning_count: usize,
    pub warnings: Vec<String>,
    pub divergences: Vec<String>,
    pub divergence_count: usize,
}

pub open spec fn opt_str_view(o: Option<&str>) -> Option<Seq<char>> {
    match o {
        Some(s) => Some(s@),
        None => None,
    }
}

/// The divergences of an import: none without cross-check.
pub open spec fn import_divergences(text: Seq<char>, conferir: bool, sped_files: Seq<(Seq<char>, Seq<char>)>, metas: Seq<MetaView>) -> Seq<Seq<char>> {
    if conferir {
        divergences_of(legacy_scan(text).1, crate::faturas_index::xml_entries(metas), crate::faturas_index::sped_index(sped_files))
    } else {
        seq![]
    }
}

/// The log details of an import.
pub open spec fn import_log_meta(file_name: Seq<char>, notes: nat, parcelas: nat) -> Seq<char> {
    file_name + " | notas "@ + decimal(notes) + " | parcelas "@ + decimal(parcelas)
}

/// Reads a legacy pipe file of installments, and cross-checks its notes
/// with the XMLs and SPED files when `conferir` is set.  `now` stamps the
/// log entry.  The text holds fewer than `usize::MAX / 8` characters and
/// notes fewer than 2^56 installments, as anything in memory does.
pub fn parse_legacy_pipe_file(
    text: &str,
    file_name: &str,
    conferir: bool,
    cnpj_filial: Option<&str>,
    sped_files: &Vec<crate::faturas::NamedText>,
    nfe_metas: &Vec<NfeMeta>,
    logs: &mut Vec<crate::faturas::NfeFaturasLogItem>,
    now: &str,
) -> (r: Result<LegacyStats, String>)
    requires
        text@.len() < usize::MAX / 8,
        forall|k: int| 0 <= k < nfe_metas@.len() ==> (#[trigger] nfe_metas@[k]).dup_list@.len() < 0x100_0000_0000_0000,
    ensures
        r is Ok,
        r matches Ok(st) ==> {
            &&& rows_view(st.rows@) == legacy_rows_of(text@, file_name@, opt_str_view(cnpj_filial))
            &&& st.notes == legacy_scan(text@).1.len()
            &&& st.parcelas == st.rows@.len()
            &&& st.invalid_count == legacy_scan(text@).2
            &&& texts(st.invalid_lines@) == legacy_scan(text@).3
            &&& (st.warning_count as nat, texts(st.warnings@)) == final_warnings(text@, file_name@, opt_str_view(cnpj_filial))
            &&& st.divergence_count == import_divergences(text@, conferir, crate::faturas::named_view(sped_files@), crate::faturas::metas_view(nfe_metas@)).len()
            &&& texts(st.divergences@) == first_thirty(import_divergences(text@, conferir, crate::faturas::named_view(sped_files@), crate::faturas::metas_view(nfe_metas@)))
            &&& crate::faturas_text::logs_view(final(logs)@) == if st.rows@.len() > 0 {
                crate::faturas_text::push_front(
                    crate::faturas_text::logs_view(old(logs)@),
                    (now@, "info"@, "LEGADO importado"@, Some(import_log_meta(file_name@, st.notes as nat, st.parcelas as nat))),
                )
            } else {
                crate::faturas_text::logs_view(old(logs)@)
            }
        },
{
    let raw = chars_of(text);
    let clean = strip_leading_chars(&raw, '\u{feff}');
    let lines = lines_chars(&clean);
    let ghost lv = legacy_lines(text@);
    proof {
        lemma_lines_len(text@);
    }
    let mut st = ScanState {
        header: false,
        groups: Vec::new(),
        invalid_count: 0,
        invalid_lines: Vec::new(),
        warning_count: 0,
        warnings: Vec::new(),
    };
    proof {
        assert(texts(st.invalid_lines@) =~= Seq::<Seq<char>>::empty());
        assert(texts(st.warnings@) =~= Seq::<Seq<char>>::empty());
        assert(groups_v(st.groups@) =~= Seq::<GroupV>::empty());
    }
    for idx in 0..lines.len()
        invariant
            lines@.len() == lv.len(),
            lv.len() <= usize::MAX / 8 + 1,
            forall|k: int| 0 <= k < lines@.len() ==> (#[trigger] lines@[k])@ == lv[k],
            state_view(st) == scan_lines(lv, idx as int),
    {
        proof {
            lemma_scan_bounds(lv, idx as int);
        }
        scan_line_exec(&mut st, &lines[idx], idx);
    }
    proof {
        lemma_scan_bounds(lv, lv.len() as int);
    }
    let ScanState { header: _, groups, invalid_count, invalid_lines, mut warning_count, mut warnings } = st;
    let ghost gv = groups_v(groups@);
    let filial: String = match cnpj_filial {
        Some(c) => {
            let d = only_digits_chars(&chars_of(c));
            if d.len() == 14 {
                string_of(&d)
            } else {
                String::new()
            }
        },
        None => String::new(),
    };
    let known = match cnpj_filial {
        Some(c) => only_digits_chars(&chars_of(c)).len() == 14,
        None => false,
    };
    let mut src: Vec<char> = Vec::new();
    append_str(&mut src, "LEGADO:");
    append_str(&mut src, file_name);
    let source = string_of(&src);
    let rows = rows_of_groups(&groups, &filial, &source);
    if !known && rows.len() > 0 {
        warning_count = warning_count + 1;
        push_msg(&mut warnings, crate::text::str_to_string("CNPJ da filial não definido (coluna CNPJFILIAL ficará vazia)."));
    }
    let mut divergences: Vec<String> = Vec::new();
    let mut divergence_count: usize = 0;
    if conferir {
        let xe = build_xml_index(nfe_metas);
        let se = crate::faturas_index::build_sped_index(sped_files);
        proof {
            let mv = crate::faturas::metas_view(nfe_metas@);
            assert forall|j: int| 0 <= j < mv.len() implies (#[trigger] mv[j]).1.len() < 0x100_0000_0000_0000 by {
                assert(mv[j] == meta_view(nfe_metas@[j]));
            }
            lemma_xml_entries_bound(mv);
        }
        if xe.len() == 0 && se.len() == 0 {
            divergence_count = 1;
            divergences.push(crate::text::str_to_string("XML/SPED não processados. Carregue e processe antes para conferir."));
        } else {
            let ghost xv = xml_entries_view(xe@);
            let ghost sv = notes_view(se@);
            proof {
                assert(texts(divergences@) =~= Seq::<Seq<char>>::empty());
                assert(gv.take(0) =~= Seq::<GroupV>::empty());
            }
            for gi in 0..groups.len()
                invariant
                    gv == groups_v(groups@),
                    gv.len() <= usize::MAX / 8 + 1,
                    forall|k: int| 0 <= k < gv.len() ==> (#[trigger] gv[k]).3.len() <= usize::MAX / 8 + 1,
                    xv == xml_entries_view(xe@),
                    sv == notes_view(se@),
                    forall|k: int| 0 <= k < xv.len() ==> (#[trigger] xv[k]).1.1.len() < 0x100_0000_0000_0000,
                    divergence_count == group_divergences(gv.take(gi as int), xv, sv).len(),
                    texts(divergences@) == first_thirty(group_divergences(gv.take(gi as int), xv, sv)),
            {
                proof {
                    assert(gv.take(gi + 1).drop_last() =~= gv.take(gi as int));
                    assert(gv.take(gi + 1).last() == group_v(groups@[gi as int]));
                    assert(gv[gi as int].3.len() == groups@[gi as int].duplicatas@.len());
                    assert forall|k: int| 0 <= k < xe@.len() implies (#[trigger] xe@[k]).1.dup_list@.len() < 0x100_0000_0000_0000 by {
                        assert(xv[k].1.1.len() == xe@[k].1.dup_list@.len());
                    }
                    lemma_group_divergences_len(gv.take(gi + 1), xv, sv);
                }
                let msgs = group_msgs_of(&groups[gi], &xe, &se);
                let ghost base = group_divergences(gv.take(gi as int), xv, sv);
                let ghost mv = texts(msgs@);
                proof {
                    assert(group_divergences(gv.take(gi + 1), xv, sv) =~= base + mv);
                }
                for mi in 0..msgs.len()
                    invariant
                        mv == texts(msgs@),
                        base.len() + mv.len() <= 4 * (usize::MAX / 8 + 1),
                        divergence_count == base.len() + mi,
                        texts(divergences@) == first_thirty(base + mv.take(mi as int)),
                {
                    proof {
                        assert(base + mv.take(mi + 1) =~= (base + mv.take(mi as int)).push(mv[mi as int]));
                        lemma_first_thirty_push(base + mv.take(mi as int), mv[mi as int]);
                    }
                    divergence_count = divergence_count + 1;
                    push_msg(&mut divergences, copy_string(&msgs[mi]));
                }
                proof {
                    assert(mv.take(msgs@.len() as int) =~= mv);
                }
            }
            proof {
                assert(gv.take(groups@.len() as int) =~= gv);
            }
        }
    }
    let parcelas = rows.len();
    let notes = groups.len();
    if rows.len() > 0 {
        let mut meta: Vec<char> = Vec::new();
        append_str(&mut meta, file_name);
        append_str(&mut meta, " | notas ");
        let dn = decimal_chars(notes as u128);
        append_chars(&mut meta, &dn);
        append_str(&mut meta, " | parcelas ");
        let dp = decimal_chars(parcelas as u128);
        append_chars(&mut meta, &dp);
        crate::faturas_text::log_push(logs, now, "info", "LEGADO importado", Some(string_of(&meta)));
    }
    Ok(
        LegacyStats {
            rows,
            notes,
            parcelas,
            invalid_count,
            invalid_lines,
            warning_count,
            warnings,
            divergences,
            divergence_count,
        },
    )
}

} // verus!
