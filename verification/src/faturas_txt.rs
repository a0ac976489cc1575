//! The rows the invoice tool exports, and their fixed-width TXT and CSV
//! writings.
use vstd::prelude::*;

use crate::faturas::{copy_row, row_view, rows_view, NfeFaturasRow, NfeFaturasSettings, RowView};
use crate::faturas_c140::{add_days_to_dig_date, br_time, br_date_to_time, moved_text};
use crate::faturas_index::{cents_or_zero, cents_text, format_cents, money_bound, signed_of};
use crate::faturas_text::{csv_cell, csv_escape, date_digits, ddmmyyyy_to_digits, pad_serie_with_zeros, padded_serie};
use crate::money::{money2_text, parse_money, to_money2};
use crate::text::{
    alnum_upper, append_chars, append_str, chars_eq, chars_of, copy_string, decimal, decimal_chars, digits,
    is_ws, is_ws_char, only_alnum_upper_chars, only_digits_chars, str_eq, string_of, upper_chars, upper_seq,
    utf8_len, utf8_width, utf8_width_of,
};

verus! {

broadcast use vstd::string::group_string_axioms;

// ---------------------------------------------------------------------------
// Fixed-width fields
// ---------------------------------------------------------------------------

/// How many `ch` of `w` bytes a text of `len` bytes takes to reach `size`
/// bytes.
pub open spec fn pad_count(len: int, w: int, size: int) -> nat
    decreases size - len + w,
{
    if len >= size || w <= 0 {
        0
    } else {
        1 + pad_count(len + w, w, size)
    }
}

/// `n` times `ch`.
pub open spec fn repeat(ch: char, n: nat) -> Seq<char> {
    Seq::new(n, |i: int| ch)
}

/// A text brought to `size` characters: padded with `ch` on the right (or
/// on the left) until its encoding holds `size` bytes, then cut to its
/// first (or last) `size` characters.
pub open spec fn fit_field(source: Seq<char>, ch: char, size: nat, left_align: bool) -> Seq<char> {
    let k = pad_count(utf8_len(source) as int, utf8_width(ch) as int, size as int);
    if left_align {
        let r = source + repeat(ch, k);
        if r.len() > size {
            r.take(size as int)
        } else {
            r
        }
    } else {
        let r = repeat(ch, k) + source;
        if r.len() > size {
            r.skip(r.len() - size)
        } else {
            r
        }
    }
}

fn utf8_len_big(v: &Vec<char>) -> (r: u128)
    ensures
        r as int == utf8_len(v@),
{
    let mut n: u128 = 0;
    for i in 0..v.len()
        invariant
            n as int == utf8_len(v@.take(i as int)),
            n <= 4 * i,
    {
        proof {
            assert(v@.take(i + 1).drop_last() =~= v@.take(i as int));
        }
        n = n + (utf8_width_of(v[i]) as u128);
    }
    proof {
        assert(v@.take(v.len() as int) =~= v@);
    }
    n
}

/// Brings a text to a fixed width (see `fit_field`).
pub fn format_str_size(source: &str, ch: char, size: usize, left_align: bool) -> (r: String)
    ensures
        r@ == fit_field(source@, ch, size as nat, left_align),
{
    let src = chars_of(source);
    let len = utf8_len_big(&src);
    let w = utf8_width_of(ch) as u128;
    let mut pad: Vec<char> = Vec::new();
    let mut cur: u128 = len;
    let ghost k = pad_count(len as int, w as int, size as int);
    while cur < size as u128
        invariant
            w >= 1,
            w <= 4,
            pad_count(len as int, w as int, size as int) == pad@.len() + pad_count(cur as int, w as int, size as int),
            pad@ == repeat(ch, pad@.len()),
            cur as int == len + pad@.len() * w,
        decreases size as int - cur + w,
    {
        pad.push(ch);
        proof {
            assert(pad@ =~= repeat(ch, pad@.len()));
            assert(cur as int + w == len + pad@.len() * w) by (nonlinear_arith)
                requires
                    cur as int == len + (pad@.len() - 1) * w,
            ;
        }
        cur = cur + w;
    }
    if left_align {
        let mut r = crate::text::concat_chars(&src, &pad);
        if r.len() > size {
            r = crate::text::slice_chars(&r, 0, size);
            proof {
                assert(r@ =~= (src@ + pad@).take(size as int));
            }
        }
        string_of(&r)
    } else {
        let r = crate::text::concat_chars(&pad, &src);
        if r.len() > size {
            let cut = crate::text::slice_chars(&r, r.len() - size, r.len());
            proof {
                assert(cut@ =~= (pad@ + src@).skip(r@.len() - size));
            }
            string_of(&cut)
        } else {
            string_of(&r)
        }
    }
}

// ---------------------------------------------------------------------------
// The TXT line
// ---------------------------------------------------------------------------

/// The first character of a setting, or a default.
pub open spec fn first_or(s: Seq<char>, d: char) -> Seq<char> {
    if s.len() > 0 {
        seq![s[0]]
    } else {
        seq![d]
    }
}

/// The entry date of a row, else its issue date.
pub open spec fn entry_or_issue(r: RowView) -> Seq<char> {
    if r.0.8.len() == 0 {
        r.0.7
    } else {
        r.0.8
    }
}

/// The due date written for a row: its own, or thirty days after its entry
/// when the setting asks for it and the entry date has eight bytes.
pub open spec fn txt_due(r: RowView, venc30: bool) -> Seq<char> {
    let base = date_digits(entry_or_issue(r));
    if venc30 && utf8_len(base) == 8 {
        moved_text(base, 30)
    } else {
        date_digits(r.1.2)
    }
}

/// The fields of a TXT line, each brought to its width.
pub open spec fn txt_fields(r: RowView, item3: Seq<char>, s: NfeFaturasSettings) -> Seq<Seq<char>> {
    let valor = money2_text(r.1.3);
    seq![
        fit_field(first_or(s.origem@, '0'), ' ', 1, false),
        fit_field(first_or(s.tipo@, '1'), ' ', 1, false),
        fit_field(digits(r.0.2), '0', 14, false),
        fit_field(upper_seq(r.0.3), ' ', 2, false),
        fit_field(alnum_upper(r.0.4), ' ', 20, false),
        fit_field(padded_serie(r.0.5, s.serie_digits@), ' ', 6, false),
        fit_field(seq![], ' ', 6, false),
        fit_field(r.0.6, '0', 10, false),
        fit_field(item3, ' ', 3, false),
        fit_field(date_digits(entry_or_issue(r)), ' ', 8, true),
        fit_field(r.0.6 + "/"@ + r.1.1, ' ', 20, false),
        fit_field(txt_due(r, s.chk_venc30), ' ', 8, false),
        fit_field(valor, ' ', 14, false),
        fit_field(seq![], ' ', 14, false),
        fit_field(seq![], ' ', 14, false),
        fit_field(seq![], ' ', 14, false),
        fit_field(seq![], ' ', 14, false),
        fit_field(valor, ' ', 14, false),
        fit_field(seq![], ' ', 8, false),
        fit_field(seq![], ' ', 11, false),
        fit_field(seq![], ' ', 8, false),
        fit_field(seq![], ' ', 8, false),
        fit_field(seq![], ' ', 14, false),
        fit_field(seq![], ' ', 11, false),
        fit_field(seq![], ' ', 14, false),
        fit_field(seq![], ' ', 11, false),
        fit_field(seq![], ' ', 14, false),
        fit_field(seq![], ' ', 11, false),
        fit_field(seq![], ' ', 6, false),
        fit_field("N"@, ' ', 1, false),
        fit_field(seq![], ' ', 14, true),
        fit_field("2"@, ' ', 1, false),
        fit_field(seq![], ' ', 30, false),
        fit_field("9"@, ' ', 1, false),
        fit_field("03"@, ' ', 2, false),
        fit_field(seq![], ' ', 40, false),
        fit_field(seq![], ' ', 3, false),
    ]
}

pub open spec fn concat_all(s: Seq<Seq<char>>) -> Seq<char>
    decreases s.len(),
{
    if s.len() == 0 {
        seq![]
    } else {
        concat_all(s.drop_last()) + s.last()
    }
}

/// The fixed-width TXT line of a row.
pub open spec fn txt_line(r: RowView, item3: Seq<char>, s: NfeFaturasSettings) -> Seq<char> {
    concat_all(txt_fields(r, item3, s))
}

proof fn lemma_utf8_ascii(s: Seq<char>)
    requires
        forall|k: int| 0 <= k < s.len() ==> (#[trigger] s[k] as int) < 0x80,
    ensures
        utf8_len(s) == s.len(),
    decreases s.len(),
{
    if s.len() > 0 {
        assert forall|k: int| 0 <= k < s.drop_last().len() implies (#[trigger] s.drop_last()[k] as int) < 0x80 by {
            assert(s.drop_last()[k] == s[k]);
        }
        lemma_utf8_ascii(s.drop_last());
        assert((s.last() as int) < 0x80);
    }
}

proof fn lemma_pad_count_one(len: int, size: int)
    ensures
        pad_count(len, 1, size) == if len >= size { 0 } else { size - len },
    decreases size - len,
{
    if len < size {
        lemma_pad_count_one(len + 1, size);
    }
}

/// A plain ASCII text brought to a width with blanks on the left.
proof fn lemma_fit_ascii_right(src: Seq<char>, size: nat)
    requires
        forall|k: int| 0 <= k < src.len() ==> (#[trigger] src[k] as int) < 0x80,
    ensures
        fit_field(src, ' ', size, false).len() == size,
        src.len() <= size ==> fit_field(src, ' ', size, false) == repeat(' ', (size - src.len()) as nat) + src,
{
    lemma_fit_ascii_padded(src, ' ', size);
}

/// A plain ASCII text brought to a width with an ASCII padding on the left.
proof fn lemma_fit_ascii_padded(src: Seq<char>, ch: char, size: nat)
    requires
        forall|k: int| 0 <= k < src.len() ==> (#[trigger] src[k] as int) < 0x80,
        (ch as int) < 0x80,
    ensures
        fit_field(src, ch, size, false).len() == size,
        src.len() <= size ==> fit_field(src, ch, size, false) == repeat(ch, (size - src.len()) as nat) + src,
{
    lemma_utf8_ascii(src);
    lemma_pad_count_one(src.len() as int, size as int);
}

proof fn lemma_concat_all_append(a: Seq<Seq<char>>, b: Seq<Seq<char>>)
    ensures
        concat_all(a + b) == concat_all(a) + concat_all(b),
    decreases b.len(),
{
    if b.len() == 0 {
        assert(a + b =~= a);
        assert(concat_all(a) + concat_all(b) =~= concat_all(a));
    } else {
        lemma_concat_all_append(a, b.drop_last());
        assert((a + b).drop_last() =~= a + b.drop_last());
        assert((a + b).last() == b.last());
        assert(concat_all(a) + (concat_all(b.drop_last()) + b.last()) =~= (concat_all(a) + concat_all(
            b.drop_last(),
        )) + b.last());
    }
}

proof fn lemma_concat_all_len(s: Seq<Seq<char>>, w: Seq<nat>)
    requires
        s.len() == w.len(),
        forall|i: int| 0 <= i < s.len() ==> (#[trigger] s[i]).len() == w[i],
    ensures
        concat_all(s).len() == w_sum(w),
    decreases s.len(),
{
    if s.len() > 0 {
        lemma_concat_all_len(s.drop_last(), w.drop_last());
    }
}

pub open spec fn w_sum(w: Seq<nat>) -> nat
    decreases w.len(),
{
    if w.len() == 0 {
        0
    } else {
        w_sum(w.drop_last()) + w.last()
    }
}

/// The fields after the second amount: empty fields and the constants of
/// the record, 208 columns in all.
pub open spec fn txt_tail() -> Seq<Seq<char>> {
    seq![
        fit_field(seq![], ' ', 8, false),
        fit_field(seq![], ' ', 11, false),
        fit_field(seq![], ' ', 8, false),
        fit_field(seq![], ' ', 8, false),
        fit_field(seq![], ' ', 14, false),
        fit_field(seq![], ' ', 11, false),
        fit_field(seq![], ' ', 14, false),
        fit_field(seq![], ' ', 11, false),
        fit_field(seq![], ' ', 14, false),
        fit_field(seq![], ' ', 11, false),
        fit_field(seq![], ' ', 6, false),
        fit_field("N"@, ' ', 1, false),
        fit_field(seq![], ' ', 14, true),
        fit_field("2"@, ' ', 1, false),
        fit_field(seq![], ' ', 30, false),
        fit_field("9"@, ' ', 1, false),
        fit_field("03"@, ' ', 2, false),
        fit_field(seq![], ' ', 40, false),
        fit_field(seq![], ' ', 3, false),
    ]
}

#[verifier::rlimit(40)]
proof fn lemma_txt_tail_len(rest: Seq<Seq<char>>)
    requires
        rest == txt_tail(),
    ensures
        concat_all(rest).len() == 208,
{
    let widths: Seq<nat> = seq![8, 11, 8, 8, 14, 11, 14, 11, 14, 11, 6, 1, 14, 1, 30, 1, 2, 40, 3];
    reveal_strlit("N");
    reveal_strlit("2");
    reveal_strlit("9");
    reveal_strlit("03");
    lemma_pad_count_one(0, 14);
    assert(utf8_len(Seq::<char>::empty()) == 0);
    assert forall|i: int| 0 <= i < rest.len() implies (#[trigger] rest[i]).len() == widths[i] by {
        if i == 12 {
        } else if i == 11 {
            lemma_fit_ascii_right("N"@, 1);
        } else if i == 13 {
            lemma_fit_ascii_right("2"@, 1);
        } else if i == 15 {
            lemma_fit_ascii_right("9"@, 1);
        } else if i == 16 {
            lemma_fit_ascii_right("03"@, 2);
        } else {
            lemma_fit_ascii_right(seq![], widths[i]);
        }
    }
    lemma_concat_all_len(rest, widths);
    reveal_with_fuel(w_sum, 20);
}

/// One character fitted to one column is itself.
proof fn lemma_fit_one(c: char, ch: char)
    ensures
        fit_field(seq![c], ch, 1, false) == seq![c],
{
    let s = seq![c];
    assert(s.drop_last() =~= Seq::<char>::empty());
    assert(utf8_len(s.drop_last()) == 0);
    assert(utf8_len(s) == utf8_width(c));
    assert(pad_count(utf8_len(s) as int, utf8_width(ch) as int, 1) == 0);
    assert(repeat(ch, 0) + s =~= s);
}

/// A row's TXT line starts with its origin and type (the first character
/// of each setting, `0` and `1` by default) and the counterparty's
/// document in digits, zero-padded to 14 columns.
#[verifier::spinoff_prover]
pub proof fn law_txt_line_head(r: RowView, item3: Seq<char>, s: NfeFaturasSettings)
    ensures
        ({
            let line = txt_line(r, item3, s);
            &&& line.len() >= 16
            &&& line[0] == first_or(s.origem@, '0')[0]
            &&& line[1] == first_or(s.tipo@, '1')[0]
            &&& line.subrange(2, 16) == fit_field(digits(r.0.2), '0', 14, false)
        }),
{
    let f = txt_fields(r, item3, s);
    let o = first_or(s.origem@, '0');
    let t = first_or(s.tipo@, '1');
    lemma_fit_one(o[0], ' ');
    lemma_fit_one(t[0], ' ');
    assert(o =~= seq![o[0]]);
    assert(t =~= seq![t[0]]);
    crate::text::lemma_digits_len(r.0.2);
    lemma_fit_ascii_padded(digits(r.0.2), '0', 14);
    let a = f.take(3);
    let rest = f.skip(3);
    assert(f =~= a + rest);
    lemma_concat_all_append(a, rest);
    reveal_with_fuel(concat_all, 4);
    let c = fit_field(digits(r.0.2), '0', 14, false);
    assert(concat_all(a) =~= seq![o[0]] + seq![t[0]] + c);
    let line = txt_line(r, item3, s);
    assert(line.subrange(2, 16) =~= c);
}

/// A row's TXT line holds its gross amount twice: right after the first
/// twelve fields (record data, documents, series, number, dates), the
/// amount written with two decimals and right-aligned in 14 columns, then
/// four empty amounts (56 blanks), then the same amount again.  For a row
/// of plain ASCII data these are columns 100-113 and 170-183 of the
/// 391-column line.
#[verifier::spinoff_prover]
pub proof fn law_txt_line_amount_twice(r: RowView, item3: Seq<char>, s: NfeFaturasSettings)
    ensures
        ({
            let line = txt_line(r, item3, s);
            let v = fit_field(money2_text(r.1.3), ' ', 14, false);
            let p = concat_all(txt_fields(r, item3, s).take(12)).len() as int;
            &&& v.len() == 14
            &&& line.len() == p + 292
            &&& line.subrange(p, p + 14) == v
            &&& line.subrange(p + 14, p + 70) == repeat(' ', 56)
            &&& line.subrange(p + 70, p + 84) == v
            &&& line.len() == 391 ==> line.subrange(99, 113) == v && line.subrange(169, 183) == v
        }),
{
    let f = txt_fields(r, item3, s);
    let v = fit_field(money2_text(r.1.3), ' ', 14, false);
    let e = fit_field(seq![], ' ', 14, false);
    crate::money::lemma_money2_ascii(r.1.3);
    lemma_fit_ascii_right(money2_text(r.1.3), 14);
    lemma_fit_ascii_right(seq![], 14);
    assert(e =~= repeat(' ', 14));
    let a = f.take(12);
    let mid = f.subrange(12, 18);
    let rest = f.skip(18);
    assert(f =~= a + mid + rest);
    assert(mid =~= seq![v, e, e, e, e, v]);
    assert(rest =~= txt_tail());
    lemma_concat_all_append(a + mid, rest);
    lemma_concat_all_append(a, mid);
    reveal_with_fuel(concat_all, 7);
    let m = concat_all(mid);
    assert(m =~= v + e + e + e + e + v);
    let p = concat_all(a).len() as int;
    let line = txt_line(r, item3, s);
    assert(line == concat_all(a) + m + concat_all(rest));
    lemma_txt_tail_len(rest);
    assert(line.subrange(p, p + 14) =~= v);
    assert(line.subrange(p + 14, p + 70) =~= repeat(' ', 56));
    assert(line.subrange(p + 70, p + 84) =~= v);
}

fn first_char_or(s: &String, d: char) -> (r: String)
    ensures
        r@ == first_or(s@, d),
{
    let v = chars_of(s.as_str());
    let mut out: Vec<char> = Vec::new();
    if v.len() > 0 {
        out.push(v[0]);
    } else {
        out.push(d);
    }
    proof {
        assert(out@ =~= first_or(s@, d));
    }
    string_of(&out)
}

fn push_field(out: &mut Vec<char>, fields: Ghost<Seq<Seq<char>>>, source: &str, ch: char, size: usize, left: bool)
    requires
        old(out)@ == concat_all(fields@),
    ensures
        final(out)@ == concat_all(fields@.push(fit_field(source@, ch, size as nat, left))),
{
    let f = format_str_size(source, ch, size, left);
    append_str(out, f.as_str());
    proof {
        assert(fields@.push(fit_field(source@, ch, size as nat, left)).drop_last() =~= fields@);
    }
}

/// Writes the fixed-width TXT line of a row (see `txt_line`).
#[verifier::spinoff_prover]
pub fn build_txt_line(row: &NfeFaturasRow, item_desdob3: &str, settings: &NfeFaturasSettings) -> (r: String)
    ensures
        r@ == txt_line(row_view(*row), item_desdob3@, *settings),
{
    let ghost rv = row_view(*row);
    let origem = first_char_or(&settings.origem, '0');
    let tipo = first_char_or(&settings.tipo, '1');
    let cnpjcpf = string_of(&only_digits_chars(&chars_of(row.cnpj_cpf.as_str())));
    let uf = string_of(&upper_chars(&chars_of(row.uf.as_str())));
    let ie = string_of(&only_alnum_upper_chars(&chars_of(row.ie.as_str())));
    let serie_fmt = pad_serie_with_zeros(row.nf_serie.as_str(), settings);
    let entry = if row.data_entrada.as_str().is_empty() {
        &row.data_emissao
    } else {
        &row.data_entrada
    };
    let data_escr = ddmmyyyy_to_digits(entry.as_str());
    let mut nf = chars_of(row.nf_numero.as_str());
    append_str(&mut nf, "/");
    append_str(&mut nf, row.num_fatura.as_str());
    let num_fatura = string_of(&nf);
    let base_len = utf8_len_big(&chars_of(data_escr.as_str()));
    let data_venc = if settings.chk_venc30 && base_len == 8 {
        add_days_to_dig_date(data_escr.as_str(), 30)
    } else {
        ddmmyyyy_to_digits(row.data_vencimento.as_str())
    };
    let valor = to_money2(row.valor_bruto_fat.as_str());
    let mut out: Vec<char> = Vec::new();
    let ghost mut fs: Seq<Seq<char>> = seq![];
    proof {
        assert(out@ =~= concat_all(fs));
    }
    push_field(&mut out, Ghost(fs), origem.as_str(), ' ', 1, false);
    proof { fs = fs.push(fit_field(origem@, ' ', 1, false)); }
    push_field(&mut out, Ghost(fs), tipo.as_str(), ' ', 1, false);
    proof { fs = fs.push(fit_field(tipo@, ' ', 1, false)); }
    push_field(&mut out, Ghost(fs), cnpjcpf.as_str(), '0', 14, false);
    proof { fs = fs.push(fit_field(cnpjcpf@, '0', 14, false)); }
    push_field(&mut out, Ghost(fs), uf.as_str(), ' ', 2, false);
    proof { fs = fs.push(fit_field(uf@, ' ', 2, false)); }
    push_field(&mut out, Ghost(fs), ie.as_str(), ' ', 20, false);
    proof { fs = fs.push(fit_field(ie@, ' ', 20, false)); }
    push_field(&mut out, Ghost(fs), serie_fmt.as_str(), ' ', 6, false);
    proof { fs = fs.push(fit_field(serie_fmt@, ' ', 6, false)); }
    push_field(&mut out, Ghost(fs), "", ' ', 6, false);
    proof { fs = fs.push(fit_field(""@, ' ', 6, false)); }
    push_field(&mut out, Ghost(fs), row.nf_numero.as_str(), '0', 10, false);
    proof { fs = fs.push(fit_field(row.nf_numero@, '0', 10, false)); }
    push_field(&mut out, Ghost(fs), item_desdob3, ' ', 3, false);
    proof { fs = fs.push(fit_field(item_desdob3@, ' ', 3, false)); }
    push_field(&mut out, Ghost(fs), data_escr.as_str(), ' ', 8, true);
    proof { fs = fs.push(fit_field(data_escr@, ' ', 8, true)); }
    push_field(&mut out, Ghost(fs), num_fatura.as_str(), ' ', 20, false);
    proof { fs = fs.push(fit_field(num_fatura@, ' ', 20, false)); }
    push_field(&mut out, Ghost(fs), data_venc.as_str(), ' ', 8, false);
    proof { fs = fs.push(fit_field(data_venc@, ' ', 8, false)); }
    push_field(&mut out, Ghost(fs), valor.as_str(), ' ', 14, false);
    proof { fs = fs.push(fit_field(valor@, ' ', 14, false)); }
    push_field(&mut out, Ghost(fs), "", ' ', 14, false);
    proof { fs = fs.push(fit_field(""@, ' ', 14, false)); }
    push_field(&mut out, Ghost(fs), "", ' ', 14, false);
    proof { fs = fs.push(fit_field(""@, ' ', 14, false)); }
    push_field(&mut out, Ghost(fs), "", ' ', 14, false);
    proof { fs = fs.push(fit_field(""@, ' ', 14, false)); }
    push_field(&mut out, Ghost(fs), "", ' ', 14, false);
    proof { fs = fs.push(fit_field(""@, ' ', 14, false)); }
    push_field(&mut out, Ghost(fs), valor.as_str(), ' ', 14, false);
    proof { fs = fs.push(fit_field(valor@, ' ', 14, false)); }
    push_field(&mut out, Ghost(fs), "", ' ', 8, false);
    proof { fs = fs.push(fit_field(""@, ' ', 8, false)); }
    push_field(&mut out, Ghost(fs), "", ' ', 11, false);
    proof { fs = fs.push(fit_field(""@, ' ', 11, false)); }
    push_field(&mut out, Ghost(fs), "", ' ', 8, false);
    proof { fs = fs.push(fit_field(""@, ' ', 8, false)); }
    push_field(&mut out, Ghost(fs), "", ' ', 8, false);
    proof { fs = fs.push(fit_field(""@, ' ', 8, false)); }
    push_field(&mut out, Ghost(fs), "", ' ', 14, false);
    proof { fs = fs.push(fit_field(""@, ' ', 14, false)); }
    push_field(&mut out, Ghost(fs), "", ' ', 11, false);
    proof { fs = fs.push(fit_field(""@, ' ', 11, false)); }
    push_field(&mut out, Ghost(fs), "", ' ', 14, false);
    proof { fs = fs.push(fit_field(""@, ' ', 14, false)); }
    push_field(&mut out, Ghost(fs), "", ' ', 11, false);
    proof { fs = fs.push(fit_field(""@, ' ', 11, false)); }
    push_field(&mut out, Ghost(fs), "", ' ', 14, false);
    proof { fs = fs.push(fit_field(""@, ' ', 14, false)); }
    push_field(&mut out, Ghost(fs), "", ' ', 11, false);
    proof { fs = fs.push(fit_field(""@, ' ', 11, false)); }
    push_field(&mut out, Ghost(fs), "", ' ', 6, false);
    proof { fs = fs.push(fit_field(""@, ' ', 6, false)); }
    push_field(&mut out, Ghost(fs), "N", ' ', 1, false);
    proof { fs = fs.push(fit_field("N"@, ' ', 1, false)); }
    push_field(&mut out, Ghost(fs), "", ' ', 14, true);
    proof { fs = fs.push(fit_field(""@, ' ', 14, true)); }
    push_field(&mut out, Ghost(fs), "2", ' ', 1, false);
    proof { fs = fs.push(fit_field("2"@, ' ', 1, false)); }
    push_field(&mut out, Ghost(fs), "", ' ', 30, false);
    proof { fs = fs.push(fit_field(""@, ' ', 30, false)); }
    push_field(&mut out, Ghost(fs), "9", ' ', 1, false);
    proof { fs = fs.push(fit_field("9"@, ' ', 1, false)); }
    push_field(&mut out, Ghost(fs), "03", ' ', 2, false);
    proof { fs = fs.push(fit_field("03"@, ' ', 2, false)); }
    push_field(&mut out, Ghost(fs), "", ' ', 40, false);
    proof { fs = fs.push(fit_field(""@, ' ', 40, false)); }
    push_field(&mut out, Ghost(fs), "", ' ', 3, false);
    proof {
        fs = fs.push(fit_field(""@, ' ', 3, false));
        reveal_strlit("");
        assert(""@ =~= Seq::<char>::empty());
        assert(fs =~= txt_fields(rv, item_desdob3@, *settings));
    }
    string_of(&out)
}

// ---------------------------------------------------------------------------
// The rows exported
// ---------------------------------------------------------------------------

pub open spec fn cnpj_sep(c: char) -> bool {
    is_ws(c) || c == ',' || c == ';'
}

/// The pieces of `s` between white space, commas and semicolons.
pub open spec fn split_cnpjs(s: Seq<char>) -> Seq<Seq<char>>
    decreases s.len(),
{
    if s.len() == 0 {
        seq![seq![]]
    } else {
        let r = split_cnpjs(s.drop_last());
        if cnpj_sep(s.last()) {
            r.push(seq![])
        } else {
            r.update(r.len() - 1, r.last().push(s.last()))
        }
    }
}

proof fn lemma_split_cnpjs_nonempty(s: Seq<char>)
    ensures
        split_cnpjs(s).len() >= 1,
    decreases s.len(),
{
    if s.len() > 0 {
        lemma_split_cnpjs_nonempty(s.drop_last());
    }
}

/// The CPFs and CNPJs of a list, as digits.
pub open spec fn cnpj_list(ps: Seq<Seq<char>>) -> Seq<Seq<char>>
    decreases ps.len(),
{
    if ps.len() == 0 {
        seq![]
    } else {
        let d = digits(ps.last());
        if d.len() == 11 || d.len() == 14 {
            cnpj_list(ps.drop_last()).push(d)
        } else {
            cnpj_list(ps.drop_last())
        }
    }
}

pub open spec fn strings_view(v: Seq<String>) -> Seq<Seq<char>> {
    v.map_values(|s: String| s@)
}

/// The CPFs and CNPJs (digits) of a list separated by white space, commas
/// or semicolons.
pub fn parse_cnpj_set(raw: &str) -> (r: Vec<String>)
    ensures
        strings_view(r@) == cnpj_list(split_cnpjs(raw@)),
{
    let v = chars_of(raw);
    let mut done: Vec<Vec<char>> = Vec::new();
    let mut cur: Vec<char> = Vec::new();
    for i in 0..v.len()
        invariant
            split_cnpjs(v@.take(i as int)).len() == done@.len() + 1,
            forall|k: int| 0 <= k < done@.len() ==> (#[trigger] done@[k])@ == split_cnpjs(v@.take(i as int))[k],
            cur@ == split_cnpjs(v@.take(i as int)).last(),
    {
        proof {
            assert(v@.take(i + 1).drop_last() =~= v@.take(i as int));
            lemma_split_cnpjs_nonempty(v@.take(i as int));
        }
        let c = v[i];
        if is_ws_char(c) || c == ',' || c == ';' {
            done.push(cur);
            cur = Vec::new();
        } else {
            cur.push(c);
        }
    }
    proof {
        assert(v@.take(v.len() as int) =~= v@);
    }
    done.push(cur);
    let ghost ps = split_cnpjs(raw@);
    let mut out: Vec<String> = Vec::new();
    for i in 0..done.len()
        invariant
            done@.len() == ps.len(),
            forall|k: int| 0 <= k < done@.len() ==> (#[trigger] done@[k])@ == ps[k],
            strings_view(out@) == cnpj_list(ps.take(i as int)),
    {
        proof {
            assert(ps.take(i + 1).drop_last() =~= ps.take(i as int));
            assert(ps.take(i + 1).last() == done@[i as int]@);
        }
        let d = only_digits_chars(&done[i]);
        if d.len() == 11 || d.len() == 14 {
            let ghost prev = out@;
            out.push(string_of(&d));
            proof {
                assert(strings_view(out@) =~= strings_view(prev).push(d@));
            }
        }
    }
    proof {
        assert(ps.take(done@.len() as int) =~= ps);
    }
    out
}

/// `CHAVE|CNPJCPF` of a row, digits only.
pub open spec fn consolidation_key(r: RowView) -> Seq<char> {
    digits(r.0.0) + "|"@ + digits(r.0.2)
}

/// The keys of the rows in the order they first appear.
pub open spec fn key_order(rows: Seq<RowView>) -> Seq<Seq<char>>
    decreases rows.len(),
{
    if rows.len() == 0 {
        seq![]
    } else {
        let r = key_order(rows.drop_last());
        if r.contains(consolidation_key(rows.last())) {
            r
        } else {
            r.push(consolidation_key(rows.last()))
        }
    }
}

/// The rows with a key, in order.
pub open spec fn rows_with_key(rows: Seq<RowView>, key: Seq<char>) -> Seq<RowView>
    decreases rows.len(),
{
    if rows.len() == 0 {
        seq![]
    } else if consolidation_key(rows.last()) == key {
        rows_with_key(rows.drop_last(), key).push(rows.last())
    } else {
        rows_with_key(rows.drop_last(), key)
    }
}

/// The sum of the rows' amounts, in cents.
pub open spec fn rows_total(rows: Seq<RowView>) -> int
    decreases rows.len(),
{
    if rows.len() == 0 {
        0
    } else {
        rows_total(rows.drop_last()) + cents_or_zero(rows.last().1.3)
    }
}

/// The row with the earliest due date among those that are dates (the
/// first of equals), or -1.
pub open spec fn earliest_due(rows: Seq<RowView>) -> int
    decreases rows.len(),
{
    if rows.len() == 0 {
        -1
    } else {
        let b = earliest_due(rows.drop_last());
        let k = rows.len() - 1;
        match br_time(rows[k].1.2) {
            Some(t) => if b < 0 || t < br_time(rows[b].1.2).unwrap() {
                k
            } else {
                b
            },
            None => b,
        }
    }
}

/// The rows of a key after consolidation: one row with the total and the
/// earliest due date, for a listed counterparty with several rows.
pub open spec fn consolidated_rows(arr: Seq<RowView>, set: Seq<Seq<char>>) -> Seq<RowView> {
    if set.contains(digits(arr[0].0.2)) && arr.len() > 1 {
        let b = arr[0];
        let e = earliest_due(arr);
        let venc = if e >= 0 {
            arr[e].1.2
        } else {
            b.1.2
        };
        seq![(b.0, (0u8, b.1.1, venc, cents_text(rows_total(arr)), b.1.4), (b.2.0, b.2.1, true))]
    } else {
        arr
    }
}

pub open spec fn consolidate_keys(rows: Seq<RowView>, keys: Seq<Seq<char>>, set: Seq<Seq<char>>) -> Seq<RowView>
    decreases keys.len(),
{
    if keys.len() == 0 {
        seq![]
    } else {
        consolidate_keys(rows, keys.drop_last(), set) + consolidated_rows(rows_with_key(rows, keys.last()), set)
    }
}

/// The rows after consolidation by counterparty, when the setting asks for
/// it and lists some counterparties.
pub open spec fn consolidation(rows: Seq<RowView>, s: NfeFaturasSettings) -> Seq<RowView> {
    let set = cnpj_list(split_cnpjs(s.txt_cnpjs_consolidar@));
    if !s.chk_consolidar_cnpj || set.len() == 0 {
        rows
    } else {
        consolidate_keys(rows, key_order(rows), set)
    }
}

proof fn lemma_key_has_rows(rows: Seq<RowView>, key: Seq<char>)
    requires
        key_order(rows).contains(key),
    ensures
        rows_with_key(rows, key).len() > 0,
    decreases rows.len(),
{
    if rows.len() > 0 {
        let r = key_order(rows.drop_last());
        if r.contains(key) {
            lemma_key_has_rows(rows.drop_last(), key);
        } else if consolidation_key(rows.last()) != key {
            assert(key_order(rows) == r);
        }
    }
}

proof fn lemma_rows_total_bound(rows: Seq<RowView>)
    ensures
        -(rows.len() * money_bound()) <= rows_total(rows) <= rows.len() * money_bound(),
    decreases rows.len(),
{
    if rows.len() > 0 {
        lemma_rows_total_bound(rows.drop_last());
        assert((rows.len() - 1) * money_bound() + money_bound() == rows.len() * money_bound()) by (nonlinear_arith);
    }
}

fn key_of_row(r: &NfeFaturasRow) -> (k: Vec<char>)
    ensures
        k@ == consolidation_key(row_view(*r)),
{
    let mut v = only_digits_chars(&chars_of(r.chave.as_str()));
    append_str(&mut v, "|");
    let d = only_digits_chars(&chars_of(r.cnpj_cpf.as_str()));
    append_chars(&mut v, &d);
    v
}

pub fn copy_rows(rows: &Vec<NfeFaturasRow>) -> (r: Vec<NfeFaturasRow>)
    ensures
        rows_view(r@) == rows_view(rows@),
{
    let mut out: Vec<NfeFaturasRow> = Vec::new();
    for i in 0..rows.len()
        invariant
            out@.len() == i,
            forall|k: int| 0 <= k < i ==> row_view(#[trigger] out@[k]) == row_view(rows@[k]),
    {
        out.push(copy_row(&rows[i]));
    }
    proof {
        assert(rows_view(out@) =~= rows_view(rows@));
    }
    out
}

fn in_set(set: &Vec<String>, d: &Vec<char>) -> (r: bool)
    ensures
        r == strings_view(set@).contains(d@),
{
    for i in 0..set.len()
        invariant
            forall|k: int| 0 <= k < i ==> set@[k]@ != d@,
    {
        if chars_eq(&chars_of(set[i].as_str()), d) {
            proof {
                assert(strings_view(set@)[i as int] == d@);
            }
            return true;
        }
    }
    proof {
        if strings_view(set@).contains(d@) {
            let k = choose|k: int| 0 <= k < strings_view(set@).len() && strings_view(set@)[k] == d@;
            assert(set@[k]@ == d@);
        }
    }
    false
}

/// The rows after consolidation by counterparty (see `consolidation`).  A
/// list in memory holds fewer than 2^56 rows.
pub fn apply_consolidacao_por_terceiro(rows: &Vec<NfeFaturasRow>, settings: &NfeFaturasSettings) -> (r: Vec<NfeFaturasRow>)
    requires
        rows@.len() < 0x100_0000_0000_0000,
    ensures
        rows_view(r@) == consolidation(rows_view(rows@), *settings),
{
    let ghost rv = rows_view(rows@);
    if !settings.chk_consolidar_cnpj {
        return copy_rows(rows);
    }
    let set = parse_cnpj_set(settings.txt_cnpjs_consolidar.as_str());
    if set.len() == 0 {
        return copy_rows(rows);
    }
    let ghost sv = strings_view(set@);
    let mut keys: Vec<Vec<char>> = Vec::new();
    for i in 0..rows.len()
        invariant
            rv == rows_view(rows@),
            keys@.map_values(|k: Vec<char>| k@) == key_order(rv.take(i as int)),
    {
        proof {
            assert(rv.take(i + 1).drop_last() =~= rv.take(i as int));
            assert(rv.take(i + 1).last() == row_view(rows@[i as int]));
        }
        let k = key_of_row(&rows[i]);
        let ghost kv = keys@.map_values(|k: Vec<char>| k@);
        let mut present = false;
        for j in 0..keys.len()
            invariant
                kv == keys@.map_values(|k: Vec<char>| k@),
                present == exists|x: int| 0 <= x < j && kv[x] == k@,
        {
            proof {
                assert(kv[j as int] == keys@[j as int]@);
            }
            if chars_eq(&keys[j], &k) {
                present = true;
            }
        }
        if !present {
            let ghost kk = k@;
            keys.push(k);
            proof {
                assert(keys@.map_values(|k: Vec<char>| k@) =~= kv.push(kk));
            }
        }
    }
    proof {
        assert(rv.take(rows@.len() as int) =~= rv);
    }
    let ghost ko = key_order(rv);
    let mut out: Vec<NfeFaturasRow> = Vec::new();
    for ki in 0..keys.len()
        invariant
            rv == rows_view(rows@),
            rows@.len() < 0x100_0000_0000_0000,
            sv == strings_view(set@),
            sv == cnpj_list(split_cnpjs(settings.txt_cnpjs_consolidar@)),
            keys@.map_values(|k: Vec<char>| k@) == ko,
            ko == key_order(rv),
            rows_view(out@) == consolidate_keys(rv, ko.take(ki as int), sv),
    {
        let key = &keys[ki];
        proof {
            assert(ko[ki as int] == key@);
            assert(ko.take(ki + 1).drop_last() =~= ko.take(ki as int));
            assert(ko.contains(key@));
            lemma_key_has_rows(rv, key@);
        }
        let mut arr: Vec<NfeFaturasRow> = Vec::new();
        for i in 0..rows.len()
            invariant
                rv == rows_view(rows@),
                rows_view(arr@) == rows_with_key(rv.take(i as int), key@),
                arr@.len() <= i,
        {
            proof {
                assert(rv.take(i + 1).drop_last() =~= rv.take(i as int));
                assert(rv.take(i + 1).last() == row_view(rows@[i as int]));
            }
            let k = key_of_row(&rows[i]);
            if chars_eq(&k, key) {
                let ghost prev = rows_view(arr@);
                let c = copy_row(&rows[i]);
                let ghost cv = row_view(c);
                arr.push(c);
                proof {
                    assert(rows_view(arr@) =~= prev.push(cv));
                }
            }
        }
        proof {
            assert(rv.take(rows@.len() as int) =~= rv);
        }
        let ghost av = rows_view(arr@);
        let cnpj = only_digits_chars(&chars_of(arr[0].cnpj_cpf.as_str()));
        proof {
            assert(av[0] == row_view(arr@[0]));
        }
        let ghost before = rows_view(out@);
        if in_set(&set, &cnpj) && arr.len() > 1 {
            let mut total: i128 = 0;
            let mut best: Option<usize> = None;
            let mut best_t: i64 = 0;
            for j in 0..arr.len()
                invariant
                    av == rows_view(arr@),
                    arr@.len() < 0x100_0000_0000_0000,
                    total as int == rows_total(av.take(j as int)),
                    -(j * money_bound()) <= total <= j * money_bound(),
                    match best {
                        Some(b) => earliest_due(av.take(j as int)) == b as int && b < j && br_time(av[b as int].1.2) == Some(best_t),
                        None => earliest_due(av.take(j as int)) == -1,
                    },
            {
                proof {
                    assert(av.take(j + 1).drop_last() =~= av.take(j as int));
                    assert(av.take(j + 1).last() == row_view(arr@[j as int]));
                    assert(av.take(j + 1)[j as int] == av[j as int]);
                    if let Some(b) = best {
                        assert(av.take(j + 1)[b as int] == av[b as int]);
                    }
                    assert(j * money_bound() + money_bound() == (j + 1) * money_bound()) by (nonlinear_arith);
                }
                let add: i128 = match parse_money(arr[j].valor_bruto_fat.as_str()) {
                    Some(m) => signed_of(m),
                    None => 0,
                };
                total = total + add;
                match br_date_to_time(arr[j].data_vencimento.as_str()) {
                    Some(t) => {
                        let better = match best {
                            Some(_) => t < best_t,
                            None => true,
                        };
                        if better {
                            best = Some(j);
                            best_t = t;
                        }
                    },
                    None => {},
                }
            }
            proof {
                assert(av.take(arr@.len() as int) =~= av);
                assert(arr@.len() * money_bound() <= 0x100_0000_0000_0000 * money_bound()) by (nonlinear_arith)
                    requires
                        arr@.len() < 0x100_0000_0000_0000,
                ;
            }
            let mut base = copy_row(&arr[0]);
            match best {
                Some(b) => {
                    base.data_vencimento = copy_string(&arr[b].data_vencimento);
                },
                None => {},
            }
            base.valor_bruto_fat = format_cents(total);
            base.desdob = 0;
            base.consolidated = true;
            let ghost bv = row_view(base);
            out.push(base);
            proof {
                assert(rows_view(out@) =~= before.push(bv));
                assert(consolidated_rows(av, sv) =~= seq![bv]);
            }
        } else {
            let ghost prev = rows_view(out@);
            let mut arr2 = arr;
            out.append(&mut arr2);
            proof {
                assert(rows_view(out@) =~= prev + av);
            }
        }
        proof {
            assert(rows_view(out@) == consolidate_keys(rv, ko.take(ki + 1), sv));
        }
    }
    proof {
        assert(ko.take(keys@.len() as int) =~= ko);
    }
    out
}

/// The rows of an export: those matched in SPED when the settings ask for
/// it, then consolidated.
pub open spec fn export_rows_base(rows: Seq<RowView>, s: NfeFaturasSettings) -> Seq<RowView> {
    let f = if s.chk_usar_sped && s.chk_somente_com_sped {
        rows.filter(|r: RowView| r.2.0)
    } else {
        rows
    };
    consolidation(f, s)
}

/// The rows of an export (see `export_rows_base`).
pub fn compute_export_rows_base(rows: &Vec<NfeFaturasRow>, settings: &NfeFaturasSettings) -> (r: Vec<NfeFaturasRow>)
    requires
        rows@.len() < 0x100_0000_0000_0000,
    ensures
        rows_view(r@) == export_rows_base(rows_view(rows@), *settings),
{
    let ghost rv = rows_view(rows@);
    if settings.chk_usar_sped && settings.chk_somente_com_sped {
        let mut f: Vec<NfeFaturasRow> = Vec::new();
        proof {
            assert(rv.take(0).filter(|r: RowView| r.2.0) =~= Seq::<RowView>::empty());
        }
        for i in 0..rows.len()
            invariant
                rv == rows_view(rows@),
                rows_view(f@) == rv.take(i as int).filter(|r: RowView| r.2.0),
                f@.len() <= i,
        {
            proof {
                assert(rv.take(i + 1).drop_last() =~= rv.take(i as int));
                assert(rv.take(i + 1).last() == row_view(rows@[i as int]));
                rv.take(i + 1).filter_lemma(|r: RowView| r.2.0);
                assert(rv.take(i + 1).filter(|r: RowView| r.2.0) == if rv.take(i + 1).last().2.0 {
                    rv.take(i as int).filter(|r: RowView| r.2.0).push(rv.take(i + 1).last())
                } else {
                    rv.take(i as int).filter(|r: RowView| r.2.0)
                }) by {
                    reveal(Seq::filter);
                }
            }
            if rows[i].sped_matched {
                let ghost prev = rows_view(f@);
                let c = copy_row(&rows[i]);
                let ghost cv = row_view(c);
                f.push(c);
                proof {
                    assert(rows_view(f@) =~= prev.push(cv));
                }
            }
        }
        proof {
            assert(rv.take(rows@.len() as int) =~= rv);
        }
        apply_consolidacao_por_terceiro(&f, settings)
    } else {
        apply_consolidacao_por_terceiro(rows, settings)
    }
}

// ---------------------------------------------------------------------------
// Export lines and contents
// ---------------------------------------------------------------------------

/// A row to export with its installment item (`000` or `001`).
pub struct ExportLineItem {
    pub row: NfeFaturasRow,
    pub item3: String,
}

pub open spec fn items_view(v: Seq<ExportLineItem>) -> Seq<(RowView, Seq<char>)> {
    v.map_values(|x: ExportLineItem| (row_view(x.row), x.item3@))
}

/// The export lines of the rows: two per row when forced, else one, and a
/// second for a row paid in installments.
pub open spec fn export_lines(rows: Seq<RowView>, forcar: bool) -> Seq<(RowView, Seq<char>)>
    decreases rows.len(),
{
    if rows.len() == 0 {
        seq![]
    } else {
        let r = rows.last();
        let prev = export_lines(rows.drop_last(), forcar);
        if forcar || r.1.0 == 1 {
            prev.push((r, "000"@)).push((r, "001"@))
        } else {
            prev.push((r, "000"@))
        }
    }
}

/// The export lines of the rows (see `export_lines`).
pub fn compute_export_lines(rows: &Vec<NfeFaturasRow>, settings: &NfeFaturasSettings) -> (r: Vec<ExportLineItem>)
    ensures
        items_view(r@) == export_lines(rows_view(rows@), settings.chk_forcar_duas_linhas),
{
    let ghost rv = rows_view(rows@);
    let forcar = settings.chk_forcar_duas_linhas;
    let mut out: Vec<ExportLineItem> = Vec::new();
    for i in 0..rows.len()
        invariant
            rv == rows_view(rows@),
            forcar == settings.chk_forcar_duas_linhas,
            items_view(out@) == export_lines(rv.take(i as int), forcar),
    {
        proof {
            assert(rv.take(i + 1).drop_last() =~= rv.take(i as int));
            assert(rv.take(i + 1).last() == row_view(rows@[i as int]));
        }
        let ghost prev = items_view(out@);
        let ghost r = row_view(rows@[i as int]);
        out.push(ExportLineItem { row: copy_row(&rows[i]), item3: crate::text::str_to_string("000") });
        if forcar || rows[i].desdob == 1 {
            out.push(ExportLineItem { row: copy_row(&rows[i]), item3: crate::text::str_to_string("001") });
            proof {
                assert(items_view(out@) =~= prev.push((r, "000"@)).push((r, "001"@)));
            }
        } else {
            proof {
                assert(items_view(out@) =~= prev.push((r, "000"@)));
            }
        }
    }
    proof {
        assert(rv.take(rows@.len() as int) =~= rv);
    }
    out
}

/// The TXT export: one fixed-width line per export line, each ended by
/// CR LF.
pub open spec fn txt_content(items: Seq<(RowView, Seq<char>)>, s: NfeFaturasSettings) -> Seq<char>
    decreases items.len(),
{
    if items.len() == 0 {
        seq![]
    } else {
        txt_content(items.drop_last(), s) + txt_line(items.last().0, items.last().1, s) + "\r\n"@
    }
}

/// What a TXT or CSV export writes: the content, the number of lines and
/// the number of rows.
pub struct ExportContent {
    pub content: String,
    pub lines: usize,
    pub records: usize,
}

pub open spec fn nothing_to_export() -> Seq<char> {
    "Nada para exportar (verifique SPED / filtros)."@
}

/// The TXT export of the rows: refused when no row is left to export.
pub fn nfe_faturas_txt_content(rows: &Vec<NfeFaturasRow>, settings: &NfeFaturasSettings) -> (r: Result<ExportContent, String>)
    requires
        rows@.len() < 0x100_0000_0000_0000,
    ensures
        export_rows_base(rows_view(rows@), *settings).len() == 0 ==> (r matches Err(e) && e@ == nothing_to_export()),
        export_rows_base(rows_view(rows@), *settings).len() > 0 ==> (r matches Ok(c) && {
            let items = export_lines(export_rows_base(rows_view(rows@), *settings), settings.chk_forcar_duas_linhas);
            &&& c.content@ == txt_content(items, *settings)
            &&& c.lines == items.len()
            &&& c.records == export_rows_base(rows_view(rows@), *settings).len()
        }),
{
    let export_rows = compute_export_rows_base(rows, settings);
    if export_rows.len() == 0 {
        return Err(crate::text::str_to_string("Nada para exportar (verifique SPED / filtros)."));
    }
    let items = compute_export_lines(&export_rows, settings);
    let ghost iv = items_view(items@);
    let mut out: Vec<char> = Vec::new();
    for i in 0..items.len()
        invariant
            iv == items_view(items@),
            out@ == txt_content(iv.take(i as int), *settings),
    {
        proof {
            assert(iv.take(i + 1).drop_last() =~= iv.take(i as int));
            assert(iv.take(i + 1).last() == (row_view(items@[i as int].row), items@[i as int].item3@));
        }
        let line = build_txt_line(&items[i].row, items[i].item3.as_str(), settings);
        append_str(&mut out, line.as_str());
        append_str(&mut out, "\r\n");
    }
    proof {
        assert(iv.take(items@.len() as int) =~= iv);
    }
    Ok(ExportContent { content: string_of(&out), lines: items.len(), records: export_rows.len() })
}

/// The header of the CSV export.
pub open spec fn csv_header_text() -> Seq<char> {
    "ITEM;CHAVE;DESDOB;CNPJFILIAL;CNPJCPF;UF;IE;NFSERIE;NFNUMERO;DATAEMISSAO;DATAENTRADA;NUMFATURA;DATAVENCIMENTO;VALORBRUTOFAT;FONTE;SPED\r\n"@
}

/// The cells of a CSV line, before escaping.
pub open spec fn csv_values(r: RowView, item3: Seq<char>) -> Seq<Seq<char>> {
    seq![
        item3,
        r.0.0,
        decimal(r.1.0 as nat),
        r.0.1,
        r.0.2,
        r.0.3,
        r.0.4,
        r.0.5,
        r.0.6,
        r.0.7,
        r.0.8,
        r.1.1,
        r.1.2,
        money2_text(r.1.3),
        r.1.4,
        if r.2.0 {
            "MATCH"@
        } else {
            "MISSING"@
        },
    ]
}

/// The cells of a row's CSV line follow the header
/// `ITEM;CHAVE;DESDOB;CNPJFILIAL;CNPJCPF;UF;IE;NFSERIE;NFNUMERO;DATAEMISSAO;
/// DATAENTRADA;NUMFATURA;DATAVENCIMENTO;VALORBRUTOFAT;FONTE;SPED`: each the
/// row's field of that name (the amount with two decimals, the match as
/// `MATCH` or `MISSING`).
pub proof fn law_faturas_csv_columns(x: NfeFaturasRow, item3: Seq<char>)
    ensures
        ({
            let c = csv_values(row_view(x), item3);
            &&& c.len() == 16
            &&& c[0] == item3
            &&& c[1] == x.chave@
            &&& c[2] == decimal(x.desdob as nat)
            &&& c[3] == x.cnpj_filial@
            &&& c[4] == x.cnpj_cpf@
            &&& c[5] == x.uf@
            &&& c[6] == x.ie@
            &&& c[7] == x.nf_serie@
            &&& c[8] == x.nf_numero@
            &&& c[9] == x.data_emissao@
            &&& c[10] == x.data_entrada@
            &&& c[11] == x.num_fatura@
            &&& c[12] == x.data_vencimento@
            &&& c[13] == money2_text(x.valor_bruto_fat@)
            &&& c[14] == x.source@
            &&& c[15] == if x.sped_matched { "MATCH"@ } else { "MISSING"@ }
        }),
{
}

/// The escaped cells joined by `;`.
pub open spec fn csv_join(cells: Seq<Seq<char>>) -> Seq<char>
    decreases cells.len(),
{
    if cells.len() == 0 {
        seq![]
    } else if cells.len() == 1 {
        csv_cell(cells[0])
    } else {
        csv_join(cells.drop_last()) + ";"@ + csv_cell(cells.last())
    }
}

pub open spec fn csv_body(items: Seq<(RowView, Seq<char>)>) -> Seq<char>
    decreases items.len(),
{
    if items.len() == 0 {
        seq![]
    } else {
        csv_body(items.drop_last()) + csv_join(csv_values(items.last().0, items.last().1)) + "\r\n"@
    }
}

fn csv_line(row: &NfeFaturasRow, item3: &String) -> (r: Vec<char>)
    ensures
        r@ == csv_join(csv_values(row_view(*row), item3@)),
{
    let mut cells: Vec<String> = Vec::new();
    cells.push(copy_string(item3));
    cells.push(copy_string(&row.chave));
    cells.push(string_of(&decimal_chars(row.desdob as u128)));
    cells.push(copy_string(&row.cnpj_filial));
    cells.push(copy_string(&row.cnpj_cpf));
    cells.push(copy_string(&row.uf));
    cells.push(copy_string(&row.ie));
    cells.push(copy_string(&row.nf_serie));
    cells.push(copy_string(&row.nf_numero));
    cells.push(copy_string(&row.data_emissao));
    cells.push(copy_string(&row.data_entrada));
    cells.push(copy_string(&row.num_fatura));
    cells.push(copy_string(&row.data_vencimento));
    cells.push(to_money2(row.valor_bruto_fat.as_str()));
    cells.push(copy_string(&row.source));
    if row.sped_matched {
        cells.push(crate::text::str_to_string("MATCH"));
    } else {
        cells.push(crate::text::str_to_string("MISSING"));
    }
    let ghost cv = csv_values(row_view(*row), item3@);
    proof {
        assert(strings_view(cells@) =~= cv);
    }
    let mut out: Vec<char> = Vec::new();
    for i in 0..cells.len()
        invariant
            cells@.len() == 16,
            strings_view(cells@) == cv,
            out@ == csv_join(cv.take(i as int)),
    {
        proof {
            assert(cv.take(i + 1).drop_last() =~= cv.take(i as int));
            assert(cv.take(i + 1).last() == cells@[i as int]@);
            if i == 0 {
                assert(cv.take(1)[0] == cv[0]);
            }
        }
        if i > 0 {
            append_str(&mut out, ";");
        }
        let e = csv_escape(cells[i].as_str());
        append_str(&mut out, e.as_str());
    }
    proof {
        assert(cv.take(16) =~= cv);
    }
    out
}

/// The CSV export of the rows: refused when no row is left to export.
pub fn nfe_faturas_csv_content(rows: &Vec<NfeFaturasRow>, settings: &NfeFaturasSettings) -> (r: Result<ExportContent, String>)
    requires
        rows@.len() < 0x100_0000_0000_0000,
    ensures
        export_rows_base(rows_view(rows@), *settings).len() == 0 ==> (r matches Err(e) && e@ == nothing_to_export()),
        export_rows_base(rows_view(rows@), *settings).len() > 0 ==> (r matches Ok(c) && {
            let items = export_lines(export_rows_base(rows_view(rows@), *settings), settings.chk_forcar_duas_linhas);
            &&& c.content@ == csv_header_text() + csv_body(items)
            &&& c.lines == items.len()
            &&& c.records == export_rows_base(rows_view(rows@), *settings).len()
        }),
{
    let export_rows = compute_export_rows_base(rows, settings);
    if export_rows.len() == 0 {
        return Err(crate::text::str_to_string("Nada para exportar (verifique SPED / filtros)."));
    }
    let items = compute_export_lines(&export_rows, settings);
    let ghost iv = items_view(items@);
    let mut out: Vec<char> = chars_of(
        "ITEM;CHAVE;DESDOB;CNPJFILIAL;CNPJCPF;UF;IE;NFSERIE;NFNUMERO;DATAEMISSAO;DATAENTRADA;NUMFATURA;DATAVENCIMENTO;VALORBRUTOFAT;FONTE;SPED\r\n",
    );
    for i in 0..items.len()
        invariant
            iv == items_view(items@),
            out@ == csv_header_text() + csv_body(iv.take(i as int)),
    {
        proof {
            assert(iv.take(i + 1).drop_last() =~= iv.take(i as int));
            assert(iv.take(i + 1).last() == (row_view(items@[i as int].row), items@[i as int].item3@));
        }
        let line = csv_line(&items[i].row, &items[i].item3);
        append_chars(&mut out, &line);
        append_str(&mut out, "\r\n");
    }
    proof {
        assert(iv.take(items@.len() as int) =~= iv);
    }
    Ok(ExportContent { content: string_of(&out), lines: items.len(), records: export_rows.len() })
}

} // verus!
