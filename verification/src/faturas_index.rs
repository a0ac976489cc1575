//! Indexes the invoice tool builds to cross-check notes: the invoice data
//! of the XMLs by counterparty, series and number, and the notes of the
//! SPED files (`C100` records with their participants from `0150`).
use vstd::prelude::*;

use crate::faturas::{meta_view, metas_view, named_view, MetaView, NamedText, NfeMeta};
use crate::faturas_text::{br_date, date_digits, ddmmyyyy_to_digits, digits_to_br_date};
use crate::money::{money_of, parse_money, signed_cents, two_digits, Money};
use crate::sped::texts;
use crate::sped_merge::{bar_fields, bar_fields_of, field_at, field_of};
use crate::text::{
    append_chars, append_str, chars_of, chars_eq, copy_string, decimal, decimal_chars, digits, lines_chars,
    lines_of, only_digits, only_digits_chars, starts_with, starts_with_chars, string_of, trim, trim_chars,
};
use crate::numbers::{text_le, text_lt, text_lt_chars};

verus! {

broadcast use vstd::string::group_string_axioms;

// ---------------------------------------------------------------------------
// The XML index
// ---------------------------------------------------------------------------

/// `CNPJ|SERIE|NUMERO` of a note, digits only.
pub open spec fn xml_key(m: MetaView) -> Seq<char> {
    digits(m.2.2) + "|"@ + digits(m.2.1) + "|"@ + digits(m.2.0)
}

pub open spec fn has_key(entries: Seq<(Seq<char>, MetaView)>, key: Seq<char>) -> bool {
    exists|k: int| 0 <= k < entries.len() && entries[k].0 == key
}

/// The notes by key, the first note of each key, keys without counterparty
/// and series left out.
pub open spec fn xml_entries(metas: Seq<MetaView>) -> Seq<(Seq<char>, MetaView)>
    decreases metas.len(),
{
    if metas.len() == 0 {
        seq![]
    } else {
        let e = xml_entries(metas.drop_last());
        let key = xml_key(metas.last());
        if !starts_with(key, "||"@) && !has_key(e, key) {
            e.push((key, metas.last()))
        } else {
            e
        }
    }
}

pub open spec fn xml_entries_view(v: Seq<(String, NfeMeta)>) -> Seq<(Seq<char>, MetaView)> {
    v.map_values(|p: (String, NfeMeta)| (p.0@, meta_view(p.1)))
}

fn bar_text(a: &Vec<char>, b: &Vec<char>, c: &Vec<char>) -> (r: Vec<char>)
    ensures
        r@ == a@ + "|"@ + b@ + "|"@ + c@,
{
    let mut v = crate::text::copy_chars(a);
    v.push('|');
    append_chars(&mut v, b);
    v.push('|');
    append_chars(&mut v, c);
    proof {
        reveal_strlit("|");
        assert(v@ =~= a@ + "|"@ + b@ + "|"@ + c@);
    }
    v
}

fn xml_key_of(m: &NfeMeta) -> (r: Vec<char>)
    ensures
        r@ == xml_key(meta_view(*m)),
{
    let a = only_digits_chars(&chars_of(m.cnpj_terceiro.as_str()));
    let b = only_digits_chars(&chars_of(m.serie.as_str()));
    let c = only_digits_chars(&chars_of(m.nf_numero.as_str()));
    bar_text(&a, &b, &c)
}

fn clone_meta(m: &NfeMeta) -> (r: NfeMeta)
    ensures
        meta_view(r) == meta_view(*m),
{
    let mut dups: Vec<crate::faturas::NfeMetaDup> = Vec::new();
    for i in 0..m.dup_list.len()
        invariant
            dups@.len() == i,
            forall|k: int| 0 <= k < i ==> crate::faturas::dup_view(#[trigger] dups@[k]) == crate::faturas::dup_view(
                m.dup_list@[k],
            ),
    {
        let d = &m.dup_list[i];
        dups.push(crate::faturas::NfeMetaDup {
            n_dup: copy_string(&d.n_dup),
            d_venc: copy_string(&d.d_venc),
            v_dup: copy_string(&d.v_dup),
        });
    }
    let r = NfeMeta {
        chave: copy_string(&m.chave),
        n_fat: copy_string(&m.n_fat),
        v_orig: copy_string(&m.v_orig),
        v_liq: copy_string(&m.v_liq),
        v_nf: copy_string(&m.v_nf),
        dup_list: dups,
        nf_numero: copy_string(&m.nf_numero),
        serie: copy_string(&m.serie),
        cnpj_terceiro: copy_string(&m.cnpj_terceiro),
        dt_emi: copy_string(&m.dt_emi),
        source: copy_string(&m.source),
    };
    proof {
        assert(meta_view(r).1 =~= meta_view(*m).1);
    }
    r
}

/// The notes by `CNPJ|SERIE|NUMERO`, the first note of each key.
pub fn build_xml_index(nfe_metas: &Vec<NfeMeta>) -> (r: Vec<(String, NfeMeta)>)
    ensures
        xml_entries_view(r@) == xml_entries(metas_view(nfe_metas@)),
{
    let ghost mv = metas_view(nfe_metas@);
    let bars = chars_of("||");
    let mut out: Vec<(String, NfeMeta)> = Vec::new();
    let mut keys: Vec<Vec<char>> = Vec::new();
    for i in 0..nfe_metas.len()
        invariant
            mv == metas_view(nfe_metas@),
            bars@ == "||"@,
            xml_entries_view(out@) == xml_entries(mv.take(i as int)),
            keys@.len() == out@.len(),
            forall|k: int| 0 <= k < keys@.len() ==> (#[trigger] keys@[k])@ == out@[k].0@,
    {
        proof {
            assert(mv.take(i + 1).drop_last() =~= mv.take(i as int));
            assert(mv.take(i + 1).last() == meta_view(nfe_metas@[i as int]));
        }
        let key = xml_key_of(&nfe_metas[i]);
        let ghost ev = xml_entries(mv.take(i as int));
        let mut present = false;
        let mut k: usize = 0;
        while k < keys.len()
            invariant
                keys@.len() == out@.len(),
                forall|j: int| 0 <= j < keys@.len() ==> (#[trigger] keys@[j])@ == out@[j].0@,
                ev == xml_entries_view(out@),
                k <= keys@.len(),
                present == exists|j: int| 0 <= j < k && ev[j].0 == key@,
            decreases keys@.len() - k,
        {
            proof {
                assert(ev[k as int].0 == keys@[k as int]@);
            }
            if chars_eq(&keys[k], &key) {
                present = true;
            }
            k = k + 1;
        }
        if !starts_with_chars(&key, &bars) && !present {
            let m = clone_meta(&nfe_metas[i]);
            let ks = string_of(&key);
            let ghost prev = out@;
            out.push((ks, m));
            keys.push(key);
            proof {
                assert(xml_entries_view(out@) =~= xml_entries_view(prev).push((key@, meta_view(nfe_metas@[i as int]))));
            }
        }
    }
    proof {
        assert(mv.take(nfe_metas@.len() as int) =~= mv);
    }
    out
}

/// The note of a key in the index.
pub open spec fn entry_for<V>(entries: Seq<(Seq<char>, V)>, key: Seq<char>, j: int) -> Option<V>
    decreases entries.len() - j,
{
    if j < 0 || j >= entries.len() {
        None
    } else if entries[j].0 == key {
        Some(entries[j].1)
    } else {
        entry_for(entries, key, j + 1)
    }
}

// ---------------------------------------------------------------------------
// The SPED index
// ---------------------------------------------------------------------------

/// The participants of a SPED text: code and document (CPF or CNPJ) of
/// each `0150` record, in order.
pub open spec fn doc_records(lines: Seq<Seq<char>>) -> Seq<(Seq<char>, Seq<char>)>
    decreases lines.len(),
{
    if lines.len() == 0 {
        seq![]
    } else {
        let r = doc_records(lines.drop_last());
        let line = lines.last();
        let f = bar_fields(line);
        let cod = field_at(f, 1);
        let d4 = digits(field_at(f, 4));
        let doc = if d4.len() == 0 {
            digits(field_at(f, 5))
        } else {
            d4
        };
        if starts_with(trim(line), "|0150|"@) && cod.len() > 0 && (doc.len() == 11 || doc.len() == 14) {
            r.push((cod, doc))
        } else {
            r
        }
    }
}

/// The document of a participant code: the last record's.
pub open spec fn doc_of(recs: Seq<(Seq<char>, Seq<char>)>, cod: Seq<char>) -> Seq<char>
    decreases recs.len(),
{
    if recs.len() == 0 {
        seq![]
    } else if recs.last().0 == cod {
        recs.last().1
    } else {
        doc_of(recs.drop_last(), cod)
    }
}

pub type SpedNote = (Seq<char>, Option<Money>);

/// The notes of a SPED text: `DOC|SERIE|NUMERO` of each `C100` record with
/// a known participant and a number, its entry date and its amount.
pub open spec fn c100_records(lines: Seq<Seq<char>>, recs: Seq<(Seq<char>, Seq<char>)>) -> Seq<(Seq<char>, SpedNote)>
    decreases lines.len(),
{
    if lines.len() == 0 {
        seq![]
    } else {
        let r = c100_records(lines.drop_last(), recs);
        let line = lines.last();
        let f = bar_fields(line);
        let doc = doc_of(recs, field_at(f, 3));
        let serie = digits(field_at(f, 6));
        let num = digits(field_at(f, 7));
        if starts_with(trim(line), "|C100|"@) && doc.len() > 0 && num.len() > 0 {
            r.push((doc + "|"@ + serie + "|"@ + num, (br_date(digits(field_at(f, 10))), money_of(field_at(f, 11)))))
        } else {
            r
        }
    }
}

pub open spec fn file_notes(text: Seq<char>) -> Seq<(Seq<char>, SpedNote)> {
    c100_records(lines_of(text), doc_records(lines_of(text)))
}

/// The notes of all SPED texts, file after file.
pub open spec fn all_notes(files: Seq<(Seq<char>, Seq<char>)>) -> Seq<(Seq<char>, SpedNote)>
    decreases files.len(),
{
    if files.len() == 0 {
        seq![]
    } else {
        all_notes(files.drop_last()) + file_notes(files.last().1)
    }
}

pub open spec fn notes_view(v: Seq<(String, String, Option<Money>)>) -> Seq<(Seq<char>, SpedNote)> {
    v.map_values(|p: (String, String, Option<Money>)| (p.0@, (p.1@, p.2)))
}

fn doc_records_of(lines: &Vec<Vec<char>>) -> (r: Vec<(Vec<char>, Vec<char>)>)
    ensures
        r@.map_values(|p: (Vec<char>, Vec<char>)| (p.0@, p.1@)) == doc_records(lines@.map_values(|l: Vec<char>| l@)),
{
    let ghost lv = lines@.map_values(|l: Vec<char>| l@);
    let tag = chars_of("|0150|");
    let mut out: Vec<(Vec<char>, Vec<char>)> = Vec::new();
    for i in 0..lines.len()
        invariant
            lv == lines@.map_values(|l: Vec<char>| l@),
            tag@ == "|0150|"@,
            out@.map_values(|p: (Vec<char>, Vec<char>)| (p.0@, p.1@)) == doc_records(lv.take(i as int)),
    {
        proof {
            assert(lv.take(i + 1).drop_last() =~= lv.take(i as int));
            assert(lv.take(i + 1).last() == lines@[i as int]@);
        }
        let line = &lines[i];
        let t = trim_chars(line);
        let f = bar_fields_of(line);
        let cod = chars_of(field_of(&f, 1).as_str());
        let d4 = only_digits_chars(&chars_of(field_of(&f, 4).as_str()));
        let doc = if d4.len() == 0 {
            only_digits_chars(&chars_of(field_of(&f, 5).as_str()))
        } else {
            d4
        };
        if starts_with_chars(&t, &tag) && cod.len() > 0 && (doc.len() == 11 || doc.len() == 14) {
            let ghost prev = out@;
            let ghost pv = (cod@, doc@);
            out.push((cod, doc));
            proof {
                assert(out@.map_values(|p: (Vec<char>, Vec<char>)| (p.0@, p.1@)) =~= prev.map_values(
                    |p: (Vec<char>, Vec<char>)| (p.0@, p.1@),
                ).push(pv));
            }
        }
    }
    proof {
        assert(lv.take(lines@.len() as int) =~= lv);
    }
    out
}

fn doc_of_exec(recs: &Vec<(Vec<char>, Vec<char>)>, cod: &Vec<char>) -> (r: Vec<char>)
    ensures
        r@ == doc_of(recs@.map_values(|p: (Vec<char>, Vec<char>)| (p.0@, p.1@)), cod@),
{
    let ghost rv = recs@.map_values(|p: (Vec<char>, Vec<char>)| (p.0@, p.1@));
    let mut i: usize = recs.len();
    proof {
        assert(rv.take(recs@.len() as int) =~= rv);
    }
    while i > 0
        invariant
            i <= recs@.len(),
            rv == recs@.map_values(|p: (Vec<char>, Vec<char>)| (p.0@, p.1@)),
            doc_of(rv, cod@) == doc_of(rv.take(i as int), cod@),
        decreases i,
    {
        proof {
            assert(rv.take(i as int).drop_last() =~= rv.take(i - 1));
            assert(rv.take(i as int).last() == (recs@[i - 1].0@, recs@[i - 1].1@));
        }
        if chars_eq(&recs[i - 1].0, cod) {
            return crate::text::copy_chars(&recs[i - 1].1);
        }
        i = i - 1;
    }
    Vec::new()
}

fn file_notes_of(text: &str) -> (r: Vec<(String, String, Option<Money>)>)
    ensures
        notes_view(r@) == file_notes(text@),
{
    let v = chars_of(text);
    let lines = lines_chars(&v);
    let ghost lv = lines@.map_values(|l: Vec<char>| l@);
    proof {
        assert(lv =~= lines_of(text@));
    }
    let recs = doc_records_of(&lines);
    let ghost rv = recs@.map_values(|p: (Vec<char>, Vec<char>)| (p.0@, p.1@));
    let tag = chars_of("|C100|");
    let mut out: Vec<(String, String, Option<Money>)> = Vec::new();
    for i in 0..lines.len()
        invariant
            lv == lines@.map_values(|l: Vec<char>| l@),
            rv == recs@.map_values(|p: (Vec<char>, Vec<char>)| (p.0@, p.1@)),
            rv == doc_records(lv),
            tag@ == "|C100|"@,
            notes_view(out@) == c100_records(lv.take(i as int), rv),
    {
        proof {
            assert(lv.take(i + 1).drop_last() =~= lv.take(i as int));
            assert(lv.take(i + 1).last() == lines@[i as int]@);
        }
        let line = &lines[i];
        let t = trim_chars(line);
        let f = bar_fields_of(line);
        let cod = chars_of(field_of(&f, 3).as_str());
        let doc = doc_of_exec(&recs, &cod);
        let serie = only_digits_chars(&chars_of(field_of(&f, 6).as_str()));
        let num = only_digits_chars(&chars_of(field_of(&f, 7).as_str()));
        if starts_with_chars(&t, &tag) && doc.len() > 0 && num.len() > 0 {
            let key = bar_text(&doc, &serie, &num);
            let dt = digits_to_br_date(only_digits(field_of(&f, 10).as_str()).as_str());
            let vl = parse_money(field_of(&f, 11).as_str());
            let ghost prev = out@;
            let ghost nv = (key@, (dt@, vl));
            out.push((string_of(&key), dt, vl));
            proof {
                assert(notes_view(out@) =~= notes_view(prev).push(nv));
            }
        }
    }
    proof {
        assert(lv.take(lines@.len() as int) =~= lv);
    }
    out
}

pub open spec fn first_notes(notes: Seq<(Seq<char>, SpedNote)>) -> Seq<(Seq<char>, SpedNote)>
    decreases notes.len(),
{
    if notes.len() == 0 {
        seq![]
    } else {
        let r = first_notes(notes.drop_last());
        if exists|k: int| 0 <= k < r.len() && r[k].0 == notes.last().0 {
            r
        } else {
            r.push(notes.last())
        }
    }
}

/// The notes of the SPED texts by `DOC|SERIE|NUMERO`: the first record of
/// each key, with its entry date and amount.
pub open spec fn sped_index(files: Seq<(Seq<char>, Seq<char>)>) -> Seq<(Seq<char>, SpedNote)> {
    first_notes(all_notes(files))
}

/// Indexes the notes of the SPED texts (see `sped_index`).
pub fn build_sped_index(sped_files: &Vec<NamedText>) -> (r: Vec<(String, String, Option<Money>)>)
    ensures
        notes_view(r@) == sped_index(named_view(sped_files@)),
{
    let ghost fv = named_view(sped_files@);
    let mut all: Vec<(String, String, Option<Money>)> = Vec::new();
    for i in 0..sped_files.len()
        invariant
            fv == named_view(sped_files@),
            notes_view(all@) == all_notes(fv.take(i as int)),
    {
        proof {
            assert(fv.take(i + 1).drop_last() =~= fv.take(i as int));
            assert(fv.take(i + 1).last().1 == sped_files@[i as int].text@);
        }
        let mut part = file_notes_of(sped_files[i].text.as_str());
        let ghost prev = all@;
        let ghost pv = part@;
        all.append(&mut part);
        proof {
            assert(notes_view(all@) =~= notes_view(prev) + notes_view(pv));
        }
    }
    proof {
        assert(fv.take(sped_files@.len() as int) =~= fv);
    }
    let ghost av = notes_view(all@);
    let mut out: Vec<(String, String, Option<Money>)> = Vec::new();
    let mut keys: Vec<Vec<char>> = Vec::new();
    for i in 0..all.len()
        invariant
            av == notes_view(all@),
            notes_view(out@) == first_notes(av.take(i as int)),
            keys@.len() == out@.len(),
            forall|k: int| 0 <= k < keys@.len() ==> (#[trigger] keys@[k])@ == out@[k].0@,
    {
        proof {
            assert(av.take(i + 1).drop_last() =~= av.take(i as int));
            assert(av.take(i + 1).last() == av[i as int]);
        }
        let key = chars_of(all[i].0.as_str());
        let ghost ov = notes_view(out@);
        let mut present = false;
        let mut k: usize = 0;
        while k < keys.len()
            invariant
                keys@.len() == out@.len(),
                forall|j: int| 0 <= j < keys@.len() ==> (#[trigger] keys@[j])@ == out@[j].0@,
                ov == notes_view(out@),
                k <= keys@.len(),
                present == exists|j: int| 0 <= j < k && ov[j].0 == key@,
            decreases keys@.len() - k,
        {
            proof {
                assert(ov[k as int].0 == keys@[k as int]@);
            }
            if chars_eq(&keys[k], &key) {
                present = true;
            }
            k = k + 1;
        }
        if !present {
            let item = (copy_string(&all[i].0), copy_string(&all[i].1), all[i].2);
            let ghost prev = out@;
            out.push(item);
            keys.push(key);
            proof {
                assert(notes_view(out@) =~= notes_view(prev).push(av[i as int]));
            }
        }
    }
    proof {
        assert(av.take(all@.len() as int) =~= av);
    }
    out
}

// ---------------------------------------------------------------------------
// Amounts of a note
// ---------------------------------------------------------------------------

/// The value in cents of an amount text, 0 when it holds none.
pub open spec fn cents_or_zero(value: Seq<char>) -> int {
    match money_of(value) {
        Some(m) => signed_cents(m),
        None => 0,
    }
}

pub open spec fn dup_sum(dups: Seq<(Seq<char>, Seq<char>, Seq<char>)>) -> int
    decreases dups.len(),
{
    if dups.len() == 0 {
        0
    } else {
        dup_sum(dups.drop_last()) + cents_or_zero(dups.last().2)
    }
}

/// The total of a note: the sum of its installments when positive, else
/// its net, original or note amount, else zero.
pub open spec fn meta_total(m: MetaView) -> int {
    if m.1.len() > 0 && dup_sum(m.1) > 0 {
        dup_sum(m.1)
    } else if money_of(m.0.3) is Some {
        signed_cents(money_of(m.0.3).unwrap())
    } else if money_of(m.0.2) is Some {
        signed_cents(money_of(m.0.2).unwrap())
    } else if money_of(m.0.4) is Some {
        signed_cents(money_of(m.0.4).unwrap())
    } else {
        0
    }
}

pub open spec fn money_bound() -> int {
    0x1_0000_0000_0000_0000
}

proof fn lemma_dup_sum_bound(dups: Seq<(Seq<char>, Seq<char>, Seq<char>)>)
    ensures
        -(dups.len() * money_bound()) <= dup_sum(dups) <= dups.len() * money_bound(),
    decreases dups.len(),
{
    if dups.len() > 0 {
        lemma_dup_sum_bound(dups.drop_last());
        assert((dups.len() - 1) * money_bound() + money_bound() == dups.len() * money_bound()) by (nonlinear_arith);
    }
}

pub proof fn lemma_meta_total_bound(m: MetaView)
    requires
        m.1.len() < 0x100_0000_0000_0000,
    ensures
        -0x100_0000_0000_0000 * money_bound() <= meta_total(m) <= 0x100_0000_0000_0000 * money_bound(),
{
    lemma_dup_sum_bound(m.1);
    assert(m.1.len() * money_bound() <= 0x100_0000_0000_0000 * money_bound()) by (nonlinear_arith)
        requires
            m.1.len() <= 0x100_0000_0000_0000,
    ;
}

pub fn signed_of(m: Money) -> (r: i128)
    ensures
        r as int == signed_cents(m),
{
    if m.negative {
        0i128 - (m.cents as i128)
    } else {
        m.cents as i128
    }
}

/// The total of a note, in cents (see `meta_total`).  A note holds fewer
/// than 2^56 installments, which any list in memory does.
pub fn compute_total_from_meta(meta: &NfeMeta) -> (r: i128)
    requires
        meta.dup_list@.len() < 0x100_0000_0000_0000,
    ensures
        r as int == meta_total(meta_view(*meta)),
{
    let ghost dv = meta_view(*meta).1;
    if meta.dup_list.len() > 0 {
        let mut sum: i128 = 0;
        for i in 0..meta.dup_list.len()
            invariant
                dv == meta_view(*meta).1,
                dv.len() == meta.dup_list@.len(),
                meta.dup_list@.len() < 0x100_0000_0000_0000,
                sum as int == dup_sum(dv.take(i as int)),
        {
            proof {
                assert(dv.take(i + 1).drop_last() =~= dv.take(i as int));
                assert(dv.take(i + 1).last() == crate::faturas::dup_view(meta.dup_list@[i as int]));
                lemma_dup_sum_bound(dv.take(i + 1));
                assert((i + 1) * money_bound() <= 0x100_0000_0000_0000 * money_bound()) by (nonlinear_arith)
                    requires
                        i + 1 <= 0x100_0000_0000_0000,
                ;
            }
            let add: i128 = match parse_money(meta.dup_list[i].v_dup.as_str()) {
                Some(m) => signed_of(m),
                None => 0,
            };
            sum = sum + add;
        }
        proof {
            assert(dv.take(dv.len() as int) =~= dv);
        }
        if sum > 0 {
            return sum;
        }
    }
    match parse_money(meta.v_liq.as_str()) {
        Some(m) => signed_of(m),
        None => match parse_money(meta.v_orig.as_str()) {
            Some(m) => signed_of(m),
            None => match parse_money(meta.v_nf.as_str()) {
                Some(m) => signed_of(m),
                None => 0,
            },
        },
    }
}

/// `format!("{:.2}", x)` of an amount in cents.
pub open spec fn cents_text(c: int) -> Seq<char> {
    let a = if c < 0 {
        -c
    } else {
        c
    };
    (if c < 0 {
        "-"@
    } else {
        seq![]
    }) + decimal((a / 100) as nat) + "."@ + two_digits((a % 100) as nat)
}

pub fn format_cents(c: i128) -> (r: String)
    requires
        c > i128::MIN,
    ensures
        r@ == cents_text(c as int),
{
    let a: u128 = if c < 0 {
        (0i128 - c) as u128
    } else {
        c as u128
    };
    let mut out: Vec<char> = Vec::new();
    if c < 0 {
        out.push('-');
    }
    let units = decimal_chars(a / 100);
    append_chars(&mut out, &units);
    out.push('.');
    let rest = a % 100;
    out.push((((rest / 10) as u8) + 48) as char);
    out.push((((rest % 10) as u8) + 48) as char);
    proof {
        reveal_strlit("-");
        reveal_strlit(".");
        assert(out@ =~= cents_text(c as int));
    }
    string_of(&out)
}

// ---------------------------------------------------------------------------
// Sorting texts
// ---------------------------------------------------------------------------

/// `x` put before the first element it does not follow.
pub open spec fn insert_sorted(s: Seq<Seq<char>>, x: Seq<char>) -> Seq<Seq<char>>
    decreases s.len(),
{
    if s.len() == 0 {
        seq![x]
    } else if text_le(x, s[0]) {
        seq![x] + s
    } else {
        seq![s[0]] + insert_sorted(s.drop_first(), x)
    }
}

/// The texts in the order of `String` (an insertion sort).
pub open spec fn sort_texts(s: Seq<Seq<char>>) -> Seq<Seq<char>>
    decreases s.len(),
{
    if s.len() == 0 {
        seq![]
    } else {
        insert_sorted(sort_texts(s.drop_last()), s.last())
    }
}

/// Where `insert_sorted` puts `x`, from index `j` on.
pub open spec fn sorted_pos(s: Seq<Seq<char>>, x: Seq<char>, j: int) -> int
    decreases s.len() - j,
{
    if j < 0 || j >= s.len() {
        s.len() as int
    } else if text_le(x, s[j]) {
        j
    } else {
        sorted_pos(s, x, j + 1)
    }
}

proof fn lemma_insert_sorted(s: Seq<Seq<char>>, x: Seq<char>, j: int)
    requires
        0 <= j <= s.len(),
    ensures
        j <= sorted_pos(s, x, j) <= s.len(),
        insert_sorted(s.skip(j), x) == s.skip(j).take(sorted_pos(s, x, j) - j) + seq![x] + s.skip(
            sorted_pos(s, x, j),
        ),
    decreases s.len() - j,
{
    if j < s.len() {
        assert(s.skip(j)[0] == s[j]);
        if !text_le(x, s[j]) {
            lemma_insert_sorted(s, x, j + 1);
            assert(s.skip(j).drop_first() =~= s.skip(j + 1));
            let p = sorted_pos(s, x, j);
            assert(seq![s[j]] + (s.skip(j + 1).take(p - j - 1) + seq![x] + s.skip(p)) =~= s.skip(j).take(p - j)
                + seq![x] + s.skip(p));
        } else {
            assert(seq![x] + s.skip(j) =~= s.skip(j).take(0) + seq![x] + s.skip(j));
        }
    } else {
        assert(s.skip(j) =~= Seq::<Seq<char>>::empty());
        assert(seq![x] =~= s.skip(j).take(0) + seq![x] + s.skip(s.len() as int));
    }
}

pub open spec fn vecs_view(v: Seq<Vec<char>>) -> Seq<Seq<char>> {
    v.map_values(|t: Vec<char>| t@)
}

/// Sorts texts in the order of `String`.
pub fn sort_texts_exec(v: Vec<Vec<char>>) -> (r: Vec<Vec<char>>)
    ensures
        vecs_view(r@) == sort_texts(vecs_view(v@)),
{
    let ghost vv = vecs_view(v@);
    let mut out: Vec<Vec<char>> = Vec::new();
    let mut i: usize = 0;
    while i < v.len()
        invariant
            vv == vecs_view(v@),
            i <= v@.len(),
            vecs_view(out@) == sort_texts(vv.take(i as int)),
        decreases v@.len() - i,
    {
        proof {
            assert(vv.take(i + 1).drop_last() =~= vv.take(i as int));
            assert(vv.take(i + 1).last() == v@[i as int]@);
        }
        let x = crate::text::copy_chars(&v[i]);
        let ghost ov = vecs_view(out@);
        let mut p: usize = 0;
        let mut stop = false;
        while !stop && p < out.len()
            invariant
                ov == vecs_view(out@),
                p <= out@.len(),
                stop ==> p < out@.len() && text_le(x@, ov[p as int]),
                sorted_pos(ov, x@, 0) == sorted_pos(ov, x@, p as int),
            decreases out@.len() - p + if stop {
                0int
            } else {
                1int
            },
        {
            let le = text_lt_chars(&x, &out[p]) || chars_eq(&x, &out[p]);
            if le {
                stop = true;
            } else {
                p = p + 1;
            }
        }
        proof {
            lemma_insert_sorted(ov, x@, 0);
            assert(ov.skip(0) =~= ov);
        }
        let ghost xv = x@;
        out.insert(p, x);
        proof {
            assert(vecs_view(out@) =~= ov.take(p as int) + seq![xv] + ov.skip(p as int));
        }
        i = i + 1;
    }
    proof {
        assert(vv.take(v@.len() as int) =~= vv);
    }
    out
}

} // verus!
