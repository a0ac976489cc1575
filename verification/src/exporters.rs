//! Export of converted documents: the fixed-width TXT file (ordered by
//! issue date, number and id) and the CSV listing.
use vstd::prelude::*;

use crate::document::{ConversionProfile, NfseDocument};
use crate::numbers::{parse_u32, parse_u32_chars, parse_u64, parse_u64_chars, text_lt, text_lt_chars};
use crate::prestados::{
    ba_main_line, ba_obs_line, ba_record_text, lemma_ba_main_line_shape,
    map_document_to_ba_prestados_line, map_document_to_ba_prestados_record,
    map_document_to_ba_tomados_line, service_code_cuttable, LineAmounts,
};
use crate::text::{
    copy_chars, is_blank_chars, split_text, split_text_chars, str_to_string,
    append_chars, append_str, chars_of, chars_of_string, contains_char, contains_char_chars,
    contains_text, decimal, decimal_chars, digits, is_blank, join, join_chars, join_strings,
    lines_of, only_digits_chars, opt_view, replace, replace_chars, split_chars, split_on,
    str_eq, string_of, trim, trim_chars, utf8_len, utf8_len_upto, zero_pad, zero_pad_chars,
};

verus! {

// ---------------------------------------------------------------------------
// Ordering keys
// ---------------------------------------------------------------------------

/// Three parts separated by `sep`, the first of `first_len` bytes, each an
/// unsigned number.
pub open spec fn three_numbers(raw: Seq<char>, sep: char, first_len: nat) -> Option<(u32, u32, u32)> {
    let p = split_on(raw, sep);
    if p.len() != 3 || utf8_len(p[0]) != first_len {
        None
    } else {
        match (parse_u32(p[0]), parse_u32(p[1]), parse_u32(p[2])) {
            (Some(a), Some(b), Some(c)) => Some((a, b, c)),
            _ => None,
        }
    }
}

pub open spec fn ymd_key(y: u32, m: u32, d: u32) -> Seq<char> {
    zero_pad(decimal(y as nat), 4) + zero_pad(decimal(m as nat), 2) + zero_pad(decimal(d as nat), 2)
}

/// Sort key of an issue date: `AAAAMMDD` from `AAAA-MM-DD` or `DD/MM/AAAA`,
/// otherwise its digits.
pub open spec fn emissao_key(raw: Seq<char>) -> Seq<char> {
    let t = trim(raw);
    match three_numbers(t, '-', 4) {
        Some((y, m, d)) => ymd_key(y, m, d),
        None => match three_numbers(t, '/', 2) {
            Some((d, m, y)) => ymd_key(y, m, d),
            None => digits(t),
        },
    }
}

/// Sort key of a number: the value of its digits, 0 when there are none
/// or they overflow.
pub open spec fn nota_key(raw: Seq<char>) -> u64 {
    match parse_u64(digits(raw)) {
        Some(n) => n,
        None => 0,
    }
}

fn three_numbers_chars(raw: &Vec<char>, sep: char, first_len: usize) -> (r: Option<(u32, u32, u32)>)
    ensures
        r == three_numbers(raw@, sep, first_len as nat),
{
    let p = split_chars(raw, sep);
    if p.len() != 3 {
        return None;
    }
    match utf8_len_upto(&p[0], first_len) {
        Some(n) => {
            if n != first_len {
                return None;
            }
        },
        None => {
            return None;
        },
    }
    let a = parse_u32_chars(&p[0]);
    let b = parse_u32_chars(&p[1]);
    let c = parse_u32_chars(&p[2]);
    match (a, b, c) {
        (Some(a), Some(b), Some(c)) => Some((a, b, c)),
        _ => None,
    }
}

fn ymd_key_chars(y: u32, m: u32, d: u32) -> (r: Vec<char>)
    ensures
        r@ == ymd_key(y, m, d),
{
    let mut out = zero_pad_chars(&decimal_chars(y as u128), 4);
    append_chars(&mut out, &zero_pad_chars(&decimal_chars(m as u128), 2));
    append_chars(&mut out, &zero_pad_chars(&decimal_chars(d as u128), 2));
    out
}

/// The ordering key of an issue date.
pub fn emissao_sort_key(raw: &str) -> (r: Vec<char>)
    ensures
        r@ == emissao_key(raw@),
{
    let v = chars_of(raw);
    let t = trim_chars(&v);
    match three_numbers_chars(&t, '-', 4) {
        Some((y, m, d)) => ymd_key_chars(y, m, d),
        None => match three_numbers_chars(&t, '/', 2) {
            Some((d, m, y)) => ymd_key_chars(y, m, d),
            None => only_digits_chars(&t),
        },
    }
}

/// The ordering key of a document number.
pub fn nota_sort_key(raw: &str) -> (r: u64)
    ensures
        r == nota_key(raw@),
{
    let v = chars_of(raw);
    let d = only_digits_chars(&v);
    match parse_u64_chars(&d) {
        Some(n) => n,
        None => 0,
    }
}

pub type SortKey = (Seq<char>, u64, Seq<char>);

pub open spec fn doc_key(d: NfseDocument) -> SortKey {
    (emissao_key(d.emissao@), nota_key(d.numero@), d.id@)
}

/// Lexicographic order of the keys.
pub open spec fn key_lt(a: SortKey, b: SortKey) -> bool {
    ||| text_lt(a.0, b.0)
    ||| (a.0 == b.0 && a.1 < b.1)
    ||| (a.0 == b.0 && a.1 == b.1 && text_lt(a.2, b.2))
}

/// Where a stable sort puts `x` among already sorted `s`: after every
/// element whose key is not greater.
pub open spec fn insert_pos(keys: Seq<SortKey>, s: Seq<int>, x: int) -> int
    decreases s.len(),
{
    if s.len() == 0 {
        0
    } else if key_lt(keys[x], keys[s.last()]) {
        insert_pos(keys, s.drop_last(), x)
    } else {
        s.len() as int
    }
}

/// The indices `0..n` in stable order of their keys (`sort_by_key`).
pub open spec fn stable_order(keys: Seq<SortKey>, n: int) -> Seq<int>
    decreases n,
{
    if n <= 0 {
        seq![]
    } else {
        let s = stable_order(keys, n - 1);
        let p = insert_pos(keys, s, n - 1);
        s.take(p) + seq![n - 1] + s.skip(p)
    }
}

pub proof fn lemma_insert_pos_bounds(keys: Seq<SortKey>, s: Seq<int>, x: int)
    ensures
        0 <= insert_pos(keys, s, x) <= s.len(),
    decreases s.len(),
{
    if s.len() > 0 {
        lemma_insert_pos_bounds(keys, s.drop_last(), x);
    }
}

pub proof fn lemma_stable_order_len(keys: Seq<SortKey>, n: int)
    requires
        n >= 0,
    ensures
        stable_order(keys, n).len() == n,
        forall|k: int| 0 <= k < n ==> 0 <= #[trigger] stable_order(keys, n)[k] < n,
    decreases n,
{
    if n > 0 {
        lemma_stable_order_len(keys, n - 1);
        let s = stable_order(keys, n - 1);
        lemma_insert_pos_bounds(keys, s, n - 1);
        let p = insert_pos(keys, s, n - 1);
        let r = s.take(p) + seq![n - 1] + s.skip(p);
        assert forall|k: int| 0 <= k < n implies 0 <= #[trigger] r[k] < n by {
            if k < p {
                assert(r[k] == s[k]);
            } else if k > p {
                assert(r[k] == s[k - 1]);
            }
        }
    }
}

pub struct KeyExec {
    pub emissao: Vec<char>,
    pub nota: u64,
    pub id: Vec<char>,
}

pub open spec fn key_view(k: KeyExec) -> SortKey {
    (k.emissao@, k.nota, k.id@)
}

fn key_lt_exec(a: &KeyExec, b: &KeyExec) -> (r: bool)
    ensures
        r == key_lt(key_view(*a), key_view(*b)),
{
    if text_lt_chars(&a.emissao, &b.emissao) {
        return true;
    }
    let same = crate::text::chars_eq(&a.emissao, &b.emissao);
    if same && a.nota < b.nota {
        return true;
    }
    if same && a.nota == b.nota {
        return text_lt_chars(&a.id, &b.id);
    }
    false
}

/// The document indices in the order of the TXT export.
fn sorted_indices(keys: &Vec<KeyExec>) -> (r: Vec<usize>)
    ensures
        r@.len() == keys@.len(),
        forall|k: int| 0 <= k < r@.len() ==> (r@[k] as int) == stable_order(
            keys@.map_values(|e: KeyExec| key_view(e)),
            keys@.len() as int,
        )[k],
{
    let ghost ks = keys@.map_values(|e: KeyExec| key_view(e));
    let mut out: Vec<usize> = Vec::new();
    for i in 0..keys.len()
        invariant
            ks == keys@.map_values(|e: KeyExec| key_view(e)),
            ks.len() == keys@.len(),
            out@.len() == i,
            forall|k: int| 0 <= k < i ==> (out@[k] as int) == stable_order(ks, i as int)[k],
            forall|k: int| 0 <= k < i ==> out@[k] < i,
    {
        let ghost s = stable_order(ks, i as int);
        let ghost os = out@.map_values(|u: usize| u as int);
        proof {
            lemma_stable_order_len(ks, i as int);
            assert(os =~= s);
        }
        let mut j: usize = out.len();
        proof {
            assert(os.take(j as int) =~= os);
        }
        while j > 0 && key_lt_exec(&keys[i], &keys[out[j - 1]])
            invariant
                j <= out@.len(),
                out@.len() == i,
                i < keys@.len(),
                ks == keys@.map_values(|e: KeyExec| key_view(e)),
                os == out@.map_values(|u: usize| u as int),
                forall|k: int| 0 <= k < i ==> out@[k] < i,
                insert_pos(ks, os, i as int) == insert_pos(ks, os.take(j as int), i as int),
            decreases j,
        {
            proof {
                assert(os.take(j as int).drop_last() =~= os.take(j - 1));
                assert(os.take(j as int).last() == out@[j - 1] as int);
            }
            j = j - 1;
        }
        proof {
            if j > 0 {
                assert(os.take(j as int).last() == out@[j - 1] as int);
            }
            assert(insert_pos(ks, os.take(j as int), i as int) == j);
        }
        let ghost before = out@;
        out.insert(j, i);
        proof {
            let s2 = stable_order(ks, i + 1);
            assert(s2 == s.take(j as int) + seq![i as int] + s.skip(j as int));
            assert forall|k: int| 0 <= k < i + 1 implies (out@[k] as int) == s2[k] by {
                if k < j {
                    assert(out@[k] == before[k]);
                } else if k > j {
                    assert(out@[k] == before[k - 1]);
                }
            }
        }
    }
    out
}

// ---------------------------------------------------------------------------
// The TXT file
// ---------------------------------------------------------------------------

pub open spec fn has_line_break(s: Seq<char>) -> bool {
    contains_char(s, '\n') || contains_char(s, '\r')
}

pub open spec fn main_break_message(numero: Seq<char>) -> Seq<char> {
    "NF "@ + numero + " cont\u{e9}m quebra de linha indevida no registro principal"@
}

pub open spec fn obs_break_message(numero: Seq<char>) -> Seq<char> {
    "NF "@ + numero + " possui quebra de linha indevida na observa\u{e7}\u{e3}o estendida"@
}

/// The lines of the Bahia TXT for the documents taken in `order`, or the
/// message of the first record that breaks a line.
pub open spec fn ba_export_lines(
    docs: Seq<NfseDocument>,
    amounts: Seq<LineAmounts>,
    profile: ConversionProfile,
    order: Seq<int>,
) -> Result<Seq<Seq<char>>, Seq<char>>
    decreases order.len(),
{
    if order.len() == 0 {
        Ok(seq![])
    } else {
        match ba_export_lines(docs, amounts, profile, order.drop_last()) {
            Err(e) => Err(e),
            Ok(lines) => {
                let d = docs[order.last()];
                let main = ba_main_line(d, profile, amounts[order.last()]);
                if has_line_break(main) {
                    Err(main_break_message(d.numero@))
                } else {
                    match ba_obs_line(d, profile) {
                        Some(obs) => if has_line_break(obs) {
                            Err(obs_break_message(d.numero@))
                        } else {
                            Ok(lines.push(main).push(obs))
                        },
                        None => Ok(lines.push(main)),
                    }
                }
            },
        }
    }
}

/// An error met on a prefix of the order is the error of the whole order.
pub proof fn lemma_ba_export_error_stays(
    docs: Seq<NfseDocument>,
    amounts: Seq<LineAmounts>,
    profile: ConversionProfile,
    order: Seq<int>,
    k: int,
)
    requires
        0 <= k <= order.len(),
        ba_export_lines(docs, amounts, profile, order.take(k)) is Err,
    ensures
        ba_export_lines(docs, amounts, profile, order) == ba_export_lines(
            docs,
            amounts,
            profile,
            order.take(k),
        ),
    decreases order.len() - k,
{
    if k < order.len() {
        let o1 = order.take(k + 1);
        assert(o1.drop_last() =~= order.take(k));
        lemma_ba_export_error_stays(docs, amounts, profile, order, k + 1);
    } else {
        assert(order.take(k) =~= order);
    }
}

pub open spec fn doc_keys(docs: Seq<NfseDocument>) -> Seq<SortKey> {
    docs.map_values(|d: NfseDocument| doc_key(d))
}

/// The Bahia TXT: the records ordered by issue date, number and id,
/// joined with `\r\n`.
pub open spec fn ba_export(
    docs: Seq<NfseDocument>,
    amounts: Seq<LineAmounts>,
    profile: ConversionProfile,
) -> Result<Seq<char>, Seq<char>> {
    match ba_export_lines(docs, amounts, profile, stable_order(doc_keys(docs), docs.len() as int)) {
        Ok(lines) => Ok(join(lines, "\r\n"@)),
        Err(e) => Err(e),
    }
}

pub open spec fn all_cuttable(docs: Seq<NfseDocument>, profile: ConversionProfile) -> bool {
    forall|k: int| 0 <= k < docs.len() ==> service_code_cuttable(#[trigger] docs[k], profile)
}

pub open spec fn string_result(r: Result<String, String>) -> Result<Seq<char>, Seq<char>> {
    match r {
        Ok(s) => Ok(s@),
        Err(e) => Err(e@),
    }
}

fn has_line_break_chars(v: &Vec<char>) -> (r: bool)
    ensures
        r == has_line_break(v@),
{
    contains_char_chars(v, '\n') || contains_char_chars(v, '\r')
}

fn message_with_numero(head: &str, numero: &String, tail: &str) -> (r: String)
    ensures
        r@ == head@ + numero@ + tail@,
{
    let mut v = chars_of(head);
    append_chars(&mut v, &chars_of_string(numero));
    append_str(&mut v, tail);
    string_of(&v)
}

fn export_ba_prestados(
    documents: &Vec<NfseDocument>,
    amounts: &Vec<LineAmounts>,
    profile: &ConversionProfile,
) -> (r: Result<String, String>)
    requires
        amounts@.len() == documents@.len(),
        all_cuttable(documents@, *profile),
    ensures
        string_result(r) == ba_export(documents@, amounts@, *profile),
{
    let mut keys: Vec<KeyExec> = Vec::new();
    for i in 0..documents.len()
        invariant
            keys@.len() == i,
            forall|k: int| 0 <= k < i ==> key_view(#[trigger] keys@[k]) == doc_key(documents@[k]),
    {
        let d = &documents[i];
        keys.push(
            KeyExec {
                emissao: emissao_sort_key(d.emissao.as_str()),
                nota: nota_sort_key(d.numero.as_str()),
                id: chars_of_string(&d.id),
            },
        );
    }
    let order = sorted_indices(&keys);
    let ghost ks = keys@.map_values(|e: KeyExec| key_view(e));
    proof {
        assert(ks =~= doc_keys(documents@));
        lemma_stable_order_len(ks, documents@.len() as int);
    }
    let ghost full = stable_order(doc_keys(documents@), documents@.len() as int);
    let mut lines: Vec<Vec<char>> = Vec::new();
    proof {
        assert(full.take(0) =~= Seq::<int>::empty());
        assert(lines@.map_values(|l: Vec<char>| l@) =~= Seq::<Seq<char>>::empty());
    }
    for i in 0..order.len()
        invariant
            order@.len() == documents@.len(),
            amounts@.len() == documents@.len(),
            all_cuttable(documents@, *profile),
            full == stable_order(doc_keys(documents@), documents@.len() as int),
            full.len() == order@.len(),
            forall|k: int| 0 <= k < order@.len() ==> (order@[k] as int) == full[k],
            forall|k: int| 0 <= k < full.len() ==> 0 <= #[trigger] full[k] < documents@.len(),
            ba_export_lines(documents@, amounts@, *profile, full.take(i as int)) == Ok::<
                Seq<Seq<char>>,
                Seq<char>,
            >(lines@.map_values(|l: Vec<char>| l@)),
    {
        let idx = order[i];
        proof {
            assert(full.take(i + 1).drop_last() =~= full.take(i as int));
            assert(full.take(i + 1).last() == idx as int);
            assert(0 <= full[i as int] < documents@.len());
        }
        let d = &documents[idx];
        let record = match map_document_to_ba_prestados_record(d, profile, &amounts[idx]) {
            Ok(rec) => rec,
            Err(e) => {
                return Err(e);
            },
        };
        let main = chars_of_string(&record.main_line);
        if has_line_break_chars(&main) {
            proof {
                lemma_ba_export_error_stays(documents@, amounts@, *profile, full, i + 1);
            }
            return Err(
                message_with_numero(
                    "NF ",
                    &d.numero,
                    " cont\u{e9}m quebra de linha indevida no registro principal",
                ),
            );
        }
        let ghost before = lines@;
        lines.push(main);
        match &record.obs_line {
            Some(obs) => {
                let ov = chars_of_string(obs);
                if has_line_break_chars(&ov) {
                    proof {
                        lemma_ba_export_error_stays(documents@, amounts@, *profile, full, i + 1);
                    }
                    return Err(
                        message_with_numero(
                            "NF ",
                            &d.numero,
                            " possui quebra de linha indevida na observa\u{e7}\u{e3}o estendida",
                        ),
                    );
                }
                lines.push(ov);
                proof {
                    assert(lines@.map_values(|l: Vec<char>| l@) =~= before.map_values(
                        |l: Vec<char>| l@,
                    ).push(ba_main_line(*d, *profile, amounts@[idx as int])).push(obs@));
                }
            },
            None => {
                proof {
                    assert(lines@.map_values(|l: Vec<char>| l@) =~= before.map_values(
                        |l: Vec<char>| l@,
                    ).push(ba_main_line(*d, *profile, amounts@[idx as int])));
                }
            },
        }
    }
    proof {
        assert(full.take(order@.len() as int) =~= full);
    }
    let sep = chars_of("\r\n");
    let text = join_chars(&lines, &sep);
    Ok(string_of(&text))
}


// ---------------------------------------------------------------------------
// The other layouts
// ---------------------------------------------------------------------------

/// The pieces that are not blank, in order.
pub open spec fn non_blank_pieces(ps: Seq<Seq<char>>) -> Seq<Seq<char>>
    decreases ps.len(),
{
    if ps.len() == 0 {
        seq![]
    } else {
        let r = non_blank_pieces(ps.drop_last());
        if is_blank(ps.last()) {
            r
        } else {
            r.push(ps.last())
        }
    }
}

/// The text one document gives in a layout other than `ba_prestados`:
/// the "tomados" record for `ba_tomados`, the "prestados" record otherwise.
pub open spec fn layout_text(d: NfseDocument, profile: ConversionProfile, a: LineAmounts) -> Seq<char> {
    if profile.output_layout@ == "ba_tomados"@ {
        seq!['2'] + ba_record_text(d, profile, a).skip(1)
    } else {
        ba_record_text(d, profile, a)
    }
}

/// The non-blank `\r\n`-separated lines of the first `n` documents.
pub open spec fn other_export_lines(
    docs: Seq<NfseDocument>,
    amounts: Seq<LineAmounts>,
    profile: ConversionProfile,
    n: int,
) -> Seq<Seq<char>>
    decreases n,
{
    if n <= 0 {
        seq![]
    } else {
        other_export_lines(docs, amounts, profile, n - 1) + non_blank_pieces(
            split_text(layout_text(docs[n - 1], profile, amounts[n - 1]), "\r\n"@),
        )
    }
}

pub open spec fn faturas_unavailable_message() -> Seq<char> {
    "layout prosoft_faturas n\u{e3}o possui mapeador de registros"@
}

/// The TXT file of the profile's layout: `ba_prestados` ordered with its
/// checks; `prosoft_faturas` refused for any document; any other layout
/// the non-blank lines of each document's record, in input order, joined
/// with `\r\n`.
pub open spec fn txt_export(
    docs: Seq<NfseDocument>,
    amounts: Seq<LineAmounts>,
    profile: ConversionProfile,
) -> Result<Seq<char>, Seq<char>> {
    if profile.output_layout@ == "ba_prestados"@ {
        ba_export(docs, amounts, profile)
    } else if profile.output_layout@ == "prosoft_faturas"@ && docs.len() > 0 {
        Err(faturas_unavailable_message())
    } else {
        Ok(join(other_export_lines(docs, amounts, profile, docs.len() as int), "\r\n"@))
    }
}

pub open spec fn line_views(lines: Seq<Vec<char>>) -> Seq<Seq<char>> {
    lines.map_values(|l: Vec<char>| l@)
}

/// Appends to `lines` the non-blank pieces of `text` between `\r\n`.
fn push_kept_pieces(lines: &mut Vec<Vec<char>>, text: &Vec<char>)
    ensures
        line_views(final(lines)@) == line_views(old(lines)@) + non_blank_pieces(
            split_text(text@, "\r\n"@),
        ),
{
    let sep = chars_of("\r\n");
    proof {
        reveal_strlit("\r\n");
    }
    let pieces = split_text_chars(text, &sep);
    let ghost ps = pieces@.map_values(|p: Vec<char>| p@);
    let ghost prefix = line_views(lines@);
    proof {
        assert(ps.take(0) =~= Seq::<Seq<char>>::empty());
        assert(prefix + non_blank_pieces(ps.take(0)) =~= prefix);
    }
    for j in 0..pieces.len()
        invariant
            ps == pieces@.map_values(|p: Vec<char>| p@),
            line_views(lines@) == prefix + non_blank_pieces(ps.take(j as int)),
    {
        proof {
            assert(ps.take(j + 1).drop_last() =~= ps.take(j as int));
            assert(ps.take(j + 1).last() == pieces@[j as int]@);
        }
        if !is_blank_chars(&pieces[j]) {
            let ghost before = line_views(lines@);
            lines.push(copy_chars(&pieces[j]));
            proof {
                assert(line_views(lines@) =~= before.push(pieces@[j as int]@));
                assert(prefix + non_blank_pieces(ps.take(j + 1)) =~= (prefix + non_blank_pieces(
                    ps.take(j as int),
                )).push(pieces@[j as int]@));
            }
        }
    }
    proof {
        assert(ps.take(pieces@.len() as int) =~= ps);
    }
}

/// The record text of one document in a layout other than `ba_prestados`.
fn layout_text_of(
    document: &NfseDocument,
    amounts: &LineAmounts,
    profile: &ConversionProfile,
    tomados: bool,
) -> (r: Vec<char>)
    requires
        service_code_cuttable(*document, *profile),
        tomados == (profile.output_layout@ == "ba_tomados"@),
    ensures
        r@ == layout_text(*document, *profile, *amounts),
{
    let line = if tomados {
        map_document_to_ba_tomados_line(document, profile, amounts)
    } else {
        map_document_to_ba_prestados_line(document, profile, amounts)
    };
    match line {
        Ok(t) => chars_of_string(&t),
        Err(_) => Vec::new(),
    }
}

/// Exports the documents as the fixed-width TXT of the profile's layout.
pub fn export_documents_to_txt(
    documents: &Vec<NfseDocument>,
    amounts: &Vec<LineAmounts>,
    profile: &ConversionProfile,
) -> (r: Result<String, String>)
    requires
        amounts@.len() == documents@.len(),
        all_cuttable(documents@, *profile),
    ensures
        string_result(r) == txt_export(documents@, amounts@, *profile),
{
    if str_eq(profile.output_layout.as_str(), "ba_prestados") {
        return export_ba_prestados(documents, amounts, profile);
    }
    let tomados = str_eq(profile.output_layout.as_str(), "ba_tomados");
    let faturas = str_eq(profile.output_layout.as_str(), "prosoft_faturas");
    let mut lines: Vec<Vec<char>> = Vec::new();
    proof {
        assert(line_views(lines@) =~= Seq::<Seq<char>>::empty());
    }
    for i in 0..documents.len()
        invariant
            amounts@.len() == documents@.len(),
            all_cuttable(documents@, *profile),
            tomados == (profile.output_layout@ == "ba_tomados"@),
            faturas == (profile.output_layout@ == "prosoft_faturas"@),
            faturas ==> i == 0,
            profile.output_layout@ != "ba_prestados"@,
            line_views(lines@) == other_export_lines(documents@, amounts@, *profile, i as int),
    {
        if faturas {
            return Err(str_to_string("layout prosoft_faturas n\u{e3}o possui mapeador de registros"));
        }
        proof {
            assert(service_code_cuttable(documents@[i as int], *profile));
        }
        let text = layout_text_of(&documents[i], &amounts[i], profile, tomados);
        push_kept_pieces(&mut lines, &text);
    }
    let sep = chars_of("\r\n");
    let joined = join_chars(&lines, &sep);
    Ok(string_of(&joined))
}


// ---------------------------------------------------------------------------
// The CSV listing
// ---------------------------------------------------------------------------

/// The monetary columns of a CSV row, as the caller printed them.
pub struct CsvAmounts {
    pub valor_servicos: String,
    pub base_calculo: String,
    pub valor_iss: String,
    pub aliquota_iss: String,
    pub valor_irrf: String,
    pub valor_pis: String,
    pub valor_cofins: String,
    pub valor_csll: String,
    pub valor_inss: String,
    pub valor_liquido: String,
}

/// A CSV cell: quoted, with inner quotes doubled, when it holds `;`, `"`
/// or a line feed.
pub open spec fn escape_csv_spec(v: Seq<char>) -> Seq<char> {
    if contains_char(v, ';') || contains_char(v, '"') || contains_char(v, '\n') {
        seq!['"'] + replace(v, seq!['"'], seq!['"', '"']) + seq!['"']
    } else {
        v
    }
}

pub fn escape_csv(value: String) -> (r: String)
    ensures
        r@ == escape_csv_spec(value@),
{
    let v = chars_of_string(&value);
    if contains_char_chars(&v, ';') || contains_char_chars(&v, '"') || contains_char_chars(&v, '\n') {
        let mut q: Vec<char> = Vec::new();
        q.push('"');
        let mut qq: Vec<char> = Vec::new();
        qq.push('"');
        qq.push('"');
        proof {
            assert(q@ =~= seq!['"']);
            assert(qq@ =~= seq!['"', '"']);
        }
        let inner = replace_chars(&v, &q, &qq);
        let mut out: Vec<char> = Vec::new();
        out.push('"');
        append_chars(&mut out, &inner);
        out.push('"');
        proof {
            assert(out@ =~= seq!['"'] + replace(v@, seq!['"'], seq!['"', '"']) + seq!['"']);
        }
        string_of(&out)
    } else {
        value
    }
}

pub open spec fn csv_header() -> Seq<Seq<char>> {
    seq![
        "provider"@, "numero"@, "serie"@, "emissao"@, "competencia"@, "municipio_nome"@,
        "municipio_codigo"@, "prestador_razao"@, "prestador_doc"@, "tomador_razao"@,
        "tomador_doc"@, "codigo_servico"@, "valor_servicos"@, "base_calculo"@, "valor_iss"@,
        "aliquota_iss"@, "iss_retido"@, "irrf"@, "pis"@, "cofins"@, "csll"@, "inss"@,
        "valor_liquido"@, "chave"@, "observacao"@,
    ]
}

/// The cells of a document's row.
pub open spec fn csv_cells(d: NfseDocument, a: CsvAmounts) -> Seq<Seq<char>> {
    seq![
        d.provider_friendly@, d.numero@, d.serie@, d.emissao@, d.competencia@,
        d.municipio_nome@, d.municipio_codigo@, d.prestador.nome@, d.prestador.documento@,
        d.tomador.nome@, d.tomador.documento@, d.item_lista_servico@, a.valor_servicos@,
        a.base_calculo@, a.valor_iss@, a.aliquota_iss@, if d.iss_retido {
            "1"@
        } else {
            "0"@
        }, a.valor_irrf@, a.valor_pis@, a.valor_cofins@, a.valor_csll@, a.valor_inss@,
        a.valor_liquido@, d.chave@, d.discriminacao@,
    ]
}

pub open spec fn csv_row(cells: Seq<Seq<char>>) -> Seq<char> {
    join(cells.map_values(|c: Seq<char>| escape_csv_spec(c)), seq![';'])
}

/// The rows of the listing: the header, then one row per document.
pub open spec fn csv_rows(docs: Seq<NfseDocument>, amounts: Seq<CsvAmounts>, n: int) -> Seq<Seq<char>>
    decreases n,
{
    if n <= 0 {
        seq![csv_row(csv_header())]
    } else {
        csv_rows(docs, amounts, n - 1).push(csv_row(csv_cells(docs[n - 1], amounts[n - 1])))
    }
}

pub open spec fn csv_text(docs: Seq<NfseDocument>, amounts: Seq<CsvAmounts>) -> Seq<char> {
    join(csv_rows(docs, amounts, docs.len() as int), "\r\n"@)
}

fn csv_row_of(cells: Vec<String>) -> (r: Vec<char>)
    ensures
        r@ == csv_row(cells@.map_values(|c: String| c@)),
{
    let ghost cs = cells@.map_values(|c: String| c@);
    let mut escaped: Vec<Vec<char>> = Vec::new();
    let mut cells = cells;
    let ghost original = cells@;
    let mut i: usize = 0;
    while i < cells.len()
        invariant
            cells@ == original,
            cs == original.map_values(|c: String| c@),
            escaped@.len() == i,
            i <= cells@.len(),
            forall|k: int| 0 <= k < i ==> (#[trigger] escaped@[k])@ == escape_csv_spec(cs[k]),
        decreases cells@.len() - i,
    {
        let c = copy_string_of(&cells[i]);
        escaped.push(chars_of_string(&escape_csv(c)));
        i = i + 1;
    }
    let mut sep: Vec<char> = Vec::new();
    sep.push(';');
    proof {
        assert(escaped@.map_values(|p: Vec<char>| p@) =~= cs.map_values(
            |c: Seq<char>| escape_csv_spec(c),
        ));
    }
    join_chars(&escaped, &sep)
}

fn copy_string_of(s: &String) -> (r: String)
    ensures
        r@ == s@,
{
    string_of(&chars_of_string(s))
}

fn header_cells() -> (r: Vec<String>)
    ensures
        r@.map_values(|c: String| c@) == csv_header(),
{
    let v = vec![
        str_to_string("provider"), str_to_string("numero"), str_to_string("serie"),
        str_to_string("emissao"), str_to_string("competencia"), str_to_string("municipio_nome"),
        str_to_string("municipio_codigo"), str_to_string("prestador_razao"),
        str_to_string("prestador_doc"), str_to_string("tomador_razao"),
        str_to_string("tomador_doc"), str_to_string("codigo_servico"),
        str_to_string("valor_servicos"), str_to_string("base_calculo"),
        str_to_string("valor_iss"), str_to_string("aliquota_iss"), str_to_string("iss_retido"),
        str_to_string("irrf"), str_to_string("pis"), str_to_string("cofins"),
        str_to_string("csll"), str_to_string("inss"), str_to_string("valor_liquido"),
        str_to_string("chave"), str_to_string("observacao"),
    ];
    proof {
        assert(v@.map_values(|c: String| c@) =~= csv_header());
    }
    v
}

fn document_cells(d: &NfseDocument, a: &CsvAmounts) -> (r: Vec<String>)
    ensures
        r@.map_values(|c: String| c@) == csv_cells(*d, *a),
{
    let retido = if d.iss_retido {
        str_to_string("1")
    } else {
        str_to_string("0")
    };
    let v = vec![
        copy_string_of(&d.provider_friendly), copy_string_of(&d.numero),
        copy_string_of(&d.serie), copy_string_of(&d.emissao), copy_string_of(&d.competencia),
        copy_string_of(&d.municipio_nome), copy_string_of(&d.municipio_codigo),
        copy_string_of(&d.prestador.nome), copy_string_of(&d.prestador.documento),
        copy_string_of(&d.tomador.nome), copy_string_of(&d.tomador.documento),
        copy_string_of(&d.item_lista_servico), copy_string_of(&a.valor_servicos),
        copy_string_of(&a.base_calculo), copy_string_of(&a.valor_iss),
        copy_string_of(&a.aliquota_iss), retido, copy_string_of(&a.valor_irrf),
        copy_string_of(&a.valor_pis), copy_string_of(&a.valor_cofins),
        copy_string_of(&a.valor_csll), copy_string_of(&a.valor_inss),
        copy_string_of(&a.valor_liquido), copy_string_of(&d.chave),
        copy_string_of(&d.discriminacao),
    ];
    proof {
        assert(v@.map_values(|c: String| c@) =~= csv_cells(*d, *a));
    }
    v
}

/// The CSV listing of the documents: a header and one `;`-separated row
/// per document, rows joined with `\r\n`.
pub fn export_documents_to_csv(
    documents: &Vec<NfseDocument>,
    amounts: &Vec<CsvAmounts>,
    profile: &ConversionProfile,
) -> (r: Result<String, String>)
    requires
        amounts@.len() == documents@.len(),
    ensures
        r matches Ok(text) && text@ == csv_text(documents@, amounts@),
{
    let mut rows: Vec<Vec<char>> = Vec::new();
    rows.push(csv_row_of(header_cells()));
    proof {
        assert(line_views(rows@) =~= csv_rows(documents@, amounts@, 0));
    }
    for i in 0..documents.len()
        invariant
            amounts@.len() == documents@.len(),
            line_views(rows@) == csv_rows(documents@, amounts@, i as int),
    {
        let ghost before = line_views(rows@);
        rows.push(csv_row_of(document_cells(&documents[i], &amounts[i])));
        proof {
            assert(line_views(rows@) =~= before.push(
                csv_row(csv_cells(documents@[i as int], amounts@[i as int])),
            ));
        }
    }
    let sep = chars_of("\r\n");
    Ok(string_of(&join_chars(&rows, &sep)))
}

/// Each cell of a document's CSV row lies under the header that names it:
/// the provider, the note's number, series and dates, the municipality,
/// both parties, the service code, each amount under its own name, the
/// withholding flag (`1` or `0`), the key and the description.
pub proof fn law_csv_cells_under_headers(d: NfseDocument, a: CsvAmounts)
    ensures
        csv_header().len() == 25,
        csv_cells(d, a).len() == 25,
        csv_header()[0] == "provider"@ && csv_cells(d, a)[0] == d.provider_friendly@,
        csv_header()[1] == "numero"@ && csv_cells(d, a)[1] == d.numero@,
        csv_header()[2] == "serie"@ && csv_cells(d, a)[2] == d.serie@,
        csv_header()[3] == "emissao"@ && csv_cells(d, a)[3] == d.emissao@,
        csv_header()[4] == "competencia"@ && csv_cells(d, a)[4] == d.competencia@,
        csv_header()[5] == "municipio_nome"@ && csv_cells(d, a)[5] == d.municipio_nome@,
        csv_header()[6] == "municipio_codigo"@ && csv_cells(d, a)[6] == d.municipio_codigo@,
        csv_header()[7] == "prestador_razao"@ && csv_cells(d, a)[7] == d.prestador.nome@,
        csv_header()[8] == "prestador_doc"@ && csv_cells(d, a)[8] == d.prestador.documento@,
        csv_header()[9] == "tomador_razao"@ && csv_cells(d, a)[9] == d.tomador.nome@,
        csv_header()[10] == "tomador_doc"@ && csv_cells(d, a)[10] == d.tomador.documento@,
        csv_header()[11] == "codigo_servico"@ && csv_cells(d, a)[11] == d.item_lista_servico@,
        csv_header()[12] == "valor_servicos"@ && csv_cells(d, a)[12] == a.valor_servicos@,
        csv_header()[13] == "base_calculo"@ && csv_cells(d, a)[13] == a.base_calculo@,
        csv_header()[14] == "valor_iss"@ && csv_cells(d, a)[14] == a.valor_iss@,
        csv_header()[15] == "aliquota_iss"@ && csv_cells(d, a)[15] == a.aliquota_iss@,
        csv_header()[16] == "iss_retido"@ && csv_cells(d, a)[16] == (if d.iss_retido { "1"@ } else { "0"@ }),
        csv_header()[17] == "irrf"@ && csv_cells(d, a)[17] == a.valor_irrf@,
        csv_header()[18] == "pis"@ && csv_cells(d, a)[18] == a.valor_pis@,
        csv_header()[19] == "cofins"@ && csv_cells(d, a)[19] == a.valor_cofins@,
        csv_header()[20] == "csll"@ && csv_cells(d, a)[20] == a.valor_csll@,
        csv_header()[21] == "inss"@ && csv_cells(d, a)[21] == a.valor_inss@,
        csv_header()[22] == "valor_liquido"@ && csv_cells(d, a)[22] == a.valor_liquido@,
        csv_header()[23] == "chave"@ && csv_cells(d, a)[23] == d.chave@,
        csv_header()[24] == "observacao"@ && csv_cells(d, a)[24] == d.discriminacao@,
{
}

proof fn lemma_csv_rows_shape(docs: Seq<NfseDocument>, amounts: Seq<CsvAmounts>, n: int)
    requires
        0 <= n,
    ensures
        csv_rows(docs, amounts, n).len() == n + 1,
        csv_rows(docs, amounts, n)[0] == csv_row(csv_header()),
    decreases n,
{
    if n > 0 {
        lemma_csv_rows_shape(docs, amounts, n - 1);
    }
}

/// Row `k + 1` of the listing is the row of document `k` (row 0 is the
/// header).
pub proof fn law_csv_row_of_document(docs: Seq<NfseDocument>, amounts: Seq<CsvAmounts>, n: int, k: int)
    requires
        0 <= k < n,
    ensures
        csv_rows(docs, amounts, n).len() == n + 1,
        csv_rows(docs, amounts, n)[0] == csv_row(csv_header()),
        csv_rows(docs, amounts, n)[k + 1] == csv_row(csv_cells(docs[k], amounts[k])),
    decreases n,
{
    lemma_csv_rows_shape(docs, amounts, n);
    lemma_csv_rows_shape(docs, amounts, n - 1);
    if k < n - 1 {
        law_csv_row_of_document(docs, amounts, n - 1, k);
    }
}

} // verus!
