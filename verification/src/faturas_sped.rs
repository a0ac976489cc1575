//! What the invoice tool reads from SPED files: the entry date and the
//! installment flag of each note (`C100`), the state registration of each
//! participant (`0150`) and the branch CNPJ (`0000`); and how the rows take
//! them over.
use vstd::prelude::*;

use crate::faturas::{copy_row, named_view, row_view, rows_view, NamedText, NfeFaturasLogItem, NfeFaturasRow, NfeFaturasSettings, RowView};
use crate::faturas_text::{br_date, digits_to_br_date, log_after, log_push, logs_view, push_front, LogView};
use crate::sped::texts;
use crate::sped_merge::{bar_fields, bar_fields_of, field_at, field_of};
use crate::text::{
    alnum_upper, append_chars, append_str, chars_eq, chars_of, copy_string, digits, lines_chars, lines_of,
    only_alnum_upper_chars, only_digits_chars, starts_with, starts_with_chars, str_eq, string_of, trim,
    trim_chars,
};

verus! {

broadcast use vstd::string::group_string_axioms;

/// The entry date (`DDMMYYYY`) and the installment flag of a SPED note.
#[derive(Debug, Clone)]
pub struct SpedC100Item {
    pub dt_escr: String,
    pub desdob: u8,
}

pub type C100View = (Seq<char>, u8);

/// A `C100` record with a 44-digit key and an 8-digit entry date: the key,
/// the date and whether payment is in installments (`IND_PGTO` = 1).
pub open spec fn c100_item(line: Seq<char>) -> Option<(Seq<char>, C100View)> {
    let f = bar_fields(line);
    if starts_with(trim(line), "|C100|"@) && field_at(f, 0) == "C100"@ && digits(field_at(f, 8)).len() == 44
        && digits(field_at(f, 10)).len() == 8 {
        Some((digits(field_at(f, 8)), (digits(field_at(f, 10)), if field_at(f, 12) == "1"@ {
            1u8
        } else {
            0u8
        })))
    } else {
        None
    }
}

pub open spec fn has_entry<V>(s: Seq<(Seq<char>, V)>, key: Seq<char>) -> bool {
    exists|k: int| 0 <= k < s.len() && s[k].0 == key
}

/// The notes of the lines, the first record of each key kept.
pub open spec fn c100_items(lines: Seq<Seq<char>>) -> Seq<(Seq<char>, C100View)>
    decreases lines.len(),
{
    if lines.len() == 0 {
        seq![]
    } else {
        let r = c100_items(lines.drop_last());
        match c100_item(lines.last()) {
            Some(e) => if has_entry(r, e.0) {
                r
            } else {
                r.push(e)
            },
            None => r,
        }
    }
}

pub open spec fn c100_view(v: Seq<(String, SpedC100Item)>) -> Seq<(Seq<char>, C100View)> {
    v.map_values(|p: (String, SpedC100Item)| (p.0@, (p.1.dt_escr@, p.1.desdob)))
}

fn key_index(keys: &Vec<Vec<char>>, key: &Vec<char>) -> (r: Option<usize>)
    ensures
        match r {
            Some(k) => k < keys@.len() && keys@[k as int]@ == key@,
            None => forall|k: int| 0 <= k < keys@.len() ==> (#[trigger] keys@[k])@ != key@,
        },
{
    for k in 0..keys.len()
        invariant
            forall|j: int| 0 <= j < k ==> (#[trigger] keys@[j])@ != key@,
    {
        if chars_eq(&keys[k], key) {
            return Some(k);
        }
    }
    None
}

/// The notes of a SPED text by key (see `c100_items`).
pub fn parse_sped_c100(content: &str) -> (r: Vec<(String, SpedC100Item)>)
    ensures
        c100_view(r@) == c100_items(lines_of(content@)),
{
    let v = chars_of(content);
    let lines = lines_chars(&v);
    let ghost lv = lines_of(content@);
    let tag = chars_of("|C100|");
    let c100 = chars_of("C100");
    let mut out: Vec<(String, SpedC100Item)> = Vec::new();
    let mut keys: Vec<Vec<char>> = Vec::new();
    for i in 0..lines.len()
        invariant
            lines@.len() == lv.len(),
            forall|k: int| 0 <= k < lines@.len() ==> (#[trigger] lines@[k])@ == lv[k],
            tag@ == "|C100|"@,
            c100@ == "C100"@,
            c100_view(out@) == c100_items(lv.take(i as int)),
            keys@.len() == out@.len(),
            forall|k: int| 0 <= k < keys@.len() ==> (#[trigger] keys@[k])@ == out@[k].0@,
    {
        proof {
            assert(lv.take(i + 1).drop_last() =~= lv.take(i as int));
            assert(lv.take(i + 1).last() == lines@[i as int]@);
        }
        let line = &lines[i];
        let t = trim_chars(line);
        let f = bar_fields_of(line);
        let f0 = chars_of(field_of(&f, 0).as_str());
        let chave = only_digits_chars(&chars_of(field_of(&f, 8).as_str()));
        let dt = only_digits_chars(&chars_of(field_of(&f, 10).as_str()));
        if starts_with_chars(&t, &tag) && chars_eq(&f0, &c100) && chave.len() == 44 && dt.len() == 8 {
            let ind = field_of(&f, 12);
            let desdob: u8 = if str_eq(ind.as_str(), "1") {
                1
            } else {
                0
            };
            let ghost cv = c100_view(out@);
            match key_index(&keys, &chave) {
                Some(k) => {
                    proof {
                        assert(cv[k as int].0 == chave@);
                    }
                },
                None => {
                    proof {
                        assert forall|j: int| 0 <= j < cv.len() implies cv[j].0 != chave@ by {
                            assert(cv[j].0 == keys@[j]@);
                        }
                    }
                    let ghost prev = out@;
                    let item = (string_of(&chave), SpedC100Item { dt_escr: string_of(&dt), desdob });
                    let ghost iv = (chave@, (dt@, desdob));
                    out.push(item);
                    keys.push(chave);
                    proof {
                        assert(c100_view(out@) =~= c100_view(prev).push(iv));
                    }
                },
            }
        }
    }
    proof {
        assert(lv.take(lines@.len() as int) =~= lv);
    }
    out
}

/// A `0150` record with a CPF or CNPJ and a state registration: the
/// document and the registration.
pub open spec fn p0150_item(line: Seq<char>) -> Option<(Seq<char>, Seq<char>)> {
    let f = bar_fields(line);
    let d4 = digits(field_at(f, 4));
    let doc = if d4.len() == 0 {
        digits(field_at(f, 5))
    } else {
        d4
    };
    let ie = alnum_upper(field_at(f, 6));
    if starts_with(trim(line), "|0150|"@) && field_at(f, 0) == "0150"@ && (doc.len() == 11 || doc.len() == 14)
        && ie.len() > 0 {
        Some((doc, ie))
    } else {
        None
    }
}

/// The first index of a key, or -1.
pub open spec fn index_of_key<V>(s: Seq<(Seq<char>, V)>, key: Seq<char>, j: int) -> int
    decreases s.len() - j,
{
    if j < 0 || j >= s.len() {
        -1
    } else if s[j].0 == key {
        j
    } else {
        index_of_key(s, key, j + 1)
    }
}

/// An entry put in a map: over the entry of its key, else at the end.
pub open spec fn put_last<V>(s: Seq<(Seq<char>, V)>, e: (Seq<char>, V)) -> Seq<(Seq<char>, V)> {
    let k = index_of_key(s, e.0, 0);
    if k >= 0 {
        s.update(k, e)
    } else {
        s.push(e)
    }
}

/// The registrations of the lines by document, the last record of each
/// document kept.
pub open spec fn p0150_items(lines: Seq<Seq<char>>) -> Seq<(Seq<char>, Seq<char>)>
    decreases lines.len(),
{
    if lines.len() == 0 {
        seq![]
    } else {
        let r = p0150_items(lines.drop_last());
        match p0150_item(lines.last()) {
            Some(e) => put_last(r, e),
            None => r,
        }
    }
}

pub open spec fn pairs_view(v: Seq<(String, String)>) -> Seq<(Seq<char>, Seq<char>)> {
    v.map_values(|p: (String, String)| (p.0@, p.1@))
}

proof fn lemma_index_of_key<V>(s: Seq<(Seq<char>, V)>, key: Seq<char>, j: int)
    requires
        0 <= j,
    ensures
        -1 <= index_of_key(s, key, j) < s.len(),
        index_of_key(s, key, j) >= 0 ==> s[index_of_key(s, key, j)].0 == key,
        index_of_key(s, key, j) < 0 ==> forall|k: int| j <= k < s.len() ==> s[k].0 != key,
    decreases s.len() - j,
{
    if j < s.len() && s[j].0 != key {
        lemma_index_of_key(s, key, j + 1);
    }
}

proof fn lemma_index_of_key_first<V>(s: Seq<(Seq<char>, V)>, key: Seq<char>, j: int, k: int)
    requires
        0 <= j <= k < s.len(),
        s[k].0 == key,
        forall|i: int| j <= i < k ==> s[i].0 != key,
    ensures
        index_of_key(s, key, j) == k,
    decreases k - j,
{
    if j < k {
        lemma_index_of_key_first(s, key, j + 1, k);
    }
}

/// Puts a pair in a map kept as a list of distinct keys.
pub fn put_pair(map: &mut Vec<(String, String)>, key: String, value: String)
    ensures
        pairs_view(final(map)@) == put_last(pairs_view(old(map)@), (key@, value@)),
{
    let ghost pv = pairs_view(map@);
    let kc = chars_of(key.as_str());
    let mut j: usize = 0;
    while j < map.len()
        invariant
            pv == pairs_view(map@),
            pv == pairs_view(old(map)@),
            kc@ == key@,
            j <= map@.len(),
            forall|i: int| 0 <= i < j ==> pv[i].0 != key@,
        decreases map@.len() - j,
    {
        if str_eq(map[j].0.as_str(), key.as_str()) {
            proof {
                lemma_index_of_key_first(pv, key@, 0, j as int);
            }
            let ghost kv = (key@, value@);
            map.set(j, (key, value));
            proof {
                assert(pairs_view(map@) =~= pv.update(j as int, kv));
            }
            return;
        }
        j = j + 1;
    }
    proof {
        lemma_index_of_key(pv, key@, 0);
        if index_of_key(pv, key@, 0) >= 0 {
            assert(pv[index_of_key(pv, key@, 0)].0 == key@);
        }
    }
    let ghost kv = (key@, value@);
    map.push((key, value));
    proof {
        assert(pairs_view(map@) =~= pv.push(kv));
    }
}

/// The state registrations of a SPED text by document (see `p0150_items`).
pub fn parse_sped_0150(content: &str) -> (r: Vec<(String, String)>)
    ensures
        pairs_view(r@) == p0150_items(lines_of(content@)),
{
    let v = chars_of(content);
    let lines = lines_chars(&v);
    let ghost lv = lines_of(content@);
    let tag = chars_of("|0150|");
    let p0150 = chars_of("0150");
    let mut out: Vec<(String, String)> = Vec::new();
    for i in 0..lines.len()
        invariant
            lines@.len() == lv.len(),
            forall|k: int| 0 <= k < lines@.len() ==> (#[trigger] lines@[k])@ == lv[k],
            tag@ == "|0150|"@,
            p0150@ == "0150"@,
            pairs_view(out@) == p0150_items(lv.take(i as int)),
    {
        proof {
            assert(lv.take(i + 1).drop_last() =~= lv.take(i as int));
            assert(lv.take(i + 1).last() == lines@[i as int]@);
        }
        let line = &lines[i];
        let t = trim_chars(line);
        let f = bar_fields_of(line);
        let f0 = chars_of(field_of(&f, 0).as_str());
        let d4 = only_digits_chars(&chars_of(field_of(&f, 4).as_str()));
        let doc = if d4.len() == 0 {
            only_digits_chars(&chars_of(field_of(&f, 5).as_str()))
        } else {
            d4
        };
        let ie = only_alnum_upper_chars(&chars_of(field_of(&f, 6).as_str()));
        if starts_with_chars(&t, &tag) && chars_eq(&f0, &p0150) && (doc.len() == 11 || doc.len() == 14) && ie.len()
            > 0 {
            put_pair(&mut out, string_of(&doc), string_of(&ie));
        }
    }
    proof {
        assert(lv.take(lines@.len() as int) =~= lv);
    }
    out
}

// ---------------------------------------------------------------------------
// Rows taking over SPED data
// ---------------------------------------------------------------------------

pub open spec fn lookup<V>(s: Seq<(Seq<char>, V)>, key: Seq<char>) -> Option<V> {
    let k = index_of_key(s, key, 0);
    if k >= 0 {
        Some(s[k].1)
    } else {
        None
    }
}

/// A row after the SPED notes: matched by key, it takes the entry date and
/// the installment flag.
pub open spec fn row_with_c100(r: RowView, index: Seq<(Seq<char>, C100View)>, usar: bool) -> RowView {
    if !usar {
        (r.0, r.1, (false, r.2.1, r.2.2))
    } else {
        match lookup(index, digits(r.0.0)) {
            Some(item) => (
                (r.0.0, r.0.1, r.0.2, r.0.3, r.0.4, r.0.5, r.0.6, r.0.7, br_date(item.0)),
                (item.1, r.1.1, r.1.2, r.1.3, r.1.4),
                (true, r.2.1, r.2.2),
            ),
            None => (r.0, r.1, (false, r.2.1, r.2.2)),
        }
    }
}

fn find_c100(index: &Vec<(String, SpedC100Item)>, key: &Vec<char>) -> (r: Option<usize>)
    ensures
        match r {
            Some(k) => k < index@.len() && index_of_key(c100_view(index@), key@, 0) == k as int,
            None => index_of_key(c100_view(index@), key@, 0) == -1,
        },
{
    let ghost cv = c100_view(index@);
    for k in 0..index.len()
        invariant
            cv == c100_view(index@),
            forall|j: int| 0 <= j < k ==> cv[j].0 != key@,
    {
        if chars_eq(&chars_of(index[k].0.as_str()), key) {
            proof {
                lemma_index_of_key_first(cv, key@, 0, k as int);
            }
            return Some(k);
        }
    }
    proof {
        lemma_index_of_key(cv, key@, 0);
        if index_of_key(cv, key@, 0) >= 0 {
            assert(cv[index_of_key(cv, key@, 0)].0 == key@);
        }
    }
    None
}

/// The rows after the SPED notes (see `row_with_c100`).
pub fn apply_sped_c100_to_rows(rows: &mut Vec<NfeFaturasRow>, sped_by_chave: &Vec<(String, SpedC100Item)>, settings: &NfeFaturasSettings)
    ensures
        rows_view(final(rows)@) == rows_view(old(rows)@).map_values(|r: RowView| row_with_c100(r, c100_view(sped_by_chave@), settings.chk_usar_sped)),
{
    let ghost ov = rows_view(rows@);
    let ghost cv = c100_view(sped_by_chave@);
    let mut out: Vec<NfeFaturasRow> = Vec::new();
    for i in 0..rows.len()
        invariant
            ov == rows_view(rows@),
            cv == c100_view(sped_by_chave@),
            out@.len() == i,
            forall|k: int| 0 <= k < i ==> row_view(#[trigger] out@[k]) == row_with_c100(ov[k], cv, settings.chk_usar_sped),
    {
        let mut row = copy_row(&rows[i]);
        if !settings.chk_usar_sped {
            row.sped_matched = false;
        } else {
            let key = only_digits_chars(&chars_of(row.chave.as_str()));
            match find_c100(sped_by_chave, &key) {
                Some(k) => {
                    row.data_entrada = digits_to_br_date(sped_by_chave[k].1.dt_escr.as_str());
                    row.desdob = sped_by_chave[k].1.desdob;
                    row.sped_matched = true;
                },
                None => {
                    row.sped_matched = false;
                },
            }
        }
        out.push(row);
    }
    proof {
        assert(rows_view(out@) =~= ov.map_values(|r: RowView| row_with_c100(r, cv, settings.chk_usar_sped)));
    }
    *rows = out;
}

/// The state registration a row takes from the SPED participants, if any:
/// the participant's, when the setting forces it, when the row has none, or
/// when their digit counts differ, and only where it differs.
pub open spec fn ie_from_sped(r: RowView, map: Seq<(Seq<char>, Seq<char>)>, forced: bool) -> Option<Seq<char>> {
    let doc = digits(r.0.2);
    if doc.len() != 11 && doc.len() != 14 {
        None
    } else {
        match lookup(map, doc) {
            None => None,
            Some(ie_sped) => {
                let ie_xml = alnum_upper(r.0.4);
                let replace = forced || ie_xml.len() == 0 || digits(ie_xml).len() != digits(ie_sped).len();
                if replace && ie_xml != ie_sped {
                    Some(ie_sped)
                } else {
                    None
                }
            },
        }
    }
}

pub open spec fn row_with_ie(r: RowView, map: Seq<(Seq<char>, Seq<char>)>, forced: bool) -> RowView {
    match ie_from_sped(r, map, forced) {
        Some(ie) => ((r.0.0, r.0.1, r.0.2, r.0.3, ie, r.0.5, r.0.6, r.0.7, r.0.8), r.1, r.2),
        None => r,
    }
}

/// The details logged for a changed registration.
pub open spec fn ie_log_meta(r: RowView, ie_sped: Seq<char>) -> Seq<char> {
    let ie_xml = alnum_upper(r.0.4);
    "chave "@ + r.0.0 + " | NF "@ + r.0.6 + " | CNPJ "@ + digits(r.0.2) + " | IE xml "@ + (if ie_xml.len() == 0 {
        "(vazio)"@
    } else {
        ie_xml
    }) + " -> IE sped "@ + ie_sped
}

/// The log entries of the changed registrations, row after row.
pub open spec fn ie_log_items(rows: Seq<RowView>, map: Seq<(Seq<char>, Seq<char>)>, forced: bool, now: Seq<char>) -> Seq<LogView>
    decreases rows.len(),
{
    if rows.len() == 0 {
        seq![]
    } else {
        let r = rows.last();
        let prev = ie_log_items(rows.drop_last(), map, forced, now);
        match ie_from_sped(r, map, forced) {
            Some(ie) => prev.push((now, "info"@, "IE ajustada via SPED 0150"@, Some(ie_log_meta(r, ie)))),
            None => prev,
        }
    }
}

fn lookup_pair(map: &Vec<(String, String)>, key: &Vec<char>) -> (r: Option<usize>)
    ensures
        match r {
            Some(k) => k < map@.len() && lookup(pairs_view(map@), key@) == Some(map@[k as int].1@),
            None => lookup(pairs_view(map@), key@) is None,
        },
{
    let ghost pv = pairs_view(map@);
    for k in 0..map.len()
        invariant
            pv == pairs_view(map@),
            forall|j: int| 0 <= j < k ==> pv[j].0 != key@,
    {
        if chars_eq(&chars_of(map[k].0.as_str()), key) {
            proof {
                lemma_index_of_key_first(pv, key@, 0, k as int);
            }
            return Some(k);
        }
    }
    proof {
        lemma_index_of_key(pv, key@, 0);
        if index_of_key(pv, key@, 0) >= 0 {
            assert(pv[index_of_key(pv, key@, 0)].0 == key@);
        }
    }
    None
}

/// The rows after the SPED participants, and the log of each change.
pub fn apply_sped_0150_ie_to_rows(
    rows: &mut Vec<NfeFaturasRow>,
    map: &Vec<(String, String)>,
    settings: &NfeFaturasSettings,
    logs: &mut Vec<NfeFaturasLogItem>,
    now: &str,
)
    ensures
        map@.len() == 0 ==> rows_view(final(rows)@) == rows_view(old(rows)@) && logs_view(final(logs)@) == logs_view(old(logs)@),
        map@.len() > 0 ==> rows_view(final(rows)@) == rows_view(old(rows)@).map_values(|r: RowView| row_with_ie(r, pairs_view(map@), settings.chk_ie_sped_padrao)),
        map@.len() > 0 ==> logs_view(final(logs)@) == log_after(logs_view(old(logs)@), ie_log_items(rows_view(old(rows)@), pairs_view(map@), settings.chk_ie_sped_padrao, now@)),
{
    if map.len() == 0 {
        return;
    }
    let ghost ov = rows_view(rows@);
    let ghost mv = pairs_view(map@);
    let ghost lv0 = logs_view(logs@);
    let forced = settings.chk_ie_sped_padrao;
    let mut out: Vec<NfeFaturasRow> = Vec::new();
    for i in 0..rows.len()
        invariant
            ov == rows_view(rows@),
            mv == pairs_view(map@),
            forced == settings.chk_ie_sped_padrao,
            out@.len() == i,
            forall|k: int| 0 <= k < i ==> row_view(#[trigger] out@[k]) == row_with_ie(ov[k], mv, forced),
            logs_view(logs@) == log_after(lv0, ie_log_items(ov.take(i as int), mv, forced, now@)),
    {
        proof {
            assert(ov.take(i + 1).drop_last() =~= ov.take(i as int));
            assert(ov.take(i + 1).last() == row_view(rows@[i as int]));
        }
        let mut row = copy_row(&rows[i]);
        let ghost r0 = ov[i as int];
        let ghost before = logs_view(logs@);
        assert(row_view(row) == r0);
        let doc = only_digits_chars(&chars_of(row.cnpj_cpf.as_str()));
        if doc.len() == 11 || doc.len() == 14 {
            match lookup_pair(map, &doc) {
                Some(k) => {
                    let ie_sped = &map[k].1;
                    let ie_xml = only_alnum_upper_chars(&chars_of(row.ie.as_str()));
                    let sped_c = chars_of(ie_sped.as_str());
                    let replace = forced || ie_xml.len() == 0 || only_digits_chars(&ie_xml).len() != only_digits_chars(
                        &sped_c,
                    ).len();
                    if replace && !chars_eq(&ie_xml, &sped_c) {
                        let mut meta: Vec<char> = Vec::new();
                        append_str(&mut meta, "chave ");
                        append_str(&mut meta, row.chave.as_str());
                        append_str(&mut meta, " | NF ");
                        append_str(&mut meta, row.nf_numero.as_str());
                        append_str(&mut meta, " | CNPJ ");
                        append_chars(&mut meta, &doc);
                        append_str(&mut meta, " | IE xml ");
                        if ie_xml.len() == 0 {
                            append_str(&mut meta, "(vazio)");
                        } else {
                            append_chars(&mut meta, &ie_xml);
                        }
                        append_str(&mut meta, " -> IE sped ");
                        append_str(&mut meta, ie_sped.as_str());
                        proof {
                            assert(ie_from_sped(r0, mv, forced) == Some(ie_sped@));
                            assert(meta@ =~= ie_log_meta(r0, ie_sped@));
                        }
                        row.ie = copy_string(ie_sped);
                        log_push(logs, now, "info", "IE ajustada via SPED 0150", Some(string_of(&meta)));
                        proof {
                            let it = (now@, "info"@, "IE ajustada via SPED 0150"@, Some(ie_log_meta(r0, ie_sped@)));
                            assert(ie_log_items(ov.take(i + 1), mv, forced, now@) == ie_log_items(ov.take(i as int), mv, forced, now@).push(it));
                            assert(logs_view(logs@) == push_front(before, it));
                            let items = ie_log_items(ov.take(i as int), mv, forced, now@);
                            assert(items.push(it).drop_last() =~= items);
                            assert(log_after(lv0, items.push(it)) == push_front(log_after(lv0, items), it));
                        }
                    } else {
                        proof {
                            assert(ie_from_sped(r0, mv, forced) is None);
                        }
                    }
                },
                None => {},
            }
        }
        proof {
            if ie_from_sped(r0, mv, forced) is None {
                assert(ie_log_items(ov.take(i + 1), mv, forced, now@) == ie_log_items(ov.take(i as int), mv, forced, now@));
                assert(logs_view(logs@) == before);
            }
        }
        out.push(row);
    }
    proof {
        assert(ov.take(ov.len() as int) =~= ov);
        assert(rows_view(out@) =~= ov.map_values(|r: RowView| row_with_ie(r, mv, forced)));
    }
    *rows = out;
}

// ---------------------------------------------------------------------------
// The branch CNPJ
// ---------------------------------------------------------------------------

/// The first branch CNPJ of fourteen digits among the rows read from XML.
pub open spec fn branch_from_rows(rows: Seq<RowView>, j: int) -> Option<Seq<char>>
    decreases rows.len() - j,
{
    if j < 0 || j >= rows.len() {
        None
    } else if !rows[j].2.1 && digits(rows[j].0.1).len() == 14 {
        Some(digits(rows[j].0.1))
    } else {
        branch_from_rows(rows, j + 1)
    }
}

/// The CNPJ of the first `0000` record with fourteen digits in it.
pub open spec fn branch_from_lines(lines: Seq<Seq<char>>, j: int) -> Option<Seq<char>>
    decreases lines.len() - j,
{
    if j < 0 || j >= lines.len() {
        None
    } else {
        let f = bar_fields(lines[j]);
        if starts_with(trim(lines[j]), "|0000|"@) && field_at(f, 0) == "0000"@ && digits(field_at(f, 5)).len()
            == 14 {
            Some(digits(field_at(f, 5)))
        } else {
            branch_from_lines(lines, j + 1)
        }
    }
}

pub open spec fn branch_from_files(files: Seq<(Seq<char>, Seq<char>)>, j: int) -> Option<Seq<char>>
    decreases files.len() - j,
{
    if j < 0 || j >= files.len() {
        None
    } else {
        match branch_from_lines(lines_of(files[j].1), 0) {
            Some(c) => Some(c),
            None => branch_from_files(files, j + 1),
        }
    }
}

/// The branch CNPJ: from the XML rows, else from the SPED headers.
pub open spec fn branch_guess(rows: Seq<RowView>, files: Seq<(Seq<char>, Seq<char>)>) -> Option<Seq<char>> {
    match branch_from_rows(rows, 0) {
        Some(c) => Some(c),
        None => branch_from_files(files, 0),
    }
}

fn branch_in_text(text: &str) -> (r: Option<Vec<char>>)
    ensures
        match r {
            Some(c) => branch_from_lines(lines_of(text@), 0) == Some(c@),
            None => branch_from_lines(lines_of(text@), 0) is None,
        },
{
    let v = chars_of(text);
    let lines = lines_chars(&v);
    let ghost lv = lines_of(text@);
    let tag = chars_of("|0000|");
    let p0000 = chars_of("0000");
    for i in 0..lines.len()
        invariant
            lines@.len() == lv.len(),
            forall|k: int| 0 <= k < lines@.len() ==> (#[trigger] lines@[k])@ == lv[k],
            tag@ == "|0000|"@,
            p0000@ == "0000"@,
            lv == lines_of(text@),
            branch_from_lines(lv, 0) == branch_from_lines(lv, i as int),
    {
        let line = &lines[i];
        let t = trim_chars(line);
        let f = bar_fields_of(line);
        let f0 = chars_of(field_of(&f, 0).as_str());
        let cnpj = only_digits_chars(&chars_of(field_of(&f, 5).as_str()));
        proof {
            assert(lv[i as int] == line@);
            assert(f0@ == field_at(bar_fields(lv[i as int]), 0));
            assert(cnpj@ == digits(field_at(bar_fields(lv[i as int]), 5)));
        }
        if starts_with_chars(&t, &tag) && chars_eq(&f0, &p0000) && cnpj.len() == 14 {
            return Some(cnpj);
        }
    }
    None
}

/// Guesses the branch CNPJ (see `branch_guess`).
pub fn guess_cnpj_filial(rows: &Vec<NfeFaturasRow>, sped_files: &Vec<NamedText>) -> (r: Option<String>)
    ensures
        match r {
            Some(c) => branch_guess(rows_view(rows@), named_view(sped_files@)) == Some(c@),
            None => branch_guess(rows_view(rows@), named_view(sped_files@)) is None,
        },
{
    let ghost rv = rows_view(rows@);
    let ghost fv = named_view(sped_files@);
    for i in 0..rows.len()
        invariant
            rv == rows_view(rows@),
            branch_from_rows(rv, 0) == branch_from_rows(rv, i as int),
    {
        assert(rv[i as int] == row_view(rows@[i as int]));
        if !rows[i].legado {
            let dig = only_digits_chars(&chars_of(rows[i].cnpj_filial.as_str()));
            if dig.len() == 14 {
                return Some(string_of(&dig));
            }
        }
    }
    for j in 0..sped_files.len()
        invariant
            fv == named_view(sped_files@),
            rv == rows_view(rows@),
            branch_from_rows(rv, 0) is None,
            branch_from_files(fv, 0) == branch_from_files(fv, j as int),
    {
        assert(fv[j as int].1 == sped_files@[j as int].text@);
        match branch_in_text(sped_files[j].text.as_str()) {
            Some(c) => {
                proof {
                    assert(branch_from_files(fv, j as int) == Some(c@));
                    assert(branch_guess(rv, fv) == Some(c@));
                }
                return Some(string_of(&c));
            },
            None => {},
        }
    }
    None
}

} // verus!
