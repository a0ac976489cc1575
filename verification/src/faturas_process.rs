//! Processing a selection of invoice inputs once they are read: sorting
//! them into XMLs and SPED files, indexing the SPED data, reading the
//! invoices of each XML and matching the rows with the SPED data; and the
//! import of a legacy file.
use vstd::prelude::*;

use crate::faturas::{
    meta_view, metas_view, named_view, row_view, rows_view, MetaView, NamedText, NfeFaturasCounts,
    NfeFaturasLegacyPreview, NfeFaturasLegacyResult, NfeFaturasLogItem, NfeFaturasProcessResult, NfeFaturasRow,
    NfeFaturasSettings, NfeMeta, RowView,
};
use crate::faturas_sped::{
    apply_sped_0150_ie_to_rows, apply_sped_c100_to_rows, c100_items, c100_view, guess_cnpj_filial, has_entry,
    ie_log_items, p0150_items, pairs_view, parse_sped_0150, parse_sped_c100, put_last, put_pair, row_with_c100,
    row_with_ie, C100View, SpedC100Item,
};
use crate::faturas_text::{log_after, log_push, logs_view, push_front, sped_like, xml_like, looks_like_sped, looks_like_xml, LogView};
use crate::nfe_invoice::{nfe_reading, parse_nfe_meta_and_rows, reading_view};
use crate::text::{
    append_chars, append_str, chars_eq, chars_of, copy_string, decimal, decimal_chars, lines_of, str_eq,
    string_of,
};
use crate::xml_tree::{xml_document, XmlNodeView};

verus! {

broadcast use vstd::string::group_string_axioms;

// ---------------------------------------------------------------------------
// Decoding bytes
// ---------------------------------------------------------------------------

/// The message `String::from_utf8` gives for bytes that are not UTF-8.
pub uninterp spec fn utf8_error_text(bytes: Seq<u8>) -> Seq<char>;

/// Decodes bytes with `String::from_utf8`: the text when the bytes are
/// valid UTF-8 (as vstd's `valid_utf8` and `decode_utf8` describe it),
/// else the error's message.
#[verifier::external_body]
pub(crate) fn utf8_text(bytes: &Vec<u8>) -> (r: Result<String, String>)
    ensures
        r is Ok <==> vstd::utf8::valid_utf8(bytes@),
        r matches Ok(s) ==> s@ == vstd::utf8::decode_utf8(bytes@),
        r matches Err(e) ==> e@ == utf8_error_text(bytes@),
{
    String::from_utf8(bytes.clone()).map_err(|e| e.to_string())
}

/// Each byte as the character of the same number (Latin-1).
pub open spec fn latin1(bytes: Seq<u8>) -> Seq<char> {
    bytes.map_values(|b: u8| b as char)
}

/// The text of a file: UTF-8 when valid, else Latin-1.
pub open spec fn decoded(bytes: Seq<u8>) -> Seq<char> {
    if vstd::utf8::valid_utf8(bytes) {
        vstd::utf8::decode_utf8(bytes)
    } else {
        latin1(bytes)
    }
}

/// Reads the text of a file's bytes (see `decoded`).
pub fn decode_text(bytes: &Vec<u8>) -> (r: String)
    ensures
        r@ == decoded(bytes@),
{
    match utf8_text(bytes) {
        Ok(s) => s,
        Err(_) => {
            let mut out: Vec<char> = Vec::new();
            for i in 0..bytes.len()
                invariant
                    out@ == latin1(bytes@.take(i as int)),
            {
                let c = bytes[i] as char;
                out.push(c);
                proof {
                    assert(latin1(bytes@.take(i + 1)) =~= latin1(bytes@.take(i as int)).push(c));
                }
            }
            proof {
                assert(bytes@.take(bytes@.len() as int) =~= bytes@);
            }
            string_of(&out)
        },
    }
}

// ---------------------------------------------------------------------------
// Sorting the inputs
// ---------------------------------------------------------------------------

/// An input once read: its name, its kind by name and its text.
pub struct VirtualEntry {
    pub name: String,
    pub kind: String,
    pub text: String,
}

pub type EntryView = (Seq<char>, Seq<char>, Seq<char>);

pub open spec fn entries_view(v: Seq<VirtualEntry>) -> Seq<EntryView> {
    v.map_values(|e: VirtualEntry| (e.name@, e.kind@, e.text@))
}

/// The kind of an input: by its name, else by its content.
pub open spec fn effective_kind(e: EntryView) -> Seq<char> {
    if e.1 == "unknown"@ {
        if xml_like(e.2) {
            "xml"@
        } else if sped_like(e.2) {
            "sped"@
        } else {
            "unknown"@
        }
    } else {
        e.1
    }
}

/// The inputs of a kind, as name and text, in order.
pub open spec fn inputs_of(es: Seq<EntryView>, kind: Seq<char>) -> Seq<(Seq<char>, Seq<char>)>
    decreases es.len(),
{
    if es.len() == 0 {
        seq![]
    } else if effective_kind(es.last()) == kind {
        inputs_of(es.drop_last(), kind).push((es.last().0, es.last().2))
    } else {
        inputs_of(es.drop_last(), kind)
    }
}

/// The warnings of the inputs of no known kind.
pub open spec fn ignored_items(es: Seq<EntryView>, now: Seq<char>) -> Seq<LogView>
    decreases es.len(),
{
    if es.len() == 0 {
        seq![]
    } else {
        let k = effective_kind(es.last());
        if k != "xml"@ && k != "sped"@ {
            ignored_items(es.drop_last(), now).push(
                (now, "warn"@, "Arquivo ignorado (tipo não reconhecido)"@, Some(es.last().0)),
            )
        } else {
            ignored_items(es.drop_last(), now)
        }
    }
}

// ---------------------------------------------------------------------------
// Indexing the SPED files
// ---------------------------------------------------------------------------

/// Entries added to a map whose first entry of each key stays.
pub open spec fn merge_first<V>(acc: Seq<(Seq<char>, V)>, items: Seq<(Seq<char>, V)>) -> Seq<(Seq<char>, V)>
    decreases items.len(),
{
    if items.len() == 0 {
        acc
    } else {
        let r = merge_first(acc, items.drop_last());
        if has_entry(r, items.last().0) {
            r
        } else {
            r.push(items.last())
        }
    }
}

/// Entries put in a map whose last entry of each key stays.
pub open spec fn merge_last<V>(acc: Seq<(Seq<char>, V)>, items: Seq<(Seq<char>, V)>) -> Seq<(Seq<char>, V)>
    decreases items.len(),
{
    if items.len() == 0 {
        acc
    } else {
        put_last(merge_last(acc, items.drop_last()), items.last())
    }
}

/// The notes of all SPED files by key: the first file's record stays.
pub open spec fn all_c100(files: Seq<(Seq<char>, Seq<char>)>) -> Seq<(Seq<char>, C100View)>
    decreases files.len(),
{
    if files.len() == 0 {
        seq![]
    } else {
        merge_first(all_c100(files.drop_last()), c100_items(lines_of(files.last().1)))
    }
}

/// The registrations of all SPED files by document: the last one stays.
pub open spec fn all_0150(files: Seq<(Seq<char>, Seq<char>)>) -> Seq<(Seq<char>, Seq<char>)>
    decreases files.len(),
{
    if files.len() == 0 {
        seq![]
    } else {
        merge_last(all_0150(files.drop_last()), p0150_items(lines_of(files.last().1)))
    }
}

/// The log entries of the SPED indexes.
pub open spec fn index_items(files: Seq<(Seq<char>, Seq<char>)>, now: Seq<char>) -> Seq<LogView> {
    let c = all_c100(files);
    let p = all_0150(files);
    (if c.len() > 0 {
        seq![(now, "info"@, "SPED (C100) indexado"@, Some("chaves: "@ + decimal(c.len())))]
    } else {
        seq![]
    }) + (if p.len() > 0 {
        seq![(now, "info"@, "SPED (0150) indexado"@, Some("docs: "@ + decimal(p.len())))]
    } else {
        seq![]
    })
}

// ---------------------------------------------------------------------------
// Reading the XMLs
// ---------------------------------------------------------------------------

/// What reading an XML input gives.
pub open spec fn xml_reading(text: Seq<char>, name: Seq<char>, settings: NfeFaturasSettings) -> Result<(MetaView, Seq<RowView>), Seq<char>> {
    match xml_document(text) {
        Err(e) => Err(e),
        Ok(ns) => nfe_reading(ns, name, settings),
    }
}

/// The invoice data of the XML inputs that could be read.
pub open spec fn xml_metas(xs: Seq<(Seq<char>, Seq<char>)>, settings: NfeFaturasSettings) -> Seq<MetaView>
    decreases xs.len(),
{
    if xs.len() == 0 {
        seq![]
    } else {
        match xml_reading(xs.last().1, xs.last().0, settings) {
            Ok((m, _)) => xml_metas(xs.drop_last(), settings).push(m),
            Err(_) => xml_metas(xs.drop_last(), settings),
        }
    }
}

/// The rows of the XML inputs, input after input.
pub open spec fn xml_rows(xs: Seq<(Seq<char>, Seq<char>)>, settings: NfeFaturasSettings) -> Seq<RowView>
    decreases xs.len(),
{
    if xs.len() == 0 {
        seq![]
    } else {
        match xml_reading(xs.last().1, xs.last().0, settings) {
            Ok((_, rows)) => xml_rows(xs.drop_last(), settings) + rows,
            Err(_) => xml_rows(xs.drop_last(), settings),
        }
    }
}

/// The log entries of reading the XML inputs: errors, and notes without
/// rows.
pub open spec fn xml_items(xs: Seq<(Seq<char>, Seq<char>)>, settings: NfeFaturasSettings, now: Seq<char>) -> Seq<LogView>
    decreases xs.len(),
{
    if xs.len() == 0 {
        seq![]
    } else {
        let prev = xml_items(xs.drop_last(), settings, now);
        let name = xs.last().0;
        match xml_reading(xs.last().1, name, settings) {
            Ok((_, rows)) => if rows.len() == 0 {
                prev.push(
                    (now, "warn"@, "XML sem duplicatas (ignorado, a menos que opção esteja marcada)"@, Some(name)),
                )
            } else {
                prev
            },
            Err(e) => prev.push((now, "error"@, "Erro ao processar XML"@, Some(name + " | "@ + e))),
        }
    }
}

/// The rows of a selection, matched with the SPED notes and participants.
pub open spec fn selection_rows(es: Seq<EntryView>, settings: NfeFaturasSettings) -> Seq<RowView> {
    let files = inputs_of(es, "sped"@);
    let base = xml_rows(inputs_of(es, "xml"@), settings).map_values(
        |r: RowView| row_with_c100(r, all_c100(files), settings.chk_usar_sped),
    );
    if all_0150(files).len() > 0 {
        base.map_values(|r: RowView| row_with_ie(r, all_0150(files), settings.chk_ie_sped_padrao))
    } else {
        base
    }
}

/// The log entries of processing a selection, oldest first.
pub open spec fn selection_items(es: Seq<EntryView>, settings: NfeFaturasSettings, now: Seq<char>) -> Seq<LogView> {
    let files = inputs_of(es, "sped"@);
    let base = xml_rows(inputs_of(es, "xml"@), settings).map_values(
        |r: RowView| row_with_c100(r, all_c100(files), settings.chk_usar_sped),
    );
    ignored_items(es, now) + index_items(files, now) + xml_items(inputs_of(es, "xml"@), settings, now) + if all_0150(
        files,
    ).len() > 0 {
        ie_log_items(base, all_0150(files), settings.chk_ie_sped_padrao, now)
    } else {
        seq![]
    }
}

proof fn lemma_log_after_append(log: Seq<LogView>, a: Seq<LogView>, b: Seq<LogView>)
    ensures
        log_after(log, a + b) == log_after(log_after(log, a), b),
    decreases b.len(),
{
    if b.len() == 0 {
        assert(a + b =~= a);
    } else {
        lemma_log_after_append(log, a, b.drop_last());
        assert((a + b).drop_last() =~= a + b.drop_last());
        assert((a + b).last() == b.last());
    }
}

fn kind_of_entry(e: &VirtualEntry) -> (r: String)
    ensures
        r@ == effective_kind((e.name@, e.kind@, e.text@)),
{
    if str_eq(e.kind.as_str(), "unknown") {
        if looks_like_xml(e.text.as_str()) {
            crate::text::str_to_string("xml")
        } else if looks_like_sped(e.text.as_str()) {
            crate::text::str_to_string("sped")
        } else {
            crate::text::str_to_string("unknown")
        }
    } else {
        copy_string(&e.kind)
    }
}

fn merge_c100(acc: &mut Vec<(String, SpedC100Item)>, keys: &mut Vec<Vec<char>>, items: Vec<(String, SpedC100Item)>)
    requires
        old(keys)@.len() == old(acc)@.len(),
        forall|k: int| 0 <= k < old(keys)@.len() ==> (#[trigger] old(keys)@[k])@ == old(acc)@[k].0@,
    ensures
        c100_view(final(acc)@) == merge_first(c100_view(old(acc)@), c100_view(items@)),
        final(keys)@.len() == final(acc)@.len(),
        forall|k: int| 0 <= k < final(keys)@.len() ==> (#[trigger] final(keys)@[k])@ == final(acc)@[k].0@,
{
    let ghost a0 = c100_view(acc@);
    let ghost iv = c100_view(items@);
    for i in 0..items.len()
        invariant
            iv == c100_view(items@),
            c100_view(acc@) == merge_first(a0, iv.take(i as int)),
            keys@.len() == acc@.len(),
            forall|k: int| 0 <= k < keys@.len() ==> (#[trigger] keys@[k])@ == acc@[k].0@,
    {
        proof {
            assert(iv.take(i + 1).drop_last() =~= iv.take(i as int));
            assert(iv.take(i + 1).last() == iv[i as int]);
        }
        let key = chars_of(items[i].0.as_str());
        let ghost cv = c100_view(acc@);
        let mut present = false;
        for k in 0..keys.len()
            invariant
                keys@.len() == acc@.len(),
                forall|j: int| 0 <= j < keys@.len() ==> (#[trigger] keys@[j])@ == acc@[j].0@,
                cv == c100_view(acc@),
                present == exists|j: int| 0 <= j < k && cv[j].0 == key@,
        {
            proof {
                assert(cv[k as int].0 == keys@[k as int]@);
            }
            if chars_eq(&keys[k], &key) {
                present = true;
            }
        }
        if !present {
            let item = (copy_string(&items[i].0), SpedC100Item { dt_escr: copy_string(&items[i].1.dt_escr), desdob: items[i].1.desdob });
            let ghost prev = acc@;
            acc.push(item);
            keys.push(key);
            proof {
                assert(c100_view(acc@) =~= c100_view(prev).push(iv[i as int]));
            }
        }
    }
    proof {
        assert(iv.take(items@.len() as int) =~= iv);
    }
}

fn merge_0150(acc: &mut Vec<(String, String)>, items: Vec<(String, String)>)
    ensures
        pairs_view(final(acc)@) == merge_last(pairs_view(old(acc)@), pairs_view(items@)),
{
    let ghost a0 = pairs_view(acc@);
    let ghost iv = pairs_view(items@);
    for i in 0..items.len()
        invariant
            iv == pairs_view(items@),
            pairs_view(acc@) == merge_last(a0, iv.take(i as int)),
    {
        proof {
            assert(iv.take(i + 1).drop_last() =~= iv.take(i as int));
            assert(iv.take(i + 1).last() == iv[i as int]);
        }
        put_pair(acc, copy_string(&items[i].0), copy_string(&items[i].1));
    }
    proof {
        assert(iv.take(items@.len() as int) =~= iv);
    }
}

fn count_text(label: &str, n: usize) -> (r: String)
    ensures
        r@ == label@ + decimal(n as nat),
{
    let mut v = chars_of(label);
    let d = decimal_chars(n as u128);
    append_chars(&mut v, &d);
    string_of(&v)
}

/// Processes the inputs of a selection once read.  `logs` holds what was
/// logged while collecting them; `now` stamps the new entries.
pub fn process_selection_entries(
    entries: Vec<VirtualEntry>,
    counts: NfeFaturasCounts,
    settings: &NfeFaturasSettings,
    logs: Vec<NfeFaturasLogItem>,
    now: &str,
) -> (r: NfeFaturasProcessResult)
    ensures
        r.counts == counts,
        named_view(r.sped_files@) == inputs_of(entries_view(entries@), "sped"@),
        metas_view(r.nfe_metas@) == xml_metas(inputs_of(entries_view(entries@), "xml"@), *settings),
        rows_view(r.rows@) == selection_rows(entries_view(entries@), *settings),
        logs_view(r.logs@) == log_after(logs_view(logs@), selection_items(entries_view(entries@), *settings, now@)),
{
    let ghost ev = entries_view(entries@);
    let ghost lv0 = logs_view(logs@);
    let mut logs = logs;
    let mut sped_files: Vec<NamedText> = Vec::new();
    let mut xml_inputs: Vec<NamedText> = Vec::new();
    proof {
        assert(named_view(sped_files@) =~= inputs_of(ev.take(0), "sped"@));
        assert(ev.take(0) =~= Seq::<EntryView>::empty());
    }
    for i in 0..entries.len()
        invariant
            ev == entries_view(entries@),
            named_view(sped_files@) == inputs_of(ev.take(i as int), "sped"@),
            named_view(xml_inputs@) == inputs_of(ev.take(i as int), "xml"@),
            logs_view(logs@) == log_after(lv0, ignored_items(ev.take(i as int), now@)),
    {
        proof {
            assert(ev.take(i + 1).drop_last() =~= ev.take(i as int));
            assert(ev.take(i + 1).last() == ev[i as int]);
            reveal_strlit("xml");
            reveal_strlit("sped");
            assert("xml"@.len() != "sped"@.len());
        }
        let e = &entries[i];
        let kind = kind_of_entry(e);
        let ghost items0 = ignored_items(ev.take(i as int), now@);
        if str_eq(kind.as_str(), "xml") {
            let ghost prev = xml_inputs@;
            xml_inputs.push(NamedText { name: copy_string(&e.name), text: copy_string(&e.text) });
            proof {
                assert(named_view(xml_inputs@) =~= named_view(prev).push((ev[i as int].0, ev[i as int].2)));
            }
        } else if str_eq(kind.as_str(), "sped") {
            let ghost prev = sped_files@;
            sped_files.push(NamedText { name: copy_string(&e.name), text: copy_string(&e.text) });
            proof {
                assert(named_view(sped_files@) =~= named_view(prev).push((ev[i as int].0, ev[i as int].2)));
            }
        } else {
            log_push(&mut logs, now, "warn", "Arquivo ignorado (tipo não reconhecido)", Some(copy_string(&e.name)));
            proof {
                let it = (now@, "warn"@, "Arquivo ignorado (tipo não reconhecido)"@, Some(ev[i as int].0));
                assert(items0.push(it).drop_last() =~= items0);
            }
        }
    }
    proof {
        assert(ev.take(entries@.len() as int) =~= ev);
    }
    let ghost files = named_view(sped_files@);
    let ghost log1 = logs_view(logs@);
    let mut sped_by_chave: Vec<(String, SpedC100Item)> = Vec::new();
    let mut chave_keys: Vec<Vec<char>> = Vec::new();
    let mut sped_0150: Vec<(String, String)> = Vec::new();
    proof {
        assert(files.take(0) =~= Seq::<(Seq<char>, Seq<char>)>::empty());
    }
    for j in 0..sped_files.len()
        invariant
            files == named_view(sped_files@),
            c100_view(sped_by_chave@) == all_c100(files.take(j as int)),
            pairs_view(sped_0150@) == all_0150(files.take(j as int)),
            chave_keys@.len() == sped_by_chave@.len(),
            forall|k: int| 0 <= k < chave_keys@.len() ==> (#[trigger] chave_keys@[k])@ == sped_by_chave@[k].0@,
    {
        proof {
            assert(files.take(j + 1).drop_last() =~= files.take(j as int));
            assert(files.take(j + 1).last() == (sped_files@[j as int].name@, sped_files@[j as int].text@));
        }
        let c100 = parse_sped_c100(sped_files[j].text.as_str());
        merge_c100(&mut sped_by_chave, &mut chave_keys, c100);
        let p0150 = parse_sped_0150(sped_files[j].text.as_str());
        merge_0150(&mut sped_0150, p0150);
    }
    proof {
        assert(files.take(sped_files@.len() as int) =~= files);
    }
    let ghost c = all_c100(files);
    let ghost p = all_0150(files);
    let ghost a = if c.len() > 0 {
        seq![(now@, "info"@, "SPED (C100) indexado"@, Some("chaves: "@ + decimal(c.len())))]
    } else {
        seq![]
    };
    let ghost b = if p.len() > 0 {
        seq![(now@, "info"@, "SPED (0150) indexado"@, Some("docs: "@ + decimal(p.len())))]
    } else {
        seq![]
    };
    assert(c.len() == sped_by_chave@.len());
    assert(p.len() == sped_0150@.len());
    if sped_by_chave.len() > 0 {
        log_push(&mut logs, now, "info", "SPED (C100) indexado", Some(count_text("chaves: ", sped_by_chave.len())));
        proof {
            assert(a.drop_last() =~= Seq::<LogView>::empty());
            assert(log_after(log1, a.drop_last()) == log1);
        }
    }
    proof {
        assert(logs_view(logs@) == log_after(log1, a));
    }
    let ghost log15 = logs_view(logs@);
    if sped_0150.len() > 0 {
        log_push(&mut logs, now, "info", "SPED (0150) indexado", Some(count_text("docs: ", sped_0150.len())));
        proof {
            assert(b.drop_last() =~= Seq::<LogView>::empty());
            assert(log_after(log15, b.drop_last()) == log15);
        }
    }
    proof {
        assert(logs_view(logs@) == log_after(log15, b));
        lemma_log_after_append(log1, a, b);
        assert(index_items(files, now@) == a + b);
        assert(logs_view(logs@) == log_after(log1, index_items(files, now@)));
    }
    let ghost log2 = logs_view(logs@);
    let ghost xs = named_view(xml_inputs@);
    let mut rows: Vec<NfeFaturasRow> = Vec::new();
    let mut nfe_metas: Vec<NfeMeta> = Vec::new();
    proof {
        assert(xs.take(0) =~= Seq::<(Seq<char>, Seq<char>)>::empty());
    }
    for k in 0..xml_inputs.len()
        invariant
            xs == named_view(xml_inputs@),
            rows_view(rows@) == xml_rows(xs.take(k as int), *settings),
            metas_view(nfe_metas@) == xml_metas(xs.take(k as int), *settings),
            logs_view(logs@) == log_after(log2, xml_items(xs.take(k as int), *settings, now@)),
    {
        proof {
            assert(xs.take(k + 1).drop_last() =~= xs.take(k as int));
            assert(xs.take(k + 1).last() == (xml_inputs@[k as int].name@, xml_inputs@[k as int].text@));
        }
        let input = &xml_inputs[k];
        let ghost items0 = xml_items(xs.take(k as int), *settings, now@);
        match parse_nfe_meta_and_rows(input.text.as_str(), input.name.as_str(), settings) {
            Ok((meta, parsed)) => {
                let ghost pm = metas_view(nfe_metas@);
                let ghost pr = rows_view(rows@);
                let ghost mv = meta_view(meta);
                let ghost rv = rows_view(parsed@);
                nfe_metas.push(meta);
                proof {
                    assert(metas_view(nfe_metas@) =~= pm.push(mv));
                }
                if parsed.len() == 0 {
                    log_push(&mut logs, now, "warn", "XML sem duplicatas (ignorado, a menos que opção esteja marcada)", Some(copy_string(&input.name)));
                    proof {
                        let it = (now@, "warn"@, "XML sem duplicatas (ignorado, a menos que opção esteja marcada)"@, Some(input.name@));
                        assert(items0.push(it).drop_last() =~= items0);
                        assert(rv =~= Seq::<RowView>::empty());
                        assert(pr + rv =~= pr);
                    }
                } else {
                    let mut parsed = parsed;
                    rows.append(&mut parsed);
                    proof {
                        assert(rows_view(rows@) =~= pr + rv);
                    }
                }
            },
            Err(e) => {
                let mut meta: Vec<char> = chars_of(input.name.as_str());
                append_str(&mut meta, " | ");
                append_str(&mut meta, e.as_str());
                log_push(&mut logs, now, "error", "Erro ao processar XML", Some(string_of(&meta)));
                proof {
                    let it = (now@, "error"@, "Erro ao processar XML"@, Some(input.name@ + " | "@ + e@));
                    assert(items0.push(it).drop_last() =~= items0);
                }
            },
        }
    }
    proof {
        assert(xs.take(xml_inputs@.len() as int) =~= xs);
    }
    let ghost log3 = logs_view(logs@);
    apply_sped_c100_to_rows(&mut rows, &sped_by_chave, settings);
    let ghost base = rows_view(rows@);
    apply_sped_0150_ie_to_rows(&mut rows, &sped_0150, settings, &mut logs, now);
    proof {
        let items = selection_items(ev, *settings, now@);
        let i1 = ignored_items(ev, now@);
        let i2 = index_items(files, now@);
        let i3 = xml_items(xs, *settings, now@);
        let i4 = if all_0150(files).len() > 0 {
            ie_log_items(base, all_0150(files), settings.chk_ie_sped_padrao, now@)
        } else {
            seq![]
        };
        assert(items == i1 + i2 + i3 + i4);
        assert(log2 == log_after(log1, i2));
        assert(log3 == log_after(log2, i3));
        lemma_log_after_append(lv0, i1, i2);
        lemma_log_after_append(lv0, i1 + i2, i3);
        lemma_log_after_append(lv0, i1 + i2 + i3, i4);
        if all_0150(files).len() == 0 {
            assert(log_after(log3, i4) == log3);
        }
    }
    NfeFaturasProcessResult { rows, counts, logs, sped_files, nfe_metas }
}


// ---------------------------------------------------------------------------
// Importing a legacy file
// ---------------------------------------------------------------------------

/// UTF-8 never takes fewer bytes than characters.
proof fn lemma_utf8_len(bytes: Seq<u8>)
    requires
        vstd::utf8::valid_utf8(bytes),
    ensures
        vstd::utf8::decode_utf8(bytes).len() <= bytes.len(),
    decreases bytes.len(),
{
    if bytes.len() > 0 {
        let n = vstd::utf8::length_of_first_scalar(bytes);
        assert(1 <= n <= bytes.len());
        let rest = vstd::utf8::pop_first_scalar(bytes);
        assert(rest.len() == bytes.len() - n);
        lemma_utf8_len(rest);
    }
}

/// A decoded text has no more characters than its file has bytes.
pub proof fn lemma_decoded_len(bytes: Seq<u8>)
    ensures
        decoded(bytes).len() <= bytes.len(),
{
    if vstd::utf8::valid_utf8(bytes) {
        lemma_utf8_len(bytes);
    }
}

/// The branch CNPJ of an import: the digits of the one given, else the one
/// guessed from the rows and SPED files at hand, else none.
pub open spec fn auto_cnpj(given: Option<Seq<char>>, rows: Seq<RowView>, files: Seq<(Seq<char>, Seq<char>)>) -> Seq<char> {
    match given {
        Some(c) => crate::text::digits(c),
        None => match crate::faturas_sped::branch_guess(rows, files) {
            Some(c) => c,
            None => seq![],
        },
    }
}

/// An empty CNPJ counts as none.
pub open spec fn cnpj_option(c: Seq<char>) -> Option<Seq<char>> {
    if c.len() == 0 {
        None
    } else {
        Some(c)
    }
}

/// The name under which a legacy file is reported: its own, else `legado.txt`.
pub open spec fn legacy_file_name(name: Option<Seq<char>>) -> Seq<char> {
    match name {
        Some(n) => n,
        None => "legado.txt"@,
    }
}

/// Imports a legacy pipe file from its bytes: the text is decoded, the
/// branch CNPJ settled (`auto_cnpj`), and the file read as
/// `parse_legacy_pipe_file` reads it, into the rows, the preview and the
/// log of the import.
pub fn import_nfe_faturas_legacy(
    content: &Vec<u8>,
    file_name: Option<&str>,
    cnpj_filial: Option<&str>,
    conferir: bool,
    current_rows: &Vec<NfeFaturasRow>,
    sped_files: &Vec<NamedText>,
    nfe_metas: &Vec<NfeMeta>,
    now: &str,
) -> (r: NfeFaturasLegacyResult)
    requires
        content@.len() < usize::MAX / 8,
        forall|k: int| 0 <= k < nfe_metas@.len() ==> (#[trigger] nfe_metas@[k]).dup_list@.len() < 0x100_0000_0000_0000,
    ensures
        ({
            let text = decoded(content@);
            let name = legacy_file_name(crate::legacy_import::opt_str_view(file_name));
            let cnpj = cnpj_option(auto_cnpj(crate::legacy_import::opt_str_view(cnpj_filial), rows_view(current_rows@), named_view(sped_files@)));
            let divs = crate::legacy_import::import_divergences(text, conferir, named_view(sped_files@), metas_view(nfe_metas@));
            &&& rows_view(r.rows@) == crate::legacy_import::legacy_rows_of(text, name, cnpj)
            &&& r.preview.notas == crate::legacy_import::legacy_scan(text).1.len()
            &&& r.preview.parcelas == r.rows@.len()
            &&& r.preview.invalid_count == crate::legacy_import::legacy_scan(text).2
            &&& crate::sped::texts(r.preview.invalid_lines@) == crate::legacy_import::legacy_scan(text).3
            &&& (r.preview.warning_count as nat, crate::sped::texts(r.preview.warnings@)) == crate::legacy_import::final_warnings(text, name, cnpj)
            &&& r.preview.divergence_count == divs.len()
            &&& crate::sped::texts(r.preview.divergences@) == crate::legacy_import::first_thirty(divs)
            &&& logs_view(r.logs@) == if r.rows@.len() > 0 {
                seq![(now@, "info"@, "LEGADO importado"@, Some(crate::legacy_import::import_log_meta(name, r.preview.notas as nat, r.preview.parcelas as nat)))]
            } else {
                Seq::<LogView>::empty()
            }
        }),
{
    let mut logs: Vec<NfeFaturasLogItem> = Vec::new();
    let text = decode_text(content);
    proof {
        lemma_decoded_len(content@);
    }
    let auto: String = match cnpj_filial {
        Some(c) => crate::text::only_digits(c),
        None => match guess_cnpj_filial(current_rows, sped_files) {
            Some(c) => c,
            None => string_of(&Vec::new()),
        },
    };
    let name: &str = match file_name {
        Some(n) => n,
        None => "legado.txt",
    };
    let auto_chars = chars_of(auto.as_str());
    let cnpj: Option<&str> = if auto_chars.len() == 0 {
        None
    } else {
        Some(auto.as_str())
    };
    proof {
        assert(cnpj_option(auto@) == crate::legacy_import::opt_str_view(cnpj));
        assert(name@ == legacy_file_name(crate::legacy_import::opt_str_view(file_name)));
        assert(logs_view(logs@) =~= Seq::<LogView>::empty());
    }
    let stats = crate::legacy_import::parse_legacy_pipe_file(
        text.as_str(),
        name,
        conferir,
        cnpj,
        sped_files,
        nfe_metas,
        &mut logs,
        now,
    );
    match stats {
        Ok(st) => {
            proof {
                let it = (now@, "info"@, "LEGADO importado"@, Some(crate::legacy_import::import_log_meta(name@, st.notes as nat, st.parcelas as nat)));
                assert(push_front(Seq::<LogView>::empty(), it) =~= seq![it]);
            }
            NfeFaturasLegacyResult {
                rows: st.rows,
                preview: NfeFaturasLegacyPreview {
                    notas: st.notes,
                    parcelas: st.parcelas,
                    invalid_count: st.invalid_count,
                    invalid_lines: st.invalid_lines,
                    warning_count: st.warning_count,
                    warnings: st.warnings,
                    divergences: st.divergences,
                    divergence_count: st.divergence_count,
                },
                logs,
            }
        },
        Err(_) => {
            proof {
                assert(false);
            }
            NfeFaturasLegacyResult {
                rows: Vec::new(),
                preview: NfeFaturasLegacyPreview {
                    notas: 0,
                    parcelas: 0,
                    invalid_count: 0,
                    invalid_lines: Vec::new(),
                    warning_count: 0,
                    warnings: Vec::new(),
                    divergences: Vec::new(),
                    divergence_count: 0,
                },
                logs,
            }
        },
    }
}

} // verus!
