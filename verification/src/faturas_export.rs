//! The exports of the invoice tool: the SPED files updated with the
//! installments of the notes, and the rows for export.
use vstd::prelude::*;

use crate::faturas::{meta_view, metas_view, named_view, MetaView, NamedText, NfeFaturasRow, NfeFaturasSettings, NfeMeta};
use crate::faturas_c140::{
    build_c140_c141_lines, build_parcelas_for_c100, c140_lines, opts_view, parcels_for_c100, SpedExportOptions,
};
use crate::sped::texts;
use crate::sped_merge::{
    c100_keys, can_consolidate_sped_files, can_consolidate_spec, consolidate_sped_outputs, consolidate_spec,
    file_texts, payloads_view, sped_c100_requests, stats_view, update_sped_text_with_c140_c141, update_spec,
    request_view, C100Request, UpdateSpedStats, UpdatedSpedOutput,
};
use crate::text::{append_str, chars_of, copy_string, ends_with, str_eq, string_of};

verus! {

broadcast use vstd::string::group_string_axioms;

// ---------------------------------------------------------------------------
// The notes by key
// ---------------------------------------------------------------------------

/// The note of a key: the last one with that key.
pub open spec fn meta_for(metas: Seq<MetaView>, chave: Seq<char>) -> Option<MetaView>
    decreases metas.len(),
{
    if metas.len() == 0 {
        None
    } else if metas.last().0.0.len() > 0 && metas.last().0.0 == chave {
        Some(metas.last())
    } else {
        meta_for(metas.drop_last(), chave)
    }
}

fn meta_index(metas: &Vec<NfeMeta>, chave: &String) -> (r: Option<usize>)
    ensures
        match r {
            Some(k) => k < metas@.len() && meta_for(metas_view(metas@), chave@) == Some(meta_view(metas@[k as int])),
            None => meta_for(metas_view(metas@), chave@) is None,
        },
{
    let ghost mv = metas_view(metas@);
    let mut i: usize = metas.len();
    proof {
        assert(mv.take(metas@.len() as int) =~= mv);
    }
    while i > 0
        invariant
            i <= metas@.len(),
            mv == metas_view(metas@),
            meta_for(mv, chave@) == meta_for(mv.take(i as int), chave@),
        decreases i,
    {
        proof {
            assert(mv.take(i as int).drop_last() =~= mv.take(i - 1));
            assert(mv.take(i as int).last() == meta_view(metas@[i - 1]));
        }
        let m = &metas[i - 1];
        if !m.chave.as_str().is_empty() && str_eq(m.chave.as_str(), chave.as_str()) {
            return Some(i - 1);
        }
        i = i - 1;
    }
    None
}

// ---------------------------------------------------------------------------
// Updating a SPED file
// ---------------------------------------------------------------------------

/// The records for each `C100` group of a SPED text: none where the note
/// has no XML, else the records of its installments.
pub open spec fn sped_payloads(
    t: Seq<char>,
    o: (Seq<char>, nat, Seq<(Seq<char>, nat)>, i32, Seq<i32>, Seq<char>, Seq<char>),
    metas: Seq<MetaView>,
) -> Seq<Option<Seq<Seq<char>>>> {
    c100_keys(t).map_values(
        |k: (Seq<char>, Seq<char>, Seq<char>)|
            match meta_for(metas, k.0) {
                Some(m) => Some(c140_lines(m, parcels_for_c100(m, o, k.1, k.2), k.1)),
                None => None,
            },
    )
}

/// Builds the records of each `C100` group of a SPED text.
pub fn build_sped_payloads(sped_text: &str, opts: &SpedExportOptions, nfe_metas: &Vec<NfeMeta>) -> (r: Vec<Option<Vec<String>>>)
    requires
        forall|k: int| 0 <= k < nfe_metas@.len() ==> (#[trigger] nfe_metas@[k]).dup_list@.len() < 0x100_0000_0000_0000,
    ensures
        payloads_view(r@) == sped_payloads(sped_text@, opts_view(*opts), metas_view(nfe_metas@)),
{
    let reqs = sped_c100_requests(sped_text);
    let ghost kv = c100_keys(sped_text@);
    let ghost mv = metas_view(nfe_metas@);
    let mut out: Vec<Option<Vec<String>>> = Vec::new();
    for i in 0..reqs.len()
        invariant
            reqs@.map_values(|q: C100Request| request_view(q)) == kv,
            kv == c100_keys(sped_text@),
            mv == metas_view(nfe_metas@),
            forall|k: int| 0 <= k < nfe_metas@.len() ==> (#[trigger] nfe_metas@[k]).dup_list@.len() < 0x100_0000_0000_0000,
            out@.len() == i,
            forall|k: int| 0 <= k < i ==> #[trigger] payloads_view(out@)[k] == sped_payloads(sped_text@, opts_view(*opts), mv)[k],
    {
        let q = &reqs[i];
        proof {
            assert(kv[i as int] == request_view(*q));
            assert(reqs@.map_values(|q: C100Request| request_view(q)).len() == reqs@.len());
        }
        let ghost expect = sped_payloads(sped_text@, opts_view(*opts), mv)[i as int];
        let item = match meta_index(nfe_metas, &q.chave) {
            Some(k) => {
                let m = &nfe_metas[k];
                let ps = build_parcelas_for_c100(m, opts, q.dt_doc.as_str(), q.dt_es.as_str());
                let lines = build_c140_c141_lines(m, &ps, q.dt_doc.as_str());
                proof {
                    assert(expect == Some(texts(lines@)));
                }
                Some(lines)
            },
            None => {
                proof {
                    assert(expect is None);
                }
                None
            },
        };
        let ghost prev = out@;
        assert(forall|k: int| 0 <= k < i ==> #[trigger] payloads_view(prev)[k] == sped_payloads(sped_text@, opts_view(*opts), mv)[k]);
        out.push(item);
        proof {
            assert forall|k: int| 0 <= k < i + 1 implies #[trigger] payloads_view(out@)[k] == sped_payloads(
                sped_text@,
                opts_view(*opts),
                mv,
            )[k] by {
                if k < i {
                    assert(out@[k] == prev[k]);
                    assert(payloads_view(prev)[k] == sped_payloads(sped_text@, opts_view(*opts), mv)[k]);
                    assert(payloads_view(out@)[k] == payloads_view(prev)[k]);
                } else {
                    assert(payloads_view(out@)[k] == expect);
                }
            }
        }
    }
    proof {
        assert(payloads_view(out@) =~= sped_payloads(sped_text@, opts_view(*opts), mv));
    }
    out
}

/// A SPED text updated with the installment records of its notes.
pub open spec fn updated_sped(
    t: Seq<char>,
    o: (Seq<char>, nat, Seq<(Seq<char>, nat)>, i32, Seq<i32>, Seq<char>, Seq<char>),
    recriar: bool,
    metas: Seq<MetaView>,
) -> (Seq<char>, (nat, nat, nat, nat, nat)) {
    update_spec(t, recriar, sped_payloads(t, o, metas))
}

/// Updates a SPED text with the installment records of its notes.
pub fn update_sped_with_notes(sped_text: &str, opts: &SpedExportOptions, nfe_metas: &Vec<NfeMeta>) -> (r: UpdatedSpedOutput)
    requires
        forall|k: int| 0 <= k < nfe_metas@.len() ==> (#[trigger] nfe_metas@[k]).dup_list@.len() < 0x100_0000_0000_0000,
    ensures
        (r.text@, stats_view(r.stats)) == updated_sped(sped_text@, opts_view(*opts), opts.recriar, metas_view(nfe_metas@)),
{
    let payloads = build_sped_payloads(sped_text, opts, nfe_metas);
    match update_sped_text_with_c140_c141(sped_text, opts.recriar, &payloads) {
        Ok(o) => o,
        Err(_) => {
            proof {
                assert(false);
            }
            UpdatedSpedOutput { text: String::new(), stats: UpdateSpedStats { total: 0, updated: 0, ignored: 0, missing_xml: 0, existing: 0 } }
        },
    }
}

// ---------------------------------------------------------------------------
// Planning the SPED export
// ---------------------------------------------------------------------------

/// A file name that every platform reads as one plain component: not
/// empty, without `/`, `\\` or `:`, and neither `.` nor `..`.
pub open spec fn plain_file_name(s: Seq<char>) -> bool {
    &&& s.len() > 0
    &&& !crate::text::contains_char(s, '/')
    &&& !crate::text::contains_char(s, '\\')
    &&& !crate::text::contains_char(s, ':')
    &&& s != "."@
    &&& s != ".."@
}

/// The stem of a file name as std documents it: the whole name where it
/// has no `.` or only a leading one, else what comes before the last `.`.
pub open spec fn stem_of(s: Seq<char>) -> Seq<char> {
    let k = crate::money::last_index(s, '.');
    if k <= 0 {
        s
    } else {
        s.take(k)
    }
}

/// `Path::file_stem` of std: the file name without its extension.  How a
/// path splits into components depends on the platform, so the stem is
/// stated for plain paths (whose file name is their last `/`-separated
/// part everywhere) and for the empty path (no file name); of any other
/// path only that the stem, part of a file name, holds no `/`.
#[verifier::external_body]
pub(crate) fn path_file_stem(name: &str) -> (r: Option<String>)
    ensures
        r matches Some(s) ==> !crate::text::contains_char(s@, '/'),
        crate::files::plain_path(name@) ==> r.is_some() && r.unwrap()@ == stem_of(crate::files::last_segment(name@)),
        name@.len() == 0 ==> r.is_none(),
{
    std::path::Path::new(name).file_stem().and_then(|v| v.to_str()).map(|v| v.to_string())
}

/// The stem of a file name, `arquivo` where it has none; it holds no `/`.
pub fn file_stem(name: &str) -> (r: String)
    ensures
        !crate::text::contains_char(r@, '/'),
        plain_file_name(name@) ==> r@ == stem_of(name@),
        name@.len() == 0 ==> r@ == "arquivo"@,
{
    proof {
        if plain_file_name(name@) {
            crate::money::lemma_last_index_bounds(name@, '/');
            if crate::money::last_index(name@, '/') >= 0 {
                assert(name@[crate::money::last_index(name@, '/')] == '/');
            }
            assert(crate::files::last_segment(name@) =~= name@);
        }
    }
    match path_file_stem(name) {
        Some(s) => s,
        None => {
            proof {
                reveal_strlit("arquivo");
            }
            crate::text::str_to_string("arquivo")
        },
    }
}

/// The name of an updated SPED file ends in `_C140C141.txt`.
pub open spec fn output_name_ok(n: Seq<char>) -> bool {
    ends_with(n, "_C140C141.txt"@)
}

pub open spec fn pairs_of(v: Seq<(String, String)>) -> Seq<(Seq<char>, Seq<char>)> {
    v.map_values(|p: (String, String)| (p.0@, p.1@))
}

/// What is written: each updated file, the consolidated one, or both.
pub open spec fn final_outputs(outs: Seq<(Seq<char>, Seq<char>)>, mode: Seq<char>, can: bool) -> Seq<(Seq<char>, Seq<char>)> {
    if (mode == "consolidar"@ || mode == "misto"@) && can && outs.len() >= 2 {
        match consolidate_spec(outs.map_values(|p: (Seq<char>, Seq<char>)| p.1)) {
            Some(c) => if mode == "consolidar"@ {
                seq![c]
            } else {
                outs.push(c)
            },
            None => outs,
        }
    } else {
        outs
    }
}

/// Why an SPED export is refused, if it is.
pub open spec fn sped_export_refusal(settings: NfeFaturasSettings, n_sped: nat, n_rows: nat) -> Option<Seq<char>> {
    if settings.ctx_nota@ != "entrada"@ {
        Some("Exportação SPED só disponível para Entrada/Compra."@)
    } else if !settings.chk_incluir_faturas_sped {
        Some("Marque 'Incluir faturas no SPED' para gerar C140/C141."@)
    } else if n_sped == 0 {
        Some("Nenhum SPED carregado."@)
    } else if n_rows == 0 {
        Some("Nenhum dado de XML processado."@)
    } else {
        None
    }
}

/// The updated SPED files of an export.
pub struct SpedExportPlan {
    pub outputs: Vec<(String, String)>,
    pub final_outputs: Vec<(String, String)>,
}

/// Plans an SPED export: refused as `sped_export_refusal` says, else each
/// SPED file updated with the installment records of its notes, and what
/// is to be written by the multi-file mode.
pub fn plan_sped_export(
    rows: &Vec<NfeFaturasRow>,
    settings: &NfeFaturasSettings,
    sped_files: &Vec<NamedText>,
    nfe_metas: &Vec<NfeMeta>,
) -> (r: Result<SpedExportPlan, String>)
    requires
        forall|k: int| 0 <= k < nfe_metas@.len() ==> (#[trigger] nfe_metas@[k]).dup_list@.len() < 0x100_0000_0000_0000,
    ensures
        match sped_export_refusal(*settings, sped_files@.len(), rows@.len()) {
            Some(m) => r matches Err(e) && e@ == m,
            None => r matches Ok(p) && {
                let o = crate::faturas_c140::options_of(*settings);
                &&& p.outputs@.len() == sped_files@.len()
                &&& forall|k: int| 0 <= k < sped_files@.len() ==> output_name_ok((#[trigger] p.outputs@[k]).0@)
                    && p.outputs@[k].1@ == updated_sped(sped_files@[k].text@, o, settings.chk_recriar_c140_c141, metas_view(nfe_metas@)).0
                &&& pairs_of(p.final_outputs@) == final_outputs(
                    pairs_of(p.outputs@),
                    settings.sel_multi_sped_modo@,
                    settings.sel_multi_sped_modo@ != "atualizar_individual"@ && can_consolidate_spec(file_texts(sped_files@)),
                )
            },
        },
{
    if !str_eq(settings.ctx_nota.as_str(), "entrada") {
        return Err(crate::text::str_to_string("Exportação SPED só disponível para Entrada/Compra."));
    }
    if !settings.chk_incluir_faturas_sped {
        return Err(crate::text::str_to_string("Marque 'Incluir faturas no SPED' para gerar C140/C141."));
    }
    if sped_files.len() == 0 {
        return Err(crate::text::str_to_string("Nenhum SPED carregado."));
    }
    if rows.len() == 0 {
        return Err(crate::text::str_to_string("Nenhum dado de XML processado."));
    }
    let opts = SpedExportOptions::from_settings(settings);
    let mut outputs: Vec<(String, String, UpdateSpedStats)> = Vec::new();
    let mut pairs: Vec<(String, String)> = Vec::new();
    for i in 0..sped_files.len()
        invariant
            forall|k: int| 0 <= k < nfe_metas@.len() ==> (#[trigger] nfe_metas@[k]).dup_list@.len() < 0x100_0000_0000_0000,
            opts_view(opts) == crate::faturas_c140::options_of(*settings),
            opts.recriar == settings.chk_recriar_c140_c141,
            outputs@.len() == i,
            pairs@.len() == i,
            forall|k: int| 0 <= k < i ==> (#[trigger] pairs@[k]).0@ == outputs@[k].0@ && pairs@[k].1@ == outputs@[k].1@,
            forall|k: int| 0 <= k < i ==> output_name_ok((#[trigger] pairs@[k]).0@) && pairs@[k].1@ == updated_sped(
                sped_files@[k].text@,
                opts_view(opts),
                opts.recriar,
                metas_view(nfe_metas@),
            ).0,
    {
        let updated = update_sped_with_notes(sped_files[i].text.as_str(), &opts, nfe_metas);
        let mut name = chars_of(file_stem(sped_files[i].name.as_str()).as_str());
        append_str(&mut name, "_C140C141.txt");
        proof {
            assert(name@.skip(name@.len() - "_C140C141.txt"@.len()) =~= "_C140C141.txt"@);
        }
        let n = string_of(&name);
        outputs.push((copy_string(&n), copy_string(&updated.text), updated.stats));
        pairs.push((n, updated.text));
    }
    let mode = &settings.sel_multi_sped_modo;
    let can = if str_eq(mode.as_str(), "atualizar_individual") {
        false
    } else {
        can_consolidate_sped_files(sped_files)
    };
    let mut finals: Vec<(String, String)> = Vec::new();
    let ghost pv = pairs_of(pairs@);
    proof {
        assert(pv.map_values(|p: (Seq<char>, Seq<char>)| p.1) =~= crate::sped_merge::output_texts(outputs@));
    }
    if (str_eq(mode.as_str(), "consolidar") || str_eq(mode.as_str(), "misto")) && can && outputs.len() >= 2 {
        match consolidate_sped_outputs(&outputs) {
            Some((cn, ct)) => {
                if str_eq(mode.as_str(), "consolidar") {
                    finals.push((cn, ct));
                    proof {
                        assert(pairs_of(finals@) =~= seq![(cn@, ct@)]);
                    }
                } else {
                    finals = copy_pairs(&pairs);
                    let ghost before = pairs_of(finals@);
                    let ghost cv = (cn@, ct@);
                    finals.push((cn, ct));
                    proof {
                        assert(pairs_of(finals@) =~= before.push(cv));
                    }
                }
            },
            None => {
                finals = copy_pairs(&pairs);
            },
        }
    } else {
        finals = copy_pairs(&pairs);
    }
    Ok(SpedExportPlan { outputs: pairs, final_outputs: finals })
}

fn copy_pairs(v: &Vec<(String, String)>) -> (r: Vec<(String, String)>)
    ensures
        pairs_of(r@) == pairs_of(v@),
{
    let mut out: Vec<(String, String)> = Vec::new();
    for i in 0..v.len()
        invariant
            out@.len() == i,
            forall|k: int| 0 <= k < i ==> (#[trigger] out@[k]).0@ == v@[k].0@ && out@[k].1@ == v@[k].1@,
    {
        out.push((copy_string(&v[i].0), copy_string(&v[i].1)));
    }
    proof {
        assert(pairs_of(out@) =~= pairs_of(v@));
    }
    out
}

} // verus!
