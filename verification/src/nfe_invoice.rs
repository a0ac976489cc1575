//! Reading the invoice (fatura) data of an NF-e: the key, the parties, the
//! dates and amounts, and one row per installment (`dup`).
use vstd::prelude::*;

use crate::faturas::{
    dup_view, meta_view, row_view, rows_view, DupView, MetaView, NfeFaturasRow, NfeFaturasSettings,
    NfeMeta, NfeMetaDup, RowHead, RowView,
};
use crate::faturas_text::{br_date, date_digits, ddmmyyyy_to_digits, digits_to_br_date};
use crate::money::{money2_text, to_money2};
use crate::text::{
    alnum_upper, ascii_lower, ascii_upper, chars_of, copy_string, digits, lower_seq, only_alphanum_upper,
    only_digits, only_digits_chars, slice_chars, str_eq, string_of, upper_seq,
};
use crate::xml_tree::{
    descendant_of, descendant_of_exec, find_from, find_from_exec, first_descendant, first_descendant_exec,
    index_ok, index_view, is_tag, lemma_find_from_bounds, make_index, node_view, nodes_view, opt_index,
    parse_xml_nodes, same_name_exec, subtree_end, subtree_end_exec, text_in, text_in2, text_in2_exec,
    text_in_exec, valid_node, xml_document, XmlIndex, XmlNode, XmlNodeView,
};

verus! {

broadcast use vstd::string::group_string_axioms;

// ---------------------------------------------------------------------------
// The key
// ---------------------------------------------------------------------------

pub open spec fn text_or_empty(o: Option<Seq<char>>) -> Seq<char> {
    match o {
        Some(t) => t,
        None => seq![],
    }
}

/// The first `chNFe` element, from node `j` on, whose text holds 44 digits:
/// those digits.
pub open spec fn chave_scan(ns: Seq<XmlNodeView>, j: int) -> Option<Seq<char>>
    decreases ns.len() - j,
{
    if j < 0 || j >= ns.len() {
        None
    } else if is_tag(ns[j], "chNFe"@) && digits(text_or_empty(ns[j].2)).len() == 44 {
        Some(digits(text_or_empty(ns[j].2)))
    } else {
        chave_scan(ns, j + 1)
    }
}

/// The `Id` (or `id`) attribute of a node.
pub open spec fn id_of(n: XmlNodeView) -> Seq<char> {
    match n.3 {
        Some(a) => a,
        None => text_or_empty(n.4),
    }
}

/// The first `infNFe` element, from node `j` on, whose identifier holds at
/// least 44 digits: the last 44 of them.
pub open spec fn id_scan(ns: Seq<XmlNodeView>, j: int) -> Option<Seq<char>>
    decreases ns.len() - j,
{
    if j < 0 || j >= ns.len() {
        None
    } else if is_tag(ns[j], "infNFe"@) && digits(id_of(ns[j])).len() >= 44 {
        let d = digits(id_of(ns[j]));
        Some(d.skip(d.len() - 44))
    } else {
        id_scan(ns, j + 1)
    }
}

/// The access key of the document: from a `chNFe` element, else from the
/// identifier of `infNFe`, else empty.
pub open spec fn chave_of(ns: Seq<XmlNodeView>) -> Seq<char> {
    match chave_scan(ns, 0) {
        Some(c) => c,
        None => text_or_empty(id_scan(ns, 0)),
    }
}

fn opt_chars(o: &Option<String>) -> (r: Vec<char>)
    ensures
        r@ == text_or_empty(crate::xml_tree::opt_text_view(*o)),
{
    match o {
        Some(t) => chars_of(t.as_str()),
        None => Vec::new(),
    }
}

fn find_chave_nfe(x: &XmlIndex) -> (r: String)
    requires
        index_ok(*x),
    ensures
        r@ == chave_of(index_view(*x)),
{
    let ghost ns = index_view(*x);
    let ch = chars_of("chNFe");
    let mut j: usize = 0;
    while j < x.nodes.len()
        invariant
            index_ok(*x),
            ns == index_view(*x),
            ch@ == "chNFe"@,
            j <= x.nodes@.len(),
            chave_scan(ns, 0) == chave_scan(ns, j as int),
        decreases x.nodes@.len() - j,
    {
        assert(ns[j as int] == node_view(x.nodes@[j as int]));
        if x.nodes[j].element && same_name_exec(&x.names[j], &ch) {
            let t = opt_chars(&x.nodes[j].text);
            let d = only_digits_chars(&t);
            if d.len() == 44 {
                return string_of(&d);
            }
        }
        j = j + 1;
    }
    let inf = chars_of("infNFe");
    let mut k: usize = 0;
    while k < x.nodes.len()
        invariant
            index_ok(*x),
            ns == index_view(*x),
            inf@ == "infNFe"@,
            k <= x.nodes@.len(),
            chave_scan(ns, 0) is None,
            id_scan(ns, 0) == id_scan(ns, k as int),
        decreases x.nodes@.len() - k,
    {
        assert(ns[k as int] == node_view(x.nodes@[k as int]));
        if x.nodes[k].element && same_name_exec(&x.names[k], &inf) {
            let id = match &x.nodes[k].id_upper {
                Some(a) => chars_of(a.as_str()),
                None => opt_chars(&x.nodes[k].id_lower),
            };
            let d = only_digits_chars(&id);
            if d.len() >= 44 {
                let last = slice_chars(&d, d.len() - 44, d.len());
                proof {
                    assert(last@ =~= d@.skip(d@.len() - 44));
                }
                return string_of(&last);
            }
        }
        k = k + 1;
    }
    String::new()
}

// ---------------------------------------------------------------------------
// The parts of the document
// ---------------------------------------------------------------------------

/// The `NFe` element: the first in the document.
pub open spec fn nfe_root(ns: Seq<XmlNodeView>) -> Option<int> {
    find_from(ns, 0, ns.len() as int, "NFe"@)
}

/// The `infNFe` element under the `NFe` one, or the `NFe` itself.
pub open spec fn inf_of(ns: Seq<XmlNodeView>, nfe: int) -> int {
    match first_descendant(ns, nfe, "infNFe"@) {
        Some(j) => j,
        None => nfe,
    }
}

pub open spec fn part_of(ns: Seq<XmlNodeView>, nfe: int, tag: Seq<char>) -> Option<int> {
    first_descendant(ns, inf_of(ns, nfe), tag)
}

/// The other party: the recipient of an outgoing note, else the issuer.
pub open spec fn third_party(ns: Seq<XmlNodeView>, nfe: int, saida: bool) -> Option<int> {
    if saida {
        part_of(ns, nfe, "dest"@)
    } else {
        part_of(ns, nfe, "emit"@)
    }
}

/// The branch: the issuer of an outgoing note, else the recipient.
pub open spec fn branch_party(ns: Seq<XmlNodeView>, nfe: int, saida: bool) -> Option<int> {
    if saida {
        part_of(ns, nfe, "emit"@)
    } else {
        part_of(ns, nfe, "dest"@)
    }
}

/// The address of the other party.
pub open spec fn ender_of(ns: Seq<XmlNodeView>, nfe: int, saida: bool) -> Option<int> {
    let t = third_party(ns, nfe, saida);
    let first = descendant_of(ns, t, if saida {
        "enderDest"@
    } else {
        "enderEmit"@
    });
    if first is Some {
        first
    } else if descendant_of(ns, t, "enderDest"@) is Some {
        descendant_of(ns, t, "enderDest"@)
    } else {
        descendant_of(ns, t, "enderEmit"@)
    }
}

pub open spec fn ide_of(ns: Seq<XmlNodeView>, nfe: int) -> Option<int> {
    part_of(ns, nfe, "ide"@)
}

pub open spec fn icms_tot_of(ns: Seq<XmlNodeView>, nfe: int) -> Option<int> {
    descendant_of(ns, part_of(ns, nfe, "total"@), "ICMSTot"@)
}

pub open spec fn fat_of(ns: Seq<XmlNodeView>, nfe: int) -> Option<int> {
    descendant_of(ns, part_of(ns, nfe, "cobr"@), "fat"@)
}

/// The issue date as written.
pub open spec fn dh_emi_of(ns: Seq<XmlNodeView>, nfe: int) -> Seq<char> {
    text_in2(ns, ide_of(ns, nfe), "dhEmi"@, "dEmi"@)
}

/// The entry date as written, else the issue date.
pub open spec fn dh_sai_ent_of(ns: Seq<XmlNodeView>, nfe: int) -> Seq<char> {
    let a = text_in2(ns, ide_of(ns, nfe), "dhSaiEnt"@, "dSaiEnt"@);
    if a.len() == 0 {
        dh_emi_of(ns, nfe)
    } else {
        a
    }
}

pub open spec fn serie_of(ns: Seq<XmlNodeView>, nfe: int) -> Seq<char> {
    digits(text_in(ns, ide_of(ns, nfe), "serie"@))
}

pub open spec fn numero_of(ns: Seq<XmlNodeView>, nfe: int) -> Seq<char> {
    digits(text_in(ns, ide_of(ns, nfe), "nNF"@))
}

pub open spec fn v_nf_of(ns: Seq<XmlNodeView>, nfe: int) -> Seq<char> {
    text_in(ns, icms_tot_of(ns, nfe), "vNF"@)
}

/// The invoice part shared by every row of the note.
pub open spec fn head_of(ns: Seq<XmlNodeView>, nfe: int, saida: bool) -> RowHead {
    (
        chave_of(ns),
        digits(text_in2(ns, branch_party(ns, nfe, saida), "CNPJ"@, "CPF"@)),
        digits(text_in2(ns, third_party(ns, nfe, saida), "CNPJ"@, "CPF"@)),
        upper_seq(text_in(ns, ender_of(ns, nfe, saida), "UF"@)),
        alnum_upper(text_in(ns, third_party(ns, nfe, saida), "IE"@)),
        serie_of(ns, nfe),
        numero_of(ns, nfe),
        br_date(date_digits(dh_emi_of(ns, nfe))),
        br_date(date_digits(dh_sai_ent_of(ns, nfe))),
    )
}

/// `number/series`, the installment number used where none is given.
pub open spec fn default_number(ns: Seq<XmlNodeView>, nfe: int) -> Seq<char> {
    numero_of(ns, nfe) + seq!['/'] + serie_of(ns, nfe)
}

/// The elements named `tag` among the nodes at `j .. end`, in order.
pub open spec fn tags_from(ns: Seq<XmlNodeView>, j: int, end: int, tag: Seq<char>) -> Seq<int>
    decreases end - j,
{
    if j >= end || j < 0 || j >= ns.len() {
        seq![]
    } else if is_tag(ns[j], tag) {
        seq![j] + tags_from(ns, j + 1, end, tag)
    } else {
        tags_from(ns, j + 1, end, tag)
    }
}

/// The installment (`dup`) elements of the note, in document order.
pub open spec fn dup_nodes(ns: Seq<XmlNodeView>, nfe: int) -> Seq<int> {
    match part_of(ns, nfe, "cobr"@) {
        Some(c) => tags_from(ns, c, subtree_end(ns, c), "dup"@),
        None => seq![],
    }
}

pub open spec fn dup_number(ns: Seq<XmlNodeView>, nfe: int, j: int) -> Seq<char> {
    let n = text_in(ns, Some(j), "nDup"@);
    if n.len() == 0 {
        default_number(ns, nfe)
    } else {
        n
    }
}

pub open spec fn dup_meta(ns: Seq<XmlNodeView>, nfe: int, j: int) -> DupView {
    (dup_number(ns, nfe, j), text_in(ns, Some(j), "dVenc"@), text_in(ns, Some(j), "vDup"@))
}

/// The row of one installment.
pub open spec fn dup_row(ns: Seq<XmlNodeView>, nfe: int, saida: bool, file: Seq<char>, j: int) -> RowView {
    let v = text_in(ns, Some(j), "vDup"@);
    (
        head_of(ns, nfe, saida),
        (
            0u8,
            dup_number(ns, nfe, j),
            br_date(date_digits(text_in(ns, Some(j), "dVenc"@))),
            money2_text(if v.len() == 0 {
                v_nf_of(ns, nfe)
            } else {
                v
            }),
            file,
        ),
        (false, false, false),
    )
}

/// The row of a note without installments: the invoice number (or
/// `number/series`), no due date, and the original, net or note amount.
pub open spec fn lone_row(ns: Seq<XmlNodeView>, nfe: int, saida: bool, file: Seq<char>) -> RowView {
    let n_fat = text_in(ns, fat_of(ns, nfe), "nFat"@);
    let v_orig = text_in(ns, fat_of(ns, nfe), "vOrig"@);
    let v_liq = text_in(ns, fat_of(ns, nfe), "vLiq"@);
    (
        head_of(ns, nfe, saida),
        (
            0u8,
            if n_fat.len() == 0 {
                default_number(ns, nfe)
            } else {
                n_fat
            },
            seq![],
            money2_text(if v_orig.len() > 0 {
                v_orig
            } else if v_liq.len() > 0 {
                v_liq
            } else {
                v_nf_of(ns, nfe)
            }),
            file,
        ),
        (false, false, false),
    )
}

/// The rows of a note.
pub open spec fn note_rows(ns: Seq<XmlNodeView>, nfe: int, saida: bool, file: Seq<char>, sem_dup: bool) -> Seq<RowView> {
    let d = dup_nodes(ns, nfe);
    if d.len() == 0 {
        if sem_dup {
            seq![lone_row(ns, nfe, saida, file)]
        } else {
            seq![]
        }
    } else {
        d.map_values(|j: int| dup_row(ns, nfe, saida, file, j))
    }
}

/// The invoice data of a note.
pub open spec fn note_meta(ns: Seq<XmlNodeView>, nfe: int, saida: bool, file: Seq<char>) -> MetaView {
    (
        (
            chave_of(ns),
            text_in(ns, fat_of(ns, nfe), "nFat"@),
            text_in(ns, fat_of(ns, nfe), "vOrig"@),
            text_in(ns, fat_of(ns, nfe), "vLiq"@),
            v_nf_of(ns, nfe),
        ),
        dup_nodes(ns, nfe).map_values(|j: int| dup_meta(ns, nfe, j)),
        (
            numero_of(ns, nfe),
            serie_of(ns, nfe),
            digits(text_in2(ns, third_party(ns, nfe, saida), "CNPJ"@, "CPF"@)),
            date_digits(dh_emi_of(ns, nfe)),
            file,
        ),
    )
}

/// Whether the settings read notes as outgoing (`ctx_nota` is `saida`).
pub open spec fn is_saida(ctx: Seq<char>) -> bool {
    lower_seq(ctx) == "saida"@
}

/// What reading a note gives: its invoice data and rows, or the message
/// of the error.
pub open spec fn nfe_reading(ns: Seq<XmlNodeView>, file: Seq<char>, settings: NfeFaturasSettings) -> Result<(MetaView, Seq<RowView>), Seq<char>> {
    match nfe_root(ns) {
        None => Err("Não encontrei tag <NFe>"@),
        Some(nfe) => {
            let saida = is_saida(settings.ctx_nota@);
            Ok((note_meta(ns, nfe, saida, file), note_rows(ns, nfe, saida, file, settings.chk_incluir_sem_dup)))
        },
    }
}

pub open spec fn reading_view(r: Result<(NfeMeta, Vec<NfeFaturasRow>), String>) -> Result<(MetaView, Seq<RowView>), Seq<char>> {
    match r {
        Ok((m, rows)) => Ok((meta_view(m), rows_view(rows@))),
        Err(e) => Err(e@),
    }
}

// ---------------------------------------------------------------------------
// Reading
// ---------------------------------------------------------------------------

/// The texts a note's rows share.
struct NoteFields {
    chave: String,
    cnpj_filial: String,
    cnpj_terceiro: String,
    uf: String,
    ie: String,
    serie: String,
    nf_numero: String,
    data_emissao: String,
    data_entrada: String,
    dh_emi: String,
    v_nf: String,
    n_fat: String,
    v_orig: String,
    v_liq: String,
    cobr: Option<usize>,
}

spec fn fields_ok(ns: Seq<XmlNodeView>, nfe: int, saida: bool, f: NoteFields) -> bool {
    &&& (f.chave@, f.cnpj_filial@, f.cnpj_terceiro@, f.uf@, f.ie@, f.serie@, f.nf_numero@, f.data_emissao@, f.data_entrada@)
        == head_of(ns, nfe, saida)
    &&& f.dh_emi@ == dh_emi_of(ns, nfe)
    &&& f.v_nf@ == v_nf_of(ns, nfe)
    &&& f.n_fat@ == text_in(ns, fat_of(ns, nfe), "nFat"@)
    &&& f.v_orig@ == text_in(ns, fat_of(ns, nfe), "vOrig"@)
    &&& f.v_liq@ == text_in(ns, fat_of(ns, nfe), "vLiq"@)
    &&& opt_index(f.cobr) == part_of(ns, nfe, "cobr"@)
    &&& f.cobr matches Some(c) ==> c < ns.len()
}

fn part_exec(x: &XmlIndex, inf: usize, tag: &str) -> (r: Option<usize>)
    requires
        index_ok(*x),
        inf < x.nodes@.len(),
    ensures
        opt_index(r) == first_descendant(index_view(*x), inf as int, tag@),
        valid_node(*x, r),
{
    descendant_of_exec(x, Some(inf), tag)
}

fn note_fields(x: &XmlIndex, nfe: usize, saida: bool) -> (r: NoteFields)
    requires
        index_ok(*x),
        nfe < x.nodes@.len(),
    ensures
        fields_ok(index_view(*x), nfe as int, saida, r),
{
    let ghost ns = index_view(*x);
    let inf = match first_descendant_exec(x, nfe, "infNFe") {
        Some(j) => j,
        None => nfe,
    };
    proof {
        lemma_find_from_bounds(ns, nfe as int, subtree_end(ns, nfe as int), "infNFe"@);
    }
    let ide = part_exec(x, inf, "ide");
    let emit = part_exec(x, inf, "emit");
    let dest = part_exec(x, inf, "dest");
    let cobr = part_exec(x, inf, "cobr");
    let total = part_exec(x, inf, "total");
    let icms_tot = descendant_of_exec(x, total, "ICMSTot");
    let chave = find_chave_nfe(x);
    let terceiro = if saida {
        dest
    } else {
        emit
    };
    let filial = if saida {
        emit
    } else {
        dest
    };
    let cnpj_filial = only_digits(text_in2_exec(x, filial, "CNPJ", "CPF").as_str());
    let cnpj_terceiro = only_digits(text_in2_exec(x, terceiro, "CNPJ", "CPF").as_str());
    let first = descendant_of_exec(x, terceiro, if saida {
        "enderDest"
    } else {
        "enderEmit"
    });
    let ender = if first.is_some() {
        first
    } else {
        let d = descendant_of_exec(x, terceiro, "enderDest");
        if d.is_some() {
            d
        } else {
            descendant_of_exec(x, terceiro, "enderEmit")
        }
    };
    let uf = ascii_upper(text_in_exec(x, ender, "UF").as_str());
    let ie = only_alphanum_upper(text_in_exec(x, terceiro, "IE").as_str());
    let serie = only_digits(text_in_exec(x, ide, "serie").as_str());
    let nf_numero = only_digits(text_in_exec(x, ide, "nNF").as_str());
    let dh_emi = text_in2_exec(x, ide, "dhEmi", "dEmi");
    let sai = text_in2_exec(x, ide, "dhSaiEnt", "dSaiEnt");
    let dh_sai_ent = if sai.as_str().is_empty() {
        copy_string(&dh_emi)
    } else {
        sai
    };
    let data_emissao = digits_to_br_date(ddmmyyyy_to_digits(dh_emi.as_str()).as_str());
    let data_entrada = digits_to_br_date(ddmmyyyy_to_digits(dh_sai_ent.as_str()).as_str());
    let v_nf = text_in_exec(x, icms_tot, "vNF");
    let fat = descendant_of_exec(x, cobr, "fat");
    let n_fat = text_in_exec(x, fat, "nFat");
    let v_orig = text_in_exec(x, fat, "vOrig");
    let v_liq = text_in_exec(x, fat, "vLiq");
    NoteFields {
        chave,
        cnpj_filial,
        cnpj_terceiro,
        uf,
        ie,
        serie,
        nf_numero,
        data_emissao,
        data_entrada,
        dh_emi,
        v_nf,
        n_fat,
        v_orig,
        v_liq,
        cobr,
    }
}

fn slash_number(f: &NoteFields) -> (r: String)
    ensures
        r@ == f.nf_numero@ + seq!['/'] + f.serie@,
{
    let mut v = chars_of(f.nf_numero.as_str());
    v.push('/');
    let s = chars_of(f.serie.as_str());
    let w = crate::text::concat_chars(&v, &s);
    string_of(&w)
}

fn make_row(f: &NoteFields, num_fatura: String, data_vencimento: String, valor: String, file_name: &str) -> (r: NfeFaturasRow)
    ensures
        row_view(r) == (
            (f.chave@, f.cnpj_filial@, f.cnpj_terceiro@, f.uf@, f.ie@, f.serie@, f.nf_numero@, f.data_emissao@, f.data_entrada@),
            (0u8, num_fatura@, data_vencimento@, valor@, file_name@),
            (false, false, false),
        ),
{
    NfeFaturasRow {
        chave: copy_string(&f.chave),
        desdob: 0,
        cnpj_filial: copy_string(&f.cnpj_filial),
        cnpj_cpf: copy_string(&f.cnpj_terceiro),
        uf: copy_string(&f.uf),
        ie: copy_string(&f.ie),
        nf_serie: copy_string(&f.serie),
        nf_numero: copy_string(&f.nf_numero),
        data_emissao: copy_string(&f.data_emissao),
        data_entrada: copy_string(&f.data_entrada),
        num_fatura,
        data_vencimento,
        valor_bruto_fat: valor,
        source: file_name.to_string(),
        sped_matched: false,
        legado: false,
        consolidated: false,
    }
}

/// The installment elements among the nodes at `start .. end`.
fn dup_indices(x: &XmlIndex, start: usize, end: usize) -> (r: Vec<usize>)
    requires
        index_ok(*x),
        end <= x.nodes@.len(),
    ensures
        r@.map_values(|k: usize| k as int) == tags_from(index_view(*x), start as int, end as int, "dup"@),
        forall|k: int| 0 <= k < r@.len() ==> r@[k] < x.nodes@.len(),
{
    let ghost ns = index_view(*x);
    let tag = chars_of("dup");
    let mut out: Vec<usize> = Vec::new();
    let mut j: usize = start;
    while j < end
        invariant
            index_ok(*x),
            ns == index_view(*x),
            tag@ == "dup"@,
            end <= x.nodes@.len(),
            out@.map_values(|k: usize| k as int) + tags_from(ns, j as int, end as int, "dup"@) == tags_from(
                ns,
                start as int,
                end as int,
                "dup"@,
            ),
            forall|k: int| 0 <= k < out@.len() ==> out@[k] < x.nodes@.len(),
        decreases end - j,
    {
        assert(ns[j as int] == node_view(x.nodes@[j as int]));
        let hit = x.nodes[j].element && same_name_exec(&x.names[j], &tag);
        proof {
            if hit {
                assert(out@.push(j).map_values(|k: usize| k as int) =~= out@.map_values(|k: usize| k as int)
                    + seq![j as int]);
            }
        }
        if hit {
            out.push(j);
        }
        j = j + 1;
    }
    proof {
        assert(tags_from(ns, j as int, end as int, "dup"@) =~= Seq::<int>::empty());
        assert(out@.map_values(|k: usize| k as int) + Seq::<int>::empty() =~= out@.map_values(|k: usize| k as int));
    }
    out
}

/// Reads the invoice data and the rows of an NF-e from its parsed nodes.
pub fn nfe_meta_and_rows_from_nodes(nodes: Vec<XmlNode>, file_name: &str, settings: &NfeFaturasSettings) -> (r: Result<(NfeMeta, Vec<NfeFaturasRow>), String>)
    ensures
        reading_view(r) == nfe_reading(nodes_view(nodes@), file_name@, *settings),
{
    let x = make_index(nodes);
    let ghost ns = index_view(x);
    let tag = chars_of("NFe");
    let root = find_from_exec(&x, 0, x.nodes.len(), &tag);
    let nfe = match root {
        Some(n) => n,
        None => {
            return Err(crate::text::str_to_string("Não encontrei tag <NFe>"));
        },
    };
    proof {
        lemma_find_from_bounds(ns, 0, ns.len() as int, "NFe"@);
    }
    let ctx = ascii_lower(settings.ctx_nota.as_str());
    let saida = str_eq(ctx.as_str(), "saida");
    let f = note_fields(&x, nfe, saida);
    let dups: Vec<usize> = match f.cobr {
        Some(c) => {
            let end = subtree_end_exec(&x, c);
            proof {
                assert(end <= x.nodes@.len());
            }
            dup_indices(&x, c, end)
        },
        None => Vec::new(),
    };
    let ghost dn = dup_nodes(ns, nfe as int);
    assert(dups@.map_values(|k: usize| k as int) == dn);
    let default_no = slash_number(&f);
    let mut dup_list: Vec<NfeMetaDup> = Vec::new();
    let mut rows: Vec<NfeFaturasRow> = Vec::new();
    for i in 0..dups.len()
        invariant
            index_ok(x),
            ns == index_view(x),
            fields_ok(ns, nfe as int, saida, f),
            saida == is_saida(settings.ctx_nota@),
            dups@.map_values(|k: usize| k as int) == dn,
            forall|k: int| 0 <= k < dups@.len() ==> dups@[k] < x.nodes@.len(),
            default_no@ == default_number(ns, nfe as int),
            dup_list@.len() == i,
            rows@.len() == i,
            forall|k: int| 0 <= k < i ==> #[trigger] dup_view(dup_list@[k]) == dup_meta(ns, nfe as int, dn[k]),
            forall|k: int| 0 <= k < i ==> #[trigger] row_view(rows@[k]) == dup_row(ns, nfe as int, saida, file_name@, dn[k]),
    {
        let j = dups[i];
        assert(dn[i as int] == j as int);
        let n_dup = text_in_exec(&x, Some(j), "nDup");
        let d_venc = text_in_exec(&x, Some(j), "dVenc");
        let v_dup = text_in_exec(&x, Some(j), "vDup");
        let number = if n_dup.as_str().is_empty() {
            copy_string(&default_no)
        } else {
            copy_string(&n_dup)
        };
        let due = digits_to_br_date(ddmmyyyy_to_digits(d_venc.as_str()).as_str());
        let valor = if v_dup.as_str().is_empty() {
            to_money2(f.v_nf.as_str())
        } else {
            to_money2(v_dup.as_str())
        };
        let row = make_row(&f, copy_string(&number), due, valor, file_name);
        dup_list.push(NfeMetaDup { n_dup: number, d_venc, v_dup });
        rows.push(row);
    }
    if rows.len() == 0 && settings.chk_incluir_sem_dup {
        let number = if f.n_fat.as_str().is_empty() {
            copy_string(&default_no)
        } else {
            copy_string(&f.n_fat)
        };
        let valor = if !f.v_orig.as_str().is_empty() {
            to_money2(f.v_orig.as_str())
        } else if !f.v_liq.as_str().is_empty() {
            to_money2(f.v_liq.as_str())
        } else {
            to_money2(f.v_nf.as_str())
        };
        let row = make_row(&f, number, String::new(), valor, file_name);
        rows.push(row);
    }
    let meta = NfeMeta {
        chave: copy_string(&f.chave),
        n_fat: copy_string(&f.n_fat),
        v_orig: copy_string(&f.v_orig),
        v_liq: copy_string(&f.v_liq),
        v_nf: copy_string(&f.v_nf),
        dup_list,
        nf_numero: copy_string(&f.nf_numero),
        serie: copy_string(&f.serie),
        cnpj_terceiro: copy_string(&f.cnpj_terceiro),
        dt_emi: ddmmyyyy_to_digits(f.dh_emi.as_str()),
        source: file_name.to_string(),
    };
    proof {
        assert(rows_view(rows@) =~= note_rows(ns, nfe as int, saida, file_name@, settings.chk_incluir_sem_dup));
        assert(meta_view(meta).1 =~= note_meta(ns, nfe as int, saida, file_name@).1);
    }
    Ok((meta, rows))
}

/// The parties of a note's rows by its direction: for an outgoing note
/// (`saida`) the counterparty is the `<dest>` and the branch the `<emit>`;
/// for an incoming one the reverse.  The counterparty's state comes from
/// its own address when it has one, and the note's invoice data names the
/// same counterparty.  Every row carries the counterparty's state
/// registration, the note's series, number and issue date from `<ide>`,
/// and the file it came from.
pub proof fn law_note_parties(ns: Seq<XmlNodeView>, file: Seq<char>, settings: NfeFaturasSettings, nfe: int)
    requires
        nfe_root(ns) == Some(nfe),
    ensures
        ({
            let saida = lower_seq(settings.ctx_nota@) == "saida"@;
            let dest = part_of(ns, nfe, "dest"@);
            let emit = part_of(ns, nfe, "emit"@);
            let dest_doc = digits(text_in2(ns, dest, "CNPJ"@, "CPF"@));
            let emit_doc = digits(text_in2(ns, emit, "CNPJ"@, "CPF"@));
            let other = if saida { dest } else { emit };
            let own_address = descendant_of(ns, other, if saida { "enderDest"@ } else { "enderEmit"@ });
            &&& nfe_reading(ns, file, settings) is Ok
            &&& nfe_reading(ns, file, settings)->Ok_0.0.2.2 == (if saida { dest_doc } else { emit_doc })
            &&& forall|i: int|
                0 <= i < nfe_reading(ns, file, settings)->Ok_0.1.len() ==> {
                    let row = #[trigger] nfe_reading(ns, file, settings)->Ok_0.1[i];
                    &&& row.0.2 == (if saida { dest_doc } else { emit_doc })
                    &&& row.0.1 == (if saida { emit_doc } else { dest_doc })
                    &&& own_address is Some ==> row.0.3 == upper_seq(text_in(ns, own_address, "UF"@))
                    &&& row.0.4 == alnum_upper(text_in(ns, other, "IE"@))
                    &&& row.0.5 == digits(text_in(ns, part_of(ns, nfe, "ide"@), "serie"@))
                    &&& row.0.6 == digits(text_in(ns, part_of(ns, nfe, "ide"@), "nNF"@))
                    &&& row.0.7 == br_date(date_digits(text_in2(ns, part_of(ns, nfe, "ide"@), "dhEmi"@, "dEmi"@)))
                    &&& row.1.4 == file
                }
        }),
{
    let saida = is_saida(settings.ctx_nota@);
    let rows = note_rows(ns, nfe, saida, file, settings.chk_incluir_sem_dup);
    assert forall|i: int| 0 <= i < rows.len() implies (#[trigger] rows[i]).0 == head_of(ns, nfe, saida) by {
        let d = dup_nodes(ns, nfe);
        if d.len() > 0 {
            assert(rows[i] == dup_row(ns, nfe, saida, file, d[i]));
        }
    }
}

/// One row per installment (`<dup>`) of a note that has some, in order:
/// each with the installment's due date and its amount with two decimals
/// (the note's total where the installment states none).
pub proof fn law_note_installments(ns: Seq<XmlNodeView>, file: Seq<char>, settings: NfeFaturasSettings, nfe: int)
    requires
        nfe_root(ns) == Some(nfe),
        dup_nodes(ns, nfe).len() > 0,
    ensures
        ({
            let rows = nfe_reading(ns, file, settings)->Ok_0.1;
            let d = dup_nodes(ns, nfe);
            &&& rows.len() == d.len()
            &&& forall|i: int|
                0 <= i < d.len() ==> {
                    let v = text_in(ns, Some(d[i]), "vDup"@);
                    &&& (#[trigger] rows[i]).1.2 == br_date(date_digits(text_in(ns, Some(d[i]), "dVenc"@)))
                    &&& rows[i].1.3 == money2_text(if v.len() == 0 {
                        text_in(ns, descendant_of(ns, part_of(ns, nfe, "total"@), "ICMSTot"@), "vNF"@)
                    } else {
                        v
                    })
                }
        }),
{
}

/// Reads the invoice data and the rows of an NF-e document.
pub fn parse_nfe_meta_and_rows(xml: &str, file_name: &str, settings: &NfeFaturasSettings) -> (r: Result<(NfeMeta, Vec<NfeFaturasRow>), String>)
    ensures
        match xml_document(xml@) {
            Err(e) => r matches Err(m) && m@ == e,
            Ok(ns) => reading_view(r) == nfe_reading(ns, file_name@, *settings),
        },
{
    match parse_xml_nodes(xml) {
        Ok(nodes) => nfe_meta_and_rows_from_nodes(nodes, file_name, settings),
        Err(e) => Err(e),
    }
}

} // verus!
