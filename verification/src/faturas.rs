//! Data of the NF-e invoices tool: settings, invoice rows, the invoice data
//! read from each XML, and the results handed back to the interface.
use vstd::prelude::*;

use crate::text::str_to_string;

verus! {

/// The options of the invoices tool.
#[derive(Debug, Clone)]
pub struct NfeFaturasSettings {
    pub cod_prosoft: String,
    pub chk_append_d: bool,
    pub chk_forcar_duas_linhas: bool,
    pub chk_usar_sped: bool,
    pub chk_ie_sped_padrao: bool,
    pub chk_somente_com_sped: bool,
    pub chk_incluir_sem_dup: bool,
    pub chk_venc30: bool,
    pub chk_incluir_faturas_sped: bool,
    pub chk_recriar_c140_c141: bool,
    pub sel_modo_parcelas: String,
    pub num_qtd_parcelas_geral: u32,
    pub txt_regras_fornecedor_parcelas: String,
    pub num_venc_intervalo_dias: i32,
    pub txt_venc_dias_por_parcela: String,
    pub sel_multi_sped_modo: String,
    pub sel_consolidacao_interna_nfe: String,
    pub chk_consolidar_cnpj: bool,
    pub txt_cnpjs_consolidar: String,
    pub origem: String,
    pub tipo: String,
    pub serie_digits: String,
    pub ctx_nota: String,
    pub chk_exportar_filtrados: bool,
}

impl Default for NfeFaturasSettings {
    fn default() -> (r: Self)
        ensures
            r.cod_prosoft@ == Seq::<char>::empty(),
            !r.chk_append_d,
            !r.chk_forcar_duas_linhas,
            r.chk_usar_sped,
            !r.chk_ie_sped_padrao,
            r.chk_somente_com_sped,
            !r.chk_incluir_sem_dup,
            r.chk_venc30,
            !r.chk_incluir_faturas_sped,
            !r.chk_recriar_c140_c141,
            r.sel_modo_parcelas@ == "respeitar_xml"@,
            r.num_qtd_parcelas_geral == 1,
            r.txt_regras_fornecedor_parcelas@ == Seq::<char>::empty(),
            r.num_venc_intervalo_dias == 30,
            r.txt_venc_dias_por_parcela@ == Seq::<char>::empty(),
            r.sel_multi_sped_modo@ == "atualizar_individual"@,
            r.sel_consolidacao_interna_nfe@ == "nao"@,
            !r.chk_consolidar_cnpj,
            r.txt_cnpjs_consolidar@ == Seq::<char>::empty(),
            r.origem@ == "0"@,
            r.tipo@ == "1"@,
            r.serie_digits@ == "0"@,
            r.ctx_nota@ == "entrada"@,
            !r.chk_exportar_filtrados,
    {
        NfeFaturasSettings {
            cod_prosoft: String::new(),
            chk_append_d: false,
            chk_forcar_duas_linhas: false,
            chk_usar_sped: true,
            chk_ie_sped_padrao: false,
            chk_somente_com_sped: true,
            chk_incluir_sem_dup: false,
            chk_venc30: true,
            chk_incluir_faturas_sped: false,
            chk_recriar_c140_c141: false,
            sel_modo_parcelas: str_to_string("respeitar_xml"),
            num_qtd_parcelas_geral: 1,
            txt_regras_fornecedor_parcelas: String::new(),
            num_venc_intervalo_dias: 30,
            txt_venc_dias_por_parcela: String::new(),
            sel_multi_sped_modo: str_to_string("atualizar_individual"),
            sel_consolidacao_interna_nfe: str_to_string("nao"),
            chk_consolidar_cnpj: false,
            txt_cnpjs_consolidar: String::new(),
            origem: str_to_string("0"),
            tipo: str_to_string("1"),
            serie_digits: str_to_string("0"),
            ctx_nota: str_to_string("entrada"),
            chk_exportar_filtrados: false,
        }
    }
}

/// One installment of one invoice, as exported.
#[derive(Debug, Clone)]
pub struct NfeFaturasRow {
    pub chave: String,
    pub desdob: u8,
    pub cnpj_filial: String,
    pub cnpj_cpf: String,
    pub uf: String,
    pub ie: String,
    pub nf_serie: String,
    pub nf_numero: String,
    pub data_emissao: String,
    pub data_entrada: String,
    pub num_fatura: String,
    pub data_vencimento: String,
    pub valor_bruto_fat: String,
    pub source: String,
    pub sped_matched: bool,
    pub legado: bool,
    pub consolidated: bool,
}

/// An installment (`dup`) of an NF-e.
#[derive(Debug, Clone)]
pub struct NfeMetaDup {
    pub n_dup: String,
    pub d_venc: String,
    pub v_dup: String,
}

/// The invoice data of one NF-e.
#[derive(Debug, Clone)]
pub struct NfeMeta {
    pub chave: String,
    pub n_fat: String,
    pub v_orig: String,
    pub v_liq: String,
    pub v_nf: String,
    pub dup_list: Vec<NfeMetaDup>,
    pub nf_numero: String,
    pub serie: String,
    pub cnpj_terceiro: String,
    pub dt_emi: String,
    pub source: String,
}

/// A named text file.
#[derive(Debug, Clone)]
pub struct NamedText {
    pub name: String,
    pub text: String,
}

/// How many inputs of each kind were selected.
#[derive(Debug, Clone, Copy, PartialEq, Eq)]
pub struct NfeFaturasCounts {
    pub xml: usize,
    pub sped: usize,
    pub zip: usize,
}

/// A log entry of the tool.
#[derive(Debug, Clone)]
pub struct NfeFaturasLogItem {
    pub ts: String,
    pub level: String,
    pub msg: String,
    pub meta: Option<String>,
}

/// What processing a selection gives.
#[derive(Debug, Clone)]
pub struct NfeFaturasProcessResult {
    pub rows: Vec<NfeFaturasRow>,
    pub counts: NfeFaturasCounts,
    pub logs: Vec<NfeFaturasLogItem>,
    pub sped_files: Vec<NamedText>,
    pub nfe_metas: Vec<NfeMeta>,
}

/// The summary of a legacy import.
#[derive(Debug, Clone)]
pub struct NfeFaturasLegacyPreview {
    pub notas: usize,
    pub parcelas: usize,
    pub invalid_count: usize,
    pub invalid_lines: Vec<String>,
    pub warning_count: usize,
    pub warnings: Vec<String>,
    pub divergences: Vec<String>,
    pub divergence_count: usize,
}

/// What a legacy import gives.
#[derive(Debug, Clone)]
pub struct NfeFaturasLegacyResult {
    pub rows: Vec<NfeFaturasRow>,
    pub preview: NfeFaturasLegacyPreview,
    pub logs: Vec<NfeFaturasLogItem>,
}

/// What an export wrote.
#[derive(Debug, Clone)]
pub struct NfeFaturasExportResult {
    pub output_paths: Vec<String>,
    pub lines: usize,
    pub records: usize,
    pub message: String,
}

/// The texts of a row that identify its invoice.
pub type RowHead = (Seq<char>, Seq<char>, Seq<char>, Seq<char>, Seq<char>, Seq<char>, Seq<char>, Seq<char>, Seq<char>);

/// A row as values: its invoice part (key, branch document, counterparty
/// document, state, state registration, series, number, issue and entry
/// dates), its installment part (desdobramento, installment number, due
/// date, amount, source) and its flags (matched in SPED, legacy, merged).
pub type RowView = (RowHead, (u8, Seq<char>, Seq<char>, Seq<char>, Seq<char>), (bool, bool, bool));

pub open spec fn row_view(r: NfeFaturasRow) -> RowView {
    (
        (r.chave@, r.cnpj_filial@, r.cnpj_cpf@, r.uf@, r.ie@, r.nf_serie@, r.nf_numero@, r.data_emissao@, r.data_entrada@),
        (r.desdob, r.num_fatura@, r.data_vencimento@, r.valor_bruto_fat@, r.source@),
        (r.sped_matched, r.legado, r.consolidated),
    )
}

/// A copy of a row.
pub fn copy_row(r: &NfeFaturasRow) -> (c: NfeFaturasRow)
    ensures
        row_view(c) == row_view(*r),
{
    NfeFaturasRow {
        chave: r.chave.clone(),
        desdob: r.desdob,
        cnpj_filial: r.cnpj_filial.clone(),
        cnpj_cpf: r.cnpj_cpf.clone(),
        uf: r.uf.clone(),
        ie: r.ie.clone(),
        nf_serie: r.nf_serie.clone(),
        nf_numero: r.nf_numero.clone(),
        data_emissao: r.data_emissao.clone(),
        data_entrada: r.data_entrada.clone(),
        num_fatura: r.num_fatura.clone(),
        data_vencimento: r.data_vencimento.clone(),
        valor_bruto_fat: r.valor_bruto_fat.clone(),
        source: r.source.clone(),
        sped_matched: r.sped_matched,
        legado: r.legado,
        consolidated: r.consolidated,
    }
}

pub open spec fn rows_view(v: Seq<NfeFaturasRow>) -> Seq<RowView> {
    v.map_values(|r: NfeFaturasRow| row_view(r))
}

pub type DupView = (Seq<char>, Seq<char>, Seq<char>);

pub open spec fn dup_view(d: NfeMetaDup) -> DupView {
    (d.n_dup@, d.d_venc@, d.v_dup@)
}

/// The invoice data as values: key, invoice number, original, net and
/// note amounts; the installments; number, series, counterparty document,
/// issue date digits and source.
pub type MetaView = ((Seq<char>, Seq<char>, Seq<char>, Seq<char>, Seq<char>), Seq<DupView>, (Seq<char>, Seq<char>, Seq<char>, Seq<char>, Seq<char>));

pub open spec fn meta_view(m: NfeMeta) -> MetaView {
    (
        (m.chave@, m.n_fat@, m.v_orig@, m.v_liq@, m.v_nf@),
        m.dup_list@.map_values(|d: NfeMetaDup| dup_view(d)),
        (m.nf_numero@, m.serie@, m.cnpj_terceiro@, m.dt_emi@, m.source@),
    )
}

pub open spec fn metas_view(v: Seq<NfeMeta>) -> Seq<MetaView> {
    v.map_values(|m: NfeMeta| meta_view(m))
}

pub open spec fn named_view(v: Seq<NamedText>) -> Seq<(Seq<char>, Seq<char>)> {
    v.map_values(|t: NamedText| (t.name@, t.text@))
}

} // verus!
