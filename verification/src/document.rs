//! Fiscal service document (NFS-e) and conversion profile.
use vstd::prelude::*;

use crate::text::{str_to_string, opt_view};

verus! {

/// A party of a document (provider or taker).
#[derive(Debug, Clone)]
pub struct Party {
    pub nome: String,
    pub documento: String,
    pub inscricao_municipal: Option<String>,
    pub endereco: Option<String>,
    pub municipio_codigo: Option<String>,
    pub municipio_nome: Option<String>,
    pub uf: Option<String>,
    pub cep: Option<String>,
}

impl Party {
    /// The party with every text empty and every optional text absent.
    pub fn empty() -> (r: Party)
        ensures
            r.nome@ == Seq::<char>::empty(),
            r.documento@ == Seq::<char>::empty(),
            r.inscricao_municipal is None,
            r.endereco is None,
            r.municipio_codigo is None,
            r.municipio_nome is None,
            r.uf is None,
            r.cep is None,
    {
        Party {
            nome: String::new(),
            documento: String::new(),
            inscricao_municipal: None,
            endereco: None,
            municipio_codigo: None,
            municipio_nome: None,
            uf: None,
            cep: None,
        }
    }
}

/// An NFS-e as the parsers hand it over.  The monetary amounts stay with
/// the caller (they are floating point); only the withholding flag, which
/// the layout logic reads, is carried here.
#[derive(Debug, Clone)]
pub struct NfseDocument {
    pub id: String,
    pub file_name: String,
    pub provider: String,
    pub provider_friendly: String,
    pub layout: String,
    pub numero: String,
    pub serie: String,
    pub emissao: String,
    pub competencia: String,
    pub chave: String,
    pub municipio_codigo: String,
    pub municipio_nome: String,
    pub item_lista_servico: String,
    pub codigo_cnae: Option<String>,
    pub discriminacao: String,
    pub info_adic: String,
    pub prestador: Party,
    pub tomador: Party,
    pub iss_retido: bool,
    pub warnings: Vec<String>,
}

/// One XML of a processing batch.
#[derive(Debug, Clone)]
pub struct ProcessBatchInputItem {
    pub file_name: String,
    pub xml: String,
}

/// What a rule does with a field of the source document.
#[derive(Debug, Clone, Copy, PartialEq, Eq)]
pub enum FieldAction {
    Source,
    Zero,
    Empty,
    Ignore,
    Constant,
}

/// A per-field conversion rule.
#[derive(Debug, Clone)]
pub struct FieldRule {
    pub action: FieldAction,
    pub value: Option<String>,
}

impl FieldRule {
    /// The rule that takes the value from the source document.
    pub fn source() -> (r: FieldRule)
        ensures
            r.action == FieldAction::Source,
            r.value is None,
    {
        FieldRule { action: FieldAction::Source, value: None }
    }
}

/// The rules of every configurable field.
#[derive(Debug, Clone)]
pub struct ConversionFieldRules {
    pub base_calculo: FieldRule,
    pub iss_aliquota: FieldRule,
    pub iss_devido: FieldRule,
    pub iss_retido: FieldRule,
    pub valor_liquido: FieldRule,
    pub valor_irrf: FieldRule,
    pub valor_inss: FieldRule,
    pub valor_pis: FieldRule,
    pub valor_cofins: FieldRule,
    pub valor_csll: FieldRule,
    pub observacao: FieldRule,
    pub codigo_servico: FieldRule,
    pub valor_iss: FieldRule,
    pub serie: FieldRule,
    pub numero: FieldRule,
    pub data_emissao: FieldRule,
    pub data_competencia: FieldRule,
    pub municipio: FieldRule,
    pub tipo_documento: FieldRule,
    pub especie_documento: FieldRule,
    pub natureza_operacao: FieldRule,
    pub campos_complementares: FieldRule,
}

pub open spec fn is_source_rule(r: FieldRule) -> bool {
    r.action == FieldAction::Source && r.value is None
}

impl ConversionFieldRules {
    /// Every field taken from the source document.
    pub fn all_source() -> (r: ConversionFieldRules)
        ensures
            is_source_rule(r.base_calculo),
            is_source_rule(r.iss_aliquota),
            is_source_rule(r.iss_devido),
            is_source_rule(r.iss_retido),
            is_source_rule(r.valor_liquido),
            is_source_rule(r.valor_irrf),
            is_source_rule(r.valor_inss),
            is_source_rule(r.valor_pis),
            is_source_rule(r.valor_cofins),
            is_source_rule(r.valor_csll),
            is_source_rule(r.observacao),
            is_source_rule(r.codigo_servico),
            is_source_rule(r.valor_iss),
            is_source_rule(r.serie),
            is_source_rule(r.numero),
            is_source_rule(r.data_emissao),
            is_source_rule(r.data_competencia),
            is_source_rule(r.municipio),
            is_source_rule(r.tipo_documento),
            is_source_rule(r.especie_documento),
            is_source_rule(r.natureza_operacao),
            is_source_rule(r.campos_complementares),
    {
        ConversionFieldRules {
            base_calculo: FieldRule::source(),
            iss_aliquota: FieldRule::source(),
            iss_devido: FieldRule::source(),
            iss_retido: FieldRule::source(),
            valor_liquido: FieldRule::source(),
            valor_irrf: FieldRule::source(),
            valor_inss: FieldRule::source(),
            valor_pis: FieldRule::source(),
            valor_cofins: FieldRule::source(),
            valor_csll: FieldRule::source(),
            observacao: FieldRule::source(),
            codigo_servico: FieldRule::source(),
            valor_iss: FieldRule::source(),
            serie: FieldRule::source(),
            numero: FieldRule::source(),
            data_emissao: FieldRule::source(),
            data_competencia: FieldRule::source(),
            municipio: FieldRule::source(),
            tipo_documento: FieldRule::source(),
            especie_documento: FieldRule::source(),
            natureza_operacao: FieldRule::source(),
            campos_complementares: FieldRule::source(),
        }
    }
}

impl Default for ConversionFieldRules {
    fn default() -> (r: ConversionFieldRules)
        ensures
            is_source_rule(r.base_calculo),
            is_source_rule(r.observacao),
            is_source_rule(r.codigo_servico),
            is_source_rule(r.iss_retido),
    {
        ConversionFieldRules::all_source()
    }
}

/// Output profile of the conversion: layout, fixed codes and field rules.
#[derive(Debug, Clone)]
pub struct ConversionProfile {
    pub profile_id: String,
    pub profile_name: String,
    pub output_layout: String,
    pub nfse_layout: String,
    pub cod_prosoft: String,
    pub especie_documento: String,
    pub modelo_nf: String,
    pub modelo_iss: String,
    pub tipo_documento: String,
    pub situacao_documento: String,
    pub cfps: String,
    pub cod_receita_irrf: String,
    pub cod_rec_pis: String,
    pub cod_rec_cofins: String,
    pub responsavel_retencao: String,
    pub tipo_recolhimento: String,
    pub motivo_retencao: String,
    pub operacao_nota: String,
    pub cst_pis: String,
    pub cst_cofins: String,
    pub cst_iss: String,
    pub obs_extended: String,
    pub company_municipio_codigo: String,
    pub company_municipio_nome: String,
    pub field_rules: ConversionFieldRules,
}

impl ConversionProfile {
    /// The default profile ("Padrão BA Prestados").
    pub fn standard() -> (r: ConversionProfile)
        ensures
            r.profile_id@ == "padrao-ba-prestados"@,
            r.output_layout@ == "ba_prestados"@,
            r.cod_prosoft@ == "0001"@,
            r.especie_documento@ == "NFSE"@,
            r.modelo_nf@ == "OU000"@,
            r.tipo_documento@ == "001"@,
            r.responsavel_retencao@ == "0"@,
            r.obs_extended@ == "auto"@,
            r.situacao_documento@ == Seq::<char>::empty(),
            r.modelo_iss@ == Seq::<char>::empty(),
            r.tipo_recolhimento@ == Seq::<char>::empty(),
            r.motivo_retencao@ == Seq::<char>::empty(),
            r.operacao_nota@ == Seq::<char>::empty(),
            r.company_municipio_codigo@ == Seq::<char>::empty(),
            is_source_rule(r.field_rules.observacao),
            is_source_rule(r.field_rules.codigo_servico),
            is_source_rule(r.field_rules.serie),
            is_source_rule(r.field_rules.numero),
            is_source_rule(r.field_rules.data_emissao),
            is_source_rule(r.field_rules.data_competencia),
            is_source_rule(r.field_rules.municipio),
            is_source_rule(r.field_rules.iss_retido),
            is_source_rule(r.field_rules.tipo_documento),
            is_source_rule(r.field_rules.especie_documento),
            is_source_rule(r.field_rules.natureza_operacao),
    {
        ConversionProfile {
            profile_id: str_to_string("padrao-ba-prestados"),
            profile_name: str_to_string("Padr\u{e3}o BA Prestados"),
            output_layout: str_to_string("ba_prestados"),
            nfse_layout: str_to_string("auto"),
            cod_prosoft: str_to_string("0001"),
            especie_documento: str_to_string("NFSE"),
            modelo_nf: str_to_string("OU000"),
            modelo_iss: String::new(),
            tipo_documento: str_to_string("001"),
            situacao_documento: String::new(),
            cfps: String::new(),
            cod_receita_irrf: String::new(),
            cod_rec_pis: String::new(),
            cod_rec_cofins: String::new(),
            responsavel_retencao: str_to_string("0"),
            tipo_recolhimento: String::new(),
            motivo_retencao: String::new(),
            operacao_nota: String::new(),
            cst_pis: String::new(),
            cst_cofins: String::new(),
            cst_iss: String::new(),
            obs_extended: str_to_string("auto"),
            company_municipio_codigo: String::new(),
            company_municipio_nome: String::new(),
            field_rules: ConversionFieldRules::all_source(),
        }
    }
}

impl Default for ConversionProfile {
    fn default() -> (r: ConversionProfile)
        ensures
            r.profile_id@ == "padrao-ba-prestados"@,
            r.output_layout@ == "ba_prestados"@,
            r.obs_extended@ == "auto"@,
            r.responsavel_retencao@ == "0"@,
    {
        ConversionProfile::standard()
    }
}

/// The saved profiles and which one is selected.
#[derive(Debug, Clone)]
pub struct ProfileBundle {
    pub selected_profile_id: String,
    pub profiles: Vec<ConversionProfile>,
}


/// The profiles that have an identifier, in order.
pub open spec fn kept_profiles(ps: Seq<ConversionProfile>) -> Seq<ConversionProfile>
    decreases ps.len(),
{
    if ps.len() == 0 {
        seq![]
    } else if !crate::text::is_blank(ps.last().profile_id@) {
        kept_profiles(ps.drop_last()).push(ps.last())
    } else {
        kept_profiles(ps.drop_last())
    }
}

/// Whether a profile of the list has the identifier.
pub open spec fn has_profile(ps: Seq<ConversionProfile>, id: Seq<char>) -> bool {
    exists|k: int| 0 <= k < ps.len() && (#[trigger] ps[k]).profile_id@ == id
}

/// A bundle as it is saved and loaded: the profiles without an identifier
/// dropped (the default profile where none is left), and the selection
/// kept where it names one of them, else the first.
pub open spec fn canonical_from(r: ProfileBundle, bundle: ProfileBundle) -> bool {
    &&& kept_profiles(bundle.profiles@).len() > 0 ==> r.profiles@ == kept_profiles(bundle.profiles@)
    &&& kept_profiles(bundle.profiles@).len() == 0 ==> (r.profiles@.len() == 1 && r.profiles@[0].profile_id@
        == "padrao-ba-prestados"@)
    &&& r.profiles@.len() > 0
    &&& has_profile(r.profiles@, bundle.selected_profile_id@) ==> r.selected_profile_id@ == bundle.selected_profile_id@
    &&& !has_profile(r.profiles@, bundle.selected_profile_id@) ==> r.selected_profile_id@ == r.profiles@[0].profile_id@
}

pub fn canonicalize_bundle(bundle: ProfileBundle) -> (r: ProfileBundle)
    ensures
        canonical_from(r, bundle),
{
    let ProfileBundle { selected_profile_id, profiles } = bundle;
    let ghost orig = profiles@;
    let n = profiles.len();
    let mut rest = profiles;
    let mut kept: Vec<ConversionProfile> = Vec::new();
    let mut i: usize = 0;
    while rest.len() > 0
        invariant
            i + rest@.len() == orig.len(),
            orig.len() == n,
            rest@ == orig.skip(i as int),
            kept@ == kept_profiles(orig.take(i as int)),
        decreases rest@.len(),
    {
        let p = rest.remove(0);
        proof {
            assert(orig.take(i + 1).drop_last() =~= orig.take(i as int));
            assert(orig.take(i + 1).last() == p);
            assert(rest@ =~= orig.skip(i + 1));
        }
        if !crate::text::is_blank_str(p.profile_id.as_str()) {
            kept.push(p);
        }
        i = i + 1;
    }
    proof {
        assert(orig.take(i as int) =~= orig);
    }
    if kept.len() == 0 {
        kept.push(ConversionProfile::default());
    }
    let mut found = false;
    let mut k: usize = 0;
    while k < kept.len()
        invariant
            k <= kept@.len(),
            found ==> has_profile(kept@, selected_profile_id@),
            !found ==> forall|j: int| 0 <= j < k ==> (#[trigger] kept@[j]).profile_id@ != selected_profile_id@,
        decreases kept@.len() - k,
    {
        if crate::text::str_eq(kept[k].profile_id.as_str(), selected_profile_id.as_str()) {
            found = true;
        }
        k = k + 1;
    }
    let selected = if found {
        selected_profile_id
    } else {
        kept[0].profile_id.clone()
    };
    ProfileBundle { selected_profile_id: selected, profiles: kept }
}

proof fn lemma_kept_named(ps: Seq<ConversionProfile>)
    ensures
        forall|k: int| 0 <= k < kept_profiles(ps).len() ==> !crate::text::is_blank(
            (#[trigger] kept_profiles(ps)[k]).profile_id@,
        ),
        (forall|k: int| 0 <= k < ps.len() ==> !crate::text::is_blank((#[trigger] ps[k]).profile_id@))
            ==> kept_profiles(ps) == ps,
    decreases ps.len(),
{
    if ps.len() > 0 {
        lemma_kept_named(ps.drop_last());
        if forall|k: int| 0 <= k < ps.len() ==> !crate::text::is_blank((#[trigger] ps[k]).profile_id@) {
            assert(!crate::text::is_blank(ps[ps.len() - 1].profile_id@));
            assert forall|k: int| 0 <= k < ps.drop_last().len() implies !crate::text::is_blank(
                (#[trigger] ps.drop_last()[k]).profile_id@,
            ) by {
                assert(ps.drop_last()[k] == ps[k]);
            }
            assert(ps.drop_last().push(ps.last()) =~= ps);
        }
    }
}

/// Canonicalizing a canonical bundle changes nothing: the profiles and
/// the selection stay as they are.
pub proof fn law_canonical_bundle_stable(bundle: ProfileBundle, once: ProfileBundle, twice: ProfileBundle)
    requires
        canonical_from(once, bundle),
        canonical_from(twice, once),
    ensures
        twice.profiles@ == once.profiles@,
        twice.selected_profile_id@ == once.selected_profile_id@,
{
    lemma_kept_named(bundle.profiles@);
    lemma_kept_named(once.profiles@);
    if kept_profiles(bundle.profiles@).len() == 0 {
        let id = once.profiles@[0].profile_id@;
        reveal_strlit("padrao-ba-prestados");
        crate::text::lemma_blank_iff_all_ws(id);
        assert(!crate::text::is_ws(id[0]));
        assert(!crate::text::is_blank(id));
    }
    assert(kept_profiles(once.profiles@) == once.profiles@);
    assert(has_profile(once.profiles@, once.selected_profile_id@)) by {
        if has_profile(once.profiles@, bundle.selected_profile_id@) {
        } else {
            assert(once.profiles@[0].profile_id@ == once.selected_profile_id@);
        }
    }
}

} // verus!
