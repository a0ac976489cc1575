//! The standardized NFS-e XML: a document adjusted by the profile's field
//! rules and the chosen removals, and written as ABRASF-like XML.  The
//! monetary amounts arrive already written (they are floating point and
//! stay with the caller).
use vstd::prelude::*;

use crate::document::{ConversionProfile, FieldAction, FieldRule, NfseDocument, Party};
use crate::nfse_route::StandardizeXmlOptions;
use crate::rules::{apply_string_rule, string_rule};
use crate::text::{
    append_chars, append_str, ascii_lower, chars_of, copy_string, is_blank, is_blank_str, lower_seq,
    opt_or_empty, opt_string_clone, opt_text_or_empty, opt_view, string_of, trim, trim_str, utf8_len,
    utf8_len_gt,
};

verus! {

broadcast use vstd::string::group_string_axioms;

// ---------------------------------------------------------------------------
// Options and rules
// ---------------------------------------------------------------------------

/// An option's value, or its default when it is not given.
pub open spec fn flag(o: Option<bool>, default: bool) -> bool {
    match o {
        Some(b) => b,
        None => default,
    }
}

fn flag_of(o: Option<bool>, default: bool) -> (r: bool)
    ensures
        r == flag(o, default),
{
    match o {
        Some(b) => b,
        None => default,
    }
}

/// The texts a constant boolean rule of the standardized XML reads as
/// "true", trimmed and in any letter case.
pub open spec fn xml_true_text(s: Seq<char>) -> bool {
    let t = lower_seq(trim(s));
    t == "1"@ || t == "s"@ || t == "sim"@ || t == "true"@ || t == "y"@ || t == "yes"@
}

/// What a boolean rule makes of the source flag in the standardized XML.
pub open spec fn xml_bool_rule(source: bool, rule: FieldRule) -> bool {
    match rule.action {
        FieldAction::Source => source,
        FieldAction::Zero | FieldAction::Empty | FieldAction::Ignore => false,
        FieldAction::Constant => xml_true_text(opt_or_empty(rule.value)),
    }
}

pub fn apply_xml_bool_rule(source: bool, rule: &FieldRule) -> (r: bool)
    ensures
        r == xml_bool_rule(source, *rule),
{
    match rule.action {
        FieldAction::Source => source,
        FieldAction::Zero | FieldAction::Empty | FieldAction::Ignore => false,
        FieldAction::Constant => {
            let v = opt_text_or_empty(&rule.value);
            let t = trim_str(v.as_str());
            let low = ascii_lower(t.as_str());
            let s = low.as_str();
            crate::text::str_eq(s, "1") || crate::text::str_eq(s, "s") || crate::text::str_eq(s, "sim")
                || crate::text::str_eq(s, "true") || crate::text::str_eq(s, "y") || crate::text::str_eq(s, "yes")
        },
    }
}

// ---------------------------------------------------------------------------
// Standardizing a document
// ---------------------------------------------------------------------------

/// A text field after the profile's rule, when the rules apply.
pub open spec fn ruled(source: Seq<char>, rule: FieldRule, apply: bool) -> Seq<char> {
    if apply {
        string_rule(source, rule)
    } else {
        source
    }
}

/// A party kept as it was, its address (with its postal code, state and
/// municipality) dropped when asked, and its municipal registration
/// dropped when asked.
pub open spec fn party_kept(r: Party, p: Party, drop_address: bool, drop_im: bool) -> bool {
    &&& r.nome@ == p.nome@
    &&& r.documento@ == p.documento@
    &&& opt_view(r.inscricao_municipal) == if drop_im {
        None
    } else {
        opt_view(p.inscricao_municipal)
    }
    &&& opt_view(r.endereco) == if drop_address {
        None
    } else {
        opt_view(p.endereco)
    }
    &&& opt_view(r.cep) == if drop_address {
        None
    } else {
        opt_view(p.cep)
    }
    &&& opt_view(r.uf) == if drop_address {
        None
    } else {
        opt_view(p.uf)
    }
    &&& opt_view(r.municipio_codigo) == if drop_address {
        None
    } else {
        opt_view(p.municipio_codigo)
    }
    &&& opt_view(r.municipio_nome) == if drop_address {
        None
    } else {
        opt_view(p.municipio_nome)
    }
}

fn none_or(o: &Option<String>, drop: bool) -> (x: Option<String>)
    ensures
        opt_view(x) == if drop {
            None
        } else {
            opt_view(*o)
        },
{
    if drop {
        None
    } else {
        opt_string_clone(o)
    }
}

fn keep_party(p: &Party, drop_address: bool, drop_im: bool) -> (r: Party)
    ensures
        party_kept(r, *p, drop_address, drop_im),
{
    Party {
        nome: copy_string(&p.nome),
        documento: copy_string(&p.documento),
        inscricao_municipal: none_or(&p.inscricao_municipal, drop_im),
        endereco: none_or(&p.endereco, drop_address),
        municipio_codigo: none_or(&p.municipio_codigo, drop_address),
        municipio_nome: none_or(&p.municipio_nome, drop_address),
        uf: none_or(&p.uf, drop_address),
        cep: none_or(&p.cep, drop_address),
    }
}

/// `r` is `d` standardized: with the profile's text and flag rules when
/// rules apply and a profile is given, then the chosen removals; every
/// other field as it was.
pub open spec fn standardized(
    r: NfseDocument,
    d: NfseDocument,
    profile: Option<ConversionProfile>,
    o: StandardizeXmlOptions,
) -> bool {
    let apply = flag(o.apply_profile_rules, true) && profile is Some;
    let rules = profile.unwrap().field_rules;
    &&& r.id@ == d.id@
    &&& r.file_name@ == d.file_name@
    &&& r.provider@ == d.provider@
    &&& r.provider_friendly@ == d.provider_friendly@
    &&& r.layout@ == d.layout@
    &&& r.numero@ == ruled(d.numero@, rules.numero, apply)
    &&& r.serie@ == ruled(d.serie@, rules.serie, apply)
    &&& r.emissao@ == ruled(d.emissao@, rules.data_emissao, apply)
    &&& r.competencia@ == ruled(d.competencia@, rules.data_competencia, apply)
    &&& r.chave@ == if flag(o.remove_codigo_verificacao, false) {
        seq![]
    } else {
        d.chave@
    }
    &&& r.municipio_codigo@ == ruled(d.municipio_codigo@, rules.municipio, apply)
    &&& r.municipio_nome@ == ruled(d.municipio_nome@, rules.municipio, apply)
    &&& r.item_lista_servico@ == ruled(d.item_lista_servico@, rules.codigo_servico, apply)
    &&& opt_view(r.codigo_cnae) == if flag(o.remove_cnae, false) {
        None
    } else {
        opt_view(d.codigo_cnae)
    }
    &&& r.discriminacao@ == if flag(o.remove_discriminacao, false) {
        seq![]
    } else {
        ruled(d.discriminacao@, rules.observacao, apply)
    }
    &&& r.info_adic@ == if flag(o.remove_info_adicional, false) {
        seq![]
    } else {
        ruled(d.info_adic@, rules.campos_complementares, apply)
    }
    &&& party_kept(r.prestador, d.prestador, false, flag(o.remove_prestador_im, false))
    &&& party_kept(r.tomador, d.tomador, flag(o.remove_tomador_endereco, false), flag(o.remove_tomador_im, false))
    &&& r.iss_retido == if apply {
        xml_bool_rule(d.iss_retido, rules.iss_retido)
    } else {
        d.iss_retido
    }
    &&& crate::sped::texts(r.warnings@) == crate::sped::texts(d.warnings@)
}

fn ruled_text(source: &String, rule: &FieldRule, apply: bool) -> (r: String)
    ensures
        r@ == ruled(source@, *rule, apply),
{
    if apply {
        string_of(&apply_string_rule(source.as_str(), rule))
    } else {
        copy_string(source)
    }
}

/// Adjusts a document for the standardized XML: the profile's text and
/// flag rules (when rules apply and a profile is given), then the chosen
/// removals.  The amounts' rules are applied by the caller.
pub fn standardize_document_for_xml(
    document: &NfseDocument,
    profile: Option<&ConversionProfile>,
    options: &StandardizeXmlOptions,
) -> (r: NfseDocument)
    ensures
        standardized(
            r,
            *document,
            match profile {
                Some(p) => Some(*p),
                None => None,
            },
            *options,
        ),
{
    let apply = flag_of(options.apply_profile_rules, true) && profile.is_some();
    let default_rules = crate::document::ConversionFieldRules::default();
    let rules: &crate::document::ConversionFieldRules = match profile {
        Some(p) => &p.field_rules,
        None => &default_rules,
    };
    let remove_chave = flag_of(options.remove_codigo_verificacao, false);
    let remove_cnae = flag_of(options.remove_cnae, false);
    let remove_disc = flag_of(options.remove_discriminacao, false);
    let remove_info = flag_of(options.remove_info_adicional, false);
    NfseDocument {
        id: copy_string(&document.id),
        file_name: copy_string(&document.file_name),
        provider: copy_string(&document.provider),
        provider_friendly: copy_string(&document.provider_friendly),
        layout: copy_string(&document.layout),
        numero: ruled_text(&document.numero, &rules.numero, apply),
        serie: ruled_text(&document.serie, &rules.serie, apply),
        emissao: ruled_text(&document.emissao, &rules.data_emissao, apply),
        competencia: ruled_text(&document.competencia, &rules.data_competencia, apply),
        chave: if remove_chave {
            String::new()
        } else {
            copy_string(&document.chave)
        },
        municipio_codigo: ruled_text(&document.municipio_codigo, &rules.municipio, apply),
        municipio_nome: ruled_text(&document.municipio_nome, &rules.municipio, apply),
        item_lista_servico: ruled_text(&document.item_lista_servico, &rules.codigo_servico, apply),
        codigo_cnae: if remove_cnae {
            None
        } else {
            opt_string_clone(&document.codigo_cnae)
        },
        discriminacao: if remove_disc {
            String::new()
        } else {
            ruled_text(&document.discriminacao, &rules.observacao, apply)
        },
        info_adic: if remove_info {
            String::new()
        } else {
            ruled_text(&document.info_adic, &rules.campos_complementares, apply)
        },
        prestador: keep_party(&document.prestador, false, flag_of(options.remove_prestador_im, false)),
        tomador: keep_party(
            &document.tomador,
            flag_of(options.remove_tomador_endereco, false),
            flag_of(options.remove_tomador_im, false),
        ),
        iss_retido: if apply {
            apply_xml_bool_rule(document.iss_retido, &rules.iss_retido)
        } else {
            document.iss_retido
        },
        warnings: crate::license_service::copy_strings(&document.warnings),
    }
}

// ---------------------------------------------------------------------------
// Writing the XML
// ---------------------------------------------------------------------------

/// The amounts of a document, already written: the service value, the
/// calculation base, the ISS, the rate, the net value and the PIS, COFINS,
/// INSS and income tax withheld.
pub struct StandardXmlAmounts {
    pub valor_servicos: String,
    pub base_calculo: String,
    pub valor_iss: String,
    pub aliquota: String,
    pub valor_liquido: String,
    pub valor_pis: String,
    pub valor_cofins: String,
    pub valor_inss: String,
    pub valor_ir: String,
}

/// A character as XML text: `&`, `<`, `>`, `"` and `'` as entities.
pub open spec fn escape_char(c: char) -> Seq<char> {
    if c == '&' {
        "&amp;"@
    } else if c == '<' {
        "&lt;"@
    } else if c == '>' {
        "&gt;"@
    } else if c == '"' {
        "&quot;"@
    } else if c == '\'' {
        "&apos;"@
    } else {
        seq![c]
    }
}

/// A text as XML text.
pub open spec fn escape_xml(s: Seq<char>) -> Seq<char>
    decreases s.len(),
{
    if s.len() == 0 {
        seq![]
    } else {
        escape_xml(s.drop_last()) + escape_char(s.last())
    }
}

pub open spec fn spaces(n: nat) -> Seq<char> {
    Seq::new(n, |i: int| ' ')
}

/// One element on its own line, indented; nothing for a blank value.
pub open spec fn tag_line(indent: nat, tag: Seq<char>, value: Seq<char>) -> Seq<char> {
    if is_blank(value) {
        seq![]
    } else {
        spaces(indent) + "<"@ + tag + ">"@ + escape_xml(value) + "</"@ + tag + ">\n"@
    }
}

/// An optional element: its line when the value is given.
pub open spec fn opt_tag_line(indent: nat, tag: Seq<char>, value: Option<String>) -> Seq<char> {
    match value {
        Some(v) => tag_line(indent, tag, v@),
        None => seq![],
    }
}

/// `Cpf` for a document of at most eleven bytes, else `Cnpj`.
pub open spec fn cpf_or_cnpj(doc: Seq<char>) -> Seq<char> {
    if utf8_len(doc) <= 11 {
        "Cpf"@
    } else {
        "Cnpj"@
    }
}

/// The opening of the root element for a target layout.
pub open spec fn comp_open(target: Seq<char>) -> Seq<char> {
    if target == "abrasf_v1"@ {
        "<CompNfse xmlns=\"http://www.abrasf.org.br/nfse.xsd\">\n"@
    } else if target == "salvador_like"@ {
        "<CompNfse xmlns=\"http://www.abrasf.org.br/nfse.xsd\" versao=\"salvador-like\">\n"@
    } else {
        "<CompNfse xmlns=\"http://www.abrasf.org.br/nfse.xsd\" versao=\"2.04\">\n"@
    }
}

pub open spec fn xml_open(d: NfseDocument, o: StandardizeXmlOptions) -> Seq<char> {
    "<?xml version=\"1.0\" encoding=\"UTF-8\"?>\n"@ + comp_open(o.target@) + "  <Nfse>\n"@
        + "    <InfNfse Id=\""@ + escape_xml(d.id@) + "\">\n"@
}

pub open spec fn xml_ids(d: NfseDocument) -> Seq<char> {
    tag_line(6, "Numero"@, d.numero@) + tag_line(6, "CodigoVerificacao"@, d.chave@) + tag_line(
        6,
        "DataEmissao"@,
        d.emissao@,
    ) + tag_line(6, "Competencia"@, d.competencia@)
}

/// The declaration, the root for the target, and the note's number,
/// verification code and dates.
pub open spec fn xml_head(d: NfseDocument, o: StandardizeXmlOptions) -> Seq<char> {
    xml_open(d, o) + xml_ids(d)
}

pub open spec fn xml_values_open(a: StandardXmlAmounts, o: StandardizeXmlOptions) -> Seq<char> {
    let keep_only = flag(o.keep_only_iss_retido, false);
    "      <Servico>\n"@ + "        <Valores>\n"@ + tag_line(10, "ValorServicos"@, a.valor_servicos@)
        + tag_line(10, "BaseCalculo"@, a.base_calculo@) + (if !keep_only && !flag(o.remove_iss_value, false) {
        tag_line(10, "ValorIss"@, a.valor_iss@)
    } else {
        seq![]
    }) + (if !keep_only && !flag(o.remove_iss_aliquota, false) {
        tag_line(10, "Aliquota"@, a.aliquota@)
    } else {
        seq![]
    })
}

pub open spec fn xml_values_rest(d: NfseDocument, a: StandardXmlAmounts) -> Seq<char> {
    tag_line(10, "ValorLiquidoNfse"@, a.valor_liquido@) + tag_line(10, "ValorPis"@, a.valor_pis@)
        + tag_line(10, "ValorCofins"@, a.valor_cofins@) + tag_line(10, "ValorInss"@, a.valor_inss@)
        + tag_line(10, "ValorIr"@, a.valor_ir@) + tag_line(
        10,
        "IssRetido"@,
        if d.iss_retido {
            "1"@
        } else {
            "2"@
        },
    ) + "        </Valores>\n"@
}

/// The service's amounts: the ISS value and rate left out when asked (or
/// when only the withholding is kept).
pub open spec fn xml_values(d: NfseDocument, a: StandardXmlAmounts, o: StandardizeXmlOptions) -> Seq<char> {
    xml_values_open(a, o) + xml_values_rest(d, a)
}

pub open spec fn xml_service(d: NfseDocument) -> Seq<char> {
    tag_line(8, "ItemListaServico"@, d.item_lista_servico@) + opt_tag_line(8, "CodigoCnae"@, d.codigo_cnae)
        + tag_line(8, "Discriminacao"@, d.discriminacao@) + tag_line(8, "CodigoMunicipio"@, d.municipio_codigo@)
        + "      </Servico>\n"@
}

pub open spec fn xml_provider(d: NfseDocument) -> Seq<char> {
    "      <PrestadorServico>\n"@ + tag_line(8, cpf_or_cnpj(d.prestador.documento@), d.prestador.documento@)
        + opt_tag_line(8, "InscricaoMunicipal"@, d.prestador.inscricao_municipal) + "      </PrestadorServico>\n"@
}

pub open spec fn xml_taker(d: NfseDocument, o: StandardizeXmlOptions) -> Seq<char> {
    "      <TomadorServico>\n"@ + "        <IdentificacaoTomador>\n"@ + "          <CpfCnpj>\n"@ + tag_line(
        12,
        cpf_or_cnpj(d.tomador.documento@),
        d.tomador.documento@,
    ) + "          </CpfCnpj>\n"@ + opt_tag_line(10, "InscricaoMunicipal"@, d.tomador.inscricao_municipal)
        + "        </IdentificacaoTomador>\n"@ + tag_line(8, "RazaoSocial"@, d.tomador.nome@) + (if !flag(
        o.remove_incompatible_tags,
        true,
    ) {
        opt_tag_line(8, "EnderecoLivre"@, d.tomador.endereco)
    } else {
        seq![]
    }) + "      </TomadorServico>\n"@
}

/// The standardized XML of a document.
pub open spec fn standard_xml(d: NfseDocument, a: StandardXmlAmounts, o: StandardizeXmlOptions) -> Seq<char> {
    xml_head(d, o) + xml_values(d, a, o) + xml_service(d) + xml_provider(d) + xml_taker(d, o)
        + "    </InfNfse>\n"@ + "  </Nfse>\n"@ + "</CompNfse>\n"@
}

fn put_escaped(out: &mut Vec<char>, value: &str)
    ensures
        final(out)@ == old(out)@ + escape_xml(value@),
{
    let v = chars_of(value);
    let ghost start = out@;
    for i in 0..v.len()
        invariant
            out@ == start + escape_xml(v@.take(i as int)),
    {
        let c = v[i];
        let ghost before = out@;
        if c == '&' {
            append_str(out, "&amp;");
        } else if c == '<' {
            append_str(out, "&lt;");
        } else if c == '>' {
            append_str(out, "&gt;");
        } else if c == '"' {
            append_str(out, "&quot;");
        } else if c == '\'' {
            append_str(out, "&apos;");
        } else {
            out.push(c);
        }
        proof {
            assert(v@.take(i + 1).drop_last() =~= v@.take(i as int));
            assert(out@ =~= before + escape_char(c));
            assert(out@ =~= start + escape_xml(v@.take(i + 1)));
        }
    }
    proof {
        assert(v@.take(v@.len() as int) =~= v@);
    }
}

fn put_tag(out: &mut Vec<char>, indent: usize, tag: &str, value: &str)
    ensures
        final(out)@ == old(out)@ + tag_line(indent as nat, tag@, value@),
{
    let ghost start = out@;
    if is_blank_str(value) {
        proof {
            assert(start + Seq::<char>::empty() =~= start);
        }
        return;
    }
    for i in 0..indent
        invariant
            out@ == start + spaces(i as nat),
    {
        out.push(' ');
        proof {
            assert(start + spaces((i + 1) as nat) =~= (start + spaces(i as nat)).push(' '));
        }
    }
    append_str(out, "<");
    append_str(out, tag);
    append_str(out, ">");
    put_escaped(out, value);
    append_str(out, "</");
    append_str(out, tag);
    append_str(out, ">\n");
    proof {
        assert(out@ =~= start + tag_line(indent as nat, tag@, value@));
    }
}

fn put_tag_if(out: &mut Vec<char>, cond: bool, indent: usize, tag: &str, value: &str)
    ensures
        final(out)@ == old(out)@ + if cond {
            tag_line(indent as nat, tag@, value@)
        } else {
            seq![]
        },
{
    if cond {
        put_tag(out, indent, tag, value);
    } else {
        proof {
            assert(old(out)@ + Seq::<char>::empty() =~= old(out)@);
        }
    }
}

fn put_opt_tag(out: &mut Vec<char>, indent: usize, tag: &str, value: &Option<String>)
    ensures
        final(out)@ == old(out)@ + opt_tag_line(indent as nat, tag@, *value),
{
    match value {
        Some(v) => put_tag(out, indent, tag, v.as_str()),
        None => {
            proof {
                assert(old(out)@ + Seq::<char>::empty() =~= old(out)@);
            }
        },
    }
}

fn doc_tag(doc: &String) -> (r: &'static str)
    ensures
        r@ == cpf_or_cnpj(doc@),
{
    let v = chars_of(doc.as_str());
    if utf8_len_gt(&v, 11) {
        "Cnpj"
    } else {
        "Cpf"
    }
}

fn put_comp_open(out: &mut Vec<char>, target: &str)
    ensures
        final(out)@ == old(out)@ + comp_open(target@),
{
    if crate::text::str_eq(target, "abrasf_v1") {
        append_str(out, "<CompNfse xmlns=\"http://www.abrasf.org.br/nfse.xsd\">\n");
    } else if crate::text::str_eq(target, "salvador_like") {
        append_str(out, "<CompNfse xmlns=\"http://www.abrasf.org.br/nfse.xsd\" versao=\"salvador-like\">\n");
    } else {
        append_str(out, "<CompNfse xmlns=\"http://www.abrasf.org.br/nfse.xsd\" versao=\"2.04\">\n");
    }
}

fn put_open(out: &mut Vec<char>, d: &NfseDocument, o: &StandardizeXmlOptions)
    ensures
        final(out)@ == old(out)@ + xml_open(*d, *o),
{
    let ghost start = out@;
    append_str(out, "<?xml version=\"1.0\" encoding=\"UTF-8\"?>\n");
    put_comp_open(out, o.target.as_str());
    append_str(out, "  <Nfse>\n");
    append_str(out, "    <InfNfse Id=\"");
    put_escaped(out, d.id.as_str());
    append_str(out, "\">\n");
    proof {
        assert(out@ =~= start + xml_open(*d, *o));
    }
}

fn put_ids(out: &mut Vec<char>, d: &NfseDocument)
    ensures
        final(out)@ == old(out)@ + xml_ids(*d),
{
    let ghost start = out@;
    put_tag(out, 6, "Numero", d.numero.as_str());
    put_tag(out, 6, "CodigoVerificacao", d.chave.as_str());
    put_tag(out, 6, "DataEmissao", d.emissao.as_str());
    put_tag(out, 6, "Competencia", d.competencia.as_str());
    proof {
        assert(out@ =~= start + xml_ids(*d));
    }
}

fn put_head(out: &mut Vec<char>, d: &NfseDocument, o: &StandardizeXmlOptions)
    ensures
        final(out)@ == old(out)@ + xml_head(*d, *o),
{
    let ghost start = out@;
    put_open(out, d, o);
    put_ids(out, d);
    proof {
        assert(out@ =~= start + xml_head(*d, *o));
    }
}

fn put_values_open(out: &mut Vec<char>, a: &StandardXmlAmounts, o: &StandardizeXmlOptions)
    ensures
        final(out)@ == old(out)@ + xml_values_open(*a, *o),
{
    let ghost start = out@;
    let keep_only = flag_of(o.keep_only_iss_retido, false);
    append_str(out, "      <Servico>\n");
    append_str(out, "        <Valores>\n");
    put_tag(out, 10, "ValorServicos", a.valor_servicos.as_str());
    put_tag(out, 10, "BaseCalculo", a.base_calculo.as_str());
    put_tag_if(out, !keep_only && !flag_of(o.remove_iss_value, false), 10, "ValorIss", a.valor_iss.as_str());
    put_tag_if(out, !keep_only && !flag_of(o.remove_iss_aliquota, false), 10, "Aliquota", a.aliquota.as_str());
    proof {
        assert(out@ =~= start + xml_values_open(*a, *o));
    }
}

fn put_values_rest(out: &mut Vec<char>, d: &NfseDocument, a: &StandardXmlAmounts)
    ensures
        final(out)@ == old(out)@ + xml_values_rest(*d, *a),
{
    let ghost start = out@;
    put_tag(out, 10, "ValorLiquidoNfse", a.valor_liquido.as_str());
    put_tag(out, 10, "ValorPis", a.valor_pis.as_str());
    put_tag(out, 10, "ValorCofins", a.valor_cofins.as_str());
    put_tag(out, 10, "ValorInss", a.valor_inss.as_str());
    put_tag(out, 10, "ValorIr", a.valor_ir.as_str());
    put_tag(
        out,
        10,
        "IssRetido",
        if d.iss_retido {
            "1"
        } else {
            "2"
        },
    );
    append_str(out, "        </Valores>\n");
    proof {
        assert(out@ =~= start + xml_values_rest(*d, *a));
    }
}

fn put_values(out: &mut Vec<char>, d: &NfseDocument, a: &StandardXmlAmounts, o: &StandardizeXmlOptions)
    ensures
        final(out)@ == old(out)@ + xml_values(*d, *a, *o),
{
    let ghost start = out@;
    put_values_open(out, a, o);
    put_values_rest(out, d, a);
    proof {
        assert(out@ =~= start + xml_values(*d, *a, *o));
    }
}

fn put_service(out: &mut Vec<char>, d: &NfseDocument)
    ensures
        final(out)@ == old(out)@ + xml_service(*d),
{
    let ghost start = out@;
    put_tag(out, 8, "ItemListaServico", d.item_lista_servico.as_str());
    put_opt_tag(out, 8, "CodigoCnae", &d.codigo_cnae);
    put_tag(out, 8, "Discriminacao", d.discriminacao.as_str());
    put_tag(out, 8, "CodigoMunicipio", d.municipio_codigo.as_str());
    append_str(out, "      </Servico>\n");
    proof {
        assert(out@ =~= start + xml_service(*d));
    }
}

fn put_provider(out: &mut Vec<char>, d: &NfseDocument)
    ensures
        final(out)@ == old(out)@ + xml_provider(*d),
{
    let ghost start = out@;
    append_str(out, "      <PrestadorServico>\n");
    put_tag(out, 8, doc_tag(&d.prestador.documento), d.prestador.documento.as_str());
    put_opt_tag(out, 8, "InscricaoMunicipal", &d.prestador.inscricao_municipal);
    append_str(out, "      </PrestadorServico>\n");
    proof {
        assert(out@ =~= start + xml_provider(*d));
    }
}

fn put_taker(out: &mut Vec<char>, d: &NfseDocument, o: &StandardizeXmlOptions)
    ensures
        final(out)@ == old(out)@ + xml_taker(*d, *o),
{
    let ghost start = out@;
    append_str(out, "      <TomadorServico>\n");
    append_str(out, "        <IdentificacaoTomador>\n");
    append_str(out, "          <CpfCnpj>\n");
    put_tag(out, 12, doc_tag(&d.tomador.documento), d.tomador.documento.as_str());
    append_str(out, "          </CpfCnpj>\n");
    put_opt_tag(out, 10, "InscricaoMunicipal", &d.tomador.inscricao_municipal);
    append_str(out, "        </IdentificacaoTomador>\n");
    put_tag(out, 8, "RazaoSocial", d.tomador.nome.as_str());
    if !flag_of(o.remove_incompatible_tags, true) {
        put_opt_tag(out, 8, "EnderecoLivre", &d.tomador.endereco);
    } else {
        proof {
            assert(out@ + Seq::<char>::empty() =~= out@);
        }
    }
    append_str(out, "      </TomadorServico>\n");
    proof {
        assert(out@ =~= start + xml_taker(*d, *o));
    }
}

/// Writes a standardized document as XML (see `standard_xml`).
pub fn export_document_to_standard_xml(
    document: &NfseDocument,
    amounts: &StandardXmlAmounts,
    options: &StandardizeXmlOptions,
) -> (r: String)
    ensures
        r@ == standard_xml(*document, *amounts, *options),
{
    let mut out: Vec<char> = Vec::new();
    put_head(&mut out, document, options);
    put_values(&mut out, document, amounts, options);
    put_service(&mut out, document);
    put_provider(&mut out, document);
    put_taker(&mut out, document, options);
    append_str(&mut out, "    </InfNfse>\n");
    append_str(&mut out, "  </Nfse>\n");
    append_str(&mut out, "</CompNfse>\n");
    proof {
        assert(out@ =~= standard_xml(*document, *amounts, *options));
    }
    string_of(&out)
}

} // verus!
