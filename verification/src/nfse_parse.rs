//! Reading NFS-e XML into documents: the searches by exact element name,
//! the text clean-ups of the readers, the ABRASF v2 and Ubaíra readers and
//! the dispatch by layout.
//!
//! The amounts of a document are floating point where they are used; this
//! module hands over, for each amount, the text that is read as a number
//! (`NfseAmountTexts`), and the caller reads it.
use vstd::prelude::*;

use crate::document::{ConversionProfile, NfseDocument, Party};
use crate::license_service::{first_non_empty, first_non_empty_spec};
use crate::money::{contains_char_vec, swap_char, swap_char_chars, without_char, without_char_chars};
use crate::nfse_route::{
    detect_provider, layout_provider, normalize_xml_for_parsing, provider_from_layout, provider_of,
    root_index, xml_for_parsing, ProviderKind,
};
use crate::sped::texts;
use crate::text::{
    chars_eq, chars_of, contains_char, contains_text, digits, is_blank, is_blank_str, is_digit, only_digits,
    only_digits_chars, opt_view, replace, replace_chars, squash_ws, squash_ws_chars, str_contains, str_eq,
    string_of, to_uppercase_str, trim, trim_chars, trim_str, unicode_upper, zero_pad, zero_pad_chars,
};
use crate::xml_tree::{
    index_ok, index_view, make_index, node_view, opt_index, parse_xml_nodes, subtree_end, subtree_end_exec, xml_document,
    XmlIndex, XmlNodeView, same_name,
};

verus! {

broadcast use vstd::string::group_string_axioms;

// ---------------------------------------------------------------------------
// Searches by exact name
// ---------------------------------------------------------------------------

/// An element whose local name is exactly `tag`.
pub open spec fn is_named(n: XmlNodeView, tag: Seq<char>) -> bool {
    n.0 && n.1 == tag
}

/// The first element named `tag` among the nodes at `j .. end`.
pub open spec fn find_named(ns: Seq<XmlNodeView>, j: int, end: int, tag: Seq<char>) -> Option<int>
    decreases end - j,
{
    if j >= end || j < 0 || j >= ns.len() {
        None
    } else if is_named(ns[j], tag) {
        Some(j)
    } else {
        find_named(ns, j + 1, end, tag)
    }
}

/// The first element named `tag` in the whole document.
pub open spec fn first_named(ns: Seq<XmlNodeView>, tag: Seq<char>) -> Option<int> {
    find_named(ns, 0, ns.len() as int, tag)
}

/// The first element named `tag` in the subtree of the node at `i`, the
/// node itself included.
pub open spec fn named_under(ns: Seq<XmlNodeView>, i: int, tag: Seq<char>) -> Option<int> {
    find_named(ns, i, subtree_end(ns, i), tag)
}

/// The trimmed text of the first element named `tag` under the node at
/// `i`, or the empty text.
pub open spec fn text_under(ns: Seq<XmlNodeView>, i: int, tag: Seq<char>) -> Seq<char> {
    match named_under(ns, i, tag) {
        Some(j) => match ns[j].2 {
            Some(t) => trim(t),
            None => seq![],
        },
        None => seq![],
    }
}

/// The first element named `tag` under the node at `i`, else that node.
pub open spec fn under_or_self(ns: Seq<XmlNodeView>, i: int, tag: Seq<char>) -> int {
    match named_under(ns, i, tag) {
        Some(j) => j,
        None => i,
    }
}

/// The namespace of the root element, empty where it has none.
pub open spec fn root_namespace(ns: Seq<XmlNodeView>) -> Seq<char> {
    let k = root_index(ns, 0);
    if k >= 0 {
        match ns[k].6 {
            Some(n) => n,
            None => seq![],
        }
    } else {
        seq![]
    }
}

pub proof fn lemma_find_named_bounds(ns: Seq<XmlNodeView>, j: int, end: int, tag: Seq<char>)
    ensures
        find_named(ns, j, end, tag) matches Some(k) ==> j <= k < end && 0 <= k < ns.len() && is_named(ns[k], tag),
    decreases end - j,
{
    if !(j >= end || j < 0 || j >= ns.len()) && !is_named(ns[j], tag) {
        lemma_find_named_bounds(ns, j + 1, end, tag);
    }
}

/// The first element named `tag` among the nodes at `j .. end`.
pub fn find_named_exec(x: &XmlIndex, j: usize, end: usize, tag: &Vec<char>) -> (r: Option<usize>)
    requires
        index_ok(*x),
    ensures
        opt_index(r) == find_named(index_view(*x), j as int, end as int, tag@),
        r matches Some(k) ==> k < x.nodes@.len(),
{
    let ghost ns = index_view(*x);
    let mut k = j;
    while k < end && k < x.nodes.len()
        invariant
            index_ok(*x),
            ns == index_view(*x),
            j <= k,
            find_named(ns, j as int, end as int, tag@) == find_named(ns, k as int, end as int, tag@),
        decreases end - k,
    {
        assert(ns[k as int] == node_view(x.nodes@[k as int]));
        if x.nodes[k].element && chars_eq(&x.names[k], tag) {
            return Some(k);
        }
        k = k + 1;
    }
    None
}

/// The first element named `tag` in the subtree of the node at `i`.
pub fn named_under_exec(x: &XmlIndex, i: usize, tag: &str) -> (r: Option<usize>)
    requires
        index_ok(*x),
        i < x.nodes@.len(),
    ensures
        opt_index(r) == named_under(index_view(*x), i as int, tag@),
        r matches Some(k) ==> k < x.nodes@.len(),
{
    let end = subtree_end_exec(x, i);
    let t = chars_of(tag);
    find_named_exec(x, i, end, &t)
}

/// The trimmed text of the first element named `tag` under the node at `i`.
pub fn text_under_exec(x: &XmlIndex, i: usize, tag: &str) -> (r: String)
    requires
        index_ok(*x),
        i < x.nodes@.len(),
    ensures
        r@ == text_under(index_view(*x), i as int, tag@),
{
    match named_under_exec(x, i, tag) {
        Some(j) => {
            assert(index_view(*x)[j as int] == node_view(x.nodes@[j as int]));
            match &x.nodes[j].text {
                Some(t) => {
                    let v = chars_of(t.as_str());
                    string_of(&trim_chars(&v))
                },
                None => String::new(),
            }
        },
        None => String::new(),
    }
}

/// The first element named `tag` under the node at `i`, else that node.
fn under_or_self_exec(x: &XmlIndex, i: usize, tag: &str) -> (r: usize)
    requires
        index_ok(*x),
        i < x.nodes@.len(),
    ensures
        r as int == under_or_self(index_view(*x), i as int, tag@),
        r < x.nodes@.len(),
{
    match named_under_exec(x, i, tag) {
        Some(j) => j,
        None => i,
    }
}

/// The namespace of the root element.
fn root_namespace_exec(x: &XmlIndex) -> (r: String)
    requires
        index_ok(*x),
    ensures
        r@ == root_namespace(index_view(*x)),
{
    let ghost ns = index_view(*x);
    let mut k: usize = 0;
    while k < x.nodes.len() && !x.nodes[k].element
        invariant
            ns == index_view(*x),
            k <= x.nodes@.len(),
            root_index(ns, 0) == root_index(ns, k as int),
        decreases x.nodes@.len() - k,
    {
        assert(ns[k as int] == node_view(x.nodes@[k as int]));
        k = k + 1;
    }
    if k < x.nodes.len() {
        assert(ns[k as int] == node_view(x.nodes@[k as int]));
        match &x.nodes[k].namespace {
            Some(n) => n.clone(),
            None => String::new(),
        }
    } else {
        String::new()
    }
}

// ---------------------------------------------------------------------------
// Text clean-ups
// ---------------------------------------------------------------------------

/// The text an amount is read from: trimmed, spaces dropped; where it has
/// both `,` and `.`, the dots are thousand marks and the comma the decimal
/// mark; where it has only a comma, that is the decimal mark.
pub open spec fn decimal_source(v: Seq<char>) -> Seq<char> {
    let raw = without_char(trim(v), ' ');
    if contains_char(raw, ',') && contains_char(raw, '.') {
        swap_char(without_char(raw, '.'), ',', '.')
    } else if contains_char(raw, ',') {
        swap_char(raw, ',', '.')
    } else {
        raw
    }
}

/// The text of an amount as it is handed to the number reader.
pub fn parse_decimal_text(value: &str) -> (r: String)
    ensures
        r@ == decimal_source(value@),
{
    let v = chars_of(value);
    let raw = without_char_chars(&trim_chars(&v), ' ');
    let has_comma = contains_char_vec(&raw, ',');
    if has_comma && contains_char_vec(&raw, '.') {
        string_of(&swap_char_chars(&without_char_chars(&raw, '.'), ',', '.'))
    } else if has_comma {
        string_of(&swap_char_chars(&raw, ',', '.'))
    } else {
        string_of(&raw)
    }
}

/// The digits of a text, none where it has none.
pub open spec fn digits_option(v: Seq<char>) -> Option<Seq<char>> {
    if digits(v).len() == 0 {
        None
    } else {
        Some(digits(v))
    }
}

pub fn optional_digits(value: &str) -> (r: Option<String>)
    ensures
        opt_view(r) == digits_option(value@),
{
    let d = only_digits(value);
    if d.as_str().is_empty() {
        None
    } else {
        Some(d)
    }
}

/// A text, none where it is blank.
pub open spec fn blank_none(v: Seq<char>) -> Option<Seq<char>> {
    if is_blank(v) {
        None
    } else {
        Some(v)
    }
}

pub fn option_string(value: String) -> (r: Option<String>)
    ensures
        opt_view(r) == blank_none(value@),
{
    if is_blank_str(value.as_str()) {
        None
    } else {
        Some(value)
    }
}

/// A text, or the fallback where it is blank.
pub open spec fn or_fallback(primary: Seq<char>, fallback: Seq<char>) -> Seq<char> {
    if is_blank(primary) {
        fallback
    } else {
        primary
    }
}

pub fn fallback_text(primary: String, fallback: &str) -> (r: String)
    ensures
        r@ == or_fallback(primary@, fallback@),
{
    if is_blank_str(primary.as_str()) {
        fallback.to_string()
    } else {
        primary
    }
}

/// A service code: its digits, zero-padded to four where it has one to
/// four of them.
pub open spec fn service_code_of(v: Seq<char>) -> Seq<char> {
    let d = digits(v);
    if 0 < d.len() <= 4 {
        zero_pad(d, 4)
    } else {
        d
    }
}

pub fn normalize_service_code(value: &str) -> (r: String)
    ensures
        r@ == service_code_of(value@),
{
    let v = chars_of(value);
    let d = only_digits_chars(&v);
    if d.len() <= 4 && d.len() > 0 {
        string_of(&zero_pad_chars(&d, 4))
    } else {
        string_of(&d)
    }
}

/// A free text on one line: the line breaks written as markup become
/// spaces and every run of white space one space, none at the ends.
pub open spec fn sanitized(v: Seq<char>) -> Seq<char> {
    let a = replace(v, "<BR />"@, " "@);
    let b = replace(a, "<BR/>"@, " "@);
    let c = replace(b, "<br />"@, " "@);
    let d = replace(c, "<br/>"@, " "@);
    let e = replace(d, "\\s\\n"@, " "@);
    squash_ws(e)
}

pub fn sanitize(value: &str) -> (r: String)
    ensures
        r@ == sanitized(value@),
{
    proof {
        reveal_strlit("<BR />");
        reveal_strlit("<BR/>");
        reveal_strlit("<br />");
        reveal_strlit("<br/>");
        reveal_strlit("\\s\\n");
    }
    let v = chars_of(value);
    let sp = chars_of(" ");
    let a = replace_chars(&v, &chars_of("<BR />"), &sp);
    let b = replace_chars(&a, &chars_of("<BR/>"), &sp);
    let c = replace_chars(&b, &chars_of("<br />"), &sp);
    let d = replace_chars(&c, &chars_of("<br/>"), &sp);
    let e = replace_chars(&d, &chars_of("\\s\\n"), &sp);
    string_of(&squash_ws_chars(&e))
}

/// Whether every character is an ASCII digit (the empty text included).
pub open spec fn all_digits(s: Seq<char>) -> bool {
    forall|k: int| 0 <= k < s.len() ==> is_digit(#[trigger] s[k])
}

fn all_digits_exec(v: &Vec<char>) -> (r: bool)
    ensures
        r == all_digits(v@),
{
    for i in 0..v.len()
        invariant
            forall|k: int| 0 <= k < i ==> is_digit(#[trigger] v@[k]),
    {
        if !crate::text::is_digit_char(v[i]) {
            return false;
        }
    }
    true
}

/// The IBGE code and name of a municipality written as a code or a name:
/// the known codes of Bahia give their names; another code stands for
/// itself; a name is upper-cased, and the known names give their codes.
pub open spec fn municipio_of(raw: Seq<char>) -> (Seq<char>, Seq<char>) {
    let n = trim(raw);
    if n == "2928703"@ {
        ("2928703"@, "SANTO ANTÔNIO DE JESUS"@)
    } else if n == "2932101"@ {
        ("2932101"@, "UBAÍRA"@)
    } else if n == "2927408"@ {
        ("2927408"@, "SALVADOR"@)
    } else if n == "2930709"@ {
        ("2930709"@, "SIMÕES FILHO"@)
    } else if n == "2910809"@ || n == "2910800"@ {
        ("2910809"@, "FEIRA DE SANTANA"@)
    } else if n == "2905700"@ {
        ("2905700"@, "CAMAÇARI"@)
    } else if n == "2933307"@ {
        ("2933307"@, "VITÓRIA DA CONQUISTA"@)
    } else if all_digits(n) {
        (n, n)
    } else {
        let up = unicode_upper(n);
        let code = if up == "SANTO ANTONIO DE JESUS"@ || up == "SANTO ANTÔNIO DE JESUS"@ {
            "2928703"@
        } else if up == "UBAIRA"@ || up == "UBAÍRA"@ {
            "2932101"@
        } else if up == "FEIRA DE SANTANA"@ {
            "2910809"@
        } else {
            seq![]
        };
        (code, up)
    }
}

pub fn resolve_municipio(raw: &str) -> (r: (String, String))
    ensures
        (r.0@, r.1@) == municipio_of(raw@),
{
    let n = trim_str(raw);
    let s = n.as_str();
    if str_eq(s, "2928703") {
        ("2928703".to_string(), "SANTO ANTÔNIO DE JESUS".to_string())
    } else if str_eq(s, "2932101") {
        ("2932101".to_string(), "UBAÍRA".to_string())
    } else if str_eq(s, "2927408") {
        ("2927408".to_string(), "SALVADOR".to_string())
    } else if str_eq(s, "2930709") {
        ("2930709".to_string(), "SIMÕES FILHO".to_string())
    } else if str_eq(s, "2910809") || str_eq(s, "2910800") {
        ("2910809".to_string(), "FEIRA DE SANTANA".to_string())
    } else if str_eq(s, "2905700") {
        ("2905700".to_string(), "CAMAÇARI".to_string())
    } else if str_eq(s, "2933307") {
        ("2933307".to_string(), "VITÓRIA DA CONQUISTA".to_string())
    } else if all_digits_exec(&chars_of(s)) {
        (n.clone(), n.clone())
    } else {
        let upper = to_uppercase_str(s);
        let u = upper.as_str();
        let code = if str_eq(u, "SANTO ANTONIO DE JESUS") || str_eq(u, "SANTO ANTÔNIO DE JESUS") {
            "2928703".to_string()
        } else if str_eq(u, "UBAIRA") || str_eq(u, "UBAÍRA") {
            "2932101".to_string()
        } else if str_eq(u, "FEIRA DE SANTANA") {
            "2910809".to_string()
        } else {
            String::new()
        };
        (code, upper)
    }
}


// ---------------------------------------------------------------------------
// Outside calls
// ---------------------------------------------------------------------------

/// Names what the pattern `(\d{44})` of the `regex` crate captures first in
/// a text (its `\d` is any Unicode decimal digit), the empty text where it
/// finds nothing.
pub uninterp spec fn chave_capture(text: Seq<char>) -> Seq<char>;

/// Finds an access key in a free text with the `regex` crate: the first run
/// of 44 decimal digits, or the empty text.  The result is named; of it the
/// contract states that it is empty or a piece of the text 44 characters
/// long.
#[verifier::external_body]
fn extract_chave(text: &str) -> (r: String)
    ensures
        r@ == chave_capture(text@),
        r@.len() == 0 || (r@.len() == 44 && contains_text(text@, r@)),
{
    let re = match regex::Regex::new("(\\d{44})") {
        Ok(re) => re,
        Err(_) => return String::new(),
    };
    match re.captures(text).and_then(|caps| caps.get(1)) {
        Some(m) => m.as_str().to_string(),
        None => String::new(),
    }
}

/// A fresh identifier from `uuid::Uuid::new_v4`, written in its hyphenated
/// lower-case form.  Which one comes out is chance; every outcome is 36
/// characters long, with hyphens at 8, 13, 18 and 23 and the version digit
/// `4` at 14.
#[verifier::external_body]
fn new_document_id() -> (r: String)
    ensures
        r@.len() == 36,
        r@[8] == '-',
        r@[13] == '-',
        r@[18] == '-',
        r@[23] == '-',
        r@[14] == '4',
{
    uuid::Uuid::new_v4().to_string()
}

// ---------------------------------------------------------------------------
// Reading a document
// ---------------------------------------------------------------------------

/// For each amount of an NFS-e, the text that is read as its number.
#[derive(Debug, Clone)]
pub struct NfseAmountTexts {
    pub valor_servicos: String,
    pub base_calculo: String,
    pub valor_iss: String,
    pub aliquota_iss: String,
    pub valor_liquido: String,
    pub valor_irrf: String,
    pub valor_pis: String,
    pub valor_cofins: String,
    pub valor_csll: String,
    pub valor_inss: String,
}

/// A document as read from its XML, with the texts of its amounts.
#[derive(Debug, Clone)]
pub struct NfseReading {
    pub document: NfseDocument,
    pub amounts: NfseAmountTexts,
}

/// A party read from the element at `k`.
pub open spec fn party_read(p: Party, ns: Seq<XmlNodeView>, k: int) -> bool {
    &&& p.nome@ == text_under(ns, k, "RazaoSocial"@)
    &&& p.documento@ == digits(first_non_empty_spec(seq![text_under(ns, k, "Cnpj"@), text_under(ns, k, "Cpf"@)]))
    &&& opt_view(p.inscricao_municipal) == blank_none(text_under(ns, k, "InscricaoMunicipal"@))
    &&& opt_view(p.endereco) == blank_none(text_under(ns, k, "Endereco"@))
    &&& opt_view(p.municipio_codigo) == blank_none(text_under(ns, k, "CodigoMunicipio"@))
    &&& p.municipio_nome is None
    &&& opt_view(p.uf) == blank_none(text_under(ns, k, "Uf"@))
    &&& opt_view(p.cep) == blank_none(digits(text_under(ns, k, "Cep"@)))
}

/// The amounts read from the element at `inf`.
pub open spec fn amounts_read(a: NfseAmountTexts, ns: Seq<XmlNodeView>, inf: int) -> bool {
    &&& a.valor_servicos@ == decimal_source(text_under(ns, inf, "ValorServicos"@))
    &&& a.base_calculo@ == decimal_source(text_under(ns, inf, "BaseCalculo"@))
    &&& a.valor_iss@ == decimal_source(text_under(ns, inf, "ValorIss"@))
    &&& a.aliquota_iss@ == decimal_source(text_under(ns, inf, "Aliquota"@))
    &&& a.valor_liquido@ == decimal_source(text_under(ns, inf, "ValorLiquidoNfse"@))
    &&& a.valor_irrf@ == decimal_source(text_under(ns, inf, "ValorIr"@))
    &&& a.valor_pis@ == decimal_source(text_under(ns, inf, "ValorPis"@))
    &&& a.valor_cofins@ == decimal_source(text_under(ns, inf, "ValorCofins"@))
    &&& a.valor_csll@ == decimal_source(text_under(ns, inf, "ValorCsll"@))
    &&& a.valor_inss@ == decimal_source(text_under(ns, inf, "ValorInss"@))
}

/// What both readers take alike from the `InfNfse` element at `inf`, given
/// the additional information they settled on.
pub open spec fn common_read(d: NfseDocument, ns: Seq<XmlNodeView>, inf: int, file_name: Seq<char>, id: Seq<char>, info_adic: Seq<char>) -> bool {
    &&& d.id@ == id
    &&& d.file_name@ == file_name
    &&& d.layout@ == "ba_prestados"@
    &&& d.numero@ == text_under(ns, inf, "Numero"@)
    &&& d.emissao@ == text_under(ns, inf, "DataEmissao"@)
    &&& d.competencia@ == text_under(ns, inf, "Competencia"@)
    &&& (d.municipio_codigo@, d.municipio_nome@) == municipio_of(
        first_non_empty_spec(seq![text_under(ns, inf, "MunicipioIncidencia"@), text_under(ns, inf, "CodigoMunicipio"@)]),
    )
    &&& d.item_lista_servico@ == service_code_of(text_under(ns, inf, "ItemListaServico"@))
    &&& opt_view(d.codigo_cnae) == digits_option(text_under(ns, inf, "CodigoCnae"@))
    &&& d.discriminacao@ == sanitized(text_under(ns, inf, "Discriminacao"@))
    &&& d.info_adic@ == sanitized(info_adic)
    &&& party_read(d.prestador, ns, under_or_self(ns, inf, "PrestadorServico"@))
    &&& party_read(d.tomador, ns, under_or_self(ns, inf, "Tomador"@))
    &&& d.iss_retido == (text_under(ns, inf, "IssRetido"@) == "1"@)
    &&& d.warnings@.len() == 0
}

fn read_party(x: &XmlIndex, k: usize) -> (r: Party)
    requires
        index_ok(*x),
        k < x.nodes@.len(),
    ensures
        party_read(r, index_view(*x), k as int),
{
    let cnpj = text_under_exec(x, k, "Cnpj");
    let cpf = text_under_exec(x, k, "Cpf");
    let ghost pair = seq![cnpj@, cpf@];
    let documento_raw = first_non_empty(vec![cnpj, cpf]);
    proof {
        assert(texts(seq![cnpj, cpf]) =~= pair);
    }
    let cep_raw = text_under_exec(x, k, "Cep");
    Party {
        nome: text_under_exec(x, k, "RazaoSocial"),
        documento: only_digits(documento_raw.as_str()),
        inscricao_municipal: option_string(text_under_exec(x, k, "InscricaoMunicipal")),
        endereco: option_string(text_under_exec(x, k, "Endereco")),
        municipio_codigo: option_string(text_under_exec(x, k, "CodigoMunicipio")),
        municipio_nome: None,
        uf: option_string(text_under_exec(x, k, "Uf")),
        cep: option_string(only_digits(cep_raw.as_str())),
    }
}

fn read_amounts(x: &XmlIndex, inf: usize) -> (r: NfseAmountTexts)
    requires
        index_ok(*x),
        inf < x.nodes@.len(),
    ensures
        amounts_read(r, index_view(*x), inf as int),
{
    NfseAmountTexts {
        valor_servicos: parse_decimal_text(text_under_exec(x, inf, "ValorServicos").as_str()),
        base_calculo: parse_decimal_text(text_under_exec(x, inf, "BaseCalculo").as_str()),
        valor_iss: parse_decimal_text(text_under_exec(x, inf, "ValorIss").as_str()),
        aliquota_iss: parse_decimal_text(text_under_exec(x, inf, "Aliquota").as_str()),
        valor_liquido: parse_decimal_text(text_under_exec(x, inf, "ValorLiquidoNfse").as_str()),
        valor_irrf: parse_decimal_text(text_under_exec(x, inf, "ValorIr").as_str()),
        valor_pis: parse_decimal_text(text_under_exec(x, inf, "ValorPis").as_str()),
        valor_cofins: parse_decimal_text(text_under_exec(x, inf, "ValorCofins").as_str()),
        valor_csll: parse_decimal_text(text_under_exec(x, inf, "ValorCsll").as_str()),
        valor_inss: parse_decimal_text(text_under_exec(x, inf, "ValorInss").as_str()),
    }
}

/// The first of two texts that is not blank, else the empty text.
fn first_of_pair(a: String, b: String) -> (r: String)
    ensures
        r@ == first_non_empty_spec(seq![a@, b@]),
{
    let ghost pair = seq![a@, b@];
    let v = vec![a, b];
    proof {
        assert(texts(v@) =~= pair);
    }
    first_non_empty(v)
}

/// The fields both readers take alike.
fn read_common(x: &XmlIndex, inf: usize, file_name: &str, id: String, info_adic: &str, provider: &str, provider_friendly: &str, serie: String, chave: String) -> (r: NfseDocument)
    requires
        index_ok(*x),
        inf < x.nodes@.len(),
    ensures
        common_read(r, index_view(*x), inf as int, file_name@, id@, info_adic@),
        r.provider@ == provider@,
        r.provider_friendly@ == provider_friendly@,
        r.serie@ == serie@,
        r.chave@ == chave@,
{
    let municipio_raw = first_of_pair(text_under_exec(x, inf, "MunicipioIncidencia"), text_under_exec(x, inf, "CodigoMunicipio"));
    let (municipio_codigo, municipio_nome) = resolve_municipio(municipio_raw.as_str());
    let p = under_or_self_exec(x, inf, "PrestadorServico");
    let t = under_or_self_exec(x, inf, "Tomador");
    let retido = text_under_exec(x, inf, "IssRetido");
    proof {
        reveal_strlit("ba_prestados");
    }
    NfseDocument {
        id,
        file_name: file_name.to_string(),
        provider: provider.to_string(),
        provider_friendly: provider_friendly.to_string(),
        layout: "ba_prestados".to_string(),
        numero: text_under_exec(x, inf, "Numero"),
        serie,
        emissao: text_under_exec(x, inf, "DataEmissao"),
        competencia: text_under_exec(x, inf, "Competencia"),
        chave,
        municipio_codigo,
        municipio_nome,
        item_lista_servico: normalize_service_code(text_under_exec(x, inf, "ItemListaServico").as_str()),
        codigo_cnae: optional_digits(text_under_exec(x, inf, "CodigoCnae").as_str()),
        discriminacao: sanitize(text_under_exec(x, inf, "Discriminacao").as_str()),
        info_adic: sanitize(info_adic),
        prestador: read_party(x, p),
        tomador: read_party(x, t),
        iss_retido: str_eq(retido.as_str(), "1"),
        warnings: Vec::new(),
    }
}

/// Who reads the WebISS / ABRASF 2.02 layout; the friendly name tells an
/// ABRASF namespace from a generic `CompNfse`.
pub open spec fn abrasf_read(r: NfseReading, ns: Seq<XmlNodeView>, inf: int, file_name: Seq<char>, id: Seq<char>) -> bool {
    let info_adic = text_under(ns, inf, "OutrasInformacoes"@);
    &&& common_read(r.document, ns, inf, file_name, id, info_adic)
    &&& r.document.provider@ == "webiss_abrasf_202"@
    &&& r.document.provider_friendly@ == if contains_text(root_namespace(ns), "abrasf"@) {
        "WebISS/ABRASF"@
    } else {
        "CompNfse genérico"@
    }
    &&& r.document.serie@ == or_fallback(text_under(ns, inf, "Serie"@), "A"@)
    &&& r.document.chave@ == first_non_empty_spec(seq![text_under(ns, inf, "ChaveAcesso"@), chave_capture(info_adic)])
    &&& amounts_read(r.amounts, ns, inf)
}

/// Who reads the Ubaíra layout: its additional information falls back on
/// the verification code, its series on `UNICA`, and its key is only ever
/// found in the additional information.
pub open spec fn ubaira_read(r: NfseReading, ns: Seq<XmlNodeView>, inf: int, file_name: Seq<char>, id: Seq<char>) -> bool {
    let info_adic = first_non_empty_spec(seq![text_under(ns, inf, "OutrasInformacoes"@), text_under(ns, inf, "CodigoVerificacao"@)]);
    &&& common_read(r.document, ns, inf, file_name, id, info_adic)
    &&& r.document.provider@ == "ubaira_custom"@
    &&& r.document.provider_friendly@ == "Ubaíra custom"@
    &&& r.document.serie@ == or_fallback(text_under(ns, inf, "Serie"@), "UNICA"@)
    &&& r.document.chave@ == chave_capture(info_adic)
    &&& amounts_read(r.amounts, ns, inf)
}

/// The outcome of a reader: the parser's message where the text is not
/// XML, a message where no `InfNfse` element is found, else the document
/// the reader takes from the first `InfNfse`.
pub open spec fn reader_outcome(xml: Seq<char>, r: Result<NfseReading, String>, read: spec_fn(NfseReading, Seq<XmlNodeView>, int) -> bool) -> bool {
    match xml_document(xml) {
        Err(e) => r matches Err(m) && m@ == e,
        Ok(ns) => match first_named(ns, "InfNfse"@) {
            None => r matches Err(m) && m@ == "InfNfse não encontrado"@,
            Some(inf) => r matches Ok(d) && read(d, ns, inf),
        },
    }
}

/// The document of an XML in the WebISS / ABRASF 2.02 layout (also a
/// generic `CompNfse`), under the given identifier.
pub fn parse_abrasf_v2_with_id(xml: &str, file_name: &str, id: String) -> (r: Result<NfseReading, String>)
    ensures
        reader_outcome(xml@, r, |d: NfseReading, ns: Seq<XmlNodeView>, inf: int| abrasf_read(d, ns, inf, file_name@, id@)),
{
    let nodes = match parse_xml_nodes(xml) {
        Ok(n) => n,
        Err(e) => {
            return Err(e);
        },
    };
    let x = make_index(nodes);
    let ghost ns = index_view(x);
    let all = chars_of("InfNfse");
    let inf = match find_named_exec(&x, 0, x.nodes.len(), &all) {
        Some(i) => i,
        None => {
            return Err("InfNfse não encontrado".to_string());
        },
    };
    let info_adic = text_under_exec(&x, inf, "OutrasInformacoes");
    let space = root_namespace_exec(&x);
    let friendly = if str_contains(space.as_str(), "abrasf") {
        "WebISS/ABRASF"
    } else {
        "CompNfse genérico"
    };
    let serie = fallback_text(text_under_exec(&x, inf, "Serie"), "A");
    let chave = first_of_pair(text_under_exec(&x, inf, "ChaveAcesso"), extract_chave(info_adic.as_str()));
    let document = read_common(&x, inf, file_name, id, info_adic.as_str(), "webiss_abrasf_202", friendly, serie, chave);
    let amounts = read_amounts(&x, inf);
    Ok(NfseReading { document, amounts })
}

/// The document of an XML in the Ubaíra layout, under the given identifier.
pub fn parse_ubaira_with_id(xml: &str, file_name: &str, id: String) -> (r: Result<NfseReading, String>)
    ensures
        reader_outcome(xml@, r, |d: NfseReading, ns: Seq<XmlNodeView>, inf: int| ubaira_read(d, ns, inf, file_name@, id@)),
{
    let nodes = match parse_xml_nodes(xml) {
        Ok(n) => n,
        Err(e) => {
            return Err(e);
        },
    };
    let x = make_index(nodes);
    let all = chars_of("InfNfse");
    let inf = match find_named_exec(&x, 0, x.nodes.len(), &all) {
        Some(i) => i,
        None => {
            return Err("InfNfse não encontrado".to_string());
        },
    };
    let info_adic = first_of_pair(text_under_exec(&x, inf, "OutrasInformacoes"), text_under_exec(&x, inf, "CodigoVerificacao"));
    let serie = fallback_text(text_under_exec(&x, inf, "Serie"), "UNICA");
    let chave = extract_chave(info_adic.as_str());
    let document = read_common(&x, inf, file_name, id, info_adic.as_str(), "ubaira_custom", "Ubaíra custom", serie, chave);
    let amounts = read_amounts(&x, inf);
    Ok(NfseReading { document, amounts })
}

/// The identifier a reading carries, the empty text for an error.
pub open spec fn reading_id(r: Result<NfseReading, String>) -> Seq<char> {
    match r {
        Ok(d) => d.document.id@,
        Err(_) => seq![],
    }
}

/// What holds of a fresh identifier.
pub open spec fn fresh_id(id: Seq<char>) -> bool {
    id.len() == 36 && id[8] == '-' && id[13] == '-' && id[18] == '-' && id[23] == '-' && id[14] == '4'
}

/// The document of an XML in the WebISS / ABRASF 2.02 layout under a fresh
/// identifier.
pub fn parse_abrasf_v2(xml: &str, file_name: &str) -> (r: Result<NfseReading, String>)
    ensures
        reader_outcome(xml@, r, |d: NfseReading, ns: Seq<XmlNodeView>, inf: int| abrasf_read(d, ns, inf, file_name@, reading_id(r))),
        r is Ok ==> fresh_id(reading_id(r)),
{
    let id = new_document_id();
    parse_abrasf_v2_with_id(xml, file_name, id)
}

/// The document of an XML in the Ubaíra layout under a fresh identifier.
pub fn parse_ubaira(xml: &str, file_name: &str) -> (r: Result<NfseReading, String>)
    ensures
        reader_outcome(xml@, r, |d: NfseReading, ns: Seq<XmlNodeView>, inf: int| ubaira_read(d, ns, inf, file_name@, reading_id(r))),
        r is Ok ==> fresh_id(reading_id(r)),
{
    let id = new_document_id();
    parse_ubaira_with_id(xml, file_name, id)
}


// ---------------------------------------------------------------------------
// Dispatch by layout
// ---------------------------------------------------------------------------

/// The reader of the GINFES layout, which this version refuses.
pub fn parse_ginfes(xml: &str, file_name: &str) -> (r: Result<NfseReading, String>)
    ensures
        r matches Err(m) && m@ == "Parser GINFES ainda não implementado nesta entrega."@,
{
    Err("Parser GINFES ainda não implementado nesta entrega.".to_string())
}

/// The reader of the Betha layout, which this version refuses.
pub fn parse_betha(xml: &str, file_name: &str) -> (r: Result<NfseReading, String>)
    ensures
        r matches Err(m) && m@ == "Parser Betha ainda não implementado nesta entrega."@,
{
    Err("Parser Betha ainda não implementado nesta entrega.".to_string())
}

/// The reader of the ABRASF 1 layout, which this version refuses.
pub fn parse_abrasf_v1(xml: &str, file_name: &str) -> (r: Result<NfseReading, String>)
    ensures
        r matches Err(m) && m@ == "ABRASF v1 ainda não implementado nesta versão; use o fallback legado quando necessário."@,
{
    Err("ABRASF v1 ainda não implementado nesta versão; use o fallback legado quando necessário.".to_string())
}

/// The layout a document is read in: the configured one where it names a
/// layout, else the one detected in the cleaned text (or the parser's
/// message).
pub open spec fn chosen_provider(xml: Seq<char>, layout: Option<Seq<char>>) -> Result<ProviderKind, Seq<char>> {
    let configured = match layout {
        Some(l) => layout_provider(l),
        None => None,
    };
    match configured {
        Some(p) => Ok(p),
        None => match xml_document(xml) {
            Err(e) => Err(e),
            Ok(ns) => Ok(provider_of(ns, xml)),
        },
    }
}

/// The outcome of reading an NFS-e under an identifier: the text is cleaned
/// for parsing, the layout chosen, and the reader of that layout run.
pub open spec fn nfse_outcome(xml: Seq<char>, file_name: Seq<char>, layout: Option<Seq<char>>, id: Seq<char>, r: Result<NfseReading, String>) -> bool {
    let n = xml_for_parsing(xml);
    match chosen_provider(n, layout) {
        Err(e) => r matches Err(m) && m@ == e,
        Ok(p) => match p {
            ProviderKind::WebissAbrasf202 | ProviderKind::GenericCompNfse => reader_outcome(
                n,
                r,
                |d: NfseReading, ns: Seq<XmlNodeView>, inf: int| abrasf_read(d, ns, inf, file_name, id),
            ),
            ProviderKind::UbairaCustom => reader_outcome(
                n,
                r,
                |d: NfseReading, ns: Seq<XmlNodeView>, inf: int| ubaira_read(d, ns, inf, file_name, id),
            ),
            ProviderKind::Ginfes => r matches Err(m) && m@ == "Parser GINFES ainda não implementado nesta entrega."@,
            ProviderKind::Betha => r matches Err(m) && m@ == "Parser Betha ainda não implementado nesta entrega."@,
            ProviderKind::AbrasfV1 => r matches Err(m) && m@
                == "ABRASF v1 ainda não implementado nesta versão; use o fallback legado quando necessário."@,
            ProviderKind::Unknown => r matches Err(m) && m@ == "Layout de XML NFS-e não suportado."@,
        },
    }
}

/// Reads an NFS-e under the given identifier (see `nfse_outcome`).
pub fn read_nfse_xml(xml: &str, file_name: &str, configured_layout: Option<&str>, id: String) -> (r: Result<NfseReading, String>)
    ensures
        nfse_outcome(xml@, file_name@, crate::legacy_import::opt_str_view(configured_layout), id@, r),
{
    let normalized = normalize_xml_for_parsing(xml);
    let n = normalized.as_str();
    let configured = match configured_layout {
        Some(l) => provider_from_layout(l),
        None => None,
    };
    let provider = match configured {
        Some(p) => p,
        None => match detect_provider(n) {
            Ok(p) => p,
            Err(e) => {
                return Err(e);
            },
        },
    };
    match provider {
        ProviderKind::WebissAbrasf202 | ProviderKind::GenericCompNfse => parse_abrasf_v2_with_id(n, file_name, id),
        ProviderKind::UbairaCustom => parse_ubaira_with_id(n, file_name, id),
        ProviderKind::Ginfes => parse_ginfes(n, file_name),
        ProviderKind::Betha => parse_betha(n, file_name),
        ProviderKind::AbrasfV1 => parse_abrasf_v1(n, file_name),
        ProviderKind::Unknown => Err("Layout de XML NFS-e não suportado.".to_string()),
    }
}

/// Reads an NFS-e under a fresh identifier, in the configured layout or the
/// detected one (see `nfse_outcome`).
pub fn parse_nfse_xml_with_layout(xml: &str, file_name: &str, configured_layout: Option<&str>) -> (r: Result<NfseReading, String>)
    ensures
        nfse_outcome(xml@, file_name@, crate::legacy_import::opt_str_view(configured_layout), reading_id(r), r),
        r is Ok ==> fresh_id(reading_id(r)),
{
    let id = new_document_id();
    read_nfse_xml(xml, file_name, configured_layout, id)
}

/// Reads an NFS-e in the detected layout under a fresh identifier.
pub fn parse_nfse_xml(xml: &str, file_name: &str) -> (r: Result<NfseReading, String>)
    ensures
        nfse_outcome(xml@, file_name@, None, reading_id(r), r),
        r is Ok ==> fresh_id(reading_id(r)),
{
    parse_nfse_xml_with_layout(xml, file_name, None)
}

// ---------------------------------------------------------------------------
// Normalising and checking a document
// ---------------------------------------------------------------------------

/// A document with its number, series, municipality code, description and
/// additional information trimmed, and its municipality name trimmed and
/// upper-cased; the rest as it was.
pub open spec fn normalized_from(r: NfseDocument, d: NfseDocument) -> bool {
    &&& r.numero@ == trim(d.numero@)
    &&& r.serie@ == trim(d.serie@)
    &&& r.municipio_codigo@ == trim(d.municipio_codigo@)
    &&& r.municipio_nome@ == unicode_upper(trim(d.municipio_nome@))
    &&& r.discriminacao@ == trim(d.discriminacao@)
    &&& r.info_adic@ == trim(d.info_adic@)
    &&& r.id == d.id
    &&& r.file_name == d.file_name
    &&& r.provider == d.provider
    &&& r.provider_friendly == d.provider_friendly
    &&& r.layout == d.layout
    &&& r.emissao == d.emissao
    &&& r.competencia == d.competencia
    &&& r.chave == d.chave
    &&& r.item_lista_servico == d.item_lista_servico
    &&& r.codigo_cnae == d.codigo_cnae
    &&& r.prestador == d.prestador
    &&& r.tomador == d.tomador
    &&& r.iss_retido == d.iss_retido
}

pub fn normalize_nfse_document(document: NfseDocument) -> (r: NfseDocument)
    ensures
        normalized_from(r, document),
        r.warnings == document.warnings,
{
    let mut d = document;
    d.numero = trim_str(d.numero.as_str());
    d.serie = trim_str(d.serie.as_str());
    d.municipio_codigo = trim_str(d.municipio_codigo.as_str());
    let nome = trim_str(d.municipio_nome.as_str());
    d.municipio_nome = to_uppercase_str(nome.as_str());
    d.discriminacao = trim_str(d.discriminacao.as_str());
    d.info_adic = trim_str(d.info_adic.as_str());
    d
}

/// Whether a document has what an export needs: a number, an issue date
/// and the taker's document, with a service amount that is not negative
/// (that last test is made on the amount as a number, by the caller).
pub open spec fn has_minimum(d: NfseDocument, valor_servicos_not_negative: bool) -> bool {
    !is_blank(d.numero@) && !is_blank(d.emissao@) && !is_blank(d.tomador.documento@) && valor_servicos_not_negative
}

pub fn has_minimum_required_fields(document: &NfseDocument, valor_servicos_not_negative: bool) -> (r: bool)
    ensures
        r == has_minimum(*document, valor_servicos_not_negative),
{
    !is_blank_str(document.numero.as_str()) && !is_blank_str(document.emissao.as_str())
        && !is_blank_str(document.tomador.documento.as_str()) && valor_servicos_not_negative
}

/// The warnings of a document, in order: no key, no municipality code, a
/// calculation base that is zero or missing (tested on the amount as a
/// number, by the caller), and neither description nor additional
/// information.
pub open spec fn document_warnings(d: NfseDocument, base_calculo_not_positive: bool) -> Seq<Seq<char>> {
    let a: Seq<Seq<char>> = if is_blank(d.chave@) {
        seq!["Chave NFS-e não identificada automaticamente."@]
    } else {
        seq![]
    };
    let b: Seq<Seq<char>> = if is_blank(d.municipio_codigo@) {
        seq!["Município da prestação sem código IBGE resolvido."@]
    } else {
        seq![]
    };
    let c: Seq<Seq<char>> = if base_calculo_not_positive {
        seq!["Base de cálculo zerada ou ausente no XML."@]
    } else {
        seq![]
    };
    let e: Seq<Seq<char>> = if is_blank(d.discriminacao@) && is_blank(d.info_adic@) {
        seq!["Documento sem observação/discriminação."@]
    } else {
        seq![]
    };
    a + b + c + e
}

pub fn collect_document_warnings(document: &NfseDocument, base_calculo_not_positive: bool) -> (r: Vec<String>)
    ensures
        texts(r@) == document_warnings(*document, base_calculo_not_positive),
{
    let mut warnings: Vec<String> = Vec::new();
    let ghost d = *document;
    if is_blank_str(document.chave.as_str()) {
        warnings.push("Chave NFS-e não identificada automaticamente.".to_string());
    }
    let ghost w1 = texts(warnings@);
    if is_blank_str(document.municipio_codigo.as_str()) {
        warnings.push("Município da prestação sem código IBGE resolvido.".to_string());
    }
    let ghost w2 = texts(warnings@);
    if base_calculo_not_positive {
        warnings.push("Base de cálculo zerada ou ausente no XML.".to_string());
    }
    let ghost w3 = texts(warnings@);
    if is_blank_str(document.discriminacao.as_str()) && is_blank_str(document.info_adic.as_str()) {
        warnings.push("Documento sem observação/discriminação.".to_string());
    }
    proof {
        assert(texts(warnings@) =~= document_warnings(d, base_calculo_not_positive));
    }
    warnings
}

/// The warning of a document whose municipality is not the company's, where
/// a profile names the company's municipality (compared in any ASCII case).
pub open spec fn city_warning(municipio_nome: Seq<char>, profile: Option<ConversionProfile>) -> Seq<Seq<char>> {
    match profile {
        Some(p) => {
            let city = trim(p.company_municipio_nome@);
            if city.len() > 0 && !same_name(city, municipio_nome) {
                seq!["Município do XML ("@ + municipio_nome + ") difere do município configurado na empresa ("@ + city + ")."@]
            } else {
                seq![]
            }
        },
        None => seq![],
    }
}

/// Each warning of a file, prefixed with the file's name.
pub open spec fn file_warnings(file_name: Seq<char>, ws: Seq<Seq<char>>) -> Seq<Seq<char>> {
    ws.map_values(|w: Seq<char>| file_name + ": "@ + w)
}

pub open spec fn opt_profile(profile: Option<&ConversionProfile>) -> Option<ConversionProfile> {
    match profile {
        Some(p) => Some(*p),
        None => None,
    }
}

/// A document completed from what was read: normalised, with the
/// amounts as read, and with its warnings and the company-city warning.
pub open spec fn finished(d: NfseReading, reading: NfseReading, profile: Option<ConversionProfile>, base_calculo_not_positive: bool) -> bool {
    &&& normalized_from(d.document, reading.document)
    &&& d.amounts == reading.amounts
    &&& texts(d.document.warnings@) == document_warnings(d.document, base_calculo_not_positive) + city_warning(
        d.document.municipio_nome@,
        profile,
    )
}

/// Completes a document that was read: it is normalised, its warnings are
/// collected, the company's municipality compared with its own; the
/// warnings also come back prefixed with the file's name, for the batch's
/// list.
pub fn finish_nfse_document(reading: NfseReading, profile: Option<&ConversionProfile>, base_calculo_not_positive: bool) -> (r: (NfseReading, Vec<String>))
    ensures
        finished(r.0, reading, opt_profile(profile), base_calculo_not_positive),
        texts(r.1@) == file_warnings(r.0.document.file_name@, texts(r.0.document.warnings@)),
{
    let NfseReading { document, amounts } = reading;
    let mut normalized = normalize_nfse_document(document);
    let mut warnings = collect_document_warnings(&normalized, base_calculo_not_positive);
    let ghost base = texts(warnings@);
    let ghost prof = match profile {
        Some(p) => Some(*p),
        None => None,
    };
    if let Some(item) = profile {
        let city = trim_str(item.company_municipio_nome.as_str());
        let city_chars = chars_of(city.as_str());
        let nome_chars = chars_of(normalized.municipio_nome.as_str());
        if city_chars.len() > 0 && !crate::xml_tree::same_name_exec(&city_chars, &nome_chars) {
            let mut msg = chars_of("Município do XML (");
            crate::text::append_str(&mut msg, normalized.municipio_nome.as_str());
            crate::text::append_str(&mut msg, ") difere do município configurado na empresa (");
            crate::text::append_str(&mut msg, city.as_str());
            crate::text::append_str(&mut msg, ").");
            warnings.push(string_of(&msg));
            proof {
                assert(texts(warnings@) =~= base + city_warning(normalized.municipio_nome@, prof));
            }
        } else {
            proof {
                assert(texts(warnings@) =~= base + city_warning(normalized.municipio_nome@, prof));
            }
        }
    } else {
        proof {
            assert(texts(warnings@) =~= base + city_warning(normalized.municipio_nome@, prof));
        }
    }
    let mut prefixed: Vec<String> = Vec::new();
    let ghost ws = texts(warnings@);
    let ghost fname = normalized.file_name@;
    for i in 0..warnings.len()
        invariant
            ws == texts(warnings@),
            fname == normalized.file_name@,
            texts(prefixed@) == file_warnings(fname, ws.take(i as int)),
    {
        let mut line = chars_of(normalized.file_name.as_str());
        crate::text::append_str(&mut line, ": ");
        crate::text::append_str(&mut line, warnings[i].as_str());
        let ghost before = texts(prefixed@);
        proof {
            assert(ws[i as int] == warnings@[i as int]@);
            assert(line@ == fname + ": "@ + ws[i as int]);
        }
        prefixed.push(string_of(&line));
        proof {
            assert(texts(prefixed@) =~= before.push(fname + ": "@ + ws[i as int]));
            assert(ws.take(i + 1) =~= ws.take(i as int).push(ws[i as int]));
            assert(texts(prefixed@) =~= file_warnings(fname, ws.take(i + 1)));
        }
    }
    proof {
        assert(ws.take(warnings@.len() as int) =~= ws);
    }
    normalized.warnings = warnings;
    (NfseReading { document: normalized, amounts }, prefixed)
}

// ---------------------------------------------------------------------------
// Batches
// ---------------------------------------------------------------------------

/// What a batch of NFS-e gives: the documents completed, the warnings of
/// each prefixed with its file's name, and the errors.
pub struct NfseBatchResult {
    pub documents: Vec<NfseReading>,
    pub warnings: Vec<String>,
    pub errors: Vec<String>,
}

impl NfseBatchResult {
    /// An empty batch.
    pub fn new() -> (r: NfseBatchResult)
        ensures
            r.documents@.len() == 0,
            r.warnings@.len() == 0,
            r.errors@.len() == 0,
    {
        NfseBatchResult { documents: Vec::new(), warnings: Vec::new(), errors: Vec::new() }
    }

    /// Records what reading one XML of the batch gave: a document is
    /// completed (`finish_nfse_document`) and added with its warnings; an
    /// error is added as `file: error`.
    pub fn record_xml(
        &mut self,
        file_name: &str,
        outcome: Result<NfseReading, String>,
        base_calculo_not_positive: bool,
        profile: Option<&ConversionProfile>,
    )
        ensures
            match outcome {
                Ok(reading) => {
                    let d = final(self).documents@.last();
                    &&& final(self).documents@.len() == old(self).documents@.len() + 1
                    &&& final(self).documents@.drop_last() == old(self).documents@
                    &&& finished(d, reading, opt_profile(profile), base_calculo_not_positive)
                    &&& texts(final(self).warnings@) == texts(old(self).warnings@) + file_warnings(
                        d.document.file_name@,
                        texts(d.document.warnings@),
                    )
                    &&& final(self).errors@ == old(self).errors@
                },
                Err(e) => {
                    &&& final(self).documents@ == old(self).documents@
                    &&& final(self).warnings@ == old(self).warnings@
                    &&& texts(final(self).errors@) == texts(old(self).errors@).push(file_name@ + ": "@ + e@)
                },
            },
    {
        match outcome {
            Ok(reading) => {
                let (done, mut lines) = finish_nfse_document(reading, profile, base_calculo_not_positive);
                let ghost before = texts(self.warnings@);
                let ghost added = texts(lines@);
                self.warnings.append(&mut lines);
                proof {
                    assert(texts(self.warnings@) =~= before + added);
                }
                self.documents.push(done);
                proof {
                    assert(self.documents@.drop_last() =~= old(self).documents@);
                }
            },
            Err(e) => {
                let mut line = chars_of(file_name);
                crate::text::append_str(&mut line, ": ");
                crate::text::append_str(&mut line, e.as_str());
                let ghost before = texts(self.errors@);
                self.errors.push(string_of(&line));
                proof {
                    assert(texts(self.errors@) =~= before.push(file_name@ + ": "@ + e@));
                }
            },
        }
    }

    /// Records an error of the batch that is not a reading's.
    pub fn record_error(&mut self, message: String)
        ensures
            final(self).documents@ == old(self).documents@,
            final(self).warnings@ == old(self).warnings@,
            final(self).errors@ == old(self).errors@.push(message),
    {
        self.errors.push(message);
    }
}

} // verus!
