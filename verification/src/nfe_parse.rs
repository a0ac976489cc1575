//! The short reading of an NF-e XML (key, number, series, issue date, the
//! two parties' documents and the total) and its normalisation.
//!
//! The total is floating point where it is used; the reading hands over the
//! text that is read as its number.
use vstd::prelude::*;

use crate::money::{swap_char, swap_char_chars, without_char, without_char_chars};
use crate::nfse_parse::{find_named_exec, first_named, named_under, named_under_exec};
use crate::text::{
    chars_of, digits, lemma_digits_len, lemma_digits_of_digits, lemma_trim_idempotent, matches_at, occurs_at, only_digits, slice_chars, starts_with, string_of, trim, trim_chars,
    trim_str,
};
use crate::xml_tree::{index_ok, index_view, make_index, node_view, opt_index, parse_xml_nodes, xml_document, XmlIndex, XmlNodeView};

verus! {

broadcast use vstd::string::group_string_axioms;

/// The fields of an NF-e as read, the total as the text read as a number
/// (empty where the XML has none).
#[derive(Debug, Clone)]
pub struct ParsedNfe {
    pub chave: String,
    pub numero: String,
    pub serie: String,
    pub emissao: String,
    pub emitente_documento: String,
    pub destinatario_documento: String,
    pub valor_total: String,
}

/// The trimmed text of the first element named `tag` in the document;
/// none where there is no such element or it has no text.
pub open spec fn first_text(ns: Seq<XmlNodeView>, tag: Seq<char>) -> Option<Seq<char>> {
    match first_named(ns, tag) {
        Some(j) => match ns[j].2 {
            Some(t) => Some(trim(t)),
            None => None,
        },
        None => None,
    }
}

/// `first_text` for the first of two names that gives one.
pub open spec fn first_text_of(ns: Seq<XmlNodeView>, a: Seq<char>, b: Seq<char>) -> Option<Seq<char>> {
    match first_text(ns, a) {
        Some(t) => Some(t),
        None => first_text(ns, b),
    }
}

/// The trimmed text of the first element named `tag` under the node at `i`.
pub open spec fn text_below(ns: Seq<XmlNodeView>, i: int, tag: Seq<char>) -> Option<Seq<char>> {
    match named_under(ns, i, tag) {
        Some(j) => match ns[j].2 {
            Some(t) => Some(trim(t)),
            None => None,
        },
        None => None,
    }
}

/// The taker's document: under the first `dest` element, its CPF, else its
/// CNPJ.
pub open spec fn dest_document(ns: Seq<XmlNodeView>) -> Option<Seq<char>> {
    match first_named(ns, "dest"@) {
        Some(d) => match text_below(ns, d, "CPF"@) {
            Some(t) => Some(t),
            None => text_below(ns, d, "CNPJ"@),
        },
        None => None,
    }
}

pub open spec fn or_empty(o: Option<Seq<char>>) -> Seq<char> {
    match o {
        Some(t) => t,
        None => seq![],
    }
}

/// `s` without every leading copy of `p`.
pub open spec fn strip_prefix_all(s: Seq<char>, p: Seq<char>) -> Seq<char>
    decreases s.len(),
{
    if p.len() > 0 && starts_with(s, p) {
        strip_prefix_all(s.skip(p.len() as int), p)
    } else {
        s
    }
}

/// The text of an NF-e amount as read as a number: dots are thousand marks,
/// the comma the decimal mark.
pub open spec fn nfe_decimal(v: Seq<char>) -> Seq<char> {
    swap_char(without_char(v, '.'), ',', '.')
}

/// The key of an NF-e: its `chNFe`, else the element `Id`, without leading
/// `NFe`; empty where neither has a text.
pub open spec fn nfe_chave(ns: Seq<XmlNodeView>) -> Seq<char> {
    match first_text_of(ns, "chNFe"@, "Id"@) {
        Some(t) => strip_prefix_all(t, "NFe"@),
        None => seq![],
    }
}

/// The outcome of reading an NF-e: the parser's message where the text is
/// not XML; a message where it has neither a number nor a key; else its
/// fields.
pub open spec fn nfe_outcome(xml: Seq<char>, r: Result<ParsedNfe, String>) -> bool {
    match xml_document(xml) {
        Err(e) => r matches Err(m) && m@ == e,
        Ok(ns) => {
            let chave = nfe_chave(ns);
            let numero = or_empty(first_text(ns, "nNF"@));
            if numero.len() == 0 && chave.len() == 0 {
                r matches Err(m) && m@ == "XML não contém dados mínimos de NFe (nNF/chNFe)."@
            } else {
                &&& r matches Ok(p)
                &&& p.chave@ == chave
                &&& p.numero@ == numero
                &&& p.serie@ == or_empty(first_text(ns, "serie"@))
                &&& p.emissao@ == or_empty(first_text_of(ns, "dhEmi"@, "dEmi"@))
                &&& p.emitente_documento@ == or_empty(first_text(ns, "CNPJ"@))
                &&& p.destinatario_documento@ == or_empty(dest_document(ns))
                &&& p.valor_total@ == match first_text(ns, "vNF"@) {
                    Some(t) => nfe_decimal(t),
                    None => seq![],
                }
            }
        },
    }
}

fn first_text_exec(x: &XmlIndex, tag: &str) -> (r: Option<String>)
    requires
        index_ok(*x),
    ensures
        crate::xml_tree::opt_text_view(r) == first_text(index_view(*x), tag@),
{
    let t = chars_of(tag);
    match find_named_exec(x, 0, x.nodes.len(), &t) {
        Some(j) => {
            assert(index_view(*x)[j as int] == node_view(x.nodes@[j as int]));
            match &x.nodes[j].text {
                Some(s) => Some(trim_str(s.as_str())),
                None => None,
            }
        },
        None => None,
    }
}

fn first_text_of_exec(x: &XmlIndex, a: &str, b: &str) -> (r: Option<String>)
    requires
        index_ok(*x),
    ensures
        crate::xml_tree::opt_text_view(r) == first_text_of(index_view(*x), a@, b@),
{
    match first_text_exec(x, a) {
        Some(t) => Some(t),
        None => first_text_exec(x, b),
    }
}

fn text_below_exec(x: &XmlIndex, i: usize, tag: &str) -> (r: Option<String>)
    requires
        index_ok(*x),
        i < x.nodes@.len(),
    ensures
        crate::xml_tree::opt_text_view(r) == text_below(index_view(*x), i as int, tag@),
{
    match named_under_exec(x, i, tag) {
        Some(j) => {
            assert(index_view(*x)[j as int] == node_view(x.nodes@[j as int]));
            match &x.nodes[j].text {
                Some(s) => Some(trim_str(s.as_str())),
                None => None,
            }
        },
        None => None,
    }
}

fn dest_document_exec(x: &XmlIndex) -> (r: Option<String>)
    requires
        index_ok(*x),
    ensures
        crate::xml_tree::opt_text_view(r) == dest_document(index_view(*x)),
{
    let t = chars_of("dest");
    match find_named_exec(x, 0, x.nodes.len(), &t) {
        Some(d) => match text_below_exec(x, d, "CPF") {
            Some(v) => Some(v),
            None => text_below_exec(x, d, "CNPJ"),
        },
        None => None,
    }
}

fn or_empty_exec(o: Option<String>) -> (r: String)
    ensures
        r@ == or_empty(crate::xml_tree::opt_text_view(o)),
{
    match o {
        Some(s) => s,
        None => String::new(),
    }
}

/// `str::trim_start_matches` with a text pattern.
pub fn strip_prefix_all_chars(v: &Vec<char>, p: &Vec<char>) -> (r: Vec<char>)
    ensures
        r@ == strip_prefix_all(v@, p@),
{
    if p.len() == 0 {
        return slice_chars(v, 0, v.len());
    }
    let mut i: usize = 0;
    proof {
        assert(v@.skip(0) =~= v@);
    }
    while p.len() <= v.len() - i && matches_at(v, p, i)
        invariant
            p@.len() > 0,
            i <= v@.len(),
            strip_prefix_all(v@, p@) == strip_prefix_all(v@.skip(i as int), p@),
        decreases v@.len() - i,
    {
        proof {
            let s = v@.skip(i as int);
            assert(s.take(p@.len() as int) =~= v@.subrange(i as int, i + p@.len()));
            assert(starts_with(s, p@));
            assert(s.skip(p@.len() as int) =~= v@.skip(i + p@.len()));
        }
        i = i + p.len();
    }
    proof {
        let s = v@.skip(i as int);
        if starts_with(s, p@) {
            assert(s.take(p@.len() as int) =~= v@.subrange(i as int, i + p@.len()));
            assert(occurs_at(v@, p@, i as int));
        }
    }
    let r = slice_chars(v, i, v.len());
    proof {
        assert(r@ =~= v@.skip(i as int));
    }
    r
}

/// Reads an NF-e XML (see `nfe_outcome`).
pub fn parse_nfe_xml(xml: &str) -> (r: Result<ParsedNfe, String>)
    ensures
        nfe_outcome(xml@, r),
{
    let nodes = match parse_xml_nodes(xml) {
        Ok(n) => n,
        Err(e) => {
            return Err(e);
        },
    };
    let x = make_index(nodes);
    proof {
        reveal_strlit("NFe");
    }
    let chave = match first_text_of_exec(&x, "chNFe", "Id") {
        Some(t) => string_of(&strip_prefix_all_chars(&chars_of(t.as_str()), &chars_of("NFe"))),
        None => String::new(),
    };
    let numero = or_empty_exec(first_text_exec(&x, "nNF"));
    let serie = or_empty_exec(first_text_exec(&x, "serie"));
    let emissao = or_empty_exec(first_text_of_exec(&x, "dhEmi", "dEmi"));
    let emitente_documento = or_empty_exec(first_text_exec(&x, "CNPJ"));
    let destinatario_documento = or_empty_exec(dest_document_exec(&x));
    let valor_total = match first_text_exec(&x, "vNF") {
        Some(t) => string_of(&swap_char_chars(&without_char_chars(&chars_of(t.as_str()), '.'), ',', '.')),
        None => String::new(),
    };
    if numero.as_str().is_empty() && chave.as_str().is_empty() {
        return Err("XML não contém dados mínimos de NFe (nNF/chNFe).".to_string());
    }
    Ok(ParsedNfe { chave, numero, serie, emissao, emitente_documento, destinatario_documento, valor_total })
}

/// An NF-e with its key and both documents reduced to their digits and its
/// number and series trimmed; the rest as it was.
/// `r` is `n` normalized: the key and the two documents reduced to their
/// digits, number and series trimmed, the rest as it was.
pub open spec fn nfe_normalized(r: ParsedNfe, n: ParsedNfe) -> bool {
    &&& r.chave@ == digits(n.chave@)
    &&& r.numero@ == trim(n.numero@)
    &&& r.serie@ == trim(n.serie@)
    &&& r.emissao == n.emissao
    &&& r.emitente_documento@ == digits(n.emitente_documento@)
    &&& r.destinatario_documento@ == digits(n.destinatario_documento@)
    &&& r.valor_total == n.valor_total
}

pub fn normalize_nfe(nfe: ParsedNfe) -> (r: ParsedNfe)
    ensures
        nfe_normalized(r, nfe),
{
    let mut n = nfe;
    n.chave = only_digits(n.chave.as_str());
    n.numero = trim_str(n.numero.as_str());
    n.serie = trim_str(n.serie.as_str());
    n.emitente_documento = only_digits(n.emitente_documento.as_str());
    n.destinatario_documento = only_digits(n.destinatario_documento.as_str());
    n
}

/// Normalizing a normalized NF-e changes none of its fields.
pub proof fn law_normalize_nfe_idempotent(n: ParsedNfe, once: ParsedNfe, twice: ParsedNfe)
    requires
        nfe_normalized(once, n),
        nfe_normalized(twice, once),
    ensures
        twice.chave@ == once.chave@,
        twice.numero@ == once.numero@,
        twice.serie@ == once.serie@,
        twice.emissao == once.emissao,
        twice.emitente_documento@ == once.emitente_documento@,
        twice.destinatario_documento@ == once.destinatario_documento@,
        twice.valor_total == once.valor_total,
{
    lemma_digits_len(n.chave@);
    lemma_digits_of_digits(once.chave@);
    lemma_digits_len(n.emitente_documento@);
    lemma_digits_of_digits(once.emitente_documento@);
    lemma_digits_len(n.destinatario_documento@);
    lemma_digits_of_digits(once.destinatario_documento@);
    lemma_trim_idempotent(n.numero@);
    lemma_trim_idempotent(n.serie@);
}

} // verus!
