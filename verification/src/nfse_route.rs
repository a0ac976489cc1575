//! Routing an NFS-e XML to its reader: cleaning the text before parsing,
//! telling the provider's layout, and naming the standardized outputs.
use vstd::prelude::*;

use crate::text::{
    chars_of, contains_text, contains_chars, copy_chars, is_ws, replace, replace_chars, slice_chars,
    starts_with, starts_with_chars, str_eq, string_of, strip_leading, trim_start,
};
use crate::xml_tree::{nodes_view, parse_xml_nodes, xml_document, XmlNode, XmlNodeView};

verus! {

broadcast use vstd::string::group_string_axioms;

/// The layouts of NFS-e XML the converter reads.
#[derive(Debug, Clone, Copy, PartialEq, Eq, Structural)]
pub enum ProviderKind {
    WebissAbrasf202,
    UbairaCustom,
    GenericCompNfse,
    Ginfes,
    Betha,
    AbrasfV1,
    Unknown,
}

/// An input sent by the interface: its file name, its kind and its content.
#[derive(Debug, Clone)]
pub struct UploadInputItem {
    pub file_name: String,
    pub kind: String,
    pub content: String,
}

/// The layout a configured name selects, none for `auto`, empty or an
/// unknown name.
pub open spec fn layout_provider(layout: Seq<char>) -> Option<ProviderKind> {
    if layout == "webiss_abrasf_v2"@ {
        Some(ProviderKind::WebissAbrasf202)
    } else if layout == "ginfes"@ {
        Some(ProviderKind::Ginfes)
    } else if layout == "betha"@ {
        Some(ProviderKind::Betha)
    } else if layout == "abrasf_v1"@ {
        Some(ProviderKind::AbrasfV1)
    } else if layout == "ubaira_custom"@ {
        Some(ProviderKind::UbairaCustom)
    } else {
        None
    }
}

/// The layout a configured name selects (see `layout_provider`).
pub fn provider_from_layout(layout: &str) -> (r: Option<ProviderKind>)
    ensures
        r == layout_provider(layout@),
{
    if str_eq(layout, "webiss_abrasf_v2") {
        Some(ProviderKind::WebissAbrasf202)
    } else if str_eq(layout, "ginfes") {
        Some(ProviderKind::Ginfes)
    } else if str_eq(layout, "betha") {
        Some(ProviderKind::Betha)
    } else if str_eq(layout, "abrasf_v1") {
        Some(ProviderKind::AbrasfV1)
    } else if str_eq(layout, "ubaira_custom") {
        Some(ProviderKind::UbairaCustom)
    } else {
        None
    }
}

/// The first `<` of a text, or -1.
pub open spec fn first_lt(s: Seq<char>, j: int) -> int
    decreases s.len() - j,
{
    if j < 0 || j >= s.len() {
        -1
    } else if s[j] == '<' {
        j
    } else {
        first_lt(s, j + 1)
    }
}

/// An XML text cleaned for parsing: byte-order marks and leading white
/// space dropped, a stray `?` before the declaration removed, and anything
/// before the first `<` dropped.
pub open spec fn xml_for_parsing(xml: Seq<char>) -> Seq<char> {
    let t = trim_start(strip_leading(xml, '\u{feff}'));
    if starts_with(t, "?<?xml"@) {
        "<?xml"@ + t.skip(6)
    } else if starts_with(t, "<?xml"@) || starts_with(t, "<"@) {
        t
    } else if first_lt(t, 0) >= 0 {
        t.skip(first_lt(t, 0))
    } else {
        t
    }
}

fn strip_leading_of(v: &Vec<char>, c: char) -> (r: Vec<char>)
    ensures
        r@ == strip_leading(v@, c),
{
    let mut i: usize = 0;
    proof {
        assert(v@.skip(0) =~= v@);
    }
    while i < v.len() && v[i] == c
        invariant
            i <= v@.len(),
            strip_leading(v@, c) == strip_leading(v@.skip(i as int), c),
        decreases v@.len() - i,
    {
        proof {
            assert(v@.skip(i as int).drop_first() =~= v@.skip(i + 1));
        }
        i = i + 1;
    }
    let r = slice_chars(v, i, v.len());
    proof {
        assert(r@ =~= v@.skip(i as int));
    }
    r
}

fn trim_start_of(v: &Vec<char>) -> (r: Vec<char>)
    ensures
        r@ == trim_start(v@),
{
    let mut i: usize = 0;
    proof {
        assert(v@.skip(0) =~= v@);
    }
    while i < v.len() && crate::text::is_ws_char(v[i])
        invariant
            i <= v@.len(),
            trim_start(v@) == trim_start(v@.skip(i as int)),
        decreases v@.len() - i,
    {
        proof {
            assert(v@.skip(i as int).drop_first() =~= v@.skip(i + 1));
        }
        i = i + 1;
    }
    let r = slice_chars(v, i, v.len());
    proof {
        assert(r@ =~= v@.skip(i as int));
    }
    r
}

/// Cleans an XML text for parsing (see `xml_for_parsing`).
pub fn normalize_xml_for_parsing(xml: &str) -> (r: String)
    ensures
        r@ == xml_for_parsing(xml@),
{
    let raw = chars_of(xml);
    let s = strip_leading_of(&raw, '\u{feff}');
    let t = trim_start_of(&s);
    let q = chars_of("?<?xml");
    let d = chars_of("<?xml");
    let lt = chars_of("<");
    if starts_with_chars(&t, &q) {
        proof {
            reveal_strlit("?<?xml");
        }
        let mut out = chars_of("<?xml");
        let rest = slice_chars(&t, 6, t.len());
        crate::text::append_chars(&mut out, &rest);
        proof {
            assert(rest@ =~= t@.skip(6));
        }
        return string_of(&out);
    }
    if starts_with_chars(&t, &d) || starts_with_chars(&t, &lt) {
        return string_of(&t);
    }
    let mut j: usize = 0;
    while j < t.len()
        invariant
            j <= t@.len(),
            t@ == trim_start(strip_leading(xml@, '\u{feff}')),
            !starts_with(t@, "?<?xml"@),
            !starts_with(t@, "<?xml"@),
            !starts_with(t@, "<"@),
            first_lt(t@, 0) == first_lt(t@, j as int),
        decreases t@.len() - j,
    {
        if t[j] == '<' {
            let rest = slice_chars(&t, j, t.len());
            proof {
                assert(rest@ =~= t@.skip(j as int));
            }
            return string_of(&rest);
        }
        j = j + 1;
    }
    string_of(&t)
}

/// The first element of a document: its root.
pub open spec fn root_index(ns: Seq<XmlNodeView>, j: int) -> int
    decreases ns.len() - j,
{
    if j < 0 || j >= ns.len() {
        -1
    } else if ns[j].0 {
        j
    } else {
        root_index(ns, j + 1)
    }
}

/// The layout of a parsed NFS-e document, from its root element's name and
/// namespace, else from marks in its text.
pub open spec fn provider_of(ns: Seq<XmlNodeView>, xml: Seq<char>) -> ProviderKind {
    let k = root_index(ns, 0);
    let name = if k >= 0 {
        ns[k].1
    } else {
        seq![]
    };
    let space = if k >= 0 {
        match ns[k].6 {
            Some(n) => n,
            None => seq![],
        }
    } else {
        seq![]
    };
    if name == "CompNfse"@ && contains_text(space, "abrasf"@) {
        ProviderKind::WebissAbrasf202
    } else if name == "GerarNfseResposta"@ {
        ProviderKind::UbairaCustom
    } else if name == "CompNfse"@ {
        ProviderKind::GenericCompNfse
    } else if contains_text(xml, "GINFES"@) {
        ProviderKind::Ginfes
    } else if contains_text(xml, "betha"@) {
        ProviderKind::Betha
    } else {
        ProviderKind::Unknown
    }
}

/// Tells the layout of an NFS-e XML; the parser's message when it is not
/// XML.
pub fn detect_provider(xml: &str) -> (r: Result<ProviderKind, String>)
    ensures
        match xml_document(xml@) {
            Err(e) => r matches Err(m) && m@ == e,
            Ok(ns) => r == Ok::<ProviderKind, String>(provider_of(ns, xml@)),
        },
{
    let nodes = match parse_xml_nodes(xml) {
        Ok(n) => n,
        Err(e) => {
            return Err(e);
        },
    };
    let ghost ns = nodes_view(nodes@);
    let mut k: usize = 0;
    while k < nodes.len() && !nodes[k].element
        invariant
            k <= nodes@.len(),
            ns == nodes_view(nodes@),
            root_index(ns, 0) == root_index(ns, k as int),
        decreases nodes@.len() - k,
    {
        assert(ns[k as int] == crate::xml_tree::node_view(nodes@[k as int]));
        k = k + 1;
    }
    let (name, space) = if k < nodes.len() {
        assert(ns[k as int] == crate::xml_tree::node_view(nodes@[k as int]));
        let sp = match &nodes[k].namespace {
            Some(n) => chars_of(n.as_str()),
            None => Vec::new(),
        };
        (chars_of(nodes[k].name.as_str()), sp)
    } else {
        (Vec::new(), Vec::new())
    };
    let comp = chars_of("CompNfse");
    let gerar = chars_of("GerarNfseResposta");
    let abrasf = chars_of("abrasf");
    let text = chars_of(xml);
    let ginfes = chars_of("GINFES");
    let betha = chars_of("betha");
    if crate::text::chars_eq(&name, &comp) && contains_chars(&space, &abrasf) {
        Ok(ProviderKind::WebissAbrasf202)
    } else if crate::text::chars_eq(&name, &gerar) {
        Ok(ProviderKind::UbairaCustom)
    } else if crate::text::chars_eq(&name, &comp) {
        Ok(ProviderKind::GenericCompNfse)
    } else if contains_chars(&text, &ginfes) {
        Ok(ProviderKind::Ginfes)
    } else if contains_chars(&text, &betha) {
        Ok(ProviderKind::Betha)
    } else {
        Ok(ProviderKind::Unknown)
    }
}

/// The options of the XML standardization.
#[derive(Debug, Clone)]
pub struct StandardizeXmlOptions {
    pub target: String,
    pub remove_iss_aliquota: Option<bool>,
    pub remove_iss_value: Option<bool>,
    pub keep_only_iss_retido: Option<bool>,
    pub remove_incompatible_tags: Option<bool>,
    pub apply_profile_rules: Option<bool>,
    pub remove_codigo_verificacao: Option<bool>,
    pub remove_tomador_endereco: Option<bool>,
    pub remove_prestador_im: Option<bool>,
    pub remove_tomador_im: Option<bool>,
    pub remove_cnae: Option<bool>,
    pub remove_discriminacao: Option<bool>,
    pub remove_info_adicional: Option<bool>,
}

/// The layout a document is standardized to: the chosen target, or for
/// `same_layout` the ABRASF version of the detected layout.
pub open spec fn target_layout(target: Seq<char>, detected: Seq<char>) -> Seq<char> {
    if target != "same_layout"@ {
        target
    } else if contains_text(detected, "v1"@) {
        "abrasf_v1"@
    } else if detected == "ubaira_custom"@ {
        "salvador_like"@
    } else {
        "abrasf_v2"@
    }
}

/// The layout a document is standardized to (see `target_layout`).
pub fn resolve_target_layout(options: &StandardizeXmlOptions, detected_layout: &str) -> (r: String)
    ensures
        r@ == target_layout(options.target@, detected_layout@),
{
    if !str_eq(options.target.as_str(), "same_layout") {
        return crate::text::copy_string(&options.target);
    }
    let d = chars_of(detected_layout);
    let v1 = chars_of("v1");
    if contains_chars(&d, &v1) {
        crate::text::str_to_string("abrasf_v1")
    } else if str_eq(detected_layout, "ubaira_custom") {
        crate::text::str_to_string("salvador_like")
    } else {
        crate::text::str_to_string("abrasf_v2")
    }
}

/// `#`, `/` and `\` written as `_`.
pub open spec fn safe_name(s: Seq<char>) -> Seq<char> {
    s.map_values(|c: char| if c == '#' || c == '/' || c == '\\' {
        '_'
    } else {
        c
    })
}

/// The name of a standardized output: the source's stem made safe, and the
/// target (`same-` and the detected layout for `same_layout`).
pub open spec fn output_file_name(stem: Seq<char>, target: Seq<char>, detected: Seq<char>) -> Seq<char> {
    safe_name(stem) + "_"@ + (if target == "same_layout"@ {
        "same-"@ + detected
    } else {
        target
    }) + ".xml"@
}

/// Names a standardized output from its source's file stem (`nfse` where
/// it has none), its target and its detected layout.  The stem of a plain
/// path is stated; of another path it is what the platform's split gives.
pub fn build_output_file_name(source_name: &str, target: &str, detected_layout: &str) -> (r: String)
    ensures
        exists|stem: Seq<char>| r@ == output_file_name(stem, target@, detected_layout@),
        crate::files::plain_path(source_name@) ==> r@ == output_file_name(
            crate::faturas_export::stem_of(crate::files::last_segment(source_name@)),
            target@,
            detected_layout@,
        ),
        source_name@.len() == 0 ==> r@ == output_file_name("nfse"@, target@, detected_layout@),
{
    let stem = match crate::faturas_export::path_file_stem(source_name) {
        Some(s) => chars_of(s.as_str()),
        None => {
            proof {
                reveal_strlit("nfse");
            }
            chars_of("nfse")
        },
    };
    let mut out: Vec<char> = Vec::new();
    for i in 0..stem.len()
        invariant
            out@ == safe_name(stem@.take(i as int)),
    {
        let c = stem[i];
        if c == '#' || c == '/' || c == '\\' {
            out.push('_');
        } else {
            out.push(c);
        }
        proof {
            assert(safe_name(stem@.take(i + 1)) =~= safe_name(stem@.take(i as int)).push(out@.last()));
        }
    }
    proof {
        assert(stem@.take(stem@.len() as int) =~= stem@);
    }
    crate::text::append_str(&mut out, "_");
    if str_eq(target, "same_layout") {
        crate::text::append_str(&mut out, "same-");
        crate::text::append_str(&mut out, detected_layout);
    } else {
        crate::text::append_str(&mut out, target);
    }
    crate::text::append_str(&mut out, ".xml");
    proof {
        assert(out@ =~= output_file_name(stem@, target@, detected_layout@));
    }
    string_of(&out)
}

} // verus!
