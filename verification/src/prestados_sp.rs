//! Prosoft "serviços prestados" record for São Paulo: a 1674-character
//! main line in ASCII and an optional `*OBS` line.
use vstd::prelude::*;

use crate::document::{ConversionProfile, NfseDocument};
use crate::layout::{
    apply_fields, blank_line, covers, field, field_start, field_str, fields_model, fit, lemma_apply_fields_concat,
    lemma_last_field_written, min_int,
    lemma_apply_fields_len, lemma_apply_fields_untouched, lemma_fit_single, render_fields, Field,
    FieldModel,
};
use crate::prestados::{code_4, emissao, flag, iss_retido, numero, service_code, LineAmounts};
use crate::rules::{
    apply_bool_rule, apply_string_rule, ascii_fold_seq, ddmmaa, ddmmaa_chars, ddmmaaaa,
    ddmmaaaa_chars, emits_obs, first_non_empty_of_two, first_of_two, fit_left, fit_left_chars,
    obs_line_ascii, sanitize_ascii, sanitize_obs_line_ascii, sanitize_text_ascii, should_emit_obs,
    string_rule, text_ascii,
};
use crate::text::{
    alnum, append_chars, byte_prefix_chars, chars_of, chars_of_string, digits, is_blank,
    is_blank_chars, only_alnum_chars, only_digits_chars, opt_or_empty, opt_text_or_empty,
    opt_view, slice_chars, str_eq, string_of, take_chars, take_chars_vec, trim, trim_chars,
    upper_chars, upper_seq, utf8_len, utf8_len_gt, zero_pad_chars,
};

verus! {

/// Main line and optional observation line of a document.
#[derive(Debug, Clone)]
pub struct ProsoftSpPrestadoRecord {
    pub main_line: String,
    pub obs_line: Option<String>,
}

/// Length of the São Paulo main line.
pub open spec fn sp_line_len() -> nat {
    1674
}

/// The observation, folded to ASCII on one line.
pub open spec fn observacao_sp(doc: NfseDocument, profile: ConversionProfile) -> Seq<char> {
    let base = first_of_two(doc.discriminacao@, doc.info_adic@);
    let competencia = string_rule(doc.competencia@, profile.field_rules.data_competencia);
    obs_line_ascii(
        string_rule(trim(base + seq![' '] + competencia), profile.field_rules.observacao),
    )
}

pub open spec fn serie_sp(doc: NfseDocument, profile: ConversionProfile) -> Seq<char> {
    upper_seq(
        take_chars(alnum(ascii_fold_seq(string_rule(doc.serie@, profile.field_rules.serie))), 5),
    )
}

pub open spec fn modelo_iss_sp(profile: ConversionProfile) -> Seq<char> {
    if trim(profile.modelo_iss@) == "53"@ {
        "53"@
    } else {
        "51"@
    }
}

pub open spec fn tipo_recolhimento_sp(profile: ConversionProfile, retido: bool) -> Seq<char> {
    if is_blank(profile.tipo_recolhimento@) {
        if retido {
            "11"@
        } else {
            "10"@
        }
    } else {
        trim(profile.tipo_recolhimento@)
    }
}

pub open spec fn motivo_retencao_sp(profile: ConversionProfile, retido: bool) -> Seq<char> {
    if is_blank(profile.motivo_retencao@) {
        if retido {
            "T"@
        } else {
            ""@
        }
    } else {
        trim(profile.motivo_retencao@)
    }
}

pub open spec fn operacao_nota_sp(profile: ConversionProfile) -> Seq<char> {
    if is_blank(profile.operacao_nota@) {
        "A"@
    } else {
        trim(profile.operacao_nota@)
    }
}

pub open spec fn modelo_nf_sp(profile: ConversionProfile) -> Seq<char> {
    if is_blank(profile.modelo_nf@) {
        "OU000"@
    } else {
        trim(profile.modelo_nf@)
    }
}

/// Municipality code of the export: the company's 8-digit code when
/// configured, otherwise the first 8 digits of the document's code.
pub open spec fn municipality_code(profile: ConversionProfile, doc: NfseDocument) -> Seq<char> {
    let pc = digits(profile.company_municipio_codigo@);
    if pc.len() == 8 {
        pc
    } else {
        let raw = digits(doc.municipio_codigo@);
        if raw.len() >= 8 {
            raw.take(8)
        } else {
            raw
        }
    }
}

/// The last five digits of a municipality code.
pub open spec fn ibge5(v: Seq<char>) -> Seq<char> {
    fit_left(v, 5)
}

pub open spec fn sp_head(
    doc: NfseDocument,
    profile: ConversionProfile,
    a: LineAmounts,
) -> Seq<FieldModel> {
    let sc = service_code(doc, profile);
    let em = emissao(doc, profile);
    let obs = observacao_sp(doc, profile);
    let retido = iss_retido(doc, profile);
    let num = numero(doc, profile);
    let r = profile.field_rules;
    let serie = serie_sp(doc, profile);
    let mun = take_chars(
        text_ascii(string_rule(doc.municipio_nome@, profile.field_rules.municipio)),
        20,
    );
    let tipo_livro = if modelo_iss_sp(profile) == "53"@ {
        "2"@
    } else {
        "1"@
    };
    seq![
        (1, 1, tipo_livro, false, ' '),
        (2, 6, ddmmaa(em), true, ' '),
        (8, 3, serie, false, ' '),
        (11, 6, ""@, true, ' '),
        (17, 6, ""@, true, ' '),
        (23, 4, code_4(sc), true, ' '),
        (27, 1, "0"@, false, ' '),
        (28, 14, a.valor_servicos@, true, ' '),
        (42, 5, a.aliquota@, true, ' '),
        (47, 14, a.valor_iss@, true, ' '),
        (61, 40, take_chars(obs, 40), false, ' '),
        (101, 5, ""@, false, ' '),
        (106, 3, ""@, false, ' '),
    ]
}

pub open spec fn sp_modelo(
    doc: NfseDocument,
    profile: ConversionProfile,
    a: LineAmounts,
) -> Seq<FieldModel> {
    let sc = service_code(doc, profile);
    let em = emissao(doc, profile);
    let obs = observacao_sp(doc, profile);
    let retido = iss_retido(doc, profile);
    let num = numero(doc, profile);
    let r = profile.field_rules;
    let serie = serie_sp(doc, profile);
    let mun = take_chars(
        text_ascii(string_rule(doc.municipio_nome@, profile.field_rules.municipio)),
        20,
    );
    let tipo_livro = if modelo_iss_sp(profile) == "53"@ {
        "2"@
    } else {
        "1"@
    };
    if modelo_iss_sp(profile) == "51"@ {
        seq![
            (109, 14, a.base_calculo@, true, ' '),
            (123, 14, ""@, true, ' '),
            (137, 14, ""@, true, ' '),
            (151, 14, ""@, true, ' '),
            (165, 14, ""@, true, ' '),
            (179, 14, ""@, true, ' '),
            (193, 14, ""@, true, ' '),
            (207, 14, ""@, true, ' '),
        ]
    } else {
        seq![
            (109, 14, ""@, true, ' '),
            (123, 14, ""@, true, ' '),
            (137, 14, ""@, true, ' '),
            (151, 14, a.valor_servicos@, true, ' '),
            (165, 14, a.base_calculo@, true, ' '),
            (179, 14, ""@, true, ' '),
            (193, 14, ""@, true, ' '),
            (207, 14, ""@, true, ' '),
        ]
    }
}

pub open spec fn sp_mid(
    doc: NfseDocument,
    profile: ConversionProfile,
    a: LineAmounts,
) -> Seq<FieldModel> {
    let sc = service_code(doc, profile);
    let em = emissao(doc, profile);
    let obs = observacao_sp(doc, profile);
    let retido = iss_retido(doc, profile);
    let num = numero(doc, profile);
    let r = profile.field_rules;
    let serie = serie_sp(doc, profile);
    let mun = take_chars(
        text_ascii(string_rule(doc.municipio_nome@, profile.field_rules.municipio)),
        20,
    );
    let tipo_livro = if modelo_iss_sp(profile) == "53"@ {
        "2"@
    } else {
        "1"@
    };
    seq![
        (221, 20, mun, false, ' '),
        (241, 14, digits(doc.tomador.documento@), true, '0'),
        (255, 14, a.valor_irrf@, true, ' '),
        (269, 14, a.valor_inss@, true, ' '),
        (283, 14, ""@, false, ' '),
        (297, 14, if retido { a.valor_iss@ } else { seq![] }, true, ' '),
        (311, 5, string_rule(profile.especie_documento@, r.especie_documento), false, ' '),
        (316, 1, take_chars(profile.situacao_documento@, 1), false, ' '),
        (317, 5, ""@, false, ' '),
        (322, 200, ""@, false, ' '),
        (522, 100, ""@, false, ' '),
        (622, 5, serie, false, ' '),
        (627, 8, fit_left(num, 8), true, '0'),
        (635, 8, fit_left(num, 8), true, '0'),
        (643, 6, ""@, false, ' '),
        (649, 4, ""@, false, ' '),
        (653, 6, ""@, false, ' '),
        (659, 1, profile.responsavel_retencao@, false, ' '),
        (660, 10, ""@, true, '0'),
        (670, 10, ""@, true, '0'),
        (680, 3, ""@, false, ' '),
        (683, 2, ""@, false, ' '),
        (685, 18, take_chars(text_ascii(opt_or_empty(doc.tomador.inscricao_municipal)), 18), false, ' '),
        (703, 2, take_chars(text_ascii(opt_or_empty(doc.tomador.uf)), 2), false, ' '),
        (705, 6, if retido { ddmmaa(em) } else { seq![] }, false, ' '),
        (711, 14, if retido { a.base_calculo@ } else { seq![] }, true, ' '),
        (725, 5, if retido { a.aliquota@ } else { seq![] }, true, ' '),
        (730, 12, if utf8_len(sc) > 4 { take_chars(sc, 12) } else { seq![] }, false, ' '),
        (742, 5, modelo_nf_sp(profile), false, ' '),
        (747, 2, motivo_retencao_sp(profile, retido), false, ' '),
        (749, 2, operacao_nota_sp(profile), false, ' '),
        (751, 3, tipo_recolhimento_sp(profile, retido), false, ' '),
        (754, 1, "0"@, false, ' '),
        (755, 3, string_rule(profile.tipo_documento@, r.tipo_documento), false, ' '),
        (758, 1, flag(a.has_irrf), false, ' '),
        (759, 5, fit_left(digits(doc.municipio_codigo@), 5), false, ' '),
        (764, 10, take_chars(text_ascii(profile.situacao_documento@), 10), false, ' '),
        (774, 2, ""@, false, ' '),
        (776, 2, profile.cst_pis@, false, ' '),
        (778, 2, profile.cst_cofins@, false, ' '),
        (780, 14, a.base_calculo@, true, ' '),
        (794, 8, a.rate_pis@, true, ' '),
        (802, 14, a.valor_pis@, true, ' '),
        (816, 8, a.rate_cofins@, true, ' '),
        (824, 14, a.valor_cofins@, true, ' '),
        (838, 12, ""@, false, ' '),
        (850, 12, ""@, false, ' '),
        (862, 48, ""@, false, ' '),
        (910, 1, "9"@, false, ' '),
        (911, 8, ddmmaaaa(em), false, ' '),
        (919, 8, ""@, false, ' '),
        (927, 4, profile.cod_rec_pis@, false, ' '),
        (931, 4, profile.cod_rec_cofins@, false, ' '),
        (935, 1, "N"@, false, ' '),
        (936, 20, ""@, false, ' '),
        (956, 1, ""@, false, ' '),
        (957, 3, ""@, false, ' '),
        (960, 1, ""@, false, ' '),
        (961, 10, fit_left(num, 10), true, '0'),
        (971, 10, fit_left(num, 10), true, '0'),
        (981, 2, ""@, false, ' '),
        (983, 2, ""@, false, ' '),
        (985, 2, ""@, false, ' '),
        (987, 10, ""@, false, ' '),
        (997, 8, a.aliquota_4@, true, ' '),
        (1005, 3, profile.cst_iss@, false, ' '),
        (1008, 8, municipality_code(profile, doc), false, ' '),
        (1016, 4, profile.cfps@, false, ' '),
        (1020, 4, profile.cod_receita_irrf@, false, ' '),
        (1024, 1, flag(emits_obs(obs, profile.obs_extended@)), false, ' '),
    ]
}

pub open spec fn sp_tail(
    doc: NfseDocument,
    profile: ConversionProfile,
    a: LineAmounts,
) -> Seq<FieldModel> {
    let sc = service_code(doc, profile);
    let em = emissao(doc, profile);
    let obs = observacao_sp(doc, profile);
    let retido = iss_retido(doc, profile);
    let num = numero(doc, profile);
    let r = profile.field_rules;
    let serie = serie_sp(doc, profile);
    let mun = take_chars(
        text_ascii(string_rule(doc.municipio_nome@, profile.field_rules.municipio)),
        20,
    );
    let tipo_livro = if modelo_iss_sp(profile) == "53"@ {
        "2"@
    } else {
        "1"@
    };
    seq![
        (1025, 12, ""@, false, ' '),
        (1037, 12, if a.has_inss { a.base_calculo@ } else { seq![] }, true, ' '),
        (1049, 8, if a.has_inss { a.rate_inss@ } else { seq![] }, true, ' '),
        (1057, 12, if a.has_inss { a.valor_inss@ } else { seq![] }, true, ' '),
        (1069, 12, if a.has_inss { a.valor_inss@ } else { seq![] }, true, ' '),
        (1081, 12, ""@, true, ' '),
        (1093, 12, ""@, true, ' '),
        (1105, 12, ""@, true, ' '),
        (1117, 12, ""@, true, ' '),
        (1129, 12, ""@, true, ' '),
        (1141, 12, ""@, true, ' '),
        (1153, 21, ""@, false, ' '),
    ]
}

/// The fields of the São Paulo main line, in writing order.
pub open spec fn sp_fields(
    doc: NfseDocument,
    profile: ConversionProfile,
    a: LineAmounts,
) -> Seq<FieldModel> {
    sp_head(doc, profile, a) + sp_modelo(doc, profile, a) + sp_mid(doc, profile, a) + sp_tail(
        doc,
        profile,
        a,
    )
}

/// The São Paulo main line of a document.
pub open spec fn sp_main_line(doc: NfseDocument, profile: ConversionProfile, a: LineAmounts) -> Seq<
    char,
> {
    apply_fields(blank_line(sp_line_len()), sp_fields(doc, profile, a))
}

/// The `*OBS` line, as in the Bahia layout but folded to ASCII.
pub open spec fn sp_obs_line(doc: NfseDocument, profile: ConversionProfile) -> Option<Seq<char>> {
    let obs = observacao_sp(doc, profile);
    if emits_obs(obs, profile.obs_extended@) {
        Some("*OBS"@ + take_chars(obs_line_ascii(obs), 7000))
    } else {
        None
    }
}

fn push_field(fields: &mut Vec<Field>, f: Field)
    ensures
        final(fields)@ == old(fields)@.push(f),
{
    fields.push(f);
}

fn text1(c: char) -> (r: Vec<char>)
    ensures
        r@ == seq![c],
{
    let mut v: Vec<char> = Vec::new();
    v.push(c);
    proof {
        assert(v@ =~= seq![c]);
    }
    v
}

/// The text when the flag holds, the empty text otherwise.
fn when(b: bool, s: &str) -> (r: Vec<char>)
    ensures
        r@ == (if b {
            s@
        } else {
            seq![]
        }),
{
    if b {
        chars_of(s)
    } else {
        Vec::new()
    }
}

fn observacao_sp_chars(doc: &NfseDocument, profile: &ConversionProfile) -> (r: Vec<char>)
    ensures
        r@ == observacao_sp(*doc, *profile),
{
    let d = chars_of_string(&doc.discriminacao);
    let i = chars_of_string(&doc.info_adic);
    let base = first_non_empty_of_two(&d, &i);
    let competencia = apply_string_rule(
        doc.competencia.as_str(),
        &profile.field_rules.data_competencia,
    );
    let mut joined = base;
    let ghost b0 = joined@;
    joined.push(' ');
    append_chars(&mut joined, &competencia);
    assert(joined@ =~= b0 + seq![' '] + competencia@);
    let t = trim_chars(&joined);
    let ts = string_of(&t);
    let ruled = apply_string_rule(ts.as_str(), &profile.field_rules.observacao);
    sanitize_obs_line_ascii(&ruled)
}

fn trimmed_or(value: &str, fallback: &str) -> (r: Vec<char>)
    ensures
        r@ == (if is_blank(value@) {
            fallback@
        } else {
            trim(value@)
        }),
{
    let v = chars_of(value);
    if is_blank_chars(&v) {
        chars_of(fallback)
    } else {
        trim_chars(&v)
    }
}

fn municipality_export_code(profile: &ConversionProfile, document: &NfseDocument) -> (r: Vec<char>)
    ensures
        r@ == municipality_code(*profile, *document),
{
    let pv = chars_of_string(&profile.company_municipio_codigo);
    let pc = only_digits_chars(&pv);
    if pc.len() == 8 {
        return pc;
    }
    let dv = chars_of_string(&document.municipio_codigo);
    let raw = only_digits_chars(&dv);
    if raw.len() >= 8 {
        slice_chars(&raw, 0, 8)
    } else {
        raw
    }
}

fn code_4_chars(sc: &Vec<char>) -> (r: Vec<char>)
    ensures
        r@ == code_4(sc@),
{
    if utf8_len_gt(sc, 4) {
        byte_prefix_chars(sc, 4)
    } else {
        zero_pad_chars(sc, 4)
    }
}

/// The derived texts of a São Paulo record.
pub struct SpParts {
    pub tipo_livro: Vec<char>,
    pub em_ddmmaa: Vec<char>,
    pub serie: Vec<char>,
    pub code4: Vec<char>,
    pub obs_curta: Vec<char>,
    pub is51: bool,
    pub municipio_nome: Vec<char>,
    pub tomador_doc: Vec<char>,
    pub retido: bool,
    pub especie: Vec<char>,
    pub situacao_first: Vec<char>,
    pub num_left_8: Vec<char>,
    pub tomador_ie: Vec<char>,
    pub tomador_uf: Vec<char>,
    pub emissao_ret: Vec<char>,
    pub code12: Vec<char>,
    pub modelo_nf: Vec<char>,
    pub motivo: Vec<char>,
    pub operacao: Vec<char>,
    pub tipo_recolhimento: Vec<char>,
    pub tipo_doc: Vec<char>,
    pub mun5: Vec<char>,
    pub situacao: Vec<char>,
    pub em_ddmmaaaa: Vec<char>,
    pub num_left_10: Vec<char>,
    pub mun_export: Vec<char>,
    pub emit: bool,
}

pub open spec fn sp_parts_ok(p: SpParts, doc: NfseDocument, profile: ConversionProfile) -> bool {
    let sc = service_code(doc, profile);
    let em = emissao(doc, profile);
    let obs = observacao_sp(doc, profile);
    let retido = iss_retido(doc, profile);
    let num = numero(doc, profile);
    let r = profile.field_rules;
    &&& p.tipo_livro@ == (if modelo_iss_sp(profile) == "53"@ { "2"@ } else { "1"@ })
    &&& p.em_ddmmaa@ == ddmmaa(em)
    &&& p.serie@ == serie_sp(doc, profile)
    &&& p.code4@ == code_4(sc)
    &&& p.obs_curta@ == take_chars(obs, 40)
    &&& p.is51 == (modelo_iss_sp(profile) == "51"@)
    &&& p.municipio_nome@ == take_chars(text_ascii(string_rule(doc.municipio_nome@, r.municipio)), 20)
    &&& p.tomador_doc@ == digits(doc.tomador.documento@)
    &&& p.retido == retido
    &&& p.especie@ == string_rule(profile.especie_documento@, r.especie_documento)
    &&& p.situacao_first@ == take_chars(profile.situacao_documento@, 1)
    &&& p.num_left_8@ == fit_left(num, 8)
    &&& p.tomador_ie@ == take_chars(text_ascii(opt_or_empty(doc.tomador.inscricao_municipal)), 18)
    &&& p.tomador_uf@ == take_chars(text_ascii(opt_or_empty(doc.tomador.uf)), 2)
    &&& p.emissao_ret@ == (if retido { ddmmaa(em) } else { seq![] })
    &&& p.code12@ == (if utf8_len(sc) > 4 { take_chars(sc, 12) } else { seq![] })
    &&& p.modelo_nf@ == modelo_nf_sp(profile)
    &&& p.motivo@ == motivo_retencao_sp(profile, retido)
    &&& p.operacao@ == operacao_nota_sp(profile)
    &&& p.tipo_recolhimento@ == tipo_recolhimento_sp(profile, retido)
    &&& p.tipo_doc@ == string_rule(profile.tipo_documento@, r.tipo_documento)
    &&& p.mun5@ == fit_left(digits(doc.municipio_codigo@), 5)
    &&& p.situacao@ == take_chars(text_ascii(profile.situacao_documento@), 10)
    &&& p.em_ddmmaaaa@ == ddmmaaaa(em)
    &&& p.num_left_10@ == fit_left(num, 10)
    &&& p.mun_export@ == municipality_code(profile, doc)
    &&& p.emit == emits_obs(obs, profile.obs_extended@)
}

fn push_sp_head(
    fields: &mut Vec<Field>,
    document: &NfseDocument,
    profile: &ConversionProfile,
    amounts: &LineAmounts,
    parts: &SpParts,
)
    requires
        sp_parts_ok(*parts, *document, *profile),
    ensures
        fields_model(final(fields)@) == fields_model(old(fields)@) + sp_head(*document, *profile, *amounts),
{
    let ghost before = fields@;
    let mut local: Vec<Field> = Vec::new();
    push_field(&mut local, field(1, 1, &parts.tipo_livro, false, ' '));
    push_field(&mut local, field(2, 6, &parts.em_ddmmaa, true, ' '));
    push_field(&mut local, field(8, 3, &parts.serie, false, ' '));
    push_field(&mut local, field_str(11, 6, "", true, ' '));
    push_field(&mut local, field_str(17, 6, "", true, ' '));
    push_field(&mut local, field(23, 4, &parts.code4, true, ' '));
    push_field(&mut local, field_str(27, 1, "0", false, ' '));
    push_field(&mut local, field_str(28, 14, amounts.valor_servicos.as_str(), true, ' '));
    push_field(&mut local, field_str(42, 5, amounts.aliquota.as_str(), true, ' '));
    push_field(&mut local, field_str(47, 14, amounts.valor_iss.as_str(), true, ' '));
    push_field(&mut local, field(61, 40, &parts.obs_curta, false, ' '));
    push_field(&mut local, field_str(101, 5, "", false, ' '));
    push_field(&mut local, field_str(106, 3, "", false, ' '));
    proof {
        assert(fields_model(local@) =~= sp_head(*document, *profile, *amounts));
    }
    let ghost added = local@;
    fields.append(&mut local);
    proof {
        assert(fields_model(before + added) =~= fields_model(before) + fields_model(added));
    }
}

fn push_sp_modelo(
    fields: &mut Vec<Field>,
    document: &NfseDocument,
    profile: &ConversionProfile,
    amounts: &LineAmounts,
    parts: &SpParts,
)
    requires
        sp_parts_ok(*parts, *document, *profile),
    ensures
        fields_model(final(fields)@) == fields_model(old(fields)@) + sp_modelo(*document, *profile, *amounts),
{
    let ghost before = fields@;
    let mut local: Vec<Field> = Vec::new();
    if parts.is51 {
        push_field(&mut local, field_str(109, 14, amounts.base_calculo.as_str(), true, ' '));
        push_field(&mut local, field_str(123, 14, "", true, ' '));
        push_field(&mut local, field_str(137, 14, "", true, ' '));
        push_field(&mut local, field_str(151, 14, "", true, ' '));
        push_field(&mut local, field_str(165, 14, "", true, ' '));
        push_field(&mut local, field_str(179, 14, "", true, ' '));
        push_field(&mut local, field_str(193, 14, "", true, ' '));
        push_field(&mut local, field_str(207, 14, "", true, ' '));
    } else {
        push_field(&mut local, field_str(109, 14, "", true, ' '));
        push_field(&mut local, field_str(123, 14, "", true, ' '));
        push_field(&mut local, field_str(137, 14, "", true, ' '));
        push_field(&mut local, field_str(151, 14, amounts.valor_servicos.as_str(), true, ' '));
        push_field(&mut local, field_str(165, 14, amounts.base_calculo.as_str(), true, ' '));
        push_field(&mut local, field_str(179, 14, "", true, ' '));
        push_field(&mut local, field_str(193, 14, "", true, ' '));
        push_field(&mut local, field_str(207, 14, "", true, ' '));
    }

    proof {
        assert(fields_model(local@) =~= sp_modelo(*document, *profile, *amounts));
    }
    let ghost added = local@;
    fields.append(&mut local);
    proof {
        assert(fields_model(before + added) =~= fields_model(before) + fields_model(added));
    }
}

fn push_sp_mid(
    fields: &mut Vec<Field>,
    document: &NfseDocument,
    profile: &ConversionProfile,
    amounts: &LineAmounts,
    parts: &SpParts,
)
    requires
        sp_parts_ok(*parts, *document, *profile),
    ensures
        fields_model(final(fields)@) == fields_model(old(fields)@) + sp_mid(*document, *profile, *amounts),
{
    let ghost before = fields@;
    let mut local: Vec<Field> = Vec::new();
    push_field(&mut local, field(221, 20, &parts.municipio_nome, false, ' '));
    push_field(&mut local, field(241, 14, &parts.tomador_doc, true, '0'));
    push_field(&mut local, field_str(255, 14, amounts.valor_irrf.as_str(), true, ' '));
    push_field(&mut local, field_str(269, 14, amounts.valor_inss.as_str(), true, ' '));
    push_field(&mut local, field_str(283, 14, "", false, ' '));
    push_field(&mut local, field(297, 14, &when(parts.retido, amounts.valor_iss.as_str()), true, ' '));
    push_field(&mut local, field(311, 5, &parts.especie, false, ' '));
    push_field(&mut local, field(316, 1, &parts.situacao_first, false, ' '));
    push_field(&mut local, field_str(317, 5, "", false, ' '));
    push_field(&mut local, field_str(322, 200, "", false, ' '));
    push_field(&mut local, field_str(522, 100, "", false, ' '));
    push_field(&mut local, field(622, 5, &parts.serie, false, ' '));
    push_field(&mut local, field(627, 8, &parts.num_left_8, true, '0'));
    push_field(&mut local, field(635, 8, &parts.num_left_8, true, '0'));
    push_field(&mut local, field_str(643, 6, "", false, ' '));
    push_field(&mut local, field_str(649, 4, "", false, ' '));
    push_field(&mut local, field_str(653, 6, "", false, ' '));
    push_field(&mut local, field_str(659, 1, profile.responsavel_retencao.as_str(), false, ' '));
    push_field(&mut local, field_str(660, 10, "", true, '0'));
    push_field(&mut local, field_str(670, 10, "", true, '0'));
    push_field(&mut local, field_str(680, 3, "", false, ' '));
    push_field(&mut local, field_str(683, 2, "", false, ' '));
    push_field(&mut local, field(685, 18, &parts.tomador_ie, false, ' '));
    push_field(&mut local, field(703, 2, &parts.tomador_uf, false, ' '));
    push_field(&mut local, field(705, 6, &parts.emissao_ret, false, ' '));
    push_field(&mut local, field(711, 14, &when(parts.retido, amounts.base_calculo.as_str()), true, ' '));
    push_field(&mut local, field(725, 5, &when(parts.retido, amounts.aliquota.as_str()), true, ' '));
    push_field(&mut local, field(730, 12, &parts.code12, false, ' '));
    push_field(&mut local, field(742, 5, &parts.modelo_nf, false, ' '));
    push_field(&mut local, field(747, 2, &parts.motivo, false, ' '));
    push_field(&mut local, field(749, 2, &parts.operacao, false, ' '));
    push_field(&mut local, field(751, 3, &parts.tipo_recolhimento, false, ' '));
    push_field(&mut local, field_str(754, 1, "0", false, ' '));
    push_field(&mut local, field(755, 3, &parts.tipo_doc, false, ' '));
    push_field(&mut local, field(758, 1, &text1(if amounts.has_irrf { '1' } else { '0' }), false, ' '));
    push_field(&mut local, field(759, 5, &parts.mun5, false, ' '));
    push_field(&mut local, field(764, 10, &parts.situacao, false, ' '));
    push_field(&mut local, field_str(774, 2, "", false, ' '));
    push_field(&mut local, field_str(776, 2, profile.cst_pis.as_str(), false, ' '));
    push_field(&mut local, field_str(778, 2, profile.cst_cofins.as_str(), false, ' '));
    push_field(&mut local, field_str(780, 14, amounts.base_calculo.as_str(), true, ' '));
    push_field(&mut local, field_str(794, 8, amounts.rate_pis.as_str(), true, ' '));
    push_field(&mut local, field_str(802, 14, amounts.valor_pis.as_str(), true, ' '));
    push_field(&mut local, field_str(816, 8, amounts.rate_cofins.as_str(), true, ' '));
    push_field(&mut local, field_str(824, 14, amounts.valor_cofins.as_str(), true, ' '));
    push_field(&mut local, field_str(838, 12, "", false, ' '));
    push_field(&mut local, field_str(850, 12, "", false, ' '));
    push_field(&mut local, field_str(862, 48, "", false, ' '));
    push_field(&mut local, field_str(910, 1, "9", false, ' '));
    push_field(&mut local, field(911, 8, &parts.em_ddmmaaaa, false, ' '));
    push_field(&mut local, field_str(919, 8, "", false, ' '));
    push_field(&mut local, field_str(927, 4, profile.cod_rec_pis.as_str(), false, ' '));
    push_field(&mut local, field_str(931, 4, profile.cod_rec_cofins.as_str(), false, ' '));
    push_field(&mut local, field_str(935, 1, "N", false, ' '));
    push_field(&mut local, field_str(936, 20, "", false, ' '));
    push_field(&mut local, field_str(956, 1, "", false, ' '));
    push_field(&mut local, field_str(957, 3, "", false, ' '));
    push_field(&mut local, field_str(960, 1, "", false, ' '));
    push_field(&mut local, field(961, 10, &parts.num_left_10, true, '0'));
    push_field(&mut local, field(971, 10, &parts.num_left_10, true, '0'));
    push_field(&mut local, field_str(981, 2, "", false, ' '));
    push_field(&mut local, field_str(983, 2, "", false, ' '));
    push_field(&mut local, field_str(985, 2, "", false, ' '));
    push_field(&mut local, field_str(987, 10, "", false, ' '));
    push_field(&mut local, field_str(997, 8, amounts.aliquota_4.as_str(), true, ' '));
    push_field(&mut local, field_str(1005, 3, profile.cst_iss.as_str(), false, ' '));
    push_field(&mut local, field(1008, 8, &parts.mun_export, false, ' '));
    push_field(&mut local, field_str(1016, 4, profile.cfps.as_str(), false, ' '));
    push_field(&mut local, field_str(1020, 4, profile.cod_receita_irrf.as_str(), false, ' '));
    push_field(&mut local, field(1024, 1, &text1(if parts.emit { '1' } else { '0' }), false, ' '));
    proof {
        assert(fields_model(local@) =~= sp_mid(*document, *profile, *amounts));
    }
    let ghost added = local@;
    fields.append(&mut local);
    proof {
        assert(fields_model(before + added) =~= fields_model(before) + fields_model(added));
    }
}

fn push_sp_tail(
    fields: &mut Vec<Field>,
    document: &NfseDocument,
    profile: &ConversionProfile,
    amounts: &LineAmounts,
    parts: &SpParts,
)
    requires
        sp_parts_ok(*parts, *document, *profile),
    ensures
        fields_model(final(fields)@) == fields_model(old(fields)@) + sp_tail(*document, *profile, *amounts),
{
    let ghost before = fields@;
    let mut local: Vec<Field> = Vec::new();
    push_field(&mut local, field_str(1025, 12, "", false, ' '));
    push_field(&mut local, field(1037, 12, &when(amounts.has_inss, amounts.base_calculo.as_str()), true, ' '));
    push_field(&mut local, field(1049, 8, &when(amounts.has_inss, amounts.rate_inss.as_str()), true, ' '));
    push_field(&mut local, field(1057, 12, &when(amounts.has_inss, amounts.valor_inss.as_str()), true, ' '));
    push_field(&mut local, field(1069, 12, &when(amounts.has_inss, amounts.valor_inss.as_str()), true, ' '));
    push_field(&mut local, field_str(1081, 12, "", true, ' '));
    push_field(&mut local, field_str(1093, 12, "", true, ' '));
    push_field(&mut local, field_str(1105, 12, "", true, ' '));
    push_field(&mut local, field_str(1117, 12, "", true, ' '));
    push_field(&mut local, field_str(1129, 12, "", true, ' '));
    push_field(&mut local, field_str(1141, 12, "", true, ' '));
    push_field(&mut local, field_str(1153, 21, "", false, ' '));
    proof {
        assert(fields_model(local@) =~= sp_tail(*document, *profile, *amounts));
    }
    let ghost added = local@;
    fields.append(&mut local);
    proof {
        assert(fields_model(before + added) =~= fields_model(before) + fields_model(added));
    }
}

#[verifier::rlimit(40)]
fn sp_parts(document: &NfseDocument, profile: &ConversionProfile) -> (r: (SpParts, Vec<char>))
    requires
        crate::prestados::service_code_cuttable(*document, *profile),
    ensures
        sp_parts_ok(r.0, *document, *profile),
        r.1@ == observacao_sp(*document, *profile),
{
    let rules = &profile.field_rules;
    let serie_raw = apply_string_rule(document.serie.as_str(), &rules.serie);
    let serie_folded = sanitize_ascii(&serie_raw);
    let serie_alnum = only_alnum_chars(&serie_folded);
    let serie_5 = take_chars_vec(&serie_alnum, 5);
    let serie = upper_chars(&serie_5);
    let numero_raw = apply_string_rule(document.numero.as_str(), &rules.numero);
    let numero = only_digits_chars(&numero_raw);
    let sc = apply_string_rule(document.item_lista_servico.as_str(), &rules.codigo_servico);
    let code4 = code_4_chars(&sc);
    let code12 = if utf8_len_gt(&sc, 4) {
        take_chars_vec(&sc, 12)
    } else {
        Vec::new()
    };
    let emissao = apply_string_rule(document.emissao.as_str(), &rules.data_emissao);
    let observacao = observacao_sp_chars(document, profile);
    let obs_curta = take_chars_vec(&observacao, 40);
    let mun_raw = apply_string_rule(document.municipio_nome.as_str(), &rules.municipio);
    let mun_text = sanitize_text_ascii(&mun_raw);
    let municipio_nome = take_chars_vec(&mun_text, 20);
    let tom_v = chars_of_string(&document.tomador.documento);
    let tomador_doc = only_digits_chars(&tom_v);
    let uf_s = opt_text_or_empty(&document.tomador.uf);
    let uf_v = chars_of_string(&uf_s);
    let uf_t = sanitize_text_ascii(&uf_v);
    let tomador_uf = take_chars_vec(&uf_t, 2);
    let ie_s = opt_text_or_empty(&document.tomador.inscricao_municipal);
    let ie_v = chars_of_string(&ie_s);
    let ie_t = sanitize_text_ascii(&ie_v);
    let tomador_ie = take_chars_vec(&ie_t, 18);
    let retido = apply_bool_rule(document.iss_retido, &rules.iss_retido);
    let emit = should_emit_obs(&observacao, profile.obs_extended.as_str());
    let modelo_iss_v = trimmed_or(profile.modelo_iss.as_str(), "");
    let is51 = !{
        let m53 = chars_of("53");
        crate::text::chars_eq(&modelo_iss_v, &m53)
    };
    proof {
        reveal_strlit("51");
        reveal_strlit("53");
        reveal_strlit("");
        assert("51"@[1] != "53"@[1]);
        crate::text::lemma_blank_iff_all_ws(profile.modelo_iss@);
        assert(modelo_iss_v@ =~= trim(profile.modelo_iss@));
    }
    let tipo_livro = if is51 {
        chars_of("1")
    } else {
        chars_of("2")
    };
    let tipo_recolhimento = if is_blank_chars(&chars_of_string(&profile.tipo_recolhimento)) {
        if retido {
            chars_of("11")
        } else {
            chars_of("10")
        }
    } else {
        trim_chars(&chars_of_string(&profile.tipo_recolhimento))
    };
    let motivo = if is_blank_chars(&chars_of_string(&profile.motivo_retencao)) {
        if retido {
            chars_of("T")
        } else {
            chars_of("")
        }
    } else {
        trim_chars(&chars_of_string(&profile.motivo_retencao))
    };
    let operacao = trimmed_or(profile.operacao_nota.as_str(), "A");
    let modelo_nf = trimmed_or(profile.modelo_nf.as_str(), "OU000");
    let tipo_doc = apply_string_rule(profile.tipo_documento.as_str(), &rules.tipo_documento);
    let especie = apply_string_rule(profile.especie_documento.as_str(), &rules.especie_documento);
    let sit_v = chars_of_string(&profile.situacao_documento);
    let sit_t = sanitize_text_ascii(&sit_v);
    let situacao = take_chars_vec(&sit_t, 10);
    let situacao_first = take_chars_vec(&sit_v, 1);
    let emissao_ret = if retido {
        ddmmaa_chars(&emissao)
    } else {
        Vec::new()
    };
    let mun_cod_v = chars_of_string(&document.municipio_codigo);
    let mun_digits = only_digits_chars(&mun_cod_v);
    let mun5 = fit_left_chars(&mun_digits, 5);
    let mun_export = municipality_export_code(profile, document);
    let num_left_8 = fit_left_chars(&numero, 8);
    let num_left_10 = fit_left_chars(&numero, 10);

    let em_ddmmaa = ddmmaa_chars(&emissao);
    let em_ddmmaaaa = ddmmaaaa_chars(&emissao);
    let parts = SpParts {
        tipo_livro,
        em_ddmmaa,
        serie,
        code4,
        obs_curta,
        is51,
        municipio_nome,
        tomador_doc,
        retido,
        especie,
        situacao_first,
        num_left_8,
        tomador_ie,
        tomador_uf,
        emissao_ret,
        code12,
        modelo_nf,
        motivo,
        operacao,
        tipo_recolhimento,
        tipo_doc,
        mun5,
        situacao,
        em_ddmmaaaa,
        num_left_10,
        mun_export,
        emit,
    };
    (parts, observacao)
}

fn build_sp_main_line_and_observation(
    document: &NfseDocument,
    profile: &ConversionProfile,
    amounts: &LineAmounts,
) -> (r: (Vec<char>, Vec<char>))
    requires
        crate::prestados::service_code_cuttable(*document, *profile),
    ensures
        r.0@ == sp_main_line(*document, *profile, *amounts),
        r.1@ == observacao_sp(*document, *profile),
{
    let (parts, observacao) = sp_parts(document, profile);
    let mut fields: Vec<Field> = Vec::new();
    push_sp_head(&mut fields, document, profile, amounts, &parts);
    push_sp_modelo(&mut fields, document, profile, amounts, &parts);
    push_sp_mid(&mut fields, document, profile, amounts, &parts);
    push_sp_tail(&mut fields, document, profile, amounts, &parts);
    proof {
        assert(fields_model(Seq::<Field>::empty()) =~= Seq::<FieldModel>::empty());
        assert(fields_model(fields@) =~= sp_fields(*document, *profile, *amounts));
    }
    let line = render_fields(1674, &fields);
    (line, observacao)
}

/// Builds the main line and the optional `*OBS` line of a document.
pub fn map_document_to_sp_prestados_record(
    document: &NfseDocument,
    profile: &ConversionProfile,
    amounts: &LineAmounts,
) -> (r: Result<ProsoftSpPrestadoRecord, String>)
    requires
        crate::prestados::service_code_cuttable(*document, *profile),
    ensures
        r matches Ok(rec) && rec.main_line@ == sp_main_line(*document, *profile, *amounts)
            && opt_view(rec.obs_line) == sp_obs_line(*document, *profile),
{
    let (main, observacao) = build_sp_main_line_and_observation(document, profile, amounts);
    let emit = should_emit_obs(&observacao, profile.obs_extended.as_str());
    let obs_line = if emit {
        let clean = sanitize_obs_line_ascii(&observacao);
        let cut = take_chars_vec(&clean, 7000);
        let mut line = chars_of("*OBS");
        append_chars(&mut line, &cut);
        Some(string_of(&line))
    } else {
        None
    };
    Ok(ProsoftSpPrestadoRecord { main_line: string_of(&main), obs_line })
}

/// The record as text: the main line, then `\r\n` and the `*OBS` line
/// when there is one.
pub open spec fn sp_record_text(doc: NfseDocument, profile: ConversionProfile, a: LineAmounts) -> Seq<
    char,
> {
    match sp_obs_line(doc, profile) {
        Some(obs) => sp_main_line(doc, profile, a) + "\r\n"@ + obs,
        None => sp_main_line(doc, profile, a),
    }
}

/// Builds the record as text.
pub fn map_document_to_sp_prestados_line(
    document: &NfseDocument,
    profile: &ConversionProfile,
    amounts: &LineAmounts,
) -> (r: Result<String, String>)
    requires
        crate::prestados::service_code_cuttable(*document, *profile),
    ensures
        r matches Ok(line) && line@ == sp_record_text(*document, *profile, *amounts),
{
    let record = map_document_to_sp_prestados_record(document, profile, amounts)?;
    let mut line = chars_of_string(&record.main_line);
    match &record.obs_line {
        Some(obs) => {
            append_chars(&mut line, &chars_of("\r\n"));
            append_chars(&mut line, &chars_of_string(obs));
        },
        None => {},
    }
    Ok(string_of(&line))
}

/// The São Paulo main line always has 1674 characters.
pub proof fn lemma_sp_main_line_len(doc: NfseDocument, profile: ConversionProfile, a: LineAmounts)
    ensures
        sp_main_line(doc, profile, a).len() == 1674,
{
    lemma_apply_fields_len(blank_line(sp_line_len()), sp_fields(doc, profile, a));
}

proof fn lemma_sp_field_written(doc: NfseDocument, profile: ConversionProfile, a: LineAmounts, idx: int, k: int)
    requires
        0 <= idx < sp_fields(doc, profile, a).len(),
        forall|j: int|
            idx < j < sp_fields(doc, profile, a).len() ==> field_start((#[trigger] sp_fields(doc, profile, a)[j]).0)
                >= field_start(sp_fields(doc, profile, a)[idx].0) + sp_fields(doc, profile, a)[idx].1,
        0 <= k < 1674,
        field_start(sp_fields(doc, profile, a)[idx].0) <= k,
        k < field_start(sp_fields(doc, profile, a)[idx].0) + min_int(
            sp_fields(doc, profile, a)[idx].1,
            fit(
                sp_fields(doc, profile, a)[idx].2,
                sp_fields(doc, profile, a)[idx].1,
                sp_fields(doc, profile, a)[idx].3,
                sp_fields(doc, profile, a)[idx].4,
            ).len() as int,
        ),
    ensures
        ({
            let f = sp_fields(doc, profile, a)[idx];
            sp_main_line(doc, profile, a)[k] == fit(f.2, f.1, f.3, f.4)[k - field_start(f.0)]
        }),
{
    let fs = sp_fields(doc, profile, a);
    let buf = blank_line(sp_line_len());
    let first = fs.take(idx + 1);
    let rest = fs.skip(idx + 1);
    assert(fs =~= first + rest);
    lemma_apply_fields_concat(buf, first, rest);
    lemma_apply_fields_len(buf, first);
    assert(first.last() == fs[idx]);
    lemma_last_field_written(buf, first, k);
    assert forall|j: int| 0 <= j < rest.len() implies !covers(#[trigger] rest[j], k) by {
        assert(rest[j] == fs[j + idx + 1]);
    }
    lemma_apply_fields_untouched(apply_fields(buf, first), rest, k);
}

/// The São Paulo main line places the services value at column 28, the
/// rate at 42, the ISS at 47, the taker's document (digits, zero-padded)
/// at 241, the income tax at 255 and the INSS at 269; the withheld ISS at
/// 297 only when the ISS is withheld (blank otherwise); and, unless the
/// profile sets them, the collection type `11` (withheld) or `10` at 751
/// and the withholding reason `T` (withheld) or nothing at 747.
#[verifier::rlimit(80)]
pub proof fn law_sp_columns(doc: NfseDocument, profile: ConversionProfile, a: LineAmounts)
    ensures
        forall|k: int| 0 <= k < min_int(14, fit(a.valor_servicos@, 14, true, ' ').len() as int) ==> #[trigger] sp_main_line(doc, profile, a)[27 + k] == fit(a.valor_servicos@, 14, true, ' ')[k],
        forall|k: int| 0 <= k < min_int(5, fit(a.aliquota@, 5, true, ' ').len() as int) ==> #[trigger] sp_main_line(doc, profile, a)[41 + k] == fit(a.aliquota@, 5, true, ' ')[k],
        forall|k: int| 0 <= k < min_int(14, fit(a.valor_iss@, 14, true, ' ').len() as int) ==> #[trigger] sp_main_line(doc, profile, a)[46 + k] == fit(a.valor_iss@, 14, true, ' ')[k],
        forall|k: int| 0 <= k < min_int(14, fit(digits(doc.tomador.documento@), 14, true, '0').len() as int) ==> #[trigger] sp_main_line(doc, profile, a)[240 + k] == fit(digits(doc.tomador.documento@), 14, true, '0')[k],
        forall|k: int| 0 <= k < min_int(14, fit(a.valor_irrf@, 14, true, ' ').len() as int) ==> #[trigger] sp_main_line(doc, profile, a)[254 + k] == fit(a.valor_irrf@, 14, true, ' ')[k],
        forall|k: int| 0 <= k < min_int(14, fit(a.valor_inss@, 14, true, ' ').len() as int) ==> #[trigger] sp_main_line(doc, profile, a)[268 + k] == fit(a.valor_inss@, 14, true, ' ')[k],
        forall|k: int| 0 <= k < min_int(14, fit((if crate::rules::bool_rule(doc.iss_retido, profile.field_rules.iss_retido) { a.valor_iss@ } else { seq![] }), 14, true, ' ').len() as int) ==> #[trigger] sp_main_line(doc, profile, a)[296 + k] == fit((if crate::rules::bool_rule(doc.iss_retido, profile.field_rules.iss_retido) { a.valor_iss@ } else { seq![] }), 14, true, ' ')[k],
        is_blank(profile.tipo_recolhimento@) ==> forall|k: int| 0 <= k < min_int(3, fit((if crate::rules::bool_rule(doc.iss_retido, profile.field_rules.iss_retido) { "11"@ } else { "10"@ }), 3, false, ' ').len() as int) ==> #[trigger] sp_main_line(doc, profile, a)[750 + k] == fit((if crate::rules::bool_rule(doc.iss_retido, profile.field_rules.iss_retido) { "11"@ } else { "10"@ }), 3, false, ' ')[k],
        is_blank(profile.motivo_retencao@) ==> forall|k: int| 0 <= k < min_int(2, fit((if crate::rules::bool_rule(doc.iss_retido, profile.field_rules.iss_retido) { "T"@ } else { ""@ }), 2, false, ' ').len() as int) ==> #[trigger] sp_main_line(doc, profile, a)[746 + k] == fit((if crate::rules::bool_rule(doc.iss_retido, profile.field_rules.iss_retido) { "T"@ } else { ""@ }), 2, false, ' ')[k],
{
    let fs = sp_fields(doc, profile, a);
    let h = sp_head(doc, profile, a);
    let m = sp_modelo(doc, profile, a);
    let mi = sp_mid(doc, profile, a);
    let t = sp_tail(doc, profile, a);
    reveal_strlit("11");
    reveal_strlit("10");
    reveal_strlit("T");
    reveal_strlit("");
    assert(fs.len() == 13 + 8 + mi.len() + 12);
    assert forall|j: int| 0 <= j < fs.len() implies (#[trigger] fs[j]) == (if j < 13 {
        h[j]
    } else if j < 21 {
        m[j - 13]
    } else if j < 21 + mi.len() {
        mi[j - 21]
    } else {
        t[j - 21 - mi.len()]
    }) by {}
    assert forall|i: int, j: int| (i == 7 || i == 8 || i == 9 || i == 22 || i == 23 || i == 24 || i == 26 || i == 50 || i == 52) && i < j < fs.len() implies field_start((#[trigger] fs[j]).0) >= field_start(
        (#[trigger] fs[i]).0,
    ) + fs[i].1 by {}
    assert forall|k: int| 0 <= k < min_int(14, fit(a.valor_servicos@, 14, true, ' ').len() as int) implies #[trigger] sp_main_line(doc, profile, a)[27 + k] == fit(a.valor_servicos@, 14, true, ' ')[k] by {
        lemma_sp_field_written(doc, profile, a, 7, 27 + k);
    }
    assert forall|k: int| 0 <= k < min_int(5, fit(a.aliquota@, 5, true, ' ').len() as int) implies #[trigger] sp_main_line(doc, profile, a)[41 + k] == fit(a.aliquota@, 5, true, ' ')[k] by {
        lemma_sp_field_written(doc, profile, a, 8, 41 + k);
    }
    assert forall|k: int| 0 <= k < min_int(14, fit(a.valor_iss@, 14, true, ' ').len() as int) implies #[trigger] sp_main_line(doc, profile, a)[46 + k] == fit(a.valor_iss@, 14, true, ' ')[k] by {
        lemma_sp_field_written(doc, profile, a, 9, 46 + k);
    }
    assert forall|k: int| 0 <= k < min_int(14, fit(digits(doc.tomador.documento@), 14, true, '0').len() as int) implies #[trigger] sp_main_line(doc, profile, a)[240 + k] == fit(digits(doc.tomador.documento@), 14, true, '0')[k] by {
        lemma_sp_field_written(doc, profile, a, 22, 240 + k);
    }
    assert forall|k: int| 0 <= k < min_int(14, fit(a.valor_irrf@, 14, true, ' ').len() as int) implies #[trigger] sp_main_line(doc, profile, a)[254 + k] == fit(a.valor_irrf@, 14, true, ' ')[k] by {
        lemma_sp_field_written(doc, profile, a, 23, 254 + k);
    }
    assert forall|k: int| 0 <= k < min_int(14, fit(a.valor_inss@, 14, true, ' ').len() as int) implies #[trigger] sp_main_line(doc, profile, a)[268 + k] == fit(a.valor_inss@, 14, true, ' ')[k] by {
        lemma_sp_field_written(doc, profile, a, 24, 268 + k);
    }
    assert forall|k: int| 0 <= k < min_int(14, fit((if crate::rules::bool_rule(doc.iss_retido, profile.field_rules.iss_retido) { a.valor_iss@ } else { seq![] }), 14, true, ' ').len() as int) implies #[trigger] sp_main_line(doc, profile, a)[296 + k] == fit((if crate::rules::bool_rule(doc.iss_retido, profile.field_rules.iss_retido) { a.valor_iss@ } else { seq![] }), 14, true, ' ')[k] by {
        lemma_sp_field_written(doc, profile, a, 26, 296 + k);
    }
    if is_blank(profile.tipo_recolhimento@) {
        assert forall|k: int| 0 <= k < min_int(3, fit((if crate::rules::bool_rule(doc.iss_retido, profile.field_rules.iss_retido) { "11"@ } else { "10"@ }), 3, false, ' ').len() as int) implies #[trigger] sp_main_line(doc, profile, a)[750 + k] == fit((if crate::rules::bool_rule(doc.iss_retido, profile.field_rules.iss_retido) { "11"@ } else { "10"@ }), 3, false, ' ')[k] by {
            lemma_sp_field_written(doc, profile, a, 52, 750 + k);
        }
    }
    if is_blank(profile.motivo_retencao@) {
        assert forall|k: int| 0 <= k < min_int(2, fit((if crate::rules::bool_rule(doc.iss_retido, profile.field_rules.iss_retido) { "T"@ } else { ""@ }), 2, false, ' ').len() as int) implies #[trigger] sp_main_line(doc, profile, a)[746 + k] == fit((if crate::rules::bool_rule(doc.iss_retido, profile.field_rules.iss_retido) { "T"@ } else { ""@ }), 2, false, ' ')[k] by {
            lemma_sp_field_written(doc, profile, a, 50, 746 + k);
        }
    }
}

} // verus!
