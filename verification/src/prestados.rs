//! Prosoft "serviços prestados" record for Bahia: a 1172-character main
//! line and an optional `*OBS` line.
use vstd::prelude::*;

use crate::document::{ConversionProfile, NfseDocument};
use crate::layout::{lemma_apply_fields_concat, lemma_last_field_written, 
    apply_fields, blank_line, field, field_start, field_str, fields_model, fit, lemma_apply_fields_len,
    lemma_apply_fields_untouched, lemma_fit_single, min_int, render_fields, covers, Field, FieldModel,
};
use crate::rules::{
    apply_bool_rule, apply_string_rule, bool_rule, ddmmaa, ddmmaa_chars, ddmmaaaa, ddmmaaaa_chars,
    emits_obs, first_non_empty_of_two, first_of_two, fit_left, fit_left_chars, obs_line_text,
    sanitize_obs_line, should_emit_obs, string_rule,
};
use crate::text::{opt_view, slice_chars, 
    alnum, append_chars, byte_prefix, byte_prefix_chars, chars_of, chars_of_string, concat_chars,
    digits, only_alnum_chars, only_digits_chars, squash_ws, squash_ws_chars, string_of,
    take_chars, take_chars_vec, to_uppercase_str, trim, trim_chars, unicode_upper, upper_chars,
    upper_seq, utf8_len, utf8_len_gt, zero_pad, zero_pad_chars,
};

verus! {

/// The monetary values of a document as they are written in the layouts,
/// already formatted (two or four decimals) after the field rules.
#[derive(Debug, Clone)]
pub struct LineAmounts {
    pub valor_servicos: String,
    pub base_calculo: String,
    pub aliquota: String,
    pub aliquota_4: String,
    pub valor_iss: String,
    pub valor_irrf: String,
    pub valor_inss: String,
    pub valor_pis: String,
    pub valor_cofins: String,
    pub rate_pis: String,
    pub rate_cofins: String,
    pub rate_inss: String,
    pub has_irrf: bool,
    pub has_inss: bool,
}

/// Main line and optional observation line of a document.
#[derive(Debug, Clone)]
pub struct ProsoftPrestadoRecord {
    pub main_line: String,
    pub obs_line: Option<String>,
}

/// Length of the Bahia main line.
pub open spec fn ba_line_len() -> nat {
    1172
}

/// The service code after its rule.
pub open spec fn service_code(doc: NfseDocument, profile: ConversionProfile) -> Seq<char> {
    string_rule(doc.item_lista_servico@, profile.field_rules.codigo_servico)
}

/// Four-character service code: the first four bytes of a longer code,
/// otherwise the code left-padded with zeros.
pub open spec fn code_4(sc: Seq<char>) -> Seq<char> {
    if utf8_len(sc) > 4 {
        byte_prefix(sc, 4)
    } else {
        zero_pad(sc, 4)
    }
}

/// Cutting the first four bytes of the service code is only defined when
/// they end on a character boundary.
pub open spec fn service_code_cuttable(doc: NfseDocument, profile: ConversionProfile) -> bool {
    let sc = service_code(doc, profile);
    utf8_len(sc) > 4 ==> utf8_len(byte_prefix(sc, 4)) == 4
}

/// The observation: first non-blank of description and additional info,
/// followed by the competence, trimmed, after its rule.
pub open spec fn observacao(doc: NfseDocument, profile: ConversionProfile) -> Seq<char> {
    let base = first_of_two(doc.discriminacao@, doc.info_adic@);
    let competencia = string_rule(doc.competencia@, profile.field_rules.data_competencia);
    string_rule(trim(base + seq![' '] + competencia), profile.field_rules.observacao)
}

pub open spec fn serie_ba(doc: NfseDocument, profile: ConversionProfile) -> Seq<char> {
    upper_seq(take_chars(alnum(string_rule(doc.serie@, profile.field_rules.serie)), 5))
}

pub open spec fn numero(doc: NfseDocument, profile: ConversionProfile) -> Seq<char> {
    digits(string_rule(doc.numero@, profile.field_rules.numero))
}

pub open spec fn emissao(doc: NfseDocument, profile: ConversionProfile) -> Seq<char> {
    string_rule(doc.emissao@, profile.field_rules.data_emissao)
}

pub open spec fn iss_retido(doc: NfseDocument, profile: ConversionProfile) -> bool {
    bool_rule(doc.iss_retido, profile.field_rules.iss_retido)
}

pub open spec fn municipio_nome_ba(doc: NfseDocument, profile: ConversionProfile) -> Seq<char> {
    take_chars(
        unicode_upper(squash_ws(string_rule(doc.municipio_nome@, profile.field_rules.municipio))),
        20,
    )
}

pub open spec fn flag(b: bool) -> Seq<char> {
    if b {
        seq!['1']
    } else {
        seq!['0']
    }
}

/// The fields of the Bahia main line, in writing order.
pub open spec fn ba_fields(
    doc: NfseDocument,
    profile: ConversionProfile,
    a: LineAmounts,
) -> Seq<FieldModel> {
    let sc = service_code(doc, profile);
    let code_12 = if utf8_len(sc) > 4 {
        sc
    } else {
        seq![]
    };
    let emissao = emissao(doc, profile);
    let obs = observacao(doc, profile);
    let retido = iss_retido(doc, profile);
    let num = numero(doc, profile);
    let r = profile.field_rules;
    let head: Seq<FieldModel> = seq![
        (1, 1, "1"@, false, ' '),
        (2, 6, ddmmaa(emissao), true, ' '),
        (8, 5, serie_ba(doc, profile), false, ' '),
        (31, 4, code_4(sc), true, ' '),
        (35, 1, "0"@, false, ' '),
        (36, 14, a.valor_servicos@, true, ' '),
        (50, 5, a.aliquota@, true, ' '),
        (55, 14, a.valor_iss@, true, ' '),
        (69, 40, take_chars(obs, 40), false, ' '),
        (117, 14, a.base_calculo@, true, ' '),
        (173, 14, a.base_calculo@, true, ' '),
        (229, 20, municipio_nome_ba(doc, profile), false, ' '),
        (249, 14, digits(doc.tomador.documento@), true, '0'),
        (263, 14, a.valor_irrf@, true, ' '),
        (277, 14, a.valor_inss@, true, ' '),
        (294, 14, a.valor_iss@, true, ' '),
        (308, 1, if retido { seq!['R'] } else { seq!['P'] }, false, ' '),
        (538, 1, profile.responsavel_retencao@, false, ' '),
        (582, 2, "BA"@, false, ' '),
    ];
    let retention: Seq<FieldModel> = if retido {
        seq![
            (584, 14, a.base_calculo@, true, ' '),
            (598, 5, a.aliquota@, true, ' '),
            (603, 14, a.valor_iss@, true, ' '),
            (617, 8, ddmmaaaa(emissao), false, ' '),
        ]
    } else {
        seq![]
    };
    let tail: Seq<FieldModel> = seq![
        (625, 12, code_12, false, ' '),
        (637, 5, profile.modelo_nf@, false, ' '),
        (642, 2, profile.motivo_retencao@, false, ' '),
        (644, 2, string_rule(profile.operacao_nota@, r.natureza_operacao), false, ' '),
        (646, 3, profile.tipo_recolhimento@, false, ' '),
        (650, 3, string_rule(profile.tipo_documento@, r.tipo_documento), false, ' '),
        (654, 5, take_chars(digits(doc.municipio_codigo@), 5), false, ' '),
        (659, 10, profile.situacao_documento@, false, ' '),
        (669, 5, string_rule(profile.especie_documento@, r.especie_documento), false, ' '),
        (676, 2, profile.cst_pis@, false, ' '),
        (678, 2, profile.cst_cofins@, false, ' '),
        (680, 14, a.base_calculo@, true, ' '),
        (694, 8, a.rate_pis@, true, ' '),
        (702, 14, a.valor_pis@, true, ' '),
        (716, 8, a.rate_cofins@, true, ' '),
        (724, 14, a.valor_cofins@, true, ' '),
        (810, 1, "9"@, false, ' '),
        (827, 4, profile.cod_rec_pis@, false, ' '),
        (831, 4, profile.cod_rec_cofins@, false, ' '),
        (835, 1, "N"@, false, ' '),
        (861, 10, fit_left(num, 10), true, '0'),
        (871, 10, fit_left(num, 10), true, '0'),
        (891, 8, a.aliquota_4@, true, ' '),
        (899, 3, profile.cst_iss@, false, ' '),
        (902, 4, profile.cfps@, false, ' '),
        (906, 4, profile.cod_receita_irrf@, false, ' '),
        (910, 1, flag(emits_obs(obs, profile.obs_extended@)), false, ' '),
    ];
    head + retention + tail
}

/// The Bahia main line of a document.
pub open spec fn ba_main_line(doc: NfseDocument, profile: ConversionProfile, a: LineAmounts) -> Seq<
    char,
> {
    apply_fields(blank_line(ba_line_len()), ba_fields(doc, profile, a))
}

/// The `*OBS` line: emitted as the mode says, holding at most 7000
/// characters of the observation with its line breaks turned to spaces.
pub open spec fn ba_obs_line(doc: NfseDocument, profile: ConversionProfile) -> Option<Seq<char>> {
    let obs = observacao(doc, profile);
    if emits_obs(obs, profile.obs_extended@) {
        Some("*OBS"@ + take_chars(obs_line_text(obs), 7000))
    } else {
        None
    }
}

fn push_field(fields: &mut Vec<Field>, f: Field)
    ensures
        final(fields)@ == old(fields)@.push(f),
{
    fields.push(f);
}

fn observacao_chars(doc: &NfseDocument, profile: &ConversionProfile) -> (r: Vec<char>)
    ensures
        r@ == observacao(*doc, *profile),
{
    let d = chars_of_string(&doc.discriminacao);
    let i = chars_of_string(&doc.info_adic);
    let base = first_non_empty_of_two(&d, &i);
    let competencia = apply_string_rule(
        doc.competencia.as_str(),
        &profile.field_rules.data_competencia,
    );
    let mut joined = base;
    let ghost b0 = joined@;
    joined.push(' ');
    append_chars(&mut joined, &competencia);
    assert(joined@ =~= b0 + seq![' '] + competencia@);
    let t = trim_chars(&joined);
    let ts = string_of(&t);
    apply_string_rule(ts.as_str(), &profile.field_rules.observacao)
}

/// Whether the service code of a document can be cut to its first four
/// bytes (see `service_code_cuttable`).
pub fn service_code_fits(document: &NfseDocument, profile: &ConversionProfile) -> (r: bool)
    ensures
        r == service_code_cuttable(*document, *profile),
{
    let sc = apply_string_rule(document.item_lista_servico.as_str(), &profile.field_rules.codigo_servico);
    if utf8_len_gt(&sc, 4) {
        let cut = byte_prefix_chars(&sc, 4);
        utf8_len_gt(&cut, 3) && !utf8_len_gt(&cut, 4)
    } else {
        true
    }
}

fn code_4_chars(sc: &Vec<char>) -> (r: Vec<char>)
    ensures
        r@ == code_4(sc@),
{
    if utf8_len_gt(sc, 4) {
        byte_prefix_chars(sc, 4)
    } else {
        zero_pad_chars(sc, 4)
    }
}

fn text1(c: char) -> (r: Vec<char>)
    ensures
        r@ == seq![c],
{
    let mut v: Vec<char> = Vec::new();
    v.push(c);
    proof {
        assert(v@ =~= seq![c]);
    }
    v
}

/// Builds the main line and returns it with the observation.
fn build_main_line_and_observation(
    document: &NfseDocument,
    profile: &ConversionProfile,
    amounts: &LineAmounts,
) -> (r: (Vec<char>, Vec<char>))
    requires
        service_code_cuttable(*document, *profile),
    ensures
        r.0@ == ba_main_line(*document, *profile, *amounts),
        r.1@ == observacao(*document, *profile),
{
    let rules = &profile.field_rules;
    let serie_raw = apply_string_rule(document.serie.as_str(), &rules.serie);
    let serie_alnum = only_alnum_chars(&serie_raw);
    let serie_5 = take_chars_vec(&serie_alnum, 5);
    let serie = upper_chars(&serie_5);
    let numero_raw = apply_string_rule(document.numero.as_str(), &rules.numero);
    let numero = only_digits_chars(&numero_raw);
    let sc = apply_string_rule(document.item_lista_servico.as_str(), &rules.codigo_servico);
    let code4 = code_4_chars(&sc);
    let code12 = if utf8_len_gt(&sc, 4) {
        crate::text::copy_chars(&sc)
    } else {
        Vec::new()
    };
    let emissao = apply_string_rule(document.emissao.as_str(), &rules.data_emissao);
    let observacao = observacao_chars(document, profile);
    let obs_curta = take_chars_vec(&observacao, 40);
    let mun_raw = apply_string_rule(document.municipio_nome.as_str(), &rules.municipio);
    let mun_sq = squash_ws_chars(&mun_raw);
    let mun_sq_s = string_of(&mun_sq);
    let mun_up = to_uppercase_str(mun_sq_s.as_str());
    let mun_up_v = chars_of_string(&mun_up);
    let municipio_nome = take_chars_vec(&mun_up_v, 20);
    let mun_cod_v = chars_of_string(&document.municipio_codigo);
    let municipio_codigo = only_digits_chars(&mun_cod_v);
    let tom_v = chars_of_string(&document.tomador.documento);
    let tomador_doc = only_digits_chars(&tom_v);
    let retido = apply_bool_rule(document.iss_retido, &rules.iss_retido);
    let emit = should_emit_obs(&observacao, profile.obs_extended.as_str());
    let natureza = apply_string_rule(profile.operacao_nota.as_str(), &rules.natureza_operacao);
    let tipo_doc = apply_string_rule(profile.tipo_documento.as_str(), &rules.tipo_documento);
    let especie = apply_string_rule(profile.especie_documento.as_str(), &rules.especie_documento);
    let mun5 = take_chars_vec(&municipio_codigo, 5);
    let num_left = fit_left_chars(&numero, 10);

    let mut fields: Vec<Field> = Vec::new();
    push_field(&mut fields, field_str(1, 1, "1", false, ' '));
    push_field(&mut fields, field(2, 6, &ddmmaa_chars(&emissao), true, ' '));
    push_field(&mut fields, field(8, 5, &serie, false, ' '));
    push_field(&mut fields, field(31, 4, &code4, true, ' '));
    push_field(&mut fields, field_str(35, 1, "0", false, ' '));
    push_field(&mut fields, field_str(36, 14, amounts.valor_servicos.as_str(), true, ' '));
    push_field(&mut fields, field_str(50, 5, amounts.aliquota.as_str(), true, ' '));
    push_field(&mut fields, field_str(55, 14, amounts.valor_iss.as_str(), true, ' '));
    push_field(&mut fields, field(69, 40, &obs_curta, false, ' '));
    push_field(&mut fields, field_str(117, 14, amounts.base_calculo.as_str(), true, ' '));
    push_field(&mut fields, field_str(173, 14, amounts.base_calculo.as_str(), true, ' '));
    push_field(&mut fields, field(229, 20, &municipio_nome, false, ' '));
    push_field(&mut fields, field(249, 14, &tomador_doc, true, '0'));
    push_field(&mut fields, field_str(263, 14, amounts.valor_irrf.as_str(), true, ' '));
    push_field(&mut fields, field_str(277, 14, amounts.valor_inss.as_str(), true, ' '));
    push_field(&mut fields, field_str(294, 14, amounts.valor_iss.as_str(), true, ' '));
    push_field(&mut fields, field(308, 1, &text1(if retido { 'R' } else { 'P' }), false, ' '));
    push_field(&mut fields, field_str(538, 1, profile.responsavel_retencao.as_str(), false, ' '));
    push_field(&mut fields, field_str(582, 2, "BA", false, ' '));
    let ghost head = fields@;
    if retido {
        push_field(&mut fields, field_str(584, 14, amounts.base_calculo.as_str(), true, ' '));
        push_field(&mut fields, field_str(598, 5, amounts.aliquota.as_str(), true, ' '));
        push_field(&mut fields, field_str(603, 14, amounts.valor_iss.as_str(), true, ' '));
        push_field(&mut fields, field(617, 8, &ddmmaaaa_chars(&emissao), false, ' '));
    }
    let ghost head_ret = fields@;
    push_field(&mut fields, field(625, 12, &code12, false, ' '));
    push_field(&mut fields, field_str(637, 5, profile.modelo_nf.as_str(), false, ' '));
    push_field(&mut fields, field_str(642, 2, profile.motivo_retencao.as_str(), false, ' '));
    push_field(&mut fields, field(644, 2, &natureza, false, ' '));
    push_field(&mut fields, field_str(646, 3, profile.tipo_recolhimento.as_str(), false, ' '));
    push_field(&mut fields, field(650, 3, &tipo_doc, false, ' '));
    push_field(&mut fields, field(654, 5, &mun5, false, ' '));
    push_field(&mut fields, field_str(659, 10, profile.situacao_documento.as_str(), false, ' '));
    push_field(&mut fields, field(669, 5, &especie, false, ' '));
    push_field(&mut fields, field_str(676, 2, profile.cst_pis.as_str(), false, ' '));
    push_field(&mut fields, field_str(678, 2, profile.cst_cofins.as_str(), false, ' '));
    push_field(&mut fields, field_str(680, 14, amounts.base_calculo.as_str(), true, ' '));
    push_field(&mut fields, field_str(694, 8, amounts.rate_pis.as_str(), true, ' '));
    push_field(&mut fields, field_str(702, 14, amounts.valor_pis.as_str(), true, ' '));
    push_field(&mut fields, field_str(716, 8, amounts.rate_cofins.as_str(), true, ' '));
    push_field(&mut fields, field_str(724, 14, amounts.valor_cofins.as_str(), true, ' '));
    push_field(&mut fields, field_str(810, 1, "9", false, ' '));
    push_field(&mut fields, field_str(827, 4, profile.cod_rec_pis.as_str(), false, ' '));
    push_field(&mut fields, field_str(831, 4, profile.cod_rec_cofins.as_str(), false, ' '));
    push_field(&mut fields, field_str(835, 1, "N", false, ' '));
    push_field(&mut fields, field(861, 10, &num_left, true, '0'));
    push_field(&mut fields, field(871, 10, &num_left, true, '0'));
    push_field(&mut fields, field_str(891, 8, amounts.aliquota_4.as_str(), true, ' '));
    push_field(&mut fields, field_str(899, 3, profile.cst_iss.as_str(), false, ' '));
    push_field(&mut fields, field_str(902, 4, profile.cfps.as_str(), false, ' '));
    push_field(&mut fields, field_str(906, 4, profile.cod_receita_irrf.as_str(), false, ' '));
    push_field(&mut fields, field(910, 1, &text1(if emit { '1' } else { '0' }), false, ' '));
    proof {
        let m = fields_model(fields@);
        let spec_fields = ba_fields(*document, *profile, *amounts);
        assert(fields_model(head) =~= spec_fields.take(19));
        assert(m =~= spec_fields);
    }
    let line = render_fields(1172, &fields);
    (line, observacao)
}


/// Builds the main line and the optional `*OBS` line of a document.
pub fn map_document_to_ba_prestados_record(
    document: &NfseDocument,
    profile: &ConversionProfile,
    amounts: &LineAmounts,
) -> (r: Result<ProsoftPrestadoRecord, String>)
    requires
        service_code_cuttable(*document, *profile),
    ensures
        r matches Ok(rec) && rec.main_line@ == ba_main_line(*document, *profile, *amounts)
            && opt_view(rec.obs_line) == ba_obs_line(*document, *profile),
{
    let (main, observacao) = build_main_line_and_observation(document, profile, amounts);
    let emit = should_emit_obs(&observacao, profile.obs_extended.as_str());
    let obs_line = if emit {
        let clean = sanitize_obs_line(&observacao);
        let cut = take_chars_vec(&clean, 7000);
        let mut line = chars_of("*OBS");
        append_chars(&mut line, &cut);
        Some(string_of(&line))
    } else {
        None
    };
    Ok(ProsoftPrestadoRecord { main_line: string_of(&main), obs_line })
}

/// The record as text: the main line, then `\r\n` and the `*OBS` line
/// when there is one.
pub open spec fn ba_record_text(doc: NfseDocument, profile: ConversionProfile, a: LineAmounts) -> Seq<
    char,
> {
    match ba_obs_line(doc, profile) {
        Some(obs) => ba_main_line(doc, profile, a) + "\r\n"@ + obs,
        None => ba_main_line(doc, profile, a),
    }
}

/// Builds the record as text.
pub fn map_document_to_ba_prestados_line(
    document: &NfseDocument,
    profile: &ConversionProfile,
    amounts: &LineAmounts,
) -> (r: Result<String, String>)
    requires
        service_code_cuttable(*document, *profile),
    ensures
        r matches Ok(line) && line@ == ba_record_text(*document, *profile, *amounts),
{
    let record = map_document_to_ba_prestados_record(document, profile, amounts)?;
    let mut line = chars_of_string(&record.main_line);
    match &record.obs_line {
        Some(obs) => {
            append_chars(&mut line, &chars_of("\r\n"));
            append_chars(&mut line, &chars_of_string(obs));
        },
        None => {},
    }
    Ok(string_of(&line))
}

/// The "serviços tomados" record as text: the "prestados" one with record
/// type `2` in its first column.
pub open spec fn ba_tomados_text(doc: NfseDocument, profile: ConversionProfile, a: LineAmounts) -> Seq<char> {
    seq!['2'] + ba_record_text(doc, profile, a).skip(1)
}

/// The "serviços tomados" record: the "prestados" record with record
/// type `2` in its first column.
pub fn map_document_to_ba_tomados_line(
    document: &NfseDocument,
    profile: &ConversionProfile,
    amounts: &LineAmounts,
) -> (r: Result<String, String>)
    requires
        service_code_cuttable(*document, *profile),
    ensures
        r matches Ok(line) && line@ == ba_tomados_text(*document, *profile, *amounts),
{
    let line = map_document_to_ba_prestados_line(document, profile, amounts)?;
    let v = chars_of_string(&line);
    proof {
        lemma_ba_main_line_shape(*document, *profile, *amounts);
    }
    let mut out: Vec<char> = Vec::new();
    out.push('2');
    let rest = slice_chars(&v, 1, v.len());
    append_chars(&mut out, &rest);
    proof {
        assert(out@ =~= seq!['2'] + v@.skip(1));
    }
    Ok(string_of(&out))
}

/// The "tomados" record of a document is its "prestados" record with the
/// record type `1` turned into `2`: same length, every other character
/// (the `*OBS` line included) alike.
pub proof fn law_tomados_differs_only_in_type(doc: NfseDocument, profile: ConversionProfile, a: LineAmounts)
    ensures
        ba_record_text(doc, profile, a)[0] == '1',
        ba_tomados_text(doc, profile, a)[0] == '2',
        ba_tomados_text(doc, profile, a).len() == ba_record_text(doc, profile, a).len(),
        forall|i: int|
            1 <= i < ba_record_text(doc, profile, a).len() ==> #[trigger] ba_tomados_text(doc, profile, a)[i]
                == ba_record_text(doc, profile, a)[i],
{
    lemma_ba_main_line_shape(doc, profile, a);
    let b = ba_record_text(doc, profile, a);
    let m = ba_main_line(doc, profile, a);
    assert(b[0] == m[0]);
    assert(b.len() >= 1);
}

/// The Bahia main line always has 1172 characters, starts with record type
/// `1`, and its column 910 says whether an `*OBS` line follows.
pub proof fn lemma_ba_main_line_shape(doc: NfseDocument, profile: ConversionProfile, a: LineAmounts)
    ensures
        ba_main_line(doc, profile, a).len() == 1172,
        ba_main_line(doc, profile, a)[0] == '1',
        ba_main_line(doc, profile, a)[909] == (if ba_obs_line(doc, profile) is Some {
            '1'
        } else {
            '0'
        }),
        ba_record_text(doc, profile, a).len() >= 1172,
        ba_record_text(doc, profile, a)[0] == '1',
{
    reveal_strlit("1");
    let fs = ba_fields(doc, profile, a);
    let buf = blank_line(ba_line_len());
    lemma_apply_fields_len(buf, fs);
    // column 910: the last field
    let obs = observacao(doc, profile);
    let e = emits_obs(obs, profile.obs_extended@);
    lemma_fit_single(if e { '1' } else { '0' }, ' ', false);
    assert(flag(e) == seq![if e { '1' } else { '0' }]);
    lemma_last_field_written(buf, fs, 909);
    // column 1: written by the first field, untouched by the others
    let first = fs.take(1);
    let rest = fs.skip(1);
    assert(fs =~= first + rest);
    lemma_apply_fields_concat(buf, first, rest);
    lemma_apply_fields_len(buf, first);
    assert(first.drop_last() =~= Seq::<FieldModel>::empty());
    assert("1"@ =~= seq!['1']);
    lemma_fit_single('1', ' ', false);
    assert(apply_fields(buf, first)[0] == '1');
    assert forall|j: int| 0 <= j < rest.len() implies !covers(#[trigger] rest[j], 0) by {
        assert(rest[j] == fs[j + 1]);
    }
    lemma_apply_fields_untouched(apply_fields(buf, first), rest, 0);
    if ba_obs_line(doc, profile) is Some {
        assert(ba_record_text(doc, profile, a)[0] == ba_main_line(doc, profile, a)[0]);
    }
}

/// Column 308 of the Bahia main line tells who pays the ISS: `R` when the
/// taker withholds it (the document's flag after the profile's rule),
/// `P` when the provider pays it.
pub proof fn law_ba_withholding_column(doc: NfseDocument, profile: ConversionProfile, a: LineAmounts)
    ensures
        ba_main_line(doc, profile, a)[307] == (if bool_rule(doc.iss_retido, profile.field_rules.iss_retido) {
            'R'
        } else {
            'P'
        }),
{
    let fs = ba_fields(doc, profile, a);
    let buf = blank_line(ba_line_len());
    let c = if bool_rule(doc.iss_retido, profile.field_rules.iss_retido) {
        'R'
    } else {
        'P'
    };
    let first = fs.take(17);
    let rest = fs.skip(17);
    assert(fs =~= first + rest);
    lemma_apply_fields_concat(buf, first, rest);
    lemma_apply_fields_len(buf, first);
    lemma_apply_fields_len(buf, fs);
    assert(first.last() == fs[16]);
    assert(fs[16].2 == seq![c]);
    lemma_fit_single(c, ' ', false);
    lemma_last_field_written(buf, first, 307);
    assert forall|j: int| 0 <= j < rest.len() implies !covers(#[trigger] rest[j], 307) by {
        assert(rest[j] == fs[j + 17]);
    }
    lemma_apply_fields_untouched(apply_fields(buf, first), rest, 307);
}

proof fn lemma_ba_field_written(doc: NfseDocument, profile: ConversionProfile, a: LineAmounts, idx: int, k: int)
    requires
        0 <= idx < ba_fields(doc, profile, a).len(),
        forall|j: int|
            idx < j < ba_fields(doc, profile, a).len() ==> field_start((#[trigger] ba_fields(doc, profile, a)[j]).0)
                >= field_start(ba_fields(doc, profile, a)[idx].0) + ba_fields(doc, profile, a)[idx].1,
        0 <= k < 1172,
        field_start(ba_fields(doc, profile, a)[idx].0) <= k,
        k < field_start(ba_fields(doc, profile, a)[idx].0) + min_int(
            ba_fields(doc, profile, a)[idx].1,
            fit(
                ba_fields(doc, profile, a)[idx].2,
                ba_fields(doc, profile, a)[idx].1,
                ba_fields(doc, profile, a)[idx].3,
                ba_fields(doc, profile, a)[idx].4,
            ).len() as int,
        ),
    ensures
        ({
            let f = ba_fields(doc, profile, a)[idx];
            ba_main_line(doc, profile, a)[k] == fit(f.2, f.1, f.3, f.4)[k - field_start(f.0)]
        }),
{
    let fs = ba_fields(doc, profile, a);
    let buf = blank_line(ba_line_len());
    let first = fs.take(idx + 1);
    let rest = fs.skip(idx + 1);
    assert(fs =~= first + rest);
    lemma_apply_fields_concat(buf, first, rest);
    lemma_apply_fields_len(buf, first);
    assert(first.last() == fs[idx]);
    lemma_last_field_written(buf, first, k);
    assert forall|j: int| 0 <= j < rest.len() implies !covers(#[trigger] rest[j], k) by {
        assert(rest[j] == fs[j + idx + 1]);
    }
    lemma_apply_fields_untouched(apply_fields(buf, first), rest, k);
}

/// The amounts of the Bahia main line stand in their own columns, each
/// right-aligned in 14 columns (the rate in 5): the services value at 36,
/// the rate at 50,
/// the ISS at 55 and again at 294, the calculation base at 117 and 173,
/// the income tax at 263 and the INSS at 277; the taker's document, in
/// digits and padded with zeros, at 249.
#[verifier::rlimit(60)]
pub proof fn law_ba_amount_columns(doc: NfseDocument, profile: ConversionProfile, a: LineAmounts)
    ensures
        forall|k: int| 0 <= k < min_int(14, fit(a.valor_servicos@, 14, true, ' ').len() as int) ==> #[trigger] ba_main_line(doc, profile, a)[35 + k] == fit(a.valor_servicos@, 14, true, ' ')[k],
        forall|k: int| 0 <= k < min_int(5, fit(a.aliquota@, 5, true, ' ').len() as int) ==> #[trigger] ba_main_line(doc, profile, a)[49 + k] == fit(a.aliquota@, 5, true, ' ')[k],
        forall|k: int| 0 <= k < min_int(14, fit(a.valor_iss@, 14, true, ' ').len() as int) ==> #[trigger] ba_main_line(doc, profile, a)[54 + k] == fit(a.valor_iss@, 14, true, ' ')[k],
        forall|k: int| 0 <= k < min_int(14, fit(a.base_calculo@, 14, true, ' ').len() as int) ==> #[trigger] ba_main_line(doc, profile, a)[116 + k] == fit(a.base_calculo@, 14, true, ' ')[k],
        forall|k: int| 0 <= k < min_int(14, fit(a.base_calculo@, 14, true, ' ').len() as int) ==> #[trigger] ba_main_line(doc, profile, a)[172 + k] == fit(a.base_calculo@, 14, true, ' ')[k],
        forall|k: int| 0 <= k < min_int(14, fit(digits(doc.tomador.documento@), 14, true, '0').len() as int) ==> #[trigger] ba_main_line(doc, profile, a)[248 + k] == fit(digits(doc.tomador.documento@), 14, true, '0')[k],
        forall|k: int| 0 <= k < min_int(14, fit(a.valor_irrf@, 14, true, ' ').len() as int) ==> #[trigger] ba_main_line(doc, profile, a)[262 + k] == fit(a.valor_irrf@, 14, true, ' ')[k],
        forall|k: int| 0 <= k < min_int(14, fit(a.valor_inss@, 14, true, ' ').len() as int) ==> #[trigger] ba_main_line(doc, profile, a)[276 + k] == fit(a.valor_inss@, 14, true, ' ')[k],
        forall|k: int| 0 <= k < min_int(14, fit(a.valor_iss@, 14, true, ' ').len() as int) ==> #[trigger] ba_main_line(doc, profile, a)[293 + k] == fit(a.valor_iss@, 14, true, ' ')[k],
{
    let fs = ba_fields(doc, profile, a);
    lemma_apply_fields_len(blank_line(ba_line_len()), fs);
    assert forall|i: int, j: int| 0 <= i < 16 && i < j < fs.len() implies field_start((#[trigger] fs[j]).0) >= field_start(
        (#[trigger] fs[i]).0,
    ) + fs[i].1 by {}
    assert forall|k: int| 0 <= k < min_int(14, fit(a.valor_servicos@, 14, true, ' ').len() as int) implies #[trigger] ba_main_line(doc, profile, a)[35 + k] == fit(a.valor_servicos@, 14, true, ' ')[k] by {
        lemma_ba_field_written(doc, profile, a, 5, 35 + k);
    }
    assert forall|k: int| 0 <= k < min_int(5, fit(a.aliquota@, 5, true, ' ').len() as int) implies #[trigger] ba_main_line(doc, profile, a)[49 + k] == fit(a.aliquota@, 5, true, ' ')[k] by {
        lemma_ba_field_written(doc, profile, a, 6, 49 + k);
    }
    assert forall|k: int| 0 <= k < min_int(14, fit(a.valor_iss@, 14, true, ' ').len() as int) implies #[trigger] ba_main_line(doc, profile, a)[54 + k] == fit(a.valor_iss@, 14, true, ' ')[k] by {
        lemma_ba_field_written(doc, profile, a, 7, 54 + k);
    }
    assert forall|k: int| 0 <= k < min_int(14, fit(a.base_calculo@, 14, true, ' ').len() as int) implies #[trigger] ba_main_line(doc, profile, a)[116 + k] == fit(a.base_calculo@, 14, true, ' ')[k] by {
        lemma_ba_field_written(doc, profile, a, 9, 116 + k);
    }
    assert forall|k: int| 0 <= k < min_int(14, fit(a.base_calculo@, 14, true, ' ').len() as int) implies #[trigger] ba_main_line(doc, profile, a)[172 + k] == fit(a.base_calculo@, 14, true, ' ')[k] by {
        lemma_ba_field_written(doc, profile, a, 10, 172 + k);
    }
    assert forall|k: int| 0 <= k < min_int(14, fit(digits(doc.tomador.documento@), 14, true, '0').len() as int) implies #[trigger] ba_main_line(doc, profile, a)[248 + k] == fit(digits(doc.tomador.documento@), 14, true, '0')[k] by {
        lemma_ba_field_written(doc, profile, a, 12, 248 + k);
    }
    assert forall|k: int| 0 <= k < min_int(14, fit(a.valor_irrf@, 14, true, ' ').len() as int) implies #[trigger] ba_main_line(doc, profile, a)[262 + k] == fit(a.valor_irrf@, 14, true, ' ')[k] by {
        lemma_ba_field_written(doc, profile, a, 13, 262 + k);
    }
    assert forall|k: int| 0 <= k < min_int(14, fit(a.valor_inss@, 14, true, ' ').len() as int) implies #[trigger] ba_main_line(doc, profile, a)[276 + k] == fit(a.valor_inss@, 14, true, ' ')[k] by {
        lemma_ba_field_written(doc, profile, a, 14, 276 + k);
    }
    assert forall|k: int| 0 <= k < min_int(14, fit(a.valor_iss@, 14, true, ' ').len() as int) implies #[trigger] ba_main_line(doc, profile, a)[293 + k] == fit(a.valor_iss@, 14, true, ' ')[k] by {
        lemma_ba_field_written(doc, profile, a, 15, 293 + k);
    }
}

} // verus!
