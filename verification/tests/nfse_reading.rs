use integra_desktop::nfse_route::build_output_file_name;
use integra_desktop::document::{canonicalize_bundle, ConversionProfile, NfseDocument, Party, ProfileBundle};
use integra_desktop::nfse_parse::NfseBatchResult;
use integra_desktop::nfe_parse::{normalize_nfe, parse_nfe_xml, ParsedNfe};
use integra_desktop::nfse_parse::{
    collect_document_warnings, fallback_text, finish_nfse_document, has_minimum_required_fields,
    normalize_nfse_document, normalize_service_code, option_string, optional_digits, parse_abrasf_v2_with_id,
    parse_decimal_text, parse_nfse_xml, parse_nfse_xml_with_layout, parse_ubaira_with_id, read_nfse_xml,
    resolve_municipio, sanitize,
};

const ABRASF_XML: &str = "<?xml version=\"1.0\" encoding=\"UTF-8\"?>\
<CompNfse xmlns=\"http://www.abrasf.org.br/nfse.xsd\"><Nfse><InfNfse>\
<Numero>123</Numero><CodigoVerificacao>ABC</CodigoVerificacao>\
<DataEmissao>2026-03-19T10:00:00</DataEmissao><Competencia>2026-03-01</Competencia>\
<OutrasInformacoes>Chave 12345678901234567890123456789012345678901234 fim</OutrasInformacoes>\
<ValoresNfse><BaseCalculo>1.234,56</BaseCalculo><Aliquota>5</Aliquota>\
<ValorIss>61,73</ValorIss><ValorLiquidoNfse>1234.56</ValorLiquidoNfse></ValoresNfse>\
<PrestadorServico><Cnpj>12.345.678/0001-90</Cnpj><InscricaoMunicipal>999</InscricaoMunicipal>\
<RazaoSocial>Prestador Ltda</RazaoSocial><Endereco>Rua A</Endereco>\
<CodigoMunicipio>2928703</CodigoMunicipio><Uf>BA</Uf><Cep>44.570-000</Cep></PrestadorServico>\
<Servico><ValorServicos> 1.234,56 </ValorServicos><IssRetido>2</IssRetido>\
<ItemListaServico>1.01</ItemListaServico><CodigoCnae>6201-5/01</CodigoCnae>\
<Discriminacao>Servico de&lt;br/&gt;teste   x</Discriminacao>\
<MunicipioIncidencia>2928703</MunicipioIncidencia></Servico>\
<Tomador><Cpf>123.456.789-09</Cpf><RazaoSocial>Cliente</RazaoSocial></Tomador>\
</InfNfse></Nfse></CompNfse>";

const UBAIRA_XML: &str = "<GerarNfseResposta><InfNfse><Numero>7</Numero>\
<CodigoVerificacao>cod 98765432109876543210987654321098765432109876</CodigoVerificacao>\
<IssRetido>1</IssRetido><CodigoMunicipio>Ubaira</CodigoMunicipio>\
<Tomador><Cnpj>11222333000144</Cnpj></Tomador></InfNfse></GerarNfseResposta>";

fn document_with(numero: &str, chave: &str, municipio_codigo: &str, discriminacao: &str, info_adic: &str) -> NfseDocument {
    NfseDocument {
        id: "1".into(),
        file_name: "a.xml".into(),
        provider: "x".into(),
        provider_friendly: "x".into(),
        layout: "ba_prestados".into(),
        numero: numero.into(),
        serie: " 1 ".into(),
        emissao: "2026-03-19".into(),
        competencia: "2026-03".into(),
        chave: chave.into(),
        municipio_codigo: municipio_codigo.into(),
        municipio_nome: "  Salvador ".into(),
        item_lista_servico: "0101".into(),
        codigo_cnae: None,
        discriminacao: discriminacao.into(),
        info_adic: info_adic.into(),
        prestador: Party::empty(),
        tomador: Party::empty(),
        iss_retido: false,
        warnings: vec![],
    }
}

#[test]
fn abrasf_reader_takes_every_field() {
    let reading = parse_abrasf_v2_with_id(ABRASF_XML, "a.xml", "id-1".to_string()).expect("reads");
    let d = &reading.document;
    assert_eq!(d.id, "id-1");
    assert_eq!(d.file_name, "a.xml");
    assert_eq!(d.provider, "webiss_abrasf_202");
    assert_eq!(d.provider_friendly, "WebISS/ABRASF");
    assert_eq!(d.layout, "ba_prestados");
    assert_eq!(d.numero, "123");
    assert_eq!(d.serie, "A");
    assert_eq!(d.emissao, "2026-03-19T10:00:00");
    assert_eq!(d.competencia, "2026-03-01");
    assert_eq!(d.chave, "12345678901234567890123456789012345678901234");
    assert_eq!(d.municipio_codigo, "2928703");
    assert_eq!(d.municipio_nome, "SANTO ANTÔNIO DE JESUS");
    assert_eq!(d.item_lista_servico, "0101");
    assert_eq!(d.codigo_cnae.as_deref(), Some("6201501"));
    assert_eq!(d.discriminacao, "Servico de teste x");
    assert_eq!(d.info_adic, "Chave 12345678901234567890123456789012345678901234 fim");
    assert_eq!(d.prestador.nome, "Prestador Ltda");
    assert_eq!(d.prestador.documento, "12345678000190");
    assert_eq!(d.prestador.inscricao_municipal.as_deref(), Some("999"));
    assert_eq!(d.prestador.endereco.as_deref(), Some("Rua A"));
    assert_eq!(d.prestador.municipio_codigo.as_deref(), Some("2928703"));
    assert_eq!(d.prestador.uf.as_deref(), Some("BA"));
    assert_eq!(d.prestador.cep.as_deref(), Some("44570000"));
    assert_eq!(d.prestador.municipio_nome, None);
    assert_eq!(d.tomador.nome, "Cliente");
    assert_eq!(d.tomador.documento, "12345678909");
    assert_eq!(d.tomador.cep, None);
    assert!(!d.iss_retido);
    assert!(d.warnings.is_empty());
    let a = &reading.amounts;
    assert_eq!(a.valor_servicos, "1234.56");
    assert_eq!(a.base_calculo, "1234.56");
    assert_eq!(a.valor_iss, "61.73");
    assert_eq!(a.aliquota_iss, "5");
    assert_eq!(a.valor_liquido, "1234.56");
    assert_eq!(a.valor_irrf, "");
}

#[test]
fn abrasf_reader_without_inf_nfse_is_refused() {
    let err = parse_abrasf_v2_with_id("<CompNfse><Nfse/></CompNfse>", "a.xml", "x".into()).unwrap_err();
    assert_eq!(err, "InfNfse não encontrado");
}

#[test]
fn abrasf_reader_gives_the_parser_message_for_broken_xml() {
    let err = parse_abrasf_v2_with_id("<CompNfse>", "a.xml", "x".into()).unwrap_err();
    assert!(!err.is_empty());
}

#[test]
fn generic_comp_nfse_keeps_generic_friendly_name_and_key() {
    let xml = "<CompNfse><InfNfse><Numero>1</Numero><Serie>B</Serie><ChaveAcesso>K1</ChaveAcesso></InfNfse></CompNfse>";
    let reading = parse_abrasf_v2_with_id(xml, "g.xml", "i".into()).expect("reads");
    assert_eq!(reading.document.provider_friendly, "CompNfse genérico");
    assert_eq!(reading.document.serie, "B");
    assert_eq!(reading.document.chave, "K1");
    assert_eq!(reading.document.municipio_codigo, "");
    assert_eq!(reading.document.municipio_nome, "");
}

#[test]
fn ubaira_reader_falls_back_on_verification_code() {
    let reading = parse_ubaira_with_id(UBAIRA_XML, "u.xml", "u1".into()).expect("reads");
    let d = &reading.document;
    assert_eq!(d.provider, "ubaira_custom");
    assert_eq!(d.provider_friendly, "Ubaíra custom");
    assert_eq!(d.serie, "UNICA");
    assert_eq!(d.info_adic, "cod 98765432109876543210987654321098765432109876");
    assert_eq!(d.chave, "98765432109876543210987654321098765432109876");
    assert_eq!(d.municipio_codigo, "2932101");
    assert_eq!(d.municipio_nome, "UBAIRA");
    assert!(d.iss_retido);
    // without a PrestadorServico element the party is read from InfNfse
    assert_eq!(d.prestador.documento, "11222333000144");
    assert_eq!(d.tomador.documento, "11222333000144");
}

#[test]
fn dispatch_follows_configured_and_detected_layouts() {
    let r = read_nfse_xml(ABRASF_XML, "a.xml", None, "id".into()).expect("abrasf");
    assert_eq!(r.document.provider, "webiss_abrasf_202");
    let r = read_nfse_xml(UBAIRA_XML, "u.xml", Some("auto"), "id".into()).expect("ubaira");
    assert_eq!(r.document.provider, "ubaira_custom");
    let r = read_nfse_xml(ABRASF_XML, "a.xml", Some("ubaira_custom"), "id".into()).expect("forced");
    assert_eq!(r.document.provider, "ubaira_custom");
    let e = read_nfse_xml(ABRASF_XML, "a.xml", Some("ginfes"), "id".into()).unwrap_err();
    assert_eq!(e, "Parser GINFES ainda não implementado nesta entrega.");
    let e = read_nfse_xml(ABRASF_XML, "a.xml", Some("betha"), "id".into()).unwrap_err();
    assert_eq!(e, "Parser Betha ainda não implementado nesta entrega.");
    let e = read_nfse_xml(ABRASF_XML, "a.xml", Some("abrasf_v1"), "id".into()).unwrap_err();
    assert!(e.starts_with("ABRASF v1 ainda não implementado"));
    let e = read_nfse_xml("<Outro/>", "o.xml", None, "id".into()).unwrap_err();
    assert_eq!(e, "Layout de XML NFS-e não suportado.");
}

#[test]
fn dispatch_cleans_text_before_the_root() {
    let xml = format!("\u{feff}  lixo {}", "<CompNfse><InfNfse><Numero>5</Numero></InfNfse></CompNfse>");
    let r = read_nfse_xml(&xml, "a.xml", None, "id".into()).expect("reads");
    assert_eq!(r.document.numero, "5");
}

#[test]
fn fresh_identifiers_have_the_hyphenated_form() {
    let r = parse_nfse_xml(ABRASF_XML, "a.xml").expect("reads");
    let id = r.document.id.clone();
    assert_eq!(id.chars().count(), 36);
    assert_eq!(id.chars().nth(8), Some('-'));
    assert_eq!(id.chars().nth(14), Some('4'));
    let other = parse_nfse_xml_with_layout(ABRASF_XML, "a.xml", None).expect("reads");
    assert_ne!(other.document.id, id);
}

#[test]
fn decimal_text_follows_the_marks() {
    assert_eq!(parse_decimal_text(" 1.234,56 "), "1234.56");
    assert_eq!(parse_decimal_text("61,7"), "61.7");
    assert_eq!(parse_decimal_text("1 000.5"), "1000.5");
    assert_eq!(parse_decimal_text(""), "");
}

#[test]
fn small_text_helpers() {
    assert_eq!(optional_digits("ab"), None);
    assert_eq!(optional_digits("6201-5"), Some("62015".to_string()));
    assert_eq!(option_string("  ".to_string()), None);
    assert_eq!(option_string(" x ".to_string()), Some(" x ".to_string()));
    assert_eq!(fallback_text(" ".to_string(), "A"), "A");
    assert_eq!(fallback_text("B".to_string(), "A"), "B");
    assert_eq!(normalize_service_code("7"), "0007");
    assert_eq!(normalize_service_code("14.01.02"), "140102");
    assert_eq!(normalize_service_code("x"), "");
    assert_eq!(sanitize(" a<BR />b<br/>c\\s\\nd \t e "), "a b c d e");
}

#[test]
fn municipalities_resolve_by_code_or_name() {
    assert_eq!(resolve_municipio(" 2910800 "), ("2910809".to_string(), "FEIRA DE SANTANA".to_string()));
    assert_eq!(resolve_municipio("2927408"), ("2927408".to_string(), "SALVADOR".to_string()));
    assert_eq!(resolve_municipio("1234567"), ("1234567".to_string(), "1234567".to_string()));
    assert_eq!(resolve_municipio("Santo Antônio de Jesus"), ("2928703".to_string(), "SANTO ANTÔNIO DE JESUS".to_string()));
    assert_eq!(resolve_municipio("Recife"), (String::new(), "RECIFE".to_string()));
    assert_eq!(resolve_municipio(""), (String::new(), String::new()));
}

#[test]
fn normalization_trims_and_upper_cases() {
    let d = normalize_nfse_document(document_with(" 12 ", "k", " 2927408 ", " desc ", " info "));
    assert_eq!(d.numero, "12");
    assert_eq!(d.serie, "1");
    assert_eq!(d.municipio_codigo, "2927408");
    assert_eq!(d.municipio_nome, "SALVADOR");
    assert_eq!(d.discriminacao, "desc");
    assert_eq!(d.info_adic, "info");
    assert_eq!(d.emissao, "2026-03-19");
}

#[test]
fn warnings_come_in_order() {
    let d = document_with("1", " ", "", "", " ");
    let w = collect_document_warnings(&d, true);
    assert_eq!(
        w,
        vec![
            "Chave NFS-e não identificada automaticamente.".to_string(),
            "Município da prestação sem código IBGE resolvido.".to_string(),
            "Base de cálculo zerada ou ausente no XML.".to_string(),
            "Documento sem observação/discriminação.".to_string(),
        ]
    );
    let full = document_with("1", "k", "1", "d", "");
    assert!(collect_document_warnings(&full, false).is_empty());
}

#[test]
fn minimum_fields_need_number_date_taker_and_amount() {
    let mut d = document_with("1", "k", "1", "d", "");
    assert!(!has_minimum_required_fields(&d, true));
    d.tomador.documento = "123".into();
    assert!(has_minimum_required_fields(&d, true));
    assert!(!has_minimum_required_fields(&d, false));
    d.numero = " ".into();
    assert!(!has_minimum_required_fields(&d, true));
}

#[test]
fn finishing_compares_the_company_city() {
    let reading = parse_abrasf_v2_with_id(ABRASF_XML, "a.xml", "id".into()).expect("reads");
    let mut profile = ConversionProfile::default();
    profile.company_municipio_nome = " Salvador ".into();
    let (done, lines) = finish_nfse_document(reading, Some(&profile), false);
    assert_eq!(
        done.document.warnings,
        vec!["Município do XML (SANTO ANTÔNIO DE JESUS) difere do município configurado na empresa (Salvador).".to_string()]
    );
    assert_eq!(
        lines,
        vec!["a.xml: Município do XML (SANTO ANTÔNIO DE JESUS) difere do município configurado na empresa (Salvador).".to_string()]
    );
    let reading = parse_abrasf_v2_with_id(ABRASF_XML, "a.xml", "id".into()).expect("reads");
    profile.company_municipio_nome = "santo antônio de jesus".into();
    let (done, lines) = finish_nfse_document(reading, Some(&profile), true);
    // the comparison ignores ASCII case only, so Ô still differs from ô
    assert_eq!(done.document.warnings.len(), 2);
    assert_eq!(lines[0], "a.xml: Base de cálculo zerada ou ausente no XML.");
}

#[test]
fn parse_nfe_basica() {
    let xml = r#"<NFe><infNFe Id='NFe123'><ide><nNF>77</nNF><serie>1</serie><dhEmi>2026-03-01</dhEmi></ide><emit><CNPJ>12345678000190</CNPJ></emit><dest><CPF>12345678901</CPF></dest><total><ICMSTot><vNF>100,10</vNF></ICMSTot></total><protNFe><infProt><chNFe>3512345</chNFe></infProt></protNFe></infNFe></NFe>"#;
    let parsed = parse_nfe_xml(xml).expect("deve parsear");
    assert_eq!(parsed.numero, "77");
    assert_eq!(parsed.serie, "1");
    assert_eq!(parsed.emitente_documento, "12345678000190");
    assert_eq!(parsed.destinatario_documento, "12345678901");
}

#[test]
fn nfe_reading_takes_key_date_and_total() {
    let xml = "<NFe><chNFe>NFeNFe35123</chNFe><dEmi> 2026-01-02 </dEmi><vNF>1.100,10</vNF><dest><CNPJ>9</CNPJ></dest></NFe>";
    let parsed = parse_nfe_xml(xml).expect("reads");
    assert_eq!(parsed.chave, "35123");
    assert_eq!(parsed.numero, "");
    assert_eq!(parsed.emissao, "2026-01-02");
    assert_eq!(parsed.valor_total, "1100.10");
    assert_eq!(parsed.destinatario_documento, "9");
    // the issuer's CNPJ is the first in the document, here the taker's
    assert_eq!(parsed.emitente_documento, "9");
}

#[test]
fn nfe_reading_without_number_or_key_is_refused() {
    let err = parse_nfe_xml("<NFe><serie>1</serie></NFe>").unwrap_err();
    assert_eq!(err, "XML não contém dados mínimos de NFe (nNF/chNFe).");
    assert!(parse_nfe_xml("not xml").is_err());
}

#[test]
fn normaliza_documentos() {
    let parsed = ParsedNfe {
        chave: "NFe 35-11".into(),
        numero: " 12 ".into(),
        serie: " 001".into(),
        emissao: "2026-03-19".into(),
        emitente_documento: "12.345.678/0001-90".into(),
        destinatario_documento: "123.456.789-09".into(),
        valor_total: "10.0".into(),
    };
    let n = normalize_nfe(parsed);
    assert_eq!(n.chave, "3511");
    assert_eq!(n.emitente_documento, "12345678000190");
    assert_eq!(n.destinatario_documento, "12345678909");
    assert_eq!(n.numero, "12");
    assert_eq!(n.serie, "001");
}

#[test]
fn normalizing_twice_changes_nothing() {
    let parsed = ParsedNfe {
        chave: " 35 26/03 ".into(),
        numero: "\t7 ".into(),
        serie: "1".into(),
        emissao: " 2026-03-19".into(),
        emitente_documento: "1.2".into(),
        destinatario_documento: "".into(),
        valor_total: " 5 ".into(),
    };
    let once = normalize_nfe(parsed);
    let twice = normalize_nfe(once.clone());
    assert_eq!(once.chave, "352603");
    assert_eq!(twice.chave, once.chave);
    assert_eq!(twice.numero, once.numero);
    assert_eq!(twice.serie, once.serie);
    assert_eq!(twice.emissao, " 2026-03-19");
    assert_eq!(twice.emitente_documento, "12");
    assert_eq!(twice.destinatario_documento, "");
    assert_eq!(twice.valor_total, " 5 ");
}

#[test]
fn profile_bundles_drop_unnamed_profiles_and_keep_a_selection() {
    let mut a = ConversionProfile::default();
    a.profile_id = "a".into();
    let mut blank = ConversionProfile::default();
    blank.profile_id = "  ".into();
    let mut b = ConversionProfile::default();
    b.profile_id = "b".into();
    let r = canonicalize_bundle(ProfileBundle { selected_profile_id: "b".into(), profiles: vec![a.clone(), blank.clone(), b.clone()] });
    assert_eq!(r.profiles.iter().map(|p| p.profile_id.clone()).collect::<Vec<_>>(), vec!["a", "b"]);
    assert_eq!(r.selected_profile_id, "b");
    let r = canonicalize_bundle(ProfileBundle { selected_profile_id: "zz".into(), profiles: vec![a, b] });
    assert_eq!(r.selected_profile_id, "a");
    let r = canonicalize_bundle(ProfileBundle { selected_profile_id: "zz".into(), profiles: vec![blank] });
    assert_eq!(r.profiles.len(), 1);
    assert_eq!(r.profiles[0].profile_id, "padrao-ba-prestados");
    assert_eq!(r.selected_profile_id, "padrao-ba-prestados");
}

#[test]
fn canonical_bundles_stay_canonical() {
    let mut a = ConversionProfile::default();
    a.profile_id = "a".into();
    let mut blank = ConversionProfile::default();
    blank.profile_id = "".into();
    let once = canonicalize_bundle(ProfileBundle { selected_profile_id: "x".into(), profiles: vec![blank.clone(), a] });
    let twice = canonicalize_bundle(once.clone());
    assert_eq!(once.selected_profile_id, "a");
    assert_eq!(twice.selected_profile_id, once.selected_profile_id);
    assert_eq!(
        twice.profiles.iter().map(|p| p.profile_id.clone()).collect::<Vec<_>>(),
        once.profiles.iter().map(|p| p.profile_id.clone()).collect::<Vec<_>>()
    );
    let once = canonicalize_bundle(ProfileBundle { selected_profile_id: "".into(), profiles: vec![blank] });
    let twice = canonicalize_bundle(once.clone());
    assert_eq!(twice.profiles.len(), 1);
    assert_eq!(twice.profiles[0].profile_id, "padrao-ba-prestados");
    assert_eq!(twice.selected_profile_id, once.selected_profile_id);
}

#[test]
fn batches_collect_documents_warnings_and_errors() {
    let mut batch = NfseBatchResult::new();
    let reading = parse_abrasf_v2_with_id(ABRASF_XML, "a.xml", "id".into());
    batch.record_xml("a.xml", reading, true, None);
    batch.record_xml("b.xml", Err("quebrado".to_string()), false, None);
    batch.record_error("lote: outro".to_string());
    assert_eq!(batch.documents.len(), 1);
    assert_eq!(batch.documents[0].document.warnings, vec!["Base de cálculo zerada ou ausente no XML.".to_string()]);
    assert_eq!(batch.warnings, vec!["a.xml: Base de cálculo zerada ou ausente no XML.".to_string()]);
    assert_eq!(batch.errors, vec!["b.xml: quebrado".to_string(), "lote: outro".to_string()]);
}

#[test]
fn output_names_use_the_stem_of_the_source() {
    assert_eq!(build_output_file_name("dir/lote.zip#nota.xml", "abrasf_v2", "x"), "lote.zip_nota_abrasf_v2.xml");
    assert_eq!(build_output_file_name("a.xml", "same_layout", "ubaira_custom"), "a_same-ubaira_custom.xml");
    assert_eq!(build_output_file_name("", "abrasf_v1", "x"), "nfse_abrasf_v1.xml");
}
