use integra_desktop::document::{ConversionProfile, NfseDocument, Party};
use integra_desktop::exporters::{export_documents_to_txt, CsvAmounts, export_documents_to_csv, escape_csv};
use integra_desktop::prestados::{map_document_to_ba_tomados_line, LineAmounts};

fn zero_amounts() -> LineAmounts {
    LineAmounts {
        valor_servicos: "0,00".into(),
        base_calculo: "0,00".into(),
        aliquota: "0,00".into(),
        aliquota_4: "0,0000".into(),
        valor_iss: "0,00".into(),
        valor_irrf: "0,00".into(),
        valor_inss: "0,00".into(),
        valor_pis: "0,00".into(),
        valor_cofins: "0,00".into(),
        rate_pis: "0,00".into(),
        rate_cofins: "0,00".into(),
        rate_inss: "0,00".into(),
        has_irrf: false,
        has_inss: false,
    }
}

fn sample_document() -> NfseDocument {
    NfseDocument {
        id: "doc-1".into(),
        file_name: "a.xml".into(),
        provider: "x".into(),
        provider_friendly: "x".into(),
        layout: "ba_prestados".into(),
        numero: "123".into(),
        serie: "UNICA".into(),
        emissao: "2026-03-25".into(),
        competencia: "2026-03".into(),
        chave: "chave".into(),
        municipio_codigo: "2927408".into(),
        municipio_nome: "SALVADOR".into(),
        item_lista_servico: "0101".into(),
        codigo_cnae: None,
        discriminacao: "Servico de teste com observacao longa para gerar linha estendida".into(),
        info_adic: String::new(),
        prestador: Party::empty(),
        tomador: Party::empty(),
        iss_retido: false,
        warnings: vec![],
    }
}

#[test]
fn exporta_linha_principal_com_1172_posicoes() {
    let mut profile = ConversionProfile::default();
    profile.output_layout = "ba_prestados".into();
    profile.obs_extended = "never".into();
    let output = export_documents_to_txt(&vec![sample_document()], &vec![zero_amounts()], &profile)
        .expect("ok");
    let first_line = output.lines().next().unwrap_or_default();
    assert_eq!(first_line.chars().count(), 1172);
}

#[test]
fn exporta_obs_imediatamente_abaixo_da_nf() {
    let mut profile = ConversionProfile::default();
    profile.output_layout = "ba_prestados".into();
    profile.obs_extended = "always".into();
    let output = export_documents_to_txt(&vec![sample_document()], &vec![zero_amounts()], &profile)
        .expect("ok");
    let lines = output.lines().collect::<Vec<_>>();
    assert_eq!(lines.len(), 2);
    assert!(lines[1].starts_with("*OBS"));
}

#[test]
fn define_tipo_registro_tomados() {
    let profile = ConversionProfile::default();
    let mut document = sample_document();
    document.id = "1".into();
    document.layout = "ba_tomados".into();
    document.numero = "1".into();
    document.serie = "1".into();
    document.emissao = "2026-03-19".into();
    document.competencia = "2026-03".into();
    document.chave = "x".into();
    document.municipio_codigo = "123".into();
    document.municipio_nome = "Cidade".into();
    document.discriminacao = "abc".into();
    let line = map_document_to_ba_tomados_line(&document, &profile, &zero_amounts()).expect("ok");
    assert!(line.starts_with('2'));
}

#[test]
fn ba_prestados_orders_by_issue_date_then_number() {
    let mut profile = ConversionProfile::default();
    profile.output_layout = "ba_prestados".into();
    profile.obs_extended = "never".into();
    let mut late = sample_document();
    late.id = "a".into();
    late.numero = "5".into();
    late.emissao = "2026-04-01".into();
    let mut early_big = sample_document();
    early_big.id = "b".into();
    early_big.numero = "20".into();
    early_big.emissao = "01/03/2026".into();
    let mut early_small = sample_document();
    early_small.id = "c".into();
    early_small.numero = "3".into();
    early_small.emissao = "2026-03-01".into();
    let docs = vec![late, early_big, early_small];
    let amounts = vec![zero_amounts(), zero_amounts(), zero_amounts()];
    let output = export_documents_to_txt(&docs, &amounts, &profile).expect("ok");
    let lines: Vec<&str> = output.split("\r\n").collect();
    assert_eq!(lines.len(), 3);
    for line in &lines {
        assert_eq!(line.chars().count(), 1172);
        assert!(line.starts_with('1'));
    }
    let again = export_documents_to_txt(
        &vec![docs[2].clone(), docs[1].clone(), docs[0].clone()],
        &amounts,
        &profile,
    )
    .expect("ok");
    assert_eq!(output, again);
}

#[test]
fn tomados_layout_writes_record_type_two() {
    let mut profile = ConversionProfile::default();
    profile.output_layout = "ba_tomados".into();
    profile.obs_extended = "always".into();
    let output = export_documents_to_txt(&vec![sample_document()], &vec![zero_amounts()], &profile)
        .expect("ok");
    let lines: Vec<&str> = output.split("\r\n").collect();
    assert_eq!(lines.len(), 2);
    assert!(lines[0].starts_with('2'));
    assert!(lines[1].starts_with("*OBS"));
}

#[test]
fn faturas_layout_is_refused_for_documents() {
    let mut profile = ConversionProfile::default();
    profile.output_layout = "prosoft_faturas".into();
    assert!(export_documents_to_txt(&vec![sample_document()], &vec![zero_amounts()], &profile).is_err());
    assert_eq!(export_documents_to_txt(&vec![], &vec![], &profile), Ok(String::new()));
}

#[test]
fn csv_quotes_cells_with_separators() {
    assert_eq!(escape_csv("a;b".to_string()), "\"a;b\"");
    assert_eq!(escape_csv("diz \"oi\"".to_string()), "\"diz \"\"oi\"\"\"");
    assert_eq!(escape_csv("simples".to_string()), "simples");
}

#[test]
fn csv_has_header_and_one_row_per_document() {
    let profile = ConversionProfile::default();
    let amounts = CsvAmounts {
        valor_servicos: "10".into(),
        base_calculo: "10".into(),
        valor_iss: "0.5".into(),
        aliquota_iss: "5".into(),
        valor_irrf: "0".into(),
        valor_pis: "0".into(),
        valor_cofins: "0".into(),
        valor_csll: "0".into(),
        valor_inss: "0".into(),
        valor_liquido: "9.5".into(),
    };
    let text = export_documents_to_csv(&vec![sample_document()], &vec![amounts], &profile).unwrap();
    let rows: Vec<&str> = text.split("\r\n").collect();
    assert_eq!(rows.len(), 2);
    assert!(rows[0].starts_with("provider;numero;serie;emissao"));
    assert!(rows[1].starts_with("x;123;UNICA;2026-03-25;2026-03;SALVADOR;2927408;"));
    assert!(rows[1].ends_with(";chave;Servico de teste com observacao longa para gerar linha estendida"));
}
