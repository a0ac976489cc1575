use integra_desktop::faturas_export::file_stem;
use integra_desktop::faturas::{NamedText, NfeFaturasCounts, NfeFaturasLogItem, NfeFaturasRow, NfeFaturasSettings, NfeMeta, NfeMetaDup};
use integra_desktop::faturas_c140::{
    add_days_to_dig_date, br_date_to_time, build_c140_c141_lines, build_parcelas_for_c100, normalize_parcelas,
    parse_dias_por_parcela, parse_parcelas_por_fornecedor, split_total_into_parcelas, ParcelaData, SpedExportOptions,
};
use integra_desktop::faturas_process::{decode_text, import_nfe_faturas_legacy, process_selection_entries, VirtualEntry};
use integra_desktop::faturas_sped::{guess_cnpj_filial, parse_sped_0150, parse_sped_c100};
use integra_desktop::faturas_text::{
    classify_kind_from_name, count_input_files, csv_escape, ddmmyyyy_to_digits, digits_to_br_date, is_valid_dig_date,
    log_push, looks_like_sped, looks_like_xml, pad_serie_with_zeros, push_bounded,
};
use integra_desktop::faturas_txt::{
    apply_consolidacao_por_terceiro, build_txt_line, compute_export_lines, format_str_size, nfe_faturas_csv_content,
    nfe_faturas_txt_content, parse_cnpj_set,
};
use integra_desktop::legacy_import::{is_legacy_header_line, parse_legacy_date, parse_legacy_pipe_file};
use integra_desktop::money::{format_money2, parse_money, to_money2, Money};
use integra_desktop::nfe_invoice::parse_nfe_meta_and_rows;

const INVOICE_XML: &str = "<nfeProc><NFe><infNFe Id=\"NFe35260312345678000190550010000001231000001234\">\
<ide><serie>1</serie><nNF>123</nNF><dhEmi>2026-03-05T10:00:00-03:00</dhEmi></ide>\
<emit><CNPJ>12345678000190</CNPJ><enderEmit><UF>sp</UF></enderEmit><IE>123.456.789.110</IE></emit>\
<dest><CNPJ>99888777000166</CNPJ><enderDest><UF>BA</UF></enderDest></dest>\
<total><ICMSTot><vNF>1000.00</vNF></ICMSTot></total>\
<cobr><fat><nFat>123</nFat><vOrig>1000.00</vOrig><vLiq>1000.00</vLiq></fat>\
<dup><nDup>001</nDup><dVenc>2026-04-05</dVenc><vDup>600.00</vDup></dup>\
<dup><dVenc>2026-05-05</dVenc><vDup>400.00</vDup></dup></cobr></infNFe></NFe></nfeProc>";

const CHAVE: &str = "35260312345678000190550010000001231000001234";

const LEGACY_TEXT: &str = "\u{feff}CNPJ|UF|IE|SERIE|X|NF|DT ESCRIT|PARCELA|DT VENC|VL NF|VL FAT\n\
12.345.678/0001-90|ba|12.345-6|1|x|100|05/03/2026|1|05/04/2026|1.000,00|500,00\n\
12345678000190|BA|123456|1|x|100|05/03/2026||05/05/2026|1000,00|500,00\n\
123|BA|1|1|x|1|05/03/2026|1|05/04/2026|1|1\n\
\n\
11222333000144|BA||2|x|7|31/02/2026|1|05/04/2026|1|1\n\
short|line\n";

fn row(chave: &str, cnpj_cpf: &str, valor: &str, venc: &str, sped: bool, desdob: u8) -> NfeFaturasRow {
    NfeFaturasRow {
        chave: chave.into(),
        desdob,
        cnpj_filial: "99888777000166".into(),
        cnpj_cpf: cnpj_cpf.into(),
        uf: "ba".into(),
        ie: "123.456".into(),
        nf_serie: "1".into(),
        nf_numero: "123".into(),
        data_emissao: "05/03/2026".into(),
        data_entrada: String::new(),
        num_fatura: "001".into(),
        data_vencimento: venc.into(),
        valor_bruto_fat: valor.into(),
        source: "n.xml".into(),
        sped_matched: sped,
        legado: false,
        consolidated: false,
    }
}

fn sample_meta() -> NfeMeta {
    NfeMeta {
        chave: CHAVE.into(),
        n_fat: "123".into(),
        v_orig: "1000.00".into(),
        v_liq: "1000.00".into(),
        v_nf: "1000.00".into(),
        dup_list: vec![
            NfeMetaDup { n_dup: "001".into(), d_venc: "2026-04-05".into(), v_dup: "600.00".into() },
            NfeMetaDup { n_dup: "123/1".into(), d_venc: "2026-05-05".into(), v_dup: "400.00".into() },
        ],
        nf_numero: "123".into(),
        serie: "1".into(),
        cnpj_terceiro: "12345678000190".into(),
        dt_emi: "05032026".into(),
        source: "n.xml".into(),
    }
}

#[test]
fn money_texts_read_both_decimal_marks() {
    assert_eq!(to_money2("1.234,56"), "1234.56");
    assert_eq!(to_money2("R$ 10,5"), "10.50");
    assert_eq!(to_money2("1.234.567"), "1234.57");
    assert_eq!(to_money2("-3,1"), "-3.10");
    assert_eq!(to_money2(""), "0.00");
    assert_eq!(to_money2("abc"), "0.00");
    assert!(parse_money("  ").is_none());
    assert!(parse_money("12").is_some());
}

#[test]
fn dates_between_the_written_forms() {
    assert_eq!(ddmmyyyy_to_digits("2026-03-19T10:00:00"), "19032026");
    assert_eq!(ddmmyyyy_to_digits(" 19/03/2026 "), "19032026");
    assert_eq!(ddmmyyyy_to_digits("1903202612"), "19032026");
    assert_eq!(ddmmyyyy_to_digits(""), "");
    assert_eq!(digits_to_br_date("19032026"), "19/03/2026");
    assert_eq!(digits_to_br_date("123"), "");
    assert!(is_valid_dig_date("01/02/2024"));
    assert!(!is_valid_dig_date("1/2/24"));
    assert_eq!(br_date_to_time("01/01/1970"), Some(0));
    assert_eq!(br_date_to_time("02/01/1970"), Some(86_400));
    assert_eq!(br_date_to_time("31/02/2024"), None);
    assert_eq!(add_days_to_dig_date("31012024", 30), "01032024");
    assert_eq!(add_days_to_dig_date("01032024", -1), "29022024");
    assert_eq!(add_days_to_dig_date("x", 1), "");
    assert_eq!(parse_legacy_date("1/2/24"), Some(("01/02/2024".to_string(), "01022024".to_string())));
    assert_eq!(parse_legacy_date("31-02-2024"), None);
    assert_eq!(parse_legacy_date("1.2"), None);
}

#[test]
fn kinds_and_contents_are_recognised() {
    assert_eq!(classify_kind_from_name("A.XML"), "xml");
    assert_eq!(classify_kind_from_name("b.TxT"), "sped");
    assert_eq!(classify_kind_from_name("c.sped"), "sped");
    assert_eq!(classify_kind_from_name("d.zip"), "zip");
    assert_eq!(classify_kind_from_name("e.csv"), "csv");
    assert_eq!(classify_kind_from_name("f.pdf"), "unknown");
    assert!(looks_like_xml("<?xml?><NFeProc>"));
    assert!(!looks_like_xml("<CompNfse>"));
    assert!(looks_like_sped("|0000|017|"));
    assert!(!looks_like_sped("C100"));
    let counts = count_input_files(&vec!["a.xml".into(), "b.XML".into(), "c.txt".into(), "d.zip".into(), "e.pdf".into()]);
    assert_eq!(counts, NfeFaturasCounts { xml: 2, sped: 1, zip: 1 });
}

#[test]
fn bytes_decode_as_utf8_else_latin1() {
    assert_eq!(decode_text(&"olá".as_bytes().to_vec()), "olá");
    assert_eq!(decode_text(&vec![0x61, 0xE9]), "aé");
}

#[test]
fn cells_and_fields() {
    assert_eq!(csv_escape("a;b"), "\"a;b\"");
    assert_eq!(csv_escape("x\"y"), "\"x\"\"y\"");
    assert_eq!(csv_escape("plain"), "plain");
    assert_eq!(format_str_size("abc", '0', 5, false), "00abc");
    assert_eq!(format_str_size("abcdef", ' ', 3, true), "abc");
    assert_eq!(format_str_size("abcdef", ' ', 3, false), "def");
    let mut settings = NfeFaturasSettings::default();
    settings.serie_digits = "3".into();
    assert_eq!(pad_serie_with_zeros("1", &settings), "001");
    assert_eq!(pad_serie_with_zeros("A12", &settings), "012");
    settings.serie_digits = "x".into();
    assert_eq!(pad_serie_with_zeros("12", &settings), "12");
}

#[test]
fn bounded_lists_keep_their_limits() {
    let mut list = Vec::new();
    for i in 0..35 {
        push_bounded(&mut list, i.to_string());
    }
    assert_eq!(list.len(), 30);
    assert_eq!(list[29], "29");
    let mut logs: Vec<NfeFaturasLogItem> = Vec::new();
    for i in 0..501 {
        log_push(&mut logs, "t", "info", &i.to_string(), None);
    }
    assert_eq!(logs.len(), 500);
    assert_eq!(logs[0].msg, "500");
    assert_eq!(logs[499].msg, "1");
}

#[test]
fn supplier_rules_and_day_lists() {
    let rules = parse_parcelas_por_fornecedor("12.345.678/0001-90=3\n123=2\n111.222.333-44 = 2x\nsem\n12345678000190=4");
    assert!(rules.iter().any(|(c, q)| c == "11122233344" && *q == 2));
    assert!(rules.iter().any(|(c, q)| c == "12345678000190" && *q == 4));
    assert!(!rules.iter().any(|(c, _)| c == "123"));
    assert_eq!(parse_dias_por_parcela("30, 60;90 x -5"), vec![30, 60, 90]);
}

#[test]
fn totals_split_into_cents() {
    assert_eq!(split_total_into_parcelas(1000, 3), vec![333, 333, 334]);
    assert_eq!(split_total_into_parcelas(-1000, 3), vec![-333, -333, -334]);
    assert_eq!(split_total_into_parcelas(5, 0), vec![5]);
}

#[test]
fn parcels_group_or_reduce() {
    let p = |d: &str, v: i128| ParcelaData { n_dup: format!("n{}", v), venc: d.into(), valor: v };
    let grouped = normalize_parcelas(vec![p("05042026", 100), p("01042026", 50), p("05042026", 25)], "agrupar_por_data");
    assert_eq!(grouped.len(), 2);
    assert_eq!(grouped[0].venc, "01042026");
    assert_eq!(grouped[0].valor, 50);
    assert_eq!(grouped[1].valor, 125);
    assert_eq!(grouped[1].n_dup, "");
    let reduced = normalize_parcelas(vec![p("", 10), p("05042026", 20)], "reduzir_para_1_parcela");
    assert_eq!(reduced.len(), 1);
    assert_eq!(reduced[0].venc, "05042026");
    assert_eq!(reduced[0].n_dup, "n20");
    assert_eq!(reduced[0].valor, 30);
}

#[test]
fn c140_lines_follow_the_invoice() {
    let meta = sample_meta();
    let settings = NfeFaturasSettings::default();
    let opts = SpedExportOptions::from_settings(&settings);
    let parcelas = build_parcelas_for_c100(&meta, &opts, "05032026", "06032026");
    assert_eq!(parcelas.len(), 2);
    let lines = build_c140_c141_lines(&meta, &parcelas, "05032026");
    assert_eq!(
        lines,
        vec![
            "|C140|1|00||001|2|1000,00||".to_string(),
            "|C141|01|05042026|600,00||".to_string(),
            "|C141|02|05052026|400,00||".to_string(),
        ]
    );
    let late = build_c140_c141_lines(&meta, &parcelas, "10042026");
    assert_eq!(late[1], "|C141|01|10042026|600,00||");
}

#[test]
fn forced_parcels_are_spaced_by_the_interval() {
    let meta = sample_meta();
    let mut settings = NfeFaturasSettings::default();
    settings.sel_modo_parcelas = "forcar_geral".into();
    settings.num_qtd_parcelas_geral = 3;
    let opts = SpedExportOptions::from_settings(&settings);
    let parcelas = build_parcelas_for_c100(&meta, &opts, "05032026", "06032026");
    let lines = build_c140_c141_lines(&meta, &parcelas, "05032026");
    assert_eq!(
        lines,
        vec![
            "|C140|1|00||123|3|1000,00||".to_string(),
            "|C141|01|05042026|333,33||".to_string(),
            "|C141|02|05052026|333,33||".to_string(),
            "|C141|03|04062026|333,34||".to_string(),
        ]
    );
}

#[test]
fn invoice_xml_gives_meta_and_rows() {
    let settings = NfeFaturasSettings::default();
    let (meta, rows) = parse_nfe_meta_and_rows(INVOICE_XML, "n.xml", &settings).expect("reads");
    assert_eq!(meta.chave, CHAVE);
    assert_eq!(meta.n_fat, "123");
    assert_eq!(meta.dup_list.len(), 2);
    assert_eq!(meta.dup_list[1].n_dup, "123/1");
    assert_eq!(meta.dt_emi, "05032026");
    assert_eq!(meta.cnpj_terceiro, "12345678000190");
    assert_eq!(rows.len(), 2);
    assert_eq!(rows[0].cnpj_filial, "99888777000166");
    assert_eq!(rows[0].cnpj_cpf, "12345678000190");
    assert_eq!(rows[0].uf, "SP");
    assert_eq!(rows[0].ie, "123456789110");
    assert_eq!(rows[0].data_emissao, "05/03/2026");
    assert_eq!(rows[0].data_entrada, "05/03/2026");
    assert_eq!(rows[0].num_fatura, "001");
    assert_eq!(rows[0].data_vencimento, "05/04/2026");
    assert_eq!(rows[0].valor_bruto_fat, "600.00");
    assert_eq!(rows[1].num_fatura, "123/1");
    assert_eq!(rows[1].valor_bruto_fat, "400.00");
    assert!(parse_nfe_meta_and_rows("<root/>", "x.xml", &settings).is_err());
}

#[test]
fn sped_records_index_keys_and_partners() {
    let sped = format!(
        "|0000|017|0|01032026|31032026|99888777000166|Filial|\n|0150|P1|Fornecedor|1058|12345678000190||IE-9|\n|0150|P1|Fornecedor|1058|12345678000190||ie-10|\n|C100|0|1|P1|55|00|1|123|{}|05032026|06032026|1.000,00|1|\n|C100|0|1|P1|55|00|1|123|{}|05032026|07032026|1.000,00|0|\n",
        CHAVE, CHAVE
    );
    let c100 = parse_sped_c100(&sped);
    assert_eq!(c100.len(), 1);
    assert_eq!(c100[0].0, CHAVE);
    assert_eq!(c100[0].1.dt_escr, "06032026");
    assert_eq!(c100[0].1.desdob, 1);
    let p0150 = parse_sped_0150(&sped);
    assert_eq!(p0150, vec![("12345678000190".to_string(), "IE10".to_string())]);
    let files = vec![NamedText { name: "s.txt".into(), text: sped.clone() }];
    assert_eq!(guess_cnpj_filial(&vec![], &files), Some("99888777000166".to_string()));
}

#[test]
fn selection_reads_xml_and_matches_sped() {
    let sped = format!("|C100|0|1|P1|55|00|1|123|{}|05032026|06032026|1.000,00|1|\n", CHAVE);
    let entries = vec![
        VirtualEntry { name: "n.xml".into(), kind: "xml".into(), text: INVOICE_XML.into() },
        VirtualEntry { name: "s.txt".into(), kind: "sped".into(), text: sped },
        VirtualEntry { name: "x.pdf".into(), kind: "unknown".into(), text: String::new() },
    ];
    let counts = NfeFaturasCounts { xml: 1, sped: 1, zip: 0 };
    let settings = NfeFaturasSettings::default();
    let result = process_selection_entries(entries, counts, &settings, Vec::new(), "2026-03-20T10:00:00");
    assert_eq!(result.counts, counts);
    assert_eq!(result.sped_files.len(), 1);
    assert_eq!(result.nfe_metas.len(), 1);
    assert_eq!(result.rows.len(), 2);
    assert!(result.rows[0].sped_matched);
    assert_eq!(result.rows[0].data_entrada, "06/03/2026");
    assert_eq!(result.rows[0].desdob, 1);
    assert!(!result.logs.is_empty());
    assert!(result.logs.iter().all(|l| l.ts == "2026-03-20T10:00:00"));
}

#[test]
fn legacy_file_groups_lines_and_reports_problems() {
    let mut logs = Vec::new();
    let stats = parse_legacy_pipe_file(LEGACY_TEXT, "leg.txt", false, None, &vec![], &vec![], &mut logs, "now")
        .expect("always read");
    assert_eq!(stats.notes, 1);
    assert_eq!(stats.parcelas, 2);
    assert_eq!(stats.rows.len(), 2);
    let r0 = &stats.rows[0];
    assert_eq!(r0.cnpj_cpf, "12345678000190");
    assert_eq!(r0.uf, "BA");
    assert_eq!(r0.ie, "123456");
    assert_eq!(r0.nf_numero, "100");
    assert_eq!(r0.data_emissao, "05/03/2026");
    assert_eq!(r0.num_fatura, "1");
    assert_eq!(r0.data_vencimento, "05/04/2026");
    assert_eq!(r0.valor_bruto_fat, "500.00");
    assert_eq!(r0.source, "LEGADO:leg.txt");
    assert_eq!(r0.cnpj_filial, "");
    assert!(r0.legado);
    assert_eq!(stats.rows[1].num_fatura, "100/1");
    assert_eq!(stats.invalid_count, 3);
    assert_eq!(
        stats.invalid_lines,
        vec![
            "Linha 4: CNPJ inválido.".to_string(),
            "Linha 6: DT Escrit inválida.".to_string(),
            "Linha 7: colunas insuficientes.".to_string(),
        ]
    );
    assert_eq!(stats.warning_count, 2);
    assert_eq!(
        stats.warnings,
        vec![
            "Linha 3: Parcela vazia (fallback aplicado).".to_string(),
            "CNPJ da filial não definido (coluna CNPJFILIAL ficará vazia).".to_string(),
        ]
    );
    assert_eq!(stats.divergence_count, 0);
    assert_eq!(logs.len(), 1);
    assert_eq!(logs[0].msg, "LEGADO importado");
    assert_eq!(logs[0].meta.as_deref(), Some("leg.txt | notas 1 | parcelas 2"));
}

#[test]
fn legacy_cross_check_without_data_asks_for_it() {
    let mut logs = Vec::new();
    let stats = parse_legacy_pipe_file(LEGACY_TEXT, "leg.txt", true, Some("12.345.678/0001-90"), &vec![], &vec![], &mut logs, "now")
        .expect("always read");
    assert_eq!(stats.rows[0].cnpj_filial, "12345678000190");
    assert_eq!(stats.warning_count, 1);
    assert_eq!(stats.divergence_count, 1);
    assert_eq!(stats.divergences, vec!["XML/SPED não processados. Carregue e processe antes para conferir.".to_string()]);
}

#[test]
fn legacy_cross_check_compares_xml_and_sped() {
    let mut meta = sample_meta();
    meta.nf_numero = "100".into();
    meta.dup_list[1].v_dup = "300.00".into();
    let sped = "|0150|P1|Fornecedor|1058|12345678000190||123|\n|C100|0|1|P1|55|00|1|100|x|05032026|06032026|1.000,00|\n";
    let files = vec![NamedText { name: "s.txt".into(), text: sped.into() }];
    let mut logs = Vec::new();
    let stats = parse_legacy_pipe_file(LEGACY_TEXT, "leg.txt", true, None, &files, &vec![meta], &mut logs, "now")
        .expect("always read");
    assert_eq!(stats.divergence_count, 2);
    assert_eq!(
        stats.divergences,
        vec![
            "XML: total divergente para NF 100/1 (legado 1000.00 x XML 900.00).".to_string(),
            "SPED: DT_E_S divergente na NF 100/1 (legado 05/03/2026 x SPED 06/03/2026).".to_string(),
        ]
    );
}

#[test]
fn legacy_import_decodes_and_settles_the_branch() {
    let rows = vec![row(CHAVE, "1", "1", "", false, 0)];
    let r = import_nfe_faturas_legacy(&LEGACY_TEXT.as_bytes().to_vec(), Some("leg.txt"), None, false, &rows, &vec![], &vec![], "now");
    assert_eq!(r.rows.len(), 2);
    assert_eq!(r.rows[0].cnpj_filial, "99888777000166");
    assert_eq!(r.preview.notas, 1);
    assert_eq!(r.preview.parcelas, 2);
    assert_eq!(r.preview.invalid_count, 3);
    assert_eq!(r.preview.warning_count, 1);
    assert_eq!(r.logs.len(), 1);
    let unnamed = import_nfe_faturas_legacy(&Vec::new(), None, Some("x"), false, &vec![], &vec![], &vec![], "now");
    assert!(unnamed.rows.is_empty());
    assert!(unnamed.logs.is_empty());
}

#[test]
fn header_lines_are_recognised() {
    let f = |v: &[&str]| v.iter().map(|s| s.to_string()).collect::<Vec<_>>();
    assert!(is_legacy_header_line(&f(&["cnpj", "uf"]), 0));
    assert!(is_legacy_header_line(&f(&["Emitente", "1"]), 5));
    assert!(is_legacy_header_line(&f(&["abc", "1"]), 2));
    assert!(!is_legacy_header_line(&f(&["abc", "12345678901"]), 2));
    assert!(!is_legacy_header_line(&f(&["abc", "1"]), 3));
}

#[test]
fn txt_line_has_the_fixed_layout() {
    let settings = NfeFaturasSettings::default();
    let r = row(CHAVE, "12.345.678/0001-90", "600,5", "05/04/2026", true, 0);
    let line = build_txt_line(&r, "000", &settings);
    assert_eq!(line.chars().count(), 391);
    assert_eq!(
        &line[..120],
        "0112345678000190BA              123456     1      000000012300005032026             123/00104042026        600.50       "
    );
}

#[test]
fn export_lines_and_files() {
    let mut settings = NfeFaturasSettings::default();
    let rows = vec![row(CHAVE, "1", "10", "", true, 1), row("2", "2", "5", "", false, 0)];
    let items = compute_export_lines(&rows, &settings);
    assert_eq!(items.iter().map(|i| i.item3.clone()).collect::<Vec<_>>(), vec!["000", "001", "000"]);
    let txt = nfe_faturas_txt_content(&rows, &settings).expect("one sped row");
    assert_eq!(txt.records, 1);
    assert_eq!(txt.lines, 2);
    assert!(txt.content.ends_with("\r\n"));
    let csv = nfe_faturas_csv_content(&rows, &settings).expect("one sped row");
    assert!(csv.content.starts_with("ITEM;CHAVE;DESDOB;"));
    assert!(csv.content.contains(";MATCH\r\n"));
    settings.chk_forcar_duas_linhas = true;
    assert_eq!(compute_export_lines(&rows, &settings).len(), 4);
    let none = vec![row("3", "3", "1", "", false, 0)];
    let err = nfe_faturas_txt_content(&none, &NfeFaturasSettings::default()).err();
    assert_eq!(err.as_deref(), Some("Nada para exportar (verifique SPED / filtros)."));
}

#[test]
fn consolidation_sums_rows_of_listed_partners() {
    let mut settings = NfeFaturasSettings::default();
    settings.chk_consolidar_cnpj = true;
    settings.txt_cnpjs_consolidar = "12.345.678/0001-90; 123".into();
    assert_eq!(parse_cnpj_set(&settings.txt_cnpjs_consolidar), vec!["12345678000190".to_string()]);
    let rows = vec![
        row(CHAVE, "12345678000190", "10,50", "10/04/2026", true, 1),
        row(CHAVE, "12345678000190", "5", "05/04/2026", true, 0),
        row(CHAVE, "99", "7", "", true, 0),
    ];
    let out = apply_consolidacao_por_terceiro(&rows, &settings);
    assert_eq!(out.len(), 2);
    assert_eq!(out[0].valor_bruto_fat, "15.50");
    assert_eq!(out[0].data_vencimento, "05/04/2026");
    assert_eq!(out[0].desdob, 0);
    assert!(out[0].consolidated);
    assert_eq!(out[1].cnpj_cpf, "99");
}

#[test]
fn written_amounts_read_back() {
    for (negative, cents) in [(false, 0u64), (true, 5), (false, 123_456), (true, 100), (false, u64::MAX)] {
        let m = Money { negative, cents };
        let text = format_money2(m);
        assert_eq!(parse_money(&text), Some(m));
    }
    assert_eq!(format_money2(Money { negative: true, cents: 5 }), "-0.05");
}

#[test]
fn legacy_notes_come_out_in_key_order() {
    let text = "22222222000191|SP|1|1|x|9|01/01/2026|1|01/02/2026|10,00|10,00\n\
11111111000191|SP|1|1|x|5|01/01/2026|1|01/02/2026|20,00|20,00\n\
22222222000191|SP|1|1|x|9|01/01/2026|2|01/03/2026|10,00|5,00\n";
    let mut logs = Vec::new();
    let stats = parse_legacy_pipe_file(text, "o.txt", false, Some("99888777000166"), &vec![], &vec![], &mut logs, "now")
        .expect("always read");
    assert_eq!(stats.notes, 2);
    assert_eq!(stats.rows.len(), 3);
    assert_eq!(stats.rows[0].cnpj_cpf, "11111111000191");
    assert_eq!(stats.rows[1].cnpj_cpf, "22222222000191");
    assert_eq!(stats.rows[1].num_fatura, "1");
    assert_eq!(stats.rows[2].num_fatura, "2");
}

#[test]
fn file_stems_of_plain_names() {
    assert_eq!(file_stem("sped.txt"), "sped");
    assert_eq!(file_stem("a.b.txt"), "a.b");
    assert_eq!(file_stem(".env"), ".env");
    assert_eq!(file_stem("semext"), "semext");
    assert_eq!(file_stem("fim."), "fim");
    assert_eq!(file_stem(""), "arquivo");
}

#[test]
fn dates_become_unix_days() {
    assert_eq!(br_date_to_time("01/01/1970"), Some(0));
    assert_eq!(br_date_to_time("02011970"), Some(86_400));
    assert_eq!(br_date_to_time("01/03/2024"), Some(1_709_251_200));
    assert_eq!(br_date_to_time("31/12/1969"), Some(-86_400));
    assert_eq!(br_date_to_time("30/02/2024"), None);
}

#[test]
fn dates_move_across_centuries_and_limits() {
    assert_eq!(add_days_to_dig_date("01011970", 36_525), "01012070");
    assert_eq!(add_days_to_dig_date("01011970", -719_162), "01010001");
    assert_eq!(add_days_to_dig_date("01010000", -1), "3112-0001");
    assert_eq!(add_days_to_dig_date("28022100", 1), "01032100");
    assert_eq!(add_days_to_dig_date("01011970", i64::MAX), "");
    assert_eq!(add_days_to_dig_date("01011970", 100_000_000), "");
}

#[test]
fn date_forms_round_trip() {
    for d in ["05032024", "31122099", "00000000", "29021900"] {
        assert_eq!(ddmmyyyy_to_digits(&digits_to_br_date(d)), d);
        let s = digits_to_br_date(d);
        assert_eq!(digits_to_br_date(&ddmmyyyy_to_digits(&s)), s);
    }
    assert_eq!(ddmmyyyy_to_digits("2024-03-05T10:00:00-03:00"), "05032024");
}
