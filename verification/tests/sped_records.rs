use integra_desktop::sped_blocks::{rebuild_block9, strip_block9};
use integra_desktop::sped::{parse_sped, upsert_c140_c141, SpedRecord};

fn record(registro: &str, campos: &[&str]) -> SpedRecord {
    SpedRecord {
        registro: registro.to_string(),
        campos: campos.iter().map(|c| c.to_string()).collect(),
    }
}

#[test]
fn substitui_registros_existentes() {
    let base = vec![record("C100", &["C100"]), record("C140", &["C140", "old"])];
    let payload = vec!["|C140|new|".to_string(), "|C141|x|".to_string()];
    let updated = upsert_c140_c141(&base, &payload);
    assert_eq!(updated.len(), 3);
    assert!(updated
        .iter()
        .any(|record| record.campos.contains(&"new".to_string())));
}

#[test]
fn parse_registros_sped() {
    let input = "|C100|0|1|\n|C140|001|";
    let records = parse_sped(input).expect("deve parsear");
    assert_eq!(records.len(), 2);
    assert_eq!(records[0].registro, "C100");
}

#[test]
fn upsert_keeps_order_and_drops_both_invoice_records() {
    let base = vec![
        record("0000", &["0000"]),
        record("C141", &["C141", "old"]),
        record("C100", &["C100", "1"]),
        record("C140", &["C140", "old"]),
        record("C170", &["C170"]),
    ];
    let payload = vec!["|C140| a |".to_string()];
    let updated = upsert_c140_c141(&base, &payload);
    let codes: Vec<&str> = updated.iter().map(|r| r.registro.as_str()).collect();
    assert_eq!(codes, vec!["0000", "C100", "C170", "C140"]);
    assert_eq!(updated[3].campos, vec!["C140".to_string(), "a".to_string()]);
}

#[test]
fn parse_sped_skips_lines_without_outer_bars_and_trims_fields() {
    let input = "cabecalho\r\n| 0000 | LECD |x|\n|C100||\nfim|";
    let records = parse_sped(input).unwrap();
    assert_eq!(records.len(), 2);
    assert_eq!(records[0].registro, "0000");
    assert_eq!(records[0].campos, vec!["0000", "LECD", "x"]);
    assert_eq!(records[1].campos, vec!["C100"]);
}

#[test]
fn parse_sped_of_empty_text_has_no_records() {
    assert_eq!(parse_sped("").unwrap().len(), 0);
}

#[test]
fn rebuilt_block9_counts_and_strips_back() {
    let lines: Vec<String> = ["|0000|x|", "|C100|1|", "|C100|2|", "|C190|a|"].iter().map(|s| s.to_string()).collect();
    let out = rebuild_block9(&lines);
    assert_eq!(
        out,
        vec![
            "|0000|x|", "|C100|1|", "|C100|2|", "|C190|a|", "|9001|0|", "|9900|0000|1|", "|9900|9001|1|",
            "|9900|9900|7|", "|9900|9990|1|", "|9900|9999|1|", "|9900|C100|2|", "|9900|C190|1|", "|9990|10|",
            "|9999|14|",
        ]
        .iter()
        .map(|s| s.to_string())
        .collect::<Vec<_>>()
    );
    assert_eq!(strip_block9(&out), lines);
}
