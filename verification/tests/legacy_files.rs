use integra_desktop::files::{list_xml_candidates, select_by_extension};
use integra_desktop::legacy_pipe::parse_legacy_pipe;

#[test]
fn parse_linhas_pipe() {
    let rows = parse_legacy_pipe("A|B|C\n1|2|3");
    assert_eq!(rows.len(), 2);
    assert_eq!(rows[0].fields[1], "B");
}

#[test]
fn parse_legacy_pipe_skips_blank_lines_and_trims() {
    let rows = parse_legacy_pipe("  \n x | y |\r\n\n|");
    assert_eq!(rows.len(), 2);
    assert_eq!(rows[0].fields, vec!["x", "y", ""]);
    assert_eq!(rows[1].fields, vec!["", ""]);
}

#[test]
fn filtra_xml_e_zip() {
    let files = vec![
        "a.xml".to_string(),
        "b.zip".to_string(),
        "c.txt".to_string(),
    ];
    let selected = list_xml_candidates(&files);
    assert_eq!(selected.len(), 2);
}

#[test]
fn candidates_are_kept_by_extension_in_any_case() {
    let files: Vec<String> = ["A.XML", "dir/b.Zip", "c.xml.bak", "noext", ".xml", "d.zip"]
        .iter()
        .map(|s| s.to_string())
        .collect();
    assert_eq!(list_xml_candidates(&files), vec!["A.XML".to_string(), "dir/b.Zip".to_string(), "d.zip".to_string()]);
}

#[test]
fn extension_match_ignores_case_and_keeps_order() {
    let files = vec![
        "dir/NOTA.XML".to_string(),
        "x.Zip".to_string(),
        ".xml".to_string(),
        "y.xmlx".to_string(),
    ];
    let selected = list_xml_candidates(&files);
    assert_eq!(selected, vec!["dir/NOTA.XML".to_string(), "x.Zip".to_string()]);
}

#[test]
fn selection_by_given_extensions() {
    let files = vec!["a".to_string(), "b".to_string(), "c".to_string()];
    let exts = vec![Some("XmL".to_string()), None, Some("zip".to_string())];
    assert_eq!(select_by_extension(&files, &exts), vec!["a".to_string(), "c".to_string()]);
}
