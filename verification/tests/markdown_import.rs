use harness_infra::markdown::{
    backlog_import_row, backlog_items, decision_file_order, decision_import, empty_to_none, evidence_from_fields,
    field_at, is_decision_file_name, markdown_section_first_value, markdown_table_fields, matrix_stories,
    normalize_backlog_status, normalize_decision_status, normalize_story_status, proof_from_cell, MatrixColumns,
};
use harness_infra::text::normalize_token;

fn strings(v: &[&str]) -> Vec<String> {
    v.iter().map(|s| s.to_string()).collect()
}

#[test]
fn table_rows_split_into_trimmed_cells() {
    assert_eq!(markdown_table_fields("| US-1 | Title |  pass |"), strings(&["US-1", "Title", "pass"]));
    assert_eq!(markdown_table_fields("  a|b  "), strings(&["a", "b"]));
    assert_eq!(markdown_table_fields("|"), strings(&[""]));
    assert_eq!(markdown_table_fields("||"), strings(&[""]));
}

#[test]
fn cells_are_read_only_when_not_blank() {
    let fields = strings(&["a", "  ", " b "]);
    assert_eq!(field_at(&fields, Some(0)), Some("a".to_owned()));
    assert_eq!(field_at(&fields, Some(1)), None);
    assert_eq!(field_at(&fields, Some(2)), Some("b".to_owned()));
    assert_eq!(field_at(&fields, Some(3)), None);
    assert_eq!(field_at(&fields, None), None);
}

#[test]
fn evidence_joins_the_remaining_cells() {
    let fields = strings(&["US-1", "see", "log"]);
    assert_eq!(evidence_from_fields(&fields, 1), Some("see | log".to_owned()));
    assert_eq!(evidence_from_fields(&fields, 3), None);
    assert_eq!(evidence_from_fields(&fields, 4), None);
    assert_eq!(evidence_from_fields(&strings(&["x", ""]), 1), None);
}

#[test]
fn proof_cells_become_flags() {
    assert_eq!(proof_from_cell(""), 0);
    assert_eq!(proof_from_cell("N/A"), 0);
    assert_eq!(proof_from_cell("Pending review"), 0);
    assert_eq!(proof_from_cell("no tests yet"), 0);
    assert_eq!(proof_from_cell("still blocked"), 0);
    assert_eq!(proof_from_cell("Not attempted"), 0);
    assert_eq!(proof_from_cell("yes"), 1);
    assert_eq!(proof_from_cell("tests/foo.rs"), 1);
}

#[test]
fn statuses_default_to_their_lane() {
    assert_eq!(normalize_story_status("In Progress"), "in_progress");
    assert_eq!(normalize_story_status("done"), "planned");
    assert_eq!(normalize_decision_status("Superseded by 0002"), "superseded");
    assert_eq!(normalize_decision_status("draft"), "accepted");
    assert_eq!(normalize_decision_status("Rejected"), "rejected");
    assert_eq!(normalize_backlog_status("IMPLEMENTED"), "implemented");
    assert_eq!(normalize_backlog_status("someday"), "proposed");
    assert_eq!(normalize_token("  Hello,  World! 2 "), "hello_world_2");
}

#[test]
fn empty_strings_are_none() {
    assert_eq!(empty_to_none(String::new()), None);
    assert_eq!(empty_to_none("x".to_owned()), Some("x".to_owned()));
}

#[test]
fn section_value_is_the_first_line_under_the_heading() {
    let doc = "# 0001 Title\n\n## Status\n\n Accepted \n\n## Context\nx\n";
    assert_eq!(markdown_section_first_value(doc, "Status"), "Accepted");
    assert_eq!(markdown_section_first_value(doc, "Decision"), "");
    assert_eq!(markdown_section_first_value("## Status\n## Status\n", "Status"), "## Status");
}

#[test]
fn backlog_document_items_are_read_under_items() {
    let doc = "# Backlog\n### Title\nIgnored\n## Items\n### Title\nFirst\n### Risk\nnormal\n### Status\naccepted\n### Title\nSecond\nextra\n### Current pain\nslow\n";
    let items = backlog_items(doc);
    assert_eq!(items.len(), 2);
    assert_eq!(items[0].title, "First");
    assert_eq!(items[0].risk, "normal");
    assert_eq!(items[0].status, "accepted");
    assert_eq!(items[1].title, "Second");
    assert_eq!(items[1].current_pain, "slow");
}

#[test]
fn template_backlog_items_are_not_imported() {
    let doc = "## Items\n### Title\nShort name.\n";
    let item = backlog_items(doc).pop().unwrap();
    assert!(backlog_import_row(item, None).is_none());
    let doc = "## Items\n### Title\nReal\n### Status\nrejected\n### Risk\nhigh\n";
    let item = backlog_items(doc).pop().unwrap();
    let row = backlog_import_row(item, Some("high_risk".to_owned())).unwrap();
    assert_eq!(row.title, "Real");
    assert_eq!(row.status, "rejected");
    assert_eq!(row.risk, Some("high_risk".to_owned()));
    assert_eq!(row.discovered_while, None);
}

#[test]
fn header_columns_are_found_by_token() {
    let c = MatrixColumns::from_header(&strings(&["Story", "Contract", "Unit", "Status", "Evidence", "Story"]));
    assert_eq!(c.story, Some(5));
    assert_eq!(c.contract, Some(1));
    assert_eq!(c.unit, Some(2));
    assert_eq!(c.status, Some(3));
    assert_eq!(c.evidence, Some(4));
    assert_eq!(c.integration, None);
}

#[test]
fn matrix_rows_become_stories() {
    let doc = "\
# Test matrix
| Note | Text |
| Story | Contract | Unit | Integration | E2E | Platform | Status | Evidence |
|---|---|---|---|---|---|---|---|
| US-1 | docs/a.md | yes | pending | no | | Implemented | ci | log |
| TBD | x | | | | | | |
| US-2 | | | | | | weird | |
";
    let stories = matrix_stories(doc);
    assert_eq!(stories.len(), 2);
    assert_eq!(stories[0].id, "US-1");
    assert_eq!(stories[0].title, "docs/a.md");
    assert_eq!(stories[0].contract_doc, Some("docs/a.md".to_owned()));
    assert_eq!(stories[0].status, "implemented");
    assert_eq!(
        (stories[0].unit_proof, stories[0].integration_proof, stories[0].e2e_proof, stories[0].platform_proof),
        (1, 0, 0, 0)
    );
    assert_eq!(stories[0].evidence, Some("ci | log".to_owned()));
    assert_eq!(stories[1].id, "US-2");
    assert_eq!(stories[1].title, "US-2");
    assert_eq!(stories[1].status, "planned");
    assert_eq!(stories[1].evidence, None);
}

#[test]
fn decision_records_are_recognised_by_name() {
    assert!(is_decision_file_name("0001-use-sqlite.md"));
    assert!(!is_decision_file_name("001-x.md"));
    assert!(!is_decision_file_name("00a1-x.md"));
    assert!(!is_decision_file_name("0001.md"));
    let names = strings(&["0002-b.md", "README.md", "0001-a.md", "0003-c.txt"]);
    assert_eq!(decision_file_order(&names), strings(&["0001-a.md", "0002-b.md"]));
}

#[test]
fn decision_records_import_title_and_status() {
    let d = decision_import("0001-a.md", "0001-a", "# Use SQLite \n\n## Status\nProposed\n");
    assert_eq!(d.id, "0001-a");
    assert_eq!(d.title, "Use SQLite");
    assert_eq!(d.status, "proposed");
    assert_eq!(d.doc_path, "docs/decisions/0001-a.md");
    let d = decision_import("0002-b.md", "0002-b", "No heading\n");
    assert_eq!(d.title, "0002-b");
    assert_eq!(d.status, "accepted");
}
