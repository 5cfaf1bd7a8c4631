use tasklist_export::export::{build_sheet, build_workbook, export_excel};
use tasklist_export::task::Task;

fn task(text: &str, duration: &str, hours: i64) -> Task {
    Task {
        rr: text.to_string(),
        product_name: text.to_string(),
        role: text.to_string(),
        milestone: text.to_string(),
        region: text.to_string(),
        skills: text.to_string(),
        assignment_tasks: text.to_string(),
        hours_per_role_per_milestone: text.to_string(),
        duration: duration.to_string(),
        hours,
    }
}

#[test]
fn sheet_builds_for_ordinary_lists() {
    let a = vec![task("a", "Total", 40)];
    let d = vec![task("b", "2w", 16)];
    let ws = build_sheet(&a, &d);
    assert!(ws.is_ok());
    assert_eq!(ws.unwrap().name(), "Tasklist");
}

#[test]
fn sheet_refuses_text_over_the_cell_limit() {
    let long = "x".repeat(32768);
    let a = vec![task(&long, "1w", 1)];
    assert!(build_sheet(&a, &vec![]).is_err());
    let fits = "x".repeat(32767);
    let a = vec![task(&fits, "1w", 1)];
    assert!(build_sheet(&a, &vec![]).is_ok());
}

#[test]
fn sheet_refuses_long_total_text_in_bold_cells() {
    let mut t = task("a", "Total", 1);
    t.rr = "y".repeat(40000);
    assert!(build_sheet(&vec![], &vec![t]).is_err());
}

#[test]
fn export_writes_the_file() {
    let path = "/tmp/tasklist_export_written.xlsx";
    let a = vec![task("a", "Total", 40), task("b", "1w", 2)];
    let d = vec![task("c", "2w", 16)];
    assert_eq!(export_excel(&a, &d, path), Ok(()));
    assert!(std::path::Path::new(path).exists());
}

#[test]
fn export_of_empty_lists_writes_an_empty_sheet() {
    let path = "/tmp/tasklist_export_empty.xlsx";
    assert_eq!(export_excel(&vec![], &vec![], path), Ok(()));
}

#[test]
fn export_fails_on_a_missing_directory() {
    let path = "/tmp/tasklist_export_no_such_dir/out.xlsx";
    let a = vec![task("a", "Total", 40)];
    assert!(export_excel(&a, &vec![], path).is_err());
}

#[test]
fn export_fails_on_text_over_the_cell_limit() {
    let path = "/tmp/tasklist_export_too_long.xlsx";
    let long = "z".repeat(33000);
    let d = vec![task("a", &long, 1)];
    let r = export_excel(&vec![], &d, path);
    assert!(r.is_err());
    assert!(!r.unwrap_err().is_empty());
    assert!(!std::path::Path::new(path).exists());
}

#[test]
fn workbook_holds_the_one_named_sheet() {
    let a = vec![task("a", "Total", 40)];
    let d = vec![task("b", "2w", 16)];
    let mut wb = build_workbook(&a, &d).unwrap();
    assert_eq!(wb.worksheets().len(), 1);
    assert_eq!(wb.worksheets()[0].name(), "Tasklist");
}

#[test]
fn workbook_refuses_text_over_the_cell_limit() {
    let long = "q".repeat(32768);
    let d = vec![task("a", &long, 1)];
    assert!(build_workbook(&vec![], &d).is_err());
}

#[test]
fn sheet_builds_with_bold_empty_duration_total_lists() {
    let a = vec![task("", "", 0), task("", "Total", i64::MAX)];
    assert!(build_sheet(&a, &vec![task("", "", i64::MIN)]).is_ok());
}
