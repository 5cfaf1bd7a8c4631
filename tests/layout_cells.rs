use tasklist_export::layout::{layout, CellValue, CellWrite};
use tasklist_export::task::Task;

const LABELS: [&str; 10] = [
    "RR",
    "Product Name",
    "Role",
    "Milestone",
    "Region",
    "Skills",
    "Assignment Tasks",
    "Hours per Role per Milestone",
    "Duration",
    "Hours",
];

fn task(text: &str, duration: &str, hours: i64) -> Task {
    Task {
        rr: text.to_string(),
        product_name: text.to_string(),
        role: text.to_string(),
        milestone: text.to_string(),
        region: text.to_string(),
        skills: text.to_string(),
        assignment_tasks: text.to_string(),
        hours_per_role_per_milestone: text.to_string(),
        duration: duration.to_string(),
        hours,
    }
}

fn text(row: u32, col: u16, s: &str, bold: bool) -> CellWrite {
    CellWrite { row, col, value: CellValue::Text(s.to_string()), bold }
}

fn assert_header(plan: &[CellWrite], row: u32) {
    assert_eq!(plan.len(), 10);
    for (col, label) in LABELS.iter().enumerate() {
        assert_eq!(plan[col], text(row, col as u16, label, true));
    }
}

fn assert_task_row(plan: &[CellWrite], row: u32, t: &Task) {
    assert_eq!(plan.len(), 10);
    let fields = [
        &t.rr,
        &t.product_name,
        &t.role,
        &t.milestone,
        &t.region,
        &t.skills,
        &t.assignment_tasks,
        &t.hours_per_role_per_milestone,
    ];
    for (col, f) in fields.iter().enumerate() {
        assert_eq!(plan[col], text(row, col as u16, f, false));
    }
    assert_eq!(plan[8], text(row, 8, &t.duration, t.duration == "Total"));
    assert_eq!(plan[9], CellWrite { row, col: 9, value: CellValue::Number(t.hours), bold: false });
}

fn assert_blank_row(plan: &[CellWrite], row: u32) {
    assert_eq!(plan.len(), 10);
    for col in 0..10u16 {
        assert_eq!(plan[col as usize], text(row, col, "", false));
    }
}

#[test]
fn single_total_assessment_task() {
    let a = vec![task("X", "Total", 40)];
    let plan = layout(&a, &vec![]);
    assert_eq!(plan.len(), 50);
    assert_header(&plan[0..10], 0);
    assert_task_row(&plan[10..20], 1, &a[0]);
    assert_eq!(plan[18], text(1, 8, "Total", true));
    assert_eq!(plan[19], CellWrite { row: 1, col: 9, value: CellValue::Number(40), bold: false });
    for r in 0..3u32 {
        let i = 20 + 10 * r as usize;
        assert_blank_row(&plan[i..i + 10], 2 + r);
    }
    assert!(plan.iter().all(|c| c.row <= 4));
}

#[test]
fn development_only_starts_at_row_zero() {
    let d = vec![task("Y", "2w", 16)];
    let plan = layout(&vec![], &d);
    assert_eq!(plan.len(), 20);
    assert_header(&plan[0..10], 0);
    assert_task_row(&plan[10..20], 1, &d[0]);
    assert_eq!(plan[18], text(1, 8, "2w", false));
    assert_eq!(plan[19], CellWrite { row: 1, col: 9, value: CellValue::Number(16), bold: false });
}

#[test]
fn two_assessment_one_development() {
    let a = vec![task("A1", "1w", 8), task("A2", "Total", 8)];
    let d = vec![task("D1", "3d", 24)];
    let plan = layout(&a, &d);
    assert_eq!(plan.len(), 80);
    assert_header(&plan[0..10], 0);
    assert_task_row(&plan[10..20], 1, &a[0]);
    assert_task_row(&plan[20..30], 2, &a[1]);
    assert_blank_row(&plan[30..40], 3);
    assert_blank_row(&plan[40..50], 4);
    assert_blank_row(&plan[50..60], 5);
    assert_header(&plan[60..70], 6);
    assert_task_row(&plan[70..80], 7, &d[0]);
}

#[test]
fn both_lists_empty_give_no_cells() {
    let plan = layout(&vec![], &vec![]);
    assert!(plan.is_empty());
}

#[test]
fn header_row_has_the_ten_labels_in_bold() {
    let a = vec![task("p", "q", 1), task("r", "s", 2), task("t", "u", 3)];
    let d = vec![task("v", "w", 4)];
    let plan = layout(&a, &d);
    assert_header(&plan[0..10], 0);
}

#[test]
fn hours_are_written_as_numbers() {
    let a = vec![task("a", "1w", 0), task("b", "2w", -5)];
    let d = vec![task("c", "Total", 1234567)];
    let plan = layout(&a, &d);
    assert_eq!(plan[19].value, CellValue::Number(0));
    assert_eq!(plan[29].value, CellValue::Number(-5));
    assert_eq!(plan[plan.len() - 1].value, CellValue::Number(1234567));
}

#[test]
fn only_total_duration_is_bold() {
    let a = vec![task("a", "Total", 1), task("b", "total", 2), task("c", "Total ", 3), task("d", "Duration", 4)];
    let plan = layout(&a, &vec![]);
    let durations: Vec<bool> = plan[10..50].iter().filter(|c| c.col == 8).map(|c| c.bold).collect();
    assert_eq!(durations, vec![true, false, false, false]);
    let bold_in_rows: usize = plan[10..50].iter().filter(|c| c.bold).count();
    assert_eq!(bold_in_rows, 1);
}

#[test]
fn gap_between_sections_is_three_blank_rows() {
    let a = vec![task("a", "x", 1), task("b", "y", 2), task("c", "z", 3), task("d", "Total", 6)];
    let d = vec![task("e", "x", 1), task("f", "Total", 1)];
    let plan = layout(&a, &d);
    assert_task_row(&plan[40..50], 4, &a[3]);
    for r in 0..3u32 {
        let i = 50 + 10 * r as usize;
        assert_blank_row(&plan[i..i + 10], 5 + r);
    }
    assert_header(&plan[80..90], 8);
    assert_task_row(&plan[90..100], 9, &d[0]);
    assert_task_row(&plan[100..110], 10, &d[1]);
}

#[test]
fn no_development_cells_when_development_is_empty() {
    let a = vec![task("a", "x", 1), task("b", "y", 2)];
    let plan = layout(&a, &vec![]);
    assert_eq!(plan.len(), 60);
    assert!(plan.iter().all(|c| c.row <= 5));
    assert!(plan[30..60].iter().all(|c| c.value == CellValue::Text(String::new()) && !c.bold));
}

#[test]
fn layout_is_deterministic() {
    let a = vec![task("a", "Total", 3)];
    let d = vec![task("b", "1w", 4), task("c", "Total", 4)];
    assert_eq!(layout(&a, &d), layout(&a, &d));
}
