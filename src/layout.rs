use vstd::prelude::*;
use crate::task::Task;

verus! {

/// Number of columns in every row of a section.
pub const COLUMN_COUNT: usize = 10;

/// Column that holds a task's duration.
pub const DURATION_COLUMN: u16 = 8;

/// Column that holds a task's hours.
pub const HOURS_COLUMN: u16 = 9;

/// Blank rows between the assessment section and the development section.
pub const BUFFER_ROWS: u32 = 3;

/// What one cell of a plan holds.
#[derive(Clone, Debug, PartialEq)]
pub enum CellValue {
    Text(String),
    Number(i64),
}

/// One cell to write: its position, its content and whether it is bold.
#[derive(Clone, Debug, PartialEq)]
pub struct CellWrite {
    pub row: u32,
    pub col: u16,
    pub value: CellValue,
    pub bold: bool,
}

/// The mathematical content of a cell.
pub enum CellContent {
    Text(Seq<char>),
    Number(int),
}

/// The mathematical form of a cell write.
pub struct CellSpec {
    pub row: int,
    pub col: int,
    pub content: CellContent,
    pub bold: bool,
}

impl View for CellValue {
    type V = CellContent;

    open spec fn view(&self) -> CellContent {
        match self {
            CellValue::Text(s) => CellContent::Text(s@),
            CellValue::Number(n) => CellContent::Number(*n as int),
        }
    }
}

impl View for CellWrite {
    type V = CellSpec;

    open spec fn view(&self) -> CellSpec {
        CellSpec { row: self.row as int, col: self.col as int, content: self.value@, bold: self.bold }
    }
}

/// Position in a plan of column `col` of the `k`-th row of a part.
pub open spec fn slot(k: int, col: int) -> int {
    10 * k + col
}

pub open spec fn plan_view(v: Seq<CellWrite>) -> Seq<CellSpec> {
    v.map_values(|c: CellWrite| c@)
}

/// The label of each column, shared by both sections' header rows.
pub open spec fn header_label(col: int) -> Seq<char> {
    if col == 0 {
        "RR"@
    } else if col == 1 {
        "Product Name"@
    } else if col == 2 {
        "Role"@
    } else if col == 3 {
        "Milestone"@
    } else if col == 4 {
        "Region"@
    } else if col == 5 {
        "Skills"@
    } else if col == 6 {
        "Assignment Tasks"@
    } else if col == 7 {
        "Hours per Role per Milestone"@
    } else if col == 8 {
        "Duration"@
    } else {
        "Hours"@
    }
}

pub open spec fn header_cell(row: int, col: int) -> CellSpec {
    CellSpec { row, col, content: CellContent::Text(header_label(col)), bold: true }
}

pub open spec fn header_row(row: int) -> Seq<CellSpec> {
    Seq::new(10, |j: int| header_cell(row, j))
}

/// The content of column `col` in the row of task `t`.
pub open spec fn task_field(t: Task, col: int) -> CellContent {
    if col == 0 {
        CellContent::Text(t.rr@)
    } else if col == 1 {
        CellContent::Text(t.product_name@)
    } else if col == 2 {
        CellContent::Text(t.role@)
    } else if col == 3 {
        CellContent::Text(t.milestone@)
    } else if col == 4 {
        CellContent::Text(t.region@)
    } else if col == 5 {
        CellContent::Text(t.skills@)
    } else if col == 6 {
        CellContent::Text(t.assignment_tasks@)
    } else if col == 7 {
        CellContent::Text(t.hours_per_role_per_milestone@)
    } else if col == 8 {
        CellContent::Text(t.duration@)
    } else {
        CellContent::Number(t.hours as int)
    }
}

/// The duration value that marks a totals row.
pub open spec fn is_total(duration: Seq<char>) -> bool {
    duration == "Total"@
}

pub open spec fn task_cell(row: int, col: int, t: Task) -> CellSpec {
    CellSpec { row, col, content: task_field(t, col), bold: col == 8 && is_total(t.duration@) }
}

pub open spec fn task_row(row: int, t: Task) -> Seq<CellSpec> {
    Seq::new(10, |j: int| task_cell(row, j, t))
}

pub open spec fn blank_cell(row: int, col: int) -> CellSpec {
    CellSpec { row, col, content: CellContent::Text(Seq::empty()), bold: false }
}

pub open spec fn blank_row(row: int) -> Seq<CellSpec> {
    Seq::new(10, |j: int| blank_cell(row, j))
}

/// One row per task, the first at row `start`, in the order of `ts`.
pub open spec fn task_rows(start: int, ts: Seq<Task>) -> Seq<CellSpec>
    decreases ts.len(),
{
    if ts.len() == 0 {
        Seq::empty()
    } else {
        task_rows(start, ts.drop_last()) + task_row(start + ts.len() - 1, ts.last())
    }
}

pub open spec fn buffer_rows(start: int) -> Seq<CellSpec> {
    blank_row(start) + blank_row(start + 1) + blank_row(start + 2)
}

/// A header row at `start`, then the tasks' rows below it.
pub open spec fn section(start: int, ts: Seq<Task>) -> Seq<CellSpec> {
    header_row(start) + task_rows(start + 1, ts)
}

/// The assessment section and the blank rows after it; nothing when there are no tasks.
pub open spec fn assessment_part(a: Seq<Task>) -> Seq<CellSpec> {
    if a.len() == 0 {
        Seq::empty()
    } else {
        section(0, a) + buffer_rows(a.len() as int + 1)
    }
}

/// The row of the development header.
pub open spec fn development_start(a: Seq<Task>) -> int {
    if a.len() == 0 {
        0
    } else {
        a.len() as int + 1 + 3
    }
}

/// The whole plan for an assessment list `a` and a development list `d`.
pub open spec fn layout_plan(a: Seq<Task>, d: Seq<Task>) -> Seq<CellSpec> {
    assessment_part(a) + if d.len() == 0 {
        Seq::empty()
    } else {
        section(development_start(a), d)
    }
}

proof fn lemma_plan_view_push(v: Seq<CellWrite>, c: CellWrite)
    ensures
        plan_view(v.push(c)) == plan_view(v).push(c@),
{
    assert(plan_view(v.push(c)) =~= plan_view(v).push(c@));
}

fn header_text(col: usize) -> (r: String)
    requires
        col < COLUMN_COUNT,
    ensures
        r@ == header_label(col as int),
{
    let s: &str = if col == 0 {
        "RR"
    } else if col == 1 {
        "Product Name"
    } else if col == 2 {
        "Role"
    } else if col == 3 {
        "Milestone"
    } else if col == 4 {
        "Region"
    } else if col == 5 {
        "Skills"
    } else if col == 6 {
        "Assignment Tasks"
    } else if col == 7 {
        "Hours per Role per Milestone"
    } else if col == 8 {
        "Duration"
    } else {
        "Hours"
    };
    s.to_owned()
}

fn push_header(out: &mut Vec<CellWrite>, row: u32)
    ensures
        plan_view(final(out)@) == plan_view(old(out)@) + header_row(row as int),
{
    let mut col: usize = 0;
    while col < COLUMN_COUNT
        invariant
            col <= COLUMN_COUNT,
            plan_view(out@) == plan_view(old(out)@) + header_row(row as int).take(col as int),
        decreases COLUMN_COUNT - col,
    {
        let c = CellWrite { row, col: col as u16, value: CellValue::Text(header_text(col)), bold: true };
        proof {
            lemma_plan_view_push(out@, c);
            assert(header_row(row as int).take(col + 1) =~= header_row(row as int).take(col as int).push(c@));
        }
        out.push(c);
        col = col + 1;
    }
    assert(header_row(row as int).take(10) =~= header_row(row as int));
}

fn push_blank_row(out: &mut Vec<CellWrite>, row: u32)
    ensures
        plan_view(final(out)@) == plan_view(old(out)@) + blank_row(row as int),
{
    let mut col: usize = 0;
    while col < COLUMN_COUNT
        invariant
            col <= COLUMN_COUNT,
            plan_view(out@) == plan_view(old(out)@) + blank_row(row as int).take(col as int),
        decreases COLUMN_COUNT - col,
    {
        let c = CellWrite { row, col: col as u16, value: CellValue::Text(String::new()), bold: false };
        proof {
            lemma_plan_view_push(out@, c);
            assert(blank_row(row as int).take(col + 1) =~= blank_row(row as int).take(col as int).push(c@));
        }
        out.push(c);
        col = col + 1;
    }
    assert(blank_row(row as int).take(10) =~= blank_row(row as int));
}

fn push_task_row(out: &mut Vec<CellWrite>, row: u32, t: &Task)
    ensures
        plan_view(final(out)@) == plan_view(old(out)@) + task_row(row as int, *t),
{
    let total = "Total".to_owned();
    let duration_bold = t.duration == total;
    out.push(CellWrite { row, col: 0, value: CellValue::Text(t.rr.clone()), bold: false });
    out.push(CellWrite { row, col: 1, value: CellValue::Text(t.product_name.clone()), bold: false });
    out.push(CellWrite { row, col: 2, value: CellValue::Text(t.role.clone()), bold: false });
    out.push(CellWrite { row, col: 3, value: CellValue::Text(t.milestone.clone()), bold: false });
    out.push(CellWrite { row, col: 4, value: CellValue::Text(t.region.clone()), bold: false });
    out.push(CellWrite { row, col: 5, value: CellValue::Text(t.skills.clone()), bold: false });
    out.push(CellWrite { row, col: 6, value: CellValue::Text(t.assignment_tasks.clone()), bold: false });
    out.push(
        CellWrite { row, col: 7, value: CellValue::Text(t.hours_per_role_per_milestone.clone()), bold: false },
    );
    out.push(CellWrite { row, col: DURATION_COLUMN, value: CellValue::Text(t.duration.clone()), bold: duration_bold });
    out.push(CellWrite { row, col: HOURS_COLUMN, value: CellValue::Number(t.hours), bold: false });
    let ghost n = old(out)@.len();
    assert forall|i: int| 0 <= i < 10 implies #[trigger] out@[n + i]@ == task_cell(row as int, i, *t) by {
        if i == 8 {
            assert(duration_bold == is_total(t.duration@));
        }
    }
    assert(plan_view(out@) =~= plan_view(old(out)@) + task_row(row as int, *t));
}

proof fn lemma_task_rows_step(start: int, ts: Seq<Task>, i: int)
    requires
        0 <= i < ts.len(),
    ensures
        task_rows(start, ts.take(i + 1)) == task_rows(start, ts.take(i)) + task_row(start + i, ts[i]),
{
    assert(ts.take(i + 1).drop_last() =~= ts.take(i));
}

fn push_section(out: &mut Vec<CellWrite>, start: u32, ts: &Vec<Task>)
    requires
        start + ts@.len() < u32::MAX,
    ensures
        plan_view(final(out)@) == plan_view(old(out)@) + section(start as int, ts@),
{
    push_header(out, start);
    let mut i: usize = 0;
    while i < ts.len()
        invariant
            i <= ts@.len(),
            start + ts@.len() < u32::MAX,
            plan_view(out@) == plan_view(old(out)@) + header_row(start as int) + task_rows(
                start + 1,
                ts@.take(i as int),
            ),
        decreases ts@.len() - i,
    {
        let ghost before = plan_view(out@);
        push_task_row(out, start + 1 + i as u32, &ts[i]);
        proof {
            lemma_task_rows_step(start + 1, ts@, i as int);
            assert(plan_view(out@) =~= plan_view(old(out)@) + header_row(start as int) + task_rows(
                start + 1,
                ts@.take(i + 1),
            ));
        }
        i = i + 1;
    }
    assert(ts@.take(ts@.len() as int) =~= ts@);
    assert(plan_view(out@) =~= plan_view(old(out)@) + section(start as int, ts@));
}

/// Lays out the assessment tasks `a` and the development tasks `d` as a list
/// of cell writes, row by row and, within a row, column by column.
pub fn layout(a: &Vec<Task>, d: &Vec<Task>) -> (r: Vec<CellWrite>)
    requires
        a@.len() + d@.len() + 5 < u32::MAX,
    ensures
        plan_view(r@) == layout_plan(a@, d@),
{
    let mut out: Vec<CellWrite> = Vec::new();
    let mut next_row: u32 = 0;
    if a.len() > 0 {
        push_section(&mut out, 0, a);
        let end = (a.len() + 1) as u32;
        push_blank_row(&mut out, end);
        push_blank_row(&mut out, end + 1);
        push_blank_row(&mut out, end + 2);
        next_row = end + BUFFER_ROWS;
        assert(plan_view(out@) =~= assessment_part(a@));
    } else {
        assert(plan_view(out@) =~= assessment_part(a@));
    }
    if d.len() > 0 {
        push_section(&mut out, next_row, d);
    }
    assert(plan_view(out@) =~= layout_plan(a@, d@));
    out
}

} // verus!
