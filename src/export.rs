use vstd::prelude::*;
use rust_xlsxwriter::{Workbook, Worksheet, XlsxError};
use crate::layout::{CellContent, CellSpec, CellValue, CellWrite, layout, layout_plan, plan_view};
use crate::task::Task;
use crate::xlsx::{
    TEXT_LIMIT, cell_number, error_message, in_bounds, new_worksheet, no_cells, no_text, rename_sheet,
    save_workbook, sheet_cells, sheet_name, workbook_sheets, write_bold_text, write_integer, write_text,
};

verus! {

/// Whether a worksheet takes this cell: an empty unformatted text always, any
/// other cell when it lies within the sheet and its text within the limit.
pub open spec fn cell_writable(c: CellSpec) -> bool {
    match c.content {
        CellContent::Text(s) => (s.len() == 0 && !c.bold) || (in_bounds(c.row, c.col) && s.len()
            <= TEXT_LIMIT),
        CellContent::Number(_) => in_bounds(c.row, c.col),
    }
}

pub open spec fn plan_writable(plan: Seq<CellSpec>) -> bool {
    forall|i: int| 0 <= i < plan.len() ==> cell_writable(#[trigger] plan[i])
}

/// Whether writing `c` leaves a cell behind: all but an empty unformatted text.
pub open spec fn is_stored(c: CellSpec) -> bool {
    match c.content {
        CellContent::Text(s) => !(s.len() == 0 && !c.bold),
        CellContent::Number(_) => true,
    }
}

/// The worksheet cell that writing `c` leaves behind, bold cells with the bold format.
pub open spec fn stored_value(c: CellSpec) -> (Seq<char>, bool, bool, int) {
    match c.content {
        CellContent::Text(s) => (s, false, c.bold, 0),
        CellContent::Number(n) => (no_text(), true, false, cell_number(n)),
    }
}

/// The cells after writing `c` into `m`.
pub open spec fn apply_cell(
    m: Map<(int, int), (Seq<char>, bool, bool, int)>,
    c: CellSpec,
) -> Map<(int, int), (Seq<char>, bool, bool, int)> {
    if is_stored(c) {
        m.insert((c.row, c.col), stored_value(c))
    } else {
        m
    }
}

/// The cells after writing the whole plan into `m`, in order.
pub open spec fn apply_plan(
    m: Map<(int, int), (Seq<char>, bool, bool, int)>,
    plan: Seq<CellSpec>,
) -> Map<(int, int), (Seq<char>, bool, bool, int)>
    decreases plan.len(),
{
    if plan.len() == 0 {
        m
    } else {
        apply_cell(apply_plan(m, plan.drop_last()), plan.last())
    }
}

/// The cells of the worksheet that an export of `a` and `d` writes.
pub open spec fn exported_cells(a: Seq<Task>, d: Seq<Task>) -> Map<(int, int), (Seq<char>, bool, bool, int)> {
    apply_plan(no_cells(), layout_plan(a, d))
}

/// Writes each cell of `plan` into `ws`, in order, and stops at the first
/// write that the worksheet refuses.
fn write_plan(ws: &mut Worksheet, plan: &Vec<CellWrite>) -> (r: Result<(), XlsxError>)
    ensures
        r is Ok <==> plan_writable(plan_view(plan@)),
        r is Ok ==> sheet_cells(*final(ws)) == apply_plan(sheet_cells(*old(ws)), plan_view(plan@)),
        sheet_name(*final(ws)) == sheet_name(*old(ws)),
{
    let ghost pv = plan_view(plan@);
    let mut i: usize = 0;
    while i < plan.len()
        invariant
            i <= plan@.len(),
            pv == plan_view(plan@),
            plan_writable(pv.take(i as int)),
            sheet_cells(*ws) == apply_plan(sheet_cells(*old(ws)), pv.take(i as int)),
            sheet_name(*ws) == sheet_name(*old(ws)),
        decreases plan@.len() - i,
    {
        let c = &plan[i];
        let res = match &c.value {
            CellValue::Text(s) => {
                if c.bold {
                    write_bold_text(ws, c.row, c.col, s.as_str())
                } else {
                    write_text(ws, c.row, c.col, s.as_str())
                }
            },
            CellValue::Number(n) => write_integer(ws, c.row, c.col, *n),
        };
        assert(pv[i as int] == c@);
        match res {
            Ok(()) => {},
            Err(e) => {
                assert(!cell_writable(pv[i as int]));
                return Err(e);
            },
        }
        proof {
            assert(pv.take(i + 1).drop_last() =~= pv.take(i as int));
            assert forall|k: int| 0 <= k < i + 1 implies cell_writable(#[trigger] pv.take(i + 1)[k]) by {
                if k < i {
                    assert(pv.take(i + 1)[k] == pv.take(i as int)[k]);
                }
            }
        }
        i = i + 1;
    }
    assert(pv.take(plan@.len() as int) =~= pv);
    Ok(())
}

/// Builds the worksheet "Tasklist" that holds the layout of `a` and `d`.
pub fn build_sheet(a: &Vec<Task>, d: &Vec<Task>) -> (r: Result<Worksheet, XlsxError>)
    requires
        a@.len() + d@.len() + 5 < u32::MAX,
    ensures
        r is Ok <==> plan_writable(layout_plan(a@, d@)),
        r matches Ok(ws) ==> sheet_cells(ws) == exported_cells(a@, d@) && sheet_name(ws) == "Tasklist"@,
{
    let mut ws = new_worksheet();
    proof {
        reveal_strlit("Tasklist");
    }
    match rename_sheet(&mut ws, "Tasklist") {
        Ok(()) => {},
        Err(e) => {
            return Err(e);
        },
    }
    let plan = layout(a, d);
    match write_plan(&mut ws, &plan) {
        Ok(()) => Ok(ws),
        Err(e) => Err(e),
    }
}

/// Builds a workbook whose one worksheet is the sheet "Tasklist" of
/// `build_sheet`.
pub fn build_workbook(a: &Vec<Task>, d: &Vec<Task>) -> (r: Result<Workbook, XlsxError>)
    requires
        a@.len() + d@.len() + 5 < u32::MAX,
    ensures
        r is Ok <==> plan_writable(layout_plan(a@, d@)),
        r matches Ok(wb) ==> workbook_sheets(wb) == seq![("Tasklist"@, exported_cells(a@, d@))],
{
    match build_sheet(a, d) {
        Err(e) => Err(e),
        Ok(ws) => {
            let mut workbook = Workbook::new();
            proof {
                reveal_strlit("Tasklist");
            }
            workbook.push_worksheet(ws);
            assert(workbook_sheets(workbook) =~= seq![("Tasklist"@, exported_cells(a@, d@))]);
            Ok(workbook)
        },
    }
}

/// Saves the workbook of `build_workbook` at `file_path`. Nothing is written
/// when a cell is refused; a save that fails may leave the file cut short,
/// since the writer creates it before filling it. Errors come back as the
/// writer's message.
pub fn export_excel(a: &Vec<Task>, d: &Vec<Task>, file_path: &str) -> (r: Result<(), String>)
    requires
        a@.len() + d@.len() + 5 < u32::MAX,
    ensures
        r is Ok ==> plan_writable(layout_plan(a@, d@)),
{
    match build_workbook(a, d) {
        Err(e) => Err(error_message(&e)),
        Ok(workbook) => {
            let mut workbook = workbook;
            match save_workbook(&mut workbook, file_path) {
                Ok(()) => Ok(()),
                Err(e) => Err(error_message(&e)),
            }
        },
    }
}

} // verus!
