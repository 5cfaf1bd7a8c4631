use vstd::prelude::*;
use crate::layout::{
    CellContent, CellSpec, assessment_part, blank_cell, blank_row, buffer_rows, development_start, header_cell,
    header_label, header_row, layout_plan, section, slot, task_cell, task_row, task_rows,
};
use crate::export::{apply_plan, exported_cells, is_stored, stored_value};
use crate::xlsx::{cell_number, exact_in_double, no_cells, no_text};
use crate::task::Task;

verus! {

/// `c1` lies above `c2`, or left of it on the same row.
pub open spec fn before(c1: CellSpec, c2: CellSpec) -> bool {
    c1.row < c2.row || (c1.row == c2.row && c1.col < c2.col)
}

/// The cells come in reading order, so no position is written twice.
pub open spec fn in_reading_order(s: Seq<CellSpec>) -> bool {
    forall|i: int, j: int| 0 <= i < j < s.len() ==> before(#[trigger] s[i], #[trigger] s[j])
}

pub open spec fn rows_within(s: Seq<CellSpec>, lo: int, hi: int) -> bool {
    forall|i: int| 0 <= i < s.len() ==> lo <= (#[trigger] s[i]).row < hi
}

proof fn lemma_concat_order(s1: Seq<CellSpec>, s2: Seq<CellSpec>, lo: int, mid: int, hi: int)
    requires
        lo <= mid <= hi,
        in_reading_order(s1),
        in_reading_order(s2),
        rows_within(s1, lo, mid),
        rows_within(s2, mid, hi),
    ensures
        in_reading_order(s1 + s2),
        rows_within(s1 + s2, lo, hi),
{
    let s = s1 + s2;
    assert forall|i: int, j: int| 0 <= i < j < s.len() implies before(#[trigger] s[i], #[trigger] s[j]) by {
        if j < s1.len() {
            assert(before(s1[i], s1[j]));
        } else if i >= s1.len() {
            assert(before(s2[i - s1.len()], s2[j - s1.len()]));
        } else {
            assert(s1[i].row < mid);
            assert(s2[j - s1.len()].row >= mid);
        }
    }
    assert forall|i: int| 0 <= i < s.len() implies lo <= (#[trigger] s[i]).row < hi by {
        if i < s1.len() {
            assert(lo <= s1[i].row < mid);
        } else {
            assert(mid <= s2[i - s1.len()].row < hi);
        }
    }
}

proof fn lemma_single_rows_ordered(row: int, t: Task)
    ensures
        in_reading_order(header_row(row)),
        rows_within(header_row(row), row, row + 1),
        in_reading_order(blank_row(row)),
        rows_within(blank_row(row), row, row + 1),
        in_reading_order(task_row(row, t)),
        rows_within(task_row(row, t), row, row + 1),
{
}

proof fn lemma_task_rows_ordered(start: int, ts: Seq<Task>)
    ensures
        in_reading_order(task_rows(start, ts)),
        rows_within(task_rows(start, ts), start, start + ts.len()),
    decreases ts.len(),
{
    if ts.len() > 0 {
        let n = ts.len() - 1;
        lemma_task_rows_ordered(start, ts.drop_last());
        lemma_single_rows_ordered(start + n, ts.last());
        lemma_concat_order(task_rows(start, ts.drop_last()), task_row(start + n, ts.last()), start, start + n, start + n + 1);
    }
}

proof fn lemma_section_ordered(start: int, ts: Seq<Task>)
    ensures
        in_reading_order(section(start, ts)),
        rows_within(section(start, ts), start, start + 1 + ts.len()),
{
    lemma_single_rows_ordered(start, ts.last());
    lemma_task_rows_ordered(start + 1, ts);
    lemma_concat_order(header_row(start), task_rows(start + 1, ts), start, start + 1, start + 1 + ts.len());
}

proof fn lemma_layout_ordered(a: Seq<Task>, d: Seq<Task>)
    ensures
        in_reading_order(layout_plan(a, d)),
{
    let n = a.len() as int;
    let ghost t = if a.len() > 0 { a[0] } else { d.last() };
    lemma_section_ordered(0, a);
    lemma_single_rows_ordered(n + 1, t);
    lemma_single_rows_ordered(n + 2, t);
    lemma_single_rows_ordered(n + 3, t);
    lemma_concat_order(blank_row(n + 1), blank_row(n + 2), n + 1, n + 2, n + 3);
    lemma_concat_order(blank_row(n + 1) + blank_row(n + 2), blank_row(n + 3), n + 1, n + 3, n + 4);
    lemma_concat_order(section(0, a), buffer_rows(n + 1), 0, n + 1, n + 4);
    lemma_section_ordered(development_start(a), d);
    let hi = development_start(a) + 1 + d.len();
    if d.len() == 0 {
        assert(layout_plan(a, d) =~= assessment_part(a));
    } else if a.len() == 0 {
        assert(layout_plan(a, d) =~= section(0, d));
    } else {
        lemma_concat_order(assessment_part(a), section(development_start(a), d), 0, n + 4, hi);
    }
}

/// In a plan in reading order, a cell that leaves something behind is what
/// the worksheet holds at its position in the end.
proof fn lemma_written_cell(plan: Seq<CellSpec>, i: int)
    requires
        in_reading_order(plan),
        0 <= i < plan.len(),
        is_stored(plan[i]),
    ensures
        apply_plan(no_cells(), plan).contains_key((plan[i].row, plan[i].col)),
        apply_plan(no_cells(), plan)[(plan[i].row, plan[i].col)] == stored_value(plan[i]),
    decreases plan.len(),
{
    let rest = plan.drop_last();
    if i < plan.len() - 1 {
        assert(in_reading_order(rest)) by {
            assert forall|x: int, y: int| 0 <= x < y < rest.len() implies before(#[trigger] rest[x], #[trigger] rest[y]) by {
                assert(before(plan[x], plan[y]));
            }
        }
        lemma_written_cell(rest, i);
        assert(before(plan[i], plan.last()));
        assert(rest[i] == plan[i]);
    }
}

proof fn lemma_task_rows_index(start: int, ts: Seq<Task>)
    ensures
        task_rows(start, ts).len() == 10 * ts.len(),
        forall|k: int, j: int|
            0 <= k < ts.len() && 0 <= j < 10 ==> #[trigger] task_rows(start, ts)[slot(k, j)] == task_cell(
                start + k,
                j,
                ts[k],
            ),
    decreases ts.len(),
{
    if ts.len() > 0 {
        let n = ts.len() - 1;
        lemma_task_rows_index(start, ts.drop_last());
        assert forall|k: int, j: int| 0 <= k < ts.len() && 0 <= j < 10 implies #[trigger] task_rows(
            start,
            ts,
        )[slot(k, j)] == task_cell(start + k, j, ts[k]) by {
            if k < n {
                assert(task_rows(start, ts.drop_last())[slot(k, j)] == task_cell(start + k, j, ts[k]));
            } else {
                assert(task_row(start + n, ts.last())[j] == task_cell(start + k, j, ts[k]));
            }
        }
    }
}

proof fn lemma_section_index(start: int, ts: Seq<Task>)
    ensures
        section(start, ts).len() == 10 * ts.len() + 10,
        forall|j: int| 0 <= j < 10 ==> #[trigger] section(start, ts)[slot(0, j)] == header_cell(start, j),
        forall|k: int, j: int|
            0 <= k < ts.len() && 0 <= j < 10 ==> #[trigger] section(start, ts)[slot(k + 1, j)]
                == task_cell(start + 1 + k, j, ts[k]),
{
    lemma_task_rows_index(start + 1, ts);
    assert forall|k: int, j: int| 0 <= k < ts.len() && 0 <= j < 10 implies #[trigger] section(start, ts)[slot(
        k + 1,
        j,
    )] == task_cell(start + 1 + k, j, ts[k]) by {
        assert(section(start, ts)[slot(k + 1, j)] == task_rows(start + 1, ts)[slot(k, j)]);
    }
}

proof fn lemma_assessment_part_index(a: Seq<Task>)
    requires
        a.len() > 0,
    ensures
        assessment_part(a).len() == 10 * a.len() + 40,
        forall|j: int| 0 <= j < 10 ==> #[trigger] assessment_part(a)[slot(0, j)] == header_cell(0, j),
        forall|k: int, j: int|
            0 <= k < a.len() && 0 <= j < 10 ==> #[trigger] assessment_part(a)[slot(k + 1, j)]
                == task_cell(1 + k, j, a[k]),
        forall|r: int, j: int|
            0 <= r < 3 && 0 <= j < 10 ==> #[trigger] assessment_part(a)[slot(a.len() + 1 + r, j)]
                == blank_cell(a.len() + 1 + r, j),
{
    lemma_section_index(0, a);
    let n = a.len() as int;
    assert forall|r: int, j: int| 0 <= r < 3 && 0 <= j < 10 implies #[trigger] assessment_part(a)[slot(
        n + 1 + r,
        j,
    )] == blank_cell(n + 1 + r, j) by {
        assert(assessment_part(a)[slot(n + 1 + r, j)] == buffer_rows(n + 1)[slot(r, j)]);
        if r == 0 {
            assert(buffer_rows(n + 1)[slot(r, j)] == blank_row(n + 1)[j]);
        } else if r == 1 {
            assert(buffer_rows(n + 1)[slot(r, j)] == blank_row(n + 2)[j]);
        } else {
            assert(buffer_rows(n + 1)[slot(r, j)] == blank_row(n + 3)[j]);
        }
    }
}

/// A non-empty assessment list puts a bold header row at row 0, one cell per
/// column label, at the very start of the plan.
pub proof fn header_opens_assessment(a: Seq<Task>, d: Seq<Task>)
    requires
        a.len() > 0,
    ensures
        forall|j: int|
            0 <= j < 10 ==> #[trigger] layout_plan(a, d)[slot(0, j)] == header_cell(0, j),
{
    lemma_assessment_part_index(a);
}

/// Each task gets one row of ten cells, in list order: an assessment task
/// `k` at row `k + 1`, a development task `k` at the row after the
/// development header plus `k`.
pub proof fn tasks_fill_rows_in_order(a: Seq<Task>, d: Seq<Task>)
    ensures
        forall|k: int, j: int|
            0 <= k < a.len() && 0 <= j < 10 ==> #[trigger] layout_plan(a, d)[slot(k + 1, j)] == task_cell(
                k + 1,
                j,
                a[k],
            ),
        forall|k: int, j: int|
            0 <= k < d.len() && 0 <= j < 10 ==> #[trigger] layout_plan(a, d)[assessment_part(a).len() + slot(
                k + 1,
                j,
            )] == task_cell(development_start(a) + 1 + k, j, d[k]),
{
    if a.len() > 0 {
        lemma_assessment_part_index(a);
    }
    if d.len() > 0 {
        lemma_section_index(development_start(a), d);
    }
    assert forall|k: int, j: int| 0 <= k < d.len() && 0 <= j < 10 implies #[trigger] layout_plan(
        a,
        d,
    )[assessment_part(a).len() + slot(k + 1, j)] == task_cell(development_start(a) + 1 + k, j, d[k]) by {
        assert(layout_plan(a, d)[assessment_part(a).len() + slot(k + 1, j)] == section(
            development_start(a),
            d,
        )[slot(k + 1, j)]);
    }
}

/// The hours of every task are written as a number, never as text.
pub proof fn hours_are_numbers(a: Seq<Task>, d: Seq<Task>)
    ensures
        forall|k: int|
            0 <= k < a.len() ==> (#[trigger] layout_plan(a, d)[slot(k + 1, 9)]).content == CellContent::Number(
                a[k].hours as int,
            ),
        forall|k: int|
            0 <= k < d.len() ==> (#[trigger] layout_plan(a, d)[assessment_part(a).len() + slot(
                k + 1,
                9,
            )]).content == CellContent::Number(d[k].hours as int),
{
    tasks_fill_rows_in_order(a, d);
    assert forall|k: int| 0 <= k < a.len() implies (#[trigger] layout_plan(a, d)[slot(k + 1, 9)]).content
        == CellContent::Number(a[k].hours as int) by {
        assert(layout_plan(a, d)[slot(k + 1, 9)] == task_cell(k + 1, 9, a[k]));
    }
    assert forall|k: int| 0 <= k < d.len() implies (#[trigger] layout_plan(a, d)[assessment_part(a).len()
        + slot(k + 1, 9)]).content == CellContent::Number(d[k].hours as int) by {
        assert(layout_plan(a, d)[assessment_part(a).len() + slot(k + 1, 9)] == task_cell(
            development_start(a) + 1 + k,
            9,
            d[k],
        ));
    }
}

/// A task's duration cell is bold exactly when the duration is "Total"; no
/// other cell of a task's row is bold.
pub proof fn bold_duration_iff_total(a: Seq<Task>, d: Seq<Task>)
    ensures
        forall|k: int, j: int|
            0 <= k < a.len() && 0 <= j < 10 ==> ((#[trigger] layout_plan(a, d)[slot(k + 1, j)]).bold <==> (j
                == 8 && a[k].duration@ == "Total"@)),
        forall|k: int, j: int|
            0 <= k < d.len() && 0 <= j < 10 ==> ((#[trigger] layout_plan(a, d)[assessment_part(a).len()
                + slot(k + 1, j)]).bold <==> (j == 8 && d[k].duration@ == "Total"@)),
{
    tasks_fill_rows_in_order(a, d);
    assert forall|k: int, j: int| 0 <= k < a.len() && 0 <= j < 10 implies ((#[trigger] layout_plan(
        a,
        d,
    )[slot(k + 1, j)]).bold <==> (j == 8 && a[k].duration@ == "Total"@)) by {
        assert(layout_plan(a, d)[slot(k + 1, j)] == task_cell(k + 1, j, a[k]));
    }
    assert forall|k: int, j: int| 0 <= k < d.len() && 0 <= j < 10 implies ((#[trigger] layout_plan(
        a,
        d,
    )[assessment_part(a).len() + slot(k + 1, j)]).bold <==> (j == 8 && d[k].duration@ == "Total"@)) by {
        assert(layout_plan(a, d)[assessment_part(a).len() + slot(k + 1, j)] == task_cell(
            development_start(a) + 1 + k,
            j,
            d[k],
        ));
    }
}

/// With both lists non-empty, the three rows after the last assessment row
/// are blank in all ten columns, and the development header comes right
/// after them.
pub proof fn three_blank_rows_between_sections(a: Seq<Task>, d: Seq<Task>)
    requires
        a.len() > 0,
        d.len() > 0,
    ensures
        forall|r: int, j: int|
            0 <= r < 3 && 0 <= j < 10 ==> #[trigger] layout_plan(a, d)[slot(a.len() + 1 + r, j)] == blank_cell(
                a.len() + 1 + r,
                j,
            ),
        development_start(a) == a.len() + 4,
        forall|j: int|
            0 <= j < 10 ==> #[trigger] layout_plan(a, d)[slot(a.len() as int + 4, j)] == header_cell(a.len() as int + 4, j),
{
    lemma_assessment_part_index(a);
    lemma_section_index(development_start(a), d);
    let n = a.len() as int;
    assert forall|j: int| 0 <= j < 10 implies #[trigger] layout_plan(a, d)[slot(n + 4, j)] == header_cell(
        n + 4,
        j,
    ) by {
        assert(layout_plan(a, d)[slot(n + 4, j)] == section(n + 4, d)[slot(0, j)]);
    }
}

/// With no assessment tasks, the development section starts at row 0: the
/// plan is that section alone, header first.
pub proof fn development_alone_starts_at_top(a: Seq<Task>, d: Seq<Task>)
    requires
        a.len() == 0,
        d.len() > 0,
    ensures
        layout_plan(a, d) == section(0, d),
        forall|j: int| 0 <= j < 10 ==> #[trigger] layout_plan(a, d)[slot(0, j)] == header_cell(0, j),
{
    assert(layout_plan(a, d) =~= section(0, d));
    lemma_section_index(0, d);
}

/// With no development tasks, the plan is the assessment part alone: no
/// development header and no development rows.
pub proof fn no_development_section_when_empty(a: Seq<Task>, d: Seq<Task>)
    requires
        d.len() == 0,
    ensures
        layout_plan(a, d) == assessment_part(a),
        layout_plan(a, d).len() == if a.len() == 0 {
            0
        } else {
            10 * a.len() + 40
        },
{
    assert(layout_plan(a, d) =~= assessment_part(a));
    if a.len() > 0 {
        lemma_assessment_part_index(a);
    }
}

/// Two exports of the same lists lay out and write the same cells.
pub proof fn export_is_deterministic(a1: Seq<Task>, d1: Seq<Task>, a2: Seq<Task>, d2: Seq<Task>)
    requires
        a1 == a2,
        d1 == d2,
    ensures
        layout_plan(a1, d1) == layout_plan(a2, d2),
        exported_cells(a1, d1) == exported_cells(a2, d2),
{
}

proof fn lemma_plan_len(a: Seq<Task>, d: Seq<Task>)
    ensures
        assessment_part(a).len() == if a.len() == 0 {
            0
        } else {
            10 * a.len() + 40
        },
        layout_plan(a, d).len() == assessment_part(a).len() + if d.len() == 0 {
            0
        } else {
            10 * d.len() + 10
        },
{
    if a.len() > 0 {
        lemma_assessment_part_index(a);
    }
    lemma_section_index(development_start(a), d);
}

/// In the written worksheet, a non-empty assessment list's header fills
/// row 0 with the ten column labels, each bold.
pub proof fn header_written_bold(a: Seq<Task>, d: Seq<Task>)
    requires
        a.len() > 0,
    ensures
        forall|j: int|
            #![trigger exported_cells(a, d).contains_key((0, j))]
            #![trigger exported_cells(a, d)[(0, j)]]
            0 <= j < 10 ==> exported_cells(a, d).contains_key((0, j)) && exported_cells(a, d)[(0, j)] == (header_label(j), false, true, 0int),
{
    lemma_layout_ordered(a, d);
    lemma_plan_len(a, d);
    header_opens_assessment(a, d);
    assert forall|j: int| 0 <= j < 10 implies exported_cells(a, d).contains_key((0, j)) && exported_cells(
        a,
        d,
    )[(0, j)] == (header_label(j), false, true, 0int) by {
        lemma_written_cell(layout_plan(a, d), slot(0, j));
    }
}

/// In the written worksheet, the hours cell of every task row, in either
/// section, is numeric and holds the task's hours (exactly, wherever a
/// double holds them exactly).
pub proof fn hours_written_as_numbers(a: Seq<Task>, d: Seq<Task>)
    ensures
        forall|r: int|
            #![trigger exported_cells(a, d).contains_key((r, 9))]
            #![trigger exported_cells(a, d)[(r, 9)]]
            1 <= r <= a.len() ==> exported_cells(a, d).contains_key((r, 9)) && exported_cells(a, d)[(r, 9)] == (
                no_text(),
                true,
                false,
                cell_number(a[r - 1].hours as int),
            ),
        forall|r: int|
            #![trigger exported_cells(a, d).contains_key((r, 9))]
            #![trigger exported_cells(a, d)[(r, 9)]]
            development_start(a) < r <= development_start(a) + d.len() ==> exported_cells(a, d).contains_key(
                (r, 9),
            ) && exported_cells(a, d)[(r, 9)] == (
                no_text(),
                true,
                false,
                cell_number(d[r - development_start(a) - 1].hours as int),
            ),
        forall|k: int| 0 <= k < a.len() && exact_in_double(#[trigger] a[k].hours as int) ==> cell_number(a[k].hours as int) == a[k].hours,
{
    lemma_layout_ordered(a, d);
    lemma_plan_len(a, d);
    tasks_fill_rows_in_order(a, d);
    let plan = layout_plan(a, d);
    assert forall|r: int|
        #![trigger exported_cells(a, d).contains_key((r, 9))]
        #![trigger exported_cells(a, d)[(r, 9)]]
        1 <= r <= a.len() implies exported_cells(a, d).contains_key((r, 9)) && exported_cells(a, d)[(r, 9)] == (no_text(), true, false, cell_number(a[r - 1].hours as int)) by {
        let k = r - 1;
        assert(plan[slot(k + 1, 9)] == task_cell(k + 1, 9, a[k]));
        lemma_written_cell(plan, slot(k + 1, 9));
    }
    assert forall|r: int|
        #![trigger exported_cells(a, d).contains_key((r, 9))]
        #![trigger exported_cells(a, d)[(r, 9)]]
        development_start(a) < r <= development_start(a) + d.len() implies exported_cells(a, d).contains_key(
            (r, 9),
        ) && exported_cells(a, d)[(r, 9)] == (
        no_text(),
        true,
        false,
        cell_number(d[r - development_start(a) - 1].hours as int),
    ) by {
        let k = r - development_start(a) - 1;
        let i = assessment_part(a).len() + slot(k + 1, 9);
        assert(plan[i] == task_cell(development_start(a) + 1 + k, 9, d[k]));
        lemma_written_cell(plan, i);
    }
}

/// In the written worksheet, a task's duration cell holds its duration and
/// is bold exactly when the duration is "Total" (an empty duration leaves no
/// cell).
pub proof fn duration_written_bold_iff_total(a: Seq<Task>, d: Seq<Task>)
    ensures
        forall|k: int|
            #![trigger a[k]]
            0 <= k < a.len() && a[k].duration@.len() > 0 ==> exported_cells(a, d).contains_key((k + 1, 8))
                && exported_cells(a, d)[(k + 1, 8)] == (a[k].duration@, false, a[k].duration@ == "Total"@, 0int),
        forall|k: int|
            #![trigger d[k]]
            0 <= k < d.len() && d[k].duration@.len() > 0 ==> exported_cells(a, d).contains_key(
                (development_start(a) + 1 + k, 8),
            ) && exported_cells(a, d)[(development_start(a) + 1 + k, 8)] == (
                d[k].duration@,
                false,
                d[k].duration@ == "Total"@,
                 0int,
            ),
{
    lemma_layout_ordered(a, d);
    lemma_plan_len(a, d);
    tasks_fill_rows_in_order(a, d);
    let plan = layout_plan(a, d);
    assert forall|k: int| #![trigger a[k]] 0 <= k < a.len() && a[k].duration@.len() > 0 implies exported_cells(
        a,
        d,
    ).contains_key((k + 1, 8)) && exported_cells(a, d)[(k + 1, 8)] == (
        a[k].duration@,
        false,
        a[k].duration@ == "Total"@,
         0int,
    ) by {
        assert(plan[slot(k + 1, 8)] == task_cell(k + 1, 8, a[k]));
        lemma_written_cell(plan, slot(k + 1, 8));
    }
    assert forall|k: int| #![trigger d[k]] 0 <= k < d.len() && d[k].duration@.len() > 0 implies exported_cells(
        a,
        d,
    ).contains_key((development_start(a) + 1 + k, 8)) && exported_cells(a, d)[(development_start(a) + 1 + k, 8)]
        == (d[k].duration@, false, d[k].duration@ == "Total"@, 0int) by {
        let i = assessment_part(a).len() + slot(k + 1, 8);
        assert(plan[i] == task_cell(development_start(a) + 1 + k, 8, d[k]));
        lemma_written_cell(plan, i);
    }
}

/// A position that the worksheet holds was written by a cell of the plan
/// that leaves something behind.
proof fn lemma_written_from_plan(plan: Seq<CellSpec>, row: int, col: int)
    requires
        apply_plan(no_cells(), plan).contains_key((row, col)),
    ensures
        exists|i: int| 0 <= i < plan.len() && (#[trigger] plan[i]).row == row && plan[i].col == col && is_stored(plan[i]),
    decreases plan.len(),
{
    let rest = plan.drop_last();
    if plan.len() > 0 {
        let last = plan.last();
        if is_stored(last) && last.row == row && last.col == col {
            assert(plan[plan.len() - 1] == last);
        } else {
            lemma_written_from_plan(rest, row, col);
            let i = choose|i: int| 0 <= i < rest.len() && (#[trigger] rest[i]).row == row && rest[i].col == col && is_stored(rest[i]);
            assert(plan[i] == rest[i]);
        }
    }
}

proof fn lemma_rows_of_parts(a: Seq<Task>, d: Seq<Task>)
    requires
        a.len() > 0,
    ensures
        rows_within(section(0, a), 0, a.len() as int + 1),
        forall|i: int| 0 <= i < buffer_rows(a.len() as int + 1).len() ==> !is_stored(#[trigger] buffer_rows(a.len() as int + 1)[i]),
        rows_within(section(development_start(a), d), a.len() as int + 4, a.len() as int + 5 + d.len()),
{
    lemma_section_ordered(0, a);
    lemma_section_ordered(development_start(a), d);
}

/// In the written worksheet, with both lists non-empty, the three rows
/// after the last assessment row hold no cell at all, and the development
/// header fills the row after them with the ten labels, each bold.
pub proof fn gap_written_blank(a: Seq<Task>, d: Seq<Task>)
    requires
        a.len() > 0,
        d.len() > 0,
    ensures
        forall|r: int, c: int| a.len() < r <= a.len() + 3 ==> !#[trigger] exported_cells(a, d).contains_key((r, c)),
        forall|j: int|
            #![trigger exported_cells(a, d).contains_key((a.len() as int + 4, j))]
            #![trigger exported_cells(a, d)[(a.len() as int + 4, j)]]
            0 <= j < 10 ==> exported_cells(a, d).contains_key((a.len() as int + 4, j)) && exported_cells(a, d)[(
                a.len() as int + 4,
                j,
            )] == (header_label(j), false, true, 0int),
{
    let plan = layout_plan(a, d);
    let n = a.len() as int;
    lemma_rows_of_parts(a, d);
    lemma_plan_len(a, d);
    assert forall|r: int, c: int| n < r <= n + 3 implies !#[trigger] exported_cells(a, d).contains_key((r, c)) by {
        if exported_cells(a, d).contains_key((r, c)) {
            lemma_written_from_plan(plan, r, c);
            let i = choose|i: int| 0 <= i < plan.len() && (#[trigger] plan[i]).row == r && plan[i].col == c && is_stored(plan[i]);
            let s1 = section(0, a);
            let s2 = buffer_rows(n + 1);
            if i < s1.len() {
                assert(plan[i] == s1[i]);
            } else if i < s1.len() + s2.len() {
                assert(plan[i] == s2[i - s1.len()]);
            } else {
                assert(plan[i] == section(development_start(a), d)[i - s1.len() - s2.len()]);
            }
        }
    }
    lemma_layout_ordered(a, d);
    three_blank_rows_between_sections(a, d);
    assert forall|j: int| 0 <= j < 10 implies exported_cells(a, d).contains_key((a.len() as int + 4, j)) && exported_cells(
        a,
        d,
    )[(a.len() as int + 4, j)] == (header_label(j), false, true, 0int) by {
        lemma_written_cell(plan, slot(n + 4, j));
    }
}

/// In the written worksheet, with no assessment tasks and some development
/// tasks, the development header fills row 0 with the ten labels, each bold.
pub proof fn development_header_written_at_top(a: Seq<Task>, d: Seq<Task>)
    requires
        a.len() == 0,
        d.len() > 0,
    ensures
        forall|j: int|
            #![trigger exported_cells(a, d).contains_key((0, j))]
            #![trigger exported_cells(a, d)[(0, j)]]
            0 <= j < 10 ==> exported_cells(a, d).contains_key((0, j)) && exported_cells(a, d)[(0, j)] == (header_label(j), false, true, 0int),
{
    lemma_layout_ordered(a, d);
    lemma_plan_len(a, d);
    development_alone_starts_at_top(a, d);
    assert forall|j: int| 0 <= j < 10 implies exported_cells(a, d).contains_key((0, j)) && exported_cells(a, d)[(
        0int,
        j,
    )] == (header_label(j), false, true, 0int) by {
        lemma_written_cell(layout_plan(a, d), slot(0, j));
    }
}

/// In the written worksheet, with no development tasks, every cell lies in
/// the assessment header or the assessment rows: nothing below them.
pub proof fn nothing_written_below_assessment(a: Seq<Task>, d: Seq<Task>)
    requires
        d.len() == 0,
    ensures
        forall|r: int, c: int| #[trigger] exported_cells(a, d).contains_key((r, c)) ==> 0 <= r <= a.len(),
{
    let plan = layout_plan(a, d);
    let n = a.len() as int;
    no_development_section_when_empty(a, d);
    assert forall|r: int, c: int| #[trigger] exported_cells(a, d).contains_key((r, c)) implies 0 <= r <= n by {
        lemma_written_from_plan(plan, r, c);
        let i = choose|i: int| 0 <= i < plan.len() && (#[trigger] plan[i]).row == r && plan[i].col == c && is_stored(plan[i]);
        lemma_rows_of_parts(a, d);
        let s1 = section(0, a);
        if i < s1.len() {
            assert(plan[i] == s1[i]);
        } else {
            assert(plan[i] == buffer_rows(n + 1)[i - s1.len()]);
        }
    }
}

/// In the written worksheet, every cell of a task's row that leaves
/// something behind holds that column's field of the task, in column order:
/// the eight texts, the duration (bold exactly when it is "Total") and the
/// hours.
pub proof fn task_rows_written(a: Seq<Task>, d: Seq<Task>)
    ensures
        forall|k: int, j: int|
            #![trigger task_cell(k + 1, j, a[k])]
            0 <= k < a.len() && 0 <= j < 10 && is_stored(task_cell(k + 1, j, a[k])) ==> exported_cells(
                a,
                d,
            ).contains_key((k + 1, j)) && exported_cells(a, d)[(k + 1, j)] == stored_value(task_cell(k + 1, j, a[k])),
        forall|k: int, j: int|
            #![trigger task_cell(development_start(a) + 1 + k, j, d[k])]
            0 <= k < d.len() && 0 <= j < 10 && is_stored(task_cell(development_start(a) + 1 + k, j, d[k]))
                ==> exported_cells(a, d).contains_key((development_start(a) + 1 + k, j)) && exported_cells(a, d)[(
                development_start(a) + 1 + k,
                j,
            )] == stored_value(task_cell(development_start(a) + 1 + k, j, d[k])),
{
    lemma_layout_ordered(a, d);
    lemma_plan_len(a, d);
    tasks_fill_rows_in_order(a, d);
    let plan = layout_plan(a, d);
    assert forall|k: int, j: int|
        #![trigger task_cell(k + 1, j, a[k])]
        0 <= k < a.len() && 0 <= j < 10 && is_stored(task_cell(k + 1, j, a[k])) implies exported_cells(
            a,
            d,
        ).contains_key((k + 1, j)) && exported_cells(a, d)[(k + 1, j)] == stored_value(task_cell(k + 1, j, a[k])) by {
        assert(plan[slot(k + 1, j)] == task_cell(k + 1, j, a[k]));
        lemma_written_cell(plan, slot(k + 1, j));
    }
    assert forall|k: int, j: int|
        #![trigger task_cell(development_start(a) + 1 + k, j, d[k])]
        0 <= k < d.len() && 0 <= j < 10 && is_stored(task_cell(development_start(a) + 1 + k, j, d[k]))
            implies exported_cells(a, d).contains_key((development_start(a) + 1 + k, j)) && exported_cells(a, d)[(
            development_start(a) + 1 + k,
            j,
        )] == stored_value(task_cell(development_start(a) + 1 + k, j, d[k])) by {
        let i = assessment_part(a).len() + slot(k + 1, j);
        assert(plan[i] == task_cell(development_start(a) + 1 + k, j, d[k]));
        lemma_written_cell(plan, i);
    }
}

/// A bold cell is a header cell, on row 0 or the development header row, or
/// a duration cell that holds "Total".
pub open spec fn bold_allowed(c: CellSpec, dev_header: int) -> bool {
    c.bold ==> ((c.row == 0 || c.row == dev_header) && c.content == CellContent::Text(header_label(c.col))) || (c.col
        == 8 && c.content == CellContent::Text("Total"@))
}

pub open spec fn all_bold_allowed(s: Seq<CellSpec>, dev_header: int) -> bool {
    forall|i: int| 0 <= i < s.len() ==> bold_allowed(#[trigger] s[i], dev_header)
}

proof fn lemma_bold_allowed_concat(s1: Seq<CellSpec>, s2: Seq<CellSpec>, h: int)
    requires
        all_bold_allowed(s1, h),
        all_bold_allowed(s2, h),
    ensures
        all_bold_allowed(s1 + s2, h),
{
    assert forall|i: int| 0 <= i < (s1 + s2).len() implies bold_allowed(#[trigger] (s1 + s2)[i], h) by {
        if i < s1.len() {
            assert(bold_allowed(s1[i], h));
        } else {
            assert(bold_allowed(s2[i - s1.len()], h));
        }
    }
}

proof fn lemma_task_rows_bold(start: int, ts: Seq<Task>, h: int)
    ensures
        all_bold_allowed(task_rows(start, ts), h),
    decreases ts.len(),
{
    if ts.len() > 0 {
        lemma_task_rows_bold(start, ts.drop_last(), h);
        let row = task_row(start + ts.len() - 1, ts.last());
        assert(all_bold_allowed(row, h));
        lemma_bold_allowed_concat(task_rows(start, ts.drop_last()), row, h);
    }
}

proof fn lemma_plan_bold(a: Seq<Task>, d: Seq<Task>)
    ensures
        all_bold_allowed(layout_plan(a, d), development_start(a)),
{
    let h = development_start(a);
    let n = a.len() as int;
    lemma_task_rows_bold(1, a, h);
    lemma_task_rows_bold(h + 1, d, h);
    assert(all_bold_allowed(header_row(0), h));
    assert(all_bold_allowed(header_row(h), h));
    assert(all_bold_allowed(blank_row(n + 1), h));
    assert(all_bold_allowed(blank_row(n + 2), h));
    assert(all_bold_allowed(blank_row(n + 3), h));
    lemma_bold_allowed_concat(header_row(0), task_rows(1, a), h);
    lemma_bold_allowed_concat(header_row(h), task_rows(h + 1, d), h);
    lemma_bold_allowed_concat(blank_row(n + 1), blank_row(n + 2), h);
    lemma_bold_allowed_concat(blank_row(n + 1) + blank_row(n + 2), blank_row(n + 3), h);
    lemma_bold_allowed_concat(section(0, a), buffer_rows(n + 1), h);
    assert(all_bold_allowed(assessment_part(a), h));
    assert(all_bold_allowed(Seq::<CellSpec>::empty(), h));
    if d.len() > 0 {
        lemma_bold_allowed_concat(assessment_part(a), section(h, d), h);
    } else {
        assert(layout_plan(a, d) =~= assessment_part(a));
    }
}

/// In the written worksheet, the only bold cells are header cells, on row 0
/// or the development header row, and duration cells that hold "Total".
pub proof fn only_headers_and_totals_written_bold(a: Seq<Task>, d: Seq<Task>)
    ensures
        forall|r: int, c: int|
            #![trigger exported_cells(a, d)[(r, c)]]
            exported_cells(a, d).contains_key((r, c)) && exported_cells(a, d)[(r, c)].2 ==> ((r == 0 || r
                == development_start(a)) && exported_cells(a, d)[(r, c)].0 == header_label(c)) || (c == 8
                && exported_cells(a, d)[(r, c)].0 == "Total"@),
{
    let plan = layout_plan(a, d);
    lemma_layout_ordered(a, d);
    lemma_plan_bold(a, d);
    assert forall|r: int, c: int|
        #![trigger exported_cells(a, d)[(r, c)]]
        exported_cells(a, d).contains_key((r, c)) && exported_cells(a, d)[(r, c)].2 implies ((r == 0 || r
            == development_start(a)) && exported_cells(a, d)[(r, c)].0 == header_label(c)) || (c == 8
            && exported_cells(a, d)[(r, c)].0 == "Total"@) by {
        lemma_written_from_plan(plan, r, c);
        let i = choose|i: int| 0 <= i < plan.len() && (#[trigger] plan[i]).row == r && plan[i].col == c && is_stored(plan[i]);
        lemma_written_cell(plan, i);
        assert(bold_allowed(plan[i], development_start(a)));
    }
}

} // verus!
