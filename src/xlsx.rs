use vstd::prelude::*;
use rust_xlsxwriter::{Format, Workbook, Worksheet, XlsxError};

verus! {

#[verifier::external_type_specification]
#[verifier::external_body]
pub struct ExWorkbook(Workbook);

#[verifier::external_type_specification]
#[verifier::external_body]
pub struct ExWorksheet(Worksheet);

#[verifier::external_type_specification]
#[verifier::external_body]
pub struct ExXlsxError(XlsxError);

/// First row index that a worksheet refuses.
pub const ROW_LIMIT: u32 = 1048576;

/// First column index that a worksheet refuses.
pub const COLUMN_LIMIT: u16 = 16384;

/// Longest text, in characters, that a cell can hold.
pub const TEXT_LIMIT: usize = 32767;

/// The cells that a worksheet holds, by (row, column): the text (empty for a
/// number), whether the cell is numeric, whether it was written bold, and
/// the number (zero for a text).
pub uninterp spec fn sheet_cells(ws: Worksheet) -> Map<(int, int), (Seq<char>, bool, bool, int)>;

/// The worksheets of a workbook, in order: each one's name and cells.
pub uninterp spec fn workbook_sheets(wb: Workbook) -> Seq<(Seq<char>, Map<(int, int), (Seq<char>, bool, bool, int)>)>;

/// The whole number that an i64 becomes once stored as a double.
pub uninterp spec fn stored_double(n: int) -> int;

/// The name that a worksheet was given.
pub uninterp spec fn sheet_name(ws: Worksheet) -> Seq<char>;

/// The cells of a worksheet that holds none.
pub open spec fn no_cells() -> Map<(int, int), (Seq<char>, bool, bool, int)> {
    Map::empty()
}

/// The worksheets of a workbook that holds none.
pub open spec fn no_sheets() -> Seq<(Seq<char>, Map<(int, int), (Seq<char>, bool, bool, int)>)> {
    Seq::empty()
}

/// Largest magnitude up to which every integer is a double exactly.
pub open spec fn exact_in_double(n: int) -> bool {
    -9007199254740992 <= n <= 9007199254740992
}

/// The number that a numeric cell holds after `n` is written to it.
pub open spec fn cell_number(n: int) -> int {
    if exact_in_double(n) {
        n
    } else {
        stored_double(n)
    }
}

/// The text part of a numeric cell.
pub open spec fn no_text() -> Seq<char> {
    Seq::empty()
}

pub open spec fn in_bounds(row: int, col: int) -> bool {
    0 <= row < ROW_LIMIT && 0 <= col < COLUMN_LIMIT
}

pub open spec fn forbidden_in_sheet_name(c: char) -> bool {
    c == '*' || c == '?' || c == ':' || c == '[' || c == ']' || c == '\\' || c == '/'
}

/// A name that a worksheet accepts: 1 to 31 characters, none of `*?:[]\/`,
/// and no apostrophe at either end.
pub open spec fn valid_sheet_name(s: Seq<char>) -> bool {
    &&& 1 <= s.len() <= 31
    &&& forall|i: int| 0 <= i < s.len() ==> !forbidden_in_sheet_name(#[trigger] s[i])
    &&& s[0] != '\''
    &&& s[s.len() - 1] != '\''
}

/// Relies on Workbook::new: a new workbook holds no worksheet.
pub assume_specification[ Workbook::new ]() -> (r: Workbook)
    ensures
        workbook_sheets(r) == no_sheets(),
;

/// Relies on Workbook::push_worksheet: a named worksheet is appended as it is.
pub assume_specification[ Workbook::push_worksheet ](wb: &mut Workbook, worksheet: Worksheet)
    ensures
        sheet_name(worksheet).len() > 0 ==> workbook_sheets(*final(wb)) == workbook_sheets(*old(wb)).push(
            (sheet_name(worksheet), sheet_cells(worksheet)),
        ),
;

/// Relies on Worksheet::new: a new worksheet holds no cells.
#[verifier::external_body]
pub(crate) fn new_worksheet() -> (r: Worksheet)
    ensures
        sheet_cells(r) == no_cells(),
{
    Worksheet::new()
}

/// Relies on Worksheet::set_name: it stores a valid name, refuses any other,
/// and leaves the cells alone.
#[verifier::external_body]
pub(crate) fn rename_sheet(ws: &mut Worksheet, name: &str) -> (r: Result<(), XlsxError>)
    ensures
        sheet_cells(*final(ws)) == sheet_cells(*old(ws)),
        r is Ok <==> valid_sheet_name(name@),
        r is Ok ==> sheet_name(*final(ws)) == name@,
{
    match ws.set_name(name) {
        Ok(_) => Ok(()),
        Err(e) => Err(e),
    }
}

/// Relies on Worksheet::write_string: an empty text is ignored; any other
/// within the sheet's bounds and the text limit is stored with the default
/// format, so not bold (this library gives no row or column a format).
#[verifier::external_body]
pub(crate) fn write_text(ws: &mut Worksheet, row: u32, col: u16, s: &str) -> (r: Result<(), XlsxError>)
    ensures
        sheet_name(*final(ws)) == sheet_name(*old(ws)),
        r is Ok <==> (s@.len() == 0 || (in_bounds(row as int, col as int) && s@.len() <= TEXT_LIMIT)),
        r is Ok ==> sheet_cells(*final(ws)) == if s@.len() == 0 {
            sheet_cells(*old(ws))
        } else {
            sheet_cells(*old(ws)).insert((row as int, col as int), (s@, false, false, 0))
        },
        r is Err ==> sheet_cells(*final(ws)) == sheet_cells(*old(ws)),
{
    match ws.write_string(row, col, s) {
        Ok(_) => Ok(()),
        Err(e) => Err(e),
    }
}

/// Relies on Worksheet::write_string_with_format, with the default format
/// made bold: a text within the sheet's bounds and the text limit is stored
/// bold (an empty one as a bold blank cell).
#[verifier::external_body]
pub(crate) fn write_bold_text(ws: &mut Worksheet, row: u32, col: u16, s: &str) -> (r: Result<(), XlsxError>)
    ensures
        sheet_name(*final(ws)) == sheet_name(*old(ws)),
        r is Ok <==> (in_bounds(row as int, col as int) && s@.len() <= TEXT_LIMIT),
        r is Ok ==> sheet_cells(*final(ws)) == sheet_cells(*old(ws)).insert(
            (row as int, col as int),
            (s@, false, true, 0),
        ),
        r is Err ==> sheet_cells(*final(ws)) == sheet_cells(*old(ws)),
{
    match ws.write_string_with_format(row, col, s, &Format::new().set_bold()) {
        Ok(_) => Ok(()),
        Err(e) => Err(e),
    }
}

/// Relies on Worksheet::write with an i64, which stores `n as f64` as a
/// numeric cell within the sheet's bounds: `n` itself where a double holds
/// it exactly.
#[verifier::external_body]
pub(crate) fn write_integer(ws: &mut Worksheet, row: u32, col: u16, n: i64) -> (r: Result<(), XlsxError>)
    ensures
        sheet_name(*final(ws)) == sheet_name(*old(ws)),
        r is Ok <==> in_bounds(row as int, col as int),
        r is Ok ==> sheet_cells(*final(ws)) == sheet_cells(*old(ws)).insert(
            (row as int, col as int),
            (
                no_text(),
                true,
                false,
                if exact_in_double(n as int) {
                    n as int
                } else {
                    stored_double(n as int)
                },
            ),
        ),
        r is Err ==> sheet_cells(*final(ws)) == sheet_cells(*old(ws)),
{
    match ws.write(row, col, n) {
        Ok(_) => Ok(()),
        Err(e) => Err(e),
    }
}

/// Relies on Workbook::save, which writes the workbook to a file at `path`.
#[verifier::external_body]
pub(crate) fn save_workbook(wb: &mut Workbook, path: &str) -> (r: Result<(), XlsxError>) {
    wb.save(path)
}

/// Relies on XlsxError's Display, for the error's message.
#[verifier::external_body]
pub(crate) fn error_message(e: &XlsxError) -> (r: String) {
    e.to_string()
}

} // verus!
