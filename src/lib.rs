//! Lays out assessment and development task lists as a spreadsheet and
//! writes them to an xlsx workbook.

pub mod task;
pub mod layout;
pub mod xlsx;
pub mod export;
pub mod laws;
