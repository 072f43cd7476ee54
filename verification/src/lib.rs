//! Spreadsheet workbooks as relations for a SQL engine: the reference parser,
//! the value bridge, and the three table providers with their cursors.
//!
//! The engine's side is kept out, and so is the decoding of bytes: a provider
//! takes constraints, texts, and the sheets and cells of a decoded workbook,
//! and gives plans and results as plain values, for a binding layer to hand
//! on.

use vstd::prelude::*;
use crate::parser::{column_index, column_name_to_idx};
use crate::rows::LookupError;
use crate::value::{bridge, result_xl_data, CellValue, SqlValue, SqlView};

pub mod cells;
pub mod cursor;
pub mod parser;
pub mod plan;
pub mod registry;
pub mod rows;
pub mod sheets;
pub mod unicode;
pub mod value;
pub mod workbook;

verus! {

/// Where to look in a row: at a column by its index from 0, or by its name
/// in letters.
#[derive(Debug, Clone, PartialEq, Eq)]
pub enum ColumnLocator {
    Index(i64),
    Name(String),
}

/// The index that a locator stands for. A name stands for its column index.
pub open spec fn located(locator: ColumnLocator) -> Result<int, LookupError> {
    match locator {
        ColumnLocator::Index(index) => Ok(index as int),
        ColumnLocator::Name(name) => match column_index(name@) {
            Some(index) => Ok(index as int),
            None => Err(LookupError::Locator),
        },
    }
}

/// What the accessor gives for a row and a locator: the result that stands
/// for the cell at the index, where the locator stands for one within the
/// row.
pub open spec fn accessed(row: Seq<CellValue>, locator: ColumnLocator) -> Result<
    SqlView,
    LookupError,
> {
    match located(locator) {
        Err(e) => Err(e),
        Ok(index) => if 0 <= index < row.len() {
            Ok(bridge(row[index]))
        } else {
            Err(LookupError::OutOfRange)
        },
    }
}

/// The accessor: the result that stands for the cell of `row` at `locator`.
///
/// Fails with `Locator` where the locator is a text that names no column,
/// and with `OutOfRange` where the row has no cell at the index.
pub fn xl_at(row: &Vec<CellValue>, locator: &ColumnLocator) -> (result: Result<
    SqlValue,
    LookupError,
>)
    ensures
        match result {
            Ok(v) => accessed(row@, *locator) == Ok::<SqlView, LookupError>(v@),
            Err(e) => accessed(row@, *locator) == Err::<SqlView, LookupError>(e),
        },
{
    let index: u64 = match locator {
        ColumnLocator::Index(index) => {
            if *index < 0 {
                return Err(LookupError::OutOfRange);
            }
            *index as u64
        },
        ColumnLocator::Name(name) => match column_name_to_idx(name.as_str()) {
            Ok(index) => index as u64,
            Err(_) => {
                return Err(LookupError::Locator);
            },
        },
    };
    if index < row.len() as u64 {
        Ok(result_xl_data(&row[index as usize]))
    } else {
        Err(LookupError::OutOfRange)
    }
}

/// A locator by name reads what the locator by that name's index reads.
pub proof fn lemma_accessed_by_name(row: Seq<CellValue>, name: String)
    requires
        column_index(name@) is Some,
    ensures
        accessed(row, ColumnLocator::Name(name)) == accessed(
            row,
            ColumnLocator::Index(column_index(name@).unwrap() as i64),
        ),
{
}

/// The version of the library, with `v` before it.
pub fn xl_version() -> (version: String)
    ensures
        version@ == "v0.1.0"@,
{
    "v0.1.0".to_owned()
}

} // verus!
