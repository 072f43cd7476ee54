//! Cell values and the kinds of result that the SQL engine takes, with the
//! bridge from the one to the other.
//!
//! Floating-point numbers are carried as the 64 bits of their IEEE 754
//! encoding: nothing here computes with them, and the bits lose nothing.

use vstd::prelude::*;
use calamine::CellErrorType;
use crate::workbook::{error_text, error_token};

verus! {

/// What a cell holds.
#[derive(Debug, Clone, PartialEq)]
pub enum CellValue {
    /// A signed integer.
    Int(i64),
    /// A double, by its bits.
    Float(u64),
    /// A text.
    String(String),
    /// A truth value.
    Bool(bool),
    /// A date or time as a serial number: a double, by its bits.
    DateTime(u64),
    /// A duration as a number: a double, by its bits.
    Duration(u64),
    /// A date or time written in ISO 8601.
    DateTimeIso(String),
    /// A duration written in ISO 8601.
    DurationIso(String),
    /// The kind of error that the cell shows.
    Error(CellErrorType),
    /// Nothing.
    Empty,
}

/// A reference to one row of a rows cursor. It is good while that row is the
/// cursor's current row, and for that cursor only.
#[derive(Debug, Clone, Copy, PartialEq, Eq)]
pub struct RowHandle {
    pub rowid: i64,
}

/// A result in one of the kinds that the engine takes.
#[derive(Debug, Clone, PartialEq)]
pub enum SqlValue {
    Null,
    Integer(i64),
    /// A double, by its bits.
    Double(u64),
    Text(String),
    Bool(bool),
    /// A row, for the accessor to read.
    Pointer(RowHandle),
}

/// A result with its text as a sequence of characters.
pub enum SqlView {
    Null,
    Integer(i64),
    Double(u64),
    Text(Seq<char>),
    Bool(bool),
    Pointer(RowHandle),
}

impl View for SqlValue {
    type V = SqlView;

    open spec fn view(&self) -> SqlView {
        match self {
            SqlValue::Null => SqlView::Null,
            SqlValue::Integer(i) => SqlView::Integer(*i),
            SqlValue::Double(bits) => SqlView::Double(*bits),
            SqlValue::Text(text) => SqlView::Text(text@),
            SqlValue::Bool(b) => SqlView::Bool(*b),
            SqlValue::Pointer(handle) => SqlView::Pointer(*handle),
        }
    }
}

/// The result that stands for a cell value. Numbers keep their kind and
/// their bits, serials of dates and durations stay doubles, every text stays
/// a text, an error becomes its token, and an empty cell is null.
pub open spec fn bridge(value: CellValue) -> SqlView {
    match value {
        CellValue::Int(i) => SqlView::Integer(i),
        CellValue::Float(bits) => SqlView::Double(bits),
        CellValue::String(text) => SqlView::Text(text@),
        CellValue::Bool(b) => SqlView::Bool(b),
        CellValue::DateTime(bits) => SqlView::Double(bits),
        CellValue::Duration(bits) => SqlView::Double(bits),
        CellValue::DateTimeIso(text) => SqlView::Text(text@),
        CellValue::DurationIso(text) => SqlView::Text(text@),
        CellValue::Error(e) => SqlView::Text(error_token(e)),
        CellValue::Empty => SqlView::Null,
    }
}

/// The bridge has one result for every cell value, never a row handle, and
/// null for the empty cell alone.
pub proof fn lemma_bridge_is_total(value: CellValue)
    ensures
        bridge(value) is Integer <==> value is Int,
        bridge(value) is Double <==> value is Float || value is DateTime || value is Duration,
        bridge(value) is Text <==> value is String || value is DateTimeIso || value
            is DurationIso || value is Error,
        bridge(value) is Bool <==> value is Bool,
        bridge(value) is Null <==> value is Empty,
        !(bridge(value) is Pointer),
{
}

impl CellValue {
    /// A copy of the value.
    pub fn copy(&self) -> (copy: CellValue)
        ensures
            copy == *self,
    {
        match self {
            CellValue::Int(value) => CellValue::Int(*value),
            CellValue::Float(value) => CellValue::Float(*value),
            CellValue::String(value) => CellValue::String(value.clone()),
            CellValue::Bool(value) => CellValue::Bool(*value),
            CellValue::DateTime(value) => CellValue::DateTime(*value),
            CellValue::Duration(value) => CellValue::Duration(*value),
            CellValue::DateTimeIso(value) => CellValue::DateTimeIso(value.clone()),
            CellValue::DurationIso(value) => CellValue::DurationIso(value.clone()),
            CellValue::Error(value) => CellValue::Error(value.clone()),
            CellValue::Empty => CellValue::Empty,
        }
    }
}

/// The result that stands for a cell value.
pub fn result_xl_data(data: &CellValue) -> (result: SqlValue)
    ensures
        result@ == bridge(*data),
{
    match data {
        CellValue::Int(value) => SqlValue::Integer(*value),
        CellValue::Float(value) => SqlValue::Double(*value),
        CellValue::String(value) => SqlValue::Text(value.clone()),
        CellValue::Bool(value) => SqlValue::Bool(*value),
        CellValue::DateTime(value) => SqlValue::Double(*value),
        CellValue::Duration(value) => SqlValue::Double(*value),
        CellValue::DateTimeIso(value) => SqlValue::Text(value.clone()),
        CellValue::DurationIso(value) => SqlValue::Text(value.clone()),
        CellValue::Error(value) => SqlValue::Text(error_text(value)),
        CellValue::Empty => SqlValue::Null,
    }
}

} // verus!
