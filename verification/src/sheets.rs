//! The sheets provider: one row for each sheet of a workbook, with its name
//! and whether the workbook shows it. The cursor takes the sheets as the
//! reader lists them once the workbook is decoded.

use vstd::prelude::*;
use crate::cursor::{RowSet, RowSetView};
use crate::plan::{negotiate, negotiated, BestIndexError, Constraint, ConstraintUsage, IndexPlan};
use crate::plan::{is_usable_equality, lemma_plan_needs_equalities};
use crate::plan::{ESTIMATED_COST, ESTIMATED_ROWS, PLAN_NUMBER};
use crate::value::{SqlValue, SqlView};
use calamine::Sheet;
use crate::workbook::{list_sheets, metadata_of_all, SheetMetadata};

verus! {

/// The columns of the relation, in the order of its schema.
#[derive(Debug, Clone, Copy, PartialEq, Eq)]
pub enum Columns {
    Name,
    Visible,
    /// Hidden: the bytes of the workbook, given by the query.
    Workbook,
}

/// The number of the hidden column that takes the workbook.
pub const WORKBOOK_COLUMN: i32 = 2;

/// The column with the number `index`, where there is one.
pub fn column(index: i32) -> (result: Option<Columns>)
    ensures
        result == match index {
            0 => Some(Columns::Name),
            1 => Some(Columns::Visible),
            2 => Some(Columns::Workbook),
            _ => None,
        },
{
    match index {
        0 => Some(Columns::Name),
        1 => Some(Columns::Visible),
        2 => Some(Columns::Workbook),
        _ => None,
    }
}

/// The hidden columns, in the order in which `filter` takes their values.
pub open spec fn hidden_columns() -> Seq<i32> {
    seq![WORKBOOK_COLUMN]
}

/// The value of a column of a row; none for the hidden column, which only
/// takes values, and for a number that is no column.
pub open spec fn column_value(sheet: SheetMetadata, index: i32) -> Option<SqlView> {
    match index {
        0 => Some(SqlView::Text(sheet.name@)),
        1 => Some(SqlView::Bool(!sheet.hidden)),
        _ => None,
    }
}

/// A plan of the sheets provider binds the workbook by a usable equality.
pub proof fn lemma_plan_binds_workbook(constraints: Seq<Constraint>)
    requires
        negotiated(constraints, hidden_columns()) is Ok,
    ensures
        exists|i: int|
            0 <= i < constraints.len() && (#[trigger] constraints[i]).column == WORKBOOK_COLUMN
                && is_usable_equality(constraints[i]),
{
    lemma_plan_needs_equalities(constraints, hidden_columns());
    assert(hidden_columns()[0] == WORKBOOK_COLUMN);
}

/// The sheets provider.
pub struct SheetsTable {}

impl SheetsTable {
    /// Declares the relation and gives the provider. The same on every call.
    pub fn connect() -> (result: (String, SheetsTable))
        ensures
            result.0@ == "CREATE TABLE x(name, visible, workbook hidden)"@,
    {
        ("CREATE TABLE x(name, visible, workbook hidden)".to_owned(), SheetsTable {  })
    }

    /// Releases the provider, which holds nothing.
    pub fn destroy(&self) {
    }

    /// Negotiates the plan of a query: the workbook must be bound by a usable
    /// equality, whose value `filter` takes first.
    pub fn best_index(&self, constraints: &Vec<Constraint>) -> (result: Result<
        IndexPlan,
        BestIndexError,
    >)
        ensures
            match result {
                Ok(plan) => {
                    &&& negotiated(constraints@, hidden_columns()) == Ok::<
                        Seq<Option<ConstraintUsage>>,
                        BestIndexError,
                    >(plan.usages@)
                    &&& plan.estimated_cost == ESTIMATED_COST
                    &&& plan.estimated_rows == ESTIMATED_ROWS
                    &&& plan.idx_num == PLAN_NUMBER
                },
                Err(e) => negotiated(constraints@, hidden_columns()) == Err::<
                    Seq<Option<ConstraintUsage>>,
                    BestIndexError,
                >(e),
            },
    {
        let hidden: [i32; 1] = [WORKBOOK_COLUMN];
        proof {
            assert(hidden@ =~= hidden_columns());
        }
        negotiate(constraints, hidden.as_slice())
    }

    /// Opens a cursor at row 0 with nothing to read.
    pub fn open(&mut self) -> (cursor: SheetsCursor)
        ensures
            cursor@ == (RowSetView::<SheetMetadata> { rowid: 0, rows: None }),
    {
        SheetsCursor::new()
    }
}

/// A cursor over the sheets of one workbook.
pub struct SheetsCursor {
    set: RowSet<SheetMetadata>,
}

impl View for SheetsCursor {
    type V = RowSetView<SheetMetadata>;

    closed spec fn view(&self) -> RowSetView<SheetMetadata> {
        self.set@
    }
}

impl SheetsCursor {
    /// A cursor at row 0 with nothing to read.
    pub fn new() -> (cursor: SheetsCursor)
        ensures
            cursor@ == (RowSetView::<SheetMetadata> { rowid: 0, rows: None }),
    {
        SheetsCursor { set: RowSet::new() }
    }

    /// Builds one row for each sheet of a workbook, in the order given,
    /// which is the order of the workbook.
    pub fn filter(&mut self, sheets: &[Sheet])
        ensures
            final(self)@ == (RowSetView {
                rowid: old(self)@.rowid,
                rows: Some(metadata_of_all(sheets@)),
            }),
    {
        self.set.load(list_sheets(sheets));
    }

    /// Steps to the next row identifier, whether or not a row is there. The
    /// row identifier must not be the largest of 64 bits.
    pub fn next(&mut self)
        requires
            old(self)@.rowid < i64::MAX,
        ensures
            final(self)@ == old(self)@.step(),
    {
        self.set.next();
    }

    /// Whether the row identifier has passed the last row.
    pub fn eof(&self) -> (end: bool)
        ensures
            end == self@.at_end(),
    {
        self.set.eof()
    }

    /// The value of the column `i` of the current row; none where there is
    /// no current row, for the hidden column, and for a number that is no
    /// column.
    pub fn column(&self, i: i32) -> (result: Option<SqlValue>)
        ensures
            match self@.current() {
                Some(sheet) => match result {
                    Some(v) => column_value(sheet, i) == Some(v@),
                    None => column_value(sheet, i) is None,
                },
                None => result is None,
            },
    {
        let sheet = match self.set.current() {
            Some(sheet) => sheet,
            None => {
                return None;
            },
        };
        match column(i) {
            Some(Columns::Name) => Some(SqlValue::Text(sheet.name.clone())),
            Some(Columns::Visible) => Some(SqlValue::Bool(!sheet.hidden)),
            Some(Columns::Workbook) => None,
            None => None,
        }
    }

    /// The row identifier: 0 at first, one more after each `next`.
    pub fn rowid(&self) -> (id: i64)
        ensures
            id == self@.rowid,
    {
        self.set.rowid()
    }
}

} // verus!
