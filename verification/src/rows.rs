//! The rows provider: one row for each row of the first sheet of a workbook,
//! with its number in the sheet and a handle to its cells. The cursor takes
//! the rows of the sheet as they are read once the workbook is decoded.

use vstd::prelude::*;
use crate::cursor::{RowSet, RowSetView};
use crate::plan::{negotiate, negotiated, BestIndexError, Constraint, ConstraintUsage, IndexPlan};
use crate::plan::{is_usable_equality, lemma_plan_needs_equalities};
use crate::plan::{ESTIMATED_COST, ESTIMATED_ROWS, PLAN_NUMBER};
use crate::value::{bridge, CellValue, RowHandle, SqlValue, SqlView};
use crate::{accessed, xl_at, ColumnLocator};
use crate::workbook::SheetRows;

verus! {

/// The columns of the relation, in the order of its schema.
#[derive(Debug, Clone, Copy, PartialEq, Eq)]
pub enum Columns {
    RowNumber,
    Row,
    /// Hidden: the bytes of the workbook, given by the query.
    Workbook,
}

/// The number of the hidden column that takes the workbook.
pub const WORKBOOK_COLUMN: i32 = 2;

/// The column with the number `index`, where there is one.
pub fn column(index: i32) -> (result: Option<Columns>)
    ensures
        result == match index {
            0 => Some(Columns::RowNumber),
            1 => Some(Columns::Row),
            2 => Some(Columns::Workbook),
            _ => None,
        },
{
    match index {
        0 => Some(Columns::RowNumber),
        1 => Some(Columns::Row),
        2 => Some(Columns::Workbook),
        _ => None,
    }
}

/// The hidden columns, in the order in which `filter` takes their values.
pub open spec fn hidden_columns() -> Seq<i32> {
    seq![WORKBOOK_COLUMN]
}

/// The scalar functions that the provider overloads for its relation.
#[derive(Debug, Clone, Copy, PartialEq, Eq)]
pub enum ScalarFunction {
    /// The accessor of a row's cells.
    XlAt,
}

/// The name of the operator that reads a cell of a row: `->>`.
pub open spec fn accessor_operator() -> Seq<char> {
    seq!['-', '>', '>']
}

/// Why the accessor gives no value.
#[derive(Debug, Clone, Copy, PartialEq, Eq)]
pub enum LookupError {
    /// The handle is not that of the cursor's current row.
    Handle,
    /// The locator is a text that names no column.
    Locator,
    /// The row has no cell at the column.
    OutOfRange,
}

/// Why `filter` takes no rows.
#[derive(Debug, Clone, Copy, PartialEq, Eq)]
pub enum FilterError {
    /// The sheet starts so far down, or has so many rows, that the numbers of
    /// its rows do not fit in 64 bits.
    RowNumbers,
}

/// The state of a rows cursor: the row identifier and the rows, and the top
/// left cell of the sheet as row and column from 0, where the sheet has one.
pub struct RowsView {
    pub set: RowSetView<Vec<CellValue>>,
    pub start: Option<(u32, u32)>,
}

/// The number in the sheet, from 1, of the row with the identifier `rowid`
/// of a sheet whose first row with cells is `start_row`, from 0.
pub open spec fn row_number(start_row: u32, rowid: nat) -> int {
    start_row + 1 + rowid
}

/// Whether the numbers of all the rows fit in 64 bits: the row at which the
/// sheet starts and the count of its rows together do.
pub open spec fn numbers_fit(start: Option<(u32, u32)>, rows: nat) -> bool {
    start matches Some(s) ==> s.0 + rows <= i64::MAX
}

/// The value of a column of the current row. The number of the row counts
/// from where the sheet starts; a sheet without a start gives none. The row
/// itself is a handle. The hidden column, which only takes values, and a
/// number that is no column have no value.
pub open spec fn column_value(state: RowsView, index: i32) -> Option<SqlView> {
    match index {
        0 => match state.start {
            Some(start) => Some(SqlView::Integer(row_number(start.0, state.set.rowid) as i64)),
            None => None,
        },
        1 => Some(SqlView::Pointer(RowHandle { rowid: state.set.rowid as i64 })),
        _ => None,
    }
}

/// A plan of the rows provider binds the workbook by a usable equality.
pub proof fn lemma_plan_binds_workbook(constraints: Seq<Constraint>)
    requires
        negotiated(constraints, hidden_columns()) is Ok,
    ensures
        exists|i: int|
            0 <= i < constraints.len() && (#[trigger] constraints[i]).column == WORKBOOK_COLUMN
                && is_usable_equality(constraints[i]),
{
    lemma_plan_needs_equalities(constraints, hidden_columns());
    assert(hidden_columns()[0] == WORKBOOK_COLUMN);
}

/// The rows provider.
pub struct RowsTable {}

impl RowsTable {
    /// Declares the relation and gives the provider. The same on every call.
    pub fn connect() -> (result: (String, RowsTable))
        ensures
            result.0@ == "CREATE TABLE x(row_number, row, workbook hidden)"@,
    {
        ("CREATE TABLE x(row_number, row, workbook hidden)".to_owned(), RowsTable {  })
    }

    /// Releases the provider, which holds nothing.
    pub fn destroy(&self) {
    }

    /// Negotiates the plan of a query: the workbook must be bound by a usable
    /// equality, whose value `filter` takes first.
    pub fn best_index(&self, constraints: &Vec<Constraint>) -> (result: Result<
        IndexPlan,
        BestIndexError,
    >)
        ensures
            match result {
                Ok(plan) => {
                    &&& negotiated(constraints@, hidden_columns()) == Ok::<
                        Seq<Option<ConstraintUsage>>,
                        BestIndexError,
                    >(plan.usages@)
                    &&& plan.estimated_cost == ESTIMATED_COST
                    &&& plan.estimated_rows == ESTIMATED_ROWS
                    &&& plan.idx_num == PLAN_NUMBER
                },
                Err(e) => negotiated(constraints@, hidden_columns()) == Err::<
                    Seq<Option<ConstraintUsage>>,
                    BestIndexError,
                >(e),
            },
    {
        let hidden: [i32; 1] = [WORKBOOK_COLUMN];
        proof {
            assert(hidden@ =~= hidden_columns());
        }
        negotiate(constraints, hidden.as_slice())
    }

    /// Opens a cursor at row 0 with nothing to read.
    pub fn open(&mut self) -> (cursor: RowsCursor)
        ensures
            cursor@ == (RowsView {
                set: RowSetView::<Vec<CellValue>> { rowid: 0, rows: None },
                start: None,
            }),
    {
        RowsCursor::new()
    }

    /// The function that stands for `name` taken with `argc` arguments on
    /// this relation: the accessor for the operator `->>` on two arguments,
    /// and nothing else.
    pub fn find_function(&mut self, argc: i32, name: &str) -> (result: Option<ScalarFunction>)
        ensures
            result == if name@ == accessor_operator() && argc == 2 {
                Some(ScalarFunction::XlAt)
            } else {
                None
            },
    {
        if argc == 2 && name.unicode_len() == 3 && name.get_char(0) == '-' && name.get_char(1)
            == '>' && name.get_char(2) == '>' {
            proof {
                assert(name@ =~= accessor_operator());
            }
            Some(ScalarFunction::XlAt)
        } else {
            None
        }
    }
}

/// A cursor over the rows of the first sheet of one workbook.
pub struct RowsCursor {
    set: RowSet<Vec<CellValue>>,
    start: Option<(u32, u32)>,
}

impl View for RowsCursor {
    type V = RowsView;

    closed spec fn view(&self) -> RowsView {
        RowsView { set: self.set@, start: self.start }
    }
}

impl RowsCursor {
    #[verifier::type_invariant]
    spec fn well_formed(self) -> bool {
        self.set@.rows matches Some(rows) ==> numbers_fit(self.start, rows.len())
    }

    /// A cursor at row 0 with nothing to read.
    pub fn new() -> (cursor: RowsCursor)
        ensures
            cursor@ == (RowsView {
                set: RowSetView::<Vec<CellValue>> { rowid: 0, rows: None },
                start: None,
            }),
    {
        RowsCursor { set: RowSet::new(), start: None }
    }

    /// Takes the rows of the first sheet of a workbook, top to bottom, each
    /// with all its cells from left to right, and where the sheet starts.
    /// Fails where the numbers of the rows do not fit in 64 bits; the cursor
    /// then stays as it was.
    pub fn filter(&mut self, sheet: SheetRows) -> (result: Result<(), FilterError>)
        ensures
            match result {
                Ok(_) => {
                    &&& numbers_fit(sheet.start, sheet.rows@.len())
                    &&& final(self)@ == (RowsView {
                        set: RowSetView { rowid: old(self)@.set.rowid, rows: Some(sheet.rows@) },
                        start: sheet.start,
                    })
                },
                Err(e) => {
                    &&& e == FilterError::RowNumbers
                    &&& !numbers_fit(sheet.start, sheet.rows@.len())
                    &&& final(self)@ == old(self)@
                },
            },
    {
        let SheetRows { start, rows } = sheet;
        let fits = match start {
            Some(first) => first.0 as u128 + rows.len() as u128 <= 0x7fff_ffff_ffff_ffff,
            None => true,
        };
        if !fits {
            return Err(FilterError::RowNumbers);
        }
        self.start = None;
        self.set.load(rows);
        self.start = start;
        Ok(())
    }

    /// Steps to the next row identifier, whether or not a row is there. A
    /// handle to the row that was current is good no longer. The row
    /// identifier must not be the largest of 64 bits.
    pub fn next(&mut self)
        requires
            old(self)@.set.rowid < i64::MAX,
        ensures
            final(self)@ == (RowsView { set: old(self)@.set.step(), start: old(self)@.start }),
    {
        proof {
            use_type_invariant(&*self);
        }
        self.set.next();
    }

    /// Whether the row identifier has passed the last row.
    pub fn eof(&self) -> (end: bool)
        ensures
            end == self@.set.at_end(),
    {
        self.set.eof()
    }

    /// The value of the column `i` of the current row; none where there is
    /// no current row, and where the column has no value. The number of the
    /// current row is the row at which the sheet starts, counted from 1, and
    /// the row identifier added; it fits in 64 bits.
    pub fn column(&self, i: i32) -> (result: Option<SqlValue>)
        ensures
            match self@.set.current() {
                Some(_) => match result {
                    Some(v) => column_value(self@, i) == Some(v@),
                    None => column_value(self@, i) is None,
                },
                None => result is None,
            },
            self@.set.current() is Some ==> numbers_fit(self@.start, self@.set.rowid + 1),
    {
        proof {
            use_type_invariant(self);
        }
        if self.set.current().is_none() {
            return None;
        }
        let rowid = self.set.rowid();
        match column(i) {
            Some(Columns::RowNumber) => match self.start {
                Some(start) => Some(SqlValue::Integer(rowid + start.0 as i64 + 1)),
                None => None,
            },
            Some(Columns::Row) => Some(SqlValue::Pointer(RowHandle { rowid })),
            Some(Columns::Workbook) => None,
            None => None,
        }
    }

    /// The row identifier: 0 at first, one more after each `next`.
    pub fn rowid(&self) -> (id: i64)
        ensures
            id == self@.set.rowid,
    {
        self.set.rowid()
    }

    /// The cells of the row that `handle` refers to. A handle is good for the
    /// current row of the cursor that gave it, and for no other.
    pub fn row(&self, handle: RowHandle) -> (result: Result<&Vec<CellValue>, LookupError>)
        ensures
            match result {
                Ok(row) => resolved(self@, handle) == Ok::<Vec<CellValue>, LookupError>(*row),
                Err(e) => resolved(self@, handle) == Err::<Vec<CellValue>, LookupError>(e),
            },
    {
        if handle.rowid != self.set.rowid() {
            return Err(LookupError::Handle);
        }
        match self.set.current() {
            Some(row) => Ok(row),
            None => Err(LookupError::Handle),
        }
    }

    /// The accessor on a handle: the result that stands for the cell at
    /// `locator` of the row that `handle` refers to.
    pub fn at(&self, handle: RowHandle, locator: &ColumnLocator) -> (result: Result<
        SqlValue,
        LookupError,
    >)
        ensures
            match result {
                Ok(v) => accessed_by_handle(self@, handle, *locator) == Ok::<SqlView, LookupError>(
                    v@,
                ),
                Err(e) => accessed_by_handle(self@, handle, *locator) == Err::<
                    SqlView,
                    LookupError,
                >(e),
            },
    {
        match self.row(handle) {
            Ok(row) => xl_at(row, locator),
            Err(e) => Err(e),
        }
    }
}

/// The row that a handle refers to: the current row, for the handle with the
/// cursor's row identifier; no other handle refers to a row.
pub open spec fn resolved(state: RowsView, handle: RowHandle) -> Result<
    Vec<CellValue>,
    LookupError,
> {
    if handle.rowid == state.set.rowid && state.set.current() is Some {
        Ok(state.set.current().unwrap())
    } else {
        Err(LookupError::Handle)
    }
}

/// What the accessor gives for a handle and a locator.
pub open spec fn accessed_by_handle(
    state: RowsView,
    handle: RowHandle,
    locator: ColumnLocator,
) -> Result<SqlView, LookupError> {
    match resolved(state, handle) {
        Err(e) => Err(e),
        Ok(row) => accessed(row@, locator),
    }
}

/// The accessor agrees with the provider: on the handle that the `row`
/// column gives for the current row, and on an index within that row, it
/// gives the result that stands for the cell of the row at that index.
pub proof fn lemma_accessor_reads_row(state: RowsView, n: i64)
    requires
        state.set.rowid <= i64::MAX,
        state.set.current() matches Some(row) && 0 <= n < row@.len(),
    ensures
        column_value(state, 1) == Some(SqlView::Pointer(RowHandle { rowid: state.set.rowid as i64 })),
        accessed_by_handle(
            state,
            RowHandle { rowid: state.set.rowid as i64 },
            ColumnLocator::Index(n),
        ) == Ok::<SqlView, LookupError>(bridge(state.set.current().unwrap()@[n as int])),
{
}

} // verus!
