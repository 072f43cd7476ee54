//! The cells provider: one row for each cell of a sheet that lies within a
//! range, with its row, its column and its value. The cursor takes the cells
//! of the sheet as they are read once the workbook is decoded.

use vstd::prelude::*;
use crate::cursor::{lemma_iteration_enumerates, RowSet, RowSetView};
use crate::parser::{
    parse_range_reference,
    range_reference_of,
    ParseFailure,
    ParseRangeReferenceError,
    RangeReference,
};
use crate::plan::{negotiate, negotiated, BestIndexError, Constraint, ConstraintUsage, IndexPlan};
use crate::plan::{is_usable_equality, lemma_plan_needs_equalities};
use crate::plan::{ESTIMATED_COST, ESTIMATED_ROWS, PLAN_NUMBER};
use crate::value::{bridge, result_xl_data, CellValue, SqlValue, SqlView};
use crate::workbook::{comes_before, row_major};

verus! {

/// The columns of the relation, in the order of its schema.
#[derive(Debug, Clone, Copy, PartialEq, Eq)]
pub enum Columns {
    Row,
    Column,
    Value,
    /// Hidden: the bytes of the workbook, given by the query.
    Workbook,
    /// Hidden: the range as a text, given by the query.
    Range,
}

/// The number of the hidden column that takes the workbook.
pub const WORKBOOK_COLUMN: i32 = 3;

/// The number of the hidden column that takes the range.
pub const RANGE_COLUMN: i32 = 4;

/// The column with the number `index`, where there is one.
pub fn column(index: i32) -> (result: Option<Columns>)
    ensures
        result == match index {
            0 => Some(Columns::Row),
            1 => Some(Columns::Column),
            2 => Some(Columns::Value),
            3 => Some(Columns::Workbook),
            4 => Some(Columns::Range),
            _ => None,
        },
{
    match index {
        0 => Some(Columns::Row),
        1 => Some(Columns::Column),
        2 => Some(Columns::Value),
        3 => Some(Columns::Workbook),
        4 => Some(Columns::Range),
        _ => None,
    }
}

/// The hidden columns, in the order in which `filter` takes their values:
/// the workbook, then the range.
pub open spec fn hidden_columns() -> Seq<i32> {
    seq![WORKBOOK_COLUMN, RANGE_COLUMN]
}

/// The name of the sheet whose cells the provider reads.
pub fn sheet_name() -> (name: &'static str)
    ensures
        name@ == "Sheet1"@,
{
    "Sheet1"
}

/// One row of the relation.
#[derive(Debug, PartialEq)]
pub struct CellRecord {
    pub row: i64,
    pub column: i64,
    pub value: CellValue,
}

/// Whether a cell of the sheet, given with its row and column within the
/// sheet's cells, lies within the bounds of the range, which count.
pub open spec fn in_range(cell: (usize, usize, CellValue), range: RangeReference) -> bool {
    &&& range.start.1 <= cell.0 <= range.end.1
    &&& range.start.0 <= cell.1 <= range.end.0
}

/// The row of the relation for a cell of the sheet: the cell's row moved by
/// the row at which the range starts, its column, and its value.
pub open spec fn record_of(cell: (usize, usize, CellValue), range: RangeReference) -> CellRecord {
    CellRecord { row: (cell.0 + range.start.1) as i64, column: cell.1 as i64, value: cell.2 }
}

/// The rows of the relation for the cells of a sheet: those of the cells
/// within the range, in the order of the sheet.
pub open spec fn selected(source: Seq<(usize, usize, CellValue)>, range: RangeReference) -> Seq<
    CellRecord,
>
    decreases source.len(),
{
    if source.len() == 0 {
        Seq::empty()
    } else if in_range(source.last(), range) {
        selected(source.drop_last(), range).push(record_of(source.last(), range))
    } else {
        selected(source.drop_last(), range)
    }
}

/// The places in the sheet's order of the cells within the range, ascending.
pub open spec fn picked(source: Seq<(usize, usize, CellValue)>, range: RangeReference) -> Seq<int>
    decreases source.len(),
{
    if source.len() == 0 {
        Seq::empty()
    } else if in_range(source.last(), range) {
        picked(source.drop_last(), range).push(source.len() - 1)
    } else {
        picked(source.drop_last(), range)
    }
}

/// The rows built are exactly the cells within the bounds of the range, each
/// once and in the order of the sheet: row `k` stands for the cell at the
/// place `picked[k]`, which lies within the range; the places ascend, so none
/// comes twice and the order is kept; and every cell within the range has a
/// place among them, so none is left out.
pub proof fn lemma_selected_enumerates(
    source: Seq<(usize, usize, CellValue)>,
    range: RangeReference,
)
    ensures
        selected(source, range).len() == picked(source, range).len(),
        forall|k: int|
            0 <= k < picked(source, range).len() ==> {
                &&& 0 <= #[trigger] picked(source, range)[k] < source.len()
                &&& in_range(source[picked(source, range)[k]], range)
                &&& selected(source, range)[k] == record_of(
                    source[picked(source, range)[k]],
                    range,
                )
            },
        forall|k: int, l: int|
            0 <= k < l < picked(source, range).len() ==> #[trigger] picked(source, range)[k]
                < #[trigger] picked(source, range)[l],
        forall|j: int|
            0 <= j < source.len() && in_range(#[trigger] source[j], range) ==> exists|k: int|
                0 <= k < picked(source, range).len() && #[trigger] picked(source, range)[k] == j,
    decreases source.len(),
{
    if source.len() > 0 {
        let front = source.drop_last();
        lemma_selected_enumerates(front, range);
        let places = picked(source, range);
        let before = picked(front, range);
        let last = source.len() - 1;
        assert forall|k: int| 0 <= k < places.len() implies {
            &&& 0 <= #[trigger] places[k] < source.len()
            &&& in_range(source[places[k]], range)
            &&& selected(source, range)[k] == record_of(source[places[k]], range)
        } by {
            if k < before.len() {
                assert(places[k] == before[k]);
                assert(front[before[k]] == source[before[k]]);
            }
        }
        assert forall|k: int, l: int| 0 <= k < l < places.len() implies #[trigger] places[k]
            < #[trigger] places[l] by {
            if l < before.len() {
                assert(places[k] == before[k] && places[l] == before[l]);
            } else {
                assert(places[k] == before[k]);
                assert(before[k] < front.len());
            }
        }
        assert forall|j: int|
            0 <= j < source.len() && in_range(#[trigger] source[j], range) implies exists|k: int|
            0 <= k < places.len() && #[trigger] places[k] == j by {
            if j < last {
                assert(front[j] == source[j]);
                let k = choose|k: int| 0 <= k < before.len() && #[trigger] before[k] == j;
                assert(places[k] == j);
            } else {
                assert(places[places.len() - 1] == j);
            }
        }
    }
}

/// Builds the rows of the relation from the cells of a sheet: the cells
/// within the bounds of the range, in the order of the sheet.
pub fn select_cells(source: &Vec<(usize, usize, CellValue)>, range: &RangeReference) -> (out: Vec<
    CellRecord,
>)
    ensures
        out@ == selected(source@, *range),
{
    let mut out: Vec<CellRecord> = Vec::new();
    let mut i: usize = 0;
    proof {
        assert(source@.take(0) =~= Seq::empty());
    }
    while i < source.len()
        invariant
            0 <= i <= source.len(),
            out@ == selected(source@.take(i as int), *range),
        decreases source.len() - i,
    {
        let row = source[i].0;
        let column = source[i].1;
        proof {
            let next = source@.take(i + 1);
            assert(next.drop_last() =~= source@.take(i as int));
            assert(next.last() == source@[i as int]);
        }
        if row >= range.start.1 as usize && row <= range.end.1 as usize && column
            >= range.start.0 as usize && column <= range.end.0 as usize {
            out.push(
                CellRecord {
                    row: row as i64 + range.start.1 as i64,
                    column: column as i64,
                    value: source[i].2.copy(),
                },
            );
        }
        i = i + 1;
    }
    proof {
        assert(source@.take(source.len() as int) =~= source@);
    }
    out
}

/// The rows of the relation for the cells of a sheet and a range as a text:
/// the text must be a range reference, and the rows are those of the cells
/// within the range.
pub open spec fn cells_of(source: Seq<(usize, usize, CellValue)>, range: Seq<char>) -> Result<
    Seq<CellRecord>,
    ParseFailure,
> {
    match range_reference_of(range) {
        Err(e) => Err(e),
        Ok(reference) => Ok(selected(source, reference)),
    }
}

/// The value of a column of a row; none for the hidden columns, which only
/// take values, and for a number that is no column.
pub open spec fn column_value(record: CellRecord, index: i32) -> Option<SqlView> {
    match index {
        0 => Some(SqlView::Integer(record.row)),
        1 => Some(SqlView::Integer(record.column)),
        2 => Some(bridge(record.value)),
        _ => None,
    }
}

/// A plan of the cells provider binds both the workbook and the range by a
/// usable equality.
pub proof fn lemma_plan_binds_workbook_and_range(constraints: Seq<Constraint>)
    requires
        negotiated(constraints, hidden_columns()) is Ok,
    ensures
        exists|i: int|
            0 <= i < constraints.len() && (#[trigger] constraints[i]).column == WORKBOOK_COLUMN
                && is_usable_equality(constraints[i]),
        exists|i: int|
            0 <= i < constraints.len() && (#[trigger] constraints[i]).column == RANGE_COLUMN
                && is_usable_equality(constraints[i]),
{
    lemma_plan_needs_equalities(constraints, hidden_columns());
    assert(hidden_columns()[0] == WORKBOOK_COLUMN);
    assert(hidden_columns()[1] == RANGE_COLUMN);
}

/// From `filter` to the end: a cursor at row 0 that `filter` has built rows
/// for reads exactly the cells of the sheet within the range, each once and
/// in the order of the sheet. After `n` calls of `next` it stands on the row
/// for the cell at the place `picked[n]`, and it is at the end after as many
/// calls as there are cells within the range, and not before.
pub proof fn lemma_filter_then_iterate(
    source: Seq<(usize, usize, CellValue)>,
    range: RangeReference,
    n: nat,
)
    ensures
        n < picked(source, range).len() ==> {
            &&& 0 <= picked(source, range)[n as int] < source.len()
            &&& in_range(source[picked(source, range)[n as int]], range)
            &&& (RowSetView { rowid: 0, rows: Some(selected(source, range)) }).steps(n).current()
                == Some(record_of(source[picked(source, range)[n as int]], range))
        },
        (RowSetView { rowid: 0, rows: Some(selected(source, range)) }).steps(n).at_end() <==> n
            >= picked(source, range).len(),
{
    lemma_selected_enumerates(source, range);
    lemma_iteration_enumerates(selected(source, range), n);
    if n < picked(source, range).len() {
        assert(0 <= picked(source, range)[n as int] < source.len());
    }
}

/// Of two rows of the relation, the first lies in a row of the sheet
/// further up, or in the same row further left.
pub open spec fn record_comes_before(a: CellRecord, b: CellRecord) -> bool {
    a.row < b.row || (a.row == b.row && a.column < b.column)
}

/// The order of the sheet is kept: where the cells of the sheet come in
/// row-major order, so do the rows built from them.
pub proof fn lemma_selected_keeps_row_major(
    source: Seq<(usize, usize, CellValue)>,
    range: RangeReference,
)
    requires
        row_major(source),
    ensures
        forall|k: int, l: int|
            0 <= k < l < selected(source, range).len() ==> record_comes_before(
                #[trigger] selected(source, range)[k],
                #[trigger] selected(source, range)[l],
            ),
{
    lemma_selected_enumerates(source, range);
    let places = picked(source, range);
    let rows = selected(source, range);
    assert forall|k: int, l: int| 0 <= k < l < rows.len() implies record_comes_before(
        #[trigger] rows[k],
        #[trigger] rows[l],
    ) by {
        assert(places[k] < places[l]);
        assert(0 <= places[k] < source.len() && 0 <= places[l] < source.len());
        assert(comes_before(source[places[k]], source[places[l]]));
        assert(in_range(source[places[k]], range) && in_range(source[places[l]], range));
        assert(rows[k] == record_of(source[places[k]], range));
        assert(rows[l] == record_of(source[places[l]], range));
    }
}

/// The same of a range as a text: where the text is a range reference, the
/// rows that `filter` builds are those of the cells within the range, and a
/// cursor at row 0 reads them each once and in the order of the sheet.
pub proof fn lemma_cells_of_enumerates(
    source: Seq<(usize, usize, CellValue)>,
    range: Seq<char>,
    n: nat,
)
    requires
        cells_of(source, range) is Ok,
    ensures
        range_reference_of(range) is Ok,
        ({
            let reference = range_reference_of(range)->Ok_0;
            let rows = cells_of(source, range)->Ok_0;
            let places = picked(source, reference);
            &&& rows == selected(source, reference)
            &&& rows.len() == places.len()
            &&& n < places.len() ==> {
                &&& 0 <= places[n as int] < source.len()
                &&& in_range(source[places[n as int]], reference)
                &&& (RowSetView { rowid: 0, rows: Some(rows) }).steps(n).current() == Some(
                    record_of(source[places[n as int]], reference),
                )
            }
            &&& (RowSetView { rowid: 0, rows: Some(rows) }).steps(n).at_end() <==> n
                >= places.len()
        }),
{
    let reference = range_reference_of(range)->Ok_0;
    lemma_selected_enumerates(source, reference);
    lemma_filter_then_iterate(source, reference, n);
}

/// The cells provider.
pub struct CellsTable {}

impl CellsTable {
    /// Declares the relation and gives the provider. The same on every call.
    pub fn connect() -> (result: (String, CellsTable))
        ensures
            result.0@ == "CREATE TABLE x(row, column, value, workbook hidden, range hidden)"@,
    {
        (
            "CREATE TABLE x(row, column, value, workbook hidden, range hidden)".to_owned(),
            CellsTable {  },
        )
    }

    /// Releases the provider, which holds nothing.
    pub fn destroy(&self) {
    }

    /// Negotiates the plan of a query: the workbook and the range must each
    /// be bound by a usable equality; `filter` takes the value of the
    /// workbook first and that of the range second.
    pub fn best_index(&self, constraints: &Vec<Constraint>) -> (result: Result<
        IndexPlan,
        BestIndexError,
    >)
        ensures
            match result {
                Ok(plan) => {
                    &&& negotiated(constraints@, hidden_columns()) == Ok::<
                        Seq<Option<ConstraintUsage>>,
                        BestIndexError,
                    >(plan.usages@)
                    &&& plan.estimated_cost == ESTIMATED_COST
                    &&& plan.estimated_rows == ESTIMATED_ROWS
                    &&& plan.idx_num == PLAN_NUMBER
                },
                Err(e) => negotiated(constraints@, hidden_columns()) == Err::<
                    Seq<Option<ConstraintUsage>>,
                    BestIndexError,
                >(e),
            },
    {
        let hidden: [i32; 2] = [WORKBOOK_COLUMN, RANGE_COLUMN];
        proof {
            assert(hidden@ =~= hidden_columns());
        }
        negotiate(constraints, hidden.as_slice())
    }

    /// Opens a cursor at row 0 with nothing to read.
    pub fn open(&mut self) -> (cursor: CellsCursor)
        ensures
            cursor@ == (RowSetView::<CellRecord> { rowid: 0, rows: None }),
    {
        CellsCursor::new()
    }
}

/// A cursor over the cells of one sheet within one range.
pub struct CellsCursor {
    set: RowSet<CellRecord>,
}

impl View for CellsCursor {
    type V = RowSetView<CellRecord>;

    closed spec fn view(&self) -> RowSetView<CellRecord> {
        self.set@
    }
}

impl CellsCursor {
    /// A cursor at row 0 with nothing to read.
    pub fn new() -> (cursor: CellsCursor)
        ensures
            cursor@ == (RowSetView::<CellRecord> { rowid: 0, rows: None }),
    {
        CellsCursor { set: RowSet::new() }
    }

    /// Parses the range and builds one row for each cell of the sheet
    /// within it, in the order in which the cells are given. Where the text
    /// is no range, the cursor stays as it was and no row is built.
    pub fn filter<'a>(&mut self, cells: &Vec<(usize, usize, CellValue)>, range: &'a str) -> (result:
        Result<(), ParseRangeReferenceError<'a>>)
        ensures
            match result {
                Ok(_) => cells_of(cells@, range@) matches Ok(rows) && final(self)@ == (
                RowSetView { rowid: old(self)@.rowid, rows: Some(rows) }),
                Err(e) => {
                    &&& cells_of(cells@, range@) == Err::<Seq<CellRecord>, ParseFailure>(e@)
                    &&& final(self)@ == old(self)@
                },
            },
    {
        let reference = match parse_range_reference(range) {
            Ok(reference) => reference,
            Err(e) => {
                return Err(e);
            },
        };
        let rows = select_cells(cells, &reference);
        self.set.load(rows);
        Ok(())
    }

    /// Steps to the next row identifier, whether or not a row is there. The
    /// row identifier must not be the largest of 64 bits.
    pub fn next(&mut self)
        requires
            old(self)@.rowid < i64::MAX,
        ensures
            final(self)@ == old(self)@.step(),
    {
        self.set.next();
    }

    /// Whether the row identifier has passed the last row.
    pub fn eof(&self) -> (end: bool)
        ensures
            end == self@.at_end(),
    {
        self.set.eof()
    }

    /// The value of the column `i` of the current row; none where there is
    /// no current row, for the hidden columns, and for a number that is no
    /// column.
    pub fn column(&self, i: i32) -> (result: Option<SqlValue>)
        ensures
            match self@.current() {
                Some(record) => match result {
                    Some(v) => column_value(record, i) == Some(v@),
                    None => column_value(record, i) is None,
                },
                None => result is None,
            },
    {
        let v = match self.set.current() {
            Some(record) => record,
            None => {
                return None;
            },
        };
        match column(i) {
            Some(Columns::Row) => Some(SqlValue::Integer(v.row)),
            Some(Columns::Column) => Some(SqlValue::Integer(v.column)),
            Some(Columns::Value) => Some(result_xl_data(&v.value)),
            Some(Columns::Workbook) => None,
            Some(Columns::Range) => None,
            None => None,
        }
    }

    /// The row identifier: 0 at first, one more after each `next`.
    pub fn rowid(&self) -> (id: i64)
        ensures
            id == self@.rowid,
    {
        self.set.rowid()
    }
}

} // verus!
