//! Sheets and cells as the spreadsheet reader gives them.
//!
//! Bytes are decoded elsewhere: opening a workbook and reading a sheet out
//! of it are the reader's work, and the reader does not answer every input.
//! What it gives, a list of sheets and a range of cells, is taken here. The
//! range is opaque; it has a model in plain values, and the trusted functions
//! of this file say in terms of the model what the range's methods return.
//! Everything after that is verified against them.

use vstd::prelude::*;
use calamine::{CellErrorType, DataType, Range, Sheet, SheetType, SheetVisible};
use vstd::arithmetic::div_mod::{
    lemma_div_is_ordered,
    lemma_div_is_ordered_by_denominator,
    lemma_div_pos_is_pos,
    lemma_fundamental_div_mod,
    lemma_mod_bound,
};
use crate::value::CellValue;

verus! {

/// `calamine::CellErrorType`, the kinds of error that a cell shows, with its
/// variants.
#[verifier::external_type_specification]
pub struct ExCellErrorType(CellErrorType);

/// `calamine::SheetType`, with its variants.
#[verifier::external_type_specification]
pub struct ExSheetType(SheetType);

/// `calamine::SheetVisible`, with its variants.
#[verifier::external_type_specification]
pub struct ExSheetVisible(SheetVisible);

/// `calamine::Sheet`, what the reader tells of a sheet, with its fields.
#[verifier::external_type_specification]
pub struct ExSheet(Sheet);

/// `calamine::DataType`, a cell of the reader. Opaque: it holds doubles.
#[verifier::external_type_specification]
#[verifier::external_body]
pub struct ExDataType(DataType);

/// `calamine::Range`, a block of cells of the reader. Opaque.
#[verifier::external_type_specification]
#[verifier::external_body]
#[verifier::reject_recursive_types(T)]
pub struct ExRange<T>(Range<T>);

/// `Clone` as `calamine::CellErrorType` derives it. Trusted: the clone of a
/// variant without fields is that variant.
pub assume_specification[ <CellErrorType as Clone>::clone ](e: &CellErrorType) -> (copy:
    CellErrorType)
    ensures
        copy == *e,
;

/// The token that the reader prints for a kind of error.
pub open spec fn error_token(e: CellErrorType) -> Seq<char> {
    match e {
        CellErrorType::Div0 => "#DIV/0!"@,
        CellErrorType::NA => "#N/A"@,
        CellErrorType::Name => "#NAME?"@,
        CellErrorType::Null => "#NULL!"@,
        CellErrorType::Num => "#NUM!"@,
        CellErrorType::Ref => "#REF!"@,
        CellErrorType::Value => "#VALUE!"@,
        CellErrorType::GettingData => "#DATA!"@,
    }
}

/// Calls `to_string` on a `calamine::CellErrorType`, which goes through its
/// `Display`. Trusted: the text is the token that `Display` writes for the
/// variant.
#[verifier::external_body]
pub(crate) fn error_text(e: &CellErrorType) -> (text: String)
    ensures
        text@ == error_token(*e),
{
    e.to_string()
}

/// The model of a range of cells: where its top left cell lies in the sheet,
/// as row and column from 0; how many columns it is wide; and its values row
/// by row, each row from left to right.
pub struct Grid {
    pub start: (u32, u32),
    pub width: nat,
    pub values: Seq<CellValue>,
}

/// What a range holds.
pub uninterp spec fn grid_of(range: Range<DataType>) -> Grid;

/// What a cell of the reader holds.
pub uninterp spec fn data_value(data: DataType) -> CellValue;

/// The values of a sequence of the reader's cells.
pub open spec fn data_values(cells: Seq<DataType>) -> Seq<CellValue> {
    cells.map_values(|d: DataType| data_value(d))
}

/// The top left cell of a grid; none where the grid holds no cell.
pub open spec fn grid_start(g: Grid) -> Option<(u32, u32)> {
    if g.values.len() == 0 {
        None
    } else {
        Some(g.start)
    }
}

/// The cells of a grid in row-major order, each with its row and column
/// within the grid, from 0.
pub open spec fn grid_cells(g: Grid) -> Seq<(usize, usize, CellValue)> {
    Seq::new(
        g.values.len(),
        |i: int| ((i / g.width as int) as usize, (i % g.width as int) as usize, g.values[i]),
    )
}

/// Row-major order: of two cells of a grid, the earlier lies in a row
/// further up, or in the same row further left; and no cell lies beyond the
/// width.
pub proof fn lemma_grid_cells_row_major(g: Grid, i: int, j: int)
    requires
        g.width > 0,
        g.values.len() <= usize::MAX,
        0 <= i < j < g.values.len(),
    ensures
        grid_cells(g)[i].0 < grid_cells(g)[j].0 || (grid_cells(g)[i].0 == grid_cells(g)[j].0
            && grid_cells(g)[i].1 < grid_cells(g)[j].1),
        grid_cells(g)[i].1 < g.width,
        grid_cells(g)[j].1 < g.width,
{
    let w = g.width as int;
    lemma_fundamental_div_mod(i, w);
    lemma_fundamental_div_mod(j, w);
    lemma_mod_bound(i, w);
    lemma_mod_bound(j, w);
    lemma_div_is_ordered(i, j, w);
    lemma_div_pos_is_pos(i, w);
    lemma_div_pos_is_pos(j, w);
    lemma_div_is_ordered_by_denominator(i, 1, w);
    lemma_div_is_ordered_by_denominator(j, 1, w);
}

/// The number of rows of a grid: its values in pieces of its width, the last
/// one shorter where they do not divide evenly.
pub open spec fn grid_height(g: Grid) -> nat {
    if g.values.len() == 0 {
        0
    } else {
        ((g.values.len() + g.width - 1) / g.width as int) as nat
    }
}

/// The row `k` of a grid.
pub open spec fn grid_row(g: Grid, k: int) -> Seq<CellValue> {
    g.values.subrange(
        k * g.width,
        if (k + 1) * g.width <= g.values.len() {
            (k + 1) * g.width
        } else {
            g.values.len() as int
        },
    )
}

/// The rows of a grid, top to bottom.
pub open spec fn grid_rows(g: Grid) -> Seq<Seq<CellValue>> {
    Seq::new(grid_height(g), |k: int| grid_row(g, k))
}

/// Calls `calamine::Range::start`. Trusted: the top left cell of the range,
/// none for a range without cells.
#[verifier::external_body]
pub(crate) fn range_start(range: &Range<DataType>) -> (start: Option<(u32, u32)>)
    ensures
        start == grid_start(grid_of(*range)),
{
    range.start()
}

/// Calls `calamine::Range::cells` and collects what it yields, each cell
/// cloned. Trusted: the cells come in row-major order, each with its row and
/// column within the range, which are its place divided by the width and the
/// remainder; and a range that holds cells is at least one column wide.
#[verifier::external_body]
pub(crate) fn range_cells(range: &Range<DataType>) -> (cells: Vec<(usize, usize, DataType)>)
    ensures
        cells@.len() == grid_of(*range).values.len(),
        cells@.len() > 0 ==> grid_of(*range).width >= 1,
        forall|i: int|
            0 <= i < cells@.len() ==> {
                &&& (#[trigger] cells@[i]).0 == i / grid_of(*range).width as int
                &&& cells@[i].1 == i % grid_of(*range).width as int
                &&& data_value(cells@[i].2) == grid_of(*range).values[i]
            },
{
    range.cells().map(|(row, column, value)| (row, column, value.clone())).collect()
}

/// Calls `calamine::Range::rows` and collects what it yields, each row
/// copied. Trusted: the rows are the values in pieces of the width, top to
/// bottom; a range without cells has no row, and a range that holds cells is
/// at least one column wide.
#[verifier::external_body]
pub(crate) fn range_rows(range: &Range<DataType>) -> (rows: Vec<Vec<DataType>>)
    ensures
        rows@.len() == grid_height(grid_of(*range)),
        rows@.len() > 0 ==> grid_of(*range).width >= 1,
        forall|k: int|
            0 <= k < rows@.len() ==> data_values((#[trigger] rows@[k])@) == grid_row(
                grid_of(*range),
                k,
            ),
{
    range.rows().map(|row| row.to_vec()).collect()
}

/// Tells the variants of `calamine::DataType` apart and moves what each
/// holds, a double as its bits. Trusted: the value is what the cell holds.
#[verifier::external_body]
pub(crate) fn cell_value(data: &DataType) -> (value: CellValue)
    ensures
        value == data_value(*data),
{
    match data {
        DataType::Int(i) => CellValue::Int(*i),
        DataType::Float(f) => CellValue::Float(f.to_bits()),
        DataType::String(s) => CellValue::String(s.clone()),
        DataType::Bool(b) => CellValue::Bool(*b),
        DataType::DateTime(f) => CellValue::DateTime(f.to_bits()),
        DataType::Duration(f) => CellValue::Duration(f.to_bits()),
        DataType::DateTimeIso(s) => CellValue::DateTimeIso(s.clone()),
        DataType::DurationIso(s) => CellValue::DurationIso(s.clone()),
        DataType::Error(e) => CellValue::Error(e.clone()),
        DataType::Empty => CellValue::Empty,
    }
}

/// The name of a sheet and whether it is hidden from the user.
#[derive(Debug, PartialEq, Eq)]
pub struct SheetMetadata {
    pub name: String,
    pub hidden: bool,
}

/// What is told of a sheet: its name, and that it is hidden unless the
/// workbook shows it.
pub open spec fn metadata_of(sheet: Sheet) -> SheetMetadata {
    SheetMetadata { name: sheet.name, hidden: !(sheet.visible is Visible) }
}

/// What is told of each sheet of a list.
pub open spec fn metadata_of_all(sheets: Seq<Sheet>) -> Seq<SheetMetadata> {
    sheets.map_values(|s: Sheet| metadata_of(s))
}

/// What is told of a sheet.
pub fn sheet_metadata(sheet: &Sheet) -> (metadata: SheetMetadata)
    ensures
        metadata == metadata_of(*sheet),
{
    let hidden = match sheet.visible {
        SheetVisible::Visible => false,
        SheetVisible::Hidden => true,
        SheetVisible::VeryHidden => true,
    };
    SheetMetadata { name: sheet.name.clone(), hidden }
}

/// What is told of each sheet of a workbook, in the order given.
pub fn list_sheets(sheets: &[Sheet]) -> (out: Vec<SheetMetadata>)
    ensures
        out@ == metadata_of_all(sheets@),
{
    let mut out: Vec<SheetMetadata> = Vec::new();
    let mut i: usize = 0;
    while i < sheets.len()
        invariant
            0 <= i <= sheets.len(),
            out@.len() == i,
            forall|j: int| 0 <= j < i ==> #[trigger] out@[j] == metadata_of(sheets@[j]),
        decreases sheets.len() - i,
    {
        out.push(sheet_metadata(&sheets[i]));
        i = i + 1;
    }
    proof {
        assert(out@ =~= metadata_of_all(sheets@));
    }
    out
}

/// The name of the first sheet of a workbook, the one that the rows provider
/// reads; none for a workbook without sheets.
pub fn first_sheet_name(sheets: &[Sheet]) -> (name: Option<&str>)
    ensures
        match name {
            Some(n) => sheets@.len() > 0 && n@ == sheets@[0].name@,
            None => sheets@.len() == 0,
        },
{
    if sheets.len() == 0 {
        None
    } else {
        Some(sheets[0].name.as_str())
    }
}

/// The values of a row of the reader's cells.
fn row_values(row: &Vec<DataType>) -> (out: Vec<CellValue>)
    ensures
        out@ == data_values(row@),
{
    let mut out: Vec<CellValue> = Vec::new();
    let mut i: usize = 0;
    while i < row.len()
        invariant
            0 <= i <= row.len(),
            out@.len() == i,
            forall|j: int| 0 <= j < i ==> #[trigger] out@[j] == data_value(row@[j]),
        decreases row.len() - i,
    {
        out.push(cell_value(&row[i]));
        i = i + 1;
    }
    proof {
        assert(out@ =~= data_values(row@));
    }
    out
}

/// The rows of a sheet, top to bottom, and where the sheet starts.
#[derive(Debug, PartialEq)]
pub struct SheetRows {
    /// The top left cell of the sheet as row and column from 0; none where
    /// the sheet holds no cell.
    pub start: Option<(u32, u32)>,
    pub rows: Vec<Vec<CellValue>>,
}

/// The rows of a sequence of vectors.
pub open spec fn rows_view(rows: Seq<Vec<CellValue>>) -> Seq<Seq<CellValue>> {
    rows.map_values(|row: Vec<CellValue>| row@)
}

/// Of two cells, each with its row and column, the first lies in a row
/// further up, or in the same row further left.
pub open spec fn comes_before(a: (usize, usize, CellValue), b: (usize, usize, CellValue)) -> bool {
    a.0 < b.0 || (a.0 == b.0 && a.1 < b.1)
}

/// The cells come row by row, top to bottom, and within a row from left to
/// right.
pub open spec fn row_major(cells: Seq<(usize, usize, CellValue)>) -> bool {
    forall|i: int, j: int|
        0 <= i < j < cells.len() ==> comes_before(#[trigger] cells[i], #[trigger] cells[j])
}

/// Reads the rows of a range of cells, top to bottom, each with all its
/// cells from left to right, and where the range starts.
pub fn sheet_rows(range: &Range<DataType>) -> (sheet: SheetRows)
    ensures
        sheet.start == grid_start(grid_of(*range)),
        rows_view(sheet.rows@) == grid_rows(grid_of(*range)),
{
    let start = range_start(range);
    let source = range_rows(range);
    let ghost g = grid_of(*range);
    let mut rows: Vec<Vec<CellValue>> = Vec::new();
    let mut k: usize = 0;
    while k < source.len()
        invariant
            0 <= k <= source.len(),
            rows@.len() == k,
            source@.len() == grid_height(g),
            forall|j: int|
                0 <= j < source@.len() ==> data_values((#[trigger] source@[j])@) == grid_row(g, j),
            forall|j: int| 0 <= j < k ==> (#[trigger] rows@[j])@ == grid_row(g, j),
        decreases source.len() - k,
    {
        let row = row_values(&source[k]);
        rows.push(row);
        k = k + 1;
    }
    proof {
        assert(rows_view(rows@) =~= grid_rows(g));
    }
    SheetRows { start, rows }
}

/// Reads the cells of a range in row-major order, each with its row and
/// column within the range, from 0.
pub fn sheet_cells(range: &Range<DataType>) -> (cells: Vec<(usize, usize, CellValue)>)
    ensures
        cells@ == grid_cells(grid_of(*range)),
        row_major(cells@),
{
    let source = range_cells(range);
    let ghost g = grid_of(*range);
    let mut cells: Vec<(usize, usize, CellValue)> = Vec::new();
    let mut i: usize = 0;
    while i < source.len()
        invariant
            0 <= i <= source.len(),
            cells@.len() == i,
            source@.len() == g.values.len(),
            source@.len() > 0 ==> g.width >= 1,
            forall|j: int|
                0 <= j < source@.len() ==> {
                    &&& (#[trigger] source@[j]).0 == j / g.width as int
                    &&& source@[j].1 == j % g.width as int
                    &&& data_value(source@[j].2) == g.values[j]
                },
            forall|j: int| 0 <= j < i ==> #[trigger] cells@[j] == grid_cells(g)[j],
        decreases source.len() - i,
    {
        let value = cell_value(&source[i].2);
        cells.push((source[i].0, source[i].1, value));
        i = i + 1;
    }
    proof {
        assert(cells@ =~= grid_cells(g));
        assert forall|i: int, j: int| 0 <= i < j < cells@.len() implies comes_before(
            #[trigger] cells@[i],
            #[trigger] cells@[j],
        ) by {
            lemma_grid_cells_row_major(g, i, j);
        }
    }
    cells
}

} // verus!
