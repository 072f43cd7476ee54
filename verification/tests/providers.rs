use calamine::{
    open_workbook_auto_from_rs, CellErrorType, DataType, Range, Reader, Sheet, SheetType,
    SheetVisible, Sheets,
};
use sqlite_xl::cells::{select_cells, sheet_name, CellRecord, CellsCursor, CellsTable};
use sqlite_xl::parser::{ParseRangeReferenceError, RangeReference};
use sqlite_xl::registry::{registrations, Function, Provider, Registration};
use sqlite_xl::rows::{LookupError, RowsCursor, RowsTable};
use sqlite_xl::sheets::{SheetsCursor, SheetsTable};
use sqlite_xl::value::{CellValue, RowHandle, SqlValue};
use sqlite_xl::workbook::{
    first_sheet_name, list_sheets, sheet_cells, sheet_metadata, sheet_rows, SheetMetadata,
    SheetRows,
};
use sqlite_xl::{xl_at, ColumnLocator};
use std::io::Cursor;

fn crc32(data: &[u8]) -> u32 {
    let mut crc = 0xffff_ffffu32;
    for &byte in data {
        crc ^= byte as u32;
        for _ in 0..8 {
            crc = if crc & 1 == 1 {
                (crc >> 1) ^ 0xedb8_8320
            } else {
                crc >> 1
            };
        }
    }
    !crc
}

fn put16(out: &mut Vec<u8>, v: u16) {
    out.extend_from_slice(&v.to_le_bytes());
}

fn put32(out: &mut Vec<u8>, v: u32) {
    out.extend_from_slice(&v.to_le_bytes());
}

/// A zip archive of the files, none of them compressed.
fn zip(files: &[(String, String)]) -> Vec<u8> {
    let mut out = Vec::new();
    let mut directory = Vec::new();
    for (name, text) in files {
        let data = text.as_bytes();
        let offset = out.len() as u32;
        let crc = crc32(data);
        put32(&mut out, 0x0403_4b50);
        put16(&mut out, 20);
        put16(&mut out, 0);
        put16(&mut out, 0);
        put16(&mut out, 0);
        put16(&mut out, 0x21);
        put32(&mut out, crc);
        put32(&mut out, data.len() as u32);
        put32(&mut out, data.len() as u32);
        put16(&mut out, name.len() as u16);
        put16(&mut out, 0);
        out.extend_from_slice(name.as_bytes());
        out.extend_from_slice(data);
        put32(&mut directory, 0x0201_4b50);
        put16(&mut directory, 20);
        put16(&mut directory, 20);
        put16(&mut directory, 0);
        put16(&mut directory, 0);
        put16(&mut directory, 0);
        put16(&mut directory, 0x21);
        put32(&mut directory, crc);
        put32(&mut directory, data.len() as u32);
        put32(&mut directory, data.len() as u32);
        put16(&mut directory, name.len() as u16);
        put16(&mut directory, 0);
        put16(&mut directory, 0);
        put16(&mut directory, 0);
        put16(&mut directory, 0);
        put32(&mut directory, 0);
        put32(&mut directory, offset);
        directory.extend_from_slice(name.as_bytes());
    }
    let start = out.len() as u32;
    out.extend_from_slice(&directory);
    put32(&mut out, 0x0605_4b50);
    put16(&mut out, 0);
    put16(&mut out, 0);
    put16(&mut out, files.len() as u16);
    put16(&mut out, files.len() as u16);
    put32(&mut out, directory.len() as u32);
    put32(&mut out, start);
    put16(&mut out, 0);
    out
}

/// The bytes of a workbook in the zipped XML format. Each sheet is given by
/// its name, its state (`""` for a sheet that is shown), and the rows of its
/// data as XML.
fn xlsx(sheets: &[(&str, &str, &str)]) -> Vec<u8> {
    let main = "http://schemas.openxmlformats.org/spreadsheetml/2006/main";
    let rel = "http://schemas.openxmlformats.org/officeDocument/2006/relationships";
    let package = "http://schemas.openxmlformats.org/package/2006/relationships";
    let mut workbook = format!(
        "<?xml version=\"1.0\" encoding=\"UTF-8\"?><workbook xmlns=\"{}\" xmlns:r=\"{}\"><sheets>",
        main, rel
    );
    let mut rels = format!(
        "<?xml version=\"1.0\" encoding=\"UTF-8\"?><Relationships xmlns=\"{}\">",
        package
    );
    let mut files = Vec::new();
    for (i, (name, state, rows)) in sheets.iter().enumerate() {
        let n = i + 1;
        let state = if state.is_empty() {
            String::new()
        } else {
            format!(" state=\"{}\"", state)
        };
        workbook.push_str(&format!(
            "<sheet name=\"{}\" sheetId=\"{}\"{} r:id=\"rId{}\"/>",
            name, n, state, n
        ));
        rels.push_str(&format!(
            "<Relationship Id=\"rId{}\" Type=\"{}/worksheet\" Target=\"worksheets/sheet{}.xml\"/>",
            n, rel, n
        ));
        files.push((
            format!("xl/worksheets/sheet{}.xml", n),
            format!(
                "<?xml version=\"1.0\" encoding=\"UTF-8\"?><worksheet xmlns=\"{}\"><sheetData>{}</sheetData></worksheet>",
                main, rows
            ),
        ));
    }
    workbook.push_str("</sheets></workbook>");
    rels.push_str("</Relationships>");
    files.push(("xl/workbook.xml".to_string(), workbook));
    files.push(("xl/_rels/workbook.xml.rels".to_string(), rels));
    files.push((
        "_rels/.rels".to_string(),
        format!(
            "<?xml version=\"1.0\" encoding=\"UTF-8\"?><Relationships xmlns=\"{}\"><Relationship Id=\"rId1\" Type=\"{}/officeDocument\" Target=\"xl/workbook.xml\"/></Relationships>",
            package, rel
        ),
    ));
    zip(&files)
}

/// A sheet with A1 = "x" and B1 = 42, and a second sheet that is hidden.
fn two_sheets() -> Vec<u8> {
    xlsx(&[
        (
            "Sheet1",
            "",
            "<row r=\"1\"><c r=\"A1\" t=\"str\"><v>x</v></c><c r=\"B1\"><v>42</v></c></row>",
        ),
        (
            "Notes",
            "hidden",
            "<row r=\"1\"><c r=\"A1\" t=\"str\"><v>n</v></c></row>",
        ),
        ("Deep", "veryHidden", ""),
    ])
}

/// A sheet whose cells start at C3: C3 = "a", D3 = 1.5, C4 = true and
/// D4 = #DIV/0!, and E5 = 9 alone in the last row.
fn offset_sheet() -> Vec<u8> {
    xlsx(&[(
        "Sheet1",
        "",
        "<row r=\"3\"><c r=\"C3\" t=\"str\"><v>a</v></c><c r=\"D3\"><v>1.5</v></c></row>\
         <row r=\"4\"><c r=\"C4\" t=\"b\"><v>1</v></c><c r=\"D4\" t=\"e\"><v>#DIV/0!</v></c></row>\
         <row r=\"5\"><c r=\"E5\"><v>9</v></c></row>",
    )])
}

/// A workbook without a sheet named `Sheet1`.
fn other_name() -> Vec<u8> {
    xlsx(&[("Data", "", "<row r=\"1\"><c r=\"A1\"><v>7</v></c></row>")])
}

/// Decodes the bytes of a workbook.
fn open(bytes: Vec<u8>) -> Sheets<Cursor<Vec<u8>>> {
    open_workbook_auto_from_rs(Cursor::new(bytes)).unwrap()
}

/// The sheet of a workbook by its name.
fn sheet(bytes: Vec<u8>, name: &str) -> Range<DataType> {
    open(bytes).worksheet_range(name).unwrap()
}

/// The first sheet of a workbook, as the rows provider reads it.
fn first_sheet(bytes: Vec<u8>) -> SheetRows {
    let mut book = open(bytes);
    let name = first_sheet_name(book.sheets_metadata()).unwrap().to_string();
    sheet_rows(&book.worksheet_range(&name).unwrap())
}

/// The sheet that the cells provider reads.
fn cells_sheet(bytes: Vec<u8>) -> Vec<(usize, usize, CellValue)> {
    sheet_cells(&sheet(bytes, sheet_name()))
}

fn text(s: &str) -> CellValue {
    CellValue::String(s.to_string())
}

fn number(f: f64) -> CellValue {
    CellValue::Float(f.to_bits())
}

#[test]
fn sheets_are_listed_in_workbook_order() {
    assert_eq!(
        list_sheets(open(two_sheets()).sheets_metadata()),
        vec![
            SheetMetadata {
                name: "Sheet1".to_string(),
                hidden: false
            },
            SheetMetadata {
                name: "Notes".to_string(),
                hidden: true
            },
            SheetMetadata {
                name: "Deep".to_string(),
                hidden: true
            },
        ]
    );
    assert_eq!(list_sheets(&[]), vec![]);
}

#[test]
fn first_sheet_is_the_first_listed() {
    let book = open(two_sheets());
    assert_eq!(first_sheet_name(book.sheets_metadata()), Some("Sheet1"));
    let book = open(other_name());
    assert_eq!(first_sheet_name(book.sheets_metadata()), Some("Data"));
    assert_eq!(first_sheet_name(&[]), None);
    let listed = [
        Sheet {
            name: "Second".to_string(),
            typ: SheetType::WorkSheet,
            visible: SheetVisible::Hidden,
        },
        Sheet {
            name: "First".to_string(),
            typ: SheetType::WorkSheet,
            visible: SheetVisible::Visible,
        },
    ];
    assert_eq!(first_sheet_name(&listed), Some("Second"));
}

#[test]
fn cells_provider_reads_the_sheet_of_one_name() {
    assert_eq!(sheet_name(), "Sheet1");
}

#[test]
fn rows_of_the_first_sheet() {
    let sheet = first_sheet(two_sheets());
    assert_eq!(sheet.start, Some((0, 0)));
    assert_eq!(sheet.rows, vec![vec![text("x"), number(42.0)]]);
    let sheet = first_sheet(other_name());
    assert_eq!(sheet.start, Some((0, 0)));
    assert_eq!(sheet.rows, vec![vec![number(7.0)]]);
}

#[test]
fn rows_of_a_sheet_that_starts_further_down() {
    let sheet = first_sheet(offset_sheet());
    assert_eq!(sheet.start, Some((2, 2)));
    assert_eq!(
        sheet.rows,
        vec![
            vec![text("a"), number(1.5), CellValue::Empty],
            vec![
                CellValue::Bool(true),
                CellValue::Error(CellErrorType::Div0),
                CellValue::Empty
            ],
            vec![CellValue::Empty, CellValue::Empty, number(9.0)],
        ]
    );
}

#[test]
fn rows_of_a_sheet_without_cells() {
    let sheet = first_sheet(xlsx(&[("Sheet1", "", "")]));
    assert_eq!(sheet.start, None);
    assert_eq!(sheet.rows, Vec::<Vec<CellValue>>::new());
    assert_eq!(
        sheet_rows(&Range::empty()),
        SheetRows {
            start: None,
            rows: vec![]
        }
    );
}

#[test]
fn rows_of_a_range_made_by_hand() {
    let mut range: Range<DataType> = Range::new((4, 1), (5, 3));
    range.set_value((4, 1), DataType::Int(-3));
    range.set_value((4, 3), DataType::Float(2.5));
    range.set_value((5, 1), DataType::DateTime(44197.25));
    range.set_value((5, 2), DataType::Duration(0.5));
    range.set_value((5, 3), DataType::DurationIso("PT1H".to_string()));
    assert_eq!(
        sheet_rows(&range),
        SheetRows {
            start: Some((4, 1)),
            rows: vec![
                vec![CellValue::Int(-3), CellValue::Empty, number(2.5)],
                vec![
                    CellValue::DateTime(44197.25f64.to_bits()),
                    CellValue::Duration(0.5f64.to_bits()),
                    CellValue::DurationIso("PT1H".to_string()),
                ],
            ]
        }
    );
    assert_eq!(
        sheet_cells(&range),
        vec![
            (0, 0, CellValue::Int(-3)),
            (0, 1, CellValue::Empty),
            (0, 2, number(2.5)),
            (1, 0, CellValue::DateTime(44197.25f64.to_bits())),
            (1, 1, CellValue::Duration(0.5f64.to_bits())),
            (1, 2, CellValue::DurationIso("PT1H".to_string())),
        ]
    );
}

#[test]
fn every_kind_of_cell_is_read() {
    let mut range: Range<DataType> = Range::new((0, 0), (0, 9));
    let cells = vec![
        DataType::Int(7),
        DataType::Float(-1.25),
        DataType::String("s".to_string()),
        DataType::Bool(false),
        DataType::DateTime(1.0),
        DataType::Duration(2.0),
        DataType::DateTimeIso("2021-01-01".to_string()),
        DataType::DurationIso("PT2S".to_string()),
        DataType::Error(CellErrorType::Num),
        DataType::Empty,
    ];
    for (column, cell) in cells.into_iter().enumerate() {
        range.set_value((0, column as u32), cell);
    }
    assert_eq!(
        sheet_rows(&range).rows,
        vec![vec![
            CellValue::Int(7),
            number(-1.25),
            text("s"),
            CellValue::Bool(false),
            CellValue::DateTime(1.0f64.to_bits()),
            CellValue::Duration(2.0f64.to_bits()),
            CellValue::DateTimeIso("2021-01-01".to_string()),
            CellValue::DurationIso("PT2S".to_string()),
            CellValue::Error(CellErrorType::Num),
            CellValue::Empty,
        ]]
    );
}

#[test]
fn cells_come_in_row_major_order() {
    assert_eq!(
        cells_sheet(offset_sheet()),
        vec![
            (0, 0, text("a")),
            (0, 1, number(1.5)),
            (0, 2, CellValue::Empty),
            (1, 0, CellValue::Bool(true)),
            (1, 1, CellValue::Error(CellErrorType::Div0)),
            (1, 2, CellValue::Empty),
            (2, 0, CellValue::Empty),
            (2, 1, CellValue::Empty),
            (2, 2, number(9.0)),
        ]
    );
    assert_eq!(
        sheet_cells(&sheet(two_sheets(), "Notes")),
        vec![(0, 0, text("n"))]
    );
    assert_eq!(sheet_cells(&sheet(two_sheets(), "Deep")), vec![]);
    assert_eq!(sheet_cells(&Range::empty()), vec![]);
}

#[test]
fn sheets_cursor_reads_names_and_visibility() {
    let mut table = SheetsTable::connect().1;
    let mut cursor = table.open();
    assert_eq!(cursor.rowid(), 0);
    assert!(cursor.eof());
    assert_eq!(cursor.column(0), None);
    cursor.filter(open(two_sheets()).sheets_metadata());
    let mut seen = Vec::new();
    while !cursor.eof() {
        seen.push((cursor.rowid(), cursor.column(0), cursor.column(1)));
        assert_eq!(cursor.column(2), None);
        assert_eq!(cursor.column(3), None);
        assert_eq!(cursor.column(-1), None);
        cursor.next();
    }
    assert_eq!(
        seen,
        vec![
            (
                0,
                Some(SqlValue::Text("Sheet1".to_string())),
                Some(SqlValue::Bool(true))
            ),
            (
                1,
                Some(SqlValue::Text("Notes".to_string())),
                Some(SqlValue::Bool(false))
            ),
            (
                2,
                Some(SqlValue::Text("Deep".to_string())),
                Some(SqlValue::Bool(false))
            ),
        ]
    );
    assert_eq!(cursor.rowid(), 3);
    assert_eq!(cursor.column(0), None);
    table.destroy();
}

#[test]
fn sheets_cursor_of_a_workbook_without_sheets() {
    let mut cursor = SheetsCursor::new();
    cursor.filter(&[]);
    assert!(cursor.eof());
    assert_eq!(cursor.column(0), None);
    cursor.filter(open(other_name()).sheets_metadata());
    assert!(!cursor.eof());
    assert_eq!(cursor.column(0), Some(SqlValue::Text("Data".to_string())));
}

#[test]
fn next_does_not_look() {
    let mut cursor = SheetsCursor::new();
    cursor.next();
    cursor.next();
    assert_eq!(cursor.rowid(), 2);
    assert!(cursor.eof());
    // The row identifier stays where it is when rows are built.
    cursor.filter(open(two_sheets()).sheets_metadata());
    assert_eq!(cursor.rowid(), 2);
    assert!(!cursor.eof());
    assert_eq!(cursor.column(0), Some(SqlValue::Text("Deep".to_string())));
    cursor.next();
    assert!(cursor.eof());
    cursor.next();
    assert!(cursor.eof());
    assert_eq!(cursor.rowid(), 4);
}

#[test]
fn rows_cursor_end_to_end() {
    let mut table = RowsTable::connect().1;
    let mut cursor = table.open();
    assert_eq!(cursor.filter(first_sheet(two_sheets())), Ok(()));
    assert!(!cursor.eof());
    assert_eq!(cursor.rowid(), 0);
    assert_eq!(cursor.column(0), Some(SqlValue::Integer(1)));
    assert_eq!(cursor.column(2), None);
    assert_eq!(cursor.column(7), None);
    let handle = match cursor.column(1) {
        Some(SqlValue::Pointer(handle)) => handle,
        other => panic!("no handle: {:?}", other),
    };
    assert_eq!(
        cursor.at(handle, &ColumnLocator::Name("A".to_string())),
        Ok(SqlValue::Text("x".to_string()))
    );
    assert_eq!(
        cursor.at(handle, &ColumnLocator::Index(1)),
        Ok(SqlValue::Double(42.0f64.to_bits()))
    );
    let row = cursor.row(handle).unwrap();
    assert_eq!(row, &vec![text("x"), number(42.0)]);
    assert_eq!(
        xl_at(row, &ColumnLocator::Name("A".to_string())),
        Ok(SqlValue::Text("x".to_string()))
    );
    assert_eq!(
        xl_at(row, &ColumnLocator::Index(1)),
        Ok(SqlValue::Double(42.0f64.to_bits()))
    );
    cursor.next();
    assert!(cursor.eof());
    assert_eq!(cursor.rowid(), 1);
    assert_eq!(cursor.column(0), None);
    assert_eq!(cursor.column(1), None);
}

#[test]
fn row_numbers_count_from_where_the_sheet_starts() {
    let mut cursor = RowsCursor::new();
    assert_eq!(cursor.filter(first_sheet(offset_sheet())), Ok(()));
    let mut numbers = Vec::new();
    while !cursor.eof() {
        numbers.push((cursor.rowid(), cursor.column(0)));
        cursor.next();
    }
    assert_eq!(
        numbers,
        vec![
            (0, Some(SqlValue::Integer(3))),
            (1, Some(SqlValue::Integer(4))),
            (2, Some(SqlValue::Integer(5))),
        ]
    );
}

#[test]
fn row_numbers_of_rows_given_by_hand() {
    let mut cursor = RowsCursor::new();
    assert_eq!(
        cursor.filter(SheetRows {
            start: Some((4294967295, 7)),
            rows: vec![vec![], vec![CellValue::Int(1)]],
        }),
        Ok(())
    );
    assert_eq!(cursor.column(0), Some(SqlValue::Integer(4294967296)));
    cursor.next();
    assert_eq!(cursor.column(0), Some(SqlValue::Integer(4294967297)));
    // Rows of a sheet without a start have no number.
    let mut cursor = RowsCursor::new();
    assert_eq!(
        cursor.filter(SheetRows {
            start: None,
            rows: vec![vec![CellValue::Int(1)]],
        }),
        Ok(())
    );
    assert_eq!(cursor.column(0), None);
    assert_eq!(
        cursor.column(1),
        Some(SqlValue::Pointer(RowHandle { rowid: 0 }))
    );
}

#[test]
fn accessor_reads_what_the_row_holds() {
    let mut cursor = RowsCursor::new();
    assert_eq!(cursor.filter(first_sheet(offset_sheet())), Ok(()));
    let expected = vec![
        vec![
            SqlValue::Text("a".to_string()),
            SqlValue::Double(1.5f64.to_bits()),
            SqlValue::Null,
        ],
        vec![
            SqlValue::Bool(true),
            SqlValue::Text("#DIV/0!".to_string()),
            SqlValue::Null,
        ],
        vec![
            SqlValue::Null,
            SqlValue::Null,
            SqlValue::Double(9.0f64.to_bits()),
        ],
    ];
    for values in expected {
        let handle = RowHandle {
            rowid: cursor.rowid(),
        };
        assert_eq!(cursor.column(1), Some(SqlValue::Pointer(handle)));
        for (n, value) in values.iter().enumerate() {
            assert_eq!(
                cursor.at(handle, &ColumnLocator::Index(n as i64)),
                Ok(value.clone())
            );
        }
        assert_eq!(
            cursor.at(handle, &ColumnLocator::Index(3)),
            Err(LookupError::OutOfRange)
        );
        assert_eq!(
            cursor.at(handle, &ColumnLocator::Name("A1".to_string())),
            Err(LookupError::Locator)
        );
        cursor.next();
    }
    assert!(cursor.eof());
}

#[test]
fn handle_is_good_for_the_current_row_only() {
    let mut cursor = RowsCursor::new();
    let early = RowHandle { rowid: 0 };
    assert_eq!(cursor.row(early), Err(LookupError::Handle));
    assert_eq!(cursor.filter(first_sheet(offset_sheet())), Ok(()));
    assert!(cursor.row(early).is_ok());
    assert_eq!(
        cursor.row(RowHandle { rowid: 1 }),
        Err(LookupError::Handle)
    );
    assert_eq!(
        cursor.row(RowHandle { rowid: -1 }),
        Err(LookupError::Handle)
    );
    cursor.next();
    assert_eq!(cursor.row(early), Err(LookupError::Handle));
    assert_eq!(
        cursor.at(early, &ColumnLocator::Index(0)),
        Err(LookupError::Handle)
    );
    assert!(cursor.row(RowHandle { rowid: 1 }).is_ok());
    cursor.next();
    cursor.next();
    assert!(cursor.eof());
    assert_eq!(
        cursor.row(RowHandle { rowid: 3 }),
        Err(LookupError::Handle)
    );
}

#[test]
fn rows_cursor_takes_new_rows() {
    let mut cursor = RowsCursor::new();
    assert_eq!(cursor.filter(first_sheet(offset_sheet())), Ok(()));
    assert_eq!(cursor.column(0), Some(SqlValue::Integer(3)));
    assert_eq!(cursor.filter(first_sheet(two_sheets())), Ok(()));
    assert_eq!(cursor.column(0), Some(SqlValue::Integer(1)));
    assert_eq!(cursor.filter(first_sheet(xlsx(&[("Sheet1", "", "")]))), Ok(()));
    assert!(cursor.eof());
    assert_eq!(cursor.column(0), None);
}

fn record(row: i64, column: i64, value: CellValue) -> CellRecord {
    CellRecord { row, column, value }
}

fn grid() -> Vec<(usize, usize, CellValue)> {
    let mut cells = Vec::new();
    for row in 0..4 {
        for column in 0..3 {
            cells.push((row, column, CellValue::Int((10 * row + column) as i64)));
        }
    }
    cells
}

#[test]
fn select_keeps_the_cells_within_the_range() {
    let range = RangeReference {
        start: (1, 1),
        end: (2, 2),
    };
    assert_eq!(
        select_cells(&grid(), &range),
        vec![
            record(2, 1, CellValue::Int(11)),
            record(2, 2, CellValue::Int(12)),
            record(3, 1, CellValue::Int(21)),
            record(3, 2, CellValue::Int(22)),
        ]
    );
}

#[test]
fn select_counts_the_bounds_in() {
    let all = RangeReference {
        start: (0, 0),
        end: (2, 3),
    };
    let expected: Vec<CellRecord> = grid()
        .into_iter()
        .map(|(row, column, value)| record(row as i64, column as i64, value))
        .collect();
    assert_eq!(select_cells(&grid(), &all), expected);
    let one = RangeReference {
        start: (2, 3),
        end: (2, 3),
    };
    assert_eq!(
        select_cells(&grid(), &one),
        vec![record(6, 2, CellValue::Int(32))]
    );
    let wide = RangeReference {
        start: (0, 0),
        end: (u32::MAX, u32::MAX),
    };
    assert_eq!(select_cells(&grid(), &wide).len(), 12);
}

#[test]
fn select_of_a_range_that_holds_nothing() {
    let backwards = RangeReference {
        start: (2, 2),
        end: (0, 0),
    };
    assert_eq!(select_cells(&grid(), &backwards), vec![]);
    let beyond = RangeReference {
        start: (5, 9),
        end: (6, 12),
    };
    assert_eq!(select_cells(&grid(), &beyond), vec![]);
    let any = RangeReference {
        start: (0, 0),
        end: (1, 1),
    };
    assert_eq!(select_cells(&vec![], &any), vec![]);
}

#[test]
fn select_keeps_order_and_leaves_nothing_out() {
    let source = vec![
        (3, 0, CellValue::Int(1)),
        (0, 0, CellValue::Int(2)),
        (9, 9, CellValue::Int(3)),
        (0, 0, CellValue::Int(4)),
        (1, 1, text("five")),
        (usize::MAX, 0, CellValue::Int(6)),
    ];
    let range = RangeReference {
        start: (0, 0),
        end: (1, 3),
    };
    assert_eq!(
        select_cells(&source, &range),
        vec![
            record(3, 0, CellValue::Int(1)),
            record(0, 0, CellValue::Int(2)),
            record(0, 0, CellValue::Int(4)),
            record(1, 1, text("five")),
        ]
    );
}

#[test]
fn select_moves_rows_by_the_start_of_the_range() {
    let source = vec![(4294967295, 7, CellValue::Empty)];
    let range = RangeReference {
        start: (7, 4294967295),
        end: (7, 4294967295),
    };
    assert_eq!(
        select_cells(&source, &range),
        vec![record(8589934590, 7, CellValue::Empty)]
    );
}

#[test]
fn cells_cursor_reads_the_range() {
    let mut table = CellsTable::connect().1;
    let mut cursor = table.open();
    assert!(cursor.eof());
    assert_eq!(cursor.filter(&cells_sheet(offset_sheet()), "B1:C2"), Ok(()));
    let mut seen = Vec::new();
    while !cursor.eof() {
        seen.push((
            cursor.rowid(),
            cursor.column(0),
            cursor.column(1),
            cursor.column(2),
        ));
        assert_eq!(cursor.column(3), None);
        assert_eq!(cursor.column(4), None);
        assert_eq!(cursor.column(5), None);
        cursor.next();
    }
    assert_eq!(
        seen,
        vec![
            (
                0,
                Some(SqlValue::Integer(0)),
                Some(SqlValue::Integer(1)),
                Some(SqlValue::Double(1.5f64.to_bits()))
            ),
            (
                1,
                Some(SqlValue::Integer(0)),
                Some(SqlValue::Integer(2)),
                Some(SqlValue::Null)
            ),
            (
                2,
                Some(SqlValue::Integer(1)),
                Some(SqlValue::Integer(1)),
                Some(SqlValue::Text("#DIV/0!".to_string()))
            ),
            (
                3,
                Some(SqlValue::Integer(1)),
                Some(SqlValue::Integer(2)),
                Some(SqlValue::Null)
            ),
        ]
    );
    assert_eq!(cursor.column(0), None);
}

#[test]
fn cells_cursor_reads_every_cell_once() {
    let mut cursor = CellsCursor::new();
    assert_eq!(cursor.filter(&cells_sheet(two_sheets()), "A1:B1"), Ok(()));
    assert_eq!(cursor.column(2), Some(SqlValue::Text("x".to_string())));
    cursor.next();
    assert_eq!(
        cursor.column(2),
        Some(SqlValue::Double(42.0f64.to_bits()))
    );
    cursor.next();
    assert!(cursor.eof());
    let mut cursor = CellsCursor::new();
    assert_eq!(cursor.filter(&cells_sheet(two_sheets()), "C5:D9"), Ok(()));
    assert!(cursor.eof());
}

#[test]
fn cells_cursor_fails_on_a_text_that_is_no_range() {
    let cells = cells_sheet(two_sheets());
    let mut cursor = CellsCursor::new();
    assert_eq!(
        cursor.filter(&cells, ""),
        Err(ParseRangeReferenceError::Empty)
    );
    assert_eq!(
        cursor.filter(&cells, "A1"),
        Err(ParseRangeReferenceError::Empty)
    );
    assert_eq!(
        cursor.filter(&cells, "A1B2"),
        Err(ParseRangeReferenceError::Syntax(
            "expected ':' between the corners"
        ))
    );
    assert_eq!(
        cursor.filter(&cells, "A0:B2"),
        Err(ParseRangeReferenceError::Unknown)
    );
    assert!(cursor.eof());
    assert_eq!(cursor.rowid(), 0);
}

#[test]
fn cells_cursor_stays_as_it_was_when_filter_fails() {
    let cells = cells_sheet(two_sheets());
    let mut cursor = CellsCursor::new();
    assert_eq!(cursor.filter(&cells, "A1:A1"), Ok(()));
    assert_eq!(
        cursor.filter(&cells, "A1:"),
        Err(ParseRangeReferenceError::Empty)
    );
    assert!(!cursor.eof());
    assert_eq!(cursor.column(2), Some(SqlValue::Text("x".to_string())));
    assert_eq!(cursor.filter(&vec![], "A1:A1"), Ok(()));
    assert!(cursor.eof());
}

#[test]
fn sheet_is_hidden_unless_shown() {
    let table = [
        (SheetVisible::Visible, false),
        (SheetVisible::Hidden, true),
        (SheetVisible::VeryHidden, true),
    ];
    for (visible, hidden) in table {
        let sheet = Sheet {
            name: "Summary".to_string(),
            typ: SheetType::ChartSheet,
            visible,
        };
        assert_eq!(
            sheet_metadata(&sheet),
            SheetMetadata {
                name: "Summary".to_string(),
                hidden
            }
        );
    }
}

#[test]
fn registry_lists_providers_and_functions() {
    assert_eq!(
        registrations(),
        vec![
            Registration::Table {
                name: "xl_sheets",
                provider: Provider::Sheets,
                overloads: false
            },
            Registration::Table {
                name: "xl_cells",
                provider: Provider::Cells,
                overloads: false
            },
            Registration::Table {
                name: "xl_rows",
                provider: Provider::Rows,
                overloads: true
            },
            Registration::Scalar {
                name: "xl_at",
                arguments: 2,
                function: Function::XlAt
            },
            Registration::Scalar {
                name: "xl_version",
                arguments: 0,
                function: Function::XlVersion
            },
        ]
    );
}
