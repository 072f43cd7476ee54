use sqlite_xl::cells::CellsTable;
use sqlite_xl::plan::{
    negotiate, BestIndexError, Constraint, ConstraintOperator, ConstraintUsage, IndexPlan,
};
use sqlite_xl::rows::RowsTable;
use sqlite_xl::sheets::SheetsTable;

fn eq(column: i32) -> Constraint {
    Constraint {
        column,
        usable: true,
        op: Some(ConstraintOperator::EQ),
    }
}

fn consumed(argv_index: i32) -> Option<ConstraintUsage> {
    Some(ConstraintUsage {
        argv_index,
        omit: true,
    })
}

fn plan(usages: Vec<Option<ConstraintUsage>>) -> IndexPlan {
    IndexPlan {
        usages,
        estimated_cost: 100000,
        estimated_rows: 100000,
        idx_num: 1,
    }
}

#[test]
fn sheets_plan_takes_the_workbook() {
    let table = SheetsTable::connect().1;
    assert_eq!(table.best_index(&vec![eq(2)]), Ok(plan(vec![consumed(1)])));
    assert_eq!(
        table.best_index(&vec![eq(0), eq(2), eq(1)]),
        Ok(plan(vec![None, consumed(1), None]))
    );
}

#[test]
fn sheets_plan_needs_the_workbook() {
    let table = SheetsTable::connect().1;
    assert_eq!(table.best_index(&vec![]), Err(BestIndexError::Error));
    assert_eq!(
        table.best_index(&vec![eq(0), eq(1)]),
        Err(BestIndexError::Error)
    );
}

#[test]
fn sheets_plan_needs_an_equality() {
    let table = SheetsTable::connect().1;
    let operators = [
        ConstraintOperator::GT,
        ConstraintOperator::LE,
        ConstraintOperator::LT,
        ConstraintOperator::GE,
        ConstraintOperator::MATCH,
        ConstraintOperator::LIKE,
        ConstraintOperator::GLOB,
        ConstraintOperator::REGEXP,
        ConstraintOperator::NE,
        ConstraintOperator::ISNOT,
        ConstraintOperator::ISNOTNULL,
        ConstraintOperator::ISNULL,
        ConstraintOperator::IS,
        ConstraintOperator::LIMIT,
        ConstraintOperator::OFFSET,
        ConstraintOperator::FUNCTION(150),
    ];
    for op in operators {
        let constraint = Constraint {
            column: 2,
            usable: true,
            op: Some(op),
        };
        assert_eq!(
            table.best_index(&vec![constraint]),
            Err(BestIndexError::Constraint)
        );
    }
    let unknown = Constraint {
        column: 2,
        usable: true,
        op: None,
    };
    assert_eq!(
        table.best_index(&vec![unknown]),
        Err(BestIndexError::Constraint)
    );
}

#[test]
fn sheets_plan_needs_a_usable_constraint() {
    let table = SheetsTable::connect().1;
    let unusable = Constraint {
        column: 2,
        usable: false,
        op: Some(ConstraintOperator::EQ),
    };
    assert_eq!(
        table.best_index(&vec![unusable]),
        Err(BestIndexError::Constraint)
    );
    // One bad constraint on the workbook spoils the plan, whatever else binds it.
    assert_eq!(
        table.best_index(&vec![eq(2), unusable]),
        Err(BestIndexError::Constraint)
    );
}

#[test]
fn rows_plan_takes_the_workbook() {
    let table = RowsTable::connect().1;
    assert_eq!(table.best_index(&vec![eq(2)]), Ok(plan(vec![consumed(1)])));
    assert_eq!(table.best_index(&vec![eq(1)]), Err(BestIndexError::Error));
    let greater = Constraint {
        column: 2,
        usable: true,
        op: Some(ConstraintOperator::GT),
    };
    assert_eq!(
        table.best_index(&vec![greater]),
        Err(BestIndexError::Constraint)
    );
    // Constraints on the other columns are left alone, whatever they are.
    let on_row_number = Constraint {
        column: 0,
        usable: false,
        op: Some(ConstraintOperator::GT),
    };
    assert_eq!(
        table.best_index(&vec![on_row_number, eq(2)]),
        Ok(plan(vec![None, consumed(1)]))
    );
}

#[test]
fn cells_plan_takes_workbook_then_range() {
    let table = CellsTable::connect().1;
    assert_eq!(
        table.best_index(&vec![eq(3), eq(4)]),
        Ok(plan(vec![consumed(1), consumed(2)]))
    );
    // The order of the arguments is fixed, not that of the constraints.
    assert_eq!(
        table.best_index(&vec![eq(4), eq(0), eq(3)]),
        Ok(plan(vec![consumed(2), None, consumed(1)]))
    );
}

#[test]
fn cells_plan_needs_workbook_and_range() {
    let table = CellsTable::connect().1;
    assert_eq!(table.best_index(&vec![]), Err(BestIndexError::Error));
    assert_eq!(table.best_index(&vec![eq(3)]), Err(BestIndexError::Error));
    assert_eq!(table.best_index(&vec![eq(4)]), Err(BestIndexError::Error));
    assert_eq!(
        table.best_index(&vec![eq(0), eq(1), eq(2)]),
        Err(BestIndexError::Error)
    );
    let like = Constraint {
        column: 4,
        usable: true,
        op: Some(ConstraintOperator::LIKE),
    };
    assert_eq!(
        table.best_index(&vec![eq(3), like]),
        Err(BestIndexError::Constraint)
    );
    let unusable = Constraint {
        column: 3,
        usable: false,
        op: Some(ConstraintOperator::EQ),
    };
    assert_eq!(
        table.best_index(&vec![unusable, eq(4)]),
        Err(BestIndexError::Constraint)
    );
    // A bad binding is told before a missing one.
    assert_eq!(
        table.best_index(&vec![like]),
        Err(BestIndexError::Constraint)
    );
}

#[test]
fn negotiate_places_values_in_the_order_of_the_hidden_columns() {
    assert_eq!(
        negotiate(&vec![eq(7), eq(5), eq(9), eq(5)], &[9, 5, 7]),
        Ok(plan(vec![
            consumed(3),
            consumed(2),
            consumed(1),
            consumed(2)
        ]))
    );
    assert_eq!(negotiate(&vec![eq(1)], &[]), Ok(plan(vec![None])));
    assert_eq!(negotiate(&vec![], &[]), Ok(plan(vec![])));
    assert_eq!(negotiate(&vec![eq(1)], &[1, 2]), Err(BestIndexError::Error));
}

#[test]
fn schemas() {
    assert_eq!(
        SheetsTable::connect().0,
        "CREATE TABLE x(name, visible, workbook hidden)"
    );
    assert_eq!(
        RowsTable::connect().0,
        "CREATE TABLE x(row_number, row, workbook hidden)"
    );
    assert_eq!(
        CellsTable::connect().0,
        "CREATE TABLE x(row, column, value, workbook hidden, range hidden)"
    );
    assert_eq!(SheetsTable::connect().0, SheetsTable::connect().0);
}
