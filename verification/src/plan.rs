//! Constraint negotiation: which predicates of a query a table provider
//! consumes, and in what order their values reach the cursor.
//!
//! A provider names its hidden columns in the order in which `filter` takes
//! their values. A plan exists only where each of them is bound by a usable
//! equality; there is no scan without them.

use vstd::prelude::*;

verus! {

/// The operators that the engine reports on a constraint.
#[derive(Debug, Clone, Copy, PartialEq, Eq)]
pub enum ConstraintOperator {
    EQ,
    GT,
    LE,
    LT,
    GE,
    MATCH,
    LIKE,
    GLOB,
    REGEXP,
    NE,
    ISNOT,
    ISNOTNULL,
    ISNULL,
    IS,
    LIMIT,
    OFFSET,
    FUNCTION(u8),
}

/// One candidate predicate of a query: a column, an operator the engine
/// knows or not, and whether the provider may use it.
#[derive(Debug, Clone, Copy, PartialEq, Eq)]
pub struct Constraint {
    pub column: i32,
    pub usable: bool,
    pub op: Option<ConstraintOperator>,
}

/// What the provider asks of a constraint it consumes: the one-based place of
/// its value among the arguments of `filter`, and whether the engine may omit
/// its own check of the predicate.
#[derive(Debug, Clone, Copy, PartialEq, Eq)]
pub struct ConstraintUsage {
    pub argv_index: i32,
    pub omit: bool,
}

/// A plan for one query: for each constraint, in the order given, the usage
/// asked of it or `None` where it is left alone; and the estimates.
#[derive(Debug, PartialEq, Eq)]
pub struct IndexPlan {
    pub usages: Vec<Option<ConstraintUsage>>,
    pub estimated_cost: u32,
    pub estimated_rows: i64,
    pub idx_num: i32,
}

/// Why no plan exists.
#[derive(Debug, Clone, Copy, PartialEq, Eq)]
pub enum BestIndexError {
    /// A hidden column is bound by a predicate that is unusable or no
    /// equality.
    Constraint,
    /// A hidden column is not bound at all.
    Error,
}

/// The cost put on every plan. It is large, to keep the optimizer from
/// choosing the table where another would do.
pub const ESTIMATED_COST: u32 = 100000;

/// The number of rows put on every plan.
pub const ESTIMATED_ROWS: i64 = 100000;

/// The number of the one plan there is.
pub const PLAN_NUMBER: i32 = 1;

/// A usable equality.
pub open spec fn is_usable_equality(c: Constraint) -> bool {
    c.usable && c.op == Some(ConstraintOperator::EQ)
}

/// The place of `column` among the hidden columns, where it is one of them:
/// the first place that holds it.
pub open spec fn hidden_place(hidden: Seq<i32>, column: i32) -> Option<int>
    decreases hidden.len(),
{
    if hidden.len() == 0 {
        None
    } else if hidden_place(hidden.drop_last(), column) is Some {
        hidden_place(hidden.drop_last(), column)
    } else if hidden.last() == column {
        Some(hidden.len() - 1)
    } else {
        None
    }
}

/// Some constraint binds a hidden column otherwise than by a usable equality.
pub open spec fn has_bad_binding(constraints: Seq<Constraint>, hidden: Seq<i32>) -> bool {
    exists|i: int|
        0 <= i < constraints.len() && hidden_place(hidden, (#[trigger] constraints[i]).column)
            is Some && !is_usable_equality(constraints[i])
}

/// Some constraint is on `column`.
pub open spec fn is_bound(constraints: Seq<Constraint>, column: i32) -> bool {
    exists|i: int| 0 <= i < constraints.len() && (#[trigger] constraints[i]).column == column
}

/// Some hidden column has no constraint on it.
pub open spec fn has_unbound(constraints: Seq<Constraint>, hidden: Seq<i32>) -> bool {
    exists|k: int| 0 <= k < hidden.len() && !is_bound(constraints, #[trigger] hidden[k])
}

/// The usage asked of a constraint in a plan: a hidden column's constraint is
/// consumed, with its value at the column's place; any other is left alone.
pub open spec fn usage_of(c: Constraint, hidden: Seq<i32>) -> Option<ConstraintUsage> {
    match hidden_place(hidden, c.column) {
        Some(k) => Some(ConstraintUsage { argv_index: (k + 1) as i32, omit: true }),
        None => None,
    }
}

/// The outcome of the negotiation.
pub open spec fn negotiated(constraints: Seq<Constraint>, hidden: Seq<i32>) -> Result<
    Seq<Option<ConstraintUsage>>,
    BestIndexError,
> {
    if has_bad_binding(constraints, hidden) {
        Err(BestIndexError::Constraint)
    } else if has_unbound(constraints, hidden) {
        Err(BestIndexError::Error)
    } else {
        Ok(Seq::new(constraints.len(), |i: int| usage_of(constraints[i], hidden)))
    }
}

/// A place that `hidden_place` gives holds the column, and no earlier place
/// does; it gives none only where no place holds it.
pub proof fn lemma_hidden_place(hidden: Seq<i32>, column: i32)
    ensures
        hidden_place(hidden, column) matches Some(k) ==> 0 <= k < hidden.len() && hidden[k]
            == column,
        hidden_place(hidden, column) matches Some(k) ==> forall|j: int|
            0 <= j < k ==> #[trigger] hidden[j] != column,
        hidden_place(hidden, column) is None ==> forall|j: int|
            0 <= j < hidden.len() ==> #[trigger] hidden[j] != column,
    decreases hidden.len(),
{
    if hidden.len() > 0 {
        let front = hidden.drop_last();
        lemma_hidden_place(front, column);
        assert forall|j: int| 0 <= j < front.len() implies front[j] == hidden[j] by {}
        match hidden_place(hidden, column) {
            Some(k) => {
                assert forall|j: int| 0 <= j < k implies #[trigger] hidden[j] != column by {
                    assert(front[j] == hidden[j]);
                }
            },
            None => {
                assert forall|j: int| 0 <= j < hidden.len() implies #[trigger] hidden[j]
                    != column by {
                    if j < front.len() {
                        assert(front[j] == hidden[j]);
                    }
                }
            },
        }
    }
}

/// No plan without the bindings: a plan exists only where each hidden column
/// is bound by a usable equality. A hidden column that no constraint is on
/// leaves none, and a constraint on a hidden column that is unusable or no
/// equality is answered with `Constraint`.
pub proof fn lemma_plan_needs_equalities(constraints: Seq<Constraint>, hidden: Seq<i32>)
    ensures
        negotiated(constraints, hidden) is Ok ==> forall|k: int|
            0 <= k < hidden.len() ==> exists|i: int|
                0 <= i < constraints.len() && (#[trigger] constraints[i]).column
                    == #[trigger] hidden[k] && is_usable_equality(constraints[i]),
        has_unbound(constraints, hidden) ==> negotiated(constraints, hidden) is Err,
        has_bad_binding(constraints, hidden) ==> negotiated(constraints, hidden) == Err::<
            Seq<Option<ConstraintUsage>>,
            BestIndexError,
        >(BestIndexError::Constraint),
{
    if negotiated(constraints, hidden) is Ok {
        assert forall|k: int| 0 <= k < hidden.len() implies exists|i: int|
            0 <= i < constraints.len() && (#[trigger] constraints[i]).column
                == #[trigger] hidden[k] && is_usable_equality(constraints[i]) by {
            assert(is_bound(constraints, hidden[k]));
            let i = choose|i: int|
                0 <= i < constraints.len() && (#[trigger] constraints[i]).column == hidden[k];
            lemma_hidden_place(hidden, hidden[k]);
            assert(hidden_place(hidden, constraints[i].column) is Some);
            assert(is_usable_equality(constraints[i]));
        }
    }
}

/// The place of `column` among the hidden columns, where it is one of them.
fn find_hidden(hidden: &[i32], column: i32) -> (place: Option<usize>)
    ensures
        match place {
            Some(k) => hidden_place(hidden@, column) == Some(k as int),
            None => hidden_place(hidden@, column) is None,
        },
{
    let mut k: usize = 0;
    while k < hidden.len()
        invariant
            0 <= k <= hidden.len(),
            forall|j: int| 0 <= j < k ==> hidden@[j] != column,
        decreases hidden.len() - k,
    {
        if hidden[k] == column {
            proof {
                lemma_hidden_place(hidden@, column);
            }
            return Some(k);
        }
        k = k + 1;
    }
    proof {
        lemma_hidden_place(hidden@, column);
    }
    None
}

/// Negotiates a plan for a provider whose hidden columns are `hidden`, in the
/// order in which `filter` takes their values.
///
/// Fails with `Constraint` where a constraint on a hidden column is unusable
/// or no equality, else with `Error` where a hidden column has no constraint.
/// Otherwise each constraint on a hidden column is consumed, its value at the
/// column's place from 1, and the engine is told to omit its own check; every
/// other constraint is left alone. The places must fit in 32 bits.
pub fn negotiate(constraints: &Vec<Constraint>, hidden: &[i32]) -> (result: Result<
    IndexPlan,
    BestIndexError,
>)
    requires
        hidden@.len() < i32::MAX,
    ensures
        match result {
            Ok(plan) => {
                &&& negotiated(constraints@, hidden@) == Ok::<
                    Seq<Option<ConstraintUsage>>,
                    BestIndexError,
                >(plan.usages@)
                &&& plan.estimated_cost == ESTIMATED_COST
                &&& plan.estimated_rows == ESTIMATED_ROWS
                &&& plan.idx_num == PLAN_NUMBER
            },
            Err(e) => negotiated(constraints@, hidden@) == Err::<
                Seq<Option<ConstraintUsage>>,
                BestIndexError,
            >(e),
        },
{
    let mut usages: Vec<Option<ConstraintUsage>> = Vec::new();
    let mut i: usize = 0;
    while i < constraints.len()
        invariant
            0 <= i <= constraints.len(),
            hidden@.len() < i32::MAX,
            usages@.len() == i,
            forall|j: int| 0 <= j < i ==> usages@[j] == usage_of(#[trigger] constraints@[j], hidden@),
            forall|j: int|
                0 <= j < i && hidden_place(hidden@, (#[trigger] constraints@[j]).column) is Some
                    ==> is_usable_equality(constraints@[j]),
        decreases constraints.len() - i,
    {
        let c = constraints[i];
        match find_hidden(hidden, c.column) {
            Some(k) => {
                let equality = match c.op {
                    Some(ConstraintOperator::EQ) => true,
                    _ => false,
                };
                if c.usable && equality {
                    proof {
                        lemma_hidden_place(hidden@, c.column);
                    }
                    usages.push(Some(ConstraintUsage { argv_index: (k + 1) as i32, omit: true }));
                } else {
                    return Err(BestIndexError::Constraint);
                }
            },
            None => {
                usages.push(None);
            },
        }
        i = i + 1;
    }
    let mut k: usize = 0;
    while k < hidden.len()
        invariant
            0 <= k <= hidden.len(),
            !has_bad_binding(constraints@, hidden@),
            forall|j: int| 0 <= j < k ==> is_bound(constraints@, #[trigger] hidden@[j]),
        decreases hidden.len() - k,
    {
        if !binds(constraints, hidden[k]) {
            assert(!is_bound(constraints@, hidden@[k as int]));
            return Err(BestIndexError::Error);
        }
        k = k + 1;
    }
    proof {
        assert(usages@ =~= Seq::new(
            constraints@.len(),
            |i: int| usage_of(constraints@[i], hidden@),
        ));
    }
    Ok(
        IndexPlan {
            usages,
            estimated_cost: ESTIMATED_COST,
            estimated_rows: ESTIMATED_ROWS,
            idx_num: PLAN_NUMBER,
        },
    )
}

/// Whether some constraint is on `column`.
fn binds(constraints: &Vec<Constraint>, column: i32) -> (found: bool)
    ensures
        found == is_bound(constraints@, column),
{
    let mut i: usize = 0;
    while i < constraints.len()
        invariant
            0 <= i <= constraints.len(),
            forall|j: int| 0 <= j < i ==> (#[trigger] constraints@[j]).column != column,
        decreases constraints.len() - i,
    {
        if constraints[i].column == column {
            return true;
        }
        i = i + 1;
    }
    false
}

} // verus!
