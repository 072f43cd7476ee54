//! The part that the three cursors share: a row identifier and the rows
//! that one `filter` has built.
//!
//! A cursor is opened at row 0 with nothing to read. `filter` builds all the
//! rows at once, `next` steps without looking, and `eof` says whether the row
//! identifier has passed the last row.

use vstd::prelude::*;

verus! {

/// The state of a cursor: its row identifier, and the rows once `filter` has
/// built them.
pub struct RowSetView<T> {
    pub rowid: nat,
    pub rows: Option<Seq<T>>,
}

impl<T> RowSetView<T> {
    /// There is no row at the row identifier: nothing is built, or it is
    /// past the last row.
    pub open spec fn at_end(self) -> bool {
        match self.rows {
            None => true,
            Some(rows) => self.rowid >= rows.len(),
        }
    }

    /// The row at the row identifier, where there is one.
    pub open spec fn current(self) -> Option<T> {
        match self.rows {
            None => None,
            Some(rows) => if self.rowid < rows.len() {
                Some(rows[self.rowid as int])
            } else {
                None
            },
        }
    }

    /// The state that `next` leaves.
    pub open spec fn step(self) -> Self {
        RowSetView { rowid: self.rowid + 1, rows: self.rows }
    }

    /// The state after `n` calls of `next`.
    pub open spec fn steps(self, n: nat) -> Self
        decreases n,
    {
        if n == 0 {
            self
        } else {
            self.steps((n - 1) as nat).step()
        }
    }
}

/// `n` calls of `next` move the row identifier by `n` and keep the rows.
pub proof fn lemma_steps<T>(state: RowSetView<T>, n: nat)
    ensures
        state.steps(n) == (RowSetView { rowid: state.rowid + n, rows: state.rows }),
    decreases n,
{
    if n > 0 {
        lemma_steps(state, (n - 1) as nat);
    }
}

/// A cursor that starts at row 0 of rows that `filter` has built reads them
/// all, each once and in order: after `n` calls of `next` it stands on row
/// `n` while there is one, and is at the end after as many calls as there
/// are rows, and not before.
pub proof fn lemma_iteration_enumerates<T>(rows: Seq<T>, n: nat)
    ensures
        n < rows.len() ==> (RowSetView { rowid: 0, rows: Some(rows) }).steps(n).current()
            == Some(rows[n as int]),
        (RowSetView { rowid: 0, rows: Some(rows) }).steps(n).at_end() <==> n >= rows.len(),
{
    lemma_steps(RowSetView { rowid: 0, rows: Some(rows) }, n);
}

/// A row identifier and the rows that one `filter` has built.
pub struct RowSet<T> {
    rowid: i64,
    rows: Option<Vec<T>>,
}

impl<T> View for RowSet<T> {
    type V = RowSetView<T>;

    closed spec fn view(&self) -> RowSetView<T> {
        RowSetView {
            rowid: self.rowid as nat,
            rows: match self.rows {
                None => None,
                Some(rows) => Some(rows@),
            },
        }
    }
}

impl<T> RowSet<T> {
    #[verifier::type_invariant]
    spec fn well_formed(self) -> bool {
        self.rowid >= 0
    }

    /// A cursor at row 0 with nothing to read.
    pub fn new() -> (set: Self)
        ensures
            set@ == (RowSetView::<T> { rowid: 0, rows: None }),
    {
        RowSet { rowid: 0, rows: None }
    }

    /// Takes the rows that `filter` has built. The row identifier stays.
    pub fn load(&mut self, rows: Vec<T>)
        ensures
            final(self)@ == (RowSetView { rowid: old(self)@.rowid, rows: Some(rows@) }),
        no_unwind
    {
        proof {
            use_type_invariant(&*self);
        }
        self.rows = Some(rows);
    }

    /// Steps to the next row identifier, whether or not a row is there. The
    /// row identifier must not be the largest of 64 bits.
    pub fn next(&mut self)
        requires
            old(self)@.rowid < i64::MAX,
        ensures
            final(self)@ == old(self)@.step(),
        no_unwind
    {
        proof {
            use_type_invariant(&*self);
        }
        self.rowid = self.rowid + 1;
    }

    /// Whether the row identifier has passed the last row. A cursor with
    /// nothing built is at the end.
    pub fn eof(&self) -> (end: bool)
        ensures
            end == self@.at_end(),
    {
        proof {
            use_type_invariant(self);
        }
        match &self.rows {
            None => true,
            Some(rows) => self.rowid as u64 >= rows.len() as u64,
        }
    }

    /// The row at the row identifier, where there is one.
    pub fn current(&self) -> (row: Option<&T>)
        ensures
            match row {
                Some(r) => self@.current() == Some(*r),
                None => self@.current() is None,
            },
    {
        proof {
            use_type_invariant(self);
        }
        match &self.rows {
            None => None,
            Some(rows) => if (self.rowid as u64) < rows.len() as u64 {
                Some(&rows[self.rowid as usize])
            } else {
                None
            },
        }
    }

    /// The row identifier: 0 at first, one more after each `next`.
    pub fn rowid(&self) -> (id: i64)
        ensures
            id == self@.rowid,
    {
        proof {
            use_type_invariant(self);
        }
        self.rowid
    }
}

} // verus!
