//! The data model: an ordered schema of named fields, and batches of
//! columns whose cells are already-formatted display strings.

use vstd::prelude::*;
use crate::text::views;

verus! {

/// An ordered sequence of field names; field order defines column order for
/// every batch rendered against this schema.
#[derive(Clone, Debug)]
pub struct Schema {
    pub field_names: Vec<String>,
}

impl Schema {
    /// The field names as character sequences, in column order.
    pub open spec fn names(self) -> Seq<Seq<char>> {
        views(self.field_names@)
    }

    /// Every field name is non-empty.
    pub open spec fn wf(self) -> bool {
        forall|i: int| 0 <= i < self.names().len() ==> (#[trigger] self.names()[i]).len() > 0
    }

    /// Number of fields.
    pub fn num_fields(&self) -> (n: usize)
        ensures
            n == self.names().len(),
    {
        self.field_names.len()
    }
}

/// One chunk of rows: an ordered sequence of columns, each holding exactly
/// `num_rows` cell strings. Batches are only read or sliced, never mutated.
#[derive(Clone, Debug)]
pub struct Batch {
    pub num_rows: usize,
    pub columns: Vec<Vec<String>>,
}

impl Batch {
    /// Row count.
    pub open spec fn rows(self) -> nat {
        self.num_rows as nat
    }

    /// Column count.
    pub open spec fn ncols(self) -> nat {
        self.columns@.len()
    }

    /// The cell in column `i`, row `r`.
    pub open spec fn cell(self, i: int, r: int) -> Seq<char> {
        self.columns@[i]@[r]@
    }

    /// Column `i` as a sequence of cells.
    pub open spec fn col(self, i: int) -> Seq<Seq<char>> {
        views(self.columns@[i]@)
    }

    /// Every column holds exactly `num_rows` cells.
    pub open spec fn wf(self) -> bool {
        forall|i: int| 0 <= i < self.ncols() ==> (#[trigger] self.columns@[i])@.len() == self.rows()
    }

    /// The batch has one column per field of `schema`.
    pub open spec fn matches(self, schema: Schema) -> bool {
        self.ncols() == schema.names().len()
    }

    /// Row `r` as a sequence of cells, in column order.
    pub open spec fn row_at(self, r: int) -> Seq<Seq<char>> {
        Seq::new(self.ncols(), |i: int| self.cell(i, r))
    }

    /// The batch's data in row order: one cell sequence per row.
    pub open spec fn rows_view(self) -> Seq<Seq<Seq<char>>> {
        Seq::new(self.rows(), |r: int| self.row_at(r))
    }

    /// A batch with no rows and one empty column per field of `schema`.
    pub fn new_empty(schema: &Schema) -> (b: Batch)
        ensures
            b.wf(),
            b.rows() == 0,
            b.matches(*schema),
    {
        let n = schema.field_names.len();
        let mut columns: Vec<Vec<String>> = Vec::new();
        let mut i: usize = 0;
        while i < n
            invariant
                i <= n,
                columns@.len() == i,
                forall|j: int| 0 <= j < i ==> (#[trigger] columns@[j])@.len() == 0,
            decreases n - i,
        {
            columns.push(Vec::new());
            i = i + 1;
        }
        Batch { num_rows: 0, columns }
    }

    /// Row count.
    pub fn num_rows(&self) -> (n: usize)
        ensures
            n == self.rows(),
    {
        self.num_rows
    }

    /// A new batch covering rows `offset .. offset + length`, cell for cell.
    pub fn slice(&self, offset: usize, length: usize) -> (b: Batch)
        requires
            self.wf(),
            offset + length <= self.rows(),
        ensures
            b.wf(),
            b.ncols() == self.ncols(),
            b.rows() == length,
            forall|i: int, r: int|
                0 <= i < self.ncols() && 0 <= r < length ==> b.cell(i, r) == self.cell(
                    i,
                    offset + r,
                ),
    {
        let mut columns: Vec<Vec<String>> = Vec::new();
        let mut i: usize = 0;
        while i < self.columns.len()
            invariant
                self.wf(),
                offset + length <= self.rows(),
                i <= self.ncols(),
                columns@.len() == i,
                forall|j: int| 0 <= j < i ==> (#[trigger] columns@[j])@.len() == length,
                forall|j: int, r: int|
                    0 <= j < i && 0 <= r < length ==> (#[trigger] columns@[j]@[r])@ == self.cell(
                        j,
                        offset + r,
                    ),
            decreases self.columns.len() - i,
        {
            let src = &self.columns[i];
            let mut col: Vec<String> = Vec::new();
            let mut r: usize = 0;
            while r < length
                invariant
                    self.wf(),
                    offset + length <= self.rows(),
                    i < self.ncols(),
                    src == self.columns@[i as int],
                    col@.len() == r,
                    r <= length,
                    forall|rr: int|
                        0 <= rr < r ==> (#[trigger] col@[rr])@ == self.cell(i as int, offset + rr),
                decreases length - r,
            {
                col.push(src[offset + r].clone());
                r = r + 1;
            }
            columns.push(col);
            i = i + 1;
        }
        Batch { num_rows: length, columns }
    }
}

} // verus!
