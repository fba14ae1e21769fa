//! Rendering of tabular data batches into textual output formats: bordered
//! ASCII tables with optional row-budget truncation, delimiter-separated
//! lines, and JSON (array or line-delimited) framing.

pub mod batch;
pub mod formats;
pub mod json;
pub mod laws;
pub mod sep;
pub mod stream;
pub mod table;
pub mod text;
pub mod truncate;

use vstd::prelude::*;

verus! {

/// A row budget for bordered-table rendering: either unlimited, or a cap on
/// the number of data rows displayed before the table is truncated.
#[derive(Clone, Copy, Debug, PartialEq, Eq, Structural)]
pub enum MaxRows {
    Unlimited,
    Limited(usize),
}

impl MaxRows {
    /// True when `rows` data rows fit within this budget without truncation.
    pub open spec fn admits(self, rows: nat) -> bool {
        match self {
            MaxRows::Unlimited => true,
            MaxRows::Limited(l) => rows <= l,
        }
    }
}

/// A failure that ends the current render. Cell formatting and sink writes
/// happen in the unverified surroundings, which use the first two kinds;
/// the core itself can only report a broken layout precondition.
#[derive(Clone, Copy, Debug, PartialEq, Eq, Structural)]
pub enum RenderError {
    /// The external cell formatter could not produce a display string.
    CellFormatting,
    /// The output sink failed.
    Write,
    /// A rendered table had fewer lines than its row budget demands.
    InternalLayoutInvariant,
}

} // verus!
