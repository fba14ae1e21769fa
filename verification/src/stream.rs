//! The streaming width-commitment state machine: batches are buffered
//! until a preview row threshold is reached, then column widths are
//! committed once and every batch — buffered or later — is rendered with
//! them, without ever re-measuring.

use vstd::prelude::*;
use crate::batch::{Batch, Schema};
use crate::formats::PrintFormat;
use crate::table::{
    all_rows, batches_wf, column_widths_of, dot_cells, dotted_line_string, header_block,
    lemma_all_rows_push, lemma_row_lines_concat, push_batch_rows, push_header_block, row_lines,
    widths_of,
};
use crate::text::{border_line, border_line_string, data_line, nat_widths, views};

verus! {

/// The state of one streaming output session. While `precomputed_widths`
/// is `None` the state is collecting a preview; once it is `Some`, widths
/// are committed for the rest of the session.
pub struct OutputStreamState {
    pub preview_batches: Vec<Batch>,
    pub preview_row_count: usize,
    pub preview_limit: usize,
    pub precomputed_widths: Option<Vec<usize>>,
    pub header_printed: bool,
    pub format: PrintFormat,
}

impl OutputStreamState {
    /// Every buffered batch fits the schema's `ncols` columns, and any
    /// committed widths cover each column.
    pub open spec fn wf(self, ncols: nat) -> bool {
        &&& batches_wf(self.preview_batches@, ncols)
        &&& (self.precomputed_widths is Some ==> (self.precomputed_widths->0)@.len() == ncols)
    }

    /// A fresh session: nothing buffered, nothing committed.
    pub fn new(format: PrintFormat, preview_limit: usize) -> (s: Self)
        ensures
            s.preview_batches@.len() == 0,
            s.preview_row_count == 0,
            s.preview_limit == preview_limit,
            s.precomputed_widths is None,
            !s.header_printed,
            s.format == format,
    {
        Self {
            preview_batches: Vec::new(),
            preview_row_count: 0,
            preview_limit,
            precomputed_widths: None,
            header_printed: false,
            format,
        }
    }

    /// Compute the display width of every column over the given batches.
    pub fn compute_column_widths(&self, batches: &Vec<Batch>, schema: &Schema) -> (w: Vec<usize>)
        requires
            batches_wf(batches@, schema.names().len()),
        ensures
            w@.len() == schema.names().len(),
            nat_widths(w@) == widths_of(schema.names(), all_rows(batches@)),
    {
        column_widths_of(schema, batches)
    }

    /// The three header-block lines: border, field names, border.
    pub fn print_header(&self, schema: &Schema, widths: &Vec<usize>) -> (out: Vec<String>)
        requires
            widths@.len() == schema.names().len(),
        ensures
            views(out@) == header_block(schema.names(), nat_widths(widths@)),
    {
        let mut out: Vec<String> = Vec::new();
        push_header_block(schema, widths, &mut out);
        proof {
            assert(views(out@) =~= header_block(schema.names(), nat_widths(widths@)));
        }
        out
    }

    /// One data line per row of the batch, with the given widths.
    pub fn print_batch_with_widths(&self, batch: &Batch, widths: &Vec<usize>) -> (out: Vec<String>)
        requires
            batch.wf(),
            batch.ncols() == widths@.len(),
        ensures
            views(out@) == row_lines(batch.rows_view(), nat_widths(widths@)),
    {
        let mut out: Vec<String> = Vec::new();
        push_batch_rows(batch, widths, &mut out);
        proof {
            assert(views(out@) =~= row_lines(batch.rows_view(), nat_widths(widths@)));
        }
        out
    }

    /// The ellipsis row marking truncated output.
    pub fn print_dotted_line(&self, widths: &Vec<usize>) -> (line: String)
        ensures
            line@ == data_line(dot_cells(widths@.len() as nat), nat_widths(widths@)),
    {
        dotted_line_string(widths)
    }

    /// The bottom border of the table.
    pub fn print_bottom_border(&self, widths: &Vec<usize>) -> (line: String)
        ensures
            line@ == border_line(nat_widths(widths@)),
    {
        border_line_string(widths)
    }

    /// Feed one batch through the state machine and return the lines it
    /// emits. While collecting, the batch is buffered; reaching the
    /// preview threshold commits widths over everything buffered, emits
    /// the header block and flushes the buffer; once committed, each
    /// batch is rendered immediately with the committed widths.
    pub fn process_batch(&mut self, batch: Batch, schema: &Schema) -> (out: Vec<String>)
        requires
            old(self).wf(schema.names().len()),
            batch.wf(),
            batch.matches(*schema),
            old(self).precomputed_widths is None ==> old(self).preview_row_count + batch.rows()
                <= usize::MAX,
        ensures
            final(self).wf(schema.names().len()),
            final(self).preview_limit == old(self).preview_limit,
            final(self).format == old(self).format,
            (old(self).precomputed_widths is None && old(self).preview_row_count + batch.rows()
                < old(self).preview_limit) ==> {
                &&& final(self).precomputed_widths is None
                &&& final(self).preview_batches@ == old(self).preview_batches@.push(batch)
                &&& final(self).preview_row_count == old(self).preview_row_count + batch.rows()
                &&& final(self).header_printed == old(self).header_printed
                &&& out@.len() == 0
            },
            (old(self).precomputed_widths is None && old(self).preview_row_count + batch.rows()
                >= old(self).preview_limit) ==> {
                let flushed = old(self).preview_batches@.push(batch);
                let w = widths_of(schema.names(), all_rows(flushed));
                &&& final(self).precomputed_widths is Some
                &&& nat_widths((final(self).precomputed_widths->0)@) == w
                &&& final(self).header_printed
                &&& final(self).preview_batches@.len() == 0
                &&& final(self).preview_row_count == old(self).preview_row_count + batch.rows()
                &&& views(out@) == header_block(schema.names(), w) + row_lines(
                    all_rows(flushed),
                    w,
                )
            },
            old(self).precomputed_widths is Some ==> {
                let w = nat_widths((old(self).precomputed_widths->0)@);
                &&& final(self).precomputed_widths == old(self).precomputed_widths
                &&& final(self).preview_batches@ == old(self).preview_batches@
                &&& final(self).preview_row_count == old(self).preview_row_count
                &&& final(self).header_printed
                &&& views(out@) == (if old(self).header_printed {
                    Seq::<Seq<char>>::empty()
                } else {
                    header_block(schema.names(), w)
                }) + row_lines(batch.rows_view(), w)
            },
    {
        let ghost names = schema.names();
        let mut out: Vec<String> = Vec::new();
        if self.precomputed_widths.is_none() {
            let nr = batch.num_rows();
            self.preview_batches.push(batch);
            self.preview_row_count = self.preview_row_count + nr;
            if self.preview_row_count >= self.preview_limit {
                let ghost flushed = self.preview_batches@;
                let widths = column_widths_of(schema, &self.preview_batches);
                push_header_block(schema, &widths, &mut out);
                self.header_printed = true;
                let ghost w = nat_widths(widths@);
                let mut b: usize = 0;
                proof {
                    assert(views(out@) =~= header_block(names, w) + row_lines(
                        all_rows(flushed.take(0)),
                        w,
                    ));
                }
                while b < self.preview_batches.len()
                    invariant
                        b <= self.preview_batches@.len(),
                        self.preview_batches@ == flushed,
                        batches_wf(flushed, names.len()),
                        widths@.len() == names.len(),
                        w == nat_widths(widths@),
                        views(out@) == header_block(names, w) + row_lines(
                            all_rows(flushed.take(b as int)),
                            w,
                        ),
                    decreases self.preview_batches@.len() - b,
                {
                    push_batch_rows(&self.preview_batches[b], &widths, &mut out);
                    proof {
                        lemma_all_rows_push(flushed.take(b as int), flushed[b as int]);
                        assert(flushed.take(b + 1) =~= flushed.take(b as int).push(
                            flushed[b as int],
                        ));
                        lemma_row_lines_concat(
                            all_rows(flushed.take(b as int)),
                            flushed[b as int].rows_view(),
                            w,
                        );
                        assert(header_block(names, w) + row_lines(
                            all_rows(flushed.take(b as int)),
                            w,
                        ) + row_lines(flushed[b as int].rows_view(), w) =~= header_block(names, w)
                            + row_lines(all_rows(flushed.take(b + 1)), w));
                    }
                    b = b + 1;
                }
                proof {
                    assert(flushed.take(flushed.len() as int) =~= flushed);
                }
                self.preview_batches.clear();
                self.precomputed_widths = Some(widths);
            }
        } else {
            let widths = match &self.precomputed_widths {
                Some(w) => copy_widths(w),
                None => Vec::new(),
            };
            if !self.header_printed {
                push_header_block(schema, &widths, &mut out);
                self.header_printed = true;
            }
            push_batch_rows(&batch, &widths, &mut out);
            proof {
                if old(self).header_printed {
                    assert(views(out@) =~= Seq::<Seq<char>>::empty() + row_lines(
                        batch.rows_view(),
                        nat_widths(widths@),
                    ));
                }
            }
        }
        out
    }
}

/// Copy a width vector element for element.
fn copy_widths(v: &Vec<usize>) -> (r: Vec<usize>)
    ensures
        r@ == v@,
{
    let mut r: Vec<usize> = Vec::new();
    let mut i: usize = 0;
    while i < v.len()
        invariant
            i <= v@.len(),
            r@ == v@.take(i as int),
        decreases v@.len() - i,
    {
        r.push(v[i]);
        proof {
            assert(v@.take(i + 1) =~= v@.take(i as int).push(v@[i as int]));
        }
        i = i + 1;
    }
    proof {
        assert(v@.take(v@.len() as int) =~= v@);
    }
    r
}

} // verus!
