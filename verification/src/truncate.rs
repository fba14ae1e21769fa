//! Row-budget truncation for bordered tables: batches are walked in order
//! and sliced so that exactly the budgeted number of data rows is
//! rendered; a truncated table ends in three ellipsis rows before its
//! original bottom border.

use vstd::prelude::*;
use crate::batch::{Batch, Schema};
use crate::table::{
    all_rows, batches_wf, dot_cells, lemma_all_rows_concat, lemma_all_rows_push,
    lemma_total_rows_is_len, dotted_line_string, render_table, table_lines, total_rows, widths_of,
};
use crate::text::{data_line, nat_widths, views};
use crate::{MaxRows, RenderError};

verus! {

/// The ellipsis row: one single-dot cell per column, padded like any
/// ordinary cell.
pub open spec fn dotted_row(w: Seq<nat>) -> Seq<char> {
    data_line(dot_cells(w.len()), w)
}

/// The truncated form of a rendered table: the top border, header block
/// and the first `maxrows` data lines kept, then three ellipsis rows,
/// then the original bottom border.
pub open spec fn keep_spec(lines: Seq<Seq<char>>, w: Seq<nat>, maxrows: nat) -> Seq<Seq<char>> {
    lines.take(maxrows + 3 as int) + seq![dotted_row(w), dotted_row(w), dotted_row(w)] + seq![
        lines.last(),
    ]
}

/// A bordered table rendered under a row budget: unlimited budgets and
/// budgets at or above the row count leave the table whole; a smaller
/// budget renders only the first `l` rows — widths included — and marks
/// the cut with ellipsis rows.
pub open spec fn table_budget_lines(
    names: Seq<Seq<char>>,
    rows: Seq<Seq<Seq<char>>>,
    maxrows: MaxRows,
) -> Seq<Seq<char>> {
    match maxrows {
        MaxRows::Unlimited => table_lines(names, rows),
        MaxRows::Limited(l) => if rows.len() > l {
            keep_spec(
                table_lines(names, rows.take(l as int)),
                widths_of(names, rows.take(l as int)),
                l as nat,
            )
        } else {
            table_lines(names, rows)
        },
    }
}

/// Truncate a fully rendered table to `maxrows` data lines, replacing the
/// elided rows with three ellipsis rows built from the committed widths.
/// A table with fewer than `maxrows + 4` lines cannot hold a top border,
/// header block, `maxrows` data lines and a bottom border: that is a
/// broken internal invariant, reported as an error.
pub fn keep_only_maxrows(lines: &Vec<String>, widths: &Vec<usize>, maxrows: usize) -> (r: Result<
    Vec<String>,
    RenderError,
>)
    ensures
        match r {
            Ok(out) => lines@.len() >= maxrows + 4 && views(out@) == keep_spec(
                views(lines@),
                nat_widths(widths@),
                maxrows as nat,
            ),
            Err(e) => lines@.len() < maxrows + 4 && e == RenderError::InternalLayoutInvariant,
        },
{
    if lines.len() < 4 || lines.len() - 4 < maxrows {
        return Err(RenderError::InternalLayoutInvariant);
    }
    let keep = maxrows + 3;
    let mut out: Vec<String> = Vec::new();
    let mut i: usize = 0;
    while i < keep
        invariant
            keep == maxrows + 3,
            keep < lines@.len(),
            i <= keep,
            out@ == lines@.take(i as int),
        decreases keep - i,
    {
        out.push(lines[i].clone());
        proof {
            assert(lines@.take(i + 1) =~= lines@.take(i as int).push(lines@[i as int]));
        }
        i = i + 1;
    }
    let d1 = dotted_line_string(widths);
    let d2 = d1.clone();
    let d3 = d1.clone();
    out.push(d1);
    out.push(d2);
    out.push(d3);
    out.push(lines[lines.len() - 1].clone());
    proof {
        assert(views(lines@).take(maxrows + 3) =~= views(lines@.take(maxrows + 3)));
        assert(views(lines@).last() == lines@.last()@);
        assert(dot_cells(widths@.len() as nat) == dot_cells(nat_widths(widths@).len()));
        assert(views(out@) =~= keep_spec(views(lines@), nat_widths(widths@), maxrows as nat));
    }
    Ok(out)
}

/// Render the batches as a bordered table under the given row budget:
/// whole batches are taken in order until the budget is reached, the
/// batch that crosses it is sliced, and the rendered table is truncated
/// with ellipsis rows iff some row did not fit.
pub(crate) fn format_batches_with_maxrows(
    schema: &Schema,
    batches: &Vec<Batch>,
    maxrows: MaxRows,
) -> (r: Result<Vec<String>, RenderError>)
    requires
        batches_wf(batches@, schema.names().len()),
    ensures
        match r {
            Ok(lines) => views(lines@) == table_budget_lines(
                schema.names(),
                all_rows(batches@),
                maxrows,
            ),
            Err(_) => false,
        },
{
    let ghost names = schema.names();
    let ghost rows = all_rows(batches@);
    match maxrows {
        MaxRows::Unlimited => {
            let (_, lines) = render_table(schema, batches);
            Ok(lines)
        },
        MaxRows::Limited(l) => {
            let mut filtered: Vec<Batch> = Vec::new();
            let mut row_count: usize = 0;
            let mut over = false;
            let mut b: usize = 0;
            proof {
                assert(batches@.take(0) =~= Seq::<Batch>::empty());
                assert(all_rows(filtered@) =~= all_rows(batches@.take(0)));
            }
            while b < batches.len() && !over
                invariant
                    b <= batches@.len(),
                    batches_wf(batches@, names.len()),
                    names == schema.names(),
                    rows == all_rows(batches@),
                    batches_wf(filtered@, names.len()),
                    row_count <= l,
                    !over ==> row_count == total_rows(batches@.take(b as int)),
                    !over ==> all_rows(filtered@) == all_rows(batches@.take(b as int)),
                    over ==> all_rows(filtered@) == rows.take(l as int),
                    over ==> rows.len() > l,
                decreases batches@.len() - b,
            {
                let batch = &batches[b];
                let nrows = batch.num_rows();
                let ghost taken = batches@.take(b as int);
                if nrows > l - row_count {
                    let limit = l - row_count;
                    let sliced = batch.slice(0, limit);
                    proof {
                        assert(sliced.rows_view() =~~= batch.rows_view().take(limit as int));
                        lemma_all_rows_push(filtered@, sliced);
                    }
                    filtered.push(sliced);
                    over = true;
                    proof {
                        lemma_total_rows_is_len(taken);
                        // the whole row sequence splits at this batch
                        assert(batches@ =~= batches@.take(b + 1) + batches@.skip(b + 1));
                        lemma_all_rows_push(taken, *batch);
                        assert(batches@.take(b + 1) =~= taken.push(*batch));
                        lemma_all_rows_concat(batches@.take(b + 1), batches@.skip(b + 1));
                        let front = all_rows(taken) + batch.rows_view();
                        assert(rows == front + all_rows(batches@.skip(b + 1)));
                        assert(front.len() == row_count + nrows);
                        assert(rows.take(l as int) =~= front.take(l as int));
                        assert(front.take(l as int) =~= all_rows(taken) + batch.rows_view().take(
                            limit as int,
                        ));
                        assert(all_rows(filtered@) =~= rows.take(l as int));
                        assert(rows.len() >= front.len());
                    }
                } else {
                    let sliced = batch.slice(0, nrows);
                    proof {
                        assert(sliced.rows_view() =~~= batch.rows_view());
                        lemma_all_rows_push(filtered@, sliced);
                        lemma_all_rows_push(taken, *batch);
                        assert(batches@.take(b + 1) =~= taken.push(*batch));
                    }
                    filtered.push(sliced);
                    row_count = row_count + nrows;
                    proof {
                        lemma_total_rows_is_len(batches@.take(b + 1));
                        lemma_total_rows_is_len(taken);
                    }
                }
                b = b + 1;
            }
            proof {
                if !over {
                    assert(batches@.take(b as int) =~= batches@);
                    lemma_total_rows_is_len(batches@);
                }
            }
            let (widths, lines) = render_table(schema, &filtered);
            if over {
                proof {
                    assert(rows.take(l as int).len() == l);
                    assert(views(lines@).len() == lines@.len());
                }
                match keep_only_maxrows(&lines, &widths, l) {
                    Ok(out) => Ok(out),
                    Err(_) => {
                        proof {
                            assert(false);
                        }
                        Err(RenderError::InternalLayoutInvariant)
                    },
                }
            } else {
                Ok(lines)
            }
        },
    }
}

} // verus!
