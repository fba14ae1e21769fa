//! Delimiter-separated rendering: one line per data row, cells joined by a
//! single-character delimiter, with an optional header line of field names.

use vstd::prelude::*;
use vstd::string::*;
use crate::batch::{Batch, Schema};
use crate::table::{all_rows, batches_wf, lemma_all_rows_push, row_cells_vec};
use crate::text::{lemma_sp_join_push, lemma_views_push, sp_join, views};

verus! {

/// One separated-value line: the cells joined by the delimiter, unpadded.
pub open spec fn sep_line(cells: Seq<Seq<char>>, d: char) -> Seq<char> {
    sp_join(cells, seq![d])
}

/// One separated line per row.
pub open spec fn sep_row_lines(rows: Seq<Seq<Seq<char>>>, d: char) -> Seq<Seq<char>> {
    rows.map_values(|row: Seq<Seq<char>>| sep_line(row, d))
}

/// The full separated-value output: a header line of field names iff the
/// header flag is set, then every data row in arrival order.
pub open spec fn sep_lines(
    names: Seq<Seq<char>>,
    rows: Seq<Seq<Seq<char>>>,
    d: char,
    with_header: bool,
) -> Seq<Seq<char>> {
    (if with_header {
        seq![sep_line(names, d)]
    } else {
        Seq::<Seq<char>>::empty()
    }) + sep_row_lines(rows, d)
}

/// Separated lines distribute over concatenation of row sequences.
pub proof fn lemma_sep_row_lines_concat(a: Seq<Seq<Seq<char>>>, b: Seq<Seq<Seq<char>>>, d: char)
    ensures
        sep_row_lines(a + b, d) == sep_row_lines(a, d) + sep_row_lines(b, d),
{
    assert(sep_row_lines(a + b, d) =~= sep_row_lines(a, d) + sep_row_lines(b, d));
}

/// Build one separated-value line from the given cells.
fn sep_line_string(cells: &Vec<String>, delimiter: &str) -> (r: String)
    requires
        delimiter@.len() == 1,
    ensures
        r@ == sep_line(views(cells@), delimiter@[0]),
{
    let ghost cs = views(cells@);
    let ghost d = delimiter@[0];
    let mut out = String::new();
    proof {
        assert(delimiter@ =~= seq![d]);
        assert(out@ =~= sp_join(cs.take(0), seq![d]));
    }
    let mut i: usize = 0;
    while i < cells.len()
        invariant
            i <= cells@.len(),
            delimiter@.len() == 1,
            d == delimiter@[0],
            cs == views(cells@),
            out@ == sp_join(cs.take(i as int), seq![d]),
        decreases cells@.len() - i,
    {
        if i > 0 {
            out.append(delimiter);
        }
        out.append(cells[i].as_str());
        proof {
            assert(delimiter@ =~= seq![d]);
            assert(cs.take(i + 1) =~= cs.take(i as int).push(cs[i as int]));
            lemma_sp_join_push(cs.take(i as int), seq![d], cs[i as int]);
        }
        i = i + 1;
    }
    proof {
        assert(cs.take(cs.len() as int) =~= cs);
    }
    out
}

/// Render every batch as delimiter-separated lines, with a header line of
/// field names first iff `with_header` is set.
pub(crate) fn print_batches_with_sep(
    schema: &Schema,
    batches: &Vec<Batch>,
    delimiter: &str,
    with_header: bool,
) -> (out: Vec<String>)
    requires
        batches_wf(batches@, schema.names().len()),
        delimiter@.len() == 1,
    ensures
        views(out@) == sep_lines(schema.names(), all_rows(batches@), delimiter@[0], with_header),
{
    let ghost names = schema.names();
    let ghost d = delimiter@[0];
    let ghost hdr: Seq<Seq<char>> = if with_header {
        seq![sep_line(names, d)]
    } else {
        Seq::<Seq<char>>::empty()
    };
    let mut out: Vec<String> = Vec::new();
    if with_header {
        let line = sep_line_string(&schema.field_names, delimiter);
        proof {
            lemma_views_push(out@, line);
        }
        out.push(line);
    }
    proof {
        assert(views(out@) =~= hdr + sep_row_lines(all_rows(batches@.take(0)), d));
    }
    let mut b: usize = 0;
    while b < batches.len()
        invariant
            b <= batches@.len(),
            batches_wf(batches@, names.len()),
            names == schema.names(),
            delimiter@.len() == 1,
            d == delimiter@[0],
            hdr == (if with_header {
                seq![sep_line(names, d)]
            } else {
                Seq::<Seq<char>>::empty()
            }),
            views(out@) == hdr + sep_row_lines(all_rows(batches@.take(b as int)), d),
        decreases batches@.len() - b,
    {
        let batch = &batches[b];
        let mut r: usize = 0;
        while r < batch.num_rows
            invariant
                0 <= b < batches@.len(),
                batch == batches@[b as int],
                batch.wf(),
                r <= batch.rows(),
                delimiter@.len() == 1,
                d == delimiter@[0],
                views(out@) == hdr + sep_row_lines(all_rows(batches@.take(b as int)), d)
                    + sep_row_lines(batch.rows_view().take(r as int), d),
            decreases batch.num_rows - r,
        {
            let cells = row_cells_vec(batch, r);
            let line = sep_line_string(&cells, delimiter);
            proof {
                lemma_views_push(out@, line);
            }
            out.push(line);
            proof {
                assert(batch.rows_view().take(r + 1) =~= batch.rows_view().take(r as int).push(
                    batch.row_at(r as int),
                ));
                assert(sep_row_lines(batch.rows_view().take(r + 1), d) =~= sep_row_lines(
                    batch.rows_view().take(r as int),
                    d,
                ).push(sep_line(batch.row_at(r as int), d)));
            }
            r = r + 1;
        }
        proof {
            assert(batch.rows_view().take(batch.rows() as int) =~= batch.rows_view());
            lemma_all_rows_push(batches@.take(b as int), *batch);
            assert(batches@.take(b + 1) =~= batches@.take(b as int).push(*batch));
            lemma_sep_row_lines_concat(all_rows(batches@.take(b as int)), batch.rows_view(), d);
        }
        b = b + 1;
    }
    proof {
        assert(batches@.take(batches@.len() as int) =~= batches@);
    }
    out
}

} // verus!
