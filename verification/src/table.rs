//! Bordered-table rendering: per-column display widths, header block, data
//! rows and borders, over any sequence of batches sharing one schema.

use vstd::prelude::*;
use vstd::string::*;
use crate::batch::{Batch, Schema};
use crate::text::{
    border_line, border_line_string, data_line, data_line_string, lemma_views_push, nat_widths,
    views,
};

verus! {

/// The larger of two numbers.
pub open spec fn max2(a: nat, b: nat) -> nat {
    if a >= b {
        a
    } else {
        b
    }
}

/// The maximum of `floor` and the lengths of all entries of `cells`.
pub open spec fn max_len(cells: Seq<Seq<char>>, floor: nat) -> nat
    decreases cells.len(),
{
    if cells.len() == 0 {
        floor
    } else {
        max2(max_len(cells.drop_last(), floor), cells.last().len())
    }
}

/// Column `i` of a sequence of rows.
pub open spec fn col_of(rows: Seq<Seq<Seq<char>>>, i: int) -> Seq<Seq<char>> {
    rows.map_values(|row: Seq<Seq<char>>| row[i])
}

/// The display width of each column: the length of the field's name or of
/// its longest cell among `rows`, whichever is larger.
pub open spec fn widths_of(names: Seq<Seq<char>>, rows: Seq<Seq<Seq<char>>>) -> Seq<nat> {
    Seq::new(names.len(), |i: int| max_len(col_of(rows, i), names[i].len()))
}

/// All data rows of the batches, in arrival order.
pub open spec fn all_rows(bs: Seq<Batch>) -> Seq<Seq<Seq<char>>>
    decreases bs.len(),
{
    if bs.len() == 0 {
        Seq::empty()
    } else {
        all_rows(bs.drop_last()) + bs.last().rows_view()
    }
}

/// The total number of data rows of the batches.
pub open spec fn total_rows(bs: Seq<Batch>) -> nat
    decreases bs.len(),
{
    if bs.len() == 0 {
        0
    } else {
        total_rows(bs.drop_last()) + bs.last().rows()
    }
}

/// Every batch is well formed and has `ncols` columns.
pub open spec fn batches_wf(bs: Seq<Batch>, ncols: nat) -> bool {
    forall|k: int|
        0 <= k < bs.len() ==> (#[trigger] bs[k]).wf() && bs[k].ncols() == ncols
}

/// Border, header line, border.
pub open spec fn header_block(names: Seq<Seq<char>>, w: Seq<nat>) -> Seq<Seq<char>> {
    seq![border_line(w), data_line(names, w), border_line(w)]
}

/// One data line per row.
pub open spec fn row_lines(rows: Seq<Seq<Seq<char>>>, w: Seq<nat>) -> Seq<Seq<char>> {
    rows.map_values(|row: Seq<Seq<char>>| data_line(row, w))
}

/// A row of single-dot cells, one per column.
pub open spec fn dot_cells(n: nat) -> Seq<Seq<char>> {
    Seq::new(n, |i: int| seq!['.'])
}

/// The complete bordered table: header block, all data rows, final border,
/// with the widths computed from exactly the rows rendered.
pub open spec fn table_lines(names: Seq<Seq<char>>, rows: Seq<Seq<Seq<char>>>) -> Seq<Seq<char>> {
    let w = widths_of(names, rows);
    header_block(names, w) + row_lines(rows, w) + seq![border_line(w)]
}

pub proof fn lemma_max_len_push(cells: Seq<Seq<char>>, x: Seq<char>, floor: nat)
    ensures
        max_len(cells.push(x), floor) == max2(max_len(cells, floor), x.len()),
{
    assert(cells.push(x).drop_last() =~= cells);
    assert(cells.push(x).last() == x);
}

pub proof fn lemma_max_len_concat(a: Seq<Seq<char>>, b: Seq<Seq<char>>, floor: nat)
    ensures
        max_len(a + b, floor) == max_len(b, max_len(a, floor)),
    decreases b.len(),
{
    if b.len() == 0 {
        assert(a + b =~= a);
    } else {
        assert((a + b).drop_last() =~= a + b.drop_last());
        assert((a + b).last() == b.last());
        lemma_max_len_concat(a, b.drop_last(), floor);
    }
}

/// The maximum is no smaller than the floor or any entry, and is attained.
pub proof fn lemma_max_len_bounds(cells: Seq<Seq<char>>, floor: nat)
    ensures
        max_len(cells, floor) >= floor,
        forall|k: int| 0 <= k < cells.len() ==> (#[trigger] cells[k]).len() <= max_len(cells, floor),
        max_len(cells, floor) == floor || exists|k: int|
            0 <= k < cells.len() && (#[trigger] cells[k]).len() == max_len(cells, floor),
    decreases cells.len(),
{
    if cells.len() > 0 {
        lemma_max_len_bounds(cells.drop_last(), floor);
        assert forall|k: int| 0 <= k < cells.len() implies (#[trigger] cells[k]).len() <= max_len(
            cells,
            floor,
        ) by {
            if k < cells.len() - 1 {
                assert(cells[k] == cells.drop_last()[k]);
            } else {
                assert(cells[k] == cells.last());
            }
        }
        if max_len(cells, floor) == cells.last().len() {
            assert(cells[cells.len() - 1].len() == max_len(cells, floor));
        } else {
            if max_len(cells.drop_last(), floor) != floor {
                let k = choose|k: int|
                    0 <= k < cells.drop_last().len() && (#[trigger] cells.drop_last()[k]).len()
                        == max_len(cells.drop_last(), floor);
                assert(cells[k] == cells.drop_last()[k]);
                assert(cells[k].len() == max_len(cells, floor));
            }
        }
    }
}

pub proof fn lemma_all_rows_push(bs: Seq<Batch>, b: Batch)
    ensures
        all_rows(bs.push(b)) == all_rows(bs) + b.rows_view(),
        total_rows(bs.push(b)) == total_rows(bs) + b.rows(),
{
    assert(bs.push(b).drop_last() =~= bs);
    assert(bs.push(b).last() == b);
}

/// Column `i` of a batch's rows is that batch's column `i`.
pub proof fn lemma_col_of_rows_view(b: Batch, i: int)
    requires
        b.wf(),
        0 <= i < b.ncols(),
    ensures
        col_of(b.rows_view(), i) == b.col(i),
{
    assert(col_of(b.rows_view(), i) =~= b.col(i));
}

/// All cells of a well-formed table are no longer than their column width.
pub proof fn lemma_widths_cover(names: Seq<Seq<char>>, rows: Seq<Seq<Seq<char>>>, i: int)
    requires
        0 <= i < names.len(),
    ensures
        widths_of(names, rows)[i] >= names[i].len(),
        forall|r: int|
            0 <= r < rows.len() ==> (#[trigger] rows[r][i]).len() <= widths_of(names, rows)[i],
{
    lemma_max_len_bounds(col_of(rows, i), names[i].len());
    assert forall|r: int| 0 <= r < rows.len() implies (#[trigger] rows[r][i]).len() <= widths_of(
        names,
        rows,
    )[i] by {
        assert(col_of(rows, i)[r] == rows[r][i]);
        assert(col_of(rows, i)[r].len() <= max_len(col_of(rows, i), names[i].len()));
    }
}

/// Data lines distribute over concatenation of row sequences.
pub proof fn lemma_row_lines_concat(a: Seq<Seq<Seq<char>>>, b: Seq<Seq<Seq<char>>>, w: Seq<nat>)
    ensures
        row_lines(a + b, w) == row_lines(a, w) + row_lines(b, w),
{
    assert(row_lines(a + b, w) =~= row_lines(a, w) + row_lines(b, w));
}

/// Appending a row appends its data line.
pub proof fn lemma_row_lines_push(rows: Seq<Seq<Seq<char>>>, x: Seq<Seq<char>>, w: Seq<nat>)
    ensures
        row_lines(rows.push(x), w) == row_lines(rows, w).push(data_line(x, w)),
{
    assert(row_lines(rows.push(x), w) =~= row_lines(rows, w).push(data_line(x, w)));
}

/// Every row of the row sequence has one cell per column.
pub open spec fn rows_wf(rows: Seq<Seq<Seq<char>>>, ncols: nat) -> bool {
    forall|r: int| 0 <= r < rows.len() ==> (#[trigger] rows[r]).len() == ncols
}

pub proof fn lemma_all_rows_wf(bs: Seq<Batch>, ncols: nat)
    requires
        batches_wf(bs, ncols),
    ensures
        rows_wf(all_rows(bs), ncols),
    decreases bs.len(),
{
    if bs.len() > 0 {
        assert(forall|k: int|
            0 <= k < bs.len() - 1 ==> bs[k] == (#[trigger] bs.drop_last()[k]));
        lemma_all_rows_wf(bs.drop_last(), ncols);
        assert(forall|r: int|
            0 <= r < bs.last().rows() ==> (#[trigger] bs.last().rows_view()[r]).len() == ncols);
    }
}

pub proof fn lemma_all_rows_concat(a: Seq<Batch>, b: Seq<Batch>)
    ensures
        all_rows(a + b) == all_rows(a) + all_rows(b),
        total_rows(a + b) == total_rows(a) + total_rows(b),
    decreases b.len(),
{
    if b.len() == 0 {
        assert(a + b =~= a);
        assert(all_rows(a) + all_rows(b) =~= all_rows(a));
    } else {
        assert((a + b).drop_last() =~= a + b.drop_last());
        assert((a + b).last() == b.last());
        lemma_all_rows_concat(a, b.drop_last());
        assert(all_rows(a) + all_rows(b.drop_last()) + b.last().rows_view() =~= all_rows(a) + (
        all_rows(b.drop_last()) + b.last().rows_view()));
    }
}

/// The row total is the length of the concatenated row sequence.
pub proof fn lemma_total_rows_is_len(bs: Seq<Batch>)
    ensures
        total_rows(bs) == all_rows(bs).len(),
    decreases bs.len(),
{
    if bs.len() > 0 {
        lemma_total_rows_is_len(bs.drop_last());
    }
}

/// Compute the display width of every column over the given batches.
pub(crate) fn column_widths_of(schema: &Schema, batches: &Vec<Batch>) -> (w: Vec<usize>)
    requires
        batches_wf(batches@, schema.names().len()),
    ensures
        w@.len() == schema.names().len(),
        nat_widths(w@) == widths_of(schema.names(), all_rows(batches@)),
{
    let ghost names = schema.names();
    let ghost rows = all_rows(batches@);
    let n = schema.field_names.len();
    let mut w: Vec<usize> = Vec::new();
    let mut i: usize = 0;
    while i < n
        invariant
            i <= n,
            n == names.len(),
            names == schema.names(),
            rows == all_rows(batches@),
            batches_wf(batches@, names.len()),
            w@.len() == i,
            forall|j: int| 0 <= j < i ==> #[trigger] w@[j] == widths_of(names, rows)[j],
        decreases n - i,
    {
        let ghost floor = names[i as int].len();
        let mut cur: usize = schema.field_names[i].as_str().unicode_len();
        proof {
            assert(batches@.take(0) =~= Seq::<Batch>::empty());
            assert(col_of(all_rows(batches@.take(0)), i as int) =~= Seq::<Seq<char>>::empty());
        }
        let mut b: usize = 0;
        while b < batches.len()
            invariant
                b <= batches@.len(),
                0 <= i < names.len(),
                names == schema.names(),
                batches_wf(batches@, names.len()),
                floor == names[i as int].len(),
                cur as nat == max_len(col_of(all_rows(batches@.take(b as int)), i as int), floor),
            decreases batches@.len() - b,
        {
            let batch = &batches[b];
            let ghost w0 = cur as nat;
            let col = &batch.columns[i];
            let mut r: usize = 0;
            proof {
                assert(batch.col(i as int).take(0) =~= Seq::<Seq<char>>::empty());
            }
            while r < col.len()
                invariant
                    r <= col@.len(),
                    0 <= i < batch.ncols(),
                    batch == batches@[b as int],
                    batch.wf(),
                    col == batch.columns@[i as int],
                    cur as nat == max_len(batch.col(i as int).take(r as int), w0),
                decreases col@.len() - r,
            {
                let len: usize = col[r].as_str().unicode_len();
                if len > cur {
                    cur = len;
                }
                proof {
                    lemma_max_len_push(
                        batch.col(i as int).take(r as int),
                        batch.col(i as int)[r as int],
                        w0,
                    );
                    assert(batch.col(i as int).take(r + 1) =~= batch.col(i as int).take(
                        r as int,
                    ).push(batch.col(i as int)[r as int]));
                }
                r = r + 1;
            }
            proof {
                let bsofar = batches@.take(b as int);
                let prev = col_of(all_rows(bsofar), i as int);
                assert(batch.col(i as int).take(col@.len() as int) =~= batch.col(i as int));
                lemma_max_len_concat(prev, batch.col(i as int), floor);
                lemma_all_rows_push(bsofar, *batch);
                assert(batches@.take(b + 1) =~= bsofar.push(*batch));
                lemma_col_of_rows_view(*batch, i as int);
                assert(col_of(all_rows(bsofar) + batch.rows_view(), i as int) =~= prev + col_of(
                    batch.rows_view(),
                    i as int,
                ));
            }
            b = b + 1;
        }
        proof {
            assert(batches@.take(batches@.len() as int) =~= batches@);
        }
        w.push(cur);
        i = i + 1;
    }
    proof {
        assert(nat_widths(w@) =~= widths_of(names, rows));
    }
    w
}

/// The cells of one row of a batch, in column order.
pub(crate) fn row_cells_vec(batch: &Batch, r: usize) -> (cells: Vec<String>)
    requires
        batch.wf(),
        r < batch.rows(),
    ensures
        views(cells@) == batch.row_at(r as int),
{
    let mut cells: Vec<String> = Vec::new();
    let mut i: usize = 0;
    while i < batch.columns.len()
        invariant
            batch.wf(),
            r < batch.rows(),
            i <= batch.ncols(),
            cells@.len() == i,
            forall|j: int| 0 <= j < i ==> (#[trigger] cells@[j])@ == batch.cell(j, r as int),
        decreases batch.columns.len() - i,
    {
        cells.push(batch.columns[i][r].clone());
        i = i + 1;
    }
    proof {
        assert(views(cells@) =~= batch.row_at(r as int));
    }
    cells
}

/// Append the three header-block lines: border, field names, border.
pub(crate) fn push_header_block(schema: &Schema, widths: &Vec<usize>, out: &mut Vec<String>)
    requires
        widths@.len() == schema.names().len(),
    ensures
        views(final(out)@) == views(old(out)@) + header_block(
            schema.names(),
            nat_widths(widths@),
        ),
{
    let b1 = border_line_string(widths);
    out.push(b1);
    let hl = data_line_string(&schema.field_names, widths);
    out.push(hl);
    let b2 = border_line_string(widths);
    out.push(b2);
    proof {
        assert(views(out@) =~= views(old(out)@) + header_block(
            schema.names(),
            nat_widths(widths@),
        ));
    }
}

/// Append one data line per row of the batch, using the given widths.
pub(crate) fn push_batch_rows(batch: &Batch, widths: &Vec<usize>, out: &mut Vec<String>)
    requires
        batch.wf(),
        batch.ncols() == widths@.len(),
    ensures
        views(final(out)@) == views(old(out)@) + row_lines(batch.rows_view(), nat_widths(widths@)),
{
    let ghost w = nat_widths(widths@);
    let mut r: usize = 0;
    proof {
        assert(views(out@) =~= views(old(out)@) + row_lines(batch.rows_view().take(0), w));
    }
    while r < batch.num_rows
        invariant
            batch.wf(),
            batch.ncols() == widths@.len(),
            w == nat_widths(widths@),
            r <= batch.rows(),
            views(out@) == views(old(out)@) + row_lines(batch.rows_view().take(r as int), w),
        decreases batch.num_rows - r,
    {
        let cells = row_cells_vec(batch, r);
        proof {
            assert(views(cells@).len() == cells@.len());
            assert(cells@.len() == batch.ncols());
        }
        let line = data_line_string(&cells, widths);
        proof {
            lemma_views_push(out@, line);
        }
        out.push(line);
        proof {
            assert(batch.rows_view().take(r + 1) =~= batch.rows_view().take(r as int).push(
                batch.row_at(r as int),
            ));
            lemma_row_lines_push(batch.rows_view().take(r as int), batch.row_at(r as int), w);
            assert(views(out@) =~= views(old(out)@) + row_lines(
                batch.rows_view().take(r + 1),
                w,
            ));
        }
        r = r + 1;
    }
    proof {
        assert(batch.rows_view().take(batch.rows() as int) =~= batch.rows_view());
    }
}

/// Render the complete bordered table over the given batches, and return
/// the committed widths with the lines.
pub(crate) fn render_table(schema: &Schema, batches: &Vec<Batch>) -> (r: (Vec<usize>, Vec<String>))
    requires
        batches_wf(batches@, schema.names().len()),
    ensures
        r.0@.len() == schema.names().len(),
        nat_widths(r.0@) == widths_of(schema.names(), all_rows(batches@)),
        views(r.1@) == table_lines(schema.names(), all_rows(batches@)),
{
    let ghost names = schema.names();
    let widths = column_widths_of(schema, batches);
    let ghost w = nat_widths(widths@);
    let mut lines: Vec<String> = Vec::new();
    push_header_block(schema, &widths, &mut lines);
    proof {
        assert(views(lines@) =~= header_block(names, w) + row_lines(
            all_rows(batches@.take(0)),
            w,
        ));
    }
    let mut b: usize = 0;
    while b < batches.len()
        invariant
            b <= batches@.len(),
            batches_wf(batches@, names.len()),
            names == schema.names(),
            widths@.len() == names.len(),
            w == nat_widths(widths@),
            views(lines@) == header_block(names, w) + row_lines(
                all_rows(batches@.take(b as int)),
                w,
            ),
        decreases batches@.len() - b,
    {
        push_batch_rows(&batches[b], &widths, &mut lines);
        proof {
            lemma_all_rows_push(batches@.take(b as int), batches@[b as int]);
            assert(batches@.take(b + 1) =~= batches@.take(b as int).push(batches@[b as int]));
            lemma_row_lines_concat(
                all_rows(batches@.take(b as int)),
                batches@[b as int].rows_view(),
                w,
            );
            assert(header_block(names, w) + row_lines(all_rows(batches@.take(b as int)), w)
                + row_lines(batches@[b as int].rows_view(), w) =~= header_block(names, w)
                + row_lines(all_rows(batches@.take(b + 1)), w));
        }
        b = b + 1;
    }
    proof {
        assert(batches@.take(batches@.len() as int) =~= batches@);
    }
    let bottom = border_line_string(&widths);
    proof {
        lemma_views_push(lines@, bottom);
    }
    lines.push(bottom);
    proof {
        assert(views(lines@) =~= table_lines(names, all_rows(batches@)));
    }
    (widths, lines)
}

/// Build the ellipsis row: each cell a single dot, padded like any cell.
pub(crate) fn dotted_line_string(widths: &Vec<usize>) -> (r: String)
    ensures
        r@ == data_line(dot_cells(widths@.len() as nat), nat_widths(widths@)),
{
    let mut cells: Vec<String> = Vec::new();
    let mut i: usize = 0;
    while i < widths.len()
        invariant
            i <= widths@.len(),
            cells@.len() == i,
            forall|j: int| 0 <= j < i ==> (#[trigger] cells@[j])@ == seq!['.'],
        decreases widths@.len() - i,
    {
        proof {
            reveal_strlit(".");
            assert("."@ =~= seq!['.']);
        }
        cells.push(String::from_str("."));
        i = i + 1;
    }
    proof {
        assert(views(cells@) =~= dot_cells(widths@.len() as nat));
    }
    data_line_string(&cells, widths)
}

} // verus!
