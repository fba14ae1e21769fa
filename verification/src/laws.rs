//! The library's general laws, stated and proved over the rendering
//! model: structural alignment of bordered tables, header-flag behaviour,
//! width coverage, truncation shape, budget sufficiency, and the empty
//! input forms.

use vstd::prelude::*;
use crate::batch::{Batch, Schema};
use crate::formats::{render_spec, PrintFormat};
use crate::sep::{sep_line, sep_lines};
use crate::table::{
    all_rows, batches_wf, header_block, lemma_widths_cover, row_lines, rows_wf, table_lines,
    lemma_all_rows_wf, widths_of,
};
use crate::text::{border_line, data_line, lemma_border_line_len, lemma_data_line_len};
use crate::truncate::{dotted_row, keep_spec};
use crate::MaxRows;

verus! {

/// Every line of a complete bordered table — borders, header line and
/// data lines alike — has the length of its border line.
pub proof fn lemma_table_lines_aligned(names: Seq<Seq<char>>, rows: Seq<Seq<Seq<char>>>)
    requires
        names.len() >= 1,
        rows_wf(rows, names.len()),
    ensures
        table_lines(names, rows).len() == rows.len() + 4,
        forall|k: int|
            0 <= k < table_lines(names, rows).len() ==> (#[trigger] table_lines(names, rows)[k]).len()
                == border_line(widths_of(names, rows)).len(),
{
    let w = widths_of(names, rows);
    let out = table_lines(names, rows);
    let target = border_line(w).len();
    lemma_border_line_len(w);
    assert forall|i: int| 0 <= i < names.len() implies (#[trigger] names[i]).len() <= w[i] by {
        lemma_widths_cover(names, rows, i);
    }
    lemma_data_line_len(names, w);
    assert forall|k: int| 0 <= k < rows.len() implies (#[trigger] row_lines(rows, w)[k]).len()
        == target by {
        assert(row_lines(rows, w)[k] == data_line(rows[k], w));
        assert forall|i: int| 0 <= i < names.len() implies (#[trigger] rows[k][i]).len()
            <= w[i] by {
            lemma_widths_cover(names, rows, i);
        }
        lemma_data_line_len(rows[k], w);
    }
    assert forall|k: int| 0 <= k < out.len() implies (#[trigger] out[k]).len() == target by {
        if k < 3 {
            assert(out[k] == header_block(names, w)[k]);
        } else if k < 3 + rows.len() {
            assert(out[k] == row_lines(rows, w)[k - 3]);
        } else {
            assert(out[k] == border_line(w));
        }
    }
}

/// Structural alignment: however a bordered-table render comes out —
/// whole, truncated, or schema-only — every line of it has the same
/// length as the top border line.
pub proof fn lemma_table_output_aligned(
    schema: Schema,
    bs: Seq<Batch>,
    maxrows: MaxRows,
    with_header: bool,
)
    requires
        schema.wf(),
        batches_wf(bs, schema.names().len()),
    ensures
        ({
            let out = render_spec(PrintFormat::Table, schema, bs, maxrows, with_header);
            forall|k: int| 0 <= k < out.len() ==> (#[trigger] out[k]).len() == out[0].len()
        }),
{
    let names = schema.names();
    let rows = all_rows(bs);
    let out = render_spec(PrintFormat::Table, schema, bs, maxrows, with_header);
    lemma_all_rows_wf(bs, names.len());
    if rows.len() == 0 {
        if names.len() > 0 {
            lemma_table_lines_aligned(names, Seq::<Seq<Seq<char>>>::empty());
        }
    } else if names.len() == 0 || maxrows == MaxRows::Limited(0) {
        // nothing is emitted
    } else {
        match maxrows {
            MaxRows::Unlimited => {
                lemma_table_lines_aligned(names, rows);
            },
            MaxRows::Limited(l) => {
                if rows.len() > l {
                    let kept = rows.take(l as int);
                    let w = widths_of(names, kept);
                    let t = table_lines(names, kept);
                    assert(rows_wf(kept, names.len()));
                    lemma_table_lines_aligned(names, kept);
                    // the ellipsis rows are aligned as well: every width
                    // covers a single dot because field names are non-empty
                    assert forall|i: int| 0 <= i < names.len() implies (#[trigger] crate::table::dot_cells(
                        w.len(),
                    )[i]).len() <= w[i] by {
                        lemma_widths_cover(names, kept, i);
                    }
                    lemma_data_line_len(crate::table::dot_cells(w.len()), w);
                    lemma_border_line_len(w);
                    let target = border_line(w).len();
                    assert(out == keep_spec(t, w, l as nat));
                    assert(t.len() == l + 4);
                    assert forall|k: int| 0 <= k < out.len() implies (#[trigger] out[k]).len()
                        == target by {
                        if k < l + 3 {
                            assert(out[k] == t.take(l + 3 as int)[k]);
                            assert(out[k] == t[k]);
                        } else if k < l + 6 {
                            assert(out[k] == dotted_row(w));
                        } else {
                            assert(out[k] == t.last());
                        }
                    }
                    assert(out[0] == t[0]);
                } else {
                    lemma_table_lines_aligned(names, rows);
                }
            },
        }
    }
}

/// The delimiter of a separated-value format.
pub open spec fn sep_delimiter(fmt: PrintFormat) -> char {
    if fmt == PrintFormat::Tsv {
        '\t'
    } else {
        ','
    }
}

/// For the separated-value formats, header presence is governed solely
/// by the header flag: with the flag set, the output is exactly the
/// header line followed by the output without the flag.
pub proof fn lemma_separated_header_flag(
    fmt: PrintFormat,
    schema: Schema,
    bs: Seq<Batch>,
    maxrows: MaxRows,
)
    requires
        fmt == PrintFormat::Csv || fmt == PrintFormat::Tsv || fmt == PrintFormat::Automatic,
        all_rows(bs).len() > 0,
    ensures
        render_spec(fmt, schema, bs, maxrows, true) == seq![
            sep_line(schema.names(), sep_delimiter(fmt)),
        ] + render_spec(fmt, schema, bs, maxrows, false),
{
    let names = schema.names();
    let rows = all_rows(bs);
    let d = sep_delimiter(fmt);
    assert(sep_lines(names, rows, d, true) =~= seq![sep_line(names, d)] + sep_lines(
        names,
        rows,
        d,
        false,
    ));
}

/// The bordered-table and JSON formats are invariant to the header flag.
pub proof fn lemma_header_flag_ignored(
    fmt: PrintFormat,
    schema: Schema,
    bs: Seq<Batch>,
    maxrows: MaxRows,
    h1: bool,
    h2: bool,
)
    requires
        fmt == PrintFormat::Table || fmt == PrintFormat::Json || fmt == PrintFormat::NdJson,
    ensures
        render_spec(fmt, schema, bs, maxrows, h1) == render_spec(fmt, schema, bs, maxrows, h2),
{
}

/// The width committed for a column is at least the length of its
/// field's name and at least the length of every cell rendered in it.
pub proof fn lemma_width_covers_column(names: Seq<Seq<char>>, rows: Seq<Seq<Seq<char>>>, i: int)
    requires
        0 <= i < names.len(),
    ensures
        widths_of(names, rows)[i] >= names[i].len(),
        forall|r: int|
            0 <= r < rows.len() ==> (#[trigger] rows[r][i]).len() <= widths_of(names, rows)[i],
{
    lemma_widths_cover(names, rows, i);
}

/// Truncation with a row budget `l` on a table of more than `l` rows
/// yields exactly the header block, the first `l` data rows, three
/// ellipsis rows, and the bottom border — all over the same widths.
pub proof fn lemma_truncated_table_shape(
    schema: Schema,
    bs: Seq<Batch>,
    l: usize,
    with_header: bool,
)
    requires
        batches_wf(bs, schema.names().len()),
        schema.names().len() >= 1,
        l >= 1,
        all_rows(bs).len() > l,
    ensures
        ({
            let rows = all_rows(bs);
            let w = widths_of(schema.names(), rows.take(l as int));
            let out = render_spec(PrintFormat::Table, schema, bs, MaxRows::Limited(l), with_header);
            &&& out.len() == l + 7
            &&& out.subrange(0, 3) == header_block(schema.names(), w)
            &&& out.subrange(3, l + 3 as int) == row_lines(rows.take(l as int), w)
            &&& out[l + 3 as int] == dotted_row(w)
            &&& out[l + 4 as int] == dotted_row(w)
            &&& out[l + 5 as int] == dotted_row(w)
            &&& out[l + 6 as int] == border_line(w)
        }),
{
    let names = schema.names();
    let rows = all_rows(bs);
    let kept = rows.take(l as int);
    let w = widths_of(names, kept);
    let t = table_lines(names, kept);
    let out = render_spec(PrintFormat::Table, schema, bs, MaxRows::Limited(l), with_header);
    assert(out == keep_spec(t, w, l as nat));
    assert(t.len() == l + 4);
    assert(out.subrange(0, 3) =~= header_block(names, w)) by {
        assert forall|k: int| 0 <= k < 3 implies out.subrange(0, 3)[k] == header_block(
            names,
            w,
        )[k] by {
            assert(out[k] == t.take(l + 3 as int)[k]);
            assert(t[k] == header_block(names, w)[k]);
        }
    }
    assert(out.subrange(3, l + 3 as int) =~= row_lines(kept, w)) by {
        assert forall|k: int| 0 <= k < l implies out.subrange(3, l + 3 as int)[k] == row_lines(
            kept,
            w,
        )[k] by {
            assert(out[k + 3] == t.take(l + 3 as int)[k + 3]);
            assert(t[k + 3] == row_lines(kept, w)[k]);
        }
    }
    assert(out[l + 6 as int] == t.last());
    assert(t.last() == border_line(w));
}

/// A row budget at or above the total row count — like an unlimited one —
/// renders the table whole: the two outputs are identical.
pub proof fn lemma_sufficient_budget(schema: Schema, bs: Seq<Batch>, l: usize, with_header: bool)
    requires
        all_rows(bs).len() <= l,
    ensures
        render_spec(PrintFormat::Table, schema, bs, MaxRows::Limited(l), with_header)
            == render_spec(PrintFormat::Table, schema, bs, MaxRows::Unlimited, with_header),
{
    let rows = all_rows(bs);
    if rows.len() > 0 {
        assert(l >= 1);
        assert(MaxRows::Limited(l) != MaxRows::Limited(0usize));
    }
}

proof fn lemma_no_rows(bs: Seq<Batch>)
    requires
        forall|k: int| 0 <= k < bs.len() ==> (#[trigger] bs[k]).rows() == 0,
    ensures
        all_rows(bs).len() == 0,
    decreases bs.len(),
{
    if bs.len() > 0 {
        assert(forall|k: int|
            0 <= k < bs.len() - 1 ==> bs[k] == (#[trigger] bs.drop_last()[k]));
        lemma_no_rows(bs.drop_last());
        assert(bs.last().rows_view().len() == 0);
    }
}

/// Input without any data rows renders as the schema-derived empty form:
/// for the bordered table over at least one field, the header block and
/// the bottom border, with every width exactly the name's length; for a
/// fieldless table and for every other format, nothing.
pub proof fn lemma_zero_row_render(
    fmt: PrintFormat,
    schema: Schema,
    bs: Seq<Batch>,
    maxrows: MaxRows,
    with_header: bool,
)
    requires
        forall|k: int| 0 <= k < bs.len() ==> (#[trigger] bs[k]).rows() == 0,
    ensures
        ({
            let names = schema.names();
            let w0 = widths_of(names, Seq::<Seq<Seq<char>>>::empty());
            let out = render_spec(fmt, schema, bs, maxrows, with_header);
            &&& (fmt == PrintFormat::Table && names.len() > 0) ==> out == seq![
                border_line(w0),
                data_line(names, w0),
                border_line(w0),
                border_line(w0),
            ]
            &&& (fmt != PrintFormat::Table || names.len() == 0) ==> out
                == Seq::<Seq<char>>::empty()
            &&& forall|i: int| 0 <= i < names.len() ==> #[trigger] w0[i] == names[i].len()
        }),
{
    let names = schema.names();
    let w0 = widths_of(names, Seq::<Seq<Seq<char>>>::empty());
    lemma_no_rows(bs);
    assert forall|i: int| 0 <= i < names.len() implies #[trigger] w0[i] == names[i].len() by {
        assert(crate::table::col_of(Seq::<Seq<Seq<char>>>::empty(), i)
            =~= Seq::<Seq<char>>::empty());
    }
    if fmt == PrintFormat::Table && names.len() > 0 {
        let empty_rows = Seq::<Seq<Seq<char>>>::empty();
        assert(row_lines(empty_rows, w0) =~= Seq::<Seq<char>>::empty());
        assert(table_lines(names, empty_rows) =~= seq![
            border_line(w0),
            data_line(names, w0),
            border_line(w0),
            border_line(w0),
        ]);
    }
}

} // verus!
