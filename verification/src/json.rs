//! JSON rendering: one object per data row, keys in schema field order,
//! framed either as a single array line or as one object per line. Cell
//! strings are taken as already-encoded JSON value literals; producing
//! them is the external cell formatter's concern.

use vstd::prelude::*;
use vstd::string::*;
use crate::batch::{Batch, Schema};
use crate::table::{all_rows, batches_wf, lemma_all_rows_push, row_cells_vec};
use crate::text::{lemma_sp_join_push, lemma_views_push, sp_join, views};

verus! {

/// How the row objects are framed.
#[derive(Clone, Copy, Debug, PartialEq, Eq, Structural)]
pub enum JsonFraming {
    /// All objects in one array on a single line.
    Array,
    /// One object per line, no enclosing array.
    Lines,
}

/// One JSON object for one row: quoted field names as keys, the row's
/// cell literals as values, in schema order.
pub open spec fn json_object(names: Seq<Seq<char>>, row: Seq<Seq<char>>) -> Seq<char> {
    seq!['{'] + sp_join(
        Seq::new(names.len(), |i: int| seq!['"'] + names[i] + seq!['"', ':'] + row[i]),
        seq![','],
    ) + seq!['}']
}

/// One object per row.
pub open spec fn json_objects(names: Seq<Seq<char>>, rows: Seq<Seq<Seq<char>>>) -> Seq<Seq<char>> {
    rows.map_values(|row: Seq<Seq<char>>| json_object(names, row))
}

/// The full JSON output for the given framing.
pub open spec fn json_lines(
    names: Seq<Seq<char>>,
    rows: Seq<Seq<Seq<char>>>,
    framing: JsonFraming,
) -> Seq<Seq<char>> {
    match framing {
        JsonFraming::Array => seq![
            seq!['['] + sp_join(json_objects(names, rows), seq![',']) + seq![']'],
        ],
        JsonFraming::Lines => json_objects(names, rows),
    }
}

/// Row objects distribute over concatenation of row sequences.
pub proof fn lemma_json_objects_concat(
    names: Seq<Seq<char>>,
    a: Seq<Seq<Seq<char>>>,
    b: Seq<Seq<Seq<char>>>,
)
    ensures
        json_objects(names, a + b) == json_objects(names, a) + json_objects(names, b),
{
    assert(json_objects(names, a + b) =~= json_objects(names, a) + json_objects(names, b));
}

/// Build the object string for one row.
fn json_object_string(schema: &Schema, cells: &Vec<String>) -> (r: String)
    requires
        cells@.len() == schema.names().len(),
    ensures
        r@ == json_object(schema.names(), views(cells@)),
{
    let ghost names = schema.names();
    let ghost row = views(cells@);
    let ghost parts = Seq::new(
        names.len(),
        |i: int| seq!['"'] + names[i] + seq!['"', ':'] + row[i],
    );
    let mut out = String::from_str("{");
    proof {
        reveal_strlit("{");
        assert("{"@ =~= seq!['{']);
        assert(out@ =~= seq!['{'] + sp_join(parts.take(0), seq![',']));
    }
    let mut i: usize = 0;
    while i < cells.len()
        invariant
            i <= cells@.len(),
            cells@.len() == schema.names().len(),
            names == schema.names(),
            row == views(cells@),
            parts == Seq::new(
                names.len(),
                |j: int| seq!['"'] + names[j] + seq!['"', ':'] + row[j],
            ),
            out@ == seq!['{'] + sp_join(parts.take(i as int), seq![',']),
        decreases cells@.len() - i,
    {
        if i > 0 {
            out.append(",");
        }
        out.append("\"");
        out.append(schema.field_names[i].as_str());
        out.append("\":");
        out.append(cells[i].as_str());
        proof {
            reveal_strlit(",");
            reveal_strlit("\"");
            reveal_strlit("\":");
            assert(","@ =~= seq![',']);
            assert("\""@ =~= seq!['"']);
            assert("\":"@ =~= seq!['"', ':']);
            assert(parts.take(i + 1) =~= parts.take(i as int).push(parts[i as int]));
            lemma_sp_join_push(parts.take(i as int), seq![','], parts[i as int]);
            assert(out@ =~= seq!['{'] + sp_join(parts.take(i + 1), seq![',']));
        }
        i = i + 1;
    }
    out.append("}");
    proof {
        reveal_strlit("}");
        assert("}"@ =~= seq!['}']);
        assert(parts.take(parts.len() as int) =~= parts);
        assert(out@ =~= json_object(names, row));
    }
    out
}

/// One object string per row of every batch, in arrival order.
fn all_object_strings(schema: &Schema, batches: &Vec<Batch>) -> (objs: Vec<String>)
    requires
        batches_wf(batches@, schema.names().len()),
    ensures
        views(objs@) == json_objects(schema.names(), all_rows(batches@)),
{
    let ghost names = schema.names();
    let mut objs: Vec<String> = Vec::new();
    proof {
        assert(views(objs@) =~= json_objects(names, all_rows(batches@.take(0))));
    }
    let mut b: usize = 0;
    while b < batches.len()
        invariant
            b <= batches@.len(),
            batches_wf(batches@, names.len()),
            names == schema.names(),
            views(objs@) == json_objects(names, all_rows(batches@.take(b as int))),
        decreases batches@.len() - b,
    {
        let batch = &batches[b];
        let mut r: usize = 0;
        while r < batch.num_rows
            invariant
                0 <= b < batches@.len(),
                batch == batches@[b as int],
                batch.wf(),
                batch.ncols() == names.len(),
                names == schema.names(),
                r <= batch.rows(),
                views(objs@) == json_objects(names, all_rows(batches@.take(b as int)))
                    + json_objects(names, batch.rows_view().take(r as int)),
            decreases batch.num_rows - r,
        {
            let cells = row_cells_vec(batch, r);
            proof {
                assert(views(cells@).len() == cells@.len());
            }
            let obj = json_object_string(schema, &cells);
            proof {
                lemma_views_push(objs@, obj);
            }
            objs.push(obj);
            proof {
                assert(batch.rows_view().take(r + 1) =~= batch.rows_view().take(r as int).push(
                    batch.row_at(r as int),
                ));
                assert(json_objects(names, batch.rows_view().take(r + 1)) =~= json_objects(
                    names,
                    batch.rows_view().take(r as int),
                ).push(json_object(names, batch.row_at(r as int))));
            }
            r = r + 1;
        }
        proof {
            assert(batch.rows_view().take(batch.rows() as int) =~= batch.rows_view());
            lemma_all_rows_push(batches@.take(b as int), *batch);
            assert(batches@.take(b + 1) =~= batches@.take(b as int).push(*batch));
            lemma_json_objects_concat(names, all_rows(batches@.take(b as int)), batch.rows_view());
        }
        b = b + 1;
    }
    proof {
        assert(batches@.take(batches@.len() as int) =~= batches@);
    }
    objs
}

/// Render every batch as JSON with the requested framing: a single array
/// line, or one object per line.
pub(crate) fn print_batches_json(schema: &Schema, batches: &Vec<Batch>, framing: JsonFraming) -> (
    out: Vec<String>)
    requires
        batches_wf(batches@, schema.names().len()),
    ensures
        views(out@) == json_lines(schema.names(), all_rows(batches@), framing),
{
    let ghost names = schema.names();
    let objs = all_object_strings(schema, batches);
    match framing {
        JsonFraming::Lines => objs,
        JsonFraming::Array => {
            let ghost parts = json_objects(names, all_rows(batches@));
            let mut line = String::from_str("[");
            proof {
                reveal_strlit("[");
                assert("["@ =~= seq!['[']);
                assert(line@ =~= seq!['['] + sp_join(parts.take(0), seq![',']));
            }
            let mut i: usize = 0;
            while i < objs.len()
                invariant
                    i <= objs@.len(),
                    parts == json_objects(names, all_rows(batches@)),
                    views(objs@) == parts,
                    line@ == seq!['['] + sp_join(parts.take(i as int), seq![',']),
                decreases objs@.len() - i,
            {
                if i > 0 {
                    line.append(",");
                }
                line.append(objs[i].as_str());
                proof {
                    reveal_strlit(",");
                    assert(","@ =~= seq![',']);
                    assert(parts.take(i + 1) =~= parts.take(i as int).push(parts[i as int]));
                    lemma_sp_join_push(parts.take(i as int), seq![','], parts[i as int]);
                    assert(line@ =~= seq!['['] + sp_join(parts.take(i + 1), seq![',']));
                }
                i = i + 1;
            }
            line.append("]");
            let mut out: Vec<String> = Vec::new();
            proof {
                reveal_strlit("]");
                assert("]"@ =~= seq![']']);
                assert(parts.take(parts.len() as int) =~= parts);
                lemma_views_push(out@, line);
            }
            out.push(line);
            proof {
                assert(views(out@) =~= json_lines(names, all_rows(batches@), JsonFraming::Array));
            }
            out
        },
    }
}

} // verus!
