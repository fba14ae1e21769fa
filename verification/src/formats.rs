//! The output-format selector, its case-insensitive parser, and the
//! top-level dispatcher that routes batches to the matching renderer.

use vstd::prelude::*;
use vstd::string::*;
use crate::batch::{Batch, Schema};
use crate::json::{json_lines, print_batches_json, JsonFraming};
use crate::sep::{print_batches_with_sep, sep_lines};
use crate::table::{
    all_rows, batches_wf, lemma_all_rows_push, lemma_total_rows_is_len, render_table, table_lines,
    total_rows,
};
use crate::text::views;
use crate::truncate::{format_batches_with_maxrows, table_budget_lines};
use crate::{MaxRows, RenderError};

verus! {

/// The supported textual output formats. `Automatic` renders exactly as
/// `Csv`.
#[derive(Clone, Copy, Debug, PartialEq, Eq, Structural)]
pub enum PrintFormat {
    Csv,
    Tsv,
    Table,
    Json,
    NdJson,
    Automatic,
}

/// The code point of `c`, with ASCII upper-case letters folded to lower
/// case.
pub open spec fn lower_code(c: char) -> int {
    if 65 <= c as int && c as int <= 90 {
        c as int + 32
    } else {
        c as int
    }
}

/// Character-wise equality up to ASCII case.
pub open spec fn eq_ignore_ascii_case(a: Seq<char>, b: Seq<char>) -> bool {
    a.len() == b.len() && forall|i: int|
        0 <= i < a.len() ==> lower_code(#[trigger] a[i]) == lower_code(b[i])
}

/// The format selected by `s`, if `s` is one of the recognized literals
/// (`csv`, `tsv`, `table`, `json`, `ndjson`, `automatic`) up to ASCII case.
pub open spec fn parse_format(s: Seq<char>) -> Option<PrintFormat> {
    if eq_ignore_ascii_case(s, "csv"@) {
        Some(PrintFormat::Csv)
    } else if eq_ignore_ascii_case(s, "tsv"@) {
        Some(PrintFormat::Tsv)
    } else if eq_ignore_ascii_case(s, "table"@) {
        Some(PrintFormat::Table)
    } else if eq_ignore_ascii_case(s, "json"@) {
        Some(PrintFormat::Json)
    } else if eq_ignore_ascii_case(s, "ndjson"@) {
        Some(PrintFormat::NdJson)
    } else if eq_ignore_ascii_case(s, "automatic"@) {
        Some(PrintFormat::Automatic)
    } else {
        None
    }
}

/// Compare two strings for equality up to ASCII case.
fn str_eq_ignore_case(a: &str, b: &str) -> (r: bool)
    ensures
        r == eq_ignore_ascii_case(a@, b@),
{
    let la: usize = a.unicode_len();
    let lb: usize = b.unicode_len();
    if la != lb {
        return false;
    }
    let mut i: usize = 0;
    while i < la
        invariant
            la == a@.len(),
            la == b@.len(),
            i <= la,
            forall|j: int| 0 <= j < i ==> lower_code(#[trigger] a@[j]) == lower_code(b@[j]),
        decreases la - i,
    {
        let ca: u32 = a.get_char(i) as u32;
        let cb: u32 = b.get_char(i) as u32;
        let fa: u32 = if 65 <= ca && ca <= 90 {
            ca + 32
        } else {
            ca
        };
        let fb: u32 = if 65 <= cb && cb <= 90 {
            cb + 32
        } else {
            cb
        };
        if fa != fb {
            proof {
                assert(lower_code(a@[i as int]) != lower_code(b@[i as int]));
            }
            return false;
        }
        i = i + 1;
    }
    true
}

impl PrintFormat {
    /// Parse a format selector, ignoring ASCII case. An unrecognized
    /// selector is handed back unchanged as the error.
    pub fn from_str(s: &str) -> (r: Result<PrintFormat, String>)
        ensures
            match r {
                Ok(f) => parse_format(s@) == Some(f),
                Err(e) => parse_format(s@) is None && e@ == s@,
            },
    {
        if str_eq_ignore_case(s, "csv") {
            Ok(PrintFormat::Csv)
        } else if str_eq_ignore_case(s, "tsv") {
            Ok(PrintFormat::Tsv)
        } else if str_eq_ignore_case(s, "table") {
            Ok(PrintFormat::Table)
        } else if str_eq_ignore_case(s, "json") {
            Ok(PrintFormat::Json)
        } else if str_eq_ignore_case(s, "ndjson") {
            Ok(PrintFormat::NdJson)
        } else if str_eq_ignore_case(s, "automatic") {
            Ok(PrintFormat::Automatic)
        } else {
            Err(String::from_str(s))
        }
    }
}

/// What is emitted when every batch is empty: a schema-derived empty
/// table (header block and bottom border) for the bordered-table format
/// with at least one field, and nothing otherwise.
pub open spec fn empty_render_spec(fmt: PrintFormat, names: Seq<Seq<char>>) -> Seq<Seq<char>> {
    if fmt == PrintFormat::Table && names.len() > 0 {
        table_lines(names, Seq::<Seq<Seq<char>>>::empty())
    } else {
        Seq::<Seq<char>>::empty()
    }
}

/// The complete output of one render call, as lines. Batches without rows
/// never contribute; if nothing remains, the empty-input form is emitted.
/// A bordered table under a row budget of exactly zero, or over a schema
/// without fields, emits nothing at all.
pub open spec fn render_spec(
    fmt: PrintFormat,
    schema: Schema,
    bs: Seq<Batch>,
    maxrows: MaxRows,
    with_header: bool,
) -> Seq<Seq<char>> {
    let names = schema.names();
    let rows = all_rows(bs);
    if rows.len() == 0 {
        empty_render_spec(fmt, names)
    } else {
        match fmt {
            PrintFormat::Csv | PrintFormat::Automatic => sep_lines(names, rows, ',', with_header),
            PrintFormat::Tsv => sep_lines(names, rows, '\t', with_header),
            PrintFormat::Table => if names.len() == 0 || maxrows == MaxRows::Limited(0) {
                Seq::<Seq<char>>::empty()
            } else {
                table_budget_lines(names, rows, maxrows)
            },
            PrintFormat::Json => json_lines(names, rows, JsonFraming::Array),
            PrintFormat::NdJson => json_lines(names, rows, JsonFraming::Lines),
        }
    }
}

impl PrintFormat {
    /// Render the batches in this format, as output lines. Zero-row
    /// batches are dropped first; an input left empty renders as
    /// `print_empty` does. The bordered-table format honours the row
    /// budget; every other format ignores it.
    pub fn print_batches(
        &self,
        schema: &Schema,
        batches: &Vec<Batch>,
        maxrows: MaxRows,
        with_header: bool,
    ) -> (r: Result<Vec<String>, RenderError>)
        requires
            batches_wf(batches@, schema.names().len()),
        ensures
            match r {
                Ok(lines) => views(lines@) == render_spec(
                    *self,
                    *schema,
                    batches@,
                    maxrows,
                    with_header,
                ),
                Err(_) => false,
            },
    {
        let ghost rows = all_rows(batches@);
        let mut any = false;
        let mut b: usize = 0;
        proof {
            assert(batches@.take(0) =~= Seq::<Batch>::empty());
        }
        while b < batches.len()
            invariant
                b <= batches@.len(),
                any == (total_rows(batches@.take(b as int)) > 0),
            decreases batches@.len() - b,
        {
            proof {
                lemma_all_rows_push(batches@.take(b as int), batches@[b as int]);
                assert(batches@.take(b + 1) =~= batches@.take(b as int).push(batches@[b as int]));
            }
            if batches[b].num_rows() > 0 {
                any = true;
            }
            b = b + 1;
        }
        proof {
            assert(batches@.take(batches@.len() as int) =~= batches@);
            lemma_total_rows_is_len(batches@);
        }
        if !any {
            return Ok(self.print_empty(schema));
        }
        match *self {
            PrintFormat::Csv | PrintFormat::Automatic => {
                proof {
                    reveal_strlit(",");
                    assert(","@ =~= seq![',']);
                }
                Ok(print_batches_with_sep(schema, batches, ",", with_header))
            },
            PrintFormat::Tsv => {
                proof {
                    reveal_strlit("\t");
                    assert("\t"@ =~= seq!['\t']);
                }
                Ok(print_batches_with_sep(schema, batches, "\t", with_header))
            },
            PrintFormat::Table => {
                if schema.num_fields() == 0 || maxrows == MaxRows::Limited(0) {
                    let none: Vec<String> = Vec::new();
                    proof {
                        assert(views(none@) =~= Seq::<Seq<char>>::empty());
                    }
                    return Ok(none);
                }
                format_batches_with_maxrows(schema, batches, maxrows)
            },
            PrintFormat::Json => Ok(print_batches_json(schema, batches, JsonFraming::Array)),
            PrintFormat::NdJson => Ok(print_batches_json(schema, batches, JsonFraming::Lines)),
        }
    }

    /// What a render emits when no batch has any rows: the schema-derived
    /// empty table for the bordered-table format with at least one field,
    /// nothing for every other case.
    fn print_empty(&self, schema: &Schema) -> (out: Vec<String>)
        ensures
            views(out@) == empty_render_spec(*self, schema.names()),
    {
        match *self {
            PrintFormat::Table => {
                if schema.field_names.len() > 0 {
                    let no_batches: Vec<Batch> = Vec::new();
                    let (_, lines) = render_table(schema, &no_batches);
                    proof {
                        assert(all_rows(no_batches@) =~= Seq::<Seq<Seq<char>>>::empty());
                    }
                    lines
                } else {
                    let none: Vec<String> = Vec::new();
                    proof {
                        assert(views(none@) =~= Seq::<Seq<char>>::empty());
                    }
                    none
                }
            },
            _ => {
                let none: Vec<String> = Vec::new();
                proof {
                    assert(views(none@) =~= Seq::<Seq<char>>::empty());
                }
                none
            },
        }
    }
}

} // verus!
