use print_format::batch::{Batch, Schema};
use print_format::formats::PrintFormat;
use print_format::stream::OutputStreamState;
use print_format::truncate::keep_only_maxrows;
use print_format::{MaxRows, RenderError};

fn s(x: &str) -> String {
    x.to_string()
}

fn abc_schema() -> Schema {
    Schema { field_names: vec![s("a"), s("b"), s("c")] }
}

fn uneven_batch() -> Batch {
    Batch {
        num_rows: 3,
        columns: vec![
            vec![s("1"), s("2222222"), s("3")],
            vec![s("42222"), s("5"), s("6")],
            vec![s("7"), s("8"), s("922222")],
        ],
    }
}

#[test]
fn every_table_line_has_border_length() {
    let schema = abc_schema();
    let lines = PrintFormat::Table
        .print_batches(&schema, &vec![uneven_batch()], MaxRows::Unlimited, false)
        .unwrap();
    assert!(!lines.is_empty());
    let border_len = lines[0].len();
    for line in &lines {
        assert_eq!(line.len(), border_len, "misaligned line: {line}");
    }
}

#[test]
fn truncated_table_keeps_alignment_and_shape() {
    let schema = abc_schema();
    let lines = PrintFormat::Table
        .print_batches(&schema, &vec![uneven_batch()], MaxRows::Limited(2), false)
        .unwrap();
    // widths come from the two budgeted rows only: 7, 5 and 1
    let expected = vec![
        "+---------+-------+---+",
        "| a       | b     | c |",
        "+---------+-------+---+",
        "| 1       | 42222 | 7 |",
        "| 2222222 | 5     | 8 |",
        "| .       | .     | . |",
        "| .       | .     | . |",
        "| .       | .     | . |",
        "+---------+-------+---+",
    ];
    let actual: Vec<_> = lines.iter().map(|l| l.as_str()).collect();
    assert_eq!(actual, expected);
    let border_len = lines[0].len();
    for line in &lines {
        assert_eq!(line.len(), border_len);
    }
}

#[test]
fn json_formats_ignore_header_flag() {
    let schema = abc_schema();
    for format in [PrintFormat::Json, PrintFormat::NdJson, PrintFormat::Table] {
        let with_flag = format
            .print_batches(&schema, &vec![uneven_batch()], MaxRows::Unlimited, true)
            .unwrap();
        let without_flag = format
            .print_batches(&schema, &vec![uneven_batch()], MaxRows::Unlimited, false)
            .unwrap();
        assert_eq!(with_flag, without_flag);
    }
}

#[test]
fn header_flag_prepends_exactly_one_line() {
    let schema = abc_schema();
    for format in [PrintFormat::Csv, PrintFormat::Tsv, PrintFormat::Automatic] {
        let with_flag = format
            .print_batches(&schema, &vec![uneven_batch()], MaxRows::Unlimited, true)
            .unwrap();
        let without_flag = format
            .print_batches(&schema, &vec![uneven_batch()], MaxRows::Unlimited, false)
            .unwrap();
        assert_eq!(with_flag.len(), without_flag.len() + 1);
        assert_eq!(&with_flag[1..], &without_flag[..]);
    }
}

#[test]
fn budget_zero_suppresses_all_table_output() {
    let schema = abc_schema();
    let lines = PrintFormat::Table
        .print_batches(&schema, &vec![uneven_batch()], MaxRows::Limited(0), true)
        .unwrap();
    assert!(lines.is_empty());
}

#[test]
fn just_sufficient_budget_matches_unlimited_bytes() {
    let schema = abc_schema();
    let limited = PrintFormat::Table
        .print_batches(&schema, &vec![uneven_batch()], MaxRows::Limited(3), false)
        .unwrap();
    let unlimited = PrintFormat::Table
        .print_batches(&schema, &vec![uneven_batch()], MaxRows::Unlimited, false)
        .unwrap();
    assert_eq!(limited, unlimited);
}

#[test]
fn keep_only_maxrows_reports_short_tables() {
    let lines = vec![s("+---+"), s("| a |"), s("+---+")];
    let widths = vec![1];
    let r = keep_only_maxrows(&lines, &widths, 1);
    assert_eq!(r, Err(RenderError::InternalLayoutInvariant));
}

#[test]
fn keep_only_maxrows_truncates_in_place() {
    // a rendered one-column table with three data rows, cut to one
    let lines = vec![
        s("+---+"),
        s("| a |"),
        s("+---+"),
        s("| 1 |"),
        s("| 2 |"),
        s("| 3 |"),
        s("+---+"),
    ];
    let widths = vec![1];
    let out = keep_only_maxrows(&lines, &widths, 1).unwrap();
    let expected = vec![
        "+---+", "| a |", "+---+", "| 1 |", "| . |", "| . |", "| . |", "+---+",
    ];
    let actual: Vec<_> = out.iter().map(|l| l.as_str()).collect();
    assert_eq!(actual, expected);
}

#[test]
fn from_str_recognizes_selectors_case_insensitively() {
    assert_eq!(PrintFormat::from_str("csv"), Ok(PrintFormat::Csv));
    assert_eq!(PrintFormat::from_str("CSV"), Ok(PrintFormat::Csv));
    assert_eq!(PrintFormat::from_str("tsv"), Ok(PrintFormat::Tsv));
    assert_eq!(PrintFormat::from_str("Table"), Ok(PrintFormat::Table));
    assert_eq!(PrintFormat::from_str("JSON"), Ok(PrintFormat::Json));
    assert_eq!(PrintFormat::from_str("NdJson"), Ok(PrintFormat::NdJson));
    assert_eq!(PrintFormat::from_str("ndjson"), Ok(PrintFormat::NdJson));
    assert_eq!(
        PrintFormat::from_str("AUTOMATIC"),
        Ok(PrintFormat::Automatic)
    );
    assert_eq!(PrintFormat::from_str("parquet"), Err(s("parquet")));
    assert_eq!(PrintFormat::from_str(""), Err(s("")));
}

#[test]
fn streaming_below_threshold_buffers_without_output() {
    let schema = abc_schema();
    let mut state = OutputStreamState::new(PrintFormat::Table, 10);
    let out = state.process_batch(uneven_batch(), &schema);
    assert!(out.is_empty());
    assert_eq!(state.preview_batches.len(), 1);
    assert_eq!(state.preview_row_count, 3);
    assert!(state.precomputed_widths.is_none());

    // when the input ends before the threshold is reached, the caller
    // flushes the buffer with widths computed from exactly what was seen
    let widths = state.compute_column_widths(&state.preview_batches, &schema);
    assert_eq!(widths, vec![7, 5, 6]);
    let mut flushed = state.print_header(&schema, &widths);
    flushed.extend(state.print_batch_with_widths(&state.preview_batches[0], &widths));
    let bottom = state.print_bottom_border(&widths);
    flushed.push(bottom);

    let whole = PrintFormat::Table
        .print_batches(&schema, &vec![uneven_batch()], MaxRows::Unlimited, false)
        .unwrap();
    assert_eq!(flushed, whole);
}

#[test]
fn committed_state_emits_header_on_first_use() {
    let schema = abc_schema();
    let mut state = OutputStreamState::new(PrintFormat::Table, 10);
    // widths committed from outside the session, header not yet emitted
    state.precomputed_widths = Some(vec![1, 1, 1]);
    assert!(!state.header_printed);
    let batch = Batch {
        num_rows: 1,
        columns: vec![vec![s("1")], vec![s("4")], vec![s("7")]],
    };
    let out = state.process_batch(batch.clone(), &schema);
    let actual: Vec<_> = out.iter().map(|l| l.as_str()).collect();
    assert_eq!(
        actual,
        vec!["+---+---+---+", "| a | b | c |", "+---+---+---+", "| 1 | 4 | 7 |"]
    );
    assert!(state.header_printed);
    // the header is not emitted again
    let out = state.process_batch(batch, &schema);
    let actual: Vec<_> = out.iter().map(|l| l.as_str()).collect();
    assert_eq!(actual, vec!["| 1 | 4 | 7 |"]);
}

#[test]
fn zero_threshold_commits_on_first_batch() {
    let schema = abc_schema();
    let mut state = OutputStreamState::new(PrintFormat::Table, 0);
    let out = state.process_batch(uneven_batch(), &schema);
    assert!(state.precomputed_widths.is_some());
    let actual: Vec<_> = out.iter().map(|l| l.as_str()).collect();
    assert_eq!(
        actual,
        vec![
            "+---------+-------+--------+",
            "| a       | b     | c      |",
            "+---------+-------+--------+",
            "| 1       | 42222 | 7      |",
            "| 2222222 | 5     | 8      |",
            "| 3       | 6     | 922222 |",
        ]
    );
}

#[test]
fn ndjson_emits_one_object_per_row() {
    let schema = Schema { field_names: vec![s("x")] };
    let batch = Batch { num_rows: 2, columns: vec![vec![s("10"), s("20")]] };
    let lines = PrintFormat::NdJson
        .print_batches(&schema, &vec![batch], MaxRows::Unlimited, false)
        .unwrap();
    let actual: Vec<_> = lines.iter().map(|l| l.as_str()).collect();
    assert_eq!(actual, vec![r#"{"x":10}"#, r#"{"x":20}"#]);
}
