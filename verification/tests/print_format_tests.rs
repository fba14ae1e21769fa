use print_format::batch::{Batch, Schema};
use print_format::formats::PrintFormat;
use print_format::stream::OutputStreamState;
use print_format::MaxRows;

fn s(x: &str) -> String {
    x.to_string()
}

/// Return a schema with three columns
fn three_column_schema() -> Schema {
    Schema { field_names: vec![s("a"), s("b"), s("c")] }
}

/// Return a batch with three columns and three rows
fn three_column_batch() -> Batch {
    Batch {
        num_rows: 3,
        columns: vec![
            vec![s("1"), s("2"), s("3")],
            vec![s("4"), s("5"), s("6")],
            vec![s("7"), s("8"), s("9")],
        ],
    }
}

/// Return a batch with three columns and three rows, but with different widths
fn three_column_batch_with_widths() -> Batch {
    Batch {
        num_rows: 3,
        columns: vec![
            vec![s("1"), s("2222222"), s("3")],
            vec![s("42222"), s("5"), s("6")],
            vec![s("7"), s("8"), s("922222")],
        ],
    }
}

/// Return a schema with one column
fn one_column_schema() -> Schema {
    Schema { field_names: vec![s("a")] }
}

/// return a batch with one column and three rows
fn one_column_batch() -> Batch {
    Batch { num_rows: 3, columns: vec![vec![s("1"), s("2"), s("3")]] }
}

/// Slice the batch into 2 batches
fn split_batch(batch: Batch) -> Vec<Batch> {
    assert!(batch.num_rows() > 1);
    let split = batch.num_rows() / 2;
    vec![batch.slice(0, split), batch.slice(split, batch.num_rows() - split)]
}

fn lines_to_output(lines: &[String]) -> String {
    let mut out = String::new();
    for line in lines {
        out.push_str(line);
        out.push('\n');
    }
    out
}

#[derive(Debug)]
struct PrintBatchesTest {
    format: PrintFormat,
    schema: Schema,
    batches: Vec<Batch>,
    maxrows: MaxRows,
    with_header: WithHeader,
    expected: Vec<&'static str>,
}

/// How to test with_header
#[derive(Debug, Clone)]
enum WithHeader {
    Yes,
    No,
    /// output should be the same with or without header
    Ignored,
}

impl PrintBatchesTest {
    fn new() -> Self {
        Self {
            format: PrintFormat::Table,
            schema: Schema { field_names: vec![] },
            batches: vec![],
            maxrows: MaxRows::Unlimited,
            with_header: WithHeader::Ignored,
            expected: vec![],
        }
    }

    /// set the format
    fn with_format(mut self, format: PrintFormat) -> Self {
        self.format = format;
        self
    }

    // set the schema
    fn with_schema(mut self, schema: Schema) -> Self {
        self.schema = schema;
        self
    }

    /// set the batches to convert
    fn with_batches(mut self, batches: Vec<Batch>) -> Self {
        self.batches = batches;
        self
    }

    /// set maxrows
    fn with_maxrows(mut self, maxrows: MaxRows) -> Self {
        self.maxrows = maxrows;
        self
    }

    /// set with_header
    fn with_header(mut self, with_header: WithHeader) -> Self {
        self.with_header = with_header;
        self
    }

    /// set expected output
    fn with_expected(mut self, expected: &[&'static str]) -> Self {
        self.expected = expected.to_vec();
        self
    }

    /// run the test
    fn run(self) {
        let actual = self.output();
        let actual: Vec<_> = actual.trim_end().split('\n').collect();
        let expected = self.expected;
        assert_eq!(
            actual, expected,
            "\n\nactual:\n{actual:#?}\n\nexpected:\n{expected:#?}"
        );
    }

    /// formats batches using parameters and returns the resulting output
    fn output(&self) -> String {
        match self.with_header {
            WithHeader::Yes => self.output_with_header(true),
            WithHeader::No => self.output_with_header(false),
            WithHeader::Ignored => {
                let output = self.output_with_header(true);
                // ensure the output is the same without header
                let output_without_header = self.output_with_header(false);
                assert_eq!(
                    output, output_without_header,
                    "Expected output to be the same with or without header"
                );
                output
            }
        }
    }

    fn output_with_header(&self, with_header: bool) -> String {
        let lines = self
            .format
            .print_batches(&self.schema, &self.batches, self.maxrows, with_header)
            .unwrap();
        lines_to_output(&lines)
    }
}

#[test]
fn print_empty() {
    for format in [
        PrintFormat::Csv,
        PrintFormat::Tsv,
        PrintFormat::Json,
        PrintFormat::NdJson,
        PrintFormat::Automatic,
    ] {
        // no output for empty batches, even with header set
        PrintBatchesTest::new()
            .with_format(format)
            .with_schema(three_column_schema())
            .with_batches(vec![])
            .with_expected(&[""])
            .run();
    }

    // output column headers for empty batches when format is Table
    let expected = &[
        "+---+---+---+",
        "| a | b | c |",
        "+---+---+---+",
        "+---+---+---+",
    ];
    PrintBatchesTest::new()
        .with_format(PrintFormat::Table)
        .with_schema(three_column_schema())
        .with_batches(vec![])
        .with_expected(expected)
        .run();
}

#[test]
fn print_csv_no_header() {
    let expected = &["1,4,7", "2,5,8", "3,6,9"];

    PrintBatchesTest::new()
        .with_format(PrintFormat::Csv)
        .with_schema(three_column_schema())
        .with_batches(split_batch(three_column_batch()))
        .with_header(WithHeader::No)
        .with_expected(expected)
        .run();
}

#[test]
fn print_csv_with_header() {
    let expected = &["a,b,c", "1,4,7", "2,5,8", "3,6,9"];

    PrintBatchesTest::new()
        .with_format(PrintFormat::Csv)
        .with_schema(three_column_schema())
        .with_batches(split_batch(three_column_batch()))
        .with_header(WithHeader::Yes)
        .with_expected(expected)
        .run();
}

#[test]
fn print_tsv_no_header() {
    let expected = &["1\t4\t7", "2\t5\t8", "3\t6\t9"];

    PrintBatchesTest::new()
        .with_format(PrintFormat::Tsv)
        .with_schema(three_column_schema())
        .with_batches(split_batch(three_column_batch()))
        .with_header(WithHeader::No)
        .with_expected(expected)
        .run();
}

#[test]
fn print_tsv_with_header() {
    let expected = &["a\tb\tc", "1\t4\t7", "2\t5\t8", "3\t6\t9"];

    PrintBatchesTest::new()
        .with_format(PrintFormat::Tsv)
        .with_schema(three_column_schema())
        .with_batches(split_batch(three_column_batch()))
        .with_header(WithHeader::Yes)
        .with_expected(expected)
        .run();
}

#[test]
fn print_table() {
    let expected = &[
        "+---+---+---+",
        "| a | b | c |",
        "+---+---+---+",
        "| 1 | 4 | 7 |",
        "| 2 | 5 | 8 |",
        "| 3 | 6 | 9 |",
        "+---+---+---+",
    ];

    PrintBatchesTest::new()
        .with_format(PrintFormat::Table)
        .with_schema(three_column_schema())
        .with_batches(split_batch(three_column_batch()))
        .with_header(WithHeader::Ignored)
        .with_expected(expected)
        .run();
}

#[test]
fn print_json() {
    let expected = &[r#"[{"a":1,"b":4,"c":7},{"a":2,"b":5,"c":8},{"a":3,"b":6,"c":9}]"#];

    PrintBatchesTest::new()
        .with_format(PrintFormat::Json)
        .with_schema(three_column_schema())
        .with_batches(split_batch(three_column_batch()))
        .with_header(WithHeader::Ignored)
        .with_expected(expected)
        .run();
}

#[test]
fn print_ndjson() {
    let expected = &[
        r#"{"a":1,"b":4,"c":7}"#,
        r#"{"a":2,"b":5,"c":8}"#,
        r#"{"a":3,"b":6,"c":9}"#,
    ];

    PrintBatchesTest::new()
        .with_format(PrintFormat::NdJson)
        .with_schema(three_column_schema())
        .with_batches(split_batch(three_column_batch()))
        .with_header(WithHeader::Ignored)
        .with_expected(expected)
        .run();
}

#[test]
fn print_automatic_no_header() {
    let expected = &["1,4,7", "2,5,8", "3,6,9"];

    PrintBatchesTest::new()
        .with_format(PrintFormat::Automatic)
        .with_schema(three_column_schema())
        .with_batches(split_batch(three_column_batch()))
        .with_header(WithHeader::No)
        .with_expected(expected)
        .run();
}

#[test]
fn print_automatic_with_header() {
    let expected = &["a,b,c", "1,4,7", "2,5,8", "3,6,9"];

    PrintBatchesTest::new()
        .with_format(PrintFormat::Automatic)
        .with_schema(three_column_schema())
        .with_batches(split_batch(three_column_batch()))
        .with_header(WithHeader::Yes)
        .with_expected(expected)
        .run();
}

#[test]
fn print_maxrows_unlimited() {
    let expected = &["+---+", "| a |", "+---+", "| 1 |", "| 2 |", "| 3 |", "+---+"];

    // should print out entire output with no truncation if unlimited or
    // limit greater than number of batches or equal to the number of batches
    for max_rows in [MaxRows::Unlimited, MaxRows::Limited(5), MaxRows::Limited(3)] {
        PrintBatchesTest::new()
            .with_format(PrintFormat::Table)
            .with_schema(one_column_schema())
            .with_batches(vec![one_column_batch()])
            .with_maxrows(max_rows)
            .with_expected(expected)
            .run();
    }
}

#[test]
fn print_maxrows_limited_one_batch() {
    let expected = &[
        "+---+", "| a |", "+---+", "| 1 |", "| . |", "| . |", "| . |", "+---+",
    ];

    PrintBatchesTest::new()
        .with_format(PrintFormat::Table)
        .with_schema(one_column_schema())
        .with_batches(vec![one_column_batch()])
        .with_maxrows(MaxRows::Limited(1))
        .with_expected(expected)
        .run();
}

#[test]
fn print_maxrows_limited_multi_batched() {
    let expected = &[
        "+---+", "| a |", "+---+", "| 1 |", "| 2 |", "| 3 |", "| 1 |", "| 2 |", "| . |",
        "| . |", "| . |", "+---+",
    ];

    PrintBatchesTest::new()
        .with_format(PrintFormat::Table)
        .with_schema(one_column_schema())
        .with_batches(vec![
            one_column_batch(),
            one_column_batch(),
            one_column_batch(),
        ])
        .with_maxrows(MaxRows::Limited(5))
        .with_expected(expected)
        .run();
}

#[test]
fn test_print_batches_empty_batches() {
    let batch = one_column_batch();
    let empty_batch = Batch::new_empty(&one_column_schema());

    let expected = &["+---+", "| a |", "+---+", "| 1 |", "| 2 |", "| 3 |", "+---+"];

    PrintBatchesTest::new()
        .with_format(PrintFormat::Table)
        .with_schema(one_column_schema())
        .with_batches(vec![empty_batch.clone(), batch, empty_batch])
        .with_expected(expected)
        .run();
}

#[test]
fn test_print_batches_empty_batch() {
    let empty_batch = Batch::new_empty(&one_column_schema());

    // Print column headers for empty batch when format is Table
    let expected = &["+---+", "| a |", "+---+", "+---+"];

    PrintBatchesTest::new()
        .with_format(PrintFormat::Table)
        .with_schema(one_column_schema())
        .with_batches(vec![empty_batch])
        .with_header(WithHeader::Yes)
        .with_expected(expected)
        .run();

    // No output for empty batch when schema contains no columns
    let empty_schema = Schema { field_names: vec![] };
    let empty_batch = Batch::new_empty(&empty_schema);
    let expected = &[""];
    PrintBatchesTest::new()
        .with_format(PrintFormat::Table)
        .with_schema(Schema { field_names: vec![] })
        .with_batches(vec![empty_batch])
        .with_header(WithHeader::Yes)
        .with_expected(expected)
        .run();
}

#[test]
fn test_compute_column_widths() {
    let schema = three_column_schema();
    let batches = vec![three_column_batch()];
    let state = OutputStreamState::new(PrintFormat::Table, 10);
    let widths = state.compute_column_widths(&batches, &schema);
    assert_eq!(widths, vec![1, 1, 1]);

    let schema = one_column_schema();
    let batches = vec![one_column_batch()];
    let state = OutputStreamState::new(PrintFormat::Table, 10);
    let widths = state.compute_column_widths(&batches, &schema);
    assert_eq!(widths, vec![1]);

    let schema = three_column_schema();
    let batches = vec![three_column_batch_with_widths()];
    let state = OutputStreamState::new(PrintFormat::Table, 10);
    let widths = state.compute_column_widths(&batches, &schema);
    assert_eq!(widths, [7, 5, 6]);
}

#[test]
fn test_print_header() {
    let schema = three_column_schema();
    let widths = vec![1, 1, 1];
    let state = OutputStreamState::new(PrintFormat::Table, 10);
    let actual = state.print_header(&schema, &widths);
    let expected = &["+---+---+---+", "| a | b | c |", "+---+---+---+"];
    let actual: Vec<_> = actual.iter().map(|l| l.as_str()).collect();
    assert_eq!(actual, expected);
}

#[test]
fn test_print_batch_with_same_widths() {
    let batch = three_column_batch();
    let widths = vec![1, 1, 1];
    let state = OutputStreamState::new(PrintFormat::Table, 10);
    let actual = state.print_batch_with_widths(&batch, &widths);
    let expected = &["| 1 | 4 | 7 |", "| 2 | 5 | 8 |", "| 3 | 6 | 9 |"];
    let actual: Vec<_> = actual.iter().map(|l| l.as_str()).collect();
    assert_eq!(actual, expected);
}

#[test]
fn test_print_batch_with_different_widths() {
    let batch = three_column_batch_with_widths();
    let widths = vec![7, 5, 6];
    let state = OutputStreamState::new(PrintFormat::Table, 10);
    let actual = state.print_batch_with_widths(&batch, &widths);
    let expected = &[
        "| 1       | 42222 | 7      |",
        "| 2222222 | 5     | 8      |",
        "| 3       | 6     | 922222 |",
    ];
    let actual: Vec<_> = actual.iter().map(|l| l.as_str()).collect();
    assert_eq!(actual, expected);
}

#[test]
fn test_print_dotted_line() {
    let widths = vec![1, 1, 1];
    let state = OutputStreamState::new(PrintFormat::Table, 10);
    let actual = state.print_dotted_line(&widths);
    assert_eq!(actual, "| . | . | . |");
}

#[test]
fn test_print_bottom_border() {
    let widths = vec![1, 1, 1];
    let state = OutputStreamState::new(PrintFormat::Table, 10);
    let actual = state.print_bottom_border(&widths);
    assert_eq!(actual, "+---+---+---+");
}

#[test]
fn test_print_batches_with_maxrows() {
    let batch = one_column_batch();
    let schema = one_column_schema();
    let format = PrintFormat::Table;

    // should print out entire output with no truncation if unlimited or
    // limit greater than number of batches or equal to the number of batches
    for max_rows in [MaxRows::Unlimited, MaxRows::Limited(5), MaxRows::Limited(3)] {
        let lines = format
            .print_batches(&schema, &vec![batch.clone()], max_rows, true)
            .unwrap();
        let binding = lines_to_output(&lines);
        let actual: Vec<_> = binding.trim_end().split('\n').collect();
        let expected = &["+---+", "| a |", "+---+", "| 1 |", "| 2 |", "| 3 |", "+---+"];
        assert_eq!(actual, expected);
    }

    // should truncate output if limit is less than number of batches
    let lines = format
        .print_batches(&schema, &vec![batch.clone()], MaxRows::Limited(1), true)
        .unwrap();
    let binding = lines_to_output(&lines);
    let actual: Vec<_> = binding.trim_end().split('\n').collect();
    let expected = &[
        "+---+", "| a |", "+---+", "| 1 |", "| . |", "| . |", "| . |", "+---+",
    ];
    assert_eq!(actual, expected);
}

// test process_batch with different batch widths
// and preview count is less than the first batch
#[test]
fn test_print_batches_with_preview_count_less_than_first_batch() {
    let batch = three_column_batch_with_widths();
    let schema = three_column_schema();
    let mut state = OutputStreamState::new(PrintFormat::Table, 2);

    let out = state.process_batch(batch, &schema);

    let expected = &[
        "+---------+-------+--------+",
        "| a       | b     | c      |",
        "+---------+-------+--------+",
        "| 1       | 42222 | 7      |",
        "| 2222222 | 5     | 8      |",
        "| 3       | 6     | 922222 |",
    ];
    let actual: Vec<_> = out.iter().map(|l| l.as_str()).collect();
    assert_eq!(actual, expected);
}

#[test]
fn test_print_batches_with_preview_and_later_batches() {
    let batch1 = three_column_batch();
    let batch2 = three_column_batch_with_widths();
    let schema = three_column_schema();
    // preview limit is less than the first batch
    // so the second batch if it's width is greater than the first batch, it will be unformatted
    let mut state = OutputStreamState::new(PrintFormat::Table, 2);

    let mut out = state.process_batch(batch1.clone(), &schema);
    out.extend(state.process_batch(batch2, &schema));
    out.extend(state.process_batch(batch1, &schema));

    let expected = &[
        "+---+---+---+",
        "| a | b | c |",
        "+---+---+---+",
        "| 1 | 4 | 7 |",
        "| 2 | 5 | 8 |",
        "| 3 | 6 | 9 |",
        "| 1 | 42222 | 7 |",
        "| 2222222 | 5 | 8 |",
        "| 3 | 6 | 922222 |",
        "| 1 | 4 | 7 |",
        "| 2 | 5 | 8 |",
        "| 3 | 6 | 9 |",
    ];
    let actual: Vec<_> = out.iter().map(|l| l.as_str()).collect();
    assert_eq!(actual, expected);
}

#[test]
fn test_print_batches_with_preview_cover_later_batches() {
    let batch1 = three_column_batch();
    let batch2 = three_column_batch_with_widths();
    let schema = three_column_schema();
    // preview limit is greater than the first batch
    let mut state = OutputStreamState::new(PrintFormat::Table, 4);

    let mut out = state.process_batch(batch1.clone(), &schema);
    out.extend(state.process_batch(batch2, &schema));
    out.extend(state.process_batch(batch1, &schema));

    let expected = &[
        "+---------+-------+--------+",
        "| a       | b     | c      |",
        "+---------+-------+--------+",
        "| 1       | 4     | 7      |",
        "| 2       | 5     | 8      |",
        "| 3       | 6     | 9      |",
        "| 1       | 42222 | 7      |",
        "| 2222222 | 5     | 8      |",
        "| 3       | 6     | 922222 |",
        "| 1       | 4     | 7      |",
        "| 2       | 5     | 8      |",
        "| 3       | 6     | 9      |",
    ];
    let actual: Vec<_> = out.iter().map(|l| l.as_str()).collect();
    assert_eq!(actual, expected);
}
