use jiri::formatter::{Formatter, OutputFormat};

fn rows(data: Vec<Vec<&str>>) -> Vec<Vec<String>> {
    data.into_iter()
        .map(|r| r.into_iter().map(|c| c.to_string()).collect())
        .collect()
}

#[test]
fn csv_plain_cells_pass_through() {
    let f = Formatter::new(OutputFormat::CSV, false);
    let out = f.render(&rows(vec![vec!["KEY", "SUMMARY"], vec!["P-1", "fix it"]]));
    assert_eq!(out, "KEY,SUMMARY\nP-1,fix it");
}

#[test]
fn csv_quotes_commas_and_newlines() {
    let f = Formatter::new(OutputFormat::CSV, false);
    let out = f.render(&rows(vec![vec!["a,b", "c\nd"]]));
    assert_eq!(out, "\"a,b\",\"c\nd\"");
}

#[test]
fn csv_doubles_inner_quotes() {
    let f = Formatter::new(OutputFormat::CSV, false);
    let out = f.render(&rows(vec![vec!["say \"hi\""]]));
    assert_eq!(out, "\"say \"\"hi\"\"\"");
}

#[test]
fn csv_empty_grid_is_empty() {
    let f = Formatter::new(OutputFormat::CSV, false);
    assert_eq!(f.render(&rows(vec![])), "");
}

#[test]
fn plain_pads_columns_to_widest_cell() {
    let f = Formatter::new(OutputFormat::Plain, false);
    let out = f.render(&rows(vec![vec!["ab", "c"], vec!["d", "ef"]]));
    assert_eq!(out, "ab  c\nd   ef");
}

#[test]
fn plain_trims_trailing_whitespace_per_line() {
    let f = Formatter::new(OutputFormat::Plain, false);
    let out = f.render(&rows(vec![vec!["long-one", "x"], vec!["s", ""]]));
    assert_eq!(out, "long-one  x\ns");
}

#[test]
fn plain_empty_grid_is_empty() {
    let f = Formatter::new(OutputFormat::Plain, false);
    assert_eq!(f.render(&rows(vec![])), "");
}

#[test]
fn table_empty_grid_is_empty() {
    let f = Formatter::new(OutputFormat::Table, false);
    assert_eq!(f.render(&rows(vec![])), "");
}

#[test]
fn table_draws_header_and_cells() {
    let f = Formatter::new(OutputFormat::Table, false);
    let out = f.render(&rows(vec![vec!["KEY", "SUMMARY"], vec!["P-1", "fix"]]));
    assert!(out.contains("KEY"));
    assert!(out.contains("SUMMARY"));
    assert!(out.contains("P-1"));
    assert!(out.contains("fix"));
}

#[test]
fn table_no_header_drops_first_row_promotion() {
    let f = Formatter::new(OutputFormat::Table, true);
    let out = f.render(&rows(vec![vec!["KEY"], vec!["P-1"]]));
    // both rows drawn as plain rows
    assert!(out.contains("KEY"));
    assert!(out.contains("P-1"));
}

#[test]
fn formatter_new_keeps_its_arguments() {
    let f = Formatter::new(OutputFormat::Plain, true);
    assert!(matches!(f.format, OutputFormat::Plain));
    assert!(f.no_header);
}
