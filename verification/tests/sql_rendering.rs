use lastfm_query::cmd::sql::{
    column_widths, format_border, format_row, format_value, table_lines, tsv_lines, SqlValue,
};

fn strings(v: &[&str]) -> Vec<String> {
    v.iter().map(|s| s.to_string()).collect()
}

#[test]
fn values_are_shown_as_text() {
    assert_eq!(format_value(&SqlValue::Null), "null");
    assert_eq!(format_value(&SqlValue::Integer(-42)), "-42");
    assert_eq!(format_value(&SqlValue::Text("Björk".to_string())), "Björk");
    assert_eq!(format_value(&SqlValue::Blob(vec![1, 2, 255])), "[1, 2, 255]");
    assert_eq!(format_value(&SqlValue::Blob(vec![])), "[]");
    assert_eq!(format_value(&SqlValue::Blob(vec![0])), format!("{:?}", &[0u8][..]));
}

#[test]
fn widths_are_the_widest_cell_in_bytes() {
    let cols = strings(&["artist", "n"]);
    let rows = vec![strings(&["Björk", "12345"]), strings(&["ABBA", "1"])];
    assert_eq!(column_widths(&cols, &rows), vec![6, 5]);
    let rows = vec![strings(&["Sigur Rós!", "1"])];
    assert_eq!(column_widths(&cols, &rows), vec![11, 1]);
    assert_eq!(column_widths(&cols, &[]), vec![6, 1]);
}

#[test]
fn rows_are_padded_and_separated() {
    let row = strings(&["ab", "c"]);
    assert_eq!(format_row(&[4, 3], &row), "ab   | c  ");
    assert_eq!(format_row(&[1], &row), "ab");
    assert_eq!(format_border(&[2, 3]), "---+----");
    assert_eq!(format_border(&[]), "");
}

#[test]
fn table_has_header_border_and_rows() {
    let cols = strings(&["artist", "plays"]);
    let rows = vec![strings(&["ABBA", "3"]), strings(&["Kate Bush", "12"])];
    let lines = table_lines(&cols, &rows);
    assert_eq!(
        lines,
        vec![
            "artist    | plays".to_string(),
            "----------+------".to_string(),
            "ABBA      | 3    ".to_string(),
            "Kate Bush | 12   ".to_string(),
        ]
    );
    for line in &lines {
        assert_eq!(line.chars().count(), lines[0].chars().count());
    }
}

#[test]
fn tsv_joins_with_tabs() {
    let rows = vec![strings(&["a", "b", "c"]), strings(&[]), strings(&["x"])];
    assert_eq!(tsv_lines(&rows), vec!["a\tb\tc".to_string(), "".to_string(), "x".to_string()]);
}

#[test]
fn widths_do_not_depend_on_row_order() {
    let cols = strings(&["artist", "n"]);
    let rows = vec![strings(&["Sigur Rós", "1"]), strings(&["ABBA", "123456789"]), strings(&["x"])];
    let reordered = vec![rows[2].clone(), rows[0].clone(), rows[1].clone()];
    assert_eq!(column_widths(&cols, &rows), vec![10, 9]);
    assert_eq!(column_widths(&cols, &reordered), column_widths(&cols, &rows));
}

#[test]
fn one_more_row_widens_only_where_it_is_wider() {
    let cols = strings(&["artist", "n"]);
    let mut rows = vec![strings(&["ABBA", "12"])];
    assert_eq!(column_widths(&cols, &rows), vec![6, 2]);
    rows.push(strings(&["Jean-Michel Jarre", "1"]));
    assert_eq!(column_widths(&cols, &rows), vec![17, 2]);
    rows.push(strings(&["Q"]));
    assert_eq!(column_widths(&cols, &rows), vec![17, 2]);
}
