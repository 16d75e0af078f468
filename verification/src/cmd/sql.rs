//! Rendering the rows of an SQL query over the track database, as a table
//! with aligned columns or as tab-separated values.

use vstd::prelude::*;
use crate::decimal::{push_decimal, render_i64, decimal_chars, signed_decimal_chars};
use crate::text::{join, views, pad_right, repeat_char, byte_len, push_str, push_repeated,
    pad_to_width, join_strings, encodable, lemma_byte_len_at_least_chars, lemma_join_len, lemma_join_sep_len};

verus! {

/// One value of a result row, as SQLite stores it.
///
/// A floating-point value is held as its IEEE-754 bit pattern: its decimal
/// rendering is left to the caller.
#[derive(Debug)]
pub enum SqlValue {
    Null,
    Integer(i64),
    Real(u64),
    Text(String),
    Blob(Vec<u8>),
}

/// `", "`, between the bytes of a blob.
pub open spec fn byte_separator() -> Seq<char> {
    seq![',', ' ']
}

/// `" | "`, between the cells of a table row.
pub open spec fn cell_separator() -> Seq<char> {
    seq![' ', '|', ' ']
}

/// `"-+-"`, between the dashes of the table's border.
pub open spec fn border_separator() -> Seq<char> {
    seq!['-', '+', '-']
}

/// `"\t"`, between the values of a tab-separated row.
pub open spec fn tab() -> Seq<char> {
    seq!['\t']
}

/// The text of a blob as `format!("{:?}", bytes)` writes it: the bytes in
/// decimal, separated by `", "`, in square brackets.
pub open spec fn blob_text(bytes: Seq<u8>) -> Seq<char> {
    seq!['['] + join(bytes.map_values(|b: u8| decimal_chars(b as nat)), byte_separator()) + seq![']']
}

/// The text shown for a value that is not a floating-point number.
pub open spec fn value_text(v: SqlValue) -> Seq<char> {
    match v {
        SqlValue::Null => seq!['n', 'u', 'l', 'l'],
        SqlValue::Integer(i) => signed_decimal_chars(i as int),
        SqlValue::Real(_) => Seq::empty(),
        SqlValue::Text(s) => s@,
        SqlValue::Blob(b) => blob_text(b@),
    }
}

fn blob_to_string(bytes: &[u8]) -> (r: String)
    ensures
        r@ == blob_text(bytes@),
{
    let ghost parts = bytes@.map_values(|b: u8| decimal_chars(b as nat));
    let mut r = String::new();
    push_str(&mut r, "[");
    proof { reveal_strlit("["); reveal_strlit(", "); reveal_strlit("]"); }
    let n = bytes.len();
    let mut i: usize = 0;
    while i < n
        invariant
            n == bytes@.len(),
            parts == bytes@.map_values(|b: u8| decimal_chars(b as nat)),
            i <= n,
            r@ == seq!['['] + join(parts.subrange(0, i as int), byte_separator()),
        decreases n - i,
    {
        if i > 0 {
            push_str(&mut r, ", ");
        }
        push_decimal(&mut r, bytes[i] as u64);
        proof {
            let next = parts.subrange(0, i + 1);
            assert(next.drop_last() =~= parts.subrange(0, i as int));
            assert(next.last() == decimal_chars(bytes@[i as int] as nat));
            reveal_strlit(", ");
            assert(", "@ =~= byte_separator());
            assert(r@ =~= seq!['['] + join(next, byte_separator()));
        }
        i = i + 1;
    }
    assert(parts.subrange(0, n as int) =~= parts);
    push_str(&mut r, "]");
    assert(r@ =~= blob_text(bytes@));
    r
}

/// The text shown for a value: `null`, an integer in decimal, a text as it
/// is, or a blob as its list of bytes. A floating-point value is not
/// rendered here.
pub fn format_value(v: &SqlValue) -> (r: String)
    requires
        !(v is Real),
    ensures
        r@ == value_text(*v),
{
    match v {
        SqlValue::Null => {
            let mut r = String::new();
            push_str(&mut r, "null");
            proof { reveal_strlit("null"); }
            assert(r@ =~= value_text(*v));
            r
        },
        SqlValue::Integer(i) => render_i64(*i),
        SqlValue::Real(_) => String::new(),
        SqlValue::Text(s) => s.clone(),
        SqlValue::Blob(b) => blob_to_string(b.as_slice()),
    }
}

/// Whether no row has more cells than there are columns.
pub open spec fn rows_fit(cols: Seq<String>, rows: Seq<Vec<String>>) -> bool {
    forall|r: int| 0 <= r < rows.len() ==> (#[trigger] rows[r])@.len() <= cols.len()
}

/// The width of column `i`: the byte length of the widest of its header and
/// of its cells, taken row by row.
pub open spec fn column_width(cols: Seq<String>, rows: Seq<Vec<String>>, i: int) -> usize
    decreases rows.len(),
{
    if rows.len() == 0 {
        byte_len(cols[i]@)
    } else {
        let prev = column_width(cols, rows.drop_last(), i);
        let last = rows.last()@;
        if i < last.len() && byte_len(last[i]@) > prev {
            byte_len(last[i]@)
        } else {
            prev
        }
    }
}

/// The widths of all columns.
pub open spec fn column_widths_spec(cols: Seq<String>, rows: Seq<Vec<String>>) -> Seq<usize> {
    Seq::new(cols.len(), |i: int| column_width(cols, rows, i))
}

/// The widths of the columns of a table: for each column, the byte length
/// of the longest of its header and its cells.
pub fn column_widths(cols: &[String], rows: &[Vec<String>]) -> (widths: Vec<usize>)
    requires
        rows_fit(cols@, rows@),
    ensures
        widths@ == column_widths_spec(cols@, rows@),
{
    let ncols = cols.len();
    let mut widths: Vec<usize> = Vec::new();
    let mut i: usize = 0;
    while i < ncols
        invariant
            ncols == cols@.len(),
            i <= ncols,
            widths@.len() == i,
            forall|j: int| 0 <= j < i ==> widths@[j] == byte_len(cols@[j]@),
        decreases ncols - i,
    {
        widths.push(cols[i].as_str().len());
        i = i + 1;
    }
    assert(rows@.subrange(0, 0) =~= Seq::<Vec<String>>::empty());
    let nrows = rows.len();
    let mut r: usize = 0;
    while r < nrows
        invariant
            ncols == cols@.len(),
            nrows == rows@.len(),
            rows_fit(cols@, rows@),
            r <= nrows,
            widths@ == column_widths_spec(cols@, rows@.subrange(0, r as int)),
        decreases nrows - r,
    {
        let row = &rows[r];
        let ghost done = rows@.subrange(0, r as int);
        let ghost next = rows@.subrange(0, r + 1);
        assert(next.drop_last() =~= done);
        assert(next.last() == rows@[r as int]);
        let ncells = row.len();
        assert(ncells <= ncols);
        let mut i: usize = 0;
        while i < ncells
            invariant
                ncols == cols@.len(),
                ncells == row@.len(),
                ncells <= ncols,
                next.len() > 0,
                next.last() == *row,
                next.drop_last() == done,
                i <= ncells,
                widths@.len() == ncols,
                forall|j: int| 0 <= j < ncols ==> widths@[j] == if j < i {
                    column_width(cols@, next, j)
                } else {
                    column_width(cols@, done, j)
                },
            decreases ncells - i,
        {
            let len = row[i].as_str().len();
            proof {
                assert(len == byte_len(row@[i as int]@));
                assert(widths@[i as int] == column_width(cols@, done, i as int));
                assert(column_width(cols@, next, i as int) == if len > widths@[i as int] {
                    len
                } else {
                    widths@[i as int]
                });
            }
            if len > widths[i] {
                widths.set(i, len);
            }
            i = i + 1;
        }
        assert(widths@ =~= column_widths_spec(cols@, next));
        r = r + 1;
    }
    assert(rows@.subrange(0, nrows as int) =~= rows@);
    widths
}

/// The cells of a row, each padded to its column's width; a row longer or
/// shorter than the widths is cut to the shorter of the two.
pub open spec fn padded_cells(widths: Seq<usize>, row: Seq<String>) -> Seq<Seq<char>> {
    let n = if widths.len() < row.len() { widths.len() } else { row.len() };
    Seq::new(n, |i: int| pad_right(row[i]@, widths[i] as nat))
}

/// One line of the table: the padded cells separated by `" | "`.
pub open spec fn row_line(widths: Seq<usize>, row: Seq<String>) -> Seq<char> {
    join(padded_cells(widths, row), cell_separator())
}

/// The line under the header: each column's width in dashes, separated by
/// `"-+-"`.
pub open spec fn border_line(widths: Seq<usize>) -> Seq<char> {
    join(Seq::new(widths.len(), |i: int| repeat_char('-', widths[i] as nat)), border_separator())
}

/// One line of the table, each cell padded with spaces to the width of its
/// column and the cells separated by `" | "`.
pub fn format_row(widths: &[usize], row: &[String]) -> (line: String)
    ensures
        line@ == row_line(widths@, row@),
{
    let n = if widths.len() < row.len() { widths.len() } else { row.len() };
    let mut cells: Vec<String> = Vec::new();
    let mut i: usize = 0;
    while i < n
        invariant
            n == if widths@.len() < row@.len() { widths@.len() } else { row@.len() },
            i <= n,
            cells@.len() == i,
            forall|j: int| 0 <= j < i ==> (#[trigger] cells@[j])@ == pad_right(row@[j]@, widths@[j] as nat),
        decreases n - i,
    {
        cells.push(pad_to_width(row[i].as_str(), widths[i]));
        i = i + 1;
    }
    assert(views(cells@) =~= padded_cells(widths@, row@));
    let line = join_strings(cells.as_slice(), " | ");
    proof { reveal_strlit(" | "); }
    assert(" | "@ =~= cell_separator());
    line
}

/// The border under the header of the table.
pub fn format_border(widths: &[usize]) -> (line: String)
    ensures
        line@ == border_line(widths@),
{
    let n = widths.len();
    let mut parts: Vec<String> = Vec::new();
    let mut i: usize = 0;
    while i < n
        invariant
            n == widths@.len(),
            i <= n,
            parts@.len() == i,
            forall|j: int| 0 <= j < i ==> (#[trigger] parts@[j])@ == repeat_char('-', widths@[j] as nat),
        decreases n - i,
    {
        let mut dashes = String::new();
        push_repeated(&mut dashes, '-', widths[i]);
        assert(dashes@ =~= repeat_char('-', widths@[i as int] as nat));
        parts.push(dashes);
        i = i + 1;
    }
    assert(views(parts@) =~= Seq::new(widths@.len(), |i: int| repeat_char('-', widths@[i] as nat)));
    let line = join_strings(parts.as_slice(), "-+-");
    proof { reveal_strlit("-+-"); }
    assert("-+-"@ =~= border_separator());
    line
}

/// The lines of the query result as a table: the header, the border, then
/// one line per row, all with the columns as wide as `column_widths` makes
/// them.
pub fn table_lines(cols: &[String], rows: &[Vec<String>]) -> (lines: Vec<String>)
    requires
        rows_fit(cols@, rows@),
    ensures
        lines@.len() == rows@.len() + 2,
        lines@[0]@ == row_line(column_widths_spec(cols@, rows@), cols@),
        lines@[1]@ == border_line(column_widths_spec(cols@, rows@)),
        forall|k: int| 0 <= k < rows@.len() ==>
            (#[trigger] lines@[k + 2])@ == row_line(column_widths_spec(cols@, rows@), rows@[k]@),
{
    let widths = column_widths(cols, rows);
    let mut lines: Vec<String> = Vec::new();
    lines.push(format_row(widths.as_slice(), cols));
    lines.push(format_border(widths.as_slice()));
    let n = rows.len();
    let mut k: usize = 0;
    while k < n
        invariant
            n == rows@.len(),
            widths@ == column_widths_spec(cols@, rows@),
            k <= n,
            lines@.len() == k + 2,
            lines@[0]@ == row_line(widths@, cols@),
            lines@[1]@ == border_line(widths@),
            forall|j: int| 0 <= j < k ==> (#[trigger] lines@[j + 2])@ == row_line(widths@, rows@[j]@),
        decreases n - k,
    {
        lines.push(format_row(widths.as_slice(), rows[k].as_slice()));
        k = k + 1;
    }
    lines
}

/// The lines of the query result as tab-separated values: each row's
/// values separated by tabs.
pub fn tsv_lines(rows: &[Vec<String>]) -> (lines: Vec<String>)
    ensures
        lines@.len() == rows@.len(),
        forall|k: int| 0 <= k < rows@.len() ==> (#[trigger] lines@[k])@ == join(views(rows@[k]@), tab()),
{
    let n = rows.len();
    let mut lines: Vec<String> = Vec::new();
    let mut k: usize = 0;
    while k < n
        invariant
            n == rows@.len(),
            k <= n,
            lines@.len() == k,
            forall|j: int| 0 <= j < k ==> (#[trigger] lines@[j])@ == join(views(rows@[j]@), tab()),
        decreases n - k,
    {
        let line = join_strings(rows[k].as_slice(), "\t");
        proof { reveal_strlit("\t"); }
        assert("\t"@ =~= tab());
        lines.push(line);
        k = k + 1;
    }
    lines
}

/// Each column is exactly as wide as the widest of its header and its
/// cells: no narrower than any of them, and as wide as one of them.
pub proof fn law_column_width_is_widest(cols: Seq<String>, rows: Seq<Vec<String>>, i: int)
    requires
        0 <= i < cols.len(),
    ensures
        column_width(cols, rows, i) >= byte_len(cols[i]@),
        forall|r: int| 0 <= r < rows.len() && i < rows[r]@.len() ==>
            column_width(cols, rows, i) >= byte_len((#[trigger] rows[r])@[i]@),
        column_width(cols, rows, i) == byte_len(cols[i]@) || exists|r: int|
            0 <= r < rows.len() && i < rows[r]@.len() && column_width(cols, rows, i) == byte_len(
                (#[trigger] rows[r])@[i]@,
            ),
    decreases rows.len(),
{
    if rows.len() > 0 {
        let prev = rows.drop_last();
        law_column_width_is_widest(cols, prev, i);
        assert forall|r: int| 0 <= r < rows.len() && i < rows[r]@.len() implies
            column_width(cols, rows, i) >= byte_len((#[trigger] rows[r])@[i]@) by {
            if r < rows.len() - 1 {
                assert(prev[r] == rows[r]);
            }
        }
        if column_width(cols, rows, i) != byte_len(cols[i]@) {
            if column_width(cols, rows, i) == column_width(cols, prev, i) {
                let r = choose|r: int|
                    0 <= r < prev.len() && i < prev[r]@.len() && column_width(cols, prev, i)
                        == byte_len((#[trigger] prev[r])@[i]@);
                assert(rows[r] == prev[r]);
            } else {
                assert(rows[rows.len() - 1] == rows.last());
            }
        }
    }
}

/// A column is no wider over rows that all occur among other rows than over
/// those other rows.
proof fn lemma_width_over_fewer_rows(cols: Seq<String>, rows: Seq<Vec<String>>, some: Seq<Vec<String>>, i: int)
    requires
        0 <= i < cols.len(),
        forall|r: int| 0 <= r < some.len() ==> rows.contains(#[trigger] some[r]),
    ensures
        column_width(cols, some, i) <= column_width(cols, rows, i),
{
    law_column_width_is_widest(cols, rows, i);
    law_column_width_is_widest(cols, some, i);
    if column_width(cols, some, i) != byte_len(cols[i]@) {
        let r = choose|r: int|
            0 <= r < some.len() && i < some[r]@.len() && column_width(cols, some, i) == byte_len(
                (#[trigger] some[r])@[i]@,
            );
        assert(rows.contains(some[r]));
        let q = choose|q: int| 0 <= q < rows.len() && rows[q] == some[r];
        assert(i < rows[q]@.len());
    }
}

/// The widths of the columns do not depend on the order of the rows: the
/// same rows in any order give the same widths.
pub proof fn law_column_widths_ignore_row_order(
    cols: Seq<String>,
    rows: Seq<Vec<String>>,
    reordered: Seq<Vec<String>>,
)
    requires
        rows.to_multiset() == reordered.to_multiset(),
    ensures
        column_widths_spec(cols, reordered) == column_widths_spec(cols, rows),
{
    broadcast use vstd::seq_lib::group_to_multiset_ensures;
    assert forall|r: int| 0 <= r < reordered.len() implies rows.contains(#[trigger] reordered[r]) by {
        assert(reordered.contains(reordered[r]));
        assert(reordered.to_multiset().count(reordered[r]) > 0);
        assert(rows.to_multiset().count(reordered[r]) > 0);
    }
    assert forall|r: int| 0 <= r < rows.len() implies reordered.contains(#[trigger] rows[r]) by {
        assert(rows.contains(rows[r]));
        assert(rows.to_multiset().count(rows[r]) > 0);
        assert(reordered.to_multiset().count(rows[r]) > 0);
    }
    assert forall|i: int| 0 <= i < cols.len() implies column_width(cols, reordered, i) == column_width(
        cols,
        rows,
        i,
    ) by {
        lemma_width_over_fewer_rows(cols, rows, reordered, i);
        lemma_width_over_fewer_rows(cols, reordered, rows, i);
    }
    assert(column_widths_spec(cols, reordered) =~= column_widths_spec(cols, rows));
}

/// One more row widens a column to that row's cell where the cell is wider,
/// and leaves every other column as it was.
pub proof fn law_column_widths_with_one_more_row(cols: Seq<String>, rows: Seq<Vec<String>>, row: Vec<String>)
    ensures
        forall|i: int| 0 <= i < cols.len() ==> #[trigger] column_widths_spec(cols, rows.push(row))[i]
            == if i < row@.len() && byte_len(row@[i]@) > column_widths_spec(cols, rows)[i] {
                byte_len(row@[i]@)
            } else {
                column_widths_spec(cols, rows)[i]
            },
{
    assert(rows.push(row).drop_last() =~= rows);
    assert(rows.push(row).last() == row);
}

/// In a table, a row with a cell for every column lines up with the header
/// and the border: each of its padded cells is exactly as wide as its
/// column, as the header's are, and so the three lines have equal length.
pub proof fn law_table_rows_line_up(cols: Seq<String>, rows: Seq<Vec<String>>, k: int)
    requires
        rows_fit(cols, rows),
        0 <= k < rows.len(),
        rows[k]@.len() == cols.len(),
        forall|i: int| 0 <= i < cols.len() ==> encodable((#[trigger] cols[i])@),
        forall|r: int, i: int|
            0 <= r < rows.len() && 0 <= i < rows[r]@.len() ==> encodable((#[trigger] rows[r]@[i])@),
    ensures
        ({
            let w = column_widths_spec(cols, rows);
            &&& forall|i: int| 0 <= i < cols.len() ==> (#[trigger] padded_cells(w, rows[k]@)[i]).len()
                == w[i]
            &&& forall|i: int| 0 <= i < cols.len() ==> (#[trigger] padded_cells(w, cols)[i]).len() == w[i]
            &&& row_line(w, rows[k]@).len() == row_line(w, cols).len()
            &&& border_line(w).len() == row_line(w, cols).len()
        }),
{
    let w = column_widths_spec(cols, rows);
    let row = rows[k]@;
    assert forall|i: int| 0 <= i < cols.len() implies (#[trigger] padded_cells(w, row)[i]).len()
        == w[i] by {
        law_column_width_is_widest(cols, rows, i);
        lemma_byte_len_at_least_chars(row[i]@);
        assert(rows[k]@[i] == row[i]);
    }
    assert forall|i: int| 0 <= i < cols.len() implies (#[trigger] padded_cells(w, cols)[i]).len()
        == w[i] by {
        law_column_width_is_widest(cols, rows, i);
        lemma_byte_len_at_least_chars(cols[i]@);
    }
    let border = Seq::new(w.len(), |i: int| repeat_char('-', w[i] as nat));
    assert(padded_cells(w, row).len() == cols.len());
    assert(padded_cells(w, cols).len() == cols.len());
    assert forall|i: int| 0 <= i < border.len() implies (#[trigger] border[i]).len()
        == padded_cells(w, cols)[i].len() by {
        assert(padded_cells(w, cols)[i].len() == w[i]);
    }
    assert forall|i: int| 0 <= i < cols.len() implies (#[trigger] padded_cells(w, row)[i]).len()
        == padded_cells(w, cols)[i].len() by {
        assert(padded_cells(w, cols)[i].len() == w[i]);
    }
    lemma_join_len(padded_cells(w, row), padded_cells(w, cols), cell_separator());
    lemma_join_len(border, padded_cells(w, cols), border_separator());
    lemma_join_sep_len(padded_cells(w, cols), border_separator(), cell_separator());
    assert(border_line(w) == join(border, border_separator()));
}

} // verus!
