//! The layout of a flattened report: which text a header, a row and a whole
//! report become.

use crate::report::{ColumnHeaderView, ReportView, RowView};
use crate::text::{joined, quoted_all};
use vstd::prelude::*;

verus! {

/// The line terminator.
pub open spec fn newline() -> Seq<char> {
    seq!['\n']
}

/// The fields of the header line: every column name, quoted.
pub open spec fn header_fields(header: ColumnHeaderView) -> Seq<Seq<char>> {
    quoted_all(header.dimension_names()) + quoted_all(header.metric_names)
}

/// The header line: the header fields joined, and a newline.
pub open spec fn header_line(header: ColumnHeaderView, delimiter: Seq<char>) -> Seq<char> {
    joined(header_fields(header), delimiter) + newline()
}

/// What a row writes for its dimensions: where the row has a dimension
/// sequence, its values quoted and joined, and one delimiter after them;
/// where it has none, nothing.
pub open spec fn dimension_segment(row: RowView, delimiter: Seq<char>) -> Seq<char> {
    match row.dimensions {
        Some(values) => joined(quoted_all(values), delimiter) + delimiter,
        None => Seq::empty(),
    }
}

/// What a row writes for its metrics: the values of all date ranges, group
/// after group, as they are and joined.
pub open spec fn metric_segment(row: RowView, delimiter: Seq<char>) -> Seq<char> {
    joined(row.metric_values(), delimiter)
}

/// One body line: dimension segment, metric segment, newline.
pub open spec fn row_line(row: RowView, delimiter: Seq<char>) -> Seq<char> {
    dimension_segment(row, delimiter) + metric_segment(row, delimiter) + newline()
}

/// The body lines of `rows`, one per row, in row order.
pub open spec fn body_lines(rows: Seq<RowView>, delimiter: Seq<char>) -> Seq<Seq<char>> {
    Seq::new(rows.len(), |i: int| row_line(rows[i], delimiter))
}

/// The text of a report with the given header and rows: the header line, then
/// the body lines one after the other.
pub open spec fn report_text(
    header: ColumnHeaderView,
    rows: Seq<RowView>,
    delimiter: Seq<char>,
) -> Seq<char> {
    header_line(header, delimiter) + body_lines(rows, delimiter).flatten()
}

/// What flattening `report` gives: its text, or nothing where the report has
/// no row sequence.
pub open spec fn flattened(report: ReportView, delimiter: Seq<char>) -> Option<Seq<char>> {
    match report.rows {
        Some(rows) => Some(report_text(report.header, rows, delimiter)),
        None => None,
    }
}

/// What flattening each of `reports` gives, in order: nothing where one of
/// them has no row sequence.
pub open spec fn flattened_all(reports: Seq<ReportView>, delimiter: Seq<char>) -> Option<
    Seq<Seq<char>>,
> {
    if forall|i: int| 0 <= i < reports.len() ==> (#[trigger] reports[i]).rows is Some {
        Some(Seq::new(reports.len(), |i: int| flattened(reports[i], delimiter)->0))
    } else {
        None
    }
}

} // verus!
