//! The flattener: from a report to its delimited text.

use crate::join::join_fields;
use crate::layout::{
    body_lines, flattened, flattened_all, header_fields, header_line, report_text, row_line,
};
use crate::report::{ColumnHeader, Report, ReportResponse, ReportRow};
use crate::text::{quote, quoted, quoted_all};
use vstd::prelude::*;

verus! {

/// Why a report was not flattened.
#[derive(Clone, Copy, Debug, PartialEq, Eq)]
pub enum FlattenError {
    /// The report has no row sequence. An empty row sequence is no error: it
    /// gives a text that holds the header line alone.
    MissingRows,
}

/// Quotes every field of `fields`, in order.
fn quote_all(fields: &Vec<String>) -> (wrapped: Vec<String>)
    ensures
        wrapped.deep_view() == quoted_all(fields.deep_view()),
{
    let mut wrapped: Vec<String> = Vec::with_capacity(fields.len());
    let mut i: usize = 0;
    while i < fields.len()
        invariant
            i <= fields.len(),
            wrapped.len() == i,
            forall|k: int| 0 <= k < i ==> wrapped[k]@ == quoted(#[trigger] fields[k]@),
        decreases fields.len() - i,
    {
        wrapped.push(quote(fields[i].as_str()));
        i += 1;
    }
    proof {
        assert(wrapped.deep_view() =~= quoted_all(fields.deep_view()));
    }
    wrapped
}

/// Collects the metric values of `row` over all its date ranges: group after
/// group, and within a group in the group's order.
fn metric_values(row: &ReportRow) -> (values: Vec<String>)
    ensures
        values.deep_view() == row@.metric_values(),
{
    let mut values: Vec<String> = Vec::new();
    let mut g: usize = 0;
    proof {
        assert(values.deep_view() =~= row@.metrics.take(0).flatten());
    }
    while g < row.metrics.len()
        invariant
            g <= row.metrics.len(),
            values.deep_view() == row@.metrics.take(g as int).flatten(),
        decreases row.metrics.len() - g,
    {
        let group = &row.metrics[g].values;
        let ghost before = values.deep_view();
        let mut j: usize = 0;
        proof {
            assert(values.deep_view() =~= before + group.deep_view().take(0));
        }
        while j < group.len()
            invariant
                j <= group.len(),
                values.deep_view() == before + group.deep_view().take(j as int),
            decreases group.len() - j,
        {
            let ghost collected = values.deep_view();
            values.push(group[j].clone());
            proof {
                assert(values.deep_view() =~= collected.push(group[j as int]@));
                assert(group.deep_view().take(j + 1) =~= group.deep_view().take(j as int).push(
                    group[j as int]@,
                ));
            }
            j += 1;
        }
        proof {
            let groups = row@.metrics;
            assert(group.deep_view().take(group.len() as int) =~= groups[g as int]);
            assert(groups.take(g + 1) =~= groups.take(g as int).push(groups[g as int]));
            groups.take(g as int).lemma_flatten_push(groups[g as int]);
        }
        g += 1;
    }
    proof {
        assert(row@.metrics.take(row.metrics.len() as int) =~= row@.metrics);
    }
    values
}

/// Writes the header line of a report: every dimension name and then every
/// metric name, each in double quotes, joined by `delimiter`, and a newline.
pub fn flatten_header(header: &ColumnHeader, delimiter: &str) -> (line: String)
    ensures
        line@ == header_line(header@, delimiter@),
{
    let mut fields: Vec<String> = match &header.dimensions {
        Some(names) => quote_all(names),
        None => Vec::new(),
    };
    let entries = &header.metric_header.metric_header_entries;
    let ghost dimensions = fields.deep_view();
    proof {
        assert(dimensions =~= quoted_all(header@.dimension_names()));
    }
    let mut i: usize = 0;
    while i < entries.len()
        invariant
            i <= entries.len(),
            fields.len() == dimensions.len() + i,
            forall|k: int| 0 <= k < dimensions.len() ==> (#[trigger] fields[k])@ == dimensions[k],
            forall|k: int|
                0 <= k < i ==> (#[trigger] fields[dimensions.len() + k])@ == quoted(
                    entries[k].name@,
                ),
        decreases entries.len() - i,
    {
        fields.push(quote(entries[i].name.as_str()));
        i += 1;
    }
    proof {
        assert(fields.deep_view() =~= header_fields(header@)) by {
            assert forall|k: int| 0 <= k < fields.len() implies fields.deep_view()[k]
                == header_fields(header@)[k] by {
                if k >= dimensions.len() {
                    assert(fields[dimensions.len() + (k - dimensions.len())]@ == quoted(
                        entries[k - dimensions.len()].name@,
                    ));
                }
            }
        }
    }
    let mut line = join_fields(&fields, delimiter);
    line.append("\n");
    proof {
        reveal_strlit("\n");
        assert(line@ =~= header_line(header@, delimiter@));
    }
    line
}

/// Writes the body line of one row.
///
/// Where the row has a dimension sequence, its values come first, each in
/// double quotes and joined by `delimiter`, with one more `delimiter` after
/// them, also where the sequence is empty. Then come the metric values of all
/// date ranges, as they are, joined by `delimiter`, and a newline.
pub fn flatten_row(row: &ReportRow, delimiter: &str) -> (line: String)
    ensures
        line@ == row_line(row@, delimiter@),
{
    let mut line = String::new();
    if let Some(dimensions) = &row.dimensions {
        let wrapped = quote_all(dimensions);
        let segment = join_fields(&wrapped, delimiter);
        line.append(segment.as_str());
        line.append(delimiter);
    }
    let values = metric_values(row);
    let segment = join_fields(&values, delimiter);
    line.append(segment.as_str());
    line.append("\n");
    proof {
        reveal_strlit("\n");
        assert(line@ =~= row_line(row@, delimiter@));
    }
    line
}

/// Flattens one report into delimited text: the header line, then one line per
/// row in row order, each line ended by a newline.
///
/// Fails with [`FlattenError::MissingRows`] exactly where the report has no
/// row sequence. Rows are written as they are: a row with more or fewer values
/// than the header has columns gives a line with as many fields as the row
/// has values.
pub fn report_to_flat(report: &Report, delimiter: &str) -> (result: Result<String, FlattenError>)
    ensures
        match result {
            Ok(text) => flattened(report@, delimiter@) == Some(text@),
            Err(error) => flattened(report@, delimiter@) is None && error
                == FlattenError::MissingRows,
        },
{
    match &report.data.rows {
        None => Err(FlattenError::MissingRows),
        Some(rows) => {
            let mut text = flatten_header(&report.column_header, delimiter);
            let ghost lines = body_lines(rows.deep_view(), delimiter@);
            let mut i: usize = 0;
            proof {
                assert(lines.take(0).flatten() =~= Seq::<char>::empty());
                assert(text@ =~= header_line(report@.header, delimiter@) + lines.take(
                    0,
                ).flatten());
            }
            while i < rows.len()
                invariant
                    i <= rows.len(),
                    lines == body_lines(rows.deep_view(), delimiter@),
                    text@ == header_line(report@.header, delimiter@) + lines.take(
                        i as int,
                    ).flatten(),
                decreases rows.len() - i,
            {
                let line = flatten_row(&rows[i], delimiter);
                text.append(line.as_str());
                proof {
                    assert(lines.take(i + 1) =~= lines.take(i as int).push(line@));
                    lines.take(i as int).lemma_flatten_push(line@);
                    assert(text@ =~= header_line(report@.header, delimiter@) + lines.take(
                        i + 1,
                    ).flatten());
                }
                i += 1;
            }
            proof {
                assert(lines.take(rows.len() as int) =~= lines);
                assert(text@ == report_text(report@.header, rows.deep_view(), delimiter@));
            }
            Ok(text)
        },
    }
}

/// Flattens every report of `response`: one text per report, in the order of
/// the reports, each made from its own report alone.
///
/// Fails with [`FlattenError::MissingRows`] exactly where some report has no
/// row sequence; no text is returned then.
pub fn response_to_delimited_reports(response: &ReportResponse, delimiter: &str) -> (result:
    Result<Vec<String>, FlattenError>)
    ensures
        match result {
            Ok(texts) => {
                &&& flattened_all(response@, delimiter@) == Some(texts.deep_view())
                &&& texts.len() == response.reports.len()
                &&& forall|i: int|
                    0 <= i < texts.len() ==> flattened(response@[i], delimiter@) == Some(
                        #[trigger] texts[i]@,
                    )
            },
            Err(error) => {
                &&& flattened_all(response@, delimiter@) is None
                &&& exists|i: int| 0 <= i < response@.len() && response@[i].rows is None
                &&& error == FlattenError::MissingRows
            },
        },
{
    let mut texts: Vec<String> = Vec::with_capacity(response.reports.len());
    let mut i: usize = 0;
    while i < response.reports.len()
        invariant
            i <= response.reports.len(),
            texts.len() == i,
            forall|k: int|
                0 <= k < i ==> flattened(#[trigger] response@[k], delimiter@) == Some(texts[k]@),
        decreases response.reports.len() - i,
    {
        match report_to_flat(&response.reports[i], delimiter) {
            Ok(text) => {
                texts.push(text);
            },
            Err(error) => {
                proof {
                    assert(response@[i as int].rows is None);
                }
                return Err(error);
            },
        }
        i += 1;
    }
    proof {
        assert forall|k: int| 0 <= k < response@.len() implies (#[trigger] response@[k]).rows
            is Some by {
            assert(flattened(response@[k], delimiter@) is Some);
        }
        assert(texts.deep_view() =~= flattened_all(response@, delimiter@)->0);
    }
    Ok(texts)
}

} // verus!
