//! What holds of every flattened report.

use crate::layout::{flattened, flattened_all, header_fields, header_line, newline, row_line};
use crate::report::{ColumnHeaderView, ReportView, RowView};
use crate::text::{
    delimiter_only_between, joined, occurs_at, occurs_in, quoted, quoted_all, split, unquoted,
    unquoted_all,
};
use vstd::prelude::*;

verus! {

/// Joining two non-empty runs of fields and putting a delimiter between the
/// two texts is joining all the fields at once.
pub proof fn lemma_joined_concat(
    front: Seq<Seq<char>>,
    back: Seq<Seq<char>>,
    delimiter: Seq<char>,
)
    requires
        front.len() > 0,
        back.len() > 0,
    ensures
        joined(front + back, delimiter) == joined(front, delimiter) + delimiter + joined(
            back,
            delimiter,
        ),
    decreases front.len(),
{
    let all = front + back;
    assert(all.drop_first() =~= front.drop_first() + back);
    if front.len() == 1 {
        assert(front.drop_first() + back =~= back);
    } else {
        lemma_joined_concat(front.drop_first(), back, delimiter);
        assert(joined(all, delimiter) =~= joined(front, delimiter) + delimiter + joined(
            back,
            delimiter,
        ));
    }
}

/// Quoting field by field goes through concatenation.
pub proof fn lemma_quoted_all_concat(front: Seq<Seq<char>>, back: Seq<Seq<char>>)
    ensures
        quoted_all(front + back) == quoted_all(front) + quoted_all(back),
{
    assert(quoted_all(front + back) =~= quoted_all(front) + quoted_all(back));
}

/// Taking the quotes off quoted fields gives the fields back.
pub proof fn lemma_unquoted_all_quoted_all(fields: Seq<Seq<char>>)
    ensures
        unquoted_all(quoted_all(fields)) == fields,
{
    assert forall|i: int| 0 <= i < fields.len() implies unquoted(quoted(fields[i]))
        == fields[i] by {
        assert(unquoted(quoted(fields[i])) =~= fields[i]);
    }
    assert(unquoted_all(quoted_all(fields)) =~= fields);
}

/// The groups of a row that all hold `width` values hold, flattened,
/// `width` values per group.
pub proof fn lemma_flatten_len(groups: Seq<Seq<Seq<char>>>, width: nat)
    requires
        forall|g: int| 0 <= g < groups.len() ==> (#[trigger] groups[g]).len() == width,
    ensures
        groups.flatten().len() == groups.len() * width,
    decreases groups.len(),
{
    if groups.len() > 0 {
        lemma_flatten_len(groups.drop_first(), width);
        assert(groups.len() * width == width + (groups.len() - 1) * width) by (nonlinear_arith);
    }
}

/// A field that no occurrence of the delimiter starts in is the first field
/// that `split` cuts off, where the field is followed by nothing or by the
/// delimiter.
pub proof fn lemma_split_first_field(field: Seq<char>, tail: Seq<char>, delimiter: Seq<char>)
    requires
        delimiter.len() > 0,
        forall|at: int| 0 <= at < field.len() ==> !occurs_at(field + tail, delimiter, at),
        tail.len() == 0 || occurs_at(tail, delimiter, 0),
    ensures
        split(field + tail, delimiter) == seq![field] + (if tail.len() == 0 {
            Seq::<Seq<char>>::empty()
        } else {
            split(tail.skip(delimiter.len() as int), delimiter)
        }),
    decreases field.len(),
{
    let text = field + tail;
    let others = if tail.len() == 0 {
        Seq::<Seq<char>>::empty()
    } else {
        split(tail.skip(delimiter.len() as int), delimiter)
    };
    if field.len() == 0 {
        assert(text =~= tail);
        assert(field =~= Seq::<char>::empty());
        if tail.len() == 0 {
            assert(split(text, delimiter) =~= seq![field] + others);
        }
    } else {
        let shorter = field.drop_first();
        assert(text.drop_first() =~= shorter + tail);
        assert forall|at: int| 0 <= at < shorter.len() implies !occurs_at(
            shorter + tail,
            delimiter,
            at,
        ) by {
            if occurs_at(shorter + tail, delimiter, at) {
                assert(text.subrange(at + 1, at + 1 + delimiter.len()) =~= (shorter
                    + tail).subrange(at, at + delimiter.len()));
                assert(occurs_at(text, delimiter, at + 1));
            }
        }
        lemma_split_first_field(shorter, tail, delimiter);
        let rest = split(text.drop_first(), delimiter);
        assert(rest == seq![shorter] + others);
        assert(rest[0] == shorter);
        assert(seq![text[0]] + rest[0] =~= field);
        assert(rest.drop_first() =~= others);
        assert(!occurs_at(text, delimiter, 0));
        assert(split(text, delimiter) =~= seq![field] + others);
    }
}

/// Splitting undoes joining wherever the delimiter stands only between the
/// fields.
pub proof fn lemma_split_joined(fields: Seq<Seq<char>>, delimiter: Seq<char>)
    requires
        delimiter.len() > 0,
        fields.len() > 0,
        delimiter_only_between(fields, delimiter),
    ensures
        split(joined(fields, delimiter), delimiter) == fields,
    decreases fields.len(),
{
    let first = fields[0];
    if fields.len() == 1 {
        let tail = Seq::<char>::empty();
        assert(first + tail =~= joined(fields, delimiter));
        lemma_split_first_field(first, tail, delimiter);
        assert(split(joined(fields, delimiter), delimiter) =~= fields);
    } else {
        let others = fields.drop_first();
        let tail = delimiter + joined(others, delimiter);
        assert(first + tail =~= joined(fields, delimiter));
        assert(tail.subrange(0, delimiter.len() as int) =~= delimiter);
        assert(tail.skip(delimiter.len() as int) =~= joined(others, delimiter));
        lemma_split_first_field(first, tail, delimiter);
        lemma_split_joined(others, delimiter);
        assert(split(joined(fields, delimiter), delimiter) =~= fields);
    }
}

/// The first field that `split` cuts off ends no later than any occurrence of
/// the delimiter starts.
pub proof fn lemma_split_first_field_ends_early(
    text: Seq<char>,
    delimiter: Seq<char>,
    at: int,
)
    requires
        delimiter.len() > 0,
        occurs_at(text, delimiter, at),
    ensures
        split(text, delimiter).len() > 0,
        split(text, delimiter)[0].len() <= at,
    decreases text.len(),
{
    if !occurs_at(text, delimiter, 0) {
        let shorter = text.drop_first();
        assert(shorter.subrange(at - 1, at - 1 + delimiter.len()) =~= text.subrange(
            at,
            at + delimiter.len(),
        ));
        lemma_split_first_field_ends_early(shorter, delimiter, at - 1);
    }
}

/// Splitting undoes joining only where the delimiter stands only between the
/// fields.
pub proof fn lemma_split_joined_only_if(fields: Seq<Seq<char>>, delimiter: Seq<char>)
    requires
        delimiter.len() > 0,
        fields.len() > 0,
        split(joined(fields, delimiter), delimiter) == fields,
    ensures
        delimiter_only_between(fields, delimiter),
    decreases fields.len(),
{
    let first = fields[0];
    let text = joined(fields, delimiter);
    assert forall|at: int| 0 <= at < first.len() implies !occurs_at(text, delimiter, at) by {
        if occurs_at(text, delimiter, at) {
            lemma_split_first_field_ends_early(text, delimiter, at);
        }
    }
    if fields.len() > 1 {
        let others = fields.drop_first();
        let tail = delimiter + joined(others, delimiter);
        assert(first + tail =~= text);
        assert(tail.subrange(0, delimiter.len() as int) =~= delimiter);
        assert(tail.skip(delimiter.len() as int) =~= joined(others, delimiter));
        lemma_split_first_field(first, tail, delimiter);
        assert(split(joined(others, delimiter), delimiter) =~= (seq![first] + split(
            joined(others, delimiter),
            delimiter,
        )).drop_first());
        lemma_split_joined_only_if(others, delimiter);
    } else {
        assert(delimiter_only_between(fields.drop_first(), delimiter));
    }
}

/// The join of fields begins with the first field.
pub proof fn lemma_joined_starts_with_first(fields: Seq<Seq<char>>, delimiter: Seq<char>)
    requires
        fields.len() > 0,
    ensures
        joined(fields, delimiter).len() >= fields[0].len(),
        joined(fields, delimiter).take(fields[0].len() as int) == fields[0],
{
    if fields.len() == 1 {
        assert(joined(fields, delimiter).take(fields[0].len() as int) =~= fields[0]);
    } else {
        let rest = joined(fields.drop_first(), delimiter);
        assert(joined(fields, delimiter) == fields[0] + delimiter + rest);
        assert((fields[0] + delimiter + rest).take(fields[0].len() as int) =~= fields[0]);
    }
}

/// A delimiter that holds no double quote and stands in none of the fields
/// stands in the join of the quoted fields only between them.
pub proof fn lemma_quoted_fields_keep_delimiter_between(
    fields: Seq<Seq<char>>,
    delimiter: Seq<char>,
)
    requires
        delimiter.len() > 0,
        !delimiter.contains('"'),
        forall|i: int| 0 <= i < fields.len() ==> !occurs_in(#[trigger] fields[i], delimiter),
    ensures
        delimiter_only_between(quoted_all(fields), delimiter),
    decreases fields.len(),
{
    let wrapped = quoted_all(fields);
    if fields.len() > 0 {
        let text = joined(wrapped, delimiter);
        let name = fields[0];
        let last: int = name.len() as int + 1;
        lemma_joined_starts_with_first(wrapped, delimiter);
        assert(wrapped[0] == quoted(name));
        assert forall|at: int| 0 <= at < wrapped[0].len() implies !occurs_at(
            text,
            delimiter,
            at,
        ) by {
            if occurs_at(text, delimiter, at) {
                let found = text.subrange(at, at + delimiter.len());
                assert(found == delimiter);
                assert forall|j: int| 0 <= j <= last implies text[j] == quoted(name)[j] by {
                    assert(text.take(wrapped[0].len() as int)[j] == text[j]);
                }
                if at == 0 {
                    assert(found[0] == text[0]);
                    assert(delimiter[0] == '"');
                    assert(delimiter.contains('"'));
                } else if at + delimiter.len() > last {
                    assert(found[last - at] == text[last]);
                    assert(delimiter[last - at] == '"');
                    assert(delimiter.contains('"'));
                } else {
                    assert(name.subrange(at - 1, at - 1 + delimiter.len()) =~= found) by {
                        assert forall|j: int| 0 <= j < delimiter.len() implies name[at - 1 + j]
                            == found[j] by {
                            assert(found[j] == text[at + j]);
                            assert(text[at + j] == quoted(name)[at + j]);
                        }
                    }
                    assert(occurs_at(name, delimiter, at - 1));
                    assert(occurs_in(name, delimiter));
                }
            }
        }
        assert(wrapped.drop_first() =~= quoted_all(fields.drop_first()));
        assert forall|i: int| 0 <= i < fields.drop_first().len() implies !occurs_in(
            #[trigger] fields.drop_first()[i],
            delimiter,
        ) by {
            assert(fields.drop_first()[i] == fields[i + 1]);
        }
        lemma_quoted_fields_keep_delimiter_between(fields.drop_first(), delimiter);
    }
}

/// The fields of a body line: the row's dimension values, quoted, then its
/// metric values as they are.
pub open spec fn row_fields(row: RowView) -> Seq<Seq<char>> {
    quoted_all(row.dimension_values()) + row.metric_values()
}

/// A report without dimensions: its header names none, and none of its rows
/// has a dimension sequence.
pub open spec fn without_dimensions(header: ColumnHeaderView, rows: Seq<RowView>) -> bool {
    &&& header.dimension_names().len() == 0
    &&& forall|i: int| 0 <= i < rows.len() ==> (#[trigger] rows[i]).dimensions is None
}

/// Of a report without dimensions, the header line is the quoted metric names
/// joined by the delimiter, and every body line is the row's metric values
/// joined by the delimiter: no dimension segment and no delimiter in front.
pub proof fn law_without_dimensions(
    header: ColumnHeaderView,
    rows: Seq<RowView>,
    delimiter: Seq<char>,
)
    requires
        without_dimensions(header, rows),
    ensures
        header_line(header, delimiter) == joined(quoted_all(header.metric_names), delimiter)
            + newline(),
        forall|i: int|
            0 <= i < rows.len() ==> row_line(#[trigger] rows[i], delimiter) == joined(
                rows[i].metric_values(),
                delimiter,
            ) + newline(),
{
    assert(header_fields(header) =~= quoted_all(header.metric_names));
    assert forall|i: int| 0 <= i < rows.len() implies row_line(#[trigger] rows[i], delimiter)
        == joined(rows[i].metric_values(), delimiter) + newline() by {
        assert(row_line(rows[i], delimiter) =~= joined(rows[i].metric_values(), delimiter)
            + newline());
    }
}

/// A body line of a row that matches a header with `N` dimension names and
/// `M` metric names has `N` quoted dimension values and then the metric
/// values of all date ranges: `N` plus `M` times the number of date ranges
/// fields in all, joined by the delimiter.
///
/// The line is the join of these fields where the row has no dimension
/// sequence, or has at least one dimension value and one metric value. A
/// dimension sequence that is present puts a delimiter before the metric
/// values even where one side of it is empty.
pub proof fn law_row_fields(header: ColumnHeaderView, row: RowView, delimiter: Seq<char>)
    requires
        row.matches_header(header),
        row.dimensions is Some ==> row.dimension_values().len() > 0 && row.metric_values().len()
            > 0,
    ensures
        row_line(row, delimiter) == joined(row_fields(row), delimiter) + newline(),
        row_fields(row).len() == header.dimension_names().len() + row.metric_values().len(),
        row.metric_values().len() == row.metrics.len() * header.metric_names.len(),
        forall|k: int|
            0 <= k < header.dimension_names().len() ==> row_fields(row)[k] == quoted(
                row.dimension_values()[k],
            ),
        forall|k: int|
            0 <= k < row.metric_values().len() ==> row_fields(row)[header.dimension_names().len()
                + k] == row.metric_values()[k],
{
    let wrapped = quoted_all(row.dimension_values());
    lemma_flatten_len(row.metrics, header.metric_names.len());
    match row.dimensions {
        Some(_) => {
            lemma_joined_concat(wrapped, row.metric_values(), delimiter);
        },
        None => {
            assert(row_fields(row) =~= row.metric_values());
            assert(row_line(row, delimiter) =~= joined(row_fields(row), delimiter) + newline());
        },
    }
}

/// Flattening a response gives one text per report, in the order of the
/// reports, and each text is that of its own report flattened alone.
pub proof fn law_reports_flatten_apart(reports: Seq<ReportView>, delimiter: Seq<char>)
    requires
        flattened_all(reports, delimiter) is Some,
    ensures
        flattened_all(reports, delimiter)->0.len() == reports.len(),
        forall|i: int|
            0 <= i < reports.len() ==> flattened(#[trigger] reports[i], delimiter) == Some(
                flattened_all(reports, delimiter)->0[i],
            ),
{
}

/// Splitting the header line, without its newline, at the delimiter gives the
/// header fields back, and taking the quotes off every field gives the column
/// names, dimensions first: for a header with at least one column and a
/// non-empty delimiter that stands in the line only between the fields.
pub proof fn law_header_round_trip(header: ColumnHeaderView, delimiter: Seq<char>)
    requires
        delimiter.len() > 0,
        header.column_names().len() > 0,
        delimiter_only_between(header_fields(header), delimiter),
    ensures
        split(header_line(header, delimiter).drop_last(), delimiter) == header_fields(header),
        unquoted_all(split(header_line(header, delimiter).drop_last(), delimiter))
            == header.column_names(),
{
    let fields = header_fields(header);
    lemma_quoted_all_concat(header.dimension_names(), header.metric_names);
    assert(header_line(header, delimiter).drop_last() =~= joined(fields, delimiter));
    lemma_split_joined(fields, delimiter);
    lemma_unquoted_all_quoted_all(header.column_names());
}

/// Where an occurrence of the delimiter starts inside a field of the header
/// line, splitting the line does not give the header fields back.
pub proof fn law_header_round_trip_only_if(header: ColumnHeaderView, delimiter: Seq<char>)
    requires
        delimiter.len() > 0,
        header.column_names().len() > 0,
        !delimiter_only_between(header_fields(header), delimiter),
    ensures
        split(header_line(header, delimiter).drop_last(), delimiter) != header_fields(header),
{
    let fields = header_fields(header);
    assert(header_line(header, delimiter).drop_last() =~= joined(fields, delimiter));
    if split(joined(fields, delimiter), delimiter) == fields {
        lemma_split_joined_only_if(fields, delimiter);
    }
}

/// The delimiter stands in a header line only between the fields where it
/// holds no double quote and stands in no column name.
pub proof fn lemma_header_keeps_delimiter_between(header: ColumnHeaderView, delimiter: Seq<char>)
    requires
        delimiter.len() > 0,
        !delimiter.contains('"'),
        forall|i: int|
            0 <= i < header.column_names().len() ==> !occurs_in(
                #[trigger] header.column_names()[i],
                delimiter,
            ),
    ensures
        delimiter_only_between(header_fields(header), delimiter),
{
    lemma_quoted_all_concat(header.dimension_names(), header.metric_names);
    lemma_quoted_fields_keep_delimiter_between(header.column_names(), delimiter);
}

} // verus!
