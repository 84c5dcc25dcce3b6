//! The report tree as the flattener reads it, and its mathematical model.
//!
//! Each type has a view (`@`) made of sequences of characters only. The
//! contracts of the crate speak of these views.

use vstd::prelude::*;

verus! {

/// Descriptor of one metric column. Only its name reaches the output.
#[derive(Clone, Debug, PartialEq, Eq)]
pub struct MetricHeaderEntry {
    pub name: String,
}

/// The metric columns of a report, in output order.
#[derive(Clone, Debug, PartialEq, Eq)]
pub struct MetricHeader {
    pub metric_header_entries: Vec<MetricHeaderEntry>,
}

/// The columns of a report: dimensions first, metrics second.
///
/// An absent dimension sequence means the same as an empty one.
#[derive(Clone, Debug, PartialEq, Eq)]
pub struct ColumnHeader {
    pub dimensions: Option<Vec<String>>,
    pub metric_header: MetricHeader,
}

/// The metric values of one row for one date range, one per metric column.
#[derive(Clone, Debug, PartialEq, Eq)]
pub struct DateRangeValue {
    pub values: Vec<String>,
}

/// One data row: its dimension values, if the report has dimensions, and one
/// group of metric values per date range.
#[derive(Clone, Debug, PartialEq, Eq)]
pub struct ReportRow {
    pub dimensions: Option<Vec<String>>,
    pub metrics: Vec<DateRangeValue>,
}

/// The rows of a report. A report without a row sequence is malformed; one
/// with an empty row sequence is not.
#[derive(Clone, Debug, PartialEq, Eq)]
pub struct ReportData {
    pub rows: Option<Vec<ReportRow>>,
}

/// One report: a column header and the rows under it.
#[derive(Clone, Debug, PartialEq, Eq)]
pub struct Report {
    pub column_header: ColumnHeader,
    pub data: ReportData,
}

/// A response: independent reports, in order.
#[derive(Clone, Debug, PartialEq, Eq)]
pub struct ReportResponse {
    pub reports: Vec<Report>,
}

/// Model of a [`ColumnHeader`].
pub struct ColumnHeaderView {
    pub dimensions: Option<Seq<Seq<char>>>,
    pub metric_names: Seq<Seq<char>>,
}

/// Model of a [`ReportRow`]. `metrics[g][j]` is the value of metric `j` in
/// date range `g`.
pub struct RowView {
    pub dimensions: Option<Seq<Seq<char>>>,
    pub metrics: Seq<Seq<Seq<char>>>,
}

/// Model of a [`Report`].
pub struct ReportView {
    pub header: ColumnHeaderView,
    pub rows: Option<Seq<RowView>>,
}

impl ColumnHeaderView {
    /// The dimension names, with an absent sequence read as empty.
    pub open spec fn dimension_names(self) -> Seq<Seq<char>> {
        match self.dimensions {
            Some(names) => names,
            None => Seq::empty(),
        }
    }

    /// All column names in output order: dimensions first, metrics second.
    pub open spec fn column_names(self) -> Seq<Seq<char>> {
        self.dimension_names() + self.metric_names
    }
}

impl RowView {
    /// The dimension values, with an absent sequence read as empty.
    pub open spec fn dimension_values(self) -> Seq<Seq<char>> {
        match self.dimensions {
            Some(values) => values,
            None => Seq::empty(),
        }
    }

    /// The metric values of all date ranges, group after group.
    pub open spec fn metric_values(self) -> Seq<Seq<char>> {
        self.metrics.flatten()
    }

    /// Whether the row has one dimension value per dimension name of `header`
    /// and, in every date range, one metric value per metric name.
    pub open spec fn matches_header(self, header: ColumnHeaderView) -> bool {
        &&& self.dimension_values().len() == header.dimension_names().len()
        &&& forall|g: int|
            0 <= g < self.metrics.len() ==> (#[trigger] self.metrics[g]).len()
                == header.metric_names.len()
    }
}

impl ReportView {
    /// The shape that a well-formed report has: it has a row sequence, and
    /// every row matches the header.
    ///
    /// The flattener neither needs this nor looks for it: it writes each row
    /// as the row is.
    pub open spec fn well_shaped(self) -> bool {
        self.rows matches Some(rows) && forall|i: int|
            0 <= i < rows.len() ==> (#[trigger] rows[i]).matches_header(self.header)
    }
}

impl View for MetricHeaderEntry {
    type V = Seq<char>;

    open spec fn view(&self) -> Seq<char> {
        self.name@
    }
}

impl DeepView for MetricHeaderEntry {
    type V = Seq<char>;

    open spec fn deep_view(&self) -> Seq<char> {
        self@
    }
}

impl View for MetricHeader {
    type V = Seq<Seq<char>>;

    open spec fn view(&self) -> Seq<Seq<char>> {
        self.metric_header_entries.deep_view()
    }
}

impl View for ColumnHeader {
    type V = ColumnHeaderView;

    open spec fn view(&self) -> ColumnHeaderView {
        ColumnHeaderView {
            dimensions: self.dimensions.deep_view(),
            metric_names: self.metric_header@,
        }
    }
}

impl View for DateRangeValue {
    type V = Seq<Seq<char>>;

    open spec fn view(&self) -> Seq<Seq<char>> {
        self.values.deep_view()
    }
}

impl DeepView for DateRangeValue {
    type V = Seq<Seq<char>>;

    open spec fn deep_view(&self) -> Seq<Seq<char>> {
        self@
    }
}

impl View for ReportRow {
    type V = RowView;

    open spec fn view(&self) -> RowView {
        RowView { dimensions: self.dimensions.deep_view(), metrics: self.metrics.deep_view() }
    }
}

impl DeepView for ReportRow {
    type V = RowView;

    open spec fn deep_view(&self) -> RowView {
        self@
    }
}

impl View for ReportData {
    type V = Option<Seq<RowView>>;

    open spec fn view(&self) -> Option<Seq<RowView>> {
        self.rows.deep_view()
    }
}

impl View for Report {
    type V = ReportView;

    open spec fn view(&self) -> ReportView {
        ReportView { header: self.column_header@, rows: self.data@ }
    }
}

impl DeepView for Report {
    type V = ReportView;

    open spec fn deep_view(&self) -> ReportView {
        self@
    }
}

impl View for ReportResponse {
    type V = Seq<ReportView>;

    open spec fn view(&self) -> Seq<ReportView> {
        self.reports.deep_view()
    }
}

} // verus!
