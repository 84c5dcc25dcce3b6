//! Flattens hierarchical analytics reports into delimited text.
//!
//! A report names its dimension and metric columns in a header and holds one
//! row per combination of dimension values. [`report_to_flat`] renders one
//! report as a header line followed by one line per row;
//! [`response_to_delimited_reports`] does so for every report of a response.
//!
//! Every function is verified against the text model of [`text`] and
//! [`layout`]; the only code taken on trust is the call into `joinery` in
//! [`join`].

pub mod flatten;
pub mod join;
pub mod laws;
pub mod layout;
pub mod report;
pub mod text;

pub use flatten::{report_to_flat, response_to_delimited_reports, FlattenError};
pub use report::{
    ColumnHeader, DateRangeValue, MetricHeader, MetricHeaderEntry, Report, ReportData,
    ReportResponse, ReportRow,
};
