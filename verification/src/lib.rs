//! Terminal presentation and telemetry-log analysis for the xybrid command line.
pub mod text;
pub mod json_fields;
pub mod telemetry;
pub mod summary;
pub mod sessions;
pub mod format;
pub mod style;
pub mod ui;
pub mod trace_view;
pub mod cache_view;
