//! Report-assembly pipeline for code-quality analysis results.
//!
//! The library takes per-project data (an optional analysis timestamp and a
//! list of issue records) together with a display language, and renders a
//! Markdown status report with graceful degradation when data is absent:
//! missing translations fall back to the default language and finally to the
//! raw key, malformed timestamps are rendered verbatim, and empty issue lists
//! become a fixed placeholder line.

pub mod client;
pub mod i18n;
pub mod report;
pub mod text;
