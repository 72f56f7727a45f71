//! Core of an AWS CloudTrail detection timeline tool: field extraction,
//! profile handling, output sink encoding, scan statistics, and the
//! post-scan summary report.

pub mod chars;
pub mod csvenc;
pub mod event;
pub mod extract;
pub mod fmtnum;
pub mod jsonval;
pub mod profile;
pub mod report;
pub mod severity;
pub mod sinks;
pub mod summary;
pub mod timefmt;
pub mod timeline;

pub use severity::ColorCode;
pub use severity::SeverityLevel;
pub use sinks::OutputType;
