//! Discovery and ingestion of benchmark result directories.
//!
//! The library models a filesystem subtree as an in-memory value, walks it
//! looking for directories that carry a `new/benchmark.json` and a
//! `new/raw.csv`, and parses both files of each such directory into one
//! record: structured metadata on one side, ordered raw sample rows on the
//! other.

mod config;
mod decode;
mod env;
mod fs;
mod json;
mod metadata;
mod reader;
mod samples;
mod text;

pub use config::Config;
pub use env::Environment;
pub use fs::FsData;
pub use fs::FsNode;
pub use json::JsonData;
pub use json::JsonValue;
pub use metadata::BenchmarkData;
pub use metadata::CriterionBenchmark;
pub use metadata::FieldName;
pub use metadata::MetadataError;
pub use reader::CriterionReader;
pub use reader::CriterionResult;
pub use reader::LoadErrorKind;
pub use reader::Reader;
pub use reader::RecordData;
pub use reader::ScanErrData;
pub use reader::ScanError;
pub use samples::ColName;
pub use samples::CriterionRaw;
pub use samples::CriterionRawLine;
pub use samples::RawError;
pub use samples::SampleData;
