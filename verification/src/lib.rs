//! Activity sampling: classification rules, configuration, pending-record
//! batching and the sampling schedule of a desktop activity recorder.

pub mod config;
pub mod control;
pub mod digest;
pub mod event;
pub mod host;
pub mod json_value;
pub mod pattern;
pub mod platforms;
pub mod probe;
pub mod rules;
pub mod span;
pub mod text;
pub mod writer;
