//! Receive one upload through an ephemeral HTML form: the decisions of the
//! upload pipeline (size limit, sink selection, path safety, progress frames,
//! error pages, at-most-once shutdown), verified.

pub mod args;
pub mod fmt;
pub mod index;
pub mod progress;
pub mod shutdown;
pub mod status;
pub mod text;
pub mod tunnel;
pub mod upload;
