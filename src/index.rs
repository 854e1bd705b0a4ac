//! The parameters of the upload form.

use vstd::prelude::*;
use crate::args::Mode;

verus! {

/// Which form to show.
#[derive(Debug, Clone, Copy, PartialEq, Eq, Structural)]
pub enum ModeTag {
    MultipleFiles,
    SingleFile,
    Text,
}

pub open spec fn mode_tag(mode: Mode) -> ModeTag {
    match mode {
        Mode::MultipleFiles { .. } => ModeTag::MultipleFiles,
        Mode::SingleFile { .. } => ModeTag::SingleFile,
        Mode::Text { .. } => ModeTag::Text,
    }
}

/// The parameters of the form page: its kind and the size limit.
#[derive(Clone, Copy)]
pub struct IndexTemplate {
    pub mode: ModeTag,
    pub limit: usize,
}

impl IndexTemplate {
    /// The form for `mode` with size limit `limit`.
    pub fn new(mode: &Mode, limit: usize) -> (r: IndexTemplate)
        ensures
            r.mode == mode_tag(*mode),
            r.limit == limit,
    {
        IndexTemplate {
            mode: match *mode {
                Mode::MultipleFiles { out_dir: _ } => ModeTag::MultipleFiles,
                Mode::SingleFile { out: _ } => ModeTag::SingleFile,
                Mode::Text { out_filename: _ } => ModeTag::Text,
            },
            limit,
        }
    }
}

} // verus!
