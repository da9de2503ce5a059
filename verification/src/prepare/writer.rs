//! The writer's part: the numbering and naming of output files.

use crate::prepare::packer::RDFBDataset;
use crate::ui::format::{padded, push_padded};
use crate::ui::prepare::PrepareProgress;
use vstd::prelude::*;
use vstd::string::StringExecFns;

verus! {

/// The name of the output file with the number `idx`: `prepared.`, the
/// number in at least six digits, and `.rdfb`.
pub open spec fn prepared_file_name(idx: nat) -> Seq<char> {
    "prepared."@ + padded(idx, 6) + ".rdfb"@
}

/// The writer's numbering of output files, which starts at 1.
pub struct OutputFiles {
    /// The number of the next output file.
    pub file_idx: usize,
}

impl OutputFiles {
    /// The numbering before any file was written.
    pub fn new() -> (files: OutputFiles)
        ensures
            files.file_idx == 1,
    {
        OutputFiles { file_idx: 1 }
    }

    /// The name of the next output file.
    pub fn file_name(&self) -> (name: String)
        ensures
            name@ == prepared_file_name(self.file_idx as nat),
    {
        let mut name = String::from_str("prepared.");
        push_padded(&mut name, self.file_idx, 6);
        name.append(".rdfb");
        name
    }

    /// Records that `dataset` was written in full to the file at `path`:
    /// gives the report of it and moves on to the next number.
    pub fn record(&mut self, path: String, dataset: &RDFBDataset) -> (progress: PrepareProgress)
        requires
            old(self).file_idx < usize::MAX,
        ensures
            final(self).file_idx == old(self).file_idx + 1,
            progress.filename == path,
            progress.bytes == dataset.data@.len(),
            progress.statement_count == dataset.statement_count,
            progress.skipped_statements == dataset.skipped_statements,
    {
        self.file_idx = self.file_idx + 1;
        PrepareProgress {
            filename: path,
            bytes: dataset.data.len(),
            statement_count: dataset.statement_count,
            skipped_statements: dataset.skipped_statements,
        }
    }
}

} // verus!
