//! Totals of the progress of publishing.

use crate::path::names_view;
use crate::ui::prepare::{queue_view, remove_queued, without, PrepareState, PrepareTotals};
use std::collections::VecDeque;
use vstd::prelude::*;

verus! {

/// What the publisher reports with each dataset it has sent.
#[derive(Debug, Default)]
pub struct PublishProgress {
    /// The file that held the dataset.
    pub filename: String,
    /// Size of the dataset in bytes.
    pub bytes: usize,
    /// Statements in the dataset.
    pub statement_count: usize,
}

/// Totals of the progress of publishing.
#[derive(Debug)]
pub struct PublishState {
    /// Totals of the packing that feeds the publisher, if there is one.
    pub prepare: Option<PrepareState>,
    /// Files not yet published, each with its size.
    pub queued_files: VecDeque<(String, usize)>,
    pub total_bytes: usize,
    pub published_bytes: usize,
    pub published_files: Vec<String>,
    pub published_statements: usize,
}

/// A `PublishState` as plain values.
pub struct PublishTotals {
    pub prepare: Option<PrepareTotals>,
    pub queued_files: Seq<(Seq<char>, usize)>,
    pub total_bytes: int,
    pub published_bytes: int,
    pub published_files: Seq<Seq<char>>,
    pub published_statements: int,
}

impl PublishTotals {
    /// Whether a report of the publisher can be taken in: no total may
    /// leave `usize`.
    pub open spec fn takes_publish(self, progress: PublishProgress) -> bool {
        &&& self.published_bytes + progress.bytes <= usize::MAX
        &&& self.published_statements + progress.statement_count <= usize::MAX
    }

    /// The totals after a report of the publisher.
    pub open spec fn after_publish(self, progress: PublishProgress) -> PublishTotals {
        PublishTotals {
            queued_files: without(self.queued_files, progress.filename@),
            published_bytes: self.published_bytes + progress.bytes,
            published_files: self.published_files.push(progress.filename@),
            published_statements: self.published_statements + progress.statement_count,
            ..self
        }
    }
}

impl View for PublishState {
    type V = PublishTotals;

    open spec fn view(&self) -> PublishTotals {
        PublishTotals {
            prepare: match self.prepare {
                Some(prepare) => Some(prepare@),
                None => None,
            },
            queued_files: queue_view(self.queued_files@),
            total_bytes: self.total_bytes as int,
            published_bytes: self.published_bytes as int,
            published_files: names_view(self.published_files@),
            published_statements: self.published_statements as int,
        }
    }
}

impl Default for PublishState {
    fn default() -> (state: PublishState)
        ensures
            state@.prepare is None,
            state@.queued_files.len() == 0,
            state@.published_files.len() == 0,
            state@.total_bytes == 0 && state@.published_bytes == 0,
            state@.published_statements == 0,
    {
        PublishState {
            prepare: None,
            queued_files: VecDeque::new(),
            total_bytes: 0,
            published_bytes: 0,
            published_files: Vec::new(),
            published_statements: 0,
        }
    }
}

impl PublishState {
    /// Whether `update_publish_state` can take in `progress`.
    pub fn takes_publish(&self, progress: &PublishProgress) -> (r: bool)
        ensures
            r == self@.takes_publish(*progress),
    {
        self.published_bytes <= usize::MAX - progress.bytes && self.published_statements
            <= usize::MAX - progress.statement_count
    }

    /// Takes in a report of the publisher: counts the dataset's bytes and
    /// statements and moves its file from the queue to the files published.
    pub fn update_publish_state(&mut self, progress: PublishProgress)
        requires
            old(self)@.takes_publish(progress),
        ensures
            final(self)@ == old(self)@.after_publish(progress),
    {
        self.published_bytes = self.published_bytes + progress.bytes;
        self.published_statements = self.published_statements + progress.statement_count;
        remove_queued(&mut self.queued_files, &progress.filename);
        let ghost before = self.published_files@;
        self.published_files.push(progress.filename);
        assert(names_view(self.published_files@) =~= names_view(before).push(progress.filename@));
    }
}

} // verus!
