//! Totals of the progress of reading and packing.

use crate::path::names_view;
use std::collections::VecDeque;
use vstd::prelude::*;

verus! {

/// What the reader reports with each micro-batch.
#[derive(Debug, Default)]
pub struct ReaderProgress {
    /// The file being read.
    pub filename: String,
    /// Bytes read since the previous report.
    pub bytes: usize,
    /// Statements in the micro-batch.
    pub statement_count: usize,
    /// Whether the end of the file was reached.
    pub finished: bool,
}

/// What the writer reports with each dataset.
#[derive(Debug, Default)]
pub struct PrepareProgress {
    /// The file the dataset was written to.
    pub filename: String,
    /// Size of the dataset in bytes.
    pub bytes: usize,
    /// Statements in the dataset.
    pub statement_count: usize,
    /// Statements dropped since the previous dataset.
    pub skipped_statements: usize,
}

/// Totals of the progress of reading and packing.
#[derive(Debug)]
pub struct PrepareState {
    pub current_file: Option<String>,
    pub current_file_size: usize,
    pub current_read_bytes: usize,
    /// Files not yet read to the end, each with its size.
    pub queued_files: VecDeque<(String, usize)>,
    pub total_bytes: usize,
    pub read_bytes: usize,
    pub read_files: Vec<String>,
    pub read_statements: usize,
    pub prepared_bytes: usize,
    pub prepared_files: Vec<String>,
    pub prepared_statements: usize,
    pub skipped_statemets: usize,
}

/// A `PrepareState` as plain values.
pub struct PrepareTotals {
    pub current_file: Option<Seq<char>>,
    pub current_file_size: int,
    pub current_read_bytes: int,
    pub queued_files: Seq<(Seq<char>, usize)>,
    pub total_bytes: int,
    pub read_bytes: int,
    pub read_files: Seq<Seq<char>>,
    pub read_statements: int,
    pub prepared_bytes: int,
    pub prepared_files: Seq<Seq<char>>,
    pub prepared_statements: int,
    pub skipped_statemets: int,
}

/// The files of a queue by the characters of their names.
pub open spec fn queue_view(queue: Seq<(String, usize)>) -> Seq<(Seq<char>, usize)> {
    queue.map_values(|entry: (String, usize)| (entry.0@, entry.1))
}

/// The size of the first file named `name` in the queue.
pub open spec fn queued_size(queue: Seq<(Seq<char>, usize)>, name: Seq<char>) -> Option<usize>
    decreases queue.len(),
{
    if queue.len() == 0 {
        None
    } else if queue[0].0 == name {
        Some(queue[0].1)
    } else {
        queued_size(queue.drop_first(), name)
    }
}

/// The queue without the files named `name`.
pub open spec fn without(queue: Seq<(Seq<char>, usize)>, name: Seq<char>) -> Seq<
    (Seq<char>, usize),
> {
    queue.filter(|entry: (Seq<char>, usize)| entry.0 != name)
}

impl PrepareTotals {
    /// Whether a report of the reader can be taken in: a file that is not
    /// the current one must be queued, and no total may leave `usize`.
    pub open spec fn takes_reader(self, progress: ReaderProgress) -> bool {
        &&& self.current_file == Some(progress.filename@) ==> self.current_read_bytes
            + progress.bytes <= usize::MAX
        &&& self.current_file != Some(progress.filename@) ==> queued_size(
            self.queued_files,
            progress.filename@,
        ) is Some
        &&& self.read_bytes + progress.bytes <= usize::MAX
        &&& self.read_statements + progress.statement_count <= usize::MAX
    }

    /// The totals after a report of the reader.
    pub open spec fn after_reader(self, progress: ReaderProgress) -> PrepareTotals {
        let name = progress.filename@;
        let same = self.current_file == Some(name);
        PrepareTotals {
            current_file: if progress.finished {
                None
            } else {
                Some(name)
            },
            current_file_size: if same {
                self.current_file_size
            } else {
                queued_size(self.queued_files, name).unwrap() as int
            },
            current_read_bytes: if same {
                self.current_read_bytes + progress.bytes
            } else {
                progress.bytes as int
            },
            queued_files: if progress.finished {
                without(self.queued_files, name)
            } else {
                self.queued_files
            },
            read_bytes: self.read_bytes + progress.bytes,
            read_files: if progress.finished {
                self.read_files.push(name)
            } else {
                self.read_files
            },
            read_statements: self.read_statements + progress.statement_count,
            ..self
        }
    }

    /// Whether a report of the writer can be taken in: no total may leave `usize`.
    pub open spec fn takes_prepare(self, progress: PrepareProgress) -> bool {
        &&& self.prepared_bytes + progress.bytes <= usize::MAX
        &&& self.prepared_statements + progress.statement_count <= usize::MAX
        &&& self.skipped_statemets + progress.skipped_statements <= usize::MAX
    }

    /// The totals after a report of the writer.
    pub open spec fn after_prepare(self, progress: PrepareProgress) -> PrepareTotals {
        PrepareTotals {
            prepared_bytes: self.prepared_bytes + progress.bytes,
            prepared_files: self.prepared_files.push(progress.filename@),
            prepared_statements: self.prepared_statements + progress.statement_count,
            skipped_statemets: self.skipped_statemets + progress.skipped_statements,
            ..self
        }
    }
}

impl View for PrepareState {
    type V = PrepareTotals;

    open spec fn view(&self) -> PrepareTotals {
        PrepareTotals {
            current_file: match self.current_file {
                Some(name) => Some(name@),
                None => None,
            },
            current_file_size: self.current_file_size as int,
            current_read_bytes: self.current_read_bytes as int,
            queued_files: queue_view(self.queued_files@),
            total_bytes: self.total_bytes as int,
            read_bytes: self.read_bytes as int,
            read_files: names_view(self.read_files@),
            read_statements: self.read_statements as int,
            prepared_bytes: self.prepared_bytes as int,
            prepared_files: names_view(self.prepared_files@),
            prepared_statements: self.prepared_statements as int,
            skipped_statemets: self.skipped_statemets as int,
        }
    }
}

/// The sizes of the files of a queue, added up.
pub open spec fn total_size(queue: Seq<(Seq<char>, usize)>) -> int
    decreases queue.len(),
{
    if queue.len() == 0 {
        0
    } else {
        total_size(queue.drop_last()) + queue.last().1
    }
}

/// The files at the front of a queue are no larger than all of them.
proof fn lemma_total_size_grows(queue: Seq<(Seq<char>, usize)>, front: int)
    requires
        0 <= front <= queue.len(),
    ensures
        0 <= total_size(queue.take(front)) <= total_size(queue),
    decreases queue.len(),
{
    if front == queue.len() {
        assert(queue.take(front) =~= queue);
        if queue.len() > 0 {
            lemma_total_size_grows(queue.drop_last(), front - 1);
        }
    } else {
        assert(queue.drop_last().take(front) =~= queue.take(front));
        lemma_total_size_grows(queue.drop_last(), front);
    }
}

/// The sizes of the files of `queue`, added up; `None` where the sum does
/// not fit into `usize`.
pub fn queue_size(queue: &VecDeque<(String, usize)>) -> (total: Option<usize>)
    ensures
        total == (if total_size(queue_view(queue@)) <= usize::MAX {
            Some(total_size(queue_view(queue@)) as usize)
        } else {
            None
        }),
{
    let ghost whole = queue_view(queue@);
    let mut sum: usize = 0;
    let mut i: usize = 0;
    while i < queue.len()
        invariant
            i <= queue@.len(),
            whole == queue_view(queue@),
            sum == total_size(whole.take(i as int)),
        decreases queue@.len() - i,
    {
        proof {
            assert(whole.take(i + 1).drop_last() =~= whole.take(i as int));
            lemma_total_size_grows(whole, i + 1);
        }
        match sum.checked_add(queue[i].1) {
            Some(next) => {
                sum = next;
            },
            None => {
                return None;
            },
        }
        i = i + 1;
    }
    assert(whole.take(i as int) =~= whole);
    Some(sum)
}

/// The size of the first file named `name` in `queue`.
pub fn find_queued(queue: &VecDeque<(String, usize)>, name: &String) -> (size: Option<usize>)
    ensures
        size == queued_size(queue_view(queue@), name@),
{
    let ghost whole = queue_view(queue@);
    let mut i: usize = 0;
    assert(whole.skip(0) =~= whole);
    while i < queue.len()
        invariant
            i <= queue@.len(),
            whole == queue_view(queue@),
            queued_size(whole, name@) == queued_size(whole.skip(i as int), name@),
        decreases queue@.len() - i,
    {
        assert(whole.skip(i as int).drop_first() =~= whole.skip(i + 1));
        if queue[i].0 == *name {
            return Some(queue[i].1);
        }
        i = i + 1;
    }
    None
}

/// Removes the files named `name` from `queue`, keeping the order of the rest.
pub fn remove_queued(queue: &mut VecDeque<(String, usize)>, name: &String)
    ensures
        queue_view(final(queue)@) == without(queue_view(old(queue)@), name@),
{
    let ghost whole = queue_view(queue@);
    let ghost pred = |entry: (Seq<char>, usize)| entry.0 != name@;
    let mut rest: VecDeque<(String, usize)> = VecDeque::new();
    std::mem::swap(queue, &mut rest);
    let ghost mut done: int = 0;
    proof {
        reveal(Seq::filter);
    }
    while rest.len() > 0
        invariant
            0 <= done <= whole.len(),
            queue_view(rest@) == whole.skip(done),
            queue_view(queue@) == whole.take(done).filter(pred),
            pred == |entry: (Seq<char>, usize)| entry.0 != name@,
        decreases rest@.len(),
    {
        let ghost waiting = rest@;
        assert(whole.skip(done).len() == rest@.len());
        let entry = rest.pop_front().unwrap();
        proof {
            reveal(Seq::filter);
            assert(whole.skip(done)[0] == whole[done]);
            assert(whole.take(done + 1).drop_last() =~= whole.take(done));
            assert forall|i: int| 0 <= i < rest@.len() implies queue_view(rest@)[i] == whole.skip(
                done + 1,
            )[i] by {
                assert(queue_view(waiting)[i + 1] == whole.skip(done)[i + 1]);
            }
        }
        if entry.0 != *name {
            queue.push_back(entry);
        }
        proof {
            done = done + 1;
        }
    }
}

impl Default for PrepareState {
    fn default() -> (state: PrepareState)
        ensures
            state@.current_file is None,
            state@.queued_files.len() == 0,
            state@.read_files.len() == 0,
            state@.prepared_files.len() == 0,
            state@.current_file_size == 0 && state@.current_read_bytes == 0,
            state@.total_bytes == 0 && state@.read_bytes == 0 && state@.read_statements == 0,
            state@.prepared_bytes == 0 && state@.prepared_statements == 0,
            state@.skipped_statemets == 0,
    {
        PrepareState {
            current_file: None,
            current_file_size: 0,
            current_read_bytes: 0,
            queued_files: VecDeque::new(),
            total_bytes: 0,
            read_bytes: 0,
            read_files: Vec::new(),
            read_statements: 0,
            prepared_bytes: 0,
            prepared_files: Vec::new(),
            prepared_statements: 0,
            skipped_statemets: 0,
        }
    }
}

impl PrepareState {
    /// Whether `update_reader_state` can take in `progress`.
    pub fn takes_reader(&self, progress: &ReaderProgress) -> (r: bool)
        ensures
            r == self@.takes_reader(*progress),
    {
        let same = match &self.current_file {
            Some(current) => *current == progress.filename,
            None => false,
        };
        let first = if same {
            self.current_read_bytes <= usize::MAX - progress.bytes
        } else {
            find_queued(&self.queued_files, &progress.filename).is_some()
        };
        first && self.read_bytes <= usize::MAX - progress.bytes && self.read_statements
            <= usize::MAX - progress.statement_count
    }

    /// Takes in a report of the reader: counts its bytes and statements,
    /// makes its file the current one and, where the file is finished,
    /// moves it from the queue to the files read.
    pub fn update_reader_state(&mut self, progress: ReaderProgress)
        requires
            old(self)@.takes_reader(progress),
        ensures
            final(self)@ == old(self)@.after_reader(progress),
    {
        let same = match &self.current_file {
            Some(current) => *current == progress.filename,
            None => false,
        };
        if same {
            self.current_read_bytes = self.current_read_bytes + progress.bytes;
        } else {
            let size = find_queued(&self.queued_files, &progress.filename).unwrap();
            self.current_file = Some(progress.filename.clone());
            self.current_file_size = size;
            self.current_read_bytes = progress.bytes;
        }
        self.read_bytes = self.read_bytes + progress.bytes;
        self.read_statements = self.read_statements + progress.statement_count;
        if progress.finished {
            remove_queued(&mut self.queued_files, &progress.filename);
            let ghost before = self.read_files@;
            self.read_files.push(progress.filename);
            assert(names_view(self.read_files@) =~= names_view(before).push(progress.filename@));
            self.current_file = None;
        }
    }

    /// Whether `update_prepare_state` can take in `progress`.
    pub fn takes_prepare(&self, progress: &PrepareProgress) -> (r: bool)
        ensures
            r == self@.takes_prepare(*progress),
    {
        self.prepared_bytes <= usize::MAX - progress.bytes && self.prepared_statements
            <= usize::MAX - progress.statement_count && self.skipped_statemets <= usize::MAX
            - progress.skipped_statements
    }

    /// Takes in a report of the writer: counts the dataset's bytes,
    /// statements and skips, and notes its file.
    pub fn update_prepare_state(&mut self, progress: PrepareProgress)
        requires
            old(self)@.takes_prepare(progress),
        ensures
            final(self)@ == old(self)@.after_prepare(progress),
    {
        self.prepared_bytes = self.prepared_bytes + progress.bytes;
        self.prepared_statements = self.prepared_statements + progress.statement_count;
        self.skipped_statemets = self.skipped_statemets + progress.skipped_statements;
        let ghost before = self.prepared_files@;
        self.prepared_files.push(progress.filename);
        assert(names_view(self.prepared_files@) =~= names_view(before).push(progress.filename@));
    }
}

} // verus!
