//! The stages that turn parsed statements into size-capped datasets.
//!
//! A reader bundles statements into micro-batches, a packer cuts its buffer
//! of statements into datasets that fit the byte cap, and a writer numbers
//! the datasets. Each stage is a state that is told what happened and
//! answers what to do next; receiving, sending and file access are left to
//! the caller. `prepare_datasets` runs one packer over statements held in
//! memory.

pub mod packer;
pub mod reader;
pub mod writer;

use crate::search::{lemma_retry_progress, BatchSearch, MAX_FILE_SIZE};
use crate::serialize::{
    all_plain, quads_of, quotes_triple, serialized, Encoded, SerializeError,
};
pub use packer::{Packer, PackerState, PackerStep, RDFBDataset, StepFailure, StepKind};
use packer::{after, shape, tells};
pub use reader::{InputFormat, MicroBatcher, StatementBatch, BATCH_SIZE, UNKNOWN_FORMAT};
use vstd::prelude::*;
pub use writer::OutputFiles;

verus! {

/// How many micro-batches may wait between the reader and the packers.
pub const BATCH_CHANNEL_CAPACITY: usize = 100;

/// How many datasets may wait between the packers and the writer.
pub const DATASET_CHANNEL_CAPACITY: usize = 10;

/// How many packers work side by side.
pub const PACKER_COUNT: usize = 6;

/// The datasets of one run, in the order they were made.
#[derive(Debug)]
pub struct PreparedDatasets {
    pub datasets: Vec<RDFBDataset>,
    /// How many statements were dropped after the last dataset.
    pub skipped_statements: usize,
}

/// Whether `input` is, from front to back, what `datasets` account for
/// followed by `trailing` dropped statements: before each dataset come the
/// statements dropped ahead of it, then the statements it holds, and its
/// bytes are the serialization of exactly these, in input order.
pub open spec fn tiles(input: Seq<(usize, oxrdf::Quad)>, datasets: Seq<RDFBDataset>, trailing: nat)
    -> bool
    decreases datasets.len(),
{
    if datasets.len() == 0 {
        input.len() == trailing
    } else {
        let last = datasets.last();
        let end = input.len() - trailing;
        let start = end - last.statement_count;
        &&& 0 <= start
        &&& serialized(quads_of(input.subrange(start, end))) == Encoded::Bytes(last.data@)
        &&& tiles(input.take(start), datasets.drop_last(), last.skipped_statements as nat)
    }
}

/// The number of statements that `datasets` hold.
pub open spec fn total_statements(datasets: Seq<RDFBDataset>) -> nat
    decreases datasets.len(),
{
    if datasets.len() == 0 {
        0
    } else {
        total_statements(datasets.drop_last()) + datasets.last().statement_count as nat
    }
}

/// The number of statements that `datasets` report as dropped.
pub open spec fn total_skipped(datasets: Seq<RDFBDataset>) -> nat
    decreases datasets.len(),
{
    if datasets.len() == 0 {
        0
    } else {
        total_skipped(datasets.drop_last()) + datasets.last().skipped_statements as nat
    }
}

/// No statement is lost or made up: where datasets tile an input, the
/// statements they hold and the statements dropped add up to the input.
pub proof fn lemma_tiles_counts(
    input: Seq<(usize, oxrdf::Quad)>,
    datasets: Seq<RDFBDataset>,
    trailing: nat,
)
    requires
        tiles(input, datasets, trailing),
    ensures
        total_statements(datasets) + total_skipped(datasets) + trailing == input.len(),
    decreases datasets.len(),
{
    if datasets.len() > 0 {
        let last = datasets.last();
        let start = input.len() - trailing - last.statement_count;
        lemma_tiles_counts(input.take(start), datasets.drop_last(), last.skipped_statements as nat);
    }
}

/// Dropping the next statement keeps a tiling.
proof fn lemma_tiles_skip(
    input: Seq<(usize, oxrdf::Quad)>,
    datasets: Seq<RDFBDataset>,
    trailing: nat,
    next: (usize, oxrdf::Quad),
)
    requires
        tiles(input, datasets, trailing),
    ensures
        tiles(input.push(next), datasets, trailing + 1),
{
    if datasets.len() > 0 {
        let last = datasets.last();
        let end = input.len() - trailing;
        let start = end - last.statement_count;
        assert(input.push(next).subrange(start, end) =~= input.subrange(start, end));
        assert(input.push(next).take(start) =~= input.take(start));
    }
}

/// Sending the next statements as a dataset keeps a tiling.
proof fn lemma_tiles_emit(
    input: Seq<(usize, oxrdf::Quad)>,
    datasets: Seq<RDFBDataset>,
    trailing: nat,
    run: Seq<(usize, oxrdf::Quad)>,
    dataset: RDFBDataset,
)
    requires
        tiles(input, datasets, trailing),
        dataset.statement_count == run.len(),
        dataset.skipped_statements == trailing,
        serialized(quads_of(run)) == Encoded::Bytes(dataset.data@),
    ensures
        tiles(input + run, datasets.push(dataset), 0),
{
    let whole = input + run;
    assert(whole.subrange(input.len() as int, whole.len() as int) =~= run);
    assert(whole.take(input.len() as int) =~= input);
    assert(datasets.push(dataset).drop_last() =~= datasets);
}

/// The packer as `prepare_datasets` sets it up for `statements`.
pub open spec fn packer_of(statements: Seq<(usize, oxrdf::Quad)>) -> PackerState {
    PackerState {
        buffer: statements,
        search: BatchSearch::initial(MAX_FILE_SIZE),
        skipped: 0,
        have_more: false,
    }
}

/// Packs `statements` with one packer until none is left.
///
/// The datasets are those that step after step of the packer comes to.
/// Every dataset fits `MAX_FILE_SIZE`; the datasets tile the statements, so
/// each holds consecutive statements in input order and none is lost. The
/// run fails exactly if a step fails: a statement that is probed quotes a
/// triple, or the encoder fails with an error that is not an overflow.
pub fn prepare_datasets(statements: Vec<(usize, oxrdf::Quad)>) -> (r: Result<
    PreparedDatasets,
    SerializeError,
>)
    ensures
        match r {
            Ok(prepared) => packer_of(statements@).drained() == Ok::<_, StepFailure>(
                (shape(prepared.datasets@), prepared.skipped_statements as int),
            ),
            Err(error) => packer_of(statements@).drained() matches Err(failure) && tells(
                error,
                failure,
            ),
        },
        statements@.len() == 0 ==> (r matches Ok(prepared) && prepared.datasets@.len() == 0
            && prepared.skipped_statements == 0),
        all_plain(statements@) ==> !(r matches Err(SerializeError::QuotedTriple(_))),
        r matches Ok(prepared) ==> {
            &&& tiles(statements@, prepared.datasets@, prepared.skipped_statements as nat)
            &&& total_statements(prepared.datasets@) + total_skipped(prepared.datasets@)
                + prepared.skipped_statements == statements@.len()
            &&& forall|i: int|
                0 <= i < prepared.datasets@.len() ==> (#[trigger] prepared.datasets@[i]).data@.len()
                    <= MAX_FILE_SIZE
            &&& forall|i: int|
                0 <= i < prepared.datasets@.len() ==> (#[trigger] prepared.datasets@[i]).statement_count
                    >= 1
        },
{
    let ghost input = statements@;
    let mut packer = Packer::new();
    assert(statements@.len() == statements.len());
    packer.extend(StatementBatch { quads: statements });
    packer.close_input();
    let ghost whole = packer_of(input).drained();
    let mut datasets: Vec<RDFBDataset> = Vec::new();
    let mut done = false;
    while !done
        invariant
            input == statements@,
            whole == packer_of(input).drained(),
            whole == after(shape(datasets@), packer@.drained()),
            input.len() == 0 ==> datasets@.len() == 0 && packer.skipped == 0,
            packer.wf(),
            !packer.have_more,
            packer.search.max_bytes == MAX_FILE_SIZE,
            packer.buffer@.len() <= input.len(),
            packer.buffer@ == input.skip(input.len() - packer.buffer@.len()),
            tiles(
                input.take(input.len() - packer.buffer@.len()),
                datasets@,
                packer.skipped as nat,
            ),
            done ==> packer.buffer@.len() == 0,
            forall|i: int|
                0 <= i < datasets@.len() ==> (#[trigger] datasets@[i]).data@.len() <= MAX_FILE_SIZE,
            forall|i: int| 0 <= i < datasets@.len() ==> (#[trigger] datasets@[i]).statement_count >= 1,
        decreases
                !done as int,
                packer.buffer@.len(),
                packer.search.lowest_overflow,
                packer.search.lowest_overflow - packer.search.write_count,
    {
        let ghost before = packer@;
        let ghost consumed = input.take(input.len() - packer.buffer@.len());
        proof {
            if before.step_kind() is Probed {
                lemma_retry_progress(
                    before.search,
                    before.outcome(),
                    before.buffer.len() as usize,
                    before.have_more,
                );
            }
        }
        match packer.step() {
            Err(error) => {
                proof {
                    if !all_plain(before.leading()) {
                        let at = choose|at: int|
                            0 <= at < before.leading().len() && quotes_triple(
                                (#[trigger] before.leading()[at]).1,
                            );
                        assert(before.leading()[at] == input[input.len() - before.buffer.len()
                            + at]);
                    }
                }
                return Err(error);
            },
            Ok(PackerStep::NeedInput) => {},
            Ok(PackerStep::Finished) => {
                done = true;
            },
            Ok(PackerStep::Skipped(_)) => {
                proof {
                    lemma_tiles_skip(consumed, datasets@, before.skipped, before.buffer[0]);
                    assert(consumed.push(before.buffer[0]) =~= input.take(
                        input.len() - packer.buffer@.len(),
                    ));
                }
            },
            Ok(PackerStep::Probed) => {},
            Ok(PackerStep::Dataset(dataset)) => {
                proof {
                    let run = before.buffer.take(before.probe_count());
                    lemma_tiles_emit(consumed, datasets@, before.skipped, run, dataset);
                    assert(consumed + run =~= input.take(input.len() - packer.buffer@.len()));
                }
                let ghost made = datasets@;
                datasets.push(dataset);
                proof {
                    let entry = (before.probe_count(), before.skipped as int);
                    assert(packer@.drained() matches Ok((more, trailing)) ==> shape(made) + (
                    seq![entry] + more) =~= shape(datasets@) + more);
                }
            },
        }
    }
    proof {
        lemma_tiles_counts(input, datasets@, packer.skipped as nat);
    }
    Ok(PreparedDatasets { datasets, skipped_statements: packer.skipped })
}

} // verus!
