//! The packer: an ordered buffer of statements that is cut, front first,
//! into datasets that fit the byte cap.

use crate::convergence::{
    is_power_of_two, lemma_closed_search_is_logarithmic, lemma_search_is_logarithmic, log2, Probing,
};
use crate::prepare::reader::StatementBatch;
use crate::search::{
    lemma_retry_progress, BatchSearch, ProbeOutcome, Verdict, MAX_FILE_SIZE, NO_OVERFLOW,
};
use crate::serialize::{
    all_plain, first_quoting, quads_of, quotes_triple, serialize_statements, serialized, Encoded,
    SerializeError,
};
use std::collections::VecDeque;
use vstd::prelude::*;

verus! {

/// A serialized dataset that fits the byte cap.
#[derive(Debug)]
pub struct RDFBDataset {
    /// The container holding the statements.
    pub data: Vec<u8>,
    /// How many statements were serialized into `data`.
    pub statement_count: usize,
    /// How many statements were dropped since the previous dataset.
    pub skipped_statements: usize,
}

/// What one step of a packer came to.
#[derive(Debug)]
pub enum PackerStep {
    /// The packer needs statements: hand it a micro-batch, or close its input.
    NeedInput,
    /// The buffer is empty and the input is closed: the packer is done.
    Finished,
    /// The front statement, of this input index, is too large even alone
    /// and was dropped.
    Skipped(usize),
    /// A probe moved the search on; nothing left the buffer.
    Probed,
    /// The leading statements left the buffer as this dataset.
    Dataset(RDFBDataset),
}

/// A packer: an ordered buffer of statements and the search for the size of
/// the next dataset.
pub struct Packer {
    /// Statements not yet sent, in input order.
    pub buffer: VecDeque<(usize, oxrdf::Quad)>,
    /// The search for the size of the next dataset.
    pub search: BatchSearch,
    /// Statements dropped since the last dataset.
    pub skipped: usize,
    /// Whether the input may still deliver statements.
    pub have_more: bool,
}

/// The state of a packer as plain values.
pub struct PackerState {
    pub buffer: Seq<(usize, oxrdf::Quad)>,
    pub search: BatchSearch,
    pub skipped: nat,
    pub have_more: bool,
}

/// What a step does, without the bytes.
pub enum StepKind {
    NeedInput,
    Finished,
    Skipped,
    Probed,
    Dataset,
}

/// What probing `buffer` with the probe size `count` shows, where the
/// probe does not fail.
pub open spec fn probe_outcome(buffer: Seq<(usize, oxrdf::Quad)>, count: usize) -> ProbeOutcome {
    let probed = if count <= buffer.len() {
        count as int
    } else {
        buffer.len() as int
    };
    match serialized(quads_of(buffer.take(probed))) {
        Encoded::Bytes(bytes) => ProbeOutcome::Serialized(bytes.len() as usize),
        _ => ProbeOutcome::ContainerOverflow,
    }
}

impl PackerState {
    /// Whether the next step asks for input instead of probing.
    pub open spec fn wants_input(self) -> bool {
        self.have_more && self.buffer.len() < self.search.write_count
    }

    /// How many statements the next probe serializes.
    pub open spec fn probe_count(self) -> int {
        if self.search.write_count <= self.buffer.len() {
            self.search.write_count as int
        } else {
            self.buffer.len() as int
        }
    }

    /// The statements that the next probe serializes, with their indices.
    pub open spec fn leading(self) -> Seq<(usize, oxrdf::Quad)> {
        self.buffer.take(self.probe_count())
    }

    /// The statements that the next probe serializes.
    pub open spec fn probed(self) -> Seq<oxrdf::Quad> {
        quads_of(self.leading())
    }

    /// Whether the next step probes: it neither asks for input nor ends.
    pub open spec fn probes(self) -> bool {
        !self.wants_input() && self.buffer.len() > 0
    }

    /// Whether the next step fails: it probes, and a probed statement
    /// quotes a triple or the encoder fails other than by overflow.
    pub open spec fn fails(self) -> bool {
        self.probes() && (!all_plain(self.leading()) || serialized(self.probed()) is Failure)
    }

    /// What the next probe shows, where it does not fail.
    pub open spec fn outcome(self) -> ProbeOutcome {
        probe_outcome(self.buffer, self.search.write_count)
    }

    /// The verdict of the search on the next probe.
    pub open spec fn verdict(self) -> Verdict {
        self.search.verdict(self.outcome(), self.buffer.len() as usize, self.have_more)
    }

    /// Which kind of step comes next.
    pub open spec fn step_kind(self) -> StepKind {
        if self.wants_input() {
            StepKind::NeedInput
        } else if self.buffer.len() == 0 {
            StepKind::Finished
        } else {
            match self.verdict() {
                Verdict::Skip => StepKind::Skipped,
                Verdict::Retry => StepKind::Probed,
                Verdict::Emit => StepKind::Dataset,
            }
        }
    }

    /// The state after the next step.
    pub open spec fn stepped(self) -> PackerState {
        let search = self.search.next(self.outcome(), self.buffer.len() as usize, self.have_more);
        match self.step_kind() {
            StepKind::NeedInput | StepKind::Finished => self,
            StepKind::Skipped => PackerState {
                buffer: self.buffer.skip(1),
                skipped: self.skipped + 1,
                ..self
            },
            StepKind::Probed => PackerState { search, ..self },
            StepKind::Dataset => PackerState {
                buffer: self.buffer.skip(self.probe_count()),
                search,
                skipped: 0,
                ..self
            },
        }
    }
}

/// The number of statements and of skips of each dataset.
pub open spec fn shape(datasets: Seq<RDFBDataset>) -> Seq<(int, int)> {
    datasets.map_values(
        |dataset: RDFBDataset|
            (dataset.statement_count as int, dataset.skipped_statements as int),
    )
}

/// Why a step fails.
pub enum StepFailure {
    /// The probed statement with this input index is the first that quotes
    /// a triple.
    QuotedTriple(usize),
    /// The encoder failed other than by overflow.
    Encoder,
}

/// The input index of the first of `statements` that quotes a triple.
pub open spec fn first_quoted(statements: Seq<(usize, oxrdf::Quad)>) -> usize {
    statements[choose|at: int| first_quoting(statements, at)].0
}

/// Whether the error of a step tells this failure.
pub open spec fn tells(error: SerializeError, failure: StepFailure) -> bool {
    match error {
        SerializeError::QuotedTriple(index) => failure == StepFailure::QuotedTriple(index),
        SerializeError::Failed(_) => failure is Encoder,
        SerializeError::ContainerOverflow => false,
    }
}

/// The datasets of `rest`, if it has not failed, after those of `done`.
pub open spec fn after(
    done: Seq<(int, int)>,
    rest: Result<(Seq<(int, int)>, int), StepFailure>,
) -> Result<(Seq<(int, int)>, int), StepFailure> {
    match rest {
        Ok((more, trailing)) => Ok((done + more, trailing)),
        Err(failure) => Err(failure),
    }
}

/// Only one statement is the first that quotes a triple.
pub proof fn lemma_first_quoting_is_one(statements: Seq<(usize, oxrdf::Quad)>, at: int)
    requires
        first_quoting(statements, at),
    ensures
        first_quoted(statements) == statements[at].0,
{
}

impl PackerState {
    /// Why the next step fails, where it does.
    pub open spec fn failure(self) -> StepFailure {
        if all_plain(self.leading()) {
            StepFailure::Encoder
        } else {
            StepFailure::QuotedTriple(first_quoted(self.leading()))
        }
    }

    /// What step after step comes to once the input is closed: the number
    /// of statements and of skips of each dataset, in order, and the number
    /// of statements dropped after the last one; or why the first step
    /// that fails does so.
    pub open spec fn drained(self) -> Result<(Seq<(int, int)>, int), StepFailure>
        decreases
                self.buffer.len(),
                self.search.lowest_overflow,
                self.search.lowest_overflow - self.search.write_count,
        when self.search.wf() && !self.have_more && self.buffer.len() <= usize::MAX
    {
        if self.buffer.len() == 0 {
            Ok((Seq::empty(), self.skipped as int))
        } else if self.fails() {
            Err(self.failure())
        } else {
            proof {
                if self.step_kind() is Probed {
                    lemma_retry_progress(
                        self.search,
                        self.outcome(),
                        self.buffer.len() as usize,
                        self.have_more,
                    );
                }
            }
            match self.step_kind() {
                StepKind::Dataset => after(
                    seq![(self.probe_count(), self.skipped as int)],
                    self.stepped().drained(),
                ),
                _ => self.stepped().drained(),
            }
        }
    }
}

impl PackerState {
    /// What stays the same from probe to probe while nothing enters or
    /// leaves the buffer.
    pub open spec fn probing(self) -> Probing {
        Probing {
            outcome: |count: usize| probe_outcome(self.buffer, count),
            buffer_len: self.buffer.len() as usize,
            have_more: self.have_more,
        }
    }

    /// Whether within `limit` steps a step fails or does more than probe.
    pub open spec fn acts_within(self, limit: nat) -> bool
        decreases limit,
    {
        limit > 0 && (self.step_kind() is Probed && !self.fails() ==> self.stepped().acts_within(
            (limit - 1) as nat,
        ))
    }
}

/// A packer probes as its search does: where the search settles within a
/// number of probes, the packer acts within as many steps.
pub proof fn lemma_packer_acts_as_search_settles(state: PackerState, limit: nat)
    requires
        state.probes(),
        state.buffer.len() <= usize::MAX,
        state.probing().settles_within(state.search, limit),
    ensures
        state.acts_within(limit),
    decreases limit,
{
    if state.step_kind() is Probed && !state.fails() {
        let next = state.stepped();
        assert(next.probing().settles_within(next.search, (limit - 1) as nat));
        if next.probes() {
            lemma_packer_acts_as_search_settles(next, (limit - 1) as nat);
        } else {
            assert(next.acts_within((limit - 1) as nat));
        }
    }
}

/// The number of probes for one dataset is logarithmic in the size that
/// the search reaches, with the input open or closed. Where no probe of a
/// size from `limit` on leaves room to grow, a packer whose search starts
/// over with the step `delta` comes within `log2(delta) + 2 * log2(limit)
/// + 5` steps to a step that does more than probe, or fails.
pub proof fn lemma_packer_acts_in_logarithmic_time(state: PackerState, limit: int)
    requires
        state.search.wf(),
        state.search.write_count == 1,
        state.search.lowest_overflow == NO_OVERFLOW,
        is_power_of_two(state.search.delta as int),
        state.search.delta <= usize::MAX / 8,
        1 <= state.buffer.len() <= usize::MAX,
        1 <= limit <= usize::MAX / 8,
        state.probing().full_from(state.search.max_bytes, limit),
    ensures
        state.acts_within(log2(state.search.delta as int) + 2 * log2(limit) + 5),
{
    lemma_search_is_logarithmic(state.probing(), state.search, limit);
    lemma_packer_acts_as_search_settles(
        state,
        log2(state.search.delta as int) + 2 * log2(limit) + 5,
    );
}

/// A packer whose input is closed and whose search starts over with the
/// step `delta` comes, on `len` statements, within `log2(delta) + 2 *
/// log2(len) + 5` steps to a step that sends a dataset, drops a statement
/// or fails.
pub proof fn lemma_closed_packer_acts_in_logarithmic_time(state: PackerState)
    requires
        state.search.wf(),
        state.search.write_count == 1,
        state.search.lowest_overflow == NO_OVERFLOW,
        is_power_of_two(state.search.delta as int),
        state.search.delta <= usize::MAX / 8,
        !state.have_more,
        1 <= state.buffer.len() <= usize::MAX / 8,
    ensures
        state.acts_within(
            log2(state.search.delta as int) + 2 * log2(state.buffer.len() as int) + 5,
        ),
{
    lemma_closed_search_is_logarithmic(state.probing(), state.search);
    lemma_packer_acts_as_search_settles(
        state,
        log2(state.search.delta as int) + 2 * log2(state.buffer.len() as int) + 5,
    );
}

/// The probing of a packer that draws its input from `stream`: every
/// probe shows what the first statements of the stream serialize to. While
/// the input is open a probe of all that the stream holds may still ask for
/// more, so the stream counts for one statement more than it holds.
pub open spec fn stream_probing(stream: Seq<(usize, oxrdf::Quad)>) -> Probing {
    Probing {
        outcome: |count: usize| probe_outcome(stream, count),
        buffer_len: (stream.len() + 1) as usize,
        have_more: false,
    }
}

impl PackerState {
    /// Whether the packer draws its input from `stream`: its buffer holds
    /// the first statements of `stream`, and all of them once the input is
    /// closed.
    pub open spec fn drawn_from(self, stream: Seq<(usize, oxrdf::Quad)>) -> bool {
        &&& stream.len() < usize::MAX
        &&& self.buffer.len() <= stream.len()
        &&& stream.take(self.buffer.len() as int) == self.buffer
        &&& !self.have_more ==> self.buffer.len() == stream.len()
    }

    /// Whether `later` is this packer after its input went on: it was
    /// given more of `stream`, or the input was closed, and it can probe
    /// again.
    pub open spec fn refilled_to(self, later: PackerState, stream: Seq<(usize, oxrdf::Quad)>)
        -> bool {
        &&& later.search == self.search
        &&& later.skipped == self.skipped
        &&& later.buffer.len() >= self.buffer.len()
        &&& later.drawn_from(stream)
        &&& later.probes()
    }

    /// Whether a packer that draws from `stream` comes within `limit`
    /// probes to a step that does more than probe, or fails, however much
    /// of the stream it is given between one probe and the next and
    /// whenever its input is closed.
    pub open spec fn fed_acts_within(self, stream: Seq<(usize, oxrdf::Quad)>, limit: nat) -> bool
        decreases limit,
    {
        limit > 0 && (self.step_kind() is Probed && !self.fails() ==> forall|later: PackerState|
            #[trigger] self.stepped().refilled_to(later, stream) ==> later.fed_acts_within(
                stream,
                (limit - 1) as nat,
            ))
    }
}

/// A packer that draws from a stream probes as a search over the stream
/// does: its probe shows what the stream's shows, and where the packer goes
/// on probing, so does the search over the stream, with the same search
/// after it. This holds whatever part of the stream the buffer holds, and
/// with the input open or closed.
pub proof fn lemma_fed_packer_probes_the_stream(
    state: PackerState,
    stream: Seq<(usize, oxrdf::Quad)>,
)
    requires
        state.drawn_from(stream),
        state.probes(),
    ensures
        state.outcome() == (stream_probing(stream).outcome)(state.search.write_count),
        state.step_kind() is Probed ==> stream_probing(stream).verdict(state.search)
            == Verdict::Retry && state.stepped().search == stream_probing(stream).next(
            state.search,
        ),
{
    let count = state.probe_count();
    assert(stream.take(count) =~= state.buffer.take(count));
}

/// Where a search over a stream settles within a number of probes, a
/// packer that draws from the stream acts within as many probes, however
/// it is refilled and whenever its input is closed.
pub proof fn lemma_fed_packer_acts_as_search_settles(
    state: PackerState,
    stream: Seq<(usize, oxrdf::Quad)>,
    limit: nat,
)
    requires
        state.drawn_from(stream),
        state.probes(),
        stream_probing(stream).settles_within(state.search, limit),
    ensures
        state.fed_acts_within(stream, limit),
    decreases limit,
{
    lemma_fed_packer_probes_the_stream(state, stream);
    if state.step_kind() is Probed && !state.fails() {
        assert forall|later: PackerState| #[trigger]
            state.stepped().refilled_to(later, stream) implies later.fed_acts_within(
            stream,
            (limit - 1) as nat,
        ) by {
            lemma_fed_packer_acts_as_search_settles(later, stream, (limit - 1) as nat);
        }
    }
}

/// The number of probes for one dataset is logarithmic in the size that
/// the search reaches, with the input open, closed, or closed on the way.
/// Where no probe of the stream of a size from `limit` on leaves room to
/// grow, a packer that draws from the stream and whose search starts over
/// with the step `delta` comes within `log2(delta) + 2 * log2(limit) + 5`
/// probes to a step that sends a dataset or drops a statement, or fails.
pub proof fn lemma_fed_packer_acts_in_logarithmic_time(
    state: PackerState,
    stream: Seq<(usize, oxrdf::Quad)>,
    limit: int,
)
    requires
        state.drawn_from(stream),
        state.probes(),
        state.search.wf(),
        state.search.write_count == 1,
        state.search.lowest_overflow == NO_OVERFLOW,
        is_power_of_two(state.search.delta as int),
        state.search.delta <= usize::MAX / 8,
        1 <= limit <= usize::MAX / 8,
        stream_probing(stream).full_from(state.search.max_bytes, limit),
    ensures
        state.fed_acts_within(stream, log2(state.search.delta as int) + 2 * log2(limit) + 5),
{
    lemma_search_is_logarithmic(stream_probing(stream), state.search, limit);
    lemma_fed_packer_acts_as_search_settles(
        state,
        stream,
        log2(state.search.delta as int) + 2 * log2(limit) + 5,
    );
}

/// Such a limit is always at hand: one more than the number of statements
/// of the stream. So the probes for one dataset are at most `log2(delta) +
/// 2 * log2(len + 1) + 5` on a stream of `len` statements.
pub proof fn lemma_fed_packer_acts_in_time_logarithmic_in_the_stream(
    state: PackerState,
    stream: Seq<(usize, oxrdf::Quad)>,
)
    requires
        state.drawn_from(stream),
        state.probes(),
        state.search.wf(),
        state.search.write_count == 1,
        state.search.lowest_overflow == NO_OVERFLOW,
        is_power_of_two(state.search.delta as int),
        state.search.delta <= usize::MAX / 8,
        stream.len() + 1 <= usize::MAX / 8,
    ensures
        state.fed_acts_within(
            stream,
            log2(state.search.delta as int) + 2 * log2(stream.len() as int + 1) + 5,
        ),
{
    lemma_fed_packer_acts_in_logarithmic_time(state, stream, stream.len() as int + 1);
}

/// A step takes statements from the front of the buffer only and leaves
/// the rest as they were: a skip takes the first, a dataset takes those that
/// were probed, and any other step takes none.
pub proof fn lemma_step_takes_the_front(before: PackerState)
    requires
        before.search.write_count >= 1,
    ensures
        match before.step_kind() {
            StepKind::Skipped => before.buffer == before.buffer.take(1)
                + before.stepped().buffer,
            StepKind::Dataset => before.buffer == before.leading() + before.stepped().buffer,
            _ => before.buffer == before.stepped().buffer,
        },
        before.stepped().have_more == before.have_more,
{
}

impl PackerStep {
    /// The kind of this step.
    pub open spec fn kind(self) -> StepKind {
        match self {
            PackerStep::NeedInput => StepKind::NeedInput,
            PackerStep::Finished => StepKind::Finished,
            PackerStep::Skipped(_) => StepKind::Skipped,
            PackerStep::Probed => StepKind::Probed,
            PackerStep::Dataset(_) => StepKind::Dataset,
        }
    }

    /// Whether this step is what `before` must come to: a skip names the
    /// front statement, and a dataset holds the serialized leading
    /// statements, their number, and the skips that went before.
    pub open spec fn follows(self, before: PackerState) -> bool {
        &&& self.kind() == before.step_kind()
        &&& self matches PackerStep::Skipped(index) ==> index == before.buffer[0].0
        &&& self matches PackerStep::Dataset(dataset) ==> {
            &&& serialized(before.probed()) == Encoded::Bytes(dataset.data@)
            &&& dataset.data@.len() <= before.search.max_bytes
            &&& dataset.statement_count == before.probe_count()
            &&& dataset.statement_count >= 1
            &&& dataset.skipped_statements == before.skipped
        }
    }
}

impl View for Packer {
    type V = PackerState;

    open spec fn view(&self) -> PackerState {
        PackerState {
            buffer: self.buffer@,
            search: self.search,
            skipped: self.skipped as nat,
            have_more: self.have_more,
        }
    }
}

impl Packer {
    /// The invariant of a packer: its search is well formed, and the
    /// statements it holds and has dropped can be counted.
    pub open spec fn wf(self) -> bool {
        &&& self.search.wf()
        &&& self.skipped + self.buffer@.len() <= usize::MAX
    }

    /// A packer with an empty buffer, open input and the cap `MAX_FILE_SIZE`.
    pub fn new() -> (packer: Packer)
        ensures
            packer.wf(),
            packer@.buffer.len() == 0,
            packer@.search == BatchSearch::initial(MAX_FILE_SIZE),
            packer@.skipped == 0,
            packer@.have_more,
    {
        Packer {
            buffer: VecDeque::new(),
            search: BatchSearch::new(MAX_FILE_SIZE),
            skipped: 0,
            have_more: true,
        }
    }

    /// Whether the packer must be given input before it can go on.
    pub fn wants_input(&self) -> (r: bool)
        ensures
            r == self@.wants_input(),
    {
        self.have_more && self.buffer.len() < self.search.write_count
    }

    /// Appends the statements of a micro-batch to the buffer, in order.
    pub fn extend(&mut self, batch: StatementBatch)
        requires
            old(self).wf(),
            old(self).skipped + old(self).buffer@.len() + batch.quads@.len() <= usize::MAX,
        ensures
            final(self).wf(),
            final(self)@ == (PackerState { buffer: old(self)@.buffer + batch.quads@, ..old(self)@ }),
    {
        let ghost quads = batch.quads@;
        for statement in it: batch.quads
            invariant
                it.seq() == quads,
                self.buffer@ == old(self).buffer@ + quads.take(it.index() as int),
                self.search == old(self).search,
                self.skipped == old(self).skipped,
                self.have_more == old(self).have_more,
        {
            self.buffer.push_back(statement);
        }
        assert(quads.take(quads.len() as int) =~= quads);
    }

    /// Records that the input is closed: no more statements will come.
    pub fn close_input(&mut self)
        ensures
            final(self)@ == (PackerState { have_more: false, ..old(self)@ }),
            old(self).wf() ==> final(self).wf(),
    {
        self.have_more = false;
    }

    /// Takes one step: asks for input, ends, or probes the leading
    /// statements and acts on the verdict of the search.
    ///
    /// A probe fails where one of the probed statements quotes a triple,
    /// and the error names the first of them. It fails too where the
    /// encoder took in every probed statement and then failed to finish the
    /// container with an error that is not an overflow. The packer is then
    /// unchanged.
    pub fn step(&mut self) -> (r: Result<PackerStep, SerializeError>)
        requires
            old(self).wf(),
        ensures
            final(self).wf(),
            r is Err <==> old(self)@.fails(),
            match r {
                Ok(step) => step.follows(old(self)@) && final(self)@ == old(self)@.stepped(),
                Err(error) => final(self)@ == old(self)@ && tells(error, old(self)@.failure()),
            },
    {
        if self.wants_input() {
            return Ok(PackerStep::NeedInput);
        }
        if self.buffer.len() == 0 {
            return Ok(PackerStep::Finished);
        }
        let buffer_len = self.buffer.len();
        let count = self.search.statements_to_probe(buffer_len);
        let (outcome, data) = match serialize_statements(&self.buffer, count) {
            Ok(data) => (ProbeOutcome::Serialized(data.len()), Some(data)),
            Err(SerializeError::ContainerOverflow) => (ProbeOutcome::ContainerOverflow, None),
            Err(error) => {
                proof {
                    if let SerializeError::QuotedTriple(index) = error {
                        let at = choose|at: int|
                            first_quoting(self@.leading(), at) && index
                                == (#[trigger] self.buffer@[at]).0;
                        lemma_first_quoting_is_one(self@.leading(), at);
                    }
                }
                return Err(error);
            },
        };
        match self.search.advance(outcome, buffer_len, self.have_more) {
            Verdict::Skip => {
                let front = self.buffer.pop_front();
                self.skipped = self.skipped + 1;
                Ok(PackerStep::Skipped(front.unwrap().0))
            },
            Verdict::Retry => Ok(PackerStep::Probed),
            Verdict::Emit => {
                let rest = self.buffer.split_off(count);
                self.buffer = rest;
                let skipped_statements = self.skipped;
                self.skipped = 0;
                Ok(
                    PackerStep::Dataset(
                        RDFBDataset { data: data.unwrap(), statement_count: count, skipped_statements },
                    ),
                )
            },
        }
    }
}

} // verus!
