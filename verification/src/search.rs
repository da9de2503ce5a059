//! The adaptive batch-size search.
//!
//! The serialized size of a batch is not monotonic in the number of
//! statements, so the search cannot bisect. It grows the probe size
//! geometrically until a probe is too large, then closes in on the largest
//! size below the least size known to be too large.

use vstd::prelude::*;

verus! {

/// The most bytes a serialized batch may have: 1.5 MiB less 1 KiB, which
/// leaves room for the header that publication puts in front of a batch.
pub const MAX_FILE_SIZE: usize = 1_571_840;

/// Value of `lowest_overflow` while no probe of the current search was too large.
pub const NO_OVERFLOW: usize = usize::MAX;

/// What serializing the first statements of the buffer gave.
#[derive(Clone, Copy, Debug, PartialEq, Eq, Structural)]
pub enum ProbeOutcome {
    /// The container's term dictionary could not hold the statements.
    ContainerOverflow,
    /// The statements were serialized into this many bytes.
    Serialized(usize),
}

/// What to do after a probe.
#[derive(Clone, Copy, Debug, PartialEq, Eq, Structural)]
pub enum Verdict {
    /// The single front statement cannot be published: drop it.
    Skip,
    /// Probe again with the updated `write_count`.
    Retry,
    /// Send the probed bytes as one batch.
    Emit,
}

/// State of the search for one batch.
#[derive(Clone, Copy, Debug, PartialEq, Eq, Structural)]
pub struct BatchSearch {
    /// The byte cap that no batch may exceed.
    pub max_bytes: usize,
    /// How many statements the next probe serializes.
    pub write_count: usize,
    /// Magnitude of the last change of `write_count`.
    pub delta: usize,
    /// Least `write_count` whose probe was too large, or `NO_OVERFLOW`.
    pub lowest_overflow: usize,
    /// Largest size in bytes of a probe that fit, 0 if none did yet.
    pub best_len: usize,
}

/// A size is under the fill target while it is below 95% of the cap.
pub open spec fn under_target(len: int, max_bytes: int) -> bool {
    len * 20 < max_bytes * 19
}

/// `delta` shifted left by one bit, the top bit falling off.
pub open spec fn doubled(delta: int) -> int {
    if 2 * delta <= usize::MAX {
        2 * delta
    } else {
        2 * delta - usize::MAX - 1
    }
}

/// `delta` halved until it is below `room`.
pub open spec fn halved_below(delta: int, room: int) -> int
    decreases delta,
{
    if delta > 0 && delta >= room {
        halved_below(delta / 2, room)
    } else {
        delta
    }
}

impl ProbeOutcome {
    /// Whether the probe counts as an overflow under the cap `max_bytes`.
    pub open spec fn too_large(self, max_bytes: usize) -> bool {
        match self {
            ProbeOutcome::ContainerOverflow => true,
            ProbeOutcome::Serialized(len) => len > max_bytes,
        }
    }
}

impl BatchSearch {
    /// The invariant of the search: the probe size is positive and below
    /// every size known to be too large, and a step never exceeds the size
    /// it led to.
    pub open spec fn wf(self) -> bool {
        &&& 1 <= self.write_count < self.lowest_overflow
        &&& 1 <= self.delta
        &&& self.write_count == 1 || self.delta < self.write_count
    }

    /// The state in which every search begins.
    pub open spec fn initial(max_bytes: usize) -> BatchSearch {
        BatchSearch {
            max_bytes,
            write_count: 1,
            delta: 1,
            lowest_overflow: NO_OVERFLOW,
            best_len: 0,
        }
    }

    /// How many statements a probe serializes when the buffer holds `buffer_len`.
    pub open spec fn probe_count(self, buffer_len: usize) -> usize {
        if self.write_count <= buffer_len {
            self.write_count
        } else {
            buffer_len
        }
    }

    /// The state after a batch was sent: `delta` is kept, the rest starts over.
    pub open spec fn restarted(self) -> BatchSearch {
        BatchSearch { write_count: 1, lowest_overflow: NO_OVERFLOW, best_len: 0, ..self }
    }

    /// The state after a probe of more than one statement was too large.
    pub open spec fn backed_off(self) -> BatchSearch {
        let lowest: usize = if self.write_count < self.lowest_overflow {
            self.write_count
        } else {
            self.lowest_overflow
        };
        if self.delta == 1 {
            BatchSearch {
                write_count: (lowest - 2 + 1) as usize,
                lowest_overflow: lowest,
                ..self
            }
        } else {
            let delta: usize = if self.delta / 2 >= 1 {
                self.delta / 2
            } else {
                1
            };
            BatchSearch {
                write_count: (self.write_count - self.delta + delta) as usize,
                delta,
                lowest_overflow: lowest,
                ..self
            }
        }
    }

    /// The state after a probe of `len` bytes fit with room to grow.
    pub open spec fn grown(self, len: usize) -> BatchSearch {
        let shrunk = halved_below(
            doubled(self.delta as int),
            self.lowest_overflow - self.write_count,
        );
        let delta: usize = if shrunk >= 1 {
            shrunk as usize
        } else {
            1
        };
        BatchSearch {
            write_count: (self.write_count + delta) as usize,
            delta,
            best_len: if len > self.best_len {
                len
            } else {
                self.best_len
            },
            ..self
        }
    }

    /// Whether a probe of `len` bytes that fit leaves room to try for more:
    /// it is under the fill target, its size is not the best seen so far,
    /// and there are statements beyond those probed.
    pub open spec fn has_headroom(self, len: usize, buffer_len: usize, have_more: bool) -> bool {
        &&& under_target(len as int, self.max_bytes as int)
        &&& len != self.best_len
        &&& (buffer_len > self.write_count || have_more)
    }

    /// Whether growing has brought the probe size next to the least overflow.
    pub open spec fn at_ceiling(self) -> bool {
        self.write_count + 1 >= self.lowest_overflow
    }

    /// The verdict on a probe.
    pub open spec fn verdict(self, outcome: ProbeOutcome, buffer_len: usize, have_more: bool)
        -> Verdict {
        match outcome {
            ProbeOutcome::Serialized(len) if len <= self.max_bytes => {
                if self.has_headroom(len, buffer_len, have_more) && !self.grown(len).at_ceiling() {
                    Verdict::Retry
                } else {
                    Verdict::Emit
                }
            },
            _ => {
                if self.probe_count(buffer_len) == 1 {
                    Verdict::Skip
                } else {
                    Verdict::Retry
                }
            },
        }
    }

    /// The state after a probe.
    pub open spec fn next(self, outcome: ProbeOutcome, buffer_len: usize, have_more: bool)
        -> BatchSearch {
        match outcome {
            ProbeOutcome::Serialized(len) if len <= self.max_bytes => {
                if self.has_headroom(len, buffer_len, have_more) {
                    if self.grown(len).at_ceiling() {
                        self.grown(len).restarted()
                    } else {
                        self.grown(len)
                    }
                } else {
                    self.restarted()
                }
            },
            _ => {
                if self.probe_count(buffer_len) == 1 {
                    self
                } else {
                    self.backed_off()
                }
            },
        }
    }

    /// Begins a search under the cap `max_bytes`.
    pub fn new(max_bytes: usize) -> (search: BatchSearch)
        ensures
            search == BatchSearch::initial(max_bytes),
            search.wf(),
    {
        BatchSearch {
            max_bytes,
            write_count: 1,
            delta: 1,
            lowest_overflow: NO_OVERFLOW,
            best_len: 0,
        }
    }

    /// The number of statements to serialize for the next probe.
    pub fn statements_to_probe(&self, buffer_len: usize) -> (n: usize)
        ensures
            n == self.probe_count(buffer_len),
    {
        if self.write_count <= buffer_len {
            self.write_count
        } else {
            buffer_len
        }
    }

    /// Takes in the outcome of probing the first `probe_count(buffer_len)`
    /// statements of a buffer of `buffer_len`, where `have_more` says whether
    /// more statements may still arrive.
    pub fn advance(&mut self, outcome: ProbeOutcome, buffer_len: usize, have_more: bool) -> (verdict:
        Verdict)
        requires
            old(self).wf(),
            buffer_len >= 1,
        ensures
            verdict == old(self).verdict(outcome, buffer_len, have_more),
            *final(self) == old(self).next(outcome, buffer_len, have_more),
            final(self).wf(),
    {
        let fits = match outcome {
            ProbeOutcome::ContainerOverflow => None,
            ProbeOutcome::Serialized(len) => if len <= self.max_bytes {
                Some(len)
            } else {
                None
            },
        };
        match fits {
            None => {
                if self.statements_to_probe(buffer_len) == 1 {
                    return Verdict::Skip;
                }
                self.back_off();
                Verdict::Retry
            },
            Some(len) => {
                if under_fill_target(len, self.max_bytes) && len != self.best_len && (buffer_len
                    > self.write_count || have_more) {
                    self.grow(len);
                    if self.write_count < self.lowest_overflow - 1 {
                        return Verdict::Retry;
                    }
                }
                self.restart();
                Verdict::Emit
            },
        }
    }

    fn restart(&mut self)
        ensures
            *final(self) == old(self).restarted(),
    {
        self.write_count = 1;
        self.lowest_overflow = NO_OVERFLOW;
        self.best_len = 0;
    }

    fn back_off(&mut self)
        requires
            old(self).wf(),
            old(self).write_count >= 2,
        ensures
            *final(self) == old(self).backed_off(),
            final(self).wf(),
            final(self).lowest_overflow == old(self).write_count,
    {
        if self.write_count < self.lowest_overflow {
            self.lowest_overflow = self.write_count;
        }
        self.write_count = self.write_count - self.delta;
        if self.delta == 1 {
            self.write_count = self.lowest_overflow - 2;
        } else {
            self.delta = self.delta / 2;
        }
        if self.delta < 1 {
            self.delta = 1;
        }
        self.write_count = self.write_count + self.delta;
    }

    fn grow(&mut self, len: usize)
        requires
            old(self).wf(),
        ensures
            *final(self) == old(self).grown(len),
            final(self).write_count > old(self).write_count,
            final(self).write_count <= final(self).lowest_overflow,
            final(self).delta < final(self).write_count,
            final(self).delta >= 1,
    {
        if len > self.best_len {
            self.best_len = len;
        }
        let start: usize = if self.delta <= usize::MAX / 2 {
            self.delta * 2
        } else {
            (self.delta - usize::MAX / 2 - 1) * 2
        };
        let room: usize = self.lowest_overflow - self.write_count;
        let mut delta: usize = start;
        while delta >= room
            invariant
                room >= 1,
                halved_below(delta as int, room as int) == halved_below(start as int, room as int),
            decreases delta,
        {
            delta = delta / 2;
        }
        if delta < 1 {
            delta = 1;
        }
        self.delta = delta;
        self.write_count = self.write_count + delta;
    }
}

/// A probe answered with `Retry` brings the search closer to its end: it
/// lowers the least size known to be too large or, leaving that as it is,
/// raises the probe size, which stays below it. So no search probes forever,
/// whatever the sizes that the probes show.
pub proof fn lemma_retry_progress(
    search: BatchSearch,
    outcome: ProbeOutcome,
    buffer_len: usize,
    have_more: bool,
)
    requires
        search.wf(),
        buffer_len >= 1,
        search.verdict(outcome, buffer_len, have_more) == Verdict::Retry,
    ensures
        ({
            let next = search.next(outcome, buffer_len, have_more);
            &&& next.wf()
            &&& next.lowest_overflow < search.lowest_overflow || (next.lowest_overflow
                == search.lowest_overflow && next.write_count > search.write_count)
        }),
{
    if !outcome.too_large(search.max_bytes) {
        lemma_halved_below(doubled(search.delta as int), search.lowest_overflow - search.write_count);
    }
}

/// Halving ends below the room, or at zero.
pub proof fn lemma_halved_below(delta: int, room: int)
    requires
        0 <= delta,
        1 <= room,
    ensures
        0 <= halved_below(delta, room) < room,
        halved_below(delta, room) <= delta,
    decreases delta,
{
    if delta > 0 && delta >= room {
        lemma_halved_below(delta / 2, room);
    }
}

/// Only bytes that fit the cap are sent: a probe is answered with `Emit`
/// only if it was serialized into at most `max_bytes` bytes.
pub proof fn lemma_emit_fits(
    search: BatchSearch,
    outcome: ProbeOutcome,
    buffer_len: usize,
    have_more: bool,
)
    requires
        search.verdict(outcome, buffer_len, have_more) == Verdict::Emit,
    ensures
        outcome matches ProbeOutcome::Serialized(len) && len <= search.max_bytes,
{
}

/// A statement is dropped only when it was probed alone and was too large.
pub proof fn lemma_skip_is_single(
    search: BatchSearch,
    outcome: ProbeOutcome,
    buffer_len: usize,
    have_more: bool,
)
    ensures
        search.verdict(outcome, buffer_len, have_more) == Verdict::Skip <==> (outcome.too_large(
            search.max_bytes,
        ) && search.probe_count(buffer_len) == 1),
{
}

/// While nothing stands in the way the search grows geometrically: a probe
/// with headroom doubles the step if twice the step still fits below the
/// least size known to be too large.
pub proof fn lemma_growth_doubles(search: BatchSearch, len: usize)
    requires
        search.wf(),
        2 * search.delta < search.lowest_overflow - search.write_count,
    ensures
        search.grown(len).delta == 2 * search.delta,
        search.grown(len).write_count == search.write_count + 2 * search.delta,
{
    assert(halved_below(2 * search.delta, search.lowest_overflow - search.write_count) == 2
        * search.delta);
}

/// Below a size known to be too large the search closes in geometrically
/// from below as well: where the doubled step does not fit into the room
/// that is left up to that size, the step taken leaves at most half of the
/// room, rounded up.
pub proof fn lemma_growth_halves_room(search: BatchSearch, len: usize)
    requires
        search.wf(),
        doubled(search.delta as int) >= search.lowest_overflow - search.write_count,
    ensures
        2 * (search.grown(len).lowest_overflow - search.grown(len).write_count) <= (
        search.lowest_overflow - search.write_count) + 1,
{
    lemma_halving_keeps_half(
        doubled(search.delta as int),
        search.lowest_overflow - search.write_count,
    );
    lemma_halved_below(doubled(search.delta as int), search.lowest_overflow - search.write_count);
}

/// Halving a step that does not fit into the room ends at no less than
/// half of the room, rounded down.
pub proof fn lemma_halving_keeps_half(delta: int, room: int)
    requires
        1 <= room <= delta,
    ensures
        2 * halved_below(delta, room) + 1 >= room,
    decreases delta,
{
    if delta / 2 >= room {
        lemma_halving_keeps_half(delta / 2, room);
    } else {
        assert(halved_below(delta / 2, room) == delta / 2);
    }
}

/// After a probe that was too large the search closes in geometrically:
/// the step is halved, down to one.
pub proof fn lemma_back_off_halves(search: BatchSearch)
    requires
        search.wf(),
        search.write_count >= 2,
    ensures
        search.backed_off().lowest_overflow == search.write_count,
        search.backed_off().write_count < search.write_count,
        search.delta >= 2 ==> search.backed_off().delta == search.delta / 2,
        search.delta == 1 ==> search.backed_off().write_count == search.write_count - 1,
{
}

/// Whether `len` bytes are under the fill target of the cap `max_bytes`.
pub fn under_fill_target(len: usize, max_bytes: usize) -> (r: bool)
    ensures
        r == under_target(len as int, max_bytes as int),
{
    (len as u128) * 20 < (max_bytes as u128) * 19
}

} // verus!
