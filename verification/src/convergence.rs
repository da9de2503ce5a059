//! How many probes a search takes.
//!
//! A search ends whatever the probes show, but how soon depends on them.
//! Where the same statements always serialize to the same outcome, the
//! search grows its step geometrically up to the first probe that is too
//! large and halves it from there on. So the number of probes is
//! logarithmic in the size from which no probe leaves room to grow, be the
//! input open or closed.

use crate::search::{
    doubled, halved_below, lemma_halved_below, lemma_retry_progress, under_target, BatchSearch,
    ProbeOutcome, Verdict, NO_OVERFLOW,
};
use vstd::prelude::*;

verus! {

/// What stays the same while one search goes on: the outcome of a probe at
/// each probe size, the number of statements in the buffer, and whether
/// more may come.
pub struct Probing {
    pub outcome: spec_fn(usize) -> ProbeOutcome,
    pub buffer_len: usize,
    pub have_more: bool,
}

/// Whether `n` is a power of two.
pub open spec fn is_power_of_two(n: int) -> bool
    decreases n,
{
    if n <= 1 {
        n == 1
    } else {
        n % 2 == 0 && is_power_of_two(n / 2)
    }
}

/// The logarithm of `n` to the base two, rounded down; 0 below two.
pub open spec fn log2(n: int) -> nat
    decreases n,
{
    if n <= 1 {
        0
    } else {
        1 + log2(n / 2)
    }
}

impl Probing {
    /// The verdict on the next probe of `search`.
    pub open spec fn verdict(self, search: BatchSearch) -> Verdict {
        search.verdict((self.outcome)(search.write_count), self.buffer_len, self.have_more)
    }

    /// The search after its next probe.
    pub open spec fn next(self, search: BatchSearch) -> BatchSearch {
        search.next((self.outcome)(search.write_count), self.buffer_len, self.have_more)
    }

    /// Whether a probe of the size `count` fits the cap of `search`.
    pub open spec fn fits(self, search: BatchSearch, count: int) -> bool {
        &&& 1 <= count <= usize::MAX
        &&& !(self.outcome)(count as usize).too_large(search.max_bytes)
    }

    /// Whether `search` comes to a probe that is sent or dropped within
    /// `limit` probes.
    pub open spec fn settles_within(self, search: BatchSearch, limit: nat) -> bool
        decreases limit,
    {
        limit > 0 && (self.verdict(search) == Verdict::Retry ==> self.settles_within(
            self.next(search),
            (limit - 1) as nat,
        ))
    }

    /// The search is closing in: its step is a power of two and equals the
    /// room up to the least size known to be too large, and the size one
    /// step below the probe size fits.
    pub open spec fn closing_in(self, search: BatchSearch) -> bool {
        &&& search.wf()
        &&& self.buffer_len >= 1
        &&& is_power_of_two(search.delta as int)
        &&& search.lowest_overflow - search.write_count == search.delta
        &&& self.fits(search, search.write_count - search.delta)
    }
}

/// A search that settles within a number of probes settles within any
/// greater number.
pub proof fn lemma_settles_within_more(
    probing: Probing,
    search: BatchSearch,
    limit: nat,
    more: nat,
)
    requires
        probing.settles_within(search, limit),
        limit <= more,
    ensures
        probing.settles_within(search, more),
    decreases limit,
{
    if probing.verdict(search) == Verdict::Retry {
        lemma_settles_within_more(
            probing,
            probing.next(search),
            (limit - 1) as nat,
            (more - 1) as nat,
        );
    }
}

/// Twice a step, halved until it is below the step, is half the step.
proof fn lemma_halved_to_half(delta: int)
    requires
        1 <= delta,
    ensures
        halved_below(2 * delta, delta) == delta / 2,
{
    assert(halved_below(delta, delta) == halved_below(delta / 2, delta));
}

/// A search that is closing in with the step `delta` settles within
/// `log2(delta) + 3` probes: every probe but the last halves the step.
pub proof fn lemma_closing_in_settles(probing: Probing, search: BatchSearch)
    requires
        probing.closing_in(search),
    ensures
        probing.settles_within(search, log2(search.delta as int) + 3),
    decreases search.delta,
{
    let outcome = (probing.outcome)(search.write_count);
    let next = probing.next(search);
    let delta = search.delta as int;
    if probing.verdict(search) == Verdict::Retry {
        lemma_retry_progress(search, outcome, probing.buffer_len, probing.have_more);
        if outcome.too_large(search.max_bytes) {
            if search.delta == 1 {
                // The search steps back to the size that fits and sends it.
                assert(halved_below(1, 1) == halved_below(0, 1));
                assert(probing.settles_within(next, 2));
            } else {
                lemma_closing_in_settles(probing, next);
            }
        } else {
            lemma_halved_to_half(delta);
            if delta > 1 {
                lemma_closing_in_settles(probing, next);
            }
        }
    }
}

impl Probing {
    /// Whether no probe of a size from `limit` on leaves room to grow under
    /// the cap `max_bytes`: it is too large, or it is not under the fill
    /// target, or it takes in all that a closed input has left.
    pub open spec fn full_from(self, max_bytes: usize, limit: int) -> bool {
        forall|count: usize|
            count >= limit ==> match #[trigger] (self.outcome)(count) {
                ProbeOutcome::ContainerOverflow => true,
                ProbeOutcome::Serialized(len) => {
                    ||| len > max_bytes
                    ||| !under_target(len as int, max_bytes as int)
                    ||| !self.have_more && self.buffer_len <= count
                },
            }
    }

    /// The search is growing towards `limit`: no probe was too large yet,
    /// no probe from `limit` on leaves room to grow, the step is a power of
    /// two of at least half the probe size, and the size one step below the
    /// probe size fits. Numbers stay an eighth below the greatest, so that
    /// no step wraps.
    pub open spec fn growing(self, search: BatchSearch, limit: int) -> bool {
        &&& search.wf()
        &&& search.lowest_overflow == NO_OVERFLOW
        &&& self.buffer_len >= 1
        &&& 1 <= limit <= usize::MAX / 8
        &&& self.full_from(search.max_bytes, limit)
        &&& is_power_of_two(search.delta as int)
        &&& search.write_count <= 2 * search.delta
        &&& search.write_count == 1 ==> search.delta <= usize::MAX / 8
        &&& search.write_count > 1 ==> search.delta >= 2 && self.fits(
            search,
            search.write_count - search.delta,
        )
    }
}

/// The most probes that a growing search with the probe size `count` and
/// the step `delta` takes where no probe from the size `len` on leaves room
/// to grow: one for each doubling of the step while the probe size is below
/// `len`, then those of closing in.
pub open spec fn growing_limit(count: int, delta: int, len: int) -> nat
    decreases
            (if count < len {
                len - count
            } else {
                0
            }),
{
    if count >= len || delta < 1 {
        log2(delta) + 3
    } else {
        1 + growing_limit(count + 2 * delta, 2 * delta, len)
    }
}

/// How often `count` must be doubled to reach `len`.
pub open spec fn doublings(count: int, len: int) -> nat
    decreases
            (if count < len {
                len - count
            } else {
                0
            }),
{
    if count >= len || count < 1 {
        0
    } else {
        1 + doublings(2 * count, len)
    }
}

/// The logarithm grows with its argument.
pub proof fn lemma_log2_grows(small: int, large: int)
    requires
        small <= large,
    ensures
        log2(small) <= log2(large),
    decreases large,
{
    if small > 1 {
        lemma_log2_grows(small / 2, large / 2);
    }
}

/// A growing search is bounded from below by the probes of closing in.
proof fn lemma_growing_limit_least(count: int, delta: int, len: int)
    requires
        1 <= delta,
    ensures
        growing_limit(count, delta, len) >= log2(delta) + 3,
    decreases
            (if count < len {
                len - count
            } else {
                0
            }),
{
    if count < len {
        lemma_growing_limit_least(count + 2 * delta, 2 * delta, len);
    }
}

/// A growing search settles within `growing_limit` probes: each probe
/// doubles the step, until a probe is sent or is too large, and from the
/// first probe that is too large the search is closing in.
pub proof fn lemma_growing_settles(probing: Probing, search: BatchSearch, limit: int)
    requires
        probing.growing(search, limit),
    ensures
        probing.settles_within(
            search,
            growing_limit(search.write_count as int, search.delta as int, limit),
        ),
    decreases
            (if search.write_count < limit {
                limit - search.write_count
            } else {
                0
            }),
{
    let outcome = (probing.outcome)(search.write_count);
    let next = probing.next(search);
    let delta = search.delta as int;
    let count = search.write_count as int;
    let len = limit;
    lemma_growing_limit_least(count, delta, len);
    if probing.verdict(search) == Verdict::Retry {
        lemma_retry_progress(search, outcome, probing.buffer_len, probing.have_more);
        if outcome.too_large(search.max_bytes) {
            lemma_closing_in_settles(probing, next);
            lemma_settles_within_more(
                probing,
                next,
                log2(delta / 2) + 3,
                (growing_limit(count, delta, len) - 1) as nat,
            );
        } else {
            // A probe with room to grow is of a size below the limit.
            assert(count < limit);
            lemma_growing_settles(probing, next, limit);
        }
    }
}

/// Doubling from a greater size takes no longer.
proof fn lemma_doublings_fall(small: int, large: int, len: int)
    requires
        1 <= small <= large,
    ensures
        doublings(large, len) <= doublings(small, len),
    decreases
            (if small < len {
                len - small
            } else {
                0
            }),
{
    if large < len {
        lemma_doublings_fall(2 * small, 2 * large, len);
    }
}

/// Doubling reaches `len` in about `log2(len)` steps.
proof fn lemma_doublings_are_logarithmic(count: int, len: int)
    requires
        1 <= count <= 2 * len,
        1 <= len,
    ensures
        doublings(count, len) + log2(count) <= log2(len) + 1,
    decreases
            (if count < len {
                len - count
            } else {
                0
            }),
{
    if count < len {
        lemma_doublings_are_logarithmic(2 * count, len);
    } else {
        lemma_log2_grows(count, 2 * len);
    }
}

/// The limit of a growing search in terms of doublings.
proof fn lemma_growing_limit_by_doublings(count: int, delta: int, len: int)
    requires
        1 <= count <= 2 * delta,
    ensures
        growing_limit(count, delta, len) <= log2(delta) + 3 + 2 * doublings(count, len),
    decreases
            (if count < len {
                len - count
            } else {
                0
            }),
{
    if count < len {
        lemma_growing_limit_by_doublings(count + 2 * delta, 2 * delta, len);
        lemma_doublings_fall(2 * count, count + 2 * delta, len);
    }
}

/// The number of probes of one search is logarithmic in the size that it
/// reaches, whether the input is open or closed. Where the outcome of a
/// probe depends on its size alone and no probe of a size from `limit` on
/// leaves room to grow, a search that starts over with the step `delta`
/// comes to a probe that is sent or dropped within `log2(delta) + 2 *
/// log2(limit) + 5` probes.
pub proof fn lemma_search_is_logarithmic(probing: Probing, search: BatchSearch, limit: int)
    requires
        search.wf(),
        search.write_count == 1,
        search.lowest_overflow == NO_OVERFLOW,
        is_power_of_two(search.delta as int),
        search.delta <= usize::MAX / 8,
        probing.buffer_len >= 1,
        1 <= limit <= usize::MAX / 8,
        probing.full_from(search.max_bytes, limit),
    ensures
        probing.settles_within(search, log2(search.delta as int) + 2 * log2(limit) + 5),
{
    let delta = search.delta as int;
    lemma_growing_settles(probing, search, limit);
    lemma_growing_limit_by_doublings(1, delta, limit);
    lemma_doublings_are_logarithmic(1, limit);
    lemma_settles_within_more(
        probing,
        search,
        growing_limit(1, delta, limit),
        log2(delta) + 2 * log2(limit) + 5,
    );
}

/// On a closed input the number of statements left is such a limit: a
/// search that starts over with the step `delta` on `len` statements
/// settles within `log2(delta) + 2 * log2(len) + 5` probes.
pub proof fn lemma_closed_search_is_logarithmic(probing: Probing, search: BatchSearch)
    requires
        search.wf(),
        search.write_count == 1,
        search.lowest_overflow == NO_OVERFLOW,
        is_power_of_two(search.delta as int),
        search.delta <= usize::MAX / 8,
        !probing.have_more,
        1 <= probing.buffer_len <= usize::MAX / 8,
    ensures
        probing.settles_within(
            search,
            log2(search.delta as int) + 2 * log2(probing.buffer_len as int) + 5,
        ),
{
    lemma_search_is_logarithmic(probing, search, probing.buffer_len as int);
}

/// The step stays a power of two, as it is when a packer is made, as long
/// as it can be doubled.
pub proof fn lemma_step_stays_power_of_two(
    search: BatchSearch,
    outcome: ProbeOutcome,
    buffer_len: usize,
    have_more: bool,
)
    requires
        search.wf(),
        is_power_of_two(search.delta as int),
        2 * search.delta <= usize::MAX,
    ensures
        is_power_of_two(search.next(outcome, buffer_len, have_more).delta as int),
{
    let delta = search.delta as int;
    let room = search.lowest_overflow - search.write_count;
    lemma_halving_keeps_power_of_two(2 * delta, room);
    lemma_halved_below(2 * delta, room);
    assert forall|len: usize| is_power_of_two(#[trigger] search.grown(len).delta as int) by {}
}

/// Halving a power of two gives a power of two, or zero.
proof fn lemma_halving_keeps_power_of_two(delta: int, room: int)
    requires
        is_power_of_two(delta) || delta == 0,
    ensures
        is_power_of_two(halved_below(delta, room)) || halved_below(delta, room) == 0,
    decreases delta,
{
    if delta > 0 && delta >= room {
        lemma_halving_keeps_power_of_two(delta / 2, room);
    }
}

} // verus!
