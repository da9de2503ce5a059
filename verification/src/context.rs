//! Cooperative cancellation: a flag that is set once and read by every stage.

use crossbeam::atomic::AtomicCell;
use std::sync::Arc;
use vstd::prelude::*;

verus! {

/// `crossbeam::atomic::AtomicCell`, a cell that threads share.
#[verifier::external_type_specification]
#[verifier::external_body]
#[verifier::reject_recursive_types(T)]
pub struct ExAtomicCell<T>(AtomicCell<T>);

/// Whether a cell held `true` when it was made.
pub uninterp spec fn made_set(cell: AtomicCell<bool>) -> bool;

/// `AtomicCell::new` makes a cell that holds `value` to begin with.
#[verifier::external_body]
fn new_cell(value: bool) -> (cell: AtomicCell<bool>)
    ensures
        made_set(cell) == value,
{
    AtomicCell::new(value)
}

/// `AtomicCell::load` reads the value that the cell holds at the moment of
/// the call. Another thread may have stored it, so nothing is known of it.
pub assume_specification<T: Copy>[ AtomicCell::<T>::load ](cell: &AtomicCell<T>) -> T;

/// `AtomicCell::store` puts `val` into the cell, for every thread to read.
pub assume_specification<T>[ AtomicCell::<T>::store ](cell: &AtomicCell<T>, val: T);

/// The reading side of a cancellation flag.
#[derive(Clone)]
pub struct Context {
    cancelled: Arc<AtomicCell<bool>>,
}

/// The setting side of a cancellation flag.
#[derive(Clone)]
pub struct Canceller {
    cancelled: Arc<AtomicCell<bool>>,
}

/// Makes a flag that is not set, and hands out its two sides: what the
/// one side sets is what the other side reads.
pub fn new_cancel_context() -> (sides: (Context, Canceller))
    ensures
        sides.0.flag() == sides.1.flag(),
        !made_set(sides.0.flag()),
{
    let val = Arc::new(new_cell(false));
    (Context { cancelled: val.clone() }, Canceller { cancelled: val })
}

impl Context {
    /// The flag that this side reads.
    pub closed spec fn flag(self) -> AtomicCell<bool> {
        *self.cancelled
    }

    /// Whether the flag was set. Any thread may set it at any time, so the
    /// answer holds only for the moment of the call.
    #[inline]
    pub fn is_cancelled(&self) -> bool {
        self.cancelled.load()
    }
}

impl Canceller {
    /// The flag that this side sets.
    pub closed spec fn flag(self) -> AtomicCell<bool> {
        *self.cancelled
    }

    /// Sets the flag. Setting it again changes nothing.
    #[inline]
    pub fn cancel(&self) {
        self.cancelled.store(true);
    }
}

} // verus!
