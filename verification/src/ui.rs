//! What the stages report of their progress, and the totals kept of it.

pub mod format;
pub mod prepare;
pub mod publish;

pub use format::format_number;
pub use prepare::{PrepareProgress, PrepareState, ReaderProgress};
pub use publish::{PublishProgress, PublishState};
use publish::PublishTotals;
use vstd::prelude::*;

verus! {

/// A report of progress from one of the stages.
#[derive(Debug)]
pub enum Event {
    Reader(ReaderProgress),
    Prepare(PrepareProgress),
    Publish(PublishProgress),
}

impl PrepareState {
    /// Whether `apply` can take in `event`: a report of the publisher has
    /// no place in these totals.
    pub open spec fn takes_event(self, event: Event) -> bool {
        match event {
            Event::Reader(progress) => self@.takes_reader(progress),
            Event::Prepare(progress) => self@.takes_prepare(progress),
            Event::Publish(_) => false,
        }
    }

    /// Whether `apply` can take in `event`.
    pub fn takes(&self, event: &Event) -> (r: bool)
        ensures
            r == self.takes_event(*event),
    {
        match event {
            Event::Reader(progress) => self.takes_reader(progress),
            Event::Prepare(progress) => self.takes_prepare(progress),
            Event::Publish(_) => false,
        }
    }

    /// Takes in a report of the reader or of the writer.
    pub fn apply(&mut self, event: Event)
        requires
            old(self).takes_event(event),
        ensures
            event matches Event::Reader(progress) ==> final(self)@ == old(self)@.after_reader(
                progress,
            ),
            event matches Event::Prepare(progress) ==> final(self)@ == old(self)@.after_prepare(
                progress,
            ),
    {
        match event {
            Event::Reader(progress) => self.update_reader_state(progress),
            Event::Prepare(progress) => self.update_prepare_state(progress),
            Event::Publish(_) => {},
        }
    }
}

impl PublishState {
    /// Whether `apply` can take in `event`. Reports of the reader and of
    /// the writer go to the totals of packing, where there are any.
    pub open spec fn takes_event(self, event: Event) -> bool {
        match event {
            Event::Reader(progress) => self.prepare matches Some(prepare)
                ==> prepare@.takes_reader(progress),
            Event::Prepare(progress) => self.prepare matches Some(prepare)
                ==> prepare@.takes_prepare(progress),
            Event::Publish(progress) => self@.takes_publish(progress),
        }
    }

    /// Whether `apply` can take in `event`.
    pub fn takes(&self, event: &Event) -> (r: bool)
        ensures
            r == self.takes_event(*event),
    {
        match event {
            Event::Reader(progress) => match &self.prepare {
                Some(prepare) => prepare.takes_reader(progress),
                None => true,
            },
            Event::Prepare(progress) => match &self.prepare {
                Some(prepare) => prepare.takes_prepare(progress),
                None => true,
            },
            Event::Publish(progress) => self.takes_publish(progress),
        }
    }

    /// Takes in a report of any stage. A report of the reader or of the
    /// writer changes the totals of packing and nothing else; without such
    /// totals it changes nothing.
    pub fn apply(&mut self, event: Event)
        requires
            old(self).takes_event(event),
        ensures
            final(self)@ == (match event {
                Event::Reader(progress) => PublishTotals {
                    prepare: match old(self)@.prepare {
                        Some(prepare) => Some(prepare.after_reader(progress)),
                        None => None,
                    },
                    ..old(self)@
                },
                Event::Prepare(progress) => PublishTotals {
                    prepare: match old(self)@.prepare {
                        Some(prepare) => Some(prepare.after_prepare(progress)),
                        None => None,
                    },
                    ..old(self)@
                },
                Event::Publish(progress) => old(self)@.after_publish(progress),
            }),
    {
        match event {
            Event::Reader(progress) => {
                match &mut self.prepare {
                    Some(prepare) => prepare.update_reader_state(progress),
                    None => {},
                }
            },
            Event::Prepare(progress) => {
                match &mut self.prepare {
                    Some(prepare) => prepare.update_prepare_state(progress),
                    None => {},
                }
            },
            Event::Publish(progress) => self.update_publish_state(progress),
        }
    }
}

} // verus!
