//! The batches told apart: the model of [`crate::pipeline`] with a number on
//! each batch, and the proof that no batch is posted twice.
//!
//! Each batch gets its number when a reader takes it out of an archive: the
//! first batch taken is number 0, the next is number 1, and so on. The number
//! goes with the batch into the channel and to the writer that receives it.
//! When the POST of a batch has ended, in a success or in an error, its
//! number is written to a log.

use vstd::prelude::*;
use crate::pipeline::{Move, Pipeline};
use crate::restore::{Plan, ReaderEvent, ReaderState, WriterEvent, WriterState};

verus! {

/// A state of the pipeline with the batches numbered.
pub struct Tagged {
    /// The state, with the batches counted only.
    pub base: Pipeline,
    /// The batches taken out of the archives so far: the next batch taken
    /// gets this number.
    pub next: nat,
    /// For each reader, the batch that it holds.
    pub with_readers: Seq<Option<nat>>,
    /// The batches in the channel of batches, oldest first.
    pub in_channel: Seq<nat>,
    /// For each writer, the batch that it posts.
    pub with_writers: Seq<Option<nat>>,
    /// The batches whose POST has ended, in the order in which it ended.
    pub posted: Seq<nat>,
}

impl Tagged {
    /// The state before anything has happened.
    pub open spec fn start(archives: Seq<Option<nat>>, plan: Plan, pace: u64) -> Tagged {
        Tagged {
            base: Pipeline::start(archives, plan, pace),
            next: 0,
            with_readers: Seq::new(plan.readers as nat, |k: int| None),
            in_channel: Seq::empty(),
            with_writers: Seq::new(plan.writers as nat, |k: int| None),
            posted: Seq::empty(),
        }
    }

    /// The state after the move of the reader with index `k`: a batch gets
    /// its number when it is taken out of the archive, and goes into the
    /// channel when it is sent.
    pub open spec fn reader_move(self, k: int) -> Option<Tagged> {
        match self.base.reader_move(k) {
            None => None,
            Some(base) => Some(
                match self.base.reader_event(k) {
                    Some(ReaderEvent::Batch(_)) => Tagged {
                        base,
                        next: self.next + 1,
                        with_readers: self.with_readers.update(
                            k,
                            if base.readers[k].state == ReaderState::Sending {
                                Some(self.next)
                            } else {
                                None
                            },
                        ),
                        ..self
                    },
                    Some(ReaderEvent::Sent) => Tagged {
                        base,
                        with_readers: self.with_readers.update(k, None),
                        in_channel: match self.with_readers[k] {
                            Some(id) => self.in_channel.push(id),
                            None => self.in_channel,
                        },
                        ..self
                    },
                    Some(ReaderEvent::Refused) => Tagged {
                        base,
                        with_readers: self.with_readers.update(k, None),
                        ..self
                    },
                    _ => Tagged { base, ..self },
                },
            ),
        }
    }

    /// The state after the move of the writer with index `k`: the writer
    /// takes the oldest batch out of the channel, and when its POST has
    /// ended the batch goes to the log.
    pub open spec fn writer_move(self, k: int, posted: bool) -> Option<Tagged> {
        match self.base.writer_move(k, posted) {
            None => None,
            Some(base) => Some(
                match self.base.writer_event(k, posted) {
                    Some(WriterEvent::Batch(_)) => Tagged {
                        base,
                        in_channel: self.in_channel.drop_first(),
                        with_writers: self.with_writers.update(
                            k,
                            if base.writers[k] == WriterState::Posting && self.in_channel.len()
                                > 0 {
                                Some(self.in_channel[0])
                            } else {
                                None
                            },
                        ),
                        ..self
                    },
                    Some(WriterEvent::Posted(_)) => Tagged {
                        base,
                        with_writers: self.with_writers.update(k, None),
                        posted: match self.with_writers[k] {
                            Some(id) => self.posted.push(id),
                            None => self.posted,
                        },
                        ..self
                    },
                    _ => Tagged { base, ..self },
                },
            ),
        }
    }

    /// The state after `m`, or `None` where `m` cannot happen in this state.
    /// A move can happen exactly when it can in the state without numbers.
    pub open spec fn step(self, m: Move) -> Option<Tagged> {
        match m {
            Move::Reader(k) => self.reader_move(k),
            Move::Writer { index, posted } => self.writer_move(index, posted),
            _ => match self.base.step(m) {
                None => None,
                Some(base) => Some(Tagged { base, ..self }),
            },
        }
    }

    /// The state after the moves `ms` in turn, or `None` where one of them
    /// cannot happen when its turn comes.
    pub open spec fn run(self, ms: Seq<Move>) -> Option<Tagged>
        decreases ms.len(),
    {
        if ms.len() == 0 {
            Some(self)
        } else {
            match self.run(ms.drop_last()) {
                None => None,
                Some(before) => before.step(ms.last()),
            }
        }
    }

    /// Whether every batch is in one place only: no number stands twice in
    /// the hands of the readers, in the channel, in the hands of the writers
    /// and in the log taken together, and every number that stands there was
    /// given out.
    pub open spec fn apart(self) -> bool {
        &&& self.with_readers.len() == self.base.readers.len()
        &&& self.with_writers.len() == self.base.writers.len()
        &&& self.in_channel.len() == self.base.batches
        &&& self.posted.len() == self.base.posts
        &&& forall|k: int|
            0 <= k < self.with_readers.len() ==> ((#[trigger] self.with_readers[k]) is Some
                <==> self.base.readers[k].state == ReaderState::Sending)
        &&& forall|k: int|
            0 <= k < self.with_writers.len() ==> ((#[trigger] self.with_writers[k]) is Some
                <==> self.base.writers[k] == WriterState::Posting)
        &&& forall|k: int|
            0 <= k < self.with_readers.len() ==> ((#[trigger] self.with_readers[k]) matches Some(
                id,
            ) ==> id < self.next)
        &&& forall|k: int|
            0 <= k < self.with_writers.len() ==> ((#[trigger] self.with_writers[k]) matches Some(
                id,
            ) ==> id < self.next)
        &&& forall|i: int| 0 <= i < self.in_channel.len() ==> #[trigger] self.in_channel[i] < self.next
        &&& forall|i: int| 0 <= i < self.posted.len() ==> #[trigger] self.posted[i] < self.next
        &&& forall|k: int, l: int|
            0 <= k < l < self.with_readers.len() && (#[trigger] self.with_readers[k]) is Some
                ==> self.with_readers[k] != #[trigger] self.with_readers[l]
        &&& forall|k: int, l: int|
            0 <= k < l < self.with_writers.len() && (#[trigger] self.with_writers[k]) is Some
                ==> self.with_writers[k] != #[trigger] self.with_writers[l]
        &&& forall|i: int, j: int|
            0 <= i < j < self.in_channel.len() ==> #[trigger] self.in_channel[i]
                != #[trigger] self.in_channel[j]
        &&& forall|i: int, j: int|
            0 <= i < j < self.posted.len() ==> #[trigger] self.posted[i]
                != #[trigger] self.posted[j]
        &&& forall|k: int, l: int|
            0 <= k < self.with_readers.len() && 0 <= l < self.with_writers.len() && (
            #[trigger] self.with_readers[k]) is Some ==> self.with_readers[k]
                != #[trigger] self.with_writers[l]
        &&& forall|k: int, i: int|
            0 <= k < self.with_readers.len() && 0 <= i < self.in_channel.len()
                ==> #[trigger] self.with_readers[k] != Some(#[trigger] self.in_channel[i])
        &&& forall|k: int, i: int|
            0 <= k < self.with_readers.len() && 0 <= i < self.posted.len()
                ==> #[trigger] self.with_readers[k] != Some(#[trigger] self.posted[i])
        &&& forall|k: int, i: int|
            0 <= k < self.with_writers.len() && 0 <= i < self.in_channel.len()
                ==> #[trigger] self.with_writers[k] != Some(#[trigger] self.in_channel[i])
        &&& forall|k: int, i: int|
            0 <= k < self.with_writers.len() && 0 <= i < self.posted.len()
                ==> #[trigger] self.with_writers[k] != Some(#[trigger] self.posted[i])
        &&& forall|i: int, j: int|
            0 <= i < self.in_channel.len() && 0 <= j < self.posted.len()
                ==> #[trigger] self.in_channel[i] != #[trigger] self.posted[j]
    }
}

/// A reader's move keeps every batch in one place only.
proof fn lemma_reader_keeps_apart(before: Tagged, k: int)
    requires
        before.apart(),
        before.reader_move(k) is Some,
    ensures
        before.reader_move(k)->0.apart(),
{
}

/// A writer's move keeps every batch in one place only.
proof fn lemma_writer_keeps_apart(before: Tagged, k: int, posted: bool)
    requires
        before.apart(),
        before.writer_move(k, posted) is Some,
    ensures
        before.writer_move(k, posted)->0.apart(),
{
}

/// Every move keeps every batch in one place only.
pub proof fn lemma_move_keeps_apart(before: Tagged, m: Move)
    requires
        before.apart(),
        before.step(m) is Some,
    ensures
        before.step(m)->0.apart(),
{
    match m {
        Move::Reader(k) => lemma_reader_keeps_apart(before, k),
        Move::Writer { index, posted } => lemma_writer_keeps_apart(before, index, posted),
        _ => {},
    }
}

/// The numbers change nothing. A run with the batches numbered is the run
/// without numbers: the same moves can happen, and they lead to the same
/// states.
pub proof fn lemma_numbers_change_nothing(
    archives: Seq<Option<nat>>,
    plan: Plan,
    pace: u64,
    ms: Seq<Move>,
)
    ensures
        Tagged::start(archives, plan, pace).run(ms) is Some <==> Pipeline::start(
            archives,
            plan,
            pace,
        ).run(ms) is Some,
        Tagged::start(archives, plan, pace).run(ms) is Some ==> Tagged::start(
            archives,
            plan,
            pace,
        ).run(ms)->0.base == Pipeline::start(archives, plan, pace).run(ms)->0,
    decreases ms.len(),
{
    if ms.len() > 0 {
        lemma_numbers_change_nothing(archives, plan, pace, ms.drop_last());
    }
}

/// Delivery is at most once. In every state that a run can reach, whatever
/// fails and whenever the run is cancelled, every batch is in one place
/// only; so no batch stands twice in the log of the POSTs that have ended:
/// a batch that a reader has produced is posted once at the most.
pub proof fn lemma_at_most_once(
    archives: Seq<Option<nat>>,
    plan: Plan,
    pace: u64,
    ms: Seq<Move>,
    i: int,
    j: int,
)
    requires
        Tagged::start(archives, plan, pace).run(ms) is Some,
        0 <= i < j < Tagged::start(archives, plan, pace).run(ms)->0.posted.len(),
    ensures
        Tagged::start(archives, plan, pace).run(ms)->0.posted[i] != Tagged::start(
            archives,
            plan,
            pace,
        ).run(ms)->0.posted[j],
        Tagged::start(archives, plan, pace).run(ms)->0.posted.len() == Tagged::start(
            archives,
            plan,
            pace,
        ).run(ms)->0.base.posts,
{
    lemma_run_keeps_apart(archives, plan, pace, ms);
}

/// A run keeps every batch in one place only.
proof fn lemma_run_keeps_apart(archives: Seq<Option<nat>>, plan: Plan, pace: u64, ms: Seq<Move>)
    requires
        Tagged::start(archives, plan, pace).run(ms) is Some,
    ensures
        Tagged::start(archives, plan, pace).run(ms)->0.apart(),
    decreases ms.len(),
{
    let begin = Tagged::start(archives, plan, pace);
    if ms.len() > 0 {
        lemma_run_keeps_apart(archives, plan, pace, ms.drop_last());
        lemma_move_keeps_apart(begin.run(ms.drop_last())->0, ms.last());
    }
}

} // verus!
