//! A model of the whole pipeline, and what holds of every run of it.
//!
//! The model puts the machines of [`crate::restore`] together with the three
//! bounded channels: one lister, some readers, some writers and the
//! orchestrator, which counts the ticks. A state of the model says where each
//! worker stands and what each channel holds. A move lets one worker finish
//! what it is doing, if that can finish in this state: a send needs room in
//! its channel or the other side gone, a receive needs something in its
//! channel or the other side gone. The worker's next state is the one that
//! its rule in [`crate::restore`] gives. The moves may come in any order:
//! that is how the model stands for workers that run side by side.
//!
//! Batches are counted, not read: an archive is the number of batches in it,
//! or nothing where it cannot be opened. A POST is one move, whatever
//! attempts it took; [`crate::connection`] bounds those.

use vstd::prelude::*;
use crate::restore::{
    Plan,
    ListerEvent,
    ListerState,
    ReaderEvent,
    ReaderState,
    WriterEvent,
    WriterState,
    lister_step,
    reader_step,
    writer_step,
};
use crate::sums::{
    sum,
    lemma_sum_bounded,
    lemma_sum_drop_first,
    lemma_sum_push,
    lemma_sum_update,
    lemma_sum_zero,
};

verus! {

// ------------------------------------------------------------------ the state

/// A reader in the model: where it stands, which archive it has in hand and
/// how many batches it has taken out of it.
pub struct ReaderCell {
    pub state: ReaderState,
    pub archive: nat,
    pub pulled: nat,
}

/// A state of the pipeline.
pub struct Pipeline {
    /// For each path, the number of batches in its archive; `None` where the
    /// archive cannot be opened.
    pub archives: Seq<Option<nat>>,
    /// The capacity of the channel of paths.
    pub path_cap: nat,
    /// The capacity of the channel of batches.
    pub batch_cap: nat,
    /// The capacity of the channel of ticks.
    pub tick_cap: nat,
    /// The pause of the writers, in seconds.
    pub pace: u64,
    pub lister: ListerState,
    /// The channel of paths: the indices of the paths in it, oldest first.
    pub paths: Seq<nat>,
    pub readers: Seq<ReaderCell>,
    /// The number of batches in the channel of batches.
    pub batches: nat,
    pub writers: Seq<WriterState>,
    /// The number of ticks in the channel of ticks.
    pub ticks: nat,
    /// The number of ticks that the orchestrator has counted.
    pub counted: nat,
    /// The number of POSTs that have ended, in a success or in an error.
    pub posts: nat,
    /// Whether the cancel flag is set.
    pub cancelled: bool,
}

/// A move of the pipeline.
pub enum Move {
    /// The cancel flag is set.
    Cancel,
    /// The lister finishes what it is doing.
    Lister,
    /// The reader with this index finishes what it is doing.
    Reader(int),
    /// The writer with this index finishes what it is doing; if that is a
    /// POST, `posted` says whether it succeeded.
    Writer { index: int, posted: bool },
    /// The orchestrator takes a tick out of the channel and counts it.
    Count,
}

/// The number of batches in the archive at path `index`.
pub open spec fn size_of(archives: Seq<Option<nat>>, index: nat) -> nat {
    if index < archives.len() {
        match archives[index as int] {
            Some(size) => size,
            None => 0,
        }
    } else {
        0
    }
}

/// Whether the archive at path `index` can be opened.
pub open spec fn opens(archives: Seq<Option<nat>>, index: nat) -> bool {
    index < archives.len() && archives[index as int] is Some
}

/// The batches that a reader has yet to take out of its archive.
pub open spec fn left_in(archives: Seq<Option<nat>>, cell: ReaderCell) -> nat {
    if cell.pulled <= size_of(archives, cell.archive) {
        (size_of(archives, cell.archive) - cell.pulled) as nat
    } else {
        0
    }
}

impl Pipeline {
    /// Whether every reader has ended.
    pub open spec fn readers_gone(self) -> bool {
        forall|k: int| 0 <= k < self.readers.len() ==> (#[trigger] self.readers[k]).state
            == ReaderState::Exited
    }

    /// Whether every writer has ended.
    pub open spec fn writers_gone(self) -> bool {
        forall|k: int| 0 <= k < self.writers.len() ==> #[trigger] self.writers[k]
            == WriterState::Exited
    }

    /// Whether the orchestrator returns: the channel of ticks is closed and
    /// empty.
    pub open spec fn finished(self) -> bool {
        self.writers_gone() && self.ticks == 0
    }

    /// The state before anything has happened, for the given archives and
    /// the given plan: the plan says how many readers and writers there are
    /// and what the channels hold at the most.
    pub open spec fn start(archives: Seq<Option<nat>>, plan: Plan, pace: u64) -> Pipeline {
        Pipeline {
            archives,
            path_cap: plan.readers_channel as nat,
            batch_cap: plan.writers_channel as nat,
            tick_cap: plan.progress_channel as nat,
            pace,
            lister: ListerState::Starting,
            paths: Seq::empty(),
            readers: Seq::new(
                plan.readers as nat,
                |k: int| ReaderCell { state: ReaderState::Starting, archive: 0, pulled: 0 },
            ),
            batches: 0,
            writers: Seq::new(plan.writers as nat, |k: int| WriterState::Starting),
            ticks: 0,
            counted: 0,
            posts: 0,
            cancelled: false,
        }
    }

    // -------------------------------------------------------------- the moves

    /// What happens to the lister next, if anything can.
    pub open spec fn lister_event(self) -> Option<ListerEvent> {
        match self.lister {
            ListerState::Starting => Some(ListerEvent::Started),
            ListerState::Sending(index) => if index >= self.archives.len() {
                None
            } else if self.readers_gone() {
                Some(ListerEvent::Refused)
            } else if self.paths.len() < self.path_cap {
                Some(ListerEvent::Sent)
            } else {
                None
            },
            ListerState::Closed => None,
        }
    }

    /// The state after the lister's move.
    pub open spec fn lister_move(self) -> Option<Pipeline> {
        match self.lister_event() {
            None => None,
            Some(event) => Some(
                Pipeline {
                    lister: lister_step(self.archives.len(), self.lister, event).0,
                    paths: match (self.lister, event) {
                        (ListerState::Sending(index), ListerEvent::Sent) => self.paths.push(
                            index as nat,
                        ),
                        _ => self.paths,
                    },
                    ..self
                },
            ),
        }
    }

    /// What happens next to the reader with index `k`, if anything can.
    pub open spec fn reader_event(self, k: int) -> Option<ReaderEvent<nat, ()>> {
        let cell = self.readers[k];
        match cell.state {
            ReaderState::Starting => Some(ReaderEvent::Started),
            ReaderState::Receiving => if self.paths.len() > 0 {
                Some(ReaderEvent::Path(self.paths[0]))
            } else if self.lister == ListerState::Closed {
                Some(ReaderEvent::NoMorePaths)
            } else {
                None
            },
            ReaderState::Opening => if opens(self.archives, cell.archive) {
                Some(ReaderEvent::Opened)
            } else {
                Some(ReaderEvent::OpenFailed)
            },
            ReaderState::Pulling => if cell.pulled < size_of(self.archives, cell.archive) {
                Some(ReaderEvent::Batch(()))
            } else {
                Some(ReaderEvent::Exhausted)
            },
            ReaderState::Sending => if self.writers_gone() {
                Some(ReaderEvent::Refused)
            } else if self.batches < self.batch_cap {
                Some(ReaderEvent::Sent)
            } else {
                None
            },
            ReaderState::Exited => None,
        }
    }

    /// The state after the move of the reader with index `k`.
    pub open spec fn reader_move(self, k: int) -> Option<Pipeline> {
        if !(0 <= k < self.readers.len()) {
            None
        } else {
            match self.reader_event(k) {
                None => None,
                Some(event) => {
                    let cell = self.readers[k];
                    let state = reader_step(cell.state, event, self.cancelled).0;
                    let moved = match event {
                        ReaderEvent::Path(index) => ReaderCell { state, archive: index, pulled: 0 },
                        ReaderEvent::Batch(_) => ReaderCell {
                            state,
                            archive: cell.archive,
                            pulled: cell.pulled + 1,
                        },
                        _ => ReaderCell { state, archive: cell.archive, pulled: cell.pulled },
                    };
                    Some(
                        Pipeline {
                            readers: self.readers.update(k, moved),
                            paths: if event is Path {
                                self.paths.drop_first()
                            } else {
                                self.paths
                            },
                            batches: if event is Sent {
                                self.batches + 1
                            } else {
                                self.batches
                            },
                            ..self
                        },
                    )
                },
            }
        }
    }

    /// What happens next to the writer with index `k`, if anything can.
    pub open spec fn writer_event(self, k: int, posted: bool) -> Option<WriterEvent<()>> {
        match self.writers[k] {
            WriterState::Starting => Some(WriterEvent::Started),
            WriterState::Receiving => if self.batches > 0 {
                Some(WriterEvent::Batch(()))
            } else if self.readers_gone() {
                Some(WriterEvent::NoMoreBatches)
            } else {
                None
            },
            WriterState::Posting => Some(WriterEvent::Posted(posted)),
            WriterState::Pacing { .. } => Some(WriterEvent::Paced),
            WriterState::Ticking => if self.ticks < self.tick_cap {
                Some(WriterEvent::Ticked)
            } else {
                None
            },
            WriterState::Exited => None,
        }
    }

    /// The state after the move of the writer with index `k`.
    pub open spec fn writer_move(self, k: int, posted: bool) -> Option<Pipeline> {
        if !(0 <= k < self.writers.len()) {
            None
        } else {
            match self.writer_event(k, posted) {
                None => None,
                Some(event) => Some(
                    Pipeline {
                        writers: self.writers.update(
                            k,
                            writer_step(self.pace, self.writers[k], event, self.cancelled).0,
                        ),
                        batches: if event is Batch {
                            (self.batches - 1) as nat
                        } else {
                            self.batches
                        },
                        ticks: if event is Ticked {
                            self.ticks + 1
                        } else {
                            self.ticks
                        },
                        posts: if event is Posted {
                            self.posts + 1
                        } else {
                            self.posts
                        },
                        ..self
                    },
                ),
            }
        }
    }

    /// The state after `m`, or `None` where `m` cannot happen in this state.
    pub open spec fn step(self, m: Move) -> Option<Pipeline> {
        match m {
            Move::Cancel => if self.cancelled {
                None
            } else {
                Some(Pipeline { cancelled: true, ..self })
            },
            Move::Lister => self.lister_move(),
            Move::Reader(k) => self.reader_move(k),
            Move::Writer { index, posted } => self.writer_move(index, posted),
            Move::Count => if self.ticks > 0 {
                Some(
                    Pipeline {
                        ticks: (self.ticks - 1) as nat,
                        counted: self.counted + 1,
                        ..self
                    },
                )
            } else {
                None
            },
        }
    }

    /// The state after the moves `ms` in turn, or `None` where one of them
    /// cannot happen when its turn comes.
    pub open spec fn run(self, ms: Seq<Move>) -> Option<Pipeline>
        decreases ms.len(),
    {
        if ms.len() == 0 {
            Some(self)
        } else {
            match self.run(ms.drop_last()) {
                None => None,
                Some(before) => before.step(ms.last()),
            }
        }
    }

    // ------------------------------------------------------- batches in flight

    /// For each reader, the batches that it holds: one while it sends.
    pub open spec fn held_by_readers(self) -> Seq<nat> {
        Seq::new(
            self.readers.len(),
            |k: int|
                if self.readers[k].state == ReaderState::Sending {
                    1nat
                } else {
                    0nat
                },
        )
    }

    /// For each writer, the batches that it holds: one while it posts.
    pub open spec fn held_by_writers(self) -> Seq<nat> {
        Seq::new(
            self.writers.len(),
            |k: int|
                if self.writers[k] == WriterState::Posting {
                    1nat
                } else {
                    0nat
                },
        )
    }

    /// The batches in flight: those in the channel, and those that a reader
    /// or a writer holds.
    pub open spec fn in_flight(self) -> nat {
        self.batches + sum(self.held_by_readers()) + sum(self.held_by_writers())
    }
}

/// Memory is bounded. In every state that a run can reach, the batches in
/// flight are at most the capacity of the channel of batches plus one for
/// each reader and each writer, whatever fails and whenever the run is
/// cancelled.
pub proof fn lemma_bounded_memory(
    archives: Seq<Option<nat>>,
    plan: Plan,
    pace: u64,
    ms: Seq<Move>,
)
    requires
        Pipeline::start(archives, plan, pace).run(ms) is Some,
    ensures
        ({
            let reached = Pipeline::start(archives, plan, pace).run(ms)->0;
            &&& reached.batch_cap == plan.writers_channel
            &&& reached.readers.len() == plan.readers
            &&& reached.writers.len() == plan.writers
            &&& reached.batches <= reached.batch_cap
            &&& reached.in_flight() <= plan.writers_channel + plan.readers + plan.writers
        }),
    decreases ms.len(),
{
    let begin = Pipeline::start(archives, plan, pace);
    let reached = begin.run(ms)->0;
    if ms.len() > 0 {
        lemma_bounded_memory(archives, plan, pace, ms.drop_last());
    }
    lemma_sum_bounded(reached.held_by_readers(), 1);
    lemma_sum_bounded(reached.held_by_writers(), 1);
}

// ------------------------------------------------------------------ the rank

/// The work that the paths from index `from` on stand for: four moves to
/// bring a path to the end of its archive, seven to bring a batch to the
/// orchestrator's count.
pub open spec fn unlisted_rank(archives: Seq<Option<nat>>, from: nat) -> nat
    decreases archives.len() - from,
{
    if from >= archives.len() {
        0
    } else {
        4 + 7 * size_of(archives, from) + unlisted_rank(archives, from + 1)
    }
}

/// The work that is left with the lister.
pub open spec fn lister_rank(archives: Seq<Option<nat>>, lister: ListerState) -> nat {
    match lister {
        ListerState::Starting => 2 + unlisted_rank(archives, 0),
        ListerState::Sending(index) => 1 + unlisted_rank(archives, index as nat),
        ListerState::Closed => 0,
    }
}

/// For each path in the channel of paths, the work that it stands for.
pub open spec fn path_ranks(archives: Seq<Option<nat>>, paths: Seq<nat>) -> Seq<nat> {
    Seq::new(paths.len(), |j: int| 3 + 7 * size_of(archives, paths[j]))
}

/// The work that is left with a reader.
pub open spec fn reader_rank(archives: Seq<Option<nat>>, cell: ReaderCell) -> nat {
    match cell.state {
        ReaderState::Starting => 2,
        ReaderState::Receiving => 1,
        ReaderState::Opening => 3 + 7 * size_of(archives, cell.archive),
        ReaderState::Pulling => 2 + 7 * left_in(archives, cell),
        ReaderState::Sending => 8 + 7 * left_in(archives, cell),
        ReaderState::Exited => 0,
    }
}

/// For each reader, the work that is left with it.
pub open spec fn reader_ranks(archives: Seq<Option<nat>>, readers: Seq<ReaderCell>) -> Seq<nat> {
    Seq::new(readers.len(), |k: int| reader_rank(archives, readers[k]))
}

/// The work that is left with a writer.
pub open spec fn writer_rank(writer: WriterState) -> nat {
    match writer {
        WriterState::Starting => 2,
        WriterState::Receiving => 1,
        WriterState::Posting => 5,
        WriterState::Pacing { .. } => 4,
        WriterState::Ticking => 3,
        WriterState::Exited => 0,
    }
}

/// For each writer, the work that is left with it.
pub open spec fn writer_ranks(writers: Seq<WriterState>) -> Seq<nat> {
    Seq::new(writers.len(), |k: int| writer_rank(writers[k]))
}

impl Pipeline {
    /// A bound on the moves that are left in this state.
    pub open spec fn rank(self) -> nat {
        (if self.cancelled {
            0nat
        } else {
            1nat
        }) + lister_rank(self.archives, self.lister) + sum(path_ranks(self.archives, self.paths))
            + sum(reader_ranks(self.archives, self.readers)) + 5 * self.batches + sum(
            writer_ranks(self.writers),
        ) + self.ticks
    }
}

/// The most moves that a run over these archives can have, with these
/// numbers of readers and writers.
pub open spec fn most_moves(archives: Seq<Option<nat>>, plan: Plan) -> nat {
    3 + unlisted_rank(archives, 0) + 2 * (plan.readers as nat) + 2 * (plan.writers as nat)
}

/// The lister's move lowers the rank.
proof fn lemma_lister_lowers_rank(before: Pipeline)
    requires
        before.lister_move() is Some,
    ensures
        before.lister_move()->0.rank() < before.rank(),
{
    let after = before.lister_move()->0;
    let event = before.lister_event()->0;
    match (before.lister, event) {
        (ListerState::Sending(index), ListerEvent::Sent) => {
            lemma_sum_push(
                path_ranks(before.archives, before.paths),
                3 + 7 * size_of(before.archives, index as nat),
            );
            assert(path_ranks(after.archives, after.paths) =~= path_ranks(
                before.archives,
                before.paths,
            ).push(3 + 7 * size_of(before.archives, index as nat)));
        },
        _ => {},
    }
}

/// A reader's move lowers the rank.
proof fn lemma_reader_lowers_rank(before: Pipeline, k: int)
    requires
        before.reader_move(k) is Some,
    ensures
        before.reader_move(k)->0.rank() < before.rank(),
{
    let after = before.reader_move(k)->0;
    let event = before.reader_event(k)->0;
    let ranks = reader_ranks(before.archives, before.readers);
    lemma_sum_update(ranks, k, reader_rank(after.archives, after.readers[k]));
    assert(reader_ranks(after.archives, after.readers) =~= ranks.update(
        k,
        reader_rank(after.archives, after.readers[k]),
    ));
    if event is Path {
        lemma_sum_drop_first(path_ranks(before.archives, before.paths));
        assert(path_ranks(after.archives, after.paths) =~= path_ranks(
            before.archives,
            before.paths,
        ).drop_first());
    }
}

/// A writer's move lowers the rank.
proof fn lemma_writer_lowers_rank(before: Pipeline, k: int, posted: bool)
    requires
        before.writer_move(k, posted) is Some,
    ensures
        before.writer_move(k, posted)->0.rank() < before.rank(),
{
    let after = before.writer_move(k, posted)->0;
    let ranks = writer_ranks(before.writers);
    lemma_sum_update(ranks, k, writer_rank(after.writers[k]));
    assert(writer_ranks(after.writers) =~= ranks.update(k, writer_rank(after.writers[k])));
}

/// Every move brings the end nearer: it lowers the rank.
pub proof fn lemma_move_lowers_rank(before: Pipeline, m: Move)
    requires
        before.step(m) is Some,
    ensures
        before.step(m)->0.rank() < before.rank(),
{
    match m {
        Move::Cancel => {},
        Move::Lister => lemma_lister_lowers_rank(before),
        Move::Reader(k) => lemma_reader_lowers_rank(before, k),
        Move::Writer { index, posted } => lemma_writer_lowers_rank(before, index, posted),
        Move::Count => {},
    }
}

/// A run is no longer than the rank of the state that it starts in allows.
pub proof fn lemma_run_lowers_rank(begin: Pipeline, ms: Seq<Move>)
    requires
        begin.run(ms) is Some,
    ensures
        ms.len() + begin.run(ms)->0.rank() <= begin.rank(),
    decreases ms.len(),
{
    if ms.len() > 0 {
        lemma_run_lowers_rank(begin, ms.drop_last());
        lemma_move_lowers_rank(begin.run(ms.drop_last())->0, ms.last());
    }
}

/// Every run ends. Whatever the order in which the workers move, whatever
/// fails and whenever the run is cancelled, a run over finitely many
/// archives of finitely many batches has at most [`most_moves`] moves: no
/// worker can go on for ever, and the orchestrator returns.
pub proof fn lemma_termination(
    archives: Seq<Option<nat>>,
    plan: Plan,
    pace: u64,
    ms: Seq<Move>,
)
    requires
        Pipeline::start(archives, plan, pace).run(ms) is Some,
    ensures
        ms.len() <= most_moves(archives, plan),
{
    let begin = Pipeline::start(archives, plan, pace);
    lemma_run_lowers_rank(begin, ms);
    lemma_sum_bounded(reader_ranks(begin.archives, begin.readers), 2);
    lemma_sum_bounded(writer_ranks(begin.writers), 2);
    lemma_sum_zero(path_ranks(begin.archives, begin.paths));
}

// --------------------------------------------------------------- the account

/// The batches in the archives at the paths from index `from` on.
pub open spec fn unlisted_size(archives: Seq<Option<nat>>, from: nat) -> nat
    decreases archives.len() - from,
{
    if from >= archives.len() {
        0
    } else {
        size_of(archives, from) + unlisted_size(archives, from + 1)
    }
}

/// The batches in all the archives.
pub open spec fn total_batches(archives: Seq<Option<nat>>) -> nat {
    unlisted_size(archives, 0)
}

/// The batches in the archives whose paths the lister has yet to send.
pub open spec fn lister_debt(archives: Seq<Option<nat>>, lister: ListerState) -> nat {
    match lister {
        ListerState::Starting => unlisted_size(archives, 0),
        ListerState::Sending(index) => unlisted_size(archives, index as nat),
        ListerState::Closed => 0,
    }
}

/// For each path in the channel of paths, the batches in its archive.
pub open spec fn path_sizes(archives: Seq<Option<nat>>, paths: Seq<nat>) -> Seq<nat> {
    Seq::new(paths.len(), |j: int| size_of(archives, paths[j]))
}

/// The batches that a reader has yet to send: those left in its archive,
/// and the one it holds.
pub open spec fn reader_debt(archives: Seq<Option<nat>>, cell: ReaderCell) -> nat {
    match cell.state {
        ReaderState::Opening => left_in(archives, cell),
        ReaderState::Pulling => left_in(archives, cell),
        ReaderState::Sending => left_in(archives, cell) + 1,
        _ => 0,
    }
}

/// For each reader, the batches that it has yet to send.
pub open spec fn reader_debts(archives: Seq<Option<nat>>, readers: Seq<ReaderCell>) -> Seq<nat> {
    Seq::new(readers.len(), |k: int| reader_debt(archives, readers[k]))
}

/// The ticks that a writer has yet to send: one from the moment it takes a
/// batch to the moment its tick is in the channel, unless the POST failed.
pub open spec fn writer_debt(writer: WriterState) -> nat {
    match writer {
        WriterState::Posting => 1,
        WriterState::Pacing { posted } => if posted {
            1
        } else {
            0
        },
        WriterState::Ticking => 1,
        _ => 0,
    }
}

/// For each writer, the ticks that it has yet to send.
pub open spec fn writer_debts(writers: Seq<WriterState>) -> Seq<nat> {
    Seq::new(writers.len(), |k: int| writer_debt(writers[k]))
}

impl Pipeline {
    /// The batches that are accounted for: those counted, and those that
    /// are still on their way to the count, wherever they are.
    pub open spec fn accounted(self) -> nat {
        lister_debt(self.archives, self.lister) + sum(path_sizes(self.archives, self.paths)) + sum(
            reader_debts(self.archives, self.readers),
        ) + self.batches + sum(writer_debts(self.writers)) + self.ticks + self.counted
    }
}

impl Pipeline {
    /// The batches that no POST has ended for yet: those still in an
    /// archive, in the channel, or in the hands of a reader or a writer.
    pub open spec fn unposted(self) -> nat {
        lister_debt(self.archives, self.lister) + sum(path_sizes(self.archives, self.paths)) + sum(
            reader_debts(self.archives, self.readers),
        ) + self.batches + sum(self.held_by_writers())
    }
}

/// No move adds to the POSTs that have ended and the batches that none has
/// ended for, taken together.
proof fn lemma_move_keeps_posts(before: Pipeline, m: Move)
    requires
        before.step(m) is Some,
    ensures
        before.step(m)->0.posts + before.step(m)->0.unposted() <= before.posts
            + before.unposted(),
{
    let after = before.step(m)->0;
    match m {
        Move::Cancel => {},
        Move::Lister => lemma_lister_keeps_account(before),
        Move::Reader(k) => lemma_reader_keeps_account(before, k),
        Move::Writer { index, posted } => {
            let held = before.held_by_writers();
            let then = if after.writers[index] == WriterState::Posting {
                1nat
            } else {
                0nat
            };
            lemma_sum_update(held, index, then);
            assert(after.held_by_writers() =~= held.update(index, then));
        },
        Move::Count => {},
    }
}

/// No batch is posted twice. In every state that a run can reach, whatever
/// fails and whenever the run is cancelled, the POSTs that have ended and
/// the batches that none has ended for yet are together at most the batches
/// in the archives. So the HTTP client is asked to post at most as often as
/// there are batches: a batch whose POST has ended, in a success or in an
/// error, is not posted again.
pub proof fn lemma_never_posted_twice(
    archives: Seq<Option<nat>>,
    plan: Plan,
    pace: u64,
    ms: Seq<Move>,
)
    requires
        Pipeline::start(archives, plan, pace).run(ms) is Some,
    ensures
        Pipeline::start(archives, plan, pace).run(ms)->0.posts + Pipeline::start(
            archives,
            plan,
            pace,
        ).run(ms)->0.unposted() <= total_batches(archives),
        Pipeline::start(archives, plan, pace).run(ms)->0.posts <= total_batches(archives),
    decreases ms.len(),
{
    let begin = Pipeline::start(archives, plan, pace);
    if ms.len() > 0 {
        lemma_never_posted_twice(archives, plan, pace, ms.drop_last());
        lemma_move_keeps_posts(begin.run(ms.drop_last())->0, ms.last());
    } else {
        lemma_sum_zero(path_sizes(begin.archives, begin.paths));
        lemma_sum_zero(reader_debts(begin.archives, begin.readers));
        lemma_sum_zero(begin.held_by_writers());
    }
}

/// Whether a move is free of faults: it is not the cancel flag being set,
/// and not a POST that fails.
pub open spec fn faultless(m: Move) -> bool {
    match m {
        Move::Cancel => false,
        Move::Writer { index, posted } => posted,
        _ => true,
    }
}

/// What holds in every state of a run without faults over archives that
/// all open.
spec fn sound(p: Pipeline, archives: Seq<Option<nat>>, readers: nat, writers: nat) -> bool {
    &&& p.archives == archives
    &&& p.readers.len() == readers
    &&& p.writers.len() == writers
    &&& !p.cancelled
    &&& p.accounted() == total_batches(archives)
    &&& forall|j: int| 0 <= j < p.paths.len() ==> #[trigger] p.paths[j] < archives.len()
    &&& forall|k: int|
        0 <= k < readers && (#[trigger] p.readers[k]).state == ReaderState::Opening
            ==> p.readers[k].archive < archives.len()
    &&& forall|k: int|
        0 <= k < writers ==> #[trigger] p.writers[k] != (WriterState::Pacing { posted: false })
    &&& forall|k: int|
        0 <= k < writers && #[trigger] p.writers[k] == WriterState::Exited ==> p.readers_gone()
            && p.batches == 0
    &&& forall|k: int|
        0 <= k < readers && (#[trigger] p.readers[k]).state == ReaderState::Exited ==> p.lister
            == ListerState::Closed && p.paths.len() == 0
}

/// The lister's move adds nothing to the account, and takes nothing off it
/// unless a path is refused.
proof fn lemma_lister_keeps_account(before: Pipeline)
    requires
        before.lister_move() is Some,
    ensures
        before.lister_move()->0.accounted() <= before.accounted(),
        before.archives.len() <= usize::MAX && !(before.lister_event() matches Some(
            ListerEvent::Refused,
        )) ==> before.lister_move()->0.accounted() == before.accounted(),
{
    let after = before.lister_move()->0;
    let event = before.lister_event()->0;
    match (before.lister, event) {
        (ListerState::Sending(index), ListerEvent::Sent) => {
            lemma_sum_push(
                path_sizes(before.archives, before.paths),
                size_of(before.archives, index as nat),
            );
            assert(path_sizes(after.archives, after.paths) =~= path_sizes(
                before.archives,
                before.paths,
            ).push(size_of(before.archives, index as nat)));
            if index + 1 >= before.archives.len() {
                assert(unlisted_size(before.archives, index as nat + 1) == 0);
            }
        },
        _ => {},
    }
}

/// A reader's move adds nothing to the account, and takes nothing off it
/// unless the run is cancelled or a batch is refused.
proof fn lemma_reader_keeps_account(before: Pipeline, k: int)
    requires
        before.reader_move(k) is Some,
    ensures
        before.reader_move(k)->0.accounted() <= before.accounted(),
        !before.cancelled && !(before.reader_event(k) matches Some(ReaderEvent::Refused))
            ==> before.reader_move(k)->0.accounted() == before.accounted(),
{
    let after = before.reader_move(k)->0;
    let event = before.reader_event(k)->0;
    let debts = reader_debts(before.archives, before.readers);
    lemma_sum_update(debts, k, reader_debt(after.archives, after.readers[k]));
    assert(reader_debts(after.archives, after.readers) =~= debts.update(
        k,
        reader_debt(after.archives, after.readers[k]),
    ));
    if event is Path {
        lemma_sum_drop_first(path_sizes(before.archives, before.paths));
        assert(path_sizes(after.archives, after.paths) =~= path_sizes(
            before.archives,
            before.paths,
        ).drop_first());
    }
}

/// A writer's move adds nothing to the account, and takes nothing off it
/// unless the run is cancelled or a POST fails.
proof fn lemma_writer_keeps_account(before: Pipeline, k: int, posted: bool)
    requires
        before.writer_move(k, posted) is Some,
    ensures
        before.writer_move(k, posted)->0.accounted() <= before.accounted(),
        !before.cancelled && posted ==> before.writer_move(k, posted)->0.accounted()
            == before.accounted(),
{
    let after = before.writer_move(k, posted)->0;
    let debts = writer_debts(before.writers);
    lemma_sum_update(debts, k, writer_debt(after.writers[k]));
    assert(writer_debts(after.writers) =~= debts.update(k, writer_debt(after.writers[k])));
}

/// No move adds to the account: a batch is never made up on the way.
pub proof fn lemma_move_keeps_account(before: Pipeline, m: Move)
    requires
        before.step(m) is Some,
    ensures
        before.step(m)->0.accounted() <= before.accounted(),
{
    match m {
        Move::Cancel => {},
        Move::Lister => lemma_lister_keeps_account(before),
        Move::Reader(k) => lemma_reader_keeps_account(before, k),
        Move::Writer { index, posted } => lemma_writer_keeps_account(before, index, posted),
        Move::Count => {},
    }
}

/// Nothing is counted twice. In every state that a run can reach, whatever
/// fails and whenever the run is cancelled, the ticks counted and the
/// batches still on their way together are at most the batches in the
/// archives; so the count never passes the number of batches.
pub proof fn lemma_never_overcounted(
    archives: Seq<Option<nat>>,
    plan: Plan,
    pace: u64,
    ms: Seq<Move>,
)
    requires
        Pipeline::start(archives, plan, pace).run(ms) is Some,
    ensures
        Pipeline::start(archives, plan, pace).run(ms)->0.accounted() <= total_batches(
            archives,
        ),
        Pipeline::start(archives, plan, pace).run(ms)->0.counted <= total_batches(
            archives,
        ),
    decreases ms.len(),
{
    let begin = Pipeline::start(archives, plan, pace);
    if ms.len() > 0 {
        lemma_never_overcounted(archives, plan, pace, ms.drop_last());
        lemma_move_keeps_account(begin.run(ms.drop_last())->0, ms.last());
    } else {
        lemma_start_accounts(archives, plan, pace);
    }
}

/// Before anything has happened, every batch is accounted for: all are with
/// the lister.
proof fn lemma_start_accounts(archives: Seq<Option<nat>>, plan: Plan, pace: u64)
    ensures
        Pipeline::start(archives, plan, pace).accounted() == total_batches(archives),
{
    let begin = Pipeline::start(archives, plan, pace);
    lemma_sum_zero(path_sizes(begin.archives, begin.paths));
    lemma_sum_zero(reader_debts(begin.archives, begin.readers));
    lemma_sum_zero(writer_debts(begin.writers));
}

/// A move without faults keeps [`sound`].
proof fn lemma_move_keeps_sound(
    before: Pipeline,
    m: Move,
    archives: Seq<Option<nat>>,
    readers: nat,
    writers: nat,
)
    requires
        readers >= 1,
        writers >= 1,
        archives.len() <= usize::MAX,
        forall|i: int| 0 <= i < archives.len() ==> archives[i] is Some,
        sound(before, archives, readers, writers),
        faultless(m),
        before.step(m) is Some,
    ensures
        sound(before.step(m)->0, archives, readers, writers),
{
    match m {
        Move::Cancel => {},
        Move::Lister => lemma_lister_keeps_account(before),
        Move::Reader(k) => lemma_reader_keeps_account(before, k),
        Move::Writer { index, posted } => lemma_writer_keeps_account(before, index, posted),
        Move::Count => {},
    }
}

/// Batches are conserved. Take a run in which nothing fails: every archive
/// opens, every POST succeeds in the end, and the cancel flag stays down.
/// When the orchestrator returns from it, the ticks that it has counted are
/// exactly as many as the batches in all the archives.
pub proof fn lemma_batch_conservation(
    archives: Seq<Option<nat>>,
    plan: Plan,
    pace: u64,
    ms: Seq<Move>,
)
    requires
        plan.readers >= 1,
        plan.writers >= 1,
        archives.len() <= usize::MAX,
        forall|i: int| 0 <= i < archives.len() ==> archives[i] is Some,
        forall|i: int| 0 <= i < ms.len() ==> faultless(#[trigger] ms[i]),
        Pipeline::start(archives, plan, pace).run(ms) is Some,
        Pipeline::start(archives, plan, pace).run(ms)->0.finished(),
    ensures
        Pipeline::start(archives, plan, pace).run(ms)->0.counted == total_batches(
            archives,
        ),
{
    let end = Pipeline::start(archives, plan, pace).run(ms)->0;
    lemma_run_keeps_sound(archives, plan, pace, ms);
    lemma_sum_zero(path_sizes(end.archives, end.paths));
    lemma_sum_zero(reader_debts(end.archives, end.readers));
    lemma_sum_zero(writer_debts(end.writers));
}

/// A run without faults keeps [`sound`].
proof fn lemma_run_keeps_sound(
    archives: Seq<Option<nat>>,
    plan: Plan,
    pace: u64,
    ms: Seq<Move>,
)
    requires
        plan.readers >= 1,
        plan.writers >= 1,
        archives.len() <= usize::MAX,
        forall|i: int| 0 <= i < archives.len() ==> archives[i] is Some,
        forall|i: int| 0 <= i < ms.len() ==> faultless(#[trigger] ms[i]),
        Pipeline::start(archives, plan, pace).run(ms) is Some,
    ensures
        sound(
            Pipeline::start(archives, plan, pace).run(ms)->0,
            archives,
            plan.readers as nat,
            plan.writers as nat,
        ),
    decreases ms.len(),
{
    let begin = Pipeline::start(archives, plan, pace);
    if ms.len() > 0 {
        lemma_run_keeps_sound(archives, plan, pace, ms.drop_last());
        lemma_move_keeps_sound(
            begin.run(ms.drop_last())->0,
            ms.last(),
            archives,
            plan.readers as nat,
            plan.writers as nat,
        );
    } else {
        lemma_start_accounts(archives, plan, pace);
    }
}

// ------------------------------------------------------------------- the end

impl Pipeline {
    /// Whether the run is over: the lister, every reader and every writer
    /// have ended, and every tick is counted.
    pub open spec fn ended(self) -> bool {
        self.lister == ListerState::Closed && self.readers_gone() && self.writers_gone()
            && self.ticks == 0
    }

    /// Whether some worker, or the orchestrator, can move.
    pub open spec fn can_move(self) -> bool {
        exists|m: Move| !(m is Cancel) && (#[trigger] self.step(m)) is Some
    }
}

/// What a run keeps of the state that it started in.
spec fn shaped(p: Pipeline, archives: Seq<Option<nat>>, plan: Plan) -> bool {
    &&& p.archives == archives
    &&& p.path_cap == plan.readers_channel
    &&& p.batch_cap == plan.writers_channel
    &&& p.tick_cap == plan.progress_channel
    &&& p.readers.len() == plan.readers
    &&& p.writers.len() == plan.writers
    &&& p.lister matches ListerState::Sending(index) ==> index < archives.len()
}

/// A run keeps [`shaped`].
proof fn lemma_run_keeps_shape(archives: Seq<Option<nat>>, plan: Plan, pace: u64, ms: Seq<Move>)
    requires
        Pipeline::start(archives, plan, pace).run(ms) is Some,
    ensures
        shaped(Pipeline::start(archives, plan, pace).run(ms)->0, archives, plan),
    decreases ms.len(),
{
    if ms.len() > 0 {
        lemma_run_keeps_shape(archives, plan, pace, ms.drop_last());
    }
}

/// The lister can move when the channel of paths is empty or no reader is
/// left.
proof fn lemma_lister_is_not_stuck(p: Pipeline, archives: Seq<Option<nat>>, plan: Plan)
    requires
        shaped(p, archives, plan),
        plan.readers_channel >= 1,
        p.lister != ListerState::Closed,
        p.readers_gone() || p.paths.len() == 0,
    ensures
        p.can_move(),
{
    assert(p.step(Move::Lister) is Some);
}

/// Where a reader has not ended and the channel of batches is empty or no
/// writer is left, the reader can move, or else the lister can.
proof fn lemma_reader_is_not_stuck(p: Pipeline, archives: Seq<Option<nat>>, plan: Plan, k: int)
    requires
        shaped(p, archives, plan),
        plan.readers_channel >= 1,
        plan.writers_channel >= 1,
        0 <= k < p.readers.len(),
        p.readers[k].state != ReaderState::Exited,
        p.writers_gone() || p.batches == 0,
    ensures
        p.can_move(),
{
    if p.reader_event(k) is Some {
        assert(p.step(Move::Reader(k)) is Some);
    } else {
        lemma_lister_is_not_stuck(p, archives, plan);
    }
}

/// A run never gets stuck. In every state that a run reaches, some worker or
/// the orchestrator can move, unless the run is over. All it takes is that
/// each channel can hold one item at the least.
pub proof fn lemma_never_stuck(archives: Seq<Option<nat>>, plan: Plan, pace: u64, ms: Seq<Move>)
    requires
        plan.readers_channel >= 1,
        plan.writers_channel >= 1,
        plan.progress_channel >= 1,
        Pipeline::start(archives, plan, pace).run(ms) is Some,
    ensures
        ({
            let reached = Pipeline::start(archives, plan, pace).run(ms)->0;
            reached.ended() || reached.can_move()
        }),
{
    let p = Pipeline::start(archives, plan, pace).run(ms)->0;
    lemma_run_keeps_shape(archives, plan, pace, ms);
    if p.ticks > 0 {
        assert(p.step(Move::Count) is Some);
    } else if !p.writers_gone() {
        let k = choose|k: int| 0 <= k < p.writers.len() && p.writers[k] != WriterState::Exited;
        if p.writer_event(k, true) is Some {
            assert(p.step(Move::Writer { index: k, posted: true }) is Some);
        } else {
            let j = choose|j: int|
                0 <= j < p.readers.len() && p.readers[j].state != ReaderState::Exited;
            lemma_reader_is_not_stuck(p, archives, plan, j);
        }
    } else if !p.readers_gone() {
        let j = choose|j: int|
            0 <= j < p.readers.len() && p.readers[j].state != ReaderState::Exited;
        lemma_reader_is_not_stuck(p, archives, plan, j);
    } else if p.lister != ListerState::Closed {
        lemma_lister_is_not_stuck(p, archives, plan);
    }
}

/// The end is clean. When a run is over, nothing moves any more: no worker
/// is at work and no channel has a sender left. Only the cancel flag can
/// still be set, to no effect.
pub proof fn lemma_ended_is_final(p: Pipeline, m: Move)
    requires
        p.ended(),
        !(m is Cancel),
    ensures
        p.step(m) is None,
{
}

// ---------------------------------------------------------- the cancellation

/// The room that is left in the channel of paths.
pub open spec fn room_for_paths(p: Pipeline) -> nat {
    if p.paths.len() <= p.path_cap {
        (p.path_cap - p.paths.len()) as nat
    } else {
        0
    }
}

/// The moves that are left to the lister once the cancel flag is set: it
/// can fill the channel of paths, and then it is refused.
pub open spec fn lister_rest(p: Pipeline) -> nat {
    match p.lister {
        ListerState::Starting => 2 + room_for_paths(p),
        ListerState::Sending(_) => 1 + room_for_paths(p),
        ListerState::Closed => 0,
    }
}

/// The moves that are left to a reader once the cancel flag is set, and the
/// one more that the lister gains when the reader takes a path.
pub open spec fn reader_rest(reader: ReaderState) -> nat {
    match reader {
        ReaderState::Starting => 1,
        ReaderState::Receiving => 4,
        ReaderState::Opening => 2,
        ReaderState::Pulling => 1,
        ReaderState::Sending => 2,
        ReaderState::Exited => 0,
    }
}

/// For each reader, the moves that are left to it once the cancel flag is
/// set.
pub open spec fn reader_rests(readers: Seq<ReaderCell>) -> Seq<nat> {
    Seq::new(readers.len(), |k: int| reader_rest(readers[k].state))
}

/// The moves that are left to a writer once the cancel flag is set, with
/// the one in which its tick is counted.
pub open spec fn writer_rest(writer: WriterState) -> nat {
    match writer {
        WriterState::Starting => 1,
        WriterState::Receiving => 1,
        WriterState::Posting => 4,
        WriterState::Pacing { .. } => 3,
        WriterState::Ticking => 2,
        WriterState::Exited => 0,
    }
}

/// For each writer, the moves that are left to it once the cancel flag is
/// set.
pub open spec fn writer_rests(writers: Seq<WriterState>) -> Seq<nat> {
    Seq::new(writers.len(), |k: int| writer_rest(writers[k]))
}

impl Pipeline {
    /// A bound on the moves that are left once the cancel flag is set. It
    /// does not depend on the archives: not on how many are left, and not on
    /// how many batches they hold.
    pub open spec fn rest(self) -> nat {
        lister_rest(self) + sum(reader_rests(self.readers)) + sum(writer_rests(self.writers))
            + self.ticks
    }

    /// The ticks that can still be counted once the cancel flag is set:
    /// those in the channel, and one for each writer in the middle of a
    /// batch.
    pub open spec fn ticks_due(self) -> nat {
        self.ticks + sum(writer_debts(self.writers))
    }
}

/// With the cancel flag set, every move brings the end nearer by the
/// measure of [`Pipeline::rest`], and no move adds to the ticks that can
/// still be counted.
pub proof fn lemma_cancelled_move(before: Pipeline, m: Move)
    requires
        before.cancelled,
        before.step(m) is Some,
    ensures
        before.step(m)->0.cancelled,
        before.step(m)->0.rest() < before.rest(),
        before.step(m)->0.counted + before.step(m)->0.ticks_due() <= before.counted
            + before.ticks_due(),
{
    let after = before.step(m)->0;
    match m {
        Move::Cancel => {},
        Move::Lister => {},
        Move::Reader(k) => {
            let rests = reader_rests(before.readers);
            lemma_sum_update(rests, k, reader_rest(after.readers[k].state));
            assert(reader_rests(after.readers) =~= rests.update(
                k,
                reader_rest(after.readers[k].state),
            ));
        },
        Move::Writer { index, posted } => {
            let rests = writer_rests(before.writers);
            lemma_sum_update(rests, index, writer_rest(after.writers[index]));
            assert(writer_rests(after.writers) =~= rests.update(
                index,
                writer_rest(after.writers[index]),
            ));
            let debts = writer_debts(before.writers);
            lemma_sum_update(debts, index, writer_debt(after.writers[index]));
            assert(writer_debts(after.writers) =~= debts.update(
                index,
                writer_debt(after.writers[index]),
            ));
        },
        Move::Count => {},
    }
}

/// Cancellation is prompt. Once the cancel flag is set, a run goes on for
/// at most [`Pipeline::rest`] moves, whatever the archives still hold; and
/// the orchestrator counts at most [`Pipeline::ticks_due`] ticks more.
pub proof fn lemma_cancellation_is_prompt(cancelled: Pipeline, ms: Seq<Move>)
    requires
        cancelled.cancelled,
        cancelled.run(ms) is Some,
    ensures
        cancelled.run(ms)->0.cancelled,
        ms.len() + cancelled.run(ms)->0.rest() <= cancelled.rest(),
        cancelled.run(ms)->0.counted + cancelled.run(ms)->0.ticks_due() <= cancelled.counted
            + cancelled.ticks_due(),
    decreases ms.len(),
{
    if ms.len() > 0 {
        lemma_cancellation_is_prompt(cancelled, ms.drop_last());
        lemma_cancelled_move(cancelled.run(ms.drop_last())->0, ms.last());
    }
}

/// The bounds of [`lemma_cancellation_is_prompt`] in numbers. In a state
/// that a run has reached, the moves that are left once the flag is set are
/// at most two, and one for each place in the channel of paths, four for
/// each reader and each writer, and one for each place in the channel of
/// ticks. The ticks that can still be counted are at most one for each
/// place in the channel of ticks and one for each writer.
pub proof fn lemma_rest_is_small(archives: Seq<Option<nat>>, plan: Plan, pace: u64, ms: Seq<Move>)
    requires
        Pipeline::start(archives, plan, pace).run(ms) is Some,
    ensures
        ({
            let reached = Pipeline::start(archives, plan, pace).run(ms)->0;
            &&& reached.ticks <= plan.progress_channel
            &&& reached.rest() <= 2 + plan.readers_channel + 4 * plan.readers + 4 * plan.writers
                + plan.progress_channel
            &&& reached.ticks_due() <= plan.progress_channel + plan.writers
        }),
    decreases ms.len(),
{
    let reached = Pipeline::start(archives, plan, pace).run(ms)->0;
    if ms.len() > 0 {
        lemma_rest_is_small(archives, plan, pace, ms.drop_last());
    }
    lemma_run_keeps_shape(archives, plan, pace, ms);
    lemma_sum_bounded(reader_rests(reached.readers), 4);
    lemma_sum_bounded(writer_rests(reached.writers), 4);
    lemma_sum_bounded(writer_debts(reached.writers), 1);
}

} // verus!
