//! The decisions of the restore pipeline: what the orchestrator checks and
//! plans before any worker starts, and what the lister, each reader and each
//! writer do next after each thing that happens to them.
//!
//! A worker is a small machine. The caller performs the action that the
//! machine names (a receive, a send, a read, a POST, a sleep), reports what
//! came of it as an event, together with the state of the cancel flag at that
//! moment, and gets the next action back. The machines hold no channel and
//! no file: they only decide.

use vstd::prelude::*;
use vstd::string::*;
use crate::fails::{BoxedError, Failed};
use crate::helpers::{digits_of, to_decimal};

verus! {

// ----------------------------------------------------------- the parameters

/// The parameters of a restore. They stay as they are for the whole run.
#[derive(Clone, Debug)]
pub struct Restore {
    /// The directory that holds the archives.
    pub from: String,
    /// The pattern by which the archives were looked for.
    pub pattern: String,
    /// The core that the documents go into.
    pub into: String,
    /// The update endpoint of that core.
    pub update_url: String,
    /// How many readers work side by side.
    pub readers: usize,
    /// How many writers work side by side.
    pub writers: usize,
}

impl Restore {
    /// The pattern by which the archives were looked for.
    pub fn get_pattern(&self) -> (pattern: String)
        ensures
            pattern@ == self.pattern@,
    {
        self.pattern.clone()
    }

    /// The URL that the batches are posted to.
    pub fn get_update_url(&self) -> (url: String)
        ensures
            url@ == self.update_url@,
    {
        self.update_url.clone()
    }
}

/// What the orchestrator sets up before the workers start.
#[derive(Clone, Copy, Debug, PartialEq, Eq, Structural)]
pub struct Plan {
    /// The number of batches to expect: the length of the progress bar.
    pub doc_count: u64,
    /// The number of readers.
    pub readers: usize,
    /// The number of writers.
    pub writers: usize,
    /// The capacity of the channel of archive paths.
    pub readers_channel: usize,
    /// The capacity of the channel of batches.
    pub writers_channel: usize,
    /// The capacity of the channel of progress ticks.
    pub progress_channel: usize,
}

// ------------------------------------------------------------ the messages

/// A text as it prints for debugging: in double quotes, with what needs it
/// escaped.
pub uninterp spec fn quoted(text: Seq<char>) -> Seq<char>;

/// Calls `format!("{:?}", text)`, the `Debug` form of a `str`. The contract
/// gives that form a name and claims no more than that it depends on the
/// text alone.
#[verifier::external_body]
fn quote(text: &str) -> (shown: String)
    ensures
        shown@ == quoted(text@),
{
    format!("{:?}", text)
}

/// The message for a search that found no archive.
pub open spec fn no_archives_text(pattern: Seq<char>) -> Seq<char> {
    "Found no archives to restore from: "@ + pattern
        + "\n note: try to specify the option --pattern with the source core name"@
}

/// The message for a restore that was asked to run without a reader or
/// without a writer.
pub open spec fn no_workers_text() -> Seq<char> {
    "Invalid parameters: at least one reader and one writer are needed"@
}

/// The message for an archive that could not be opened, given the path as
/// it prints for debugging.
pub open spec fn not_opened_text(shown: Seq<char>) -> Seq<char> {
    "Error opening archive: "@ + shown
}

/// The failure for an archive that could not be opened; `shown` is its path
/// as it prints for debugging.
pub fn not_opened(shown: &str) -> (failed: BoxedError)
    ensures
        failed@ == not_opened_text(shown@),
{
    let mut message = String::from_str("Error opening archive: ");
    message.append(shown);
    Box::new(Failed::new(message.as_str()))
}

// --------------------------------------------------------- the orchestrator

/// Whether a restore with these parameters over `found` archives can start.
pub open spec fn can_start(params: Restore, found: nat) -> bool {
    found > 0 && params.readers >= 1 && params.writers >= 1
}

/// Checks the parameters and the list of archives before anything else
/// happens. An empty list is refused, and so is a restore without a reader or
/// without a writer; nothing else is.
pub fn restore_main(params: &Restore, found: &Vec<String>) -> (checked: Result<(), BoxedError>)
    ensures
        checked is Ok <==> can_start(*params, found@.len()),
        found@.len() == 0 ==> (checked matches Err(failed) && failed@ == no_archives_text(
            params.pattern@,
        )),
        found@.len() > 0 && !can_start(*params, found@.len()) ==> (checked matches Err(failed)
            && failed@ == no_workers_text()),
{
    if found.len() == 0 {
        let mut message = String::from_str("Found no archives to restore from: ");
        message.append(params.get_pattern().as_str());
        message.append("\n note: try to specify the option --pattern with the source core name");
        return Err(Box::new(Failed::new(message.as_str())));
    }
    if params.readers < 1 || params.writers < 1 {
        return Err(
            Box::new(
                Failed::new("Invalid parameters: at least one reader and one writer are needed"),
            ),
        );
    }
    Ok(())
}

/// The number of batches to expect: the number of files in the first
/// archive, `file_count`, times the number of archives. Where the first
/// archive could not be looked into (`file_count` is `None`) the restore
/// fails before it starts.
pub fn estimate_document_count(found: &Vec<String>, file_count: Option<usize>) -> (estimate:
    Result<u64, BoxedError>)
    requires
        found@.len() > 0,
        file_count matches Some(doc_count) ==> doc_count * found@.len() <= usize::MAX,
    ensures
        match file_count {
            Some(doc_count) => estimate == Ok::<u64, BoxedError>(
                (doc_count * found@.len()) as u64,
            ),
            None => estimate matches Err(failed) && failed@ == not_opened_text(quoted(found@[0]@)),
        },
{
    let zip_count = found.len();
    let first = &found[0];
    match file_count {
        None => Err(not_opened(quote(first.as_str()).as_str())),
        Some(doc_count) => {
            let doc_total = doc_count * zip_count;
            Ok(doc_total as u64)
        },
    }
}

/// Plans the run: the estimate of [`estimate_document_count`], and three
/// bounded channels. The channel of paths holds two paths per reader, the
/// channel of batches two batches per writer, the channel of ticks one tick
/// per writer.
pub fn unzip_archives(params: &Restore, found: &Vec<String>, file_count: Option<usize>) -> (plan:
    Result<Plan, BoxedError>)
    requires
        found@.len() > 0,
        file_count matches Some(doc_count) ==> doc_count * found@.len() <= usize::MAX,
        2 * params.readers <= usize::MAX,
        2 * params.writers <= usize::MAX,
    ensures
        match file_count {
            Some(doc_count) => plan == Ok::<Plan, BoxedError>(
                Plan {
                    doc_count: (doc_count * found@.len()) as u64,
                    readers: params.readers,
                    writers: params.writers,
                    readers_channel: (2 * params.readers) as usize,
                    writers_channel: (2 * params.writers) as usize,
                    progress_channel: params.writers,
                },
            ),
            None => plan matches Err(failed) && failed@ == not_opened_text(quoted(found@[0]@)),
        },
{
    match estimate_document_count(found, file_count) {
        Err(failed) => Err(failed),
        Ok(doc_count) => {
            let readers_channel = params.readers * 2;
            let writers_channel = params.writers * 2;
            Ok(
                Plan {
                    doc_count,
                    readers: params.readers,
                    writers: params.writers,
                    readers_channel,
                    writers_channel,
                    progress_channel: params.writers,
                },
            )
        },
    }
}

/// The name of the reader with the index `reader`: `Reader_0`, `Reader_1`
/// and so on.
pub fn reader_name(reader: usize) -> (thread_name: String)
    ensures
        thread_name@ == "Reader_"@ + digits_of(reader as nat),
{
    let mut thread_name = String::from_str("Reader_");
    thread_name.append(to_decimal(reader).as_str());
    thread_name
}

/// The name of the writer with the index `writer`: `Writer_0`, `Writer_1`
/// and so on.
pub fn writer_name(writer: usize) -> (thread_name: String)
    ensures
        thread_name@ == "Writer_"@ + digits_of(writer as nat),
{
    let mut thread_name = String::from_str("Writer_");
    thread_name.append(to_decimal(writer).as_str());
    thread_name
}

// ----------------------------------------------------------------- the lister

/// Where the lister stands.
#[derive(Clone, Copy, Debug, PartialEq, Eq, Structural)]
pub enum ListerState {
    /// Not started yet.
    Starting,
    /// The path with this index is being sent.
    Sending(usize),
    /// The channel of paths is closed: the lister is done.
    Closed,
}

/// What happened to the lister.
#[derive(Clone, Copy, Debug, PartialEq, Eq, Structural)]
pub enum ListerEvent {
    /// The lister was started.
    Started,
    /// The path was taken by the channel.
    Sent,
    /// The channel refused the path: no reader is left.
    Refused,
}

/// What the lister does next.
#[derive(Clone, Copy, Debug, PartialEq, Eq, Structural)]
pub enum ListerAction {
    /// Send the path with this index into the channel of paths.
    Send(usize),
    /// Close the channel of paths and end.
    Close,
}

/// The lister's rule over `total` paths: it sends them in their order, one
/// after the other, ends at the first that is refused, and always closes
/// the channel in the end.
pub open spec fn lister_step(total: nat, state: ListerState, event: ListerEvent) -> (
    ListerState,
    ListerAction,
) {
    match (state, event) {
        (ListerState::Starting, ListerEvent::Started) => if 0 < total {
            (ListerState::Sending(0), ListerAction::Send(0))
        } else {
            (ListerState::Closed, ListerAction::Close)
        },
        (ListerState::Sending(index), ListerEvent::Sent) => if index < usize::MAX && index + 1
            < total {
            (ListerState::Sending((index + 1) as usize), ListerAction::Send((index + 1) as usize))
        } else {
            (ListerState::Closed, ListerAction::Close)
        },
        _ => (ListerState::Closed, ListerAction::Close),
    }
}

/// One step of the lister over the paths `found`.
pub fn start_listing_archives(found: &Vec<String>, state: &mut ListerState, event: ListerEvent) -> (action:
    ListerAction)
    ensures
        (*final(state), action) == lister_step(found@.len(), *old(state), event),
        action matches ListerAction::Send(index) ==> index < found@.len(),
{
    let total = found.len();
    let (next, action) = match (*state, event) {
        (ListerState::Starting, ListerEvent::Started) => {
            if 0 < total {
                (ListerState::Sending(0), ListerAction::Send(0))
            } else {
                (ListerState::Closed, ListerAction::Close)
            }
        },
        (ListerState::Sending(index), ListerEvent::Sent) => {
            if index < total && index + 1 < total {
                (ListerState::Sending(index + 1), ListerAction::Send(index + 1))
            } else {
                (ListerState::Closed, ListerAction::Close)
            }
        },
        _ => (ListerState::Closed, ListerAction::Close),
    };
    *state = next;
    action
}

// ----------------------------------------------------------------- the reader

/// Where a reader stands.
#[derive(Clone, Copy, Debug, PartialEq, Eq, Structural)]
pub enum ReaderState {
    /// Not started yet.
    Starting,
    /// Waiting for a path from the channel of paths.
    Receiving,
    /// Opening the archive at the path it received.
    Opening,
    /// Asking the open archive for its next batch.
    Pulling,
    /// Sending a batch into the channel of batches.
    Sending,
    /// Ended.
    Exited,
}

/// What happened to a reader. `P` is a path, `B` a batch.
#[derive(Clone, Debug, PartialEq, Eq)]
pub enum ReaderEvent<P, B> {
    /// The reader was started.
    Started,
    /// A path came out of the channel of paths.
    Path(P),
    /// The channel of paths is closed and empty.
    NoMorePaths,
    /// The archive is open.
    Opened,
    /// The archive could not be opened.
    OpenFailed,
    /// The archive gave its next batch.
    Batch(B),
    /// The archive has no further batch.
    Exhausted,
    /// The batch was taken by the channel.
    Sent,
    /// The channel refused the batch: no writer is left.
    Refused,
}

/// What a reader does next.
#[derive(Clone, Debug, PartialEq, Eq)]
pub enum ReaderAction<P, B> {
    /// Receive a path from the channel of paths.
    Receive,
    /// Open the archive at this path.
    Open(P),
    /// Ask the open archive for its next batch.
    Pull,
    /// Send this batch into the channel of batches.
    Send(B),
    /// Drop the sender of batches and end.
    Exit,
}

impl<P, B> ReaderAction<P, B> {
    /// Whether the action can make the reader wait: a receive or a send on
    /// a bounded channel can.
    pub open spec fn blocks(&self) -> bool {
        self is Receive || self is Send
    }
}

/// What a reader makes of the events of the archive that it has in hand:
/// it opens it, and sends its batches one by one. It ends when the archive
/// cannot be opened, when a batch is refused, and when it finds the cancel
/// flag set with the next batch in hand. When the archive has no further
/// batch it ends if the cancel flag is set, and else goes for the next path.
pub open spec fn archive_step<P, B>(state: ReaderState, event: ReaderEvent<P, B>, cancelled: bool)
    -> (ReaderState, ReaderAction<P, B>) {
    match (state, event) {
        (ReaderState::Opening, ReaderEvent::Opened) => (ReaderState::Pulling, ReaderAction::Pull),
        (ReaderState::Pulling, ReaderEvent::Batch(docs)) => if cancelled {
            (ReaderState::Exited, ReaderAction::Exit)
        } else {
            (ReaderState::Sending, ReaderAction::Send(docs))
        },
        (ReaderState::Pulling, ReaderEvent::Exhausted) => if cancelled {
            (ReaderState::Exited, ReaderAction::Exit)
        } else {
            (ReaderState::Receiving, ReaderAction::Receive)
        },
        (ReaderState::Sending, ReaderEvent::Sent) => (ReaderState::Pulling, ReaderAction::Pull),
        _ => (ReaderState::Exited, ReaderAction::Exit),
    }
}

/// A reader's rule. Unless the cancel flag is set when it starts, it
/// receives a path, and then goes by [`archive_step`]. It ends when the
/// channel of paths is closed, and on any event that does not answer what it
/// last asked for.
pub open spec fn reader_step<P, B>(state: ReaderState, event: ReaderEvent<P, B>, cancelled: bool)
    -> (ReaderState, ReaderAction<P, B>) {
    match (state, event) {
        (ReaderState::Starting, ReaderEvent::Started) => if cancelled {
            (ReaderState::Exited, ReaderAction::Exit)
        } else {
            (ReaderState::Receiving, ReaderAction::Receive)
        },
        (ReaderState::Receiving, ReaderEvent::Path(archive_path)) => (
            ReaderState::Opening,
            ReaderAction::Open(archive_path),
        ),
        (ReaderState::Starting, _) => (ReaderState::Exited, ReaderAction::Exit),
        (ReaderState::Receiving, _) => (ReaderState::Exited, ReaderAction::Exit),
        _ => archive_step(state, event, cancelled),
    }
}

/// One step of a reader.
pub fn start_reading_archive<P, B>(
    state: &mut ReaderState,
    event: ReaderEvent<P, B>,
    cancelled: bool,
) -> (action: ReaderAction<P, B>)
    ensures
        (*final(state), action) == reader_step(*old(state), event, cancelled),
{
    match *state {
        ReaderState::Starting => {
            match event {
                ReaderEvent::Started => {
                    if cancelled {
                        *state = ReaderState::Exited;
                        ReaderAction::Exit
                    } else {
                        *state = ReaderState::Receiving;
                        ReaderAction::Receive
                    }
                },
                _ => {
                    *state = ReaderState::Exited;
                    ReaderAction::Exit
                },
            }
        },
        ReaderState::Receiving => {
            match event {
                ReaderEvent::Path(archive_path) => {
                    *state = ReaderState::Opening;
                    ReaderAction::Open(archive_path)
                },
                _ => {
                    *state = ReaderState::Exited;
                    ReaderAction::Exit
                },
            }
        },
        _ => handle_reading_archive(state, event, cancelled),
    }
}

/// One step of a reader on the archive that it has in hand.
pub fn handle_reading_archive<P, B>(
    state: &mut ReaderState,
    event: ReaderEvent<P, B>,
    cancelled: bool,
) -> (action: ReaderAction<P, B>)
    ensures
        (*final(state), action) == archive_step(*old(state), event, cancelled),
{
    let (next, action) = match (*state, event) {
        (ReaderState::Opening, ReaderEvent::Opened) => (ReaderState::Pulling, ReaderAction::Pull),
        (ReaderState::Pulling, ReaderEvent::Batch(docs)) => {
            if cancelled {
                (ReaderState::Exited, ReaderAction::Exit)
            } else {
                (ReaderState::Sending, ReaderAction::Send(docs))
            }
        },
        (ReaderState::Pulling, ReaderEvent::Exhausted) => {
            if cancelled {
                (ReaderState::Exited, ReaderAction::Exit)
            } else {
                (ReaderState::Receiving, ReaderAction::Receive)
            }
        },
        (ReaderState::Sending, ReaderEvent::Sent) => (ReaderState::Pulling, ReaderAction::Pull),
        _ => (ReaderState::Exited, ReaderAction::Exit),
    };
    *state = next;
    action
}

// ----------------------------------------------------------------- the writer

/// The pause of a writer after each POST, in seconds.
pub const WRITER_PACE: u64 = 1;

/// Where a writer stands.
#[derive(Clone, Copy, Debug, PartialEq, Eq, Structural)]
pub enum WriterState {
    /// Not started yet.
    Starting,
    /// Waiting for a batch from the channel of batches.
    Receiving,
    /// Posting a batch.
    Posting,
    /// Pausing after a POST; `posted` says whether that POST succeeded.
    Pacing { posted: bool },
    /// Sending a tick into the channel of progress.
    Ticking,
    /// Ended.
    Exited,
}

/// What happened to a writer. `B` is a batch.
#[derive(Clone, Debug, PartialEq, Eq)]
pub enum WriterEvent<B> {
    /// The writer was started.
    Started,
    /// A batch came out of the channel of batches.
    Batch(B),
    /// The channel of batches is closed and empty.
    NoMoreBatches,
    /// The POST ended, retries and all; `true` for a success.
    Posted(bool),
    /// The pause is over.
    Paced,
    /// The tick was taken by the channel.
    Ticked,
    /// The channel refused the tick: nobody counts any more.
    Refused,
}

/// What a writer does next.
#[derive(Clone, Debug, PartialEq, Eq)]
pub enum WriterAction<B> {
    /// Receive a batch from the channel of batches.
    Receive,
    /// Post this batch to the update endpoint, as JSON.
    Post(B),
    /// Sleep for this many seconds.
    Pace(u64),
    /// Send one tick into the channel of progress.
    Tick,
    /// Drop the sender of ticks and end.
    Exit,
}

impl<B> WriterAction<B> {
    /// Whether the action can make the writer wait: all but the exit can.
    pub open spec fn blocks(&self) -> bool {
        !(self is Exit)
    }

    /// Whether the action takes up new work: a receive or a POST does.
    pub open spec fn begins(&self) -> bool {
        self is Receive || self is Post
    }
}

/// What a writer makes of the events of the batch that it has in hand.
/// After the POST it pauses for `pace` seconds, whatever came of the POST.
/// After the pause it ends if the POST failed, and else sends one tick. When
/// the tick is taken it goes for the next batch, unless the cancel flag is
/// set; when the tick is refused it ends.
pub open spec fn batch_step<B>(pace: u64, state: WriterState, event: WriterEvent<B>, cancelled: bool)
    -> (WriterState, WriterAction<B>) {
    match (state, event) {
        (WriterState::Posting, WriterEvent::Posted(posted)) => (
            WriterState::Pacing { posted },
            WriterAction::Pace(pace),
        ),
        (WriterState::Pacing { posted }, WriterEvent::Paced) => if posted {
            (WriterState::Ticking, WriterAction::Tick)
        } else {
            (WriterState::Exited, WriterAction::Exit)
        },
        (WriterState::Ticking, WriterEvent::Ticked) => if cancelled {
            (WriterState::Exited, WriterAction::Exit)
        } else {
            (WriterState::Receiving, WriterAction::Receive)
        },
        _ => (WriterState::Exited, WriterAction::Exit),
    }
}

/// A writer's rule. Unless the cancel flag is set when it starts, it
/// receives a batch; unless the flag is set by then, it posts the batch, and
/// then goes by [`batch_step`]. It ends when the channel of batches is
/// closed, and on any event that does not answer what it last asked for.
pub open spec fn writer_step<B>(pace: u64, state: WriterState, event: WriterEvent<B>, cancelled: bool)
    -> (WriterState, WriterAction<B>) {
    match (state, event) {
        (WriterState::Starting, WriterEvent::Started) => if cancelled {
            (WriterState::Exited, WriterAction::Exit)
        } else {
            (WriterState::Receiving, WriterAction::Receive)
        },
        (WriterState::Receiving, WriterEvent::Batch(docs)) => if cancelled {
            (WriterState::Exited, WriterAction::Exit)
        } else {
            (WriterState::Posting, WriterAction::Post(docs))
        },
        (WriterState::Starting, _) => (WriterState::Exited, WriterAction::Exit),
        (WriterState::Receiving, _) => (WriterState::Exited, WriterAction::Exit),
        _ => batch_step(pace, state, event, cancelled),
    }
}

/// One step of a writer that pauses for `pace` seconds after each POST.
pub fn start_indexing_docs<B>(
    pace: u64,
    state: &mut WriterState,
    event: WriterEvent<B>,
    cancelled: bool,
) -> (action: WriterAction<B>)
    ensures
        (*final(state), action) == writer_step(pace, *old(state), event, cancelled),
{
    match *state {
        WriterState::Starting => {
            match event {
                WriterEvent::Started => {
                    if cancelled {
                        *state = WriterState::Exited;
                        WriterAction::Exit
                    } else {
                        *state = WriterState::Receiving;
                        WriterAction::Receive
                    }
                },
                _ => {
                    *state = WriterState::Exited;
                    WriterAction::Exit
                },
            }
        },
        WriterState::Receiving => {
            match event {
                WriterEvent::Batch(docs) => {
                    if cancelled {
                        *state = WriterState::Exited;
                        WriterAction::Exit
                    } else {
                        *state = WriterState::Posting;
                        WriterAction::Post(docs)
                    }
                },
                _ => {
                    *state = WriterState::Exited;
                    WriterAction::Exit
                },
            }
        },
        _ => handle_received_batch(pace, state, event, cancelled),
    }
}

/// One step of a writer on the batch that it has in hand.
pub fn handle_received_batch<B>(
    pace: u64,
    state: &mut WriterState,
    event: WriterEvent<B>,
    cancelled: bool,
) -> (action: WriterAction<B>)
    ensures
        (*final(state), action) == batch_step(pace, *old(state), event, cancelled),
{
    let (next, action) = match (*state, event) {
        (WriterState::Posting, WriterEvent::Posted(posted)) => (
            WriterState::Pacing { posted },
            WriterAction::Pace(pace),
        ),
        (WriterState::Pacing { posted }, WriterEvent::Paced) => {
            if posted {
                (WriterState::Ticking, WriterAction::Tick)
            } else {
                (WriterState::Exited, WriterAction::Exit)
            }
        },
        (WriterState::Ticking, WriterEvent::Ticked) => {
            if cancelled {
                (WriterState::Exited, WriterAction::Exit)
            } else {
                (WriterState::Receiving, WriterAction::Receive)
            }
        },
        _ => (WriterState::Exited, WriterAction::Exit),
    };
    *state = next;
    action
}

// ------------------------------------------------------------------- the laws

/// The actions with which a writer answers `events` in turn; each event
/// comes with the state of the cancel flag at its moment.
pub open spec fn writer_actions<B>(pace: u64, state: WriterState, events: Seq<(WriterEvent<B>, bool)>)
    -> Seq<WriterAction<B>>
    decreases events.len(),
{
    if events.len() == 0 {
        Seq::empty()
    } else {
        let (next, action) = writer_step(pace, state, events[0].0, events[0].1);
        seq![action] + writer_actions(pace, next, events.drop_first())
    }
}

/// The actions with which a reader answers `events` in turn; each event
/// comes with the state of the cancel flag at its moment.
pub open spec fn reader_actions<P, B>(state: ReaderState, events: Seq<(ReaderEvent<P, B>, bool)>)
    -> Seq<ReaderAction<P, B>>
    decreases events.len(),
{
    if events.len() == 0 {
        Seq::empty()
    } else {
        let (next, action) = reader_step(state, events[0].0, events[0].1);
        seq![action] + reader_actions(next, events.drop_first())
    }
}

/// A batch is posted at most once. Whatever happens to a writer, it posts
/// only in answer to a batch that has just come out of the channel, it posts
/// that very batch, and the cancel flag is down at that moment. So each
/// batch that a writer receives is handed to the HTTP client once or not at
/// all.
pub proof fn lemma_posts_once<B>(
    pace: u64,
    state: WriterState,
    events: Seq<(WriterEvent<B>, bool)>,
    i: int,
)
    requires
        0 <= i < events.len(),
    ensures
        writer_actions(pace, state, events).len() == events.len(),
        writer_actions(pace, state, events)[i] matches WriterAction::Post(docs) ==> events[i].0
            == WriterEvent::Batch(docs) && !events[i].1,
    decreases events.len(),
{
    let (next, action) = writer_step(pace, state, events[0].0, events[0].1);
    let rest = events.drop_first();
    lemma_writer_answers_each(pace, next, rest);
    if i > 0 {
        lemma_posts_once(pace, next, rest, i - 1);
    }
}

/// A writer gives one action for each event.
pub proof fn lemma_writer_answers_each<B>(
    pace: u64,
    state: WriterState,
    events: Seq<(WriterEvent<B>, bool)>,
)
    ensures
        writer_actions(pace, state, events).len() == events.len(),
    decreases events.len(),
{
    if events.len() > 0 {
        let (next, action) = writer_step(pace, state, events[0].0, events[0].1);
        lemma_writer_answers_each(pace, next, events.drop_first());
    }
}

/// A reader gives one action for each event.
pub proof fn lemma_reader_answers_each<P, B>(
    state: ReaderState,
    events: Seq<(ReaderEvent<P, B>, bool)>,
)
    ensures
        reader_actions(state, events).len() == events.len(),
    decreases events.len(),
{
    if events.len() > 0 {
        let (next, action) = reader_step(state, events[0].0, events[0].1);
        lemma_reader_answers_each(next, events.drop_first());
    }
}

/// A batch is sent at most once. Whatever happens to a reader, it sends only
/// in answer to a batch that its archive has just given, and it sends that
/// very batch; and it opens only the path that it has just received.
pub proof fn lemma_sends_once<P, B>(
    state: ReaderState,
    events: Seq<(ReaderEvent<P, B>, bool)>,
    i: int,
)
    requires
        0 <= i < events.len(),
    ensures
        reader_actions(state, events).len() == events.len(),
        reader_actions(state, events)[i] matches ReaderAction::Send(docs) ==> events[i].0
            == ReaderEvent::<P, B>::Batch(docs) && !events[i].1,
        reader_actions(state, events)[i] matches ReaderAction::Open(archive_path) ==> events[i].0
            == ReaderEvent::<P, B>::Path(archive_path),
    decreases events.len(),
{
    let (next, action) = reader_step(state, events[0].0, events[0].1);
    let rest = events.drop_first();
    lemma_reader_answers_each(next, rest);
    if i > 0 {
        lemma_sends_once(next, rest, i - 1);
    }
}

/// A reader heeds the cancel flag. With the flag set, whatever state the
/// reader is in and whatever happens to it, it starts nothing that can make
/// it wait: of the receive or send that was under way when the flag went up
/// it takes the outcome, and no other follows. And it has ended after three
/// events at the most.
pub proof fn lemma_reader_heeds_cancel<P, B>(
    state: ReaderState,
    first: ReaderEvent<P, B>,
    second: ReaderEvent<P, B>,
    third: ReaderEvent<P, B>,
)
    ensures
        !reader_step(state, first, true).1.blocks(),
        reader_step(
            reader_step(reader_step(state, first, true).0, second, true).0,
            third,
            true,
        ).0 == ReaderState::Exited,
{
}

/// A writer heeds the cancel flag, but finishes the batch that it has
/// begun. With the flag set, whatever state the writer is in and whatever
/// happens to it, it takes up no new work: it neither receives nor posts.
/// Unless it is in the middle of a batch (posting it, or pausing after a
/// POST that succeeded), it ends at once. In the middle of a batch it still
/// pauses and sends the tick that is due. It has ended after three events
/// at the most.
pub proof fn lemma_writer_heeds_cancel<B>(
    pace: u64,
    state: WriterState,
    first: WriterEvent<B>,
    second: WriterEvent<B>,
    third: WriterEvent<B>,
)
    ensures
        !writer_step(pace, state, first, true).1.begins(),
        state != WriterState::Posting && state != (WriterState::Pacing { posted: true })
            ==> writer_step(pace, state, first, true) == (
            WriterState::Exited,
            WriterAction::<B>::Exit,
        ),
        writer_step(
            pace,
            writer_step(pace, writer_step(pace, state, first, true).0, second, true).0,
            third,
            true,
        ).0 == WriterState::Exited,
{
}

/// The end is final. A worker that has ended stays so and asks for nothing
/// more, whatever it is told; and a worker ends exactly when it says so.
pub proof fn lemma_exit_is_final<P, B>(
    total: nat,
    pace: u64,
    lister: ListerState,
    lister_event: ListerEvent,
    reader: ReaderState,
    reader_event: ReaderEvent<P, B>,
    writer: WriterState,
    writer_event: WriterEvent<B>,
    cancelled: bool,
)
    ensures
        lister_step(total, ListerState::Closed, lister_event) == (
            ListerState::Closed,
            ListerAction::Close,
        ),
        reader_step(ReaderState::Exited, reader_event, cancelled) == (
            ReaderState::Exited,
            ReaderAction::<P, B>::Exit,
        ),
        writer_step(pace, WriterState::Exited, writer_event, cancelled) == (
            WriterState::Exited,
            WriterAction::<B>::Exit,
        ),
        lister_step(total, lister, lister_event).0 == ListerState::Closed <==> lister_step(
            total,
            lister,
            lister_event,
        ).1 == ListerAction::Close,
        reader_step(reader, reader_event, cancelled).0 == ReaderState::Exited <==> reader_step(
            reader,
            reader_event,
            cancelled,
        ).1 is Exit,
        writer_step(pace, writer, writer_event, cancelled).0 == WriterState::Exited
            <==> writer_step(pace, writer, writer_event, cancelled).1 is Exit,
{
}

/// The lister sends the paths in their order. The first path it sends is
/// the first of the list; after a path was taken it sends the one after it;
/// it closes the channel after the last path, and at once when a path is
/// refused.
pub proof fn lemma_lister_in_order(total: nat, index: usize)
    requires
        total <= usize::MAX,
        index < total,
    ensures
        lister_step(total, ListerState::Starting, ListerEvent::Started).1 == ListerAction::Send(0),
        lister_step(total, ListerState::Sending(index), ListerEvent::Refused).1
            == ListerAction::Close,
        index + 1 < total ==> lister_step(total, ListerState::Sending(index), ListerEvent::Sent).1
            == ListerAction::Send((index + 1) as usize),
        index + 1 == total ==> lister_step(total, ListerState::Sending(index), ListerEvent::Sent).1
            == ListerAction::Close,
{
}

} // verus!
