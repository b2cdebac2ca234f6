//! Partial files: their names, what may be written to them, and how they
//! become the output file.

use crate::error::{AppError, AppErrorView};
use crate::text::{decimal, decimal_text, digits_value, lemma_decimal_round_trip};
use vstd::prelude::*;
use vstd::slice::slice_subrange;

verus! {

/// Path of the partial file with index `index` of the output at `output_path`:
/// the output path, `_part_` and the index in decimal.
pub open spec fn part_path_text(output_path: Seq<char>, index: nat) -> Seq<char> {
    output_path + "_part_"@ + decimal_text(index)
}

/// No two partial files of one output share a path: the paths for two
/// different indices differ.
pub proof fn lemma_part_paths_differ(output_path: Seq<char>, first: nat, second: nat)
    requires
        first != second,
    ensures
        part_path_text(output_path, first) != part_path_text(output_path, second),
{
    let head = output_path + "_part_"@;
    let a = part_path_text(output_path, first);
    let b = part_path_text(output_path, second);
    lemma_decimal_round_trip(first);
    lemma_decimal_round_trip(second);
    if a == b {
        assert(a.subrange(head.len() as int, a.len() as int) =~= decimal_text(first));
        assert(b.subrange(head.len() as int, b.len() as int) =~= decimal_text(second));
        assert(digits_value(decimal_text(first)) == digits_value(decimal_text(second)));
    }
}

/// Path of the partial file with index `index` of the output at `output_path`.
pub fn part_file_path(output_path: &str, index: usize) -> (path: String)
    ensures
        path@ == part_path_text(output_path@, index as nat),
{
    let mut path = String::from_str(output_path);
    path.append("_part_");
    let digits = decimal(index as u64);
    path.append(digits.as_str());
    path
}

/// The bytes to put into a partial file, and where.
pub struct PartWrite<'a> {
    /// Offset in the partial file at which the bytes go.
    pub position: u64,
    /// The bytes to write there; none if there is nothing to write.
    pub bytes: &'a [u8],
}

/// How many bytes of a buffer of `len` bytes, received for the offset
/// `start` of the resource, go into the partial file of a range that begins
/// at `part_start` and holds `max_size` bytes: none if the offset lies
/// behind the range, else the buffer up to the end of the range.
pub open spec fn write_size(len: nat, start: u64, part_start: u64, max_size: u64) -> nat {
    let position = start - part_start;
    if position >= max_size {
        0
    } else if len <= max_size - position {
        len
    } else {
        (max_size - position) as nat
    }
}

/// Fits a buffer into a partial file.
///
/// `start` is the offset on the resource that the buffer was received for
/// and `part_start` the one at which the range of the partial file begins,
/// so the buffer belongs at `start - part_start` of the file. What lies at
/// or behind `max_size` there is dropped without an error.
pub fn write_chunk<'a>(chunk: &'a [u8], start: u64, part_start: u64, max_size: u64) -> (write:
    PartWrite<'a>)
    requires
        start >= part_start,
    ensures
        write.position == start - part_start,
        write.bytes@ == chunk@.take(write_size(chunk@.len(), start, part_start, max_size) as int),
        write.position + write.bytes@.len() <= max_size || write.bytes@.len() == 0,
{
    let position: u64 = start - part_start;
    if position >= max_size {
        return PartWrite { position, bytes: slice_subrange(chunk, 0, 0) };
    }
    let room: u64 = max_size - position;
    let len: usize = if chunk.len() as u64 <= room {
        chunk.len()
    } else {
        room as usize
    };
    PartWrite { position, bytes: slice_subrange(chunk, 0, len) }
}

/// The range still to fetch when its partial file already holds
/// `downloaded` bytes: the range without that many bytes at its front, or
/// the empty range right behind its end if the file holds the whole range
/// or more. Without a partial file the range stays as it is.
pub open spec fn resumed_range(range: (u64, u64), downloaded: Option<u64>) -> (u64, u64) {
    match downloaded {
        None => range,
        Some(d) => if d <= range.1 - range.0 {
            ((range.0 + d) as u64, range.1)
        } else {
            ((range.1 + 1) as u64, range.1)
        },
    }
}

/// The length of the partial file of range `i`, where `existing` lists the
/// lengths of the partial files found, in the order of the ranges; a range
/// without an entry has no partial file.
pub open spec fn existing_len(existing: Seq<Option<u64>>, i: int) -> Option<u64> {
    if 0 <= i < existing.len() {
        existing[i]
    } else {
        None
    }
}

/// Moves the start of each range behind the bytes that its partial file
/// already holds, in place, and returns the new ranges.
pub fn calculate_byte_ranges_on_existing_files(
    byte_ranges: &mut Vec<(u64, u64)>,
    existing: &Vec<Option<u64>>,
) -> (adjusted: Vec<(u64, u64)>)
    requires
        forall|i: int|
            0 <= i < old(byte_ranges)@.len() ==> (#[trigger] old(byte_ranges)@[i]).0 <= old(
                byte_ranges,
            )@[i].1 < u64::MAX,
    ensures
        final(byte_ranges)@.len() == old(byte_ranges)@.len(),
        forall|i: int|
            0 <= i < old(byte_ranges)@.len() ==> #[trigger] final(byte_ranges)@[i] == resumed_range(
                old(byte_ranges)@[i],
                existing_len(existing@, i),
            ),
        adjusted@ == final(byte_ranges)@,
{
    let ghost before = byte_ranges@;
    let mut adjusted: Vec<(u64, u64)> = Vec::new();
    let mut i: usize = 0;
    while i < byte_ranges.len()
        invariant
            i <= byte_ranges@.len(),
            byte_ranges@.len() == before.len(),
            adjusted@.len() == i,
            forall|k: int| 0 <= k < before.len() ==> (#[trigger] before[k]).0 <= before[k].1 < u64::MAX,
            forall|k: int| i <= k < before.len() ==> #[trigger] byte_ranges@[k] == before[k],
            forall|k: int|
                0 <= k < i ==> #[trigger] byte_ranges@[k] == resumed_range(
                    before[k],
                    existing_len(existing@, k),
                ),
            forall|k: int| 0 <= k < i ==> #[trigger] adjusted@[k] == byte_ranges@[k],
        decreases byte_ranges@.len() - i,
    {
        let range: (u64, u64) = byte_ranges[i];
        let found: Option<u64> = if i < existing.len() {
            existing[i]
        } else {
            None
        };
        let resumed: (u64, u64) = match found {
            None => range,
            Some(downloaded) => if downloaded <= range.1 - range.0 {
                (range.0 + downloaded, range.1)
            } else {
                (range.1 + 1, range.1)
            },
        };
        byte_ranges.set(i, resumed);
        adjusted.push(resumed);
        i = i + 1;
    }
    adjusted
}

/// Where the merge of the partial files into the output file stands.
#[derive(Clone, Copy, Debug, PartialEq, Eq)]
pub enum MergeState {
    /// The output file is being created empty.
    Opening,
    /// The partial files before `index` are in the output and the one at
    /// `index` is being appended.
    Appending { index: u8 },
    /// All partial files are in the output, which is being flushed.
    Flushing,
    /// The output is complete and the partial file at `index` is being
    /// deleted.
    Removing { index: u8 },
    /// The partial file at `index` could not be deleted and the caller is
    /// saying so.
    Reporting { index: u8 },
    /// The output is complete and the partial files were dealt with.
    Merged,
    /// The merge was given up.
    Failed,
}

impl MergeState {
    /// A state fits a merge of `num_chunks` partial files when the partial
    /// file that it works on is one of them.
    pub open spec fn wf(self, num_chunks: u8) -> bool {
        match self {
            MergeState::Appending { index } => index < num_chunks,
            MergeState::Removing { index } => index < num_chunks,
            MergeState::Reporting { index } => index < num_chunks,
            _ => true,
        }
    }

    /// Whether the state fits a merge of `num_chunks` partial files.
    pub fn fits(&self, num_chunks: u8) -> (ok: bool)
        ensures
            ok == self.wf(num_chunks),
    {
        match self {
            MergeState::Appending { index } => *index < num_chunks,
            MergeState::Removing { index } => *index < num_chunks,
            MergeState::Reporting { index } => *index < num_chunks,
            _ => true,
        }
    }
}

/// What happened since the last action of the merge was handed out.
#[derive(Clone, Debug, PartialEq, Eq)]
pub enum MergeEvent {
    /// The output file exists and is empty.
    OutputOpened,
    /// The output file could not be created; the text says why.
    OpenFailed(String),
    /// The bytes of the partial file are at the end of the output.
    PartAppended,
    /// The partial file does not exist.
    PartMissing,
    /// The partial file could not be opened; the text says why.
    OpenPartFailed(String),
    /// The partial file could not be read; the text says why.
    ReadPartFailed(String),
    /// The output could not be written; the text says why.
    AppendFailed(String),
    /// The output is on disk.
    Flushed,
    /// The output could not be flushed; the text says why.
    FlushFailed(String),
    /// The partial file is gone.
    PartRemoved,
    /// The partial file could not be deleted; the text says why.
    RemoveFailed(String),
    /// The message handed out was shown.
    Reported,
}

/// A [`MergeEvent`] with its texts as character sequences.
pub enum MergeEventView {
    OutputOpened,
    OpenFailed(Seq<char>),
    PartAppended,
    PartMissing,
    OpenPartFailed(Seq<char>),
    ReadPartFailed(Seq<char>),
    AppendFailed(Seq<char>),
    Flushed,
    FlushFailed(Seq<char>),
    PartRemoved,
    RemoveFailed(Seq<char>),
    Reported,
}

impl View for MergeEvent {
    type V = MergeEventView;

    open spec fn view(&self) -> MergeEventView {
        match self {
            MergeEvent::OutputOpened => MergeEventView::OutputOpened,
            MergeEvent::OpenFailed(why) => MergeEventView::OpenFailed(why@),
            MergeEvent::PartAppended => MergeEventView::PartAppended,
            MergeEvent::PartMissing => MergeEventView::PartMissing,
            MergeEvent::OpenPartFailed(why) => MergeEventView::OpenPartFailed(why@),
            MergeEvent::ReadPartFailed(why) => MergeEventView::ReadPartFailed(why@),
            MergeEvent::AppendFailed(why) => MergeEventView::AppendFailed(why@),
            MergeEvent::Flushed => MergeEventView::Flushed,
            MergeEvent::FlushFailed(why) => MergeEventView::FlushFailed(why@),
            MergeEvent::PartRemoved => MergeEventView::PartRemoved,
            MergeEvent::RemoveFailed(why) => MergeEventView::RemoveFailed(why@),
            MergeEvent::Reported => MergeEventView::Reported,
        }
    }
}

/// What the caller of the merge has to do next.
#[derive(Debug, PartialEq, Eq)]
pub enum MergeAction {
    /// Create the output file at this path, emptying it if it exists.
    OpenOutput(String),
    /// Append all bytes of the partial file at this path to the output.
    AppendPart(String),
    /// Flush the output to disk.
    Flush,
    /// Delete the partial file at this path if it exists.
    RemovePart(String),
    /// Show this message; the merge goes on.
    Report(String),
    /// Stop: the merge is over with this result.
    Finish(Result<(), AppError>),
}

/// A [`MergeAction`] with its texts as character sequences.
pub enum MergeActionView {
    OpenOutput(Seq<char>),
    AppendPart(Seq<char>),
    Flush,
    RemovePart(Seq<char>),
    Report(Seq<char>),
    Succeed,
    Fail(AppErrorView),
}

impl View for MergeAction {
    type V = MergeActionView;

    open spec fn view(&self) -> MergeActionView {
        match self {
            MergeAction::OpenOutput(path) => MergeActionView::OpenOutput(path@),
            MergeAction::AppendPart(path) => MergeActionView::AppendPart(path@),
            MergeAction::Flush => MergeActionView::Flush,
            MergeAction::RemovePart(path) => MergeActionView::RemovePart(path@),
            MergeAction::Report(message) => MergeActionView::Report(message@),
            MergeAction::Finish(Ok(_)) => MergeActionView::Succeed,
            MergeAction::Finish(Err(e)) => MergeActionView::Fail(e@),
        }
    }
}

/// The merge once the first `done` partial files are in the output: the
/// next one is appended, or the output is flushed if there is no other.
pub open spec fn merge_append_from(output_path: Seq<char>, num_chunks: u8, done: int) -> (
    MergeState,
    MergeActionView,
) {
    if done < num_chunks {
        (
            MergeState::Appending { index: done as u8 },
            MergeActionView::AppendPart(part_path_text(output_path, done as nat)),
        )
    } else {
        (MergeState::Flushing, MergeActionView::Flush)
    }
}

/// The merge once the first `done` partial files were dealt with after the
/// flush: the next one is deleted, or the merge ends well if there is no
/// other.
pub open spec fn merge_remove_from(output_path: Seq<char>, num_chunks: u8, done: int) -> (
    MergeState,
    MergeActionView,
) {
    if done < num_chunks {
        (
            MergeState::Removing { index: done as u8 },
            MergeActionView::RemovePart(part_path_text(output_path, done as nat)),
        )
    } else {
        (MergeState::Merged, MergeActionView::Succeed)
    }
}

/// The end of a merge that is given up with a connection error of the text
/// `message`.
pub open spec fn merge_failure(message: Seq<char>) -> (MergeState, MergeActionView) {
    (MergeState::Failed, MergeActionView::Fail(AppErrorView::CouldNotConnect(message)))
}

/// The step of a merge of the partial files `0` to `num_chunks - 1` of the
/// output at `output_path`: the state after `event` arrived in `state`, and
/// what the caller does next.
///
/// The partial files are appended in the order of their index. A partial
/// file that is missing or cannot be read, and an output that cannot be
/// created, written or flushed, end the merge with an error. The partial
/// files are deleted only after the flush; one that cannot be deleted is
/// reported and the merge goes on.
pub open spec fn merge_next(
    output_path: Seq<char>,
    num_chunks: u8,
    state: MergeState,
    event: MergeEventView,
) -> (MergeState, MergeActionView) {
    match (state, event) {
        (MergeState::Opening, MergeEventView::OutputOpened) => merge_append_from(
            output_path,
            num_chunks,
            0,
        ),
        (MergeState::Opening, MergeEventView::OpenFailed(why)) => merge_failure(
            "Failed to create output file: "@ + why,
        ),
        (MergeState::Appending { index }, MergeEventView::PartAppended) => merge_append_from(
            output_path,
            num_chunks,
            index + 1,
        ),
        (MergeState::Appending { index }, MergeEventView::PartMissing) => merge_failure(
            "Partial file missing: "@ + part_path_text(output_path, index as nat),
        ),
        (MergeState::Appending { index }, MergeEventView::OpenPartFailed(why)) => merge_failure(
            "Failed to open partial file "@ + part_path_text(output_path, index as nat) + ": "@
                + why,
        ),
        (MergeState::Appending { index }, MergeEventView::ReadPartFailed(why)) => merge_failure(
            "Failed to read partial file "@ + part_path_text(output_path, index as nat) + ": "@
                + why,
        ),
        (MergeState::Appending { index }, MergeEventView::AppendFailed(why)) => merge_failure(
            "Failed to write to output file: "@ + why,
        ),
        (MergeState::Flushing, MergeEventView::Flushed) => merge_remove_from(
            output_path,
            num_chunks,
            0,
        ),
        (MergeState::Flushing, MergeEventView::FlushFailed(why)) => merge_failure(
            "Failed to flush output file: "@ + why,
        ),
        (MergeState::Removing { index }, MergeEventView::PartRemoved) => merge_remove_from(
            output_path,
            num_chunks,
            index + 1,
        ),
        (MergeState::Removing { index }, MergeEventView::RemoveFailed(why)) => (
            MergeState::Reporting { index },
            MergeActionView::Report(
                "Failed to delete partial file "@ + part_path_text(output_path, index as nat)
                    + ": "@ + why,
            ),
        ),
        (MergeState::Reporting { index }, MergeEventView::Reported) => merge_remove_from(
            output_path,
            num_chunks,
            index + 1,
        ),
        _ => (
            MergeState::Failed,
            MergeActionView::Fail(AppErrorView::StringError("event out of order"@)),
        ),
    }
}

/// How a merge begins: with the creation of the output file.
pub fn merge_begin(output_path: &str) -> (first: (MergeState, MergeAction))
    ensures
        first.0 == MergeState::Opening,
        first.1@ == MergeActionView::OpenOutput(output_path@),
{
    (MergeState::Opening, MergeAction::OpenOutput(String::from_str(output_path)))
}

fn append_from(output_path: &str, num_chunks: u8, done: u8) -> (next: (MergeState, MergeAction))
    requires
        done <= num_chunks,
    ensures
        next.0 == merge_append_from(output_path@, num_chunks, done as int).0,
        next.1@ == merge_append_from(output_path@, num_chunks, done as int).1,
        next.0.wf(num_chunks),
{
    if done < num_chunks {
        (
            MergeState::Appending { index: done },
            MergeAction::AppendPart(part_file_path(output_path, done as usize)),
        )
    } else {
        (MergeState::Flushing, MergeAction::Flush)
    }
}

fn remove_from(output_path: &str, num_chunks: u8, done: u8) -> (next: (MergeState, MergeAction))
    requires
        done <= num_chunks,
    ensures
        next.0 == merge_remove_from(output_path@, num_chunks, done as int).0,
        next.1@ == merge_remove_from(output_path@, num_chunks, done as int).1,
        next.0.wf(num_chunks),
{
    if done < num_chunks {
        (
            MergeState::Removing { index: done },
            MergeAction::RemovePart(part_file_path(output_path, done as usize)),
        )
    } else {
        (MergeState::Merged, MergeAction::Finish(Ok(())))
    }
}

fn give_up(message: String) -> (next: (MergeState, MergeAction))
    ensures
        next.0 == merge_failure(message@).0,
        next.1@ == merge_failure(message@).1,
{
    (MergeState::Failed, MergeAction::Finish(Err(AppError::CouldNotConnect(message))))
}

fn give_up_on_part(what: &str, output_path: &str, index: u8, why: &str) -> (message: String)
    ensures
        message@ == what@ + part_path_text(output_path@, index as nat) + ": "@ + why@,
{
    let mut message = String::from_str(what);
    message.append(part_file_path(output_path, index as usize).as_str());
    message.append(": ");
    message.append(why);
    message
}

fn merge_out_of_order() -> (next: (MergeState, MergeAction))
    ensures
        next.0 == MergeState::Failed,
        next.1@ == MergeActionView::Fail(AppErrorView::StringError("event out of order"@)),
{
    (
        MergeState::Failed,
        MergeAction::Finish(Err(AppError::StringError(String::from_str("event out of order")))),
    )
}

/// Takes the merge of the partial files `0` to `num_chunks - 1` into the
/// output at `output_path` one step on: from `state` and the `event` that
/// arrived to the next state and the action to carry out.
pub fn merge_chunks(output_path: &str, num_chunks: u8, state: MergeState, event: MergeEvent) -> (next:
    (MergeState, MergeAction))
    requires
        state.wf(num_chunks),
    ensures
        next.0 == merge_next(output_path@, num_chunks, state, event@).0,
        next.1@ == merge_next(output_path@, num_chunks, state, event@).1,
        next.0.wf(num_chunks),
{
    match state {
        MergeState::Opening => match event {
            MergeEvent::OutputOpened => append_from(output_path, num_chunks, 0),
            MergeEvent::OpenFailed(why) => {
                let mut message = String::from_str("Failed to create output file: ");
                message.append(why.as_str());
                give_up(message)
            },
            _ => merge_out_of_order(),
        },
        MergeState::Appending { index } => match event {
            MergeEvent::PartAppended => append_from(output_path, num_chunks, index + 1),
            MergeEvent::PartMissing => {
                let mut message = String::from_str("Partial file missing: ");
                message.append(part_file_path(output_path, index as usize).as_str());
                give_up(message)
            },
            MergeEvent::OpenPartFailed(why) => give_up(
                give_up_on_part("Failed to open partial file ", output_path, index, why.as_str()),
            ),
            MergeEvent::ReadPartFailed(why) => give_up(
                give_up_on_part("Failed to read partial file ", output_path, index, why.as_str()),
            ),
            MergeEvent::AppendFailed(why) => {
                let mut message = String::from_str("Failed to write to output file: ");
                message.append(why.as_str());
                give_up(message)
            },
            _ => merge_out_of_order(),
        },
        MergeState::Flushing => match event {
            MergeEvent::Flushed => remove_from(output_path, num_chunks, 0),
            MergeEvent::FlushFailed(why) => {
                let mut message = String::from_str("Failed to flush output file: ");
                message.append(why.as_str());
                give_up(message)
            },
            _ => merge_out_of_order(),
        },
        MergeState::Removing { index } => match event {
            MergeEvent::PartRemoved => remove_from(output_path, num_chunks, index + 1),
            MergeEvent::RemoveFailed(why) => (
                MergeState::Reporting { index },
                MergeAction::Report(
                    give_up_on_part(
                        "Failed to delete partial file ",
                        output_path,
                        index,
                        why.as_str(),
                    ),
                ),
            ),
            _ => merge_out_of_order(),
        },
        MergeState::Reporting { index } => match event {
            MergeEvent::Reported => remove_from(output_path, num_chunks, index + 1),
            _ => merge_out_of_order(),
        },
        _ => merge_out_of_order(),
    }
}

/// The state of a merge and every action handed out, in order, once the
/// events `events` have arrived one after the other since the merge began.
pub open spec fn merge_run(output_path: Seq<char>, num_chunks: u8, events: Seq<MergeEventView>) -> (
    MergeState,
    Seq<MergeActionView>,
)
    decreases events.len(),
{
    if events.len() == 0 {
        (MergeState::Opening, seq![MergeActionView::OpenOutput(output_path)])
    } else {
        let before = merge_run(output_path, num_chunks, events.drop_last());
        let step = merge_next(output_path, num_chunks, before.0, events.last());
        (step.0, before.1.push(step.1))
    }
}

/// The actions of a merge up to the moment the first `appended` partial
/// files have been asked for: the creation of the output, then one request
/// to append for each of them, in the order of their index.
pub open spec fn merge_prelude(output_path: Seq<char>, appended: nat) -> Seq<MergeActionView> {
    Seq::new(
        appended + 1,
        |i: int|
            if i == 0 {
                MergeActionView::OpenOutput(output_path)
            } else {
                MergeActionView::AppendPart(part_path_text(output_path, (i - 1) as nat))
            },
    )
}

/// The request to delete the partial file with index `index`.
pub open spec fn removal_of(output_path: Seq<char>, index: int) -> MergeActionView {
    MergeActionView::RemovePart(part_path_text(output_path, index as nat))
}

/// Whether the deletion of each of the first `removed` partial files is
/// among `actions`.
pub open spec fn removals_asked(
    output_path: Seq<char>,
    actions: Seq<MergeActionView>,
    removed: int,
) -> bool {
    forall|j: int| 0 <= j < removed ==> actions.contains(#[trigger] removal_of(output_path, j))
}

/// What holds of the actions handed out so far in each state of a merge.
pub open spec fn merge_history_fits(
    output_path: Seq<char>,
    num_chunks: u8,
    state: MergeState,
    actions: Seq<MergeActionView>,
) -> bool {
    let all = merge_prelude(output_path, num_chunks as nat).push(MergeActionView::Flush);
    match state {
        MergeState::Opening => actions == merge_prelude(output_path, 0),
        MergeState::Appending { index } => index < num_chunks && actions == merge_prelude(
            output_path,
            (index + 1) as nat,
        ),
        MergeState::Flushing => actions == all,
        MergeState::Removing { index } => index < num_chunks && all.is_prefix_of(actions)
            && removals_asked(output_path, actions, index + 1),
        MergeState::Reporting { index } => index < num_chunks && all.is_prefix_of(actions)
            && removals_asked(output_path, actions, index + 1),
        MergeState::Merged => all.is_prefix_of(actions) && removals_asked(
            output_path,
            actions,
            num_chunks as int,
        ),
        MergeState::Failed => true,
    }
}

proof fn lemma_push_keeps_history(
    output_path: Seq<char>,
    all: Seq<MergeActionView>,
    actions: Seq<MergeActionView>,
    action: MergeActionView,
    removed: int,
)
    requires
        all.is_prefix_of(actions),
        removals_asked(output_path, actions, removed),
    ensures
        all.is_prefix_of(actions.push(action)),
        removals_asked(output_path, actions.push(action), removed),
        action == removal_of(output_path, removed) ==> removals_asked(
            output_path,
            actions.push(action),
            removed + 1,
        ),
{
    let pushed = actions.push(action);
    assert(pushed.subrange(0, all.len() as int) =~= actions.subrange(0, all.len() as int));
    assert forall|j: int| 0 <= j < removed implies pushed.contains(
        #[trigger] removal_of(output_path, j),
    ) by {
        let wanted = removal_of(output_path, j);
        assert(actions.contains(wanted));
        let at = choose|i: int| 0 <= i < actions.len() && actions[i] == wanted;
        assert(pushed[at] == wanted);
    }
    if action == removal_of(output_path, removed) {
        assert(pushed[actions.len() as int] == action);
        assert forall|j: int| 0 <= j < removed + 1 implies pushed.contains(
            #[trigger] removal_of(output_path, j),
        ) by {
            if j == removed {
                assert(pushed.contains(action));
            }
        }
    }
}

/// In every state that a merge reaches, whatever arrives: the output file
/// was created first; the partial files were asked for one by one in the
/// order of their index, with nothing in between; the flush came right
/// after the last of them; and deletions came only after the flush. A
/// merge that ended well has appended every partial file and asked for the
/// deletion of each.
pub proof fn lemma_merge_history(output_path: Seq<char>, num_chunks: u8, events: Seq<MergeEventView>)
    ensures
        merge_run(output_path, num_chunks, events).0.wf(num_chunks),
        merge_history_fits(
            output_path,
            num_chunks,
            merge_run(output_path, num_chunks, events).0,
            merge_run(output_path, num_chunks, events).1,
        ),
    decreases events.len(),
{
    let all = merge_prelude(output_path, num_chunks as nat).push(MergeActionView::Flush);
    if events.len() == 0 {
        assert(merge_run(output_path, num_chunks, events).1 =~= merge_prelude(output_path, 0));
    } else {
        lemma_merge_history(output_path, num_chunks, events.drop_last());
        let before = merge_run(output_path, num_chunks, events.drop_last());
        let step = merge_next(output_path, num_chunks, before.0, events.last());
        let actions = before.1.push(step.1);
        match before.0 {
            MergeState::Opening => {
                if step.0 is Appending {
                    assert(actions =~= merge_prelude(output_path, 1));
                } else if step.0 is Flushing {
                    assert(actions =~= all);
                }
            },
            MergeState::Appending { index } => {
                if step.0 is Appending {
                    assert(actions =~= merge_prelude(output_path, (index + 2) as nat));
                } else if step.0 is Flushing {
                    assert(actions =~= all);
                }
            },
            MergeState::Flushing => {
                assert(all.is_prefix_of(before.1)) by {
                    assert(before.1.subrange(0, all.len() as int) =~= all);
                }
                assert(removals_asked(output_path, before.1, 0));
                lemma_push_keeps_history(output_path, all, before.1, step.1, 0);
            },
            MergeState::Removing { index } => {
                lemma_push_keeps_history(output_path, all, before.1, step.1, index + 1);
            },
            MergeState::Reporting { index } => {
                lemma_push_keeps_history(output_path, all, before.1, step.1, index + 1);
            },
            MergeState::Merged => {},
            MergeState::Failed => {},
        }
    }
}

/// The bytes of the `count` first parts, one after the other in the order
/// of their index: what the output holds once they were appended.
pub open spec fn merged_bytes(parts: Seq<Seq<u8>>, count: nat) -> Seq<u8>
    decreases count,
{
    if count == 0 {
        Seq::empty()
    } else {
        merged_bytes(parts, (count - 1) as nat) + parts[count - 1]
    }
}

/// Whether each of the `ranges` has its bytes of `resource` in the partial
/// file of its index.
pub open spec fn parts_hold_ranges(
    parts: Seq<Seq<u8>>,
    ranges: Seq<(u64, u64)>,
    resource: Seq<u8>,
) -> bool {
    &&& parts.len() == ranges.len()
    &&& forall|i: int|
        0 <= i < ranges.len() ==> #[trigger] parts[i] == resource.subrange(
            ranges[i].0 as int,
            ranges[i].1 + 1,
        )
}

proof fn lemma_merged_prefix(
    parts: Seq<Seq<u8>>,
    ranges: Seq<(u64, u64)>,
    resource: Seq<u8>,
    count: nat,
)
    requires
        parts_hold_ranges(parts, ranges, resource),
        1 <= count <= ranges.len(),
        ranges[0].0 == 0,
        forall|i: int|
            0 <= i < ranges.len() ==> (#[trigger] ranges[i]).0 <= ranges[i].1 < resource.len(),
        forall|i: int| 0 <= i < ranges.len() - 1 ==> (#[trigger] ranges[i]).1 + 1 == ranges[i + 1].0,
    ensures
        merged_bytes(parts, count) == resource.subrange(0, ranges[count - 1].1 + 1),
    decreases count,
{
    if count == 1 {
        assert(merged_bytes(parts, 0) =~= Seq::<u8>::empty());
        assert(merged_bytes(parts, 1) =~= parts[0]);
    } else {
        lemma_merged_prefix(parts, ranges, resource, (count - 1) as nat);
        let last = ranges[count - 1];
        let before = ranges[count - 2];
        assert(before.1 + 1 == last.0);
        assert(resource.subrange(0, last.0 as int) + resource.subrange(last.0 as int, last.1 + 1)
            =~= resource.subrange(0, last.1 + 1));
    }
}

/// Appending the partial files in the order of their index gives back the
/// resource, byte for byte: if each range of the plan for `connections`
/// requests has its bytes of the resource in its partial file, the merged
/// output equals the resource, and so has its length.
pub proof fn lemma_merge_restores_resource(
    connections: nat,
    resource: Seq<u8>,
    parts: Seq<Seq<u8>>,
)
    requires
        connections >= 1,
        1 <= resource.len() <= u64::MAX,
        parts_hold_ranges(
            parts,
            crate::downloader::byte_ranges(connections, resource.len()),
            resource,
        ),
    ensures
        merged_bytes(parts, parts.len()) == resource,
        merged_bytes(parts, parts.len()).len() == resource.len(),
{
    let ranges = crate::downloader::byte_ranges(connections, resource.len());
    crate::downloader::lemma_plan_partitions(connections, resource.len());
    lemma_merged_prefix(parts, ranges, resource, ranges.len());
    assert(resource.subrange(0, resource.len() as int) =~= resource);
}

} // verus!
