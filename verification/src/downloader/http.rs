//! Range requests over HTTP: the headers to send, what an answer is worth,
//! and the progress of one range from request to complete partial file.

use crate::concurrency::{DownloadTask, DownloadTaskView};
use crate::error::{AppError, AppErrorView};
use crate::filesystem::{part_path_text, write_size};
use crate::text::{decimal, decimal_text, parse_u64, parse_u64_text, starts_with};
use vstd::prelude::*;

verus! {

/// The status code of an answer that holds the range asked for.
pub const PARTIAL_CONTENT: u16 = 206;

/// What `reqwest::StatusCode`, which is the status code of the `http`
/// crate, prints for the number `code`: `None` if the number is no status
/// code, else the number, a space and the reason phrase that the crate
/// knows for it.
pub uninterp spec fn status_line(code: u16) -> Option<Seq<char>>;

/// The status line of `code`. Calls `reqwest::StatusCode::from_u16`, which
/// accepts the numbers from 100 to 999 and no others, and hands on what the
/// status code it returns displays.
#[verifier::external_body]
fn status_display(code: u16) -> (line: Option<String>)
    ensures
        line is Some <==> 100 <= code <= 999,
        match line {
            Some(text) => status_line(code) == Some(text@),
            None => status_line(code) is None,
        },
{
    match reqwest::StatusCode::from_u16(code) {
        Ok(status) => Some(status.to_string()),
        Err(_) => None,
    }
}

/// How a status is named in a message: its status line, or the bare number
/// where the number is no status code.
pub open spec fn status_text(code: u16) -> Seq<char> {
    match status_line(code) {
        Some(text) => text,
        None => decimal_text(code as nat),
    }
}

/// How the status `code` is named in a message.
pub fn describe_status(code: u16) -> (text: String)
    ensures
        text@ == status_text(code),
{
    match status_display(code) {
        Some(text) => text,
        None => decimal(code as u64),
    }
}

/// Value of the `Range` header that asks for the bytes `start` to `end`.
pub open spec fn range_header_text(start: u64, end: u64) -> Seq<char> {
    "bytes="@ + decimal_text(start as nat) + "-"@ + decimal_text(end as nat)
}

/// Value of the `Range` header that asks for the bytes `start` to `end`.
pub fn range_header(start: u64, end: u64) -> (header: String)
    ensures
        header@ == range_header_text(start, end),
{
    let mut header = String::from_str("bytes=");
    header.append(decimal(start).as_str());
    header.append("-");
    header.append(decimal(end).as_str());
    header
}

/// What the `Content-Range` header of an answer to a request for the bytes
/// `start` to `end` has to begin with.
pub open spec fn content_range_prefix(start: u64, end: u64) -> Seq<char> {
    "bytes "@ + decimal_text(start as nat) + "-"@ + decimal_text(end as nat) + "/"@
}

/// What the `Content-Range` header of an answer to a request for the bytes
/// `start` to `end` has to begin with.
pub fn expected_content_range(start: u64, end: u64) -> (prefix: String)
    ensures
        prefix@ == content_range_prefix(start, end),
{
    let mut prefix = String::from_str("bytes ");
    prefix.append(decimal(start).as_str());
    prefix.append("-");
    prefix.append(decimal(end).as_str());
    prefix.append("/");
    prefix
}

/// Why an answer to the request for the bytes `start` to `end` is refused,
/// or `None` if it is accepted. Only status 206 is accepted: an answer with
/// any other status, 200 included, does not hold the range. The
/// `Content-Range` header must be there and begin with the range asked for.
pub open spec fn range_response_error(
    start: u64,
    end: u64,
    status: u16,
    status_text: Seq<char>,
    content_range: Option<Seq<char>>,
) -> Option<AppErrorView> {
    let prefix = content_range_prefix(start, end);
    if status != PARTIAL_CONTENT {
        Some(AppErrorView::CouldNotConnect("Request failed: "@ + status_text))
    } else {
        match content_range {
            None => Some(
                AppErrorView::CouldNotConnect(
                    "Invalid Content-Range: header missing, expected "@ + prefix + "*"@,
                ),
            ),
            Some(got) => if prefix.is_prefix_of(got) {
                None
            } else {
                Some(
                    AppErrorView::CouldNotConnect(
                        "Invalid Content-Range: got "@ + got + ", expected "@ + prefix + "*"@,
                    ),
                )
            },
        }
    }
}

/// Judges the answer to the request for the bytes `start` to `end`, given
/// its status, the text that names the status in a message, and its
/// `Content-Range` header if it has one.
pub fn check_range_response(
    start: u64,
    end: u64,
    status: u16,
    status_text: &str,
    content_range: Option<&str>,
) -> (verdict: Result<(), AppError>)
    ensures
        match verdict {
            Ok(_) => range_response_error(
                start,
                end,
                status,
                status_text@,
                content_range_view(content_range),
            ) is None,
            Err(e) => range_response_error(
                start,
                end,
                status,
                status_text@,
                content_range_view(content_range),
            ) == Some(e@),
        },
{
    if status != PARTIAL_CONTENT {
        let mut message = String::from_str("Request failed: ");
        message.append(status_text);
        return Err(AppError::CouldNotConnect(message));
    }
    let prefix = expected_content_range(start, end);
    match content_range {
        None => {
            let mut message = String::from_str("Invalid Content-Range: header missing, expected ");
            message.append(prefix.as_str());
            message.append("*");
            Err(AppError::CouldNotConnect(message))
        },
        Some(got) => {
            if starts_with(got, prefix.as_str()) {
                Ok(())
            } else {
                let mut message = String::from_str("Invalid Content-Range: got ");
                message.append(got);
                message.append(", expected ");
                message.append(prefix.as_str());
                message.append("*");
                Err(AppError::CouldNotConnect(message))
            }
        },
    }
}

/// The characters of a header value that may be absent.
pub open spec fn content_range_view(header: Option<&str>) -> Option<Seq<char>> {
    match header {
        Some(text) => Some(text@),
        None => None,
    }
}

/// What the answer to a `HEAD` request says of the size of the resource:
/// the value of `Content-Length` if the status is one of 200 to 299 and the
/// header holds a number of at most 64 bits, else the error for it.
pub open spec fn probe_result(
    status: u16,
    status_text: Seq<char>,
    content_length: Option<Seq<char>>,
) -> Result<u64, AppErrorView> {
    if !(200 <= status < 300) {
        Err(AppErrorView::CouldNotConnect(status_text))
    } else {
        match content_length {
            Some(text) => match parse_u64_text(text) {
                Some(size) => Ok(size),
                None => Err(AppErrorView::CouldNotConnect("Could not parse content length"@)),
            },
            None => Err(AppErrorView::CouldNotConnect("Could not parse content length"@)),
        }
    }
}

/// Reads the size of the resource off the answer to a `HEAD` request, given
/// its status, the text that names the status in a message, and its
/// `Content-Length` header if it has one.
pub fn read_total_file_size(status: u16, status_text: &str, content_length: Option<&str>) -> (size:
    Result<u64, AppError>)
    ensures
        match size {
            Ok(n) => probe_result(status, status_text@, content_range_view(content_length)) == Ok::<
                u64,
                AppErrorView,
            >(n),
            Err(e) => probe_result(status, status_text@, content_range_view(content_length)) == Err::<
                u64,
                AppErrorView,
            >(e@),
        },
{
    if status < 200 || status >= 300 {
        return Err(AppError::CouldNotConnect(String::from_str(status_text)));
    }
    match content_length {
        Some(text) => match parse_u64(text) {
            Some(n) => Ok(n),
            None => Err(AppError::CouldNotConnect(String::from_str("Could not parse content length"))),
        },
        None => Err(AppError::CouldNotConnect(String::from_str("Could not parse content length"))),
    }
}

/// The size of the resource according to the answer to a `HEAD` request
/// with status `status` and, if it has one, the `Content-Length` header
/// `content_length`.
pub fn get_total_file_size(status: u16, content_length: Option<&str>) -> (size: Result<u64, AppError>)
    ensures
        match size {
            Ok(n) => probe_result(status, status_text(status), content_range_view(content_length))
                == Ok::<u64, AppErrorView>(n),
            Err(e) => probe_result(status, status_text(status), content_range_view(content_length))
                == Err::<u64, AppErrorView>(e@),
        },
{
    let text = describe_status(status);
    read_total_file_size(status, text.as_str(), content_length)
}

/// Where the download of one range stands.
#[derive(Clone, Copy, Debug, PartialEq, Eq)]
pub enum ChunkState {
    /// The request is on its way and the answer is awaited.
    Requested,
    /// The answer was accepted and the partial file is being created.
    Creating,
    /// The partial file holds `written` bytes and the next buffer of the
    /// body is awaited.
    Reading { written: u64 },
    /// The partial file holds `written` bytes and `len` more are being
    /// written behind them.
    Writing { written: u64, len: u64 },
    /// The download is over, for better or worse.
    Ended,
}

impl ChunkState {
    /// A state fits a task when it never counts more bytes than the task's
    /// range holds, and none is awaited once the range is complete.
    pub open spec fn wf(self, task: DownloadTaskView) -> bool {
        match self {
            ChunkState::Reading { written } => written < task.expected_size(),
            ChunkState::Writing { written, len } => written < task.expected_size() && written + len
                <= task.expected_size(),
            _ => true,
        }
    }

    /// Whether the state fits the task.
    pub fn fits(&self, task: &DownloadTask) -> (ok: bool)
        requires
            task.wf(),
        ensures
            ok == self.wf(task@),
    {
        let expected: u64 = task.expected_size();
        match self {
            ChunkState::Reading { written } => *written < expected,
            ChunkState::Writing { written, len } => *written < expected && *len <= expected
                - *written,
            _ => true,
        }
    }
}

/// What happened since the last action was handed out.
#[derive(Clone, Debug, PartialEq, Eq)]
pub enum ChunkEvent {
    /// The request could not be sent or no answer came; the text says why.
    SendFailed(String),
    /// The answer arrived, with this status and, if it has one, this
    /// `Content-Range` header.
    Response { status: u16, content_range: Option<String> },
    /// The partial file was created empty.
    PartCreated,
    /// The partial file could not be created; the text says why.
    CreateFailed(String),
    /// A buffer of this many bytes of the body arrived.
    Data(usize),
    /// The body broke off; the text says why.
    StreamFailed(String),
    /// The body ended.
    StreamEnded,
    /// The bytes handed out for writing are in the partial file.
    Written,
    /// The bytes could not be written; the text says why.
    WriteFailed(String),
}

/// A [`ChunkEvent`] with its texts as character sequences.
pub enum ChunkEventView {
    SendFailed(Seq<char>),
    Response { status: u16, content_range: Option<Seq<char>> },
    PartCreated,
    CreateFailed(Seq<char>),
    Data(usize),
    StreamFailed(Seq<char>),
    StreamEnded,
    Written,
    WriteFailed(Seq<char>),
}

impl View for ChunkEvent {
    type V = ChunkEventView;

    open spec fn view(&self) -> ChunkEventView {
        match self {
            ChunkEvent::SendFailed(text) => ChunkEventView::SendFailed(text@),
            ChunkEvent::Response { status, content_range } => ChunkEventView::Response {
                status: *status,
                content_range: match content_range {
                    Some(text) => Some(text@),
                    None => None,
                },
            },
            ChunkEvent::PartCreated => ChunkEventView::PartCreated,
            ChunkEvent::CreateFailed(text) => ChunkEventView::CreateFailed(text@),
            ChunkEvent::Data(len) => ChunkEventView::Data(*len),
            ChunkEvent::StreamFailed(text) => ChunkEventView::StreamFailed(text@),
            ChunkEvent::StreamEnded => ChunkEventView::StreamEnded,
            ChunkEvent::Written => ChunkEventView::Written,
            ChunkEvent::WriteFailed(text) => ChunkEventView::WriteFailed(text@),
        }
    }
}

/// What the caller has to do next.
#[derive(Debug, PartialEq, Eq)]
pub enum ChunkAction {
    /// Create the partial file at this path, emptying it if it exists.
    CreatePart(String),
    /// Wait for the next buffer of the body.
    Read,
    /// Write the first `len` bytes of the buffer at `position` of the
    /// partial file and move the progress bar on by `len`. The rest of the
    /// buffer is dropped.
    Write { position: u64, len: usize },
    /// Stop reading: the download is over with this result.
    Finish(Result<(), AppError>),
}

/// A [`ChunkAction`] with its texts as character sequences.
pub enum ChunkActionView {
    CreatePart(Seq<char>),
    Read,
    Write { position: u64, len: usize },
    Succeed,
    Fail(AppErrorView),
}

impl View for ChunkAction {
    type V = ChunkActionView;

    open spec fn view(&self) -> ChunkActionView {
        match self {
            ChunkAction::CreatePart(path) => ChunkActionView::CreatePart(path@),
            ChunkAction::Read => ChunkActionView::Read,
            ChunkAction::Write { position, len } => ChunkActionView::Write {
                position: *position,
                len: *len,
            },
            ChunkAction::Finish(Ok(_)) => ChunkActionView::Succeed,
            ChunkAction::Finish(Err(e)) => ChunkActionView::Fail(e@),
        }
    }
}

/// The error for a partial file that does not hold as many bytes as its
/// range when the body has ended.
pub open spec fn size_mismatch(task: DownloadTaskView, written: u64) -> AppErrorView {
    AppErrorView::CouldNotConnect(
        "Written size "@ + decimal_text(written as nat) + " does not match expected "@
            + decimal_text(task.expected_size() as nat) + " for chunk "@ + decimal_text(
            task.index as nat,
        ),
    )
}

/// How a download ends once nothing more will be written: well if the
/// partial file holds exactly the bytes of the range, else with the error
/// for the mismatch.
pub open spec fn chunk_end(task: DownloadTaskView, written: u64) -> ChunkActionView {
    if written == task.expected_size() {
        ChunkActionView::Succeed
    } else {
        ChunkActionView::Fail(size_mismatch(task, written))
    }
}

/// How many bytes of a buffer of `len` bytes go into a partial file that
/// holds `written` bytes: all of them, or as many as the range still lacks.
pub open spec fn write_len(task: DownloadTaskView, written: u64, len: usize) -> int {
    let remaining = task.expected_size() - written;
    if len <= remaining {
        len as int
    } else {
        remaining
    }
}

/// The step of a download: the state after `event` arrived in `state`, and
/// what the caller does next.
///
/// A refused answer, a failure of the transport or of the file system, and
/// an event that the state does not await all end the download with an
/// error. A buffer is written up to the end of the range and no further.
/// The download succeeds at the moment the partial file holds the whole
/// range, and fails if the body ends before that.
pub open spec fn chunk_next(task: DownloadTaskView, state: ChunkState, event: ChunkEventView) -> (
    ChunkState,
    ChunkActionView,
) {
    match (state, event) {
        (ChunkState::Requested, ChunkEventView::SendFailed(why)) => (
            ChunkState::Ended,
            ChunkActionView::Fail(AppErrorView::CouldNotConnect(why)),
        ),
        (ChunkState::Requested, ChunkEventView::Response { status, content_range }) => {
            match range_response_error(
                task.start,
                task.end,
                status,
                status_text(status),
                content_range,
            ) {
                Some(e) => (ChunkState::Ended, ChunkActionView::Fail(e)),
                None => (
                    ChunkState::Creating,
                    ChunkActionView::CreatePart(part_path_text(task.file_path, task.index as nat)),
                ),
            }
        },
        (ChunkState::Creating, ChunkEventView::PartCreated) => (
            ChunkState::Reading { written: 0 },
            ChunkActionView::Read,
        ),
        (ChunkState::Creating, ChunkEventView::CreateFailed(why)) => (
            ChunkState::Ended,
            ChunkActionView::Fail(AppErrorView::CouldNotConnect(why)),
        ),
        (ChunkState::Reading { written }, ChunkEventView::Data(len)) => (
            ChunkState::Writing { written, len: write_len(task, written, len) as u64 },
            ChunkActionView::Write { position: written, len: write_len(task, written, len) as usize },
        ),
        (ChunkState::Reading { written }, ChunkEventView::StreamFailed(why)) => (
            ChunkState::Ended,
            ChunkActionView::Fail(AppErrorView::CouldNotReadChunk(why)),
        ),
        (ChunkState::Reading { written }, ChunkEventView::StreamEnded) => (
            ChunkState::Ended,
            chunk_end(task, written),
        ),
        (ChunkState::Writing { written, len }, ChunkEventView::Written) => {
            if written + len >= task.expected_size() {
                (ChunkState::Ended, chunk_end(task, (written + len) as u64))
            } else {
                (ChunkState::Reading { written: (written + len) as u64 }, ChunkActionView::Read)
            }
        },
        (ChunkState::Writing { written, len }, ChunkEventView::WriteFailed(why)) => (
            ChunkState::Ended,
            ChunkActionView::Fail(AppErrorView::CouldNotConnect(why)),
        ),
        _ => (
            ChunkState::Ended,
            ChunkActionView::Fail(AppErrorView::StringError("event out of order"@)),
        ),
    }
}

fn mismatch_error(task: &DownloadTask, written: u64) -> (e: AppError)
    requires
        task.wf(),
    ensures
        e@ == size_mismatch(task@, written),
{
    let mut message = String::from_str("Written size ");
    message.append(decimal(written).as_str());
    message.append(" does not match expected ");
    message.append(decimal(task.expected_size()).as_str());
    message.append(" for chunk ");
    message.append(decimal(task.index as u64).as_str());
    AppError::CouldNotConnect(message)
}

fn end_of_chunk(task: &DownloadTask, written: u64) -> (action: ChunkAction)
    requires
        task.wf(),
    ensures
        action@ == chunk_end(task@, written),
{
    if written == task.expected_size() {
        ChunkAction::Finish(Ok(()))
    } else {
        ChunkAction::Finish(Err(mismatch_error(task, written)))
    }
}

/// Takes the download of `task` one step on: from `state` and the `event`
/// that arrived to the next state and the action to carry out.
pub fn download(task: &DownloadTask, state: ChunkState, event: ChunkEvent) -> (next: (
    ChunkState,
    ChunkAction,
))
    requires
        task.wf(),
        state.wf(task@),
    ensures
        next.0 == chunk_next(task@, state, event@).0,
        next.1@ == chunk_next(task@, state, event@).1,
        next.0.wf(task@),
{
    match state {
        ChunkState::Requested => match event {
            ChunkEvent::SendFailed(why) => (
                ChunkState::Ended,
                ChunkAction::Finish(Err(AppError::CouldNotConnect(why))),
            ),
            ChunkEvent::Response { status, content_range } => {
                let text = describe_status(status);
                let header: Option<&str> = match &content_range {
                    Some(value) => Some(value.as_str()),
                    None => None,
                };
                match check_range_response(task.start, task.end, status, text.as_str(), header) {
                    Ok(_) => (ChunkState::Creating, ChunkAction::CreatePart(task.part_path())),
                    Err(e) => (ChunkState::Ended, ChunkAction::Finish(Err(e))),
                }
            },
            _ => out_of_order(),
        },
        ChunkState::Creating => match event {
            ChunkEvent::PartCreated => (ChunkState::Reading { written: 0 }, ChunkAction::Read),
            ChunkEvent::CreateFailed(why) => (
                ChunkState::Ended,
                ChunkAction::Finish(Err(AppError::CouldNotConnect(why))),
            ),
            _ => out_of_order(),
        },
        ChunkState::Reading { written } => match event {
            ChunkEvent::Data(len) => {
                let remaining: u64 = task.expected_size() - written;
                if len as u64 <= remaining {
                    (
                        ChunkState::Writing { written, len: len as u64 },
                        ChunkAction::Write { position: written, len },
                    )
                } else {
                    (
                        ChunkState::Writing { written, len: remaining },
                        ChunkAction::Write { position: written, len: remaining as usize },
                    )
                }
            },
            ChunkEvent::StreamFailed(why) => (
                ChunkState::Ended,
                ChunkAction::Finish(Err(AppError::CouldNotReadChunk(why))),
            ),
            ChunkEvent::StreamEnded => (ChunkState::Ended, end_of_chunk(task, written)),
            _ => out_of_order(),
        },
        ChunkState::Writing { written, len } => match event {
            ChunkEvent::Written => {
                let total: u64 = written + len;
                if total >= task.expected_size() {
                    (ChunkState::Ended, end_of_chunk(task, total))
                } else {
                    (ChunkState::Reading { written: total }, ChunkAction::Read)
                }
            },
            ChunkEvent::WriteFailed(why) => (
                ChunkState::Ended,
                ChunkAction::Finish(Err(AppError::CouldNotConnect(why))),
            ),
            _ => out_of_order(),
        },
        ChunkState::Ended => out_of_order(),
    }
}

fn out_of_order() -> (next: (ChunkState, ChunkAction))
    ensures
        next.0 == ChunkState::Ended,
        next.1@ == ChunkActionView::Fail(AppErrorView::StringError("event out of order"@)),
{
    (
        ChunkState::Ended,
        ChunkAction::Finish(Err(AppError::StringError(String::from_str("event out of order")))),
    )
}

/// The state that a download is in after the events `events` arrived, one
/// after the other, starting in `state`.
pub open spec fn chunk_run(
    task: DownloadTaskView,
    state: ChunkState,
    events: Seq<ChunkEventView>,
) -> ChunkState
    decreases events.len(),
{
    if events.len() == 0 {
        state
    } else {
        chunk_run(task, chunk_next(task, state, events[0]).0, events.drop_first())
    }
}

/// A step never leaves the states that fit the task.
pub proof fn lemma_chunk_step_fits(task: DownloadTaskView, state: ChunkState, event: ChunkEventView)
    requires
        task.wf(),
        state.wf(task),
    ensures
        chunk_next(task, state, event).0.wf(task),
{
}

/// Whatever arrives, in whatever order, a download that starts with its
/// request stays in states that fit the task: the partial file never holds
/// more bytes than the range.
pub proof fn lemma_chunk_run_fits(task: DownloadTaskView, state: ChunkState, events: Seq<ChunkEventView>)
    requires
        task.wf(),
        state.wf(task),
    ensures
        chunk_run(task, state, events).wf(task),
    decreases events.len(),
{
    if events.len() > 0 {
        lemma_chunk_step_fits(task, state, events[0]);
        lemma_chunk_run_fits(task, chunk_next(task, state, events[0]).0, events.drop_first());
    }
}

/// Bytes are written only while the body is read, right behind those
/// already written, never more than the buffer holds and never past the
/// end of the range.
pub proof fn lemma_write_stays_in_range(task: DownloadTaskView, state: ChunkState, event: ChunkEventView)
    requires
        task.wf(),
        state.wf(task),
        chunk_next(task, state, event).1 is Write,
    ensures
        state is Reading,
        event is Data,
        chunk_next(task, state, event).1->Write_position == state->Reading_written,
        chunk_next(task, state, event).1->Write_len <= event->Data_0,
        state->Reading_written + chunk_next(task, state, event).1->Write_len <= task.expected_size(),
{
}

/// A download succeeds only at the moment its partial file holds exactly
/// the bytes of its range.
pub proof fn lemma_success_is_complete(task: DownloadTaskView, state: ChunkState, event: ChunkEventView)
    requires
        task.wf(),
        state.wf(task),
        chunk_next(task, state, event).1 is Succeed,
    ensures
        state is Writing,
        event is Written,
        state->Writing_written + state->Writing_len == task.expected_size(),
        chunk_next(task, state, event).0 is Ended,
{
}

/// A buffer that holds more than the range still lacks is cut off at the
/// end of the range, and once that much is written the download succeeds
/// with a partial file of exactly the expected size.
pub proof fn lemma_surplus_is_dropped(task: DownloadTaskView, written: u64, len: usize)
    requires
        task.wf(),
        written < task.expected_size(),
        len >= task.expected_size() - written,
    ensures
        ({
            let lacking = task.expected_size() - written;
            let first = chunk_next(task, ChunkState::Reading { written }, ChunkEventView::Data(len));
            let second = chunk_next(task, first.0, ChunkEventView::Written);
            &&& first.1 == ChunkActionView::Write { position: written, len: lacking as usize }
            &&& first.0 == ChunkState::Writing { written, len: lacking as u64 }
            &&& second.1 is Succeed
            &&& second.0 is Ended
        }),
{
}

/// A body that ends before the range is complete makes the download fail
/// with the error for the size mismatch.
pub proof fn lemma_short_body_fails(task: DownloadTaskView, written: u64)
    requires
        task.wf(),
        written < task.expected_size(),
    ensures
        chunk_next(task, ChunkState::Reading { written }, ChunkEventView::StreamEnded) == (
            ChunkState::Ended,
            ChunkActionView::Fail(size_mismatch(task, written)),
        ),
{
}

/// An answer with a status other than 206, without a `Content-Range` header
/// or with one that does not begin with the range asked for ends the
/// download with a connection error, before a partial file is created or a
/// byte is written.
pub proof fn lemma_refused_answer_ends(
    task: DownloadTaskView,
    status: u16,
    content_range: Option<Seq<char>>,
)
    requires
        status != PARTIAL_CONTENT || content_range is None || !content_range_prefix(
            task.start,
            task.end,
        ).is_prefix_of(content_range->0),
    ensures
        ({
            let next = chunk_next(
                task,
                ChunkState::Requested,
                ChunkEventView::Response { status, content_range },
            );
            &&& next.0 is Ended
            &&& next.1 is Fail
            &&& next.1->Fail_0 is CouldNotConnect
        }),
{
}

/// An answer with status 206 and a `Content-Range` header that begins with
/// the range asked for is accepted: the partial file of the task is created
/// next.
pub proof fn lemma_accepted_answer_creates_part(
    task: DownloadTaskView,
    content_range: Seq<char>,
)
    requires
        content_range_prefix(task.start, task.end).is_prefix_of(content_range),
    ensures
        chunk_next(
            task,
            ChunkState::Requested,
            ChunkEventView::Response { status: PARTIAL_CONTENT, content_range: Some(content_range) },
        ) == (
            ChunkState::Creating,
            ChunkActionView::CreatePart(part_path_text(task.file_path, task.index as nat)),
        ),
{
}

/// The part writer takes what a download hands out as it is: the bytes of
/// a write lie inside the partial file, so the writer, which is given the
/// offset on the resource, cuts nothing off them.
pub proof fn lemma_writer_takes_the_write(task: DownloadTaskView, written: u64, len: usize)
    requires
        task.wf(),
        written < task.expected_size(),
    ensures
        write_size(
            write_len(task, written, len) as nat,
            (task.start + written) as u64,
            task.start,
            task.expected_size() as u64,
        ) == write_len(task, written, len),
        (task.start + written) as u64 - task.start == written,
{
}

/// A download that is over stays over: whatever arrives afterwards, nothing
/// is created, read or written any more.
pub proof fn lemma_ended_stays(task: DownloadTaskView, events: Seq<ChunkEventView>)
    ensures
        chunk_run(task, ChunkState::Ended, events) is Ended,
        forall|event: ChunkEventView| #[trigger]
            chunk_next(task, ChunkState::Ended, event).1 is Fail,
    decreases events.len(),
{
    if events.len() > 0 {
        lemma_ended_stays(task, events.drop_first());
    }
}

} // verus!
