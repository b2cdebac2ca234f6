//! The course of one run of the downloader: validate, ask for the size,
//! plan, download, merge, report.

use crate::args::{CommandLineArgs, CommandLineArgsView};
use crate::concurrency::{DownloadTask, DownloadTaskView};
use crate::downloader::{
    calculate_download_chunks, chunks_view, download_chunks_of, output_path_fits, task_views,
};
use crate::error::{error_text, AppError, AppErrorView};
use crate::url_validator::{url_parse, validate_url, validation_of, ParsedUrl, ParsedUrlView};
use vstd::prelude::*;

verus! {

/// The exit code of a run that ended well.
pub const EXIT_SUCCESS: i32 = 0;

/// The exit code of a run that ended with an error.
pub const EXIT_FAILURE: i32 = 1;

/// How a run goes on once its URL has been accepted.
#[derive(Clone, Copy, Debug, PartialEq, Eq)]
pub enum RunMode {
    /// Download now, attached to the terminal.
    Foreground,
    /// Detach from the terminal.
    Background,
}

/// What a run begins with: the line that announces it, and its mode.
#[derive(Clone, Debug, PartialEq, Eq)]
pub struct Start {
    /// The line to print before anything else.
    pub banner: String,
    /// How the run goes on.
    pub mode: RunMode,
}

/// How a run begins, given what the validation made of the URL: with the
/// announcement of the URL and the mode that the command line asks for; or
/// not at all, with a URL parse error that carries the line of the
/// validation's error.
pub open spec fn start_of(
    args: CommandLineArgsView,
    validated: Result<ParsedUrlView, AppErrorView>,
) -> Result<(Seq<char>, RunMode), AppErrorView> {
    match validated {
        Err(e) => Err(AppErrorView::UrlParseError(error_text(e))),
        Ok(url) => Ok(
            (
                "Downloading from "@ + url.text,
                if args.background {
                    RunMode::Background
                } else {
                    RunMode::Foreground
                },
            ),
        ),
    }
}

/// The outcome of a validation with its texts as character sequences.
pub open spec fn validated_view(validated: Result<ParsedUrl, AppError>) -> Result<
    ParsedUrlView,
    AppErrorView,
> {
    match validated {
        Ok(url) => Ok(url@),
        Err(e) => Err(e@),
    }
}

/// Settles how a run begins from what the validation made of its URL.
pub fn begin(args: &CommandLineArgs, validated: Result<ParsedUrl, AppError>) -> (start: Result<
    Start,
    AppError,
>)
    ensures
        match start {
            Ok(s) => start_of(args@, validated_view(validated)) == Ok::<
                (Seq<char>, RunMode),
                AppErrorView,
            >((s.banner@, s.mode)),
            Err(e) => start_of(args@, validated_view(validated)) == Err::<
                (Seq<char>, RunMode),
                AppErrorView,
            >(e@),
        },
{
    match validated {
        Err(e) => Err(AppError::UrlParseError(e.to_string())),
        Ok(url) => {
            let mut banner = String::from_str("Downloading from ");
            banner.append(url.text.as_str());
            let mode = if args.background {
                RunMode::Background
            } else {
                RunMode::Foreground
            };
            Ok(Start { banner, mode })
        },
    }
}

/// Validates the URL of the command line and settles how the run begins.
pub fn run(args: &CommandLineArgs) -> (start: Result<Start, AppError>)
    ensures
        match start {
            Ok(s) => start_of(args@, validation_of(url_parse(args.url@))) == Ok::<
                (Seq<char>, RunMode),
                AppErrorView,
            >((s.banner@, s.mode)),
            Err(e) => start_of(args@, validation_of(url_parse(args.url@))) == Err::<
                (Seq<char>, RunMode),
                AppErrorView,
            >(e@),
        },
{
    begin(args, validate_url(args.url.as_str()))
}

/// Where a run in the foreground stands.
#[derive(Clone, Debug, PartialEq, Eq)]
pub enum Stage {
    /// The size of the resource is being asked for.
    Probing,
    /// The workers are fetching the ranges of the plan into this many
    /// partial files of the output at this path.
    Downloading { output_path: String, num_chunks: u8 },
    /// The partial files are being merged into the output at this path.
    Merging { output_path: String },
    /// The run is over.
    Finished,
}

/// A [`Stage`] with its texts as character sequences.
pub enum StageView {
    Probing,
    Downloading { output_path: Seq<char>, num_chunks: u8 },
    Merging { output_path: Seq<char> },
    Finished,
}

impl View for Stage {
    type V = StageView;

    open spec fn view(&self) -> StageView {
        match self {
            Stage::Probing => StageView::Probing,
            Stage::Downloading { output_path, num_chunks } => StageView::Downloading {
                output_path: output_path@,
                num_chunks: *num_chunks,
            },
            Stage::Merging { output_path } => StageView::Merging { output_path: output_path@ },
            Stage::Finished => StageView::Finished,
        }
    }
}

/// How the work of a stage ended.
#[derive(Debug, PartialEq, Eq)]
pub enum StageEvent {
    /// The server was asked for the size of the resource.
    Probed(Result<u64, AppError>),
    /// All workers have ended, with this verdict over their outcomes.
    Downloaded(Result<(), AppError>),
    /// The merge has ended.
    Merged(Result<(), AppError>),
}

/// A [`StageEvent`] with its texts as character sequences.
pub enum StageEventView {
    Probed(Result<u64, AppErrorView>),
    Downloaded(Option<AppErrorView>),
    Merged(Option<AppErrorView>),
}

impl View for StageEvent {
    type V = StageEventView;

    open spec fn view(&self) -> StageEventView {
        match self {
            StageEvent::Probed(Ok(size)) => StageEventView::Probed(Ok(*size)),
            StageEvent::Probed(Err(e)) => StageEventView::Probed(Err(e@)),
            StageEvent::Downloaded(Ok(_)) => StageEventView::Downloaded(None),
            StageEvent::Downloaded(Err(e)) => StageEventView::Downloaded(Some(e@)),
            StageEvent::Merged(Ok(_)) => StageEventView::Merged(None),
            StageEvent::Merged(Err(e)) => StageEventView::Merged(Some(e@)),
        }
    }
}

/// What the caller of a run has to do next.
#[derive(Debug)]
pub enum Directive {
    /// Run one worker for each of these tasks and wait for all of them.
    Download(Vec<DownloadTask>),
    /// Merge this many partial files into the output at this path.
    Merge { output_path: String, num_chunks: u8 },
    /// Print this line and exit with success.
    Complete(String),
    /// Report this error and exit with failure.
    Abort(AppError),
}

/// A [`Directive`] with its texts as character sequences.
pub enum DirectiveView {
    Download(Seq<DownloadTaskView>),
    Merge { output_path: Seq<char>, num_chunks: u8 },
    Complete(Seq<char>),
    Abort(AppErrorView),
}

impl View for Directive {
    type V = DirectiveView;

    open spec fn view(&self) -> DirectiveView {
        match self {
            Directive::Download(tasks) => DirectiveView::Download(task_views(tasks@)),
            Directive::Merge { output_path, num_chunks } => DirectiveView::Merge {
                output_path: output_path@,
                num_chunks: *num_chunks,
            },
            Directive::Complete(line) => DirectiveView::Complete(line@),
            Directive::Abort(e) => DirectiveView::Abort(e@),
        }
    }
}

/// The stage and the directive that follow the answer to the question for
/// the size, given the tasks that the download was split into or the
/// reason why there are none.
pub open spec fn after_probe(chunks: Result<Seq<DownloadTaskView>, AppErrorView>) -> (
    StageView,
    DirectiveView,
) {
    match chunks {
        Err(e) => (StageView::Finished, DirectiveView::Abort(e)),
        Ok(tasks) => if 1 <= tasks.len() <= u8::MAX {
            (
                StageView::Downloading {
                    output_path: tasks[0].file_path,
                    num_chunks: tasks.len() as u8,
                },
                DirectiveView::Download(tasks),
            )
        } else {
            (
                StageView::Finished,
                DirectiveView::Abort(AppErrorView::StringError("no tasks to run"@)),
            )
        },
    }
}

/// The step of a run in the foreground, where `output_path` is the path
/// settled for the output file or the reason why there is none.
///
/// The stages follow each other in a fixed order: the download begins once
/// the size is known and the plan is made, the merge once every worker has
/// succeeded, and the run is complete once the merge has succeeded. The
/// first error ends the run.
pub open spec fn stage_next(
    args: CommandLineArgsView,
    output_path: Result<Seq<char>, AppErrorView>,
    stage: StageView,
    event: StageEventView,
) -> (StageView, DirectiveView) {
    match (stage, event) {
        (StageView::Probing, StageEventView::Probed(Ok(total_size))) => after_probe(
            download_chunks_of(args, total_size, output_path),
        ),
        (StageView::Probing, StageEventView::Probed(Err(e))) => (
            StageView::Finished,
            DirectiveView::Abort(e),
        ),
        (StageView::Downloading { output_path, num_chunks }, StageEventView::Downloaded(None)) => (
            StageView::Merging { output_path },
            DirectiveView::Merge { output_path, num_chunks },
        ),
        (StageView::Downloading { .. }, StageEventView::Downloaded(Some(e))) => (
            StageView::Finished,
            DirectiveView::Abort(e),
        ),
        (StageView::Merging { output_path }, StageEventView::Merged(None)) => (
            StageView::Finished,
            DirectiveView::Complete("Download complete: "@ + output_path + " "@),
        ),
        (StageView::Merging { .. }, StageEventView::Merged(Some(e))) => (
            StageView::Finished,
            DirectiveView::Abort(e),
        ),
        _ => (
            StageView::Finished,
            DirectiveView::Abort(AppErrorView::StringError("event out of order"@)),
        ),
    }
}

/// The exit code that a directive stands for, if it ends the run: success
/// for a completed run, failure for an aborted one.
pub open spec fn exit_code_of(directive: DirectiveView) -> Option<i32> {
    match directive {
        DirectiveView::Complete(_) => Some(EXIT_SUCCESS),
        DirectiveView::Abort(_) => Some(EXIT_FAILURE),
        _ => None,
    }
}

/// The exit code that `directive` stands for, if it ends the run.
pub fn exit_code(directive: &Directive) -> (code: Option<i32>)
    ensures
        code == exit_code_of(directive@),
{
    match directive {
        Directive::Complete(_) => Some(EXIT_SUCCESS),
        Directive::Abort(_) => Some(EXIT_FAILURE),
        _ => None,
    }
}

/// The line that reports an error to the user.
pub fn failure_report(error: &AppError) -> (line: String)
    ensures
        line@ == "Error: "@ + error_text(error@),
{
    let mut line = String::from_str("Error: ");
    line.append(error.to_string().as_str());
    line
}

fn stage_out_of_order() -> (next: (Stage, Directive))
    ensures
        next.0@ == StageView::Finished,
        next.1@ == DirectiveView::Abort(AppErrorView::StringError("event out of order"@)),
{
    (Stage::Finished, Directive::Abort(AppError::StringError(String::from_str("event out of order"))))
}

/// Settles what follows the answer to the question for the size from the
/// tasks that the download was split into, or the reason why there are
/// none.
pub fn start_download(chunks: Result<Vec<DownloadTask>, AppError>) -> (next: (Stage, Directive))
    ensures
        next.0@ == after_probe(chunks_view(chunks)).0,
        next.1@ == after_probe(chunks_view(chunks)).1,
{
    match chunks {
        Err(e) => (Stage::Finished, Directive::Abort(e)),
        Ok(tasks) => {
            if tasks.len() >= 1 && tasks.len() <= 255 {
                let output_path = tasks[0].file_path.clone();
                let num_chunks: u8 = tasks.len() as u8;
                assert(task_views(tasks@)[0] == tasks@[0]@);
                (Stage::Downloading { output_path, num_chunks }, Directive::Download(tasks))
            } else {
                (
                    Stage::Finished,
                    Directive::Abort(AppError::StringError(String::from_str("no tasks to run"))),
                )
            }
        },
    }
}

/// Takes a run in the foreground one step on: from `stage` and the `event`
/// that arrived to the next stage and the directive to carry out.
///
/// The step is the one of [`stage_next`] for an output path that fits the
/// command line.
pub fn run_in_foreground(args: &CommandLineArgs, stage: Stage, event: StageEvent) -> (next: (
    Stage,
    Directive,
))
    ensures
        exists|path: Result<Seq<char>, AppErrorView>|
            output_path_fits(args@, path) && #[trigger] stage_next(args@, path, stage@, event@) == (
                next.0@,
                next.1@,
            ),
{
    let ghost witness: Result<Seq<char>, AppErrorView> = match args@.output {
        Some(asked) => Ok(asked),
        None => match url_parse(args.url@) {
            Err(message) => Err(AppErrorView::UrlParseError(message)),
            Ok(_) => Err(AppErrorView::CouldNotConnect("Could not derive filename from URL"@)),
        },
    };
    assert(output_path_fits(args@, witness));
    match stage {
        Stage::Probing => match event {
            StageEvent::Probed(Ok(total_size)) => {
                let chunks = calculate_download_chunks(args, total_size);
                let ghost path = choose|path: Result<Seq<char>, AppErrorView>|
                    output_path_fits(args@, path) && #[trigger] download_chunks_of(
                        args@,
                        total_size,
                        path,
                    ) == chunks_view(chunks);
                let next = start_download(chunks);
                assert(stage_next(args@, path, stage@, event@) == (next.0@, next.1@));
                next
            },
            StageEvent::Probed(Err(e)) => {
                let next = (Stage::Finished, Directive::Abort(e));
                assert(stage_next(args@, witness, stage@, event@) == (next.0@, next.1@));
                next
            },
            _ => {
                let next = stage_out_of_order();
                assert(stage_next(args@, witness, stage@, event@) == (next.0@, next.1@));
                next
            },
        },
        Stage::Downloading { output_path, num_chunks } => match event {
            StageEvent::Downloaded(Ok(_)) => {
                let next = (
                    Stage::Merging { output_path: output_path.clone() },
                    Directive::Merge { output_path, num_chunks },
                );
                assert(stage_next(args@, witness, stage@, event@) == (next.0@, next.1@));
                next
            },
            StageEvent::Downloaded(Err(e)) => {
                let next = (Stage::Finished, Directive::Abort(e));
                assert(stage_next(args@, witness, stage@, event@) == (next.0@, next.1@));
                next
            },
            _ => {
                let next = stage_out_of_order();
                assert(stage_next(args@, witness, stage@, event@) == (next.0@, next.1@));
                next
            },
        },
        Stage::Merging { output_path } => match event {
            StageEvent::Merged(Ok(_)) => {
                let mut line = String::from_str("Download complete: ");
                line.append(output_path.as_str());
                line.append(" ");
                let next = (Stage::Finished, Directive::Complete(line));
                assert(stage_next(args@, witness, stage@, event@) == (next.0@, next.1@));
                next
            },
            StageEvent::Merged(Err(e)) => {
                let next = (Stage::Finished, Directive::Abort(e));
                assert(stage_next(args@, witness, stage@, event@) == (next.0@, next.1@));
                next
            },
            _ => {
                let next = stage_out_of_order();
                assert(stage_next(args@, witness, stage@, event@) == (next.0@, next.1@));
                next
            },
        },
        Stage::Finished => {
            let next = stage_out_of_order();
            assert(stage_next(args@, witness, stage@, event@) == (next.0@, next.1@));
            next
        },
    }
}

/// A run that fails ends at once with exit code 1, and it has not touched
/// the output file unless the failure is the merge's own: whatever the
/// stage, an event that carries an error aborts the run, and the merge is
/// asked for by no step but the one that follows the success of every
/// worker.
pub proof fn lemma_failure_aborts(
    args: CommandLineArgsView,
    output_path: Result<Seq<char>, AppErrorView>,
    stage: StageView,
    event: StageEventView,
)
    ensures
        (event matches StageEventView::Probed(Err(_)) || event matches StageEventView::Downloaded(
            Some(_),
        ) || event matches StageEventView::Merged(Some(_))) ==> stage_next(
            args,
            output_path,
            stage,
            event,
        ).0 is Finished && exit_code_of(stage_next(args, output_path, stage, event).1) == Some(
            EXIT_FAILURE,
        ),
        stage_next(args, output_path, stage, event).1 is Merge ==> stage is Downloading
            && event == StageEventView::Downloaded(None),
        exit_code_of(stage_next(args, output_path, stage, event).1) == Some(EXIT_SUCCESS)
            ==> stage is Merging && event == StageEventView::Merged(None),
{
}

} // verus!
