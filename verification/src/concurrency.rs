//! The tasks of a download and the verdict over their outcomes.

use crate::error::{AppError, AppErrorView};
use crate::filesystem::{part_file_path, part_path_text};
use vstd::prelude::*;

verus! {

/// One range of the resource, to be fetched by one worker into one partial
/// file.
#[derive(Clone, Debug)]
pub struct DownloadTask {
    /// Where the resource lives.
    pub url: String,
    /// First byte of the range.
    pub start: u64,
    /// Last byte of the range.
    pub end: u64,
    /// Position of the range in the plan. It names the partial file and
    /// fixes the place of its bytes in the output.
    pub index: usize,
    /// Path of the output file that the partial file belongs to.
    pub file_path: String,
}

/// A [`DownloadTask`] with its texts as character sequences.
pub struct DownloadTaskView {
    pub url: Seq<char>,
    pub start: u64,
    pub end: u64,
    pub index: usize,
    pub file_path: Seq<char>,
}

impl DownloadTaskView {
    /// A task is well formed when its range is not empty and its length fits
    /// in 64 bits.
    pub open spec fn wf(self) -> bool {
        self.start <= self.end && self.end - self.start < u64::MAX
    }

    /// Number of bytes that the task has to write: the length of its range.
    pub open spec fn expected_size(self) -> int {
        self.end - self.start + 1
    }
}

impl View for DownloadTask {
    type V = DownloadTaskView;

    open spec fn view(&self) -> DownloadTaskView {
        DownloadTaskView {
            url: self.url@,
            start: self.start,
            end: self.end,
            index: self.index,
            file_path: self.file_path@,
        }
    }
}

impl DownloadTask {
    /// Creates a new download task.
    pub fn new(url: String, start: u64, end: u64, index: usize, file_path: String) -> (task: Self)
        ensures
            task.url == url,
            task.start == start,
            task.end == end,
            task.index == index,
            task.file_path == file_path,
    {
        DownloadTask { url, start, end, index, file_path }
    }

    /// A task is well formed when its range is not empty and its length fits
    /// in 64 bits.
    pub open spec fn wf(&self) -> bool {
        self@.wf()
    }

    /// Whether the task is well formed.
    pub fn is_well_formed(&self) -> (ok: bool)
        ensures
            ok == self.wf(),
    {
        self.start <= self.end && self.end - self.start < u64::MAX
    }

    /// Number of bytes that the task has to write: the length of its range.
    pub open spec fn spec_expected_size(&self) -> u64 {
        (self.end - self.start + 1) as u64
    }

    /// Number of bytes that the task has to write: the length of its range.
    #[verifier::when_used_as_spec(spec_expected_size)]
    pub fn expected_size(&self) -> (size: u64)
        requires
            self.wf(),
        ensures
            size == self@.expected_size(),
            size == self.spec_expected_size(),
            size >= 1,
    {
        self.end - self.start + 1
    }

    /// Path of the partial file that the task writes.
    pub fn part_path(&self) -> (path: String)
        ensures
            path@ == part_path_text(self.file_path@, self.index as nat),
    {
        part_file_path(self.file_path.as_str(), self.index)
    }
}

/// How one worker ended.
#[derive(Debug)]
pub enum TaskOutcome {
    /// The worker ran to its end, with this result.
    Finished(Result<(), AppError>),
    /// The worker could not be joined; the text says why.
    NotJoined(String),
}

/// The error that an outcome stands for, if it is one. A worker that could
/// not be joined counts as a task error with the reason as its text.
pub open spec fn outcome_error(outcome: TaskOutcome) -> Option<AppErrorView> {
    match outcome {
        TaskOutcome::Finished(Ok(_)) => None,
        TaskOutcome::Finished(Err(e)) => Some(e@),
        TaskOutcome::NotJoined(reason) => Some(AppErrorView::TaskError(reason@)),
    }
}

/// Whether outcome `i` is an error and no outcome before it is.
pub open spec fn is_first_failure(outcomes: Seq<TaskOutcome>, i: int) -> bool {
    &&& 0 <= i < outcomes.len()
    &&& outcome_error(outcomes[i]) is Some
    &&& forall|j: int| 0 <= j < i ==> outcome_error(#[trigger] outcomes[j]) is None
}

/// The tasks of one download, in the order of their index.
pub struct ConcurrentDownloader {
    tasks: Vec<DownloadTask>,
}

impl ConcurrentDownloader {
    /// The tasks held, in order.
    pub closed spec fn tasks_view(&self) -> Seq<DownloadTask> {
        self.tasks@
    }

    /// Creates a new `ConcurrentDownloader` with specified tasks.
    pub fn new(tasks: Vec<DownloadTask>) -> (downloader: Self)
        ensures
            downloader.tasks_view() == tasks@,
    {
        ConcurrentDownloader { tasks }
    }

    /// The tasks to hand to the workers.
    pub fn tasks(&self) -> (tasks: &Vec<DownloadTask>)
        ensures
            tasks@ == self.tasks_view(),
    {
        &self.tasks
    }

    /// Capacity of the progress bar of each task: the number of bytes that
    /// the task writes.
    pub fn progress_lengths(&self) -> (lengths: Vec<u64>)
        requires
            forall|i: int| 0 <= i < self.tasks_view().len() ==> (#[trigger] self.tasks_view()[i]).wf(),
        ensures
            lengths@.len() == self.tasks_view().len(),
            forall|i: int|
                0 <= i < lengths@.len() ==> #[trigger] lengths@[i] == self.tasks_view()[i].end
                    - self.tasks_view()[i].start + 1,
    {
        let mut lengths: Vec<u64> = Vec::new();
        let mut i: usize = 0;
        while i < self.tasks.len()
            invariant
                i <= self.tasks@.len(),
                lengths@.len() == i,
                self.tasks@ == self.tasks_view(),
                forall|k: int|
                    0 <= k < self.tasks_view().len() ==> (#[trigger] self.tasks_view()[k]).wf(),
                forall|k: int|
                    0 <= k < i ==> #[trigger] lengths@[k] == self.tasks_view()[k].end
                        - self.tasks_view()[k].start + 1,
            decreases self.tasks@.len() - i,
        {
            lengths.push(self.tasks[i].expected_size());
            i = i + 1;
        }
        lengths
    }

    /// The verdict over the outcomes of all workers, given in the order of
    /// the tasks: success if every worker succeeded, else the error of the
    /// first worker, in that order, that did not.
    pub fn verdict(outcomes: &Vec<TaskOutcome>) -> (verdict: Result<(), AppError>)
        ensures
            verdict is Ok <==> forall|i: int|
                0 <= i < outcomes@.len() ==> outcome_error(#[trigger] outcomes@[i]) is None,
            verdict matches Err(e) ==> exists|i: int|
                #[trigger] is_first_failure(outcomes@, i) && outcome_error(outcomes@[i]) == Some(
                    e@,
                ),
    {
        let mut i: usize = 0;
        while i < outcomes.len()
            invariant
                i <= outcomes@.len(),
                forall|j: int| 0 <= j < i ==> outcome_error(#[trigger] outcomes@[j]) is None,
            decreases outcomes@.len() - i,
        {
            match &outcomes[i] {
                TaskOutcome::Finished(Ok(_)) => {},
                TaskOutcome::Finished(Err(e)) => {
                    assert(is_first_failure(outcomes@, i as int));
                    return Err(e.copy());
                },
                TaskOutcome::NotJoined(reason) => {
                    assert(is_first_failure(outcomes@, i as int));
                    return Err(AppError::TaskError(reason.clone()));
                },
            }
            i = i + 1;
        }
        Ok(())
    }
}

} // verus!
