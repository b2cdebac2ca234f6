use rtget::args::CommandLineArgs;
use rtget::concurrency::{ConcurrentDownloader, DownloadTask, TaskOutcome};
use rtget::downloader::http::{download, range_header, ChunkAction, ChunkEvent, ChunkState};
use rtget::error::AppError;
use rtget::filesystem::{merge_begin, merge_chunks, write_chunk, MergeAction, MergeEvent};
use rtget::run::{exit_code, run_in_foreground, Directive, Stage, StageEvent};
use std::collections::BTreeMap;

/// How the fixture answers a range request.
#[derive(Clone, Copy, PartialEq)]
enum Answer {
    /// 206 with exactly the bytes asked for.
    Exact,
    /// 206 with the bytes asked for and seven more.
    Surplus,
    /// 200 with the whole resource.
    WholeResource,
    /// 206, but the connection breaks after half of the bytes.
    BreaksOff,
    /// 206, but the body ends after half of the bytes.
    Short,
    /// 206 without a `Content-Range` header.
    NoContentRange,
}

/// A server and a file system in memory.
struct Fixture {
    resource: Vec<u8>,
    answers: BTreeMap<usize, Answer>,
    buffer_size: usize,
    files: BTreeMap<String, Vec<u8>>,
    writes: usize,
}

impl Fixture {
    fn new(total: usize, buffer_size: usize) -> Fixture {
        Fixture {
            resource: (0..total).map(|i| (i * 31 + 7) as u8).collect(),
            answers: BTreeMap::new(),
            buffer_size,
            files: BTreeMap::new(),
            writes: 0,
        }
    }

    fn answer_for(&self, index: usize) -> Answer {
        *self.answers.get(&index).unwrap_or(&Answer::Exact)
    }

    fn parts(&self) -> Vec<(&String, usize)> {
        self.files.iter().filter(|(k, _)| k.contains("_part_")).map(|(k, v)| (k, v.len())).collect()
    }

    /// Carries out one range request as the downloader's caller would.
    fn fetch(&mut self, task: &DownloadTask) -> Result<(), AppError> {
        assert_eq!(
            range_header(task.start, task.end),
            format!("bytes={}-{}", task.start, task.end)
        );
        let answer = self.answer_for(task.index);
        let wanted = &self.resource[task.start as usize..=task.end as usize];
        let mut body: Vec<u8> = match answer {
            Answer::WholeResource => self.resource.clone(),
            Answer::BreaksOff | Answer::Short => wanted[..wanted.len() / 2].to_vec(),
            _ => wanted.to_vec(),
        };
        if answer == Answer::Surplus {
            body.extend_from_slice(&[0xEE; 7]);
        }
        let mut buffers: Vec<Vec<u8>> =
            body.chunks(self.buffer_size).map(|c| c.to_vec()).rev().collect();
        let status = if answer == Answer::WholeResource { 200 } else { 206 };
        let content_range = if answer == Answer::NoContentRange {
            None
        } else {
            Some(format!("bytes {}-{}/{}", task.start, task.end, self.resource.len()))
        };

        let mut state = ChunkState::Requested;
        let mut event = ChunkEvent::Response { status, content_range };
        let mut part: Option<String> = None;
        let mut buffer: Vec<u8> = Vec::new();
        loop {
            assert!(state.fits(task));
            let (next, action) = download(task, state, event);
            state = next;
            event = match action {
                ChunkAction::CreatePart(path) => {
                    self.files.insert(path.clone(), Vec::new());
                    part = Some(path);
                    ChunkEvent::PartCreated
                }
                ChunkAction::Read => match buffers.pop() {
                    Some(bytes) => {
                        buffer = bytes;
                        ChunkEvent::Data(buffer.len())
                    }
                    None if answer == Answer::BreaksOff => {
                        ChunkEvent::StreamFailed("connection reset".to_string())
                    }
                    None => ChunkEvent::StreamEnded,
                },
                ChunkAction::Write { position, len } => {
                    let write = write_chunk(
                        &buffer[..len],
                        task.start + position,
                        task.start,
                        task.expected_size(),
                    );
                    assert_eq!(write.position, position);
                    assert_eq!(write.bytes, &buffer[..len]);
                    let file = self.files.get_mut(part.as_ref().unwrap()).unwrap();
                    let end = write.position as usize + write.bytes.len();
                    if file.len() < end {
                        file.resize(end, 0);
                    }
                    file[write.position as usize..end].copy_from_slice(write.bytes);
                    self.writes += 1;
                    ChunkEvent::Written
                }
                ChunkAction::Finish(result) => return result,
            };
        }
    }

    /// Carries out a merge as the downloader's caller would.
    fn merge(&mut self, output_path: &str, num_chunks: u8) -> Result<(), AppError> {
        let (mut state, mut action) = merge_begin(output_path);
        loop {
            let event = match action {
                MergeAction::OpenOutput(path) => {
                    self.files.insert(path, Vec::new());
                    MergeEvent::OutputOpened
                }
                MergeAction::AppendPart(path) => match self.files.get(&path).cloned() {
                    Some(bytes) => {
                        self.files.get_mut(output_path).unwrap().extend_from_slice(&bytes);
                        MergeEvent::PartAppended
                    }
                    None => MergeEvent::PartMissing,
                },
                MergeAction::Flush => MergeEvent::Flushed,
                MergeAction::RemovePart(path) => {
                    self.files.remove(&path);
                    MergeEvent::PartRemoved
                }
                MergeAction::Report(_) => MergeEvent::Reported,
                MergeAction::Finish(result) => return result,
            };
            assert!(state.fits(num_chunks));
            let next = merge_chunks(output_path, num_chunks, state, event);
            state = next.0;
            action = next.1;
        }
    }

    /// A whole run; returns the exit code and, for a failed run, the error.
    fn run(&mut self, connections: u8, output: &str) -> (i32, Option<AppError>) {
        let args = CommandLineArgs {
            url: "http://fixture.test/data.bin".to_string(),
            output: Some(output.to_string()),
            connections,
            background: false,
            verbose: false,
        };
        let mut stage = Stage::Probing;
        let mut event = StageEvent::Probed(Ok(self.resource.len() as u64));
        loop {
            let (next, directive) = run_in_foreground(&args, stage, event);
            stage = next;
            if let Some(code) = exit_code(&directive) {
                return match directive {
                    Directive::Abort(e) => (code, Some(e)),
                    _ => (code, None),
                };
            }
            event = match directive {
                Directive::Download(tasks) => {
                    let workers = ConcurrentDownloader::new(tasks);
                    let outcomes: Vec<TaskOutcome> = workers
                        .tasks()
                        .iter()
                        .map(|task| TaskOutcome::Finished(self.fetch(task)))
                        .collect();
                    StageEvent::Downloaded(ConcurrentDownloader::verdict(&outcomes))
                }
                Directive::Merge { output_path, num_chunks } => {
                    StageEvent::Merged(self.merge(&output_path, num_chunks))
                }
                _ => unreachable!(),
            };
        }
    }
}

fn connection_error(message: &str) -> Option<AppError> {
    Some(AppError::CouldNotConnect(message.to_string()))
}

#[test]
fn one_connection_downloads_the_fixture() {
    let mut fixture = Fixture::new(1024, 100);
    assert_eq!(fixture.run(1, "out"), (0, None));
    assert_eq!(fixture.files.get("out"), Some(&fixture.resource));
    assert!(fixture.parts().is_empty());
}

#[test]
fn four_connections_download_a_thousand_bytes() {
    let mut fixture = Fixture::new(1000, 64);
    assert_eq!(fixture.run(4, "out"), (0, None));
    assert_eq!(fixture.files["out"].len(), 1000);
    assert_eq!(fixture.files["out"], fixture.resource);
    assert_eq!(fixture.files.len(), 1);
}

#[test]
fn three_connections_download_ten_bytes() {
    let mut fixture = Fixture::new(10, 3);
    assert_eq!(fixture.run(3, "out"), (0, None));
    assert_eq!(fixture.files["out"], fixture.resource);
}

#[test]
fn five_connections_download_five_bytes_in_five_parts() {
    let mut fixture = Fixture::new(5, 16);
    assert_eq!(fixture.run(5, "out"), (0, None));
    assert_eq!(fixture.writes, 5);
    assert_eq!(fixture.files["out"].len(), 5);
    assert_eq!(fixture.files["out"], fixture.resource);
    assert!(fixture.parts().is_empty());
}

#[test]
fn parts_have_the_length_of_their_ranges() {
    let mut fixture = Fixture::new(10, 4);
    let lengths: Vec<usize> = [(0u64, 3u64), (4, 7), (8, 9)]
        .iter()
        .enumerate()
        .map(|(index, (start, end))| {
            let task = DownloadTask::new("u".to_string(), *start, *end, index, "o".to_string());
            fixture.fetch(&task).unwrap();
            fixture.files[&task.part_path()].len()
        })
        .collect();
    assert_eq!(lengths, vec![4, 4, 2]);
    assert_eq!(fixture.files["o_part_2"], fixture.resource[8..10].to_vec());
}

#[test]
fn a_server_that_ignores_ranges_fails_the_run() {
    let mut fixture = Fixture::new(100, 10);
    fixture.answers.insert(0, Answer::WholeResource);
    fixture.answers.insert(1, Answer::WholeResource);
    assert_eq!(fixture.run(2, "out"), (1, connection_error("Request failed: 200 OK")));
    assert!(fixture.files.is_empty());
    assert_eq!(fixture.writes, 0);
}

#[test]
fn a_connection_that_breaks_off_fails_the_run_and_keeps_the_good_part() {
    let mut fixture = Fixture::new(100, 10);
    fixture.answers.insert(1, Answer::BreaksOff);
    assert_eq!(
        fixture.run(2, "out"),
        (1, Some(AppError::CouldNotReadChunk("connection reset".to_string())))
    );
    assert!(!fixture.files.contains_key("out"));
    assert_eq!(fixture.files["out_part_0"], fixture.resource[..50].to_vec());
    assert_eq!(fixture.files["out_part_1"].len(), 25);
}

#[test]
fn a_short_body_fails_the_run() {
    let mut fixture = Fixture::new(100, 10);
    fixture.answers.insert(0, Answer::Short);
    assert_eq!(
        fixture.run(2, "out"),
        (1, connection_error("Written size 25 does not match expected 50 for chunk 0"))
    );
    assert!(!fixture.files.contains_key("out"));
}

#[test]
fn a_missing_content_range_fails_before_a_part_exists() {
    let mut fixture = Fixture::new(100, 10);
    fixture.answers.insert(0, Answer::NoContentRange);
    let (code, error) = fixture.run(1, "out");
    assert_eq!(code, 1);
    assert_eq!(
        error,
        connection_error("Invalid Content-Range: header missing, expected bytes 0-99/*")
    );
    assert!(fixture.files.is_empty());
}

#[test]
fn surplus_bytes_never_reach_the_parts() {
    for buffer_size in [1usize, 3, 7, 64, 1000] {
        let mut fixture = Fixture::new(100, buffer_size);
        for index in 0..3 {
            fixture.answers.insert(index, Answer::Surplus);
        }
        assert_eq!(fixture.run(3, "out"), (0, None));
        assert_eq!(fixture.files["out"], fixture.resource);
    }
}

#[test]
fn a_second_run_overwrites_the_first_with_the_same_bytes() {
    let mut fixture = Fixture::new(333, 50);
    fixture.files.insert("out".to_string(), vec![9; 5000]);
    assert_eq!(fixture.run(4, "out"), (0, None));
    let first = fixture.files["out"].clone();
    assert_eq!(fixture.run(4, "out"), (0, None));
    assert_eq!(fixture.files["out"], first);
    assert_eq!(first, fixture.resource);
    assert_eq!(fixture.files.len(), 1);
}

#[test]
fn every_plan_restores_the_resource() {
    for total in [1usize, 2, 5, 6, 7, 10, 99, 100, 101, 257] {
        for connections in [1u8, 2, 3, 4, 5, 7, 16, 99, 100] {
            let mut fixture = Fixture::new(total, 13);
            assert_eq!(fixture.run(connections, "o"), (0, None));
            assert_eq!(fixture.files["o"], fixture.resource);
            assert_eq!(fixture.files.len(), 1);
        }
    }
}

#[test]
fn a_missing_part_fails_the_merge() {
    let mut fixture = Fixture::new(10, 4);
    fixture.files.insert("o_part_0".to_string(), vec![1, 2, 3]);
    assert_eq!(
        fixture.merge("o", 2),
        Err(AppError::CouldNotConnect("Partial file missing: o_part_1".to_string()))
    );
}

#[test]
fn an_empty_resource_fails_the_run() {
    let mut fixture = Fixture::new(0, 4);
    assert_eq!(fixture.run(2, "out"), (1, connection_error("empty resource")));
    assert!(fixture.files.is_empty());
}
