use rtget::args::CommandLineArgs;
use rtget::downloader::{
    build_tasks, calculate_download_chunks, derive_output_path, plan_download_chunks,
};
use rtget::error::AppError;
use rtget::run::{
    begin, exit_code, failure_report, run, run_in_foreground, start_download, Directive, RunMode,
    Stage, StageEvent,
};
use rtget::url_validator::ParsedUrl;

fn args(url: &str, output: Option<&str>, connections: u8) -> CommandLineArgs {
    CommandLineArgs {
        url: url.to_string(),
        output: output.map(|o| o.to_string()),
        connections,
        background: false,
        verbose: false,
    }
}

fn connection_error(message: &str) -> AppError {
    AppError::CouldNotConnect(message.to_string())
}

#[test]
fn output_path_from_command_line_or_url() {
    assert_eq!(
        derive_output_path(&Some("o.bin".to_string()), Some("f.bin".to_string())),
        Ok("o.bin".to_string())
    );
    assert_eq!(derive_output_path(&Some("o.bin".to_string()), None), Ok("o.bin".to_string()));
    assert_eq!(derive_output_path(&None, Some("f.bin".to_string())), Ok("f.bin".to_string()));
    assert_eq!(
        derive_output_path(&None, None),
        Err(connection_error("Could not derive filename from URL"))
    );
    assert_eq!(
        derive_output_path(&None, Some(String::new())),
        Err(connection_error("Could not derive filename from URL"))
    );
}

#[test]
fn tasks_follow_the_ranges() {
    let tasks = build_tasks("http://h/f", &vec![(0, 3), (4, 7), (8, 9)], "out");
    assert_eq!(tasks.len(), 3);
    for (i, task) in tasks.iter().enumerate() {
        assert_eq!(task.url, "http://h/f");
        assert_eq!(task.index, i);
        assert_eq!(task.file_path, "out");
    }
    assert_eq!((tasks[0].start, tasks[0].end), (0, 3));
    assert_eq!((tasks[2].start, tasks[2].end), (8, 9));
    assert!(build_tasks("u", &Vec::new(), "o").is_empty());
}

#[test]
fn an_empty_resource_is_refused_before_planning() {
    let a = args("http://h/f", Some("out"), 4);
    assert_eq!(
        plan_download_chunks(&a, 0, Ok("out".to_string())).map(|t| t.len()),
        Err(connection_error("empty resource"))
    );
    assert_eq!(
        calculate_download_chunks(&a, 0).map(|t| t.len()),
        Err(connection_error("empty resource"))
    );
}

#[test]
fn connections_out_of_bounds_are_refused() {
    for connections in [0u8, 101, 255] {
        let a = args("http://h/f", Some("out"), connections);
        assert_eq!(
            plan_download_chunks(&a, 10, Ok("out".to_string())).map(|t| t.len()),
            Err(connection_error("connections must be between 1 and 100"))
        );
    }
}

#[test]
fn chunks_of_a_download() {
    let a = args("http://h/dir/file.bin", Some("out"), 4);
    let tasks = calculate_download_chunks(&a, 1000).unwrap();
    let ranges: Vec<(u64, u64)> = tasks.iter().map(|t| (t.start, t.end)).collect();
    assert_eq!(ranges, vec![(0, 249), (250, 499), (500, 749), (750, 999)]);
    assert!(tasks.iter().all(|t| t.file_path == "out" && t.url == "http://h/dir/file.bin"));
    let collapsed = calculate_download_chunks(&args("http://h/f", Some("out"), 100), 3).unwrap();
    assert_eq!(collapsed.len(), 3);
}

#[test]
fn output_is_named_after_the_url() {
    let tasks = calculate_download_chunks(&args("http://h/dir/file.bin?x=1", None, 2), 10).unwrap();
    assert_eq!(tasks.len(), 2);
    assert_eq!(tasks[0].file_path, "file.bin");
    assert_eq!(tasks[1].part_path(), "file.bin_part_1");
    assert_eq!(
        calculate_download_chunks(&args("http://h/", None, 2), 10).map(|t| t.len()),
        Err(connection_error("Could not derive filename from URL"))
    );
    assert_eq!(
        calculate_download_chunks(&args("no url", None, 2), 10).map(|t| t.len()),
        Err(AppError::UrlParseError("relative URL without a base".to_string()))
    );
    assert_eq!(
        plan_download_chunks(&args("u", None, 2), 10, Err(AppError::InvalidScheme)).map(|t| t.len()),
        Err(AppError::InvalidScheme)
    );
}

#[test]
fn a_run_begins_with_its_banner_and_mode() {
    let url = ParsedUrl {
        scheme: "http".to_string(),
        has_host: true,
        path: "/f".to_string(),
        text: "http://h/f".to_string(),
    };
    let mut a = args("http://h/f", None, 1);
    let start = begin(&a, Ok(url.clone())).unwrap();
    assert_eq!(start.banner, "Downloading from http://h/f");
    assert_eq!(start.mode, RunMode::Foreground);
    a.background = true;
    assert_eq!(begin(&a, Ok(url)).unwrap().mode, RunMode::Background);
    assert_eq!(
        begin(&a, Err(AppError::InvalidScheme)),
        Err(AppError::UrlParseError("Invalid URL scheme".to_string()))
    );
}

#[test]
fn a_run_validates_its_url() {
    let start = run(&args("HTTPS://Example.com/a b", None, 1)).unwrap();
    assert_eq!(start.banner, "Downloading from https://example.com/a%20b");
    assert_eq!(
        run(&args("mailto:a@b", None, 1)),
        Err(AppError::UrlParseError("Invalid URL scheme".to_string()))
    );
    assert_eq!(
        run(&args("nonsense", None, 1)),
        Err(AppError::UrlParseError(
            "URL parsing error: relative URL without a base".to_string()
        ))
    );
}

#[test]
fn the_stages_of_a_successful_run() {
    let a = args("http://h/f.bin", None, 3);
    let (stage, directive) = run_in_foreground(&a, Stage::Probing, StageEvent::Probed(Ok(10)));
    assert_eq!(stage, Stage::Downloading { output_path: "f.bin".to_string(), num_chunks: 3 });
    match &directive {
        Directive::Download(tasks) => {
            assert_eq!(tasks.len(), 3);
            assert_eq!((tasks[2].start, tasks[2].end), (8, 9));
        }
        other => panic!("unexpected directive {:?}", other),
    }
    assert_eq!(exit_code(&directive), None);
    let (stage, directive) = run_in_foreground(&a, stage, StageEvent::Downloaded(Ok(())));
    assert_eq!(stage, Stage::Merging { output_path: "f.bin".to_string() });
    assert!(matches!(
        &directive,
        Directive::Merge { output_path, num_chunks: 3 } if output_path == "f.bin"
    ));
    let (stage, directive) = run_in_foreground(&a, stage, StageEvent::Merged(Ok(())));
    assert_eq!(stage, Stage::Finished);
    assert!(matches!(&directive, Directive::Complete(line) if line == "Download complete: f.bin "));
    assert_eq!(exit_code(&directive), Some(0));
}

#[test]
fn fewer_chunks_than_connections_are_merged() {
    let a = args("http://h/f.bin", Some("o"), 100);
    let (stage, _) = run_in_foreground(&a, Stage::Probing, StageEvent::Probed(Ok(5)));
    assert_eq!(stage, Stage::Downloading { output_path: "o".to_string(), num_chunks: 5 });
}

#[test]
fn any_failure_aborts_with_exit_code_one() {
    let a = args("http://h/f.bin", Some("o"), 2);
    let downloading = Stage::Downloading { output_path: "o".to_string(), num_chunks: 2 };
    let merging = Stage::Merging { output_path: "o".to_string() };
    let cases = vec![
        (Stage::Probing, StageEvent::Probed(Err(connection_error("404 Not Found")))),
        (Stage::Probing, StageEvent::Probed(Ok(0))),
        (downloading.clone(), StageEvent::Downloaded(Err(connection_error("Request failed: 200 OK")))),
        (merging.clone(), StageEvent::Merged(Err(connection_error("Partial file missing: o_part_1")))),
        (Stage::Probing, StageEvent::Merged(Ok(()))),
        (downloading, StageEvent::Merged(Ok(()))),
        (merging, StageEvent::Downloaded(Ok(()))),
        (Stage::Finished, StageEvent::Probed(Ok(1))),
    ];
    for (stage, event) in cases {
        let (next, directive) = run_in_foreground(&a, stage, event);
        assert_eq!(next, Stage::Finished);
        assert!(matches!(directive, Directive::Abort(_)));
        assert_eq!(exit_code(&directive), Some(1));
    }
}

#[test]
fn a_failed_download_is_not_merged() {
    let a = args("http://h/f.bin", Some("o"), 2);
    let (stage, directive) = run_in_foreground(
        &a,
        Stage::Downloading { output_path: "o".to_string(), num_chunks: 2 },
        StageEvent::Downloaded(Err(connection_error("Request failed: 200 OK"))),
    );
    assert_eq!(stage, Stage::Finished);
    assert!(matches!(
        directive,
        Directive::Abort(AppError::CouldNotConnect(ref m)) if m == "Request failed: 200 OK"
    ));
}

#[test]
fn nothing_to_download_is_an_error() {
    let (stage, directive) = start_download(Ok(Vec::new()));
    assert_eq!(stage, Stage::Finished);
    assert!(matches!(
        directive,
        Directive::Abort(AppError::StringError(ref m)) if m == "no tasks to run"
    ));
}

#[test]
fn errors_are_reported_on_one_line() {
    assert_eq!(
        failure_report(&connection_error("empty resource")),
        "Error: Could not connect to the server: empty resource"
    );
    assert_eq!(failure_report(&AppError::UnsupportedProtocol), "Error: Unsupported protocol");
}
