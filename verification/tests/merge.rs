use rtget::error::AppError;
use rtget::filesystem::{
    merge_begin, merge_chunks, part_file_path, write_chunk, MergeAction, MergeEvent, MergeState,
};

fn fail(message: &str) -> (MergeState, MergeAction) {
    (MergeState::Failed, MergeAction::Finish(Err(AppError::CouldNotConnect(message.to_string()))))
}

#[test]
fn part_files_are_named_after_the_output() {
    assert_eq!(part_file_path("out.bin", 0), "out.bin_part_0");
    assert_eq!(part_file_path("dir/out.bin", 12), "dir/out.bin_part_12");
    assert_eq!(part_file_path("", 99), "_part_99");
}

#[test]
fn merge_runs_in_index_order() {
    let (mut state, first) = merge_begin("out");
    assert_eq!(state, MergeState::Opening);
    assert_eq!(first, MergeAction::OpenOutput("out".to_string()));
    let mut actions = Vec::new();
    let events = vec![
        MergeEvent::OutputOpened,
        MergeEvent::PartAppended,
        MergeEvent::PartAppended,
        MergeEvent::PartAppended,
        MergeEvent::Flushed,
        MergeEvent::PartRemoved,
        MergeEvent::PartRemoved,
        MergeEvent::PartRemoved,
    ];
    for event in events {
        let (next, action) = merge_chunks("out", 3, state, event);
        state = next;
        actions.push(action);
    }
    assert_eq!(state, MergeState::Merged);
    assert_eq!(
        actions,
        vec![
            MergeAction::AppendPart("out_part_0".to_string()),
            MergeAction::AppendPart("out_part_1".to_string()),
            MergeAction::AppendPart("out_part_2".to_string()),
            MergeAction::Flush,
            MergeAction::RemovePart("out_part_0".to_string()),
            MergeAction::RemovePart("out_part_1".to_string()),
            MergeAction::RemovePart("out_part_2".to_string()),
            MergeAction::Finish(Ok(())),
        ]
    );
}

#[test]
fn merge_of_no_parts() {
    let (state, action) = merge_chunks("out", 0, MergeState::Opening, MergeEvent::OutputOpened);
    assert_eq!((state, action), (MergeState::Flushing, MergeAction::Flush));
    let (state, action) = merge_chunks("out", 0, state, MergeEvent::Flushed);
    assert_eq!((state, action), (MergeState::Merged, MergeAction::Finish(Ok(()))));
}

#[test]
fn a_missing_part_ends_the_merge() {
    assert_eq!(
        merge_chunks("out", 2, MergeState::Appending { index: 1 }, MergeEvent::PartMissing),
        fail("Partial file missing: out_part_1")
    );
}

#[test]
fn merge_failures_carry_their_reason() {
    assert_eq!(
        merge_chunks("out", 2, MergeState::Opening, MergeEvent::OpenFailed("denied".to_string())),
        fail("Failed to create output file: denied")
    );
    assert_eq!(
        merge_chunks(
            "out",
            2,
            MergeState::Appending { index: 0 },
            MergeEvent::OpenPartFailed("denied".to_string())
        ),
        fail("Failed to open partial file out_part_0: denied")
    );
    assert_eq!(
        merge_chunks(
            "out",
            2,
            MergeState::Appending { index: 1 },
            MergeEvent::ReadPartFailed("io".to_string())
        ),
        fail("Failed to read partial file out_part_1: io")
    );
    assert_eq!(
        merge_chunks(
            "out",
            2,
            MergeState::Appending { index: 1 },
            MergeEvent::AppendFailed("disk full".to_string())
        ),
        fail("Failed to write to output file: disk full")
    );
    assert_eq!(
        merge_chunks("out", 2, MergeState::Flushing, MergeEvent::FlushFailed("io".to_string())),
        fail("Failed to flush output file: io")
    );
}

#[test]
fn a_part_that_cannot_be_deleted_is_reported_and_the_merge_goes_on() {
    let (state, action) = merge_chunks(
        "out",
        2,
        MergeState::Removing { index: 0 },
        MergeEvent::RemoveFailed("busy".to_string()),
    );
    assert_eq!(state, MergeState::Reporting { index: 0 });
    assert_eq!(
        action,
        MergeAction::Report("Failed to delete partial file out_part_0: busy".to_string())
    );
    let (state, action) = merge_chunks("out", 2, state, MergeEvent::Reported);
    assert_eq!(state, MergeState::Removing { index: 1 });
    assert_eq!(action, MergeAction::RemovePart("out_part_1".to_string()));
    let (state, _) = merge_chunks("out", 2, state, MergeEvent::RemoveFailed("busy".to_string()));
    let (state, action) = merge_chunks("out", 2, state, MergeEvent::Reported);
    assert_eq!((state, action), (MergeState::Merged, MergeAction::Finish(Ok(()))));
}

#[test]
fn merge_events_out_of_order() {
    let out_of_order = (
        MergeState::Failed,
        MergeAction::Finish(Err(AppError::StringError("event out of order".to_string()))),
    );
    assert_eq!(merge_chunks("out", 2, MergeState::Opening, MergeEvent::Flushed), out_of_order);
    assert_eq!(merge_chunks("out", 2, MergeState::Merged, MergeEvent::PartRemoved), out_of_order);
    assert_eq!(merge_chunks("out", 2, MergeState::Failed, MergeEvent::OutputOpened), out_of_order);
    assert_eq!(
        merge_chunks("out", 2, MergeState::Flushing, MergeEvent::PartAppended),
        out_of_order
    );
}

#[test]
fn merge_states_fit_or_not() {
    assert!(MergeState::Appending { index: 1 }.fits(2));
    assert!(!MergeState::Appending { index: 2 }.fits(2));
    assert!(!MergeState::Removing { index: 0 }.fits(0));
    assert!(MergeState::Flushing.fits(0));
    assert!(MergeState::Reporting { index: 99 }.fits(100));
}

#[test]
fn merge_of_the_most_parts() {
    let (state, action) =
        merge_chunks("o", 255, MergeState::Appending { index: 254 }, MergeEvent::PartAppended);
    assert_eq!((state, action), (MergeState::Flushing, MergeAction::Flush));
    let (state, action) =
        merge_chunks("o", 255, MergeState::Removing { index: 253 }, MergeEvent::PartRemoved);
    assert_eq!(state, MergeState::Removing { index: 254 });
    assert_eq!(action, MergeAction::RemovePart("o_part_254".to_string()));
}

#[test]
fn buffers_are_fitted_into_the_part() {
    let buffer = [1u8, 2, 3, 4, 5];
    let all = write_chunk(&buffer, 10, 10, 8);
    assert_eq!(all.position, 0);
    assert_eq!(all.bytes, &buffer[..]);
    let cut = write_chunk(&buffer, 15, 10, 8);
    assert_eq!(cut.position, 5);
    assert_eq!(cut.bytes, &[1u8, 2, 3][..]);
    let exact = write_chunk(&buffer, 13, 10, 8);
    assert_eq!(exact.position, 3);
    assert_eq!(exact.bytes, &buffer[..]);
    let behind = write_chunk(&buffer, 18, 10, 8);
    assert_eq!(behind.position, 8);
    assert!(behind.bytes.is_empty());
    let far = write_chunk(&buffer, 100, 10, 8);
    assert_eq!(far.position, 90);
    assert!(far.bytes.is_empty());
    let nothing = write_chunk(&[], 10, 10, 8);
    assert_eq!(nothing.position, 0);
    assert!(nothing.bytes.is_empty());
    let no_room = write_chunk(&buffer, 0, 0, 0);
    assert!(no_room.bytes.is_empty());
}
