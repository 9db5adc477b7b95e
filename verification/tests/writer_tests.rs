use page_scaffold::writer::{outcome_is_success, writer_step, Outcome, WriterEvent, WriterState};

#[test]
fn fresh_target_walks_to_written() {
    let s = WriterState::CheckingFolder;
    let s = writer_step(s, WriterEvent::FolderExists(false));
    assert_eq!(s, WriterState::CreatingFolder);
    let s = writer_step(s, WriterEvent::FolderCreated(true));
    assert_eq!(s, WriterState::CheckingFile);
    let s = writer_step(s, WriterEvent::FileExists(false));
    assert_eq!(s, WriterState::WritingFile);
    let s = writer_step(s, WriterEvent::FileWritten(true));
    assert_eq!(s, WriterState::Done(Outcome::Written));
    assert!(outcome_is_success(Outcome::Written));
}

#[test]
fn second_run_on_same_folder_aborts() {
    // The folder now exists, as after a first successful run: the second
    // run stops at once, with nothing created or written.
    let s = writer_step(WriterState::CheckingFolder, WriterEvent::FolderExists(true));
    assert_eq!(s, WriterState::Done(Outcome::FolderConflict));
    assert!(!outcome_is_success(Outcome::FolderConflict));
    // No observation moves a finished run.
    let s = writer_step(s, WriterEvent::FileExists(false));
    assert_eq!(s, WriterState::Done(Outcome::FolderConflict));
}

#[test]
fn missing_file_in_present_folder_is_written() {
    let s = writer_step(WriterState::CheckingFile, WriterEvent::FileExists(false));
    assert_eq!(s, WriterState::WritingFile);
    let s = writer_step(s, WriterEvent::FileWritten(true));
    assert_eq!(s, WriterState::Done(Outcome::Written));
}

#[test]
fn present_file_is_left_untouched() {
    let s = writer_step(WriterState::CheckingFile, WriterEvent::FileExists(true));
    assert_eq!(s, WriterState::Done(Outcome::FileConflict));
    // The skip is a notice, not a failure of the command.
    assert!(outcome_is_success(Outcome::FileConflict));
}

#[test]
fn io_failures_are_distinct_outcomes() {
    let s = writer_step(WriterState::CreatingFolder, WriterEvent::FolderCreated(false));
    assert_eq!(s, WriterState::Done(Outcome::FolderIoError));
    assert!(!outcome_is_success(Outcome::FolderIoError));
    let s = writer_step(WriterState::WritingFile, WriterEvent::FileWritten(false));
    assert_eq!(s, WriterState::Done(Outcome::FileIoError));
    assert!(!outcome_is_success(Outcome::FileIoError));
}
