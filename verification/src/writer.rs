//! The page writer protocol. The library decides; the caller performs the
//! filesystem work and feeds back what it saw. One run walks
//! `CheckingFolder → CreatingFolder → CheckingFile → WritingFile`, stopping
//! early on a conflict or a failure, and never mutates anything that already
//! exists: a pre-existing folder aborts the run, a pre-existing file is left
//! untouched.

use vstd::prelude::*;

verus! {

/// The final outcome of one writer run.
#[derive(Clone, Copy, Debug, PartialEq, Eq, Structural)]
pub enum Outcome {
    /// Folder and file were created and the page text was written.
    Written,
    /// The target folder already existed: the run aborted before any
    /// filesystem mutation. A hard failure.
    FolderConflict,
    /// The folder was created but the content file already existed: the file
    /// is left untouched and the run still counts as an overall success,
    /// with a notice.
    FileConflict,
    /// The target folder could not be created.
    FolderIoError,
    /// The content file could not be created or written.
    FileIoError,
}

/// Where a writer run stands; every state but `Done` names the one thing
/// the caller must do next.
#[derive(Clone, Copy, Debug, PartialEq, Eq, Structural)]
pub enum WriterState {
    /// Observe whether the target folder exists, as a file or a directory.
    CheckingFolder,
    /// Create the target folder (a single level; the content root and the
    /// section folder are assumed to exist).
    CreatingFolder,
    /// Observe whether the content file exists.
    CheckingFile,
    /// Create the content file and write the page text into it.
    WritingFile,
    /// Nothing more to do.
    Done(Outcome),
}

/// One observation fed back by the caller.
#[derive(Clone, Copy, Debug, PartialEq, Eq, Structural)]
pub enum WriterEvent {
    FolderExists(bool),
    FolderCreated(bool),
    FileExists(bool),
    FileWritten(bool),
}

/// Acting on this state mutates the filesystem.
pub open spec fn is_mutating(s: WriterState) -> bool {
    match s {
        WriterState::CreatingFolder => true,
        WriterState::WritingFile => true,
        _ => false,
    }
}

/// The writer's whole transition table. An observation that the current
/// state does not await changes nothing.
pub open spec fn transition(s: WriterState, e: WriterEvent) -> WriterState {
    match (s, e) {
        (WriterState::CheckingFolder, WriterEvent::FolderExists(true)) => WriterState::Done(
            Outcome::FolderConflict,
        ),
        (WriterState::CheckingFolder, WriterEvent::FolderExists(false)) => WriterState::CreatingFolder,
        (WriterState::CreatingFolder, WriterEvent::FolderCreated(true)) => WriterState::CheckingFile,
        (WriterState::CreatingFolder, WriterEvent::FolderCreated(false)) => WriterState::Done(
            Outcome::FolderIoError,
        ),
        (WriterState::CheckingFile, WriterEvent::FileExists(true)) => WriterState::Done(
            Outcome::FileConflict,
        ),
        (WriterState::CheckingFile, WriterEvent::FileExists(false)) => WriterState::WritingFile,
        (WriterState::WritingFile, WriterEvent::FileWritten(true)) => WriterState::Done(
            Outcome::Written,
        ),
        (WriterState::WritingFile, WriterEvent::FileWritten(false)) => WriterState::Done(
            Outcome::FileIoError,
        ),
        _ => s,
    }
}

/// Advances the writer by one observation.
pub fn writer_step(s: WriterState, e: WriterEvent) -> (r: WriterState)
    ensures
        r == transition(s, e),
{
    match (s, e) {
        (WriterState::CheckingFolder, WriterEvent::FolderExists(true)) => WriterState::Done(
            Outcome::FolderConflict,
        ),
        (WriterState::CheckingFolder, WriterEvent::FolderExists(false)) => WriterState::CreatingFolder,
        (WriterState::CreatingFolder, WriterEvent::FolderCreated(true)) => WriterState::CheckingFile,
        (WriterState::CreatingFolder, WriterEvent::FolderCreated(false)) => WriterState::Done(
            Outcome::FolderIoError,
        ),
        (WriterState::CheckingFile, WriterEvent::FileExists(true)) => WriterState::Done(
            Outcome::FileConflict,
        ),
        (WriterState::CheckingFile, WriterEvent::FileExists(false)) => WriterState::WritingFile,
        (WriterState::WritingFile, WriterEvent::FileWritten(true)) => WriterState::Done(
            Outcome::Written,
        ),
        (WriterState::WritingFile, WriterEvent::FileWritten(false)) => WriterState::Done(
            Outcome::FileIoError,
        ),
        (_, _) => s,
    }
}

/// Whether an outcome counts as an overall success of the command: a
/// written page, or an existing file deliberately left untouched.
pub open spec fn spec_outcome_is_success(o: Outcome) -> bool {
    match o {
        Outcome::Written => true,
        Outcome::FileConflict => true,
        _ => false,
    }
}

/// Whether an outcome counts as an overall success of the command.
pub fn outcome_is_success(o: Outcome) -> (r: bool)
    ensures
        r == spec_outcome_is_success(o),
{
    match o {
        Outcome::Written => true,
        Outcome::FileConflict => true,
        _ => false,
    }
}

/// Law: a pre-existing target folder aborts the run at once, as a hard
/// conflict, before any state that mutates the filesystem is reached.
pub proof fn lemma_existing_folder_aborts()
    ensures
        transition(WriterState::CheckingFolder, WriterEvent::FolderExists(true)) == WriterState::Done(
            Outcome::FolderConflict,
        ),
        !is_mutating(transition(WriterState::CheckingFolder, WriterEvent::FolderExists(true))),
        !spec_outcome_is_success(Outcome::FolderConflict),
{
}

/// Law: a pre-existing content file is left untouched: the run stops
/// without reaching the writing state, and the conflict still counts as an
/// overall success, to be reported as a notice.
pub proof fn lemma_existing_file_skipped()
    ensures
        transition(WriterState::CheckingFile, WriterEvent::FileExists(true)) == WriterState::Done(
            Outcome::FileConflict,
        ),
        !is_mutating(transition(WriterState::CheckingFile, WriterEvent::FileExists(true))),
        spec_outcome_is_success(Outcome::FileConflict),
{
}

/// Law: a missing content file is created even when the folder was already
/// there: from the file check, absence leads straight to the writing state.
pub proof fn lemma_missing_file_written()
    ensures
        transition(WriterState::CheckingFile, WriterEvent::FileExists(false))
            == WriterState::WritingFile,
        transition(WriterState::WritingFile, WriterEvent::FileWritten(true)) == WriterState::Done(
            Outcome::Written,
        ),
{
}

/// Law: a run that meets no obstacle creates the folder, then the file, and
/// ends written: the full unobstructed walk of the table.
pub proof fn lemma_fresh_target_written()
    ensures
        transition(WriterState::CheckingFolder, WriterEvent::FolderExists(false))
            == WriterState::CreatingFolder,
        transition(WriterState::CreatingFolder, WriterEvent::FolderCreated(true))
            == WriterState::CheckingFile,
        transition(WriterState::CheckingFile, WriterEvent::FileExists(false))
            == WriterState::WritingFile,
        transition(WriterState::WritingFile, WriterEvent::FileWritten(true)) == WriterState::Done(
            Outcome::Written,
        ),
{
}

/// Law: a finished run is terminal. No observation moves it, so nothing is
/// ever created or written after the outcome is settled.
pub proof fn lemma_done_is_terminal(o: Outcome, e: WriterEvent)
    ensures
        transition(WriterState::Done(o), e) == WriterState::Done(o),
        !is_mutating(WriterState::Done(o)),
{
}

} // verus!
