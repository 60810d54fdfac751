//! What the save control shows after each step of a recording: whether a recording
//! runs, and the last error. The caller opens, writes and closes the files and
//! reports each outcome as an event; the control decides the status.
use vstd::prelude::*;
use crate::save_format::{SELECT_FILE_FIRST, UNSUPPORTED_FILE_TYPE};
use crate::text::push_str;

verus! {

pub const COULD_NOT_OPEN: &'static str = "Could not open ";

pub const COULD_NOT_FINISH: &'static str = "Could not finish saving: ";

pub const SAVING_STOPPED: &'static str = "Saving stopped: ";

/// Whether a recording runs, and the error shown, if any.
#[derive(Debug)]
pub struct SaveStatus {
    pub saving: bool,
    pub error: Option<String>,
}

/// What happened to the recording.
pub enum SaveEvent {
    /// A new file was selected, after any running recording was closed.
    Selected,
    /// Starting was asked for with no file selected.
    StartedWithoutFile,
    /// Starting was asked for with a file whose extension selects no format.
    UnsupportedFile,
    /// The file was opened and the recording runs.
    Opened,
    /// Opening `path` failed with `reason`.
    OpenFailed { path: String, reason: String },
    /// The running recording was closed.
    Finished,
    /// Closing the running recording failed with `reason`.
    FinishFailed { reason: String },
    /// Writing a spectrum failed with `reason`; the recording was dropped.
    WriteFailed { reason: String },
}

/// The error text of a status.
pub open spec fn error_text(error: Option<String>) -> Option<Seq<char>> {
    match error {
        Some(message) => Some(message@),
        None => None,
    }
}

/// Whether a recording runs after `event`, from whether one ran before.
pub open spec fn saving_after(saving: bool, event: SaveEvent) -> bool {
    match event {
        SaveEvent::Selected => false,
        SaveEvent::StartedWithoutFile => saving,
        SaveEvent::UnsupportedFile => false,
        SaveEvent::Opened => true,
        SaveEvent::OpenFailed { .. } => false,
        SaveEvent::Finished => false,
        SaveEvent::FinishFailed { .. } => false,
        SaveEvent::WriteFailed { .. } => false,
    }
}

/// The error shown after `event`, from the error shown before.
pub open spec fn error_after(error: Option<Seq<char>>, event: SaveEvent) -> Option<Seq<char>> {
    match event {
        SaveEvent::Selected => None,
        SaveEvent::StartedWithoutFile => Some(SELECT_FILE_FIRST@),
        SaveEvent::UnsupportedFile => Some(UNSUPPORTED_FILE_TYPE@),
        SaveEvent::Opened => None,
        SaveEvent::OpenFailed { path, reason } => Some(COULD_NOT_OPEN@ + path@ + ": "@ + reason@),
        SaveEvent::Finished => error,
        SaveEvent::FinishFailed { reason } => Some(COULD_NOT_FINISH@ + reason@),
        SaveEvent::WriteFailed { reason } => Some(SAVING_STOPPED@ + reason@),
    }
}

/// The status after `event`.
pub fn next_status(status: SaveStatus, event: SaveEvent) -> (next: SaveStatus)
    ensures
        next.saving == saving_after(status.saving, event),
        error_text(next.error) == error_after(error_text(status.error), event),
        next.saving <==> (event is Opened || (event is StartedWithoutFile && status.saving)),
        event is Opened ==> next.error is None,
        event is Selected ==> next.error is None,
        event is Finished ==> error_text(next.error) == error_text(status.error),
{
    match event {
        SaveEvent::Selected => SaveStatus { saving: false, error: None },
        SaveEvent::StartedWithoutFile => SaveStatus {
            saving: status.saving,
            error: Some(SELECT_FILE_FIRST.to_owned()),
        },
        SaveEvent::UnsupportedFile => SaveStatus {
            saving: false,
            error: Some(UNSUPPORTED_FILE_TYPE.to_owned()),
        },
        SaveEvent::Opened => SaveStatus { saving: true, error: None },
        SaveEvent::OpenFailed { path, reason } => {
            let mut message = String::new();
            push_str(&mut message, COULD_NOT_OPEN);
            push_str(&mut message, path.as_str());
            push_str(&mut message, ": ");
            push_str(&mut message, reason.as_str());
            SaveStatus { saving: false, error: Some(message) }
        },
        SaveEvent::Finished => SaveStatus { saving: false, error: status.error },
        SaveEvent::FinishFailed { reason } => {
            let mut message = String::new();
            push_str(&mut message, COULD_NOT_FINISH);
            push_str(&mut message, reason.as_str());
            SaveStatus { saving: false, error: Some(message) }
        },
        SaveEvent::WriteFailed { reason } => {
            let mut message = String::new();
            push_str(&mut message, SAVING_STOPPED);
            push_str(&mut message, reason.as_str());
            SaveStatus { saving: false, error: Some(message) }
        },
    }
}


/// A recording runs after a step exactly when the step opened one, or when starting
/// was refused for want of a file while one was running: selecting a file, closing
/// the recording (whether or not closing failed), a failed write, a failed open and
/// an unsupported file all leave no recording running.
pub proof fn lemma_saving_after_steps(saving: bool, event: SaveEvent)
    ensures
        saving_after(saving, event) <==> (event is Opened || (event is StartedWithoutFile
            && saving)),
        event is Finished ==> !saving_after(saving, event),
        event is FinishFailed ==> !saving_after(saving, event),
        event is WriteFailed ==> !saving_after(saving, event),
        event is Opened ==> saving_after(saving, event),
{
}

/// Opening and selecting clear the error shown; a failure shows a message that names
/// its reason at the end; a clean close keeps what was shown.
pub proof fn lemma_error_after_steps(error: Option<Seq<char>>, event: SaveEvent)
    ensures
        event is Opened ==> error_after(error, event) is None,
        event is Selected ==> error_after(error, event) is None,
        event is Finished ==> error_after(error, event) == error,
        match event {
            SaveEvent::OpenFailed { path, reason } => {
                &&& error_after(error, event) is Some
                &&& error_after(error, event)->0.subrange(
                    error_after(error, event)->0.len() - reason@.len(),
                    error_after(error, event)->0.len() as int,
                ) == reason@
            },
            SaveEvent::FinishFailed { reason } => {
                &&& error_after(error, event) is Some
                &&& error_after(error, event)->0.subrange(
                    error_after(error, event)->0.len() - reason@.len(),
                    error_after(error, event)->0.len() as int,
                ) == reason@
            },
            SaveEvent::WriteFailed { reason } => {
                &&& error_after(error, event) is Some
                &&& error_after(error, event)->0.subrange(
                    error_after(error, event)->0.len() - reason@.len(),
                    error_after(error, event)->0.len() as int,
                ) == reason@
            },
            _ => true,
        },
{
    match event {
        SaveEvent::OpenFailed { path, reason } => {
            let m = COULD_NOT_OPEN@ + path@ + ": "@ + reason@;
            assert(m.subrange(m.len() - reason@.len(), m.len() as int) =~= reason@);
        },
        SaveEvent::FinishFailed { reason } => {
            let m = COULD_NOT_FINISH@ + reason@;
            assert(m.subrange(m.len() - reason@.len(), m.len() as int) =~= reason@);
        },
        SaveEvent::WriteFailed { reason } => {
            let m = SAVING_STOPPED@ + reason@;
            assert(m.subrange(m.len() - reason@.len(), m.len() as int) =~= reason@);
        },
        _ => {},
    }
}

} // verus!
