//! What the clean-up of the log folder does with each file.

use vstd::prelude::*;

verus! {

/// How old a log file may get, in seconds (30 days).
pub const LOG_MAX_AGE_SECS: u64 = 2592000;

/// How large a log file may get, in bytes (10 MiB).
pub const LOG_MAX_BYTES: u64 = 10485760;

/// What happens to one log file.
#[derive(Debug, Clone, Copy, PartialEq, Eq, Structural)]
pub enum LogFileAction {
    /// The file is kept as it is.
    Keep,
    /// The file is deleted.
    Delete,
    /// The file is emptied.
    Truncate,
}

/// What happens to a log file: it is deleted when it was last modified
/// before the cut-off (`expired`, unknown when its time could not be read);
/// otherwise it is emptied when it holds more than `LOG_MAX_BYTES` bytes,
/// and kept when not.
pub fn log_file_action(expired: Option<bool>, size: u64) -> (a: LogFileAction)
    ensures
        a == if expired == Some(true) {
            LogFileAction::Delete
        } else if size > LOG_MAX_BYTES {
            LogFileAction::Truncate
        } else {
            LogFileAction::Keep
        },
{
    if let Some(true) = expired {
        return LogFileAction::Delete;
    }
    if size > LOG_MAX_BYTES {
        LogFileAction::Truncate
    } else {
        LogFileAction::Keep
    }
}

} // verus!
