//! The closed error taxonomy of the pipeline.
//!
//! Each failure class carries enough context to diagnose it, and maps to a
//! conventional `sysexits`-style exit code that the surrounding application
//! hands to the operating system.

use vstd::prelude::*;
use vstd::string::StringExecFns;

verus! {

/// Everything that can go wrong while emitting notes.
#[derive(Debug)]
pub enum NotesError {
    /// Byte-level I/O on the output sink failed; `context` names the
    /// operation that was being attempted, `message` the underlying cause.
    Io { context: String, message: String },
    /// The scripting bridge exited with a failure status; carries the exit
    /// code (if any) and the captured error text.
    OsaScriptFailed { code: Option<i32>, stderr: String },
    /// A record block lacked an expected field, or the note body could not
    /// be converted from HTML to text.
    NotesParse { context: String, message: String },
    /// A document could not be encoded as JSON; carries the encoder error.
    Json { context: String, message: String },
}

impl NotesError {
    /// The one-line human-readable description of the failure.
    pub open spec fn spec_message(&self) -> Seq<char> {
        match self {
            NotesError::Io { context, .. } => "I/O error while "@ + context@,
            NotesError::OsaScriptFailed { .. } => "failed to talk to Apple Notes (osascript)"@,
            NotesError::NotesParse { context, .. } => "failed to parse Apple Notes output while "@
                + context@,
            NotesError::Json { context, .. } => "failed to serialize JSON while "@ + context@,
        }
    }

    /// Renders the one-line description shown to the user.
    pub fn message(&self) -> (m: String)
        ensures
            m@ == self.spec_message(),
    {
        match self {
            NotesError::Io { context, .. } => String::from_str("I/O error while ").concat(
                context.as_str(),
            ),
            NotesError::OsaScriptFailed { .. } => String::from_str(
                "failed to talk to Apple Notes (osascript)",
            ),
            NotesError::NotesParse { context, .. } => String::from_str(
                "failed to parse Apple Notes output while ",
            ).concat(context.as_str()),
            NotesError::Json { context, .. } => String::from_str(
                "failed to serialize JSON while ",
            ).concat(context.as_str()),
        }
    }

    /// The process exit code for this failure class: 74 (`EX_IOERR`) for
    /// I/O failures, 69 (`EX_UNAVAILABLE`) when the bridge failed, and
    /// 65 (`EX_DATAERR`) for parse and serialization failures.
    pub open spec fn spec_exit_code(&self) -> u8 {
        match self {
            NotesError::Io { .. } => 74,
            NotesError::OsaScriptFailed { .. } => 69,
            NotesError::NotesParse { .. } => 65,
            NotesError::Json { .. } => 65,
        }
    }

    /// Maps the failure class to its process exit code.
    pub fn exit_code(&self) -> (c: u8)
        ensures
            c == self.spec_exit_code(),
    {
        match self {
            NotesError::Io { .. } => 74,
            NotesError::OsaScriptFailed { .. } => 69,
            NotesError::NotesParse { .. } => 65,
            NotesError::Json { .. } => 65,
        }
    }
}

/// Checks the scripting bridge's outcome: a failure status becomes an
/// [`NotesError::OsaScriptFailed`] carrying the exit code and error text.
pub fn bridge_outcome(success: bool, code: Option<i32>, stderr: String) -> (r: Result<
    (),
    NotesError,
>)
    ensures
        r is Ok <==> success,
        !success ==> (r matches Err(NotesError::OsaScriptFailed { code: c, stderr: s }) && c
            == code && s == stderr),
{
    if success {
        Ok(())
    } else {
        Err(NotesError::OsaScriptFailed { code, stderr })
    }
}

} // verus!
