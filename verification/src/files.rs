//! Reading and writing on behalf of the front end: what is asked of the file
//! system, in which order, and what the front end is told afterwards.
//!
//! The caller performs each request and reports how it went; a failure is
//! reported with the words of the operating system, the cause.

use crate::path::{parent, parent_of};
use crate::payload::FilePayload;
use vstd::prelude::*;

verus! {

/// The message for a file that could not be read.
pub open spec fn read_failure(path: Seq<char>, cause: Seq<char>) -> Seq<char> {
    "Failed to read '"@ + path + "': "@ + cause
}

/// The message for a file that could not be written.
pub open spec fn write_failure(path: Seq<char>, cause: Seq<char>) -> Seq<char> {
    "Failed to write '"@ + path + "': "@ + cause
}

/// The message for a parent directory that could not be created.
pub open spec fn directory_failure(cause: Seq<char>) -> Seq<char> {
    "Failed to create directory: "@ + cause
}

/// The message for a failed read holds the path, word for word, between its
/// quotes, and ends with the cause.
pub proof fn lemma_read_failure_names_path(path: Seq<char>, cause: Seq<char>)
    ensures
        read_failure(path, cause).len() == 19 + path.len() + cause.len(),
        read_failure(path, cause).subrange(16, 16 + path.len() as int) == path,
        read_failure(path, cause).subrange(
            19 + path.len() as int,
            19 + path.len() as int + cause.len() as int,
        ) == cause,
{
    reveal_strlit("Failed to read '");
    reveal_strlit("': ");
    let m = read_failure(path, cause);
    let n = path.len() as int;
    assert(m.subrange(16, 16 + n) =~= path);
    assert(m.subrange(19 + n, 19 + n + cause.len() as int) =~= cause);
}

/// `head`, then `path` between quotes, a colon and `cause`.
fn failure_message(head: &str, path: &str, cause: &str) -> (message: String)
    ensures
        message@ == head@ + path@ + "': "@ + cause@,
{
    let mut message = String::from_str(head);
    message.append(path);
    message.append("': ");
    message.append(cause);
    message
}

/// What the front end gets for a read of `path`: the payload when the text
/// was read, else a message that names the path and the cause.
pub fn read_result(path: String, outcome: Result<String, String>) -> (result: Result<
    FilePayload,
    String,
>)
    ensures
        match outcome {
            Ok(content) => match result {
                Ok(payload) => payload.describes(path@, content@),
                Err(_) => false,
            },
            Err(cause) => match result {
                Ok(_) => false,
                Err(message) => message@ == read_failure(path@, cause@),
            },
        },
{
    match outcome {
        Ok(content) => Ok(FilePayload::new(path, content)),
        Err(cause) => Err(failure_message("Failed to read '", path.as_str(), cause.as_str())),
    }
}

/// What has happened so far in a write.
pub enum WriteEvent {
    /// Nothing yet.
    Begun,
    /// The parent directory is there.
    DirectoryReady,
    /// The parent directory could not be created.
    DirectoryFailed(String),
    /// The content is on disk.
    Written,
    /// The content could not be written.
    WriteFailed(String),
}

/// What a write does next.
pub enum WriteAction {
    /// Create this directory and every missing one above it.
    CreateDirectory(String),
    /// Replace the file's content.
    WriteContent,
    /// Tell the front end that the file was written.
    Succeed,
    /// Tell the front end that the write failed, with this message.
    Fail(String),
}

/// The next action of a write to `path`, given what has happened: first the
/// parent directory, if the path has one, then the content; the first failure
/// ends the write with its message.
pub fn write_step(path: &str, event: WriteEvent) -> (action: WriteAction)
    ensures
        match event {
            WriteEvent::Begun => match parent(path@) {
                Some(dir) => match action {
                    WriteAction::CreateDirectory(d) => d@ == dir,
                    _ => false,
                },
                None => action is WriteContent,
            },
            WriteEvent::DirectoryReady => action is WriteContent,
            WriteEvent::DirectoryFailed(cause) => match action {
                WriteAction::Fail(message) => message@ == directory_failure(cause@),
                _ => false,
            },
            WriteEvent::Written => action is Succeed,
            WriteEvent::WriteFailed(cause) => match action {
                WriteAction::Fail(message) => message@ == write_failure(path@, cause@),
                _ => false,
            },
        },
{
    match event {
        WriteEvent::Begun => match parent_of(path) {
            Some(dir) => WriteAction::CreateDirectory(dir),
            None => WriteAction::WriteContent,
        },
        WriteEvent::DirectoryReady => WriteAction::WriteContent,
        WriteEvent::DirectoryFailed(cause) => {
            let mut message = String::from_str("Failed to create directory: ");
            message.append(cause.as_str());
            WriteAction::Fail(message)
        },
        WriteEvent::Written => WriteAction::Succeed,
        WriteEvent::WriteFailed(cause) => WriteAction::Fail(
            failure_message("Failed to write '", path, cause.as_str()),
        ),
    }
}

} // verus!
