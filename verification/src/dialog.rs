//! The open and save dialogs: what they are set up with, and what follows
//! from the user's decision.
//!
//! The caller shows the dialog and reports the decision; a closed dialog is a
//! result of its own, not a failure.

use crate::files::read_result;
use crate::path::{file_name, file_name_of, optional_text, parent, parent_of};
use crate::payload::FilePayload;
use vstd::prelude::*;

verus! {

/// The extensions that the dialogs offer as code and text files.
pub open spec fn offered_extensions() -> Seq<Seq<char>> {
    seq![
        "js"@, "mjs"@, "ts"@, "tsx"@, "jsx"@, "py"@, "rs"@, "go"@, "html"@, "htm"@, "css"@,
        "scss"@, "less"@, "json"@, "jsonc"@, "yaml"@, "yml"@, "md"@, "mdx"@, "cpp"@, "cc"@,
        "c"@, "h"@, "java"@, "sql"@, "xml"@, "svg"@, "sh"@, "bash"@, "rb"@, "php"@, "toml"@,
        "txt"@,
    ]
}

/// A named group of extensions that a dialog lets the user choose among.
pub struct DialogFilter {
    pub name: &'static str,
    pub extensions: Vec<&'static str>,
}

impl DialogFilter {
    /// Whether the filter has this name and these extensions, in order.
    pub open spec fn holds(&self, name: Seq<char>, extensions: Seq<Seq<char>>) -> bool {
        &&& self.name@ == name
        &&& self.extensions@.len() == extensions.len()
        &&& forall|i: int|
            0 <= i < extensions.len() ==> (#[trigger] self.extensions@[i])@ == extensions[i]
    }
}

/// The filters of both dialogs: code and text files first, then every file.
pub fn dialog_filters() -> (filters: Vec<DialogFilter>)
    ensures
        filters@.len() == 2,
        filters@[0].holds("Code & Text Files"@, offered_extensions()),
        filters@[1].holds("All Files"@, seq!["*"@]),
{
    let code = DialogFilter {
        name: "Code & Text Files",
        extensions: vec![
            "js", "mjs", "ts", "tsx", "jsx", "py", "rs", "go", "html", "htm", "css", "scss",
            "less", "json", "jsonc", "yaml", "yml", "md", "mdx", "cpp", "cc", "c", "h", "java",
            "sql", "xml", "svg", "sh", "bash", "rb", "php", "toml", "txt",
        ],
    };
    let all = DialogFilter { name: "All Files", extensions: vec!["*"] };
    vec![code, all]
}

/// Where a save dialog starts and which name it proposes.
pub struct SaveDefaults {
    pub directory: Option<String>,
    pub file_name: Option<String>,
}

/// The defaults of a save dialog: parent directory and file name of the
/// current path, as far as it has them; none without a current path.
pub fn save_defaults(current_path: &Option<String>) -> (defaults: SaveDefaults)
    ensures
        match current_path {
            Some(p) => optional_text(defaults.directory) == parent(p@) && optional_text(
                defaults.file_name,
            ) == file_name(p@),
            None => defaults.directory is None && defaults.file_name is None,
        },
{
    match current_path {
        Some(p) => SaveDefaults {
            directory: parent_of(p.as_str()),
            file_name: file_name_of(p.as_str()),
        },
        None => SaveDefaults { directory: None, file_name: None },
    }
}

/// How a dialog ended.
pub enum Decision {
    /// The user chose this path.
    Chosen(String),
    /// The user closed the dialog without choosing.
    Cancelled,
    /// The dialog went away before any decision arrived; the text says how.
    Broken(String),
}

/// What follows an open dialog.
pub enum OpenAction {
    /// Read the file at this path.
    Read(String),
    /// Answer the front end.
    Finish(Result<Option<FilePayload>, String>),
}

/// What follows a save dialog.
pub enum SaveAction {
    /// Write the content to this path.
    Write(String),
    /// Answer the front end.
    Finish(Result<Option<String>, String>),
}

/// After an open dialog: a chosen file is read, a closed dialog answers with
/// no selection, a broken one with its message.
pub fn open_decided(decision: Decision) -> (action: OpenAction)
    ensures
        match decision {
            Decision::Chosen(path) => match action {
                OpenAction::Read(p) => p@ == path@,
                _ => false,
            },
            Decision::Cancelled => action == OpenAction::Finish(Ok(None)),
            Decision::Broken(cause) => match action {
                OpenAction::Finish(Err(message)) => message@ == cause@,
                _ => false,
            },
        },
{
    match decision {
        Decision::Chosen(path) => OpenAction::Read(path),
        Decision::Cancelled => OpenAction::Finish(Ok(None)),
        Decision::Broken(cause) => OpenAction::Finish(Err(cause)),
    }
}

/// The answer of an open dialog once the chosen file was read, or was not.
pub fn open_finished(path: String, outcome: Result<String, String>) -> (answer: Result<
    Option<FilePayload>,
    String,
>)
    ensures
        match outcome {
            Ok(content) => match answer {
                Ok(Some(payload)) => payload.describes(path@, content@),
                _ => false,
            },
            Err(cause) => match answer {
                Err(message) => message@ == crate::files::read_failure(path@, cause@),
                _ => false,
            },
        },
{
    match read_result(path, outcome) {
        Ok(payload) => Ok(Some(payload)),
        Err(message) => Err(message),
    }
}

/// After a save dialog: the content goes to a chosen path, a closed dialog
/// answers with no selection, a broken one with its message.
pub fn save_decided(decision: Decision) -> (action: SaveAction)
    ensures
        match decision {
            Decision::Chosen(path) => match action {
                SaveAction::Write(p) => p@ == path@,
                _ => false,
            },
            Decision::Cancelled => action == SaveAction::Finish(Ok(None)),
            Decision::Broken(cause) => match action {
                SaveAction::Finish(Err(message)) => message@ == cause@,
                _ => false,
            },
        },
{
    match decision {
        Decision::Chosen(path) => SaveAction::Write(path),
        Decision::Cancelled => SaveAction::Finish(Ok(None)),
        Decision::Broken(cause) => SaveAction::Finish(Err(cause)),
    }
}

/// The answer of a save dialog once the write to the chosen path ended: the
/// path when it was written, else the write's message and no path.
pub fn save_finished(path: String, outcome: Result<(), String>) -> (answer: Result<
    Option<String>,
    String,
>)
    ensures
        match outcome {
            Ok(_) => match answer {
                Ok(Some(p)) => p@ == path@,
                _ => false,
            },
            Err(message) => match answer {
                Err(m) => m@ == message@,
                _ => false,
            },
        },
{
    match outcome {
        Ok(_) => Ok(Some(path)),
        Err(message) => Err(message),
    }
}

} // verus!
