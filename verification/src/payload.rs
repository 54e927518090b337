//! What a successful read hands to the front end.

use crate::language::{detect_language, language_of, lemma_tag_not_empty};
use crate::path::{display_name, filename_from_path, is_separator, lemma_file_name_is_plain};
use vstd::prelude::*;

verus! {

/// A file as the front end shows it: where it is, what it is called, what it
/// holds and which language it is written in.
#[derive(Clone, Debug)]
pub struct FilePayload {
    pub path: String,
    pub filename: String,
    pub content: String,
    pub language: String,
}

impl FilePayload {
    /// Whether this is the payload for the text `content` read at `path`:
    /// name and language are those that the path gives.
    pub open spec fn describes(&self, path: Seq<char>, content: Seq<char>) -> bool {
        &&& self.path@ == path
        &&& self.content@ == content
        &&& self.filename@ == display_name(path)
        &&& self.language@ == language_of(path)
    }

    /// Whether name and language agree with the path.
    pub open spec fn well_formed(&self) -> bool {
        self.describes(self.path@, self.content@)
    }

    /// A well-formed payload has a language tag, and a name without separator.
    pub proof fn lemma_well_formed_has_tag_and_name(&self)
        requires
            self.well_formed(),
        ensures
            self.language@.len() > 0,
            self.filename@.len() > 0,
            forall|i: int|
                0 <= i < self.filename@.len() ==> !is_separator(#[trigger] self.filename@[i]),
    {
        lemma_tag_not_empty(self.path@);
        lemma_file_name_is_plain(self.path@);
    }

    /// The payload for the text `content` read at `path`.
    pub fn new(path: String, content: String) -> (payload: FilePayload)
        ensures
            payload.describes(path@, content@),
            payload.well_formed(),
    {
        let filename = filename_from_path(path.as_str());
        let language = detect_language(path.as_str()).to_owned();
        FilePayload { path, filename, content, language }
    }
}

} // verus!
