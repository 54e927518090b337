//! The native side of a small code editor: path grammar, language tags,
//! the values handed to the front end, and the decisions taken around the
//! file system and the file dialogs.

pub mod dialog;
pub mod files;
pub mod language;
pub mod launch;
pub mod path;
pub mod payload;

pub use language::detect_language;
pub use path::filename_from_path;
pub use payload::FilePayload;
