//! Discovers cross-references between markdown notes: every mention of a
//! note's title or alias inside the linkable text of another note.

pub mod laws;
pub mod linker;
mod matcher;
pub mod note;
pub mod pattern;
pub mod scan;

pub use linker::{drop_self_links, JsLinker, LinkError};
pub use scan::get_first_capture;
pub use matcher::{
    captures_view, escaped, group_view, groups_view, is_meta, regex_builds, regex_captures,
};
pub use note::{JsLink, LinkView, Note, ParseOutcome, Span};
pub use pattern::{combined_regex, identity_regex, note_regex};
