//! The metadata record a file is sorted by, and the last-resort fallback
//! when no extractor could supply it: the oracle is asked for both fields
//! directly, and an empty answer for either means extraction failed and the
//! file is skipped.

use crate::text::{spec_trim, trim_str};
use vstd::prelude::*;

verus! {

/// Title and main author of one file, as the renderer consumes them.
#[derive(Debug, Clone, Eq, PartialEq)]
pub struct FileMetadata {
    pub title: String,
    pub main_author: String,
}

/// A record is usable only when both fields are non-empty; an unusable one
/// must go through the fallback prompt before rendering.
pub open spec fn spec_usable(m: FileMetadata) -> bool {
    m.title@.len() > 0 && m.main_author@.len() > 0
}

impl FileMetadata {
    /// Whether the record may be used to render a path.
    pub fn usable(&self) -> (b: bool)
        ensures
            b == spec_usable(*self),
    {
        !self.title.as_str().is_empty() && !self.main_author.as_str().is_empty()
    }
}

/// Builds the final record from resolved raw fields, trimming both.
pub fn finish_metadata(title: &str, main_author: &str) -> (m: FileMetadata)
    ensures
        m.title@ == spec_trim(title@),
        m.main_author@ == spec_trim(main_author@),
{
    FileMetadata { title: trim_str(title), main_author: trim_str(main_author) }
}

/// The last-resort metadata from the two fallback answers: empty input for
/// either field means extraction failed for this file.
pub fn resolve_fallback(title: String, main_author: String) -> (r: Option<FileMetadata>)
    ensures
        match r {
            Some(m) => title@.len() > 0 && main_author@.len() > 0 && m.title@ == title@
                && m.main_author@ == main_author@,
            None => title@.len() == 0 || main_author@.len() == 0,
        },
{
    if title.as_str().is_empty() || main_author.as_str().is_empty() {
        None
    } else {
        Some(FileMetadata { title, main_author })
    }
}

} // verus!
