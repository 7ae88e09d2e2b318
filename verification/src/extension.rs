//! Per-file dispatch: which extractor a file's extension calls for, and
//! which library root its destination lies under. The extension is matched
//! up to ASCII case; anything but `epub`, `mobi`, `m4a` and `m4b` is
//! unsupported and silently skipped by the traversal.

use crate::text::{lower_seq, str_eq_lower};
use vstd::prelude::*;

verus! {

/// The closed classification of a file extension.
#[derive(Clone, Copy, Debug, PartialEq, Eq, Structural)]
pub enum ExtensionClass {
    Epub,
    Mobi,
    /// An `m4a` or `m4b` audiobook.
    AudioBook,
    Unsupported,
}

/// Which of the two configured destination roots a file goes under.
#[derive(Clone, Copy, Debug, PartialEq, Eq, Structural)]
pub enum LibraryRoot {
    /// The e-book library root.
    Books,
    /// The audiobook library root.
    Audiobooks,
}

pub open spec fn epub_ext() -> Seq<char> {
    seq!['e', 'p', 'u', 'b']
}

pub open spec fn mobi_ext() -> Seq<char> {
    seq!['m', 'o', 'b', 'i']
}

pub open spec fn m4a_ext() -> Seq<char> {
    seq!['m', '4', 'a']
}

pub open spec fn m4b_ext() -> Seq<char> {
    seq!['m', '4', 'b']
}

/// The dispatch rule: `epub` and `mobi` name their extractors, `m4a` and
/// `m4b` the audiobook extractor, case-insensitively on ASCII letters;
/// every other extension is unsupported.
pub open spec fn spec_classify(ext: Seq<char>) -> ExtensionClass {
    let l = lower_seq(ext);
    if l == epub_ext() {
        ExtensionClass::Epub
    } else if l == mobi_ext() {
        ExtensionClass::Mobi
    } else if l == m4a_ext() || l == m4b_ext() {
        ExtensionClass::AudioBook
    } else {
        ExtensionClass::Unsupported
    }
}

/// Classifies a file extension (without its leading dot).
pub fn classify_extension(ext: &str) -> (r: ExtensionClass)
    ensures
        r == spec_classify(ext@),
{
    proof {
        reveal_strlit("epub");
        reveal_strlit("mobi");
        reveal_strlit("m4a");
        reveal_strlit("m4b");
        assert(lower_seq("epub"@) =~= epub_ext());
        assert(lower_seq("mobi"@) =~= mobi_ext());
        assert(lower_seq("m4a"@) =~= m4a_ext());
        assert(lower_seq("m4b"@) =~= m4b_ext());
    }
    if str_eq_lower(ext, "epub") {
        ExtensionClass::Epub
    } else if str_eq_lower(ext, "mobi") {
        ExtensionClass::Mobi
    } else if str_eq_lower(ext, "m4a") || str_eq_lower(ext, "m4b") {
        ExtensionClass::AudioBook
    } else {
        ExtensionClass::Unsupported
    }
}

impl ExtensionClass {
    /// Whether a file of this class is processed at all.
    pub fn is_supported(&self) -> (r: bool)
        ensures
            r == (*self != ExtensionClass::Unsupported),
    {
        match self {
            ExtensionClass::Unsupported => false,
            _ => true,
        }
    }

    /// The destination root files of this class go under: audiobooks under
    /// the audiobook library root, e-books under the book library root.
    pub fn destination_root(&self) -> (r: Option<LibraryRoot>)
        ensures
            r == spec_destination_root(*self),
    {
        match self {
            ExtensionClass::Epub => Some(LibraryRoot::Books),
            ExtensionClass::Mobi => Some(LibraryRoot::Books),
            ExtensionClass::AudioBook => Some(LibraryRoot::Audiobooks),
            ExtensionClass::Unsupported => None,
        }
    }
}

/// Spec mirror of [`ExtensionClass::destination_root`].
pub open spec fn spec_destination_root(c: ExtensionClass) -> Option<LibraryRoot> {
    match c {
        ExtensionClass::Epub => Some(LibraryRoot::Books),
        ExtensionClass::Mobi => Some(LibraryRoot::Books),
        ExtensionClass::AudioBook => Some(LibraryRoot::Audiobooks),
        ExtensionClass::Unsupported => None,
    }
}

} // verus!
