//! Author selection for MOBI files. The binary parsing itself is an outside
//! collaborator's job; the library receives the fields it read as plain
//! values and decides which one names the main author.

use vstd::prelude::*;

verus! {

/// What the MOBI headers yielded for one file.
#[derive(Debug, Clone, Eq, PartialEq)]
pub struct MobiMeta {
    pub title: String,
    pub author: Option<String>,
    pub contributor: Option<String>,
}

/// The author the MOBI metadata itself settles: the author field when
/// present, else the contributor; `None` means the oracle must be asked.
pub fn mobi_author(meta: &MobiMeta) -> (r: Option<String>)
    ensures
        r == (if meta.author is Some {
            meta.author
        } else if meta.contributor is Some {
            meta.contributor
        } else {
            None::<String>
        }),
{
    match &meta.author {
        Some(a) => Some(a.clone()),
        None => match &meta.contributor {
            Some(c) => Some(c.clone()),
            None => None,
        },
    }
}

} // verus!
