//! Title and author selection for M4A/M4B audiobooks. The MP4 atom parsing
//! is an outside collaborator's job; the library receives the tag as plain
//! values — the standard title/artist/composer fields plus the raw data
//! entries — and decides what to use, or that the oracle must be asked.

use vstd::prelude::*;

verus! {

/// Identifier of one raw tag entry: a four-byte atom code, or a freeform
/// entry with its mean and name strings.
#[derive(Debug, Clone, Eq, PartialEq)]
pub enum TagIdent {
    Fourcc(u8, u8, u8, u8),
    Freeform { mean: String, name: String },
}

/// Payload of one raw tag entry; only UTF-8 text is of interest here.
#[derive(Debug, Clone, Eq, PartialEq)]
pub enum TagData {
    Utf8(String),
    Other,
}

/// One raw tag entry.
#[derive(Debug, Clone, Eq, PartialEq)]
pub struct TagEntry {
    pub ident: TagIdent,
    pub data: TagData,
}

/// What the MP4 metadata yielded for one file.
#[derive(Debug, Clone, Eq, PartialEq)]
pub struct AudioTag {
    /// The standard title field, when the tag has one.
    pub title: Option<String>,
    /// All raw data entries, in tag order.
    pub entries: Vec<TagEntry>,
    /// The standard artist and composer fields.
    pub artist: Option<String>,
    pub composer: Option<String>,
    /// All artists and composers, in tag order.
    pub artists: Vec<String>,
    pub composers: Vec<String>,
}

/// The `@sti` sort-title atom code.
pub open spec fn sti_fourcc() -> (u8, u8, u8, u8) {
    (0x40, 0x73, 0x74, 0x69)
}

/// The `©alb` album atom code.
pub open spec fn alb_fourcc() -> (u8, u8, u8, u8) {
    (0xa9, 0x61, 0x6c, 0x62)
}

pub open spec fn subtitle_name() -> Seq<char> {
    seq!['S', 'U', 'B', 'T', 'I', 'T', 'L', 'E']
}

pub open spec fn title_name() -> Seq<char> {
    seq!['T', 'I', 'T', 'L', 'E']
}

/// The title one raw entry supplies, if any: UTF-8 data under the `@sti` or
/// `©alb` atom, or under a freeform entry with non-empty mean and name whose
/// name is `SUBTITLE` or `TITLE`.
pub open spec fn entry_title(e: TagEntry) -> Option<Seq<char>> {
    match e.ident {
        TagIdent::Fourcc(a, b, c, d) => if (a, b, c, d) == sti_fourcc() || (a, b, c, d)
            == alb_fourcc() {
            match e.data {
                TagData::Utf8(s) => Some(s@),
                TagData::Other => None,
            }
        } else {
            None
        },
        TagIdent::Freeform { mean, name } => if mean@.len() > 0 && name@.len() > 0 && (name@
            == subtitle_name() || name@ == title_name()) {
            match e.data {
                TagData::Utf8(s) => Some(s@),
                TagData::Other => None,
            }
        } else {
            None
        },
    }
}

/// The first raw entry that supplies a title, in tag order.
pub open spec fn scan_title(entries: Seq<TagEntry>) -> Option<Seq<char>>
    decreases entries.len(),
{
    if entries.len() == 0 {
        None
    } else {
        match entry_title(entries[0]) {
            Some(t) => Some(t),
            None => scan_title(entries.drop_first()),
        }
    }
}

/// The title the tag itself settles: the non-empty standard title field,
/// else the first raw entry that supplies one; `None` means the oracle must
/// be asked.
pub open spec fn spec_audio_title(tag: AudioTag) -> Option<Seq<char>> {
    match tag.title {
        Some(t) => if t@.len() > 0 {
            Some(t@)
        } else {
            scan_title(tag.entries@)
        },
        None => scan_title(tag.entries@),
    }
}

fn exec_entry_title(e: &TagEntry) -> (r: Option<String>)
    ensures
        match r {
            Some(s) => entry_title(*e) == Some(s@),
            None => entry_title(*e) is None,
        },
{
    proof {
        reveal_strlit("SUBTITLE");
        reveal_strlit("TITLE");
        assert("SUBTITLE"@ =~= subtitle_name());
        assert("TITLE"@ =~= title_name());
    }
    match &e.ident {
        TagIdent::Fourcc(a, b, c, d) => {
            let is_sti = *a == 0x40 && *b == 0x73 && *c == 0x74 && *d == 0x69;
            let is_alb = *a == 0xa9 && *b == 0x61 && *c == 0x6c && *d == 0x62;
            if is_sti || is_alb {
                match &e.data {
                    TagData::Utf8(s) => Some(s.clone()),
                    TagData::Other => None,
                }
            } else {
                None
            }
        },
        TagIdent::Freeform { mean, name } => {
            if !mean.as_str().is_empty() && !name.as_str().is_empty() && (crate::text::str_eq(
                name.as_str(),
                "SUBTITLE",
            ) || crate::text::str_eq(name.as_str(), "TITLE")) {
                match &e.data {
                    TagData::Utf8(s) => Some(s.clone()),
                    TagData::Other => None,
                }
            } else {
                None
            }
        },
    }
}

/// The title for an audiobook, when the tag settles one.
pub fn audiobook_title(tag: &AudioTag) -> (r: Option<String>)
    ensures
        match r {
            Some(s) => spec_audio_title(*tag) == Some(s@),
            None => spec_audio_title(*tag) is None,
        },
{
    match &tag.title {
        Some(t) => {
            if !t.as_str().is_empty() {
                return Some(t.clone());
            }
        },
        None => {},
    }
    let r = scan_entries(&tag.entries, 0);
    proof {
        assert(tag.entries@.subrange(0, tag.entries.len() as int) =~= tag.entries@);
    }
    r
}

fn scan_entries(entries: &Vec<TagEntry>, start: usize) -> (r: Option<String>)
    requires
        start <= entries.len(),
    ensures
        match r {
            Some(s) => scan_title(entries@.subrange(start as int, entries.len() as int)) == Some(
                s@,
            ),
            None => scan_title(entries@.subrange(start as int, entries.len() as int)) is None,
        },
    decreases entries.len() - start,
{
    let n = entries.len();
    if start == n {
        proof {
            assert(entries@.subrange(n as int, n as int) =~= Seq::<TagEntry>::empty());
        }
        return None;
    }
    let ghost sub = entries@.subrange(start as int, n as int);
    proof {
        assert(sub[0] == entries@[start as int]);
        assert(sub.drop_first() =~= entries@.subrange(start + 1, n as int));
    }
    match exec_entry_title(&entries[start]) {
        Some(s) => Some(s),
        None => scan_entries(entries, start + 1),
    }
}

/// How the author of an audiobook is resolved.
#[derive(Debug, Clone, Eq, PartialEq)]
pub enum AudioAuthor {
    /// The tag settles the author.
    Found(String),
    /// The oracle must choose among these candidates (all artists, then all
    /// composers) or supply another name.
    Choose(Vec<String>),
}

/// The author the tag itself settles: the standard artist field, else the
/// standard composer field; otherwise the artist and composer lists become
/// the candidates offered to the oracle.
pub fn audiobook_author(tag: &AudioTag) -> (r: AudioAuthor)
    ensures
        ({
            if tag.artist is Some {
                r == AudioAuthor::Found(tag.artist->0)
            } else if tag.composer is Some {
                r == AudioAuthor::Found(tag.composer->0)
            } else {
                r matches AudioAuthor::Choose(v) && v.deep_view() == tag.artists.deep_view()
                    + tag.composers.deep_view()
            }
        }),
{
    match &tag.artist {
        Some(a) => {
            return AudioAuthor::Found(a.clone());
        },
        None => {},
    }
    match &tag.composer {
        Some(c) => {
            return AudioAuthor::Found(c.clone());
        },
        None => {},
    }
    let mut options: Vec<String> = Vec::new();
    let mut i: usize = 0;
    let na = tag.artists.len();
    while i < na
        invariant
            i <= na,
            na == tag.artists.len(),
            options@.len() == i,
            forall|k: int| 0 <= k < i ==> options@[k]@ == tag.artists@[k]@,
        decreases na - i,
    {
        options.push(tag.artists[i].clone());
        i += 1;
    }
    let mut j: usize = 0;
    let nc = tag.composers.len();
    while j < nc
        invariant
            j <= nc,
            na == tag.artists.len(),
            nc == tag.composers.len(),
            options@.len() == na + j,
            forall|k: int| 0 <= k < na ==> options@[k]@ == tag.artists@[k]@,
            forall|k: int| na <= k < na + j ==> options@[k]@ == tag.composers@[k - na]@,
        decreases nc - j,
    {
        options.push(tag.composers[j].clone());
        j += 1;
    }
    proof {
        let goal = tag.artists.deep_view() + tag.composers.deep_view();
        assert forall|k: int| 0 <= k < options.deep_view().len() implies options.deep_view()[k]
            == goal[k] by {
            assert(options.deep_view()[k] == options@[k]@);
            if k < na {
                assert(goal[k] == tag.artists@[k]@);
            } else {
                assert(goal[k] == tag.composers@[k - na]@);
            }
        }
        assert(options.deep_view() =~= goal);
    }
    AudioAuthor::Choose(options)
}

} // verus!
