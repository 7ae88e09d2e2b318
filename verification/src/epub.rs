//! Title and author selection for EPUB files. The container parsing is an
//! outside collaborator's job; the library receives the metadata fields as
//! plain values. A single creator names the author directly (comma-flipped);
//! several `file-as` entries fall back to the first of them; otherwise every
//! plausible reading of the creator and `file-as` strings — as given, split
//! at commas, and comma-flipped — is normalized, deduplicated and offered to
//! the oracle.

use crate::text::{
    dedup_strings, flip_comma_split, lower_seq, normalize_name, normalize_name_str, push_owned,
    spec_dedup, spec_flip, spec_split, spec_trim, split_str, str_eq_lower, trim_str,
};
use vstd::prelude::*;

verus! {

/// What the EPUB metadata yielded for one file: the values of the `title`,
/// `creator` and `file-as` fields, in document order.
#[derive(Debug, Clone, Eq, PartialEq)]
pub struct EpubMeta {
    pub titles: Vec<String>,
    pub creators: Vec<String>,
    pub file_as: Vec<String>,
}

pub open spec fn unknown_token() -> Seq<char> {
    seq!['u', 'n', 'k', 'n', 'o', 'w', 'n']
}

/// The first title that is not the placeholder `unknown` (up to ASCII
/// case), or the empty string.
pub open spec fn spec_epub_title(ts: Seq<Seq<char>>) -> Seq<char>
    decreases ts.len(),
{
    if ts.len() == 0 {
        Seq::empty()
    } else if lower_seq(ts[0]) != unknown_token() {
        ts[0]
    } else {
        spec_epub_title(ts.drop_first())
    }
}

/// The title for an EPUB; empty when none is usable.
pub fn epub_title(meta: &EpubMeta) -> (r: String)
    ensures
        r@ == spec_epub_title(meta.titles.deep_view()),
{
    let r = title_from(&meta.titles, 0);
    proof {
        assert(meta.titles.deep_view().subrange(0, meta.titles.len() as int)
            =~= meta.titles.deep_view());
    }
    r
}

fn title_from(ts: &Vec<String>, start: usize) -> (r: String)
    requires
        start <= ts.len(),
    ensures
        r@ == spec_epub_title(ts.deep_view().subrange(start as int, ts.len() as int)),
    decreases ts.len() - start,
{
    let n = ts.len();
    if start == n {
        proof {
            assert(ts.deep_view().subrange(n as int, n as int) =~= Seq::<Seq<char>>::empty());
        }
        return String::new();
    }
    let ghost sub = ts.deep_view().subrange(start as int, n as int);
    proof {
        reveal_strlit("unknown");
        assert(lower_seq("unknown"@) =~= unknown_token());
        assert(sub[0] == ts.deep_view()[start as int]);
        assert(sub.drop_first() =~= ts.deep_view().subrange(start + 1, n as int));
    }
    if !str_eq_lower(ts[start].as_str(), "unknown") {
        ts[start].clone()
    } else {
        title_from(ts, start + 1)
    }
}

/// One candidate from a comma-separated piece: trimmed, then normalized.
pub open spec fn piece_candidate(p: Seq<char>) -> Seq<char> {
    normalize_name(spec_trim(p))
}

/// The candidates one string contributes when read as a comma-separated
/// list of names.
pub open spec fn split_pieces(x: Seq<char>) -> Seq<Seq<char>> {
    spec_split(x, ',').map_values(|p: Seq<char>| piece_candidate(p))
}

/// The strings of `base`, each normalized.
pub open spec fn normalized_all(base: Seq<Seq<char>>) -> Seq<Seq<char>> {
    base.map_values(|x: Seq<char>| normalize_name(x))
}

/// The comma-split candidates of all of `base`, in order.
pub open spec fn split_all(base: Seq<Seq<char>>) -> Seq<Seq<char>>
    decreases base.len(),
{
    if base.len() == 0 {
        Seq::empty()
    } else {
        split_all(base.drop_last()) + split_pieces(base.last())
    }
}

/// The strings of `base`, each comma-flipped and normalized.
pub open spec fn flipped_all(base: Seq<Seq<char>>) -> Seq<Seq<char>> {
    base.map_values(|x: Seq<char>| normalize_name(spec_flip(x)))
}

/// Every plausible reading of the author strings, before deduplication:
/// each string as given, then each comma-separated piece, then each string
/// comma-flipped — all normalized.
pub open spec fn epub_candidates(base: Seq<Seq<char>>) -> Seq<Seq<char>> {
    normalized_all(base) + split_all(base) + flipped_all(base)
}

/// How the author of an EPUB is resolved.
#[derive(Debug, Clone, Eq, PartialEq)]
pub enum EpubAuthor {
    /// The metadata settles the author (untrimmed; the final record trims).
    Resolved(String),
    /// The oracle must choose among these candidates or supply another name.
    Choose(Vec<String>),
}

/// What `epub_author` must answer: a single creator is taken comma-flipped;
/// else, several `file-as` entries fall back to the first one comma-flipped;
/// else the deduplicated candidate list is offered to the oracle.
pub open spec fn epub_author_post(
    r: EpubAuthor,
    creators: Seq<Seq<char>>,
    file_as: Seq<Seq<char>>,
) -> bool {
    if creators.len() == 1 {
        r matches EpubAuthor::Resolved(s) && s@ == spec_flip(creators[0])
    } else if file_as.len() > 1 {
        r matches EpubAuthor::Resolved(s) && s@ == spec_flip(file_as[0])
    } else {
        r matches EpubAuthor::Choose(v) && v.deep_view() == spec_dedup(
            epub_candidates(creators + file_as),
        )
    }
}

/// Resolves the main author from the EPUB metadata, or assembles the
/// candidate list for the oracle.
#[verifier::loop_isolation(false)]
pub fn epub_author(meta: &EpubMeta) -> (r: EpubAuthor)
    ensures
        epub_author_post(r, meta.creators.deep_view(), meta.file_as.deep_view()),
{
    if meta.creators.len() == 1 {
        return EpubAuthor::Resolved(flip_comma_split(meta.creators[0].clone()));
    }
    if meta.file_as.len() > 1 {
        return EpubAuthor::Resolved(flip_comma_split(meta.file_as[0].clone()));
    }
    let mut base: Vec<String> = Vec::new();
    crate::text::extend_owned(&mut base, &meta.creators);
    crate::text::extend_owned(&mut base, &meta.file_as);
    let ghost bdv = base.deep_view();
    proof {
        assert(Seq::<Seq<char>>::empty() + meta.creators.deep_view() =~= meta.creators.deep_view());
        assert(bdv == meta.creators.deep_view() + meta.file_as.deep_view());
    }
    let n = base.len();
    let mut cands: Vec<String> = Vec::new();
    proof {
        assert(cands.deep_view() =~= Seq::<Seq<char>>::empty());
        assert(normalized_all(bdv.subrange(0, 0)) =~= Seq::<Seq<char>>::empty());
    }
    let mut i: usize = 0;
    while i < n
        invariant
            i <= n,
            cands.deep_view() == normalized_all(bdv.subrange(0, i as int)),
        decreases n - i,
    {
        push_owned(&mut cands, normalize_name_str(base[i].as_str()));
        proof {
            assert(normalized_all(bdv.subrange(0, i + 1)) =~= normalized_all(
                bdv.subrange(0, i as int),
            ).push(normalize_name(bdv[i as int])));
        }
        i += 1;
    }
    proof {
        assert(bdv.subrange(0, n as int) =~= bdv);
        assert(split_all(bdv.subrange(0, 0)) =~= Seq::<Seq<char>>::empty());
        assert(normalized_all(bdv) + Seq::<Seq<char>>::empty() =~= normalized_all(bdv));
    }
    let mut i2: usize = 0;
    while i2 < n
        invariant
            i2 <= n,
            cands.deep_view() == normalized_all(bdv) + split_all(bdv.subrange(0, i2 as int)),
        decreases n - i2,
    {
        let parts = split_str(base[i2].as_str(), ',');
        let ghost pieces = split_pieces(bdv[i2 as int]);
        let m = parts.len();
        proof {
            assert(pieces.subrange(0, 0) =~= Seq::<Seq<char>>::empty());
            assert(cands.deep_view() + Seq::<Seq<char>>::empty() =~= cands.deep_view());
        }
        let ghost mid = cands.deep_view();
        let mut j: usize = 0;
        while j < m
            invariant
                j <= m,
                m == parts.len(),
                parts.deep_view() == spec_split(bdv[i2 as int], ','),
                pieces == split_pieces(bdv[i2 as int]),
                i2 < n,
                mid == normalized_all(bdv) + split_all(bdv.subrange(0, i2 as int)),
                cands.deep_view() == mid + pieces.subrange(0, j as int),
            decreases m - j,
        {
            let t = trim_str(parts[j].as_str());
            push_owned(&mut cands, normalize_name_str(t.as_str()));
            proof {
                assert(pieces[j as int] == piece_candidate(parts.deep_view()[j as int]));
                assert((mid + pieces.subrange(0, j as int)).push(pieces[j as int]) =~= mid
                    + pieces.subrange(0, j + 1));
            }
            j += 1;
        }
        proof {
            assert(pieces.subrange(0, m as int) =~= pieces);
            let sub1 = bdv.subrange(0, i2 + 1);
            assert(sub1.drop_last() =~= bdv.subrange(0, i2 as int));
            assert(sub1.last() == bdv[i2 as int]);
            assert(split_all(sub1) == split_all(bdv.subrange(0, i2 as int)) + pieces);
            assert(mid + pieces =~= normalized_all(bdv) + split_all(sub1));
        }
        i2 += 1;
    }
    proof {
        assert(flipped_all(bdv.subrange(0, 0)) =~= Seq::<Seq<char>>::empty());
        assert((normalized_all(bdv) + split_all(bdv)) + Seq::<Seq<char>>::empty() =~= normalized_all(
            bdv,
        ) + split_all(bdv));
    }
    let mut i3: usize = 0;
    while i3 < n
        invariant
            i3 <= n,
            cands.deep_view() == (normalized_all(bdv) + split_all(bdv)) + flipped_all(
                bdv.subrange(0, i3 as int),
            ),
        decreases n - i3,
    {
        let flipped = flip_comma_split(base[i3].clone());
        push_owned(&mut cands, normalize_name_str(flipped.as_str()));
        proof {
            assert(flipped_all(bdv.subrange(0, i3 + 1)) =~= flipped_all(
                bdv.subrange(0, i3 as int),
            ).push(normalize_name(spec_flip(bdv[i3 as int]))));
            assert((normalized_all(bdv) + split_all(bdv)) + flipped_all(
                bdv.subrange(0, i3 as int),
            ).push(normalize_name(spec_flip(bdv[i3 as int]))) =~= ((normalized_all(bdv) + split_all(
                bdv,
            )) + flipped_all(bdv.subrange(0, i3 as int))).push(
                normalize_name(spec_flip(bdv[i3 as int])),
            ));
        }
        i3 += 1;
    }
    proof {
        assert((normalized_all(bdv) + split_all(bdv)) + flipped_all(bdv) =~= epub_candidates(bdv));
    }
    let deduped = dedup_strings(&cands);
    EpubAuthor::Choose(deduped)
}

} // verus!
