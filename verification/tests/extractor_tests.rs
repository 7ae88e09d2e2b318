use ebook_organiser::audiobook::{
    audiobook_author, audiobook_title, AudioAuthor, AudioTag, TagData, TagEntry, TagIdent,
};
use ebook_organiser::epub::{epub_author, epub_title, EpubAuthor, EpubMeta};
use ebook_organiser::mobi::{mobi_author, MobiMeta};

fn epub_meta(titles: &[&str], creators: &[&str], file_as: &[&str]) -> EpubMeta {
    EpubMeta {
        titles: titles.iter().map(|s| s.to_string()).collect(),
        creators: creators.iter().map(|s| s.to_string()).collect(),
        file_as: file_as.iter().map(|s| s.to_string()).collect(),
    }
}

#[test]
fn epub_title_skips_the_unknown_placeholder() {
    assert_eq!(epub_title(&epub_meta(&["Unknown", "Dune"], &[], &[])), "Dune");
    assert_eq!(epub_title(&epub_meta(&["UNKNOWN"], &[], &[])), "");
    assert_eq!(epub_title(&epub_meta(&[], &[], &[])), "");
    assert_eq!(epub_title(&epub_meta(&["Dune"], &[], &[])), "Dune");
}

#[test]
fn single_creator_is_flipped() {
    let r = epub_author(&epub_meta(&[], &["Herbert, Frank"], &[]));
    assert_eq!(r, EpubAuthor::Resolved(" Frank Herbert".to_owned()));
}

#[test]
fn several_file_as_entries_fall_back_to_the_first() {
    let r = epub_author(&epub_meta(&[], &[], &["Herbert, Frank", "Anderson, Kevin"]));
    assert_eq!(r, EpubAuthor::Resolved(" Frank Herbert".to_owned()));
}

#[test]
fn ambiguous_authors_become_deduplicated_candidates() {
    let r = epub_author(&epub_meta(&[], &["A, B", "C"], &[]));
    let expected: Vec<String> = ["A, B", "C", "A", "B", "B A"]
        .iter()
        .map(|s| s.to_string())
        .collect();
    assert_eq!(r, EpubAuthor::Choose(expected));
}

#[test]
fn no_authors_at_all_offer_nothing() {
    let r = epub_author(&epub_meta(&[], &[], &[]));
    assert_eq!(r, EpubAuthor::Choose(Vec::new()));
}

#[test]
fn mobi_author_prefers_author_then_contributor() {
    let both = MobiMeta {
        title: "T".to_owned(),
        author: Some("A".to_owned()),
        contributor: Some("C".to_owned()),
    };
    assert_eq!(mobi_author(&both), Some("A".to_owned()));
    let contributor_only =
        MobiMeta { title: "T".to_owned(), author: None, contributor: Some("C".to_owned()) };
    assert_eq!(mobi_author(&contributor_only), Some("C".to_owned()));
    let neither = MobiMeta { title: "T".to_owned(), author: None, contributor: None };
    assert_eq!(mobi_author(&neither), None);
}

fn empty_tag() -> AudioTag {
    AudioTag {
        title: None,
        entries: Vec::new(),
        artist: None,
        composer: None,
        artists: Vec::new(),
        composers: Vec::new(),
    }
}

#[test]
fn audiobook_title_uses_the_standard_field() {
    let mut tag = empty_tag();
    tag.title = Some("Dune".to_owned());
    assert_eq!(audiobook_title(&tag), Some("Dune".to_owned()));
}

#[test]
fn audiobook_title_scans_raw_entries() {
    let mut tag = empty_tag();
    tag.title = Some(String::new());
    tag.entries.push(TagEntry {
        ident: TagIdent::Fourcc(0x99, 0x99, 0x99, 0x99),
        data: TagData::Utf8("not a title".to_owned()),
    });
    // The `@sti` sort-title atom.
    tag.entries.push(TagEntry {
        ident: TagIdent::Fourcc(0x40, 0x73, 0x74, 0x69),
        data: TagData::Utf8("Dune".to_owned()),
    });
    assert_eq!(audiobook_title(&tag), Some("Dune".to_owned()));

    let mut freeform = empty_tag();
    freeform.entries.push(TagEntry {
        ident: TagIdent::Freeform { mean: String::new(), name: "TITLE".to_owned() },
        data: TagData::Utf8("skipped: empty mean".to_owned()),
    });
    freeform.entries.push(TagEntry {
        ident: TagIdent::Freeform { mean: "com.example".to_owned(), name: "TITLE".to_owned() },
        data: TagData::Utf8("Dune".to_owned()),
    });
    assert_eq!(audiobook_title(&freeform), Some("Dune".to_owned()));

    assert_eq!(audiobook_title(&empty_tag()), None);
}

#[test]
fn audiobook_author_prefers_artist_then_composer() {
    let mut tag = empty_tag();
    tag.artist = Some("A".to_owned());
    tag.composer = Some("C".to_owned());
    assert_eq!(audiobook_author(&tag), AudioAuthor::Found("A".to_owned()));
    tag.artist = None;
    assert_eq!(audiobook_author(&tag), AudioAuthor::Found("C".to_owned()));
    tag.composer = None;
    tag.artists = vec!["X".to_owned(), "Y".to_owned()];
    tag.composers = vec!["Z".to_owned()];
    assert_eq!(
        audiobook_author(&tag),
        AudioAuthor::Choose(vec!["X".to_owned(), "Y".to_owned(), "Z".to_owned()])
    );
}
