use ebook_organiser::metadata::{finish_metadata, resolve_fallback, FileMetadata};
use ebook_organiser::text::{flip_comma_split, normalize_name_str, trim_str};

#[test]
fn empty_fallback_answer_means_extraction_failed() {
    // The oracle answered with an empty author: the file must be skipped.
    assert_eq!(resolve_fallback("Dune".to_owned(), String::new()), None);
    assert_eq!(resolve_fallback(String::new(), "Frank Herbert".to_owned()), None);
    assert_eq!(
        resolve_fallback("Dune".to_owned(), "Frank Herbert".to_owned()),
        Some(FileMetadata {
            title: "Dune".to_owned(),
            main_author: "Frank Herbert".to_owned(),
        })
    );
}

#[test]
fn finished_metadata_is_trimmed() {
    let m = finish_metadata("  Dune \t", "\n Frank Herbert  ");
    assert_eq!(m.title, "Dune");
    assert_eq!(m.main_author, "Frank Herbert");
}

#[test]
fn usable_needs_both_fields() {
    let ok = FileMetadata { title: "T".to_owned(), main_author: "A".to_owned() };
    assert!(ok.usable());
    let no_author = FileMetadata { title: "T".to_owned(), main_author: String::new() };
    assert!(!no_author.usable());
    let no_title = FileMetadata { title: String::new(), main_author: "A".to_owned() };
    assert!(!no_title.usable());
}

#[test]
fn flip_comma_split_reverses_around_commas() {
    assert_eq!(flip_comma_split("Herbert, Frank".to_owned()), " Frank Herbert");
    assert_eq!(flip_comma_split("Frank Herbert".to_owned()), "Frank Herbert");
    assert_eq!(flip_comma_split("a,b,c".to_owned()), "c b a");
    assert_eq!(flip_comma_split(String::new()), "");
}

#[test]
fn trim_and_normalize() {
    assert_eq!(trim_str("  x  y \r\n"), "x  y");
    assert_eq!(trim_str("   "), "");
    assert_eq!(normalize_name_str("  J.  R.  R.  Tolkien "), "J. R. R. Tolkien");
}
