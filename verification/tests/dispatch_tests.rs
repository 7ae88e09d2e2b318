use ebook_organiser::extension::{classify_extension, ExtensionClass, LibraryRoot};

#[test]
fn each_extension_routes_to_its_extractor() {
    assert_eq!(classify_extension("epub"), ExtensionClass::Epub);
    assert_eq!(classify_extension("mobi"), ExtensionClass::Mobi);
    assert_eq!(classify_extension("m4a"), ExtensionClass::AudioBook);
    assert_eq!(classify_extension("m4b"), ExtensionClass::AudioBook);
    assert_eq!(classify_extension("pdf"), ExtensionClass::Unsupported);
    assert_eq!(classify_extension("txt"), ExtensionClass::Unsupported);
}

#[test]
fn classification_ignores_ascii_case() {
    assert_eq!(classify_extension("EPUB"), ExtensionClass::Epub);
    assert_eq!(classify_extension("M4B"), ExtensionClass::AudioBook);
}

#[test]
fn audiobooks_use_their_own_root() {
    assert_eq!(ExtensionClass::AudioBook.destination_root(), Some(LibraryRoot::Audiobooks));
    assert_eq!(ExtensionClass::Epub.destination_root(), Some(LibraryRoot::Books));
    assert_eq!(ExtensionClass::Mobi.destination_root(), Some(LibraryRoot::Books));
    assert_eq!(ExtensionClass::Unsupported.destination_root(), None);
    assert!(ExtensionClass::Epub.is_supported());
    assert!(!ExtensionClass::Unsupported.is_supported());
}
