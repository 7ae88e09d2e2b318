use ebook_organiser::template::{render, TemplateError};

#[test]
fn renders_the_example_scenario() {
    let r = render("{author}/{title}.{ext}", "Dune", "Frank Herbert", "epub");
    assert_eq!(r, Ok("Frank Herbert/Dune.epub".to_owned()));
}

#[test]
fn rendering_is_deterministic() {
    let a = render("{author} - {title}.{ext}", "Dune", "Frank Herbert", "mobi");
    let b = render("{author} - {title}.{ext}", "Dune", "Frank Herbert", "mobi");
    assert_eq!(a, b);
    assert_eq!(a, Ok("Frank Herbert - Dune.mobi".to_owned()));
}

#[test]
fn literal_text_is_copied() {
    let r = render("books/shelf", "T", "A", "epub");
    assert_eq!(r, Ok("books/shelf".to_owned()));
    let empty = render("", "T", "A", "epub");
    assert_eq!(empty, Ok(String::new()));
}

#[test]
fn unknown_placeholder_is_an_error() {
    let r = render("{isbn}/{title}.{ext}", "Dune", "Frank Herbert", "epub");
    assert_eq!(r, Err(TemplateError::UnknownPlaceholder));
    let empty_token = render("{}", "T", "A", "epub");
    assert_eq!(empty_token, Err(TemplateError::UnknownPlaceholder));
}

#[test]
fn unclosed_placeholder_is_an_error() {
    let r = render("{title", "Dune", "Frank Herbert", "epub");
    assert_eq!(r, Err(TemplateError::UnclosedPlaceholder));
}

#[test]
fn placeholders_may_repeat() {
    let r = render("{title}/{title}", "Dune", "Frank Herbert", "epub");
    assert_eq!(r, Ok("Dune/Dune".to_owned()));
}
