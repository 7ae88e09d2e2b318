use ebook_organiser::selection::{interpret_selection, interpret_yes_no, parse_usize, Selection};

fn options(xs: &[&str]) -> Vec<String> {
    xs.iter().map(|s| s.to_string()).collect()
}

#[test]
fn yes_and_no_up_to_case() {
    assert_eq!(interpret_yes_no("y"), Some(true));
    assert_eq!(interpret_yes_no("YES"), Some(true));
    assert_eq!(interpret_yes_no("No"), Some(false));
    assert_eq!(interpret_yes_no("n"), Some(false));
    assert_eq!(interpret_yes_no("maybe"), None);
    assert_eq!(interpret_yes_no(""), None);
}

#[test]
fn parse_usize_accepts_digits_only() {
    assert_eq!(parse_usize("42"), Some(42));
    assert_eq!(parse_usize("0"), Some(0));
    assert_eq!(parse_usize(""), None);
    assert_eq!(parse_usize("4x"), None);
    assert_eq!(parse_usize("-1"), None);
    assert_eq!(parse_usize("99999999999999999999999999"), None);
}

#[test]
fn single_index_picks_that_option() {
    let opts = options(&["Alice", "Bob"]);
    assert_eq!(interpret_selection("1", &opts), Selection::Chosen("Bob".to_owned()));
    assert_eq!(interpret_selection("2", &opts), Selection::Invalid);
}

#[test]
fn other_escapes_to_free_text() {
    let opts = options(&["Alice"]);
    assert_eq!(interpret_selection("other", &opts), Selection::Other);
}

#[test]
fn comma_separated_indices_are_joined() {
    let opts = options(&["Alice", "Bob", "Carol"]);
    assert_eq!(
        interpret_selection("0, 2", &opts),
        Selection::Chosen("Alice & Carol".to_owned())
    );
    assert_eq!(interpret_selection("0,9", &opts), Selection::Invalid);
    // Unparseable pieces are dropped; a list with no parseable index at
    // all joins to the empty string.
    assert_eq!(interpret_selection("a,b", &opts), Selection::Chosen(String::new()));
    assert_eq!(interpret_selection("a,1", &opts), Selection::Chosen("Bob".to_owned()));
}

#[test]
fn anything_else_is_invalid() {
    let opts = options(&["Alice"]);
    assert_eq!(interpret_selection("first", &opts), Selection::Invalid);
    assert_eq!(interpret_selection("", &opts), Selection::Invalid);
}
