//! The naming-template renderer. A template is a string with the
//! placeholders `{title}`, `{author}` and `{ext}`; everything else is copied
//! literally. Rendering is a pure function of the template and the three
//! values, so equal inputs always give equal output.

use vstd::prelude::*;

verus! {

/// Why a template could not be rendered.
#[derive(Clone, Copy, Debug, PartialEq, Eq, Structural)]
pub enum TemplateError {
    /// A `{` without a matching `}`.
    UnclosedPlaceholder,
    /// A `{...}` placeholder other than `title`, `author` or `ext`.
    UnknownPlaceholder,
}

pub open spec fn title_token() -> Seq<char> {
    seq!['t', 'i', 't', 'l', 'e']
}

pub open spec fn author_token() -> Seq<char> {
    seq!['a', 'u', 't', 'h', 'o', 'r']
}

pub open spec fn ext_token() -> Seq<char> {
    seq!['e', 'x', 't']
}

/// What rendering `t` with the three values yields: a `{` opens a
/// placeholder running to the first `}`; a recognized placeholder is replaced
/// by its value; all other characters stand for themselves.
pub open spec fn spec_render(
    t: Seq<char>,
    title: Seq<char>,
    author: Seq<char>,
    ext: Seq<char>,
) -> Result<Seq<char>, TemplateError>
    decreases t.len(),
{
    if t.len() == 0 {
        Ok(Seq::empty())
    } else if t[0] != '{' {
        match spec_render(t.drop_first(), title, author, ext) {
            Ok(rest) => Ok(seq![t[0]] + rest),
            Err(e) => Err(e),
        }
    } else {
        let j = crate::text::first_index(t, '}');
        if !(0 <= j && j < t.len()) {
            Err(TemplateError::UnclosedPlaceholder)
        } else {
            let token = t.subrange(1, j);
            if token == title_token() || token == author_token() || token == ext_token() {
                let value = if token == title_token() {
                    title
                } else if token == author_token() {
                    author
                } else {
                    ext
                };
                match spec_render(t.subrange(j + 1, t.len() as int), title, author, ext) {
                    Ok(rest) => Ok(value + rest),
                    Err(e) => Err(e),
                }
            } else {
                Err(TemplateError::UnknownPlaceholder)
            }
        }
    }
}

/// The view of a rendering result, for stating contracts.
pub open spec fn render_view(r: Result<String, TemplateError>) -> Result<
    Seq<char>,
    TemplateError,
> {
    match r {
        Ok(s) => Ok(s@),
        Err(e) => Err(e),
    }
}

/// Renders `template` with the given title, author and extension.
/// The result is exactly [`spec_render`] of the inputs' views — in
/// particular, rendering is deterministic.
pub fn render(template: &str, title: &str, author: &str, ext: &str) -> (r: Result<
    String,
    TemplateError,
>)
    ensures
        render_view(r) == spec_render(template@, title@, author@, ext@),
{
    render_str(template, title, author, ext)
}

fn render_str(t: &str, title: &str, author: &str, ext: &str) -> (r: Result<String, TemplateError>)
    ensures
        render_view(r) == spec_render(t@, title@, author@, ext@),
    decreases t@.len(),
{
    let n = t.unicode_len();
    if n == 0 {
        let out = String::new();
        proof {
            assert(out@ =~= Seq::<char>::empty());
        }
        Ok(out)
    } else {
        let c = t.get_char(0);
        if c != '{' {
            let rest = t.substring_char(1, n);
            match render_str(rest, title, author, ext) {
                Ok(s) => {
                    let mut out = String::new();
                    crate::text::push_char(&mut out, c);
                    out.append(s.as_str());
                    proof {
                        assert(out@ =~= seq![t@[0]] + s@);
                    }
                    Ok(out)
                },
                Err(e) => Err(e),
            }
        } else {
            match crate::text::find_char(t, '}') {
                None => Err(TemplateError::UnclosedPlaceholder),
                Some(j) => {
                    let token = t.substring_char(1, j);
                    proof {
                        reveal_strlit("title");
                        reveal_strlit("author");
                        reveal_strlit("ext");
                        assert("title"@ =~= title_token());
                        assert("author"@ =~= author_token());
                        assert("ext"@ =~= ext_token());
                    }
                    let value: &str = if crate::text::str_eq(token, "title") {
                        title
                    } else if crate::text::str_eq(token, "author") {
                        author
                    } else if crate::text::str_eq(token, "ext") {
                        ext
                    } else {
                        return Err(TemplateError::UnknownPlaceholder);
                    };
                    let rest = t.substring_char(j + 1, n);
                    match render_str(rest, title, author, ext) {
                        Ok(s) => {
                            let mut out = value.to_owned();
                            out.append(s.as_str());
                            Ok(out)
                        },
                        Err(e) => Err(e),
                    }
                },
            }
        }
    }
}

} // verus!
