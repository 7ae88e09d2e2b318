//! The per-file planner. Given a file's path, its resolved metadata and the
//! destination root, it renders the template, checks the rendered relative
//! path for safety, and either recognizes the file as already in place or
//! hands back the relocation plan. Path separators inside title or author
//! are allowed to create subdirectories, but a rendered path with an empty,
//! `.` or `..` component would escape or mangle the destination root and is
//! rejected outright rather than silently passed to the filesystem.

use crate::relocate::{
    RelocationError, RelocationMode, RelocationOutcome, RelocationPlan, SkipReason,
};
use crate::template::{render, spec_render, TemplateError};
use crate::text::{spec_split, split_str, str_eq};
use vstd::prelude::*;

verus! {

/// The sorting engine's immutable per-run settings: the naming template and
/// whether files are copied rather than moved.
pub struct Sorter<'a> {
    sort_pattern: &'a str,
    copy: bool,
}

/// What the planner decided for one file.
#[derive(Debug, Clone, PartialEq, Eq)]
pub enum PlanOutcome {
    /// The file already lies at the rendered destination: no operation.
    AlreadyNamed,
    /// Relocate as planned.
    Proceed(RelocationPlan),
    /// The template could not be rendered; the file is skipped and the
    /// failure reported.
    TemplateFailed(TemplateError),
    /// The rendered relative path has an empty, `.` or `..` component and
    /// would escape the destination root.
    UnsafePath,
}

impl PlanOutcome {
    /// The outcome to report when the planner itself settles the file:
    /// an already-named file is a skip, a rendering failure and an unsafe
    /// rendered path fail the file; only a real plan reports nothing here.
    pub fn settled_outcome(&self) -> (r: Option<RelocationOutcome>)
        ensures
            r == (match *self {
                PlanOutcome::AlreadyNamed => Some(
                    RelocationOutcome::Skipped(SkipReason::AlreadyNamed),
                ),
                PlanOutcome::TemplateFailed(e) => Some(
                    RelocationOutcome::Failed(RelocationError::TemplateFailed(e)),
                ),
                PlanOutcome::UnsafePath => Some(
                    RelocationOutcome::Failed(RelocationError::UnsafeRenderedPath),
                ),
                PlanOutcome::Proceed(_) => None::<RelocationOutcome>,
            }),
    {
        match self {
            PlanOutcome::AlreadyNamed => Some(
                RelocationOutcome::Skipped(SkipReason::AlreadyNamed),
            ),
            PlanOutcome::TemplateFailed(e) => Some(
                RelocationOutcome::Failed(RelocationError::TemplateFailed(*e)),
            ),
            PlanOutcome::UnsafePath => Some(
                RelocationOutcome::Failed(RelocationError::UnsafeRenderedPath),
            ),
            PlanOutcome::Proceed(_) => None,
        }
    }
}

/// A path component the rendered relative path must not contain.
pub open spec fn forbidden_component(c: Seq<char>) -> bool {
    c.len() == 0 || c == seq!['.'] || c == seq!['.', '.']
}

/// A rendered relative path that stays below the destination root: non-empty
/// and with no empty, `.` or `..` component. (A leading or trailing `/`
/// makes an empty component.)
pub open spec fn safe_rel_path(rel: Seq<char>) -> bool {
    rel.len() > 0 && forall|k: int|
        0 <= k < spec_split(rel, '/').len() ==> !forbidden_component(spec_split(rel, '/')[k])
}

/// The root and the relative path joined with a single separator; a root
/// that already ends in `/` gets none added, and an empty root stands for
/// the current directory.
pub open spec fn spec_join_path(root: Seq<char>, rel: Seq<char>) -> Seq<char> {
    if root.len() == 0 {
        rel
    } else if root.last() == '/' {
        root + rel
    } else {
        root + seq!['/'] + rel
    }
}

/// Decides whether `rel` is a safe relative path.
#[verifier::loop_isolation(false)]
pub fn check_rel_path(rel: &str) -> (r: bool)
    ensures
        r == safe_rel_path(rel@),
{
    proof {
        reveal_strlit(".");
        reveal_strlit("..");
        assert("."@ =~= seq!['.']);
        assert(".."@ =~= seq!['.', '.']);
    }
    if rel.unicode_len() == 0 {
        return false;
    }
    let parts = split_str(rel, '/');
    let n = parts.len();
    let mut i: usize = 0;
    while i < n
        invariant
            i <= n,
            n == parts.len(),
            parts.deep_view() == spec_split(rel@, '/'),
            forall|k: int| 0 <= k < i ==> !forbidden_component(parts.deep_view()[k]),
            rel@.len() > 0,
        decreases n - i,
    {
        let p = parts[i].as_str();
        if p.unicode_len() == 0 || str_eq(p, ".") || str_eq(p, "..") {
            proof {
                reveal_strlit(".");
                reveal_strlit("..");
                assert("."@ =~= seq!['.']);
                assert(".."@ =~= seq!['.', '.']);
                assert(forbidden_component(parts.deep_view()[i as int]));
            }
            return false;
        }
        proof {
            assert(parts.deep_view()[i as int] == p@);
            assert(!forbidden_component(parts.deep_view()[i as int]));
        }
        i += 1;
    }
    true
}

/// Joins the destination root and a rendered relative path.
pub fn join_path(root: &str, rel: &str) -> (r: String)
    ensures
        r@ == spec_join_path(root@, rel@),
{
    let n = root.unicode_len();
    if n == 0 {
        return rel.to_owned();
    }
    let mut out = root.to_owned();
    if root.get_char(n - 1) != '/' {
        crate::text::push_char(&mut out, '/');
        proof {
            assert(root@.push('/') =~= root@ + seq!['/']);
        }
    }
    out.append(rel);
    out
}

/// What `plan` must decide, over the views of its inputs: a failed rendering
/// reports the template error; an unsafe rendered path is rejected; a
/// destination equal to the file's current path is recognized as already
/// named; anything else becomes a relocation plan from the file to the
/// joined destination, in the configured mode.
pub open spec fn plan_post(
    r: PlanOutcome,
    pattern: Seq<char>,
    copy: bool,
    file_path: Seq<char>,
    title: Seq<char>,
    author: Seq<char>,
    ext: Seq<char>,
    root: Seq<char>,
) -> bool {
    match spec_render(pattern, title, author, ext) {
        Err(e) => r == PlanOutcome::TemplateFailed(e),
        Ok(rel) => if !safe_rel_path(rel) {
            r == PlanOutcome::UnsafePath
        } else {
            let dest = spec_join_path(root, rel);
            if dest == file_path {
                r == PlanOutcome::AlreadyNamed
            } else {
                r matches PlanOutcome::Proceed(p) && p.source@ == file_path && p.destination@
                    == dest && p.mode == (if copy {
                    RelocationMode::Copy
                } else {
                    RelocationMode::Move
                })
            }
        },
    }
}

impl<'a> Sorter<'a> {
    /// The naming template this sorter renders.
    pub closed spec fn spec_pattern(&self) -> Seq<char> {
        self.sort_pattern@
    }

    /// Whether this sorter copies instead of moving.
    pub closed spec fn spec_copy(&self) -> bool {
        self.copy
    }

    pub fn new(sort_pattern: &'a str, copy: bool) -> (s: Self)
        ensures
            s.spec_pattern() == sort_pattern@,
            s.spec_copy() == copy,
    {
        Sorter { sort_pattern, copy }
    }

    /// Plans one file's relocation from its resolved metadata.
    pub fn plan(
        &self,
        file_path: &str,
        title: &str,
        author: &str,
        ext: &str,
        root: &str,
    ) -> (r: PlanOutcome)
        ensures
            plan_post(
                r,
                self.spec_pattern(),
                self.spec_copy(),
                file_path@,
                title@,
                author@,
                ext@,
                root@,
            ),
    {
        match render(self.sort_pattern, title, author, ext) {
            Err(e) => PlanOutcome::TemplateFailed(e),
            Ok(rel) => {
                if !check_rel_path(rel.as_str()) {
                    return PlanOutcome::UnsafePath;
                }
                let dest = join_path(root, rel.as_str());
                if str_eq(dest.as_str(), file_path) {
                    PlanOutcome::AlreadyNamed
                } else {
                    PlanOutcome::Proceed(
                        RelocationPlan {
                            source: file_path.to_owned(),
                            destination: dest,
                            mode: if self.copy {
                                RelocationMode::Copy
                            } else {
                                RelocationMode::Move
                            },
                        },
                    )
                }
            },
        }
    }
}

/// When the template renders, safely, to the very path the file already has
/// under the destination root, the planner orders no filesystem operation:
/// a correctly named file is a no-op, and re-running the sort changes
/// nothing.
pub proof fn lemma_plan_idempotent(
    r: PlanOutcome,
    pattern: Seq<char>,
    copy: bool,
    file_path: Seq<char>,
    title: Seq<char>,
    author: Seq<char>,
    ext: Seq<char>,
    root: Seq<char>,
)
    requires
        plan_post(r, pattern, copy, file_path, title, author, ext, root),
        spec_render(pattern, title, author, ext) is Ok,
        safe_rel_path(spec_render(pattern, title, author, ext)->Ok_0),
        spec_join_path(root, spec_render(pattern, title, author, ext)->Ok_0) == file_path,
    ensures
        r == PlanOutcome::AlreadyNamed,
{
}

} // verus!
