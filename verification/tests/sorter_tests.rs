use ebook_organiser::relocate::{
    RelocationError, RelocationMode, RelocationOutcome, RelocationPlan, SkipReason,
};
use ebook_organiser::sorter::{join_path, PlanOutcome, Sorter};
use ebook_organiser::template::TemplateError;

#[test]
fn already_named_file_is_a_no_op() {
    let sorter = Sorter::new("{author}/{title}.{ext}", false);
    let r = sorter.plan(
        "/lib/Frank Herbert/Dune.epub",
        "Dune",
        "Frank Herbert",
        "epub",
        "/lib",
    );
    assert_eq!(r, PlanOutcome::AlreadyNamed);
}

#[test]
fn planning_twice_is_idempotent() {
    let sorter = Sorter::new("{author}/{title}.{ext}", false);
    let first = sorter.plan("/in/dune.epub", "Dune", "Frank Herbert", "epub", "/lib");
    let planned = match first {
        PlanOutcome::Proceed(p) => p,
        other => panic!("expected a plan, got {:?}", other),
    };
    assert_eq!(planned.destination, "/lib/Frank Herbert/Dune.epub");
    // Once the file sits at the planned destination, a re-run plans nothing.
    let second = sorter.plan(
        planned.destination.as_str(),
        "Dune",
        "Frank Herbert",
        "epub",
        "/lib",
    );
    assert_eq!(second, PlanOutcome::AlreadyNamed);
}

#[test]
fn plan_carries_mode_and_paths() {
    let mover = Sorter::new("{author}/{title}.{ext}", false);
    let r = mover.plan("/in/dune.epub", "Dune", "Frank Herbert", "epub", "/lib");
    assert_eq!(
        r,
        PlanOutcome::Proceed(RelocationPlan {
            source: "/in/dune.epub".to_owned(),
            destination: "/lib/Frank Herbert/Dune.epub".to_owned(),
            mode: RelocationMode::Move,
        })
    );
    let copier = Sorter::new("{author}/{title}.{ext}", true);
    match copier.plan("/in/dune.epub", "Dune", "Frank Herbert", "epub", "/lib") {
        PlanOutcome::Proceed(p) => assert_eq!(p.mode, RelocationMode::Copy),
        other => panic!("expected a plan, got {:?}", other),
    }
}

#[test]
fn template_failure_is_reported() {
    let sorter = Sorter::new("{isbn}.{ext}", false);
    let r = sorter.plan("/in/dune.epub", "Dune", "Frank Herbert", "epub", "/lib");
    assert_eq!(r, PlanOutcome::TemplateFailed(TemplateError::UnknownPlaceholder));
}

#[test]
fn escaping_rendered_paths_are_rejected() {
    let sorter = Sorter::new("{author}/{title}.{ext}", false);
    let dotdot = sorter.plan("/in/dune.epub", "Dune", "..", "epub", "/lib");
    assert_eq!(dotdot, PlanOutcome::UnsafePath);
    let absolute = sorter.plan("/in/dune.epub", "Dune", "/etc", "epub", "/lib");
    assert_eq!(absolute, PlanOutcome::UnsafePath);
    let empty = Sorter::new("", false).plan("/in/dune.epub", "Dune", "A", "epub", "/lib");
    assert_eq!(empty, PlanOutcome::UnsafePath);
}

#[test]
fn settled_decisions_report_their_outcome() {
    assert_eq!(
        PlanOutcome::AlreadyNamed.settled_outcome(),
        Some(RelocationOutcome::Skipped(SkipReason::AlreadyNamed))
    );
    assert_eq!(
        PlanOutcome::TemplateFailed(TemplateError::UnknownPlaceholder).settled_outcome(),
        Some(RelocationOutcome::Failed(RelocationError::TemplateFailed(
            TemplateError::UnknownPlaceholder
        )))
    );
    assert_eq!(
        PlanOutcome::UnsafePath.settled_outcome(),
        Some(RelocationOutcome::Failed(RelocationError::UnsafeRenderedPath))
    );
    let plan = RelocationPlan {
        source: "/in/a".to_owned(),
        destination: "/lib/a".to_owned(),
        mode: RelocationMode::Move,
    };
    assert_eq!(PlanOutcome::Proceed(plan).settled_outcome(), None);
}

#[test]
fn join_path_adds_one_separator() {
    assert_eq!(join_path("/lib", "a/b.epub"), "/lib/a/b.epub");
    assert_eq!(join_path("/lib/", "a/b.epub"), "/lib/a/b.epub");
    assert_eq!(join_path("", "a/b.epub"), "a/b.epub");
}
