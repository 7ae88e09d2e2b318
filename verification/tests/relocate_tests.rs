use ebook_organiser::relocate::{
    reloc_action, reloc_start, reloc_step, FsAction, RelocState, RelocationError,
    RelocationMode, RelocationOutcome, SkipReason,
};

fn run_machine(mode: RelocationMode, answers: &[bool]) -> RelocState {
    let mut state = reloc_start();
    let mut i = 0;
    while reloc_action(&state).is_some() {
        assert!(i < answers.len(), "machine asked for more steps than scripted");
        state = reloc_step(mode, state, answers[i]);
        i += 1;
    }
    state
}

#[test]
fn leaked_source_still_succeeds() {
    // Move mode: confirmation yes, dirs ok, rename fails (cross-device),
    // fallback copy succeeds, delete of the source fails.
    let state = run_machine(RelocationMode::Move, &[true, true, false, true, false]);
    assert_eq!(
        state,
        RelocState::Finished(RelocationOutcome::Succeeded { source_leaked: true })
    );
}

#[test]
fn plain_move_renames_once() {
    let state = run_machine(RelocationMode::Move, &[true, true, true]);
    assert_eq!(
        state,
        RelocState::Finished(RelocationOutcome::Succeeded { source_leaked: false })
    );
}

#[test]
fn copy_mode_never_deletes() {
    let mut state = reloc_start();
    let mut deletes = 0;
    let answers = [true, true, true];
    let mut i = 0;
    while let Some(action) = reloc_action(&state) {
        if action == FsAction::DeleteSource {
            deletes += 1;
        }
        state = reloc_step(RelocationMode::Copy, state, answers[i]);
        i += 1;
    }
    assert_eq!(deletes, 0);
    assert_eq!(
        state,
        RelocState::Finished(RelocationOutcome::Succeeded { source_leaked: false })
    );
}

#[test]
fn declined_confirmation_skips() {
    let state = run_machine(RelocationMode::Move, &[false]);
    assert_eq!(
        state,
        RelocState::Finished(RelocationOutcome::Skipped(SkipReason::Declined))
    );
}

#[test]
fn failures_fail_without_touching_the_source() {
    let dirs = run_machine(RelocationMode::Move, &[true, false]);
    assert_eq!(
        dirs,
        RelocState::Finished(RelocationOutcome::Failed(RelocationError::DirCreationFailed))
    );
    let copy_after_rename = run_machine(RelocationMode::Move, &[true, true, false, false]);
    assert_eq!(
        copy_after_rename,
        RelocState::Finished(RelocationOutcome::Failed(RelocationError::CopyFailed))
    );
    let copy_mode_copy = run_machine(RelocationMode::Copy, &[true, true, false]);
    assert_eq!(
        copy_mode_copy,
        RelocState::Finished(RelocationOutcome::Failed(RelocationError::CopyFailed))
    );
}

/// A mock filesystem holding the two paths' contents.
#[derive(Clone, PartialEq, Debug)]
struct MockFs {
    source: Option<Vec<u8>>,
    dest: Option<Vec<u8>>,
}

fn apply(fs: &mut MockFs, action: FsAction, ok: bool) {
    match action {
        FsAction::AskConfirmation | FsAction::CreateParentDirs => {}
        FsAction::RenameFile => {
            if ok {
                fs.dest = fs.source.take();
            }
        }
        FsAction::CopyFile => {
            if ok {
                fs.dest = fs.source.clone();
            } else {
                // A failed copy may leave an incomplete destination.
                fs.dest = Some(b"garbage".to_vec());
            }
        }
        FsAction::DeleteSource => {
            if ok {
                fs.source = None;
            }
        }
    }
}

#[test]
fn no_sequence_of_failures_loses_the_file() {
    let bytes = b"the spice must flow".to_vec();
    // Drive the machine through every answer script of up to five steps,
    // in both modes, and check the no-loss invariant at every point.
    for mode in [RelocationMode::Move, RelocationMode::Copy] {
        for script in 0u32..32 {
            let mut fs = MockFs { source: Some(bytes.clone()), dest: None };
            let mut state = reloc_start();
            let mut step = 0;
            while let Some(action) = reloc_action(&state) {
                let ok = script & (1 << step) != 0;
                apply(&mut fs, action, ok);
                state = reloc_step(mode, state, ok);
                step += 1;
                assert!(
                    fs.source.as_deref() == Some(bytes.as_slice())
                        || fs.dest.as_deref() == Some(bytes.as_slice()),
                    "file lost: mode {:?}, script {:#b}, state {:?}",
                    mode,
                    script,
                    state
                );
                if mode == RelocationMode::Copy {
                    assert_eq!(fs.source.as_deref(), Some(bytes.as_slice()));
                }
            }
            match state {
                RelocState::Finished(RelocationOutcome::Succeeded { .. }) => {
                    assert_eq!(fs.dest.as_deref(), Some(bytes.as_slice()));
                }
                RelocState::Finished(_) => {
                    assert_eq!(fs.source.as_deref(), Some(bytes.as_slice()));
                }
                other => panic!("machine did not finish: {:?}", other),
            }
        }
    }
}
