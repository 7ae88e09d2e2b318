//! Safe relocation of one file, as a state machine over filesystem
//! primitives. The surrounding application performs each primitive
//! (confirmation prompt, directory creation, rename, copy, delete) and feeds
//! the success or failure back into [`reloc_step`]; the library decides what
//! happens next. The machine never orders the source deleted before a copy
//! of it is known to stand at the destination, so no run of successes and
//! failures can end with the file existing nowhere.

use vstd::prelude::*;

verus! {

/// Whether the file is to be copied (source kept) or moved.
#[derive(Clone, Copy, Debug, PartialEq, Eq, Structural)]
pub enum RelocationMode {
    Copy,
    Move,
}

/// One file's relocation order: where it is, where it belongs, and how.
#[derive(Clone, Debug, PartialEq, Eq)]
pub struct RelocationPlan {
    pub source: String,
    pub destination: String,
    pub mode: RelocationMode,
}

/// Why a file was left alone.
#[derive(Clone, Copy, Debug, PartialEq, Eq, Structural)]
pub enum SkipReason {
    /// The file already lies at its rendered destination.
    AlreadyNamed,
    /// The confirmation prompt was answered no.
    Declined,
    /// No usable title or author could be resolved.
    MissingMetadata,
}

/// Why a file's relocation failed. The source file is untouched in every
/// case.
#[derive(Clone, Copy, Debug, PartialEq, Eq, Structural)]
pub enum RelocationError {
    /// The destination's parent directories could not be created.
    DirCreationFailed,
    /// The byte copy to the destination failed.
    CopyFailed,
    /// The naming template could not be rendered for this file.
    TemplateFailed(crate::template::TemplateError),
    /// The rendered relative path would escape the destination root.
    UnsafeRenderedPath,
}

/// How one file's processing ended.
#[derive(Clone, Copy, Debug, PartialEq, Eq, Structural)]
pub enum RelocationOutcome {
    Skipped(SkipReason),
    /// The destination holds the file's bytes. In move mode
    /// `source_leaked` reports that deleting the source failed afterwards,
    /// so a duplicate remains behind; in copy mode it is always `false`.
    Succeeded { source_leaked: bool },
    Failed(RelocationError),
}

/// The filesystem primitive the application must perform next.
#[derive(Clone, Copy, Debug, PartialEq, Eq, Structural)]
pub enum FsAction {
    /// Ask the oracle whether to go ahead.
    AskConfirmation,
    /// Create the destination's parent directories.
    CreateParentDirs,
    /// Atomically rename source to destination.
    RenameFile,
    /// Copy the source's bytes to the destination.
    CopyFile,
    /// Delete the source file.
    DeleteSource,
}

/// Where a relocation stands. Each non-final state names the primitive
/// being waited on.
#[derive(Clone, Copy, Debug, PartialEq, Eq, Structural)]
pub enum RelocState {
    Confirming,
    MakingDirs,
    Renaming,
    Copying,
    Deleting,
    Finished(RelocationOutcome),
}

/// Every relocation starts by asking for confirmation.
pub open spec fn start_state() -> RelocState {
    RelocState::Confirming
}

/// The machine's transition: from the state `s` and the success flag of the
/// primitive just performed, the next state.
///
/// A declined confirmation skips the file; a failed directory creation or a
/// failed copy fails it. In move mode a failed rename falls back to
/// copy-then-delete, and only a successful copy leads to the delete; a failed
/// delete still succeeds, with the leak reported.
pub open spec fn spec_step(mode: RelocationMode, s: RelocState, ok: bool) -> RelocState {
    match s {
        RelocState::Confirming => if ok {
            RelocState::MakingDirs
        } else {
            RelocState::Finished(RelocationOutcome::Skipped(SkipReason::Declined))
        },
        RelocState::MakingDirs => if !ok {
            RelocState::Finished(RelocationOutcome::Failed(RelocationError::DirCreationFailed))
        } else if mode == RelocationMode::Copy {
            RelocState::Copying
        } else {
            RelocState::Renaming
        },
        RelocState::Renaming => if ok {
            RelocState::Finished(RelocationOutcome::Succeeded { source_leaked: false })
        } else {
            RelocState::Copying
        },
        RelocState::Copying => if !ok {
            RelocState::Finished(RelocationOutcome::Failed(RelocationError::CopyFailed))
        } else if mode == RelocationMode::Copy {
            RelocState::Finished(RelocationOutcome::Succeeded { source_leaked: false })
        } else {
            RelocState::Deleting
        },
        RelocState::Deleting => if ok {
            RelocState::Finished(RelocationOutcome::Succeeded { source_leaked: false })
        } else {
            RelocState::Finished(RelocationOutcome::Succeeded { source_leaked: true })
        },
        RelocState::Finished(_) => s,
    }
}

/// The primitive each state waits on; final states wait on nothing.
pub open spec fn spec_action(s: RelocState) -> Option<FsAction> {
    match s {
        RelocState::Confirming => Some(FsAction::AskConfirmation),
        RelocState::MakingDirs => Some(FsAction::CreateParentDirs),
        RelocState::Renaming => Some(FsAction::RenameFile),
        RelocState::Copying => Some(FsAction::CopyFile),
        RelocState::Deleting => Some(FsAction::DeleteSource),
        RelocState::Finished(_) => None,
    }
}

/// How many steps the machine can still take from `s`; it shrinks at every
/// step, so the application's driving loop terminates.
pub open spec fn state_rank(s: RelocState) -> nat {
    match s {
        RelocState::Confirming => 5,
        RelocState::MakingDirs => 4,
        RelocState::Renaming => 3,
        RelocState::Copying => 2,
        RelocState::Deleting => 1,
        RelocState::Finished(_) => 0,
    }
}

/// The state a fresh relocation starts in.
pub fn reloc_start() -> (s: RelocState)
    ensures
        s == start_state(),
{
    RelocState::Confirming
}

/// The primitive the application must perform in state `s`, or `None` when
/// the relocation is over.
pub fn reloc_action(s: &RelocState) -> (r: Option<FsAction>)
    ensures
        r == spec_action(*s),
{
    match s {
        RelocState::Confirming => Some(FsAction::AskConfirmation),
        RelocState::MakingDirs => Some(FsAction::CreateParentDirs),
        RelocState::Renaming => Some(FsAction::RenameFile),
        RelocState::Copying => Some(FsAction::CopyFile),
        RelocState::Deleting => Some(FsAction::DeleteSource),
        RelocState::Finished(_) => None,
    }
}

/// Advances the machine after the pending primitive reported `ok`.
pub fn reloc_step(mode: RelocationMode, s: RelocState, ok: bool) -> (r: RelocState)
    ensures
        r == spec_step(mode, s, ok),
        !(s is Finished) ==> state_rank(r) < state_rank(s),
{
    match s {
        RelocState::Confirming => if ok {
            RelocState::MakingDirs
        } else {
            RelocState::Finished(RelocationOutcome::Skipped(SkipReason::Declined))
        },
        RelocState::MakingDirs => if !ok {
            RelocState::Finished(RelocationOutcome::Failed(RelocationError::DirCreationFailed))
        } else if mode == RelocationMode::Copy {
            RelocState::Copying
        } else {
            RelocState::Renaming
        },
        RelocState::Renaming => if ok {
            RelocState::Finished(RelocationOutcome::Succeeded { source_leaked: false })
        } else {
            RelocState::Copying
        },
        RelocState::Copying => if !ok {
            RelocState::Finished(RelocationOutcome::Failed(RelocationError::CopyFailed))
        } else if mode == RelocationMode::Copy {
            RelocState::Finished(RelocationOutcome::Succeeded { source_leaked: false })
        } else {
            RelocState::Deleting
        },
        RelocState::Deleting => if ok {
            RelocState::Finished(RelocationOutcome::Succeeded { source_leaked: false })
        } else {
            RelocState::Finished(RelocationOutcome::Succeeded { source_leaked: true })
        },
        RelocState::Finished(_) => s,
    }
}

/// The two paths a relocation touches, abstracted to their contents:
/// `None` is "no file there", `Some(b)` is "a file holding bytes `b`".
pub struct FsView {
    pub source: Option<Seq<u8>>,
    pub dest: Option<Seq<u8>>,
}

/// What each primitive may do to the two paths, given whether it reported
/// success. Confirmation and directory creation leave both files alone. A
/// rename is atomic: on success the bytes move, on failure nothing changed.
/// A copy never touches the source; on success the destination holds the
/// source's bytes, on failure the destination is unconstrained (absent or
/// incomplete). A delete removes the source on success and nothing on
/// failure.
pub open spec fn fs_step(s: RelocState, ok: bool, pre: FsView, post: FsView) -> bool {
    match s {
        RelocState::Confirming => post == pre,
        RelocState::MakingDirs => post == pre,
        RelocState::Renaming => if ok {
            post.source is None && post.dest == pre.source
        } else {
            post == pre
        },
        RelocState::Copying => if ok {
            post.source == pre.source && post.dest == pre.source
        } else {
            post.source == pre.source
        },
        RelocState::Deleting => if ok {
            post.source is None && post.dest == pre.dest
        } else {
            post == pre
        },
        RelocState::Finished(_) => post == pre,
    }
}

/// The machine's safety invariant, for a file that held bytes `b` when the
/// relocation began: in every waiting state the source still holds `b`; a
/// delete is only ever pending once the destination also holds `b`; a
/// skipped or failed relocation leaves the source holding `b`; a successful
/// one leaves `b` at the destination — with the source intact in copy mode,
/// intact and reported after a leaked move, and gone after a clean move.
pub open spec fn reloc_inv(mode: RelocationMode, s: RelocState, fs: FsView, b: Seq<u8>) -> bool {
    match s {
        RelocState::Confirming => fs.source == Some(b),
        RelocState::MakingDirs => fs.source == Some(b),
        RelocState::Renaming => fs.source == Some(b) && mode == RelocationMode::Move,
        RelocState::Copying => fs.source == Some(b),
        RelocState::Deleting => fs.source == Some(b) && fs.dest == Some(b) && mode
            == RelocationMode::Move,
        RelocState::Finished(out) => match out {
            RelocationOutcome::Skipped(_) => fs.source == Some(b),
            RelocationOutcome::Failed(_) => fs.source == Some(b),
            RelocationOutcome::Succeeded { source_leaked } => {
                &&& fs.dest == Some(b)
                &&& mode == RelocationMode::Copy ==> fs.source == Some(b)
                &&& source_leaked ==> fs.source == Some(b) && mode == RelocationMode::Move
                &&& mode == RelocationMode::Move && !source_leaked ==> fs.source is None
            },
        },
    }
}

/// The invariant holds when the machine starts on an existing source file.
pub proof fn lemma_start_inv(mode: RelocationMode, fs: FsView, b: Seq<u8>)
    requires
        fs.source == Some(b),
    ensures
        reloc_inv(mode, start_state(), fs, b),
{
}

/// One machine step under one filesystem step preserves the invariant,
/// whatever the primitive reported and whatever a failed copy left at the
/// destination.
pub proof fn lemma_step_preserves_inv(
    mode: RelocationMode,
    s: RelocState,
    ok: bool,
    pre: FsView,
    post: FsView,
    b: Seq<u8>,
)
    requires
        reloc_inv(mode, s, pre, b),
        fs_step(s, ok, pre, post),
    ensures
        reloc_inv(mode, spec_step(mode, s, ok), post, b),
{
}

/// Wherever the machine stands, at least one of the two paths holds the
/// original bytes: the state "neither exists" is unreachable.
pub proof fn lemma_inv_no_loss(mode: RelocationMode, s: RelocState, fs: FsView, b: Seq<u8>)
    requires
        reloc_inv(mode, s, fs, b),
    ensures
        fs.source == Some(b) || fs.dest == Some(b),
{
}

/// In copy mode the source file still holds its original bytes in every
/// reachable state, success or failure.
pub proof fn lemma_copy_mode_source_intact(s: RelocState, fs: FsView, b: Seq<u8>)
    requires
        reloc_inv(RelocationMode::Copy, s, fs, b),
    ensures
        fs.source == Some(b),
{
}

/// A whole run of the machine: `states` and `fss` record the machine state
/// and the filesystem before each step, `oks` what each primitive reported.
/// Every step follows the machine and a legal filesystem step.
pub open spec fn valid_run(
    mode: RelocationMode,
    b: Seq<u8>,
    oks: Seq<bool>,
    states: Seq<RelocState>,
    fss: Seq<FsView>,
) -> bool {
    &&& states.len() == oks.len() + 1
    &&& fss.len() == oks.len() + 1
    &&& states[0] == start_state()
    &&& fss[0].source == Some(b)
    &&& forall|i: int|
        0 <= i < oks.len() ==> #[trigger] states[i + 1] == spec_step(mode, states[i], oks[i])
            && fs_step(states[i], oks[i], fss[i], fss[i + 1])
}

/// For any sequence of successes and failures the primitives may report —
/// rename failing, copy failing, delete failing, in any combination — every
/// point of the run still has the original bytes at the source or at the
/// destination: the file is never lost.
pub proof fn lemma_run_no_loss(
    mode: RelocationMode,
    b: Seq<u8>,
    oks: Seq<bool>,
    states: Seq<RelocState>,
    fss: Seq<FsView>,
    i: int,
)
    requires
        valid_run(mode, b, oks, states, fss),
        0 <= i < fss.len(),
    ensures
        reloc_inv(mode, states[i], fss[i], b),
        fss[i].source == Some(b) || fss[i].dest == Some(b),
    decreases i,
{
    if i == 0 {
        lemma_start_inv(mode, fss[0], b);
    } else {
        lemma_run_no_loss(mode, b, oks, states, fss, i - 1);
        assert(states[i - 1 + 1] == spec_step(mode, states[i - 1], oks[i - 1]) && fs_step(
            states[i - 1],
            oks[i - 1],
            fss[i - 1],
            fss[i - 1 + 1],
        ));
        lemma_step_preserves_inv(mode, states[i - 1], oks[i - 1], fss[i - 1], fss[i], b);
    }
    lemma_inv_no_loss(mode, states[i], fss[i], b);
}

/// Copy mode never touches the source along any run: after any copy-mode
/// relocation, successful or not, the source file is byte-identical to its
/// state before the run.
pub proof fn lemma_run_copy_mode_source_intact(
    b: Seq<u8>,
    oks: Seq<bool>,
    states: Seq<RelocState>,
    fss: Seq<FsView>,
    i: int,
)
    requires
        valid_run(RelocationMode::Copy, b, oks, states, fss),
        0 <= i < fss.len(),
    ensures
        fss[i].source == Some(b),
{
    lemma_run_no_loss(RelocationMode::Copy, b, oks, states, fss, i);
    lemma_copy_mode_source_intact(states[i], fss[i], b);
}

} // verus!
