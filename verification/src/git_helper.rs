//! The decisions of the automatic commit of the side-car directory.
//!
//! The caller performs one step on the repository at a time and reports how it went;
//! `advance` answers with the next step, or with how the attempt ended. The attempt is a
//! convenience at the end of a run: however it ends, the run itself has not failed.

use crate::text::followed_by;
use vstd::prelude::*;
use vstd::string::StringExecFns;

verus! {

/// The directory, below the side-car directory, whose presence shows a repository.
pub const REPOSITORY_DIR: &'static str = ".git";

/// The message of every automatic commit.
pub const COMMIT_MESSAGE: &'static str = "Auto-commit: c2rust-test changes";

/// One step on the repository of the side-car directory.
#[derive(Debug, Clone, Copy, PartialEq, Eq)]
pub enum CommitStep {
    /// Open the repository.
    OpenRepository,
    /// Load the index.
    LoadIndex,
    /// Stage every change of the working tree.
    StageAll,
    /// Write the index back.
    WriteIndex,
    /// Write the index as a tree.
    WriteTree,
    /// Look the written tree up.
    FindTree,
    /// Look for the current head.
    ReadHead,
    /// There is no head: count what the index holds at all.
    DiffIndex,
    /// Resolve the head to its commit.
    PeelHead,
    /// Get the tree of that commit.
    ParentTree,
    /// Count the differences between that tree and the written one.
    DiffTrees,
    /// Get the signature to commit with.
    Signature { has_parent: bool },
    /// Create the commit, on top of the head's commit where there is one.
    CreateCommit { has_parent: bool },
}

/// How a step went.
#[derive(Debug, Clone, PartialEq, Eq)]
pub enum StepEvent {
    /// The step succeeded. The number is the count of differences that `DiffIndex` or
    /// `DiffTrees` found; after any other step it is not read.
    Completed(usize),
    /// The step failed; the reason.
    Failed(String),
}

/// How the attempt ended.
#[derive(Debug, Clone, PartialEq, Eq)]
pub enum CommitOutcome {
    /// The side-car directory holds no repository.
    NoRepository,
    /// The repository already holds what the working tree holds.
    NothingToCommit,
    /// A commit was created.
    Committed,
    /// A step failed; what is to be reported.
    Failed(String),
}

/// The answer to a step: the next one, or the end of the attempt.
#[derive(Debug, Clone, PartialEq, Eq)]
pub enum Progress {
    Next(CommitStep),
    Finished(CommitOutcome),
}

/// What a `StepEvent` holds, as a sequence of characters.
pub ghost enum EventView {
    Completed(usize),
    Failed(Seq<char>),
}

/// What a `CommitOutcome` holds, as a sequence of characters.
pub ghost enum CommitOutcomeView {
    NoRepository,
    NothingToCommit,
    Committed,
    Failed(Seq<char>),
}

/// What a `Progress` holds.
pub ghost enum ProgressView {
    Next(CommitStep),
    Finished(CommitOutcomeView),
}

impl View for StepEvent {
    type V = EventView;

    open spec fn view(&self) -> EventView {
        match self {
            StepEvent::Completed(n) => EventView::Completed(*n),
            StepEvent::Failed(reason) => EventView::Failed(reason@),
        }
    }
}

impl View for CommitOutcome {
    type V = CommitOutcomeView;

    open spec fn view(&self) -> CommitOutcomeView {
        match self {
            CommitOutcome::NoRepository => CommitOutcomeView::NoRepository,
            CommitOutcome::NothingToCommit => CommitOutcomeView::NothingToCommit,
            CommitOutcome::Committed => CommitOutcomeView::Committed,
            CommitOutcome::Failed(report) => CommitOutcomeView::Failed(report@),
        }
    }
}

impl View for Progress {
    type V = ProgressView;

    open spec fn view(&self) -> ProgressView {
        match self {
            Progress::Next(step) => ProgressView::Next(*step),
            Progress::Finished(outcome) => ProgressView::Finished(outcome@),
        }
    }
}

impl CommitStep {
    /// The most steps that can still follow this one.
    pub open spec fn steps_left(self) -> nat {
        match self {
            CommitStep::OpenRepository => 12,
            CommitStep::LoadIndex => 11,
            CommitStep::StageAll => 10,
            CommitStep::WriteIndex => 9,
            CommitStep::WriteTree => 8,
            CommitStep::FindTree => 7,
            CommitStep::ReadHead => 6,
            CommitStep::PeelHead => 5,
            CommitStep::ParentTree => 4,
            CommitStep::DiffIndex => 3,
            CommitStep::DiffTrees => 3,
            CommitStep::Signature { .. } => 2,
            CommitStep::CreateCommit { .. } => 1,
        }
    }

    /// The step that follows this one when it succeeded and the attempt goes on. After
    /// `ReadHead` this is the step for a repository that has a head.
    pub open spec fn successor(self) -> CommitStep {
        match self {
            CommitStep::OpenRepository => CommitStep::LoadIndex,
            CommitStep::LoadIndex => CommitStep::StageAll,
            CommitStep::StageAll => CommitStep::WriteIndex,
            CommitStep::WriteIndex => CommitStep::WriteTree,
            CommitStep::WriteTree => CommitStep::FindTree,
            CommitStep::FindTree => CommitStep::ReadHead,
            CommitStep::ReadHead => CommitStep::PeelHead,
            CommitStep::PeelHead => CommitStep::ParentTree,
            CommitStep::ParentTree => CommitStep::DiffTrees,
            CommitStep::DiffIndex => CommitStep::Signature { has_parent: false },
            CommitStep::DiffTrees => CommitStep::Signature { has_parent: true },
            CommitStep::Signature { has_parent } => CommitStep::CreateCommit { has_parent },
            CommitStep::CreateCommit { has_parent } => CommitStep::CreateCommit { has_parent },
        }
    }

    /// What is reported when this step fails, before the reason. `dir` is the side-car
    /// directory.
    pub open spec fn failure_prefix(self, dir: Seq<char>) -> Seq<char> {
        match self {
            CommitStep::OpenRepository => "Failed to open git repository at "@ + dir + ": "@,
            CommitStep::LoadIndex => "Failed to get git index: "@,
            CommitStep::StageAll => "Failed to add files to git index: "@,
            CommitStep::WriteIndex => "Failed to write git index: "@,
            CommitStep::WriteTree => "Failed to write tree: "@,
            CommitStep::FindTree => "Failed to find tree: "@,
            CommitStep::ReadHead => "Failed to read head: "@,
            CommitStep::PeelHead => "Failed to get parent commit: "@,
            CommitStep::ParentTree => "Failed to get parent tree: "@,
            CommitStep::DiffIndex => "Failed to create diff: "@,
            CommitStep::DiffTrees => "Failed to create diff: "@,
            CommitStep::Signature { .. } => "Failed to get git signature: "@,
            CommitStep::CreateCommit { has_parent: false } => "Failed to create initial commit: "@,
            CommitStep::CreateCommit { has_parent: true } => "Failed to create commit: "@,
        }
    }

    /// Whether the step counts differences.
    pub open spec fn compares(self) -> bool {
        self == CommitStep::DiffIndex || self == CommitStep::DiffTrees
    }
}

/// The answer to `event`, the way `step` went. A repository without a head is no failure:
/// whatever keeps `ReadHead` from finding one, the attempt goes on with `DiffIndex`. Any
/// other step that fails ends the attempt with a report. A comparing step that finds no
/// difference ends it with nothing to commit, and the last step, with the commit.
pub open spec fn next_progress(step: CommitStep, event: EventView, dir: Seq<char>) -> ProgressView {
    match event {
        EventView::Failed(reason) => if step == CommitStep::ReadHead {
            ProgressView::Next(CommitStep::DiffIndex)
        } else {
            ProgressView::Finished(CommitOutcomeView::Failed(step.failure_prefix(dir) + reason))
        },
        EventView::Completed(differences) => if step.compares() && differences == 0 {
            ProgressView::Finished(CommitOutcomeView::NothingToCommit)
        } else if step is CreateCommit {
            ProgressView::Finished(CommitOutcomeView::Committed)
        } else {
            ProgressView::Next(step.successor())
        },
    }
}

/// Where the attempt stands after the steps that went as `events` say, the first of them
/// being `step`.
pub open spec fn progress_after(
    step: CommitStep,
    events: Seq<EventView>,
    dir: Seq<char>,
) -> ProgressView
    decreases events.len(),
{
    if events.len() == 0 {
        ProgressView::Next(step)
    } else {
        match next_progress(step, events.first(), dir) {
            ProgressView::Next(next) => progress_after(next, events.drop_first(), dir),
            ProgressView::Finished(outcome) => ProgressView::Finished(outcome),
        }
    }
}

/// The attempt ends: after as many steps as `steps_left` says, at the latest. From its
/// first step that is after twelve steps.
pub proof fn lemma_attempt_ends(step: CommitStep, events: Seq<EventView>, dir: Seq<char>)
    requires
        events.len() >= step.steps_left(),
    ensures
        progress_after(step, events, dir) is Finished,
        CommitStep::OpenRepository.steps_left() == 12,
    decreases events.len(),
{
    if let ProgressView::Next(next) = next_progress(step, events.first(), dir) {
        lemma_attempt_ends(next, events.drop_first(), dir);
    }
}

/// No commit without a difference. The attempt asks for a signature only after a
/// comparing step that found a difference, for the commit only after the signature, and
/// ends with a commit only after the step that creates it.
pub proof fn lemma_commit_needs_difference(step: CommitStep, event: EventView, dir: Seq<char>)
    ensures
        next_progress(step, event, dir) matches ProgressView::Next(CommitStep::Signature { .. })
            ==> step.compares() && (event matches EventView::Completed(n) && n > 0),
        next_progress(step, event, dir) matches ProgressView::Next(
            CommitStep::CreateCommit { .. },
        ) ==> step is Signature && event is Completed,
        next_progress(step, event, dir) == ProgressView::Finished(CommitOutcomeView::Committed)
            ==> step is CreateCommit && event is Completed,
{
}

/// How the attempt begins: with `OpenRepository` where the side-car directory holds the
/// directory of a repository, and not at all where it does not.
pub fn first_step(repository_dir_present: bool) -> (p: Progress)
    ensures
        p@ == if repository_dir_present {
            ProgressView::Next(CommitStep::OpenRepository)
        } else {
            ProgressView::Finished(CommitOutcomeView::NoRepository)
        },
{
    if repository_dir_present {
        Progress::Next(CommitStep::OpenRepository)
    } else {
        Progress::Finished(CommitOutcome::NoRepository)
    }
}

/// What is reported when `step` fails, before the reason.
fn failure_report(step: CommitStep, dir: &str, reason: &str) -> (report: String)
    ensures
        report@ == step.failure_prefix(dir@) + reason@,
{
    let mut report = match step {
        CommitStep::OpenRepository => {
            let mut prefix = followed_by("Failed to open git repository at ", dir);
            prefix.append(": ");
            prefix
        },
        CommitStep::LoadIndex => String::from_str("Failed to get git index: "),
        CommitStep::StageAll => String::from_str("Failed to add files to git index: "),
        CommitStep::WriteIndex => String::from_str("Failed to write git index: "),
        CommitStep::WriteTree => String::from_str("Failed to write tree: "),
        CommitStep::FindTree => String::from_str("Failed to find tree: "),
        CommitStep::ReadHead => String::from_str("Failed to read head: "),
        CommitStep::PeelHead => String::from_str("Failed to get parent commit: "),
        CommitStep::ParentTree => String::from_str("Failed to get parent tree: "),
        CommitStep::DiffIndex => String::from_str("Failed to create diff: "),
        CommitStep::DiffTrees => String::from_str("Failed to create diff: "),
        CommitStep::Signature { .. } => String::from_str("Failed to get git signature: "),
        CommitStep::CreateCommit { has_parent: false } => String::from_str(
            "Failed to create initial commit: ",
        ),
        CommitStep::CreateCommit { has_parent: true } => String::from_str(
            "Failed to create commit: ",
        ),
    };
    report.append(reason);
    report
}

/// The step that follows `step` when it succeeded and the attempt goes on.
fn successor_of(step: CommitStep) -> (next: CommitStep)
    ensures
        next == step.successor(),
{
    match step {
        CommitStep::OpenRepository => CommitStep::LoadIndex,
        CommitStep::LoadIndex => CommitStep::StageAll,
        CommitStep::StageAll => CommitStep::WriteIndex,
        CommitStep::WriteIndex => CommitStep::WriteTree,
        CommitStep::WriteTree => CommitStep::FindTree,
        CommitStep::FindTree => CommitStep::ReadHead,
        CommitStep::ReadHead => CommitStep::PeelHead,
        CommitStep::PeelHead => CommitStep::ParentTree,
        CommitStep::ParentTree => CommitStep::DiffTrees,
        CommitStep::DiffIndex => CommitStep::Signature { has_parent: false },
        CommitStep::DiffTrees => CommitStep::Signature { has_parent: true },
        CommitStep::Signature { has_parent } => CommitStep::CreateCommit { has_parent },
        CommitStep::CreateCommit { has_parent } => CommitStep::CreateCommit { has_parent },
    }
}

/// The answer to `event`, the way `step` went on the repository in `dir`. Each answer that
/// names a next step names one that is nearer to the end.
pub fn advance(step: CommitStep, event: &StepEvent, dir: &str) -> (p: Progress)
    ensures
        p@ == next_progress(step, event@, dir@),
        p matches Progress::Next(next) ==> next.steps_left() < step.steps_left(),
{
    match event {
        StepEvent::Failed(reason) => {
            if let CommitStep::ReadHead = step {
                Progress::Next(CommitStep::DiffIndex)
            } else {
                let report = failure_report(step, dir, reason.as_str());
                Progress::Finished(CommitOutcome::Failed(report))
            }
        },
        StepEvent::Completed(differences) => {
            match step {
                CommitStep::DiffIndex | CommitStep::DiffTrees => {
                    if *differences == 0 {
                        Progress::Finished(CommitOutcome::NothingToCommit)
                    } else {
                        Progress::Next(successor_of(step))
                    }
                },
                CommitStep::CreateCommit { .. } => Progress::Finished(CommitOutcome::Committed),
                _ => Progress::Next(successor_of(step)),
            }
        },
    }
}

/// What is to be said of the attempt's end: two lines of warning where a step failed, and
/// nothing otherwise.
pub open spec fn warning_text(outcome: CommitOutcomeView) -> Option<Seq<char>> {
    match outcome {
        CommitOutcomeView::Failed(report) => Some(
            "Warning: Auto-commit failed: "@ + report + "\nContinuing without auto-commit."@,
        ),
        _ => None,
    }
}

/// What is to be said of the attempt's end.
pub fn warning(outcome: &CommitOutcome) -> (text: Option<String>)
    ensures
        text.deep_view() == warning_text(outcome@),
{
    match outcome {
        CommitOutcome::Failed(report) => {
            let mut text = followed_by("Warning: Auto-commit failed: ", report.as_str());
            text.append("\nContinuing without auto-commit.");
            Some(text)
        },
        _ => None,
    }
}

} // verus!
