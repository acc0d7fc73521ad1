use c2rust_test::git_helper::{
    advance, first_step, warning, CommitOutcome, CommitStep, Progress, StepEvent, COMMIT_MESSAGE,
    REPOSITORY_DIR,
};
use c2rust_test::project_root::SIDE_CAR_DIR;

fn run(events: Vec<StepEvent>) -> (Vec<CommitStep>, CommitOutcome) {
    let mut steps = Vec::new();
    let mut step = match first_step(true) {
        Progress::Next(step) => step,
        Progress::Finished(outcome) => return (steps, outcome),
    };
    for event in events {
        steps.push(step);
        match advance(step, &event, "/p/.c2rust") {
            Progress::Next(next) => step = next,
            Progress::Finished(outcome) => return (steps, outcome),
        }
    }
    panic!("the attempt did not end");
}

fn done() -> StepEvent {
    StepEvent::Completed(0)
}

#[test]
fn names_of_the_side_car() {
    assert_eq!(SIDE_CAR_DIR, ".c2rust");
    assert_eq!(REPOSITORY_DIR, ".git");
    assert_eq!(COMMIT_MESSAGE, "Auto-commit: c2rust-test changes");
}

#[test]
fn no_repository_no_attempt() {
    assert_eq!(first_step(false), Progress::Finished(CommitOutcome::NoRepository));
    assert_eq!(first_step(true), Progress::Next(CommitStep::OpenRepository));
}

#[test]
fn first_commit_of_a_repository_without_head() {
    let mut events = vec![done(), done(), done(), done(), done(), done()];
    events.push(StepEvent::Failed("reference 'refs/heads/main' not found".to_string()));
    events.push(StepEvent::Completed(1));
    events.push(done());
    events.push(done());
    let (steps, outcome) = run(events);
    assert_eq!(
        steps,
        vec![
            CommitStep::OpenRepository,
            CommitStep::LoadIndex,
            CommitStep::StageAll,
            CommitStep::WriteIndex,
            CommitStep::WriteTree,
            CommitStep::FindTree,
            CommitStep::ReadHead,
            CommitStep::DiffIndex,
            CommitStep::Signature { has_parent: false },
            CommitStep::CreateCommit { has_parent: false },
        ]
    );
    assert_eq!(outcome, CommitOutcome::Committed);
}

#[test]
fn commit_on_top_of_head() {
    let mut events = vec![done(), done(), done(), done(), done(), done(), done(), done(), done()];
    events.push(StepEvent::Completed(3));
    events.push(done());
    events.push(done());
    let (steps, outcome) = run(events);
    assert_eq!(
        steps,
        vec![
            CommitStep::OpenRepository,
            CommitStep::LoadIndex,
            CommitStep::StageAll,
            CommitStep::WriteIndex,
            CommitStep::WriteTree,
            CommitStep::FindTree,
            CommitStep::ReadHead,
            CommitStep::PeelHead,
            CommitStep::ParentTree,
            CommitStep::DiffTrees,
            CommitStep::Signature { has_parent: true },
            CommitStep::CreateCommit { has_parent: true },
        ]
    );
    assert_eq!(outcome, CommitOutcome::Committed);
}

#[test]
fn no_difference_no_commit() {
    let events = vec![done(), done(), done(), done(), done(), done(), done(), done(), done(), done()];
    let (steps, outcome) = run(events);
    assert_eq!(steps.last(), Some(&CommitStep::DiffTrees));
    assert_eq!(outcome, CommitOutcome::NothingToCommit);

    assert_eq!(
        advance(CommitStep::DiffIndex, &StepEvent::Completed(0), "d"),
        Progress::Finished(CommitOutcome::NothingToCommit)
    );
}

#[test]
fn each_failure_is_reported_with_its_step() {
    let cases = [
        (CommitStep::OpenRepository, "Failed to open git repository at /p/.c2rust: why"),
        (CommitStep::LoadIndex, "Failed to get git index: why"),
        (CommitStep::StageAll, "Failed to add files to git index: why"),
        (CommitStep::WriteIndex, "Failed to write git index: why"),
        (CommitStep::WriteTree, "Failed to write tree: why"),
        (CommitStep::FindTree, "Failed to find tree: why"),
        (CommitStep::DiffIndex, "Failed to create diff: why"),
        (CommitStep::PeelHead, "Failed to get parent commit: why"),
        (CommitStep::ParentTree, "Failed to get parent tree: why"),
        (CommitStep::DiffTrees, "Failed to create diff: why"),
        (CommitStep::Signature { has_parent: false }, "Failed to get git signature: why"),
        (CommitStep::Signature { has_parent: true }, "Failed to get git signature: why"),
        (CommitStep::CreateCommit { has_parent: false }, "Failed to create initial commit: why"),
        (CommitStep::CreateCommit { has_parent: true }, "Failed to create commit: why"),
    ];
    for (step, report) in cases {
        assert_eq!(
            advance(step, &StepEvent::Failed("why".to_string()), "/p/.c2rust"),
            Progress::Finished(CommitOutcome::Failed(report.to_string()))
        );
    }
}

#[test]
fn missing_head_is_no_failure() {
    assert_eq!(
        advance(CommitStep::ReadHead, &StepEvent::Failed("unborn".to_string()), "d"),
        Progress::Next(CommitStep::DiffIndex)
    );
}

#[test]
fn failure_is_only_a_warning() {
    assert_eq!(
        warning(&CommitOutcome::Failed("Failed to get git signature: no name".to_string())),
        Some(
            "Warning: Auto-commit failed: Failed to get git signature: no name\nContinuing without auto-commit."
                .to_string()
        )
    );
    assert_eq!(warning(&CommitOutcome::Committed), None);
    assert_eq!(warning(&CommitOutcome::NothingToCommit), None);
    assert_eq!(warning(&CommitOutcome::NoRepository), None);
}
