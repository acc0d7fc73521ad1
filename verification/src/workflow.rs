//! The order of a run and the choices made before the command starts.
//!
//! A run checks that the configuration tool is there, settles what to run and where,
//! runs it, stores what was run, and commits the side-car directory. The caller does
//! each stage's work and reports how it went; `after_stage` answers with the next stage,
//! or with the end of the run.

use crate::error::{Error, ErrorView};
use crate::text::{is_space, join, join_from, lemma_words_blank, lemma_words_join};
use crate::text::{split_words, words};
use vstd::prelude::*;
use vstd::string::StringExecFns;

verus! {

/// The feature of a run that names none.
pub const DEFAULT_FEATURE: &'static str = "default";

/// The test directory of a run in the project root itself.
pub const ROOT_DIR: &'static str = ".";

/// The feature of the run: the one named, or the default one.
pub fn resolve_feature(feature: Option<String>) -> (name: String)
    ensures
        name@ == match feature {
            Some(f) => f@,
            None => DEFAULT_FEATURE@,
        },
{
    match feature {
        Some(f) => f,
        None => String::from_str(DEFAULT_FEATURE),
    }
}

/// The test directory as it is stored: the working directory relative to the project
/// root, and `.` where the two are one or the working directory lies outside the root.
/// `relative` is the working directory without the root in front, if the root is in
/// front of it.
pub open spec fn test_dir_text(relative: Option<Seq<char>>) -> Seq<char> {
    match relative {
        Some(path) => if path.len() == 0 {
            ROOT_DIR@
        } else {
            path
        },
        None => ROOT_DIR@,
    }
}

/// The test directory as it is stored.
pub fn test_dir_label(relative: Option<&str>) -> (label: String)
    ensures
        label@ == test_dir_text(relative.deep_view()),
{
    match relative {
        Some(path) => {
            if path.is_empty() {
                String::from_str(ROOT_DIR)
            } else {
                String::from_str(path)
            }
        },
        None => String::from_str(ROOT_DIR),
    }
}

/// The warning for a working directory that lies outside the project root.
pub fn outside_root_warning(relative: Option<&str>) -> (text: Option<String>)
    ensures
        text.deep_view() == match relative {
            Some(_) => None,
            None => Some(
                "Warning: current directory is not under project root, using '.' as test directory"@,
            ),
        },
{
    match relative {
        Some(_) => None,
        None => Some(
            String::from_str(
                "Warning: current directory is not under project root, using '.' as test directory",
            ),
        ),
    }
}

/// Where the command runs.
#[derive(Debug, Clone, PartialEq, Eq)]
pub enum DirChoice {
    /// In the directory that the invocation names.
    Explicit(String),
    /// In the working directory.
    Current,
}

/// What a `DirChoice` holds, as a sequence of characters.
pub ghost enum DirChoiceView {
    Explicit(Seq<char>),
    Current,
}

impl View for DirChoice {
    type V = DirChoiceView;

    open spec fn view(&self) -> DirChoiceView {
        match self {
            DirChoice::Explicit(dir) => DirChoiceView::Explicit(dir@),
            DirChoice::Current => DirChoiceView::Current,
        }
    }
}

/// Where the command runs: in the directory that the invocation names, and in the
/// working directory where it names none.
pub fn resolve_dir(explicit: Option<String>) -> (choice: DirChoice)
    ensures
        choice@ == match explicit {
            Some(dir) => DirChoiceView::Explicit(dir@),
            None => DirChoiceView::Current,
        },
{
    match explicit {
        Some(dir) => DirChoice::Explicit(dir),
        None => DirChoice::Current,
    }
}

/// The failure of a run that has nothing to run.
pub open spec fn no_test_command() -> ErrorView {
    ErrorView::MissingParameter("test command"@)
}

/// The tokens of the command to run: those of the invocation where it names any, and
/// otherwise the words of the stored command. Where neither holds a token, nothing can
/// be run.
pub open spec fn command_tokens(explicit: Seq<Seq<char>>, saved: Option<Seq<char>>) -> Result<
    Seq<Seq<char>>,
    ErrorView,
> {
    if explicit.len() > 0 {
        Ok(explicit)
    } else {
        match saved {
            Some(line) => if words(line).len() > 0 {
                Ok(words(line))
            } else {
                Err(no_test_command())
            },
            None => Err(no_test_command()),
        }
    }
}

/// A command that was stored reads back as it was: the words of the stored line are the
/// tokens that were joined to make it, where each token is a word, that is, not empty
/// and free of whitespace.
pub proof fn lemma_stored_command_reads_back(tokens: Seq<Seq<char>>)
    requires
        tokens.len() > 0,
        forall|k: int|
            0 <= k < tokens.len() ==> (#[trigger] tokens[k]).len() > 0 && forall|i: int|
                0 <= i < tokens[k].len() ==> !is_space(#[trigger] tokens[k][i]),
    ensures
        command_tokens(Seq::empty(), Some(join(tokens, " "@))) == Ok::<Seq<Seq<char>>, ErrorView>(
            tokens,
        ),
{
    reveal_strlit(" ");
    assert(" "@ =~= seq![' ']);
    lemma_words_join(tokens);
}

/// The tokens of the command to run. The tokens of the invocation take precedence over a
/// stored command; a stored command that holds whitespace only counts as none.
pub fn resolve_command(explicit: Vec<String>, saved: Option<&str>) -> (r: Result<
    Vec<String>,
    Error,
>)
    ensures
        match r {
            Ok(tokens) => command_tokens(explicit.deep_view(), saved.deep_view()) == Ok::<
                Seq<Seq<char>>,
                ErrorView,
            >(tokens.deep_view()),
            Err(e) => command_tokens(explicit.deep_view(), saved.deep_view()) == Err::<
                Seq<Seq<char>>,
                ErrorView,
            >(e@),
        },
        r is Ok ==> r->Ok_0.len() > 0,
        r is Err <==> explicit.len() == 0 && match saved {
            Some(line) => forall|i: int| 0 <= i < line@.len() ==> is_space(#[trigger] line@[i]),
            None => true,
        },
{
    proof {
        if let Some(line) = saved {
            lemma_words_blank(line@);
        }
    }
    if explicit.len() > 0 {
        return Ok(explicit);
    }
    match saved {
        Some(line) => {
            let tokens = split_words(line);
            if tokens.len() > 0 {
                Ok(tokens)
            } else {
                Err(Error::MissingParameter(String::from_str("test command")))
            }
        },
        None => Err(Error::MissingParameter(String::from_str("test command"))),
    }
}

/// The command as it is stored: its tokens with one space between each two.
pub fn command_text(tokens: &Vec<String>) -> (line: String)
    ensures
        line@ == join(tokens.deep_view(), " "@),
{
    assert(tokens.deep_view().skip(0) =~= tokens.deep_view());
    join_from(tokens, 0, " ")
}

/// What a run says of itself before the command starts: a title and four lines.
pub open spec fn banner_text(
    root: Seq<char>,
    dir: Seq<char>,
    feature: Seq<char>,
    command: Seq<char>,
) -> Seq<char> {
    "=== c2rust-test ===\nProject root: "@ + root + "\nTest directory (relative): "@ + dir
        + "\nFeature: "@ + feature + "\nCommand: "@ + command + "\n"@
}

/// What a run says of itself before the command starts.
pub fn banner(root: &str, dir: &str, feature: &str, command: &str) -> (text: String)
    ensures
        text@ == banner_text(root@, dir@, feature@, command@),
{
    let mut text = String::from_str("=== c2rust-test ===\nProject root: ");
    text.append(root);
    text.append("\nTest directory (relative): ");
    text.append(dir);
    text.append("\nFeature: ");
    text.append(feature);
    text.append("\nCommand: ");
    text.append(command);
    text.append("\n");
    text
}

/// A stage of a run, in the order of the run.
#[derive(Debug, Clone, Copy, PartialEq, Eq)]
pub enum Stage {
    /// Check that the configuration tool is there.
    CheckTool,
    /// Settle the feature, the directory and the command.
    Resolve,
    /// Run the command.
    Execute,
    /// Store the directory and the command.
    SaveConfig,
    /// Commit the side-car directory.
    AutoCommit,
}

/// The answer to a stage: the next one, or the end of the run.
#[derive(Debug, PartialEq, Eq)]
pub enum RunProgress {
    Next(Stage),
    Finished(Result<(), Error>),
}

/// What a `RunProgress` holds.
pub ghost enum RunProgressView {
    Next(Stage),
    Finished(Result<(), ErrorView>),
}

impl View for RunProgress {
    type V = RunProgressView;

    open spec fn view(&self) -> RunProgressView {
        match self {
            RunProgress::Next(stage) => RunProgressView::Next(*stage),
            RunProgress::Finished(Ok(())) => RunProgressView::Finished(Ok(())),
            RunProgress::Finished(Err(e)) => RunProgressView::Finished(Err(e@)),
        }
    }
}

impl Stage {
    /// How many stages follow this one in a run in which none fails.
    pub open spec fn stages_left(self) -> nat {
        match self {
            Stage::CheckTool => 4,
            Stage::Resolve => 3,
            Stage::Execute => 2,
            Stage::SaveConfig => 1,
            Stage::AutoCommit => 0,
        }
    }

    /// The stage that follows this one, if any.
    pub open spec fn successor(self) -> Option<Stage> {
        match self {
            Stage::CheckTool => Some(Stage::Resolve),
            Stage::Resolve => Some(Stage::Execute),
            Stage::Execute => Some(Stage::SaveConfig),
            Stage::SaveConfig => Some(Stage::AutoCommit),
            Stage::AutoCommit => None,
        }
    }
}

/// How the run goes on after `stage` ended with `result`. The last stage, the commit, is
/// a convenience: the run ends as a success however it went. A failure of any earlier
/// stage ends the run at once, with that failure. A success leads to the next stage.
pub open spec fn run_progress(stage: Stage, result: Result<(), ErrorView>) -> RunProgressView {
    match stage.successor() {
        None => RunProgressView::Finished(Ok(())),
        Some(next) => match result {
            Ok(()) => RunProgressView::Next(next),
            Err(e) => RunProgressView::Finished(Err(e)),
        },
    }
}

/// How the run goes on after `stage` ended with `result`.
pub fn after_stage(stage: Stage, result: Result<(), Error>) -> (p: RunProgress)
    ensures
        p@ == run_progress(
            stage,
            match result {
                Ok(()) => Ok(()),
                Err(e) => Err(e@),
            },
        ),
        p matches RunProgress::Next(next) ==> next.stages_left() < stage.stages_left(),
{
    match stage {
        Stage::AutoCommit => RunProgress::Finished(Ok(())),
        _ => match result {
            Err(e) => RunProgress::Finished(Err(e)),
            Ok(()) => match stage {
                Stage::CheckTool => RunProgress::Next(Stage::Resolve),
                Stage::Resolve => RunProgress::Next(Stage::Execute),
                Stage::Execute => RunProgress::Next(Stage::SaveConfig),
                _ => RunProgress::Next(Stage::AutoCommit),
            },
        },
    }
}

/// What is said when `stage` has succeeded, if anything.
pub fn stage_note(stage: Stage) -> (note: Option<String>)
    ensures
        note.deep_view() == match stage {
            Stage::Execute => Some("Test command executed successfully."@),
            Stage::SaveConfig => Some("✓ Configuration saved."@),
            _ => None,
        },
{
    match stage {
        Stage::Execute => Some(String::from_str("Test command executed successfully.")),
        Stage::SaveConfig => Some(String::from_str("✓ Configuration saved.")),
        _ => None,
    }
}

} // verus!
