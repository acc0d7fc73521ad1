//! Values as the configuration tool writes them, quoted and escaped, and the calls of the
//! tool: the arguments of each call, and what its outcome means.
//!
//! Starting the tool is the caller's part. It hands the arguments that this module builds to
//! the tool and reports how the call ended.

use crate::error::{outcome_view, Error, ErrorView};
use crate::settings::{config_of_text, parse_settings};
use crate::text::{chars_of, followed_by, push_text, scan_out, string_of, strip_bounds};
use crate::text::{is_space, lemma_span_out_is, lemma_strip_all, span_out, trim, CharClass};
use vstd::prelude::*;
use vstd::string::StringExecFns;

verus! {

/// The character that a backslash followed by `c` stands for inside a value quoted with
/// `quote`, if the pair is an escape sequence.
pub open spec fn escape_target(c: char, quote: char) -> Option<char> {
    if c == '\\' {
        Some('\\')
    } else if c == 'n' {
        Some('\n')
    } else if c == 'r' {
        Some('\r')
    } else if c == 't' {
        Some('\t')
    } else if c == '"' && quote == '"' {
        Some('"')
    } else if c == '\'' && quote == '\'' {
        Some('\'')
    } else {
        None
    }
}

/// `s` with each escape sequence replaced by the character it stands for. A backslash that
/// starts no escape sequence stays, and so does the character after it.
pub open spec fn unescape(s: Seq<char>, quote: char) -> Seq<char>
    decreases s.len(),
{
    if s.len() == 0 {
        Seq::empty()
    } else if s[0] == '\\' && s.len() >= 2 && escape_target(s[1], quote) is Some {
        seq![escape_target(s[1], quote)->0] + unescape(s.skip(2), quote)
    } else {
        seq![s[0]] + unescape(s.skip(1), quote)
    }
}

/// Whether `c` is one of the two quote characters.
pub open spec fn is_quote(c: char) -> bool {
    c == '"' || c == '\''
}

/// Whether `s` begins with a quote character and ends with the same one, the two being
/// different characters of `s`.
pub open spec fn is_quoted(s: Seq<char>) -> bool {
    s.len() >= 2 && is_quote(s.first()) && s.last() == s.first()
}

/// The value that `s` denotes: what stands between the quotes, unescaped, where `s` is
/// quoted, and `s` itself where it is not.
pub open spec fn unquote(s: Seq<char>) -> Seq<char> {
    if is_quoted(s) {
        unescape(s.subrange(1, s.len() - 1), s.first())
    } else {
        s
    }
}

/// The value of a line `key = value`: what follows the first `=`, trimmed and unquoted.
/// A line without `=` has none, and neither has one whose value is empty.
pub open spec fn config_value(line: Seq<char>) -> Option<Seq<char>> {
    let eq = span_out(line, CharClass::Only('='));
    if eq >= line.len() {
        None
    } else {
        let value = unquote(trim(line.skip((eq + 1) as int)));
        if value.len() == 0 {
            None
        } else {
            Some(value)
        }
    }
}

/// Whether an escape sequence begins at position `i` of `s`.
pub open spec fn escape_at(s: Seq<char>, i: int, quote: char) -> bool {
    0 <= i && i + 1 < s.len() && s[i] == '\\' && escape_target(s[i + 1], quote) is Some
}

/// Whether `s` holds an escape sequence.
pub open spec fn has_escape(s: Seq<char>, quote: char) -> bool {
    exists|i: int| escape_at(s, i, quote)
}

/// Unescaping never lengthens a text, and shortens one that holds an escape sequence.
pub proof fn lemma_unescape_len(s: Seq<char>, quote: char)
    ensures
        unescape(s, quote).len() <= s.len(),
        has_escape(s, quote) ==> unescape(s, quote).len() < s.len(),
    decreases s.len(),
{
    if escape_at(s, 0, quote) {
        lemma_unescape_len(s.skip(2), quote);
    } else if s.len() > 0 {
        lemma_unescape_len(s.skip(1), quote);
        if has_escape(s, quote) {
            let i = choose|i: int| escape_at(s, i, quote);
            assert(escape_at(s.skip(1), i - 1, quote));
        }
    }
}

/// Unescaping returns the text itself exactly where the text holds no escape sequence.
pub proof fn lemma_unescape_identity(s: Seq<char>, quote: char)
    ensures
        unescape(s, quote) == s <==> !has_escape(s, quote),
    decreases s.len(),
{
    lemma_unescape_len(s, quote);
    if s.len() == 0 {
        assert(unescape(s, quote) =~= s);
    } else if !has_escape(s, quote) {
        assert(!escape_at(s, 0, quote));
        assert forall|i: int| !escape_at(s.skip(1), i, quote) by {
            if escape_at(s.skip(1), i, quote) {
                assert(escape_at(s, i + 1, quote));
            }
        }
        lemma_unescape_identity(s.skip(1), quote);
        assert(seq![s[0]] + s.skip(1) =~= s);
    }
}

/// A backslash and a character that form an escape sequence become the one character
/// that the sequence stands for: `\\` a backslash, `\n` a line feed, `\r` a carriage
/// return, `\t` a tab, and the escaped quote character that quote character.
pub proof fn lemma_unescape_sequence(c: char, rest: Seq<char>, quote: char)
    requires
        escape_target(c, quote) is Some,
    ensures
        unescape(seq!['\\', c] + rest, quote) == seq![escape_target(c, quote)->0] + unescape(
            rest,
            quote,
        ),
        escape_target('\\', quote) == Some('\\'),
        escape_target('n', quote) == Some('\n'),
        escape_target('r', quote) == Some('\r'),
        escape_target('t', quote) == Some('\t'),
        is_quote(quote) ==> escape_target(quote, quote) == Some(quote),
{
    assert((seq!['\\', c] + rest).skip(2) =~= rest);
}

/// A backslash before a character that forms no escape sequence with it stays, and so
/// does the character. Such a character is none of `\`, `n`, `r`, `t`, nor the quote
/// character of the value.
pub proof fn lemma_unescape_other(c: char, rest: Seq<char>, quote: char)
    requires
        escape_target(c, quote) is None,
    ensures
        unescape(seq!['\\', c] + rest, quote) == seq!['\\', c] + unescape(rest, quote),
        unescape(seq!['\\'], quote) == seq!['\\'],
        c != '\\' && c != 'n' && c != 'r' && c != 't',
        is_quote(quote) ==> c != quote,
{
    let s = seq!['\\', c] + rest;
    assert(s.skip(1) =~= seq![c] + rest);
    lemma_unescape_literal(c, rest, quote);
    let single = seq!['\\'];
    assert(unescape(single, quote) == seq![single[0]] + unescape(single.skip(1), quote));
}

/// A character other than the backslash stands for itself.
pub proof fn lemma_unescape_literal(c: char, rest: Seq<char>, quote: char)
    requires
        c != '\\',
    ensures
        unescape(seq![c] + rest, quote) == seq![c] + unescape(rest, quote),
{
    assert((seq![c] + rest).skip(1) =~= rest);
}

/// A value between two quote characters of one kind denotes what stands between them,
/// unescaped: exactly that text where it holds no escape sequence.
pub proof fn lemma_unquote_quoted(v: Seq<char>, quote: char)
    requires
        is_quote(quote),
    ensures
        unquote(seq![quote] + v + seq![quote]) == unescape(v, quote),
        !has_escape(v, quote) ==> unquote(seq![quote] + v + seq![quote]) == v,
{
    let s = seq![quote] + v + seq![quote];
    assert(s.subrange(1, s.len() - 1) =~= v);
    lemma_unescape_identity(v, quote);
}

/// A line whose value, the part behind the first `=`, is empty or holds whitespace only
/// has no value; nor has a line without `=`.
pub proof fn lemma_blank_value_absent(line: Seq<char>)
    requires
        forall|i: int| span_out(line, CharClass::Only('=')) < i < line.len() ==> is_space(line[i]),
    ensures
        config_value(line) is None,
{
    let eq = span_out(line, CharClass::Only('=')) as int;
    if eq < line.len() {
        let rest = line.skip(eq + 1);
        lemma_strip_all(rest, CharClass::Whitespace);
    }
}

/// Only the first `=` of a line parts the key from the value: behind a key that holds no
/// `=`, all that follows the `=` is the value, with every further `=` in it.
pub proof fn lemma_value_follows_first_equals(key: Seq<char>, rest: Seq<char>)
    requires
        !key.contains('='),
    ensures
        config_value(key + seq!['='] + rest) == if unquote(trim(rest)).len() == 0 {
            None
        } else {
            Some(unquote(trim(rest)))
        },
{
    let line = key + seq!['='] + rest;
    lemma_span_out_is(line, CharClass::Only('='), key.len() as int);
    assert(line.skip(key.len() as int + 1) =~= rest);
}

/// The character that a backslash followed by `c` stands for, if any.
fn escape_replacement(c: char, quote: char) -> (r: Option<char>)
    ensures
        r == escape_target(c, quote),
{
    if c == '\\' {
        Some('\\')
    } else if c == 'n' {
        Some('\n')
    } else if c == 'r' {
        Some('\r')
    } else if c == 't' {
        Some('\t')
    } else if c == '"' && quote == '"' {
        Some('"')
    } else if c == '\'' && quote == '\'' {
        Some('\'')
    } else {
        None
    }
}

/// Unescapes `v[from..to]`, the inside of a value quoted with `quote`.
pub(crate) fn unescape_range(v: &Vec<char>, from: usize, to: usize, quote: char) -> (r: String)
    requires
        from <= to <= v.len(),
    ensures
        r@ == unescape(v@.subrange(from as int, to as int), quote),
{
    let mut out = String::new();
    let mut i: usize = from;
    while i < to
        invariant
            from <= i <= to <= v.len(),
            unescape(v@.subrange(from as int, to as int), quote) == out@ + unescape(
                v@.subrange(i as int, to as int),
                quote,
            ),
        decreases to - i,
    {
        let ghost rest = v@.subrange(i as int, to as int);
        let c = v[i];
        let replaced = if c == '\\' && i + 1 < to {
            escape_replacement(v[i + 1], quote)
        } else {
            None
        };
        match replaced {
            Some(rc) => {
                out.push(rc);
                i += 2;
                proof {
                    assert(rest.skip(2) =~= v@.subrange(i as int, to as int));
                }
            },
            None => {
                out.push(c);
                i += 1;
                proof {
                    assert(rest.skip(1) =~= v@.subrange(i as int, to as int));
                }
            },
        }
    }
    out
}

/// Replaces the escape sequences of `s`, the inside of a value quoted with `quote`:
/// `\\`, `\n`, `\r`, `\t` and the escaped quote character. Any other backslash stays.
pub fn unescape_quoted(s: &str, quote: char) -> (r: String)
    ensures
        r@ == unescape(s@, quote),
{
    let v = chars_of(s);
    assert(v@.subrange(0, v@.len() as int) =~= v@);
    unescape_range(&v, 0, v.len(), quote)
}

/// The value that `v[from..to]` denotes.
pub(crate) fn unquote_range(v: &Vec<char>, from: usize, to: usize) -> (r: String)
    requires
        from <= to <= v.len(),
    ensures
        r@ == unquote(v@.subrange(from as int, to as int)),
{
    let ghost s = v@.subrange(from as int, to as int);
    if to - from >= 2 {
        let first = v[from];
        let last = v[to - 1];
        if (first == '"' && last == '"') || (first == '\'' && last == '\'') {
            assert(s.subrange(1, s.len() - 1) =~= v@.subrange(from + 1, to - 1));
            return unescape_range(v, from + 1, to - 1, first);
        }
    }
    string_of(v, from, to)
}

/// Removes the quotes around `s` and replaces the escape sequences between them. A string
/// that is not quoted comes back unchanged.
pub fn remove_quotes(s: &str) -> (r: String)
    ensures
        r@ == unquote(s@),
{
    let v = chars_of(s);
    assert(v@.subrange(0, v@.len() as int) =~= v@);
    unquote_range(&v, 0, v.len())
}

/// The value of the line `v[from..to]`.
pub(crate) fn value_in(v: &Vec<char>, from: usize, to: usize) -> (r: Option<String>)
    requires
        from <= to <= v.len(),
    ensures
        r.deep_view() == config_value(v@.subrange(from as int, to as int)),
{
    let ghost line = v@.subrange(from as int, to as int);
    let eq = scan_out(v, from, to, CharClass::Only('='));
    if eq >= to {
        return None;
    }
    assert(line.skip(eq - from + 1) =~= v@.subrange(eq + 1, to as int));
    let (a, b) = strip_bounds(v, eq + 1, to, CharClass::Whitespace);
    let value = unquote_range(v, a, b);
    if value.as_str().is_empty() {
        None
    } else {
        Some(value)
    }
}

/// The value of a line `key = value`, unquoted and unescaped; `None` where the line has no
/// `=` or the value is empty.
pub fn extract_config_value(line: &str) -> (r: Option<String>)
    ensures
        r.deep_view() == config_value(line@),
        r matches Some(value) ==> value@.len() > 0,
{
    let v = chars_of(line);
    assert(v@.subrange(0, v@.len() as int) =~= v@);
    value_in(&v, 0, v.len())
}

/// The settings that the configuration tool holds for the test step.
#[derive(Debug, Clone, PartialEq, Eq)]
pub struct TestConfig {
    /// The directory in which the test command runs.
    pub dir: Option<String>,
    /// The test command, as one line.
    pub command: Option<String>,
}

/// What a `TestConfig` holds, as sequences of characters.
pub ghost struct ConfigView {
    pub dir: Option<Seq<char>>,
    pub command: Option<Seq<char>>,
}

impl View for TestConfig {
    type V = ConfigView;

    open spec fn view(&self) -> ConfigView {
        ConfigView { dir: self.dir.deep_view(), command: self.command.deep_view() }
    }
}

/// The configuration in which nothing is set.
pub open spec fn empty_config() -> ConfigView {
    ConfigView { dir: None, command: None }
}

impl Default for TestConfig {
    fn default() -> (r: TestConfig)
        ensures
            r@ == empty_config(),
    {
        TestConfig { dir: None, command: None }
    }
}

/// The name under which the configuration tool is looked for on the search path.
pub const DEFAULT_TOOL: &'static str = "c2rust-config";

/// The environment variable that names another path for the configuration tool.
pub const TOOL_PATH_VARIABLE: &'static str = "C2RUST_CONFIG";

/// The path of the configuration tool: the overriding one where there is one, whatever it
/// holds, and the default name otherwise.
pub fn tool_path(override_path: Option<String>) -> (path: String)
    ensures
        path@ == match override_path {
            Some(p) => p@,
            None => DEFAULT_TOOL@,
        },
{
    match override_path {
        Some(p) => p,
        None => String::from_str(DEFAULT_TOOL),
    }
}

/// One of the two settings that the test step stores.
#[derive(Debug, Clone, Copy, PartialEq, Eq)]
pub enum Setting {
    /// The test directory, under the key `test.dir`.
    Dir,
    /// The test command, under the key `test.cmd`.
    Command,
}

impl Setting {
    /// The key under which the tool holds the setting.
    pub open spec fn key(self) -> Seq<char> {
        match self {
            Setting::Dir => "test.dir"@,
            Setting::Command => "test.cmd"@,
        }
    }

    /// What the setting is called in a report.
    pub open spec fn label(self) -> Seq<char> {
        match self {
            Setting::Dir => "test.dir"@,
            Setting::Command => "test command"@,
        }
    }
}

/// How a call of the configuration tool ended.
#[derive(Debug, Clone, PartialEq, Eq)]
pub enum ToolOutcome {
    /// The tool could not be started; the reason.
    NotStarted(String),
    /// The tool ran: whether it reported success, and what it printed.
    Exited { success: bool, stdout: String, stderr: String },
}

/// What a `ToolOutcome` holds, as sequences of characters.
pub ghost enum ToolOutcomeView {
    NotStarted(Seq<char>),
    Exited { success: bool, stdout: Seq<char>, stderr: Seq<char> },
}

impl View for ToolOutcome {
    type V = ToolOutcomeView;

    open spec fn view(&self) -> ToolOutcomeView {
        match self {
            ToolOutcome::NotStarted(reason) => ToolOutcomeView::NotStarted(reason@),
            ToolOutcome::Exited { success, stdout, stderr } => ToolOutcomeView::Exited {
                success: *success,
                stdout: stdout@,
                stderr: stderr@,
            },
        }
    }
}

/// Whether the tool ran and reported success.
pub open spec fn succeeded(outcome: ToolOutcomeView) -> bool {
    outcome matches ToolOutcomeView::Exited { success, .. } && success
}

/// The arguments that select a feature, if one is named.
pub open spec fn feature_arguments(feature: Option<Seq<char>>) -> Seq<Seq<char>> {
    match feature {
        Some(f) => seq!["--feature"@, f],
        None => Seq::empty(),
    }
}

/// The arguments with which the tool shows that it is there.
pub open spec fn probe_arguments() -> Seq<Seq<char>> {
    seq!["--help"@]
}

/// The arguments with which the tool stores `value` as `setting`.
pub open spec fn save_arguments(
    setting: Setting,
    value: Seq<char>,
    feature: Option<Seq<char>>,
) -> Seq<Seq<char>> {
    seq!["config"@, "--make"@] + feature_arguments(feature) + seq!["--set"@, setting.key(), value]
}

/// The arguments with which the tool lists its settings.
pub open spec fn list_arguments(feature: Option<Seq<char>>) -> Seq<Seq<char>> {
    seq!["config"@, "--make"@] + feature_arguments(feature) + seq!["--list"@]
}

/// The failure of a call that could not be started.
pub open spec fn not_started_text(reason: Seq<char>) -> Seq<char> {
    "Failed to execute c2rust-config: "@ + reason
}

/// What the outcome of the probe means: the tool is there exactly where it ran and
/// reported success.
pub open spec fn probe_meaning(outcome: ToolOutcomeView) -> Result<(), ErrorView> {
    if succeeded(outcome) {
        Ok(())
    } else {
        Err(ErrorView::ConfigToolNotFound)
    }
}

/// What the outcome of storing `setting` means: the setting is stored exactly where the
/// tool ran and reported success. Otherwise the failure holds what the tool wrote to its
/// error stream, or why it did not start.
pub open spec fn save_meaning(setting: Setting, outcome: ToolOutcomeView) -> Result<
    (),
    ErrorView,
> {
    match outcome {
        ToolOutcomeView::NotStarted(reason) => Err(
            ErrorView::ConfigSaveFailed(not_started_text(reason)),
        ),
        ToolOutcomeView::Exited { success, stderr, .. } => if success {
            Ok(())
        } else {
            Err(ErrorView::ConfigSaveFailed("Failed to save "@ + setting.label() + ": "@ + stderr))
        },
    }
}

/// What the outcome of listing the settings means. After a success the settings are
/// those of what the tool printed, be it a listing or a brace blob on one line. A tool that ran
/// without success has no settings yet, which is no failure; one that did not start is
/// one.
pub open spec fn read_meaning(outcome: ToolOutcomeView) -> Result<ConfigView, ErrorView> {
    match outcome {
        ToolOutcomeView::NotStarted(reason) => Err(
            ErrorView::ConfigReadFailed(not_started_text(reason)),
        ),
        ToolOutcomeView::Exited { success, stdout, .. } => if success {
            Ok(config_of_text(stdout))
        } else {
            Ok(empty_config())
        },
    }
}

/// After `setting` was stored, what is left to store.
pub open spec fn next_setting(setting: Setting) -> Option<Setting> {
    match setting {
        Setting::Dir => Some(Setting::Command),
        Setting::Command => None,
    }
}

/// The answer to a call that stored a setting: the setting to store next, or the end of
/// the saving.
#[derive(Debug, PartialEq, Eq)]
pub enum SaveProgress {
    Next(Setting),
    Finished(Result<(), Error>),
}

/// What a `SaveProgress` holds.
pub ghost enum SaveProgressView {
    Next(Setting),
    Finished(Result<(), ErrorView>),
}

impl View for SaveProgress {
    type V = SaveProgressView;

    open spec fn view(&self) -> SaveProgressView {
        match self {
            SaveProgress::Next(setting) => SaveProgressView::Next(*setting),
            SaveProgress::Finished(Ok(())) => SaveProgressView::Finished(Ok(())),
            SaveProgress::Finished(Err(e)) => SaveProgressView::Finished(Err(e@)),
        }
    }
}

/// How the saving goes on after the call for `setting` ended with `outcome`: the first
/// failure ends it, and so does the success of the last call.
pub open spec fn save_progress(setting: Setting, outcome: ToolOutcomeView) -> SaveProgressView {
    match (save_meaning(setting, outcome), next_setting(setting)) {
        (Err(e), _) => SaveProgressView::Finished(Err(e)),
        (Ok(()), Some(next)) => SaveProgressView::Next(next),
        (Ok(()), None) => SaveProgressView::Finished(Ok(())),
    }
}

/// Saving needs both calls to succeed: the saving goes on to the command exactly where
/// storing the directory succeeded, ends well exactly where storing the command succeeded,
/// and ends with a failure in every other case.
pub proof fn lemma_save_needs_both(setting: Setting, outcome: ToolOutcomeView)
    ensures
        save_progress(Setting::Dir, outcome) == SaveProgressView::Next(Setting::Command)
            <==> succeeded(outcome),
        save_progress(Setting::Command, outcome) == SaveProgressView::Finished(Ok(()))
            <==> succeeded(outcome),
        !succeeded(outcome) ==> save_progress(setting, outcome) matches SaveProgressView::Finished(
            Err(_),
        ),
{
}

/// Appends the arguments that select `feature`.
fn push_feature(args: &mut Vec<String>, feature: Option<&str>)
    ensures
        final(args).deep_view() == old(args).deep_view() + feature_arguments(feature.deep_view()),
{
    if let Some(f) = feature {
        push_text(args, "--feature");
        push_text(args, f);
    }
}

/// The arguments with which the tool shows that it is there.
pub fn probe_args() -> (args: Vec<String>)
    ensures
        args.deep_view() == probe_arguments(),
{
    let mut args: Vec<String> = Vec::new();
    push_text(&mut args, "--help");
    args
}

/// The arguments with which the tool stores `value` as `setting`, for `feature` where one
/// is named.
pub fn save_args(setting: Setting, value: &str, feature: Option<&str>) -> (args: Vec<String>)
    ensures
        args.deep_view() == save_arguments(setting, value@, feature.deep_view()),
{
    let mut args: Vec<String> = Vec::new();
    push_text(&mut args, "config");
    push_text(&mut args, "--make");
    push_feature(&mut args, feature);
    push_text(&mut args, "--set");
    match setting {
        Setting::Dir => push_text(&mut args, "test.dir"),
        Setting::Command => push_text(&mut args, "test.cmd"),
    }
    push_text(&mut args, value);
    args
}

/// The arguments with which the tool lists its settings, for `feature` where one is
/// named.
pub fn list_args(feature: Option<&str>) -> (args: Vec<String>)
    ensures
        args.deep_view() == list_arguments(feature.deep_view()),
{
    let mut args: Vec<String> = Vec::new();
    push_text(&mut args, "config");
    push_text(&mut args, "--make");
    push_feature(&mut args, feature);
    push_text(&mut args, "--list");
    args
}

/// What the outcome of the probe means.
pub fn probe_result(outcome: &ToolOutcome) -> (r: Result<(), Error>)
    ensures
        outcome_view(r) == probe_meaning(outcome@),
{
    match outcome {
        ToolOutcome::Exited { success: true, .. } => Ok(()),
        _ => Err(Error::ConfigToolNotFound),
    }
}

/// What the outcome of storing `setting` means.
pub fn save_result(setting: Setting, outcome: &ToolOutcome) -> (r: Result<(), Error>)
    ensures
        outcome_view(r) == save_meaning(setting, outcome@),
{
    match outcome {
        ToolOutcome::NotStarted(reason) => Err(
            Error::ConfigSaveFailed(
                followed_by("Failed to execute c2rust-config: ", reason.as_str()),
            ),
        ),
        ToolOutcome::Exited { success, stderr, .. } => {
            if *success {
                Ok(())
            } else {
                let mut msg = String::from_str("Failed to save ");
                match setting {
                    Setting::Dir => msg.append("test.dir"),
                    Setting::Command => msg.append("test command"),
                }
                msg.append(": ");
                msg.append(stderr.as_str());
                Err(Error::ConfigSaveFailed(msg))
            }
        },
    }
}

/// How the saving goes on after the call for `setting` ended with `outcome`.
pub fn after_save(setting: Setting, outcome: &ToolOutcome) -> (p: SaveProgress)
    ensures
        p@ == save_progress(setting, outcome@),
{
    match save_result(setting, outcome) {
        Err(e) => SaveProgress::Finished(Err(e)),
        Ok(()) => match setting {
            Setting::Dir => SaveProgress::Next(Setting::Command),
            Setting::Command => SaveProgress::Finished(Ok(())),
        },
    }
}

/// What the outcome of listing the settings means.
pub fn read_result(outcome: &ToolOutcome) -> (r: Result<TestConfig, Error>)
    ensures
        match r {
            Ok(config) => read_meaning(outcome@) == Ok::<ConfigView, ErrorView>(config@),
            Err(e) => read_meaning(outcome@) == Err::<ConfigView, ErrorView>(e@),
        },
{
    match outcome {
        ToolOutcome::NotStarted(reason) => Err(
            Error::ConfigReadFailed(
                followed_by("Failed to execute c2rust-config: ", reason.as_str()),
            ),
        ),
        ToolOutcome::Exited { success, stdout, .. } => {
            if *success {
                Ok(parse_settings(stdout.as_str()))
            } else {
                Ok(TestConfig::default())
            }
        },
    }
}

} // verus!
