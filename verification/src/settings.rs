//! Reading the two settings of the test step out of a text: out of the listing that the
//! configuration tool prints, one setting to a line, and out of a brace blob, which holds
//! the settings between braces with commas between them.

use crate::config_helper::{config_value, empty_config, value_in};
use crate::config_helper::{ConfigView, Setting, TestConfig};
use crate::nesting::{closed, lemma_top_split_join, top_level_ranges, top_split};
use crate::text::{chars_of, range_is, range_starts_with, scan_out, split_ranges, string_of};
use crate::text::{has_char, join, pieces, ranges_within, span_out, split_on, strip, trim};
use crate::text::{strip_bounds, strip_start, CharClass};
use vstd::prelude::*;
use vstd::string::StringExecFns;

verus! {

/// The two forms of text that hold settings.
#[derive(Debug, Clone, Copy, PartialEq, Eq)]
pub enum Syntax {
    /// The tool's listing: the keys are `test.dir` and `test.cmd`.
    Listing,
    /// A brace blob: the keys are `dir` and `cmd`, and the long forms `test.dir` and
    /// `test.cmd` are understood too.
    Blob,
}

/// The setting that the key `key` names in a text of the form `syntax`, if it names one.
pub open spec fn field_of(key: Seq<char>, syntax: Syntax) -> Option<Setting> {
    if key == "test.dir"@ {
        Some(Setting::Dir)
    } else if key == "test.cmd"@ {
        Some(Setting::Command)
    } else if syntax == Syntax::Blob && key == "dir"@ {
        Some(Setting::Dir)
    } else if syntax == Syntax::Blob && key == "cmd"@ {
        Some(Setting::Command)
    } else {
        None
    }
}

/// The key of `piece`, a trimmed line or entry: what stands before the first `=`,
/// trimmed, and then freed of the double quotes and of the single quotes around it.
pub open spec fn line_key(piece: Seq<char>) -> Seq<char> {
    let eq = span_out(piece, CharClass::Only('=')) as int;
    strip(strip(trim(piece.take(eq)), CharClass::Only('"')), CharClass::Only('\''))
}

/// The setting that `piece` makes, a line of the listing or an entry of a blob: the one
/// that its key names, with its value. A piece without `=`, with another key, or with an
/// empty value makes none.
pub open spec fn setting_of(piece: Seq<char>, syntax: Syntax) -> Option<(Setting, Seq<char>)> {
    let t = trim(piece);
    match (field_of(line_key(t), syntax), config_value(t)) {
        (Some(field), Some(value)) => Some((field, value)),
        _ => None,
    }
}

/// The configuration `acc` after `setting` was made.
pub open spec fn with_setting(
    acc: ConfigView,
    setting: Option<(Setting, Seq<char>)>,
) -> ConfigView {
    match setting {
        Some((Setting::Dir, value)) => ConfigView { dir: Some(value), ..acc },
        Some((Setting::Command, value)) => ConfigView { command: Some(value), ..acc },
        None => acc,
    }
}

/// The configuration that the pieces make, read from the first to the last: of two
/// pieces that make one setting the later one counts.
pub open spec fn config_of_pieces(parts: Seq<Seq<char>>, syntax: Syntax) -> ConfigView
    decreases parts.len(),
{
    if parts.len() == 0 {
        empty_config()
    } else {
        with_setting(
            config_of_pieces(parts.drop_last(), syntax),
            setting_of(parts.last(), syntax),
        )
    }
}

/// The configuration that the tool's listing `text` holds: that of its lines.
pub open spec fn config_of_output(text: Seq<char>) -> ConfigView {
    config_of_pieces(split_on(text, '\n'), Syntax::Listing)
}

/// What stands between the braces of `blob`, where `blob`, trimmed, begins with `{` and
/// ends with `}`.
pub open spec fn blob_inner(blob: Seq<char>) -> Option<Seq<char>> {
    let t = trim(blob);
    if t.len() >= 2 && t.first() == '{' && t.last() == '}' {
        Some(t.subrange(1, t.len() - 1))
    } else {
        None
    }
}

/// The configuration that `blob` holds: that of the entries between its braces, which
/// commas at the top level part. A text without the braces holds none.
pub open spec fn config_of_blob(blob: Seq<char>) -> ConfigView {
    match blob_inner(blob) {
        Some(inner) => config_of_pieces(top_split(inner), Syntax::Blob),
        None => empty_config(),
    }
}

/// Whether `text` is a brace blob on one line: trimmed, it is enclosed in braces and
/// holds no line feed.
pub open spec fn is_blob_line(text: Seq<char>) -> bool {
    blob_inner(text) is Some && !has_char(trim(text), '\n')
}

/// The configuration that a text of the tool holds, in whichever of the two forms it is
/// written: that of the blob where the text is a brace blob on one line, and that of the
/// listing's lines otherwise. A text of several lines is a listing, also where braces
/// enclose it.
pub open spec fn config_of_text(text: Seq<char>) -> ConfigView {
    if is_blob_line(text) {
        config_of_blob(text)
    } else {
        config_of_output(text)
    }
}

/// Whether `key` begins with `test` and names no setting of the listing: most likely a
/// misspelt key.
pub open spec fn is_near_miss(key: Seq<char>) -> bool {
    "test"@.is_prefix_of(key) && field_of(key, Syntax::Listing) is None
}

/// The keys of the lines among `lines` that hold `=` and a near-miss key, in their order.
pub open spec fn near_miss_keys(lines: Seq<Seq<char>>) -> Seq<Seq<char>>
    decreases lines.len(),
{
    if lines.len() == 0 {
        Seq::empty()
    } else {
        let t = trim(lines.last());
        if has_char(t, '=') && is_near_miss(line_key(t)) {
            near_miss_keys(lines.drop_last()).push(line_key(t))
        } else {
            near_miss_keys(lines.drop_last())
        }
    }
}

/// What `config` holds for `field`.
pub open spec fn field_value(config: ConfigView, field: Setting) -> Option<Seq<char>> {
    match field {
        Setting::Dir => config.dir,
        Setting::Command => config.command,
    }
}

/// The setting that `piece` makes, without its value.
pub open spec fn field_made(piece: Seq<char>, syntax: Syntax) -> Option<Setting> {
    match setting_of(piece, syntax) {
        Some((field, _)) => Some(field),
        None => None,
    }
}

/// Whether the pieces agree: any two of them that make one setting give it one value.
pub open spec fn agree(parts: Seq<Seq<char>>, syntax: Syntax) -> bool {
    forall|i: int, j: int|
        #![trigger parts[i], parts[j]]
        0 <= i < parts.len() && 0 <= j < parts.len() && field_made(parts[i], syntax) is Some
            && field_made(parts[i], syntax) == field_made(parts[j], syntax) ==> setting_of(
            parts[i],
            syntax,
        ) == setting_of(parts[j], syntax)
}

/// Whether the piece at `i` makes the setting `field` with the value `value`.
pub open spec fn makes(
    parts: Seq<Seq<char>>,
    syntax: Syntax,
    i: int,
    field: Setting,
    value: Seq<char>,
) -> bool {
    0 <= i < parts.len() && setting_of(parts[i], syntax) == Some((field, value))
}

/// Whether `result` is what the pieces make of `field`: the value of the last piece
/// that makes the setting, or nothing where no piece makes it.
pub open spec fn last_made(
    parts: Seq<Seq<char>>,
    syntax: Syntax,
    field: Setting,
    result: Option<Seq<char>>,
) -> bool {
    match result {
        Some(value) => exists|i: int|
            {
                &&& #[trigger] makes(parts, syntax, i, field, value)
                &&& forall|j: int, other: Seq<char>|
                    i < j ==> !#[trigger] makes(parts, syntax, j, field, other)
            },
        None => forall|i: int, value: Seq<char>| !#[trigger] makes(parts, syntax, i, field, value),
    }
}

/// The configuration of some pieces holds, for each setting, the value of the last piece
/// that makes the setting, and nothing where no piece makes it.
pub proof fn lemma_config_field(parts: Seq<Seq<char>>, syntax: Syntax, field: Setting)
    ensures
        last_made(parts, syntax, field, field_value(config_of_pieces(parts, syntax), field)),
    decreases parts.len(),
{
    if parts.len() > 0 {
        let front = parts.drop_last();
        let last = parts.len() - 1;
        lemma_config_field(front, syntax, field);
        match setting_of(parts.last(), syntax) {
            Some((f, v)) => {
                if f == field {
                    assert(makes(parts, syntax, last, field, v));
                } else {
                    lemma_config_field_kept(parts, syntax, field);
                }
            },
            None => {
                lemma_config_field_kept(parts, syntax, field);
            },
        }
    }
}

/// The step of `lemma_config_field` for a last piece that does not make the setting.
proof fn lemma_config_field_kept(parts: Seq<Seq<char>>, syntax: Syntax, field: Setting)
    requires
        parts.len() > 0,
        !(setting_of(parts.last(), syntax) matches Some((f, _)) && f == field),
        last_made(
            parts.drop_last(),
            syntax,
            field,
            field_value(config_of_pieces(parts.drop_last(), syntax), field),
        ),
    ensures
        last_made(parts, syntax, field, field_value(config_of_pieces(parts, syntax), field)),
{
    let front = parts.drop_last();
    let last = parts.len() - 1;
    assert forall|i: int, value: Seq<char>|
        makes(front, syntax, i, field, value) <==> (i < last && makes(
            parts,
            syntax,
            i,
            field,
            value,
        )) by {}
}

/// What is read out of a text that is no brace blob on one line: each setting has the
/// value of the last line that makes it, and none where no line makes it. This holds of
/// a listing whose lines stand between braces as of any other.
pub proof fn lemma_listing_fields(text: Seq<char>, field: Setting)
    requires
        !is_blob_line(text),
    ensures
        last_made(
            split_on(text, '\n'),
            Syntax::Listing,
            field,
            field_value(config_of_text(text), field),
        ),
{
    lemma_config_field(split_on(text, '\n'), Syntax::Listing, field);
}

/// Two sequences of pieces that hold the same pieces, the first of which agrees, give
/// one value to `field`.
proof fn lemma_same_field(
    a: Seq<Seq<char>>,
    b: Seq<Seq<char>>,
    syntax: Syntax,
    field: Setting,
)
    requires
        forall|x: Seq<char>| a.contains(x) <==> b.contains(x),
        agree(a, syntax),
    ensures
        field_value(config_of_pieces(a, syntax), field) == field_value(
            config_of_pieces(b, syntax),
            field,
        ),
{
    lemma_config_field(a, syntax, field);
    lemma_config_field(b, syntax, field);
    let in_a = field_value(config_of_pieces(a, syntax), field);
    let in_b = field_value(config_of_pieces(b, syntax), field);
    match in_b {
        Some(w) => {
            let k = choose|k: int| #[trigger] makes(b, syntax, k, field, w);
            assert(a.contains(b[k]));
            let m = choose|m: int| 0 <= m < a.len() && a[m] == b[k];
            assert(makes(a, syntax, m, field, w));
        },
        None => {
            if let Some(v) = in_a {
                let i = choose|i: int| #[trigger] makes(a, syntax, i, field, v);
                assert(b.contains(a[i]));
                let k = choose|k: int| 0 <= k < b.len() && b[k] == a[i];
                assert(makes(b, syntax, k, field, v));
            }
        },
    }
}

/// The order of the pieces does not matter: the same pieces in another order make the
/// same configuration, provided that they agree, so that no setting is made with two
/// values. This holds of the lines of a listing and of the entries of a blob.
pub proof fn lemma_order_independent(a: Seq<Seq<char>>, b: Seq<Seq<char>>, syntax: Syntax)
    requires
        a.to_multiset() == b.to_multiset(),
        agree(a, syntax),
    ensures
        config_of_pieces(a, syntax) == config_of_pieces(b, syntax),
{
    assert forall|x: Seq<char>| a.contains(x) <==> b.contains(x) by {
        a.to_multiset_ensures();
        b.to_multiset_ensures();
        assert(a.contains(x) <==> a.to_multiset().count(x) > 0);
        assert(b.contains(x) <==> b.to_multiset().count(x) > 0);
    }
    lemma_same_field(a, b, syntax, Setting::Dir);
    lemma_same_field(a, b, syntax, Setting::Command);
}

/// No configuration that is read out of pieces holds an empty value: a setting is there
/// with a value, or it is not there.
pub proof fn lemma_config_values_present(parts: Seq<Seq<char>>, syntax: Syntax)
    ensures
        config_of_pieces(parts, syntax).dir matches Some(dir) ==> dir.len() > 0,
        config_of_pieces(parts, syntax).command matches Some(command) ==> command.len() > 0,
    decreases parts.len(),
{
    if parts.len() > 0 {
        lemma_config_values_present(parts.drop_last(), syntax);
    }
}

/// The blob that holds `entries`: the entries with commas between them, in braces.
pub open spec fn blob_text(entries: Seq<Seq<char>>) -> Seq<char> {
    seq!['{'] + join(entries, seq![',']) + seq!['}']
}

/// The configuration of a blob is that of its entries, where each entry is closed: it
/// holds no comma at the top level and leaves nothing open.
pub proof fn lemma_blob_entries(entries: Seq<Seq<char>>)
    requires
        forall|i: int| 0 <= i < entries.len() ==> closed(#[trigger] entries[i]),
    ensures
        config_of_blob(blob_text(entries)) == config_of_pieces(entries, Syntax::Blob),
        !has_char(blob_text(entries), '\n') ==> config_of_text(blob_text(entries))
            == config_of_pieces(entries, Syntax::Blob),
        entries.len() == 0 ==> config_of_blob(blob_text(entries)) == empty_config(),
{
    let inner = join(entries, seq![',']);
    let blob = blob_text(entries);
    assert(trim(blob) =~= blob) by {
        assert(strip_start(blob, CharClass::Whitespace) =~= blob);
    }
    assert(blob_inner(blob) == Some(inner));
    if entries.len() == 0 {
        let only = seq![inner];
        assert(config_of_pieces(only, Syntax::Blob) == with_setting(
            config_of_pieces(only.drop_last(), Syntax::Blob),
            setting_of(inner, Syntax::Blob),
        ));
    } else {
        lemma_top_split_join(entries);
    }
}

/// The order of the entries of a blob does not matter: two blobs that hold the same
/// closed entries in different orders hold the same configuration, provided that the
/// entries agree, so that no setting is made with two values.
pub proof fn lemma_blob_order_independent(a: Seq<Seq<char>>, b: Seq<Seq<char>>)
    requires
        a.to_multiset() == b.to_multiset(),
        forall|i: int| 0 <= i < a.len() ==> closed(#[trigger] a[i]),
        agree(a, Syntax::Blob),
    ensures
        config_of_blob(blob_text(a)) == config_of_blob(blob_text(b)),
        !has_char(blob_text(a), '\n') && !has_char(blob_text(b), '\n') ==> config_of_text(
            blob_text(a),
        ) == config_of_text(blob_text(b)),
{
    assert forall|k: int| 0 <= k < b.len() implies closed(#[trigger] b[k]) by {
        a.to_multiset_ensures();
        b.to_multiset_ensures();
        assert(b.to_multiset().count(b[k]) > 0);
        assert(a.contains(b[k]));
    }
    lemma_blob_entries(a);
    lemma_blob_entries(b);
    lemma_order_independent(a, b, Syntax::Blob);
}

/// The setting that the key `v[from..to]` names in a text of the form `syntax`.
pub(crate) fn classify_key(v: &Vec<char>, from: usize, to: usize, syntax: Syntax) -> (field: Option<
    Setting,
>)
    requires
        from <= to <= v.len(),
    ensures
        field == field_of(v@.subrange(from as int, to as int), syntax),
{
    let long_dir = chars_of("test.dir");
    let long_cmd = chars_of("test.cmd");
    if range_is(v, from, to, &long_dir) {
        return Some(Setting::Dir);
    }
    if range_is(v, from, to, &long_cmd) {
        return Some(Setting::Command);
    }
    match syntax {
        Syntax::Listing => None,
        Syntax::Blob => {
            let dir = chars_of("dir");
            let cmd = chars_of("cmd");
            if range_is(v, from, to, &dir) {
                Some(Setting::Dir)
            } else if range_is(v, from, to, &cmd) {
                Some(Setting::Command)
            } else {
                None
            }
        },
    }
}

/// The range of the key of the piece `v[from..to]`, whose first `=` stands at `eq`, or
/// which holds none where `eq` is `to`.
fn key_bounds(v: &Vec<char>, from: usize, to: usize, eq: usize) -> (r: (usize, usize))
    requires
        from <= eq <= to <= v.len(),
        eq == from + span_out(v@.subrange(from as int, to as int), CharClass::Only('=')),
    ensures
        from <= r.0 <= r.1 <= eq,
        v@.subrange(r.0 as int, r.1 as int) == line_key(v@.subrange(from as int, to as int)),
{
    assert(v@.subrange(from as int, to as int).take(eq - from) =~= v@.subrange(
        from as int,
        eq as int,
    ));
    let (a, b) = strip_bounds(v, from, eq, CharClass::Whitespace);
    let (a, b) = strip_bounds(v, a, b, CharClass::Only('"'));
    strip_bounds(v, a, b, CharClass::Only('\''))
}

/// Reads the piece `v[from..to]` into `config`.
fn read_piece(v: &Vec<char>, from: usize, to: usize, syntax: Syntax, config: &mut TestConfig)
    requires
        from <= to <= v.len(),
    ensures
        final(config)@ == with_setting(
            old(config)@,
            setting_of(v@.subrange(from as int, to as int), syntax),
        ),
{
    let (a, b) = strip_bounds(v, from, to, CharClass::Whitespace);
    let eq = scan_out(v, a, b, CharClass::Only('='));
    if eq >= b {
        return ;
    }
    let (ka, kb) = key_bounds(v, a, b, eq);
    match classify_key(v, ka, kb, syntax) {
        Some(Setting::Dir) => {
            if let Some(value) = value_in(v, a, b) {
                config.dir = Some(value);
            }
        },
        Some(Setting::Command) => {
            if let Some(value) = value_in(v, a, b) {
                config.command = Some(value);
            }
        },
        None => {},
    }
}

/// Reads the pieces of `v` that `ranges` cuts out, from the first to the last.
fn read_pieces(v: &Vec<char>, ranges: &Vec<(usize, usize)>, syntax: Syntax) -> (config: TestConfig)
    requires
        ranges_within(ranges@, 0, v.len() as int),
    ensures
        config@ == config_of_pieces(pieces(v@, ranges@), syntax),
{
    let mut config = TestConfig::default();
    let mut k: usize = 0;
    let ghost all = pieces(v@, ranges@);
    while k < ranges.len()
        invariant
            0 <= k <= ranges.len(),
            all == pieces(v@, ranges@),
            ranges_within(ranges@, 0, v.len() as int),
            config@ == config_of_pieces(all.take(k as int), syntax),
        decreases ranges.len() - k,
    {
        let (from, to) = ranges[k];
        proof {
            assert(all.take(k + 1).drop_last() =~= all.take(k as int));
        }
        read_piece(v, from, to, syntax, &mut config);
        k += 1;
    }
    assert(all.take(k as int) =~= all);
    config
}

/// The range of what stands between the braces of `v`, where `v`, trimmed, is enclosed
/// in braces.
fn blob_bounds(v: &Vec<char>) -> (r: Option<(usize, usize)>)
    ensures
        match r {
            Some((from, to)) => from <= to <= v.len() && blob_inner(v@) == Some(
                v@.subrange(from as int, to as int),
            ),
            None => blob_inner(v@) is None,
        },
{
    assert(v@.subrange(0, v@.len() as int) =~= v@);
    let (a, b) = strip_bounds(v, 0, v.len(), CharClass::Whitespace);
    let ghost t = v@.subrange(a as int, b as int);
    assert(t.len() >= 2 ==> t.first() == v@[a as int] && t.last() == v@[b - 1]);
    if b - a >= 2 && v[a] == '{' && v[b - 1] == '}' {
        assert(t.subrange(1, t.len() - 1) =~= v@.subrange(a + 1, b - 1));
        Some((a + 1, b - 1))
    } else {
        None
    }
}

/// Whether `v`, trimmed, holds no line feed.
fn is_one_line(v: &Vec<char>) -> (b: bool)
    ensures
        b == !has_char(trim(v@), '\n'),
{
    assert(v@.subrange(0, v@.len() as int) =~= v@);
    let (a, b) = strip_bounds(v, 0, v.len(), CharClass::Whitespace);
    scan_out(v, a, b, CharClass::Only('\n')) >= b
}

/// Reads the lines of the listing `v`.
fn read_listing(v: &Vec<char>) -> (config: TestConfig)
    ensures
        config@ == config_of_output(v@),
{
    assert(v@.subrange(0, v@.len() as int) =~= v@);
    let lines = split_ranges(v, 0, v.len(), '\n');
    read_pieces(v, &lines, Syntax::Listing)
}

/// Reads the entries of a blob, which stand in `v[from..to]`.
fn read_entries(v: &Vec<char>, from: usize, to: usize) -> (config: TestConfig)
    requires
        from <= to <= v.len(),
    ensures
        config@ == config_of_pieces(
            top_split(v@.subrange(from as int, to as int)),
            Syntax::Blob,
        ),
{
    let entries = top_level_ranges(v, from, to);
    read_pieces(v, &entries, Syntax::Blob)
}

/// Reads the listing that the configuration tool prints, line by line. A line sets the
/// test directory where its key is `test.dir`, and the test command where it is
/// `test.cmd`; the key may be quoted. A line without `=`, with another key or with an
/// empty value changes nothing; of two lines for one setting the later one counts.
pub fn parse_config_output(text: &str) -> (config: TestConfig)
    ensures
        config@ == config_of_output(text@),
        config.dir matches Some(dir) ==> dir@.len() > 0,
        config.command matches Some(command) ==> command@.len() > 0,
{
    proof {
        lemma_config_values_present(split_on(text@, '\n'), Syntax::Listing);
    }
    let v = chars_of(text);
    read_listing(&v)
}

/// Reads a brace blob, such as `{ cmd = "make test", dir = "build" }`. Between the
/// braces, commas that stand neither in a quoted string nor in brackets part the
/// entries. An entry sets the test directory where its key is `dir` or `test.dir`, and
/// the test command where it is `cmd` or `test.cmd`; an entry with another key or with
/// an empty value changes nothing, and of two entries for one setting the later one
/// counts. A text that is not enclosed in braces holds no setting.
pub fn parse_brace_blob(blob: &str) -> (config: TestConfig)
    ensures
        config@ == config_of_blob(blob@),
        config.dir matches Some(dir) ==> dir@.len() > 0,
        config.command matches Some(command) ==> command@.len() > 0,
{
    proof {
        if blob_inner(blob@) is Some {
            lemma_config_values_present(top_split(blob_inner(blob@)->0), Syntax::Blob);
        }
    }
    let v = chars_of(blob);
    match blob_bounds(&v) {
        Some((from, to)) => read_entries(&v, from, to),
        None => TestConfig::default(),
    }
}

/// Reads what the configuration tool prints, in whichever of the two forms it is
/// written. A text of one line that is enclosed in braces is read as a brace blob. Any
/// other text is read as a listing, line by line, also where braces enclose its lines.
pub fn parse_settings(text: &str) -> (config: TestConfig)
    ensures
        config@ == config_of_text(text@),
        config.dir matches Some(dir) ==> dir@.len() > 0,
        config.command matches Some(command) ==> command@.len() > 0,
{
    proof {
        if blob_inner(text@) is Some {
            lemma_config_values_present(top_split(blob_inner(text@)->0), Syntax::Blob);
        }
        lemma_config_values_present(split_on(text@, '\n'), Syntax::Listing);
    }
    let v = chars_of(text);
    if !is_one_line(&v) {
        return read_listing(&v);
    }
    match blob_bounds(&v) {
        Some((from, to)) => read_entries(&v, from, to),
        None => read_listing(&v),
    }
}

/// The warning for the near-miss key `key`.
pub fn near_miss_warning(key: &str) -> (text: String)
    ensures
        text@ == "c2rust-config: ignoring unrecognized configuration key '"@ + key@
            + "'; expected 'test.cmd' or 'test.dir'"@,
{
    let mut text = String::from_str("c2rust-config: ignoring unrecognized configuration key '");
    text.append(key);
    text.append("'; expected 'test.cmd' or 'test.dir'");
    text
}

/// The keys of the listing that begin with `test` and name no setting, in the order of
/// their lines: most likely misspelt ones, worth a warning.
pub fn unrecognized_test_keys(text: &str) -> (keys: Vec<String>)
    ensures
        keys.deep_view() == near_miss_keys(split_on(text@, '\n')),
{
    let v = chars_of(text);
    assert(v@.subrange(0, v@.len() as int) =~= v@);
    let lines = split_ranges(&v, 0, v.len(), '\n');
    let test = chars_of("test");
    let mut keys: Vec<String> = Vec::new();
    let mut k: usize = 0;
    let ghost all = pieces(v@, lines@);
    while k < lines.len()
        invariant
            0 <= k <= lines.len(),
            all == pieces(v@, lines@),
            test@ == "test"@,
            ranges_within(lines@, 0, v.len() as int),
            keys.deep_view() == near_miss_keys(all.take(k as int)),
        decreases lines.len() - k,
    {
        let (from, to) = lines[k];
        proof {
            assert(all.take(k + 1).drop_last() =~= all.take(k as int));
        }
        let (a, b) = strip_bounds(&v, from, to, CharClass::Whitespace);
        let eq = scan_out(&v, a, b, CharClass::Only('='));
        if eq < b {
            let (ka, kb) = key_bounds(&v, a, b, eq);
            if range_starts_with(&v, ka, kb, &test) && classify_key(
                &v,
                ka,
                kb,
                Syntax::Listing,
            ).is_none() {
                let key = string_of(&v, ka, kb);
                keys.push(key);
            }
        }
        k += 1;
    }
    assert(all.take(k as int) =~= all);
    keys
}

} // verus!
