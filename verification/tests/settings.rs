use c2rust_test::config_helper::TestConfig;
use c2rust_test::settings::{
    near_miss_warning, parse_brace_blob, parse_config_output, parse_settings,
    unrecognized_test_keys,
};

fn config(dir: Option<&str>, command: Option<&str>) -> TestConfig {
    TestConfig {
        dir: dir.map(|s| s.to_string()),
        command: command.map(|s| s.to_string()),
    }
}

#[test]
fn default_config_is_empty() {
    assert_eq!(TestConfig::default(), config(None, None));
}

#[test]
fn listing_sets_both_fields() {
    let text = "test.dir = \"build\"\ntest.cmd = \"make test\"\n";
    assert_eq!(parse_config_output(text), config(Some("build"), Some("make test")));
}

#[test]
fn listing_accepts_quoted_keys_and_crlf() {
    let text = "\"test.dir\" = \"build\"\r\n'test.cmd' = 'make test'\r\n";
    assert_eq!(parse_config_output(text), config(Some("build"), Some("make test")));
}

#[test]
fn listing_ignores_other_lines() {
    let text = "# settings\nbuild.dir = \"out\"\n\n  test.cmd = ctest  \nno equals here\n";
    assert_eq!(parse_config_output(text), config(None, Some("ctest")));
}

#[test]
fn listing_without_settings_is_empty() {
    assert_eq!(parse_config_output(""), config(None, None));
    assert_eq!(parse_config_output("\n\n"), config(None, None));
    assert_eq!(parse_config_output("dir = x\ncmd = y\n"), config(None, None));
}

#[test]
fn listing_later_line_counts() {
    let text = "test.dir = a\ntest.dir = b\n";
    assert_eq!(parse_config_output(text), config(Some("b"), None));
}

#[test]
fn listing_empty_value_does_not_reset() {
    let text = "test.dir = a\ntest.dir = \ntest.dir = \"\"\n";
    assert_eq!(parse_config_output(text), config(Some("a"), None));
}

#[test]
fn listing_order_of_lines_does_not_matter() {
    let one = "test.dir = \"build\"\ntest.cmd = \"make test\"";
    let two = "test.cmd = \"make test\"\ntest.dir = \"build\"";
    assert_eq!(parse_config_output(one), parse_config_output(two));
}

#[test]
fn listing_value_with_equals() {
    let text = "test.cmd = \"VAR=x make\"\n";
    assert_eq!(parse_config_output(text), config(None, Some("VAR=x make")));
}

#[test]
fn near_miss_keys_are_reported() {
    let text = "test = \"make\"\ntest.dir = \"b\"\ntests.cmd = x\n\"test.command\" = y\nother = z\ntest\n";
    assert_eq!(
        unrecognized_test_keys(text),
        vec!["test".to_string(), "tests.cmd".to_string(), "test.command".to_string()]
    );
    assert_eq!(unrecognized_test_keys("test.cmd = a\ntest.dir = b"), Vec::<String>::new());
}

#[test]
fn blob_order_does_not_matter() {
    let one = parse_brace_blob("{ cmd = \"a\", dir = \"b\" }");
    let two = parse_brace_blob("{ dir = \"b\", cmd = \"a\" }");
    assert_eq!(one, config(Some("b"), Some("a")));
    assert_eq!(two, config(Some("b"), Some("a")));
    assert_eq!(one, two);
}

#[test]
fn empty_blob_is_empty() {
    assert_eq!(parse_brace_blob("{}"), config(None, None));
    assert_eq!(parse_brace_blob("{ }"), config(None, None));
    assert_eq!(parse_brace_blob("  {}\n"), config(None, None));
}

#[test]
fn blob_long_keys_and_single_quotes() {
    assert_eq!(
        parse_brace_blob("{ test.cmd = 'make check', \"test.dir\" = 'sub/dir' }"),
        config(Some("sub/dir"), Some("make check"))
    );
}

#[test]
fn blob_unknown_keys_are_ignored() {
    assert_eq!(
        parse_brace_blob("{ name = \"x\", cmd = \"a\", level = 3 }"),
        config(None, Some("a"))
    );
}

#[test]
fn blob_comma_in_quotes_does_not_split() {
    assert_eq!(
        parse_brace_blob("{ cmd = \"make a,b\", dir = \"x,y\" }"),
        config(Some("x,y"), Some("make a,b"))
    );
    assert_eq!(
        parse_brace_blob("{ cmd = \"say \\\"a, b\\\"\", dir = \"d\" }"),
        config(Some("d"), Some("say \"a, b\""))
    );
}

#[test]
fn blob_comma_in_nested_braces_does_not_split() {
    assert_eq!(
        parse_brace_blob("{ env = { dir = \"no\", cmd = \"no\" }, cmd = \"yes\" }"),
        config(None, Some("yes"))
    );
    assert_eq!(
        parse_brace_blob("{ list = [ 1, 2, 3 ], dir = \"d\" }"),
        config(Some("d"), None)
    );
}

#[test]
fn blob_value_with_equals() {
    assert_eq!(
        parse_brace_blob("{ cmd = \"VAR=x make\" }"),
        config(None, Some("VAR=x make"))
    );
}

#[test]
fn blob_empty_value_is_absent() {
    assert_eq!(parse_brace_blob("{ cmd = \"\", dir =  }"), config(None, None));
}

#[test]
fn blob_later_entry_counts() {
    assert_eq!(parse_brace_blob("{ dir = \"x\", dir = \"y\" }"), config(Some("y"), None));
    assert_eq!(parse_brace_blob("{ dir = \"y\", dir = \"x\" }"), config(Some("x"), None));
}

#[test]
fn text_without_braces_is_no_blob() {
    assert_eq!(parse_brace_blob("cmd = \"a\""), config(None, None));
    assert_eq!(parse_brace_blob("{ cmd = \"a\""), config(None, None));
    assert_eq!(parse_brace_blob("cmd = \"a\" }"), config(None, None));
    assert_eq!(parse_brace_blob("{"), config(None, None));
    assert_eq!(parse_brace_blob(""), config(None, None));
}

#[test]
fn warning_of_a_near_miss_key() {
    assert_eq!(
        near_miss_warning("test.command"),
        "c2rust-config: ignoring unrecognized configuration key 'test.command'; expected 'test.cmd' or 'test.dir'"
    );
}

#[test]
fn settings_are_read_in_either_form() {
    assert_eq!(
        parse_settings("{ cmd = \"a\", dir = \"b\" }"),
        config(Some("b"), Some("a"))
    );
    assert_eq!(
        parse_settings("test.dir = \"b\"\ntest.cmd = \"a\"\n"),
        config(Some("b"), Some("a"))
    );
    // Short keys belong to the blob only.
    assert_eq!(parse_settings("cmd = \"a\"\ndir = \"b\"\n"), config(None, None));
    // A text that only begins with a brace is a listing.
    assert_eq!(parse_settings("{ cmd = \"a\""), config(None, None));
    assert_eq!(parse_settings(""), config(None, None));
}

#[test]
fn listing_in_braces_is_read_line_by_line() {
    assert_eq!(
        parse_settings("{\ntest.dir=a\ntest.cmd=b\n}"),
        config(Some("a"), Some("b"))
    );
    assert_eq!(
        parse_settings("{\n  test.dir = \"a\"\n  test.cmd = \"b\"\n}\n"),
        config(Some("a"), Some("b"))
    );
    // Short keys name nothing in a listing, braces or not.
    assert_eq!(parse_settings("{\ndir = a,\ncmd = b\n}"), config(None, None));
    assert_eq!(
        parse_settings("{ cmd = \"a\",\n dir = \"b\" }"),
        parse_config_output("{ cmd = \"a\",\n dir = \"b\" }")
    );
}

#[test]
fn blob_on_one_line_with_line_ends_around_it() {
    assert_eq!(
        parse_settings("\r\n{ cmd = \"a\", dir = \"b\" }\r\n\n"),
        config(Some("b"), Some("a"))
    );
    assert_eq!(parse_settings("{}\n"), config(None, None));
    // An escaped line feed in a value is two characters, not a line end.
    assert_eq!(
        parse_settings("{ cmd = \"a\\nb\" }"),
        config(None, Some("a\nb"))
    );
}
