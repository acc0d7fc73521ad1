use c2rust_test::config_helper::{extract_config_value, remove_quotes, unescape_quoted};

#[test]
fn test_extract_config_value() {
    // Test with double quotes
    assert_eq!(
        extract_config_value("test.dir = \"build\""),
        Some("build".to_string())
    );

    // Test with single quotes
    assert_eq!(
        extract_config_value("test = 'make test'"),
        Some("make test".to_string())
    );

    // Test without quotes
    assert_eq!(
        extract_config_value("key = value"),
        Some("value".to_string())
    );

    // Test with spaces
    assert_eq!(
        extract_config_value("  test  =  \"test\"  "),
        Some("test".to_string())
    );

    // Test invalid format
    assert_eq!(extract_config_value("invalid"), None);

    // Test empty value
    assert_eq!(extract_config_value("test.dir = "), None);

    // Test empty quoted value
    assert_eq!(extract_config_value("test.dir = \"\""), None);
}

#[test]
fn test_remove_quotes() {
    // Test with double quotes
    assert_eq!(remove_quotes("\"value\""), "value");

    // Test with single quotes
    assert_eq!(remove_quotes("'value'"), "value");

    // Test without quotes
    assert_eq!(remove_quotes("value"), "value");

    // Test empty string
    assert_eq!(remove_quotes(""), "");

    // Test single quote character
    assert_eq!(remove_quotes("\""), "\"");

    // Test escaped quotes
    assert_eq!(remove_quotes("\"echo \\\"hello\\\"\""), "echo \"hello\"");

    // Test escaped backslash
    assert_eq!(remove_quotes("\"path\\\\to\\\\file\""), "path\\to\\file");

    // Test other escape sequences
    assert_eq!(remove_quotes("\"line1\\nline2\""), "line1\nline2");
    assert_eq!(remove_quotes("\"tab\\there\""), "tab\there");
}

#[test]
fn test_read_config_with_valid_output() {
    assert_eq!(
        extract_config_value("\"test.dir\" = \"build\""),
        Some("build".to_string())
    );

    assert_eq!(
        extract_config_value("test.cmd = \"make test\""),
        Some("make test".to_string())
    );
}

#[test]
fn unescape_leaves_unknown_sequences() {
    assert_eq!(unescape_quoted("a\\qb", '"'), "a\\qb");
    assert_eq!(unescape_quoted("a\\'b", '"'), "a\\'b");
    assert_eq!(unescape_quoted("a\\'b", '\''), "a'b");
    assert_eq!(unescape_quoted("end\\", '"'), "end\\");
}

#[test]
fn quoted_value_is_returned_exactly() {
    assert_eq!(remove_quotes("\"make -j4 check\""), "make -j4 check");
    assert_eq!(remove_quotes("'make -j4 check'"), "make -j4 check");
    assert_eq!(remove_quotes("\"it's\""), "it's");
    assert_eq!(remove_quotes("'say \"hi\"'"), "say \"hi\"");
}

#[test]
fn every_escape_sequence_is_replaced() {
    assert_eq!(unescape_quoted("\\\\", '"'), "\\");
    assert_eq!(unescape_quoted("\\n", '"'), "\n");
    assert_eq!(unescape_quoted("\\r", '"'), "\r");
    assert_eq!(unescape_quoted("\\t", '"'), "\t");
    assert_eq!(unescape_quoted("\\\"", '"'), "\"");
    assert_eq!(unescape_quoted("\\'", '\''), "'");
    assert_eq!(unescape_quoted("a\\nb\\tc\\rd\\\\e", '\''), "a\nb\tc\rd\\e");
}

#[test]
fn the_other_quote_is_not_an_escape() {
    assert_eq!(unescape_quoted("\\\"", '\''), "\\\"");
    assert_eq!(unescape_quoted("\\'", '"'), "\\'");
    assert_eq!(remove_quotes("'a\\\"b'"), "a\\\"b");
}

#[test]
fn escaped_backslash_does_not_start_a_second_sequence() {
    assert_eq!(unescape_quoted("\\\\n", '"'), "\\n");
    assert_eq!(unescape_quoted("\\\\\\n", '"'), "\\\n");
}

#[test]
fn quotes_must_match_and_be_two_characters() {
    assert_eq!(remove_quotes("\"value'"), "\"value'");
    assert_eq!(remove_quotes("'value\""), "'value\"");
    assert_eq!(remove_quotes("'"), "'");
    assert_eq!(remove_quotes("\"\""), "");
    assert_eq!(remove_quotes("''"), "");
    assert_eq!(remove_quotes("\"value"), "\"value");
    assert_eq!(remove_quotes("é"), "é");
    assert_eq!(remove_quotes("\"é\""), "é");
}

#[test]
fn blank_value_is_absent() {
    assert_eq!(extract_config_value("test.cmd ="), None);
    assert_eq!(extract_config_value("test.cmd =    "), None);
    assert_eq!(extract_config_value("test.cmd = \t \u{a0}\u{2003}"), None);
    assert_eq!(extract_config_value("test.cmd = ''"), None);
    assert_eq!(extract_config_value("="), None);
    assert_eq!(extract_config_value(""), None);
}

#[test]
fn quoted_blank_value_is_kept() {
    assert_eq!(extract_config_value("test.cmd = \" \""), Some(" ".to_string()));
}

#[test]
fn value_may_hold_equals_signs() {
    assert_eq!(
        extract_config_value("cmd = \"VAR=x make\""),
        Some("VAR=x make".to_string())
    );
    assert_eq!(extract_config_value("a=b=c"), Some("b=c".to_string()));
    assert_eq!(extract_config_value("a = = "), Some("=".to_string()));
    assert_eq!(
        extract_config_value("test.cmd = make CFLAGS=-O2 V=1"),
        Some("make CFLAGS=-O2 V=1".to_string())
    );
}

#[test]
fn value_is_trimmed_before_it_is_unquoted() {
    assert_eq!(extract_config_value("k =   \"  v  \"  "), Some("  v  ".to_string()));
    assert_eq!(extract_config_value("k =\t'v'\r"), Some("v".to_string()));
}
