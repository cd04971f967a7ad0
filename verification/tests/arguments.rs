use usb_configurator::arguments::parse_arguments;

#[test]
fn test_parse_simple_args() {
    let result = parse_arguments("arg1 arg2 arg3");
    assert_eq!(result, vec!["arg1", "arg2", "arg3"]);
}

#[test]
fn test_parse_quoted_path() {
    let result = parse_arguments("\"C:\\Program Files\\App\\app.exe\" --flag");
    assert_eq!(result, vec!["C:\\Program Files\\App\\app.exe", "--flag"]);
}

#[test]
fn test_parse_mixed_args() {
    let result = parse_arguments("normal \"quoted arg\" another");
    assert_eq!(result, vec!["normal", "quoted arg", "another"]);
}

#[test]
fn test_parse_empty() {
    let result = parse_arguments("");
    assert!(result.is_empty());
}

#[test]
fn test_parse_multiple_spaces() {
    let result = parse_arguments("arg1    arg2");
    assert_eq!(result, vec!["arg1", "arg2"]);
}

#[test]
fn tabs_separate_arguments() {
    assert_eq!(parse_arguments("a\tb \t c"), vec!["a", "b", "c"]);
}

#[test]
fn only_separators_yield_nothing() {
    assert!(parse_arguments(" \t  \t").is_empty());
}

#[test]
fn quotes_join_the_pieces_around_them() {
    assert_eq!(parse_arguments("a\"b c\"d e"), vec!["ab cd", "e"]);
}

#[test]
fn empty_quotes_yield_no_argument() {
    assert_eq!(parse_arguments("\"\" x"), vec!["x"]);
    assert!(parse_arguments("\"\"").is_empty());
}

#[test]
fn unclosed_quote_runs_to_the_end() {
    assert_eq!(parse_arguments("a \"b c  d"), vec!["a", "b c  d"]);
}

#[test]
fn backslash_is_no_escape() {
    assert_eq!(parse_arguments("a\\ b \\\"c d\\\""), vec!["a\\", "b", "\\c d\\"]);
}

#[test]
fn newline_is_no_separator() {
    assert_eq!(parse_arguments("a\nb c"), vec!["a\nb", "c"]);
}

#[test]
fn no_argument_is_empty_or_holds_a_quote() {
    for text in ["", "  ", "a b", "\"a b\" c\"\"", "x\"\"\"y z", "\t\"\t\"\t"] {
        for arg in parse_arguments(text) {
            assert!(!arg.is_empty());
            assert!(!arg.contains('"'));
        }
    }
}

#[test]
fn unquoted_text_splits_like_whitespace_of_space_and_tab() {
    for text in ["one two", " lead", "trail ", "a  b\t\tc", "single"] {
        let expected: Vec<&str> = text.split(|c| c == ' ' || c == '\t').filter(|s| !s.is_empty()).collect();
        assert_eq!(parse_arguments(text), expected);
    }
}
