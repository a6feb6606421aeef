use rshell::parser::{parse_input, split_by_delimiter};

fn strs(v: &[&str]) -> Vec<String> {
    v.iter().map(|s| s.to_string()).collect()
}

#[test]
fn quoted_spans_keep_spaces_and_escapes() {
    assert_eq!(parse_input("echo 'a  b' \"c\\\"d\""), strs(&["echo", "a  b", "c\"d"]));
}

#[test]
fn unterminated_quote_runs_to_end_of_line() {
    assert_eq!(parse_input("echo 'abc"), strs(&["echo", "abc"]));
    assert_eq!(parse_input("echo \"abc def"), strs(&["echo", "abc def"]));
}

#[test]
fn adjacent_fragments_join() {
    assert_eq!(parse_input("a\"b\"c"), strs(&["abc"]));
    assert_eq!(parse_input("'a''b' x"), strs(&["ab", "x"]));
}

#[test]
fn backslash_outside_quotes_escapes_next_char() {
    assert_eq!(parse_input("a\\ b c"), strs(&["a b", "c"]));
    assert_eq!(parse_input("\\'x\\'"), strs(&["'x'"]));
    assert_eq!(parse_input("end\\"), strs(&["end"]));
}

#[test]
fn single_quotes_are_literal() {
    assert_eq!(parse_input("'a\\nb \"q\"'"), strs(&["a\\nb \"q\""]));
}

#[test]
fn double_quotes_keep_other_backslashes() {
    assert_eq!(parse_input("\"a\\nb\""), strs(&["a\\nb"]));
    assert_eq!(parse_input("\"a\\\\b \\$x\""), strs(&["a\\b $x"]));
}

#[test]
fn whitespace_separates_and_collapses() {
    assert_eq!(parse_input("  ls   -l\t-a  "), strs(&["ls", "-l", "-a"]));
    assert_eq!(parse_input(""), Vec::<String>::new());
    assert_eq!(parse_input("   "), Vec::<String>::new());
}

#[test]
fn empty_quotes_alone_make_no_token() {
    assert_eq!(parse_input("echo '' \"\""), strs(&["echo"]));
    assert_eq!(parse_input("a'' b"), strs(&["a", "b"]));
}

#[test]
fn split_drops_pipes_and_empty_groups() {
    let groups = split_by_delimiter(strs(&["|", "a", "b", "|", "|", "c", "|"]), "|".to_string());
    assert_eq!(groups, vec![strs(&["a", "b"]), strs(&["c"])]);
    assert!(split_by_delimiter(strs(&["|", "|"]), "|".to_string()).is_empty());
}
