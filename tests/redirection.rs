use rshell::redirection::Redirection;

fn strs(v: &[&str]) -> Vec<String> {
    v.iter().map(|s| s.to_string()).collect()
}

fn redir(overwrite: bool, name: &str) -> Option<Redirection> {
    Some(Redirection::new(overwrite, name.to_string()))
}

#[test]
fn operators_and_file_names_are_removed() {
    let mut t = strs(&["ls", "-l", ">", "out.txt", "2>", "err.txt"]);
    let (out, err) = Redirection::parse_redirections(&mut t);
    assert_eq!(t, strs(&["ls", "-l"]));
    assert_eq!(out, redir(true, "out.txt"));
    assert_eq!(err, redir(true, "err.txt"));
}

#[test]
fn append_operators_and_explicit_descriptor() {
    let mut t = strs(&["echo", "x", "1>>", "a", "2>>", "b"]);
    let (out, err) = Redirection::parse_redirections(&mut t);
    assert_eq!(t, strs(&["echo", "x"]));
    assert_eq!(out, redir(false, "a"));
    assert_eq!(err, redir(false, "b"));
    let mut t = strs(&["echo", ">>", "a", "x"]);
    let (out, err) = Redirection::parse_redirections(&mut t);
    assert_eq!(t, strs(&["echo", "x"]));
    assert_eq!(out, redir(false, "a"));
    assert_eq!(err, None);
}

#[test]
fn last_operator_for_a_stream_wins() {
    let mut t = strs(&["cmd", ">", "first", "1>", "second", ">>", "third"]);
    let (out, err) = Redirection::parse_redirections(&mut t);
    assert_eq!(t, strs(&["cmd"]));
    assert_eq!(out, redir(false, "third"));
    assert_eq!(err, None);
}

#[test]
fn operator_without_file_name_is_dropped() {
    let mut t = strs(&["cmd", "2>", "e", ">"]);
    let (out, err) = Redirection::parse_redirections(&mut t);
    assert_eq!(t, strs(&["cmd"]));
    assert_eq!(out, None);
    assert_eq!(err, redir(true, "e"));
}

#[test]
fn rescanning_extracted_tokens_finds_no_operator() {
    let mut t = strs(&["a", ">", ">>", "2>", "b", "1>>"]);
    let (out, err) = Redirection::parse_redirections(&mut t);
    assert_eq!(out, redir(true, ">>"));
    assert_eq!(err, redir(true, "b"));
    assert_eq!(t, strs(&["a"]));
    let mut again = t.clone();
    let (o2, e2) = Redirection::parse_redirections(&mut again);
    assert_eq!(again, t);
    assert_eq!(o2, None);
    assert_eq!(e2, None);
}

#[test]
fn lookalike_tokens_are_not_operators() {
    let mut t = strs(&["a", ">>>", "3>", "1", "x>"]);
    let (out, err) = Redirection::parse_redirections(&mut t);
    assert_eq!(t, strs(&["a", ">>>", "3>", "1", "x>"]));
    assert_eq!(out, None);
    assert_eq!(err, None);
}
