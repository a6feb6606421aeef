use rshell::builtin::{cd_failure_message, cd_target, echo, exit, print_current_dir, type_command, type_report, CdTarget};
use rshell::command_input::{BuiltInCommand, CommandType};
use rshell::completion_helper::MyHelper;
use rshell::builtin::Effect;
use rshell::history::{
    history_file_text, history_listing, history_request, listing_entry, parse_count, parse_history_text,
    HistoryRequest,
};
use rshell::parser::parse_line;
use rshell::shell::{Executable, Shell, ShellAction};

fn strs(v: &[&str]) -> Vec<String> {
    v.iter().map(|s| s.to_string()).collect()
}

fn test_shell() -> Shell {
    Shell::new(
        "PATH",
        "$ ",
        vec![Executable { name: "ls".to_string(), path: "/bin/ls".to_string() }],
        "/home/user".to_string(),
    )
}

#[test]
fn exit_asks_to_leave() {
    assert_eq!(exit(), ShellAction::Exit);
}

#[test]
fn echo_joins_with_spaces() {
    assert_eq!(echo(&strs(&["a", "b  c", "d"])), "a b  c d\n");
    assert_eq!(echo(&strs(&[])), "\n");
    assert_eq!(echo(&strs(&["", "x"])), " x\n");
}

#[test]
fn type_reports_each_class() {
    let shell = test_shell();
    assert_eq!(type_command(&shell, &strs(&["echo"])), "echo is a shell builtin\n");
    assert_eq!(type_command(&shell, &strs(&["history"])), "history is a shell builtin\n");
    assert_eq!(type_command(&shell, &strs(&["ls"])), "ls is /bin/ls\n");
    assert_eq!(type_command(&shell, &strs(&["nothing_here"])), "nothing_here: not found\n");
    assert_eq!(type_command(&shell, &strs(&[])), "");
    assert_eq!(
        type_report("x", &CommandType::External { path: "/p/x".to_string(), args: vec![] }),
        "x is /p/x\n"
    );
}

#[test]
fn pwd_prints_current_dir() {
    let mut shell = test_shell();
    assert_eq!(print_current_dir(&shell), "/home/user\n");
    shell.set_current_dir("/tmp".to_string());
    assert_eq!(print_current_dir(&shell), "/tmp\n");
}

#[test]
fn cd_targets() {
    assert_eq!(cd_target(&strs(&[])), CdTarget::Home);
    assert_eq!(cd_target(&strs(&["~"])), CdTarget::Home);
    assert_eq!(cd_target(&strs(&["/usr"])), CdTarget::Dir("/usr".to_string()));
    assert_eq!(cd_target(&strs(&["~/x"])), CdTarget::Dir("~/x".to_string()));
    assert_eq!(cd_failure_message("nowhere"), "cd: nowhere: No such file or directory\n");
}

#[test]
fn count_arguments() {
    assert_eq!(parse_count("0"), Some(0));
    assert_eq!(parse_count("42"), Some(42));
    assert_eq!(parse_count("+7"), Some(7));
    assert_eq!(parse_count("007"), Some(7));
    assert_eq!(parse_count(""), None);
    assert_eq!(parse_count("+"), None);
    assert_eq!(parse_count("-3"), None);
    assert_eq!(parse_count("4a"), None);
    assert_eq!(parse_count("18446744073709551615"), Some(usize::MAX));
    assert_eq!(parse_count("18446744073709551616"), None);
    assert_eq!(parse_count("99999999999999999999"), None);
}

#[test]
fn history_requests() {
    assert_eq!(history_request(&strs(&[])), HistoryRequest::List(0));
    assert_eq!(history_request(&strs(&["3"])), HistoryRequest::List(3));
    assert_eq!(history_request(&strs(&["abc"])), HistoryRequest::List(0));
    assert_eq!(history_request(&strs(&["-r", "f"])), HistoryRequest::Read("f".to_string()));
    assert_eq!(history_request(&strs(&["-w", "f"])), HistoryRequest::Write("f".to_string()));
    assert_eq!(history_request(&strs(&["-a", "f"])), HistoryRequest::Append("f".to_string()));
    assert_eq!(history_request(&strs(&["-a"])), HistoryRequest::MissingOperand);
    assert_eq!(history_request(&strs(&["-r", ""])), HistoryRequest::MissingOperand);
}

#[test]
fn history_listing_numbers_entries() {
    assert_eq!(listing_entry(7, "ls"), "    7  ls\n");
    assert_eq!(listing_entry(123456, "x"), "123456  x\n");
    let entries = strs(&["a", "b", "c"]);
    assert_eq!(history_listing(&entries, 0), "    1  a\n    2  b\n    3  c\n");
    assert_eq!(history_listing(&entries, 2), "    2  b\n    3  c\n");
    assert_eq!(history_listing(&entries, 10), "    1  a\n    2  b\n    3  c\n");
    assert_eq!(history_listing(&strs(&[]), 0), "");
}

#[test]
fn history_file_round_trip() {
    let entries = strs(&["echo a", "", "ls -l | sort"]);
    let text = history_file_text(&entries);
    assert_eq!(text, "echo a\n\nls -l | sort\n");
    assert_eq!(parse_history_text(&text), entries);
    assert_eq!(parse_history_text("a\nb"), strs(&["a", "b"]));
    assert_eq!(parse_history_text(""), strs(&[]));
}

#[test]
fn written_history_preloads_into_a_fresh_shell() {
    let mut shell = test_shell();
    shell.add_history_entry("echo one".to_string());
    shell.add_history_entry("pwd".to_string());
    let stages = parse_line("history -w histfile", &shell).unwrap();
    let outcome = stages[0].execute_builtin(&shell);
    let text = match outcome.effect {
        Effect::WriteHistory { path, text } => {
            assert_eq!(path, "histfile");
            text
        }
        other => panic!("unexpected effect {:?}", other),
    };
    let mut fresh = test_shell();
    fresh.load_history(&text);
    assert_eq!(fresh.history, shell.history);
}

#[test]
fn history_append_takes_only_new_entries() {
    let mut shell = test_shell();
    shell.add_history_entry("a".to_string());
    shell.add_history_entry("b".to_string());
    shell.mark_history_written(1);
    assert_eq!(shell.unwritten_history_text(), "b\n");
    let stages = parse_line("history -a f", &shell).unwrap();
    let outcome = stages[0].execute_builtin(&shell);
    assert_eq!(
        outcome.effect,
        Effect::AppendHistory { path: "f".to_string(), text: "b\n".to_string(), written: 2 }
    );
}

#[test]
fn history_builtin_outputs() {
    let mut shell = test_shell();
    shell.add_history_entry("echo a".to_string());
    shell.add_history_entry("history 1".to_string());
    let stages = parse_line("history 1", &shell).unwrap();
    let outcome = stages[0].execute_builtin(&shell);
    assert_eq!(outcome.out, "    2  history 1\n");
    let stages = parse_line("history -w", &shell).unwrap();
    let outcome = stages[0].execute_builtin(&shell);
    assert_eq!(outcome.err, "history: missing file operand\n");
    assert_eq!(outcome.out, "");
    let stages = parse_line("cd", &shell).unwrap();
    assert_eq!(stages[0].execute_builtin(&shell).effect, Effect::ChangeDir(CdTarget::Home));
    let stages = parse_line("pwd", &shell).unwrap();
    assert_eq!(stages[0].execute_builtin(&shell).out, "/home/user\n");
    let stages = parse_line("ls", &shell).unwrap();
    assert!(matches!(stages[0].command_type, CommandType::External { .. }));
    assert_eq!(stages[0].execute_builtin(&shell).out, "");
    assert_eq!(BuiltInCommand::PWD, BuiltInCommand::PWD);
}

#[test]
fn completion_prefers_builtins() {
    let h = MyHelper::new();
    let exes = strs(&["echoer", "exa", "ls", "ls", "lsblk"]);
    assert_eq!(h.complete("ec", 2, &exes), (0, strs(&["echo "])));
    assert_eq!(h.complete("e", 1, &exes), (0, strs(&["echo", "exit"])));
    assert_eq!(h.complete("echo l", 6, &exes), (5, strs(&["ls", "lsblk"])));
    assert_eq!(h.complete("x | lsb", 7, &exes), (4, strs(&["lsblk "])));
    assert_eq!(h.complete("zz", 2, &exes), (0, strs(&[])));
    assert_eq!(h.complete("cd pw", 3, &exes), (3, strs(&["cd", "echo", "exit", "pwd", "type"])));
}
