use rshell::command_input::{
    builtin_command, command_type_for, find_executable_index, get_exe_command, parse_commandtype_from_cmd,
    BuiltInCommand, CommandType,
};
use rshell::parser::{parse_commands, parse_line};
use rshell::redirection::Redirection;
use rshell::shell::{Executable, Shell};

fn strs(v: &[&str]) -> Vec<String> {
    v.iter().map(|s| s.to_string()).collect()
}

fn exe(name: &str, path: &str) -> Executable {
    Executable { name: name.to_string(), path: path.to_string() }
}

fn test_shell() -> Shell {
    Shell::new(
        "PATH",
        "$ ",
        vec![
            exe("ls", "/bin/ls"),
            exe("ls", "/usr/local/bin/ls"),
            exe("sort", "/usr/bin/sort"),
            exe("printf", "/usr/bin/printf"),
            exe("ghost", "/no/such/dir/ghost"),
        ],
        "/tmp".to_string(),
    )
}

#[test]
fn builtin_names_are_recognised() {
    assert_eq!(builtin_command("exit"), Some(BuiltInCommand::Exit));
    assert_eq!(builtin_command("echo"), Some(BuiltInCommand::Echo));
    assert_eq!(builtin_command("type"), Some(BuiltInCommand::Type));
    assert_eq!(builtin_command("pwd"), Some(BuiltInCommand::PWD));
    assert_eq!(builtin_command("cd"), Some(BuiltInCommand::CD));
    assert_eq!(builtin_command("history"), Some(BuiltInCommand::History));
    assert_eq!(builtin_command("ech"), None);
    assert_eq!(builtin_command("Echo"), None);
}

#[test]
fn first_executable_of_a_name_wins() {
    let shell = test_shell();
    assert_eq!(find_executable_index(&shell.executables, "ls"), Some(0));
    assert_eq!(find_executable_index(&shell.executables, "sort"), Some(2));
    assert_eq!(find_executable_index(&shell.executables, "cat"), None);
}

#[test]
fn classification_given_runnable_answer() {
    let shell = test_shell();
    let args = strs(&["-l"]);
    assert_eq!(
        command_type_for("ls", args.clone(), &shell, true),
        CommandType::External { path: "/bin/ls".to_string(), args: args.clone() }
    );
    assert_eq!(command_type_for("ls", args.clone(), &shell, false), CommandType::Unknown("ls".to_string()));
    assert_eq!(command_type_for("cat", args.clone(), &shell, true), CommandType::Unknown("cat".to_string()));
    assert_eq!(
        command_type_for("echo", args.clone(), &shell, false),
        CommandType::Builtin { command: BuiltInCommand::Echo, args: args.clone() }
    );
}

#[test]
fn classification_reads_the_file_system() {
    let shell = test_shell();
    assert_eq!(
        parse_commandtype_from_cmd("ls", vec![], &shell),
        CommandType::External { path: "/bin/ls".to_string(), args: vec![] }
    );
    assert_eq!(parse_commandtype_from_cmd("ghost", vec![], &shell), CommandType::Unknown("ghost".to_string()));
    assert_eq!(parse_commandtype_from_cmd("nope", vec![], &shell), CommandType::Unknown("nope".to_string()));
}

#[test]
fn exe_name_is_the_command_itself() {
    assert_eq!(get_exe_command("ls"), "ls".to_string());
}

#[test]
fn line_becomes_ordered_stages() {
    let shell = test_shell();
    let stages = parse_line("ls -l > out.txt | sort 2>> err.txt | echo hi", &shell).unwrap();
    assert_eq!(stages.len(), 3);
    assert_eq!(stages[0].command_str, "ls");
    assert_eq!(stages[0].command_type, CommandType::External { path: "/bin/ls".to_string(), args: strs(&["-l"]) });
    assert_eq!(stages[0].redirect_std_out, Some(Redirection::new(true, "out.txt".to_string())));
    assert_eq!(stages[0].redirect_std_error, None);
    assert_eq!(stages[1].command_str, "sort");
    assert_eq!(stages[1].redirect_std_out, None);
    assert_eq!(stages[1].redirect_std_error, Some(Redirection::new(false, "err.txt".to_string())));
    assert_eq!(
        stages[2].command_type,
        CommandType::Builtin { command: BuiltInCommand::Echo, args: strs(&["hi"]) }
    );
}

#[test]
fn empty_groups_and_redirection_only_groups_are_dropped() {
    let shell = test_shell();
    let stages = parse_line("| | echo a || > f | ", &shell).unwrap();
    assert_eq!(stages.len(), 1);
    assert_eq!(stages[0].command_str, "echo");
    assert!(parse_line("  | |  ", &shell).is_none());
    assert!(parse_line("", &shell).is_none());
    assert!(parse_commands(&vec![], &shell).is_none());
}
