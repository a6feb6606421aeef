use rshell::command_input::Cmd;
use rshell::builtin::Effect;
use rshell::execute::{Event, OutputTarget, PipelineRun, StdinSource, Step};
use rshell::parser::parse_line;
use rshell::redirection::Redirection;
use rshell::shell::{Executable, Shell, ShellAction};

fn exe(name: &str, path: &str) -> Executable {
    Executable { name: name.to_string(), path: path.to_string() }
}

fn test_shell() -> Shell {
    Shell::new(
        "PATH",
        "$ ",
        vec![exe("ls", "/bin/ls"), exe("sort", "/usr/bin/sort"), exe("printf", "/usr/bin/printf")],
        "/home/user".to_string(),
    )
}

fn stages(line: &str, shell: &Shell) -> Vec<Cmd> {
    parse_line(line, shell).unwrap()
}

#[test]
fn redirected_external_stage_opens_both_files() {
    let shell = test_shell();
    let st = stages("ls nonexistent_dir > out.txt 2> err.txt", &shell);
    let mut run = PipelineRun::new(st.len());
    assert_eq!(
        run.next_step(&st),
        Step::Spawn {
            index: 0,
            stdin: StdinSource::Inherit,
            stdout: OutputTarget::File(Redirection::new(true, "out.txt".to_string())),
            stderr: OutputTarget::File(Redirection::new(true, "err.txt".to_string())),
        }
    );
    run.advance(&st, Event::Spawned);
    assert_eq!(run.next_step(&st), Step::WaitAll);
    run.advance(&st, Event::Waited);
    assert_eq!(run.next_step(&st), Step::Finish(ShellAction::Continue));
}

#[test]
fn two_externals_are_joined_by_a_pipe() {
    let shell = test_shell();
    let st = stages("printf 'b\\na\\n' | sort", &shell);
    let mut run = PipelineRun::new(st.len());
    assert_eq!(
        run.next_step(&st),
        Step::Spawn { index: 0, stdin: StdinSource::Inherit, stdout: OutputTarget::Pipe, stderr: OutputTarget::Inherit }
    );
    run.advance(&st, Event::Spawned);
    assert_eq!(
        run.next_step(&st),
        Step::Spawn {
            index: 1,
            stdin: StdinSource::PreviousStage,
            stdout: OutputTarget::Inherit,
            stderr: OutputTarget::Inherit,
        }
    );
    run.advance(&st, Event::Spawned);
    assert_eq!(run.spawned, 2);
    assert_eq!(run.next_step(&st), Step::WaitAll);
    run.advance(&st, Event::Waited);
    assert_eq!(run.next_step(&st), Step::Finish(ShellAction::Continue));
}

#[test]
fn builtin_type_ignores_piped_input() {
    let shell = test_shell();
    let st = stages("echo hi | type echo", &shell);
    let mut run = PipelineRun::new(st.len());
    assert_eq!(
        run.next_step(&st),
        Step::RunBuiltin { index: 0, stdin: StdinSource::Inherit, stdout: OutputTarget::Pipe, stderr: OutputTarget::Inherit }
    );
    let first = st[0].execute_builtin(&shell);
    assert_eq!(first.out, "hi\n");
    run.advance(&st, Event::BuiltinFinished(first.action));
    assert_eq!(
        run.next_step(&st),
        Step::RunBuiltin {
            index: 1,
            stdin: StdinSource::PreviousStage,
            stdout: OutputTarget::Inherit,
            stderr: OutputTarget::Inherit,
        }
    );
    let second = st[1].execute_builtin(&shell);
    assert_eq!(second.out, "echo is a shell builtin\n");
    assert_eq!(second.effect, Effect::Nothing);
    run.advance(&st, Event::BuiltinFinished(second.action));
    assert_eq!(run.next_step(&st), Step::WaitAll);
    run.advance(&st, Event::Waited);
    assert_eq!(run.next_step(&st), Step::Finish(ShellAction::Continue));
}

#[test]
fn unknown_first_stage_stops_the_walk() {
    let shell = test_shell();
    let st = stages("foo | echo hi", &shell);
    let mut run = PipelineRun::new(st.len());
    assert_eq!(run.next_step(&st), Step::NotFound { message: "foo: command not found".to_string() });
    run.advance(&st, Event::Reported);
    assert_eq!(run.next_step(&st), Step::WaitAll);
    run.advance(&st, Event::Spawned);
    assert_eq!(run.next_step(&st), Step::WaitAll);
    run.advance(&st, Event::Waited);
    assert_eq!(run.next_step(&st), Step::Finish(ShellAction::Continue));
    assert_eq!(run.next, 0);
}

#[test]
fn unknown_later_stage_says_not_found() {
    let shell = test_shell();
    let st = stages("ls | foo | sort", &shell);
    let mut run = PipelineRun::new(st.len());
    run.advance(&st, Event::Spawned);
    assert_eq!(run.next_step(&st), Step::NotFound { message: "foo: not found".to_string() });
    run.advance(&st, Event::Reported);
    assert_eq!(run.next_step(&st), Step::WaitAll);
    assert_eq!(run.spawned, 1);
}

#[test]
fn exit_anywhere_ends_the_loop() {
    let shell = test_shell();
    let st = stages("exit | echo x", &shell);
    let mut run = PipelineRun::new(st.len());
    let out = st[0].execute_builtin(&shell);
    assert_eq!(out.action, ShellAction::Exit);
    assert_eq!(out.out, "");
    run.advance(&st, Event::BuiltinFinished(out.action));
    let out = st[1].execute_builtin(&shell);
    run.advance(&st, Event::BuiltinFinished(out.action));
    run.advance(&st, Event::Waited);
    assert_eq!(run.next_step(&st), Step::Finish(ShellAction::Exit));
}

#[test]
fn failure_stops_the_walk_with_an_error() {
    let shell = test_shell();
    let st = stages("ls > /no/dir/f | sort", &shell);
    let mut run = PipelineRun::new(st.len());
    run.advance(&st, Event::Failed("cannot open /no/dir/f".to_string()));
    assert_eq!(run.next_step(&st), Step::WaitAll);
    run.advance(&st, Event::Waited);
    assert_eq!(run.next_step(&st), Step::Finish(ShellAction::Error("cannot open /no/dir/f".to_string())));
}

#[test]
fn redirected_middle_stage_sends_nothing_down_the_pipe() {
    let shell = test_shell();
    let st = stages("echo a > f.txt | sort", &shell);
    let run = PipelineRun::new(st.len());
    assert_eq!(
        run.next_step(&st),
        Step::RunBuiltin {
            index: 0,
            stdin: StdinSource::Inherit,
            stdout: OutputTarget::File(Redirection::new(true, "f.txt".to_string())),
            stderr: OutputTarget::Inherit,
        }
    );
}

#[test]
fn unknown_stage_stops_whatever_the_answer() {
    let shell = test_shell();
    let st = stages("ls | foo | sort", &shell);
    let mut run = PipelineRun::new(st.len());
    run.advance(&st, Event::Reported);
    assert_eq!(run.next, 0);
    run.advance(&st, Event::Spawned);
    assert_eq!(run.next, 1);
    run.advance(&st, Event::Spawned);
    assert_eq!(run.next, 1);
    assert_eq!(run.next_step(&st), Step::WaitAll);
    assert_eq!(run.spawned, 1);
}
