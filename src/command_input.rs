//! Stages, their classification and the command resolver.

use vstd::prelude::*;

use crate::parser::views;
use crate::redirection::{opt_redirect_view, Redirection, RedirectModel};
use crate::shell::{exe_views, Executable, Shell};
use crate::utils::str_equals;

verus! {

/// The commands the shell runs itself.
#[derive(PartialEq, Eq, Structural, Clone, Copy, Debug)]
pub enum BuiltInCommand {
    Exit,
    Echo,
    Type,
    PWD,
    CD,
    History,
}

/// How a stage's command was classified.
#[derive(Clone, Debug, PartialEq, Eq)]
pub enum CommandType {
    Builtin { command: BuiltInCommand, args: Vec<String> },
    External { path: String, args: Vec<String> },
    Unknown(String),
}

/// A classification as plain values.
pub enum CommandModel {
    Builtin(BuiltInCommand, Seq<Seq<char>>),
    External(Seq<char>, Seq<Seq<char>>),
    Unknown(Seq<char>),
}

impl View for CommandType {
    type V = CommandModel;

    open spec fn view(&self) -> CommandModel {
        match self {
            CommandType::Builtin { command, args } => CommandModel::Builtin(*command, views(args@)),
            CommandType::External { path, args } => CommandModel::External(path@, views(args@)),
            CommandType::Unknown(name) => CommandModel::Unknown(name@),
        }
    }
}

/// One stage of a pipeline: its command as typed, how it was classified,
/// and where its stdout and stderr are redirected.
#[derive(Debug)]
pub struct Cmd {
    pub command_type: CommandType,
    pub command_str: String,
    pub redirect_std_out: Option<Redirection>,
    pub redirect_std_error: Option<Redirection>,
}

/// A stage as plain values.
pub struct CmdModel {
    pub command_type: CommandModel,
    pub command_str: Seq<char>,
    pub redirect_std_out: Option<RedirectModel>,
    pub redirect_std_error: Option<RedirectModel>,
}

impl View for Cmd {
    type V = CmdModel;

    open spec fn view(&self) -> CmdModel {
        CmdModel {
            command_type: self.command_type@,
            command_str: self.command_str@,
            redirect_std_out: opt_redirect_view(self.redirect_std_out),
            redirect_std_error: opt_redirect_view(self.redirect_std_error),
        }
    }
}

/// The builtin a command name denotes, if any.
pub open spec fn builtin_named(name: Seq<char>) -> Option<BuiltInCommand> {
    if name == "exit"@ {
        Some(BuiltInCommand::Exit)
    } else if name == "echo"@ {
        Some(BuiltInCommand::Echo)
    } else if name == "type"@ {
        Some(BuiltInCommand::Type)
    } else if name == "pwd"@ {
        Some(BuiltInCommand::PWD)
    } else if name == "cd"@ {
        Some(BuiltInCommand::CD)
    } else if name == "history"@ {
        Some(BuiltInCommand::History)
    } else {
        None
    }
}

/// The index of the first executable named `name` at or after `i`.
pub open spec fn find_from(exes: Seq<(Seq<char>, Seq<char>)>, name: Seq<char>, i: int) -> Option<int>
    decreases exes.len() - i,
{
    if i >= exes.len() || i < 0 {
        None
    } else if exes[i].0 == name {
        Some(i)
    } else {
        find_from(exes, name, i + 1)
    }
}

/// The index of the first executable named `name`: directories are
/// searched in search-path order and the first match wins.
pub open spec fn find_executable(exes: Seq<(Seq<char>, Seq<char>)>, name: Seq<char>) -> Option<int> {
    find_from(exes, name, 0)
}

/// How a command name is classified: a builtin name always wins; otherwise
/// the first executable of that name in the snapshot, provided its file is
/// still `runnable`; otherwise the command is unknown.
pub open spec fn resolve(
    name: Seq<char>,
    args: Seq<Seq<char>>,
    exes: Seq<(Seq<char>, Seq<char>)>,
    runnable: bool,
) -> CommandModel {
    match builtin_named(name) {
        Some(b) => CommandModel::Builtin(b, args),
        None => match find_executable(exes, name) {
            Some(k) => if runnable {
                CommandModel::External(exes[k].1, args)
            } else {
                CommandModel::Unknown(name)
            },
            None => CommandModel::Unknown(name),
        },
    }
}

/// The builtin a command name denotes, if any.
pub fn builtin_command(name: &str) -> (r: Option<BuiltInCommand>)
    ensures
        r == builtin_named(name@),
{
    if str_equals(name, "exit") {
        Some(BuiltInCommand::Exit)
    } else if str_equals(name, "echo") {
        Some(BuiltInCommand::Echo)
    } else if str_equals(name, "type") {
        Some(BuiltInCommand::Type)
    } else if str_equals(name, "pwd") {
        Some(BuiltInCommand::PWD)
    } else if str_equals(name, "cd") {
        Some(BuiltInCommand::CD)
    } else if str_equals(name, "history") {
        Some(BuiltInCommand::History)
    } else {
        None
    }
}

/// The position in `executables` of the first one named `name`.
pub fn find_executable_index(executables: &Vec<Executable>, name: &str) -> (r: Option<usize>)
    ensures
        match r {
            Some(k) => k < executables@.len() && find_executable(exe_views(executables@), name@) == Some(k as int),
            None => find_executable(exe_views(executables@), name@) is None,
        },
{
    let ghost exes = exe_views(executables@);
    let n = executables.len();
    let mut i: usize = 0;
    while i < n
        invariant
            n == executables@.len(),
            exes == exe_views(executables@),
            i <= n,
            find_executable(exes, name@) == find_from(exes, name@, i as int),
        decreases n - i,
    {
        assert(exes[i as int] == executables@[i as int]@);
        if str_equals(executables[i].name.as_str(), name) {
            return Some(i);
        }
        i = i + 1;
    }
    None
}

/// Classifies `cmd` given whether the file of the first executable of that
/// name is `runnable` now.
pub fn command_type_for(cmd: &str, args: Vec<String>, shell: &Shell, runnable: bool) -> (r: CommandType)
    ensures
        r@ == resolve(cmd@, views(args@), shell.exes(), runnable),
{
    match builtin_command(cmd) {
        Some(b) => CommandType::Builtin { command: b, args },
        None => match find_executable_index(&shell.executables, cmd) {
            Some(k) => {
                if runnable {
                    let path = shell.executables[k].path.clone();
                    assert(shell.exes()[k as int] == shell.executables@[k as int]@);
                    CommandType::External { path, args }
                } else {
                    CommandType::Unknown(String::from_str(cmd))
                }
            },
            None => CommandType::Unknown(String::from_str(cmd)),
        },
    }
}

/// Relies on `is_executable::is_executable`: whether a file is at `path`
/// and carries an execute permission bit now. It reads the file system, so
/// nothing is promised of its answer.
#[verifier::external_body]
fn file_is_executable(path: &str) -> (r: bool) {
    is_executable::is_executable(std::path::Path::new(path))
}

/// Classifies a stage's command name against the shell: a builtin, the
/// first executable of that name in the snapshot whose file is still
/// executable, or unknown. Whether the file is executable is read from the
/// file system, so the result is one of the two classifications that either
/// answer gives.
pub fn parse_commandtype_from_cmd(cmd: &str, args: Vec<String>, shell: &Shell) -> (r: CommandType)
    ensures
        r@ == resolve(cmd@, views(args@), shell.exes(), true)
            || r@ == resolve(cmd@, views(args@), shell.exes(), false),
        builtin_named(cmd@) is Some ==> r@ == resolve(cmd@, views(args@), shell.exes(), true),
{
    let mut runnable = false;
    if builtin_command(cmd).is_none() {
        if let Some(k) = find_executable_index(&shell.executables, cmd) {
            runnable = file_is_executable(shell.executables[k].path.as_str());
        }
    }
    command_type_for(cmd, args, shell, runnable)
}

/// The name under which an executable is looked up: on the platforms this
/// shell runs on, executables carry no suffix, so the name itself.
pub fn get_exe_command(command: &str) -> (r: String)
    ensures
        r@ == command@,
{
    String::from_str(command)
}

} // verus!
