//! The builtin commands.

use vstd::prelude::*;

use crate::command_input::{parse_commandtype_from_cmd, resolve, CommandModel, CommandType};
use crate::history::{
    history_file_text, history_listing, history_request, history_text, listing_from, listing_start,
    request_of, HistoryRequest, RequestModel,
};
use crate::parser::views;
use crate::shell::{Shell, ShellAction};
use crate::utils::{push_char, str_equals};

verus! {

/// The `exit` builtin: ends the read-eval loop.
pub fn exit() -> (a: ShellAction)
    ensures
        a == ShellAction::Exit,
{
    ShellAction::Exit
}

/// The words of `args` joined by single spaces.
pub open spec fn join_words(args: Seq<Seq<char>>) -> Seq<char>
    decreases args.len(),
{
    if args.len() == 0 {
        Seq::empty()
    } else if args.len() == 1 {
        args[0]
    } else {
        join_words(args.drop_last()) + seq![' '] + args.last()
    }
}

/// What `echo` writes: its arguments joined by spaces, and a newline.
pub open spec fn echo_output(args: Seq<Seq<char>>) -> Seq<char> {
    join_words(args).push('\n')
}

/// The `echo` builtin: the text it writes to its output stream; its input
/// is ignored.
pub fn echo(args: &Vec<String>) -> (out: String)
    ensures
        out@ == echo_output(views(args@)),
{
    let ghost ws = views(args@);
    let mut out = String::new();
    let mut i: usize = 0;
    while i < args.len()
        invariant
            i <= args@.len(),
            ws == views(args@),
            out@ == join_words(ws.subrange(0, i as int)),
        decreases args@.len() - i,
    {
        assert(ws.subrange(0, i + 1).drop_last() =~= ws.subrange(0, i as int));
        if i > 0 {
            push_char(&mut out, ' ');
        }
        out.append(args[i].as_str());
        i = i + 1;
    }
    assert(ws.subrange(0, args@.len() as int) =~= ws);
    push_char(&mut out, '\n');
    out
}

/// What `type` reports for `name` classified as `c`.
pub open spec fn type_message(name: Seq<char>, c: CommandModel) -> Seq<char> {
    match c {
        CommandModel::Builtin(_, _) => name + " is a shell builtin"@ + seq!['\n'],
        CommandModel::External(path, _) => name + " is "@ + path + seq!['\n'],
        CommandModel::Unknown(_) => name + ": not found"@ + seq!['\n'],
    }
}

/// The line `type` writes for `name` classified as `c`.
pub fn type_report(name: &str, c: &CommandType) -> (out: String)
    ensures
        out@ == type_message(name@, c@),
{
    let mut out = String::from_str(name);
    match c {
        CommandType::Builtin { .. } => {
            out.append(" is a shell builtin");
        },
        CommandType::External { path, .. } => {
            out.append(" is ");
            out.append(path.as_str());
        },
        CommandType::Unknown(_) => {
            out.append(": not found");
        },
    }
    push_char(&mut out, '\n');
    out
}

/// The `type` builtin: classifies its first argument as the resolver does
/// and reports how; nothing without an argument. Its input is ignored.
pub fn type_command(shell: &Shell, args: &Vec<String>) -> (out: String)
    ensures
        args@.len() == 0 ==> out@.len() == 0,
        args@.len() > 0 ==> ({
            let name = args@[0]@;
            ||| out@ == type_message(name, resolve(name, Seq::empty(), shell.exes(), true))
            ||| out@ == type_message(name, resolve(name, Seq::empty(), shell.exes(), false))
        }),
{
    if args.len() == 0 {
        return String::new();
    }
    let name = args[0].as_str();
    let no_args: Vec<String> = Vec::new();
    assert(views(no_args@) =~= Seq::<Seq<char>>::empty());
    let c = parse_commandtype_from_cmd(name, no_args, shell);
    type_report(name, &c)
}

/// The `pwd` builtin: the current directory and a newline.
pub fn print_current_dir(shell: &Shell) -> (out: String)
    ensures
        out@ == shell.current_dir@.push('\n'),
{
    let mut out = shell.current_dir.clone();
    push_char(&mut out, '\n');
    out
}

/// Where `cd` goes.
#[derive(Clone, Debug, PartialEq, Eq)]
pub enum CdTarget {
    /// The home directory, when it can be found.
    Home,
    /// A directory, relative to the current one or absolute.
    Dir(String),
}

/// The `cd` builtin's target: the home directory for `~` or no argument,
/// else its first argument.
pub fn cd_target(args: &Vec<String>) -> (t: CdTarget)
    ensures
        args@.len() == 0 ==> t == CdTarget::Home,
        args@.len() > 0 && args@[0]@ == "~"@ ==> t == CdTarget::Home,
        args@.len() > 0 && args@[0]@ != "~"@ ==> (t matches CdTarget::Dir(d) && d@ == args@[0]@),
{
    if args.len() == 0 || str_equals(args[0].as_str(), "~") {
        CdTarget::Home
    } else {
        CdTarget::Dir(args[0].clone())
    }
}

/// What `cd` writes to its error stream when it cannot enter `path`.
pub fn cd_failure_message(path: &str) -> (m: String)
    ensures
        m@ == "cd: "@ + path@ + ": No such file or directory"@ + seq!['\n'],
{
    let mut m = String::from_str("cd: ");
    m.append(path);
    m.append(": No such file or directory");
    push_char(&mut m, '\n');
    m
}

/// What a builtin leaves for the caller to do with the outside world.
#[derive(Clone, Debug, PartialEq, Eq)]
pub enum Effect {
    Nothing,
    /// Change the working directory; on failure write the `cd` failure
    /// message to the stage's stderr, on success record the new directory.
    ChangeDir(CdTarget),
    /// Load the history entries held by this file.
    ReadHistory(String),
    /// Overwrite this file with `text`.
    WriteHistory { path: String, text: String },
    /// Append `text` to this file, then record that the first `written`
    /// entries are in it.
    AppendHistory { path: String, text: String, written: usize },
}

/// What running a builtin stage gives: the action it returns, what it
/// writes to its output and error streams, and what is left to do.
#[derive(Clone, Debug)]
pub struct BuiltinOutcome {
    pub action: ShellAction,
    pub out: String,
    pub err: String,
    pub effect: Effect,
}

/// The outcome of a builtin that only writes `out`.
pub open spec fn writes_only(r: BuiltinOutcome, out: Seq<char>) -> bool {
    &&& r.action == ShellAction::Continue
    &&& r.out@ == out
    &&& r.err@.len() == 0
    &&& r.effect is Nothing
}

/// The outcome of a builtin that writes nothing and leaves `effect`.
pub open spec fn quiet(r: BuiltinOutcome) -> bool {
    &&& r.action == ShellAction::Continue
    &&& r.out@.len() == 0
    &&& r.err@.len() == 0
}

/// The outcome of a builtin that goes on to the next stage.
pub fn outcome_with(out: String, err: String, effect: Effect) -> (r: BuiltinOutcome)
    ensures
        r.action == ShellAction::Continue,
        r.out == out,
        r.err == err,
        r.effect == effect,
{
    BuiltinOutcome { action: ShellAction::Continue, out, err, effect }
}

/// What the `history` builtin gives for `args`, against `shell`.
pub open spec fn history_result(r: BuiltinOutcome, shell: Shell, args: Seq<Seq<char>>) -> bool {
    match request_of(args) {
        RequestModel::List(n) => writes_only(
            r,
            listing_from(views(shell.history@), listing_start(shell.history@.len(), n) as int),
        ),
        RequestModel::MissingOperand => {
            &&& r.action == ShellAction::Continue
            &&& r.out@.len() == 0
            &&& r.err@ == "history: missing file operand"@.push('\n')
            &&& r.effect is Nothing
        },
        RequestModel::Read(p) => quiet(r) && (r.effect matches Effect::ReadHistory(q) && q@ == p),
        RequestModel::Write(p) => quiet(r) && (r.effect matches Effect::WriteHistory { path, text }
            && path@ == p && text@ == history_text(views(shell.history@))),
        RequestModel::Append(p) => quiet(r) && (r.effect matches Effect::AppendHistory { path, text, written }
            && path@ == p && written == shell.history@.len() && text@ == history_text(
            views(shell.history@).subrange(shell.last_written_index as int, shell.history@.len() as int),
        )),
    }
}

/// The `history` builtin: lists the last entries, or asks for the history
/// to be loaded from, written to or appended to a file.
pub fn history(shell: &Shell, args: &Vec<String>) -> (r: BuiltinOutcome)
    requires
        shell.wf(),
    ensures
        history_result(r, *shell, views(args@)),
{
    match history_request(args) {
        HistoryRequest::List(n) => outcome_with(history_listing(&shell.history, n), String::new(), Effect::Nothing),
        HistoryRequest::MissingOperand => {
            let mut err = String::from_str("history: missing file operand");
            push_char(&mut err, '\n');
            outcome_with(String::new(), err, Effect::Nothing)
        },
        HistoryRequest::Read(path) => outcome_with(String::new(), String::new(), Effect::ReadHistory(path)),
        HistoryRequest::Write(path) => {
            let text = history_file_text(&shell.history);
            outcome_with(String::new(), String::new(), Effect::WriteHistory { path, text })
        },
        HistoryRequest::Append(path) => {
            let text = shell.unwritten_history_text();
            let written = shell.history.len();
            outcome_with(String::new(), String::new(), Effect::AppendHistory { path, text, written })
        },
    }
}

} // verus!
