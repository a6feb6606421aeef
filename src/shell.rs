//! The state a line runs against.

use vstd::prelude::*;

use crate::parser::views;

verus! {

/// An executable found on the search path at startup.
#[derive(Clone, Debug)]
pub struct Executable {
    pub name: String,
    pub path: String,
}

impl View for Executable {
    type V = (Seq<char>, Seq<char>);

    open spec fn view(&self) -> (Seq<char>, Seq<char>) {
        (self.name@, self.path@)
    }
}

/// What the read-eval loop does after a line.
#[derive(Clone, Debug, PartialEq, Eq)]
pub enum ShellAction {
    Continue,
    Error(String),
    Exit,
}

/// The state a line runs against: the executable snapshot taken at startup,
/// the current directory and the command history, with `last_written_index`
/// the number of history entries already appended to a file.
pub struct Shell {
    pub executables: Vec<Executable>,
    pub path: String,
    pub current_dir: String,
    pub prompt: String,
    pub history: Vec<String>,
    pub last_written_index: usize,
}

/// The models of a sequence of executables.
pub open spec fn exe_views(v: Seq<Executable>) -> Seq<(Seq<char>, Seq<char>)> {
    v.map_values(|e: Executable| e@)
}

impl Shell {
    /// The history cursor never runs past the history.
    pub open spec fn wf(&self) -> bool {
        self.last_written_index <= self.history@.len()
    }

    pub open spec fn exes(&self) -> Seq<(Seq<char>, Seq<char>)> {
        exe_views(self.executables@)
    }

    /// A shell over a snapshot of executables, in search-path order, with
    /// an empty history.
    pub fn new(path: &str, prompt: &str, executables: Vec<Executable>, current_dir: String) -> (shell: Shell)
        ensures
            shell.wf(),
            shell.path@ == path@,
            shell.prompt@ == prompt@,
            shell.executables@ == executables@,
            shell.current_dir@ == current_dir@,
            shell.history@.len() == 0,
            shell.last_written_index == 0,
    {
        Shell {
            executables,
            path: String::from_str(path),
            current_dir,
            prompt: String::from_str(prompt),
            history: Vec::new(),
            last_written_index: 0,
        }
    }

    /// Records `dir` as the current directory, once the process has moved
    /// there.
    pub fn set_current_dir(&mut self, dir: String)
        requires
            old(self).wf(),
        ensures
            final(self).wf(),
            final(self).current_dir@ == dir@,
            final(self).history@ == old(self).history@,
            final(self).last_written_index == old(self).last_written_index,
            final(self).executables@ == old(self).executables@,
    {
        self.current_dir = dir;
    }

    /// Records a line in the history.
    pub fn add_history_entry(&mut self, line: String)
        requires
            old(self).wf(),
        ensures
            final(self).wf(),
            views(final(self).history@) == views(old(self).history@).push(line@),
            final(self).last_written_index == old(self).last_written_index,
            final(self).executables@ == old(self).executables@,
            final(self).current_dir@ == old(self).current_dir@,
    {
        let ghost before = views(self.history@);
        self.history.push(line);
        assert(views(self.history@) =~= before.push(line@));
    }
}

} // verus!
