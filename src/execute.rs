//! The execution engine: a state machine that says how each stage is
//! wired and started, and what to do when it is.

use vstd::prelude::*;

use crate::builtin::{
    cd_target, echo, echo_output, exit, history, history_result, outcome_with, print_current_dir, quiet, type_command,
    type_message, writes_only, BuiltinOutcome, CdTarget, Effect,
};
use crate::command_input::{resolve, BuiltInCommand, Cmd, CmdModel, CommandModel, CommandType};
use crate::parser::views;
use crate::redirection::{RedirectModel, Redirection};
use crate::shell::{Shell, ShellAction};

verus! {

/// Where a stage reads its standard input: the shell's own for the first
/// stage, what the stage before it produced for the others.
#[derive(PartialEq, Eq, Structural, Clone, Copy, Debug)]
pub enum StdinSource {
    Inherit,
    PreviousStage,
}

/// Where a stage's stdout or stderr goes.
#[derive(Clone, Debug, PartialEq, Eq)]
pub enum OutputTarget {
    /// The shell's own stream.
    Inherit,
    /// A fresh pipe whose read end feeds the next stage.
    Pipe,
    /// A redirection file, which takes precedence over any pipe.
    File(Redirection),
}

pub enum TargetModel {
    Inherit,
    Pipe,
    File(RedirectModel),
}

impl View for OutputTarget {
    type V = TargetModel;

    open spec fn view(&self) -> TargetModel {
        match self {
            OutputTarget::Inherit => TargetModel::Inherit,
            OutputTarget::Pipe => TargetModel::Pipe,
            OutputTarget::File(r) => TargetModel::File(r@),
        }
    }
}

/// What a shell action is, as plain values.
pub enum ActionModel {
    Continue,
    Error(Seq<char>),
    Exit,
}

impl View for ShellAction {
    type V = ActionModel;

    open spec fn view(&self) -> ActionModel {
        match self {
            ShellAction::Continue => ActionModel::Continue,
            ShellAction::Error(m) => ActionModel::Error(m@),
            ShellAction::Exit => ActionModel::Exit,
        }
    }
}

/// The next thing the caller must do to run a pipeline.
#[derive(Debug, PartialEq, Eq)]
pub enum Step {
    /// Run builtin stage `index` to completion with these streams; when its
    /// stdout is a pipe, close the write end once it returns.
    RunBuiltin { index: usize, stdin: StdinSource, stdout: OutputTarget, stderr: OutputTarget },
    /// Start external stage `index` with these streams, without waiting.
    Spawn { index: usize, stdin: StdinSource, stdout: OutputTarget, stderr: OutputTarget },
    /// Print this message on stdout: the stage is unknown and the walk stops.
    NotFound { message: String },
    /// Wait for every started process, in the order they were started.
    WaitAll,
    /// The pipeline is over, with this outcome.
    Finish(ShellAction),
}

pub enum StepModel {
    RunBuiltin(int, StdinSource, TargetModel, TargetModel),
    Spawn(int, StdinSource, TargetModel, TargetModel),
    NotFound(Seq<char>),
    WaitAll,
    Finish(ActionModel),
}

impl View for Step {
    type V = StepModel;

    open spec fn view(&self) -> StepModel {
        match self {
            Step::RunBuiltin { index, stdin, stdout, stderr } => StepModel::RunBuiltin(
                *index as int,
                *stdin,
                stdout@,
                stderr@,
            ),
            Step::Spawn { index, stdin, stdout, stderr } => StepModel::Spawn(*index as int, *stdin, stdout@, stderr@),
            Step::NotFound { message } => StepModel::NotFound(message@),
            Step::WaitAll => StepModel::WaitAll,
            Step::Finish(a) => StepModel::Finish(a@),
        }
    }
}

/// What happened when the caller carried out a step.
#[derive(Clone, Debug)]
pub enum Event {
    /// A builtin returned this action.
    BuiltinFinished(ShellAction),
    /// An external process was started.
    Spawned,
    /// A redirection file could not be opened or a process could not be
    /// started; the message says why.
    Failed(String),
    /// The not-found message was printed.
    Reported,
    /// Every started process has exited.
    Waited,
}

pub enum EventModel {
    BuiltinFinished(ActionModel),
    Spawned,
    Failed(Seq<char>),
    Reported,
    Waited,
}

impl View for Event {
    type V = EventModel;

    open spec fn view(&self) -> EventModel {
        match self {
            Event::BuiltinFinished(a) => EventModel::BuiltinFinished(a@),
            Event::Spawned => EventModel::Spawned,
            Event::Failed(m) => EventModel::Failed(m@),
            Event::Reported => EventModel::Reported,
            Event::Waited => EventModel::Waited,
        }
    }
}

/// Where a pipeline run stands.
#[derive(PartialEq, Eq, Structural, Clone, Copy, Debug)]
pub enum Phase {
    /// Stages are still being started, left to right.
    Walking,
    /// No stage is left to start; started processes must be waited for.
    Waiting,
    /// Everything is over.
    Done,
}

/// The state of one pipeline run over `stage_count` stages: `next` is the
/// stage to start, `spawned` how many processes were started, `exit_requested`
/// whether an `exit` builtin ran and `error` the first failure.
#[derive(Clone, Debug)]
pub struct PipelineRun {
    pub stage_count: usize,
    pub next: usize,
    pub spawned: usize,
    pub phase: Phase,
    pub exit_requested: bool,
    pub error: Option<String>,
}

/// The state of a run as plain values.
pub struct RunModel {
    pub stage_count: int,
    pub next: int,
    pub spawned: int,
    pub phase: Phase,
    pub exit_requested: bool,
    pub error: Option<Seq<char>>,
}

impl View for PipelineRun {
    type V = RunModel;

    open spec fn view(&self) -> RunModel {
        RunModel {
            stage_count: self.stage_count as int,
            next: self.next as int,
            spawned: self.spawned as int,
            phase: self.phase,
            exit_requested: self.exit_requested,
            error: match self.error {
                Some(m) => Some(m@),
                None => None,
            },
        }
    }
}

/// Where stage `i` of `n` sends its stdout: its redirection file if it has
/// one, else a pipe to the next stage, else the shell's stdout.
pub open spec fn stdout_target(c: CmdModel, i: int, n: int) -> TargetModel {
    match c.redirect_std_out {
        Some(r) => TargetModel::File(r),
        None => if i + 1 < n {
            TargetModel::Pipe
        } else {
            TargetModel::Inherit
        },
    }
}

/// Where a stage sends its stderr: its redirection file if it has one, else
/// the shell's stderr.
pub open spec fn stderr_target(c: CmdModel) -> TargetModel {
    match c.redirect_std_error {
        Some(r) => TargetModel::File(r),
        None => TargetModel::Inherit,
    }
}

pub open spec fn stdin_source(i: int) -> StdinSource {
    if i == 0 {
        StdinSource::Inherit
    } else {
        StdinSource::PreviousStage
    }
}

/// The message for an unknown command at stage `i`.
pub open spec fn not_found_message(name: Seq<char>, i: int) -> Seq<char> {
    if i == 0 {
        name + ": command not found"@
    } else {
        name + ": not found"@
    }
}

/// How a run ends: its first failure, else `exit` if a builtin asked for
/// it, else on to the next line.
pub open spec fn outcome(r: RunModel) -> ActionModel {
    match r.error {
        Some(m) => ActionModel::Error(m),
        None => if r.exit_requested {
            ActionModel::Exit
        } else {
            ActionModel::Continue
        },
    }
}

/// The step a run asks for next.
pub open spec fn next_step_spec(r: RunModel, stages: Seq<CmdModel>) -> StepModel {
    match r.phase {
        Phase::Walking => if 0 <= r.next < stages.len() {
            let c = stages[r.next];
            match c.command_type {
                CommandModel::Unknown(name) => StepModel::NotFound(not_found_message(name, r.next)),
                CommandModel::Builtin(_, _) => StepModel::RunBuiltin(
                    r.next,
                    stdin_source(r.next),
                    stdout_target(c, r.next, stages.len() as int),
                    stderr_target(c),
                ),
                CommandModel::External(_, _) => StepModel::Spawn(
                    r.next,
                    stdin_source(r.next),
                    stdout_target(c, r.next, stages.len() as int),
                    stderr_target(c),
                ),
            }
        } else {
            StepModel::WaitAll
        },
        Phase::Waiting => StepModel::WaitAll,
        Phase::Done => StepModel::Finish(outcome(r)),
    }
}

/// The run after one stage was dealt with: on to the next stage, or to
/// waiting when none is left.
pub open spec fn after_stage(r: RunModel, spawned: int, exit_requested: bool) -> RunModel {
    RunModel {
        next: r.next + 1,
        spawned,
        exit_requested,
        phase: if r.next + 1 >= r.stage_count {
            Phase::Waiting
        } else {
            Phase::Walking
        },
        ..r
    }
}

/// The run once the walk stops on failure `m`.
pub open spec fn failed(r: RunModel, m: Seq<char>) -> RunModel {
    RunModel { error: Some(m), phase: Phase::Waiting, ..r }
}

/// The run after an event. While walking, only the events that answer the
/// current stage count: a builtin's result, a process started, or a
/// failure; at an unknown stage, whatever happens, the walk stops. Any
/// other event changes nothing.
pub open spec fn advance_spec(r: RunModel, stages: Seq<CmdModel>, e: EventModel) -> RunModel {
    match r.phase {
        Phase::Walking => if 0 <= r.next < stages.len() {
            match stages[r.next].command_type {
                CommandModel::Unknown(_) => RunModel { phase: Phase::Waiting, ..r },
                CommandModel::Builtin(_, _) => match e {
                    EventModel::BuiltinFinished(ActionModel::Exit) => after_stage(r, r.spawned, true),
                    EventModel::BuiltinFinished(ActionModel::Continue) => after_stage(r, r.spawned, r.exit_requested),
                    EventModel::BuiltinFinished(ActionModel::Error(m)) => failed(r, m),
                    EventModel::Failed(m) => failed(r, m),
                    _ => r,
                },
                CommandModel::External(_, _) => match e {
                    EventModel::Spawned => after_stage(r, r.spawned + 1, r.exit_requested),
                    EventModel::Failed(m) => failed(r, m),
                    _ => r,
                },
            }
        } else {
            r
        },
        Phase::Waiting => match e {
            EventModel::Waited => RunModel { phase: Phase::Done, ..r },
            _ => r,
        },
        Phase::Done => r,
    }
}

/// The index of the first unknown stage at or after `i`, or the number of
/// stages when there is none.
pub open spec fn first_unknown_from(stages: Seq<CmdModel>, i: int) -> int
    decreases stages.len() - i,
{
    if i >= stages.len() || i < 0 {
        stages.len() as int
    } else if stages[i].command_type is Unknown {
        i
    } else {
        first_unknown_from(stages, i + 1)
    }
}

/// The index of the first unknown stage, or the number of stages.
pub open spec fn first_unknown(stages: Seq<CmdModel>) -> int {
    first_unknown_from(stages, 0)
}

proof fn lemma_first_unknown_from(stages: Seq<CmdModel>, i: int)
    requires
        0 <= i <= stages.len(),
    ensures
        i <= first_unknown_from(stages, i) <= stages.len(),
        forall|j: int| i <= j < first_unknown_from(stages, i) ==> !(#[trigger] stages[j].command_type is Unknown),
        first_unknown_from(stages, i) < stages.len() ==> stages[first_unknown_from(stages, i)].command_type is Unknown,
    decreases stages.len() - i,
{
    if i < stages.len() && !(stages[i].command_type is Unknown) {
        lemma_first_unknown_from(stages, i + 1);
    }
}

/// An unknown stage stops the walk: the run asks for its not-found
/// message, and whatever happens next it starts no further stage.
pub proof fn lemma_unknown_stage_stops_walk(r: RunModel, stages: Seq<CmdModel>, e: EventModel)
    requires
        r.phase == Phase::Walking,
        0 <= r.next < stages.len(),
        stages[r.next].command_type is Unknown,
    ensures
        next_step_spec(r, stages) is NotFound,
        advance_spec(r, stages, e).phase == Phase::Waiting,
{
}

/// Once a run has stopped walking, it starts no further stage, whatever
/// happens next.
pub proof fn lemma_stopped_run_starts_nothing(r: RunModel, stages: Seq<CmdModel>, e: EventModel)
    requires
        r.phase != Phase::Walking,
    ensures
        advance_spec(r, stages, e).phase != Phase::Walking,
        !(next_step_spec(r, stages) is RunBuiltin),
        !(next_step_spec(r, stages) is Spawn),
{
}

/// A run never gets past the first unknown stage: every stage it asks to
/// run or start comes before it, and no event moves the walk beyond it.
pub proof fn lemma_no_stage_past_unknown(r: RunModel, stages: Seq<CmdModel>, e: EventModel)
    requires
        0 <= r.next <= first_unknown(stages),
    ensures
        advance_spec(r, stages, e).next <= first_unknown(stages),
        next_step_spec(r, stages) matches StepModel::RunBuiltin(i, _, _, _) ==> i < first_unknown(stages),
        next_step_spec(r, stages) matches StepModel::Spawn(i, _, _, _) ==> i < first_unknown(stages),
{
    lemma_first_unknown_from(stages, 0);
}

impl PipelineRun {
    /// The counters stay within the pipeline.
    pub open spec fn wf(&self) -> bool {
        &&& self.stage_count > 0
        &&& self.next <= self.stage_count
        &&& self.spawned <= self.next
        &&& (self.phase == Phase::Walking ==> self.next < self.stage_count)
    }

    /// A run about to start the first of `stage_count` stages.
    pub fn new(stage_count: usize) -> (r: PipelineRun)
        requires
            stage_count > 0,
        ensures
            r.wf(),
            r@ == (RunModel {
                stage_count: stage_count as int,
                next: 0,
                spawned: 0,
                phase: Phase::Walking,
                exit_requested: false,
                error: None,
            }),
    {
        PipelineRun { stage_count, next: 0, spawned: 0, phase: Phase::Walking, exit_requested: false, error: None }
    }

    /// The outcome the run ends with.
    pub fn outcome(&self) -> (a: ShellAction)
        ensures
            a@ == outcome(self@),
    {
        match &self.error {
            Some(m) => ShellAction::Error(m.clone()),
            None => if self.exit_requested {
                ShellAction::Exit
            } else {
                ShellAction::Continue
            },
        }
    }

    /// The next step of the run over `stages`: stages are started left to
    /// right, each reading what the one before it produced and writing to
    /// its redirection file, else a pipe to the next stage, else the shell's
    /// stream; an unknown stage stops the walk before it is started.
    pub fn next_step(&self, stages: &Vec<Cmd>) -> (s: Step)
        requires
            self.wf(),
            stages@.len() == self.stage_count,
        ensures
            s@ == next_step_spec(self@, stages@.map_values(|c: Cmd| c@)),
    {
        let ghost ms = stages@.map_values(|c: Cmd| c@);
        match self.phase {
            Phase::Walking => {
                let i = self.next;
                let c = &stages[i];
                assert(ms[i as int] == c@);
                let stdin = if i == 0 {
                    StdinSource::Inherit
                } else {
                    StdinSource::PreviousStage
                };
                match &c.command_type {
                    CommandType::Unknown(name) => {
                        let mut message = name.clone();
                        if i == 0 {
                            message.append(": command not found");
                        } else {
                            message.append(": not found");
                        }
                        Step::NotFound { message }
                    },
                    CommandType::Builtin { .. } => Step::RunBuiltin {
                        index: i,
                        stdin,
                        stdout: stdout_for(c, i, stages.len()),
                        stderr: stderr_for(c),
                    },
                    CommandType::External { .. } => Step::Spawn {
                        index: i,
                        stdin,
                        stdout: stdout_for(c, i, stages.len()),
                        stderr: stderr_for(c),
                    },
                }
            },
            Phase::Waiting => Step::WaitAll,
            Phase::Done => Step::Finish(self.outcome()),
        }
    }

    /// Takes in what happened when the last step over `stages` was carried
    /// out.
    pub fn advance(&mut self, stages: &Vec<Cmd>, event: Event)
        requires
            old(self).wf(),
            stages@.len() == old(self).stage_count,
        ensures
            final(self).wf(),
            final(self)@ == advance_spec(old(self)@, stages@.map_values(|c: Cmd| c@), event@),
    {
        let ghost ms = stages@.map_values(|c: Cmd| c@);
        match self.phase {
            Phase::Walking => {
                assert(ms[self.next as int] == stages@[self.next as int]@);
                match &stages[self.next].command_type {
                    CommandType::Unknown(_) => {
                        self.phase = Phase::Waiting;
                    },
                    CommandType::Builtin { .. } => match event {
                        Event::BuiltinFinished(ShellAction::Exit) => {
                            self.exit_requested = true;
                            self.finish_stage();
                        },
                        Event::BuiltinFinished(ShellAction::Continue) => {
                            self.finish_stage();
                        },
                        Event::BuiltinFinished(ShellAction::Error(m)) => {
                            self.error = Some(m);
                            self.phase = Phase::Waiting;
                        },
                        Event::Failed(m) => {
                            self.error = Some(m);
                            self.phase = Phase::Waiting;
                        },
                        _ => {},
                    },
                    CommandType::External { .. } => match event {
                        Event::Spawned => {
                            self.spawned = self.spawned + 1;
                            self.finish_stage();
                        },
                        Event::Failed(m) => {
                            self.error = Some(m);
                            self.phase = Phase::Waiting;
                        },
                        _ => {},
                    },
                }
            },
            Phase::Waiting => {
                if let Event::Waited = event {
                    self.phase = Phase::Done;
                }
            },
            Phase::Done => {},
        }
    }

    fn finish_stage(&mut self)
        requires
            old(self).next < old(self).stage_count,
        ensures
            final(self)@ == (RunModel {
                next: old(self)@.next + 1,
                phase: if old(self)@.next + 1 >= old(self)@.stage_count {
                    Phase::Waiting
                } else {
                    Phase::Walking
                },
                ..old(self)@
            }),
    {
        self.next = self.next + 1;
        if self.next >= self.stage_count {
            self.phase = Phase::Waiting;
        } else {
            self.phase = Phase::Walking;
        }
    }
}

impl Cmd {
    /// Runs a builtin stage against `shell`: what it writes and what it
    /// leaves to do. Builtins ignore their input. A stage that is not a
    /// builtin does nothing.
    pub fn execute_builtin(&self, shell: &Shell) -> (r: BuiltinOutcome)
        requires
            shell.wf(),
        ensures
            match self.command_type@ {
                CommandModel::Builtin(BuiltInCommand::Exit, _) => {
                    &&& r.action == ShellAction::Exit
                    &&& r.out@.len() == 0
                    &&& r.err@.len() == 0
                    &&& r.effect is Nothing
                },
                CommandModel::Builtin(BuiltInCommand::Echo, args) => writes_only(r, echo_output(args)),
                CommandModel::Builtin(BuiltInCommand::Type, args) => {
                    if args.len() == 0 {
                        writes_only(r, Seq::empty())
                    } else {
                        ||| writes_only(r, type_message(args[0], resolve(args[0], Seq::empty(), shell.exes(), true)))
                        ||| writes_only(r, type_message(args[0], resolve(args[0], Seq::empty(), shell.exes(), false)))
                    }
                },
                CommandModel::Builtin(BuiltInCommand::PWD, _) => writes_only(r, shell.current_dir@.push('\n')),
                CommandModel::Builtin(BuiltInCommand::CD, args) => {
                    &&& quiet(r)
                    &&& (args.len() == 0 || args[0] == "~"@) ==> r.effect == Effect::ChangeDir(CdTarget::Home)
                    &&& !(args.len() == 0 || args[0] == "~"@) ==> (r.effect matches Effect::ChangeDir(CdTarget::Dir(d)) && d@ == args[0])
                },
                CommandModel::Builtin(BuiltInCommand::History, args) => history_result(r, *shell, args),
                _ => quiet(r) && r.effect is Nothing,
            },
    {
        match &self.command_type {
            CommandType::Builtin { command, args } => match command {
                BuiltInCommand::Exit => BuiltinOutcome {
                    action: exit(),
                    out: String::new(),
                    err: String::new(),
                    effect: Effect::Nothing,
                },
                BuiltInCommand::Echo => outcome_with(echo(args), String::new(), Effect::Nothing),
                BuiltInCommand::Type => {
                    let out = type_command(shell, args);
                    proof {
                        if args@.len() > 0 {
                            assert(views(args@)[0] == args@[0]@);
                        } else {
                            assert(out@ =~= Seq::<char>::empty());
                        }
                    }
                    outcome_with(out, String::new(), Effect::Nothing)
                },
                BuiltInCommand::PWD => outcome_with(print_current_dir(shell), String::new(), Effect::Nothing),
                BuiltInCommand::CD => {
                    let t = cd_target(args);
                    proof {
                        if args@.len() > 0 {
                            assert(views(args@)[0] == args@[0]@);
                        }
                    }
                    outcome_with(String::new(), String::new(), Effect::ChangeDir(t))
                },
                BuiltInCommand::History => history(shell, args),
            },
            _ => outcome_with(String::new(), String::new(), Effect::Nothing),
        }
    }
}

fn stdout_for(c: &Cmd, i: usize, n: usize) -> (t: OutputTarget)
    ensures
        t@ == stdout_target(c@, i as int, n as int),
{
    match &c.redirect_std_out {
        Some(r) => OutputTarget::File(Redirection::new(r.overwrite, r.filename.clone())),
        None => if i < n && n - i > 1 {
            OutputTarget::Pipe
        } else {
            OutputTarget::Inherit
        },
    }
}

fn stderr_for(c: &Cmd) -> (t: OutputTarget)
    ensures
        t@ == stderr_target(c@),
{
    match &c.redirect_std_error {
        Some(r) => OutputTarget::File(Redirection::new(r.overwrite, r.filename.clone())),
        None => OutputTarget::Inherit,
    }
}

} // verus!
