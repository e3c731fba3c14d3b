//! Structured log records: one record per pipeline status transition.

use vstd::prelude::*;

use crate::dates::{date_stamp, now_date};

verus! {

/// The status a pipeline run can be in. `Never` is a sentinel for "no log
/// entry exists yet" and is never persisted; `Aborted` is inferred at read
/// time for a run whose owning process died without reporting.
#[derive(Clone, Copy, Debug, PartialEq, Eq, Structural)]
pub enum PipelineState {
    Started,
    Succeeded,
    Failed,
    Running,
    Aborted,
    Never,
}

/// What one executed command read and wrote.
pub struct CommandLog {
    pub stdin: String,
    pub stdout: String,
    pub stderr: String,
}

/// Mathematical image of a `CommandLog`.
pub struct CommandLogView {
    pub stdin: Seq<char>,
    pub stdout: Seq<char>,
    pub stderr: Seq<char>,
}

impl View for CommandLog {
    type V = CommandLogView;

    open spec fn view(&self) -> CommandLogView {
        CommandLogView { stdin: self.stdin@, stdout: self.stdout@, stderr: self.stderr@ }
    }
}

impl Clone for CommandLog {
    fn clone(&self) -> (r: Self)
        ensures
            r@ == self@,
    {
        CommandLog {
            stdin: self.stdin.clone(),
            stdout: self.stdout.clone(),
            stderr: self.stderr.clone(),
        }
    }
}

impl CommandLog {
    fn new() -> (r: Self)
        ensures
            r@.stdin.len() == 0,
            r@.stdout.len() == 0,
            r@.stderr.len() == 0,
    {
        CommandLog { stdin: String::new(), stdout: String::new(), stderr: String::new() }
    }

    /// Record the command line that was fed to the shell.
    pub fn stdin(&mut self, cmd: String) -> (r: &Self)
        ensures
            final(self)@.stdin == cmd@,
            final(self)@.stdout == old(self)@.stdout,
            final(self)@.stderr == old(self)@.stderr,
    {
        self.stdin = cmd;
        self
    }
}

/// What one pipeline step did: its name and the command it ran.
pub struct StepLog {
    pub name: String,
    pub command: CommandLog,
}

/// Mathematical image of a `StepLog`.
pub struct StepLogView {
    pub name: Seq<char>,
    pub command: CommandLogView,
}

impl View for StepLog {
    type V = StepLogView;

    open spec fn view(&self) -> StepLogView {
        StepLogView { name: self.name@, command: self.command@ }
    }
}

impl Clone for StepLog {
    fn clone(&self) -> (r: Self)
        ensures
            r@ == self@,
    {
        StepLog { name: self.name.clone(), command: self.command.clone() }
    }
}

impl StepLog {
    pub fn new(name: &str) -> (r: Self)
        ensures
            r@.name == name@,
            r@.command.stdin.len() == 0,
            r@.command.stdout.len() == 0,
            r@.command.stderr.len() == 0,
    {
        StepLog { name: name.to_owned(), command: CommandLog::new() }
    }

    /// Rename the step.
    pub fn name(&mut self, name: &str) -> (r: &Self)
        ensures
            final(self)@.name == name@,
            final(self)@.command == old(self)@.command,
    {
        self.name = name.to_owned();
        self
    }

    /// Reset the recorded command to an empty one.
    pub fn command(&mut self, command: &str) -> (r: &Self)
        ensures
            final(self)@.name == old(self)@.name,
            final(self)@.command.stdin.len() == 0,
            final(self)@.command.stdout.len() == 0,
            final(self)@.command.stderr.len() == 0,
    {
        self.command = CommandLog::new();
        self
    }
}

/// One persisted line of run history: the status a named pipeline reached,
/// when, under which session and process, and what the current step did.
pub struct PipelineLog {
    pub state: PipelineState,
    pub date: String,
    pub name: String,
    pub sid: Option<u32>,
    pub pid: Option<u64>,
    pub step: Option<StepLog>,
}

/// Mathematical image of a `PipelineLog`.
pub struct PipelineLogView {
    pub state: PipelineState,
    pub date: Seq<char>,
    pub name: Seq<char>,
    pub sid: Option<u32>,
    pub pid: Option<u64>,
    pub step: Option<StepLogView>,
}

impl View for PipelineLog {
    type V = PipelineLogView;

    open spec fn view(&self) -> PipelineLogView {
        PipelineLogView {
            state: self.state,
            date: self.date@,
            name: self.name@,
            sid: self.sid,
            pid: self.pid,
            step: match self.step {
                Some(s) => Some(s@),
                None => None,
            },
        }
    }
}

impl Clone for PipelineLog {
    fn clone(&self) -> (r: Self)
        ensures
            r@ == self@,
    {
        PipelineLog {
            state: self.state,
            date: self.date.clone(),
            name: self.name.clone(),
            sid: self.sid,
            pid: self.pid,
            step: match &self.step {
                Some(s) => Some(s.clone()),
                None => None,
            },
        }
    }
}

impl PipelineLog {
    /// A fresh record for `name`: status `Started`, dated now, with no
    /// session, process or step attached yet.
    pub fn new(name: &str) -> (r: Self)
        ensures
            r@.name == name@,
            r@.state == PipelineState::Started,
            r@.sid is None,
            r@.pid is None,
            r@.step is None,
            date_stamp(r@.date) is Some,
    {
        PipelineLog {
            name: name.to_owned(),
            date: now_date(),
            step: None,
            state: PipelineState::Started,
            sid: None,
            pid: None,
        }
    }

    /// Move the record to a new status.
    pub fn state(&mut self, state: PipelineState) -> (r: &Self)
        ensures
            final(self)@ == (PipelineLogView { state, ..old(self)@ }),
    {
        self.state = state;
        self
    }

    /// Attach a fresh step of the given name.
    pub fn step(&mut self, step: &str) -> (r: &Self)
        ensures
            final(self)@.step matches Some(s) && s.name == step@,
            final(self)@.state == old(self)@.state,
            final(self)@.date == old(self)@.date,
            final(self)@.name == old(self)@.name,
            final(self)@.sid == old(self)@.sid,
            final(self)@.pid == old(self)@.pid,
    {
        self.step = Some(StepLog::new(step));
        self
    }

    /// Record what the current step's command read and wrote.
    pub fn command(&mut self, cmd: &str, stdout: &str) -> (r: &Self)
        requires
            old(self)@.step is Some,
        ensures
            final(self)@.step matches Some(s) && s.command.stdin == cmd@
                && s.command.stdout == stdout@
                && s.name == old(self)@.step->Some_0.name,
            final(self)@.state == old(self)@.state,
            final(self)@.date == old(self)@.date,
            final(self)@.name == old(self)@.name,
            final(self)@.sid == old(self)@.sid,
            final(self)@.pid == old(self)@.pid,
    {
        match &mut self.step {
            Some(s) => {
                s.command = CommandLog {
                    stdin: cmd.to_owned(),
                    stdout: stdout.to_owned(),
                    stderr: String::new(),
                };
            },
            None => {
                proof {
                    assert(false);
                }
            },
        }
        self
    }
}

} // verus!
