//! The pipeline state machine: `Started -> Running -> {Succeeded, Failed}`,
//! one log record per transition and per step boundary, stopping at the
//! first failing step. Executing a step is the external step executor's
//! business; the machine decides the transitions from the outcomes it is
//! handed, so it is verified for every outcome the executor can return.

use vstd::prelude::*;

use crate::dates::{date_stamp, now_date};
use crate::error::PipelightError;
use crate::logs::{PipelineLog, PipelineState};
use crate::store::dated;
use crate::trigger::Pipeline;

verus! {

/// What the step executor reported for one step.
pub struct StepOutcome {
    pub stdout: String,
    pub stderr: String,
    pub success: bool,
}

/// Mathematical image of a `StepOutcome`.
pub struct StepOutcomeView {
    pub stdout: Seq<char>,
    pub stderr: Seq<char>,
    pub success: bool,
}

impl View for StepOutcome {
    type V = StepOutcomeView;

    open spec fn view(&self) -> StepOutcomeView {
        StepOutcomeView { stdout: self.stdout@, stderr: self.stderr@, success: self.success }
    }
}

/// Where one run stands: the pipeline it drives, the next step to execute,
/// the status reached so far, and the session and process its records are
/// stamped with.
pub struct RunnerState {
    pub pipeline_name: String,
    pub step_index: usize,
    pub status: PipelineState,
    pub sid: Option<u32>,
    pub pid: Option<u64>,
}

/// Mathematical image of a `RunnerState`.
pub struct RunnerStateView {
    pub pipeline_name: Seq<char>,
    pub step_index: int,
    pub status: PipelineState,
    pub sid: Option<u32>,
    pub pid: Option<u64>,
}

impl View for RunnerState {
    type V = RunnerStateView;

    open spec fn view(&self) -> RunnerStateView {
        RunnerStateView {
            pipeline_name: self.pipeline_name@,
            step_index: self.step_index as int,
            status: self.status,
            sid: self.sid,
            pid: self.pid,
        }
    }
}

/// The machine's invariant against the pipeline it drives: the state names
/// that pipeline, and while the run is in flight the next step exists.
pub open spec fn runner_inv(st: RunnerStateView, p: crate::trigger::PipelineView) -> bool {
    &&& st.pipeline_name == p.name
    &&& st.status == PipelineState::Running ==> 0 <= st.step_index < p.steps.len()
}

/// Open a run: status `Started`, and the record to append for it.
pub fn start_run(pipeline: &Pipeline, sid: Option<u32>, pid: Option<u64>) -> (r: (
    RunnerState,
    PipelineLog,
))
    ensures
        r.0@.pipeline_name == pipeline@.name,
        r.0@.step_index == 0,
        r.0@.status == PipelineState::Started,
        r.0@.sid == sid,
        r.0@.pid == pid,
        runner_inv(r.0@, pipeline@),
        r.1@.name == pipeline@.name,
        r.1@.state == PipelineState::Started,
        r.1@.sid == sid,
        r.1@.pid == pid,
        r.1@.step is None,
        dated(r.1@),
{
    let state = RunnerState {
        pipeline_name: pipeline.name.clone(),
        step_index: 0,
        status: PipelineState::Started,
        sid,
        pid,
    };
    let record = PipelineLog {
        state: PipelineState::Started,
        date: now_date(),
        name: pipeline.name.clone(),
        sid,
        pid,
        step: None,
    };
    (state, record)
}

/// The first step begins: a run with steps moves to `Running`; one with no
/// steps has nothing left to fail and resolves to `Succeeded` at once. The
/// returned record logs the transition.
pub fn begin_steps(state: RunnerState, pipeline: &Pipeline) -> (r: (RunnerState, PipelineLog))
    requires
        state@.status == PipelineState::Started,
        state@.step_index == 0,
        state@.pipeline_name == pipeline@.name,
    ensures
        r.0@.status == (if pipeline@.steps.len() == 0 {
            PipelineState::Succeeded
        } else {
            PipelineState::Running
        }),
        r.0@.pipeline_name == state@.pipeline_name,
        r.0@.step_index == 0,
        r.0@.sid == state@.sid,
        r.0@.pid == state@.pid,
        runner_inv(r.0@, pipeline@),
        r.1@.name == state@.pipeline_name,
        r.1@.state == r.0@.status,
        r.1@.sid == state@.sid,
        r.1@.pid == state@.pid,
        r.1@.step is None,
        dated(r.1@),
{
    let status = if pipeline.steps.len() == 0 {
        PipelineState::Succeeded
    } else {
        PipelineState::Running
    };
    let state = RunnerState { status, ..state };
    let record = PipelineLog {
        state: status,
        date: now_date(),
        name: state.pipeline_name.clone(),
        sid: state.sid,
        pid: state.pid,
        step: None,
    };
    (state, record)
}

/// The status one step outcome moves a running pipeline to: a failure
/// resolves it to `Failed` on the spot, success on the last step to
/// `Succeeded`, success earlier keeps it `Running`.
pub open spec fn spec_next_status(step_index: int, steps_len: int, success: bool) -> PipelineState {
    if !success {
        PipelineState::Failed
    } else if step_index + 1 == steps_len {
        PipelineState::Succeeded
    } else {
        PipelineState::Running
    }
}

/// Where a run driven from step `idx` resolves, given which of the steps
/// would succeed: the fold of `spec_next_status` that driving the machine
/// with `advance` performs.
pub open spec fn spec_resolution(idx: int, len: int, outcomes: Seq<bool>) -> PipelineState
    recommends
        0 <= idx < len,
        outcomes.len() == len,
    decreases len - idx,
{
    if idx < 0 || idx >= len {
        PipelineState::Never
    } else {
        let status = spec_next_status(idx, len, outcomes[idx]);
        if status == PipelineState::Running {
            spec_resolution(idx + 1, len, outcomes)
        } else {
            status
        }
    }
}

/// Law: a run resolves to `Succeeded` exactly when every remaining step
/// succeeds, and otherwise to `Failed` — at the first failing step, which no
/// later step survives.
pub proof fn lemma_run_resolution(idx: int, len: int, outcomes: Seq<bool>)
    requires
        0 <= idx < len,
        outcomes.len() == len,
    ensures
        spec_resolution(idx, len, outcomes) == (if forall|i: int|
            idx <= i < len ==> outcomes[i] {
            PipelineState::Succeeded
        } else {
            PipelineState::Failed
        }),
    decreases len - idx,
{
    if !outcomes[idx] {
    } else if idx + 1 == len {
    } else {
        lemma_run_resolution(idx + 1, len, outcomes);
        if forall|i: int| idx + 1 <= i < len ==> outcomes[i] {
            assert(forall|i: int| idx <= i < len ==> outcomes[i]);
        }
    }
}

/// One step finished. A failure resolves the run to `Failed` on the spot —
/// no later step runs; success on the last step resolves it to `Succeeded`;
/// success earlier keeps it `Running` at the next step. The returned record
/// logs the step boundary: the step's name, the command it ran, and what the
/// command wrote.
pub fn advance(state: RunnerState, pipeline: &Pipeline, outcome: &StepOutcome) -> (r: (
    RunnerState,
    PipelineLog,
))
    requires
        state@.status == PipelineState::Running,
        state@.pipeline_name == pipeline@.name,
        runner_inv(state@, pipeline@),
    ensures
        r.0@.status == spec_next_status(
            state@.step_index,
            pipeline@.steps.len() as int,
            outcome@.success,
        ),
        r.0@.step_index == state@.step_index + 1,
        r.0@.pipeline_name == state@.pipeline_name,
        r.0@.sid == state@.sid,
        r.0@.pid == state@.pid,
        runner_inv(r.0@, pipeline@),
        r.1@.name == state@.pipeline_name,
        r.1@.state == r.0@.status,
        r.1@.sid == state@.sid,
        r.1@.pid == state@.pid,
        r.1@.step matches Some(sl) && sl.name == pipeline@.steps[state@.step_index].name
            && sl.command.stdin == pipeline@.steps[state@.step_index].command
            && sl.command.stdout == outcome@.stdout && sl.command.stderr == outcome@.stderr,
        dated(r.1@),
{
    let i = state.step_index;
    let step_count = pipeline.steps.len();
    proof {
        assert(i < pipeline.steps@.len());
    }
    let status = if !outcome.success {
        PipelineState::Failed
    } else if i + 1 == step_count {
        PipelineState::Succeeded
    } else {
        PipelineState::Running
    };
    let state = RunnerState { status, step_index: i + 1, ..state };
    let step = crate::logs::StepLog {
        name: pipeline.steps[i].name.clone(),
        command: crate::logs::CommandLog {
            stdin: pipeline.steps[i].command.clone(),
            stdout: outcome.stdout.clone(),
            stderr: outcome.stderr.clone(),
        },
    };
    let record = PipelineLog {
        state: status,
        date: now_date(),
        name: state.pipeline_name.clone(),
        sid: state.sid,
        pid: state.pid,
        step: Some(step),
    };
    (state, record)
}

/// What the run does next.
#[derive(Clone, Copy, Debug, PartialEq, Eq, Structural)]
pub enum RunnerAction {
    /// Hand the step at this index to the step executor.
    Execute(usize),
    /// The run is resolved; nothing executes any more.
    Done,
}

/// The next step to execute, or `Done` once the run is resolved.
pub fn next_action(state: &RunnerState, pipeline: &Pipeline) -> (a: RunnerAction)
    requires
        runner_inv(state@, pipeline@),
    ensures
        a == (if state@.status == PipelineState::Running {
            RunnerAction::Execute(state.step_index)
        } else {
            RunnerAction::Done
        }),
        a matches RunnerAction::Execute(i) ==> i < pipeline@.steps.len(),
{
    match state.status {
        PipelineState::Running => RunnerAction::Execute(state.step_index),
        _ => RunnerAction::Done,
    }
}

/// The result a finished run surfaces to its caller: a run that resolved to
/// `Failed` is an execution failure (so a wrapping program can exit
/// non-zero); every other terminal status surfaces as success.
pub fn completion_result(status: PipelineState) -> (r: Result<(), PipelightError>)
    ensures
        r == (if status == PipelineState::Failed {
            Err::<(), PipelightError>(PipelightError::ExecutionFailure)
        } else {
            Ok::<(), PipelightError>(())
        }),
{
    match status {
        PipelineState::Failed => Err(PipelightError::ExecutionFailure),
        _ => Ok(()),
    }
}

} // verus!
