//! The actions a command-line invocation maps to, and the launch path every
//! trigger source funnels into: resolve a pipeline by name, ask whether the
//! context makes it eligible, and decide foreground run, background
//! re-spawn, or nothing.

use vstd::prelude::*;

use vstd::string::StringExecFns;

use crate::error::PipelightError;
use crate::process::should_detach;
use crate::process::Decision;
use crate::trigger::{
    pipeline_views, spec_is_triggerable, InvocationContext, Pipeline, PipelineView,
};
use crate::text::str_eq;

verus! {

/// What a command-line invocation asks for: run one pipeline by name,
/// trigger every pipeline a flag makes eligible, or watch the tree.
#[derive(Clone, Debug)]
pub enum Action {
    Run(Option<String>),
    Trigger(Option<String>),
    Watch,
}

/// Marker for the run action.
#[derive(Clone, Copy, Debug)]
pub struct Run;

/// The pipeline definitions a configuration carries, when it carries any.
pub struct Config {
    pub pipelines: Option<Vec<Pipeline>>,
}

/// Mathematical image of a `Config`.
pub struct ConfigView {
    pub pipelines: Option<Seq<PipelineView>>,
}

impl View for Config {
    type V = ConfigView;

    open spec fn view(&self) -> ConfigView {
        ConfigView {
            pipelines: match &self.pipelines {
                Some(ps) => Some(pipeline_views(ps@)),
                None => None,
            },
        }
    }
}

/// The first pipeline of the configuration that carries `name`, if any
/// (configurations are deduplicated by name, so the first is the only one).
pub open spec fn spec_find_pipeline(s: Seq<PipelineView>, name: Seq<char>) -> Option<PipelineView>
    decreases s.len(),
{
    if s.len() == 0 {
        None
    } else if s[0].name == name {
        Some(s[0])
    } else {
        spec_find_pipeline(s.subrange(1, s.len() as int), name)
    }
}

fn find_pipeline_from(pipelines: &Vec<Pipeline>, name: &str, i: usize) -> (r: Option<Pipeline>)
    requires
        i <= pipelines@.len(),
    ensures
        match r {
            Some(p) => spec_find_pipeline(pipeline_views(pipelines@).skip(i as int), name@)
                == Some(p@),
            None => spec_find_pipeline(pipeline_views(pipelines@).skip(i as int), name@) is None,
        },
    decreases pipelines@.len() - i,
{
    let ghost vs = pipeline_views(pipelines@);
    if i == pipelines.len() {
        proof {
            assert(vs.skip(i as int) =~= Seq::<PipelineView>::empty());
        }
        None
    } else {
        proof {
            assert(vs.skip(i as int)[0] == vs[i as int]);
            assert(vs[i as int] == pipelines@[i as int]@);
            assert(vs.skip(i as int).subrange(1, vs.skip(i as int).len() as int) =~= vs.skip(
                i as int + 1,
            ));
        }
        if str_eq(pipelines[i].name.as_str(), name) {
            Some(pipelines[i].clone())
        } else {
            find_pipeline_from(pipelines, name, i + 1)
        }
    }
}

impl Pipeline {
    /// The pipelines the configuration declares; a configuration without any
    /// is malformed.
    pub fn get(config: &Config) -> (r: Result<Vec<Pipeline>, PipelightError>)
        ensures
            match r {
                Ok(v) => config@.pipelines == Some(pipeline_views(v@)),
                Err(PipelightError::ConfigError) => config@.pipelines is None,
                Err(_) => false,
            },
    {
        match &config.pipelines {
            Some(ps) => {
                let mut out: Vec<Pipeline> = Vec::new();
                let n = ps.len();
                let mut i: usize = 0;
                while i < n
                    invariant
                        i <= n,
                        n == ps@.len(),
                        pipeline_views(out@) == pipeline_views(ps@).take(i as int),
                    decreases n - i,
                {
                    let ghost prev = out@;
                    let p = ps[i].clone();
                    out.push(p);
                    proof {
                        assert(pipeline_views(prev.push(p)) =~= pipeline_views(prev).push(p@));
                        assert(pipeline_views(prev).push(p@) =~= pipeline_views(ps@).take(
                            i as int + 1,
                        ));
                    }
                    i += 1;
                }
                proof {
                    assert(pipeline_views(ps@).take(n as int) =~= pipeline_views(ps@));
                }
                Ok(out)
            },
            None => Err(PipelightError::ConfigError),
        }
    }

    /// The pipeline declared under `name`; unknown names are `NotFound`,
    /// exactly.
    pub fn get_by_name(pipelines: &Vec<Pipeline>, name: &str) -> (r: Result<
        Pipeline,
        PipelightError,
    >)
        ensures
            match r {
                Ok(p) => spec_find_pipeline(pipeline_views(pipelines@), name@) == Some(p@),
                Err(PipelightError::NotFound) => spec_find_pipeline(
                    pipeline_views(pipelines@),
                    name@,
                ) is None,
                Err(_) => false,
            },
    {
        let found = find_pipeline_from(pipelines, name, 0);
        proof {
            assert(pipeline_views(pipelines@).skip(0) =~= pipeline_views(pipelines@));
        }
        match found {
            Some(p) => Ok(p),
            None => Err(PipelightError::NotFound),
        }
    }
}

/// What `launch` decides for an eligible pipeline.
#[derive(Clone, Copy, Debug, PartialEq, Eq, Structural)]
pub enum LaunchPlan {
    /// Run it here, in the foreground, blocking until completion.
    RunNow,
    /// Re-spawn the invocation in the background and return at once.
    Detach,
    /// The context does not make it eligible: do nothing.
    Skipped,
}

/// The plan for a resolved pipeline under a context: not eligible — skip; an
/// attached context runs in the foreground; an unattached one detaches.
pub open spec fn spec_launch_plan(
    p: PipelineView,
    c: crate::trigger::InvocationContextView,
) -> LaunchPlan {
    if !spec_is_triggerable(p, c.flag) {
        LaunchPlan::Skipped
    } else if c.attached {
        LaunchPlan::RunNow
    } else {
        LaunchPlan::Detach
    }
}

/// Resolve a pipeline by name and decide what this invocation does with it.
/// `NotFound` exactly when no pipeline carries the name; an ineligible
/// pipeline is skipped, never an error.
pub fn launch(pipelines: &Vec<Pipeline>, pipeline_name: &str, context: &InvocationContext) -> (r:
    Result<LaunchPlan, PipelightError>)
    ensures
        match r {
            Ok(plan) => spec_find_pipeline(pipeline_views(pipelines@), pipeline_name@) matches Some(
                p,
            ) && plan == spec_launch_plan(p, context@),
            Err(PipelightError::NotFound) => spec_find_pipeline(
                pipeline_views(pipelines@),
                pipeline_name@,
            ) is None,
            Err(_) => false,
        },
{
    let pipeline = match Pipeline::get_by_name(pipelines, pipeline_name) {
        Ok(p) => p,
        Err(e) => {
            return Err(e);
        },
    };
    if !crate::trigger::is_triggerable(&pipeline, context) {
        return Ok(LaunchPlan::Skipped);
    }
    match should_detach(context) {
        Decision::RunForeground => Ok(LaunchPlan::RunNow),
        Decision::SpawnBackground => Ok(LaunchPlan::Detach),
    }
}

/// The command line that re-runs a pipeline detached: the runner binary
/// invoked with the pipeline's name. `NotFound` exactly when no pipeline
/// carries the name; the caller spawns the command.
pub fn run(pipelines: &Vec<Pipeline>, pipeline_name: &str) -> (r: Result<String, PipelightError>)
    ensures
        match r {
            Ok(cmd) => spec_find_pipeline(pipeline_views(pipelines@), pipeline_name@) is Some
                && cmd@ == "cargo run --bin pipelight-run "@ + pipeline_name@,
            Err(PipelightError::NotFound) => spec_find_pipeline(
                pipeline_views(pipelines@),
                pipeline_name@,
            ) is None,
            Err(_) => false,
        },
{
    match Pipeline::get_by_name(pipelines, pipeline_name) {
        Ok(_) => {
            let cmd = String::from_str("cargo run --bin pipelight-run ").concat(pipeline_name);
            Ok(cmd)
        },
        Err(e) => Err(e),
    }
}

} // verus!
