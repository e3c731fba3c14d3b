//! Trigger matching: deciding, from pipeline definitions and an invocation
//! context, which pipelines are eligible to run. Pure and total: absence of
//! matches is an empty selection, never an error.

use vstd::prelude::*;

use crate::git::GitHook;
use crate::text::str_eq;

verus! {

/// The special, non-git trigger sources.
#[derive(Clone, Copy, Debug, PartialEq, Eq, Structural)]
pub enum Special {
    Watch,
}

/// What fired a run: the watcher, a git hook, or a user-defined flag.
pub enum Flag {
    Special(Special),
    Hook(GitHook),
    Named(String),
}

/// Mathematical image of a `Flag`.
pub enum FlagView {
    Special(Special),
    Hook(GitHook),
    Named(Seq<char>),
}

impl View for Flag {
    type V = FlagView;

    open spec fn view(&self) -> FlagView {
        match self {
            Flag::Special(s) => FlagView::Special(*s),
            Flag::Hook(h) => FlagView::Hook(*h),
            Flag::Named(n) => FlagView::Named(n@),
        }
    }
}

impl Clone for Flag {
    fn clone(&self) -> (r: Self)
        ensures
            r@ == self@,
    {
        match self {
            Flag::Special(s) => Flag::Special(*s),
            Flag::Hook(h) => Flag::Hook(*h),
            Flag::Named(n) => Flag::Named(n.clone()),
        }
    }
}

/// Do two flags declare the same condition (same variant, equal payload)?
pub fn flag_eq(a: &Flag, b: &Flag) -> (r: bool)
    ensures
        r == (a@ == b@),
{
    match (a, b) {
        (Flag::Special(_), Flag::Special(_)) => true,
        (Flag::Hook(x), Flag::Hook(y)) => *x == *y,
        (Flag::Named(x), Flag::Named(y)) => str_eq(x.as_str(), y.as_str()),
        _ => false,
    }
}

/// A declared condition under which a pipeline is eligible.
pub struct Trigger {
    pub flag: Flag,
}

/// Mathematical image of a `Trigger`.
pub struct TriggerView {
    pub flag: FlagView,
}

impl View for Trigger {
    type V = TriggerView;

    open spec fn view(&self) -> TriggerView {
        TriggerView { flag: self.flag@ }
    }
}

impl Clone for Trigger {
    fn clone(&self) -> (r: Self)
        ensures
            r@ == self@,
    {
        Trigger { flag: self.flag.clone() }
    }
}

/// Do two triggers declare the same condition?
pub fn trigger_eq(a: &Trigger, b: &Trigger) -> (r: bool)
    ensures
        r == (a@ == b@),
{
    flag_eq(&a.flag, &b.flag)
}

/// One unit of work a pipeline runs: a named shell command. The core treats
/// steps as opaque beyond "executable"; running them is the step executor's
/// business.
pub struct Step {
    pub name: String,
    pub command: String,
}

/// Mathematical image of a `Step`.
pub struct StepView {
    pub name: Seq<char>,
    pub command: Seq<char>,
}

impl View for Step {
    type V = StepView;

    open spec fn view(&self) -> StepView {
        StepView { name: self.name@, command: self.command@ }
    }
}

impl Clone for Step {
    fn clone(&self) -> (r: Self)
        ensures
            r@ == self@,
    {
        Step { name: self.name.clone(), command: self.command.clone() }
    }
}

/// The views of a sequence of triggers.
pub open spec fn trigger_views(s: Seq<Trigger>) -> Seq<TriggerView> {
    s.map_values(|t: Trigger| t@)
}

/// The views of a sequence of steps.
pub open spec fn step_views(s: Seq<Step>) -> Seq<StepView> {
    s.map_values(|t: Step| t@)
}

proof fn lemma_trigger_views_push(s: Seq<Trigger>, t: Trigger)
    ensures
        trigger_views(s.push(t)) == trigger_views(s).push(t@),
{
    assert(trigger_views(s.push(t)) =~= trigger_views(s).push(t@));
}

proof fn lemma_step_views_push(s: Seq<Step>, t: Step)
    ensures
        step_views(s.push(t)) == step_views(s).push(t@),
{
    assert(step_views(s.push(t)) =~= step_views(s).push(t@));
}

/// A named, user-declared unit of work: the conditions that make it eligible
/// and the steps it runs, both in declaration order. Constructed once from
/// configuration and read-only afterwards.
pub struct Pipeline {
    pub name: String,
    pub triggers: Vec<Trigger>,
    pub steps: Vec<Step>,
}

/// Mathematical image of a `Pipeline`.
pub struct PipelineView {
    pub name: Seq<char>,
    pub triggers: Seq<TriggerView>,
    pub steps: Seq<StepView>,
}

impl View for Pipeline {
    type V = PipelineView;

    open spec fn view(&self) -> PipelineView {
        PipelineView {
            name: self.name@,
            triggers: trigger_views(self.triggers@),
            steps: step_views(self.steps@),
        }
    }
}

impl Clone for Pipeline {
    fn clone(&self) -> (r: Self)
        ensures
            r@ == self@,
    {
        let mut triggers: Vec<Trigger> = Vec::new();
        let mut i: usize = 0;
        let n = self.triggers.len();
        while i < n
            invariant
                i <= n,
                n == self.triggers@.len(),
                trigger_views(triggers@) == trigger_views(self.triggers@).take(i as int),
            decreases n - i,
        {
            let ghost prev = triggers@;
            let t = self.triggers[i].clone();
            triggers.push(t);
            proof {
                lemma_trigger_views_push(prev, t);
                assert(trigger_views(prev).push(t@) =~= trigger_views(self.triggers@).take(
                    i as int + 1,
                ));
            }
            i += 1;
        }
        let mut steps: Vec<Step> = Vec::new();
        let mut j: usize = 0;
        let m = self.steps.len();
        while j < m
            invariant
                j <= m,
                m == self.steps@.len(),
                step_views(steps@) == step_views(self.steps@).take(j as int),
            decreases m - j,
        {
            let ghost prev = steps@;
            let t = self.steps[j].clone();
            steps.push(t);
            proof {
                lemma_step_views_push(prev, t);
                assert(step_views(prev).push(t@) =~= step_views(self.steps@).take(j as int + 1));
            }
            j += 1;
        }
        proof {
            assert(trigger_views(self.triggers@).take(n as int) =~= trigger_views(self.triggers@));
            assert(step_views(self.steps@).take(m as int) =~= step_views(self.steps@));
        }
        Pipeline { name: self.name.clone(), triggers, steps }
    }
}

/// The views of a sequence of pipelines.
pub open spec fn pipeline_views(s: Seq<Pipeline>) -> Seq<PipelineView> {
    s.map_values(|p: Pipeline| p@)
}

/// The ambient condition under which the program was started: what fired
/// this run (`None` for a manual run), whether this invocation has already
/// performed its one allowed detach, and the exact command line with which
/// the same action is re-spawned. Built once per process; read-only after.
pub struct InvocationContext {
    pub flag: Option<Flag>,
    pub attached: bool,
    pub command_signature: String,
}

/// Mathematical image of an `InvocationContext`.
pub struct InvocationContextView {
    pub flag: Option<FlagView>,
    pub attached: bool,
    pub command_signature: Seq<char>,
}

impl View for InvocationContext {
    type V = InvocationContextView;

    open spec fn view(&self) -> InvocationContextView {
        InvocationContextView {
            flag: match &self.flag {
                Some(f) => Some(f@),
                None => None,
            },
            attached: self.attached,
            command_signature: self.command_signature@,
        }
    }
}

impl Clone for InvocationContext {
    fn clone(&self) -> (r: Self)
        ensures
            r@ == self@,
    {
        InvocationContext {
            flag: match &self.flag {
                Some(f) => Some(f.clone()),
                None => None,
            },
            attached: self.attached,
            command_signature: self.command_signature.clone(),
        }
    }
}

/// Is a pipeline eligible under this context? With no active flag the run is
/// manual and every pipeline named explicitly is eligible; with an active
/// flag, exactly the pipelines whose triggers contain it are.
pub open spec fn spec_is_triggerable(p: PipelineView, flag: Option<FlagView>) -> bool {
    match flag {
        None => true,
        Some(f) => p.triggers.contains(TriggerView { flag: f }),
    }
}

/// Law: a pipeline is triggerable exactly when the context carries no flag
/// (manual invocation by name) or its flag is among the pipeline's declared
/// triggers; the result is a function of the two arguments alone, so
/// repeated calls with identical inputs agree.
pub fn is_triggerable(pipeline: &Pipeline, context: &InvocationContext) -> (r: bool)
    ensures
        r == spec_is_triggerable(pipeline@, context@.flag),
{
    match &context.flag {
        None => true,
        Some(f) => {
            let n = pipeline.triggers.len();
            let mut i: usize = 0;
            while i < n
                invariant
                    i <= n,
                    n == pipeline.triggers@.len(),
                    context@.flag == Some(f@),
                    forall|j: int|
                        0 <= j < i ==> trigger_views(pipeline.triggers@)[j] != (TriggerView {
                            flag: f@,
                        }),
                decreases n - i,
            {
                proof {
                    assert(trigger_views(pipeline.triggers@)[i as int]
                        == pipeline.triggers@[i as int]@);
                }
                if flag_eq(&pipeline.triggers[i].flag, f) {
                    proof {
                        assert(pipeline@.triggers[i as int] == (TriggerView { flag: f@ }));
                        assert(pipeline@.triggers.contains(TriggerView { flag: f@ }));
                        assert(context@.flag == Some(f@));
                    }
                    return true;
                }
                i += 1;
            }
            proof {
                assert(!pipeline@.triggers.contains(TriggerView { flag: f@ }));
            }
            false
        },
    }
}

/// The pipelines selected for an automatic run: with no active flag nothing
/// fires (a pipeline with zero triggers is never auto-triggered); with an
/// active flag, exactly the pipelines whose triggers contain it, in
/// declaration order.
pub open spec fn spec_selected(s: Seq<PipelineView>, flag: Option<FlagView>) -> Seq<PipelineView>
    decreases s.len(),
{
    if flag is None {
        Seq::empty()
    } else if s.len() == 0 {
        Seq::empty()
    } else {
        let rest = spec_selected(s.drop_last(), flag);
        if spec_is_triggerable(s.last(), flag) {
            rest.push(s.last())
        } else {
            rest
        }
    }
}

/// Select the pipelines an automatic run must start under this context.
pub fn select_triggerable(pipelines: &Vec<Pipeline>, context: &InvocationContext) -> (r: Vec<
    Pipeline,
>)
    ensures
        pipeline_views(r@) == spec_selected(pipeline_views(pipelines@), context@.flag),
{
    let ghost vs = pipeline_views(pipelines@);
    let mut out: Vec<Pipeline> = Vec::new();
    if context.flag.is_none() {
        proof {
            assert(pipeline_views(out@) =~= Seq::<PipelineView>::empty());
        }
        return out;
    }
    let n = pipelines.len();
    let mut i: usize = 0;
    while i < n
        invariant
            i <= n,
            n == pipelines@.len(),
            vs == pipeline_views(pipelines@),
            context@.flag is Some,
            pipeline_views(out@) == spec_selected(vs.take(i as int), context@.flag),
        decreases n - i,
    {
        proof {
            assert(vs.take(i as int + 1).drop_last() =~= vs.take(i as int));
            assert(vs.take(i as int + 1).last() == vs[i as int]);
            assert(vs[i as int] == pipelines@[i as int]@);
        }
        if is_triggerable(&pipelines[i], context) {
            let ghost prev = out@;
            out.push(pipelines[i].clone());
            proof {
                assert(pipeline_views(out@) =~= pipeline_views(prev).push(
                    pipelines@[i as int]@,
                ));
            }
        }
        i += 1;
    }
    proof {
        assert(vs.take(n as int) =~= vs);
    }
    out
}

/// Every trigger declared by any pipeline, deduplicated; each condition
/// appears once, at its first occurrence. Order is insignificant to callers.
pub fn get_all_triggers(pipelines: &Vec<Pipeline>) -> (r: Vec<Trigger>)
    ensures
        forall|t: TriggerView|
            trigger_views(r@).contains(t) <==> exists|i: int|
                0 <= i < pipelines@.len() && (#[trigger] pipeline_views(
                    pipelines@,
                )[i]).triggers.contains(t),
        forall|i: int, j: int|
            0 <= i < j < r@.len() ==> trigger_views(r@)[i] != trigger_views(r@)[j],
{
    let ghost vs = pipeline_views(pipelines@);
    let mut out: Vec<Trigger> = Vec::new();
    let n = pipelines.len();
    let mut i: usize = 0;
    while i < n
        invariant
            i <= n,
            n == pipelines@.len(),
            vs == pipeline_views(pipelines@),
            forall|t: TriggerView|
                trigger_views(out@).contains(t) <==> exists|k: int|
                    0 <= k < i && (#[trigger] vs[k]).triggers.contains(t),
            forall|a: int, b: int|
                0 <= a < b < out@.len() ==> trigger_views(out@)[a] != trigger_views(out@)[b],
        decreases n - i,
    {
        let p = &pipelines[i];
        let m = p.triggers.len();
        let mut j: usize = 0;
        while j < m
            invariant
                j <= m,
                m == p.triggers@.len(),
                vs == pipeline_views(pipelines@),
                0 <= i < n,
                n == pipelines@.len(),
                p == &pipelines[i as int],
                forall|t: TriggerView|
                    trigger_views(out@).contains(t) <==> (exists|k: int|
                        0 <= k < i && (#[trigger] vs[k]).triggers.contains(t)) || vs[
                        i as int
                    ].triggers.take(j as int).contains(t),
                forall|a: int, b: int|
                    0 <= a < b < out@.len() ==> trigger_views(out@)[a] != trigger_views(out@)[b],
            decreases m - j,
        {
            proof {
                assert(vs[i as int].triggers == trigger_views(p.triggers@));
                assert(trigger_views(p.triggers@)[j as int] == p.triggers@[j as int]@);
            }
            if !contains_trigger(&out, &p.triggers[j]) {
                let ghost prev = out@;
                out.push(p.triggers[j].clone());
                proof {
                    assert(trigger_views(out@) =~= trigger_views(prev).push(
                        p.triggers@[j as int]@,
                    ));
                    assert forall|t: TriggerView| trigger_views(out@).contains(t) implies (exists|
                        k: int,
                    |
                        0 <= k < i && (#[trigger] vs[k]).triggers.contains(t)) || vs[
                        i as int
                    ].triggers.take(j as int + 1).contains(t) by {
                        if t == p.triggers@[j as int]@ {
                            assert(vs[i as int].triggers.take(j as int + 1)[j as int] == t);
                        } else {
                            assert(trigger_views(prev).contains(t));
                            if vs[i as int].triggers.take(j as int).contains(t) {
                                let w = choose|w: int|
                                    0 <= w < j && vs[i as int].triggers.take(j as int)[w] == t;
                                assert(vs[i as int].triggers.take(j as int + 1)[w] == t);
                            }
                        }
                    }
                    assert forall|t: TriggerView|
                        ((exists|k: int| 0 <= k < i && (#[trigger] vs[k]).triggers.contains(t))
                            || vs[i as int].triggers.take(j as int + 1).contains(
                            t,
                        )) implies trigger_views(out@).contains(t) by {
                        if exists|k: int| 0 <= k < i && (#[trigger] vs[k]).triggers.contains(t) {
                            assert(trigger_views(prev).contains(t));
                            let w = choose|w: int|
                                0 <= w < prev.len() && trigger_views(prev)[w] == t;
                            assert(trigger_views(out@)[w] == t);
                        } else {
                            let w = choose|w: int|
                                0 <= w < j + 1 && #[trigger] vs[i as int].triggers.take(
                                    j as int + 1,
                                )[w] == t;
                            if w < j {
                                assert(vs[i as int].triggers.take(j as int)[w] == t);
                                assert(trigger_views(prev).contains(t));
                                let u = choose|u: int|
                                    0 <= u < prev.len() && trigger_views(prev)[u] == t;
                                assert(trigger_views(out@)[u] == t);
                            } else {
                                assert(trigger_views(out@)[out@.len() - 1] == t);
                            }
                        }
                    }
                }
            } else {
                proof {
                    assert forall|t: TriggerView| trigger_views(out@).contains(t) implies (exists|
                        k: int,
                    |
                        0 <= k < i && (#[trigger] vs[k]).triggers.contains(t)) || vs[
                        i as int
                    ].triggers.take(j as int + 1).contains(t) by {
                        if vs[i as int].triggers.take(j as int).contains(t) {
                            let w = choose|w: int|
                                0 <= w < j && vs[i as int].triggers.take(j as int)[w] == t;
                            assert(vs[i as int].triggers.take(j as int + 1)[w] == t);
                        }
                    }
                    assert forall|t: TriggerView|
                        ((exists|k: int| 0 <= k < i && (#[trigger] vs[k]).triggers.contains(t))
                            || vs[i as int].triggers.take(j as int + 1).contains(
                            t,
                        )) implies trigger_views(out@).contains(t) by {
                        if !(exists|k: int|
                            0 <= k < i && (#[trigger] vs[k]).triggers.contains(t)) {
                            let w = choose|w: int|
                                0 <= w < j + 1 && #[trigger] vs[i as int].triggers.take(
                                    j as int + 1,
                                )[w] == t;
                            if w < j {
                                assert(vs[i as int].triggers.take(j as int)[w] == t);
                            } else {
                                assert(t == p.triggers@[j as int]@);
                                assert(trigger_views(out@).contains(t));
                            }
                        }
                    }
                }
            }
            j += 1;
        }
        proof {
            assert(vs[i as int].triggers.take(m as int) =~= vs[i as int].triggers);
            assert forall|t: TriggerView| trigger_views(out@).contains(t) implies exists|k: int|
                0 <= k < i + 1 && (#[trigger] vs[k]).triggers.contains(t) by {
                if exists|k: int| 0 <= k < i && (#[trigger] vs[k]).triggers.contains(t) {
                } else {
                    assert(vs[i as int].triggers.contains(t));
                }
            }
        }
        i += 1;
    }
    out
}

/// Is one of the triggers of `v` equal to `t`?
fn contains_trigger(v: &Vec<Trigger>, t: &Trigger) -> (r: bool)
    ensures
        r == trigger_views(v@).contains(t@),
{
    let n = v.len();
    let mut i: usize = 0;
    while i < n
        invariant
            i <= n,
            n == v@.len(),
            forall|j: int| 0 <= j < i ==> trigger_views(v@)[j] != t@,
        decreases n - i,
    {
        proof {
            assert(trigger_views(v@)[i as int] == v@[i as int]@);
        }
        if trigger_eq(&v[i], t) {
            return true;
        }
        i += 1;
    }
    false
}

} // verus!
