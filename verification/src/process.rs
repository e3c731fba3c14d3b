//! Process lifecycle decisions: foreground versus background execution, the
//! at-most-one self-detach guard, and locating a stale homologous process.
//! The decisions are pure; spawning and signalling are their callers'
//! side-effecting business.

use vstd::prelude::*;

use crate::text::str_eq;
use crate::trigger::InvocationContext;

verus! {

/// What a process should do with its command: run it in the foreground,
/// blocking until completion, or re-spawn itself detached in the background.
#[derive(Clone, Copy, Debug, PartialEq, Eq, Structural)]
pub enum Decision {
    RunForeground,
    SpawnBackground,
}

/// Law: a context that is already attached always runs in the foreground,
/// and one that is not always spawns in the background — no input drives a
/// third outcome, so a process that knows it is attached never detaches
/// again.
pub fn should_detach(context: &InvocationContext) -> (d: Decision)
    ensures
        d == (if context@.attached {
            Decision::RunForeground
        } else {
            Decision::SpawnBackground
        }),
{
    if context.attached {
        Decision::RunForeground
    } else {
        Decision::SpawnBackground
    }
}

/// The context under which the re-spawned background invocation starts: the
/// same action and command, already marked attached, so the child performs
/// the work and never detaches again. The parent's own context is untouched;
/// after spawning, the parent exits.
pub fn respawned_context(context: &InvocationContext) -> (r: InvocationContext)
    ensures
        r@.attached == true,
        r@.flag == context@.flag,
        r@.command_signature == context@.command_signature,
{
    let mut r = context.clone();
    r.attached = true;
    r
}

/// One live process as a scan of the process table reports it.
pub struct ProcessInfo {
    pub pid: u64,
    pub command: String,
}

/// Mathematical image of a `ProcessInfo`.
pub struct ProcessInfoView {
    pub pid: u64,
    pub command: Seq<char>,
}

impl View for ProcessInfo {
    type V = ProcessInfoView;

    open spec fn view(&self) -> ProcessInfoView {
        ProcessInfoView { pid: self.pid, command: self.command@ }
    }
}

/// The views of a sequence of processes.
pub open spec fn process_views(s: Seq<ProcessInfo>) -> Seq<ProcessInfoView> {
    s.map_values(|p: ProcessInfo| p@)
}

/// Is `p` a previous instance of the same logical action: same command line,
/// but not the calling process itself?
pub open spec fn homologous(p: ProcessInfoView, signature: Seq<char>, self_pid: u64) -> bool {
    p.command == signature && p.pid != self_pid
}

pub open spec fn no_homologous(
    s: Seq<ProcessInfoView>,
    signature: Seq<char>,
    self_pid: u64,
) -> bool {
    forall|i: int| 0 <= i < s.len() ==> !homologous(#[trigger] s[i], signature, self_pid)
}

/// The process to terminate before starting a new long-lived instance: the
/// first homologous one of the scan, or none.
pub open spec fn spec_kill_target(
    s: Seq<ProcessInfoView>,
    signature: Seq<char>,
    self_pid: u64,
) -> Option<u64>
    decreases s.len(),
{
    if s.len() == 0 {
        None
    } else if homologous(s[0], signature, self_pid) {
        Some(s[0].pid)
    } else {
        spec_kill_target(s.subrange(1, s.len() as int), signature, self_pid)
    }
}

fn kill_target_from(
    processes: &Vec<ProcessInfo>,
    signature: &str,
    self_pid: u64,
    i: usize,
) -> (r: Option<u64>)
    requires
        i <= processes@.len(),
    ensures
        r == spec_kill_target(
            process_views(processes@).skip(i as int),
            signature@,
            self_pid,
        ),
    decreases processes@.len() - i,
{
    let ghost vs = process_views(processes@);
    if i == processes.len() {
        proof {
            assert(vs.skip(i as int) =~= Seq::<ProcessInfoView>::empty());
        }
        None
    } else {
        proof {
            assert(vs.skip(i as int)[0] == vs[i as int]);
            assert(vs[i as int] == processes@[i as int]@);
            assert(vs.skip(i as int).subrange(1, vs.skip(i as int).len() as int) =~= vs.skip(
                i as int + 1,
            ));
        }
        let p = &processes[i];
        if p.pid != self_pid && str_eq(p.command.as_str(), signature) {
            Some(p.pid)
        } else {
            kill_target_from(processes, signature, self_pid, i + 1)
        }
    }
}

/// Scan the live processes for a previous instance of the same logical
/// action and name the one to terminate; `None` — the common case — means
/// there is nothing to do. The caller sends the termination signal.
pub fn kill_homologous(processes: &Vec<ProcessInfo>, signature: &str, self_pid: u64) -> (r:
    Option<u64>)
    ensures
        r == spec_kill_target(process_views(processes@), signature@, self_pid),
{
    let r = kill_target_from(processes, signature, self_pid, 0);
    proof {
        assert(process_views(processes@).skip(0) =~= process_views(processes@));
    }
    r
}

/// Law: `kill_homologous` is idempotent — when no homologous process exists
/// there is nothing to terminate, the operation is a no-op, and it succeeds
/// (absence of a match is not an error).
pub proof fn lemma_kill_homologous_idempotent(
    s: Seq<ProcessInfoView>,
    signature: Seq<char>,
    self_pid: u64,
)
    requires
        no_homologous(s, signature, self_pid),
    ensures
        spec_kill_target(s, signature, self_pid) is None,
    decreases s.len(),
{
    if s.len() == 0 {
    } else {
        assert(!homologous(s[0], signature, self_pid));
        let rest = s.subrange(1, s.len() as int);
        assert(no_homologous(rest, signature, self_pid)) by {
            assert(forall|i: int| 0 <= i < rest.len() ==> rest[i] == s[i + 1]);
        }
        lemma_kill_homologous_idempotent(rest, signature, self_pid);
    }
}

/// The shell that executes steps: the user's session shell when the
/// environment names one, the fixed default otherwise.
pub fn get_shell(user_shell: Option<String>) -> (r: String)
    ensures
        match user_shell {
            Some(s) => r@ == s@,
            None => r@ == "sh"@,
        },
{
    match user_shell {
        Some(s) => s,
        None => "sh".to_owned(),
    }
}

} // verus!
