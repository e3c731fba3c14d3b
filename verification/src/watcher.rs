//! Watcher decisions: the live ignore filter, and what one batch of
//! filesystem events makes the watch loop do. Observing events, reading the
//! ignore file and spawning runs are the embedding loop's business; the
//! decisions here are pure, so the loop can be driven against any events the
//! machine reports.

use vstd::prelude::*;

use vstd::string::{StrSliceExecFns, StringExecFns};

use crate::text::{str_eq, str_views};
use crate::trigger::{Flag, FlagView, InvocationContext, Special};

verus! {

/// The exclusions that are always applied, before any user-supplied ignore
/// rule: the tool's own working directory, version-control metadata, and
/// common dependency caches. Keeping these non-configurable is what stops
/// the watcher from watching its own output recursively.
pub open spec fn builtin_patterns() -> Seq<Seq<char>> {
    seq![".pipelight/*"@, ".git"@, ".cargo"@, ".node_modules"@]
}

/// The built-in exclusion globs, as written.
pub fn builtin_exclusions() -> (r: Vec<String>)
    ensures
        str_views(r@) == builtin_patterns(),
{
    let mut v: Vec<String> = Vec::new();
    v.push(".pipelight/*".to_owned());
    v.push(".git".to_owned());
    v.push(".cargo".to_owned());
    v.push(".node_modules".to_owned());
    proof {
        assert(str_views(v@) =~= builtin_patterns());
    }
    v
}

/// The watcher's live filter: where the active ignore file lives (if one was
/// found) and the exclusion patterns in force, built-ins first.
pub struct FilterConfig {
    pub ignore_file: Option<String>,
    pub patterns: Vec<String>,
}

/// Mathematical image of a `FilterConfig`.
pub struct FilterConfigView {
    pub ignore_file: Option<Seq<char>>,
    pub patterns: Seq<Seq<char>>,
}

impl View for FilterConfig {
    type V = FilterConfigView;

    open spec fn view(&self) -> FilterConfigView {
        FilterConfigView {
            ignore_file: match &self.ignore_file {
                Some(p) => Some(p@),
                None => None,
            },
            patterns: str_views(self.patterns@),
        }
    }
}

/// Build the filter from the located ignore file and the globs read out of
/// it; with no ignore file the built-in exclusions stand alone. The built-in
/// exclusions always come first and cannot be configured away.
pub fn make_filter(ignore_file: Option<String>, user_globs: Vec<String>) -> (f: FilterConfig)
    ensures
        f@.patterns == builtin_patterns() + str_views(user_globs@),
        f@.ignore_file == (match ignore_file {
            Some(p) => Some::<Seq<char>>(p@),
            None => None::<Seq<char>>,
        }),
{
    let mut patterns = builtin_exclusions();
    let ghost bp = patterns@;
    let mut rest = user_globs;
    let ghost ug = rest@;
    patterns.append(&mut rest);
    proof {
        assert(str_views(bp + ug) =~= str_views(bp) + str_views(ug));
    }
    FilterConfig { ignore_file, patterns }
}

/// The ignore file the watcher uses: the tool-specific one when it exists,
/// the version-control one otherwise, none when neither was found (the
/// built-in exclusions then stand alone).
pub fn choose_ignore_file(pipelight_ignore: Option<String>, gitignore: Option<String>) -> (r:
    Option<String>)
    ensures
        match pipelight_ignore {
            Some(p) => r matches Some(q) && q@ == p@,
            None => match gitignore {
                Some(g) => r matches Some(q) && q@ == g@,
                None => r is None,
            },
        },
{
    match pipelight_ignore {
        Some(p) => Some(p),
        None => gitignore,
    }
}

/// Does `pat` end in `/*`, excluding a whole directory's contents?
pub open spec fn ends_slash_star(pat: Seq<char>) -> bool {
    pat.len() >= 2 && pat[pat.len() - 2] == '/' && pat[pat.len() - 1] == '*'
}

/// The directory a pattern stands for: itself, or what precedes a trailing
/// `/*`.
pub open spec fn glob_base(pat: Seq<char>) -> Seq<char> {
    if ends_slash_star(pat) {
        pat.take(pat.len() - 2)
    } else {
        pat
    }
}

/// This library's glob dialect: a pattern names a path, and matches that
/// path itself and everything below it.
pub open spec fn glob_matches(pat: Seq<char>, path: Seq<char>) -> bool {
    let base = glob_base(pat);
    path == base || (path.len() > base.len() && path.take(base.len() as int + 1) == base.push(
        '/',
    ))
}

/// Is `path` excluded by some pattern in force?
pub open spec fn spec_excluded(f: FilterConfigView, path: Seq<char>) -> bool {
    exists|i: int| 0 <= i < f.patterns.len() && glob_matches(#[trigger] f.patterns[i], path)
}

/// Does this pattern match this path?
fn glob_match(pat: &str, path: &str) -> (r: bool)
    ensures
        r == glob_matches(pat@, path@),
{
    let plen = pat.unicode_len();
    let base: &str = if plen >= 2 && pat.get_char(plen - 2) == '/' && pat.get_char(plen - 1)
        == '*' {
        pat.substring_char(0, plen - 2)
    } else {
        pat
    };
    proof {
        assert(base@ == glob_base(pat@));
    }
    if str_eq(path, base) {
        return true;
    }
    let blen = base.unicode_len();
    let path_len = path.unicode_len();
    if path_len > blen {
        let prefix = path.substring_char(0, blen + 1);
        let mut dir = base.to_owned();
        dir.append("/");
        proof {
            reveal_strlit("/");
            assert(base@ + "/"@ =~= base@.push('/'));
        }
        str_eq(prefix, dir.as_str())
    } else {
        false
    }
}

/// Is `path` excluded by the filter in force?
pub fn is_excluded(filter: &FilterConfig, path: &str) -> (r: bool)
    ensures
        r == spec_excluded(filter@, path@),
{
    let n = filter.patterns.len();
    let mut i: usize = 0;
    while i < n
        invariant
            i <= n,
            n == filter.patterns@.len(),
            forall|j: int| 0 <= j < i ==> !glob_matches(#[trigger] filter@.patterns[j], path@),
        decreases n - i,
    {
        proof {
            assert(filter@.patterns[i as int] == filter.patterns@[i as int]@);
        }
        if glob_match(filter.patterns[i].as_str(), path) {
            return true;
        }
        i += 1;
    }
    false
}

/// A signal the watch loop can observe inside an event batch.
#[derive(Clone, Copy, Debug, PartialEq, Eq, Structural)]
pub enum WatchSignal {
    Interrupt,
    Terminate,
    Other,
}

/// One filesystem event as the loop sees it: the paths it touched and the
/// signals delivered with it.
pub struct WatchEvent {
    pub paths: Vec<String>,
    pub signals: Vec<WatchSignal>,
}

/// Mathematical image of a `WatchEvent`.
pub struct WatchEventView {
    pub paths: Seq<Seq<char>>,
    pub signals: Seq<WatchSignal>,
}

impl View for WatchEvent {
    type V = WatchEventView;

    open spec fn view(&self) -> WatchEventView {
        WatchEventView { paths: str_views(self.paths@), signals: self.signals@ }
    }
}

/// The views of a sequence of events.
pub open spec fn event_views(s: Seq<WatchEvent>) -> Seq<WatchEventView> {
    s.map_values(|e: WatchEvent| e@)
}

/// Did some event of the batch touch the active ignore file? When it did,
/// the filter must be rebuilt and swapped before the rest of the batch is
/// acted on — self-reconfiguration, with no process restart.
pub open spec fn spec_needs_reconfigure(f: FilterConfigView, evs: Seq<WatchEventView>) -> bool {
    f.ignore_file matches Some(p) && exists|i: int, j: int|
        0 <= i < evs.len() && 0 <= j < evs[i].paths.len() && #[trigger] evs[i].paths[j] == p
}

/// Must the filter be rebuilt before this batch is acted on?
pub fn needs_reconfigure(filter: &FilterConfig, events: &Vec<WatchEvent>) -> (r: bool)
    ensures
        r == spec_needs_reconfigure(filter@, event_views(events@)),
{
    let ghost evs = event_views(events@);
    match &filter.ignore_file {
        None => false,
        Some(p) => {
            let n = events.len();
            let mut i: usize = 0;
            while i < n
                invariant
                    i <= n,
                    n == events@.len(),
                    evs == event_views(events@),
                    filter@.ignore_file == Some(p@),
                    forall|a: int, b: int|
                        0 <= a < i && 0 <= b < evs[a].paths.len() ==> #[trigger] evs[a].paths[b]
                            != p@,
                decreases n - i,
            {
                let ev = &events[i];
                let m = ev.paths.len();
                let mut j: usize = 0;
                while j < m
                    invariant
                        j <= m,
                        m == ev.paths@.len(),
                        evs == event_views(events@),
                        0 <= i < n,
                        n == events@.len(),
                        ev == &events[i as int],
                        filter@.ignore_file == Some(p@),
                        forall|b: int| 0 <= b < j ==> evs[i as int].paths[b] != p@,
                    decreases m - j,
                {
                    proof {
                        assert(evs[i as int] == events@[i as int]@);
                        assert(evs[i as int].paths[j as int] == ev.paths@[j as int]@);
                    }
                    if str_eq(ev.paths[j].as_str(), p.as_str()) {
                        proof {
                            assert(evs[i as int].paths[j as int] == p@);
                            assert(spec_needs_reconfigure(filter@, evs));
                        }
                        return true;
                    }
                    j += 1;
                }
                proof {
                    assert(evs[i as int] == events@[i as int]@);
                }
                i += 1;
            }
            false
        },
    }
}

/// Is a signal a request to stop the watcher?
pub open spec fn is_stop(s: WatchSignal) -> bool {
    s == WatchSignal::Interrupt || s == WatchSignal::Terminate
}

/// Does the batch carry an interrupt or terminate signal?
pub open spec fn spec_has_termination(evs: Seq<WatchEventView>) -> bool {
    exists|i: int, j: int|
        0 <= i < evs.len() && 0 <= j < evs[i].signals.len() && is_stop(
            #[trigger] evs[i].signals[j],
        )
}

fn has_termination(events: &Vec<WatchEvent>) -> (r: bool)
    ensures
        r == spec_has_termination(event_views(events@)),
{
    let ghost evs = event_views(events@);
    let n = events.len();
    let mut i: usize = 0;
    while i < n
        invariant
            i <= n,
            n == events@.len(),
            evs == event_views(events@),
            forall|a: int, b: int|
                0 <= a < i && 0 <= b < evs[a].signals.len() ==> !is_stop(
                    #[trigger] evs[a].signals[b],
                ),
        decreases n - i,
    {
        let ev = &events[i];
        let m = ev.signals.len();
        let mut j: usize = 0;
        while j < m
            invariant
                j <= m,
                m == ev.signals@.len(),
                evs == event_views(events@),
                0 <= i < n,
                n == events@.len(),
                ev == &events[i as int],
                forall|b: int| 0 <= b < j ==> !is_stop(evs[i as int].signals[b]),
            decreases m - j,
        {
            proof {
                assert(evs[i as int] == events@[i as int]@);
                assert(evs[i as int].signals[j as int] == ev.signals@[j as int]);
            }
            let stop = match ev.signals[j] {
                WatchSignal::Interrupt => true,
                WatchSignal::Terminate => true,
                WatchSignal::Other => false,
            };
            if stop {
                return true;
            }
            j += 1;
        }
        proof {
            assert(evs[i as int] == events@[i as int]@);
        }
        i += 1;
    }
    false
}

/// Does the event touch some path the filter does not exclude?
pub open spec fn spec_passing(f: FilterConfigView, ev: WatchEventView) -> bool {
    exists|j: int| 0 <= j < ev.paths.len() && !spec_excluded(f, #[trigger] ev.paths[j])
}

/// What the watch loop does with one batch.
#[derive(Clone, Copy, Debug, PartialEq, Eq, Structural)]
pub enum BatchAction {
    /// Leave the loop cleanly; no pipeline is triggered by this batch.
    Exit,
    /// Clear pending state and start the trigger path.
    Trigger,
    /// Nothing: every path was excluded, or a run is already in flight.
    DoNothing,
}

/// The decision for one batch: a stop signal exits the loop; while a run is
/// in flight nothing new starts (debounce); otherwise a batch touching some
/// non-excluded path triggers, and a fully excluded batch does nothing.
pub open spec fn spec_decide(
    f: FilterConfigView,
    evs: Seq<WatchEventView>,
    running: bool,
) -> BatchAction {
    if spec_has_termination(evs) {
        BatchAction::Exit
    } else if running {
        BatchAction::DoNothing
    } else if exists|i: int| 0 <= i < evs.len() && spec_passing(f, #[trigger] evs[i]) {
        BatchAction::Trigger
    } else {
        BatchAction::DoNothing
    }
}

/// Decide what one batch makes the loop do, against the filter in force and
/// whether a triggered run is still in flight.
pub fn decide(filter: &FilterConfig, events: &Vec<WatchEvent>, running: bool) -> (a: BatchAction)
    ensures
        a == spec_decide(filter@, event_views(events@), running),
{
    let ghost evs = event_views(events@);
    if has_termination(events) {
        return BatchAction::Exit;
    }
    if running {
        return BatchAction::DoNothing;
    }
    let n = events.len();
    let mut i: usize = 0;
    while i < n
        invariant
            i <= n,
            n == events@.len(),
            evs == event_views(events@),
            !spec_has_termination(evs),
            !running,
            forall|a: int| 0 <= a < i ==> !spec_passing(filter@, #[trigger] evs[a]),
        decreases n - i,
    {
        let ev = &events[i];
        let m = ev.paths.len();
        let mut j: usize = 0;
        while j < m
            invariant
                j <= m,
                m == ev.paths@.len(),
                evs == event_views(events@),
                0 <= i < n,
                n == events@.len(),
                ev == &events[i as int],
                !spec_has_termination(evs),
                !running,
                forall|b: int| 0 <= b < j ==> spec_excluded(filter@, evs[i as int].paths[b]),
            decreases m - j,
        {
            proof {
                assert(evs[i as int] == events@[i as int]@);
                assert(evs[i as int].paths[j as int] == ev.paths@[j as int]@);
            }
            if !is_excluded(filter, ev.paths[j].as_str()) {
                proof {
                    assert(spec_passing(filter@, evs[i as int]));
                }
                return BatchAction::Trigger;
            }
            j += 1;
        }
        proof {
            assert(evs[i as int] == events@[i as int]@);
            assert(!spec_passing(filter@, evs[i as int]));
        }
        i += 1;
    }
    BatchAction::DoNothing
}

/// Law (clean shutdown): a batch that carries an interrupt or terminate
/// signal makes the loop exit within that very cycle, and in particular
/// triggers no pipeline.
pub proof fn lemma_signal_exits(f: FilterConfigView, evs: Seq<WatchEventView>, running: bool)
    requires
        spec_has_termination(evs),
    ensures
        spec_decide(f, evs, running) == BatchAction::Exit,
        spec_decide(f, evs, running) != BatchAction::Trigger,
{
}

/// Law (exclusion): a batch whose every touched path the filter in force
/// excludes triggers no pipeline. In particular, once the filter has been
/// rebuilt to exclude a path, a later change to that path starts nothing.
pub proof fn lemma_excluded_paths_do_not_trigger(
    f: FilterConfigView,
    evs: Seq<WatchEventView>,
    running: bool,
)
    requires
        forall|i: int, j: int|
            0 <= i < evs.len() && 0 <= j < evs[i].paths.len() ==> spec_excluded(
                f,
                #[trigger] evs[i].paths[j],
            ),
    ensures
        spec_decide(f, evs, running) != BatchAction::Trigger,
{
    assert forall|i: int| 0 <= i < evs.len() implies !spec_passing(f, #[trigger] evs[i]) by {
        assert(forall|j: int|
            0 <= j < evs[i].paths.len() ==> spec_excluded(f, #[trigger] evs[i].paths[j]));
    }
}

/// The context under which the watcher fires the trigger path: the same
/// invocation, with the watch flag as what fired the run.
pub fn watch_context(context: &InvocationContext) -> (r: InvocationContext)
    ensures
        r@.flag == Some(FlagView::Special(Special::Watch)),
        r@.attached == context@.attached,
        r@.command_signature == context@.command_signature,
{
    let mut r = context.clone();
    r.flag = Some(Flag::Special(Special::Watch));
    r
}

} // verus!
