use pipelight::actions::{launch, run, Config, LaunchPlan};
use pipelight::git::{GitHook, Hook, Hooks};
use pipelight::error::PipelightError;
use pipelight::logs::{CommandLog, PipelineLog, PipelineState, StepLog};
use pipelight::process::{
    get_shell, kill_homologous, respawned_context, should_detach, Decision, ProcessInfo,
};
use pipelight::runner::{
    advance, begin_steps, completion_result, next_action, start_run, RunnerAction, StepOutcome,
};
use pipelight::store::Logs;
use pipelight::trigger::{
    get_all_triggers, is_triggerable, select_triggerable, Flag, InvocationContext, Pipeline,
    Special, Step, Trigger,
};
use pipelight::watcher::{
    builtin_exclusions, choose_ignore_file, decide, is_excluded, make_filter, needs_reconfigure,
    watch_context, BatchAction, WatchEvent, WatchSignal,
};

fn pipeline(name: &str, triggers: Vec<Trigger>, steps: Vec<Step>) -> Pipeline {
    Pipeline {
        name: name.to_owned(),
        triggers,
        steps,
    }
}

fn ctx(flag: Option<Flag>, attached: bool) -> InvocationContext {
    InvocationContext {
        flag,
        attached,
        command_signature: "pipelight trigger --attach".to_owned(),
    }
}

fn record(name: &str, state: PipelineState, date: &str) -> PipelineLog {
    PipelineLog {
        state,
        date: date.to_owned(),
        name: name.to_owned(),
        sid: None,
        pid: None,
        step: None,
    }
}

#[test]
fn internal() -> Result<(), Box<dyn std::error::Error>> {
    Ok(())
}

#[test]
fn triggerable_manual_and_matching_flag() {
    let p = pipeline(
        "build",
        vec![Trigger { flag: Flag::Special(Special::Watch) }],
        vec![],
    );
    // Manual invocation: no active flag.
    assert!(is_triggerable(&p, &ctx(None, true)));
    // Matching flag.
    assert!(is_triggerable(
        &p,
        &ctx(Some(Flag::Special(Special::Watch)), true)
    ));
    // Non-matching flag.
    assert!(!is_triggerable(
        &p,
        &ctx(Some(Flag::Named("deploy-hook".to_owned())), true)
    ));
    // Zero triggers: manual yes, flagged no.
    let bare = pipeline("bare", vec![], vec![]);
    assert!(is_triggerable(&bare, &ctx(None, false)));
    assert!(!is_triggerable(
        &bare,
        &ctx(Some(Flag::Special(Special::Watch)), false)
    ));
}

#[test]
fn scenario_watch_flag_selects_build() {
    let build = pipeline(
        "build",
        vec![Trigger { flag: Flag::Special(Special::Watch) }],
        vec![],
    );
    let other = pipeline(
        "docs",
        vec![Trigger { flag: Flag::Named("docs-hook".to_owned()) }],
        vec![],
    );
    let pipelines = vec![build, other];
    let selected = select_triggerable(&pipelines, &ctx(Some(Flag::Special(Special::Watch)), true));
    assert_eq!(selected.len(), 1);
    assert_eq!(selected[0].name, "build");
    // Auto mode without a flag selects nothing.
    let none = select_triggerable(&pipelines, &ctx(None, true));
    assert_eq!(none.len(), 0);
}

#[test]
fn all_triggers_deduplicated() {
    let a = pipeline(
        "a",
        vec![
            Trigger { flag: Flag::Special(Special::Watch) },
            Trigger { flag: Flag::Named("x".to_owned()) },
        ],
        vec![],
    );
    let b = pipeline(
        "b",
        vec![
            Trigger { flag: Flag::Special(Special::Watch) },
            Trigger { flag: Flag::Named("y".to_owned()) },
        ],
        vec![],
    );
    let all = get_all_triggers(&vec![a, b]);
    assert_eq!(all.len(), 3);
}

#[test]
fn detach_decisions() {
    assert_eq!(
        should_detach(&ctx(None, false)),
        Decision::SpawnBackground
    );
    assert_eq!(should_detach(&ctx(None, true)), Decision::RunForeground);
    // The re-spawned invocation is marked attached, same command.
    let c = ctx(None, false);
    let r = respawned_context(&c);
    assert!(r.attached);
    assert_eq!(r.command_signature, c.command_signature);
    assert_eq!(should_detach(&r), Decision::RunForeground);
}

#[test]
fn kill_homologous_no_match_is_noop() {
    let procs = vec![
        ProcessInfo { pid: 10, command: "vim".to_owned() },
        ProcessInfo { pid: 11, command: "cargo build".to_owned() },
    ];
    assert_eq!(kill_homologous(&procs, "pipelight watch", 42), None);
    // An empty scan is also a no-op.
    assert_eq!(kill_homologous(&vec![], "pipelight watch", 42), None);
}

#[test]
fn kill_homologous_finds_sibling_but_not_self() {
    let procs = vec![
        ProcessInfo { pid: 42, command: "pipelight watch".to_owned() },
        ProcessInfo { pid: 77, command: "pipelight watch".to_owned() },
    ];
    // The caller's own pid never names itself.
    assert_eq!(kill_homologous(&procs, "pipelight watch", 42), Some(77));
    assert_eq!(kill_homologous(&procs, "pipelight watch", 1), Some(42));
}

#[test]
fn round_trip_append_then_get_by_name() {
    let mut logs = Logs::new();
    let mut rec = record("deploy", PipelineState::Succeeded, "2024-03-01T10:00:00+00:00");
    rec.sid = Some(7);
    logs.append(rec);
    let got = logs.get_by_name("deploy", &vec![]).unwrap();
    assert_eq!(got.name, "deploy");
    assert!(matches!(got.state, PipelineState::Succeeded));
    assert_eq!(got.date, "2024-03-01T10:00:00+00:00");
    assert_eq!(got.sid, Some(7));
}

#[test]
fn scenario_started_then_succeeded() {
    let mut logs = Logs::new();
    logs.append(record("deploy", PipelineState::Started, "2024-03-01T10:00:00+00:00"));
    logs.append(record("deploy", PipelineState::Succeeded, "2024-03-01T10:05:00+00:00"));
    let latest = logs.get_by_name("deploy", &vec![]).unwrap();
    assert!(matches!(latest.state, PipelineState::Succeeded));
    let history = logs.get_many_by_name("deploy", &vec![]).unwrap();
    assert_eq!(history.len(), 2);
    // The Started record was reclassified at read time (its process is gone);
    // the order is untouched.
    assert_eq!(history[0].date, "2024-03-01T10:00:00+00:00");
    assert_eq!(history[1].date, "2024-03-01T10:05:00+00:00");
    assert!(matches!(history[1].state, PipelineState::Succeeded));
}

#[test]
fn abort_inference_leaves_store_untouched() {
    let mut logs = Logs::new();
    let mut rec = record("job", PipelineState::Running, "2024-03-01T10:00:00+00:00");
    rec.pid = Some(999_999);
    logs.append(rec);
    // No live process carries that pid.
    let got = logs.get_by_name("job", &vec![1, 2, 3]).unwrap();
    assert!(matches!(got.state, PipelineState::Aborted));
    assert_eq!(got.pid, None);
    // The persisted record is unchanged: reads never rewrite.
    assert!(matches!(logs.records[0].state, PipelineState::Running));
    assert_eq!(logs.records[0].pid, Some(999_999));
}

#[test]
fn running_record_with_live_pid_stays_running() {
    let mut logs = Logs::new();
    let mut rec = record("job", PipelineState::Running, "2024-03-01T10:00:00+00:00");
    rec.pid = Some(1234);
    logs.append(rec);
    let got = logs.get_by_name("job", &vec![1234]).unwrap();
    assert!(matches!(got.state, PipelineState::Running));
    assert_eq!(got.pid, Some(1234));
}

#[test]
fn histories_sorted_by_parsed_date() {
    let mut logs = Logs::new();
    logs.append(record("x", PipelineState::Succeeded, "2024-03-03T10:00:00+00:00"));
    logs.append(record("x", PipelineState::Succeeded, "2024-03-01T10:00:00+00:00"));
    logs.append(record("x", PipelineState::Succeeded, "2024-03-02T10:00:00+00:00"));
    let history = logs.get_many_by_name("x", &vec![]).unwrap();
    assert_eq!(history.len(), 3);
    assert_eq!(history[0].date, "2024-03-01T10:00:00+00:00");
    assert_eq!(history[1].date, "2024-03-02T10:00:00+00:00");
    assert_eq!(history[2].date, "2024-03-03T10:00:00+00:00");
    // The sort key is the instant, not the string: different offsets, same
    // ordering by instant.
    let mut tz = Logs::new();
    tz.append(record("y", PipelineState::Succeeded, "2024-03-01T12:00:00+02:00"));
    tz.append(record("y", PipelineState::Succeeded, "2024-03-01T09:30:00+00:00"));
    let h = tz.get_many_by_name("y", &vec![]).unwrap();
    // 12:00+02:00 is 10:00 UTC, after 09:30 UTC.
    assert_eq!(h[0].date, "2024-03-01T09:30:00+00:00");
    assert_eq!(h[1].date, "2024-03-01T12:00:00+02:00");
}

#[test]
fn latest_record_wins_by_date_not_insertion() {
    let mut logs = Logs::new();
    logs.append(record("x", PipelineState::Failed, "2024-03-05T10:00:00+00:00"));
    logs.append(record("x", PipelineState::Succeeded, "2024-03-01T10:00:00+00:00"));
    let got = logs.get_by_name("x", &vec![]).unwrap();
    assert!(matches!(got.state, PipelineState::Failed));
}

#[test]
fn session_history() {
    let mut logs = Logs::new();
    let mut a = record("one", PipelineState::Succeeded, "2024-03-01T10:02:00+00:00");
    a.sid = Some(9);
    let mut b = record("two", PipelineState::Succeeded, "2024-03-01T10:01:00+00:00");
    b.sid = Some(9);
    let mut c = record("three", PipelineState::Succeeded, "2024-03-01T10:03:00+00:00");
    c.sid = Some(8);
    logs.append(a);
    logs.append(b);
    logs.append(c);
    let session = logs.get_many_by_sid(9, &vec![]).unwrap();
    assert_eq!(session.len(), 2);
    assert_eq!(session[0].name, "two");
    assert_eq!(session[1].name, "one");
    assert!(matches!(
        logs.get_many_by_sid(12, &vec![]),
        Err(PipelightError::NotFound)
    ));
}

#[test]
fn list_all_latest_per_pipeline() {
    let mut logs = Logs::new();
    logs.append(record("a", PipelineState::Started, "2024-03-01T10:00:00+00:00"));
    logs.append(record("b", PipelineState::Succeeded, "2024-03-01T11:00:00+00:00"));
    logs.append(record("a", PipelineState::Succeeded, "2024-03-01T12:00:00+00:00"));
    let all = logs.get(&vec![]).unwrap();
    assert_eq!(all.len(), 2);
    // Ascending by date: b's latest (11:00) before a's latest (12:00).
    assert_eq!(all[0].name, "b");
    assert_eq!(all[1].name, "a");
    assert!(matches!(all[1].state, PipelineState::Succeeded));
}

#[test]
fn store_errors() {
    let logs = Logs::new();
    assert!(matches!(
        logs.get(&vec![]),
        Err(PipelightError::NotFound)
    ));
    assert!(matches!(
        logs.get_by_name("ghost", &vec![]),
        Err(PipelightError::NotFound)
    ));
    let mut bad = Logs::new();
    bad.append(record("x", PipelineState::Succeeded, "not a date"));
    assert!(matches!(
        bad.get_by_name("x", &vec![]),
        Err(PipelightError::IoError)
    ));
    assert!(matches!(
        bad.get_many_by_name("x", &vec![]),
        Err(PipelightError::IoError)
    ));
}

#[test]
fn fresh_records_read_back() {
    // A record built by the library itself carries a date the store can
    // order: the whole read path works on it.
    let mut logs = Logs::new();
    let rec = PipelineLog::new("fresh");
    logs.append(rec);
    let got = logs.get_by_name("fresh", &vec![]).unwrap();
    assert_eq!(got.name, "fresh");
    // Started with no pid and no live process: reclassified.
    assert!(matches!(got.state, PipelineState::Aborted));
}

#[test]
fn record_builders() {
    let mut rec = PipelineLog::new("build");
    assert!(matches!(rec.state, PipelineState::Started));
    assert!(rec.step.is_none());
    rec.state(PipelineState::Running);
    assert!(matches!(rec.state, PipelineState::Running));
    rec.step("compile");
    rec.command("make all", "done");
    let step = rec.step.as_ref().unwrap();
    assert_eq!(step.name, "compile");
    assert_eq!(step.command.stdin, "make all");
    assert_eq!(step.command.stdout, "done");

    let mut sl = StepLog::new("unit");
    assert_eq!(sl.name, "unit");
    sl.name("integration");
    assert_eq!(sl.name, "integration");
    sl.command("cargo test");
    assert_eq!(sl.command.stdin, "");

    let mut cl = CommandLog { stdin: String::new(), stdout: String::new(), stderr: String::new() };
    cl.stdin("echo hi".to_owned());
    assert_eq!(cl.stdin, "echo hi");
}

#[test]
fn runner_walks_to_success() {
    let p = pipeline(
        "build",
        vec![],
        vec![
            Step { name: "fmt".to_owned(), command: "cargo fmt".to_owned() },
            Step { name: "test".to_owned(), command: "cargo test".to_owned() },
        ],
    );
    let (st, rec) = start_run(&p, Some(3), Some(100));
    assert!(matches!(rec.state, PipelineState::Started));
    assert_eq!(rec.sid, Some(3));
    let (st, rec) = begin_steps(st, &p);
    assert!(matches!(rec.state, PipelineState::Running));
    let a = next_action(&st, &p);
    assert_eq!(a, RunnerAction::Execute(0));
    let ok = StepOutcome { stdout: "done".to_owned(), stderr: String::new(), success: true };
    let (st, rec) = advance(st, &p, &ok);
    assert!(matches!(rec.state, PipelineState::Running));
    assert_eq!(rec.step.as_ref().unwrap().name, "fmt");
    assert_eq!(rec.step.as_ref().unwrap().command.stdin, "cargo fmt");
    assert_eq!(next_action(&st, &p), RunnerAction::Execute(1));
    let (st, rec) = advance(st, &p, &ok);
    assert!(matches!(rec.state, PipelineState::Succeeded));
    assert_eq!(next_action(&st, &p), RunnerAction::Done);
    assert!(completion_result(st.status).is_ok());
}

#[test]
fn runner_stops_at_first_failure() {
    let p = pipeline(
        "build",
        vec![],
        vec![
            Step { name: "fmt".to_owned(), command: "cargo fmt".to_owned() },
            Step { name: "test".to_owned(), command: "cargo test".to_owned() },
        ],
    );
    let (st, _) = start_run(&p, None, None);
    let (st, _) = begin_steps(st, &p);
    let bad = StepOutcome {
        stdout: String::new(),
        stderr: "boom".to_owned(),
        success: false,
    };
    let (st, rec) = advance(st, &p, &bad);
    assert!(matches!(rec.state, PipelineState::Failed));
    assert_eq!(rec.step.as_ref().unwrap().command.stderr, "boom");
    // No later step runs.
    assert_eq!(next_action(&st, &p), RunnerAction::Done);
    assert_eq!(
        completion_result(st.status),
        Err(PipelightError::ExecutionFailure)
    );
}

#[test]
fn runner_empty_pipeline_succeeds() {
    let p = pipeline("noop", vec![], vec![]);
    let (st, _) = start_run(&p, None, None);
    let (st, rec) = begin_steps(st, &p);
    assert!(matches!(rec.state, PipelineState::Succeeded));
    assert_eq!(next_action(&st, &p), RunnerAction::Done);
}

#[test]
fn launch_plans() {
    let watched = pipeline(
        "build",
        vec![Trigger { flag: Flag::Special(Special::Watch) }],
        vec![],
    );
    let pipelines = vec![watched];
    let watch_flag = Some(Flag::Special(Special::Watch));
    assert_eq!(
        launch(&pipelines, "build", &ctx(watch_flag.clone(), true)).unwrap(),
        LaunchPlan::RunNow
    );
    assert_eq!(
        launch(&pipelines, "build", &ctx(watch_flag, false)).unwrap(),
        LaunchPlan::Detach
    );
    assert_eq!(
        launch(
            &pipelines,
            "build",
            &ctx(Some(Flag::Named("other".to_owned())), true)
        )
        .unwrap(),
        LaunchPlan::Skipped
    );
    assert!(matches!(
        launch(&pipelines, "ghost", &ctx(None, true)),
        Err(PipelightError::NotFound)
    ));
}

#[test]
fn run_builds_detach_command() {
    let pipelines = vec![pipeline("deploy", vec![], vec![])];
    assert_eq!(
        run(&pipelines, "deploy").unwrap(),
        "cargo run --bin pipelight-run deploy"
    );
    assert!(matches!(
        run(&pipelines, "ghost"),
        Err(PipelightError::NotFound)
    ));
}

#[test]
fn config_without_pipelines_is_malformed() {
    let empty = Config { pipelines: None };
    assert!(matches!(
        Pipeline::get(&empty),
        Err(PipelightError::ConfigError)
    ));
    let cfg = Config { pipelines: Some(vec![pipeline("a", vec![], vec![])]) };
    let ps = Pipeline::get(&cfg).unwrap();
    assert_eq!(ps.len(), 1);
    assert_eq!(ps[0].name, "a");
}

#[test]
fn filter_built_ins_always_apply() {
    let f = make_filter(None, vec![]);
    assert_eq!(builtin_exclusions().len(), 4);
    assert!(is_excluded(&f, ".pipelight/logs/run.json"));
    assert!(is_excluded(&f, ".git"));
    assert!(is_excluded(&f, ".git/hooks/pre-commit"));
    assert!(is_excluded(&f, ".cargo/registry"));
    assert!(!is_excluded(&f, "src/main.rs"));
    // User globs come after the built-ins and add to them.
    let g = make_filter(
        Some(".pipelight_ignore".to_owned()),
        vec!["target".to_owned()],
    );
    assert!(is_excluded(&g, "target/debug/app"));
    assert!(is_excluded(&g, ".pipelight/proc/1"));
    assert!(!is_excluded(&g, "lib/target.rs"));
}

#[test]
fn choose_ignore_file_prefers_tool_specific() {
    assert_eq!(
        choose_ignore_file(
            Some(".pipelight_ignore".to_owned()),
            Some(".gitignore".to_owned())
        ),
        Some(".pipelight_ignore".to_owned())
    );
    assert_eq!(
        choose_ignore_file(None, Some(".gitignore".to_owned())),
        Some(".gitignore".to_owned())
    );
    assert_eq!(choose_ignore_file(None, None), None);
}

#[test]
fn scenario_ignore_file_change_then_excluded_path() {
    // The watcher observes a change to the active ignore file...
    let f = make_filter(Some(".pipelight_ignore".to_owned()), vec![]);
    let batch = vec![WatchEvent {
        paths: vec![".pipelight_ignore".to_owned()],
        signals: vec![],
    }];
    assert!(needs_reconfigure(&f, &batch));
    // ...the filter is rebuilt with the file's new globs...
    let f = make_filter(
        Some(".pipelight_ignore".to_owned()),
        vec!["notes".to_owned()],
    );
    // ...and a subsequent change to a now-excluded path triggers nothing.
    let later = vec![WatchEvent {
        paths: vec!["notes/todo.txt".to_owned()],
        signals: vec![],
    }];
    assert_eq!(decide(&f, &later, false), BatchAction::DoNothing);
    // A change to a path still watched does trigger.
    let src_change = vec![WatchEvent {
        paths: vec!["src/lib.rs".to_owned()],
        signals: vec![],
    }];
    assert_eq!(decide(&f, &src_change, false), BatchAction::Trigger);
}

#[test]
fn scenario_interrupt_exits_loop() {
    let f = make_filter(None, vec![]);
    let batch = vec![WatchEvent {
        paths: vec!["src/lib.rs".to_owned()],
        signals: vec![WatchSignal::Interrupt],
    }];
    // The loop exits within this cycle and triggers nothing.
    assert_eq!(decide(&f, &batch, false), BatchAction::Exit);
    let term = vec![WatchEvent {
        paths: vec![],
        signals: vec![WatchSignal::Terminate],
    }];
    assert_eq!(decide(&f, &term, true), BatchAction::Exit);
}

#[test]
fn watcher_debounce_while_running() {
    let f = make_filter(None, vec![]);
    let batch = vec![WatchEvent {
        paths: vec!["src/lib.rs".to_owned()],
        signals: vec![],
    }];
    assert_eq!(decide(&f, &batch, true), BatchAction::DoNothing);
    assert_eq!(decide(&f, &batch, false), BatchAction::Trigger);
}

#[test]
fn watch_context_carries_watch_flag() {
    let c = watch_context(&ctx(None, false));
    assert!(matches!(c.flag, Some(Flag::Special(Special::Watch))));
    assert!(!c.attached);
}

#[test]
fn shell_override() {
    assert_eq!(get_shell(Some("/bin/zsh".to_owned())), "/bin/zsh");
    assert_eq!(get_shell(None), "sh");
}

#[test]
fn hook_names() {
    let h = Hook { githook: GitHook::PreCommit };
    assert_eq!(h.to_string(), "pre-commit");
    let parsed = Hook::from_str("pre-push");
    assert!(matches!(parsed.githook, GitHook::PrePush));
    // Round trip over every hook.
    let all = Hooks::iter();
    assert_eq!(all.len(), 17);
    for g in all {
        let name = Hook { githook: g }.to_string();
        let back = Hook::from_str(&name);
        assert_eq!(back.to_string(), name);
    }
}

#[test]
fn hook_origin_from_directory_path() {
    let h = Hook::origin("/repo/.git/hooks/pre-commit.d").unwrap();
    assert!(matches!(h.githook, GitHook::PreCommit));
    let h = Hook::origin("post-merge.d").unwrap();
    assert!(matches!(h.githook, GitHook::PostMerge));
    // The suffix is optional: git's own hook file name works too.
    let h = Hook::origin("/repo/.git/hooks/pre-push").unwrap();
    assert!(matches!(h.githook, GitHook::PrePush));
    assert!(Hook::origin("/repo/src/lib.rs").is_none());
    assert!(Hook::origin("/repo/.git/hooks/notes.d").is_none());
}
