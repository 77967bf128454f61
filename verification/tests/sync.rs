use pullkit::config::default_concurrency;
use pullkit::git::{exit_label, CommandOutput, CommandReply};
use pullkit::report::{
    event_lines, list_header_line, name_line, print_status, print_summary, run_header, run_sync,
};
use pullkit::selection::select_repos;
use pullkit::startup::{
    refuse_selection, run, run_cli, sync_selected, InspectionToken, Loaded, RunAction, StartStep,
};
use pullkit::sync::{LockState, SyncAction, SyncFacts, SyncStep};
use pullkit::{
    sync_repo, sync_repos, CommitInfo, Config, RepoCommits, RepoConfig, RepoStatus, SyncEvent,
    SyncOutcome, SyncResult, EXAMPLE_CONFIG,
};

fn synced_repo(build_command: Option<&str>) -> RepoConfig {
    RepoConfig {
        name: "app".into(),
        path: "/w/app".into(),
        build_command: build_command.map(str::to_owned),
    }
}

fn ready() -> RepoStatus {
    RepoStatus {
        name: "app".into(),
        path: "/w/app".into(),
        path_exists: true,
        branch: Some("main".into()),
        clean: true,
        on_main: true,
        error: None,
    }
}

fn ran(code: i32, text: &str) -> Option<CommandReply> {
    Some(Ok(CommandOutput { code: Some(code), text: text.into() }))
}

fn facts(status: RepoStatus, pull: Option<CommandReply>, build: Option<CommandReply>) -> SyncFacts {
    SyncFacts { lock: LockState::Held { abandoned: false }, status: Some(status), pull, build }
}

fn ended(step: SyncStep) -> (String, SyncResult) {
    match step.action {
        SyncAction::Done { result } => (step.line.expect("the end is logged"), result),
        _ => panic!("the sync has ended"),
    }
}

fn summary_result(name: &str, outcome: SyncOutcome) -> SyncResult {
    SyncResult {
        name: name.into(),
        path: name.into(),
        outcome,
        branch: None,
        pull_output: None,
        build_output: None,
        message: "why".into(),
    }
}

#[test]
fn a_sync_takes_the_lock_checks_pulls_and_builds() {
    let repo = synced_repo(Some("make"));
    let mut facts = SyncFacts { lock: LockState::Untried, status: None, pull: None, build: None };
    let mut log = Vec::new();
    let result = loop {
        let step = sync_repo(&repo, &facts);
        log.extend(step.line);
        match step.action {
            SyncAction::TryLock => facts.lock = LockState::Busy,
            SyncAction::WaitForLock => facts.lock = LockState::Held { abandoned: false },
            SyncAction::Inspect => facts.status = Some(ready()),
            SyncAction::Pull => facts.pull = ran(0, "Already up to date."),
            SyncAction::Build { command } => {
                assert_eq!(command, "make");
                facts.build = ran(0, "built");
            }
            SyncAction::Done { result } => break result,
        }
    };
    assert_eq!(
        log,
        vec![
            "waiting for another git command in this repository",
            "checking repository",
            "pulling from origin",
            "building: make",
            "OK sync completed",
        ]
    );
    assert_eq!(result.outcome, SyncOutcome::Succeeded);
    assert_eq!(result.message, "sync completed");
    assert_eq!(result.pull_output.as_deref(), Some("Already up to date."));
    assert_eq!(result.build_output.as_deref(), Some("built"));
    assert_eq!(result.branch.as_deref(), Some("main"));
    assert_eq!(result.clone().name, "app");
}

#[test]
fn a_sync_without_a_build_command_ends_with_the_pull() {
    for command in [None, Some(" \t")] {
        let (line, result) = ended(sync_repo(&synced_repo(command), &facts(ready(), ran(0, "p"), None)));
        assert_eq!(line, "OK sync completed");
        assert_eq!(result.outcome, SyncOutcome::Succeeded);
        assert_eq!(result.pull_output.as_deref(), Some("p"));
        assert_eq!(result.build_output, None);
    }
}

#[test]
fn an_abort_during_the_wait_gives_the_repository_up() {
    let facts = SyncFacts {
        lock: LockState::Held { abandoned: true },
        status: None,
        pull: None,
        build: None,
    };
    let (line, result) = ended(sync_repo(&synced_repo(None), &facts));
    assert_eq!(line, "ERROR aborted before the sync started");
    assert_eq!(result.outcome, SyncOutcome::StatusFailed);
    assert_eq!(result.branch, None);
}

#[test]
fn a_tree_that_is_not_ready_is_not_pulled() {
    let repo = synced_repo(Some("make"));
    let mut status = ready();
    status.error = Some("no git".into());
    let (line, result) = ended(sync_repo(&repo, &facts(status, None, None)));
    assert_eq!(line, "ERROR status check failed: no git");
    assert_eq!(result.outcome, SyncOutcome::StatusFailed);
    let mut status = ready();
    status.clean = false;
    let (line, result) = ended(sync_repo(&repo, &facts(status, None, None)));
    assert_eq!(line, "WARN skipped: working tree has uncommitted changes");
    assert_eq!(result.outcome, SyncOutcome::SkippedDirty);
    assert_eq!(result.branch.as_deref(), Some("main"));
    let mut status = ready();
    status.on_main = false;
    status.branch = Some("feature".into());
    let (line, result) = ended(sync_repo(&repo, &facts(status.clone(), None, None)));
    assert_eq!(line, "WARN skipped: current branch is 'feature', not main/master");
    assert_eq!(result.outcome, SyncOutcome::SkippedBranch);
    status.branch = None;
    let (_, result) = ended(sync_repo(&repo, &facts(status, None, None)));
    assert_eq!(result.branch.as_deref(), Some("unknown"));
}

#[test]
fn failures_of_the_pull_and_of_the_build_are_told_apart() {
    let repo = synced_repo(Some("make"));
    let (line, result) = ended(sync_repo(&repo, &facts(ready(), Some(Err("late".into())), None)));
    assert_eq!(line, "ERROR git pull did not run to completion: late");
    assert_eq!((result.outcome, result.pull_output), (SyncOutcome::PullFailed, None));
    let (line, result) = ended(sync_repo(&repo, &facts(ready(), ran(1, "conflict"), None)));
    assert_eq!(line, "ERROR git pull failed (exit 1)");
    assert_eq!(result.pull_output.as_deref(), Some("conflict"));
    let unstarted = facts(ready(), ran(0, "p"), Some(Err("no sh".into())));
    let (line, result) = ended(sync_repo(&repo, &unstarted));
    assert_eq!(line, "ERROR could not start build: no sh");
    assert_eq!((result.outcome, result.build_output), (SyncOutcome::BuildFailed, None));
    let killed = Some(Ok(CommandOutput { code: None, text: "half".into() }));
    let (line, result) = ended(sync_repo(&repo, &facts(ready(), ran(0, "p"), killed)));
    assert_eq!(line, "ERROR build failed (terminated by signal)");
    assert_eq!(result.build_output.as_deref(), Some("half"));
    assert_eq!(exit_label(Some(-2)), "exit -2");
}

#[test]
fn parallel_sync_reports_every_repository_once_on_a_bounded_set_of_workers() {
    // Directories that do not exist fail the status check at once, so this
    // exercises the sharing out and the events, not git.
    let repos: Vec<_> = (0..7)
        .map(|index| RepoConfig {
            name: format!("absent-{index}"),
            path: format!("/tmp/pullkit-absent-{index}"),
            build_command: None,
        })
        .collect();
    let mut started = vec![0; repos.len()];
    let mut finished = vec![0; repos.len()];
    let mut lines = 0;

    let mut plan = sync_repos(repos.len(), 3);
    let mut pending = Vec::new();
    while let Some(index) = plan.queue.take(false) {
        started[index] += 1;
        pending.push(index);
    }
    // The workers finish in another order than they started.
    for index in pending.into_iter().rev() {
        let mut status = ready();
        status.error = Some("directory does not exist".into());
        let step = sync_repo(&repos[index], &facts(status, None, None));
        let (line, result) = ended(step);
        assert!(!line.starts_with('['), "lines carry no name: {line}");
        lines += 1;
        finished[index] += 1;
        plan.results.record(index, &SyncEvent::Finished { worker: index % 3, result });
    }
    let results = plan.results.finish();

    assert!(matches!(plan.planned, SyncEvent::Planned { workers: 3 }));
    assert_eq!(plan.queue.workers, 3);
    assert!(started.iter().all(|count| *count == 1));
    assert!(finished.iter().all(|count| *count == 1));
    assert!(lines >= repos.len());
    let names: Vec<_> = results.iter().map(|result| result.name.as_str()).collect();
    let expected: Vec<_> = repos.iter().map(|repo| repo.name.as_str()).collect();
    assert_eq!(names, expected, "results keep the configured order");
    assert!(results
        .iter()
        .all(|result| matches!(result.outcome, SyncOutcome::StatusFailed)));
}

#[test]
fn sync_uses_no_more_workers_than_repositories() {
    let plan = sync_repos(1, 10);

    assert!(matches!(plan.planned, SyncEvent::Planned { workers: 1 }));
    assert_eq!(sync_repos(5, 0).queue.workers, 1);
    assert_eq!(sync_repos(0, 4).queue.workers, 0);
}

#[test]
fn an_abandoned_sync_returns_only_the_repositories_that_ran() {
    let mut plan = sync_repos(3, 2);
    assert_eq!(plan.queue.take(false), Some(0));
    assert_eq!(plan.queue.take(false), Some(1));
    assert_eq!(plan.queue.take(true), None);
    plan.results.record(1, &SyncEvent::Started { worker: 0, name: "b".into() });
    let result = summary_result("b", SyncOutcome::PullFailed);
    plan.results.record(1, &SyncEvent::Finished { worker: 0, result });
    let results = plan.results.finish();
    assert_eq!(results.len(), 1);
    assert_eq!(results[0].name, "b");
}

#[test]
fn workers_take_turns_and_the_results_keep_the_order() {
    let repos: Vec<_> = (0..5)
        .map(|index| RepoConfig {
            name: format!("repo-{index}"),
            path: format!("/w/repo-{index}"),
            build_command: None,
        })
        .collect();
    // The order in which the workers take and end, and after which an abort
    // comes: the last worker to ask gets nothing any more.
    let mut plan = sync_repos(repos.len(), 2);
    let mut holds = vec![None; plan.queue.workers];
    let mut events = Vec::new();
    for (worker, abandoned) in [(0, false), (1, false), (1, false), (1, true), (0, true)] {
        if let Some(index) = holds[worker] {
            let step = sync_repo(&repos[index], &facts(ready(), ran(0, "done"), None));
            let (_, result) = ended(step);
            let event = SyncEvent::Finished { worker, result };
            plan.results.record(index, &event);
            events.push((worker, index, false));
        }
        holds[worker] = plan.queue.take(abandoned);
        if let Some(index) = holds[worker] {
            events.push((worker, index, true));
        }
    }
    assert_eq!(holds, vec![None, None]);
    assert_eq!(
        events,
        vec![(0, 0, true), (1, 1, true), (1, 1, false), (1, 2, true), (1, 2, false), (0, 0, false)]
    );
    let results = plan.results.finish();
    let names: Vec<_> = results.iter().map(|result| result.name.as_str()).collect();
    assert_eq!(names, vec!["repo-0", "repo-1", "repo-2"]);
}

#[test]
fn inspection_token_holds_a_javascript_timestamp() {
    // What `Date.now()` returns, which the page uses as its seed.
    let milliseconds_since_1970: i64 = 1_788_323_990_678;

    let token = InspectionToken::try_from(milliseconds_since_1970);

    // A narrower type makes every invoke fail before the command runs.
    assert!(token.is_ok());
}

#[test]
fn repositories_are_selected_by_name() {
    let repos: Vec<_> = ["b", "a", "c"]
        .map(|name| RepoConfig { name: name.into(), path: name.into(), build_command: None })
        .into_iter()
        .collect();
    let names = |only: &[&str]| {
        let only: Vec<String> = only.iter().map(|name| (*name).to_owned()).collect();
        select_repos(&repos, &only)
            .map(|chosen| chosen.into_iter().map(|repo| repo.name).collect::<Vec<_>>())
    };
    assert_eq!(names(&[]), Ok(vec!["b".to_owned(), "a".to_owned(), "c".to_owned()]));
    assert_eq!(names(&["c", "b", "c"]), Ok(vec!["b".to_owned(), "c".to_owned()]));
    assert_eq!(
        names(&["z", "a", "é", "zz", "B", "z"]),
        Err("unknown repo name(s): B, z, zz, é".to_owned())
    );
}

#[test]
fn a_request_overrides_the_configured_concurrency_within_its_bounds() {
    let config = Config { concurrency: default_concurrency(), repos: vec![synced_repo(None)] };
    let request = run_cli(&config, &Vec::new(), None).unwrap_or_else(|error| panic!("{error}"));
    assert_eq!((request.repos.len(), request.concurrency), (1, 4));
    let request = run_cli(&config, &vec!["app".into()], Some(7)).unwrap_or_else(|error| panic!("{error}"));
    assert_eq!(request.concurrency, 7);
    assert_eq!(
        run_cli(&config, &Vec::new(), Some(0)).err().as_deref(),
        Some("concurrency must be between 1 and 10, not 0")
    );
    assert_eq!(
        run_cli(&config, &vec!["x".into()], Some(0)).err().as_deref(),
        Some("unknown repo name(s): x")
    );
    assert_eq!(
        sync_selected(&config, &Vec::new()).err().as_deref(),
        Some("no repositories were selected")
    );
    assert!(sync_selected(&config, &vec!["app".into()]).is_ok());
}

#[test]
fn an_empty_selection_is_refused_before_anything_is_loaded() {
    assert_eq!(refuse_selection(&Vec::new()).as_deref(), Some("no repositories were selected"));
    assert_eq!(refuse_selection(&vec!["app".to_owned()]), None);
}

#[test]
fn the_start_explains_a_configuration_that_says_nothing_yet() {
    let StartStep { print, action } = run(false, "/c", true, None);
    assert!(matches!(action, RunAction::Stop));
    let printed = print.expect("the sample is explained");
    assert!(printed.starts_with(
        "No configuration file was found.\nA sample configuration file was created at /c.\n\n"
    ));
    assert!(printed.contains(EXAMPLE_CONFIG));
    assert!(printed.ends_with("\n\nEdit the repository names, paths, and build commands, then run pullkit again.\n"));
    assert!(matches!(run(true, "/c", true, None).action, RunAction::OpenWindow));
    assert!(matches!(run(false, "/c", false, None).action, RunAction::Load));
    let empty = run(false, "/c", false, Some(Loaded::Fine { empty: true }));
    assert!(empty.print.is_some_and(|text| text
        .starts_with("No repositories are configured.\nAdd repository entries to /c.\n")));
    assert!(matches!(empty.action, RunAction::Stop));
    let fine = run(false, "/c", false, Some(Loaded::Fine { empty: false }));
    assert!(fine.print.is_none() && matches!(fine.action, RunAction::RunCommand));
    let failed = Loaded::Failed { error: "bad".into() };
    assert!(matches!(run(false, "/c", false, Some(failed)).action, RunAction::Fail { error } if error == "bad"));
    let failed = Loaded::Failed { error: "bad".into() };
    assert!(matches!(run(true, "/c", false, Some(failed)).action, RunAction::OpenWindow));
}

#[test]
fn the_plain_list_pads_its_columns_and_never_cuts_them() {
    assert_eq!(
        list_header_line(),
        format!(
            "{:<20} {:<8} {:<12} {:<8} {:<16} {:<16} {:<21} PATH",
            "REPOSITORY", "TREE", "BRANCH", "ON MAIN", "LOCAL COMMIT", "REMOTE COMMIT", "DIFFERENCE"
        )
    );
    let commits = RepoCommits {
        name: "app".into(),
        path: "/w/app".into(),
        local: Some(CommitInfo { sha: "a".into(), timestamp: 0, date: "2026-09-01 09:30".into() }),
        remote: None,
        difference: None,
        error: Some("no remote".into()),
    };
    assert_eq!(
        print_status(&ready(), &Some(commits)),
        format!(
            "{:<20} {:<8} {:<12} {:<8} {:<16} {:<16} {:<21} /w/app",
            "app", "clean", "main", "yes", "2026-09-01 09:30", "-", "unavailable"
        )
    );
    let mut status = ready();
    status.name = "a-name-of-more-than-twenty-columns".into();
    status.clean = false;
    status.on_main = false;
    status.branch = None;
    assert_eq!(
        print_status(&status, &None),
        format!(
            "{} {:<8} {:<12} {:<8} {:<16} {:<16} {:<21} /w/app",
            status.name, "dirty", "-", "no", "-", "-", "fetching..."
        )
    );
    status.error = Some("gone".into());
    assert!(print_status(&status, &None).ends_with(" /w/app (gone)"));
}

#[test]
fn a_run_is_summed_up_and_fails_where_a_repository_failed() {
    let results = vec![
        summary_result("a", SyncOutcome::Succeeded),
        summary_result("日本", SyncOutcome::SkippedBranch),
    ];
    assert_eq!(
        print_summary(&results),
        vec![
            "\nSummary".to_owned(),
            format!("  {:<20} {:<16} why", "a", "succeeded"),
            format!("  日本                 {:<16} why", "skippedbranch"),
        ]
    );
    let end = run_sync(&results, 2, false);
    assert!(end.line.is_none() && !end.failed);
    let end = run_sync(&results, 3, true);
    assert_eq!(end.line.as_deref(), Some("\naborted: 1 repository never started"));
    assert!(end.failed);
    assert_eq!(run_sync(&results, 4, true).line.as_deref(), Some("\naborted: 2 repositories never started"));
    assert_eq!(run_sync(&results, 2, true).line.as_deref(), Some("\naborted"));
    for outcome in [SyncOutcome::PullFailed, SyncOutcome::BuildFailed, SyncOutcome::StatusFailed] {
        assert!(run_sync(&vec![summary_result("x", outcome)], 1, false).failed);
    }
    for (outcome, name) in [
        (SyncOutcome::SkippedDirty, "skippeddirty"),
        (SyncOutcome::PullFailed, "pullfailed"),
        (SyncOutcome::BuildFailed, "buildfailed"),
        (SyncOutcome::StatusFailed, "statusfailed"),
    ] {
        assert_eq!(name, format!("{outcome:?}").to_lowercase());
        assert!(print_summary(&vec![summary_result("x", outcome)])[1].contains(name));
    }
}

#[test]
fn plain_output_names_the_repository_of_each_line() {
    assert_eq!(run_header(1, 1), "pullkit run: 1 repository, 1 at a time");
    assert_eq!(
        event_lines(&SyncEvent::Planned { workers: 4 }, 12),
        vec!["pullkit run: 12 repositories, 4 at a time", ""]
    );
    let line = SyncEvent::Line { worker: 1, name: "app".into(), line: "OK".into() };
    assert_eq!(event_lines(&line, 12), vec!["[app] OK"]);
    assert!(event_lines(&SyncEvent::Started { worker: 0, name: "app".into() }, 12).is_empty());
    assert_eq!(name_line("a", "b"), "[a] b");
}
