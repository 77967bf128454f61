use pullkit::commits::{
    commit_relation, describe_difference, humanize_seconds, is_ancestor, read_commit, CommitFacts,
    CommitRelation, CommitStep, RelationStep, MAX_COMMIT_WORKERS,
};
use pullkit::git::{
    fetch_remote_head, git_directory, has_configured_ssh_command, lock_key, offline_environment,
    shell_args, CommandOutput, GitOutput, GitQuery, GitReply,
};
use pullkit::locks::RepoLocks;
use pullkit::paths::PathStyle;
use pullkit::status::{InspectFacts, InspectStep};
use pullkit::{inspect, inspect_commits, inspect_commits_parallel, CommitInfo, RepoConfig, RepoStatus};

fn commit(sha: &str, timestamp: i64) -> CommitInfo {
    CommitInfo { sha: sha.into(), timestamp, date: String::new() }
}

fn reply(code: i32, stdout: &str, stderr: &str) -> GitReply {
    Ok(GitOutput { code: Some(code), stdout: stdout.into(), stderr: stderr.into() })
}

fn inspected_repo() -> RepoConfig {
    RepoConfig { name: "app".into(), path: "/w/app".into(), build_command: None }
}

fn inspected(facts: &InspectFacts) -> RepoStatus {
    match inspect(&inspected_repo(), facts) {
        InspectStep::Done { status } => status,
        InspectStep::Ask { query } => panic!("{query:?} is still asked"),
    }
}

#[test]
fn humanizes_durations_with_the_largest_whole_unit() {
    assert_eq!(humanize_seconds(0), "<1 min");
    assert_eq!(humanize_seconds(59), "<1 min");
    assert_eq!(humanize_seconds(60), "1 min");
    assert_eq!(humanize_seconds(5 * 60), "5 min");
    assert_eq!(humanize_seconds(3_600), "1 hour");
    assert_eq!(humanize_seconds(5 * 3_600 + 59 * 60), "5 hours");
    assert_eq!(humanize_seconds(86_400), "1 day");
    assert_eq!(humanize_seconds(6 * 86_400), "6 days");
    assert_eq!(humanize_seconds(7 * 86_400), "1 week");
    assert_eq!(humanize_seconds(29 * 86_400), "4 weeks");
    assert_eq!(humanize_seconds(30 * 86_400), "1 month");
    assert_eq!(humanize_seconds(364 * 86_400), "12 months");
    assert_eq!(humanize_seconds(365 * 86_400), "1 year");
    assert_eq!(humanize_seconds(2 * 365 * 86_400), "2 years");
}

#[test]
fn describes_difference_from_the_ancestry_and_the_date_gap() {
    let local = commit("aaa", 1_000_000);
    let same = commit("aaa", 1_000_000);
    let newer = commit("bbb", 1_000_000 + 2 * 86_400);
    let older = commit("bbb", 1_000_000 - 3 * 3_600);

    assert_eq!(
        describe_difference(&local, &same, CommitRelation::Same),
        "up to date"
    );
    assert_eq!(
        describe_difference(&local, &newer, CommitRelation::Behind),
        "2 days behind"
    );
    assert_eq!(
        describe_difference(&local, &older, CommitRelation::Ahead),
        "3 hours ahead"
    );
    assert_eq!(
        describe_difference(&local, &newer, CommitRelation::Diverged),
        "diverged by 2 days"
    );
}

#[test]
fn the_dates_do_not_decide_which_side_is_ahead() {
    let older = commit("aaa", -5);
    let newer = commit("bbb", 7_195);
    assert_eq!(describe_difference(&newer, &older, CommitRelation::Behind), "2 hours behind");
    assert_eq!(describe_difference(&older, &newer, CommitRelation::Behind), "2 hours behind");
    let far = commit("ccc", i64::MAX);
    assert!(describe_difference(&commit("ddd", i64::MIN), &far, CommitRelation::Ahead).ends_with(" years ahead"));
}

#[test]
fn reads_a_commit_from_what_git_log_prints() {
    let read = read_commit("/w", "HEAD", &reply(0, "abc\n1700000000\n2023-11-14 22:13\n", "")).unwrap();
    assert_eq!((read.sha.as_str(), read.timestamp), ("abc", 1_700_000_000));
    assert_eq!(read.date, "2023-11-14 22:13");
    let error = |answer: GitReply| read_commit("/w", "HEAD", &answer).expect_err("no commit");
    assert_eq!(error(reply(128, "", "fatal: bad\n")), "git could not read commit HEAD: fatal: bad");
    assert_eq!(error(reply(0, "abc\n", "")), "unexpected git log output for HEAD: abc\n");
    assert_eq!(
        error(reply(0, "abc\nsoon\ndate\n", "")),
        "invalid commit timestamp 'soon': invalid digit found in string"
    );
    assert_eq!(error(Err("no git".into())), "failed to run git in /w: no git");
}

#[test]
fn reports_an_unreadable_ancestry_instead_of_calling_it_diverged() {
    let head = commit("aaa", 1);
    let unknown = CommitInfo { sha: "0".repeat(40), timestamp: head.timestamp, date: head.date.clone() };
    let answer = Some(reply(128, "", "fatal: Not a valid commit name\n"));

    let relation = commit_relation("/w", &head, &unknown, &answer, &None);

    match relation {
        RelationStep::Failed { error } => assert_eq!(
            error,
            format!("git could not compare aaa with {}: fatal: Not a valid commit name", unknown.sha)
        ),
        _ => panic!("an unreadable ancestry is an error"),
    }
    let second = commit_relation("/w", &head, &unknown, &Some(reply(1, "", "")), &answer);
    assert!(matches!(second, RelationStep::Failed { .. }));
}

#[test]
fn relates_a_commit_to_itself_without_touching_the_remote() {
    let head = commit("aaa", 1);

    let relation = commit_relation("/w", &head, &head, &None, &None);

    assert!(matches!(relation, RelationStep::Known { relation: CommitRelation::Same }));
}

#[test]
fn the_ancestry_decides_how_two_commits_relate() {
    let (one, other) = (commit("aaa", 1), commit("bbb", 2));
    let (yes, no) = (|| Some(reply(0, "", "")), || Some(reply(1, "", "")));
    let known = |behind, ahead| match commit_relation("/w", &one, &other, &behind, &ahead) {
        RelationStep::Known { relation } => relation,
        _ => panic!("the relation is known"),
    };
    assert_eq!(known(yes(), None), CommitRelation::Behind);
    assert_eq!(known(no(), yes()), CommitRelation::Ahead);
    assert_eq!(known(no(), no()), CommitRelation::Diverged);
    match commit_relation("/w", &one, &other, &no(), &None) {
        RelationStep::Ask { query } => assert_eq!(
            query.args(),
            vec!["merge-base", "--is-ancestor", "bbb", "aaa"]
        ),
        _ => panic!("the other direction is asked"),
    }
    assert_eq!(is_ancestor("/w", "a", "b", &yes().unwrap()), Ok(true));
    assert_eq!(is_ancestor("/w", "a", "b", &no().unwrap()), Ok(false));
}

#[test]
fn an_inspection_of_commits_ends_with_the_difference() {
    let repo = inspected_repo();
    let mut facts = CommitFacts::new(true);
    let mut asked = Vec::new();
    let commits = loop {
        match inspect_commits(&repo, &facts) {
            CommitStep::Ask { query } => {
                let args = query.args().join(" ");
                let answer = if args.ends_with(" FETCH_HEAD") {
                    reply(0, "bbb\n172800\nlater\n", "")
                } else if args.ends_with(" HEAD") {
                    reply(0, "aaa\n0\nnow\n", "")
                } else {
                    reply(1, "", "")
                };
                asked.push(args);
                facts.add_answer(&query, answer);
            }
            CommitStep::TakeLock => {
                asked.push("take the lock".into());
                facts.held = true;
            }
            CommitStep::Fetch => {
                asked.push("fetch".into());
                facts.fetch = Some(Ok(CommandOutput { code: Some(0), text: String::new() }));
            }
            CommitStep::ReleaseLock => {
                asked.push("release the lock".into());
                facts.held = false;
            }
            CommitStep::Done { commits } => break commits,
        }
    };
    assert_eq!(commits.difference.as_deref(), Some("diverged by 2 days"));
    assert_eq!(commits.error, None);
    assert_eq!(commits.local.map(|commit| commit.date).as_deref(), Some("now"));
    assert_eq!(commits.remote.map(|commit| commit.date).as_deref(), Some("later"));
    assert_eq!(
        asked,
        vec![
            "log -1 --format=%H%n%ct%n%cd --date=format-local:%Y-%m-%d %H:%M HEAD",
            "take the lock",
            "fetch",
            "log -1 --format=%H%n%ct%n%cd --date=format-local:%Y-%m-%d %H:%M FETCH_HEAD",
            "release the lock",
            "merge-base --is-ancestor aaa bbb",
            "merge-base --is-ancestor bbb aaa",
        ]
    );
}

#[test]
fn a_failed_fetch_leaves_the_local_commit_and_an_error() {
    let repo = inspected_repo();
    let mut facts = CommitFacts::new(true);
    facts.local = Some(reply(0, "aaa\n0\nnow\n", ""));
    facts.fetch = Some(Ok(CommandOutput { code: Some(128), text: "fatal: no remote\n".into() }));
    match inspect_commits(&repo, &facts) {
        CommitStep::Done { commits } => {
            assert!(commits.local.is_some() && commits.remote.is_none());
            assert_eq!(
                commits.error.as_deref(),
                Some("git could not fetch origin HEAD: fatal: no remote")
            );
        }
        _ => panic!("a failed fetch ends the inspection"),
    }
    assert_eq!(
        fetch_remote_head("/w", &Err("timed out".into())),
        Err("failed to fetch in /w: timed out".to_owned())
    );
}

#[test]
fn a_failed_fetch_lets_the_lock_go_first() {
    let repo = inspected_repo();
    let mut facts = CommitFacts::new(true);
    facts.local = Some(reply(0, "aaa\n0\nnow\n", ""));
    assert!(matches!(inspect_commits(&repo, &facts), CommitStep::TakeLock));
    facts.held = true;
    assert!(matches!(inspect_commits(&repo, &facts), CommitStep::Fetch));
    facts.fetch = Some(Err("timed out".into()));
    assert!(matches!(inspect_commits(&repo, &facts), CommitStep::ReleaseLock));
    facts.held = false;
    match inspect_commits(&repo, &facts) {
        CommitStep::Done { commits } => {
            assert_eq!(commits.error.as_deref(), Some("failed to fetch in /w/app: timed out"))
        }
        _ => panic!("a failed fetch ends the inspection"),
    }
}

#[test]
fn a_lock_is_held_once_whatever_its_path_looks_like() {
    let mut locks = RepoLocks::new(PathStyle::Unix);
    assert!(locks.try_take("/w/x/.git"));
    assert!(!locks.try_take("/w/x/.git/"));
    assert!(!locks.try_take("/w//x/./.git"));
    assert!(locks.try_take("/w/y/.git"));
    locks.release("/w/x/.git/");
    assert_eq!(locks.held, vec!["/w/y/.git"]);
    assert!(locks.try_take("/w/x/.git"));
    locks.release("/w/z");
    assert_eq!(locks.held.len(), 2);

    let mut locks = RepoLocks::new(PathStyle::Windows);
    assert!(locks.try_take("C:/w/x/.git"));
    assert!(!locks.try_take("c:\\w\\x\\.git\\"));
    assert!(locks.try_take("D:/w/x/.git"));
}

#[test]
fn every_git_command_has_its_time() {
    assert_eq!(GitQuery::Fetch.timeout(), 60_000);
    assert_eq!(GitQuery::Pull.timeout(), 600_000);
    assert_eq!(GitQuery::CurrentBranch.timeout(), 120_000);
    assert_eq!(GitQuery::Commit { reference: "HEAD".into() }.timeout(), 120_000);
}

#[test]
fn parallel_inspection_reports_every_repository_once() {
    let repos: Vec<_> = (0..MAX_COMMIT_WORKERS + 3)
        .map(|index| RepoConfig {
            name: format!("missing-{index}"),
            path: format!("/tmp/pullkit-missing-{index}"),
            build_command: None,
        })
        .collect();
    let mut seen = vec![0; repos.len()];

    let mut queue = inspect_commits_parallel(repos.len());
    assert_eq!(queue.workers, MAX_COMMIT_WORKERS);
    while let Some(index) = queue.take(false) {
        match inspect_commits(&repos[index], &CommitFacts::new(false)) {
            CommitStep::Done { commits } => {
                assert_eq!(commits.name, repos[index].name);
                assert!(commits.error.is_some());
            }
            _ => panic!("a missing directory is not asked about"),
        }
        seen[index] += 1;
    }

    assert!(seen.iter().all(|count| *count == 1));
}

#[test]
fn reports_whether_repo_path_exists() {
    let mut facts = InspectFacts::new(true, true);
    facts.branch = Some(reply(128, "", "fatal: not a git repository\n"));
    let existing = inspected(&facts);
    let missing = inspected(&InspectFacts::new(false, false));

    assert!(existing.path_exists);
    assert!(!missing.path_exists);
    assert_eq!(
        existing.error.as_deref(),
        Some("git could not read current branch: fatal: not a git repository")
    );
    assert_eq!(missing.error.as_deref(), Some("directory does not exist: /w/app"));
}

#[test]
fn an_inspection_asks_for_the_branch_and_then_for_the_tree() {
    let repo = inspected_repo();
    let mut facts = InspectFacts::new(true, true);
    let mut asked = Vec::new();
    let status = loop {
        match inspect(&repo, &facts) {
            InspectStep::Ask { query } => {
                asked.push(query.args().join(" "));
                let answer = match &query {
                    GitQuery::CurrentBranch => reply(0, " master\n", ""),
                    _ => reply(0, "", ""),
                };
                facts.add_answer(&query, answer);
            }
            InspectStep::Done { status } => break status,
        }
    };
    assert_eq!(asked, vec!["branch --show-current", "status --porcelain"]);
    assert_eq!(status.branch.as_deref(), Some("master"));
    assert!(status.clean && status.on_main && status.error.is_none());
}

#[test]
fn a_status_tells_dirty_trees_other_branches_and_detached_heads() {
    let mut facts = InspectFacts::new(true, true);
    facts.branch = Some(reply(0, "feature\n", ""));
    facts.tree = Some(reply(0, " M src/lib.rs\n", ""));
    let dirty = inspected(&facts);
    assert!(!dirty.clean && !dirty.on_main && dirty.error.is_none());
    facts.branch = Some(reply(0, "\n", ""));
    assert_eq!(
        inspected(&facts).error.as_deref(),
        Some("repository is in detached HEAD state")
    );
    facts.branch = Some(Err("timed out after 120 seconds".into()));
    assert_eq!(
        inspected(&facts).error.as_deref(),
        Some("failed to run git in /w/app: timed out after 120 seconds")
    );
}

#[test]
fn shares_one_lock_between_a_repository_and_a_directory_inside_it() {
    let answer = reply(0, "/w/app/.git\n", "");
    assert_eq!(git_directory(&answer).as_deref(), Some("/w/app/.git"));
    assert_eq!(lock_key("/w/app", &answer), lock_key("/w/app/crates", &answer));
    assert_eq!(lock_key("/w/plain", &reply(128, "", "fatal")), "/w/plain");
    assert_eq!(lock_key("/w/plain", &reply(0, " \n", "")), "/w/plain");
}

#[test]
fn git_never_asks_a_question_and_keeps_a_configured_ssh_command() {
    let silent = reply(1, "", "");
    let configured = reply(0, "ssh -p 2222\n", "");
    assert!(!has_configured_ssh_command(&silent) && has_configured_ssh_command(&configured));
    let both = offline_environment(false, false, false);
    assert_eq!(
        both,
        vec![
            ("GIT_TERMINAL_PROMPT".to_owned(), "0".to_owned()),
            ("GIT_SSH_COMMAND".to_owned(), "ssh -o BatchMode=yes".to_owned()),
        ]
    );
    assert_eq!(offline_environment(true, false, false).len(), 1);
    assert_eq!(offline_environment(false, true, false).len(), 1);
    assert_eq!(offline_environment(false, false, true).len(), 1);
    assert_eq!(GitQuery::Fetch.args(), vec!["fetch", "--quiet", "origin", "HEAD"]);
    assert_eq!(GitQuery::Pull.args(), vec!["pull", "origin", "HEAD"]);
    assert_eq!(shell_args("make all"), vec!["-lc", "make all"]);
}
