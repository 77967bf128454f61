use pullkit::list::{
    commit_cells, draw_tui, run_tui, selected_repos, tui_row, tui_status, tui_status_color,
    wait_for_commits, CommitCells, TuiLine, TuiState, TuiStep, NAME_WIDTH, STATUS_WIDTH,
};
use pullkit::screen::{
    outcome, watch, Abort, Watch, WatchEvent, WatchStep, EVENTS_PER_FRAME, FRAME_INTERVAL,
};
use pullkit::style::{Color, Input, Key, KeyKind};
use pullkit::width::{display_width, fit_to_width};
use pullkit::{
    CommitInfo, RepoCommits, RepoConfig, RepoStatus, Row, SyncEvent, SyncOutcome, SyncResult,
    SyncScreen,
};

fn status(name: &str, path_exists: bool) -> RepoStatus {
    RepoStatus {
        name: name.into(),
        path: name.into(),
        path_exists,
        branch: Some("main".into()),
        clean: true,
        on_main: true,
        error: None,
    }
}

fn rendered_tui(commits: &Vec<Option<RepoCommits>>) -> String {
    let statuses = vec![status("pullkit", true)];
    let state = TuiState::new(statuses.len());
    let lines = draw_tui(&statuses, commits, &state, 120, 10);
    lines.iter().map(|line| line.text.as_str()).collect::<Vec<_>>().join("\n")
}

fn cells() -> CommitCells {
    CommitCells {
        local: "2026-08-10 11:19".into(),
        remote: "2026-09-01 22:04".into(),
        difference: "3 weeks behind".into(),
    }
}

fn pressed(key: Key) -> Input {
    Input::Key { key, control: false, kind: KeyKind::Press }
}

fn ctrl_c(kind: KeyKind) -> Input {
    Input::Key { key: Key::Char { c: 'c' }, control: true, kind }
}

fn planned(workers: usize, total: usize) -> SyncScreen {
    let mut screen = SyncScreen::new(total);
    screen.apply(SyncEvent::Planned { workers });
    screen
}

fn result(name: &str, outcome: SyncOutcome) -> SyncResult {
    SyncResult {
        name: name.into(),
        path: name.into(),
        outcome,
        branch: Some("main".into()),
        pull_output: None,
        build_output: None,
        message: String::new(),
    }
}

fn texts(rows: &[Row]) -> Vec<&str> {
    rows.iter().map(|row| row.text.as_str()).collect()
}

#[test]
fn tui_shows_placeholders_until_commit_inspection_arrives() {
    let commits = RepoCommits {
        name: "pullkit".into(),
        path: "pullkit".into(),
        local: Some(CommitInfo {
            sha: "a".repeat(40),
            timestamp: 1_000_000,
            date: "2026-09-01 09:30".into(),
        }),
        remote: Some(CommitInfo {
            sha: "b".repeat(40),
            timestamp: 1_000_000 + 2 * 86_400,
            date: "2026-09-03 09:30".into(),
        }),
        difference: Some("2 days behind".into()),
        error: None,
    };

    let pending = rendered_tui(&vec![None]);
    let resolved = rendered_tui(&vec![Some(commits)]);

    assert!(pending.contains("LOCAL COMMIT"));
    assert!(pending.contains("fetching..."));
    assert!(resolved.contains("2026-09-01 09:30  2026-09-03 09:30  2 days behind"));
    assert!(!resolved.contains("fetching..."));
}

#[test]
fn tui_row_fits_the_terminal_when_the_name_is_wide() {
    let left = format!(
        "[ ] {} {} ",
        fit_to_width("🚀日本語リポジトリ", NAME_WIDTH),
        fit_to_width("Ready", STATUS_WIDTH)
    );
    let ascii = format!(
        "[ ] {} {} ",
        fit_to_width("ascii-repo", NAME_WIDTH),
        fit_to_width("Ready", STATUS_WIDTH)
    );

    let rows: Vec<_> = [80, 100, 120]
        .map(|width| {
            (
                width,
                tui_row(&left, "/w/repo", &cells(), width),
                tui_row(&ascii, "/w/repo", &cells(), width),
            )
        })
        .into_iter()
        .collect();

    for (width, wide_row, ascii_row) in rows {
        assert!(display_width(&wide_row) <= width, "{width}: {wide_row}");
        assert!(wide_row.contains("3 weeks behind"), "{width}: {wide_row}");
        // Both rows put the difference in the same column, so the list
        // reads down the page.
        assert_eq!(
            display_width(&wide_row),
            display_width(&ascii_row),
            "{width}: a wide name shifts the row"
        );
    }
}

#[test]
fn tui_row_makes_room_for_a_difference_past_the_usual_width() {
    // Commit dates are arbitrary, so the gap has no upper bound, and this label
    // is 22 columns against a 21 column reservation.
    let cells = CommitCells {
        local: "0999-01-01 00:00".into(),
        remote: "2026-01-01 00:00".into(),
        difference: "diverged by 1027 years".into(),
    };
    let left = "[ ] repository       Ready          ";

    // At every width, not only the one that reaches the last resort.
    let rows: Vec<_> = [130, 100, 80, 50]
        .map(|width| (width, tui_row(left, "/w/repository", &cells, width)))
        .into_iter()
        .collect();

    for (width, row) in rows {
        assert!(row.ends_with("diverged by 1027 years"), "{width}: {row}");
        assert!(display_width(&row) <= width, "{width}: {row}");
    }
}

#[test]
fn tui_row_keeps_the_difference_whatever_the_width_is() {
    let left = "[ ] repository       Ready          ";
    let path = "/Users/example/workspace/repository";

    let wide = tui_row(left, path, &cells(), 130);
    let medium = tui_row(left, path, &cells(), 100);
    let narrow = tui_row(left, path, &cells(), 80);
    let tiny = tui_row(left, path, &cells(), 60);
    let cramped = tui_row(left, path, &cells(), 50);
    let absurd = tui_row(left, path, &cells(), 10);

    // The difference reads in full at every usable width.
    for row in [&wide, &medium, &narrow, &tiny, &cramped] {
        assert!(row.contains("3 weeks behind"), "{row}");
    }
    // Narrower than the difference itself, there is nothing left to protect.
    assert_eq!(absurd, "3 weeks be");
    // The name survives as far as it fits; the status is what goes.
    assert!(cramped.starts_with("[ ] repository"));
    // The path goes first, then the remote date, then the local date.
    assert!(wide.contains("/Users/example"));
    assert!(wide.contains("2026-08-10 11:19") && wide.contains("2026-09-01 22:04"));
    assert!(!medium.contains("/Users/example"));
    assert!(medium.contains("2026-08-10 11:19") && medium.contains("2026-09-01 22:04"));
    assert!(narrow.contains("2026-08-10 11:19") && !narrow.contains("2026-09-01 22:04"));
    assert!(!tiny.contains("2026-08-10 11:19"));
    // Nothing overflows the terminal.
    for (row, width) in [
        (&wide, 130),
        (&medium, 100),
        (&narrow, 80),
        (&tiny, 60),
        (&cramped, 50),
        (&absurd, 10),
    ] {
        assert!(row.chars().count() <= width, "{width}: {row}");
    }
}

#[test]
fn the_path_goes_before_the_remote_date_and_the_remote_date_before_the_local_one() {
    let left = "[ ] repository       Ready          ";
    let path = "/Users/example/workspace/repository";
    let row = tui_row(left, path, &cells(), 90);
    assert!(row.contains("2026-08-10 11:19") && row.contains("3 weeks behind"), "{row}");
    assert!(!row.contains("2026-09-01 22:04") && !row.contains("/Users"), "{row}");
    for width in 0..160 {
        let row = tui_row(left, path, &cells(), width);
        let (local, remote) = (row.contains("2026-08-10 11:19"), row.contains("2026-09-01 22:04"));
        assert!(!row.contains('/') || remote, "{width}: {row}");
        assert!(!remote || local, "{width}: {row}");
        assert!(display_width(&row) <= width, "{width}: {row}");
    }
}

#[test]
fn a_row_keeps_inside_where_its_left_side_ends_in_a_space() {
    let cells = CommitCells {
        local: "\u{fe0f}2026".into(),
        remote: "\u{301}🇯🇵".into(),
        difference: "👍🏽 behind".into(),
    };
    for left in ["", "日本 # ", "\u{600} ", "# "] {
        for width in 0..120 {
            let row = tui_row(left, "/日/\u{301}", &cells, width);
            assert!(display_width(&row) <= width, "{width}: {row}");
        }
    }
}

#[test]
fn the_differences_stand_one_below_the_other() {
    let names = ["a", "🚀日本語リポジトリ", "👨‍👩‍👧‍👦 family", "e\u{301}", "a-name-that-is-cut-at-the-edge"];
    let statuses: Vec<_> = names.iter().map(|name| status(name, true)).collect();
    let commits: Vec<Option<RepoCommits>> = names.iter().map(|_| None).collect();
    let mut state = TuiState::new(names.len());
    state.toggle_current(&statuses);
    for width in 0..140 {
        let lines = draw_tui(&statuses, &commits, &state, width, 20);
        let place = |text: &str, part: &str| text.find(part).map(|at| display_width(&text[..at]));
        let header = place(&lines[1].text, "DIFFERENCE");
        for line in &lines[2..2 + names.len()] {
            let column = place(&line.text, "fetching...");
            if width >= 11 {
                assert_eq!(column, header, "{width}: {}", line.text);
            } else {
                assert!("fetching...".starts_with(&line.text), "{width}: {}", line.text);
            }
        }
        let expected = match width {
            0..=9 => None,
            10..=21 => Some(0),
            22..=60 => Some(width - 21),
            61..=78 => Some(40),
            79..=96 => Some(58),
            97..=106 => Some(76),
            _ => Some(width - 21),
        };
        assert_eq!(header, expected, "{width}");
    }
}

#[test]
fn the_difference_stays_whole_wherever_it_fits() {
    let left = "[ ] 日本語リポジトリ Ready ";
    for width in 0..140 {
        let row = tui_row(left, "/w", &cells(), width);
        assert_eq!(row.contains("3 weeks behind"), width >= 14, "{width}: {row}");
        assert!(display_width(&row) <= width, "{width}: {row}");
    }
}

#[test]
fn tui_selection_excludes_missing_paths() {
    let statuses = vec![status("available", true), status("missing", false)];
    let mut state = TuiState::new(statuses.len());

    state.toggle_current(&statuses);
    state.move_down();
    state.toggle_current(&statuses);

    assert_eq!(state.selected, vec![true, false]);

    state.toggle_all(&statuses);
    assert_eq!(state.selected, vec![false, false]);
}

#[test]
fn the_keys_move_choose_and_leave() {
    let statuses = vec![status("a", true), status("b", false), status("c", true)];
    let mut state = TuiState::new(3);
    assert_eq!(run_tui(&mut state, &statuses, pressed(Key::Enter)), TuiStep::Redraw);
    assert_eq!(run_tui(&mut state, &statuses, pressed(Key::Up)), TuiStep::Redraw);
    assert_eq!(state.cursor, 0);
    for key in [Key::Down, Key::Char { c: 'j' }, Key::Char { c: 'j' }] {
        run_tui(&mut state, &statuses, pressed(key));
    }
    assert_eq!(state.cursor, 2);
    run_tui(&mut state, &statuses, pressed(Key::Char { c: 'k' }));
    run_tui(&mut state, &statuses, pressed(Key::Char { c: ' ' }));
    assert_eq!(state.selected, vec![false, false, false]);
    run_tui(&mut state, &statuses, pressed(Key::Char { c: 'a' }));
    assert_eq!((state.selected.clone(), state.selected_count()), (vec![true, false, true], 2));
    assert_eq!(run_tui(&mut state, &statuses, pressed(Key::Enter)), TuiStep::Sync);
    assert_eq!(run_tui(&mut state, &statuses, pressed(Key::Char { c: 'c' })), TuiStep::Redraw);
    assert_eq!(run_tui(&mut state, &statuses, ctrl_c(KeyKind::Repeat)), TuiStep::Leave);
    assert_eq!(run_tui(&mut state, &statuses, ctrl_c(KeyKind::Release)), TuiStep::Wait);
    for key in [Key::Esc, Key::Char { c: 'q' }] {
        assert_eq!(run_tui(&mut state, &statuses, pressed(key)), TuiStep::Leave);
    }
    assert_eq!(run_tui(&mut state, &statuses, Input::Resized), TuiStep::Redraw);
    assert_eq!(run_tui(&mut state, &statuses, Input::Other), TuiStep::Wait);
    let repos: Vec<_> = ["a", "b", "c"]
        .map(|name| RepoConfig { name: name.into(), path: name.into(), build_command: None })
        .into_iter()
        .collect();
    let names: Vec<_> = selected_repos(&repos, &state).into_iter().map(|repo| repo.name).collect();
    assert_eq!(names, vec!["a", "c"]);
    assert_eq!(wait_for_commits(&vec![None, None]), 2);
}

#[test]
fn an_empty_list_is_left_and_nothing_can_be_chosen() {
    let statuses = Vec::new();
    let mut state = TuiState::new(0);
    for key in [Key::Down, Key::Up, Key::Enter, Key::Char { c: 'a' }, Key::Char { c: 'x' }] {
        assert_eq!(run_tui(&mut state, &statuses, pressed(key)), TuiStep::Redraw);
    }
    assert_eq!((state.cursor, state.selected_count()), (0, 0));
    assert_eq!(run_tui(&mut state, &statuses, pressed(Key::Char { c: 'q' })), TuiStep::Leave);
}

#[test]
fn a_list_longer_than_the_screen_follows_the_cursor() {
    let statuses: Vec<_> = (0..20).map(|index| status(&format!("repo-{index}"), true)).collect();
    let commits: Vec<Option<RepoCommits>> = (0..20).map(|_| None).collect();
    let mut state = TuiState::new(20);
    state.cursor = 11;
    state.selected[11] = true;
    let lines = draw_tui(&statuses, &commits, &state, 100, 10);
    assert_eq!(lines.len(), 9);
    let TuiLine { place, text, color, bold, reverse } = &lines[7];
    assert!(text.starts_with("[x] repo-11 "), "{text}");
    assert_eq!((*place, *color, *bold, *reverse), (7, Color::Green, true, true));
    assert!(lines[2].text.starts_with("[ ] repo-6 "));
    assert_eq!((lines[0].text.as_str(), lines[0].color), ("pullkit repositories", Color::Cyan));
    assert_eq!(lines[8].place, 9);
    assert_eq!(lines[8].text, "Space select  a all  Enter sync  q quit    1 selected");
}

#[test]
fn a_status_is_told_in_a_word_and_a_colour() {
    let mut one = status("a", true);
    assert_eq!((tui_status(&one).as_str(), tui_status_color(&one)), ("Ready", Color::Green));
    one.on_main = false;
    one.branch = Some("feature".into());
    assert_eq!((tui_status(&one).as_str(), tui_status_color(&one)), ("feature", Color::Magenta));
    one.branch = None;
    assert_eq!(tui_status(&one), "Other branch");
    one.clean = false;
    assert_eq!((tui_status(&one).as_str(), tui_status_color(&one)), ("Dirty", Color::Yellow));
    one.error = Some("bad".into());
    assert_eq!((tui_status(&one).as_str(), tui_status_color(&one)), ("Error", Color::Red));
    one.path_exists = false;
    assert_eq!((tui_status(&one).as_str(), tui_status_color(&one)), ("Missing", Color::DarkGrey));
    assert_eq!(commit_cells(&None).difference, "fetching...");
}

#[test]
fn splits_the_screen_into_one_pane_per_worker() {
    let mut screen = planned(4, 6);
    screen.apply(SyncEvent::Started {
        worker: 2,
        name: "pullkit".into(),
    });
    screen.apply(SyncEvent::Line {
        worker: 2,
        name: "pullkit".into(),
        line: "pulling from origin".into(),
    });

    let rows = screen.frame(100, 41);

    // 40 body rows make four panes of ten, then the footer.
    assert_eq!(rows.len(), 41);
    let texts = texts(&rows);
    assert!(texts[0].contains("worker 1  waiting"), "{}", texts[0]);
    assert!(texts[10].contains("worker 2  waiting"), "{}", texts[10]);
    assert!(texts[20].contains("worker 3  pullkit"), "{}", texts[20]);
    assert!(
        texts[21].starts_with("pulling from origin"),
        "{}",
        texts[21]
    );
    assert!(texts[30].contains("worker 4  waiting"), "{}", texts[30]);
    assert!(texts[40].contains("0/6 done"), "{}", texts[40]);
    for row in &rows[..40] {
        assert_eq!(display_width(&row.text), 100, "{}", row.text);
    }
}

#[test]
fn falls_back_to_one_merged_log_when_the_panes_would_be_too_short() {
    // Ten workers on 24 rows leave two rows per pane.
    let mut screen = planned(10, 12);
    for worker in 0..10 {
        screen.apply(SyncEvent::Line {
            worker,
            name: format!("repo-{worker}"),
            line: "checking repository".into(),
        });
    }

    let rows = screen.frame(80, 24);

    assert_eq!(rows.len(), 24);
    let texts = texts(&rows);
    assert!(texts[0].contains("too small for panes"), "{}", texts[0]);
    assert!(texts[1].starts_with("[repo-0] checking repository"));
    assert!(texts[10].starts_with("[repo-9] checking repository"));
    assert!(!texts.iter().any(|text| text.contains("worker 1")));
}

#[test]
fn shows_the_tail_of_a_pane_and_cuts_wide_lines_at_the_edge() {
    // One worker, a 12 row screen, so the pane has 10 log rows.
    let mut screen = planned(1, 1);
    screen.apply(SyncEvent::Started {
        worker: 0,
        name: "repo".into(),
    });
    for index in 0..30 {
        screen.apply(SyncEvent::Line {
            worker: 0,
            name: "repo".into(),
            line: format!("line {index} 日本語の長い出力がここに続きます"),
        });
    }

    let rows = screen.frame(30, 12);

    let texts = texts(&rows);
    assert!(texts[1].starts_with("line 20 "), "{}", texts[1]);
    assert!(texts[10].starts_with("line 29 "), "{}", texts[10]);
    for row in &rows {
        assert!(display_width(&row.text) <= 30, "{}", row.text);
    }
}

#[test]
fn colours_the_status_lines_and_the_titles() {
    let mut screen = planned(1, 1);
    for line in [
        "ERROR git pull failed (exit 1)",
        "WARN skipped",
        "OK sync completed",
        "plain",
    ] {
        screen.apply(SyncEvent::Line {
            worker: 0,
            name: "repo".into(),
            line: line.into(),
        });
    }

    let rows = screen.frame(60, 6);

    assert_eq!(rows[0].color, Some(Color::DarkCyan));
    assert_eq!(rows[1].color, Some(Color::Red));
    assert_eq!(rows[2].color, Some(Color::Yellow));
    assert_eq!(rows[3].color, Some(Color::Green));
    assert_eq!(rows[4].color, None);
}

#[test]
fn footer_counts_the_outcomes_once_everything_has_run() {
    let mut screen = planned(2, 4);
    screen.apply(SyncEvent::Finished {
        worker: 0,
        result: result("a", SyncOutcome::Succeeded),
    });
    screen.apply(SyncEvent::Finished {
        worker: 1,
        result: result("b", SyncOutcome::BuildFailed),
    });
    screen.apply(SyncEvent::Finished {
        worker: 0,
        result: result("c", SyncOutcome::SkippedDirty),
    });
    let running = screen.footer();
    screen.all_done = true;

    let done = screen.footer();

    // The fourth repository never started, as after an abort.
    assert_eq!(running, "3/4 done    Ctrl-C abort");
    assert_eq!(
        done,
        "Done: 1 ok, 1 failed, 1 skipped, 1 not started    press any key"
    );
}

#[test]
fn a_pane_marks_its_repository_done_and_keeps_the_log() {
    let mut screen = planned(1, 2);
    screen.apply(SyncEvent::Started {
        worker: 0,
        name: "first".into(),
    });
    screen.apply(SyncEvent::Line {
        worker: 0,
        name: "first".into(),
        line: "OK sync completed".into(),
    });
    screen.apply(SyncEvent::Finished {
        worker: 0,
        result: result("first", SyncOutcome::Succeeded),
    });

    let rows = screen.frame(60, 6);

    assert!(
        rows[0].text.contains("worker 1  first  done"),
        "{}",
        rows[0].text
    );
    assert!(rows[1].text.starts_with("OK sync completed"));
}

#[test]
fn a_tiny_terminal_still_gets_a_footer_and_never_overflows() {
    let screen = planned(4, 4);

    let rows = screen.frame(10, 2);

    assert_eq!(rows.len(), 2);
    for row in &rows {
        assert!(display_width(&row.text) <= 10, "{}", row.text);
    }
}

#[test]
fn a_pane_sets_its_next_repository_off_from_the_last_one() {
    let mut screen = planned(1, 2);
    screen.apply(SyncEvent::Started {
        worker: 0,
        name: "first".into(),
    });
    screen.apply(SyncEvent::Line {
        worker: 0,
        name: "first".into(),
        line: "ERROR git pull failed (exit 1)".into(),
    });
    screen.apply(SyncEvent::Finished {
        worker: 0,
        result: result("first", SyncOutcome::PullFailed),
    });
    screen.apply(SyncEvent::Started {
        worker: 0,
        name: "second".into(),
    });
    screen.apply(SyncEvent::Line {
        worker: 0,
        name: "second".into(),
        line: "checking repository".into(),
    });

    let rows = screen.frame(60, 8);

    // The earlier error stays, and a rule names the repository whose lines
    // follow.
    assert!(
        rows[0].text.contains("worker 1  second"),
        "{}",
        rows[0].text
    );
    assert!(rows[1].text.starts_with("ERROR git pull failed"));
    assert_eq!(rows[2].text.trim(), "");
    assert!(
        rows[3].text.starts_with("\u{2500}\u{2500} second"),
        "{}",
        rows[3].text
    );
    assert_eq!(rows[3].color, Some(Color::DarkGrey));
    assert!(rows[4].text.starts_with("checking repository"));
}

#[test]
fn every_frame_is_as_high_as_the_screen() {
    for workers in [0, 1, 3, 10] {
        let screen = planned(workers, 12);
        for height in 0..45 {
            for width in [0, 1, 2, 3, 40] {
                let rows = screen.frame(width, height);
                assert_eq!(rows.len(), height);
                for (index, row) in rows.iter().enumerate() {
                    if index + 1 < height {
                        assert_eq!(display_width(&row.text), width);
                    } else {
                        assert!(display_width(&row.text) <= width.saturating_sub(1));
                    }
                }
            }
        }
    }
    let starting = SyncScreen::new(2).frame(40, 4);
    assert!(starting[0].text.starts_with("── pullkit sync  starting ──"));
    assert_eq!(starting[3].text, "0/2 done    Ctrl-C abort");
}

#[test]
fn the_logs_are_bounded_and_events_of_unknown_workers_change_no_pane() {
    let mut screen = planned(1, 1);
    for index in 0..2_100 {
        let line = index.to_string();
        screen.apply(SyncEvent::Line { worker: 0, name: "a".into(), line });
    }
    assert_eq!(screen.panes[0].lines.len(), 500);
    assert_eq!(screen.panes[0].lines.back().map(String::as_str), Some("2099"));
    assert_eq!(screen.merged.len(), 2_000);
    screen.apply(SyncEvent::Started { worker: 5, name: "b".into() });
    screen.apply(SyncEvent::Finished { worker: 5, result: result("b", SyncOutcome::Succeeded) });
    assert_eq!(screen.panes[0].name, None);
    assert_eq!(screen.finished.len(), 1);
}

#[test]
fn the_first_ctrl_c_asks_and_the_next_ones_kill() {
    let mut screen = planned(1, 2);
    let mut state = Watch::new();
    assert!(state.due(&screen, 0));
    state.drawn(1_000);
    assert!(!state.due(&screen, 2_000));
    let told = |input| WatchEvent::Told { input };
    assert_eq!(watch(&mut state, &mut screen, WatchEvent::Nothing), WatchStep::Look);
    assert_eq!(watch(&mut state, &mut screen, told(pressed(Key::Enter))), WatchStep::Listen);
    assert_eq!(watch(&mut state, &mut screen, told(ctrl_c(KeyKind::Press))), WatchStep::Interrupt);
    assert_eq!(screen.abort, Abort::Requested);
    assert!(!state.due(&screen, 999 + FRAME_INTERVAL) && state.due(&screen, 1_000 + FRAME_INTERVAL));
    assert!(screen.footer().ends_with("aborting, waiting for commands to stop    Ctrl-C again to kill them"));
    assert_eq!(watch(&mut state, &mut screen, told(ctrl_c(KeyKind::Repeat))), WatchStep::Listen);
    assert_eq!(watch(&mut state, &mut screen, told(ctrl_c(KeyKind::Press))), WatchStep::Kill);
    assert_eq!(watch(&mut state, &mut screen, told(ctrl_c(KeyKind::Press))), WatchStep::Kill);
    assert!(screen.footer().ends_with("killed, waiting for the workers to stop"));
    state.drawn(5_000);
    assert_eq!(watch(&mut state, &mut screen, told(Input::Resized)), WatchStep::Listen);
    assert!(state.dirty);
    state.drawn(5_000);
    let event = SyncEvent::Finished { worker: 0, result: result("a", SyncOutcome::PullFailed) };
    assert_eq!(watch(&mut state, &mut screen, WatchEvent::Heard { event }), WatchStep::Listen);
    assert_eq!(watch(&mut state, &mut screen, WatchEvent::Ended), WatchStep::Look);
    assert!(state.due(&screen, 5_000));
    assert_eq!(watch(&mut state, &mut screen, told(Input::Other)), WatchStep::Listen);
    assert_eq!(watch(&mut state, &mut screen, told(pressed(Key::Other))), WatchStep::Leave);
    let end = outcome(&screen, Vec::new());
    assert!(end.aborted && end.results.is_empty());
    assert!(!outcome(&planned(1, 1), Vec::new()).aborted);
}

#[test]
fn the_terminal_is_looked_at_however_fast_the_sync_reports() {
    let mut screen = planned(1, 1);
    let mut state = Watch::new();
    let mut reported = || {
        let event = SyncEvent::Line { worker: 0, name: "a".into(), line: "x".into() };
        watch(&mut state, &mut screen, WatchEvent::Heard { event })
    };
    for _ in 0..2 {
        for _ in 1..EVENTS_PER_FRAME {
            assert_eq!(reported(), WatchStep::Listen);
        }
        assert_eq!(reported(), WatchStep::Look);
    }
    assert_eq!(reported(), WatchStep::Listen);
    assert_eq!(watch(&mut state, &mut screen, WatchEvent::Nothing), WatchStep::Look);
    assert_eq!(state.heard, 0);
}
