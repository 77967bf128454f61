use pullkit::commands::{
    forget_running, not_spawned, refuse_start, spawn_tracked, Signal, SpawnStage, SpawnStep,
    StopPhase, StopStep, POLL_INTERVAL, SPAWN_GRACE,
};
use pullkit::output::{output_line, read_line_bounded};
use pullkit::runner::{
    not_readable, output_within, push_line, reap, run_with_timeout, ChildState, CommandRun,
    PipeMessage, ReadStep, ReadWait, RunStep, DRAIN_TIMEOUT, REAP_INTERVAL, RETAINED_LINES,
};
use pullkit::{
    interrupt_running_commands, stop_leftover_commands, stop_running_commands,
    terminate_running_commands, Commands, Isolation,
};
use std::collections::VecDeque;

fn commands_with(running: &[u32], leftover: &[u32]) -> Commands {
    let mut commands = Commands::new();
    commands.running = running.to_vec();
    commands.leftover = leftover.to_vec();
    commands
}

fn line_message(line: &str) -> PipeMessage {
    PipeMessage::Line { line: line.into() }
}

#[test]
fn a_signal_goes_to_the_groups_that_live_and_drops_the_others() {
    let mut commands = commands_with(&[1, 2, 3], &[4, 5]);
    let order = interrupt_running_commands(&mut commands, &vec![5, 3, 1, 9]);
    assert_eq!((order.signal, order.groups), (Signal::Interrupt, vec![1, 3, 5]));
    assert!(commands.abandoned);
    assert_eq!((&commands.running, &commands.leftover), (&vec![1, 3], &vec![5]));
    let order = terminate_running_commands(&mut commands, &vec![3]);
    assert_eq!((order.signal, order.groups), (Signal::Kill, vec![3]));
    assert_eq!(commands.listed(), vec![3]);
}

#[test]
fn a_command_counts_as_starting_until_it_is_listed() {
    let mut commands = Commands::new();
    assert!(matches!(spawn_tracked(&mut commands, SpawnStage::Begin, &vec![]), SpawnStep::Spawn));
    assert_eq!(commands.spawning, 1);
    let started = spawn_tracked(&mut commands, SpawnStage::Spawned { group: 7 }, &vec![]);
    assert!(matches!(started, SpawnStep::Started));
    assert_eq!((commands.spawning, &commands.running), (0, &vec![7]));
    spawn_tracked(&mut commands, SpawnStage::Begin, &vec![]);
    let cause = "not found".to_owned();
    match spawn_tracked(&mut commands, SpawnStage::NotSpawned { cause }, &vec![]) {
        SpawnStep::Refused { error } => assert_eq!(error, "failed to run command: not found"),
        _ => panic!("the command was not started"),
    }
    assert_eq!(commands.spawning, 0);
    assert_eq!(not_spawned("x"), "failed to run command: x");
}

#[test]
fn kills_a_command_that_starts_after_an_abort() {
    // The command is spawned before the abort and listed after it.
    let mut commands = Commands::new();
    spawn_tracked(&mut commands, SpawnStage::Begin, &vec![]);
    interrupt_running_commands(&mut commands, &vec![]);

    let step = spawn_tracked(&mut commands, SpawnStage::Spawned { group: 7 }, &vec![7]);

    assert!(matches!(step, SpawnStep::Kill { group: 7 }));
    assert_eq!(commands.spawning, 1);
    match spawn_tracked(&mut commands, SpawnStage::Killed { group: 7 }, &vec![]) {
        SpawnStep::Refused { error } => assert_eq!(error, "aborted before the command started"),
        _ => panic!("the command was killed"),
    }
    assert_eq!(commands.spawning, 0);
    assert!(commands.running.is_empty() && commands.leftover.is_empty());
    // And one that has not begun is refused.
    assert!(matches!(
        spawn_tracked(&mut commands, SpawnStage::Begin, &vec![]),
        SpawnStep::Refused { .. }
    ));
    assert_eq!(refuse_start(&commands).as_deref(), Some("aborted before the command started"));
    assert_eq!(refuse_start(&Commands::new()), None);
}

#[test]
fn keeps_a_group_listed_while_a_background_process_of_the_build_lives() {
    let mut commands = commands_with(&[1, 2, 3], &[8, 9]);
    forget_running(&mut commands, 1, Isolation::OwnGroup, &vec![1, 9]);
    assert_eq!((&commands.running, &commands.leftover), (&vec![3, 2], &vec![9, 1]));
    forget_running(&mut commands, 2, Isolation::OwnGroup, &vec![9]);
    assert_eq!((&commands.running, &commands.leftover), (&vec![3], &vec![9]));
    forget_running(&mut commands, 3, Isolation::SharedGroup, &vec![]);
    assert_eq!((&commands.running, &commands.leftover), (&vec![3], &vec![9]));

    // The stop of the leftovers takes them down without abandoning anything.
    let (phase, step) = stop_leftover_commands(&mut commands, StopPhase::Start, &vec![3, 9], 0, 100);
    match step {
        StopStep::Send { order } => assert_eq!((order.signal, order.groups), (Signal::Interrupt, vec![9])),
        _ => panic!("the leftovers are asked to stop"),
    }
    let (phase, step) = stop_leftover_commands(&mut commands, phase, &vec![3], 10, 100);
    assert!(matches!(step, StopStep::Done));
    assert_eq!(phase, StopPhase::Done);
    assert_eq!(commands.running, vec![3]);
    assert!(!commands.abandoned);
}

#[test]
fn a_stop_waits_for_the_commands_it_asked_to_stop_and_kills_the_rest() {
    let mut commands = commands_with(&[1, 2], &[]);
    let (phase, step) = stop_running_commands(&mut commands, StopPhase::Start, &vec![1, 2], 1_000, 300);
    assert!(matches!(step, StopStep::Send { order } if order.signal == Signal::Interrupt));
    assert!(commands.abandoned);
    // The first has ended; the other is given its time.
    let (phase, step) = stop_running_commands(&mut commands, phase, &vec![2], 1_000, 300);
    assert!(matches!(step, StopStep::Sleep { millis: POLL_INTERVAL }));
    let (phase, step) = stop_running_commands(&mut commands, phase, &vec![2], 1_299, 300);
    assert!(matches!(step, StopStep::Sleep { .. }));
    let (phase, step) = stop_running_commands(&mut commands, phase, &vec![2], 1_300, 300);
    match step {
        StopStep::Send { order } => assert_eq!((order.signal, order.groups), (Signal::Kill, vec![2])),
        _ => panic!("the rest is killed"),
    }
    let (_, step) = stop_running_commands(&mut commands, phase, &vec![], 1_310, 300);
    assert!(matches!(step, StopStep::Done));
}

#[test]
fn a_stop_waits_for_a_command_that_is_starting() {
    let mut commands = Commands::new();
    spawn_tracked(&mut commands, SpawnStage::Begin, &vec![]);
    let (phase, _) = stop_running_commands(&mut commands, StopPhase::Start, &vec![], 0, 10);
    let (phase, step) = stop_running_commands(&mut commands, phase, &vec![], 0, 10);
    assert!(matches!(step, StopStep::Sleep { .. }));
    let (phase, step) = stop_running_commands(&mut commands, phase, &vec![], 10, 10);
    assert!(matches!(step, StopStep::Send { order } if order.signal == Signal::Kill));
    let (phase, step) = stop_running_commands(&mut commands, phase, &vec![], 20, 10);
    assert!(matches!(step, StopStep::Sleep { .. }));
    let (_, step) = stop_running_commands(&mut commands, phase, &vec![], 20 + SPAWN_GRACE, 10);
    assert!(matches!(step, StopStep::Done));
}

#[test]
fn kills_a_command_that_outlives_its_timeout() {
    let mut run = CommandRun::new(Some(300), 5);
    let early = run_with_timeout(&mut run, PipeMessage::Timeout, &ChildState::Running, 304);
    assert!(matches!(early, RunStep::Wait { ended: false }));
    match run_with_timeout(&mut run, PipeMessage::Timeout, &ChildState::Running, 305) {
        RunStep::Kill { error } => {
            assert!(error.contains("timed out"));
            assert_eq!(error, "command timed out after 0 seconds");
        }
        _ => panic!("a late command is killed"),
    }
    let mut slow = CommandRun::new(Some(60_000), 5);
    match run_with_timeout(&mut slow, PipeMessage::Timeout, &ChildState::Running, 60_005) {
        RunStep::Kill { error } => assert_eq!(error, "command timed out after 60 seconds"),
        _ => panic!("a late command is killed"),
    }
}

#[test]
fn collects_output_larger_than_a_pipe_buffer_from_both_streams() {
    // Each stream is one word per line, and cut short in the last one.
    let stdout = "stdout\n".repeat(60_000).into_bytes()[..400_000].to_vec();
    let stderr = "stderr\n".repeat(60_000).into_bytes()[..400_000].to_vec();
    let mut run = CommandRun::new(Some(20_000), 0);
    let mut seen = Vec::new();
    for stream in [&stderr, &stdout] {
        let mut rest = stream.as_slice();
        loop {
            let mut buffer = Vec::new();
            let (taken, _) = read_line_bounded(rest, &mut buffer);
            if buffer.is_empty() {
                break;
            }
            rest = &rest[taken..];
            let line = output_line(&buffer);
            seen.push(line.clone());
            run_with_timeout(&mut run, PipeMessage::Line { line }, &ChildState::Running, 10);
        }
        run_with_timeout(&mut run, PipeMessage::Eof, &ChildState::Running, 10);
    }
    let exited = ChildState::Exited { code: Some(0) };
    match run_with_timeout(&mut run, PipeMessage::Disconnected, &exited, 20) {
        RunStep::Done { output, .. } => {
            assert_eq!(output.code, Some(0));
            assert_eq!(output.text.lines().count(), RETAINED_LINES);
        }
        _ => panic!("both pipes have ended"),
    }
    let words = seen.iter().filter(|line| ["stdout", "stdou"].contains(&line.as_str())).count();
    assert_eq!(words, 400_000_usize.div_ceil("stdout\n".len()));
    assert_eq!(seen.len() - words, 400_000_usize.div_ceil("stderr\n".len()));
}

#[test]
fn hands_out_each_line_as_it_arrives_and_keeps_the_last_progress_frame() {
    // A line, a progress bar redrawn with carriage returns, a line on the other
    // stream, and a last line without a newline.
    let mut seen = Vec::new();
    let mut run = CommandRun::new(Some(20_000), 0);
    let exited = ChildState::Exited { code: Some(0) };
    let streams = [&b"first\n"[..], b"10%\r50%\r100%\n", b"warning\n", b"last"];
    for raw in streams {
        let line = output_line(raw);
        seen.push(line.clone());
        let step = run_with_timeout(&mut run, PipeMessage::Line { line }, &ChildState::Running, 10);
        assert!(matches!(step, RunStep::Wait { ended: false }));
    }
    run_with_timeout(&mut run, PipeMessage::Eof, &ChildState::Running, 10);
    assert!(!run.is_silent() && run.awaits_exit());
    let ended = run_with_timeout(&mut run, PipeMessage::Timeout, &exited, 20);
    assert!(matches!(ended, RunStep::Wait { ended: true }));
    let output = match run_with_timeout(&mut run, PipeMessage::Eof, &exited, 30) {
        RunStep::Done { ended: false, output } => output,
        _ => panic!("both pipes have ended"),
    };
    assert!(run.is_silent());

    assert_eq!(output.code, Some(0));
    let position = |wanted: &str| seen.iter().position(|line| line == wanted);
    assert!(position("first") < position("100%"), "{seen:?}");
    assert!(position("100%") < position("last"), "{seen:?}");
    assert!(!seen.iter().any(|line| line.contains('\r')), "{seen:?}");
    assert!(seen.contains(&"warning".to_owned()), "{seen:?}");
    assert_eq!(seen.last().map(String::as_str), Some("last"));
    assert_eq!(output.text, seen.join("\n"));
}

#[test]
fn runs_a_build_without_a_timeout() {
    let mut run = CommandRun::new(None, 0);
    let step = run_with_timeout(&mut run, PipeMessage::Timeout, &ChildState::Running, u64::MAX / 2);
    assert!(matches!(step, RunStep::Wait { ended: false }));
    run_with_timeout(&mut run, line_message("built"), &ChildState::Running, u64::MAX / 2);
    let exited = ChildState::Exited { code: Some(0) };
    match run_with_timeout(&mut run, PipeMessage::Disconnected, &exited, u64::MAX / 2) {
        RunStep::Done { ended: true, output } => {
            assert_eq!((output.code, output.text.as_str()), (Some(0), "built"))
        }
        _ => panic!("both pipes have ended"),
    }
}

#[test]
fn a_command_that_ended_is_listened_to_for_a_while() {
    let mut run = CommandRun::new(Some(1), 0);
    let exited = ChildState::Exited { code: Some(3) };
    let step = run_with_timeout(&mut run, PipeMessage::Timeout, &exited, 10);
    assert!(matches!(step, RunStep::Wait { ended: true }));
    let step = run_with_timeout(&mut run, line_message("late"), &exited, 9 + DRAIN_TIMEOUT);
    assert!(matches!(step, RunStep::Wait { ended: false }));
    match run_with_timeout(&mut run, PipeMessage::Timeout, &exited, 10 + DRAIN_TIMEOUT) {
        RunStep::Done { ended: false, output } => {
            assert_eq!((output.code, output.text.as_str()), (Some(3), "late"))
        }
        _ => panic!("the drain has a bound of its own"),
    }
}

#[test]
fn a_command_that_cannot_be_asked_is_killed() {
    let mut run = CommandRun::new(None, 0);
    let failed = ChildState::Failed { cause: "gone".into() };
    match run_with_timeout(&mut run, PipeMessage::Timeout, &failed, 10) {
        RunStep::Kill { error } => assert_eq!(error, "failed to wait for command: gone"),
        _ => panic!("the command is killed"),
    }
    assert_eq!(not_readable("no"), "failed to start a thread to read command output: no");
}

#[test]
fn keeps_the_last_lines_of_a_long_output() {
    let mut run = CommandRun::new(None, 0);
    for index in 0..RETAINED_LINES + 5 {
        run_with_timeout(&mut run, line_message(&index.to_string()), &ChildState::Running, 1);
    }
    assert_eq!(run.lines.len(), RETAINED_LINES);
    assert_eq!(run.lines.front().map(String::as_str), Some("5"));
    let mut few = VecDeque::new();
    for line in ["a", "b", "c"] {
        push_line(&mut few, 2, line.to_owned());
    }
    assert_eq!(few, ["b", "c"]);
}

#[test]
fn bounds_a_git_command_that_only_reads() {
    let mut wait = ReadWait::new(300, 0);
    assert!(matches!(output_within(&mut wait, &ChildState::Running, 299), ReadStep::Sleep { .. }));
    match output_within(&mut wait, &ChildState::Running, 300) {
        ReadStep::Kill { error } => {
            assert!(error.contains("timed out"));
            assert_eq!(error, "timed out after 0 seconds");
        }
        _ => panic!("the command outlives the bound"),
    }

    let mut wait = ReadWait::new(2_500, 100);
    let mut pauses = Vec::new();
    for _ in 0..8 {
        match output_within(&mut wait, &ChildState::Running, 200) {
            ReadStep::Sleep { millis } => pauses.push(millis),
            _ => panic!("the command is waited for"),
        }
    }
    assert_eq!(pauses, vec![1, 2, 4, 8, 16, 32, 50, 50]);
    match output_within(&mut wait, &ChildState::Running, 2_600) {
        ReadStep::Kill { error } => assert_eq!(error, "timed out after 2 seconds"),
        _ => panic!("the command outlives the bound"),
    }
    let exited = ChildState::Exited { code: Some(1) };
    let step = output_within(&mut wait, &exited, 9_000);
    assert!(matches!(step, ReadStep::Collect { code: Some(1) }));
    let failed = ChildState::Failed { cause: "gone".into() };
    assert!(matches!(output_within(&mut wait, &failed, 0), ReadStep::Kill { error } if error == "gone"));
}

#[test]
fn a_killed_command_is_not_waited_for_without_end() {
    assert_eq!(reap(&ChildState::Running, 10, 20), Some(REAP_INTERVAL));
    assert_eq!(reap(&ChildState::Running, 20, 20), None);
    assert_eq!(reap(&ChildState::Exited { code: None }, 10, 20), None);
}
