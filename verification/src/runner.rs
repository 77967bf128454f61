//! Waiting for a command: for its lines, for its exit, and for no longer than
//! it is allowed.
//!
//! The waits are told what was seen and what time it is, in milliseconds, and
//! say what to do next.

use crate::commands::POLL_INTERVAL;
use crate::git::CommandOutput;
use crate::text;
use std::collections::VecDeque;
use vstd::prelude::*;

verus! {

/// How long a fetch may take, in milliseconds.
pub const FETCH_TIMEOUT: u64 = 60_000;

/// How long a pull may take, in milliseconds.
pub const PULL_TIMEOUT: u64 = 600_000;

/// How long a git command that only reads may take, in milliseconds. One can
/// hang, on a hook or a file system monitor that does not answer, and a sync
/// holds the repository's lock while it waits.
pub const READ_TIMEOUT: u64 = 120_000;

/// How long a command that has ended is still listened to, in milliseconds. A
/// helper it left behind can hold its pipes open.
pub const DRAIN_TIMEOUT: u64 = 5_000;

/// How long a killed command is waited for, in milliseconds.
pub const REAP_TIMEOUT: u64 = 5_000;

/// How often a killed command is looked at, in milliseconds.
pub const REAP_INTERVAL: u64 = 20;

/// Lines of a command's output kept for its result, beyond what was handed out
/// as it ran. A build has no timeout and can write without bound.
pub const RETAINED_LINES: usize = 2_000;

/// Lines that a pipe may have waiting. Past that the pipe fills and the command
/// waits on its write, as it would on a slow terminal.
pub const PIPE_QUEUE: usize = 1_024;

/// What came from the pipes of a command.
pub enum PipeMessage {
    /// One line.
    Line { line: String },
    /// One of the pipes has ended.
    Eof,
    /// Nothing will come any more.
    Disconnected,
    /// Nothing came for as long as a poll takes.
    Timeout,
}

/// What is known of the process of a command.
pub enum ChildState {
    Running,
    /// It has ended, with an exit code if no signal ended it.
    Exited { code: Option<i32> },
    /// It could not be asked.
    Failed { cause: String },
}

/// A command that is being watched.
pub struct CommandRun {
    /// The last lines it wrote, the oldest first.
    pub lines: VecDeque<String>,
    /// How many of its pipes are still open.
    pub open_pipes: u32,
    /// Its exit code, and until when it is still listened to, once it has ended.
    pub exited: Option<(Option<i32>, u64)>,
    /// How long it may take.
    pub timeout: Option<u64>,
    /// Until when.
    pub deadline: Option<u64>,
}

/// What a `CommandRun` holds.
#[verifier::ext_equal]
pub struct CommandRunView {
    pub lines: Seq<Seq<char>>,
    pub open_pipes: nat,
    pub exited: Option<(Option<i32>, u64)>,
    pub timeout: Option<u64>,
    pub deadline: Option<u64>,
}

impl View for CommandRun {
    type V = CommandRunView;

    open spec fn view(&self) -> CommandRunView {
        CommandRunView {
            lines: text::texts(self.lines@),
            open_pipes: self.open_pipes as nat,
            exited: self.exited,
            timeout: self.timeout,
            deadline: self.deadline,
        }
    }
}

/// The last `bound` lines.
pub open spec fn last_lines(lines: Seq<Seq<char>>, bound: nat) -> Seq<Seq<char>> {
    if lines.len() <= bound {
        lines
    } else {
        lines.skip(lines.len() - bound)
    }
}

/// Appends a line and lets the oldest go where there would be more than `bound`.
pub fn push_line(lines: &mut VecDeque<String>, bound: usize, line: String)
    requires
        bound > 0,
        old(lines)@.len() <= bound,
    ensures
        text::texts(final(lines)@) == last_lines(
            text::texts(old(lines)@).push(line@),
            bound as nat,
        ),
        final(lines)@.len() <= bound,
{
    if lines.len() == bound {
        let _ = lines.pop_front();
    }
    lines.push_back(line);
    assert(text::texts(lines@) =~= last_lines(text::texts(old(lines)@).push(line@), bound as nat));
}

/// What a round of watching a command comes to.
pub enum RunStep {
    /// Go on. The command is to be forgotten first where it has just ended.
    Wait { ended: bool },
    /// The command is done; it is to be forgotten first where it has just ended.
    Done { ended: bool, output: CommandOutput },
    /// Kill the command, collect it and forget it.
    Kill { error: String },
}

/// What a `RunStep` says.
#[verifier::ext_equal]
pub enum RunStepView {
    Wait { ended: bool },
    Done { ended: bool, code: Option<i32>, text: Seq<char> },
    Kill { error: Seq<char> },
}

impl View for RunStep {
    type V = RunStepView;

    open spec fn view(&self) -> RunStepView {
        match *self {
            RunStep::Wait { ended } => RunStepView::Wait { ended },
            RunStep::Done { ended, output } => RunStepView::Done {
                ended,
                code: output.code,
                text: output.text@,
            },
            RunStep::Kill { error } => RunStepView::Kill { error: error@ },
        }
    }
}

/// What a message tells of the pipes and the lines.
pub open spec fn heard(run: CommandRunView, message: PipeMessage) -> CommandRunView {
    match message {
        PipeMessage::Line { line } => CommandRunView {
            lines: last_lines(run.lines.push(line@), RETAINED_LINES as nat),
            ..run
        },
        PipeMessage::Eof => CommandRunView { open_pipes: (run.open_pipes - 1) as nat, ..run },
        PipeMessage::Disconnected => CommandRunView { open_pipes: 0, ..run },
        PipeMessage::Timeout => run,
    }
}

/// Whether a command has used up its time.
pub open spec fn is_late(run: CommandRunView, now: u64) -> bool {
    run.deadline matches Some(deadline) && now >= deadline
}

/// A number of milliseconds in whole seconds.
pub open spec fn whole_seconds(millis: u64) -> nat {
    (millis / 1_000) as nat
}

/// What is said of a command that used up its time.
pub open spec fn late_words(timeout: Option<u64>) -> Seq<char> {
    "command timed out after "@ + text::decimal(
        match timeout {
            Some(timeout) => whole_seconds(timeout),
            None => 0,
        },
    ) + " seconds"@
}

/// What a round without a kill comes to: a command that has ended is done once
/// its pipes are closed, or have had their time.
pub open spec fn settled(run: CommandRunView, ended: bool, now: u64) -> (
    CommandRunView,
    RunStepView,
) {
    match run.exited {
        Some((code, drained_by)) if run.open_pipes == 0 || now >= drained_by => (
            run,
            RunStepView::Done { ended, code, text: text::joined(run.lines, "\n"@) },
        ),
        _ => (run, RunStepView::Wait { ended }),
    }
}

/// What a round of watching a command comes to, once its message was heard.
pub open spec fn run_step(run: CommandRunView, child: ChildState, now: u64) -> (
    CommandRunView,
    RunStepView,
) {
    if run.exited is Some {
        settled(run, false, now)
    } else {
        match child {
            ChildState::Exited { code } => settled(
                CommandRunView { exited: Some((code, (now + DRAIN_TIMEOUT) as u64)), ..run },
                true,
                now,
            ),
            ChildState::Running => if is_late(run, now) {
                (run, RunStepView::Kill { error: late_words(run.timeout) })
            } else {
                settled(run, false, now)
            },
            ChildState::Failed { cause } => (
                run,
                RunStepView::Kill { error: "failed to wait for command: "@ + cause@ },
            ),
        }
    }
}

/// A command that was just started, with both its pipes open.
pub open spec fn started(timeout: Option<u64>, now: u64) -> CommandRunView {
    CommandRunView {
        lines: Seq::empty(),
        open_pipes: 2,
        exited: None,
        timeout,
        deadline: match timeout {
            Some(timeout) => Some((now + timeout) as u64),
            None => None,
        },
    }
}

impl CommandRun {
    /// A command that was just started, with both its pipes open.
    pub fn new(timeout: Option<u64>, now: u64) -> (r: CommandRun)
        requires
            timeout matches Some(timeout) ==> now + timeout <= u64::MAX,
        ensures
            r@ == started(timeout, now),
            r.is_bounded(),
    {
        let lines: VecDeque<String> = VecDeque::new();
        assert(text::texts(lines@) =~= Seq::empty());
        CommandRun {
            lines,
            open_pipes: 2,
            exited: None,
            timeout,
            deadline: match timeout {
                Some(timeout) => Some(now + timeout),
                None => None,
            },
        }
    }

    /// Whether no more lines are kept than may be.
    pub open spec fn is_bounded(&self) -> bool {
        self.lines@.len() <= RETAINED_LINES
    }

    /// Whether nothing can come from the pipes any more. The next round then
    /// sleeps for a poll interval where it would otherwise listen as long, so
    /// that a command that closed its pipes and ran on is not waited for in a
    /// spin.
    pub fn is_silent(&self) -> (r: bool)
        ensures
            r == (self@.open_pipes == 0),
    {
        self.open_pipes == 0
    }

    /// Whether the command has not been seen to end.
    pub fn awaits_exit(&self) -> (r: bool)
        ensures
            r == (self@.exited is None),
    {
        self.exited.is_none()
    }

    fn settle(&self, ended: bool, now: u64) -> (r: RunStep)
        ensures
            (self@, r@) == settled(self@, ended, now),
    {
        match self.exited {
            Some((code, drained_by)) => if self.open_pipes == 0 || now >= drained_by {
                let mut lines: Vec<String> = Vec::new();
                for i in 0..self.lines.len()
                    invariant
                        lines@ == self.lines@.take(i as int),
                {
                    lines.push(self.lines[i].clone());
                    assert(self.lines@.take(i + 1) == self.lines@.take(i as int).push(
                        self.lines@[i as int],
                    ));
                }
                assert(self.lines@.take(self.lines@.len() as int) == self.lines@);
                let text = text::join_text(&lines, "\n");
                RunStep::Done { ended, output: CommandOutput { code, text } }
            } else {
                RunStep::Wait { ended }
            },
            None => RunStep::Wait { ended },
        }
    }
}

fn late_text(timeout: Option<u64>) -> (r: String)
    ensures
        r@ == late_words(timeout),
{
    let seconds: u64 = match timeout {
        Some(timeout) => timeout / 1_000,
        None => 0,
    };
    "command timed out after ".to_owned().concat(text::decimal_text(seconds).as_str()).concat(
        " seconds",
    )
}

/// One round of watching a command: takes in what came from its pipes, looks at
/// its process, and says whether to go on, to kill it, or to take its output.
/// The command is late once its timeout has passed, and listened to for a while
/// after it has ended.
pub fn run_with_timeout(
    run: &mut CommandRun,
    message: PipeMessage,
    child: &ChildState,
    now: u64,
) -> (r: RunStep)
    requires
        old(run).is_bounded(),
        message is Eof ==> old(run).open_pipes > 0,
        now + DRAIN_TIMEOUT <= u64::MAX,
    ensures
        (final(run)@, r@) == run_step(heard(old(run)@, message), *child, now),
        final(run).is_bounded(),
{
    match message {
        PipeMessage::Line { line } => push_line(&mut run.lines, RETAINED_LINES, line),
        PipeMessage::Eof => run.open_pipes = run.open_pipes - 1,
        PipeMessage::Disconnected => run.open_pipes = 0,
        PipeMessage::Timeout => {},
    }
    if run.exited.is_some() {
        return run.settle(false, now);
    }
    match child {
        ChildState::Exited { code } => {
            run.exited = Some((*code, now + DRAIN_TIMEOUT));
            run.settle(true, now)
        },
        ChildState::Running => {
            let late = match run.deadline {
                Some(deadline) => now >= deadline,
                None => false,
            };
            if late {
                RunStep::Kill { error: late_text(run.timeout) }
            } else {
                run.settle(false, now)
            }
        },
        ChildState::Failed { cause } => RunStep::Kill {
            error: "failed to wait for command: ".to_owned().concat(cause.as_str()),
        },
    }
}

/// Why the output of a command could not be read.
pub open spec fn unreadable_words(cause: Seq<char>) -> Seq<char> {
    "failed to start a thread to read command output: "@ + cause
}

/// Puts in words why the output of a command could not be read. The command is
/// then killed, collected and forgotten.
pub fn not_readable(cause: &str) -> (r: String)
    ensures
        r@ == unreadable_words(cause@),
{
    "failed to start a thread to read command output: ".to_owned().concat(cause)
}

/// Keeping the last lines as each one comes keeps the last of them all.
pub proof fn the_last_lines_are_kept(lines: Seq<Seq<char>>, line: Seq<char>, bound: nat)
    requires
        bound > 0,
    ensures
        last_lines(last_lines(lines, bound).push(line), bound) == last_lines(
            lines.push(line),
            bound,
        ),
{
    assert(last_lines(last_lines(lines, bound).push(line), bound) =~= last_lines(
        lines.push(line),
        bound,
    ));
}

/// A command that runs is killed when its time is up and not before, and one
/// without a timeout never; one that has ended is not killed however late it is.
pub proof fn only_late_commands_are_killed(run: CommandRunView, child: ChildState, now: u64)
    requires
        !(child is Failed),
    ensures
        run_step(run, child, now).1 is Kill <==> run.exited is None && child is Running
            && run.deadline is Some && now >= run.deadline->0,
{
}

/// The output of a command is taken once the command has ended and its pipes are
/// closed, and in any case when it has been listened to for long enough after
/// its end.
pub proof fn ended_commands_are_drained(run: CommandRunView, child: ChildState, now: u64)
    requires
        now + DRAIN_TIMEOUT <= u64::MAX,
    ensures
        run_step(run, child, now).1 is Done <==> {
            ||| run.exited matches Some((_, drained_by)) && (run.open_pipes == 0 || now
                >= drained_by)
            ||| run.exited is None && child is Exited && run.open_pipes == 0
        },
{
}

/// A git command that only reads, being waited for.
pub struct ReadWait {
    /// How long it may take.
    pub timeout: u64,
    /// Until when.
    pub deadline: u64,
    /// How long the next wait for it is.
    pub pause: u64,
}

impl ReadWait {
    /// The wait for a command that was just started.
    pub open spec fn first(timeout: u64, now: u64) -> ReadWait {
        ReadWait { timeout, deadline: (now + timeout) as u64, pause: 1 }
    }

    /// A command that was just started.
    pub fn new(timeout: u64, now: u64) -> (r: ReadWait)
        requires
            now + timeout <= u64::MAX,
        ensures
            r == Self::first(timeout, now),
            r.is_short(),
    {
        ReadWait { timeout, deadline: now + timeout, pause: 1 }
    }

    /// Whether no single wait is longer than a poll interval.
    pub open spec fn is_short(self) -> bool {
        1 <= self.pause <= POLL_INTERVAL
    }

    /// The wait after this one: twice as long, up to a poll interval.
    pub open spec fn lengthened(self) -> ReadWait {
        ReadWait {
            pause: if self.pause * 2 <= POLL_INTERVAL {
                (self.pause * 2) as u64
            } else {
                POLL_INTERVAL
            },
            ..self
        }
    }
}

/// What a look at a git command that only reads comes to.
pub enum ReadStep {
    /// Look again after so many milliseconds.
    Sleep { millis: u64 },
    /// The command has ended: forget it and take its output.
    Collect { code: Option<i32> },
    /// Kill the command, collect it and forget it.
    Kill { error: String },
}

/// What a `ReadStep` says.
#[verifier::ext_equal]
pub enum ReadStepView {
    Sleep { millis: nat },
    Collect { code: Option<i32> },
    Kill { error: Seq<char> },
}

impl View for ReadStep {
    type V = ReadStepView;

    open spec fn view(&self) -> ReadStepView {
        match *self {
            ReadStep::Sleep { millis } => ReadStepView::Sleep { millis: millis as nat },
            ReadStep::Collect { code } => ReadStepView::Collect { code },
            ReadStep::Kill { error } => ReadStepView::Kill { error: error@ },
        }
    }
}

/// What a look at a git command that only reads comes to.
pub open spec fn read_step(wait: ReadWait, child: ChildState, now: u64) -> (
    ReadWait,
    ReadStepView,
) {
    match child {
        ChildState::Exited { code } => (wait, ReadStepView::Collect { code }),
        ChildState::Failed { cause } => (wait, ReadStepView::Kill { error: cause@ }),
        ChildState::Running => if now < wait.deadline {
            (wait.lengthened(), ReadStepView::Sleep { millis: wait.pause as nat })
        } else {
            (
                wait,
                ReadStepView::Kill {
                    error: "timed out after "@ + text::decimal(whole_seconds(wait.timeout))
                        + " seconds"@,
                },
            )
        },
    }
}

/// Waits for a git command that only reads, and kills it when its time is up.
/// Most of these commands end within milliseconds, so the waits start short and
/// lengthen.
pub fn output_within(wait: &mut ReadWait, child: &ChildState, now: u64) -> (r: ReadStep)
    requires
        old(wait).is_short(),
    ensures
        (*final(wait), r@) == read_step(*old(wait), *child, now),
        final(wait).is_short(),
{
    match child {
        ChildState::Exited { code } => ReadStep::Collect { code: *code },
        ChildState::Failed { cause } => ReadStep::Kill { error: cause.clone() },
        ChildState::Running => if now < wait.deadline {
            let millis: u64 = wait.pause;
            let doubled: u64 = millis * 2;
            wait.pause = if doubled <= POLL_INTERVAL {
                doubled
            } else {
                POLL_INTERVAL
            };
            ReadStep::Sleep { millis }
        } else {
            let seconds = text::decimal_text(wait.timeout / 1_000);
            ReadStep::Kill {
                error: "timed out after ".to_owned().concat(seconds.as_str()).concat(" seconds"),
            }
        },
    }
}

/// How long the wait after `looks` looks is: a millisecond doubled each time, up
/// to a poll interval.
pub open spec fn pause_after(looks: nat) -> nat
    decreases looks,
{
    if looks == 0 {
        1
    } else if pause_after((looks - 1) as nat) * 2 <= POLL_INTERVAL {
        pause_after((looks - 1) as nat) * 2
    } else {
        POLL_INTERVAL as nat
    }
}

/// The waits for a git command that only reads are a millisecond at first,
/// double with each look, and stay at a poll interval from the seventh on.
pub proof fn waits_lengthen(wait: ReadWait, looks: nat)
    requires
        wait.pause == pause_after(looks),
    ensures
        wait.lengthened().pause == pause_after(looks + 1),
        1 <= pause_after(looks) <= POLL_INTERVAL,
        looks >= 6 ==> pause_after(looks) == POLL_INTERVAL,
{
    lemma_pause_bounds(looks);
}

proof fn lemma_pause_bounds(looks: nat)
    ensures
        1 <= pause_after(looks) <= POLL_INTERVAL,
        looks >= 6 ==> pause_after(looks) == POLL_INTERVAL,
    decreases looks,
{
    if looks > 0 {
        lemma_pause_bounds((looks - 1) as nat);
    }
    if looks == 6 {
        reveal_with_fuel(pause_after, 7);
    }
}

/// How long a killed command is left alone before the next look at it, if there is
/// to be one.
pub open spec fn reap_pause(child: ChildState, now: u64, deadline: u64) -> Option<u64> {
    if now < deadline && child is Running {
        Some(REAP_INTERVAL)
    } else {
        None
    }
}

/// How long to wait before a killed command is looked at again; `None` once it
/// has ended, or outlasted the wait and is left to the operating system.
pub fn reap(child: &ChildState, now: u64, deadline: u64) -> (r: Option<u64>)
    ensures
        r == reap_pause(*child, now, deadline),
{
    if now >= deadline {
        return None;
    }
    match child {
        ChildState::Running => Some(REAP_INTERVAL),
        _ => None,
    }
}

/// Of lines that are too many the newest are kept, in their order.
pub proof fn the_newest_lines_are_kept(lines: Seq<Seq<char>>, bound: nat)
    ensures
        lines.len() <= bound ==> last_lines(lines, bound) == lines,
        lines.len() > bound ==> last_lines(lines, bound) == lines.skip(lines.len() - bound),
{
}

/// A command starts with nothing said, both its pipes open, and all of its time,
/// if that is bounded at all, ahead of it.
pub proof fn commands_start_with_all_their_time(timeout: Option<u64>, now: u64)
    requires
        timeout matches Some(timeout) ==> now + timeout <= u64::MAX,
    ensures
        started(timeout, now).lines.len() == 0,
        started(timeout, now).open_pipes == 2,
        started(timeout, now).exited is None,
        started(timeout, now).timeout == timeout,
        match timeout {
            Some(timeout) => started(Some(timeout), now).deadline is Some && started(
                Some(timeout),
                now,
            ).deadline->0 == now + timeout,
            None => started(None, now).deadline is None,
        },
{
}

/// A line that comes is added to those that are kept, of which there are two
/// thousand at most; the end of a pipe is counted; and silence changes nothing.
pub proof fn messages_are_taken_in(run: CommandRunView, line: String)
    ensures
        heard(run, PipeMessage::Line { line }) == (CommandRunView {
            lines: if run.lines.len() < 2_000 {
                run.lines.push(line@)
            } else {
                run.lines.push(line@).skip(run.lines.len() - 1_999)
            },
            ..run
        }),
        run.open_pipes > 0 ==> heard(run, PipeMessage::Eof) == (CommandRunView {
            open_pipes: (run.open_pipes - 1) as nat,
            ..run
        }),
        heard(run, PipeMessage::Disconnected) == (CommandRunView { open_pipes: 0, ..run }),
        heard(run, PipeMessage::Timeout) == run,
{
    the_newest_lines_are_kept(run.lines.push(line@), 2_000);
}

/// What a round of watching comes to. While the command runs, it is waited for, or
/// killed when its time is up. When it has ended it is done at once if its pipes
/// are closed; else it is listened to for five seconds. Its output is the lines
/// that were kept, one below the other, with its exit code.
pub proof fn commands_are_watched_to_their_end(run: CommandRunView, child: ChildState, now: u64)
    requires
        now + 5_000 <= u64::MAX,
    ensures
        ({
            let (after, step) = run_step(run, child, now);
            let text = text::joined(run.lines, "\n"@);
            match run.exited {
                Some((code, drained_by)) => after == run && step == if run.open_pipes == 0 || now
                    >= drained_by {
                    RunStepView::Done { ended: false, code, text }
                } else {
                    RunStepView::Wait { ended: false }
                },
                None => match child {
                    ChildState::Running => after == run && step == if run.deadline is Some && now
                        >= run.deadline->0 {
                        RunStepView::Kill { error: late_words(run.timeout) }
                    } else {
                        RunStepView::Wait { ended: false }
                    },
                    ChildState::Failed { cause } => after == run && step == (RunStepView::Kill {
                        error: "failed to wait for command: "@ + cause@,
                    }),
                    ChildState::Exited { code } => {
                        &&& after.exited is Some
                        &&& (after.exited->0).0 == code
                        &&& (after.exited->0).1 == now + 5_000
                        &&& after.lines == run.lines
                        &&& after.open_pipes == run.open_pipes
                        &&& after.timeout == run.timeout
                        &&& after.deadline == run.deadline
                        &&& step == if run.open_pipes == 0 {
                            RunStepView::Done { ended: true, code, text }
                        } else {
                            RunStepView::Wait { ended: true }
                        }
                    },
                },
            }
        }),
{
}

/// What is said of a command that used up its time, in whole seconds, and of one
/// whose output could not be read.
pub proof fn late_commands_are_told_in_seconds(timeout: u64, seconds: nat, cause: Seq<char>)
    requires
        seconds * 1_000 <= timeout < (seconds + 1) * 1_000,
    ensures
        late_words(Some(timeout)) == "command timed out after "@ + text::decimal(seconds)
            + " seconds"@,
        late_words(None) == "command timed out after "@ + text::decimal(0) + " seconds"@,
        whole_seconds(timeout) == seconds,
        unreadable_words(cause) == "failed to start a thread to read command output: "@ + cause,
{
    assert(timeout / 1_000 == seconds);
}

/// A git command that only reads is looked at after a millisecond, then after
/// twice as long each time, up to fifty milliseconds; when it has ended its output
/// is taken, and when its time is up it is killed.
pub proof fn reads_are_waited_for(wait: ReadWait, child: ChildState, now: u64)
    requires
        1 <= wait.pause <= 50,
    ensures
        ({
            let (after, step) = read_step(wait, child, now);
            match child {
                ChildState::Exited { code } => after == wait && step == (ReadStepView::Collect {
                    code,
                }),
                ChildState::Failed { cause } => after == wait && step == (ReadStepView::Kill {
                    error: cause@,
                }),
                ChildState::Running => if now < wait.deadline {
                    &&& step == (ReadStepView::Sleep { millis: wait.pause as nat })
                    &&& after.timeout == wait.timeout
                    &&& after.deadline == wait.deadline
                    &&& after.pause == if wait.pause <= 25 {
                        wait.pause * 2
                    } else {
                        50
                    }
                } else {
                    &&& after == wait
                    &&& step == (ReadStepView::Kill {
                        error: "timed out after "@ + text::decimal((wait.timeout / 1_000) as nat)
                            + " seconds"@,
                    })
                },
            }
        }),
{
}

/// The wait for a git command that only reads starts with a millisecond, and with
/// all of the command's time ahead of it.
pub proof fn reads_start_with_all_their_time(timeout: u64, now: u64)
    requires
        now + timeout <= u64::MAX,
    ensures
        ReadWait::first(timeout, now).timeout == timeout,
        ReadWait::first(timeout, now).deadline == now + timeout,
        ReadWait::first(timeout, now).pause == 1,
{
}

/// A killed command is looked at every twenty milliseconds until it has ended, or
/// has outlasted the wait.
pub proof fn killed_commands_are_collected(child: ChildState, now: u64, deadline: u64)
    ensures
        reap_pause(child, now, deadline) is Some <==> now < deadline && child is Running,
        reap_pause(child, now, deadline) matches Some(millis) ==> millis == 20,
{
}

/// A killed command is waited for no longer than five seconds.
pub proof fn killed_commands_are_given_up(killed: u64, now: u64)
    requires
        killed + 5_000 <= u64::MAX,
    ensures
        reap_pause(ChildState::Running, now, (killed + REAP_TIMEOUT) as u64) is Some <==> now
            < killed + 5_000,
{
}

} // verus!
