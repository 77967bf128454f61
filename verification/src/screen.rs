//! The full screen view of a running sync: one pane per worker, each showing the
//! tail of what its repositories wrote.

use crate::report::{self, failed, name_line};
use crate::runner::{self, push_line};
use crate::style::{Color, Input, Key, KeyKind};
use crate::sync::{self, SyncEvent, SyncOutcome, SyncResult};
use crate::text;
use crate::width::{self, display_width, fit_to_width, pad_to_width, truncate_to_width};
use std::collections::VecDeque;
use vstd::prelude::*;

verus! {

/// Lines kept per pane. A pane shows its tail, and a build that writes more than
/// this has said what it needed to say long before the end.
pub const PANE_HISTORY: usize = 500;

/// Lines kept of all the panes together.
pub const MERGED_HISTORY: usize = 2_000;

/// A pane with fewer log rows than this shows too little of a build to follow;
/// below it, the panes give way to one merged log.
pub const MIN_LOG_ROWS: usize = 3;

/// Frames are drawn no more often than this, in milliseconds. A build writes
/// lines faster than a terminal draws frames.
pub const FRAME_INTERVAL: u64 = 50;

/// Events taken in before the keyboard is looked at again. Several builds
/// writing flat out can keep the events from ever running out, and a Ctrl-C
/// must not wait for that.
pub const EVENTS_PER_FRAME: usize = 2_000;

/// How long a stop waits for the commands to end on their own, in milliseconds,
/// when the screen leaves with something still running.
pub const STOP_GRACE: u64 = 3_000;

/// What was asked for while the screen was up.
#[derive(Debug, Clone, Copy, PartialEq, Eq, Structural)]
pub enum Abort {
    Unasked,
    /// Ctrl-C once: the commands were asked to stop and can clean up.
    Requested,
    /// Ctrl-C twice: the commands were killed.
    Forced,
}

/// The part of the screen that one worker has.
pub struct Pane {
    /// The repository the worker holds or last held.
    pub name: Option<String>,
    pub running: bool,
    pub lines: VecDeque<String>,
}

/// What a `Pane` holds.
#[verifier::ext_equal]
pub struct PaneView {
    pub name: Option<Seq<char>>,
    pub running: bool,
    pub lines: Seq<Seq<char>>,
}

impl View for Pane {
    type V = PaneView;

    open spec fn view(&self) -> PaneView {
        PaneView {
            name: text::text_option(self.name),
            running: self.running,
            lines: text::texts(self.lines@),
        }
    }
}

/// The contents of the panes.
pub open spec fn pane_views(panes: Seq<Pane>) -> Seq<PaneView> {
    Seq::new(panes.len(), |i: int| panes[i]@)
}

/// The state of the screen.
pub struct SyncScreen {
    pub panes: Vec<Pane>,
    pub merged: VecDeque<String>,
    pub total: usize,
    pub finished: Vec<SyncResult>,
    pub abort: Abort,
    pub all_done: bool,
}

/// What a `SyncScreen` holds.
#[verifier::ext_equal]
pub struct SyncScreenView {
    pub panes: Seq<PaneView>,
    pub merged: Seq<Seq<char>>,
    pub total: nat,
    pub finished: Seq<sync::SyncResultView>,
    pub abort: Abort,
    pub all_done: bool,
}

impl View for SyncScreen {
    type V = SyncScreenView;

    open spec fn view(&self) -> SyncScreenView {
        SyncScreenView {
            panes: pane_views(self.panes@),
            merged: text::texts(self.merged@),
            total: self.total as nat,
            finished: sync::result_views(self.finished@),
            abort: self.abort,
            all_done: self.all_done,
        }
    }
}

/// A pane whose worker has not taken a repository yet.
pub open spec fn waiting_pane() -> PaneView {
    PaneView { name: None, running: false, lines: Seq::empty() }
}

/// The line that opens a repository's part of a pane. It starts with a rule so
/// that it can be told from output: no command starts a line with one.
pub open spec fn separator(name: Seq<char>) -> Seq<char> {
    "\u{2500}\u{2500} "@ + name
}

/// The lines of a pane with one more.
pub open spec fn with_line(lines: Seq<Seq<char>>, line: Seq<char>) -> Seq<Seq<char>> {
    runner::last_lines(lines.push(line), PANE_HISTORY as nat)
}

/// A pane whose worker has taken a repository. The pane keeps the log of the
/// repositories before it, so that the new one is set off from them.
pub open spec fn started_pane(pane: PaneView, name: Seq<char>) -> PaneView {
    PaneView {
        name: Some(name),
        running: true,
        lines: if pane.lines.len() > 0 {
            with_line(with_line(pane.lines, Seq::empty()), separator(name))
        } else {
            pane.lines
        },
    }
}

impl SyncScreenView {
    /// The same with another pane at `worker`, where there is one.
    pub open spec fn with_pane(self, worker: nat, pane: PaneView) -> SyncScreenView {
        if worker < self.panes.len() {
            SyncScreenView { panes: self.panes.update(worker as int, pane), ..self }
        } else {
            self
        }
    }

    /// The screen after an event.
    pub open spec fn after(self, event: sync::SyncEventView) -> SyncScreenView {
        match event {
            sync::SyncEventView::Planned { workers } => SyncScreenView {
                panes: Seq::new(workers, |i: int| waiting_pane()),
                ..self
            },
            sync::SyncEventView::Started { worker, name } => self.with_pane(
                worker,
                started_pane(self.panes[worker as int], name),
            ),
            sync::SyncEventView::Line { worker, name, line } => {
                let pane = self.panes[worker as int];
                SyncScreenView {
                    merged: runner::last_lines(
                        self.merged.push(report::named_line(name, line)),
                        MERGED_HISTORY as nat,
                    ),
                    ..self
                }.with_pane(worker, PaneView { lines: with_line(pane.lines, line), ..pane })
            },
            sync::SyncEventView::Finished { worker, result } => {
                let pane = self.panes[worker as int];
                SyncScreenView { finished: self.finished.push(result), ..self }.with_pane(
                    worker,
                    PaneView { running: false, ..pane },
                )
            },
        }
    }
}

/// Writes the line that opens a repository's part of a pane.
pub fn repo_separator(name: &str) -> (r: String)
    ensures
        r@ == separator(name@),
{
    "\u{2500}\u{2500} ".to_owned().concat(name)
}

/// The screen of a sync of `total` repositories that has not begun.
pub open spec fn blank_screen(total: nat) -> SyncScreenView {
    SyncScreenView {
        panes: Seq::empty(),
        merged: Seq::empty(),
        total,
        finished: Seq::empty(),
        abort: Abort::Unasked,
        all_done: false,
    }
}

impl SyncScreen {
    /// Whether no log is longer than it may be.
    pub open spec fn is_bounded(&self) -> bool {
        &&& self.merged@.len() <= MERGED_HISTORY
        &&& forall|i: int|
            0 <= i < self.panes@.len() ==> #[trigger] self.panes@[i].lines@.len() <= PANE_HISTORY
    }

    /// The screen of a sync of `total` repositories that has not begun.
    pub fn new(total: usize) -> (r: SyncScreen)
        ensures
            r@ == blank_screen(total as nat),
            r.is_bounded(),
    {
        let r = SyncScreen {
            panes: Vec::new(),
            merged: VecDeque::new(),
            total,
            finished: Vec::new(),
            abort: Abort::Unasked,
            all_done: false,
        };
        assert(r@.panes =~= Seq::empty());
        assert(r@.merged =~= Seq::empty());
        assert(r@.finished =~= Seq::empty());
        r
    }

    /// Takes in an event of the sync. One from a worker without a pane changes
    /// no pane.
    pub fn apply(&mut self, event: SyncEvent)
        requires
            old(self).is_bounded(),
        ensures
            final(self)@ == old(self)@.after(event@),
            final(self).is_bounded(),
    {
        match event {
            SyncEvent::Planned { workers } => {
                let mut panes: Vec<Pane> = Vec::new();
                for i in 0..workers
                    invariant
                        pane_views(panes@) == Seq::new(i as nat, |j: int| waiting_pane()),
                        forall|j: int|
                            0 <= j < panes@.len() ==> #[trigger] panes@[j].lines@.len() == 0,
                {
                    let ghost before = pane_views(panes@);
                    let pane = Pane { name: None, running: false, lines: VecDeque::new() };
                    assert(pane@ =~= waiting_pane());
                    panes.push(pane);
                    assert(pane_views(panes@) =~= before.push(pane@));
                    assert(pane_views(panes@) =~= Seq::new(
                        (i + 1) as nat,
                        |j: int| waiting_pane(),
                    ));
                }
                self.panes = panes;
            },
            SyncEvent::Started { worker, name } => {
                if worker < self.panes.len() {
                    let pane = &mut self.panes[worker];
                    if pane.lines.len() > 0 {
                        push_line(&mut pane.lines, PANE_HISTORY, String::new());
                        push_line(&mut pane.lines, PANE_HISTORY, repo_separator(name.as_str()));
                    }
                    pane.name = Some(name);
                    pane.running = true;
                }
                assert(self@.panes =~= old(self)@.after(event@).panes);
            },
            SyncEvent::Line { worker, name, line } => {
                push_line(
                    &mut self.merged,
                    MERGED_HISTORY,
                    name_line(name.as_str(), line.as_str()),
                );
                if worker < self.panes.len() {
                    let pane = &mut self.panes[worker];
                    push_line(&mut pane.lines, PANE_HISTORY, line);
                }
                assert(self@.panes =~= old(self)@.after(event@).panes);
            },
            SyncEvent::Finished { worker, result } => {
                self.finished.push(result);
                if worker < self.panes.len() {
                    let pane = &mut self.panes[worker];
                    pane.running = false;
                }
                assert(self@.panes =~= old(self)@.after(event@).panes);
                assert(self@.finished =~= old(self)@.after(event@).finished);
            },
        }
    }
}

/// One row of a frame: its text, and the colour it is drawn in.
#[derive(Debug)]
pub struct Row {
    pub text: String,
    pub color: Option<Color>,
}

/// What a `Row` holds.
#[verifier::ext_equal]
pub struct RowView {
    pub text: Seq<char>,
    pub color: Option<Color>,
}

impl View for Row {
    type V = RowView;

    open spec fn view(&self) -> RowView {
        RowView { text: self.text@, color: self.color }
    }
}

/// The contents of the rows of a frame.
pub open spec fn row_views(rows: Seq<Row>) -> Seq<RowView> {
    Seq::new(rows.len(), |i: int| rows[i]@)
}

/// Whether every row measures just the width.
pub open spec fn are_full(rows: Seq<RowView>, width: nat) -> bool {
    forall|i: int| 0 <= i < rows.len() ==> width::columns(#[trigger] rows[i].text) == width
}

/// A row with nothing on it.
pub open spec fn blank_row(width: nat) -> RowView {
    RowView { text: text::repeated(' ', width), color: None }
}

/// The colour of a line of a log: that of its level, or of the rule it starts
/// with.
pub open spec fn color_of(line: Seq<char>) -> Option<Color> {
    if "ERROR "@.is_prefix_of(line) {
        Some(Color::Red)
    } else if "WARN "@.is_prefix_of(line) {
        Some(Color::Yellow)
    } else if "OK "@.is_prefix_of(line) {
        Some(Color::Green)
    } else if "\u{2500}"@.is_prefix_of(line) {
        Some(Color::DarkGrey)
    } else {
        None
    }
}

/// The colour of a line of a log.
pub fn line_color(line: &str) -> (r: Option<Color>)
    ensures
        r == color_of(line@),
{
    if text::begins_with(line, "ERROR ") {
        Some(Color::Red)
    } else if text::begins_with(line, "WARN ") {
        Some(Color::Yellow)
    } else if text::begins_with(line, "OK ") {
        Some(Color::Green)
    } else if text::begins_with(line, "\u{2500}") {
        Some(Color::DarkGrey)
    } else {
        None
    }
}

/// The rows of the last `count` lines of a log, each cut to the width rather
/// than wrapped, and filled up with blank rows.
pub open spec fn tail_of(lines: Seq<Seq<char>>, count: nat, width: nat) -> Seq<RowView> {
    let shown = runner::last_lines(lines, count);
    Seq::new(
        count,
        |i: int|
            if i < shown.len() {
                RowView { text: width::fitted(shown[i], width), color: color_of(shown[i]) }
            } else {
                blank_row(width)
            },
    )
}

fn empty_row(width: usize) -> (r: Row)
    ensures
        r@ == blank_row(width as nat),
        width::columns(r@.text) == width,
{
    let text = pad_to_width("", width);
    proof {
        reveal_strlit("");
        assert(""@ + text::repeated(' ', width as nat) =~= text::repeated(' ', width as nat));
        assert(text@ =~= text::repeated(' ', width as nat));
    }
    Row { text, color: None }
}

/// The rows of the last `count` lines of a log.
pub fn tail_rows(lines: &VecDeque<String>, count: usize, width: usize) -> (r: Vec<Row>)
    ensures
        row_views(r@) == tail_of(text::texts(lines@), count as nat, width as nat),
        are_full(row_views(r@), width as nat),
{
    let ghost goal = tail_of(text::texts(lines@), count as nat, width as nat);
    let skip: usize = lines.len().saturating_sub(count);
    let mut rows: Vec<Row> = Vec::new();
    assert(row_views(rows@) =~= goal.take(0));
    for i in skip..lines.len()
        invariant
            goal == tail_of(text::texts(lines@), count as nat, width as nat),
            skip == if lines@.len() > count {
                lines@.len() - count
            } else {
                0
            },
            i >= skip,
            rows@.len() == i - skip,
            row_views(rows@) == goal.take(i - skip),
            are_full(row_views(rows@), width as nat),
    {
        let line = lines[i].as_str();
        let row = Row { text: fit_to_width(line, width), color: line_color(line) };
        let ghost before = row_views(rows@);
        rows.push(row);
        assert(row_views(rows@) =~= before.push(row@));
        assert(text::texts(lines@)[i as int] == line@);
        assert(goal[i - skip] == row@);
        assert(row_views(rows@) =~= goal.take(i + 1 - skip));
    }
    while rows.len() < count
        invariant
            goal == tail_of(text::texts(lines@), count as nat, width as nat),
            rows@.len() <= count,
            rows@.len() >= lines@.len() || rows@.len() == count,
            row_views(rows@) == goal.take(rows@.len() as int),
            are_full(row_views(rows@), width as nat),
        decreases count - rows@.len(),
    {
        let row = empty_row(width);
        let ghost before = row_views(rows@);
        let ghost size = rows@.len();
        rows.push(row);
        assert(row_views(rows@) =~= before.push(row@));
        assert(goal[size as int] == row@);
        assert(row_views(rows@) =~= goal.take(size as int + 1));
    }
    assert(row_views(rows@) =~= goal);
    rows
}

/// The row of a title: a rule with the title set into it, the way a pane border
/// is drawn.
pub open spec fn titled(title: Seq<char>, width: nat) -> RowView {
    let room = if width > 2 {
        (width - 2) as nat
    } else {
        0
    };
    let label = width::truncated(" "@ + title + " "@, room);
    let taken = width::columns(label) + 2;
    let rule = text::repeated(
        '\u{2500}',
        if width > taken {
            (width - taken) as nat
        } else {
            0
        },
    );
    RowView {
        text: width::fitted("\u{2500}\u{2500}"@ + label + rule, width),
        color: Some(Color::DarkCyan),
    }
}

/// Draws a title.
pub fn title_row(title: &str, width: usize) -> (r: Row)
    ensures
        r@ == titled(title@, width as nat),
        width::columns(r@.text) == width,
{
    let spaced = " ".to_owned().concat(title).concat(" ");
    let label = truncate_to_width(spaced.as_str(), width.saturating_sub(2));
    let taken: usize = display_width(label.as_str()).saturating_add(2);
    proof {
        reveal_strlit("\u{2500}");
    }
    let rule = text::repeat_text("\u{2500}", width.saturating_sub(taken));
    let line = "\u{2500}\u{2500}".to_owned().concat(label.as_str()).concat(rule.as_str());
    Row { text: fit_to_width(line.as_str(), width), color: Some(Color::DarkCyan) }
}

/// The title of a pane.
pub open spec fn pane_words(index: nat, pane: PaneView) -> Seq<char> {
    let worker = "worker "@ + text::decimal(index + 1);
    match pane.name {
        None => worker + "  waiting"@,
        Some(name) => if pane.running {
            worker + "  "@ + name
        } else {
            worker + "  "@ + name + "  done"@
        },
    }
}

/// The title of a pane.
pub fn pane_title(index: usize, pane: &Pane) -> (r: String)
    requires
        index < usize::MAX,
    ensures
        r@ == pane_words(index as nat, pane@),
{
    let number: u64 = index as u64 + 1;
    let worker = "worker ".to_owned().concat(text::decimal_text(number).as_str());
    match &pane.name {
        None => worker.concat("  waiting"),
        Some(name) => if pane.running {
            worker.concat("  ").concat(name.as_str())
        } else {
            worker.concat("  ").concat(name.as_str()).concat("  done")
        },
    }
}

/// How many of the results are failures.
pub open spec fn failed_count(results: Seq<sync::SyncResultView>) -> nat
    decreases results.len(),
{
    if results.len() == 0 {
        0
    } else {
        failed_count(results.drop_last()) + if report::is_failure(results.last().outcome) {
            1nat
        } else {
            0
        }
    }
}

/// Whether a repository was passed over.
pub open spec fn is_skip(outcome: SyncOutcome) -> bool {
    outcome == SyncOutcome::SkippedDirty || outcome == SyncOutcome::SkippedBranch
}

/// How many of the results are of repositories that were passed over.
pub open spec fn skipped_count(results: Seq<sync::SyncResultView>) -> nat
    decreases results.len(),
{
    if results.len() == 0 {
        0
    } else {
        skipped_count(results.drop_last()) + if is_skip(results.last().outcome) {
            1nat
        } else {
            0
        }
    }
}

/// How many of the results are successes.
pub open spec fn succeeded_count(results: Seq<sync::SyncResultView>) -> nat
    decreases results.len(),
{
    if results.len() == 0 {
        0
    } else {
        succeeded_count(results.drop_last()) + if results.last().outcome == SyncOutcome::Succeeded {
            1nat
        } else {
            0
        }
    }
}

/// Every result is counted once: as a success, as a failure, or as passed over.
pub proof fn every_result_is_counted_once(results: Seq<sync::SyncResultView>)
    ensures
        succeeded_count(results) + failed_count(results) + skipped_count(results) == results.len(),
    decreases results.len(),
{
    if results.len() > 0 {
        every_result_is_counted_once(results.drop_last());
    }
}

/// The footer of the screen.
pub open spec fn footer_words(screen: SyncScreenView) -> Seq<char> {
    let done = screen.finished.len();
    if screen.all_done {
        "Done: "@ + text::decimal(succeeded_count(screen.finished)) + " ok, "@ + text::decimal(
            failed_count(screen.finished),
        ) + " failed, "@ + text::decimal(skipped_count(screen.finished)) + " skipped"@ + (
        if done < screen.total {
            ", "@ + text::decimal((screen.total - done) as nat) + " not started"@
        } else {
            Seq::empty()
        }) + "    press any key"@
    } else {
        text::decimal(done) + "/"@ + text::decimal(screen.total) + " done    "@ + match screen.abort {
            Abort::Unasked => "Ctrl-C abort"@,
            Abort::Requested =>
                "aborting, waiting for commands to stop    Ctrl-C again to kill them"@,
            Abort::Forced => "killed, waiting for the workers to stop"@,
        }
    }
}

/// The panes one below the other, each with its title and `log_rows` rows.
pub open spec fn stacked(panes: Seq<PaneView>, log_rows: nat, width: nat) -> Seq<RowView>
    decreases panes.len(),
{
    if panes.len() == 0 {
        Seq::empty()
    } else {
        let last = (panes.len() - 1) as nat;
        stacked(panes.drop_last(), log_rows, width) + seq![
            titled(pane_words(last, panes.last()), width),
        ] + tail_of(panes.last().lines, log_rows, width)
    }
}

/// How many log rows each pane finds on a screen with `body` rows for all.
pub open spec fn log_rows(panes: nat, body: nat) -> nat {
    if panes == 0 || body / panes == 0 {
        0
    } else {
        (body / panes - 1) as nat
    }
}

/// The title of the merged log.
pub open spec fn merged_title(panes: nat) -> Seq<char> {
    if panes == 0 {
        "pullkit sync  starting"@
    } else {
        "pullkit sync  "@ + text::decimal(panes)
            + " workers, one log: the terminal is too small for panes"@
    }
}

/// What stands above the footer on `body` rows, not filled up yet.
pub open spec fn body_rows(screen: SyncScreenView, width: nat, body: nat) -> Seq<RowView> {
    let rows = log_rows(screen.panes.len(), body);
    if rows >= MIN_LOG_ROWS {
        stacked(screen.panes, rows, width)
    } else if body > 0 {
        seq![titled(merged_title(screen.panes.len()), width)] + tail_of(
            screen.merged,
            (body - 1) as nat,
            width,
        )
    } else {
        Seq::empty()
    }
}

/// The screen as `height` rows: the panes or the merged log, blank rows, and the
/// footer. Each row but the last is filled out to the width.
pub open spec fn frame_rows(screen: SyncScreenView, width: nat, height: nat) -> Seq<RowView> {
    if height == 0 {
        Seq::empty()
    } else {
        let body = (height - 1) as nat;
        let rows = body_rows(screen, width, body);
        rows + Seq::new((body - rows.len()) as nat, |i: int| blank_row(width)) + seq![
            RowView {
                text: width::truncated(
                    footer_words(screen),
                    if width > 0 {
                        (width - 1) as nat
                    } else {
                        0
                    },
                ),
                color: Some(Color::DarkCyan),
            },
        ]
    }
}

proof fn lemma_stacked_len(panes: Seq<PaneView>, log_rows: nat, width: nat)
    ensures
        stacked(panes, log_rows, width).len() == panes.len() * (log_rows + 1),
    decreases panes.len(),
{
    if panes.len() > 0 {
        lemma_stacked_len(panes.drop_last(), log_rows, width);
        let rest = (panes.len() - 1) as nat;
        assert(panes.len() * (log_rows + 1) == rest * (log_rows + 1) + (log_rows + 1))
            by (nonlinear_arith)
            requires
                panes.len() == rest + 1,
        ;
    } else {
        assert(panes.len() * (log_rows + 1) == 0) by (nonlinear_arith)
            requires
                panes.len() == 0,
        ;
    }
}

/// What stands above the footer never takes more rows than there are.
proof fn lemma_body_fits(screen: SyncScreenView, width: nat, body: nat)
    ensures
        body_rows(screen, width, body).len() <= body,
{
    let count = screen.panes.len();
    let rows = log_rows(count, body);
    if rows >= MIN_LOG_ROWS {
        lemma_stacked_len(screen.panes, rows, width);
        let each = body / count;
        vstd::arithmetic::div_mod::lemma_fundamental_div_mod(body as int, count as int);
        assert(count * each <= body);
        assert(rows + 1 == each);
    }
}

/// A frame is as high as the screen, whatever it shows, and its last row is the
/// footer.
pub proof fn frames_fill_the_screen(screen: SyncScreenView, width: nat, height: nat)
    ensures
        frame_rows(screen, width, height).len() == height,
        height > 0 ==> frame_rows(screen, width, height).last().color == Some(Color::DarkCyan),
        height > 0 ==> frame_rows(screen, width, height).last().text == width::truncated(
            footer_words(screen),
            if width > 0 {
                (width - 1) as nat
            } else {
                0
            },
        ),
{
    if height > 0 {
        lemma_body_fits(screen, width, (height - 1) as nat);
    }
}

/// Where the rows of a pane begin: `pane` panes down.
pub proof fn panes_are_stacked(panes: Seq<PaneView>, log_rows: nat, width: nat, pane: int)
    requires
        0 <= pane < panes.len(),
    ensures
        pane * (log_rows + 1) + log_rows < stacked(panes, log_rows, width).len(),
        stacked(panes, log_rows, width)[pane * (log_rows + 1)] == titled(
            pane_words(pane as nat, panes[pane]),
            width,
        ),
        forall|i: int|
            0 <= i < log_rows ==> #[trigger] stacked(panes, log_rows, width)[pane * (log_rows + 1)
                + 1 + i] == tail_of(panes[pane].lines, log_rows, width)[i],
    decreases panes.len(),
{
    let size = (log_rows + 1) as int;
    let rest = panes.drop_last();
    lemma_stacked_len(panes, log_rows, width);
    lemma_stacked_len(rest, log_rows, width);
    let all = stacked(panes, log_rows, width);
    let before = stacked(rest, log_rows, width);
    let last = panes.len() - 1;
    assert(panes.len() * (log_rows + 1) == last * size + size) by (nonlinear_arith)
        requires
            panes.len() == last + 1,
            size == log_rows + 1,
    ;
    if pane < last {
        panes_are_stacked(rest, log_rows, width, pane);
        assert forall|i: int| 0 <= i < log_rows implies #[trigger] all[pane * (log_rows + 1) + 1
            + i] == tail_of(panes[pane].lines, log_rows, width)[i] by {
            assert(before[pane * (log_rows + 1) + 1 + i] == tail_of(
                rest[pane].lines,
                log_rows,
                width,
            )[i]);
        }
    }
}

/// Appends rows to the rows of a frame.
fn append_rows(rows: &mut Vec<Row>, more: Vec<Row>)
    ensures
        row_views(final(rows)@) == row_views(old(rows)@) + row_views(more@),
{
    let mut more = more;
    let ghost added = more@;
    rows.append(&mut more);
    assert(row_views(rows@) =~= row_views(old(rows)@) + row_views(added));
}

fn push_row(rows: &mut Vec<Row>, row: Row)
    ensures
        row_views(final(rows)@) == row_views(old(rows)@).push(row@),
        final(rows)@.len() == old(rows)@.len() + 1,
{
    rows.push(row);
    assert(row_views(rows@) =~= row_views(old(rows)@).push(row@));
}

impl SyncScreen {
    /// How many results are failures, and how many are of repositories that
    /// were passed over.
    fn count_outcomes(&self) -> (r: (usize, usize))
        ensures
            r.0 == failed_count(self@.finished),
            r.1 == skipped_count(self@.finished),
            r.0 + r.1 <= self.finished@.len(),
    {
        let ghost all = self@.finished;
        let mut failures: usize = 0;
        let mut skips: usize = 0;
        for i in 0..self.finished.len()
            invariant
                all == sync::result_views(self.finished@),
                failures == failed_count(all.take(i as int)),
                skips == skipped_count(all.take(i as int)),
                failures + skips <= i,
        {
            assert(all.take(i + 1).drop_last() == all.take(i as int));
            assert(all.take(i + 1).last() == self.finished@[i as int]@);
            let skipped = match self.finished[i].outcome {
                SyncOutcome::SkippedDirty => true,
                SyncOutcome::SkippedBranch => true,
                _ => false,
            };
            if failed(&self.finished[i]) {
                failures = failures + 1;
            } else if skipped {
                skips = skips + 1;
            }
        }
        assert(all.take(all.len() as int) == all);
        (failures, skips)
    }

    /// The footer: how far the sync has come, or what came of it.
    pub fn footer(&self) -> (r: String)
        requires
            self.all_done ==> self.finished@.len() <= self.total,
        ensures
            r@ == footer_words(self@),
    {
        let done: usize = self.finished.len();
        if self.all_done {
            let (failures, skips) = self.count_outcomes();
            proof {
                every_result_is_counted_once(self@.finished);
            }
            let successes: usize = done - failures - skips;
            let missing: usize = self.total - done;
            let not_started = if missing > 0 {
                ", ".to_owned().concat(text::decimal_text(missing as u64).as_str()).concat(
                    " not started",
                )
            } else {
                String::new()
            };
            return "Done: ".to_owned().concat(
                text::decimal_text(successes as u64).as_str(),
            ).concat(" ok, ").concat(text::decimal_text(failures as u64).as_str()).concat(
                " failed, ",
            ).concat(text::decimal_text(skips as u64).as_str()).concat(" skipped").concat(
                not_started.as_str(),
            ).concat("    press any key");
        }
        let counts = text::decimal_text(done as u64).concat("/").concat(
            text::decimal_text(self.total as u64).as_str(),
        ).concat(" done    ");
        match self.abort {
            Abort::Unasked => counts.concat("Ctrl-C abort"),
            Abort::Requested => counts.concat(
                "aborting, waiting for commands to stop    Ctrl-C again to kill them",
            ),
            Abort::Forced => counts.concat("killed, waiting for the workers to stop"),
        }
    }

    /// The rows above the footer, without the blank ones that fill them up.
    fn body(&self, width: usize, body: usize) -> (r: Vec<Row>)
        ensures
            row_views(r@) == body_rows(self@, width as nat, body as nat),
            are_full(row_views(r@), width as nat),
            r@.len() <= body,
    {
        proof {
            lemma_body_fits(self@, width as nat, body as nat);
        }
        let mut rows: Vec<Row> = Vec::new();
        assert(row_views(rows@) =~= Seq::empty());
        let count: usize = self.panes.len();
        let each: usize = if count == 0 {
            0
        } else {
            body / count
        };
        let log: usize = each.saturating_sub(1);
        let ghost panes = self@.panes;
        assert(log == log_rows(count as nat, body as nat));
        if log >= MIN_LOG_ROWS {
            assert(panes.take(0) =~= Seq::empty());
            for i in 0..count
                invariant
                    count == self.panes.len(),
                    panes == pane_views(self.panes@),
                    row_views(rows@) == stacked(panes.take(i as int), log as nat, width as nat),
                    are_full(row_views(rows@), width as nat),
            {
                let pane = &self.panes[i];
                push_row(&mut rows, title_row(pane_title(i, pane).as_str(), width));
                append_rows(&mut rows, tail_rows(&pane.lines, log, width));
                assert(panes.take(i + 1).drop_last() == panes.take(i as int));
                assert(panes.take(i + 1).last() == pane@);
                assert(row_views(rows@) =~= stacked(
                    panes.take(i + 1),
                    log as nat,
                    width as nat,
                ));
            }
            assert(panes.take(count as int) == panes);
        } else if body > 0 {
            let title = if count == 0 {
                "pullkit sync  starting".to_owned()
            } else {
                "pullkit sync  ".to_owned().concat(
                    text::decimal_text(count as u64).as_str(),
                ).concat(" workers, one log: the terminal is too small for panes")
            };
            push_row(&mut rows, title_row(title.as_str(), width));
            append_rows(&mut rows, tail_rows(&self.merged, body - 1, width));
            assert(row_views(rows@) =~= body_rows(self@, width as nat, body as nat));
        }
        assert(row_views(rows@).len() == rows@.len());
        rows
    }

    /// Lays the screen out as `height` rows of at most `width` columns each.
    /// Each row is filled out to the full width, so that drawing a frame over
    /// the last one needs no clearing, except the last row: a character in the
    /// bottom right corner makes some terminals scroll.
    pub fn frame(&self, width: usize, height: usize) -> (r: Vec<Row>)
        requires
            self.all_done ==> self.finished@.len() <= self.total,
        ensures
            row_views(r@) == frame_rows(self@, width as nat, height as nat),
            r@.len() == height,
            height > 0 ==> are_full(row_views(r@).drop_last(), width as nat),
            height > 0 && width > 0 ==> width::columns(row_views(r@).last().text) < width,
            height > 0 && width == 0 ==> width::columns(row_views(r@).last().text) == 0,
    {
        if height == 0 {
            let none: Vec<Row> = Vec::new();
            assert(row_views(none@) =~= Seq::empty());
            return none;
        }
        let body: usize = height - 1;
        let mut rows = self.body(width, body);
        let ghost start = row_views(rows@);
        let ghost size = rows@.len();
        assert(row_views(rows@) =~= start + Seq::new(0, |i: int| blank_row(width as nat)));
        while rows.len() < body
            invariant
                size <= rows@.len() <= body,
                row_views(rows@) == start + Seq::new(
                    (rows@.len() - size) as nat,
                    |i: int| blank_row(width as nat),
                ),
                are_full(row_views(rows@), width as nat),
            decreases body - rows@.len(),
        {
            push_row(&mut rows, empty_row(width));
            assert(row_views(rows@) =~= start + Seq::new(
                (rows@.len() - size) as nat,
                |i: int| blank_row(width as nat),
            ));
        }
        assert(start.len() == size);
        let ghost above = row_views(rows@);
        let text = truncate_to_width(self.footer().as_str(), width.saturating_sub(1));
        push_row(&mut rows, Row { text, color: Some(Color::DarkCyan) });
        assert(row_views(rows@) =~= frame_rows(self@, width as nat, height as nat));
        proof {
            frames_fill_the_screen(self@, width as nat, height as nat);
            assert(row_views(rows@).len() == rows@.len());
            assert(row_views(rows@).drop_last() =~= above);
        }
        rows
    }
}

/// Keeps track of when the screen is to be drawn.
#[derive(Debug, Clone, Copy, PartialEq, Eq, Structural)]
pub struct Watch {
    /// Whether something has changed since the last frame.
    pub dirty: bool,
    /// When the last frame was drawn, in milliseconds.
    pub last_frame: Option<u64>,
    /// How many reports were taken in since the terminal was last looked at.
    pub heard: usize,
}

/// What comes to a screen that is being watched.
pub enum WatchEvent {
    /// The sync reports.
    Heard { event: SyncEvent },
    /// The sync has nothing to report right now.
    Nothing,
    /// The sync has ended and will report nothing more.
    Ended,
    /// The terminal tells something.
    Told { input: Input },
}

/// What is done about it.
#[derive(Debug, Clone, Copy, PartialEq, Eq, Structural)]
pub enum WatchStep {
    /// Listen to the sync.
    Listen,
    /// Draw the screen if it is due, and look at the terminal.
    Look,
    /// Ask the commands to stop, and listen to the sync.
    Interrupt,
    /// Kill the commands, and listen to the sync.
    Kill,
    /// Leave the screen.
    Leave,
}

/// What a screen does about what the terminal tells. A held key repeats, and two
/// Ctrl-C from one press would kill the commands when they were meant to be
/// asked once, so that only a press counts. Any key leaves a screen whose sync
/// has ended.
pub open spec fn told(watch: Watch, screen: SyncScreenView, input: Input) -> (
    Watch,
    SyncScreenView,
    WatchStep,
) {
    let changed = Watch { dirty: true, ..watch };
    match input {
        Input::Resized => (changed, screen, WatchStep::Listen),
        Input::Other => (watch, screen, WatchStep::Listen),
        Input::Key { key, control, kind } => if kind != KeyKind::Press {
            (watch, screen, WatchStep::Listen)
        } else if screen.all_done {
            (watch, screen, WatchStep::Leave)
        } else if key != (Key::Char { c: 'c' }) || !control {
            (watch, screen, WatchStep::Listen)
        } else if screen.abort == Abort::Unasked {
            (
                changed,
                SyncScreenView { abort: Abort::Requested, ..screen },
                WatchStep::Interrupt,
            )
        } else {
            (changed, SyncScreenView { abort: Abort::Forced, ..screen }, WatchStep::Kill)
        },
    }
}

/// What a screen does about what comes to it.
pub open spec fn watched(watch: Watch, screen: SyncScreenView, event: WatchEvent) -> (
    Watch,
    SyncScreenView,
    WatchStep,
) {
    match event {
        WatchEvent::Heard { event } => if watch.heard + 1 < EVENTS_PER_FRAME {
            (
                Watch { dirty: true, heard: (watch.heard + 1) as usize, ..watch },
                screen.after(event@),
                WatchStep::Listen,
            )
        } else {
            (Watch { dirty: true, heard: 0, ..watch }, screen.after(event@), WatchStep::Look)
        },
        WatchEvent::Nothing => (Watch { heard: 0, ..watch }, screen, WatchStep::Look),
        WatchEvent::Ended => if screen.all_done {
            (Watch { heard: 0, ..watch }, screen, WatchStep::Look)
        } else {
            (
                Watch { dirty: true, heard: 0, ..watch },
                SyncScreenView { all_done: true, ..screen },
                WatchStep::Look,
            )
        },
        WatchEvent::Told { input } => told(watch, screen, input),
    }
}

impl Watch {
    /// Whether there is still room for a report before the terminal is looked
    /// at.
    pub open spec fn is_sound(self) -> bool {
        self.heard < EVENTS_PER_FRAME
    }

    /// A screen that was not drawn yet.
    pub open spec fn undrawn() -> Watch {
        Watch { dirty: true, last_frame: None, heard: 0 }
    }

    /// The same with the screen drawn.
    pub open spec fn drawn_at(self, now: u64) -> Watch {
        Watch { dirty: false, last_frame: Some(now), ..self }
    }

    /// A screen that was not drawn yet.
    pub fn new() -> (r: Watch)
        ensures
            r == Self::undrawn(),
            r.is_sound(),
    {
        Watch { dirty: true, last_frame: None, heard: 0 }
    }

    /// Whether the screen is to be drawn at this time: something has changed,
    /// and the last frame is long enough ago, or there will be no other.
    pub open spec fn is_due(self, all_done: bool, now: u64) -> bool {
        self.dirty && (all_done || match self.last_frame {
            Some(last) => now - last >= FRAME_INTERVAL,
            None => true,
        })
    }

    /// Whether the screen is to be drawn at this time.
    pub fn due(&self, screen: &SyncScreen, now: u64) -> (r: bool)
        ensures
            r == self.is_due(screen@.all_done, now),
    {
        self.dirty && (screen.all_done || match self.last_frame {
            Some(last) => now.saturating_sub(last) >= FRAME_INTERVAL,
            None => true,
        })
    }

    /// Takes note that the screen was drawn.
    pub fn drawn(&mut self, now: u64)
        ensures
            *final(self) == old(self).drawn_at(now),
    {
        self.dirty = false;
        self.last_frame = Some(now);
    }
}

/// Watches a sync: takes in what it reports and answers the keyboard until the
/// sync has ended and a key was pressed. A sync that reports without a pause does
/// not keep the screen from being drawn, nor the keyboard from being answered:
/// after a number of reports the terminal is looked at all the same. The terminal
/// is in raw mode, so that Ctrl-C comes as a key; the first asks the commands to
/// stop, and each further one kills them.
pub fn watch(state: &mut Watch, screen: &mut SyncScreen, event: WatchEvent) -> (r: WatchStep)
    requires
        old(screen).is_bounded(),
        old(state).is_sound(),
    ensures
        (*final(state), final(screen)@, r) == watched(*old(state), old(screen)@, event),
        final(screen).is_bounded(),
        final(state).is_sound(),
{
    let input = match event {
        WatchEvent::Heard { event } => {
            screen.apply(event);
            state.dirty = true;
            if state.heard + 1 < EVENTS_PER_FRAME {
                state.heard = state.heard + 1;
                return WatchStep::Listen;
            }
            state.heard = 0;
            return WatchStep::Look;
        },
        WatchEvent::Nothing => {
            state.heard = 0;
            return WatchStep::Look;
        },
        WatchEvent::Ended => {
            state.heard = 0;
            if !screen.all_done {
                screen.all_done = true;
                state.dirty = true;
            }
            return WatchStep::Look;
        },
        WatchEvent::Told { input } => input,
    };
    match input {
        Input::Resized => {
            state.dirty = true;
            WatchStep::Listen
        },
        Input::Other => WatchStep::Listen,
        Input::Key { key, control, kind } => {
            let pressed = match kind {
                KeyKind::Press => true,
                _ => false,
            };
            if !pressed {
                return WatchStep::Listen;
            }
            if screen.all_done {
                return WatchStep::Leave;
            }
            let ctrl_c = match key {
                Key::Char { c } => c == 'c' && control,
                _ => false,
            };
            if !ctrl_c {
                return WatchStep::Listen;
            }
            state.dirty = true;
            match screen.abort {
                Abort::Unasked => {
                    screen.abort = Abort::Requested;
                    WatchStep::Interrupt
                },
                _ => {
                    screen.abort = Abort::Forced;
                    WatchStep::Kill
                },
            }
        },
    }
}

/// The commands are killed only after they have been asked to stop, by a further
/// press of Ctrl-C; every such press reaches them.
pub proof fn commands_are_asked_before_they_are_killed(
    watch: Watch,
    screen: SyncScreenView,
    event: WatchEvent,
)
    ensures
        ({
            let (_, after, step) = watched(watch, screen, event);
            &&& step == WatchStep::Kill ==> screen.abort != Abort::Unasked && after.abort
                == Abort::Forced
            &&& step == WatchStep::Interrupt ==> screen.abort == Abort::Unasked && after.abort
                == Abort::Requested
            &&& step == WatchStep::Leave ==> screen.all_done
            &&& (step == WatchStep::Kill || step == WatchStep::Interrupt) ==> event
                == (WatchEvent::Told {
                input: Input::Key {
                    key: Key::Char { c: 'c' },
                    control: true,
                    kind: KeyKind::Press,
                },
            })
            &&& !screen.all_done && event == (WatchEvent::Told {
                input: Input::Key {
                    key: Key::Char { c: 'c' },
                    control: true,
                    kind: KeyKind::Press,
                },
            }) ==> step == WatchStep::Kill || step == WatchStep::Interrupt
        }),
{
}

/// What a screen does about all that comes to it, one after the other.
pub open spec fn watched_all(watch: Watch, screen: SyncScreenView, events: Seq<WatchEvent>) -> (
    Watch,
    SyncScreenView,
    Seq<WatchStep>,
)
    decreases events.len(),
{
    if events.len() == 0 {
        (watch, screen, Seq::empty())
    } else {
        let (before, shown, steps) = watched_all(watch, screen, events.drop_last());
        let (after, last, step) = watched(before, shown, events.last());
        (after, last, steps.push(step))
    }
}

proof fn lemma_heard(watch: Watch, screen: SyncScreenView, events: Seq<WatchEvent>)
    requires
        watch.is_sound(),
        forall|k: int| 0 <= k < events.len() ==> #[trigger] events[k] is Heard,
        forall|k: int|
            0 <= k < events.len() ==> #[trigger] watched_all(watch, screen, events).2[k]
                == WatchStep::Listen,
    ensures
        watched_all(watch, screen, events).2.len() == events.len(),
        watched_all(watch, screen, events).0.heard == watch.heard + events.len(),
        watched_all(watch, screen, events).0.is_sound(),
    decreases events.len(),
{
    if events.len() > 0 {
        let steps = watched_all(watch, screen, events).2;
        let rest = watched_all(watch, screen, events.drop_last()).2;
        lemma_steps(watch, screen, events.drop_last());
        assert forall|k: int| 0 <= k < events.len() - 1 implies #[trigger] rest[k]
            == WatchStep::Listen by {
            assert(rest[k] == steps[k]);
        }
        assert forall|k: int| 0 <= k < events.len() - 1 implies #[trigger] events.drop_last()[k]
            is Heard by {
            assert(events.drop_last()[k] == events[k]);
        }
        lemma_heard(watch, screen, events.drop_last());
        assert(events[events.len() - 1] is Heard);
        assert(steps[events.len() - 1] == WatchStep::Listen);
    }
}

proof fn lemma_steps(watch: Watch, screen: SyncScreenView, events: Seq<WatchEvent>)
    ensures
        watched_all(watch, screen, events).2.len() == events.len(),
    decreases events.len(),
{
    if events.len() > 0 {
        lemma_steps(watch, screen, events.drop_last());
    }
}

/// However fast a sync reports, the terminal is looked at within a bounded number
/// of its reports.
pub proof fn reports_do_not_starve_the_keyboard(
    watch: Watch,
    screen: SyncScreenView,
    events: Seq<WatchEvent>,
)
    requires
        watch.is_sound(),
        events.len() >= EVENTS_PER_FRAME,
        forall|k: int| 0 <= k < events.len() ==> #[trigger] events[k] is Heard,
    ensures
        exists|k: int|
            0 <= k < EVENTS_PER_FRAME && #[trigger] watched_all(watch, screen, events).2[k]
                == WatchStep::Look,
    decreases events.len(),
{
    lemma_steps(watch, screen, events);
    let steps = watched_all(watch, screen, events).2;
    if events.len() > EVENTS_PER_FRAME {
        let rest = watched_all(watch, screen, events.drop_last()).2;
        lemma_steps(watch, screen, events.drop_last());
        assert forall|k: int| 0 <= k < events.len() - 1 implies #[trigger] events.drop_last()[k]
            is Heard by {
            assert(events.drop_last()[k] == events[k]);
        }
        reports_do_not_starve_the_keyboard(watch, screen, events.drop_last());
        let k = choose|k: int|
            0 <= k < EVENTS_PER_FRAME && #[trigger] rest[k] == WatchStep::Look;
        assert(steps[k] == rest[k]);
    } else if forall|k: int| 0 <= k < EVENTS_PER_FRAME ==> #[trigger] steps[k] != WatchStep::Look {
        lemma_steps_of_reports(watch, screen, events);
        lemma_heard(watch, screen, events);
    }
}

proof fn lemma_steps_of_reports(watch: Watch, screen: SyncScreenView, events: Seq<WatchEvent>)
    requires
        forall|k: int| 0 <= k < events.len() ==> #[trigger] events[k] is Heard,
    ensures
        forall|k: int|
            0 <= k < events.len() ==> ({
                let step = #[trigger] watched_all(watch, screen, events).2[k];
                step == WatchStep::Listen || step == WatchStep::Look
            }),
    decreases events.len(),
{
    if events.len() > 0 {
        let steps = watched_all(watch, screen, events).2;
        let rest = watched_all(watch, screen, events.drop_last()).2;
        lemma_steps(watch, screen, events.drop_last());
        assert forall|k: int| 0 <= k < events.len() - 1 implies #[trigger] events.drop_last()[k]
            is Heard by {
            assert(events.drop_last()[k] == events[k]);
        }
        lemma_steps_of_reports(watch, screen, events.drop_last());
        assert(events[events.len() - 1] is Heard);
        assert forall|k: int| 0 <= k < events.len() implies ({
            let step = #[trigger] steps[k];
            step == WatchStep::Listen || step == WatchStep::Look
        }) by {
            if k < events.len() - 1 {
                assert(steps[k] == rest[k]);
            }
        }
    }
}

/// A sync that has ended is drawn once more, whenever its last frame was.
pub proof fn the_end_is_always_drawn(watch: Watch, screen: SyncScreenView, now: u64)
    requires
        !screen.all_done,
    ensures
        watched(watch, screen, WatchEvent::Ended).1.all_done,
        watched(watch, screen, WatchEvent::Ended).0.is_due(true, now),
{
}

/// A pane keeps its log when its repository is done, and when its worker takes
/// the next one: the new lines follow those that were there.
pub proof fn panes_keep_their_logs(
    screen: SyncScreenView,
    worker: nat,
    name: Seq<char>,
    result: sync::SyncResultView,
)
    requires
        worker < screen.panes.len(),
        screen.panes[worker as int].lines.len() + 2 <= PANE_HISTORY,
    ensures
        screen.after(sync::SyncEventView::Finished { worker, result }).panes[worker as int].lines
            == screen.panes[worker as int].lines,
        screen.panes[worker as int].lines.is_prefix_of(
            screen.after(sync::SyncEventView::Started { worker, name }).panes[worker as int].lines,
        ),
{
}

/// What the screen ends with: the results of the repositories that ran, and
/// whether the sync was aborted.
pub struct Outcome {
    pub results: Vec<SyncResult>,
    pub aborted: bool,
}

/// Whether an abort was asked for.
pub open spec fn is_abort_asked(abort: Abort) -> bool {
    abort != Abort::Unasked
}

/// Closes the screen of a sync with the results that it gave.
pub fn outcome(screen: &SyncScreen, results: Vec<SyncResult>) -> (r: Outcome)
    ensures
        r.results == results,
        r.aborted == is_abort_asked(screen@.abort),
{
    let aborted = match screen.abort {
        Abort::Unasked => false,
        _ => true,
    };
    Outcome { results, aborted }
}

/// The tail of a log shows its newest lines, in order and each on a row of its
/// own: as many as there are rows for, with blank rows below where there are
/// fewer.
pub proof fn tails_show_the_newest_lines(lines: Seq<Seq<char>>, count: nat, width: nat, i: int)
    requires
        0 <= i < count,
    ensures
        tail_of(lines, count, width).len() == count,
        lines.len() >= count ==> tail_of(lines, count, width)[i] == (RowView {
            text: width::fitted(lines[lines.len() - count + i], width),
            color: color_of(lines[lines.len() - count + i]),
        }),
        lines.len() < count && i < lines.len() ==> tail_of(lines, count, width)[i] == (RowView {
            text: width::fitted(lines[i], width),
            color: color_of(lines[i]),
        }),
        lines.len() <= i ==> tail_of(lines, count, width)[i] == (RowView {
            text: Seq::new(width, |k: int| ' '),
            color: None,
        }),
{
    runner::the_newest_lines_are_kept(lines, count);
    assert(text::repeated(' ', width) =~= Seq::new(width, |k: int| ' '));
}

/// Where a pane would have fewer than three rows for its log, the screen shows one
/// log of all the repositories: its title, and below it the newest lines, the
/// last of them right above the footer where there are enough.
pub proof fn the_merged_log_shows_its_newest_lines(
    screen: SyncScreenView,
    width: nat,
    height: nat,
    i: int,
)
    requires
        height >= 2,
        screen.panes.len() == 0 || (height - 1) / (screen.panes.len() as int) < 4,
        0 <= i < height - 2,
    ensures
        ({
            let rows = frame_rows(screen, width, height);
            let lines = screen.merged;
            let room = height - 2;
            &&& rows[0] == titled(
                if screen.panes.len() == 0 {
                    "pullkit sync  starting"@
                } else {
                    "pullkit sync  "@ + text::decimal(screen.panes.len())
                        + " workers, one log: the terminal is too small for panes"@
                },
                width,
            )
            &&& lines.len() >= room ==> rows[1 + i] == (RowView {
                text: width::fitted(lines[lines.len() - room + i], width),
                color: color_of(lines[lines.len() - room + i]),
            })
            &&& lines.len() < room && i < lines.len() ==> rows[1 + i] == (RowView {
                text: width::fitted(lines[i], width),
                color: color_of(lines[i]),
            })
            &&& lines.len() <= i ==> rows[1 + i] == (RowView {
                text: Seq::new(width, |k: int| ' '),
                color: None,
            })
        }),
{
    let body = (height - 1) as nat;
    let rows = frame_rows(screen, width, height);
    let shown = body_rows(screen, width, body);
    assert(shown.len() == body);
    assert(rows[0] == shown[0]);
    assert(rows[1 + i] == shown[1 + i]);
    assert(shown[1 + i] == tail_of(screen.merged, (body - 1) as nat, width)[i]);
    tails_show_the_newest_lines(screen.merged, (body - 1) as nat, width, i);
}

/// Where every pane has three rows or more for its log, the panes stand one below
/// the other and share the rows evenly: each has its title, and below it the
/// newest lines of its worker. What is left over is blank.
pub proof fn panes_show_their_newest_lines(
    screen: SyncScreenView,
    width: nat,
    height: nat,
    pane: int,
    i: int,
)
    requires
        height >= 1,
        0 <= pane < screen.panes.len(),
        (height - 1) / (screen.panes.len() as int) >= 4,
        0 <= i < (height - 1) / (screen.panes.len() as int) - 1,
    ensures
        ({
            let rows = frame_rows(screen, width, height);
            let each = (height - 1) / (screen.panes.len() as int);
            let lines = screen.panes[pane].lines;
            let room = each - 1;
            &&& pane * each + 1 + i < height - 1
            &&& rows[pane * each] == titled(pane_words(pane as nat, screen.panes[pane]), width)
            &&& lines.len() >= room ==> rows[pane * each + 1 + i] == (RowView {
                text: width::fitted(lines[lines.len() - room + i], width),
                color: color_of(lines[lines.len() - room + i]),
            })
            &&& lines.len() < room && i < lines.len() ==> rows[pane * each + 1 + i] == (RowView {
                text: width::fitted(lines[i], width),
                color: color_of(lines[i]),
            })
            &&& lines.len() <= i ==> rows[pane * each + 1 + i] == (RowView {
                text: Seq::new(width, |k: int| ' '),
                color: None,
            })
        }),
{
    let body = (height - 1) as nat;
    let count = screen.panes.len();
    let rows = frame_rows(screen, width, height);
    let each = body as int / count as int;
    let log = log_rows(count, body);
    assert(log == each - 1);
    let shown = body_rows(screen, width, body);
    assert(shown == stacked(screen.panes, log, width));
    panes_are_stacked(screen.panes, log, width, pane);
    lemma_body_fits(screen, width, body);
    assert(pane * (log + 1) == pane * each);
    assert(pane * each + 1 + i < shown.len()) by {
        assert(pane * (log + 1) + log < shown.len());
    }
    assert(pane * each >= 0) by (nonlinear_arith)
        requires
            pane >= 0,
            each >= 0,
    ;
    assert(rows[pane * each] == shown[pane * each]);
    assert(rows[pane * each + 1 + i] == shown[pane * (log + 1) + 1 + i]);
    assert(shown[pane * (log + 1) + 1 + i] == tail_of(screen.panes[pane].lines, log, width)[i]);
    tails_show_the_newest_lines(screen.panes[pane].lines, log, width, i);
}

/// The title of a pane tells the number of its worker, from one on, and the
/// repository that it is on or has done.
pub proof fn panes_are_titled(index: nat, pane: PaneView)
    ensures
        pane.name is None ==> pane_words(index, pane) == "worker "@ + text::decimal(index + 1)
            + "  waiting"@,
        pane.name is Some && pane.running ==> pane_words(index, pane) == "worker "@ + text::decimal(
            index + 1,
        ) + "  "@ + pane.name->0,
        pane.name is Some && !pane.running ==> pane_words(index, pane) == "worker "@
            + text::decimal(index + 1) + "  "@ + pane.name->0 + "  done"@,
{
}

/// A title is set into a rule that runs to the edge of the screen, in its colour.
pub proof fn titles_are_set_into_rules(title: Seq<char>, width: nat)
    requires
        width >= 2,
    ensures
        titled(title, width).color == Some(Color::DarkCyan),
        ({
            let label = width::truncated(" "@ + title + " "@, (width - 2) as nat);
            width::columns(label) + 2 <= width ==> titled(title, width).text == width::fitted(
                "\u{2500}\u{2500}"@ + label + Seq::new(
                    (width - 2 - width::columns(label)) as nat,
                    |k: int| '\u{2500}',
                ),
                width,
            )
        }),
{
    let label = width::truncated(" "@ + title + " "@, (width - 2) as nat);
    if width::columns(label) + 2 <= width {
        let count = (width - 2 - width::columns(label)) as nat;
        assert(text::repeated('\u{2500}', count) =~= Seq::new(count, |k: int| '\u{2500}'));
    }
}

/// A line is coloured by the level that it begins with: errors red, warnings
/// yellow, what went well green, and rules grey; any other has no colour.
pub proof fn lines_are_coloured_by_their_level(rest: Seq<char>, line: Seq<char>)
    ensures
        color_of("ERROR "@ + rest) == Some(Color::Red),
        color_of("WARN "@ + rest) == Some(Color::Yellow),
        color_of("OK "@ + rest) == Some(Color::Green),
        color_of("\u{2500}"@ + rest) == Some(Color::DarkGrey),
        !"ERROR "@.is_prefix_of(line) && !"WARN "@.is_prefix_of(line) && !"OK "@.is_prefix_of(line)
            && !"\u{2500}"@.is_prefix_of(line) ==> color_of(line) is None,
{
    reveal_strlit("ERROR ");
    reveal_strlit("WARN ");
    reveal_strlit("OK ");
    reveal_strlit("\u{2500}");
    let error = "ERROR "@ + rest;
    let warning = "WARN "@ + rest;
    let fine = "OK "@ + rest;
    let rule = "\u{2500}"@ + rest;
    assert(error.subrange(0, 6) =~= "ERROR "@);
    assert(warning.subrange(0, 5) =~= "WARN "@);
    assert(fine.subrange(0, 3) =~= "OK "@);
    assert(rule.subrange(0, 1) =~= "\u{2500}"@);
    assert(warning[0] == 'W');
    assert(fine[0] == 'O');
    assert(rule[0] == '\u{2500}');
    assert("ERROR "@[0] == 'E' && "WARN "@[0] == 'W' && "OK "@[0] == 'O');
    assert(!"ERROR "@.is_prefix_of(warning)) by {
        if "ERROR "@.is_prefix_of(warning) {
            assert(warning.subrange(0, 6)[0] == "ERROR "@[0]);
        }
    }
    assert(!"ERROR "@.is_prefix_of(fine) && !"WARN "@.is_prefix_of(fine)) by {
        if "ERROR "@.is_prefix_of(fine) {
            assert(fine.subrange(0, 6)[0] == "ERROR "@[0]);
        }
        if "WARN "@.is_prefix_of(fine) {
            assert(fine.subrange(0, 5)[0] == "WARN "@[0]);
        }
    }
    assert(!"ERROR "@.is_prefix_of(rule) && !"WARN "@.is_prefix_of(rule) && !"OK "@.is_prefix_of(
        rule,
    )) by {
        if "ERROR "@.is_prefix_of(rule) {
            assert(rule.subrange(0, 6)[0] == "ERROR "@[0]);
        }
        if "WARN "@.is_prefix_of(rule) {
            assert(rule.subrange(0, 5)[0] == "WARN "@[0]);
        }
        if "OK "@.is_prefix_of(rule) {
            assert(rule.subrange(0, 3)[0] == "OK "@[0]);
        }
    }
}

/// Each further result counts as a success, as a failure of its pull, its build or
/// its check, or as passed over.
pub proof fn outcomes_are_counted_by_kind(
    results: Seq<sync::SyncResultView>,
    result: sync::SyncResultView,
)
    ensures
        failed_count(results.push(result)) == failed_count(results) + if result.outcome
            == SyncOutcome::PullFailed || result.outcome == SyncOutcome::BuildFailed
            || result.outcome == SyncOutcome::StatusFailed {
            1nat
        } else {
            0
        },
        skipped_count(results.push(result)) == skipped_count(results) + if result.outcome
            == SyncOutcome::SkippedDirty || result.outcome == SyncOutcome::SkippedBranch {
            1nat
        } else {
            0
        },
        succeeded_count(results.push(result)) == succeeded_count(results) + if result.outcome
            == SyncOutcome::Succeeded {
            1nat
        } else {
            0
        },
        failed_count(Seq::empty()) == 0,
        skipped_count(Seq::empty()) == 0,
        succeeded_count(Seq::empty()) == 0,
{
    assert(results.push(result).drop_last() =~= results);
}

/// The footer tells how many repositories are done of how many, and what Ctrl-C
/// does next; at the end it tells how many went well, failed, were passed over and
/// were never started.
pub proof fn the_footer_tells_how_far_it_is(screen: SyncScreenView)
    requires
        screen.finished.len() <= screen.total,
    ensures
        !screen.all_done ==> footer_words(screen) == text::decimal(screen.finished.len()) + "/"@
            + text::decimal(screen.total) + " done    "@ + if screen.abort == Abort::Unasked {
            "Ctrl-C abort"@
        } else if screen.abort == Abort::Requested {
            "aborting, waiting for commands to stop    Ctrl-C again to kill them"@
        } else {
            "killed, waiting for the workers to stop"@
        },
        screen.all_done && screen.finished.len() == screen.total ==> footer_words(screen)
            == "Done: "@ + text::decimal(succeeded_count(screen.finished)) + " ok, "@
            + text::decimal(failed_count(screen.finished)) + " failed, "@ + text::decimal(
            skipped_count(screen.finished),
        ) + " skipped"@ + "    press any key"@,
        screen.all_done && screen.finished.len() < screen.total ==> footer_words(screen)
            == "Done: "@ + text::decimal(succeeded_count(screen.finished)) + " ok, "@
            + text::decimal(failed_count(screen.finished)) + " failed, "@ + text::decimal(
            skipped_count(screen.finished),
        ) + " skipped"@ + (", "@ + text::decimal((screen.total - screen.finished.len()) as nat)
            + " not started"@) + "    press any key"@,
{
    if screen.all_done && screen.finished.len() == screen.total {
        let counts = "Done: "@ + text::decimal(succeeded_count(screen.finished)) + " ok, "@
            + text::decimal(failed_count(screen.finished)) + " failed, "@ + text::decimal(
            skipped_count(screen.finished),
        ) + " skipped"@;
        assert(counts + Seq::<char>::empty() =~= counts);
    }
}

/// A plan gives every worker an empty pane, and changes nothing else.
pub proof fn a_plan_lays_the_panes_out(screen: SyncScreenView, workers: nat, i: int)
    requires
        0 <= i < workers,
    ensures
        ({
            let after = screen.after(sync::SyncEventView::Planned { workers });
            &&& after.panes.len() == workers
            &&& after.panes[i].name is None
            &&& !after.panes[i].running
            &&& after.panes[i].lines.len() == 0
            &&& after.merged == screen.merged
            &&& after.finished == screen.finished
            &&& after.total == screen.total
            &&& after.abort == screen.abort
            &&& after.all_done == screen.all_done
        }),
{
}

/// A line of a repository goes to the end of the log of its worker, and, with the
/// name of the repository in front, to the end of the merged log. The logs keep
/// the newest five hundred and two thousand lines. Nothing else changes.
pub proof fn lines_go_to_the_end_of_the_logs(
    screen: SyncScreenView,
    worker: nat,
    name: Seq<char>,
    line: Seq<char>,
    other: int,
)
    requires
        0 <= other < screen.panes.len(),
    ensures
        ({
            let after = screen.after(sync::SyncEventView::Line { worker, name, line });
            let merged = screen.merged.push("["@ + name + "] "@ + line);
            let log = screen.panes[worker as int].lines.push(line);
            &&& after.merged == if merged.len() <= 2_000 {
                merged
            } else {
                merged.skip(merged.len() - 2_000)
            }
            &&& worker < screen.panes.len() ==> {
                &&& after.panes[worker as int].lines == if log.len() <= 500 {
                    log
                } else {
                    log.skip(log.len() - 500)
                }
                &&& after.panes[worker as int].name == screen.panes[worker as int].name
                &&& after.panes[worker as int].running == screen.panes[worker as int].running
            }
            &&& other != worker ==> after.panes[other] == screen.panes[other]
            &&& after.panes.len() == screen.panes.len()
            &&& after.finished == screen.finished
            &&& after.total == screen.total
            &&& after.abort == screen.abort
            &&& after.all_done == screen.all_done
        }),
{
    runner::the_newest_lines_are_kept(screen.merged.push("["@ + name + "] "@ + line), 2_000);
    runner::the_newest_lines_are_kept(screen.panes[worker as int].lines.push(line), 500);
}

/// A worker that takes a repository shows its name and runs; in a pane with a log
/// it is set off by an empty line and a rule with the name. Nothing else changes.
pub proof fn a_start_is_shown_in_its_pane(
    screen: SyncScreenView,
    worker: nat,
    name: Seq<char>,
    other: int,
)
    requires
        worker < screen.panes.len(),
        0 <= other < screen.panes.len(),
    ensures
        ({
            let after = screen.after(sync::SyncEventView::Started { worker, name });
            let before = screen.panes[worker as int];
            let pane = after.panes[worker as int];
            &&& pane.name == Some(name)
            &&& pane.running
            &&& before.lines.len() == 0 ==> pane.lines.len() == 0
            &&& 0 < before.lines.len() && before.lines.len() + 2 <= 500 ==> pane.lines
                == before.lines.push(Seq::empty()).push("\u{2500}\u{2500} "@ + name)
            &&& before.lines.len() > 0 ==> pane.lines.len() >= 2 && pane.lines.last()
                == "\u{2500}\u{2500} "@ + name && pane.lines[pane.lines.len() - 2].len() == 0
            &&& other != worker ==> after.panes[other] == screen.panes[other]
            &&& after.panes.len() == screen.panes.len()
            &&& after.merged == screen.merged
            &&& after.finished == screen.finished
            &&& after.total == screen.total
            &&& after.abort == screen.abort
            &&& after.all_done == screen.all_done
        }),
{
    let before = screen.panes[worker as int].lines;
    let once = runner::last_lines(before.push(Seq::empty()), 500);
    runner::the_newest_lines_are_kept(before.push(Seq::empty()), 500);
    runner::the_newest_lines_are_kept(once.push(separator(name)), 500);
}

/// A worker that is done keeps the name and the log of its pane and stops running;
/// the result is added to those there are, whatever worker it comes from.
pub proof fn an_end_is_shown_in_its_pane(
    screen: SyncScreenView,
    worker: nat,
    result: sync::SyncResultView,
    other: int,
)
    requires
        0 <= other < screen.panes.len(),
    ensures
        ({
            let after = screen.after(sync::SyncEventView::Finished { worker, result });
            &&& after.finished == screen.finished.push(result)
            &&& worker < screen.panes.len() ==> {
                &&& !after.panes[worker as int].running
                &&& after.panes[worker as int].name == screen.panes[worker as int].name
                &&& after.panes[worker as int].lines == screen.panes[worker as int].lines
            }
            &&& other != worker ==> after.panes[other] == screen.panes[other]
            &&& after.panes.len() == screen.panes.len()
            &&& after.merged == screen.merged
            &&& after.total == screen.total
            &&& after.abort == screen.abort
            &&& after.all_done == screen.all_done
        }),
{
}

/// What a key does on the screen: Ctrl-C while the sync runs asks the commands to
/// stop, and each further one kills them; any key leaves once the sync has ended;
/// nothing else does anything. Only a press counts.
pub proof fn keys_abort_or_leave(
    watch: Watch,
    screen: SyncScreenView,
    key: Key,
    control: bool,
    kind: KeyKind,
)
    ensures
        ({
            let input = Input::Key { key, control, kind };
            let (after, shown, step) = watched(watch, screen, WatchEvent::Told { input });
            let ctrl_c = key == (Key::Char { c: 'c' }) && control;
            &&& kind != KeyKind::Press ==> step == WatchStep::Listen && shown == screen && after
                == watch
            &&& kind == KeyKind::Press && screen.all_done ==> step == WatchStep::Leave && shown
                == screen && after == watch
            &&& kind == KeyKind::Press && !screen.all_done && !ctrl_c ==> step == WatchStep::Listen
                && shown == screen && after == watch
            &&& kind == KeyKind::Press && !screen.all_done && ctrl_c && screen.abort
                == Abort::Unasked ==> step == WatchStep::Interrupt && shown == (SyncScreenView {
                abort: Abort::Requested,
                ..screen
            }) && after.dirty
            &&& kind == KeyKind::Press && !screen.all_done && ctrl_c && screen.abort
                != Abort::Unasked ==> step == WatchStep::Kill && shown == (SyncScreenView {
                abort: Abort::Forced,
                ..screen
            }) && after.dirty
        }),
{
}

/// What the sync reports is taken in and shown with the next frame; a terminal of
/// another size is drawn anew; and the end of a sync is taken note of once.
pub proof fn reports_are_taken_in(watch: Watch, screen: SyncScreenView, event: SyncEvent)
    ensures
        watched(watch, screen, WatchEvent::Heard { event }).1 == screen.after(event@),
        watched(watch, screen, WatchEvent::Heard { event }).0.dirty,
        watched(watch, screen, WatchEvent::Heard { event }).0.last_frame == watch.last_frame,
        watch.heard < 1_999 ==> watched(watch, screen, WatchEvent::Heard { event }).2
            == WatchStep::Listen,
        watch.heard == 1_999 ==> watched(watch, screen, WatchEvent::Heard { event }).2
            == WatchStep::Look,
        watched(watch, screen, WatchEvent::Nothing) == (
            Watch { heard: 0, ..watch },
            screen,
            WatchStep::Look,
        ),
        watched(watch, screen, WatchEvent::Ended).1 == (SyncScreenView { all_done: true, ..screen }),
        watched(watch, screen, WatchEvent::Ended).2 == WatchStep::Look,
        watched(watch, screen, WatchEvent::Ended).0.dirty == (watch.dirty || !screen.all_done),
        watched(watch, screen, WatchEvent::Told { input: Input::Resized }) == (
            Watch { dirty: true, ..watch },
            screen,
            WatchStep::Listen,
        ),
        watched(watch, screen, WatchEvent::Told { input: Input::Other }) == (
            watch,
            screen,
            WatchStep::Listen,
        ),
{
    if screen.all_done {
        assert(screen =~= SyncScreenView { all_done: true, ..screen });
    }
}

/// A frame is drawn only where something has changed, and then fifty milliseconds
/// after the last one, or at once where there was none or there will be no other.
pub proof fn frames_are_drawn_when_due(watch: Watch, all_done: bool, now: u64)
    ensures
        watch.is_due(all_done, now) <==> watch.dirty && (all_done || watch.last_frame is None || now
            >= watch.last_frame->0 + 50),
{
}

/// A screen begins with no pane, no line and no result, and nobody has asked for an
/// end.
pub proof fn screens_begin_blank(total: nat)
    ensures
        blank_screen(total).panes.len() == 0,
        blank_screen(total).merged.len() == 0,
        blank_screen(total).finished.len() == 0,
        blank_screen(total).total == total,
        blank_screen(total).abort == Abort::Unasked,
        !blank_screen(total).all_done,
{
}

/// What comes from a worker without a pane changes no pane; its line still goes to
/// the merged log, and its result is still added.
pub proof fn workers_without_a_pane_change_none(
    screen: SyncScreenView,
    worker: nat,
    name: Seq<char>,
    line: Seq<char>,
    result: sync::SyncResultView,
)
    requires
        worker >= screen.panes.len(),
    ensures
        screen.after(sync::SyncEventView::Started { worker, name }) == screen,
        screen.after(sync::SyncEventView::Line { worker, name, line }).panes == screen.panes,
        screen.merged.len() < 2_000 ==> screen.after(
            sync::SyncEventView::Line { worker, name, line },
        ).merged == screen.merged.push("["@ + name + "] "@ + line),
        screen.after(sync::SyncEventView::Finished { worker, result }) == (SyncScreenView {
            finished: screen.finished.push(result),
            ..screen
        }),
{
}

/// The first frame is drawn at once; a frame that was drawn is not drawn again
/// until something changes; and a sync was aborted just when that was asked for.
pub proof fn screens_are_drawn_and_closed(watch: Watch, all_done: bool, now: u64, abort: Abort)
    ensures
        Watch::undrawn().is_due(all_done, now),
        Watch::undrawn().heard == 0,
        !watch.drawn_at(now).is_due(all_done, now),
        watch.drawn_at(now).last_frame == Some(now),
        watch.drawn_at(now).heard == watch.heard,
        is_abort_asked(abort) <==> abort == Abort::Requested || abort == Abort::Forced,
{
}

/// The state of a screen and the rows of its frames are seen whole.
pub proof fn screens_are_seen_whole(screen: SyncScreen, pane: int, rows: Seq<Row>, i: int)
    requires
        0 <= i < rows.len(),
        0 <= pane < screen.panes@.len(),
    ensures
        row_views(rows).len() == rows.len(),
        row_views(rows)[i].text == rows[i].text@,
        row_views(rows)[i].color == rows[i].color,
        screen@.panes.len() == screen.panes@.len(),
        screen@.panes[pane].running == screen.panes@[pane].running,
        screen@.panes[pane].lines == text::texts(screen.panes@[pane].lines@),
        match screen.panes@[pane].name {
            Some(name) => screen@.panes[pane].name == Some(name@),
            None => screen@.panes[pane].name is None,
        },
        screen@.merged == text::texts(screen.merged@),
        screen@.total == screen.total,
        screen@.finished == sync::result_views(screen.finished@),
        screen@.abort == screen.abort,
        screen@.all_done == screen.all_done,
{
}

/// Where the panes give way to the merged log, its title stands on the first row
/// however low the screen is, and its newest line right above the footer as soon
/// as there are lines enough.
pub proof fn the_newest_line_stands_above_the_footer(
    screen: SyncScreenView,
    width: nat,
    height: nat,
)
    requires
        height >= 2,
        screen.panes.len() == 0 || (height - 1) / (screen.panes.len() as int) < 4,
    ensures
        frame_rows(screen, width, height)[0] == titled(
            if screen.panes.len() == 0 {
                "pullkit sync  starting"@
            } else {
                "pullkit sync  "@ + text::decimal(screen.panes.len())
                    + " workers, one log: the terminal is too small for panes"@
            },
            width,
        ),
        height > 2 && screen.merged.len() >= height - 2 ==> frame_rows(screen, width, height)[height
            - 2] == (RowView {
            text: width::fitted(screen.merged.last(), width),
            color: color_of(screen.merged.last()),
        }),
{
    let shown = body_rows(screen, width, (height - 1) as nat);
    assert(shown.len() == height - 1);
    assert(frame_rows(screen, width, height)[0] == shown[0]);
    if height > 2 {
        the_merged_log_shows_its_newest_lines(screen, width, height, height - 3);
    }
}

/// The rows that the panes leave over are blank.
pub proof fn what_the_panes_leave_over_is_blank(
    screen: SyncScreenView,
    width: nat,
    height: nat,
    row: int,
)
    requires
        height >= 1,
        screen.panes.len() > 0,
        (height - 1) / (screen.panes.len() as int) >= 4,
        screen.panes.len() * ((height - 1) / (screen.panes.len() as int)) <= row < height - 1,
    ensures
        frame_rows(screen, width, height)[row] == (RowView {
            text: Seq::new(width, |k: int| ' '),
            color: None,
        }),
{
    let body = (height - 1) as nat;
    let count = screen.panes.len();
    let log = log_rows(count, body);
    let shown = body_rows(screen, width, body);
    assert(shown == stacked(screen.panes, log, width));
    lemma_stacked_len(screen.panes, log, width);
    assert(log + 1 == body as int / count as int);
    assert(count * (log + 1) == count * (body as int / count as int));
    assert(text::repeated(' ', width) =~= Seq::new(width, |k: int| ' '));
    let rows = frame_rows(screen, width, height);
    assert(rows[row] == blank_row(width));
}

/// Commands that are asked to stop as the screen is left have three seconds to do
/// so before they are killed.
pub proof fn commands_have_three_seconds_to_stop(
    commands: crate::commands::CommandsView,
    alive: Seq<u32>,
    now: u64,
)
    requires
        now + 3_000 <= u64::MAX,
        !commands.pruned(alive).is_quiet(),
    ensures
        crate::commands::stop_running_step(
            commands,
            crate::commands::StopPhase::Asked,
            alive,
            now,
            STOP_GRACE,
        ).phase == (crate::commands::StopPhase::Waiting { deadline: (now + 3_000) as u64 }),
{
}

} // verus!
