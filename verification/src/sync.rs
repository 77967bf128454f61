//! The sync of a repository: its work tree is checked, the remote branch is
//! pulled, and the build command is run.

use crate::config::{self, clone_option, RepoConfig};
use crate::git::{self, CommandReply};
use crate::jobs::{self, JobQueue};
use crate::status::{self, RepoStatus};
use crate::text;
use vstd::prelude::*;

verus! {

/// How the sync of a repository ended.
#[derive(Debug, Clone, Copy, PartialEq, Eq, Structural)]
pub enum SyncOutcome {
    Succeeded,
    SkippedDirty,
    SkippedBranch,
    PullFailed,
    BuildFailed,
    StatusFailed,
}

/// What came of the sync of a repository.
#[derive(Debug)]
pub struct SyncResult {
    pub name: String,
    pub path: String,
    pub outcome: SyncOutcome,
    pub branch: Option<String>,
    pub pull_output: Option<String>,
    pub build_output: Option<String>,
    pub message: String,
}

/// What a `SyncResult` holds.
#[verifier::ext_equal]
pub struct SyncResultView {
    pub name: Seq<char>,
    pub path: Seq<char>,
    pub outcome: SyncOutcome,
    pub branch: Option<Seq<char>>,
    pub pull_output: Option<Seq<char>>,
    pub build_output: Option<Seq<char>>,
    pub message: Seq<char>,
}

impl View for SyncResult {
    type V = SyncResultView;

    open spec fn view(&self) -> SyncResultView {
        SyncResultView {
            name: self.name@,
            path: self.path@,
            outcome: self.outcome,
            branch: text::text_option(self.branch),
            pull_output: text::text_option(self.pull_output),
            build_output: text::text_option(self.build_output),
            message: self.message@,
        }
    }
}

impl Clone for SyncResult {
    fn clone(&self) -> (r: SyncResult)
        ensures
            r == *self,
    {
        SyncResult {
            name: self.name.clone(),
            path: self.path.clone(),
            outcome: self.outcome,
            branch: clone_option(&self.branch),
            pull_output: clone_option(&self.pull_output),
            build_output: clone_option(&self.build_output),
            message: self.message.clone(),
        }
    }
}

/// What a sync reports while it runs. `worker` numbers the slot that took the
/// repository, from zero, so that a display can keep one place per slot.
#[derive(Debug)]
pub enum SyncEvent {
    /// Sent once, first, with the number of slots this sync uses.
    Planned { workers: usize },
    /// A slot took a repository.
    Started { worker: usize, name: String },
    /// One line of log or command output from the repository the slot holds.
    Line { worker: usize, name: String, line: String },
    /// The slot is done with the repository.
    Finished { worker: usize, result: SyncResult },
}

/// What a `SyncEvent` tells.
#[verifier::ext_equal]
pub enum SyncEventView {
    Planned { workers: nat },
    Started { worker: nat, name: Seq<char> },
    Line { worker: nat, name: Seq<char>, line: Seq<char> },
    Finished { worker: nat, result: SyncResultView },
}

impl View for SyncEvent {
    type V = SyncEventView;

    open spec fn view(&self) -> SyncEventView {
        match *self {
            SyncEvent::Planned { workers } => SyncEventView::Planned { workers: workers as nat },
            SyncEvent::Started { worker, name } => SyncEventView::Started {
                worker: worker as nat,
                name: name@,
            },
            SyncEvent::Line { worker, name, line } => SyncEventView::Line {
                worker: worker as nat,
                name: name@,
                line: line@,
            },
            SyncEvent::Finished { worker, result } => SyncEventView::Finished {
                worker: worker as nat,
                result: result@,
            },
        }
    }
}

/// The lock of a repository, as seen by a sync of it. It is held from the check
/// of the work tree to the end of the build.
#[derive(Debug, Clone, Copy, PartialEq, Eq, Structural)]
pub enum LockState {
    Untried,
    /// Somebody else holds it.
    Busy,
    /// The sync holds it. `abandoned` tells whether everything was given up by
    /// then: the wait may have outlasted an abort.
    Held { abandoned: bool },
}

/// What a sync has found out so far.
pub struct SyncFacts {
    pub lock: LockState,
    /// What the inspection of the work tree found.
    pub status: Option<RepoStatus>,
    /// What the pull left behind.
    pub pull: Option<CommandReply>,
    /// What the build left behind.
    pub build: Option<CommandReply>,
}

/// What a sync does next; what it brings is added to the facts.
pub enum SyncAction {
    TryLock,
    WaitForLock,
    Inspect,
    Pull,
    Build { command: String },
    Done { result: SyncResult },
}

/// What a `SyncAction` says.
#[verifier::ext_equal]
pub enum SyncActionView {
    TryLock,
    WaitForLock,
    Inspect,
    Pull,
    Build { command: Seq<char> },
    Done { result: SyncResultView },
}

impl View for SyncAction {
    type V = SyncActionView;

    open spec fn view(&self) -> SyncActionView {
        match *self {
            SyncAction::TryLock => SyncActionView::TryLock,
            SyncAction::WaitForLock => SyncActionView::WaitForLock,
            SyncAction::Inspect => SyncActionView::Inspect,
            SyncAction::Pull => SyncActionView::Pull,
            SyncAction::Build { command } => SyncActionView::Build { command: command@ },
            SyncAction::Done { result } => SyncActionView::Done { result: result@ },
        }
    }
}

/// A step of a sync: a line to log, if any, and what to do then.
pub struct SyncStep {
    pub line: Option<String>,
    pub action: SyncAction,
}

/// What a `SyncStep` says.
#[verifier::ext_equal]
pub struct SyncStepView {
    pub line: Option<Seq<char>>,
    pub action: SyncActionView,
}

impl View for SyncStep {
    type V = SyncStepView;

    open spec fn view(&self) -> SyncStepView {
        SyncStepView { line: text::text_option(self.line), action: self.action@ }
    }
}

/// The word that a closing line begins with.
pub open spec fn level(outcome: SyncOutcome) -> Seq<char> {
    match outcome {
        SyncOutcome::Succeeded => "OK "@,
        SyncOutcome::SkippedDirty => "WARN "@,
        SyncOutcome::SkippedBranch => "WARN "@,
        SyncOutcome::PullFailed => "ERROR "@,
        SyncOutcome::BuildFailed => "ERROR "@,
        SyncOutcome::StatusFailed => "ERROR "@,
    }
}

/// The end of a sync: its message is logged, and its result is given.
pub open spec fn closing(
    repo: config::RepoConfigView,
    outcome: SyncOutcome,
    branch: Option<Seq<char>>,
    message: Seq<char>,
    pull_output: Option<Seq<char>>,
    build_output: Option<Seq<char>>,
) -> SyncStepView {
    SyncStepView {
        line: Some(level(outcome) + message),
        action: SyncActionView::Done {
            result: SyncResultView {
                name: repo.name,
                path: repo.path,
                outcome,
                branch,
                pull_output,
                build_output,
                message,
            },
        },
    }
}

/// A step that goes on: what is done next is logged.
pub open spec fn going_on(line: Seq<char>, action: SyncActionView) -> SyncStepView {
    SyncStepView { line: Some(line), action }
}

/// The branch to name where none is known.
pub open spec fn branch_or_unknown(branch: Option<Seq<char>>) -> Seq<char> {
    match branch {
        Some(branch) => branch,
        None => "unknown"@,
    }
}

/// The build command of a repository, where it has one that is not blank.
pub open spec fn command_of(repo: config::RepoConfigView) -> Option<Seq<char>> {
    match repo.build_command {
        Some(command) if !text::is_blank(command) => Some(command),
        _ => None,
    }
}

/// The step that follows once the work tree was checked.
pub open spec fn checked_step(
    repo: config::RepoConfigView,
    status: status::RepoStatusView,
    pull: Option<CommandReply>,
    build: Option<CommandReply>,
) -> SyncStepView {
    if status.error is Some {
        closing(
            repo,
            SyncOutcome::StatusFailed,
            None,
            "status check failed: "@ + status.error->0,
            None,
            None,
        )
    } else if !status.clean {
        closing(
            repo,
            SyncOutcome::SkippedDirty,
            status.branch,
            "skipped: working tree has uncommitted changes"@,
            None,
            None,
        )
    } else if !status.on_main {
        let branch = branch_or_unknown(status.branch);
        closing(
            repo,
            SyncOutcome::SkippedBranch,
            Some(branch),
            "skipped: current branch is '"@ + branch + "', not main/master"@,
            None,
            None,
        )
    } else {
        match pull {
            None => going_on("pulling from origin"@, SyncActionView::Pull),
            Some(Err(cause)) => closing(
                repo,
                SyncOutcome::PullFailed,
                status.branch,
                "git pull did not run to completion: "@ + cause@,
                None,
                None,
            ),
            Some(Ok(output)) => if git::is_success(output.code) {
                pulled_step(repo, status.branch, output.text@, build)
            } else {
                closing(
                    repo,
                    SyncOutcome::PullFailed,
                    status.branch,
                    "git pull failed ("@ + git::exit_words(output.code) + ")"@,
                    Some(output.text@),
                    None,
                )
            },
        }
    }
}

/// The step that follows once the pull went well.
pub open spec fn pulled_step(
    repo: config::RepoConfigView,
    branch: Option<Seq<char>>,
    pull_output: Seq<char>,
    build: Option<CommandReply>,
) -> SyncStepView {
    match command_of(repo) {
        None => closing(
            repo,
            SyncOutcome::Succeeded,
            branch,
            "sync completed"@,
            Some(pull_output),
            None,
        ),
        Some(command) => match build {
            None => going_on("building: "@ + command, SyncActionView::Build { command }),
            Some(Err(cause)) => closing(
                repo,
                SyncOutcome::BuildFailed,
                branch,
                "could not start build: "@ + cause@,
                Some(pull_output),
                None,
            ),
            Some(Ok(output)) => if git::is_success(output.code) {
                closing(
                    repo,
                    SyncOutcome::Succeeded,
                    branch,
                    "sync completed"@,
                    Some(pull_output),
                    Some(output.text@),
                )
            } else {
                closing(
                    repo,
                    SyncOutcome::BuildFailed,
                    branch,
                    "build failed ("@ + git::exit_words(output.code) + ")"@,
                    Some(pull_output),
                    Some(output.text@),
                )
            },
        },
    }
}

/// The step that follows from the facts.
pub open spec fn sync_step(repo: config::RepoConfigView, facts: SyncFacts) -> SyncStepView {
    match facts.lock {
        LockState::Untried => SyncStepView { line: None, action: SyncActionView::TryLock },
        LockState::Busy => going_on(
            "waiting for another git command in this repository"@,
            SyncActionView::WaitForLock,
        ),
        LockState::Held { abandoned } => if abandoned {
            closing(
                repo,
                SyncOutcome::StatusFailed,
                None,
                "aborted before the sync started"@,
                None,
                None,
            )
        } else {
            match facts.status {
                None => going_on("checking repository"@, SyncActionView::Inspect),
                Some(status) => checked_step(repo, status@, facts.pull, facts.build),
            }
        },
    }
}

fn level_text(outcome: SyncOutcome) -> (r: &'static str)
    ensures
        r@ == level(outcome),
{
    match outcome {
        SyncOutcome::Succeeded => "OK ",
        SyncOutcome::SkippedDirty => "WARN ",
        SyncOutcome::SkippedBranch => "WARN ",
        SyncOutcome::PullFailed => "ERROR ",
        SyncOutcome::BuildFailed => "ERROR ",
        SyncOutcome::StatusFailed => "ERROR ",
    }
}

/// Closes the sync of a repository.
fn result(
    repo: &RepoConfig,
    outcome: SyncOutcome,
    branch: Option<String>,
    message: String,
    pull_output: Option<String>,
    build_output: Option<String>,
) -> (r: SyncStep)
    ensures
        r@ == closing(
            repo@,
            outcome,
            text::text_option(branch),
            message@,
            text::text_option(pull_output),
            text::text_option(build_output),
        ),
{
    let line = level_text(outcome).to_owned().concat(message.as_str());
    SyncStep {
        line: Some(line),
        action: SyncAction::Done {
            result: SyncResult {
                name: repo.name.clone(),
                path: repo.path.clone(),
                outcome,
                branch,
                pull_output,
                build_output,
                message,
            },
        },
    }
}

fn build_step(
    repo: &RepoConfig,
    branch: Option<String>,
    pull_output: String,
    build: &Option<CommandReply>,
) -> (r: SyncStep)
    ensures
        r@ == pulled_step(repo@, text::text_option(branch), pull_output@, *build),
{
    let command = match &repo.build_command {
        Some(command) => if text::blank(command.as_str()) {
            None
        } else {
            Some(command)
        },
        None => None,
    };
    match command {
        None => result(
            repo,
            SyncOutcome::Succeeded,
            branch,
            "sync completed".to_owned(),
            Some(pull_output),
            None,
        ),
        Some(command) => match build {
            None => SyncStep {
                line: Some("building: ".to_owned().concat(command.as_str())),
                action: SyncAction::Build { command: command.clone() },
            },
            Some(Err(cause)) => result(
                repo,
                SyncOutcome::BuildFailed,
                branch,
                "could not start build: ".to_owned().concat(cause.as_str()),
                Some(pull_output),
                None,
            ),
            Some(Ok(output)) => if git::success(output.code) {
                result(
                    repo,
                    SyncOutcome::Succeeded,
                    branch,
                    "sync completed".to_owned(),
                    Some(pull_output),
                    Some(output.text.clone()),
                )
            } else {
                let label = git::exit_label(output.code);
                result(
                    repo,
                    SyncOutcome::BuildFailed,
                    branch,
                    "build failed (".to_owned().concat(label.as_str()).concat(")"),
                    Some(pull_output),
                    Some(output.text.clone()),
                )
            },
        },
    }
}

fn pull_step(
    repo: &RepoConfig,
    status: &RepoStatus,
    pull: &Option<CommandReply>,
    build: &Option<CommandReply>,
) -> (r: SyncStep)
    ensures
        r@ == checked_step(repo@, status@, *pull, *build),
{
    match &status.error {
        Some(error) => return result(
            repo,
            SyncOutcome::StatusFailed,
            None,
            "status check failed: ".to_owned().concat(error.as_str()),
            None,
            None,
        ),
        None => {},
    }
    let branch = clone_option(&status.branch);
    if !status.clean {
        let message = "skipped: working tree has uncommitted changes".to_owned();
        return result(repo, SyncOutcome::SkippedDirty, branch, message, None, None);
    }
    if !status.on_main {
        let branch = match branch {
            Some(branch) => branch,
            None => "unknown".to_owned(),
        };
        let message = "skipped: current branch is '".to_owned().concat(branch.as_str()).concat(
            "', not main/master",
        );
        return result(repo, SyncOutcome::SkippedBranch, Some(branch), message, None, None);
    }
    match pull {
        None => SyncStep {
            line: Some("pulling from origin".to_owned()),
            action: SyncAction::Pull,
        },
        Some(Err(cause)) => result(
            repo,
            SyncOutcome::PullFailed,
            branch,
            "git pull did not run to completion: ".to_owned().concat(cause.as_str()),
            None,
            None,
        ),
        Some(Ok(output)) => if git::success(output.code) {
            build_step(repo, branch, output.text.clone(), build)
        } else {
            let label = git::exit_label(output.code);
            result(
                repo,
                SyncOutcome::PullFailed,
                branch,
                "git pull failed (".to_owned().concat(label.as_str()).concat(")"),
                Some(output.text.clone()),
                None,
            )
        },
    }
}

/// Syncs one repository: takes its lock, checks its work tree, pulls where the
/// tree is clean and on the main branch, and runs the build command. Says after
/// each finding what to log and what to do next. The lines do not carry the
/// repository's name: a display puts it where it wants it.
pub fn sync_repo(repo: &RepoConfig, facts: &SyncFacts) -> (r: SyncStep)
    ensures
        r@ == sync_step(repo@, *facts),
{
    match facts.lock {
        LockState::Untried => SyncStep { line: None, action: SyncAction::TryLock },
        LockState::Busy => SyncStep {
            line: Some("waiting for another git command in this repository".to_owned()),
            action: SyncAction::WaitForLock,
        },
        LockState::Held { abandoned } => if abandoned {
            let message = "aborted before the sync started".to_owned();
            result(repo, SyncOutcome::StatusFailed, None, message, None, None)
        } else {
            match &facts.status {
                None => SyncStep {
                    line: Some("checking repository".to_owned()),
                    action: SyncAction::Inspect,
                },
                Some(status) => pull_step(repo, status, &facts.pull, &facts.build),
            }
        },
    }
}

/// Nothing is pulled into a tree with uncommitted changes or into a branch that
/// is not the main one, nor before the lock is held.
pub proof fn only_clean_main_branches_are_pulled(repo: config::RepoConfigView, facts: SyncFacts)
    ensures
        sync_step(repo, facts).action is Pull ==> {
            &&& facts.lock == (LockState::Held { abandoned: false })
            &&& facts.status is Some
            &&& facts.status->0@.error is None
            &&& facts.status->0@.clean
            &&& facts.status->0@.on_main
            &&& facts.pull is None
        },
{
}

/// A build follows a pull that succeeded, and runs the configured command.
pub proof fn builds_follow_good_pulls(repo: config::RepoConfigView, facts: SyncFacts)
    ensures
        sync_step(repo, facts).action is Build ==> {
            &&& facts.lock == (LockState::Held { abandoned: false })
            &&& facts.status is Some
            &&& facts.status->0@.error is None
            &&& facts.status->0@.clean
            &&& facts.status->0@.on_main
            &&& facts.pull matches Some(Ok(output)) && git::is_success(output.code)
            &&& repo.build_command == Some(sync_step(repo, facts).action->command)
            &&& !text::is_blank(sync_step(repo, facts).action->command)
            &&& facts.build is None
        },
{
}

/// The work tree is looked at, pulled into and built only while the lock is
/// held, and not at all when everything was given up by then.
pub proof fn nothing_is_touched_without_the_lock(repo: config::RepoConfigView, facts: SyncFacts)
    requires
        facts.lock != (LockState::Held { abandoned: false }),
    ensures
        !(sync_step(repo, facts).action is Inspect),
        !(sync_step(repo, facts).action is Pull),
        !(sync_step(repo, facts).action is Build),
        facts.lock is Held ==> sync_step(repo, facts).action is Done,
{
}

/// A tree with uncommitted changes, and one on another branch, is skipped and
/// left as it is, and the result names the branch.
pub proof fn unready_trees_are_skipped(repo: config::RepoConfigView, facts: SyncFacts)
    requires
        facts.lock == (LockState::Held { abandoned: false }),
        facts.status is Some,
        facts.status->0@.error is None,
        !facts.status->0@.clean || !facts.status->0@.on_main,
    ensures
        sync_step(repo, facts).action is Done,
        ({
            let result = sync_step(repo, facts).action->result;
            let status = facts.status->0@;
            &&& result.outcome == if !status.clean {
                SyncOutcome::SkippedDirty
            } else {
                SyncOutcome::SkippedBranch
            }
            &&& status.branch is Some ==> result.branch == status.branch
            &&& result.pull_output is None
            &&& result.build_output is None
        }),
{
}

/// A sync succeeds just when the tree was ready, the pull went well, and so did
/// the build of a repository that has one.
pub proof fn success_means_all_went_well(repo: config::RepoConfigView, facts: SyncFacts)
    ensures
        (sync_step(repo, facts).action matches SyncActionView::Done { result } && result.outcome
            == SyncOutcome::Succeeded) <==> {
            &&& facts.lock == (LockState::Held { abandoned: false })
            &&& facts.status is Some
            &&& facts.status->0@.error is None
            &&& facts.status->0@.clean
            &&& facts.status->0@.on_main
            &&& facts.pull matches Some(Ok(output)) && git::is_success(output.code)
            &&& command_of(repo) is Some ==> (facts.build matches Some(Ok(output))
                && git::is_success(output.code))
        },
{
}

/// Every sync closes with a line that tells its result: how it ended, and its
/// message. The result is of the repository that was asked about.
pub proof fn the_closing_line_tells_the_result(repo: config::RepoConfigView, facts: SyncFacts)
    requires
        sync_step(repo, facts).action is Done,
    ensures
        ({
            let result = sync_step(repo, facts).action->result;
            &&& sync_step(repo, facts).line == Some(level(result.outcome) + result.message)
            &&& result.name == repo.name
            &&& result.path == repo.path
        }),
{
}

/// Each step but the last asks for something that is not known yet, so that a
/// sync ends after its lock, its check, its pull and its build.
pub proof fn each_step_asks_for_something_new(repo: config::RepoConfigView, facts: SyncFacts)
    ensures
        match sync_step(repo, facts).action {
            SyncActionView::TryLock => facts.lock is Untried,
            SyncActionView::WaitForLock => facts.lock is Busy,
            SyncActionView::Inspect => facts.status is None,
            SyncActionView::Pull => facts.status is Some && facts.pull is None,
            SyncActionView::Build { .. } => facts.pull is Some && facts.build is None,
            SyncActionView::Done { .. } => facts.lock is Held,
        },
{
}

/// Events a sync may have waiting for its display before the workers wait.
pub const EVENT_QUEUE: usize = 4_096;

/// The results of a sync, each in the place of its repository.
pub struct SyncResults {
    pub slots: Vec<Option<SyncResult>>,
}

/// What one place holds.
pub open spec fn slot_view(slot: Option<SyncResult>) -> Option<SyncResultView> {
    match slot {
        Some(result) => Some(result@),
        None => None,
    }
}

impl View for SyncResults {
    type V = Seq<Option<SyncResultView>>;

    open spec fn view(&self) -> Seq<Option<SyncResultView>> {
        Seq::new(self.slots@.len(), |i: int| slot_view(self.slots@[i]))
    }
}

/// The contents of a list of results.
pub open spec fn result_views(results: Seq<SyncResult>) -> Seq<SyncResultView> {
    Seq::new(results.len(), |i: int| results[i]@)
}

/// The results that are there, in the order of their places.
pub open spec fn present(slots: Seq<Option<SyncResultView>>) -> Seq<SyncResultView>
    decreases slots.len(),
{
    if slots.len() == 0 {
        Seq::empty()
    } else {
        match slots.last() {
            Some(result) => present(slots.drop_last()).push(result),
            None => present(slots.drop_last()),
        }
    }
}

/// The places after an event from the repository at `index`.
pub open spec fn recorded(
    slots: Seq<Option<SyncResultView>>,
    index: int,
    event: SyncEventView,
) -> Seq<Option<SyncResultView>> {
    match event {
        SyncEventView::Finished { result, .. } => slots.update(index, Some(result)),
        _ => slots,
    }
}

/// The results come in the order of the repositories: in front of the result of
/// a repository stand those of the repositories before it that have one, and
/// nothing else.
pub proof fn results_keep_their_order(slots: Seq<Option<SyncResultView>>, i: int)
    requires
        0 <= i < slots.len(),
    ensures
        present(slots).len() <= slots.len(),
        present(slots.take(i)).len() <= present(slots).len(),
        slots[i] is Some ==> {
            &&& present(slots.take(i)).len() < present(slots).len()
            &&& present(slots)[present(slots.take(i)).len() as int] == slots[i]->0
        },
    decreases slots.len(),
{
    let rest = slots.drop_last();
    if i < rest.len() {
        results_keep_their_order(rest, i);
        assert(rest.take(i) == slots.take(i));
    } else {
        assert(slots.take(i) == rest);
        if rest.len() > 0 {
            results_keep_their_order(rest, 0);
        }
    }
}

/// When every repository has a result, there is one for each.
pub proof fn no_result_is_lost(slots: Seq<Option<SyncResultView>>)
    requires
        forall|i: int| 0 <= i < slots.len() ==> #[trigger] slots[i] is Some,
    ensures
        present(slots).len() == slots.len(),
        forall|i: int| 0 <= i < slots.len() ==> #[trigger] present(slots)[i] == slots[i]->0,
    decreases slots.len(),
{
    if slots.len() > 0 {
        let rest = slots.drop_last();
        assert forall|i: int| 0 <= i < rest.len() implies #[trigger] rest[i] is Some by {
            assert(slots[i] is Some);
        }
        no_result_is_lost(rest);
        assert(slots[slots.len() - 1] is Some);
    }
}

/// The places for the results of `count` repositories, with none in them yet.
pub open spec fn empty_places(count: nat) -> Seq<Option<SyncResultView>> {
    Seq::new(count, |i: int| None::<SyncResultView>)
}

impl SyncResults {
    /// No result yet.
    pub fn new(count: usize) -> (r: SyncResults)
        ensures
            r@ == empty_places(count as nat),
    {
        let mut slots: Vec<Option<SyncResult>> = Vec::new();
        for i in 0..count
            invariant
                slots@.len() == i,
                forall|j: int| 0 <= j < i ==> #[trigger] slots@[j] is None,
        {
            slots.push(None);
        }
        let r = SyncResults { slots };
        assert(r@ =~= Seq::new(count as nat, |i: int| None::<SyncResultView>));
        r
    }

    /// Takes in an event from the repository at `index`.
    pub fn record(&mut self, index: usize, event: &SyncEvent)
        requires
            event is Finished ==> index < old(self)@.len(),
        ensures
            final(self)@ == recorded(old(self)@, index as int, event@),
    {
        match event {
            SyncEvent::Finished { worker: _, result } => {
                self.slots.set(index, Some(result.clone()));
                assert(self@ =~= recorded(old(self)@, index as int, event@));
            },
            _ => {},
        }
    }

    /// The results of the repositories that were started and finished, in the
    /// order of the repositories.
    pub fn finish(self) -> (r: Vec<SyncResult>)
        ensures
            result_views(r@) == present(self@),
            r@.len() <= self@.len(),
    {
        let mut r: Vec<SyncResult> = Vec::new();
        let ghost all = self@;
        for i in 0..self.slots.len()
            invariant
                all == self@,
                result_views(r@) == present(all.take(i as int)),
                r@.len() <= i,
        {
            assert(all.take(i + 1).drop_last() == all.take(i as int));
            assert(all.take(i + 1).last() == slot_view(self.slots@[i as int]));
            match &self.slots[i] {
                Some(result) => {
                    let ghost before = r@;
                    r.push(result.clone());
                    assert(result_views(r@) =~= result_views(before).push(result@));
                },
                None => {},
            }
        }
        assert(all.take(all.len() as int) == all);
        r
    }
}

/// A sync about to start: what it reports first, the repositories to share out,
/// and the places for their results.
pub struct SyncPlan {
    pub planned: SyncEvent,
    pub queue: JobQueue,
    pub results: SyncResults,
}

/// How many workers a sync of `count` repositories uses: as many as asked for,
/// one at least, and no more than there are repositories.
pub open spec fn worker_count(count: nat, concurrency: nat) -> nat {
    jobs::smaller(
        count,
        if concurrency == 0 {
            1
        } else {
            concurrency
        },
    )
}

/// Plans the sync of `count` repositories, `concurrency` at a time.
pub fn sync_repos(count: usize, concurrency: usize) -> (r: SyncPlan)
    ensures
        r.planned@ == (SyncEventView::Planned {
            workers: worker_count(count as nat, concurrency as nat),
        }),
        r.queue.workers == worker_count(count as nat, concurrency as nat),
        r.queue.count == count,
        r.queue.next == 0,
        r.queue.is_sound(),
        r.results@ == empty_places(count as nat),
{
    let wanted: usize = if concurrency == 0 {
        1
    } else {
        concurrency
    };
    let queue = JobQueue::new(count, wanted);
    SyncPlan {
        planned: SyncEvent::Planned { workers: queue.workers },
        queue,
        results: SyncResults::new(count),
    }
}

/// Whether the lock is held and nothing was given up, and the work tree was found
/// clean and on the main branch.
pub open spec fn is_ready(facts: SyncFacts) -> bool {
    &&& facts.lock == (LockState::Held { abandoned: false })
    &&& facts.status is Some
    &&& facts.status->0@.error is None
    &&& facts.status->0@.clean
    &&& facts.status->0@.on_main
}

/// A sync goes on wherever it can: the lock is tried, then waited for; under the
/// lock the work tree is checked; a tree that is clean and on the main branch is
/// pulled into, whatever is to be built; and after a good pull a command that is
/// not blank is run as it was configured.
pub proof fn syncs_go_on(repo: config::RepoConfigView, facts: SyncFacts)
    ensures
        sync_step(repo, facts) == (SyncStepView { line: None, action: SyncActionView::TryLock })
            <==> facts.lock == LockState::Untried,
        sync_step(repo, facts).action is WaitForLock <==> facts.lock == LockState::Busy,
        sync_step(repo, facts).action is Inspect <==> facts.lock == (LockState::Held {
            abandoned: false,
        }) && facts.status is None,
        sync_step(repo, facts).action is Pull <==> facts.lock == (LockState::Held {
            abandoned: false,
        }) && (facts.status matches Some(status) && status@.error is None && status@.clean
            && status@.on_main) && facts.pull is None,
        sync_step(repo, facts).action is Build <==> facts.lock == (LockState::Held {
            abandoned: false,
        }) && (facts.status matches Some(status) && status@.error is None && status@.clean
            && status@.on_main) && (facts.pull matches Some(Ok(output)) && output.code == Some(
            0i32,
        )) && (repo.build_command matches Some(command) && !text::is_blank(command))
            && facts.build is None,
        sync_step(repo, facts).action matches SyncActionView::Build { command }
            ==> repo.build_command == Some(command),
{
}

/// What a sync logs before it does something.
pub proof fn steps_are_logged(repo: config::RepoConfigView, facts: SyncFacts)
    ensures
        match sync_step(repo, facts).action {
            SyncActionView::TryLock => sync_step(repo, facts).line is None,
            SyncActionView::WaitForLock => sync_step(repo, facts).line == Some(
                "waiting for another git command in this repository"@,
            ),
            SyncActionView::Inspect => sync_step(repo, facts).line == Some("checking repository"@),
            SyncActionView::Pull => sync_step(repo, facts).line == Some("pulling from origin"@),
            SyncActionView::Build { command } => sync_step(repo, facts).line == Some(
                "building: "@ + command,
            ),
            SyncActionView::Done { result } => sync_step(repo, facts).line == Some(
                (if result.outcome == SyncOutcome::Succeeded {
                    "OK "@
                } else if result.outcome == SyncOutcome::SkippedDirty || result.outcome
                    == SyncOutcome::SkippedBranch {
                    "WARN "@
                } else {
                    "ERROR "@
                }) + result.message,
            ),
        },
{
}

/// Each way a sync can end, and just when it ends so.
pub proof fn outcomes_have_their_causes(repo: config::RepoConfigView, facts: SyncFacts)
    ensures
        ends_with(repo, facts, SyncOutcome::StatusFailed) <==> facts.lock == (LockState::Held {
            abandoned: true,
        }) || facts.lock == (LockState::Held { abandoned: false }) && (facts.status matches Some(
            status,
        ) && status@.error is Some),
        ends_with(repo, facts, SyncOutcome::SkippedDirty) <==> facts.lock == (LockState::Held {
            abandoned: false,
        }) && (facts.status matches Some(status) && status@.error is None && !status@.clean),
        ends_with(repo, facts, SyncOutcome::SkippedBranch) <==> facts.lock == (LockState::Held {
            abandoned: false,
        }) && (facts.status matches Some(status) && status@.error is None && status@.clean
            && !status@.on_main),
        ends_with(repo, facts, SyncOutcome::PullFailed) <==> is_ready(facts) && (
        facts.pull matches Some(reply) && (reply is Err || reply->Ok_0.code != Some(0i32))),
        ends_with(repo, facts, SyncOutcome::BuildFailed) <==> is_ready(facts) && (
        facts.pull matches Some(Ok(output)) && output.code == Some(0i32)) && (
        repo.build_command matches Some(command) && !text::is_blank(command)) && (
        facts.build matches Some(reply) && (reply is Err || reply->Ok_0.code != Some(0i32))),
        ends_with(repo, facts, SyncOutcome::Succeeded) <==> is_ready(facts) && (
        facts.pull matches Some(Ok(output)) && output.code == Some(0i32)) && (
        (repo.build_command matches Some(command) && !text::is_blank(command)) ==> (
        facts.build matches Some(Ok(output)) && output.code == Some(0i32))),
{
}

/// Whether a sync ends with this outcome.
pub open spec fn ends_with(
    repo: config::RepoConfigView,
    facts: SyncFacts,
    outcome: SyncOutcome,
) -> bool {
    sync_step(repo, facts).action matches SyncActionView::Done { result } && result.outcome
        == outcome
}

/// What a result holds: the repository; the branch that was found, wherever the
/// check of the work tree went well; what the pull and the build wrote, wherever
/// they ran.
pub proof fn results_hold_what_was_found(repo: config::RepoConfigView, facts: SyncFacts)
    requires
        sync_step(repo, facts).action is Done,
    ensures
        ({
            let result = sync_step(repo, facts).action->result;
            let outcome = result.outcome;
            let branch = facts.status->0@.branch;
            &&& result.name == repo.name
            &&& result.path == repo.path
            &&& outcome == SyncOutcome::StatusFailed ==> result.branch is None
            &&& outcome == SyncOutcome::SkippedBranch ==> result.branch == Some(
                if branch is Some {
                    branch->0
                } else {
                    "unknown"@
                },
            )
            &&& outcome != SyncOutcome::StatusFailed && outcome != SyncOutcome::SkippedBranch
                ==> result.branch == branch
            &&& result.pull_output is Some <==> is_ready(facts) && (facts.pull matches Some(
                Ok(_),
            ))
            &&& result.pull_output is Some ==> result.pull_output->0
                == facts.pull->0->Ok_0.text@
            &&& result.build_output is Some <==> (outcome == SyncOutcome::Succeeded || outcome
                == SyncOutcome::BuildFailed) && (repo.build_command matches Some(command)
                && !text::is_blank(command)) && (facts.build matches Some(Ok(_)))
            &&& result.build_output is Some ==> result.build_output->0
                == facts.build->0->Ok_0.text@
        }),
{
}

/// What the message of a result says.
pub proof fn messages_say_what_happened(repo: config::RepoConfigView, facts: SyncFacts)
    requires
        sync_step(repo, facts).action is Done,
    ensures
        ({
            let message = sync_step(repo, facts).action->result.message;
            match sync_step(repo, facts).action->result.outcome {
                SyncOutcome::Succeeded => message == "sync completed"@,
                SyncOutcome::SkippedDirty => message
                    == "skipped: working tree has uncommitted changes"@,
                SyncOutcome::SkippedBranch => message == "skipped: current branch is '"@
                    + sync_step(repo, facts).action->result.branch->0 + "', not main/master"@,
                SyncOutcome::StatusFailed => message == if facts.lock == (LockState::Held {
                    abandoned: true,
                }) {
                    "aborted before the sync started"@
                } else {
                    "status check failed: "@ + facts.status->0@.error->0
                },
                SyncOutcome::PullFailed => message == match facts.pull->0 {
                    Err(cause) => "git pull did not run to completion: "@ + cause@,
                    Ok(output) => "git pull failed ("@ + git::exit_words(output.code) + ")"@,
                },
                SyncOutcome::BuildFailed => message == match facts.build->0 {
                    Err(cause) => "could not start build: "@ + cause@,
                    Ok(output) => "build failed ("@ + git::exit_words(output.code) + ")"@,
                },
            }
        }),
{
}

/// Only the end of the sync of a repository gives it a result, in its own place.
pub proof fn results_are_kept_in_their_places(
    slots: Seq<Option<SyncResultView>>,
    index: int,
    event: SyncEventView,
    other: int,
)
    requires
        0 <= index < slots.len(),
        0 <= other < slots.len(),
    ensures
        recorded(slots, index, event).len() == slots.len(),
        other != index ==> recorded(slots, index, event)[other] == slots[other],
        recorded(slots, index, event)[index] == match event {
            SyncEventView::Finished { worker: _, result } => Some(result),
            _ => slots[index],
        },
{
}

/// A sync has as many workers as it is asked for, but never more than there are
/// repositories, and one for any at all.
pub proof fn workers_are_as_many_as_asked(count: nat, concurrency: nat)
    ensures
        worker_count(count, concurrency) <= count,
        1 <= concurrency <= count ==> worker_count(count, concurrency) == concurrency,
        concurrency >= count ==> worker_count(count, concurrency) == count,
        count > 0 ==> worker_count(count, concurrency) >= 1,
        concurrency == 0 && count > 0 ==> worker_count(count, concurrency) == 1,
{
}

/// A sync begins with a place for the result of every repository, and nothing in
/// any of them.
pub proof fn every_repository_has_a_place(count: nat, i: int)
    requires
        0 <= i < count,
    ensures
        empty_places(count).len() == count,
        empty_places(count)[i] is None,
        present(empty_places(count)).len() == 0,
    decreases count,
{
    let places = empty_places(count);
    let fewer = empty_places((count - 1) as nat);
    if count > 1 {
        every_repository_has_a_place((count - 1) as nat, 0);
    } else {
        assert(present(fewer).len() == 0);
    }
    assert(places.drop_last() =~= fewer);
    assert(places.last() is None);
}

/// A result is seen whole, field by field, and a list of results one by one.
pub proof fn results_are_seen_whole(results: Seq<SyncResult>, i: int)
    requires
        0 <= i < results.len(),
    ensures
        result_views(results).len() == results.len(),
        ({
            let result = results[i];
            let seen = result_views(results)[i];
            &&& seen.name == result.name@
            &&& seen.path == result.path@
            &&& seen.outcome == result.outcome
            &&& seen.message == result.message@
            &&& match result.branch {
                Some(branch) => seen.branch == Some(branch@),
                None => seen.branch is None,
            }
            &&& match result.pull_output {
                Some(output) => seen.pull_output == Some(output@),
                None => seen.pull_output is None,
            }
            &&& match result.build_output {
                Some(output) => seen.build_output == Some(output@),
                None => seen.build_output is None,
            }
        }),
{
}

} // verus!
