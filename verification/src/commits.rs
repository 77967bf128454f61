//! The latest commit of a repository and of its remote, and how they relate.

use crate::config::{clone_option, RepoConfig};
use crate::git::{self, CommandReply, GitOutput, GitQuery, GitReply};
use crate::jobs::{self, JobQueue};
use crate::text;
use vstd::prelude::*;

verus! {

/// One commit: its id, when it was made in seconds since 1970, and that date as
/// it is shown.
#[derive(Debug)]
pub struct CommitInfo {
    pub sha: String,
    pub timestamp: i64,
    pub date: String,
}

/// What a `CommitInfo` holds.
#[verifier::ext_equal]
pub struct CommitInfoView {
    pub sha: Seq<char>,
    pub timestamp: int,
    pub date: Seq<char>,
}

impl View for CommitInfo {
    type V = CommitInfoView;

    open spec fn view(&self) -> CommitInfoView {
        CommitInfoView { sha: self.sha@, timestamp: self.timestamp as int, date: self.date@ }
    }
}

impl Clone for CommitInfo {
    fn clone(&self) -> (r: CommitInfo)
        ensures
            r == *self,
    {
        CommitInfo {
            sha: self.sha.clone(),
            timestamp: self.timestamp,
            date: self.date.clone(),
        }
    }
}

/// The latest commits of a repository and of its remote.
#[derive(Debug)]
pub struct RepoCommits {
    pub name: String,
    pub path: String,
    pub local: Option<CommitInfo>,
    pub remote: Option<CommitInfo>,
    pub difference: Option<String>,
    pub error: Option<String>,
}

/// What a `RepoCommits` holds.
#[verifier::ext_equal]
pub struct RepoCommitsView {
    pub name: Seq<char>,
    pub path: Seq<char>,
    pub local: Option<CommitInfoView>,
    pub remote: Option<CommitInfoView>,
    pub difference: Option<Seq<char>>,
    pub error: Option<Seq<char>>,
}

/// What an optional commit holds.
pub open spec fn commit_option(commit: Option<CommitInfo>) -> Option<CommitInfoView> {
    match commit {
        Some(commit) => Some(commit@),
        None => None,
    }
}

impl View for RepoCommits {
    type V = RepoCommitsView;

    open spec fn view(&self) -> RepoCommitsView {
        RepoCommitsView {
            name: self.name@,
            path: self.path@,
            local: commit_option(self.local),
            remote: commit_option(self.remote),
            difference: text::text_option(self.difference),
            error: text::text_option(self.error),
        }
    }
}

fn clone_commit(commit: &Option<CommitInfo>) -> (r: Option<CommitInfo>)
    ensures
        r == *commit,
{
    match commit {
        Some(commit) => Some(commit.clone()),
        None => None,
    }
}

impl Clone for RepoCommits {
    fn clone(&self) -> (r: RepoCommits)
        ensures
            r == *self,
    {
        RepoCommits {
            name: self.name.clone(),
            path: self.path.clone(),
            local: clone_commit(&self.local),
            remote: clone_commit(&self.remote),
            difference: clone_option(&self.difference),
            error: clone_option(&self.error),
        }
    }
}

/// Which of two commits contains the other.
#[derive(Debug, Clone, Copy, PartialEq, Eq, Structural)]
pub enum CommitRelation {
    Same,
    Behind,
    Ahead,
    Diverged,
}

/// The seconds of a day.
pub const DAY: u64 = 86_400;

/// The longest unit of which a span holds at least one: its length in seconds,
/// and its name.
pub open spec fn largest_unit(seconds: nat) -> (nat, Seq<char>)
    recommends
        seconds >= 60,
{
    if seconds >= 365 * DAY {
        ((365 * DAY) as nat, "year"@)
    } else if seconds >= 30 * DAY {
        ((30 * DAY) as nat, "month"@)
    } else if seconds >= 7 * DAY {
        ((7 * DAY) as nat, "week"@)
    } else if seconds >= DAY {
        (DAY as nat, "day"@)
    } else if seconds >= 3_600 {
        (3_600, "hour"@)
    } else {
        (60, "min"@)
    }
}

/// A span of time in words: how many whole ones of its longest unit it holds.
/// Minutes are not put in the plural.
pub open spec fn humanized(seconds: nat) -> Seq<char> {
    if seconds < 60 {
        "<1 min"@
    } else {
        let (length, unit) = largest_unit(seconds);
        let count = seconds / length;
        let plural = if count == 1 || length == 60 {
            ""@
        } else {
            "s"@
        };
        text::decimal(count) + " "@ + unit + plural
    }
}

/// Puts a span of time in words.
pub fn humanize_seconds(seconds: u64) -> (r: String)
    ensures
        r@ == humanized(seconds as nat),
{
    if seconds < 60 {
        return "<1 min".to_owned();
    }
    let (length, unit): (u64, &str) = if seconds >= 365 * DAY {
        (365 * DAY, "year")
    } else if seconds >= 30 * DAY {
        (30 * DAY, "month")
    } else if seconds >= 7 * DAY {
        (7 * DAY, "week")
    } else if seconds >= DAY {
        (DAY, "day")
    } else if seconds >= 3_600 {
        (3_600, "hour")
    } else {
        (60, "min")
    };
    let count: u64 = seconds / length;
    let plural = if count == 1 || length == 60 {
        ""
    } else {
        "s"
    };
    text::decimal_text(count).concat(" ").concat(unit).concat(plural)
}

/// How long two commits lie apart.
pub open spec fn gap(local: CommitInfoView, remote: CommitInfoView) -> nat {
    if remote.timestamp >= local.timestamp {
        (remote.timestamp - local.timestamp) as nat
    } else {
        (local.timestamp - remote.timestamp) as nat
    }
}

/// The difference between two commits in words. The ancestry decides which side
/// is ahead; the dates only supply the size of the gap.
pub open spec fn difference_words(
    local: CommitInfoView,
    remote: CommitInfoView,
    relation: CommitRelation,
) -> Seq<char> {
    let size = humanized(gap(local, remote));
    match relation {
        CommitRelation::Same => "up to date"@,
        CommitRelation::Behind => size + " behind"@,
        CommitRelation::Ahead => size + " ahead"@,
        CommitRelation::Diverged => "diverged by "@ + size,
    }
}

/// Puts the difference between two commits in words.
pub fn describe_difference(
    local: &CommitInfo,
    remote: &CommitInfo,
    relation: CommitRelation,
) -> (r: String)
    ensures
        r@ == difference_words(local@, remote@, relation),
{
    let apart: i128 = remote.timestamp as i128 - local.timestamp as i128;
    let seconds: u64 = if apart >= 0 {
        apart as u64
    } else {
        (-apart) as u64
    };
    let size = humanize_seconds(seconds);
    match relation {
        CommitRelation::Same => "up to date".to_owned(),
        CommitRelation::Behind => size.concat(" behind"),
        CommitRelation::Ahead => size.concat(" ahead"),
        CommitRelation::Diverged => "diverged by ".to_owned().concat(size.as_str()),
    }
}

/// The commit that a `git log` answered with, or why there is none.
pub open spec fn answered_commit(
    path: Seq<char>,
    reference: Seq<char>,
    reply: GitReply,
) -> Result<CommitInfoView, Seq<char>> {
    match reply {
        Err(cause) => Err(git::unrun_words(path, cause@)),
        Ok(output) => if !git::is_success(output.code) {
            Err(git::failure_words(output, "read commit "@ + reference))
        } else {
            let answer = text::lossy_utf8(output.stdout@);
            let lines = text::lines(answer);
            if lines.len() < 3 {
                Err("unexpected git log output for "@ + reference + ": "@ + answer)
            } else {
                match text::integer_value(lines[1]) {
                    Ok(timestamp) => Ok(
                        CommitInfoView { sha: lines[0], timestamp, date: lines[2] },
                    ),
                    Err(error) => Err(
                        "invalid commit timestamp '"@ + lines[1] + "': "@ + error.spoken(),
                    ),
                }
            }
        },
    }
}

/// Reads the commit that a `git log` of `reference` answered with.
pub fn read_commit(path: &str, reference: &str, reply: &GitReply) -> (r: Result<
    CommitInfo,
    String,
>)
    ensures
        match answered_commit(path@, reference@, *reply) {
            Ok(commit) => r is Ok && r->Ok_0@ == commit,
            Err(words) => r is Err && r->Err_0@ == words,
        },
        git::is_answer_read(*reply),
{
    let output = match reply {
        Ok(output) => output,
        Err(cause) => return Err(git::git_not_run(path, cause.as_str())),
    };
    let action = "read commit ".to_owned().concat(reference);
    match git::ensure_success(output, action.as_str()) {
        Ok(()) => {},
        Err(words) => return Err(words),
    }
    let answer = text::lossy_text(output.stdout.as_slice());
    let lines = text::lines_of(answer.as_str());
    let ghost all = text::texts(lines@);
    if lines.len() < 3 {
        return Err(
            "unexpected git log output for ".to_owned().concat(reference).concat(": ").concat(
                answer.as_str(),
            ),
        );
    }
    assert(all[0] == lines@[0]@ && all[1] == lines@[1]@ && all[2] == lines@[2]@);
    match text::parse_integer(lines[1].as_str()) {
        Ok(timestamp) => Ok(
            CommitInfo { sha: lines[0].clone(), timestamp, date: lines[2].clone() },
        ),
        Err(error) => Err(
            "invalid commit timestamp '".to_owned().concat(lines[1].as_str()).concat("': ").concat(
                error.message().as_str(),
            ),
        ),
    }
}

/// What `git merge-base --is-ancestor` answered. Only the exit code 1 means that
/// the one commit is not an ancestor of the other; any other failure says
/// nothing about them.
pub open spec fn answered_ancestry(
    path: Seq<char>,
    ancestor: Seq<char>,
    descendant: Seq<char>,
    reply: GitReply,
) -> Result<bool, Seq<char>> {
    match reply {
        Err(cause) => Err(git::unrun_words(path, cause@)),
        Ok(output) => if output.code == Some(0i32) {
            Ok(true)
        } else if output.code == Some(1i32) {
            Ok(false)
        } else {
            Err(
                "git could not compare "@ + ancestor + " with "@ + descendant + ": "@
                    + git::combined(output),
            )
        },
    }
}

/// Reads what `git merge-base --is-ancestor` answered.
pub fn is_ancestor(path: &str, ancestor: &str, descendant: &str, reply: &GitReply) -> (r: Result<
    bool,
    String,
>)
    ensures
        match answered_ancestry(path@, ancestor@, descendant@, *reply) {
            Ok(answer) => r == Ok::<bool, String>(answer),
            Err(words) => r is Err && r->Err_0@ == words,
        },
        reply is Ok && r is Err ==> git::is_output_read(reply->Ok_0),
{
    let output = match reply {
        Ok(output) => output,
        Err(cause) => return Err(git::git_not_run(path, cause.as_str())),
    };
    match output.code {
        Some(0) => Ok(true),
        Some(1) => Ok(false),
        _ => Err(
            "git could not compare ".to_owned().concat(ancestor).concat(" with ").concat(
                descendant,
            ).concat(": ").concat(git::combined_output(output).as_str()),
        ),
    }
}

/// How far the relation of two commits is known.
pub enum RelationStep {
    /// Ask git about their ancestry.
    Ask { query: GitQuery },
    Known { relation: CommitRelation },
    Failed { error: String },
}

/// What a `RelationStep` says.
#[verifier::ext_equal]
pub enum RelationStepView {
    Ask { query: git::GitQueryView },
    Known { relation: CommitRelation },
    Failed { error: Seq<char> },
}

impl View for RelationStep {
    type V = RelationStepView;

    open spec fn view(&self) -> RelationStepView {
        match *self {
            RelationStep::Ask { query } => RelationStepView::Ask { query: query@ },
            RelationStep::Known { relation } => RelationStepView::Known { relation },
            RelationStep::Failed { error } => RelationStepView::Failed { error: error@ },
        }
    }
}

/// How the commits `local` and `remote` relate, as far as git has answered:
/// `behind`, whether the local commit is an ancestor of the remote one, and
/// `ahead`, whether it is the other way round.
pub open spec fn relation_step(
    path: Seq<char>,
    local: Seq<char>,
    remote: Seq<char>,
    behind: Option<GitReply>,
    ahead: Option<GitReply>,
) -> RelationStepView {
    if local == remote {
        RelationStepView::Known { relation: CommitRelation::Same }
    } else {
        match behind {
            None => RelationStepView::Ask {
                query: git::GitQueryView::Ancestry { ancestor: local, descendant: remote },
            },
            Some(reply) => match answered_ancestry(path, local, remote, reply) {
                Err(error) => RelationStepView::Failed { error },
                Ok(true) => RelationStepView::Known { relation: CommitRelation::Behind },
                Ok(false) => match ahead {
                    None => RelationStepView::Ask {
                        query: git::GitQueryView::Ancestry { ancestor: remote, descendant: local },
                    },
                    Some(reply) => match answered_ancestry(path, remote, local, reply) {
                        Err(error) => RelationStepView::Failed { error },
                        Ok(true) => RelationStepView::Known { relation: CommitRelation::Ahead },
                        Ok(false) => RelationStepView::Known {
                            relation: CommitRelation::Diverged,
                        },
                    },
                },
            },
        }
    }
}

/// How two commits relate, or what has to be asked of git to know it.
pub fn commit_relation(
    path: &str,
    local: &CommitInfo,
    remote: &CommitInfo,
    behind: &Option<GitReply>,
    ahead: &Option<GitReply>,
) -> (r: RelationStep)
    ensures
        r@ == relation_step(path@, local.sha@, remote.sha@, *behind, *ahead),
{
    if local.sha == remote.sha {
        return RelationStep::Known { relation: CommitRelation::Same };
    }
    let is_behind = match behind {
        None => return RelationStep::Ask {
            query: GitQuery::Ancestry {
                ancestor: local.sha.clone(),
                descendant: remote.sha.clone(),
            },
        },
        Some(reply) => match is_ancestor(path, local.sha.as_str(), remote.sha.as_str(), reply) {
            Ok(answer) => answer,
            Err(error) => return RelationStep::Failed { error },
        },
    };
    if is_behind {
        return RelationStep::Known { relation: CommitRelation::Behind };
    }
    let is_ahead = match ahead {
        None => return RelationStep::Ask {
            query: GitQuery::Ancestry {
                ancestor: remote.sha.clone(),
                descendant: local.sha.clone(),
            },
        },
        Some(reply) => match is_ancestor(path, remote.sha.as_str(), local.sha.as_str(), reply) {
            Ok(answer) => answer,
            Err(error) => return RelationStep::Failed { error },
        },
    };
    if is_ahead {
        RelationStep::Known { relation: CommitRelation::Ahead }
    } else {
        RelationStep::Known { relation: CommitRelation::Diverged }
    }
}

/// What the inspection of a repository's commits has found out so far.
pub struct CommitFacts {
    /// Whether the path is a directory.
    pub is_dir: bool,
    /// Whether the inspection holds the repository's lock.
    pub held: bool,
    /// What git answered about `HEAD`.
    pub local: Option<GitReply>,
    /// What came of the fetch.
    pub fetch: Option<CommandReply>,
    /// What git answered about `FETCH_HEAD`.
    pub remote: Option<GitReply>,
    /// Whether the local commit is an ancestor of the remote one.
    pub behind: Option<GitReply>,
    /// Whether the remote commit is an ancestor of the local one.
    pub ahead: Option<GitReply>,
}

/// What the inspection of a repository's commits does next.
pub enum CommitStep {
    /// Ask git, and add its answer to the facts.
    Ask { query: GitQuery },
    /// Wait for the repository's lock, and hold it.
    TakeLock,
    /// Fetch from the remote.
    Fetch,
    /// Let the repository's lock go.
    ReleaseLock,
    Done { commits: RepoCommits },
}

/// What a `CommitStep` says.
#[verifier::ext_equal]
pub enum CommitStepView {
    Ask { query: git::GitQueryView },
    TakeLock,
    Fetch,
    ReleaseLock,
    Done { commits: RepoCommitsView },
}

impl View for CommitStep {
    type V = CommitStepView;

    open spec fn view(&self) -> CommitStepView {
        match *self {
            CommitStep::Ask { query } => CommitStepView::Ask { query: query@ },
            CommitStep::TakeLock => CommitStepView::TakeLock,
            CommitStep::Fetch => CommitStepView::Fetch,
            CommitStep::ReleaseLock => CommitStepView::ReleaseLock,
            CommitStep::Done { commits } => CommitStepView::Done { commits: commits@ },
        }
    }
}

/// The end of an inspection of commits.
pub open spec fn commits_done(
    name: Seq<char>,
    path: Seq<char>,
    local: Option<CommitInfoView>,
    remote: Option<CommitInfoView>,
    difference: Option<Seq<char>>,
    error: Option<Seq<char>>,
) -> CommitStepView {
    CommitStepView::Done {
        commits: RepoCommitsView { name, path, local, remote, difference, error },
    }
}

/// Whether the lock is needed: from the fetch, once the local commit is known,
/// until `FETCH_HEAD` has been read back or the fetch has failed.
pub open spec fn wants_lock(path: Seq<char>, facts: CommitFacts) -> bool {
    &&& facts.is_dir
    &&& facts.local is Some
    &&& answered_commit(path, "HEAD"@, facts.local->0) is Ok
    &&& match facts.fetch {
        None => true,
        Some(reply) => git::fetch_failure(path, reply) is None && facts.remote is None,
    }
}

/// The step that follows from the facts. The lock is let go as soon as it is not
/// needed any more.
pub open spec fn commit_step(name: Seq<char>, path: Seq<char>, facts: CommitFacts) -> CommitStepView {
    if facts.held && !wants_lock(path, facts) {
        CommitStepView::ReleaseLock
    } else if !facts.is_dir {
        commits_done(name, path, None, None, None, Some("directory does not exist: "@ + path))
    } else if facts.local is None {
        CommitStepView::Ask { query: git::GitQueryView::Commit { reference: "HEAD"@ } }
    } else {
        match answered_commit(path, "HEAD"@, facts.local->0) {
            Err(words) => commits_done(name, path, None, None, None, Some(words)),
            Ok(local) => fetched_step(name, path, local, facts),
        }
    }
}

/// The step that follows once git has answered about the local commit.
pub open spec fn fetched_step(
    name: Seq<char>,
    path: Seq<char>,
    local: CommitInfoView,
    facts: CommitFacts,
) -> CommitStepView {
    if wants_lock(path, facts) && !facts.held {
        CommitStepView::TakeLock
    } else if facts.fetch is None {
        CommitStepView::Fetch
    } else {
        match git::fetch_failure(path, facts.fetch->0) {
            Some(words) => commits_done(name, path, Some(local), None, None, Some(words)),
            None => if facts.remote is None {
                CommitStepView::Ask {
                    query: git::GitQueryView::Commit { reference: "FETCH_HEAD"@ },
                }
            } else {
                remote_step(name, path, local, facts)
            },
        }
    }
}

/// The step that follows once git has answered about both commits.
pub open spec fn remote_step(
    name: Seq<char>,
    path: Seq<char>,
    local: CommitInfoView,
    facts: CommitFacts,
) -> CommitStepView {
    match answered_commit(path, "FETCH_HEAD"@, facts.remote->0) {
        Err(words) => commits_done(name, path, Some(local), None, None, Some(words)),
        Ok(remote) => match relation_step(path, local.sha, remote.sha, facts.behind, facts.ahead) {
            RelationStepView::Ask { query } => CommitStepView::Ask { query },
            RelationStepView::Known { relation } => commits_done(
                name,
                path,
                Some(local),
                Some(remote),
                Some(difference_words(local, remote, relation)),
                None,
            ),
            RelationStepView::Failed { error } => commits_done(
                name,
                path,
                Some(local),
                Some(remote),
                None,
                Some(error),
            ),
        },
    }
}

fn finished(
    repo: &RepoConfig,
    local: Option<CommitInfo>,
    remote: Option<CommitInfo>,
    difference: Option<String>,
    error: Option<String>,
) -> (r: CommitStep)
    ensures
        r@ == commits_done(
            repo.name@,
            repo.path@,
            commit_option(local),
            commit_option(remote),
            text::text_option(difference),
            text::text_option(error),
        ),
{
    CommitStep::Done {
        commits: RepoCommits {
            name: repo.name.clone(),
            path: repo.path.clone(),
            local,
            remote,
            difference,
            error,
        },
    }
}

fn lock_wanted(path: &str, facts: &CommitFacts) -> (r: bool)
    ensures
        r == wants_lock(path@, *facts),
        facts.is_dir && facts.local is Some ==> git::is_answer_read(facts.local->0),
{
    if !facts.is_dir {
        return false;
    }
    match &facts.local {
        None => return false,
        Some(reply) => match read_commit(path, "HEAD", reply) {
            Ok(_) => {},
            Err(_) => return false,
        },
    }
    match &facts.fetch {
        None => true,
        Some(reply) => match git::fetch_remote_head(path, reply) {
            Ok(()) => facts.remote.is_none(),
            Err(_) => false,
        },
    }
}

/// Inspects the commits of a repository: reads the local one, fetches under the
/// repository's lock, reads the remote one back before the lock is let go, and
/// asks how they relate. Each answer is added to the facts before the next step.
pub fn inspect_commits(repo: &RepoConfig, facts: &CommitFacts) -> (r: CommitStep)
    ensures
        r@ == commit_step(repo.name@, repo.path@, *facts),
        facts.is_dir && facts.local is Some ==> git::is_answer_read(facts.local->0),
        r is Done && r@->commits.remote is Some ==> git::is_answer_read(facts.remote->0),
{
    let path = repo.path.as_str();
    let wanted = lock_wanted(path, facts);
    if facts.held && !wanted {
        return CommitStep::ReleaseLock;
    }
    if !facts.is_dir {
        let error = "directory does not exist: ".to_owned().concat(path);
        return finished(repo, None, None, None, Some(error));
    }
    let local = match &facts.local {
        None => return CommitStep::Ask {
            query: GitQuery::Commit { reference: "HEAD".to_owned() },
        },
        Some(reply) => match read_commit(path, "HEAD", reply) {
            Ok(local) => local,
            Err(error) => return finished(repo, None, None, None, Some(error)),
        },
    };
    if wanted && !facts.held {
        return CommitStep::TakeLock;
    }
    match &facts.fetch {
        None => return CommitStep::Fetch,
        Some(reply) => match git::fetch_remote_head(path, reply) {
            Ok(()) => {},
            Err(error) => return finished(repo, Some(local), None, None, Some(error)),
        },
    }
    let remote = match &facts.remote {
        None => return CommitStep::Ask {
            query: GitQuery::Commit { reference: "FETCH_HEAD".to_owned() },
        },
        Some(reply) => match read_commit(path, "FETCH_HEAD", reply) {
            Ok(remote) => remote,
            Err(error) => return finished(repo, Some(local), None, None, Some(error)),
        },
    };
    match commit_relation(path, &local, &remote, &facts.behind, &facts.ahead) {
        RelationStep::Ask { query } => CommitStep::Ask { query },
        RelationStep::Known { relation } => {
            let difference = describe_difference(&local, &remote, relation);
            finished(repo, Some(local), Some(remote), Some(difference), None)
        },
        RelationStep::Failed { error } => finished(
            repo,
            Some(local),
            Some(remote),
            None,
            Some(error),
        ),
    }
}

impl CommitFacts {
    /// Nothing found out yet, but whether the path is a directory.
    pub open spec fn unasked(is_dir: bool) -> CommitFacts {
        CommitFacts {
            is_dir,
            held: false,
            local: None,
            fetch: None,
            remote: None,
            behind: None,
            ahead: None,
        }
    }

    /// Nothing found out yet, but whether the path is a directory.
    pub fn new(is_dir: bool) -> (r: CommitFacts)
        ensures
            r == Self::unasked(is_dir),
    {
        CommitFacts {
            is_dir,
            held: false,
            local: None,
            fetch: None,
            remote: None,
            behind: None,
            ahead: None,
        }
    }

    /// The facts with the answer to a query: of the two commits the local one is
    /// asked about first, and of the two ancestries whether it is behind.
    pub open spec fn with_answer(self, query: git::GitQueryView, reply: GitReply) -> CommitFacts {
        match query {
            git::GitQueryView::Commit { .. } => if self.local is None {
                CommitFacts { local: Some(reply), ..self }
            } else {
                CommitFacts { remote: Some(reply), ..self }
            },
            git::GitQueryView::Ancestry { .. } => if self.behind is None {
                CommitFacts { behind: Some(reply), ..self }
            } else {
                CommitFacts { ahead: Some(reply), ..self }
            },
            _ => self,
        }
    }

    /// Adds git's answer to a query to the facts.
    pub fn add_answer(&mut self, query: &GitQuery, reply: GitReply)
        ensures
            *final(self) == old(self).with_answer(query@, reply),
    {
        match query {
            GitQuery::Commit { reference: _ } => if self.local.is_none() {
                self.local = Some(reply);
            } else {
                self.remote = Some(reply);
            },
            GitQuery::Ancestry { ancestor: _, descendant: _ } => if self.behind.is_none() {
                self.behind = Some(reply);
            } else {
                self.ahead = Some(reply);
            },
            _ => {},
        }
    }

    /// How many of the facts are not known.
    pub open spec fn unknown(self) -> nat {
        (if self.local is None {
            1nat
        } else {
            0
        }) + (if self.fetch is None {
            1nat
        } else {
            0
        }) + (if self.remote is None {
            1nat
        } else {
            0
        }) + (if self.behind is None {
            1nat
        } else {
            0
        }) + (if self.ahead is None {
            1nat
        } else {
            0
        })
    }
}

/// How far an inspection of commits is from its end: each fact that is not known
/// counts for two, and a lock that is to be taken or let go for one.
pub open spec fn steps_left(path: Seq<char>, facts: CommitFacts) -> nat {
    2 * facts.unknown() + if facts.held == wants_lock(path, facts) {
        0nat
    } else {
        1
    }
}

/// An inspection of commits comes to its end: each of its steps but the last
/// brings it nearer.
pub proof fn commit_inspections_end(
    name: Seq<char>,
    path: Seq<char>,
    facts: CommitFacts,
    reply: GitReply,
    fetched: CommandReply,
)
    ensures
        facts.unknown() <= 5,
        match commit_step(name, path, facts) {
            CommitStepView::Ask { query } => steps_left(path, facts.with_answer(query, reply))
                < steps_left(path, facts),
            CommitStepView::TakeLock => steps_left(path, CommitFacts { held: true, ..facts })
                < steps_left(path, facts),
            CommitStepView::Fetch => steps_left(
                path,
                CommitFacts { fetch: Some(fetched), ..facts },
            ) < steps_left(path, facts),
            CommitStepView::ReleaseLock => steps_left(path, CommitFacts { held: false, ..facts })
                < steps_left(path, facts),
            CommitStepView::Done { .. } => true,
        },
{
}

/// A fetch is asked for only while the repository's lock is held, and so is the
/// read of `FETCH_HEAD` that follows it: nothing else fetches in between. The
/// lock is taken only where it is not held, let go before anything else is asked
/// for, and not held at the end.
pub proof fn fetches_are_read_back_under_the_lock(
    name: Seq<char>,
    path: Seq<char>,
    facts: CommitFacts,
)
    ensures
        match commit_step(name, path, facts) {
            CommitStepView::Fetch => facts.held && facts.fetch is None,
            CommitStepView::Ask { query } => if query == (git::GitQueryView::Commit {
                reference: "FETCH_HEAD"@,
            }) {
                facts.held && facts.fetch is Some && facts.remote is None
            } else {
                !facts.held
            },
            CommitStepView::TakeLock => !facts.held,
            CommitStepView::ReleaseLock => facts.held && !wants_lock(path, facts),
            CommitStepView::Done { .. } => !facts.held,
        },
{
    reveal_strlit("HEAD");
    reveal_strlit("FETCH_HEAD");
    assert("HEAD"@.len() != "FETCH_HEAD"@.len());
}

/// Once a fetch has gone well under the lock, the very next step reads
/// `FETCH_HEAD` back.
pub proof fn a_fetch_is_followed_by_its_reading(
    name: Seq<char>,
    path: Seq<char>,
    facts: CommitFacts,
    fetched: CommandReply,
)
    requires
        commit_step(name, path, facts) is Fetch,
        git::fetch_failure(path, fetched) is None,
        facts.remote is None,
    ensures
        commit_step(name, path, CommitFacts { fetch: Some(fetched), ..facts }) == (
        CommitStepView::Ask { query: git::GitQueryView::Commit { reference: "FETCH_HEAD"@ } }),
{
}

/// Two commits count as diverged only when git has said of each that it is not
/// an ancestor of the other; an ancestry that could not be read is an error.
pub proof fn an_unreadable_ancestry_is_no_divergence(
    path: Seq<char>,
    local: Seq<char>,
    remote: Seq<char>,
    behind: Option<GitReply>,
    ahead: Option<GitReply>,
)
    ensures
        relation_step(path, local, remote, behind, ahead) == (RelationStepView::Known {
            relation: CommitRelation::Diverged,
        }) <==> local != remote && (behind matches Some(Ok(first)) && first.code == Some(1i32)) && (
        ahead matches Some(Ok(second)) && second.code == Some(1i32)),
        local != remote && (behind matches Some(reply) && (reply is Err || reply->Ok_0.code != Some(
            0i32,
        ) && reply->Ok_0.code != Some(1i32))) ==> relation_step(path, local, remote, behind, ahead)
            is Failed,
{
}

/// A commit is up to date with itself, and git is asked nothing to know it.
pub proof fn a_commit_is_up_to_date_with_itself(
    path: Seq<char>,
    commit: CommitInfoView,
    behind: Option<GitReply>,
    ahead: Option<GitReply>,
)
    ensures
        relation_step(path, commit.sha, commit.sha, behind, ahead) == (RelationStepView::Known {
            relation: CommitRelation::Same,
        }),
        difference_words(commit, commit, CommitRelation::Same) == "up to date"@,
{
}

/// The dates of two commits tell only how far they lie apart: exchanging them
/// changes nothing about which of the two is ahead.
pub proof fn dates_only_size_the_gap(
    local: CommitInfoView,
    remote: CommitInfoView,
    relation: CommitRelation,
)
    ensures
        gap(local, remote) == gap(remote, local),
        difference_words(local, remote, relation) == difference_words(
            CommitInfoView { timestamp: remote.timestamp, ..local },
            CommitInfoView { timestamp: local.timestamp, ..remote },
            relation,
        ),
{
}

/// An inspection that is done tells either the difference, and then both
/// commits, or an error.
pub proof fn done_inspections_tell_a_difference_or_an_error(
    name: Seq<char>,
    path: Seq<char>,
    facts: CommitFacts,
)
    requires
        commit_step(name, path, facts) is Done,
    ensures
        ({
            let commits = commit_step(name, path, facts)->commits;
            &&& commits.name == name
            &&& commits.path == path
            &&& commits.difference is Some <==> commits.error is None
            &&& commits.difference is Some ==> commits.local is Some && commits.remote is Some
            &&& commits.remote is Some ==> commits.local is Some
        }),
{
}

/// A span of a minute or more is told in its longest unit: at least one whole
/// one, as many as fit, and less than one of any longer unit.
pub proof fn spans_are_told_in_their_longest_unit(seconds: nat)
    requires
        seconds >= 60,
    ensures
        ({
            let (length, unit) = largest_unit(seconds);
            let count = seconds / length;
            &&& count >= 1
            &&& count * length <= seconds < (count + 1) * length
            &&& text::decimal(count).is_prefix_of(humanized(seconds))
            &&& length == 60 ==> count < 60
            &&& length == 3_600 ==> count < 24
            &&& length == DAY ==> count < 7
            &&& length == 7 * DAY ==> count <= 4
            &&& length == 30 * DAY ==> count <= 12
        }),
{
    let (length, unit) = largest_unit(seconds);
    let count = seconds / length;
    vstd::arithmetic::div_mod::lemma_fundamental_div_mod(seconds as int, length as int);
    assert(length * count == count * length) by (nonlinear_arith);
    assert((count + 1) * length == count * length + length) by (nonlinear_arith);
    assert(count >= 1) by {
        if count == 0 {
            assert(length * 0 == 0);
        }
    }
    if length == DAY {
        assert(count * 86_400 <= seconds < 604_800);
    } else if length == 7 * DAY {
        assert(count * 604_800 <= seconds < 2_592_000);
    } else if length == 30 * DAY {
        assert(count * 2_592_000 <= seconds < 31_536_000);
    }
    let number = text::decimal(count);
    assert(humanized(seconds).subrange(0, number.len() as int) == number);
}

/// How many commits are inspected at once.
pub const MAX_COMMIT_WORKERS: usize = 8;

/// How many workers share the inspection of `count` repositories.
pub open spec fn inspection_workers(count: nat) -> nat {
    jobs::smaller(count, MAX_COMMIT_WORKERS as nat)
}

/// Shares the inspection of `count` repositories out among a bounded set of
/// workers.
pub fn inspect_commits_parallel(count: usize) -> (r: JobQueue)
    ensures
        r.workers == inspection_workers(count as nat),
        r.count == count,
        r.next == 0,
        r.is_sound(),
{
    JobQueue::new(count, MAX_COMMIT_WORKERS)
}

/// The gap between two commits is the difference of their timestamps, to the
/// second, without its sign.
pub proof fn gaps_are_counted_to_the_second(local: CommitInfoView, remote: CommitInfoView)
    ensures
        gap(local, remote) == remote.timestamp - local.timestamp || gap(local, remote)
            == local.timestamp - remote.timestamp,
        local.timestamp + gap(local, remote) == remote.timestamp || remote.timestamp + gap(
            local,
            remote,
        ) == local.timestamp,
{
}

/// A span in words: less than a minute is told as such; minutes, hours, days,
/// weeks of seven days, months of thirty and years of three hundred and
/// sixty-five are counted whole, and put in the plural but for one of them and
/// for minutes.
pub proof fn spans_are_counted_whole(seconds: nat)
    ensures
        seconds < 60 ==> humanized(seconds) == "<1 min"@,
        60 <= seconds < 3_600 ==> humanized(seconds) == text::decimal(seconds / 60) + " min"@,
        3_600 <= seconds < 7_200 ==> humanized(seconds) == "1 hour"@,
        7_200 <= seconds < 86_400 ==> humanized(seconds) == text::decimal(seconds / 3_600)
            + " hours"@,
        86_400 <= seconds < 172_800 ==> humanized(seconds) == "1 day"@,
        172_800 <= seconds < 604_800 ==> humanized(seconds) == text::decimal(seconds / 86_400)
            + " days"@,
        604_800 <= seconds < 1_209_600 ==> humanized(seconds) == "1 week"@,
        1_209_600 <= seconds < 2_592_000 ==> humanized(seconds) == text::decimal(seconds / 604_800)
            + " weeks"@,
        2_592_000 <= seconds < 5_184_000 ==> humanized(seconds) == "1 month"@,
        5_184_000 <= seconds < 31_536_000 ==> humanized(seconds) == text::decimal(
            seconds / 2_592_000,
        ) + " months"@,
        31_536_000 <= seconds < 63_072_000 ==> humanized(seconds) == "1 year"@,
        63_072_000 <= seconds ==> humanized(seconds) == text::decimal(seconds / 31_536_000)
            + " years"@,
{
    reveal_strlit("");
    reveal_strlit(" ");
    reveal_strlit("s");
    reveal_strlit("min");
    reveal_strlit("hour");
    reveal_strlit("day");
    reveal_strlit("week");
    reveal_strlit("month");
    reveal_strlit("year");
    reveal_strlit(" min");
    reveal_strlit("1 hour");
    reveal_strlit(" hours");
    reveal_strlit("1 day");
    reveal_strlit(" days");
    reveal_strlit("1 week");
    reveal_strlit(" weeks");
    reveal_strlit("1 month");
    reveal_strlit(" months");
    reveal_strlit("1 year");
    reveal_strlit(" years");
    assert(text::decimal(1) == seq!['1']);
    if seconds >= 60 {
        let (length, unit) = largest_unit(seconds);
        let count = seconds / length;
        let number = text::decimal(count);
        if length == 60 {
            assert(humanized(seconds) =~= number + " min"@);
        } else if length == 3_600 {
            assert(humanized(seconds) =~= number + (if count == 1 {
                seq![' ', 'h', 'o', 'u', 'r']
            } else {
                " hours"@
            }));
            assert("1 hour"@ =~= seq!['1'] + seq![' ', 'h', 'o', 'u', 'r']);
        } else if length == 86_400 {
            assert(humanized(seconds) =~= number + (if count == 1 {
                seq![' ', 'd', 'a', 'y']
            } else {
                " days"@
            }));
            assert("1 day"@ =~= seq!['1'] + seq![' ', 'd', 'a', 'y']);
        } else if length == 604_800 {
            assert(humanized(seconds) =~= number + (if count == 1 {
                seq![' ', 'w', 'e', 'e', 'k']
            } else {
                " weeks"@
            }));
            assert("1 week"@ =~= seq!['1'] + seq![' ', 'w', 'e', 'e', 'k']);
        } else if length == 2_592_000 {
            assert(humanized(seconds) =~= number + (if count == 1 {
                seq![' ', 'm', 'o', 'n', 't', 'h']
            } else {
                " months"@
            }));
            assert("1 month"@ =~= seq!['1'] + seq![' ', 'm', 'o', 'n', 't', 'h']);
        } else {
            assert(humanized(seconds) =~= number + (if count == 1 {
                seq![' ', 'y', 'e', 'a', 'r']
            } else {
                " years"@
            }));
            assert("1 year"@ =~= seq!['1'] + seq![' ', 'y', 'e', 'a', 'r']);
        }
    }
}

/// The difference of two commits says how large the gap is, and on which side it
/// is; one commit is up to date with itself however it is dated.
pub proof fn differences_say_the_gap_and_the_side(
    local: CommitInfoView,
    remote: CommitInfoView,
    seconds: nat,
)
    requires
        local.timestamp + seconds == remote.timestamp || remote.timestamp + seconds
            == local.timestamp,
    ensures
        difference_words(local, remote, CommitRelation::Same) == "up to date"@,
        difference_words(local, remote, CommitRelation::Behind) == humanized(seconds) + " behind"@,
        difference_words(local, remote, CommitRelation::Ahead) == humanized(seconds) + " ahead"@,
        difference_words(local, remote, CommitRelation::Diverged) == "diverged by "@ + humanized(
            seconds,
        ),
{
}

/// A commit is read from the first three lines of what git printed: its id, its
/// time in seconds, and its date.
pub proof fn commits_are_read_from_three_lines(
    path: Seq<char>,
    reference: Seq<char>,
    output: GitOutput,
    sha: Seq<char>,
    timestamp: int,
    date: Seq<char>,
    rest: Seq<char>,
)
    requires
        output.code == Some(0i32),
        forall|i: int| 0 <= i < sha.len() ==> #[trigger] sha[i] != '\n' && sha[i] != '\r',
        forall|i: int| 0 <= i < date.len() ==> #[trigger] date[i] != '\n' && date[i] != '\r',
        i64::MIN <= timestamp <= i64::MAX,
        text::lossy_utf8(output.stdout@) == sha + seq!['\n'] + (text::signed_decimal(timestamp)
            + seq!['\n'] + (date + seq!['\n'] + rest)),
    ensures
        answered_commit(path, reference, Ok(output)) == Ok::<CommitInfoView, Seq<char>>(
            CommitInfoView { sha, timestamp, date },
        ),
{
    let number = text::signed_decimal(timestamp);
    let size = if timestamp < 0 {
        (-timestamp) as nat
    } else {
        timestamp as nat
    };
    text::numbers_are_written_digit_by_digit(size);
    text::numbers_are_read_back(timestamp);
    assert forall|i: int| 0 <= i < number.len() implies #[trigger] number[i] != '\n' && number[i]
        != '\r' by {
        let digits = text::decimal(size);
        if timestamp < 0 && i > 0 {
            assert(number[i] == digits[i - 1]);
        } else if timestamp >= 0 {
            assert(number[i] == digits[i]);
        }
    }
    let last = date + seq!['\n'] + rest;
    let middle = number + seq!['\n'] + last;
    text::lines_are_read_one_by_one(sha, middle);
    text::lines_are_read_one_by_one(number, last);
    text::lines_are_read_one_by_one(date, rest);
    let lines = text::lines(sha + seq!['\n'] + middle);
    assert(lines[0] == sha);
    assert(lines[1] == text::lines(middle)[0]);
    assert(lines[2] == text::lines(middle)[1]);
    assert(text::lines(middle)[1] == text::lines(last)[0]);
}

/// A commit is read just when git succeeded and printed three lines with a number
/// in the second; otherwise it is said why there is none.
pub proof fn commits_are_read_or_said_to_be_missing(
    path: Seq<char>,
    reference: Seq<char>,
    reply: GitReply,
)
    ensures
        answered_commit(path, reference, reply) is Ok <==> (reply matches Ok(output) && output.code
            == Some(0i32) && text::lines(text::lossy_utf8(output.stdout@)).len() >= 3
            && text::integer_value(text::lines(text::lossy_utf8(output.stdout@))[1]) is Ok),
        answered_commit(path, reference, reply) matches Ok(commit) ==> ({
            let lines = text::lines(text::lossy_utf8(reply->Ok_0.stdout@));
            &&& commit.sha == lines[0]
            &&& text::integer_value(lines[1]) == Ok::<int, text::IntegerError>(commit.timestamp)
            &&& commit.date == lines[2]
        }),
        reply matches Err(cause) ==> answered_commit(path, reference, reply) == Err::<
            CommitInfoView,
            Seq<char>,
        >("failed to run git in "@ + path + ": "@ + cause@),
        reply matches Ok(output) && output.code != Some(0i32) ==> answered_commit(
            path,
            reference,
            reply,
        ) == Err::<CommitInfoView, Seq<char>>(
            "git could not "@ + ("read commit "@ + reference) + ": "@ + git::combined(reply->Ok_0),
        ),
        reply matches Ok(output) && output.code == Some(0i32) && text::lines(
            text::lossy_utf8(output.stdout@),
        ).len() < 3 ==> answered_commit(path, reference, reply) == Err::<
            CommitInfoView,
            Seq<char>,
        >(
            "unexpected git log output for "@ + reference + ": "@ + text::lossy_utf8(
                reply->Ok_0.stdout@,
            ),
        ),
{
}

/// Git answers about the ancestry of two commits with the code 0 for yes and the
/// code 1 for no; anything else is no answer.
pub proof fn ancestries_are_answered_by_zero_and_one(
    path: Seq<char>,
    ancestor: Seq<char>,
    descendant: Seq<char>,
    reply: GitReply,
)
    ensures
        answered_ancestry(path, ancestor, descendant, reply) == Ok::<bool, Seq<char>>(true) <==> (
        reply matches Ok(output) && output.code == Some(0i32)),
        answered_ancestry(path, ancestor, descendant, reply) == Ok::<bool, Seq<char>>(false) <==> (
        reply matches Ok(output) && output.code == Some(1i32)),
        reply matches Err(cause) ==> answered_ancestry(path, ancestor, descendant, reply) == Err::<
            bool,
            Seq<char>,
        >("failed to run git in "@ + path + ": "@ + cause@),
        reply matches Ok(output) && output.code != Some(0i32) && output.code != Some(1i32)
            ==> answered_ancestry(path, ancestor, descendant, reply) == Err::<bool, Seq<char>>(
            "git could not compare "@ + ancestor + " with "@ + descendant + ": "@ + git::combined(
                reply->Ok_0,
            ),
        ),
{
}

/// Which commit contains the other: the local one is behind where the remote one
/// descends from it, ahead where it descends from the remote one. Git is asked
/// first whether the local commit is an ancestor of the remote one, and then the
/// other way round.
pub proof fn the_ancestry_decides_the_relation(
    path: Seq<char>,
    local: Seq<char>,
    remote: Seq<char>,
    behind: Option<GitReply>,
    ahead: Option<GitReply>,
)
    ensures
        ({
            let step = relation_step(path, local, remote, behind, ahead);
            let no_descendant = behind matches Some(Ok(first)) && first.code == Some(1i32);
            &&& step == (RelationStepView::Known { relation: CommitRelation::Same }) <==> local
                == remote
            &&& step == (RelationStepView::Known { relation: CommitRelation::Behind }) <==> local
                != remote && (behind matches Some(Ok(first)) && first.code == Some(0i32))
            &&& step == (RelationStepView::Known { relation: CommitRelation::Ahead }) <==> local
                != remote && no_descendant && (ahead matches Some(Ok(second)) && second.code
                == Some(0i32))
            &&& local != remote && behind is None ==> step == (RelationStepView::Ask {
                query: git::GitQueryView::Ancestry { ancestor: local, descendant: remote },
            })
            &&& local != remote && no_descendant && ahead is None ==> step == (
            RelationStepView::Ask {
                query: git::GitQueryView::Ancestry { ancestor: remote, descendant: local },
            })
            &&& local != remote && no_descendant && (ahead matches Some(reply) && (reply is Err
                || reply->Ok_0.code != Some(0i32) && reply->Ok_0.code != Some(1i32))) ==> step
                is Failed
        }),
{
}

/// What the inspection of commits does, as far as it has come: it reads the local
/// commit, takes the lock and fetches, and reads the remote commit back.
pub proof fn commits_are_inspected_in_order(name: Seq<char>, path: Seq<char>, facts: CommitFacts)
    requires
        facts.is_dir,
    ensures
        ({
            let step = commit_step(name, path, facts);
            let local = facts.local matches Some(reply) && answered_commit(path, "HEAD"@, reply)
                is Ok;
            let fetched = facts.fetch matches Some(Ok(output)) && output.code == Some(0i32);
            &&& facts.local is None && !facts.held ==> step == (CommitStepView::Ask {
                query: git::GitQueryView::Commit { reference: "HEAD"@ },
            })
            &&& local && facts.fetch is None ==> step == if facts.held {
                CommitStepView::Fetch
            } else {
                CommitStepView::TakeLock
            }
            &&& local && fetched && facts.remote is None ==> step == if facts.held {
                CommitStepView::Ask {
                    query: git::GitQueryView::Commit { reference: "FETCH_HEAD"@ },
                }
            } else {
                CommitStepView::TakeLock
            }
            &&& local && fetched && facts.remote is Some && facts.held ==> step
                == CommitStepView::ReleaseLock
            &&& local && facts.fetch is Some && !fetched && facts.held ==> step
                == CommitStepView::ReleaseLock
        }),
{
}

/// What an inspection of commits ends with: the commits that could be read, and
/// the difference of the two by their relation, or the error that stood in the
/// way.
pub proof fn inspections_end_with_what_was_read(
    name: Seq<char>,
    path: Seq<char>,
    facts: CommitFacts,
    local: CommitInfoView,
    remote: CommitInfoView,
)
    requires
        !facts.held,
    ensures
        ({
            let step = commit_step(name, path, facts);
            let has_local = facts.is_dir && (facts.local matches Some(reply) && answered_commit(
                path,
                "HEAD"@,
                reply,
            ) == Ok::<CommitInfoView, Seq<char>>(local));
            let fetched = facts.fetch matches Some(Ok(output)) && output.code == Some(0i32);
            let has_remote = facts.remote matches Some(reply) && answered_commit(
                path,
                "FETCH_HEAD"@,
                reply,
            ) == Ok::<CommitInfoView, Seq<char>>(remote);
            &&& !facts.is_dir ==> step == commits_told(
                name,
                path,
                None,
                None,
                Err("directory does not exist: "@ + path),
            )
            &&& facts.is_dir && (facts.local matches Some(reply) && answered_commit(
                path,
                "HEAD"@,
                reply,
            ) matches Err(words)) ==> step == commits_told(
                name,
                path,
                None,
                None,
                Err(answered_commit(path, "HEAD"@, facts.local->0)->Err_0),
            )
            &&& has_local && facts.fetch is Some && !fetched ==> step == commits_told(
                name,
                path,
                Some(local),
                None,
                Err(git::fetch_failure(path, facts.fetch->0)->0),
            )
            &&& has_local && fetched && (facts.remote matches Some(reply) && answered_commit(
                path,
                "FETCH_HEAD"@,
                reply,
            ) is Err) ==> step == commits_told(
                name,
                path,
                Some(local),
                None,
                Err(answered_commit(path, "FETCH_HEAD"@, facts.remote->0)->Err_0),
            )
            &&& has_local && fetched && has_remote ==> match relation_step(
                path,
                local.sha,
                remote.sha,
                facts.behind,
                facts.ahead,
            ) {
                RelationStepView::Ask { query } => step == (CommitStepView::Ask { query }),
                RelationStepView::Failed { error } => step == commits_told(
                    name,
                    path,
                    Some(local),
                    Some(remote),
                    Err(error),
                ),
                RelationStepView::Known { relation } => step == commits_told(
                    name,
                    path,
                    Some(local),
                    Some(remote),
                    Ok(difference_words(local, remote, relation)),
                ),
            }
        }),
{
}

/// An inspection that ends with these commits, and with their difference or an
/// error.
pub open spec fn commits_told(
    name: Seq<char>,
    path: Seq<char>,
    local: Option<CommitInfoView>,
    remote: Option<CommitInfoView>,
    told: Result<Seq<char>, Seq<char>>,
) -> CommitStepView {
    CommitStepView::Done {
        commits: RepoCommitsView {
            name,
            path,
            local,
            remote,
            difference: match told {
                Ok(words) => Some(words),
                Err(_) => None,
            },
            error: match told {
                Ok(_) => None,
                Err(words) => Some(words),
            },
        },
    }
}

/// An answer of git is kept for the question that was open: of the commits the
/// local one first, and of the ancestries the one of the local commit.
pub proof fn answers_are_kept_in_order(
    facts: CommitFacts,
    reply: GitReply,
    reference: Seq<char>,
    ancestor: Seq<char>,
    descendant: Seq<char>,
)
    ensures
        ({
            let commit = facts.with_answer(git::GitQueryView::Commit { reference }, reply);
            let ancestry = facts.with_answer(
                git::GitQueryView::Ancestry { ancestor, descendant },
                reply,
            );
            &&& commit.local == if facts.local is None {
                Some(reply)
            } else {
                facts.local
            }
            &&& commit.remote == if facts.local is None {
                facts.remote
            } else {
                Some(reply)
            }
            &&& commit.behind == facts.behind && commit.ahead == facts.ahead && commit.fetch
                == facts.fetch && commit.held == facts.held && commit.is_dir == facts.is_dir
            &&& ancestry.behind == if facts.behind is None {
                Some(reply)
            } else {
                facts.behind
            }
            &&& ancestry.ahead == if facts.behind is None {
                facts.ahead
            } else {
                Some(reply)
            }
            &&& ancestry.local == facts.local && ancestry.remote == facts.remote && ancestry.fetch
                == facts.fetch && ancestry.held == facts.held && ancestry.is_dir == facts.is_dir
        }),
{
}

/// Eight repositories are inspected at once, or all of them where there are fewer.
pub proof fn eight_are_inspected_at_once(count: nat)
    ensures
        count <= 8 ==> inspection_workers(count) == count,
        count > 8 ==> inspection_workers(count) == 8,
{
}

/// An inspection starts without the lock and without an answer.
pub proof fn inspections_start_with_no_answer(is_dir: bool)
    ensures
        CommitFacts::unasked(is_dir).is_dir == is_dir,
        !CommitFacts::unasked(is_dir).held,
        CommitFacts::unasked(is_dir).local is None,
        CommitFacts::unasked(is_dir).fetch is None,
        CommitFacts::unasked(is_dir).remote is None,
        CommitFacts::unasked(is_dir).behind is None,
        CommitFacts::unasked(is_dir).ahead is None,
{
}

/// A commit whose second line is no number is told with that line, and with what
/// is wrong with it.
pub proof fn bad_timestamps_are_told(
    path: Seq<char>,
    reference: Seq<char>,
    output: GitOutput,
    error: text::IntegerError,
)
    requires
        output.code == Some(0i32),
        text::lines(text::lossy_utf8(output.stdout@)).len() >= 3,
        text::integer_value(text::lines(text::lossy_utf8(output.stdout@))[1]) == Err::<
            int,
            text::IntegerError,
        >(error),
    ensures
        answered_commit(path, reference, Ok(output)) == Err::<CommitInfoView, Seq<char>>(
            "invalid commit timestamp '"@ + text::lines(text::lossy_utf8(output.stdout@))[1]
                + "': "@ + error.spoken(),
        ),
{
}

/// Commits are seen whole, field by field.
pub proof fn commits_are_seen_whole(commit: CommitInfo, commits: RepoCommits)
    ensures
        commit@.sha == commit.sha@,
        commit@.timestamp == commit.timestamp,
        commit@.date == commit.date@,
        commits@.name == commits.name@,
        commits@.path == commits.path@,
        match commits.local {
            Some(local) => commits@.local == Some(local@),
            None => commits@.local is None,
        },
        match commits.remote {
            Some(remote) => commits@.remote == Some(remote@),
            None => commits@.remote is None,
        },
        match commits.difference {
            Some(difference) => commits@.difference == Some(difference@),
            None => commits@.difference is None,
        },
        match commits.error {
            Some(error) => commits@.error == Some(error@),
            None => commits@.error is None,
        },
{
}

} // verus!
