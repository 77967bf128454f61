//! The state of a repository's work tree: its branch, and whether anything in
//! it is uncommitted.

use crate::config::{clone_option, RepoConfig};
use crate::git::{self, GitQuery, GitReply};
use crate::text;
use vstd::prelude::*;

verus! {

/// What is known of a repository's work tree.
#[derive(Debug)]
pub struct RepoStatus {
    pub name: String,
    pub path: String,
    pub path_exists: bool,
    pub branch: Option<String>,
    pub clean: bool,
    pub on_main: bool,
    pub error: Option<String>,
}

/// What a `RepoStatus` holds.
#[verifier::ext_equal]
pub struct RepoStatusView {
    pub name: Seq<char>,
    pub path: Seq<char>,
    pub path_exists: bool,
    pub branch: Option<Seq<char>>,
    pub clean: bool,
    pub on_main: bool,
    pub error: Option<Seq<char>>,
}

impl View for RepoStatus {
    type V = RepoStatusView;

    open spec fn view(&self) -> RepoStatusView {
        RepoStatusView {
            name: self.name@,
            path: self.path@,
            path_exists: self.path_exists,
            branch: text::text_option(self.branch),
            clean: self.clean,
            on_main: self.on_main,
            error: text::text_option(self.error),
        }
    }
}

impl Clone for RepoStatus {
    fn clone(&self) -> (r: RepoStatus)
        ensures
            r == *self,
    {
        RepoStatus {
            name: self.name.clone(),
            path: self.path.clone(),
            path_exists: self.path_exists,
            branch: clone_option(&self.branch),
            clean: self.clean,
            on_main: self.on_main,
            error: clone_option(&self.error),
        }
    }
}

/// What an inspection has found out so far.
pub struct InspectFacts {
    /// Whether anything is at the path.
    pub path_exists: bool,
    /// Whether it is a directory.
    pub is_dir: bool,
    /// What git answered about the current branch.
    pub branch: Option<GitReply>,
    /// What git answered about the work tree.
    pub tree: Option<GitReply>,
}

/// What an inspection does next.
pub enum InspectStep {
    /// Ask git, and add its answer to the facts.
    Ask { query: GitQuery },
    Done { status: RepoStatus },
}

/// What a step of an inspection says.
#[verifier::ext_equal]
pub enum InspectStepView {
    Ask { query: git::GitQueryView },
    Done { status: RepoStatusView },
}

impl View for InspectStep {
    type V = InspectStepView;

    open spec fn view(&self) -> InspectStepView {
        match *self {
            InspectStep::Ask { query } => InspectStepView::Ask { query: query@ },
            InspectStep::Done { status } => InspectStepView::Done { status: status@ },
        }
    }
}

/// The answer of a git command that succeeded, or what is said of one that did
/// not do its `action`.
pub open spec fn answer_of(
    path: Seq<char>,
    reply: GitReply,
    action: Seq<char>,
) -> Result<Seq<u8>, Seq<char>> {
    match reply {
        Ok(output) => if git::is_success(output.code) {
            Ok(output.stdout@)
        } else {
            Err(git::failure_words(output, action))
        },
        Err(cause) => Err(git::unrun_words(path, cause@)),
    }
}

/// The current branch as git answered it, or why there is none.
pub open spec fn branch_of(path: Seq<char>, reply: GitReply) -> Result<Seq<char>, Seq<char>> {
    match answer_of(path, reply, "read current branch"@) {
        Ok(stdout) => {
            let branch = text::trimmed(text::lossy_utf8(stdout));
            if branch.len() == 0 {
                Err("repository is in detached HEAD state"@)
            } else {
                Ok(branch)
            }
        },
        Err(words) => Err(words),
    }
}

/// Whether a branch is one that a sync pulls into.
pub open spec fn is_main_branch(branch: Seq<char>) -> bool {
    branch == "main"@ || branch == "master"@
}

/// The status of a repository that could not be inspected.
pub open spec fn failed_status(
    name: Seq<char>,
    path: Seq<char>,
    path_exists: bool,
    error: Seq<char>,
) -> RepoStatusView {
    RepoStatusView {
        name,
        path,
        path_exists,
        branch: None,
        clean: false,
        on_main: false,
        error: Some(error),
    }
}

/// The step that follows from the facts.
pub open spec fn inspect_step(
    name: Seq<char>,
    path: Seq<char>,
    facts: InspectFacts,
) -> InspectStepView {
    if !facts.is_dir {
        InspectStepView::Done {
            status: failed_status(
                name,
                path,
                facts.path_exists,
                "directory does not exist: "@ + path,
            ),
        }
    } else {
        match facts.branch {
            None => InspectStepView::Ask { query: git::GitQueryView::CurrentBranch },
            Some(reply) => match branch_of(path, reply) {
                Err(words) => InspectStepView::Done {
                    status: failed_status(name, path, facts.path_exists, words),
                },
                Ok(branch) => match facts.tree {
                    None => InspectStepView::Ask { query: git::GitQueryView::WorkingTree },
                    Some(reply) => match answer_of(path, reply, "read working tree status"@) {
                        Err(words) => InspectStepView::Done {
                            status: failed_status(name, path, facts.path_exists, words),
                        },
                        Ok(stdout) => InspectStepView::Done {
                            status: RepoStatusView {
                                name,
                                path,
                                path_exists: true,
                                branch: Some(branch),
                                clean: stdout.len() == 0,
                                on_main: is_main_branch(branch),
                                error: None,
                            },
                        },
                    },
                },
            },
        }
    }
}

fn answer<'a>(path: &str, reply: &'a GitReply, action: &str) -> (r: Result<&'a Vec<u8>, String>)
    ensures
        match answer_of(path@, *reply, action@) {
            Ok(stdout) => r is Ok && r->Ok_0@ == stdout,
            Err(words) => r is Err && r->Err_0@ == words,
        },
        git::is_failure_read(*reply),
{
    match reply {
        Ok(output) => match git::ensure_success(output, action) {
            Ok(()) => Ok(&output.stdout),
            Err(words) => Err(words),
        },
        Err(cause) => Err(git::git_not_run(path, cause.as_str())),
    }
}

fn current_branch(path: &str, reply: &GitReply) -> (r: Result<String, String>)
    ensures
        match branch_of(path@, *reply) {
            Ok(branch) => r is Ok && r->Ok_0@ == branch,
            Err(words) => r is Err && r->Err_0@ == words,
        },
        git::is_answer_read(*reply),
{
    match answer(path, reply, "read current branch") {
        Ok(stdout) => {
            let all = text::lossy_text(stdout.as_slice());
            let branch = text::trim_text(all.as_str());
            if branch.as_str().is_empty() {
                Err("repository is in detached HEAD state".to_owned())
            } else {
                Ok(branch)
            }
        },
        Err(words) => Err(words),
    }
}

fn not_inspected(repo: &RepoConfig, path_exists: bool, error: String) -> (r: InspectStep)
    ensures
        r@ == (InspectStepView::Done {
            status: failed_status(repo.name@, repo.path@, path_exists, error@),
        }),
{
    InspectStep::Done {
        status: RepoStatus {
            name: repo.name.clone(),
            path: repo.path.clone(),
            path_exists,
            branch: None,
            clean: false,
            on_main: false,
            error: Some(error),
        },
    }
}

/// Inspects a repository: asks for its branch, then for its work tree, and says
/// what they come to. Each answer is added to the facts before the next step.
pub fn inspect(repo: &RepoConfig, facts: &InspectFacts) -> (r: InspectStep)
    ensures
        r@ == inspect_step(repo.name@, repo.path@, *facts),
        facts.is_dir && facts.branch is Some ==> git::is_answer_read(facts.branch->0),
        facts.is_dir && facts.branch is Some && facts.tree is Some && branch_of(
            repo.path@,
            facts.branch->0,
        ) is Ok ==> git::is_failure_read(facts.tree->0),
{
    let path = repo.path.as_str();
    if !facts.is_dir {
        return not_inspected(
            repo,
            facts.path_exists,
            "directory does not exist: ".to_owned().concat(path),
        );
    }
    let branch = match &facts.branch {
        None => return InspectStep::Ask { query: GitQuery::CurrentBranch },
        Some(reply) => match current_branch(path, reply) {
            Err(words) => return not_inspected(repo, facts.path_exists, words),
            Ok(branch) => branch,
        },
    };
    let clean = match &facts.tree {
        None => return InspectStep::Ask { query: GitQuery::WorkingTree },
        Some(reply) => match answer(path, reply, "read working tree status") {
            Err(words) => return not_inspected(repo, facts.path_exists, words),
            Ok(stdout) => stdout.len() == 0,
        },
    };
    let on_main = text::same_text(branch.as_str(), "main") || text::same_text(
        branch.as_str(),
        "master",
    );
    InspectStep::Done {
        status: RepoStatus {
            name: repo.name.clone(),
            path: repo.path.clone(),
            path_exists: true,
            branch: Some(branch),
            clean,
            on_main,
            error: None,
        },
    }
}

impl InspectFacts {
    /// Nothing found out yet, but what is at the path.
    pub open spec fn unasked(path_exists: bool, is_dir: bool) -> InspectFacts {
        InspectFacts { path_exists, is_dir, branch: None, tree: None }
    }

    /// Nothing found out yet, but what is at the path.
    pub fn new(path_exists: bool, is_dir: bool) -> (r: InspectFacts)
        ensures
            r == Self::unasked(path_exists, is_dir),
    {
        InspectFacts { path_exists, is_dir, branch: None, tree: None }
    }

    /// The facts with the answer to a query.
    pub open spec fn with_answer(self, query: git::GitQueryView, reply: GitReply) -> InspectFacts {
        match query {
            git::GitQueryView::CurrentBranch => InspectFacts { branch: Some(reply), ..self },
            git::GitQueryView::WorkingTree => InspectFacts { tree: Some(reply), ..self },
            _ => self,
        }
    }

    /// Adds git's answer to a query to the facts.
    pub fn add_answer(&mut self, query: &GitQuery, reply: GitReply)
        ensures
            *final(self) == old(self).with_answer(query@, reply),
    {
        match query {
            GitQuery::CurrentBranch => self.branch = Some(reply),
            GitQuery::WorkingTree => self.tree = Some(reply),
            _ => {},
        }
    }
}

/// An inspection comes to its end: it asks for the branch, then for the work
/// tree, each once, and for nothing else.
pub proof fn inspections_end(
    name: Seq<char>,
    path: Seq<char>,
    facts: InspectFacts,
    reply: GitReply,
)
    ensures
        match inspect_step(name, path, facts) {
            InspectStepView::Ask { query } => {
                ||| query == git::GitQueryView::CurrentBranch && facts.branch is None
                    && facts.with_answer(query, reply).branch is Some
                ||| query == git::GitQueryView::WorkingTree && facts.branch is Some
                    && facts.tree is None && facts.with_answer(query, reply).tree is Some
            },
            InspectStepView::Done { .. } => true,
        },
        facts.branch is Some && facts.tree is Some ==> inspect_step(name, path, facts) is Done,
{
}

/// A status without an error tells the branch that the repository is on, and it
/// is on the main branch just when that is `main` or `master`; a status with an
/// error tells nothing of the branch and calls the tree neither clean nor on
/// the main branch.
pub proof fn statuses_are_consistent(name: Seq<char>, path: Seq<char>, facts: InspectFacts)
    requires
        inspect_step(name, path, facts) is Done,
    ensures
        ({
            let status = inspect_step(name, path, facts)->status;
            &&& status.name == name
            &&& status.path == path
            &&& status.error is None ==> status.path_exists && (status.branch matches Some(branch)
                && branch.len() > 0 && status.on_main == is_main_branch(branch))
            &&& status.error is Some ==> status.branch is None && !status.clean && !status.on_main
                && status.path_exists == facts.path_exists
        }),
{
}

/// A repository is on the main branch just when the branch that it tells is
/// called `main` or `master`.
pub proof fn the_main_branch_is_main_or_master(
    name: Seq<char>,
    path: Seq<char>,
    facts: InspectFacts,
)
    requires
        inspect_step(name, path, facts) is Done,
        inspect_step(name, path, facts)->status.error is None,
    ensures
        inspect_step(name, path, facts)->status.on_main <==> (inspect_step(
            name,
            path,
            facts,
        )->status.branch == Some("main"@) || inspect_step(name, path, facts)->status.branch == Some(
            "master"@,
        )),
{
}

/// An inspection tells a status without an error just when the path is a
/// directory, git named a branch, and git told the state of the work tree. The
/// branch is what git named, and the tree is clean just when git had nothing to
/// tell of it.
pub proof fn statuses_tell_what_git_answered(name: Seq<char>, path: Seq<char>, facts: InspectFacts)
    ensures
        (inspect_step(name, path, facts) matches InspectStepView::Done { status } && status.error
            is None) <==> {
            &&& facts.is_dir
            &&& facts.branch matches Some(Ok(named)) && named.code == Some(0i32)
                && !text::is_blank(text::lossy_utf8(named.stdout@))
            &&& facts.tree matches Some(Ok(told)) && told.code == Some(0i32)
        },
        (inspect_step(name, path, facts) matches InspectStepView::Done { status } && status.error
            is None) ==> ({
            let status = inspect_step(name, path, facts)->status;
            &&& status.name == name
            &&& status.path == path
            &&& status.path_exists
            &&& status.branch == Some(
                text::trimmed(text::lossy_utf8(facts.branch->0->Ok_0.stdout@)),
            )
            &&& status.clean <==> facts.tree->0->Ok_0.stdout@ == Seq::<u8>::empty()
        }),
{
    match facts.tree {
        Some(Ok(output)) => {
            assert(output.stdout@.len() == 0 ==> output.stdout@ =~= Seq::empty());
        },
        _ => {},
    }
}

/// What is asked next: the branch of a directory, and once git has named one, the
/// state of the work tree.
pub proof fn the_branch_is_asked_before_the_tree(
    name: Seq<char>,
    path: Seq<char>,
    facts: InspectFacts,
)
    ensures
        inspect_step(name, path, facts) == (InspectStepView::Ask {
            query: git::GitQueryView::CurrentBranch,
        }) <==> facts.is_dir && facts.branch is None,
        inspect_step(name, path, facts) == (InspectStepView::Ask {
            query: git::GitQueryView::WorkingTree,
        }) <==> facts.is_dir && facts.tree is None && (facts.branch matches Some(Ok(named))
            && named.code == Some(0i32) && !text::is_blank(text::lossy_utf8(named.stdout@))),
{
}

/// A repository that could not be inspected says why: there is no such directory,
/// git could not be run in it or failed, or its `HEAD` is on no branch. It has no
/// branch then, and counts neither as clean nor as on the main branch.
pub proof fn failed_inspections_say_why(name: Seq<char>, path: Seq<char>, facts: InspectFacts)
    ensures
        !facts.is_dir ==> error_told(name, path, facts) == Some(
            "directory does not exist: "@ + path,
        ),
        facts.is_dir ==> match facts.branch {
            None => true,
            Some(Err(cause)) => error_told(name, path, facts) == Some(
                "failed to run git in "@ + path + ": "@ + cause@,
            ),
            Some(Ok(named)) => if named.code != Some(0i32) {
                error_told(name, path, facts) == Some(
                    "git could not read current branch: "@ + git::combined(named),
                )
            } else if text::is_blank(text::lossy_utf8(named.stdout@)) {
                error_told(name, path, facts) == Some("repository is in detached HEAD state"@)
            } else {
                match facts.tree {
                    None => true,
                    Some(Err(cause)) => error_told(name, path, facts) == Some(
                        "failed to run git in "@ + path + ": "@ + cause@,
                    ),
                    Some(Ok(output)) => error_told(name, path, facts) == if output.code == Some(
                        0i32,
                    ) {
                        None
                    } else {
                        Some("git could not read working tree status: "@ + git::combined(output))
                    },
                }
            },
        },
{
    reveal_strlit("git could not ");
    reveal_strlit("read current branch");
    reveal_strlit("read working tree status");
    reveal_strlit(": ");
    reveal_strlit("git could not read current branch: ");
    reveal_strlit("git could not read working tree status: ");
    assert("git could not "@ + "read current branch"@ + ": "@
        =~= "git could not read current branch: "@);
    assert("git could not "@ + "read working tree status"@ + ": "@
        =~= "git could not read working tree status: "@);
}

/// The error that an inspection ends with.
pub open spec fn error_told(
    name: Seq<char>,
    path: Seq<char>,
    facts: InspectFacts,
) -> Option<Seq<char>> {
    match inspect_step(name, path, facts) {
        InspectStepView::Done { status } => status.error,
        InspectStepView::Ask { .. } => None,
    }
}

/// An answer of git is kept for the question that it answers, and nothing else
/// changes.
pub proof fn answers_are_kept_for_their_questions(facts: InspectFacts, reply: GitReply)
    ensures
        facts.with_answer(git::GitQueryView::CurrentBranch, reply) == (InspectFacts {
            path_exists: facts.path_exists,
            is_dir: facts.is_dir,
            branch: Some(reply),
            tree: facts.tree,
        }),
        facts.with_answer(git::GitQueryView::WorkingTree, reply) == (InspectFacts {
            path_exists: facts.path_exists,
            is_dir: facts.is_dir,
            branch: facts.branch,
            tree: Some(reply),
        }),
{
}

/// An inspection starts with what is at the path, and without an answer.
pub proof fn inspections_start_with_no_answer(path_exists: bool, is_dir: bool)
    ensures
        InspectFacts::unasked(path_exists, is_dir).path_exists == path_exists,
        InspectFacts::unasked(path_exists, is_dir).is_dir == is_dir,
        InspectFacts::unasked(path_exists, is_dir).branch is None,
        InspectFacts::unasked(path_exists, is_dir).tree is None,
{
}

/// A status is seen whole, field by field.
pub proof fn statuses_are_seen_whole(status: RepoStatus)
    ensures
        status@.name == status.name@,
        status@.path == status.path@,
        status@.path_exists == status.path_exists,
        status@.clean == status.clean,
        status@.on_main == status.on_main,
        status@.branch is Some <==> status.branch is Some,
        status.branch matches Some(branch) ==> status@.branch == Some(branch@),
        status@.error is Some <==> status.error is Some,
        status.error matches Some(error) ==> status@.error == Some(error@),
{
}

} // verus!
