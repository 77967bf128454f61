//! The git commands: their arguments, the environment they run in, and what
//! their output says.

use crate::runner::{FETCH_TIMEOUT, PULL_TIMEOUT, READ_TIMEOUT};
use crate::text;
use vstd::prelude::*;

verus! {

/// What a git command that only reads left behind. It has no exit code when a
/// signal ended it.
#[derive(Debug)]
pub struct GitOutput {
    pub code: Option<i32>,
    pub stdout: Vec<u8>,
    pub stderr: Vec<u8>,
}

/// The output of a git command that only reads, or why there is none.
pub type GitReply = Result<GitOutput, String>;

/// What a command that was watched line by line left behind: its exit code, if
/// no signal ended it, and the lines it wrote.
#[derive(Debug)]
pub struct CommandOutput {
    pub code: Option<i32>,
    pub text: String,
}

/// The output of a command that was watched, or why there is none.
pub type CommandReply = Result<CommandOutput, String>;

/// Whether an exit code tells of success.
pub open spec fn is_success(code: Option<i32>) -> bool {
    code == Some(0i32)
}

/// Whether an exit code tells of success.
pub fn success(code: Option<i32>) -> (r: bool)
    ensures
        r == is_success(code),
{
    match code {
        Some(code) => code == 0,
        None => false,
    }
}

/// How a command ended, in words.
pub open spec fn exit_words(code: Option<i32>) -> Seq<char> {
    match code {
        Some(code) => "exit "@ + text::signed_decimal(code as int),
        None => "terminated by signal"@,
    }
}

/// Puts in words how a command ended.
pub fn exit_label(code: Option<i32>) -> (r: String)
    ensures
        r@ == exit_words(code),
{
    match code {
        Some(code) => "exit ".to_owned().concat(text::signed_decimal_text(code).as_str()),
        None => "terminated by signal".to_owned(),
    }
}

/// Everything the command wrote, without the white space around it.
pub open spec fn combined(output: GitOutput) -> Seq<char> {
    text::trimmed(text::lossy_utf8(output.stdout@) + text::lossy_utf8(output.stderr@))
}

/// Whether what a command wrote, where it is UTF-8, is read as the text it
/// encodes.
pub open spec fn is_output_read(output: GitOutput) -> bool {
    text::is_read(output.stdout@) && text::is_read(output.stderr@)
}

/// The same of a command that failed.
pub open spec fn is_failure_read(reply: GitReply) -> bool {
    reply matches Ok(output) ==> is_success(output.code) || is_output_read(output)
}

/// The same of the answer of a command that succeeded, and of all that one that
/// failed wrote.
pub open spec fn is_answer_read(reply: GitReply) -> bool {
    is_failure_read(reply) && (reply matches Ok(output) ==> text::is_read(output.stdout@))
}

/// Everything the command wrote, without the white space around it.
pub fn combined_output(output: &GitOutput) -> (r: String)
    ensures
        r@ == combined(*output),
        is_output_read(*output),
        vstd::utf8::valid_utf8(output.stdout@) && vstd::utf8::valid_utf8(output.stderr@) ==> r@
            == text::trimmed(
            vstd::utf8::decode_utf8(output.stdout@) + vstd::utf8::decode_utf8(output.stderr@),
        ),
{
    let stdout = text::lossy_text(output.stdout.as_slice());
    let stderr = text::lossy_text(output.stderr.as_slice());
    let all = stdout.concat(stderr.as_str());
    text::trim_text(all.as_str())
}

/// What is said of a command that could not do its `action`.
pub open spec fn failure_words(output: GitOutput, action: Seq<char>) -> Seq<char> {
    "git could not "@ + action + ": "@ + combined(output)
}

/// What is said of a command, where it failed.
pub open spec fn failure_of(output: GitOutput, action: Seq<char>) -> Option<Seq<char>> {
    if is_success(output.code) {
        None
    } else {
        Some(failure_words(output, action))
    }
}

/// Passes a command that succeeded, and puts in words what one that failed says.
pub fn ensure_success(output: &GitOutput, action: &str) -> (r: Result<(), String>)
    ensures
        match failure_of(*output, action@) {
            Some(words) => r is Err && r->Err_0@ == words,
            None => r is Ok,
        },
        r is Err ==> is_output_read(*output),
{
    if success(output.code) {
        Ok(())
    } else {
        Err(
            "git could not ".to_owned().concat(action).concat(": ").concat(
                combined_output(output).as_str(),
            ),
        )
    }
}

/// A git command.
#[derive(Debug)]
pub enum GitQuery {
    CurrentBranch,
    WorkingTree,
    GitDirectory,
    SshCommand,
    Commit { reference: String },
    Ancestry { ancestor: String, descendant: String },
    Fetch,
    Pull,
}

/// What a `GitQuery` asks for.
#[verifier::ext_equal]
pub enum GitQueryView {
    CurrentBranch,
    WorkingTree,
    GitDirectory,
    SshCommand,
    Commit { reference: Seq<char> },
    Ancestry { ancestor: Seq<char>, descendant: Seq<char> },
    Fetch,
    Pull,
}

impl View for GitQuery {
    type V = GitQueryView;

    open spec fn view(&self) -> GitQueryView {
        match *self {
            GitQuery::CurrentBranch => GitQueryView::CurrentBranch,
            GitQuery::WorkingTree => GitQueryView::WorkingTree,
            GitQuery::GitDirectory => GitQueryView::GitDirectory,
            GitQuery::SshCommand => GitQueryView::SshCommand,
            GitQuery::Commit { reference } => GitQueryView::Commit { reference: reference@ },
            GitQuery::Ancestry { ancestor, descendant } => GitQueryView::Ancestry {
                ancestor: ancestor@,
                descendant: descendant@,
            },
            GitQuery::Fetch => GitQueryView::Fetch,
            GitQuery::Pull => GitQueryView::Pull,
        }
    }
}

impl GitQueryView {
    /// The arguments that git is given.
    pub open spec fn arguments(self) -> Seq<Seq<char>> {
        match self {
            GitQueryView::CurrentBranch => seq!["branch"@, "--show-current"@],
            GitQueryView::WorkingTree => seq!["status"@, "--porcelain"@],
            GitQueryView::GitDirectory => seq!["rev-parse"@, "--absolute-git-dir"@],
            GitQueryView::SshCommand => seq!["config"@, "--get"@, "core.sshCommand"@],
            GitQueryView::Commit { reference } => seq![
                "log"@,
                "-1"@,
                "--format=%H%n%ct%n%cd"@,
                "--date=format-local:%Y-%m-%d %H:%M"@,
                reference,
            ],
            GitQueryView::Ancestry { ancestor, descendant } => seq![
                "merge-base"@,
                "--is-ancestor"@,
                ancestor,
                descendant,
            ],
            GitQueryView::Fetch => seq!["fetch"@, "--quiet"@, "origin"@, "HEAD"@],
            GitQueryView::Pull => seq!["pull"@, "origin"@, "HEAD"@],
        }
    }
}

impl GitQuery {
    /// The arguments that git is given.
    pub fn args(&self) -> (r: Vec<String>)
        ensures
            text::texts(r@) == self@.arguments(),
    {
        let r: Vec<String> = match self {
            GitQuery::CurrentBranch => vec!["branch".to_owned(), "--show-current".to_owned()],
            GitQuery::WorkingTree => vec!["status".to_owned(), "--porcelain".to_owned()],
            GitQuery::GitDirectory => vec!["rev-parse".to_owned(), "--absolute-git-dir".to_owned()],
            GitQuery::SshCommand => vec![
                "config".to_owned(),
                "--get".to_owned(),
                "core.sshCommand".to_owned(),
            ],
            GitQuery::Commit { reference } => vec![
                "log".to_owned(),
                "-1".to_owned(),
                "--format=%H%n%ct%n%cd".to_owned(),
                "--date=format-local:%Y-%m-%d %H:%M".to_owned(),
                reference.clone(),
            ],
            GitQuery::Ancestry { ancestor, descendant } => vec![
                "merge-base".to_owned(),
                "--is-ancestor".to_owned(),
                ancestor.clone(),
                descendant.clone(),
            ],
            GitQuery::Fetch => vec![
                "fetch".to_owned(),
                "--quiet".to_owned(),
                "origin".to_owned(),
                "HEAD".to_owned(),
            ],
            GitQuery::Pull => vec!["pull".to_owned(), "origin".to_owned(), "HEAD".to_owned()],
        };
        assert(text::texts(r@) =~= self@.arguments());
        r
    }
}

impl GitQueryView {
    /// How long the command may take, in milliseconds: a fetch a minute, a pull
    /// ten, and one that only reads two.
    pub open spec fn allowed(self) -> u64 {
        match self {
            GitQueryView::Fetch => FETCH_TIMEOUT,
            GitQueryView::Pull => PULL_TIMEOUT,
            _ => READ_TIMEOUT,
        }
    }
}

impl GitQuery {
    /// How long the command may take before it is killed, in milliseconds.
    pub fn timeout(&self) -> (r: u64)
        ensures
            r == self@.allowed(),
    {
        match self {
            GitQuery::Fetch => FETCH_TIMEOUT,
            GitQuery::Pull => PULL_TIMEOUT,
            _ => READ_TIMEOUT,
        }
    }
}

/// What is said when git could not be run at all.
pub open spec fn unrun_words(path: Seq<char>, cause: Seq<char>) -> Seq<char> {
    "failed to run git in "@ + path + ": "@ + cause
}

/// Puts in words that git could not be run in `path`.
pub fn git_not_run(path: &str, cause: &str) -> (r: String)
    ensures
        r@ == unrun_words(path@, cause@),
{
    "failed to run git in ".to_owned().concat(path).concat(": ").concat(cause)
}

/// Names and values of environment variables.
pub open spec fn variable_views(variables: Seq<(String, String)>) -> Seq<(Seq<char>, Seq<char>)> {
    Seq::new(variables.len(), |i: int| (variables[i].0@, variables[i].1@))
}

/// Whether the repository answers that it chooses its own ssh command.
pub open spec fn is_ssh_command_configured(reply: GitReply) -> bool {
    reply is Ok && reply->Ok_0.stdout@.len() > 0
}

/// Whether the repository chooses its own ssh command.
pub fn has_configured_ssh_command(reply: &GitReply) -> (r: bool)
    ensures
        r == is_ssh_command_configured(*reply),
{
    match reply {
        Ok(output) => output.stdout.len() > 0,
        Err(_) => false,
    }
}

/// The variables set for a git command that talks to a remote.
pub open spec fn offline_variables(
    ssh_command_set: bool,
    ssh_set: bool,
    ssh_configured: bool,
) -> Seq<(Seq<char>, Seq<char>)> {
    if ssh_command_set || ssh_set || ssh_configured {
        seq![("GIT_TERMINAL_PROMPT"@, "0"@)]
    } else {
        seq![("GIT_TERMINAL_PROMPT"@, "0"@), ("GIT_SSH_COMMAND"@, "ssh -o BatchMode=yes"@)]
    }
}

/// The variables set for a git command that talks to a remote, so that it fails
/// instead of asking a question. An ssh command that somebody chose, in
/// `GIT_SSH_COMMAND`, in `GIT_SSH` or in the repository, is left alone.
pub fn offline_environment(
    ssh_command_set: bool,
    ssh_set: bool,
    ssh_configured: bool,
) -> (r: Vec<(String, String)>)
    ensures
        variable_views(r@) == offline_variables(ssh_command_set, ssh_set, ssh_configured),
{
    let mut r: Vec<(String, String)> = Vec::new();
    r.push(("GIT_TERMINAL_PROMPT".to_owned(), "0".to_owned()));
    if !ssh_command_set && !ssh_set && !ssh_configured {
        r.push(("GIT_SSH_COMMAND".to_owned(), "ssh -o BatchMode=yes".to_owned()));
    }
    assert(variable_views(r@) =~= offline_variables(ssh_command_set, ssh_set, ssh_configured));
    r
}

/// The arguments that the shell is given to run a build.
pub open spec fn shell_arguments(command: Seq<char>) -> Seq<Seq<char>> {
    seq!["-lc"@, command]
}

/// The arguments that the shell is given to run a build.
pub fn shell_args(command: &str) -> (r: Vec<String>)
    ensures
        text::texts(r@) == shell_arguments(command@),
{
    let r: Vec<String> = vec!["-lc".to_owned(), command.to_owned()];
    assert(text::texts(r@) =~= shell_arguments(command@));
    r
}

/// The git directory that a command answered with, where it did.
pub open spec fn answered_directory(reply: GitReply) -> Option<Seq<char>> {
    match reply {
        Ok(output) => {
            let answer = text::trimmed(text::lossy_utf8(output.stdout@));
            if is_success(output.code) && answer.len() > 0 {
                Some(answer)
            } else {
                None
            }
        },
        Err(_) => None,
    }
}

/// The git directory that a command answered with, where it did.
pub fn git_directory(reply: &GitReply) -> (r: Option<String>)
    ensures
        text::text_option(r) == answered_directory(*reply),
        reply is Ok && is_success(reply->Ok_0.code) ==> text::is_read(reply->Ok_0.stdout@),
{
    match reply {
        Ok(output) => {
            if !success(output.code) {
                return None;
            }
            let all = text::lossy_text(output.stdout.as_slice());
            let answer = text::trim_text(all.as_str());
            if answer.as_str().is_empty() {
                None
            } else {
                Some(answer)
            }
        },
        Err(_) => None,
    }
}

/// The key of the lock that guards a repository: its git directory, and its path
/// where git does not know one.
pub open spec fn repo_key(path: Seq<char>, reply: GitReply) -> Seq<char> {
    match answered_directory(reply) {
        Some(directory) => directory,
        None => path,
    }
}

/// The key of the lock that guards the repository at `path`, given what git
/// answered about its directory.
pub fn lock_key(path: &str, reply: &GitReply) -> (r: String)
    ensures
        r@ == repo_key(path@, *reply),
        reply is Ok && is_success(reply->Ok_0.code) ==> text::is_read(reply->Ok_0.stdout@),
{
    match git_directory(reply) {
        Some(directory) => directory,
        None => path.to_owned(),
    }
}

/// Two entries that share a repository share a lock: where git answers with one
/// directory, the paths do not matter.
pub proof fn one_directory_is_one_lock(a: Seq<char>, b: Seq<char>, left: GitReply, right: GitReply)
    requires
        answered_directory(left) is Some,
        answered_directory(left) == answered_directory(right),
    ensures
        repo_key(a, left) == repo_key(b, right),
{
}

/// What came of a fetch.
pub open spec fn fetch_failure(path: Seq<char>, reply: CommandReply) -> Option<Seq<char>> {
    match reply {
        Ok(output) => if is_success(output.code) {
            None
        } else {
            Some("git could not fetch origin HEAD: "@ + text::trimmed(output.text@))
        },
        Err(cause) => Some("failed to fetch in "@ + path + ": "@ + cause@),
    }
}

/// Passes a fetch that succeeded, and puts in words why one did not.
pub fn fetch_remote_head(path: &str, reply: &CommandReply) -> (r: Result<(), String>)
    ensures
        match fetch_failure(path@, *reply) {
            Some(words) => r is Err && r->Err_0@ == words,
            None => r is Ok,
        },
{
    match reply {
        Ok(output) => if success(output.code) {
            Ok(())
        } else {
            let said = text::trim_text(output.text.as_str());
            Err("git could not fetch origin HEAD: ".to_owned().concat(said.as_str()))
        },
        Err(cause) => Err(
            "failed to fetch in ".to_owned().concat(path).concat(": ").concat(cause.as_str()),
        ),
    }
}

/// A command has succeeded just when it ended by itself with the code 0.
pub proof fn success_is_the_code_zero(code: Option<i32>)
    ensures
        is_success(code) <==> code == Some(0i32),
        code matches Some(n) ==> exit_words(code) == "exit "@ + text::signed_decimal(n as int),
        code is None ==> exit_words(code) == "terminated by signal"@,
{
}

/// What git is asked, word for word, and how long it may take: a fetch is killed
/// after sixty seconds, a pull after ten minutes, and what only reads after two.
pub proof fn git_is_asked_in_these_words(
    reference: Seq<char>,
    ancestor: Seq<char>,
    descendant: Seq<char>,
)
    ensures
        GitQueryView::CurrentBranch.arguments() == seq!["branch"@, "--show-current"@],
        GitQueryView::WorkingTree.arguments() == seq!["status"@, "--porcelain"@],
        GitQueryView::GitDirectory.arguments() == seq!["rev-parse"@, "--absolute-git-dir"@],
        GitQueryView::SshCommand.arguments() == seq!["config"@, "--get"@, "core.sshCommand"@],
        GitQueryView::Fetch.arguments() == seq!["fetch"@, "--quiet"@, "origin"@, "HEAD"@],
        GitQueryView::Pull.arguments() == seq!["pull"@, "origin"@, "HEAD"@],
        (GitQueryView::Commit { reference }).arguments() == seq![
            "log"@,
            "-1"@,
            "--format=%H%n%ct%n%cd"@,
            "--date=format-local:%Y-%m-%d %H:%M"@,
            reference,
        ],
        (GitQueryView::Ancestry { ancestor, descendant }).arguments() == seq![
            "merge-base"@,
            "--is-ancestor"@,
            ancestor,
            descendant,
        ],
        GitQueryView::Fetch.allowed() == 60_000,
        GitQueryView::Pull.allowed() == 600_000,
        GitQueryView::CurrentBranch.allowed() == 120_000,
        GitQueryView::WorkingTree.allowed() == 120_000,
        GitQueryView::GitDirectory.allowed() == 120_000,
        GitQueryView::SshCommand.allowed() == 120_000,
        (GitQueryView::Commit { reference }).allowed() == 120_000,
        (GitQueryView::Ancestry { ancestor, descendant }).allowed() == 120_000,
{
}

/// Git never asks for credentials at the terminal; ssh is kept from asking just
/// where nobody chose an ssh command, and a chosen one is not overridden.
pub proof fn no_question_reaches_the_terminal(
    ssh_command_set: bool,
    ssh_set: bool,
    ssh_configured: bool,
)
    ensures
        ({
            let variables = offline_variables(ssh_command_set, ssh_set, ssh_configured);
            &&& variables.contains(("GIT_TERMINAL_PROMPT"@, "0"@))
            &&& variables.contains(("GIT_SSH_COMMAND"@, "ssh -o BatchMode=yes"@)) <==> !(
            ssh_command_set || ssh_set || ssh_configured)
            &&& variables.len() == if ssh_command_set || ssh_set || ssh_configured {
                1nat
            } else {
                2
            }
        }),
{
    reveal_strlit("GIT_TERMINAL_PROMPT");
    reveal_strlit("GIT_SSH_COMMAND");
    let variables = offline_variables(ssh_command_set, ssh_set, ssh_configured);
    assert("GIT_TERMINAL_PROMPT"@.len() != "GIT_SSH_COMMAND"@.len());
    assert(variables[0] == ("GIT_TERMINAL_PROMPT"@, "0"@));
    if !(ssh_command_set || ssh_set || ssh_configured) {
        assert(variables[1] == ("GIT_SSH_COMMAND"@, "ssh -o BatchMode=yes"@));
    }
}

/// A repository chooses its own ssh command just when git answers with one.
pub proof fn any_answer_is_an_ssh_command(reply: GitReply)
    ensures
        is_ssh_command_configured(reply) <==> (reply matches Ok(output) && output.stdout@
            != Seq::<u8>::empty()),
{
    if reply is Ok {
        assert(reply->Ok_0.stdout@.len() == 0 ==> reply->Ok_0.stdout@ =~= Seq::empty());
    }
}

/// A build runs in a login shell, with the configured command as it stands.
pub proof fn builds_run_as_configured(command: Seq<char>)
    ensures
        shell_arguments(command).len() == 2,
        shell_arguments(command)[0] == "-lc"@,
        shell_arguments(command)[1] == command,
{
}

/// The lock of a repository goes by the directory that git answers with, without
/// the white space around it; where git fails, or answers nothing, it goes by the
/// path.
pub proof fn locks_go_by_the_answer_of_git(path: Seq<char>, reply: GitReply)
    ensures
        (reply matches Ok(output) && output.code == Some(0i32) && !text::is_blank(
            text::lossy_utf8(output.stdout@),
        )) ==> repo_key(path, reply) == text::trimmed(text::lossy_utf8(reply->Ok_0.stdout@)),
        !(reply matches Ok(output) && output.code == Some(0i32) && !text::is_blank(
            text::lossy_utf8(output.stdout@),
        )) ==> repo_key(path, reply) == path,
{
}

/// A fetch has gone well just when it ended with the code 0; what is said of
/// another names what it wrote, or why it did not run and where.
pub proof fn failed_fetches_say_why(path: Seq<char>, reply: CommandReply)
    ensures
        fetch_failure(path, reply) is None <==> (reply matches Ok(output) && output.code == Some(
            0i32,
        )),
        reply matches Err(cause) ==> fetch_failure(path, reply) == Some(
            "failed to fetch in "@ + path + ": "@ + cause@,
        ),
        reply is Ok && fetch_failure(path, reply) is Some ==> fetch_failure(path, reply)->0
            == "git could not fetch origin HEAD: "@ + text::trimmed(reply->Ok_0.text@),
{
}

/// What is said of a command that failed names what it could not do, and all
/// that it wrote on either stream.
pub proof fn failed_commands_say_why(
    output: GitOutput,
    action: Seq<char>,
    path: Seq<char>,
    cause: Seq<char>,
)
    ensures
        failure_words(output, action) == "git could not "@ + action + ": "@ + text::trimmed(
            text::lossy_utf8(output.stdout@) + text::lossy_utf8(output.stderr@),
        ),
        unrun_words(path, cause) == "failed to run git in "@ + path + ": "@ + cause,
{
}

/// A command is let pass just when its exit code is zero; else what it wrote is
/// told, with what it was to do.
pub proof fn only_the_code_zero_is_let_pass(output: GitOutput, action: Seq<char>)
    ensures
        failure_of(output, action) is None <==> output.code == Some(0i32),
        failure_of(output, action) matches Some(words) ==> words == "git could not "@ + action
            + ": "@ + combined(output),
{
}

} // verus!
