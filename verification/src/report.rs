//! The plain lines that are written where no screen is: the list of the
//! repositories, the head of a run, and what came of it.

use crate::commits::{self, RepoCommits};
use crate::list::{
    self, commit_cells, BRANCH_WIDTH, DATE_WIDTH, DIFFERENCE_WIDTH, NAME_WIDTH,
};
use crate::status::{self, RepoStatus};
use crate::sync::{self, SyncEvent, SyncOutcome, SyncResult};
use crate::text;
use crate::width::{self, pad_to_width};
use vstd::prelude::*;

verus! {

/// The columns of a word in the plain list.
pub const WORD_WIDTH: usize = 8;

/// The columns of an outcome in the summary.
pub const OUTCOME_WIDTH: usize = 16;

/// The text filled out to `size` characters with spaces; a longer one stays as
/// it is.
pub open spec fn filled(s: Seq<char>, size: nat) -> Seq<char> {
    if s.len() < size {
        s + text::repeated(' ', (size - s.len()) as nat)
    } else {
        s
    }
}

fn fill_text(s: &str, size: usize) -> (r: String)
    ensures
        r@ == filled(s@, size as nat),
{
    let length: usize = s.unicode_len();
    if length < size {
        s.to_owned().concat(text::blank_text(size - length).as_str())
    } else {
        s.to_owned()
    }
}

/// One line of the plain list, up to its path. Nothing bounds the width of a
/// pipe, so that the columns are filled out and never cut: two repositories
/// whose names begin alike must not come out looking the same.
pub open spec fn list_columns(
    name: Seq<char>,
    tree: Seq<char>,
    branch: Seq<char>,
    on_main: Seq<char>,
    cells: list::CommitCellsView,
) -> Seq<char> {
    width::padded(name, NAME_WIDTH as nat) + " "@ + filled(tree, WORD_WIDTH as nat) + " "@
        + width::padded(branch, BRANCH_WIDTH as nat) + " "@ + filled(on_main, WORD_WIDTH as nat)
        + " "@ + filled(cells.local, DATE_WIDTH as nat) + " "@ + filled(
        cells.remote,
        DATE_WIDTH as nat,
    ) + " "@ + filled(cells.difference, DIFFERENCE_WIDTH as nat) + " "@
}

fn columns_text(
    name: &str,
    tree: &str,
    branch: &str,
    on_main: &str,
    cells: &list::CommitCells,
) -> (r: String)
    ensures
        r@ == list_columns(name@, tree@, branch@, on_main@, cells@),
{
    let start = pad_to_width(name, NAME_WIDTH).concat(" ").concat(
        fill_text(tree, WORD_WIDTH).as_str(),
    ).concat(" ").concat(pad_to_width(branch, BRANCH_WIDTH).as_str()).concat(" ").concat(
        fill_text(on_main, WORD_WIDTH).as_str(),
    );
    start.concat(" ").concat(fill_text(cells.local.as_str(), DATE_WIDTH).as_str()).concat(
        " ",
    ).concat(fill_text(cells.remote.as_str(), DATE_WIDTH).as_str()).concat(" ").concat(
        fill_text(cells.difference.as_str(), DIFFERENCE_WIDTH).as_str(),
    ).concat(" ")
}

/// The header of the plain list.
pub open spec fn list_header() -> Seq<char> {
    list_columns(
        "REPOSITORY"@,
        "TREE"@,
        "BRANCH"@,
        "ON MAIN"@,
        list::CommitCellsView {
            local: "LOCAL COMMIT"@,
            remote: "REMOTE COMMIT"@,
            difference: "DIFFERENCE"@,
        },
    ) + "PATH"@
}

/// The header of the plain list.
pub fn list_header_line() -> (r: String)
    ensures
        r@ == list_header(),
{
    let cells = list::CommitCells {
        local: "LOCAL COMMIT".to_owned(),
        remote: "REMOTE COMMIT".to_owned(),
        difference: "DIFFERENCE".to_owned(),
    };
    columns_text("REPOSITORY", "TREE", "BRANCH", "ON MAIN", &cells).concat("PATH")
}

/// The line of a repository in the plain list.
pub open spec fn status_line(
    status: status::RepoStatusView,
    commits: Option<commits::RepoCommitsView>,
) -> Seq<char> {
    match status.error {
        Some(error) => list_columns(
            status.name,
            "error"@,
            "-"@,
            "-"@,
            list::cells_of(commits),
        ) + status.path + " ("@ + error + ")"@,
        None => list_columns(
            status.name,
            if status.clean {
                "clean"@
            } else {
                "dirty"@
            },
            match status.branch {
                Some(branch) => branch,
                None => "-"@,
            },
            if status.on_main {
                "yes"@
            } else {
                "no"@
            },
            list::cells_of(commits),
        ) + status.path,
    }
}

/// Writes the line of a repository in the plain list.
pub fn print_status(status: &RepoStatus, commits: &Option<RepoCommits>) -> (r: String)
    ensures
        r@ == status_line(status@, list::commits_view(*commits)),
{
    let cells = commit_cells(commits);
    let name = status.name.as_str();
    match &status.error {
        Some(error) => columns_text(name, "error", "-", "-", &cells).concat(
            status.path.as_str(),
        ).concat(" (").concat(error.as_str()).concat(")"),
        None => {
            let tree = if status.clean {
                "clean"
            } else {
                "dirty"
            };
            let on_main = if status.on_main {
                "yes"
            } else {
                "no"
            };
            let branch = match &status.branch {
                Some(branch) => branch.as_str(),
                None => "-",
            };
            columns_text(name, tree, branch, on_main, &cells).concat(status.path.as_str())
        },
    }
}

/// The name of an outcome.
pub open spec fn outcome_words(outcome: SyncOutcome) -> Seq<char> {
    match outcome {
        SyncOutcome::Succeeded => "succeeded"@,
        SyncOutcome::SkippedDirty => "skippeddirty"@,
        SyncOutcome::SkippedBranch => "skippedbranch"@,
        SyncOutcome::PullFailed => "pullfailed"@,
        SyncOutcome::BuildFailed => "buildfailed"@,
        SyncOutcome::StatusFailed => "statusfailed"@,
    }
}

fn outcome_text(outcome: SyncOutcome) -> (r: &'static str)
    ensures
        r@ == outcome_words(outcome),
{
    match outcome {
        SyncOutcome::Succeeded => "succeeded",
        SyncOutcome::SkippedDirty => "skippeddirty",
        SyncOutcome::SkippedBranch => "skippedbranch",
        SyncOutcome::PullFailed => "pullfailed",
        SyncOutcome::BuildFailed => "buildfailed",
        SyncOutcome::StatusFailed => "statusfailed",
    }
}

/// The line of a result in the summary.
pub open spec fn summary_line(result: sync::SyncResultView) -> Seq<char> {
    "  "@ + width::padded(result.name, NAME_WIDTH as nat) + " "@ + filled(
        outcome_words(result.outcome),
        OUTCOME_WIDTH as nat,
    ) + " "@ + result.message
}

/// The summary of a run: a blank line, its title, and a line for each result.
pub open spec fn summary(results: Seq<sync::SyncResultView>) -> Seq<Seq<char>> {
    seq!["\nSummary"@] + Seq::new(results.len(), |i: int| summary_line(results[i]))
}

/// Writes the summary of a run.
pub fn print_summary(results: &Vec<SyncResult>) -> (r: Vec<String>)
    ensures
        text::texts(r@) == summary(sync::result_views(results@)),
{
    let ghost views = sync::result_views(results@);
    let mut lines: Vec<String> = Vec::new();
    lines.push("\nSummary".to_owned());
    assert(text::texts(lines@) =~= summary(views.take(0)));
    for i in 0..results.len()
        invariant
            views == sync::result_views(results@),
            text::texts(lines@) == summary(views.take(i as int)),
    {
        let result = &results[i];
        let line = "  ".to_owned().concat(
            pad_to_width(result.name.as_str(), NAME_WIDTH).as_str(),
        ).concat(" ").concat(
            fill_text(outcome_text(result.outcome), OUTCOME_WIDTH).as_str(),
        ).concat(" ").concat(result.message.as_str());
        let ghost before = text::texts(lines@);
        lines.push(line);
        assert(text::texts(lines@) =~= before.push(line@));
        assert(views.take(i + 1)[i as int] == result@);
        assert(text::texts(lines@) =~= summary(views.take(i + 1)));
    }
    assert(views.take(views.len() as int) == views);
    lines
}

/// `repository`, in the plural unless it is one.
pub open spec fn repositories(count: nat) -> Seq<char> {
    if count == 1 {
        "repository"@
    } else {
        "repositories"@
    }
}

fn repositories_text(count: usize) -> (r: &'static str)
    ensures
        r@ == repositories(count as nat),
{
    if count == 1 {
        "repository"
    } else {
        "repositories"
    }
}

/// The head of a run.
pub open spec fn run_head(count: nat, workers: nat) -> Seq<char> {
    "pullkit run: "@ + text::decimal(count) + " "@ + repositories(count) + ", "@ + text::decimal(
        workers,
    ) + " at a time"@
}

/// Writes the head of a run.
pub fn run_header(count: usize, workers: usize) -> (r: String)
    ensures
        r@ == run_head(count as nat, workers as nat),
{
    "pullkit run: ".to_owned().concat(text::decimal_text(count as u64).as_str()).concat(" ").concat(
        repositories_text(count),
    ).concat(", ").concat(text::decimal_text(workers as u64).as_str()).concat(" at a time")
}

/// The line of plain output that a line of a repository makes.
pub open spec fn named_line(name: Seq<char>, line: Seq<char>) -> Seq<char> {
    "["@ + name + "] "@ + line
}

/// Puts the name of its repository in front of a line.
pub fn name_line(name: &str, line: &str) -> (r: String)
    ensures
        r@ == named_line(name@, line@),
{
    "[".to_owned().concat(name).concat("] ").concat(line)
}

/// The plain output that an event of a sync of `count` repositories makes.
pub open spec fn event_words(event: sync::SyncEventView, count: nat) -> Seq<Seq<char>> {
    match event {
        sync::SyncEventView::Planned { workers } => seq![run_head(count, workers), ""@],
        sync::SyncEventView::Line { name, line, .. } => seq![named_line(name, line)],
        _ => Seq::empty(),
    }
}

/// Writes the plain output that an event of a sync of `count` repositories
/// makes.
pub fn event_lines(event: &SyncEvent, count: usize) -> (r: Vec<String>)
    ensures
        text::texts(r@) == event_words(event@, count as nat),
{
    let lines: Vec<String> = match event {
        SyncEvent::Planned { workers } => vec![run_header(count, *workers), "".to_owned()],
        SyncEvent::Line { worker: _, name, line } => vec![
            name_line(name.as_str(), line.as_str()),
        ],
        _ => Vec::new(),
    };
    assert(text::texts(lines@) =~= event_words(event@, count as nat));
    lines
}

/// Whether a repository was left in a state that somebody has to look at.
pub open spec fn is_failure(outcome: SyncOutcome) -> bool {
    outcome == SyncOutcome::PullFailed || outcome == SyncOutcome::BuildFailed || outcome
        == SyncOutcome::StatusFailed
}

/// Whether a result is a failure.
pub fn failed(result: &SyncResult) -> (r: bool)
    ensures
        r == is_failure(result@.outcome),
{
    match result.outcome {
        SyncOutcome::PullFailed => true,
        SyncOutcome::BuildFailed => true,
        SyncOutcome::StatusFailed => true,
        _ => false,
    }
}

/// How a run ends.
pub struct RunEnd {
    /// The line that tells of an abort.
    pub line: Option<String>,
    /// Whether the process ends with a failure.
    pub failed: bool,
}

/// The line that tells of an abort, where there was one.
pub open spec fn abort_line(count: nat, finished: nat, aborted: bool) -> Option<Seq<char>> {
    if !aborted {
        None
    } else if finished < count {
        let missing = (count - finished) as nat;
        Some(
            "\naborted: "@ + text::decimal(missing) + " "@ + repositories(missing)
                + " never started"@,
        )
    } else {
        Some("\naborted"@)
    }
}

/// Whether a run ends with a failure.
pub open spec fn is_failed_run(results: Seq<sync::SyncResultView>, aborted: bool) -> bool {
    aborted || exists|i: int| 0 <= i < results.len() && is_failure(#[trigger] results[i].outcome)
}

/// Ends the run of a sync of `count` repositories: tells of an abort and of the
/// repositories that were never started, and fails where a repository failed or
/// the run was aborted.
pub fn run_sync(results: &Vec<SyncResult>, count: usize, aborted: bool) -> (r: RunEnd)
    requires
        results@.len() <= count,
    ensures
        text::text_option(r.line) == abort_line(count as nat, results@.len(), aborted),
        r.failed == is_failed_run(sync::result_views(results@), aborted),
{
    let ghost views = sync::result_views(results@);
    let missing: usize = count - results.len();
    let line = if !aborted {
        None
    } else if missing > 0 {
        Some(
            "\naborted: ".to_owned().concat(text::decimal_text(missing as u64).as_str()).concat(
                " ",
            ).concat(repositories_text(missing)).concat(" never started"),
        )
    } else {
        Some("\naborted".to_owned())
    };
    let mut any = false;
    for i in 0..results.len()
        invariant
            views == sync::result_views(results@),
            any <==> exists|j: int| 0 <= j < i && is_failure(#[trigger] views[j].outcome),
    {
        assert(views[i as int] == results@[i as int]@);
        if failed(&results[i]) {
            assert(is_failure(views[i as int].outcome));
            any = true;
        }
    }
    RunEnd { line, failed: any || aborted }
}

/// A run fails just when it was aborted, or a pull, a build or a check of a work
/// tree failed; a repository that was passed over fails nothing.
pub proof fn runs_fail_where_a_repository_failed(
    results: Seq<sync::SyncResultView>,
    aborted: bool,
)
    ensures
        is_failed_run(results, aborted) <==> aborted || exists|i: int|
            0 <= i < results.len() && {
                let outcome = (#[trigger] results[i]).outcome;
                outcome == SyncOutcome::PullFailed || outcome == SyncOutcome::BuildFailed || outcome
                    == SyncOutcome::StatusFailed
            },
        (forall|i: int|
            0 <= i < results.len() ==> {
                let outcome = (#[trigger] results[i]).outcome;
                outcome == SyncOutcome::Succeeded || outcome == SyncOutcome::SkippedDirty || outcome
                    == SyncOutcome::SkippedBranch
            }) && !aborted ==> !is_failed_run(results, aborted),
{
    if exists|i: int| 0 <= i < results.len() && is_failure(#[trigger] results[i].outcome) {
        let i = choose|i: int|
            0 <= i < results.len() && is_failure(#[trigger] results[i].outcome);
        let outcome = results[i].outcome;
        assert(outcome == SyncOutcome::PullFailed || outcome == SyncOutcome::BuildFailed || outcome
            == SyncOutcome::StatusFailed);
    }
    if exists|i: int|
        0 <= i < results.len() && {
            let outcome = (#[trigger] results[i]).outcome;
            outcome == SyncOutcome::PullFailed || outcome == SyncOutcome::BuildFailed || outcome
                == SyncOutcome::StatusFailed
        } {
        let i = choose|i: int|
            0 <= i < results.len() && {
                let outcome = (#[trigger] results[i]).outcome;
                outcome == SyncOutcome::PullFailed || outcome == SyncOutcome::BuildFailed || outcome
                    == SyncOutcome::StatusFailed
            };
        assert(is_failure(results[i].outcome));
    }
}

/// An abort is told, with the number of repositories that were never started;
/// without one nothing is told.
pub proof fn aborts_are_told(count: nat, finished: nat, aborted: bool)
    requires
        finished <= count,
    ensures
        !aborted ==> abort_line(count, finished, aborted) is None,
        aborted && finished == count ==> abort_line(count, finished, aborted) == Some("\naborted"@),
        aborted && finished + 1 == count ==> abort_line(count, finished, aborted) == Some(
            "\naborted: 1 repository never started"@,
        ),
        aborted && finished + 1 < count ==> abort_line(count, finished, aborted) == Some(
            "\naborted: "@ + text::decimal((count - finished) as nat)
                + " repositories never started"@,
        ),
{
    reveal_strlit("\naborted: ");
    reveal_strlit(" ");
    reveal_strlit("repository");
    reveal_strlit("repositories");
    reveal_strlit(" never started");
    reveal_strlit("\naborted: 1 repository never started");
    reveal_strlit(" repositories never started");
    assert(text::decimal(1) == seq!['1']);
    assert("\naborted: "@ + seq!['1'] + " "@ + "repository"@ + " never started"@
        =~= "\naborted: 1 repository never started"@);
    let number = text::decimal((count - finished) as nat);
    assert("\naborted: "@ + number + " "@ + "repositories"@ + " never started"@ =~= "\naborted: "@
        + number + " repositories never started"@);
}

/// The head of a run tells how many repositories there are and how many are
/// worked on at a time.
pub proof fn runs_tell_their_size(count: nat, workers: nat)
    ensures
        count == 1 ==> run_head(count, workers) == "pullkit run: 1 repository, "@ + text::decimal(
            workers,
        ) + " at a time"@,
        count != 1 ==> run_head(count, workers) == "pullkit run: "@ + text::decimal(count)
            + " repositories, "@ + text::decimal(workers) + " at a time"@,
{
    reveal_strlit("pullkit run: ");
    reveal_strlit("pullkit run: 1 repository, ");
    reveal_strlit(" ");
    reveal_strlit(", ");
    reveal_strlit("repository");
    reveal_strlit("repositories");
    reveal_strlit(" repositories, ");
    assert(text::decimal(1) == seq!['1']);
    let number = text::decimal(workers);
    assert("pullkit run: "@ + seq!['1'] + " "@ + "repository"@ + ", "@
        =~= "pullkit run: 1 repository, "@);
    assert(" "@ + "repositories"@ + ", "@ =~= " repositories, "@);
    assert(run_head(count, workers) =~= "pullkit run: "@ + text::decimal(count) + (" "@
        + repositories(count) + ", "@) + number + " at a time"@);
}

/// A line of a repository is written with its name in front; the plan is written
/// as the head of the run and an empty line; nothing else is written.
pub proof fn lines_are_written_with_their_names(
    worker: nat,
    name: Seq<char>,
    line: Seq<char>,
    result: sync::SyncResultView,
    count: nat,
)
    ensures
        event_words(sync::SyncEventView::Line { worker, name, line }, count) == seq![
            "["@ + name + "] "@ + line,
        ],
        event_words(sync::SyncEventView::Planned { workers: worker }, count) == seq![
            run_head(count, worker),
            ""@,
        ],
        event_words(sync::SyncEventView::Started { worker, name }, count).len() == 0,
        event_words(sync::SyncEventView::Finished { worker, result }, count).len() == 0,
        named_line(name, line) == "["@ + name + "] "@ + line,
{
}

/// The summary has a line for each result, in order, with the name, the outcome
/// and the message.
pub proof fn summaries_name_every_result(results: Seq<sync::SyncResultView>, i: int)
    requires
        0 <= i < results.len(),
    ensures
        summary(results).len() == results.len() + 1,
        summary(results)[0] == "\nSummary"@,
        summary(results)[i + 1] == "  "@ + width::padded(results[i].name, 20) + " "@ + filled(
            match results[i].outcome {
                SyncOutcome::Succeeded => "succeeded"@,
                SyncOutcome::SkippedDirty => "skippeddirty"@,
                SyncOutcome::SkippedBranch => "skippedbranch"@,
                SyncOutcome::PullFailed => "pullfailed"@,
                SyncOutcome::BuildFailed => "buildfailed"@,
                SyncOutcome::StatusFailed => "statusfailed"@,
            },
            16,
        ) + " "@ + results[i].message,
{
}

/// A field is filled out with spaces behind it to at least its size, and never
/// cut.
pub proof fn fields_are_filled_out(s: Seq<char>, size: nat)
    ensures
        s.is_prefix_of(filled(s, size)),
        filled(s, size).len() == if s.len() < size {
            size
        } else {
            s.len()
        },
        forall|i: int| s.len() <= i < filled(s, size).len() ==> #[trigger] filled(s, size)[i] == ' ',
{
}

/// A line of the plain list: the name, the state of the tree, the branch, whether
/// it is the main one, the commits and the path, in columns. A repository that
/// could not be inspected tells the error behind its path.
pub proof fn the_plain_list_tells_the_status(
    status: status::RepoStatusView,
    commits: Option<commits::RepoCommitsView>,
)
    ensures
        status_line(status, commits) == width::padded(status.name, 20) + " "@ + filled(
            if status.error is Some {
                "error"@
            } else if status.clean {
                "clean"@
            } else {
                "dirty"@
            },
            8,
        ) + " "@ + width::padded(
            if status.error is None && status.branch is Some {
                status.branch->0
            } else {
                "-"@
            },
            12,
        ) + " "@ + filled(
            if status.error is Some {
                "-"@
            } else if status.on_main {
                "yes"@
            } else {
                "no"@
            },
            8,
        ) + " "@ + filled(list::cells_of(commits).local, 16) + " "@ + filled(
            list::cells_of(commits).remote,
            16,
        ) + " "@ + filled(list::cells_of(commits).difference, 21) + " "@ + status.path + (
        if status.error is Some {
            " ("@ + status.error->0 + ")"@
        } else {
            Seq::empty()
        }),
{
    let cells = list::cells_of(commits);
    if status.error is Some {
        let start = list_columns(status.name, "error"@, "-"@, "-"@, cells) + status.path;
        assert(status_line(status, commits) =~= start + (" ("@ + status.error->0 + ")"@));
    } else {
        assert(status_line(status, commits) =~= status_line(status, commits) + Seq::<
            char,
        >::empty());
    }
}

/// The header of the plain list names its columns, each as wide as in the lines
/// below.
pub proof fn the_plain_list_names_its_columns()
    ensures
        list_header() == width::padded("REPOSITORY"@, 20) + " "@ + filled("TREE"@, 8) + " "@
            + width::padded("BRANCH"@, 12) + " "@ + filled("ON MAIN"@, 8) + " "@ + filled(
            "LOCAL COMMIT"@,
            16,
        ) + " "@ + filled("REMOTE COMMIT"@, 16) + " "@ + filled("DIFFERENCE"@, 21) + " "@
            + "PATH"@,
{
}

} // verus!
