//! The list of the repositories: one row for each, on the screen of a terminal
//! where rows can be chosen, or as plain lines.

use crate::commits::{self, RepoCommits};
use crate::config::{self, RepoConfig};
use crate::status::{self, RepoStatus};
use crate::style::{Color, Input, Key, KeyKind};
use crate::text;
use crate::width::{self, display_width, fit_to_width, pad_to_width, truncate_to_width};
use vstd::prelude::*;

verus! {

/// Wide enough for the longest usual label, `diverged by 12 months`.
pub const DIFFERENCE_WIDTH: usize = 21;

pub const DATE_WIDTH: usize = 16;

pub const NAME_WIDTH: usize = 20;

pub const STATUS_WIDTH: usize = 14;

pub const BRANCH_WIDTH: usize = 12;

/// A path is not worth showing in fewer columns than this.
pub const MIN_PATH_WIDTH: usize = 8;

/// The columns of the left side of a row: the box, the name and the state, each
/// with a space behind it.
pub const LEFT_WIDTH: usize = 40;

/// What a row tells of a repository's commits.
#[derive(Debug)]
pub struct CommitCells {
    pub local: String,
    pub remote: String,
    pub difference: String,
}

/// What `CommitCells` hold.
#[verifier::ext_equal]
pub struct CommitCellsView {
    pub local: Seq<char>,
    pub remote: Seq<char>,
    pub difference: Seq<char>,
}

impl View for CommitCells {
    type V = CommitCellsView;

    open spec fn view(&self) -> CommitCellsView {
        CommitCellsView {
            local: self.local@,
            remote: self.remote@,
            difference: self.difference@,
        }
    }
}

/// The date of a commit, or a dash where there is none.
pub open spec fn date_or_dash(commit: Option<commits::CommitInfoView>) -> Seq<char> {
    match commit {
        Some(commit) => commit.date,
        None => "-"@,
    }
}

/// What a row tells of commits; `None` while they are being inspected.
pub open spec fn cells_of(commits: Option<commits::RepoCommitsView>) -> CommitCellsView {
    match commits {
        None => CommitCellsView { local: "-"@, remote: "-"@, difference: "fetching..."@ },
        Some(commits) => CommitCellsView {
            local: date_or_dash(commits.local),
            remote: date_or_dash(commits.remote),
            difference: match commits.difference {
                Some(difference) => difference,
                None => if commits.error is Some {
                    "unavailable"@
                } else {
                    "-"@
                },
            },
        },
    }
}

/// What a list of inspections holds.
pub open spec fn commits_view(commits: Option<RepoCommits>) -> Option<commits::RepoCommitsView> {
    match commits {
        Some(commits) => Some(commits@),
        None => None,
    }
}

fn date_text(commit: &Option<commits::CommitInfo>) -> (r: String)
    ensures
        r@ == date_or_dash(commits::commit_option(*commit)),
{
    match commit {
        Some(commit) => commit.date.clone(),
        None => "-".to_owned(),
    }
}

/// What a row tells of commits; `None` while they are being inspected.
pub fn commit_cells(commits: &Option<RepoCommits>) -> (r: CommitCells)
    ensures
        r@ == cells_of(commits_view(*commits)),
{
    match commits {
        None => CommitCells {
            local: "-".to_owned(),
            remote: "-".to_owned(),
            difference: "fetching...".to_owned(),
        },
        Some(commits) => CommitCells {
            local: date_text(&commits.local),
            remote: date_text(&commits.remote),
            difference: match &commits.difference {
                Some(difference) => difference.clone(),
                None => if commits.error.is_some() {
                    "unavailable".to_owned()
                } else {
                    "-".to_owned()
                },
            },
        },
    }
}

/// The columns of a text as far as they are counted.
pub open spec fn measured(s: Seq<char>) -> nat {
    width::counted(width::columns(s))
}

/// The commit columns with both dates.
pub open spec fn both_dates(cells: CommitCellsView) -> Seq<char> {
    width::fitted(cells.local, DATE_WIDTH as nat) + "  "@ + width::fitted(
        cells.remote,
        DATE_WIDTH as nat,
    ) + "  "@ + width::padded(cells.difference, DIFFERENCE_WIDTH as nat)
}

/// The commit columns with the local date only.
pub open spec fn local_date(cells: CommitCellsView) -> Seq<char> {
    width::fitted(cells.local, DATE_WIDTH as nat) + "  "@ + width::padded(
        cells.difference,
        DIFFERENCE_WIDTH as nat,
    )
}

/// The commit columns without a date.
pub open spec fn no_date(cells: CommitCellsView) -> Seq<char> {
    width::padded(cells.difference, DIFFERENCE_WIDTH as nat)
}

/// Whether the commit columns find room beside the left side of a row.
pub open spec fn has_room(left: Seq<char>, cols: Seq<char>, width: nat) -> bool {
    measured(left) + measured(cols) <= width
}

/// Whether a path finds room between them.
pub open spec fn has_path_room(left: Seq<char>, cols: Seq<char>, width: nat) -> bool {
    measured(left) + measured(cols) + 2 + MIN_PATH_WIDTH <= width
}

/// A row with these commit columns, and with the path where it finds room.
pub open spec fn row_with(left: Seq<char>, path: Seq<char>, cols: Seq<char>, width: nat) -> Seq<
    char,
> {
    if has_path_room(left, cols, width) {
        left + width::fitted(path, (width - measured(left) - measured(cols) - 2) as nat) + "  "@
            + cols
    } else {
        left + cols
    }
}

/// The columns set aside for a difference that stands alone on the right.
pub open spec fn reserved(difference: Seq<char>) -> nat {
    if measured(difference) > DIFFERENCE_WIDTH {
        measured(difference)
    } else {
        DIFFERENCE_WIDTH as nat
    }
}

/// A row of the list. What finds no room is given up: the path first, then the
/// remote date, then the local date, then the end of the left side. The
/// difference is not given up.
pub open spec fn row(
    left: Seq<char>,
    path: Seq<char>,
    cells: CommitCellsView,
    width: nat,
) -> Seq<char> {
    if has_room(left, both_dates(cells), width) {
        row_with(left, path, both_dates(cells), width)
    } else if has_room(left, local_date(cells), width) {
        left + local_date(cells)
    } else if has_room(left, no_date(cells), width) {
        left + no_date(cells)
    } else if reserved(cells.difference) < width {
        width::fitted(left, (width - reserved(cells.difference) - 1) as nat) + " "@
            + cells.difference
    } else {
        width::truncated(cells.difference, width)
    }
}

/// Whether `s` has `part` in it.
pub open spec fn holds(s: Seq<char>, part: Seq<char>) -> bool {
    exists|k: int|
        0 <= k <= s.len() - part.len() && #[trigger] s.subrange(k, k + part.len()) == part
}

proof fn lemma_holds(a: Seq<char>, part: Seq<char>, b: Seq<char>)
    ensures
        holds(a + part + b, part),
{
    let s = a + part + b;
    assert(s.subrange(a.len() as int, a.len() as int + part.len()) == part);
}

/// What is padded at the end of a row is still in it.
proof fn lemma_holds_padded(a: Seq<char>, part: Seq<char>, size: nat)
    ensures
        holds(a + width::padded(part, size), part),
{
    if width::columns(part) < size {
        let blanks = text::repeated(' ', (size - width::columns(part)) as nat);
        lemma_holds(a, part, blanks);
        assert(a + width::padded(part, size) == a + part + blanks);
    } else {
        lemma_holds(a, part, Seq::empty());
        assert(a + width::padded(part, size) == a + part + Seq::<char>::empty());
    }
}

/// Where the commit columns find room, a row has the difference in it.
proof fn lemma_row_holds_difference(
    left: Seq<char>,
    path: Seq<char>,
    cells: CommitCellsView,
    width: nat,
)
    requires
        has_any_room(left, cells, width) || reserved(cells.difference) < width,
    ensures
        holds(row(left, path, cells, width), cells.difference),
{
    let all = row(left, path, cells, width);
    let last = no_date(cells);
    if has_any_room(left, cells, width) {
        let front = all.take(all.len() - last.len());
        assert(all == front + last);
        lemma_holds_padded(front, cells.difference, DIFFERENCE_WIDTH as nat);
    } else {
        let front = all.take(all.len() - cells.difference.len());
        lemma_holds(front, cells.difference, Seq::empty());
        assert(all == front + cells.difference + Seq::<char>::empty());
    }
}

/// The difference as far as a row of this width can hold it.
pub open spec fn shown_difference(difference: Seq<char>, width: nat) -> Seq<char> {
    if width::columns(difference) <= width {
        difference
    } else {
        width::truncated(difference, width)
    }
}

/// The column that a difference of a usual width starts at, in a row whose left
/// side is `left` columns wide.
pub open spec fn difference_column(left: nat, width: nat) -> nat {
    let date = DATE_WIDTH as nat + 2;
    let difference = DIFFERENCE_WIDTH as nat;
    if left + 2 * date + difference + 2 + MIN_PATH_WIDTH <= width {
        (width - difference) as nat
    } else if left + 2 * date + difference <= width {
        left + 2 * date
    } else if left + date + difference <= width {
        left + date
    } else if left + difference <= width {
        left
    } else if difference < width {
        (width - difference) as nat
    } else {
        0
    }
}

/// Whether `part` stands in the row with `column` columns in front of it.
#[verifier::opaque]
pub open spec fn stands_at(row: Seq<char>, part: Seq<char>, column: nat) -> bool {
    exists|k: int|
        0 <= k <= row.len() && width::columns(#[trigger] row.take(k)) == column
            && part.is_prefix_of(row.skip(k))
}

proof fn lemma_stands_at(front: Seq<char>, rest: Seq<char>, part: Seq<char>)
    requires
        part.is_prefix_of(rest),
    ensures
        stands_at(front + rest, part, width::columns(front)),
{
    reveal(stands_at);
    let row = front + rest;
    let k = front.len() as int;
    assert(row.take(k) =~= front);
    assert(row.skip(k) =~= rest);
}

fn fits(left: usize, cols: usize, more: usize, width: usize) -> (r: bool)
    ensures
        r == (left + cols + more <= width),
{
    left as u128 + cols as u128 + more as u128 <= width as u128
}

/// Whether every cell is of printable ASCII.
pub open spec fn is_plain_cells(cells: CommitCellsView) -> bool {
    width::is_plain(cells.local) && width::is_plain(cells.remote) && width::is_plain(
        cells.difference,
    )
}

/// What stands in front of the difference in commit columns with both dates, or
/// with the local one.
pub open spec fn dates(cells: CommitCellsView, both: bool) -> Seq<char> {
    let local = width::fitted(cells.local, DATE_WIDTH as nat) + "  "@;
    if both {
        local + width::fitted(cells.remote, DATE_WIDTH as nat) + "  "@
    } else {
        local
    }
}

/// The commit columns with both dates, with the local one, and with none.
fn commit_columns(cells: &CommitCells) -> (r: (String, String, String))
    ensures
        r.0@ == both_dates(cells@),
        r.1@ == local_date(cells@),
        r.2@ == no_date(cells@),
        width::columns(r.0@) == DATE_WIDTH + 2 + width::columns(r.1@),
        width::columns(r.1@) == DATE_WIDTH + 2 + width::columns(r.2@),
        width::columns(r.2@) == if width::columns(cells.difference@) < DIFFERENCE_WIDTH {
            DIFFERENCE_WIDTH as nat
        } else {
            width::columns(cells.difference@)
        },
        width::columns(dates(cells@, true)) == 2 * (DATE_WIDTH + 2),
        width::columns(dates(cells@, false)) == DATE_WIDTH + 2,
        width::spaces_count(),
        is_plain_cells(cells@) ==> width::is_plain(r.0@) && width::is_plain(r.1@)
            && width::is_plain(r.2@),
{
    proof {
        reveal_strlit("  ");
    }
    let difference = pad_to_width(cells.difference.as_str(), DIFFERENCE_WIDTH);
    let local = fit_to_width(cells.local.as_str(), DATE_WIDTH);
    let remote = fit_to_width(cells.remote.as_str(), DATE_WIDTH);
    let short = local.clone().concat("  ").concat(difference.as_str());
    let full = local.clone().concat("  ").concat(remote.as_str()).concat("  ").concat(
        difference.as_str(),
    );
    proof {
        let rest = remote@ + "  "@ + difference@;
        lemma_behind_path(local@, difference@);
        lemma_behind_path(remote@, difference@);
        lemma_behind_path(local@, rest);
        assert(full@ =~= local@ + "  "@ + rest);
        let none = Seq::<char>::empty();
        assert(text::repeated(' ', 0) + none =~= none);
        assert("  "@ + none =~= "  "@);
        lemma_behind_path(local@, none);
        lemma_behind_path(remote@, none);
        lemma_behind_path(local@, remote@ + "  "@ + none);
        assert(dates(cells@, false) =~= local@ + "  "@ + none);
        assert(dates(cells@, true) =~= local@ + "  "@ + (remote@ + "  "@ + none));
    }
    (full, short, difference)
}

/// Whether what is put behind `left` starts afresh: `left` ends in a space, or
/// there is nothing of it.
pub open spec fn ends_clear(left: Seq<char>) -> bool {
    left.len() == 0 || left.last() == ' '
}

/// Whether the characters where `left` and the rest of the row meet are drawn in
/// more columns than they take apart, as a number sign and a variation selector
/// behind it are.
pub open spec fn grows_at_seam(left: Seq<char>, row: Seq<char>) -> bool {
    left.is_prefix_of(row) && width::columns(row) > width::columns(left) + width::columns(
        row.skip(left.len() as int),
    )
}

/// The columns of what is put behind a left side that ends clear come on top.
proof fn lemma_behind_left(left: Seq<char>, rest: Seq<char>)
    requires
        ends_clear(left),
        width::adds_up(left),
        width::columns(Seq::empty()) == 0,
    ensures
        width::columns(left + rest) == width::columns(left) + width::columns(rest),
{
    if left.len() == 0 {
        assert(left =~= Seq::empty());
        assert(left + rest =~= rest);
    } else {
        assert(width::is_parted(left, rest));
    }
}

/// The columns of what a row with a path has behind its left side.
proof fn lemma_behind_path(path: Seq<char>, cols: Seq<char>)
    requires
        width::adds_up(path),
        width::spaces_count(),
    ensures
        width::columns(path + "  "@ + cols) == width::columns(path) + 2 + width::columns(cols),
{
    reveal_strlit("  ");
    assert("  "@ =~= text::repeated(' ', 2));
    let rest = text::repeated(' ', 2) + cols;
    assert(path + "  "@ + cols =~= path + rest);
    assert(width::is_parted(path, rest));
    assert(width::columns(rest) == 2 + width::columns(cols));
}

/// The row with the commit columns `cols` alone, where they find room.
fn row_if_room(left: &str, cols: &str, width: usize) -> (r: Option<String>)
    ensures
        r is Some <==> has_room(left@, cols@, width as nat),
        r is Some ==> r->0@ == left@ + cols@,
        r is Some && width < usize::MAX ==> width::columns(r->0@) <= width || grows_at_seam(
            left@,
            r->0@,
        ),
        r is Some && ends_clear(left@) ==> !grows_at_seam(left@, r->0@),
        r is Some && width::is_plain(left@) && width::is_plain(cols@) ==> width::is_plain(r->0@)
            && r->0@.len() <= width,
{
    let left_width: usize = display_width(left);
    let cols_width: usize = display_width(cols);
    if fits(left_width, cols_width, 0, width) {
        proof {
            if ends_clear(left@) {
                lemma_behind_left(left@, cols@);
            }
            assert((left@ + cols@).skip(left@.len() as int) =~= cols@);
        }
        return Some(left.to_owned().concat(cols));
    }
    None
}

/// The row with the commit columns `cols`, where they find room, and with the
/// path, where that finds room too.
fn row_with_path(left: &str, path: &str, cols: &str, width: usize) -> (r: Option<String>)
    ensures
        r is Some <==> has_room(left@, cols@, width as nat),
        r is Some ==> r->0@ == row_with(left@, path@, cols@, width as nat),
        width::adds_up(left@),
        width::columns(Seq::empty()) == 0,
        has_path_room(left@, cols@, width as nat) ==> ({
            let room = (width - measured(left@) - measured(cols@) - 2) as nat;
            &&& width::adds_up(width::fitted(path@, room))
            &&& width::columns(width::fitted(path@, room)) == room
        }),
        r is Some && width < usize::MAX ==> width::columns(r->0@) <= width || grows_at_seam(
            left@,
            r->0@,
        ),
        r is Some && ends_clear(left@) ==> !grows_at_seam(left@, r->0@),
        r is Some && width::is_plain(left@) && width::is_plain(path@) && width::is_plain(cols@)
            ==> width::is_plain(r->0@) && r->0@.len() <= width,
{
    proof {
        reveal_strlit("  ");
    }
    let left_width: usize = display_width(left);
    let cols_width: usize = display_width(cols);
    if fits(left_width, cols_width, 2 + MIN_PATH_WIDTH, width) {
        let path = fit_to_width(path, width - left_width - cols_width - 2);
        let r = left.to_owned().concat(path.as_str()).concat("  ").concat(cols);
        proof {
            let rest = path@ + "  "@ + cols@;
            lemma_behind_path(path@, cols@);
            if ends_clear(left@) {
                lemma_behind_left(left@, rest);
            }
            assert(r@ =~= left@ + rest);
            assert(r@.skip(left@.len() as int) =~= rest);
        }
        return Some(r);
    }
    row_if_room(left, cols, width)
}

/// The row of a terminal that no commit columns find room on beside the left
/// side. The room set aside for the difference is the same on every row with a
/// usual label, so that the column stays put down the list.
fn narrow_row(left: &str, difference: &str, width: usize) -> (r: String)
    ensures
        reserved(difference@) < width ==> r@ == width::fitted(
            left@,
            (width - reserved(difference@) - 1) as nat,
        ) + " "@ + difference@,
        reserved(difference@) >= width ==> r@ == width::truncated(difference@, width as nat),
        reserved(difference@) >= width && width::columns(difference@) <= width ==> r@
            == difference@,
        width < usize::MAX ==> width::columns(r@) <= width,
        width < usize::MAX ==> stands_at(
            r@,
            shown_difference(difference@, width as nat),
            if reserved(difference@) < width {
                (width - reserved(difference@)) as nat
            } else {
                0
            },
        ),
        width::is_plain(left@) && width::is_plain(difference@) ==> width::is_plain(r@) && r@.len()
            <= width,
{
    proof {
        reveal_strlit(" ");
    }
    let own: usize = display_width(difference);
    let set_aside: usize = if own > DIFFERENCE_WIDTH {
        own
    } else {
        DIFFERENCE_WIDTH
    };
    if set_aside >= width {
        let r = truncate_to_width(difference, width);
        proof {
            lemma_stands_at(Seq::empty(), r@, r@);
            assert(Seq::empty() + r@ =~= r@);
        }
        return r;
    }
    let kept = fit_to_width(left, width - set_aside - 1);
    let r = kept.clone().concat(" ").concat(difference);
    proof {
        assert(" "@ =~= text::repeated(' ', 1));
        let rest = text::repeated(' ', 1) + difference@;
        assert(r@ =~= kept@ + rest);
        assert(width::is_parted(kept@, rest));
        assert(width::columns(rest) == 1 + width::columns(difference@));
        assert(" "@ + Seq::<char>::empty() =~= " "@);
        assert(width::is_parted(kept@, " "@));
        lemma_stands_at(kept@ + " "@, difference@, difference@);
    }
    r
}

/// Where the commit columns find room, a difference of a usual width stands where
/// the left side and the width say.
proof fn lemma_difference_stands(
    left: Seq<char>,
    path: Seq<char>,
    cells: CommitCellsView,
    width: nat,
)
    requires
        ends_clear(left),
        width < usize::MAX,
        width::columns(cells.difference) <= DIFFERENCE_WIDTH,
        width::columns(no_date(cells)) == DIFFERENCE_WIDTH,
        width::columns(local_date(cells)) == DATE_WIDTH + 2 + DIFFERENCE_WIDTH,
        width::columns(both_dates(cells)) == 2 * (DATE_WIDTH + 2) + DIFFERENCE_WIDTH,
        width::columns(dates(cells, true)) == 2 * (DATE_WIDTH + 2),
        width::columns(dates(cells, false)) == DATE_WIDTH + 2,
        width::adds_up(left),
        width::spaces_count(),
        width::columns(Seq::empty()) == 0,
        has_path_room(left, both_dates(cells), width) ==> ({
            let room = (width - measured(left) - measured(both_dates(cells)) - 2) as nat;
            &&& width::adds_up(width::fitted(path, room))
            &&& width::columns(width::fitted(path, room)) == room
        }),
    ensures
        has_room(left, no_date(cells), width) ==> stands_at(
            row(left, path, cells, width),
            cells.difference,
            difference_column(width::columns(left), width),
        ),
{
    let last = no_date(cells);
    let all = row(left, path, cells, width);
    assert(cells.difference.is_prefix_of(last));
    if has_path_room(left, both_dates(cells), width) {
        let room = (width - measured(left) - measured(both_dates(cells)) - 2) as nat;
        let shown = width::fitted(path, room);
        let mid = shown + "  "@ + dates(cells, true);
        lemma_behind_path(shown, dates(cells, true));
        lemma_behind_left(left, mid);
        assert(all =~= left + mid + last);
        lemma_stands_at(left + mid, last, cells.difference);
    } else if has_room(left, both_dates(cells), width) {
        lemma_behind_left(left, dates(cells, true));
        assert(all =~= left + dates(cells, true) + last);
        lemma_stands_at(left + dates(cells, true), last, cells.difference);
    } else if has_room(left, local_date(cells), width) {
        lemma_behind_left(left, dates(cells, false));
        assert(all =~= left + dates(cells, false) + last);
        lemma_stands_at(left + dates(cells, false), last, cells.difference);
    } else if has_room(left, last, width) {
        lemma_stands_at(left, last, cells.difference);
    }
}

/// Whether any commit columns find room beside the left side of a row.
pub open spec fn has_any_room(left: Seq<char>, cells: CommitCellsView, width: nat) -> bool {
    has_room(left, both_dates(cells), width) || has_room(left, local_date(cells), width)
        || has_room(left, no_date(cells), width)
}

/// The row of a terminal that some commit columns find room on beside the left
/// side.
fn roomy_row(left: &str, path: &str, cells: &CommitCells, width: usize) -> (r: Option<String>)
    ensures
        r is Some <==> has_any_room(left@, cells@, width as nat),
        r is Some ==> r->0@ == row(left@, path@, cells@, width as nat),
        r is Some && width < usize::MAX ==> width::columns(cells.difference@) <= width,
        r is Some && width < usize::MAX ==> width::columns(r->0@) <= width || grows_at_seam(
            left@,
            r->0@,
        ),
        r is Some && ends_clear(left@) ==> !grows_at_seam(left@, r->0@),
        r is Some && width < usize::MAX && ends_clear(left@) && width::columns(cells.difference@)
            <= DIFFERENCE_WIDTH ==> stands_at(
            r->0@,
            cells.difference@,
            difference_column(width::columns(left@), width as nat),
        ),
        r is None && width < usize::MAX && width::columns(cells.difference@) <= DIFFERENCE_WIDTH
            ==> width::columns(left@) + DIFFERENCE_WIDTH > width,
        r is Some && width::is_plain(left@) && width::is_plain(path@) && is_plain_cells(cells@)
            ==> width::is_plain(r->0@) && r->0@.len() <= width,
{
    let (full, short, difference) = commit_columns(cells);
    let with_path = row_with_path(left, path, full.as_str(), width);
    proof {
        if width < usize::MAX && ends_clear(left@) && width::columns(cells.difference@)
            <= DIFFERENCE_WIDTH {
            lemma_difference_stands(left@, path@, cells@, width as nat);
        }
    }
    match with_path {
        Some(row) => return Some(row),
        None => {},
    }
    match row_if_room(left, short.as_str(), width) {
        Some(row) => return Some(row),
        None => {},
    }
    row_if_room(left, difference.as_str(), width)
}

/// Lays out `left`, a path that takes the columns that are left, and the commit
/// columns against the right edge. A narrow terminal cannot hold all of it, so
/// things are given up in the order of how little they are missed; the
/// difference is the answer that the list exists to give and stays whole
/// wherever the terminal is wide enough for it. The row never runs past the edge,
/// but where the characters grow at the seam behind the left side, which they do
/// not where it ends in a space. A difference of a usual width then stands at a
/// column that the widths of the left side and of the row decide, whatever the row
/// holds.
pub fn tui_row(left: &str, path: &str, cells: &CommitCells, width: usize) -> (r: String)
    ensures
        r@ == row(left@, path@, cells@, width as nat),
        width::columns(cells.difference@) <= width ==> holds(r@, cells.difference@),
        width < usize::MAX && width::columns(cells.difference@) > width ==> r@
            == width::truncated(cells.difference@, width as nat),
        width < usize::MAX ==> width::columns(r@) <= width || grows_at_seam(left@, r@),
        width < usize::MAX && ends_clear(left@) ==> width::columns(r@) <= width,
        width < usize::MAX && ends_clear(left@) && width::columns(cells.difference@)
            <= DIFFERENCE_WIDTH ==> stands_at(
            r@,
            shown_difference(cells.difference@, width as nat),
            difference_column(width::columns(left@), width as nat),
        ),
        width::is_plain(left@) && width::is_plain(path@) && is_plain_cells(cells@)
            ==> width::is_plain(r@) && r@.len() <= width,
{
    proof {
        if has_any_room(left@, cells@, width as nat) || reserved(cells@.difference) < width {
            lemma_row_holds_difference(left@, path@, cells@, width as nat);
        } else {
            lemma_holds(Seq::empty(), cells.difference@, Seq::empty());
            assert(Seq::<char>::empty() + cells.difference@ + Seq::<char>::empty()
                == cells.difference@);
        }
    }
    match roomy_row(left, path, cells, width) {
        Some(row) => row,
        None => narrow_row(left, cells.difference.as_str(), width),
    }
}

/// The path is given up first: where the commit columns with both dates find no
/// room beside the left side, a row does not show any of the path.
pub proof fn the_path_is_given_up_first(
    left: Seq<char>,
    path: Seq<char>,
    other: Seq<char>,
    cells: CommitCellsView,
    width: nat,
)
    requires
        !has_room(left, both_dates(cells), width),
    ensures
        row(left, path, cells, width) == row(left, other, cells, width),
{
}

/// Both dates are shown wherever the commit columns with both find room beside
/// the left side; where they do not, the local date is still shown wherever it
/// finds room without the remote one.
pub proof fn the_remote_date_is_given_up_first(
    left: Seq<char>,
    path: Seq<char>,
    cells: CommitCellsView,
    width: nat,
)
    ensures
        has_room(left, both_dates(cells), width) ==> holds(
            row(left, path, cells, width),
            width::fitted(cells.local, DATE_WIDTH as nat) + "  "@ + width::fitted(
                cells.remote,
                DATE_WIDTH as nat,
            ),
        ),
        has_room(left, both_dates(cells), width) || has_room(left, local_date(cells), width)
            ==> holds(
            row(left, path, cells, width),
            width::fitted(cells.local, DATE_WIDTH as nat),
        ),
{
    let all = row(left, path, cells, width);
    let local = width::fitted(cells.local, DATE_WIDTH as nat);
    let remote = width::fitted(cells.remote, DATE_WIDTH as nat);
    if has_room(left, both_dates(cells), width) {
        let cols = both_dates(cells);
        let front = all.take(all.len() - cols.len());
        let dates = local + "  "@ + remote;
        let rest = cols.skip(dates.len() as int);
        assert(all == front + dates + rest);
        lemma_holds(front, dates, rest);
        let later = cols.skip(local.len() as int);
        assert(all == front + local + later);
        lemma_holds(front, local, later);
    } else if has_room(left, local_date(cells), width) {
        let cols = local_date(cells);
        let front = all.take(all.len() - cols.len());
        let later = cols.skip(local.len() as int);
        assert(all == front + local + later);
        lemma_holds(front, local, later);
    }
}

/// The state of a repository in a word or two.
pub open spec fn status_words(status: status::RepoStatusView) -> Seq<char> {
    if !status.path_exists {
        "Missing"@
    } else if status.error is Some {
        "Error"@
    } else if !status.clean {
        "Dirty"@
    } else if !status.on_main {
        match status.branch {
            Some(branch) => branch,
            None => "Other branch"@,
        }
    } else {
        "Ready"@
    }
}

/// Puts the state of a repository in a word or two.
pub fn tui_status(status: &RepoStatus) -> (r: String)
    ensures
        r@ == status_words(status@),
{
    if !status.path_exists {
        return "Missing".to_owned();
    }
    if status.error.is_some() {
        return "Error".to_owned();
    }
    if !status.clean {
        return "Dirty".to_owned();
    }
    if !status.on_main {
        return match &status.branch {
            Some(branch) => branch.clone(),
            None => "Other branch".to_owned(),
        };
    }
    "Ready".to_owned()
}

/// The colour that shows the state of a repository.
pub open spec fn status_color(status: status::RepoStatusView) -> Color {
    if !status.path_exists {
        Color::DarkGrey
    } else if status.error is Some {
        Color::Red
    } else if !status.clean {
        Color::Yellow
    } else if !status.on_main {
        Color::Magenta
    } else {
        Color::Green
    }
}

/// The colour that shows the state of a repository.
pub fn tui_status_color(status: &RepoStatus) -> (r: Color)
    ensures
        r == status_color(status@),
{
    if !status.path_exists {
        return Color::DarkGrey;
    }
    if status.error.is_some() {
        return Color::Red;
    }
    if !status.clean {
        return Color::Yellow;
    }
    if !status.on_main {
        return Color::Magenta;
    }
    Color::Green
}

/// What a list of statuses holds.
pub open spec fn status_views(statuses: Seq<RepoStatus>) -> Seq<status::RepoStatusView> {
    Seq::new(statuses.len(), |i: int| statuses[i]@)
}

/// Which row the cursor is on, and which rows are chosen.
#[derive(Debug)]
pub struct TuiState {
    pub cursor: usize,
    pub selected: Vec<bool>,
}

/// What a `TuiState` holds.
#[verifier::ext_equal]
pub struct TuiStateView {
    pub cursor: nat,
    pub selected: Seq<bool>,
}

impl View for TuiState {
    type V = TuiStateView;

    open spec fn view(&self) -> TuiStateView {
        TuiStateView { cursor: self.cursor as nat, selected: self.selected@ }
    }
}

/// The state that a list of `count` rows begins with.
pub open spec fn first_state(count: nat) -> TuiStateView {
    TuiStateView { cursor: 0, selected: Seq::new(count, |i: int| false) }
}

/// How many of the rows are chosen.
pub open spec fn chosen_count(selected: Seq<bool>) -> nat
    decreases selected.len(),
{
    if selected.len() == 0 {
        0
    } else {
        chosen_count(selected.drop_last()) + if selected.last() {
            1nat
        } else {
            0
        }
    }
}

/// Whether every repository that is there is chosen.
pub open spec fn is_all_chosen(
    selected: Seq<bool>,
    statuses: Seq<status::RepoStatusView>,
) -> bool {
    forall|i: int| 0 <= i < statuses.len() && statuses[i].path_exists ==> #[trigger] selected[i]
}

impl TuiStateView {
    /// The cursor a row up, if there is one.
    pub open spec fn up(self) -> TuiStateView {
        TuiStateView {
            cursor: if self.cursor > 0 {
                (self.cursor - 1) as nat
            } else {
                0
            },
            ..self
        }
    }

    /// The cursor a row down, if there is one.
    pub open spec fn down(self) -> TuiStateView {
        TuiStateView {
            cursor: if self.cursor + 1 < self.selected.len() {
                self.cursor + 1
            } else {
                self.cursor
            },
            ..self
        }
    }

    /// The row under the cursor chosen, or no longer chosen, if its repository
    /// is there.
    pub open spec fn toggled(self, statuses: Seq<status::RepoStatusView>) -> TuiStateView {
        if statuses[self.cursor as int].path_exists {
            TuiStateView {
                selected: self.selected.update(
                    self.cursor as int,
                    !self.selected[self.cursor as int],
                ),
                ..self
            }
        } else {
            self
        }
    }

    /// Every repository that is there chosen, or none if all of them were.
    pub open spec fn all_toggled(self, statuses: Seq<status::RepoStatusView>) -> TuiStateView {
        let wanted = !is_all_chosen(self.selected, statuses);
        TuiStateView {
            selected: Seq::new(
                self.selected.len(),
                |i: int|
                    if i < statuses.len() && statuses[i].path_exists {
                        wanted
                    } else {
                        self.selected[i]
                    },
            ),
            ..self
        }
    }

    /// Whether the state is one of a list of these repositories: it has a place
    /// for each, the cursor is on one of them, and none that is missing is
    /// chosen.
    pub open spec fn is_sound(self, statuses: Seq<status::RepoStatusView>) -> bool {
        &&& self.selected.len() == statuses.len()
        &&& self.cursor < statuses.len() || self.cursor == 0
        &&& forall|i: int|
            0 <= i < statuses.len() && #[trigger] self.selected[i] ==> statuses[i].path_exists
    }
}

impl TuiState {
    /// The cursor on the first row, and nothing chosen.
    pub fn new(repo_count: usize) -> (r: TuiState)
        ensures
            r@ == first_state(repo_count as nat),
    {
        let mut selected: Vec<bool> = Vec::new();
        for i in 0..repo_count
            invariant
                selected@ == Seq::new(i as nat, |j: int| false),
        {
            selected.push(false);
            assert(selected@ =~= Seq::new((i + 1) as nat, |j: int| false));
        }
        TuiState { cursor: 0, selected }
    }

    /// Moves the cursor a row up.
    pub fn move_up(&mut self)
        ensures
            final(self)@ == old(self)@.up(),
    {
        self.cursor = self.cursor.saturating_sub(1);
    }

    /// Moves the cursor a row down.
    pub fn move_down(&mut self)
        requires
            old(self).cursor < usize::MAX,
        ensures
            final(self)@ == old(self)@.down(),
    {
        if self.cursor + 1 < self.selected.len() {
            self.cursor = self.cursor + 1;
        }
    }

    /// Chooses the row under the cursor, or lets it go, if its repository is
    /// there.
    pub fn toggle_current(&mut self, statuses: &Vec<RepoStatus>)
        requires
            old(self).cursor < statuses@.len(),
            statuses@[old(self).cursor as int].path_exists ==> old(self).cursor < old(
                self,
            ).selected@.len(),
        ensures
            final(self)@ == old(self)@.toggled(status_views(statuses@)),
    {
        assert(status_views(statuses@)[self.cursor as int] == statuses@[self.cursor as int]@);
        if statuses[self.cursor].path_exists {
            let chosen = self.selected[self.cursor];
            self.selected.set(self.cursor, !chosen);
        }
    }

    /// Chooses every repository that is there, or lets all of them go if all
    /// were chosen.
    pub fn toggle_all(&mut self, statuses: &Vec<RepoStatus>)
        requires
            statuses@.len() <= old(self).selected@.len(),
        ensures
            final(self)@ == old(self)@.all_toggled(status_views(statuses@)),
    {
        let ghost views = status_views(statuses@);
        let ghost before = self.selected@;
        let mut all = true;
        for i in 0..statuses.len()
            invariant
                self.selected@ == before,
                views == status_views(statuses@),
                statuses@.len() <= before.len(),
                all ==> forall|j: int|
                    0 <= j < i && views[j].path_exists ==> #[trigger] before[j],
                !all ==> exists|j: int|
                    0 <= j < i && views[j].path_exists && !#[trigger] before[j],
        {
            assert(views[i as int] == statuses@[i as int]@);
            if statuses[i].path_exists && !self.selected[i] {
                assert(!before[i as int]);
                all = false;
            }
        }
        assert(all == is_all_chosen(before, views));
        let ghost goal = old(self)@.all_toggled(views).selected;
        for i in 0..statuses.len()
            invariant
                views == status_views(statuses@),
                statuses@.len() <= before.len(),
                before == old(self).selected@,
                self.cursor == old(self).cursor,
                goal == old(self)@.all_toggled(views).selected,
                all == is_all_chosen(before, views),
                self.selected@ == goal.take(i as int) + before.skip(i as int),
        {
            assert(views[i as int] == statuses@[i as int]@);
            if statuses[i].path_exists {
                self.selected.set(i, !all);
            }
            assert(self.selected@ =~= goal.take(i + 1) + before.skip(i + 1));
        }
        assert(self.selected@ =~= goal);
    }

    /// How many rows are chosen.
    pub fn selected_count(&self) -> (r: usize)
        ensures
            r == chosen_count(self@.selected),
            r <= self.selected@.len(),
    {
        let mut count: usize = 0;
        for i in 0..self.selected.len()
            invariant
                count == chosen_count(self.selected@.take(i as int)),
                count <= i,
        {
            assert(self.selected@.take(i + 1).drop_last() == self.selected@.take(i as int));
            if self.selected[i] {
                count = count + 1;
            }
        }
        assert(self.selected@.take(self.selected@.len() as int) == self.selected@);
        count
    }
}

/// A repository that is missing is never chosen, and the cursor never leaves
/// the list: every operation keeps the state sound.
pub proof fn missing_repositories_are_never_chosen(
    state: TuiStateView,
    statuses: Seq<status::RepoStatusView>,
)
    requires
        state.is_sound(statuses),
    ensures
        state.up().is_sound(statuses),
        state.down().is_sound(statuses),
        state.cursor < statuses.len() ==> state.toggled(statuses).is_sound(statuses),
        state.all_toggled(statuses).is_sound(statuses),
{
}

/// A list starts with a sound state: the cursor on the first row, and nothing
/// chosen.
pub proof fn new_states_are_sound(statuses: Seq<status::RepoStatusView>)
    ensures
        first_state(statuses.len()).is_sound(statuses),
        first_state(statuses.len()).cursor == 0,
        chosen_count(first_state(statuses.len()).selected) == 0,
{
    lemma_none_chosen(first_state(statuses.len()).selected);
}

proof fn lemma_none_chosen(selected: Seq<bool>)
    requires
        forall|i: int| 0 <= i < selected.len() ==> !#[trigger] selected[i],
    ensures
        chosen_count(selected) == 0,
    decreases selected.len(),
{
    if selected.len() > 0 {
        lemma_none_chosen(selected.drop_last());
    }
}

/// Toggling a row twice leaves it as it was. Toggling all chooses every
/// repository that is there, unless all of them were chosen: then none is.
pub proof fn toggles_undo_themselves(
    state: TuiStateView,
    statuses: Seq<status::RepoStatusView>,
)
    requires
        state.is_sound(statuses),
    ensures
        state.cursor < statuses.len() ==> state.toggled(statuses).toggled(statuses) == state,
        !is_all_chosen(state.selected, statuses) ==> is_all_chosen(
            state.all_toggled(statuses).selected,
            statuses,
        ),
        is_all_chosen(state.selected, statuses) ==> forall|i: int|
            0 <= i < statuses.len() ==> !#[trigger] state.all_toggled(statuses).selected[i],
{
    if state.cursor < statuses.len() {
        assert(state.toggled(statuses).toggled(statuses) =~= state);
    }
    if is_all_chosen(state.selected, statuses) {
        assert forall|i: int| 0 <= i < statuses.len() implies !#[trigger] state.all_toggled(
            statuses,
        ).selected[i] by {
            if !statuses[i].path_exists {
                assert(!state.selected[i]);
            }
        }
    }
}

/// One line of the screen of the list.
#[derive(Debug)]
pub struct TuiLine {
    /// The row of the screen, from zero.
    pub place: u16,
    pub text: String,
    pub color: Color,
    pub bold: bool,
    pub reverse: bool,
}

/// What a `TuiLine` holds.
#[verifier::ext_equal]
pub struct TuiLineView {
    pub place: nat,
    pub text: Seq<char>,
    pub color: Color,
    pub bold: bool,
    pub reverse: bool,
}

impl View for TuiLine {
    type V = TuiLineView;

    open spec fn view(&self) -> TuiLineView {
        TuiLineView {
            place: self.place as nat,
            text: self.text@,
            color: self.color,
            bold: self.bold,
            reverse: self.reverse,
        }
    }
}

/// The contents of the lines of a screen.
pub open spec fn line_views(lines: Seq<TuiLine>) -> Seq<TuiLineView> {
    Seq::new(lines.len(), |i: int| lines[i]@)
}

/// How many rows of the list a screen of this height shows: all but the title,
/// the header, a blank row and the footer, and one at least.
pub open spec fn visible_rows(height: nat) -> nat {
    if height > 5 {
        (height - 4) as nat
    } else {
        1
    }
}

/// The first row of the list that is shown: the list is moved up just so far
/// that the cursor is on the screen.
pub open spec fn first_row(cursor: nat, height: nat) -> nat {
    if cursor + 1 > visible_rows(height) {
        (cursor + 1 - visible_rows(height)) as nat
    } else {
        0
    }
}

/// Where the rows that are shown end.
pub open spec fn end_row(cursor: nat, height: nat, count: nat) -> nat {
    if first_row(cursor, height) >= count {
        first_row(cursor, height)
    } else if first_row(cursor, height) + visible_rows(height) <= count {
        first_row(cursor, height) + visible_rows(height)
    } else {
        count
    }
}

/// The left side of a row: its box, its name and its state.
pub open spec fn left_side(mark: Seq<char>, name: Seq<char>, state: Seq<char>) -> Seq<char> {
    mark + " "@ + width::fitted(name, NAME_WIDTH as nat) + " "@ + width::fitted(
        state,
        STATUS_WIDTH as nat,
    ) + " "@
}

/// Whether the differences stand one below the other: that of the header, and
/// that of every row with a usual one.
pub open spec fn are_lined_up(
    lines: Seq<TuiLineView>,
    commits: Seq<Option<commits::RepoCommitsView>>,
    first: nat,
    width: nat,
) -> bool {
    &&& stands_at(
        lines[1].text,
        shown_difference("DIFFERENCE"@, width),
        difference_column(LEFT_WIDTH as nat, width),
    )
    &&& forall|i: int|
        2 <= i < lines.len() ==> is_lined_up(
            #[trigger] lines[i].text,
            cells_of(commits[first + i - 2]).difference,
            width,
        )
}

/// Whether a difference of a usual width stands where it stands in every row of
/// the list.
pub open spec fn is_lined_up(row: Seq<char>, difference: Seq<char>, width: nat) -> bool {
    width::columns(difference) <= DIFFERENCE_WIDTH ==> stands_at(
        row,
        shown_difference(difference, width),
        difference_column(LEFT_WIDTH as nat, width),
    )
}

/// Whether no line but the title, which is never cut, runs past the width.
pub open spec fn are_within(lines: Seq<TuiLineView>, width: nat) -> bool {
    forall|i: int| 0 < i < lines.len() ==> width::columns(#[trigger] lines[i].text) <= width
}

/// The title of the screen.
pub open spec fn title_line() -> TuiLineView {
    TuiLineView {
        place: 0,
        text: "pullkit repositories"@,
        color: Color::Cyan,
        bold: true,
        reverse: false,
    }
}

/// The header of the list.
pub open spec fn header_line(width: nat) -> TuiLineView {
    TuiLineView {
        place: 1,
        text: row(
            left_side("   "@, "REPOSITORY"@, "STATUS"@),
            "PATH"@,
            CommitCellsView {
                local: "LOCAL COMMIT"@,
                remote: "REMOTE COMMIT"@,
                difference: "DIFFERENCE"@,
            },
            width,
        ),
        color: Color::DarkGrey,
        bold: false,
        reverse: false,
    }
}

/// The row of one repository.
pub open spec fn repo_line(
    status: status::RepoStatusView,
    commits: Option<commits::RepoCommitsView>,
    chosen: bool,
    under_cursor: bool,
    place: nat,
    width: nat,
) -> TuiLineView {
    let mark = if chosen {
        "[x]"@
    } else {
        "[ ]"@
    };
    TuiLineView {
        place,
        text: row(
            left_side(mark, status.name, status_words(status)),
            status.path,
            cells_of(commits),
            width,
        ),
        color: status_color(status),
        bold: chosen,
        reverse: under_cursor,
    }
}

/// The footer of the screen, on its last row.
pub open spec fn footer_line(chosen: nat, width: nat, height: nat) -> TuiLineView {
    TuiLineView {
        place: if height > 0 {
            (height - 1) as nat
        } else {
            0
        },
        text: width::truncated(
            "Space select  a all  Enter sync  q quit    "@ + text::decimal(chosen) + " selected"@,
            width,
        ),
        color: Color::DarkCyan,
        bold: false,
        reverse: false,
    }
}

/// The contents of the inspections of a list.
pub open spec fn inspection_views(commits: Seq<Option<RepoCommits>>) -> Seq<
    Option<commits::RepoCommitsView>,
> {
    Seq::new(commits.len(), |i: int| commits_view(commits[i]))
}

/// The rows of the list that are shown, up to row `end`.
pub open spec fn repo_lines(
    statuses: Seq<status::RepoStatusView>,
    commits: Seq<Option<commits::RepoCommitsView>>,
    state: TuiStateView,
    width: nat,
    height: nat,
    end: nat,
) -> Seq<TuiLineView> {
    let first = first_row(state.cursor, height);
    Seq::new(
        (end - first) as nat,
        |i: int|
            repo_line(
                statuses[first + i],
                commits[first + i],
                state.selected[first + i],
                first + i == state.cursor,
                (i + 2) as nat,
                width,
            ),
    )
}

/// The screen of the list.
pub open spec fn screen_lines(
    statuses: Seq<status::RepoStatusView>,
    commits: Seq<Option<commits::RepoCommitsView>>,
    state: TuiStateView,
    width: nat,
    height: nat,
) -> Seq<TuiLineView> {
    seq![title_line(), header_line(width)] + repo_lines(
        statuses,
        commits,
        state,
        width,
        height,
        end_row(state.cursor, height, statuses.len()),
    ) + seq![footer_line(chosen_count(state.selected), width, height)]
}

fn left_text(mark: &str, name: &str, state: &str) -> (r: String)
    ensures
        r@ == left_side(mark@, name@, state@),
        ends_clear(r@),
        mark@.len() == 3 && width::is_plain(mark@) ==> width::columns(r@) == LEFT_WIDTH,
{
    proof {
        reveal_strlit(" ");
    }
    // The columns of the box say where the name starts.
    let _ = display_width(mark);
    let name = fit_to_width(name, NAME_WIDTH);
    let state = fit_to_width(state, STATUS_WIDTH);
    let r = mark.to_owned().concat(" ").concat(name.as_str()).concat(" ").concat(
        state.as_str(),
    ).concat(" ");
    proof {
        assert(" "@ =~= text::repeated(' ', 1));
        let end = text::repeated(' ', 1) + Seq::<char>::empty();
        assert(end =~= " "@);
        let behind_name = text::repeated(' ', 1) + (state@ + end);
        let behind_mark = text::repeated(' ', 1) + (name@ + behind_name);
        assert(width::is_parted(state@, end));
        assert(width::is_parted(name@, behind_name));
        assert(width::is_parted(mark@, behind_mark));
        assert(r@ =~= mark@ + behind_mark);
    }
    r
}

fn header(width: usize) -> (r: TuiLine)
    ensures
        r@ == header_line(width as nat),
        width < usize::MAX ==> width::columns(r@.text) <= width,
        width < usize::MAX ==> stands_at(
            r@.text,
            shown_difference("DIFFERENCE"@, width as nat),
            difference_column(LEFT_WIDTH as nat, width as nat),
        ),
{
    proof {
        reveal_strlit("   ");
        reveal_strlit("DIFFERENCE");
    }
    // The label of the difference is of a usual width.
    let _ = display_width("DIFFERENCE");
    let cells = CommitCells {
        local: "LOCAL COMMIT".to_owned(),
        remote: "REMOTE COMMIT".to_owned(),
        difference: "DIFFERENCE".to_owned(),
    };
    let left = left_text("   ", "REPOSITORY", "STATUS");
    TuiLine {
        place: 1,
        text: tui_row(left.as_str(), "PATH", &cells, width),
        color: Color::DarkGrey,
        bold: false,
        reverse: false,
    }
}

fn repo_row(
    status: &RepoStatus,
    commits: &Option<RepoCommits>,
    chosen: bool,
    under_cursor: bool,
    place: u16,
    width: usize,
) -> (r: TuiLine)
    ensures
        r@ == repo_line(
            status@,
            commits_view(*commits),
            chosen,
            under_cursor,
            place as nat,
            width as nat,
        ),
        width < usize::MAX ==> width::columns(r@.text) <= width,
        width < usize::MAX ==> is_lined_up(
            r@.text,
            cells_of(commits_view(*commits)).difference,
            width as nat,
        ),
{
    proof {
        reveal_strlit("[x]");
        reveal_strlit("[ ]");
    }
    let mark = if chosen {
        "[x]"
    } else {
        "[ ]"
    };
    let left = left_text(mark, status.name.as_str(), tui_status(status).as_str());
    TuiLine {
        place,
        text: tui_row(left.as_str(), status.path.as_str(), &commit_cells(commits), width),
        color: tui_status_color(status),
        bold: chosen,
        reverse: under_cursor,
    }
}

fn footer(chosen: usize, width: usize, height: u16) -> (r: TuiLine)
    ensures
        r@ == footer_line(chosen as nat, width as nat, height as nat),
        width::columns(r@.text) <= width,
{
    let line = "Space select  a all  Enter sync  q quit    ".to_owned().concat(
        text::decimal_text(chosen as u64).as_str(),
    ).concat(" selected");
    TuiLine {
        place: height.saturating_sub(1),
        text: truncate_to_width(line.as_str(), width),
        color: Color::DarkCyan,
        bold: false,
        reverse: false,
    }
}

/// Draws the list: its title and header, the rows around the cursor, and the
/// footer. The whole screen is cleared before the lines are put on it.
pub fn draw_tui(
    statuses: &Vec<RepoStatus>,
    commits: &Vec<Option<RepoCommits>>,
    state: &TuiState,
    width: usize,
    height: u16,
) -> (r: Vec<TuiLine>)
    requires
        first_row(state@.cursor, height as nat) < statuses@.len() ==> {
            &&& end_row(state@.cursor, height as nat, statuses@.len()) <= commits@.len()
            &&& end_row(state@.cursor, height as nat, statuses@.len()) <= state.selected@.len()
        },
    ensures
        line_views(r@) == screen_lines(
            status_views(statuses@),
            inspection_views(commits@),
            state@,
            width as nat,
            height as nat,
        ),
        width < usize::MAX ==> are_within(line_views(r@), width as nat),
        width < usize::MAX ==> are_lined_up(
            line_views(r@).drop_last(),
            inspection_views(commits@),
            first_row(state@.cursor, height as nat),
            width as nat,
        ),
{
    let rows: usize = if height > 5 {
        height as usize - 4
    } else {
        1
    };
    let first: usize = state.cursor.saturating_sub(rows - 1);
    let count: usize = statuses.len();
    let end: usize = if first >= count {
        first
    } else if count - first >= rows {
        first + rows
    } else {
        count
    };
    assert(first == first_row(state@.cursor, height as nat));
    assert(end == end_row(state@.cursor, height as nat, count as nat));
    let mut lines: Vec<TuiLine> = Vec::new();
    lines.push(
        TuiLine {
            place: 0,
            text: "pullkit repositories".to_owned(),
            color: Color::Cyan,
            bold: true,
            reverse: false,
        },
    );
    lines.push(header(width));
    let ghost views = status_views(statuses@);
    let ghost inspections = inspection_views(commits@);
    let ghost top = seq![title_line(), header_line(width as nat)];
    assert(line_views(lines@) =~= top + repo_lines(
        views,
        inspections,
        state@,
        width as nat,
        height as nat,
        first as nat,
    ));
    let mut place: u16 = 2;
    for index in first..end
        invariant
            top.len() == 2,
            first == first_row(state@.cursor, height as nat),
            first <= end,
            index > first || index == first,
            end - first <= rows <= 65_531,
            end <= commits@.len() || end == first,
            end <= state.selected@.len() || end == first,
            end <= statuses@.len() || end == first,
            place == index - first + 2,
            views == status_views(statuses@),
            inspections == inspection_views(commits@),
            line_views(lines@) == top + repo_lines(
                views,
                inspections,
                state@,
                width as nat,
                height as nat,
                index as nat,
            ),
            width < usize::MAX ==> are_within(line_views(lines@), width as nat),
            width < usize::MAX ==> are_lined_up(
                line_views(lines@),
                inspections,
                first as nat,
                width as nat,
            ),
    {
        let line = repo_row(
            &statuses[index],
            &commits[index],
            state.selected[index],
            index == state.cursor,
            place,
            width,
        );
        let ghost before = line_views(lines@);
        let ghost at = before.len() as int;
        assert(at == 2 + (index - first)) by {
            assert(repo_lines(
                views,
                inspections,
                state@,
                width as nat,
                height as nat,
                index as nat,
            ).len() == index - first);
        }
        lines.push(line);
        place = place + 1;
        assert(views[index as int] == statuses@[index as int]@);
        assert(inspections[index as int] == commits_view(commits@[index as int]));
        assert(line_views(lines@) =~= before.push(line@));
        assert(line_views(lines@) =~= top + repo_lines(
            views,
            inspections,
            state@,
            width as nat,
            height as nat,
            (index + 1) as nat,
        ));
        assert forall|i: int| width < usize::MAX && 2 <= i <= at implies is_lined_up(
            #[trigger] line_views(lines@)[i].text,
            cells_of(inspections[first + i - 2]).difference,
            width as nat,
        ) by {
            if i < at {
                assert(line_views(lines@)[i] == before[i]);
                assert(is_lined_up(
                    before[i].text,
                    cells_of(inspections[first + i - 2]).difference,
                    width as nat,
                ));
            }
        }
    }
    let ghost before = line_views(lines@);
    let last = footer(state.selected_count(), width, height);
    lines.push(last);
    assert(line_views(lines@) =~= before.push(last@));
    assert(line_views(lines@).drop_last() =~= before);
    assert(line_views(lines@) =~= screen_lines(
        views,
        inspections,
        state@,
        width as nat,
        height as nat,
    ));
    lines
}

/// The row under the cursor is on the screen, drawn in reverse, and no other
/// row is.
pub proof fn the_cursor_is_on_the_screen(
    statuses: Seq<status::RepoStatusView>,
    commits: Seq<Option<commits::RepoCommitsView>>,
    state: TuiStateView,
    width: nat,
    height: nat,
)
    requires
        state.cursor < statuses.len(),
    ensures
        first_row(state.cursor, height) <= state.cursor < end_row(
            state.cursor,
            height,
            statuses.len(),
        ),
        ({
            let lines = screen_lines(statuses, commits, state, width, height);
            let under_cursor = 2 + state.cursor - first_row(state.cursor, height);
            forall|i: int|
                0 <= i < lines.len() ==> (#[trigger] lines[i].reverse <==> i == under_cursor)
        }),
{
    let end = end_row(state.cursor, height, statuses.len());
    let rows = repo_lines(statuses, commits, state, width, height, end);
    let lines = screen_lines(statuses, commits, state, width, height);
    assert forall|i: int| 0 <= i < lines.len() implies (#[trigger] lines[i].reverse <==> i == 2
        + state.cursor - first_row(state.cursor, height)) by {
        if 2 <= i < 2 + rows.len() {
            assert(lines[i] == rows[i - 2]);
        }
    }
}

/// On a screen of more than five rows every line has a row of its own, and a
/// blank one stands between the list and the footer.
pub proof fn lines_keep_their_places(
    statuses: Seq<status::RepoStatusView>,
    commits: Seq<Option<commits::RepoCommitsView>>,
    state: TuiStateView,
    width: nat,
    height: nat,
)
    requires
        height > 5,
    ensures
        ({
            let lines = screen_lines(statuses, commits, state, width, height);
            &&& lines.len() >= 3
            &&& lines.last().place == height - 1
            &&& forall|i: int|
                0 <= i < lines.len() - 1 ==> #[trigger] lines[i].place == i && i < height - 2
        }),
{
    let end = end_row(state.cursor, height, statuses.len());
    let rows = repo_lines(statuses, commits, state, width, height, end);
    let lines = screen_lines(statuses, commits, state, width, height);
    assert forall|i: int| 0 <= i < lines.len() - 1 implies #[trigger] lines[i].place == i && i
        < height - 2 by {
        if 2 <= i {
            assert(lines[i] == rows[i - 2]);
        }
    }
}

/// What the list does about something the terminal told.
#[derive(Debug, Clone, Copy, PartialEq, Eq, Structural)]
pub enum TuiStep {
    /// Nothing has changed.
    Wait,
    /// The list is to be drawn again.
    Redraw,
    /// The list is left: the commands are stopped, and nothing is synced.
    Leave,
    /// The chosen repositories are to be synced.
    Sync,
}

/// What a key that was pressed does to the list.
pub open spec fn key_result(
    state: TuiStateView,
    statuses: Seq<status::RepoStatusView>,
    key: Key,
    control: bool,
) -> (TuiStateView, TuiStep) {
    if key == (Key::Char { c: 'c' }) && control {
        (state, TuiStep::Leave)
    } else if key == Key::Up || key == (Key::Char { c: 'k' }) {
        (state.up(), TuiStep::Redraw)
    } else if key == Key::Down || key == (Key::Char { c: 'j' }) {
        (state.down(), TuiStep::Redraw)
    } else if key == (Key::Char { c: ' ' }) {
        (state.toggled(statuses), TuiStep::Redraw)
    } else if key == (Key::Char { c: 'a' }) {
        (state.all_toggled(statuses), TuiStep::Redraw)
    } else if key == Key::Enter && chosen_count(state.selected) > 0 {
        (state, TuiStep::Sync)
    } else if key == Key::Esc || key == (Key::Char { c: 'q' }) {
        (state, TuiStep::Leave)
    } else {
        (state, TuiStep::Redraw)
    }
}

/// What the list does about something the terminal told. A key that is held
/// counts as often as it repeats.
pub open spec fn input_result(
    state: TuiStateView,
    statuses: Seq<status::RepoStatusView>,
    input: Input,
) -> (TuiStateView, TuiStep) {
    match input {
        Input::Key { key, control, kind } => if kind == KeyKind::Release {
            (state, TuiStep::Wait)
        } else {
            key_result(state, statuses, key, control)
        },
        Input::Resized => (state, TuiStep::Redraw),
        Input::Other => (state, TuiStep::Wait),
    }
}

/// Whether the space bar was pressed, or repeats.
pub open spec fn is_space(input: Input) -> bool {
    input matches Input::Key { key, kind, .. } && key == (Key::Char { c: ' ' }) && kind
        != KeyKind::Release
}

/// Answers something the terminal told while the list is on the screen.
pub fn run_tui(state: &mut TuiState, statuses: &Vec<RepoStatus>, input: Input) -> (r: TuiStep)
    requires
        old(state)@.is_sound(status_views(statuses@)),
        is_space(input) ==> statuses@.len() > 0,
    ensures
        (final(state)@, r) == input_result(old(state)@, status_views(statuses@), input),
        final(state)@.is_sound(status_views(statuses@)),
{
    proof {
        missing_repositories_are_never_chosen(state@, status_views(statuses@));
        assert(state.cursor < statuses.len() || state.cursor == 0);
    }
    let (key, control) = match input {
        Input::Key { key, control, kind } => match kind {
            KeyKind::Release => return TuiStep::Wait,
            _ => (key, control),
        },
        Input::Resized => return TuiStep::Redraw,
        Input::Other => return TuiStep::Wait,
    };
    match key {
        Key::Up => state.move_up(),
        Key::Down => state.move_down(),
        Key::Enter => if state.selected_count() > 0 {
            return TuiStep::Sync;
        },
        Key::Esc => return TuiStep::Leave,
        Key::Other => {},
        Key::Char { c } => if c == 'c' && control {
            return TuiStep::Leave;
        } else if c == 'k' {
            state.move_up();
        } else if c == 'j' {
            state.move_down();
        } else if c == ' ' {
            state.toggle_current(statuses);
        } else if c == 'a' {
            state.toggle_all(statuses);
        } else if c == 'q' {
            return TuiStep::Leave;
        },
    }
    TuiStep::Redraw
}

/// A sync is started from the list only when a repository is chosen.
pub proof fn a_sync_needs_a_choice(
    state: TuiStateView,
    statuses: Seq<status::RepoStatusView>,
    input: Input,
)
    ensures
        input_result(state, statuses, input).1 == TuiStep::Sync ==> chosen_count(state.selected) > 0
            && input_result(state, statuses, input).0 == state,
{
}

/// The repositories that are chosen, in the order of the list.
pub open spec fn chosen_repos(
    repos: Seq<config::RepoConfigView>,
    selected: Seq<bool>,
) -> Seq<config::RepoConfigView>
    decreases repos.len(),
{
    if repos.len() == 0 {
        Seq::empty()
    } else {
        let rest = chosen_repos(repos.drop_last(), selected);
        if selected[repos.len() - 1] {
            rest.push(repos.last())
        } else {
            rest
        }
    }
}

/// Takes the chosen repositories out of the list.
pub fn selected_repos(repos: &Vec<RepoConfig>, state: &TuiState) -> (r: Vec<RepoConfig>)
    requires
        repos@.len() <= state.selected@.len(),
    ensures
        config::repo_views(r@) == chosen_repos(config::repo_views(repos@), state@.selected),
{
    let ghost all = config::repo_views(repos@);
    let mut r: Vec<RepoConfig> = Vec::new();
    for i in 0..repos.len()
        invariant
            all == config::repo_views(repos@),
            repos@.len() <= state.selected@.len(),
            config::repo_views(r@) == chosen_repos(all.take(i as int), state.selected@),
    {
        assert(all.take(i + 1).drop_last() == all.take(i as int));
        assert(all.take(i + 1).last() == repos@[i as int]@);
        if state.selected[i] {
            let ghost before = config::repo_views(r@);
            r.push(repos[i].clone());
            assert(config::repo_views(r@) =~= before.push(repos@[i as int]@));
        }
    }
    assert(all.take(all.len() as int) == all);
    r
}

/// There are as many chosen repositories as rows that are chosen.
pub proof fn every_choice_is_taken(repos: Seq<config::RepoConfigView>, selected: Seq<bool>)
    requires
        repos.len() == selected.len(),
    ensures
        chosen_repos(repos, selected).len() == chosen_count(selected),
    decreases repos.len(),
{
    if repos.len() > 0 {
        lemma_chosen_prefix(repos.drop_last(), selected, selected.drop_last());
        every_choice_is_taken(repos.drop_last(), selected.drop_last());
    }
}

proof fn lemma_chosen_prefix(
    repos: Seq<config::RepoConfigView>,
    a: Seq<bool>,
    b: Seq<bool>,
)
    requires
        repos.len() <= a.len(),
        repos.len() <= b.len(),
        forall|i: int| 0 <= i < repos.len() ==> a[i] == b[i],
    ensures
        chosen_repos(repos, a) == chosen_repos(repos, b),
    decreases repos.len(),
{
    if repos.len() > 0 {
        lemma_chosen_prefix(repos.drop_last(), a, b);
    }
}

/// How many inspections of a list are still to come.
pub open spec fn pending_count(commits: Seq<Option<RepoCommits>>) -> nat
    decreases commits.len(),
{
    if commits.len() == 0 {
        0
    } else {
        pending_count(commits.drop_last()) + if commits.last() is None {
            1nat
        } else {
            0
        }
    }
}

/// Counts the inspections that a sync waits for before it starts, chosen rows
/// or not: a row whose directory sits inside another row's work tree shares
/// that repository.
pub fn wait_for_commits(commits: &Vec<Option<RepoCommits>>) -> (r: usize)
    ensures
        r == pending_count(commits@),
        r <= commits@.len(),
{
    let mut count: usize = 0;
    for i in 0..commits.len()
        invariant
            count == pending_count(commits@.take(i as int)),
            count <= i,
    {
        assert(commits@.take(i + 1).drop_last() == commits@.take(i as int));
        if commits[i].is_none() {
            count = count + 1;
        }
    }
    assert(commits@.take(commits@.len() as int) == commits@);
    count
}

/// What a row tells of the commits: their dates, or a dash for one that is missing,
/// and how they differ, or why that is not known.
pub proof fn cells_tell_dates_and_difference(commits: commits::RepoCommitsView)
    ensures
        cells_of(None).local == "-"@,
        cells_of(None).remote == "-"@,
        cells_of(None).difference == "fetching..."@,
        match commits.local {
            Some(commit) => cells_of(Some(commits)).local == commit.date,
            None => cells_of(Some(commits)).local == "-"@,
        },
        match commits.remote {
            Some(commit) => cells_of(Some(commits)).remote == commit.date,
            None => cells_of(Some(commits)).remote == "-"@,
        },
        match commits.difference {
            Some(difference) => cells_of(Some(commits)).difference == difference,
            None => cells_of(Some(commits)).difference == if commits.error is Some {
                "unavailable"@
            } else {
                "-"@
            },
        },
{
}

/// A row holds all of the left side, of the path, of both dates and of the
/// difference where they find room; what finds none is given up: the path, the
/// remote date, the local date, and the end of the left side, in this order.
pub proof fn rows_give_things_up_in_order(
    left: Seq<char>,
    path: Seq<char>,
    cells: CommitCellsView,
    width: nat,
)
    ensures
        ({
            let difference = width::padded(cells.difference, 21);
            let one = width::fitted(cells.local, 16) + "  "@ + difference;
            let both = width::fitted(cells.local, 16) + "  "@ + width::fitted(cells.remote, 16)
                + "  "@ + difference;
            let start = width::counted(width::columns(left));
            let own = width::counted(width::columns(cells.difference));
            let kept = if own > 21 {
                own
            } else {
                21
            };
            let whole = start + width::counted(width::columns(both));
            let short = start + width::counted(width::columns(one));
            let bare = start + width::counted(width::columns(difference));
            let shown = row(left, path, cells, width);
            &&& width >= whole + 10 ==> shown == left + width::fitted(
                path,
                (width - whole - 2) as nat,
            ) + "  "@ + both
            &&& whole <= width < whole + 10 ==> shown == left + both
            &&& width < whole && width >= short ==> shown == left + one
            &&& width < whole && width < short && width >= bare ==> shown == left + difference
            &&& width < whole && width < short && width < bare && width > kept ==> shown
                == width::fitted(left, (width - kept - 1) as nat) + " "@ + cells.difference
            &&& width < whole && width < short && width < bare && width <= kept ==> shown
                == width::truncated(cells.difference, width)
        }),
{
}

/// A row is named by the first thing that is wrong with its repository: that it is
/// missing, that it could not be inspected, that it is dirty, or that it is on
/// another branch; else it is ready. Each has a colour of its own.
pub proof fn rows_name_what_is_wrong(status: status::RepoStatusView)
    ensures
        !status.path_exists ==> status_words(status) == "Missing"@ && status_color(status)
            == Color::DarkGrey,
        status.path_exists && status.error is Some ==> status_words(status) == "Error"@
            && status_color(status) == Color::Red,
        status.path_exists && status.error is None && !status.clean ==> status_words(status)
            == "Dirty"@ && status_color(status) == Color::Yellow,
        status.path_exists && status.error is None && status.clean && !status.on_main
            ==> status_color(status) == Color::Magenta && match status.branch {
            Some(branch) => status_words(status) == branch,
            None => status_words(status) == "Other branch"@,
        },
        status.path_exists && status.error is None && status.clean && status.on_main
            ==> status_words(status) == "Ready"@ && status_color(status) == Color::Green,
{
}

/// The cursor moves by one row, stays on the first and on the last one, and
/// chooses nothing.
pub proof fn the_cursor_moves_by_one_row(state: TuiStateView)
    ensures
        state.up().selected == state.selected,
        state.down().selected == state.selected,
        state.cursor > 0 ==> state.up().cursor == state.cursor - 1,
        state.cursor == 0 ==> state.up().cursor == 0,
        state.cursor + 1 < state.selected.len() ==> state.down().cursor == state.cursor + 1,
        state.cursor + 1 >= state.selected.len() ==> state.down().cursor == state.cursor,
        state.cursor + 1 < state.selected.len() ==> state.down().up() == state,
{
    if state.cursor + 1 < state.selected.len() {
        assert(state.down().up() =~= state);
    }
}

/// Toggling changes the row under the cursor alone, and that one only where its
/// repository is there; the cursor stays.
pub proof fn a_toggle_changes_one_row(
    state: TuiStateView,
    statuses: Seq<status::RepoStatusView>,
    i: int,
)
    requires
        state.is_sound(statuses),
        state.cursor < statuses.len(),
        0 <= i < statuses.len(),
    ensures
        state.toggled(statuses).cursor == state.cursor,
        state.toggled(statuses).selected.len() == state.selected.len(),
        state.toggled(statuses).selected[i] == if i == state.cursor && statuses[i].path_exists {
            !state.selected[i]
        } else {
            state.selected[i]
        },
{
}

/// Toggling all chooses every repository that is there where one of them was not
/// chosen, and lets all of them go where all were; the cursor stays.
pub proof fn a_toggle_of_all_changes_every_row(
    state: TuiStateView,
    statuses: Seq<status::RepoStatusView>,
    i: int,
    open: int,
)
    requires
        state.is_sound(statuses),
        0 <= i < statuses.len(),
        0 <= open < statuses.len(),
    ensures
        state.all_toggled(statuses).cursor == state.cursor,
        state.all_toggled(statuses).selected.len() == state.selected.len(),
        statuses[open].path_exists && !state.selected[open] ==> state.all_toggled(
            statuses,
        ).selected[i] == statuses[i].path_exists,
        (forall|j: int|
            0 <= j < statuses.len() && statuses[j].path_exists ==> #[trigger] state.selected[j])
            ==> !state.all_toggled(statuses).selected[i],
{
    if statuses[open].path_exists && !state.selected[open] {
        assert(!is_all_chosen(state.selected, statuses));
    }
    if !statuses[i].path_exists {
        assert(!state.selected[i]);
    }
}

/// A further row counts where it is chosen.
pub proof fn choices_are_counted(selected: Seq<bool>, chosen: bool)
    ensures
        chosen_count(Seq::empty()) == 0,
        chosen_count(selected.push(chosen)) == chosen_count(selected) + if chosen {
            1nat
        } else {
            0
        },
{
    assert(selected.push(chosen).drop_last() =~= selected);
}

/// The list shows its first rows as long as the cursor is on one of them, and else
/// ends with the row of the cursor: all rows of the screen but four are for the
/// list, and one at least.
pub proof fn the_list_is_moved_no_further_than_the_cursor(cursor: nat, height: nat, count: nat)
    requires
        cursor < count,
    ensures
        ({
            let rows = if height > 5 {
                height - 4
            } else {
                1
            };
            &&& cursor < rows ==> first_row(cursor, height) == 0
            &&& cursor >= rows ==> first_row(cursor, height) == cursor + 1 - rows
            &&& first_row(cursor, height) + rows <= count ==> end_row(cursor, height, count)
                == first_row(cursor, height) + rows
            &&& first_row(cursor, height) + rows > count ==> end_row(cursor, height, count)
                == count
        }),
{
}

/// The screen has the title, the header, a line for every row that is shown, in
/// the order of the list, and the footer.
pub proof fn the_screen_shows_the_rows_in_order(
    statuses: Seq<status::RepoStatusView>,
    commits: Seq<Option<commits::RepoCommitsView>>,
    state: TuiStateView,
    width: nat,
    height: nat,
    i: int,
)
    requires
        first_row(state.cursor, height) <= i < end_row(state.cursor, height, statuses.len()),
    ensures
        ({
            let lines = screen_lines(statuses, commits, state, width, height);
            let first = first_row(state.cursor, height);
            let line = lines[2 + i - first];
            &&& lines.len() == 3 + end_row(state.cursor, height, statuses.len()) - first
            &&& lines[0] == (TuiLineView {
                place: 0,
                text: "pullkit repositories"@,
                color: Color::Cyan,
                bold: true,
                reverse: false,
            })
            &&& lines[1].text == row(
                "   "@ + " "@ + width::fitted("REPOSITORY"@, 20) + " "@ + width::fitted(
                    "STATUS"@,
                    14,
                ) + " "@,
                "PATH"@,
                CommitCellsView {
                    local: "LOCAL COMMIT"@,
                    remote: "REMOTE COMMIT"@,
                    difference: "DIFFERENCE"@,
                },
                width,
            )
            &&& lines[1].place == 1
            &&& lines[1].color == Color::DarkGrey
            &&& !lines[1].bold
            &&& !lines[1].reverse
            &&& line.text == row(
                (if state.selected[i] {
                    "[x]"@
                } else {
                    "[ ]"@
                }) + " "@ + width::fitted(statuses[i].name, 20) + " "@ + width::fitted(
                    status_words(statuses[i]),
                    14,
                ) + " "@,
                statuses[i].path,
                cells_of(commits[i]),
                width,
            )
            &&& line.place == 2 + i - first
            &&& line.color == status_color(statuses[i])
            &&& line.bold == state.selected[i]
            &&& line.reverse == (i == state.cursor)
            &&& lines.last().text == width::truncated(
                "Space select  a all  Enter sync  q quit    "@ + text::decimal(
                    chosen_count(state.selected),
                ) + " selected"@,
                width,
            )
            &&& height > 0 ==> lines.last().place == height - 1
            &&& height == 0 ==> lines.last().place == 0
            &&& lines.last().color == Color::DarkCyan
            &&& !lines.last().bold
            &&& !lines.last().reverse
        }),
{
    let first = first_row(state.cursor, height);
    let end = end_row(state.cursor, height, statuses.len());
    let rows = repo_lines(statuses, commits, state, width, height, end);
    let lines = screen_lines(statuses, commits, state, width, height);
    assert(rows.len() == end - first);
    assert(lines[2 + i - first] == rows[i - first]);
}

/// What the keys do: the arrows, `j` and `k` move the cursor; the space bar toggles
/// a row, and `a` all of them; Enter syncs what is chosen; Ctrl-C, `q` and Esc leave.
/// No other key does anything, nor does a key that is let go.
pub proof fn keys_do_what_the_footer_says(
    state: TuiStateView,
    statuses: Seq<status::RepoStatusView>,
    key: Key,
    control: bool,
    kind: KeyKind,
)
    ensures
        ({
            let input = Input::Key { key, control, kind };
            let (after, step) = input_result(state, statuses, input);
            &&& kind == KeyKind::Release ==> after == state && step == TuiStep::Wait
            &&& kind != KeyKind::Release ==> match key {
                Key::Up => after == state.up() && step == TuiStep::Redraw,
                Key::Down => after == state.down() && step == TuiStep::Redraw,
                Key::Enter => after == state && if chosen_count(state.selected) > 0 {
                    step == TuiStep::Sync
                } else {
                    step == TuiStep::Redraw
                },
                Key::Esc => after == state && step == TuiStep::Leave,
                Key::Other => after == state && step == TuiStep::Redraw,
                Key::Char { c } => if c == 'c' && control {
                    after == state && step == TuiStep::Leave
                } else if c == 'k' {
                    after == state.up() && step == TuiStep::Redraw
                } else if c == 'j' {
                    after == state.down() && step == TuiStep::Redraw
                } else if c == ' ' {
                    after == state.toggled(statuses) && step == TuiStep::Redraw
                } else if c == 'a' {
                    after == state.all_toggled(statuses) && step == TuiStep::Redraw
                } else if c == 'q' {
                    after == state && step == TuiStep::Leave
                } else {
                    after == state && step == TuiStep::Redraw
                },
            }
        }),
        input_result(state, statuses, Input::Resized) == (state, TuiStep::Redraw),
        input_result(state, statuses, Input::Other) == (state, TuiStep::Wait),
{
}

/// What is synced is what is chosen: the repository of a chosen row comes behind
/// those of the chosen rows above it.
pub proof fn the_chosen_repositories_are_taken_in_order(
    repos: Seq<config::RepoConfigView>,
    selected: Seq<bool>,
    i: int,
)
    requires
        repos.len() == selected.len(),
        0 <= i < repos.len(),
        selected[i],
    ensures
        chosen_repos(repos, selected).len() == chosen_count(selected),
        chosen_count(selected.take(i)) < chosen_count(selected),
        chosen_repos(repos, selected)[chosen_count(selected.take(i)) as int] == repos[i],
    decreases repos.len(),
{
    every_choice_is_taken(repos, selected);
    let fewer = repos.drop_last();
    let rest = selected.drop_last();
    lemma_chosen_prefix(fewer, selected, rest);
    every_choice_is_taken(fewer, rest);
    if i < repos.len() - 1 {
        the_chosen_repositories_are_taken_in_order(fewer, rest, i);
        assert(rest.take(i) =~= selected.take(i));
    } else {
        assert(selected.take(i) =~= rest);
    }
}

/// An inspection is waited for as long as it has not come.
pub proof fn inspections_are_waited_for(
    commits: Seq<Option<RepoCommits>>,
    inspection: Option<RepoCommits>,
)
    ensures
        pending_count(Seq::empty()) == 0,
        pending_count(commits.push(inspection)) == pending_count(commits) + if inspection is None {
            1nat
        } else {
            0
        },
{
    assert(commits.push(inspection).drop_last() =~= commits);
}

/// The state of a list and the lines of its screen are seen whole.
pub proof fn lists_are_seen_whole(state: TuiState, lines: Seq<TuiLine>, i: int)
    requires
        0 <= i < lines.len(),
    ensures
        state@.cursor == state.cursor,
        state@.selected == state.selected@,
        line_views(lines).len() == lines.len(),
        line_views(lines)[i].place == lines[i].place,
        line_views(lines)[i].text == lines[i].text@,
        line_views(lines)[i].color == lines[i].color,
        line_views(lines)[i].bold == lines[i].bold,
        line_views(lines)[i].reverse == lines[i].reverse,
{
}

} // verus!
