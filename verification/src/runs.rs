//! A whole run of a sync: several workers share the repositories out among them,
//! in whatever turn.

use crate::config;
use crate::jobs;
use crate::sync;
use vstd::prelude::*;

verus! {

/// What a worker is at.
pub enum Turn {
    /// It is about to ask for a repository.
    Idle,
    /// It syncs the repository at `index`.
    Busy { index: nat },
    /// There was none left for it.
    Gone,
}

/// What happens next in a run.
pub enum Move {
    /// A worker asks for a repository, and everything was given up by then or
    /// not.
    Take { worker: nat, abandoned: bool },
    /// The sync of a worker's repository writes a line.
    Line { worker: nat, line: Seq<char> },
    /// The sync of a worker's repository ends.
    Finish { worker: nat, result: sync::SyncResultView },
}

/// How far a run has come.
pub struct Run {
    /// How many repositories were handed out.
    pub next: usize,
    pub workers: Seq<Turn>,
    /// The results, each in the place of its repository.
    pub slots: Seq<Option<sync::SyncResultView>>,
    /// What was reported, each with the place of its repository.
    pub events: Seq<(nat, sync::SyncEventView)>,
}

/// A run that has just been planned.
pub open spec fn run_start(count: nat, concurrency: nat) -> Run {
    Run {
        next: 0,
        workers: Seq::new(sync::worker_count(count, concurrency), |i: int| Turn::Idle),
        slots: Seq::new(count, |i: int| None::<sync::SyncResultView>),
        events: Seq::empty(),
    }
}

/// Whether the sync of a repository can end with this result.
pub open spec fn is_result_of(repo: config::RepoConfigView, result: sync::SyncResultView) -> bool {
    exists|facts: sync::SyncFacts|
        (#[trigger] sync::sync_step(repo, facts)).action == (sync::SyncActionView::Done { result })
}

/// Whether this can happen next.
pub open spec fn can_happen(repos: Seq<config::RepoConfigView>, run: Run, event: Move) -> bool {
    match event {
        Move::Take { worker, .. } => worker < run.workers.len() && run.workers[worker as int]
            is Idle,
        Move::Line { worker, .. } => worker < run.workers.len() && run.workers[worker as int]
            is Busy,
        Move::Finish { worker, result } => worker < run.workers.len() && (run.workers[worker as int]
            matches Turn::Busy { index } && is_result_of(repos[index as int], result)),
    }
}

/// The run with one more event reported.
pub open spec fn reported(
    run: Run,
    index: nat,
    event: sync::SyncEventView,
    worker: nat,
    turn: Turn,
) -> Run {
    Run {
        next: run.next,
        workers: run.workers.update(worker as int, turn),
        slots: sync::recorded(run.slots, index as int, event),
        events: run.events.push((index, event)),
    }
}

/// The run after it has happened.
pub open spec fn happened(repos: Seq<config::RepoConfigView>, run: Run, event: Move) -> Run {
    match event {
        Move::Take { worker, abandoned } => match jobs::handed_out(
            run.next,
            repos.len() as usize,
            abandoned,
        ) {
            Some(index) => reported(
                Run { next: (index + 1) as usize, ..run },
                index as nat,
                sync::SyncEventView::Started { worker, name: repos[index as int].name },
                worker,
                Turn::Busy { index: index as nat },
            ),
            None => Run { workers: run.workers.update(worker as int, Turn::Gone), ..run },
        },
        Move::Line { worker, line } => {
            let index = run.workers[worker as int]->index;
            reported(
                run,
                index,
                sync::SyncEventView::Line { worker, name: repos[index as int].name, line },
                worker,
                Turn::Busy { index },
            )
        },
        Move::Finish { worker, result } => {
            let index = run.workers[worker as int]->index;
            reported(
                run,
                index,
                sync::SyncEventView::Finished { worker, result },
                worker,
                Turn::Idle,
            )
        },
    }
}

/// How far a run has come after all that happened.
pub open spec fn run_after(
    repos: Seq<config::RepoConfigView>,
    concurrency: nat,
    moves: Seq<Move>,
) -> Run
    decreases moves.len(),
{
    if moves.len() == 0 {
        run_start(repos.len(), concurrency)
    } else {
        happened(repos, run_after(repos, concurrency, moves.drop_last()), moves.last())
    }
}

/// Whether all of it can happen, one after the other.
pub open spec fn is_run(
    repos: Seq<config::RepoConfigView>,
    concurrency: nat,
    moves: Seq<Move>,
) -> bool
    decreases moves.len(),
{
    moves.len() == 0 || is_run(repos, concurrency, moves.drop_last()) && can_happen(
        repos,
        run_after(repos, concurrency, moves.drop_last()),
        moves.last(),
    )
}

/// What was reported of the repository at `index`.
pub open spec fn told_of(events: Seq<(nat, sync::SyncEventView)>, index: nat) -> Seq<
    sync::SyncEventView,
>
    decreases events.len(),
{
    if events.len() == 0 {
        Seq::empty()
    } else if events.last().0 == index {
        told_of(events.drop_last(), index).push(events.last().1)
    } else {
        told_of(events.drop_last(), index)
    }
}

/// The worker that an event comes from.
pub open spec fn worker_of(event: sync::SyncEventView) -> Option<nat> {
    match event {
        sync::SyncEventView::Planned { .. } => None,
        sync::SyncEventView::Started { worker, .. } => Some(worker),
        sync::SyncEventView::Line { worker, .. } => Some(worker),
        sync::SyncEventView::Finished { worker, .. } => Some(worker),
    }
}

/// What a worker reported.
pub open spec fn told_by(events: Seq<(nat, sync::SyncEventView)>, worker: nat) -> Seq<
    sync::SyncEventView,
>
    decreases events.len(),
{
    if events.len() == 0 {
        Seq::empty()
    } else if worker_of(events.last().1) == Some(worker) {
        told_by(events.drop_last(), worker).push(events.last().1)
    } else {
        told_by(events.drop_last(), worker)
    }
}

/// Whether a worker that reported this holds a repository; nothing if it
/// reported out of turn, a repository begun before the last one was finished or
/// a line of none.
pub open spec fn at_work(events: Seq<sync::SyncEventView>) -> Option<bool>
    decreases events.len(),
{
    if events.len() == 0 {
        Some(false)
    } else {
        match events.last() {
            sync::SyncEventView::Started { .. } => if at_work(events.drop_last()) == Some(false) {
                Some(true)
            } else {
                None
            },
            sync::SyncEventView::Line { .. } => if at_work(events.drop_last()) == Some(true) {
                Some(true)
            } else {
                None
            },
            sync::SyncEventView::Finished { .. } => if at_work(events.drop_last()) == Some(true) {
                Some(false)
            } else {
                None
            },
            sync::SyncEventView::Planned { .. } => None,
        }
    }
}

/// All that a run has reported, in order: before anything else how many workers
/// there are.
pub open spec fn told(run: Run) -> Seq<sync::SyncEventView> {
    seq![sync::SyncEventView::Planned { workers: run.workers.len() }] + run.events.map_values(
        |event: (nat, sync::SyncEventView)| event.1,
    )
}

/// Whether this is what a worker reports of a repository it holds: that it has
/// started, and then lines.
pub open spec fn is_begun(
    events: Seq<sync::SyncEventView>,
    worker: nat,
    name: Seq<char>,
) -> bool {
    &&& events.len() > 0
    &&& events[0] == (sync::SyncEventView::Started { worker, name })
    &&& forall|k: int|
        1 <= k < events.len() ==> (#[trigger] events[k] matches sync::SyncEventView::Line {
            worker: from,
            name: of,
            ..
        } && from == worker && of == name)
}

/// Whether this is what one worker reports of a repository from its start to its
/// end, with its result.
pub open spec fn is_told_in_full(
    events: Seq<sync::SyncEventView>,
    name: Seq<char>,
    result: sync::SyncResultView,
) -> bool {
    exists|worker: nat|
        events.len() > 0 && events.last() == (sync::SyncEventView::Finished { worker, result })
            && #[trigger] is_begun(events.drop_last(), worker, name)
}

/// What holds at every point of a run.
pub open spec fn is_orderly(repos: Seq<config::RepoConfigView>, run: Run) -> bool {
    &&& run.next <= repos.len()
    &&& run.slots.len() == repos.len()
    &&& forall|w: int|
        0 <= w < run.workers.len() ==> (#[trigger] run.workers[w] matches Turn::Busy { index }
            ==> index < run.next && run.slots[index as int] is None && is_begun(
            told_of(run.events, index),
            w as nat,
            repos[index as int].name,
        ))
    &&& forall|w: int, v: int|
        0 <= w < v < run.workers.len() && (#[trigger] run.workers[w]) is Busy && (
        #[trigger] run.workers[v]) is Busy ==> run.workers[w]->index != run.workers[v]->index
    &&& forall|i: int|
        0 <= i < run.next && (#[trigger] run.slots[i]) is None ==> exists|w: int|
            0 <= w < run.workers.len() && #[trigger] run.workers[w] == (Turn::Busy {
                index: i as nat,
            })
    &&& forall|i: int|
        0 <= i < run.next ==> (#[trigger] run.slots[i] matches Some(result) ==> {
            &&& result.name == repos[i].name
            &&& result.path == repos[i].path
            &&& is_told_in_full(told_of(run.events, i as nat), repos[i].name, result)
        })
    &&& forall|i: int|
        run.next <= i < repos.len() ==> #[trigger] run.slots[i] is None && told_of(
            run.events,
            i as nat,
        ).len() == 0
    &&& forall|w: int|
        0 <= w < run.workers.len() ==> at_work(#[trigger] told_by(run.events, w as nat)) == Some(
            run.workers[w] is Busy,
        )
}

proof fn lemma_told(events: Seq<(nat, sync::SyncEventView)>, index: nat, event: sync::SyncEventView)
    ensures
        forall|i: nat| #[trigger]
            told_of(events.push((index, event)), i) == if i == index {
                told_of(events, i).push(event)
            } else {
                told_of(events, i)
            },
        forall|w: nat| #[trigger]
            told_by(events.push((index, event)), w) == if worker_of(event) == Some(w) {
                told_by(events, w).push(event)
            } else {
                told_by(events, w)
            },
{
    assert(events.push((index, event)).drop_last() =~= events);
}

proof fn lemma_take_keeps_order(
    repos: Seq<config::RepoConfigView>,
    run: Run,
    worker: nat,
    abandoned: bool,
)
    requires
        repos.len() <= usize::MAX,
        is_orderly(repos, run),
        can_happen(repos, run, Move::Take { worker, abandoned }),
    ensures
        is_orderly(repos, happened(repos, run, Move::Take { worker, abandoned })),
{
    let after = happened(repos, run, Move::Take { worker, abandoned });
    match jobs::handed_out(run.next, repos.len() as usize, abandoned) {
        None => {
            assert forall|i: int| 0 <= i < after.next && (
            #[trigger] after.slots[i]) is None implies exists|w: int|
                0 <= w < after.workers.len() && #[trigger] after.workers[w] == (Turn::Busy {
                    index: i as nat,
                }) by {
                assert(run.slots[i] is None);
                let w = choose|w: int|
                    0 <= w < run.workers.len() && #[trigger] run.workers[w] == (Turn::Busy {
                        index: i as nat,
                    });
                assert(after.workers[w] == run.workers[w]);
            }
            assert forall|w: int| 0 <= w < after.workers.len() implies at_work(
                #[trigger] told_by(after.events, w as nat),
            ) == Some(after.workers[w] is Busy) by {
                assert(at_work(told_by(run.events, w as nat)) == Some(run.workers[w] is Busy));
            }
            assert forall|w: int| 0 <= w < after.workers.len() implies (
            #[trigger] after.workers[w] matches Turn::Busy { index } ==> index < after.next
                && after.slots[index as int] is None && is_begun(
                told_of(after.events, index),
                w as nat,
                repos[index as int].name,
            )) by {
                if w != worker {
                    assert(after.workers[w] == run.workers[w]);
                }
            }
            assert forall|w: int, v: int| 0 <= w < v < after.workers.len() && (
            #[trigger] after.workers[w]) is Busy && (
            #[trigger] after.workers[v]) is Busy implies after.workers[w]->index
                != after.workers[v]->index by {
                assert(after.workers[w] == run.workers[w] && after.workers[v] == run.workers[v]);
            }
        },
        Some(place) => {
            let index = place as nat;
            let name = repos[index as int].name;
            let event = sync::SyncEventView::Started { worker, name };
            lemma_told(run.events, index, event);
            assert(run.slots[index as int] is None);
            assert(told_of(run.events, index) =~= Seq::empty());
            assert(told_of(after.events, index) =~= seq![event]);
            assert(is_begun(told_of(after.events, index), worker, name));
            assert forall|i: int| 0 <= i < after.next && (
            #[trigger] after.slots[i]) is None implies exists|w: int|
                0 <= w < after.workers.len() && #[trigger] after.workers[w] == (Turn::Busy {
                    index: i as nat,
                }) by {
                if i == index {
                    assert(after.workers[worker as int] == (Turn::Busy { index: i as nat }));
                } else {
                    assert(run.slots[i] is None);
                    let w = choose|w: int|
                        0 <= w < run.workers.len() && #[trigger] run.workers[w] == (Turn::Busy {
                            index: i as nat,
                        });
                    assert(after.workers[w] == run.workers[w]);
                }
            }
            assert forall|w: int| 0 <= w < after.workers.len() implies (
            #[trigger] after.workers[w] matches Turn::Busy { index } ==> index < after.next
                && after.slots[index as int] is None && is_begun(
                told_of(after.events, index),
                w as nat,
                repos[index as int].name,
            )) by {
                if w != worker {
                    assert(after.workers[w] == run.workers[w]);
                }
            }
            assert forall|w: int, v: int| 0 <= w < v < after.workers.len() && (
            #[trigger] after.workers[w]) is Busy && (
            #[trigger] after.workers[v]) is Busy implies after.workers[w]->index
                != after.workers[v]->index by {
                if w != worker {
                    assert(after.workers[w] == run.workers[w]);
                }
                if v != worker {
                    assert(after.workers[v] == run.workers[v]);
                }
            }
            assert forall|w: int| 0 <= w < after.workers.len() implies at_work(
                #[trigger] told_by(after.events, w as nat),
            ) == Some(after.workers[w] is Busy) by {
                let before = told_by(run.events, w as nat);
                assert(at_work(before) == Some(run.workers[w] is Busy));
                if w == worker {
                    assert(before.push(event).drop_last() =~= before);
                }
            }
            assert forall|i: int| 0 <= i < after.next implies (
            #[trigger] after.slots[i] matches Some(result) ==> {
                &&& result.name == repos[i].name
                &&& result.path == repos[i].path
                &&& is_told_in_full(told_of(after.events, i as nat), repos[i].name, result)
            }) by {
                assert(after.slots[i] == run.slots[i]);
            }
            assert forall|i: int| after.next <= i < repos.len() implies #[trigger] after.slots[i]
                is None && told_of(after.events, i as nat).len() == 0 by {
                assert(run.slots[i] is None);
            }
        },
    }
}

proof fn lemma_line_keeps_order(
    repos: Seq<config::RepoConfigView>,
    run: Run,
    worker: nat,
    line: Seq<char>,
)
    requires
        is_orderly(repos, run),
        can_happen(repos, run, Move::Line { worker, line }),
    ensures
        is_orderly(repos, happened(repos, run, Move::Line { worker, line })),
{
    let after = happened(repos, run, Move::Line { worker, line });
    assert(run.workers[worker as int] is Busy);
    let index = run.workers[worker as int]->index;
    let name = repos[index as int].name;
    let event = sync::SyncEventView::Line { worker, name, line };
    lemma_told(run.events, index, event);
    assert(after.workers =~= run.workers);
    let before = told_of(run.events, index);
    assert(is_begun(before, worker, name));
    assert(is_begun(before.push(event), worker, name));
    assert forall|w: int| 0 <= w < after.workers.len() implies at_work(
        #[trigger] told_by(after.events, w as nat),
    ) == Some(after.workers[w] is Busy) by {
        let told = told_by(run.events, w as nat);
        assert(at_work(told) == Some(run.workers[w] is Busy));
        if w == worker {
            assert(told.push(event).drop_last() =~= told);
        }
    }
    assert forall|w: int| 0 <= w < after.workers.len() implies (
    #[trigger] after.workers[w] matches Turn::Busy { index: held } ==> held < after.next
        && after.slots[held as int] is None && is_begun(
        told_of(after.events, held),
        w as nat,
        repos[held as int].name,
    )) by {
        assert(after.workers[w] == run.workers[w]);
        if w < worker {
            assert(run.workers[w] is Busy ==> run.workers[w]->index != index);
        } else if w > worker {
            assert(run.workers[w] is Busy ==> run.workers[worker as int]->index
                != run.workers[w]->index);
        }
    }
    assert forall|i: int| 0 <= i < after.next implies (
    #[trigger] after.slots[i] matches Some(result) ==> {
        &&& result.name == repos[i].name
        &&& result.path == repos[i].path
        &&& is_told_in_full(told_of(after.events, i as nat), repos[i].name, result)
    }) by {
        assert(after.slots[i] == run.slots[i]);
    }
    assert forall|i: int| after.next <= i < repos.len() implies #[trigger] after.slots[i] is None
        && told_of(after.events, i as nat).len() == 0 by {
        assert(run.slots[i] is None);
    }
}

proof fn lemma_finish_keeps_order(
    repos: Seq<config::RepoConfigView>,
    run: Run,
    worker: nat,
    result: sync::SyncResultView,
)
    requires
        is_orderly(repos, run),
        can_happen(repos, run, Move::Finish { worker, result }),
    ensures
        is_orderly(repos, happened(repos, run, Move::Finish { worker, result })),
{
    let after = happened(repos, run, Move::Finish { worker, result });
    assert(run.workers[worker as int] is Busy);
    let index = run.workers[worker as int]->index;
    let repo = repos[index as int];
    let event = sync::SyncEventView::Finished { worker, result };
    lemma_told(run.events, index, event);
    let facts = choose|facts: sync::SyncFacts|
        (#[trigger] sync::sync_step(repo, facts)).action == (sync::SyncActionView::Done { result });
    sync::the_closing_line_tells_the_result(repo, facts);
    let before = told_of(run.events, index);
    assert(is_begun(before, worker, repo.name));
    assert(before.push(event).drop_last() =~= before);
    assert(is_told_in_full(told_of(after.events, index), repo.name, result));
    assert forall|w: int| 0 <= w < after.workers.len() implies at_work(
        #[trigger] told_by(after.events, w as nat),
    ) == Some(after.workers[w] is Busy) by {
        let told = told_by(run.events, w as nat);
        assert(at_work(told) == Some(run.workers[w] is Busy));
        if w == worker {
            assert(told.push(event).drop_last() =~= told);
        }
    }
    assert forall|w: int| 0 <= w < after.workers.len() implies (
    #[trigger] after.workers[w] matches Turn::Busy { index: held } ==> held < after.next
        && after.slots[held as int] is None && is_begun(
        told_of(after.events, held),
        w as nat,
        repos[held as int].name,
    )) by {
        if w != worker {
            assert(after.workers[w] == run.workers[w]);
            if w < worker {
                assert(run.workers[w] is Busy ==> run.workers[w]->index != index);
            } else {
                assert(run.workers[w] is Busy ==> run.workers[worker as int]->index
                    != run.workers[w]->index);
            }
        }
    }
    assert forall|w: int, v: int| 0 <= w < v < after.workers.len() && (
    #[trigger] after.workers[w]) is Busy && (
    #[trigger] after.workers[v]) is Busy implies after.workers[w]->index
        != after.workers[v]->index by {
        assert(after.workers[w] == run.workers[w] && after.workers[v] == run.workers[v]);
    }
    assert forall|i: int| 0 <= i < after.next && (#[trigger] after.slots[i]) is None implies exists|
        w: int,
    |
        0 <= w < after.workers.len() && #[trigger] after.workers[w] == (Turn::Busy {
            index: i as nat,
        }) by {
        assert(i != index);
        assert(run.slots[i] is None);
        let w = choose|w: int|
            0 <= w < run.workers.len() && #[trigger] run.workers[w] == (Turn::Busy {
                index: i as nat,
            });
        assert(after.workers[w] == run.workers[w]);
    }
    assert forall|i: int| 0 <= i < after.next implies (
    #[trigger] after.slots[i] matches Some(shown) ==> {
        &&& shown.name == repos[i].name
        &&& shown.path == repos[i].path
        &&& is_told_in_full(told_of(after.events, i as nat), repos[i].name, shown)
    }) by {
        if i != index {
            assert(after.slots[i] == run.slots[i]);
        }
    }
    assert forall|i: int| after.next <= i < repos.len() implies #[trigger] after.slots[i] is None
        && told_of(after.events, i as nat).len() == 0 by {
        assert(run.slots[i] is None);
    }
}

/// In whatever turn the workers of a run come, each repository is held by one of
/// them at a time; what is reported of it is that it has started, its lines, and
/// its result, all by one worker; nothing is reported of one that was not handed
/// out; a worker begins a repository only after it has finished the last; and
/// each result is of the repository in whose place it stands.
pub proof fn runs_are_orderly(
    repos: Seq<config::RepoConfigView>,
    concurrency: nat,
    moves: Seq<Move>,
)
    requires
        repos.len() <= usize::MAX,
        is_run(repos, concurrency, moves),
    ensures
        is_orderly(repos, run_after(repos, concurrency, moves)),
        run_after(repos, concurrency, moves).workers.len() == sync::worker_count(
            repos.len(),
            concurrency,
        ),
    decreases moves.len(),
{
    if moves.len() > 0 {
        let before = run_after(repos, concurrency, moves.drop_last());
        runs_are_orderly(repos, concurrency, moves.drop_last());
        match moves.last() {
            Move::Take { worker, abandoned } => {
                lemma_take_keeps_order(repos, before, worker, abandoned);
            },
            Move::Line { worker, line } => {
                lemma_line_keeps_order(repos, before, worker, line);
            },
            Move::Finish { worker, result } => {
                lemma_finish_keeps_order(repos, before, worker, result);
            },
        }
    }
}

/// A run tells how many workers there are before anything else, and once.
pub proof fn the_plan_is_told_first(
    repos: Seq<config::RepoConfigView>,
    concurrency: nat,
    moves: Seq<Move>,
)
    requires
        repos.len() <= usize::MAX,
        is_run(repos, concurrency, moves),
    ensures
        told(run_after(repos, concurrency, moves))[0] == (sync::SyncEventView::Planned {
            workers: sync::worker_count(repos.len(), concurrency),
        }),
        forall|k: int|
            0 < k < told(run_after(repos, concurrency, moves)).len() ==> !(#[trigger] told(
                run_after(repos, concurrency, moves),
            )[k] is Planned),
    decreases moves.len(),
{
    runs_are_orderly(repos, concurrency, moves);
    if moves.len() > 0 {
        let before = run_after(repos, concurrency, moves.drop_last());
        let after = run_after(repos, concurrency, moves);
        the_plan_is_told_first(repos, concurrency, moves.drop_last());
        assert forall|k: int| 0 < k < told(after).len() implies !(#[trigger] told(after)[k]
            is Planned) by {
            if k < told(before).len() {
                assert(told(after)[k] == told(before)[k]);
            }
        }
    }
}

/// The first results, where all that are there come first.
proof fn lemma_present_is_prefix(slots: Seq<Option<sync::SyncResultView>>, count: nat)
    requires
        count <= slots.len(),
        forall|i: int| 0 <= i < count ==> #[trigger] slots[i] is Some,
        forall|i: int| count <= i < slots.len() ==> #[trigger] slots[i] is None,
    ensures
        sync::present(slots) == Seq::new(count, |i: int| slots[i]->0),
    decreases slots.len(),
{
    if slots.len() > 0 {
        let rest = slots.drop_last();
        if count == slots.len() {
            lemma_present_is_prefix(rest, (count - 1) as nat);
            assert(slots[slots.len() - 1] is Some);
        } else {
            lemma_present_is_prefix(rest, count);
            assert(slots[slots.len() - 1] is None);
        }
    }
    assert(sync::present(slots) =~= Seq::new(count, |i: int| slots[i]->0));
}

/// A run that is over, aborted or not, gives just the results of the
/// repositories that were started, each once and in the order of the
/// repositories; one that was not started has no result, and nothing was
/// reported of it.
pub proof fn runs_give_what_was_started(
    repos: Seq<config::RepoConfigView>,
    concurrency: nat,
    moves: Seq<Move>,
)
    requires
        repos.len() <= usize::MAX,
        is_run(repos, concurrency, moves),
        forall|w: int|
            0 <= w < run_after(repos, concurrency, moves).workers.len() ==> #[trigger] run_after(
                repos,
                concurrency,
                moves,
            ).workers[w] is Gone,
    ensures
        ({
            let run = run_after(repos, concurrency, moves);
            let results = sync::present(run.slots);
            &&& results.len() == run.next <= repos.len()
            &&& forall|i: int|
                0 <= i < results.len() ==> {
                    &&& (#[trigger] results[i]).name == repos[i].name
                    &&& results[i].path == repos[i].path
                    &&& is_told_in_full(told_of(run.events, i as nat), repos[i].name, results[i])
                }
            &&& forall|i: nat|
                run.next <= i < repos.len() ==> (#[trigger] told_of(run.events, i)).len() == 0
        }),
{
    let run = run_after(repos, concurrency, moves);
    runs_are_orderly(repos, concurrency, moves);
    assert forall|i: int| 0 <= i < run.next implies #[trigger] run.slots[i] is Some by {
        if run.slots[i] is None {
            let w = choose|w: int|
                0 <= w < run.workers.len() && #[trigger] run.workers[w] == (Turn::Busy {
                    index: i as nat,
                });
            assert(run.workers[w] is Gone);
        }
    }
    lemma_present_is_prefix(run.slots, run.next as nat);
    let results = sync::present(run.slots);
    assert forall|i: int| 0 <= i < results.len() implies {
        &&& (#[trigger] results[i]).name == repos[i].name
        &&& results[i].path == repos[i].path
        &&& is_told_in_full(told_of(run.events, i as nat), repos[i].name, results[i])
    } by {
        assert(run.slots[i] is Some);
    }
    assert forall|i: nat| run.next <= i < repos.len() implies (
    #[trigger] told_of(run.events, i)).len() == 0 by {
        assert(run.slots[i as int] is None);
    }
}

/// Whether nothing was given up while it happened.
pub open spec fn is_unaborted(moves: Seq<Move>) -> bool {
    forall|k: int|
        0 <= k < moves.len() ==> !(#[trigger] moves[k] matches Move::Take { abandoned, .. }
            && abandoned)
}

proof fn lemma_gone_means_none_left(
    repos: Seq<config::RepoConfigView>,
    concurrency: nat,
    moves: Seq<Move>,
)
    requires
        repos.len() <= usize::MAX,
        is_run(repos, concurrency, moves),
        is_unaborted(moves),
    ensures
        forall|w: int|
            0 <= w < run_after(repos, concurrency, moves).workers.len() && #[trigger] run_after(
                repos,
                concurrency,
                moves,
            ).workers[w] is Gone ==> run_after(repos, concurrency, moves).next == repos.len(),
    decreases moves.len(),
{
    if moves.len() > 0 {
        let rest = moves.drop_last();
        let before = run_after(repos, concurrency, rest);
        let after = run_after(repos, concurrency, moves);
        assert forall|k: int| 0 <= k < rest.len() implies !(
        #[trigger] rest[k] matches Move::Take { abandoned, .. } && abandoned) by {
            assert(rest[k] == moves[k]);
        }
        lemma_gone_means_none_left(repos, concurrency, rest);
        runs_are_orderly(repos, concurrency, rest);
        assert(moves.last() == moves[moves.len() - 1]);
        assert forall|w: int| 0 <= w < after.workers.len() && #[trigger] after.workers[w]
            is Gone implies after.next == repos.len() by {
            if before.workers[w] is Gone {
                assert(before.next == repos.len());
            }
        }
    }
}

/// A run that was not aborted gives a result for every repository, in their
/// order, whatever came of the others.
pub proof fn unaborted_runs_give_every_result(
    repos: Seq<config::RepoConfigView>,
    concurrency: nat,
    moves: Seq<Move>,
)
    requires
        repos.len() <= usize::MAX,
        is_run(repos, concurrency, moves),
        is_unaborted(moves),
        forall|w: int|
            0 <= w < run_after(repos, concurrency, moves).workers.len() ==> #[trigger] run_after(
                repos,
                concurrency,
                moves,
            ).workers[w] is Gone,
    ensures
        ({
            let results = sync::present(run_after(repos, concurrency, moves).slots);
            &&& results.len() == repos.len()
            &&& forall|i: int|
                0 <= i < repos.len() ==> (#[trigger] results[i]).name == repos[i].name
                    && results[i].path == repos[i].path
        }),
{
    let run = run_after(repos, concurrency, moves);
    runs_are_orderly(repos, concurrency, moves);
    runs_give_what_was_started(repos, concurrency, moves);
    lemma_gone_means_none_left(repos, concurrency, moves);
    if repos.len() > 0 {
        assert(run.workers[0] is Gone);
    }
}

} // verus!
