//! One lock per git directory. Two things take it: the fetch of an inspection,
//! which reads `FETCH_HEAD` straight back, and a sync of the repository, from its
//! status check to the end of its build. Two entries can share one repository,
//! and the pull of one must not change the tree that the other is building.
//! Everything else that git is asked only reads, and runs unlocked.

use crate::commits;
use crate::config;
use crate::git;
use crate::paths::{self, same_path, PathStyle};
use crate::sync;
use crate::text;
use vstd::prelude::*;

verus! {

/// The locks that are held, by their keys. Keys that are one path are one lock.
pub struct RepoLocks {
    /// How the system writes its paths.
    pub style: PathStyle,
    pub held: Vec<String>,
}

/// Whether the lock with this key is held.
pub open spec fn is_held(style: PathStyle, held: Seq<Seq<char>>, key: Seq<char>) -> bool {
    exists|i: int| 0 <= i < held.len() && #[trigger] paths::is_same_path(style, held[i], key)
}

/// Whether no lock is held twice.
pub open spec fn is_exclusive(style: PathStyle, held: Seq<Seq<char>>) -> bool {
    forall|i: int, j: int|
        0 <= i < j < held.len() ==> !#[trigger] paths::is_same_path(style, held[i], held[j])
}

/// Where the lock with this key stands among those that are held, or their
/// number.
pub open spec fn place_of(style: PathStyle, held: Seq<Seq<char>>, key: Seq<char>) -> int
    decreases held.len(),
{
    if held.len() == 0 || paths::is_same_path(style, held[0], key) {
        0
    } else {
        1 + place_of(style, held.skip(1), key)
    }
}

/// The locks without the one with this key.
pub open spec fn released(style: PathStyle, held: Seq<Seq<char>>, key: Seq<char>) -> Seq<
    Seq<char>,
> {
    if is_held(style, held, key) {
        held.remove(place_of(style, held, key))
    } else {
        held
    }
}

/// What comes of an attempt to take the lock with this key: whether it was taken,
/// and the locks that are held then.
pub open spec fn attempted(style: PathStyle, held: Seq<Seq<char>>, key: Seq<char>) -> (
    bool,
    Seq<Seq<char>>,
) {
    if is_held(style, held, key) {
        (false, held)
    } else {
        (true, held.push(key))
    }
}

proof fn lemma_place_of(style: PathStyle, held: Seq<Seq<char>>, key: Seq<char>, i: int)
    requires
        0 <= i <= held.len(),
        forall|j: int| 0 <= j < i ==> !paths::is_same_path(style, #[trigger] held[j], key),
        i < held.len() ==> paths::is_same_path(style, held[i], key),
    ensures
        place_of(style, held, key) == i,
    decreases i,
{
    if i > 0 {
        assert(!paths::is_same_path(style, held[0], key));
        assert forall|j: int| 0 <= j < i - 1 implies !paths::is_same_path(
            style,
            #[trigger] held.skip(1)[j],
            key,
        ) by {
            assert(held.skip(1)[j] == held[j + 1]);
        }
        lemma_place_of(style, held.skip(1), key, i - 1);
    }
}

impl RepoLocks {
    /// The keys of the locks that are held.
    pub open spec fn keys(&self) -> Seq<Seq<char>> {
        text::texts(self.held@)
    }

    /// No lock is held.
    pub fn new(style: PathStyle) -> (r: RepoLocks)
        ensures
            r.style == style,
            r.keys() == Seq::<Seq<char>>::empty(),
            is_exclusive(style, r.keys()),
    {
        let r = RepoLocks { style, held: Vec::new() };
        assert(r.keys() =~= Seq::empty());
        r
    }

    /// Where the lock with this key stands, or the number of locks.
    fn find(&self, key: &str) -> (r: usize)
        ensures
            r <= self.held@.len(),
            r == place_of(self.style, self.keys(), key@),
            r < self.held@.len() <==> is_held(self.style, self.keys(), key@),
    {
        let ghost held = self.keys();
        let mut i: usize = 0;
        while i < self.held.len()
            invariant
                held == self.keys(),
                i <= self.held@.len(),
                forall|j: int|
                    0 <= j < i ==> !paths::is_same_path(self.style, #[trigger] held[j], key@),
            decreases self.held@.len() - i,
        {
            assert(held[i as int] == self.held@[i as int]@);
            if same_path(self.style, self.held[i].as_str(), key) {
                proof {
                    lemma_place_of(self.style, held, key@, i as int);
                }
                return i;
            }
            i = i + 1;
        }
        proof {
            lemma_place_of(self.style, held, key@, i as int);
        }
        i
    }

    /// Takes the lock with this key, unless somebody holds it. Says whether it
    /// was taken.
    pub fn try_take(&mut self, key: &str) -> (r: bool)
        requires
            is_exclusive(old(self).style, old(self).keys()),
        ensures
            (r, final(self).keys()) == attempted(old(self).style, old(self).keys(), key@),
            final(self).style == old(self).style,
            is_exclusive(final(self).style, final(self).keys()),
    {
        let place: usize = self.find(key);
        if place < self.held.len() {
            return false;
        }
        self.held.push(key.to_owned());
        assert(self.keys() =~= old(self).keys().push(key@));
        true
    }

    /// Lets the lock with this key go.
    pub fn release(&mut self, key: &str)
        requires
            is_exclusive(old(self).style, old(self).keys()),
        ensures
            final(self).keys() == released(old(self).style, old(self).keys(), key@),
            final(self).style == old(self).style,
            is_exclusive(final(self).style, final(self).keys()),
    {
        let place: usize = self.find(key);
        if place < self.held.len() {
            let _ = self.held.remove(place);
            assert(self.keys() =~= released(old(self).style, old(self).keys(), key@));
            proof {
                lemma_released(old(self).style, old(self).keys(), key@, key@);
            }
        }
    }
}

/// Letting one lock go leaves the others as they are.
proof fn lemma_released(style: PathStyle, held: Seq<Seq<char>>, key: Seq<char>, other: Seq<char>)
    requires
        is_exclusive(style, held),
    ensures
        is_exclusive(style, released(style, held, key)),
        !paths::is_same_path(style, key, other) && is_held(style, held, other) ==> is_held(
            style,
            released(style, held, key),
            other,
        ),
{
    let after = released(style, held, key);
    if is_held(style, held, key) {
        let k = choose|k: int|
            0 <= k < held.len() && #[trigger] paths::is_same_path(style, held[k], key);
        let place = place_of(style, held, key);
        lemma_place_is_same(style, held, key, k);
        assert forall|i: int, j: int| 0 <= i < j < after.len() implies !#[trigger]
            paths::is_same_path(style, after[i], after[j]) by {
            let a = if i < place {
                i
            } else {
                i + 1
            };
            let b = if j < place {
                j
            } else {
                j + 1
            };
            assert(after[i] == held[a] && after[j] == held[b]);
            assert(!paths::is_same_path(style, held[a], held[b]));
        }
        if !paths::is_same_path(style, key, other) && is_held(style, held, other) {
            let i = choose|i: int|
                0 <= i < held.len() && #[trigger] paths::is_same_path(style, held[i], other);
            assert(i != place);
            let a = if i < place {
                i
            } else {
                i - 1
            };
            assert(after[a] == held[i]);
            assert(paths::is_same_path(style, after[a], other));
        }
    }
}

proof fn lemma_place_is_same(style: PathStyle, held: Seq<Seq<char>>, key: Seq<char>, k: int)
    requires
        0 <= k < held.len(),
        paths::is_same_path(style, held[k], key),
    ensures
        0 <= place_of(style, held, key) < held.len(),
        paths::is_same_path(style, held[place_of(style, held, key)], key),
    decreases held.len(),
{
    if !paths::is_same_path(style, held[0], key) {
        assert(held.skip(1)[k - 1] == held[k]);
        lemma_place_is_same(style, held.skip(1), key, k - 1);
    }
}

/// What somebody is doing in a repository.
pub enum Work {
    /// A sync of it.
    Sync { repo: config::RepoConfigView, facts: sync::SyncFacts, over: bool },
    /// An inspection of its commits.
    Inspection { name: Seq<char>, path: Seq<char>, found: commits::CommitFacts },
}

impl Work {
    /// Whether the lock of the repository is held for it.
    pub open spec fn holds(self) -> bool {
        match self {
            Work::Sync { facts, over, .. } => facts.lock is Held && !over,
            Work::Inspection { found, .. } => found.held,
        }
    }

    /// Whether its next step checks the work tree, pulls, builds, fetches or
    /// reads a fetch back.
    pub open spec fn touches(self) -> bool {
        match self {
            Work::Sync { repo, facts, over } => !over && match sync::sync_step(repo, facts).action {
                sync::SyncActionView::Inspect => true,
                sync::SyncActionView::Pull => true,
                sync::SyncActionView::Build { .. } => true,
                _ => false,
            },
            Work::Inspection { name, path, found } => match commits::commit_step(
                name,
                path,
                found,
            ) {
                commits::CommitStepView::Fetch => true,
                commits::CommitStepView::Ask { query } => query == (git::GitQueryView::Commit {
                    reference: "FETCH_HEAD"@,
                }),
                _ => false,
            },
        }
    }
}

/// Somebody at work, with the key of the repository's lock.
pub struct Worker {
    pub key: Seq<char>,
    pub work: Work,
}

/// Everybody at work in this process, and the locks that are held.
pub struct World {
    /// How the system writes its paths.
    pub style: PathStyle,
    pub held: Seq<Seq<char>>,
    pub workers: Seq<Worker>,
}

/// A step of a sync: what it has found out after it, and the locks that are held
/// then.
pub open spec fn sync_moves(
    style: PathStyle,
    key: Seq<char>,
    repo: config::RepoConfigView,
    before: sync::SyncFacts,
    after: sync::SyncFacts,
    over: bool,
    held: Seq<Seq<char>>,
    next_held: Seq<Seq<char>>,
) -> bool {
    let kept = after.lock == before.lock && next_held == held && !over;
    match sync::sync_step(repo, before).action {
        sync::SyncActionView::TryLock => !over && if is_held(style, held, key) {
            after.lock is Busy && next_held == held
        } else {
            after.lock is Held && next_held == held.push(key)
        },
        sync::SyncActionView::WaitForLock => !over && !is_held(style, held, key) && after.lock
            is Held && next_held == held.push(key),
        sync::SyncActionView::Inspect => kept && after.status is Some,
        sync::SyncActionView::Pull => kept && after.pull is Some,
        sync::SyncActionView::Build { .. } => kept && after.build is Some,
        sync::SyncActionView::Done { .. } => over && after == before && next_held == released(
            style,
            held,
            key,
        ),
    }
}

/// A step of an inspection of commits: what it has found out after it, and the
/// locks that are held then.
pub open spec fn inspection_moves(
    style: PathStyle,
    key: Seq<char>,
    name: Seq<char>,
    path: Seq<char>,
    before: commits::CommitFacts,
    after: commits::CommitFacts,
    held: Seq<Seq<char>>,
    next_held: Seq<Seq<char>>,
) -> bool {
    match commits::commit_step(name, path, before) {
        commits::CommitStepView::TakeLock => !is_held(style, held, key) && after == (
        commits::CommitFacts { held: true, ..before }) && next_held == held.push(key),
        commits::CommitStepView::ReleaseLock => after == (
        commits::CommitFacts { held: false, ..before }) && next_held == released(style, held, key),
        _ => after.held == before.held && next_held == held,
    }
}

/// Whether the one at work at `i` has made a step, and nobody else.
pub open spec fn moves(world: World, next: World, i: int) -> bool {
    &&& 0 <= i < world.workers.len()
    &&& next.style == world.style
    &&& next.workers.len() == world.workers.len()
    &&& forall|j: int|
        0 <= j < world.workers.len() && j != i ==> #[trigger] next.workers[j] == world.workers[j]
    &&& next.workers[i].key == world.workers[i].key
    &&& match (world.workers[i].work, next.workers[i].work) {
        (
            Work::Sync { repo, facts, over },
            Work::Sync { repo: same, facts: after, over: ended },
        ) => !over && same == repo && sync_moves(
            world.style,
            world.workers[i].key,
            repo,
            facts,
            after,
            ended,
            world.held,
            next.held,
        ),
        (
            Work::Inspection { name, path, found },
            Work::Inspection { name: same_name, path: same_path, found: after },
        ) => same_name == name && same_path == path && inspection_moves(
            world.style,
            world.workers[i].key,
            name,
            path,
            found,
            after,
            world.held,
            next.held,
        ),
        _ => false,
    }
}

/// Whether whoever holds a lock is known to, and no two hold the same.
pub open spec fn is_orderly(world: World) -> bool {
    &&& is_exclusive(world.style, world.held)
    &&& forall|i: int|
        0 <= i < world.workers.len() && (#[trigger] world.workers[i]).work.holds() ==> is_held(
            world.style,
            world.held,
            world.workers[i].key,
        )
    &&& forall|i: int, j: int|
        0 <= i < j < world.workers.len() && (#[trigger] world.workers[i]).work.holds() && (
        #[trigger] world.workers[j]).work.holds() ==> !paths::is_same_path(
            world.style,
            world.workers[i].key,
            world.workers[j].key,
        )
}

/// A world in which nobody holds a lock yet is orderly.
pub proof fn worlds_begin_orderly(world: World)
    requires
        world.held.len() == 0,
        forall|i: int|
            0 <= i < world.workers.len() ==> !(#[trigger] world.workers[i]).work.holds(),
    ensures
        is_orderly(world),
{
}

/// Whoever makes a step, in whatever turn, an orderly world stays orderly.
pub proof fn worlds_stay_orderly(world: World, next: World, i: int)
    requires
        is_orderly(world),
        moves(world, next, i),
    ensures
        is_orderly(next),
{
    let style = world.style;
    let key = world.workers[i].key;
    let before = world.workers[i].work;
    let after = next.workers[i].work;
    lemma_released(style, world.held, key, key);
    assert forall|j: int| 0 <= j < next.workers.len() && (
    #[trigger] next.workers[j]).work.holds() implies is_held(
        style,
        next.held,
        next.workers[j].key,
    ) by {
        let other = next.workers[j].key;
        if next.held == world.held.push(key) {
            if j == i {
                assert(next.held[world.held.len() as int] == key);
                assert(paths::is_same_path(style, next.held[world.held.len() as int], key));
            } else {
                assert(world.workers[j].work.holds());
                let k = choose|k: int|
                    0 <= k < world.held.len() && #[trigger] paths::is_same_path(
                        style,
                        world.held[k],
                        other,
                    );
                assert(next.held[k] == world.held[k]);
                assert(paths::is_same_path(style, next.held[k], other));
            }
        } else if next.held != world.held {
            assert(j != i);
            assert(world.workers[j].work.holds() && before.holds());
            lemma_released(style, world.held, key, other);
        } else {
            assert(world.workers[j].work.holds());
        }
    }
    assert forall|a: int, b: int| 0 <= a < b < next.workers.len() && (
    #[trigger] next.workers[a]).work.holds() && (
    #[trigger] next.workers[b]).work.holds() implies !paths::is_same_path(
        style,
        next.workers[a].key,
        next.workers[b].key,
    ) by {
        if a != i && b != i {
            assert(world.workers[a].work.holds() && world.workers[b].work.holds());
        } else {
            let j = if a == i {
                b
            } else {
                a
            };
            assert(world.workers[j].work.holds());
            let other = world.workers[j].key;
            if before.holds() {
                assert(!paths::is_same_path(style, key, other));
            } else {
                assert(!is_held(style, world.held, key));
                let k = choose|k: int|
                    0 <= k < world.held.len() && #[trigger] paths::is_same_path(
                        style,
                        world.held[k],
                        other,
                    );
                assert(!paths::is_same_path(style, world.held[k], key));
            }
        }
    }
}

/// Whether one world follows another, by a step of somebody.
pub open spec fn follows(before: World, after: World) -> bool {
    exists|i: int| #[trigger] moves(before, after, i)
}

/// Whether the worlds follow one another.
pub open spec fn is_history(worlds: Seq<World>) -> bool {
    forall|k: int| 0 < k < worlds.len() ==> follows(worlds[k - 1], #[trigger] worlds[k])
}

/// However the steps of everybody fall between one another, the world is orderly
/// at every point.
pub proof fn histories_are_orderly(worlds: Seq<World>, k: int)
    requires
        is_history(worlds),
        0 <= k < worlds.len(),
        is_orderly(worlds[0]),
    ensures
        is_orderly(worlds[k]),
    decreases k,
{
    if k > 0 {
        histories_are_orderly(worlds, k - 1);
        assert(follows(worlds[k - 1], worlds[k]));
        let i = choose|i: int| #[trigger] moves(worlds[k - 1], worlds[k], i);
        worlds_stay_orderly(worlds[k - 1], worlds[k], i);
    }
}

/// Where two entries share one repository, nothing is done in it for the one
/// while it is being worked on for the other: no fetch and no sync falls into
/// the time from the status check of a sync to the end of its build.
pub proof fn a_repository_is_worked_on_once_at_a_time(world: World, i: int, j: int)
    requires
        is_orderly(world),
        0 <= i < world.workers.len(),
        0 <= j < world.workers.len(),
        i != j,
        paths::is_same_path(world.style, world.workers[i].key, world.workers[j].key),
        world.workers[i].work.holds(),
    ensures
        !world.workers[j].work.holds(),
        !world.workers[j].work.touches(),
{
    if world.workers[j].work.touches() {
        touching_needs_the_lock(world.workers[j].work);
    }
}

/// Whatever checks, pulls, builds, fetches or reads a fetch back holds the lock.
pub proof fn touching_needs_the_lock(work: Work)
    requires
        work.touches(),
    ensures
        work.holds(),
{
    match work {
        Work::Sync { repo, facts, .. } => {
            if facts.lock != (sync::LockState::Held { abandoned: false }) {
                sync::nothing_is_touched_without_the_lock(repo, facts);
            }
        },
        Work::Inspection { name, path, found } => {
            commits::fetches_are_read_back_under_the_lock(name, path, found);
        },
    }
}

/// A sync that finds the repository held says so before it says anything else,
/// and then waits.
pub proof fn a_wait_is_told_first(repo: config::RepoConfigView, facts: sync::SyncFacts)
    ensures
        facts.lock is Untried ==> sync::sync_step(repo, facts) == (sync::SyncStepView {
            line: None,
            action: sync::SyncActionView::TryLock,
        }),
        facts.lock is Busy ==> sync::sync_step(repo, facts) == (sync::SyncStepView {
            line: Some("waiting for another git command in this repository"@),
            action: sync::SyncActionView::WaitForLock,
        }),
{
}

/// A lock is held under every path that is the same as a key that was taken, and
/// under no other.
pub proof fn locks_are_known_by_their_paths(
    style: PathStyle,
    held: Seq<Seq<char>>,
    key: Seq<char>,
    other: Seq<char>,
)
    ensures
        !is_held(style, Seq::empty(), other),
        is_held(style, held.push(key), other) <==> is_held(style, held, other)
            || paths::is_same_path(style, key, other),
{
    let more = held.push(key);
    if is_held(style, held, other) {
        let i = choose|i: int|
            0 <= i < held.len() && #[trigger] paths::is_same_path(style, held[i], other);
        assert(paths::is_same_path(style, more[i], other));
    }
    if paths::is_same_path(style, key, other) {
        assert(paths::is_same_path(style, more[held.len() as int], other));
    }
    if is_held(style, more, other) {
        let i = choose|i: int|
            0 <= i < more.len() && #[trigger] paths::is_same_path(style, more[i], other);
        if i < held.len() {
            assert(paths::is_same_path(style, held[i], other));
        }
    }
}

/// A lock that is let go is free again, and every other stays as it is: what is
/// taken and let go leaves the locks as they were.
pub proof fn released_locks_are_free(
    style: PathStyle,
    held: Seq<Seq<char>>,
    key: Seq<char>,
    other: Seq<char>,
)
    requires
        is_exclusive(style, held),
    ensures
        !is_held(style, released(style, held, key), key),
        !paths::is_same_path(style, key, other) ==> is_held(
            style,
            released(style, held, key),
            other,
        ) == is_held(style, held, other),
        !is_held(style, held, key) ==> released(style, held.push(key), key) == held,
        !is_held(style, held, key) ==> released(style, held, key) == held,
{
    let after = released(style, held, key);
    lemma_released(style, held, key, other);
    if is_held(style, held, key) {
        let k = choose|k: int|
            0 <= k < held.len() && #[trigger] paths::is_same_path(style, held[k], key);
        let place = place_of(style, held, key);
        lemma_place_is_same(style, held, key, k);
        assert forall|i: int| 0 <= i < after.len() implies !#[trigger] paths::is_same_path(
            style,
            after[i],
            key,
        ) by {
            let a = if i < place {
                i
            } else {
                i + 1
            };
            assert(after[i] == held[a]);
            paths::same_paths_are_alike(style, held[a], key, held[place]);
            paths::same_paths_are_alike(style, held[place], key, held[a]);
            if a < place {
                assert(!paths::is_same_path(style, held[a], held[place]));
            } else {
                assert(!paths::is_same_path(style, held[place], held[a]));
            }
        }
        if is_held(style, after, other) {
            let i = choose|i: int|
                0 <= i < after.len() && #[trigger] paths::is_same_path(style, after[i], other);
            let a = if i < place {
                i
            } else {
                i + 1
            };
            assert(after[i] == held[a]);
            assert(paths::is_same_path(style, held[a], other));
        }
    } else {
        let more = held.push(key);
        paths::same_paths_are_alike(style, key, key, key);
        assert(paths::is_same_path(style, more[held.len() as int], key));
        assert forall|j: int| 0 <= j < held.len() implies !paths::is_same_path(
            style,
            #[trigger] more[j],
            key,
        ) by {
            assert(!paths::is_same_path(style, held[j], key));
        }
        lemma_place_of(style, more, key, held.len() as int);
        assert(released(style, more, key) =~= held);
    }
}

/// A lock is taken just when nobody holds it, under any way of writing its path;
/// then it is held, and else nothing changes.
pub proof fn locks_are_taken_once(style: PathStyle, held: Seq<Seq<char>>, key: Seq<char>)
    ensures
        attempted(style, held, key).0 <==> forall|i: int|
            0 <= i < held.len() ==> !#[trigger] paths::is_same_path(style, held[i], key),
        attempted(style, held, key).0 ==> attempted(style, held, key).1 == held.push(key)
            && is_held(style, attempted(style, held, key).1, key),
        !attempted(style, held, key).0 ==> attempted(style, held, key).1 == held,
{
    paths::same_paths_are_alike(style, key, key, key);
    locks_are_known_by_their_paths(style, held, key, key);
}

} // verus!
