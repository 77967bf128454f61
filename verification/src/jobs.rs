//! Work on a list of repositories, shared out among a bounded set of workers.

use vstd::prelude::*;

verus! {

/// The places of a list that are still to be worked on, and how many workers
/// share them.
#[derive(Debug)]
pub struct JobQueue {
    pub workers: usize,
    pub count: usize,
    pub next: usize,
}

/// The smaller of two numbers.
pub open spec fn smaller(a: nat, b: nat) -> nat {
    if a <= b {
        a
    } else {
        b
    }
}

/// The place that is handed out next, where there is one: none any more once
/// everything was given up.
pub open spec fn handed_out(next: usize, count: usize, abandoned: bool) -> Option<usize> {
    if abandoned || next >= count {
        None
    } else {
        Some(next)
    }
}

/// How many places were handed out once one was, or none.
pub open spec fn advanced(next: usize, place: Option<usize>) -> int {
    if place is Some {
        next + 1
    } else {
        next as int
    }
}

impl JobQueue {
    /// Whether no place beyond the list was handed out.
    pub open spec fn is_sound(&self) -> bool {
        self.next <= self.count
    }

    /// A list of `count` places and at most `workers` workers: there are never
    /// more of them than places.
    pub fn new(count: usize, workers: usize) -> (r: JobQueue)
        ensures
            r.count == count,
            r.next == 0,
            r.workers == smaller(count as nat, workers as nat),
            r.is_sound(),
    {
        let workers: usize = if count <= workers {
            count
        } else {
            workers
        };
        JobQueue { workers, count, next: 0 }
    }

    /// Hands the next place to a worker: each place once, in the order of the
    /// list, and none any more once everything was given up.
    pub fn take(&mut self, abandoned: bool) -> (r: Option<usize>)
        requires
            old(self).is_sound(),
        ensures
            final(self).is_sound(),
            final(self).workers == old(self).workers,
            final(self).count == old(self).count,
            r == handed_out(old(self).next, old(self).count, abandoned),
            final(self).next == advanced(old(self).next, r),
    {
        if abandoned || self.next >= self.count {
            return None;
        }
        let place: usize = self.next;
        self.next = place + 1;
        Some(place)
    }
}

/// The places that are handed out when workers ask one after another; each time
/// everything was given up by then or not.
pub open spec fn places(count: usize, asked: Seq<bool>) -> Seq<usize>
    decreases asked.len(),
{
    if asked.len() == 0 {
        Seq::empty()
    } else {
        let before = places(count, asked.drop_last());
        match handed_out(before.len() as usize, count, asked.last()) {
            Some(place) => before.push(place),
            None => before,
        }
    }
}

/// However the workers take turns, every place is handed out to one of them
/// only, and in the order of the list; unless everything is given up, none is
/// left out.
pub proof fn places_are_handed_out_once(count: usize, asked: Seq<bool>)
    ensures
        places(count, asked).len() <= count,
        forall|k: int|
            0 <= k < places(count, asked).len() ==> #[trigger] places(count, asked)[k] == k,
        (forall|k: int| 0 <= k < asked.len() ==> !#[trigger] asked[k]) ==> places(
            count,
            asked,
        ).len() == smaller(count as nat, asked.len()),
    decreases asked.len(),
{
    if asked.len() > 0 {
        let rest = asked.drop_last();
        places_are_handed_out_once(count, rest);
        if forall|k: int| 0 <= k < asked.len() ==> !#[trigger] asked[k] {
            assert forall|k: int| 0 <= k < rest.len() implies !#[trigger] rest[k] by {
                assert(rest[k] == asked[k]);
            }
            assert(!asked[asked.len() - 1]);
        }
    }
}

/// There are as many workers as were asked for, unless there are fewer places.
pub proof fn workers_are_no_more_than_places(count: nat, workers: nat)
    ensures
        smaller(count, workers) <= count,
        smaller(count, workers) <= workers,
        smaller(count, workers) == count || smaller(count, workers) == workers,
{
}

/// Once everything is given up nothing is handed out any more; until then the next
/// place is, as long as there is one.
pub proof fn giving_up_stops_the_handing_out(next: usize, count: usize)
    ensures
        handed_out(next, count, true) is None,
        next < count ==> handed_out(next, count, false) == Some(next),
        next >= count ==> handed_out(next, count, false) is None,
{
}

/// A place that was handed out is behind the queue from then on.
pub proof fn places_are_left_behind(next: usize, place: usize)
    ensures
        advanced(next, Some(place)) == next + 1,
        advanced(next, None) == next,
{
}

} // verus!
