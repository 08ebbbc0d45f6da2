//! The playback queue: track positions waiting to be played, first in, first
//! out. A position is queued as it is; the queue does not follow the tracks
//! when the library is reordered.

use std::collections::VecDeque;
use vstd::prelude::*;

verus! {

/// Whether a position is a position of a library of `len` tracks.
pub open spec fn within(len: nat) -> spec_fn(usize) -> bool {
    |p: usize| p < len
}

/// The queue `queue` after `position` was offered to it, for a library of
/// `len` tracks: a position of the library is put last, any other is dropped.
pub open spec fn offered(queue: Seq<usize>, position: usize, len: nat) -> Seq<usize> {
    if position < len {
        queue.push(position)
    } else {
        queue
    }
}

/// The front of `queue`, or `fallback` where the queue is empty.
pub open spec fn front_or(queue: Seq<usize>, fallback: usize) -> usize {
    if queue.len() > 0 {
        queue[0]
    } else {
        fallback
    }
}

/// `queue` without its front.
pub open spec fn behind_front(queue: Seq<usize>) -> Seq<usize> {
    if queue.len() > 0 {
        queue.skip(1)
    } else {
        queue
    }
}

/// Track positions waiting to be played.
#[derive(Debug)]
pub struct PlaybackQueue {
    entries: VecDeque<usize>,
}

impl View for PlaybackQueue {
    type V = Seq<usize>;

    closed spec fn view(&self) -> Seq<usize> {
        self.entries@
    }
}

impl PlaybackQueue {
    /// The empty queue.
    pub fn new() -> (queue: PlaybackQueue)
        ensures
            queue@ == Seq::<usize>::empty(),
    {
        PlaybackQueue { entries: VecDeque::new() }
    }

    /// Queues `position` if it is a position of a library of `len` tracks.
    /// Any other position is dropped without a word.
    pub fn enqueue(&mut self, position: usize, len: usize)
        ensures
            final(self)@ == offered(old(self)@, position, len as nat),
    {
        if position < len {
            self.entries.push_back(position);
        }
    }

    /// Takes the front of the queue; where the queue is empty, gives
    /// `fallback` and leaves the queue empty.
    pub fn dequeue_or_default(&mut self, fallback: usize) -> (position: usize)
        ensures
            position == front_or(old(self)@, fallback),
            final(self)@ == behind_front(old(self)@),
    {
        match self.entries.pop_front() {
            Some(front) => {
                front
            },
            None => fallback,
        }
    }

    /// How many positions wait.
    pub fn len(&self) -> (n: usize)
        ensures
            n == self@.len(),
    {
        self.entries.len()
    }

    /// Whether no position waits.
    pub fn is_empty(&self) -> (empty: bool)
        ensures
            empty == (self@.len() == 0),
    {
        self.entries.len() == 0
    }

    /// The position that waits at place `k`, the front being place 0.
    pub fn get(&self, k: usize) -> (position: Option<usize>)
        ensures
            position == if k < self@.len() {
                Some(self@[k as int])
            } else {
                None
            },
    {
        if k < self.entries.len() {
            Some(self.entries[k])
        } else {
            None
        }
    }

    /// The waiting positions, the front first.
    pub fn positions(&self) -> (all: Vec<usize>)
        ensures
            all@ == self@,
    {
        let mut all: Vec<usize> = Vec::new();
        let mut k: usize = 0;
        while k < self.entries.len()
            invariant
                k <= self.entries.len(),
                all@ == self.entries@.take(k as int),
            decreases self.entries.len() - k,
        {
            all.push(self.entries[k]);
            k += 1;
        }
        all
    }

    /// Drops the positions that are no positions of a library of `len`
    /// tracks. Those that stay keep their order.
    pub fn retain_within(&mut self, len: usize)
        ensures
            final(self)@ == old(self)@.filter(within(len as nat)),
    {
        let ghost queued = self.entries@;
        let mut kept: VecDeque<usize> = VecDeque::new();
        let mut k: usize = 0;
        assert(queued.take(0).filter(within(len as nat)) =~= Seq::empty()) by {
            reveal(Seq::filter);
        }
        while k < self.entries.len()
            invariant
                k <= self.entries.len(),
                self.entries@ == queued,
                kept@ == queued.take(k as int).filter(within(len as nat)),
            decreases self.entries.len() - k,
        {
            let position: usize = self.entries[k];
            proof {
                assert(queued.take(k + 1) =~= queued.take(k as int).push(position));
                queued.take(k as int).lemma_filter_push(position, within(len as nat));
            }
            if position < len {
                kept.push_back(position);
            }
            k += 1;
        }
        assert(queued.take(queued.len() as int) =~= queued);
        self.entries = kept;
    }
}

} // verus!
