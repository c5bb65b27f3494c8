//! The queue of requests that wait to be sent, first in, first out.

use std::collections::VecDeque;
use vstd::prelude::*;
use crate::model::{EntryView, FrontierEntry};

verus! {

/// Requests not yet sent, in the order in which they were found. Nothing is
/// checked against what was queued before: a URL found twice is queued twice.
pub struct Frontier {
    queue: VecDeque<FrontierEntry>,
}

impl View for Frontier {
    type V = Seq<EntryView>;

    closed spec fn view(&self) -> Seq<EntryView> {
        self.queue@.map_values(|e: FrontierEntry| e@)
    }
}

impl Frontier {
    /// The empty frontier.
    pub fn new() -> (frontier: Frontier)
        ensures
            frontier@ == Seq::<EntryView>::empty(),
    {
        let frontier = Frontier { queue: VecDeque::new() };
        assert(frontier@ =~= Seq::<EntryView>::empty());
        frontier
    }

    /// Queues `entry` behind all that wait.
    pub fn push(&mut self, entry: FrontierEntry)
        ensures
            final(self)@ == old(self)@.push(entry@),
    {
        self.queue.push_back(entry);
        assert(self@ =~= old(self)@.push(entry@));
    }

    /// Takes out the entry that has waited longest, if any waits.
    pub fn pop(&mut self) -> (entry: Option<FrontierEntry>)
        ensures
            match entry {
                Some(e) => old(self)@.len() > 0 && e@ == old(self)@[0] && final(self)@ == old(
                    self,
                )@.drop_first(),
                None => old(self)@.len() == 0 && final(self)@ == old(self)@,
            },
    {
        let entry = self.queue.pop_front();
        assert(entry is Some ==> self@ =~= old(self)@.drop_first());
        entry
    }

    /// How many entries wait.
    pub fn len(&self) -> (n: usize)
        ensures
            n == self@.len(),
    {
        self.queue.len()
    }

    /// Whether nothing waits.
    pub fn is_empty(&self) -> (b: bool)
        ensures
            b == (self@.len() == 0),
    {
        self.queue.len() == 0
    }
}

} // verus!
