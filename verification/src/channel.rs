//! A bounded, ordered hand-off point between one producer and one consumer.

use vstd::prelude::*;
use std::collections::VecDeque;

verus! {

/// What became of an item handed to a channel.
#[derive(Debug)]
pub enum TrySend<T> {
    /// The item is queued.
    Sent,
    /// Every place is taken; the item comes back.
    Full(T),
    /// The channel is closed; the item comes back.
    Closed(T),
}

/// What a channel had to give.
#[derive(Debug)]
pub enum TryRecv<T> {
    /// The item that was queued first.
    Item(T),
    /// Nothing is queued, but more may come.
    Empty,
    /// Nothing is queued and the channel is closed: nothing will come.
    Closed,
}

/// A queue of at most `capacity` items that hands them out in the order
/// in which they came. Once closed it takes no more, and gives out what it
/// still holds.
#[derive(Debug)]
pub struct Channel<T> {
    pub capacity: usize,
    pub queue: VecDeque<T>,
    pub closed: bool,
}

impl<T> Channel<T> {
    /// The queue never holds more than the capacity.
    pub open spec fn wf(&self) -> bool {
        self.queue@.len() <= self.capacity
    }

    /// An open, empty channel with `capacity` places.
    pub fn new(capacity: usize) -> (channel: Channel<T>)
        ensures
            channel.capacity == capacity,
            channel.queue@ == Seq::<T>::empty(),
            !channel.closed,
            channel.wf(),
    {
        Channel { capacity, queue: VecDeque::new(), closed: false }
    }

    /// How many items are queued.
    pub fn len(&self) -> (n: usize)
        ensures
            n == self.queue@.len(),
    {
        self.queue.len()
    }

    /// Queues `item` behind the others, unless the channel is closed or
    /// full.
    pub fn try_send(&mut self, item: T) -> (outcome: TrySend<T>)
        requires
            old(self).wf(),
        ensures
            final(self).wf(),
            final(self).capacity == old(self).capacity,
            final(self).closed == old(self).closed,
            old(self).closed ==> outcome == TrySend::Closed(item) && final(self).queue@ == old(
                self,
            ).queue@,
            !old(self).closed && old(self).queue@.len() == old(self).capacity ==> outcome
                == TrySend::Full(item) && final(self).queue@ == old(self).queue@,
            !old(self).closed && old(self).queue@.len() < old(self).capacity ==> outcome
                == TrySend::<T>::Sent && final(self).queue@ == old(self).queue@.push(item),
    {
        if self.closed {
            TrySend::Closed(item)
        } else if self.queue.len() >= self.capacity {
            TrySend::Full(item)
        } else {
            self.queue.push_back(item);
            TrySend::Sent
        }
    }

    /// Takes the item that was queued first.
    pub fn try_recv(&mut self) -> (outcome: TryRecv<T>)
        requires
            old(self).wf(),
        ensures
            final(self).wf(),
            final(self).capacity == old(self).capacity,
            final(self).closed == old(self).closed,
            old(self).queue@.len() > 0 ==> outcome == TryRecv::Item(old(self).queue@[0])
                && final(self).queue@ == old(self).queue@.skip(1),
            old(self).queue@.len() == 0 ==> final(self).queue@ == old(self).queue@ && outcome == (
            if old(self).closed {
                TryRecv::<T>::Closed
            } else {
                TryRecv::<T>::Empty
            }),
    {
        match self.queue.pop_front() {
            Some(item) => TryRecv::Item(item),
            None => {
                if self.closed {
                    TryRecv::Closed
                } else {
                    TryRecv::Empty
                }
            },
        }
    }

    /// Closes the channel: it takes no more items.
    pub fn close(&mut self)
        ensures
            final(self).closed,
            final(self).capacity == old(self).capacity,
            final(self).queue@ == old(self).queue@,
    {
        self.closed = true;
    }
}

} // verus!
