use vstd::prelude::*;
use std::collections::VecDeque;
use crate::decode::{digest, digest_of, opt_bytes};

verus! {

/// How many decoded records a topic's outbound queue holds before new ones
/// are shed.
pub const CHANNEL_CAPACITY: usize = 128;

/// Where a consumer starts reading a partition.
#[derive(Clone, Copy, Debug, PartialEq, Eq, Structural)]
pub enum StartOffset {
    /// The earliest record the broker still keeps.
    Beginning,
}

/// The single partition a topic consumer is assigned, and where it starts.
pub struct Assignment {
    pub topic: String,
    pub partition: i32,
    pub offset: StartOffset,
}

/// The assignment of a consumer for `topic`: partition 0, from the earliest
/// offset. Consumers are never group-rebalanced.
pub fn assignment_for(topic: &str) -> (r: Assignment)
    ensures
        r.topic@ == topic@,
        r.partition == 0,
        r.offset == StartOffset::Beginning,
{
    Assignment { topic: String::from_str(topic), partition: 0, offset: StartOffset::Beginning }
}

/// The bounded queue between one topic consumer and the presentation loop.
/// The producer never waits: a record that finds the queue full is dropped.
pub struct Outbound {
    items: VecDeque<String>,
}

/// What became of one incoming record.
#[derive(Clone, Copy, Debug, PartialEq, Eq, Structural)]
pub enum Delivery {
    /// The record lacked a key or a value; nothing was forwarded.
    Skipped,
    /// The decoded line was queued.
    Queued,
    /// The queue was full; the decoded line was dropped.
    Dropped,
}

impl Outbound {
    /// The undelivered lines, oldest first.
    pub closed spec fn view(&self) -> Seq<Seq<char>> {
        self.items@.map_values(|s: String| s@)
    }

    pub open spec fn well_formed(&self) -> bool {
        self.view().len() <= CHANNEL_CAPACITY
    }

    /// An empty queue.
    pub fn new() -> (r: Self)
        ensures
            r.view() == Seq::<Seq<char>>::empty(),
            r.well_formed(),
    {
        let r = Outbound { items: VecDeque::new() };
        assert(r.view() =~= Seq::<Seq<char>>::empty());
        r
    }

    /// The number of undelivered lines.
    pub fn len(&self) -> (r: usize)
        ensures
            r == self.view().len(),
    {
        self.items.len()
    }

    /// Offers `line` without waiting: it is appended when there is room, and
    /// the queue is left as it was when it is full.
    pub fn offer(&mut self, line: String) -> (r: bool)
        requires
            old(self).well_formed(),
        ensures
            final(self).well_formed(),
            r == (old(self).view().len() < CHANNEL_CAPACITY),
            r ==> final(self).view() == old(self).view().push(line@),
            !r ==> final(self).view() == old(self).view(),
    {
        if self.items.len() < CHANNEL_CAPACITY {
            let ghost before = self.items@;
            self.items.push_back(line);
            assert(self.items@ == before.push(line));
            assert(self.view() =~= old(self).view().push(line@));
            true
        } else {
            false
        }
    }

    /// Takes the oldest undelivered line, if any.
    pub fn take(&mut self) -> (r: Option<String>)
        requires
            old(self).well_formed(),
        ensures
            final(self).well_formed(),
            old(self).view().len() == 0 ==> r is None && final(self).view() == old(self).view(),
            old(self).view().len() > 0 ==> r is Some && r->0@ == old(self).view()[0]
                && final(self).view() == old(self).view().drop_first(),
    {
        let r = self.items.pop_front();
        proof {
            if old(self).view().len() > 0 {
                assert(self.view() =~= old(self).view().drop_first());
            } else {
                assert(self.view() =~= old(self).view());
            }
        }
        r
    }

    /// Handles one incoming record: a record with both a key and a value is
    /// decoded to one line and offered to the queue; any other is skipped.
    pub fn forward_record(&mut self, key: Option<&[u8]>, value: Option<&[u8]>) -> (r: Delivery)
        requires
            old(self).well_formed(),
        ensures
            final(self).well_formed(),
            digest_of(opt_bytes(key), opt_bytes(value)) is None ==> r == Delivery::Skipped
                && final(self).view() == old(self).view(),
            digest_of(opt_bytes(key), opt_bytes(value)) is Some && old(self).view().len()
                < CHANNEL_CAPACITY ==> r == Delivery::Queued && final(self).view() == old(
                self,
            ).view().push(digest_of(opt_bytes(key), opt_bytes(value))->0),
            digest_of(opt_bytes(key), opt_bytes(value)) is Some && old(self).view().len()
                >= CHANNEL_CAPACITY ==> r == Delivery::Dropped && final(self).view() == old(
                self,
            ).view(),
    {
        match digest(key, value) {
            None => Delivery::Skipped,
            Some(line) => {
                if self.offer(line) {
                    Delivery::Queued
                } else {
                    Delivery::Dropped
                }
            },
        }
    }
}

} // verus!
