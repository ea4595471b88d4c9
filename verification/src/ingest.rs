//! Accounting for arriving IQ frames: each is one more frame seen, and
//! whatever the producer reports lost before it is a gap in the stream. The
//! counting lives in one place, so there is one place a drop can be
//! forgotten instead of one per consumer, and a gap is a number the
//! operator can read rather than an inference from arrival times.

use vstd::prelude::*;

verus! {

/// Frames seen, and the gaps reported before them, for the session.
#[derive(Debug, Clone, Copy, PartialEq, Eq, Structural)]
pub struct FrameCounters {
    pub frames_seen: u64,
    /// I/Q pairs the producer reported lost before the frames it delivered.
    pub dropped_pairs: u64,
    /// How many frames arrived after such a gap: one long stall and forty
    /// short ones are different faults.
    pub drop_events: u64,
}

/// The counters after one more frame that followed `dropped` lost pairs.
pub open spec fn after_frame(c: FrameCounters, dropped: u64) -> FrameCounters {
    FrameCounters {
        frames_seen: (c.frames_seen + 1) as u64,
        dropped_pairs: (c.dropped_pairs + dropped) as u64,
        drop_events: (c.drop_events + (if dropped > 0 {
            1int
        } else {
            0
        })) as u64,
    }
}

/// The counters as three numbers.
pub open spec fn counts(c: FrameCounters) -> (int, int, int) {
    (c.frames_seen as int, c.dropped_pairs as int, c.drop_events as int)
}

impl FrameCounters {
    /// Nothing seen yet.
    pub fn new() -> (c: Self)
        ensures
            c.frames_seen == 0 && c.dropped_pairs == 0 && c.drop_events == 0,
    {
        FrameCounters { frames_seen: 0, dropped_pairs: 0, drop_events: 0 }
    }

    /// One frame arrived, after `dropped` pairs the producer reports lost.
    pub fn note_frame(&mut self, dropped: u64)
        requires
            old(self).frames_seen < u64::MAX,
            old(self).dropped_pairs + dropped <= u64::MAX,
            dropped > 0 ==> old(self).drop_events < u64::MAX,
        ensures
            *final(self) == after_frame(*old(self), dropped),
            counts(*final(self)) == (
                old(self).frames_seen + 1,
                old(self).dropped_pairs + dropped,
                old(self).drop_events + (if dropped > 0 {
                    1int
                } else {
                    0
                }),
            ),
    {
        self.frames_seen = self.frames_seen + 1;
        if dropped > 0 {
            self.dropped_pairs = self.dropped_pairs + dropped;
            self.drop_events = self.drop_events + 1;
        }
    }
}

/// The totals a run of frames leaves, each frame given by the pairs
/// reported lost before it: every frame counts once, every gap is added
/// in full, and only frames after a gap are gap events.
pub open spec fn totals(drops: Seq<u64>) -> (int, int, int)
    decreases drops.len(),
{
    if drops.len() == 0 {
        (0, 0, 0)
    } else {
        let t = totals(drops.drop_last());
        (t.0 + 1, t.1 + drops.last(), t.2 + (if drops.last() > 0 {
            1int
        } else {
            0
        }))
    }
}

/// Counting frames one by one keeps the counters equal to the totals of
/// everything reported: no frame or gap is lost or counted twice.
pub proof fn lemma_counting_adds_up(c: FrameCounters, drops: Seq<u64>, d: u64)
    requires
        counts(c) == totals(drops),
        c.frames_seen < u64::MAX,
        c.dropped_pairs + d <= u64::MAX,
        d > 0 ==> c.drop_events < u64::MAX,
    ensures
        counts(after_frame(c, d)) == totals(drops.push(d)),
{
    assert(drops.push(d).drop_last() =~= drops);
}

/// How much of a raw IQ capture is still to be written: a dump writes
/// exactly the pairs it was asked for and then completes.
#[derive(Debug, Clone, Copy, PartialEq, Eq, Structural)]
pub struct DumpBudget {
    pub remaining_pairs: u64,
    pub written_pairs: u64,
}

impl DumpBudget {
    /// A capture of `pairs` I/Q pairs, nothing written yet.
    pub fn new(pairs: u64) -> (b: Self)
        ensures
            b.remaining_pairs == pairs && b.written_pairs == 0,
    {
        DumpBudget { remaining_pairs: pairs, written_pairs: 0 }
    }

    /// A frame of `pairs` pairs arrived: how many of them to write (its
    /// first ones, up to what remains), and whether the dump is then
    /// complete.
    pub fn take(&mut self, pairs: u64) -> (r: (u64, bool))
        requires
            old(self).written_pairs + old(self).remaining_pairs <= u64::MAX,
        ensures
            r.0 == (if pairs < old(self).remaining_pairs {
                pairs
            } else {
                old(self).remaining_pairs
            }),
            final(self).written_pairs == old(self).written_pairs + r.0,
            final(self).remaining_pairs == old(self).remaining_pairs - r.0,
            r.1 == (final(self).remaining_pairs == 0),
            final(self).written_pairs + final(self).remaining_pairs == old(self).written_pairs
                + old(self).remaining_pairs,
    {
        let take = if pairs < self.remaining_pairs {
            pairs
        } else {
            self.remaining_pairs
        };
        self.written_pairs = self.written_pairs + take;
        self.remaining_pairs = self.remaining_pairs - take;
        (take, self.remaining_pairs == 0)
    }
}

} // verus!
