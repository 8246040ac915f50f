use vstd::prelude::*;

verus! {

/// Direction derived from the recent scroll samples: the newest sample is
/// compared against the most recent sample that differs from it.
#[derive(Clone, Copy, PartialEq, Eq, Structural, Debug)]
pub enum ScrollDirection {
    Up,
    Down,
    Unchanged,
}

/// How many samples the history keeps. Two samples cannot always decide a
/// direction, because adjacent samples are sometimes numerically equal, so a
/// third one is kept to break ties.
pub const SCROLL_CAPACITY: usize = 3;

/// The stored samples after appending `offset`: the oldest sample is evicted
/// once the history is full.
pub open spec fn spec_push_sample(h: Seq<i64>, offset: i64) -> Seq<i64> {
    let grown = h.push(offset);
    if grown.len() <= SCROLL_CAPACITY {
        grown
    } else {
        grown.skip(grown.len() - SCROLL_CAPACITY)
    }
}

/// The history after appending every offset of `offs` in order.
pub open spec fn spec_push_all(h: Seq<i64>, offs: Seq<i64>) -> Seq<i64>
    decreases offs.len(),
{
    if offs.len() == 0 {
        h
    } else {
        spec_push_all(spec_push_sample(h, offs[0]), offs.drop_first())
    }
}

/// The direction read against the newest sample `newest`, walking the earlier
/// samples from the most recent one and skipping those equal to `newest`.
pub open spec fn spec_direction_against(earlier: Seq<i64>, newest: i64) -> ScrollDirection
    decreases earlier.len(),
{
    if earlier.len() == 0 {
        ScrollDirection::Unchanged
    } else if earlier.last() == newest {
        spec_direction_against(earlier.drop_last(), newest)
    } else if newest > earlier.last() {
        ScrollDirection::Down
    } else {
        ScrollDirection::Up
    }
}

/// The direction derived from a whole history.
pub open spec fn spec_direction(h: Seq<i64>) -> ScrollDirection {
    if h.len() == 0 {
        ScrollDirection::Unchanged
    } else {
        spec_direction_against(h.drop_last(), h.last())
    }
}

/// Fixed-capacity buffer of the most recent vertical scroll offsets, oldest
/// evicted first.
pub struct ScrollHistory {
    samples: Vec<i64>,
}

impl View for ScrollHistory {
    type V = Seq<i64>;

    closed spec fn view(&self) -> Seq<i64> {
        self.samples@
    }
}

impl ScrollHistory {
    pub open spec fn wf(&self) -> bool {
        self@.len() <= SCROLL_CAPACITY
    }

    pub fn new() -> (r: ScrollHistory)
        ensures
            r.wf(),
            r@ =~= Seq::<i64>::empty(),
    {
        ScrollHistory { samples: Vec::new() }
    }

    /// Append a sample, evicting the oldest one when the buffer is full.
    /// Every integer offset is accepted.
    pub fn push(&mut self, offset: i64)
        requires
            old(self).wf(),
        ensures
            final(self).wf(),
            final(self)@ =~= spec_push_sample(old(self)@, offset),
    {
        self.samples.push(offset);
        if self.samples.len() > SCROLL_CAPACITY {
            self.samples.remove(0);
            proof {
                assert(self@ =~= spec_push_sample(old(self)@, offset));
            }
        }
    }

    pub fn len(&self) -> (r: usize)
        ensures
            r == self@.len(),
    {
        self.samples.len()
    }

    /// The stored sample at `i`, oldest first.
    pub fn sample(&self, i: usize) -> (r: i64)
        requires
            i < self@.len(),
        ensures
            r == self@[i as int],
    {
        self.samples[i]
    }

    /// Derive the scroll direction from the stored samples.
    pub fn direction(&self) -> (r: ScrollDirection)
        ensures
            r == spec_direction(self@),
    {
        if self.samples.len() == 0 {
            return ScrollDirection::Unchanged;
        }
        let newest = self.samples[self.samples.len() - 1];
        let mut i: usize = self.samples.len() - 1;
        while i > 0
            invariant
                i < self@.len(),
                self@.last() == newest,
                spec_direction_against(self@.drop_last(), newest) == spec_direction_against(
                    self@.take(i as int),
                    newest,
                ),
            decreases i,
        {
            let prev = self.samples[i - 1];
            if prev != newest {
                proof {
                    assert(self@.take(i as int).last() == prev);
                }
                if newest > prev {
                    return ScrollDirection::Down;
                } else {
                    return ScrollDirection::Up;
                }
            }
            proof {
                assert(self@.take(i as int).last() == prev);
                assert(self@.take(i as int).drop_last() =~= self@.take(i - 1));
            }
            i = i - 1;
        }
        proof {
            assert(self@.take(0) =~= Seq::<i64>::empty());
        }
        ScrollDirection::Unchanged
    }
}

/// Scroll history capacity: after pushing the offsets `offs` onto any
/// well-sized history, the stored contents are exactly the last
/// `SCROLL_CAPACITY` offsets of the combined sequence.
pub proof fn lemma_push_all_keeps_last(h: Seq<i64>, offs: Seq<i64>)
    requires
        h.len() <= SCROLL_CAPACITY,
    ensures
        (h + offs).len() <= SCROLL_CAPACITY ==> spec_push_all(h, offs) =~= h + offs,
        (h + offs).len() > SCROLL_CAPACITY ==> spec_push_all(h, offs) =~= (h + offs).skip(
            (h + offs).len() - SCROLL_CAPACITY,
        ),
    decreases offs.len(),
{
    if offs.len() == 0 {
        assert(h + offs =~= h);
    } else {
        let rest = offs.drop_first();
        let h2 = spec_push_sample(h, offs[0]);
        lemma_push_all_keeps_last(h2, rest);
        if h.len() < SCROLL_CAPACITY {
            assert(h2 + rest =~= h + offs);
        } else {
            let whole = h + offs;
            assert(h2 + rest =~= whole.skip(1));
            if (h2 + rest).len() > SCROLL_CAPACITY {
                assert(whole.skip(1).skip(whole.len() - 1 - SCROLL_CAPACITY) =~= whole.skip(
                    whole.len() - SCROLL_CAPACITY,
                ));
            } else {
                assert(whole.skip(1) =~= whole.skip(whole.len() - SCROLL_CAPACITY));
            }
        }
    }
}

/// Scroll history capacity at the buffer's own size: after pushing at least
/// `SCROLL_CAPACITY` offsets, the stored contents are exactly the last
/// `SCROLL_CAPACITY` of them, whatever was stored before.
pub proof fn lemma_capacity(h: Seq<i64>, offs: Seq<i64>)
    requires
        h.len() <= SCROLL_CAPACITY,
        offs.len() >= SCROLL_CAPACITY,
    ensures
        spec_push_all(h, offs) =~= offs.skip(offs.len() - SCROLL_CAPACITY),
{
    lemma_push_all_keeps_last(h, offs);
    if (h + offs).len() > SCROLL_CAPACITY {
        assert((h + offs).skip((h + offs).len() - SCROLL_CAPACITY) =~= offs.skip(
            offs.len() - SCROLL_CAPACITY,
        ));
    } else {
        assert(h.len() == 0 && offs.len() == SCROLL_CAPACITY);
        assert(h + offs =~= offs.skip(0));
    }
}

} // verus!
