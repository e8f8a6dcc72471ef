use vstd::prelude::*;

verus! {

/// A configuration the tournament must reject before any worker starts.
#[derive(Copy, Clone, PartialEq, Eq, Structural, Debug)]
pub enum ConfigError {
    /// The requested seed range would run past the largest representable seed.
    SeedRangeOverflow,
}

/// Hands out the seeds of a contiguous range, each exactly once.
///
/// Workers claim seeds one at a time; the cursor only moves forward, so the
/// claims form a partition of `[start, start + count)`: no seed is skipped
/// and none is handed out twice.
pub struct SeedCursor {
    next: u32,
    end: u32,
    start: Ghost<u32>,
    claimed: Ghost<Set<u32>>,
}

impl SeedCursor {
    /// First seed of the range.
    pub closed spec fn start_seed(self) -> u32 {
        self.start@
    }

    /// One past the last seed of the range.
    pub closed spec fn end_seed(self) -> u32 {
        self.end
    }

    /// The seed the next successful claim will return.
    pub closed spec fn next_seed(self) -> u32 {
        self.next
    }

    /// Every seed handed out so far.
    pub closed spec fn claimed_seeds(self) -> Set<u32> {
        self.claimed@
    }

    /// How many seeds are still unclaimed.
    pub open spec fn remaining(self) -> int {
        self.end_seed() - self.next_seed()
    }

    pub closed spec fn wf(self) -> bool {
        &&& self.start@ <= self.next <= self.end
        &&& self.claimed@ == Set::new(|s: u32| self.start@ <= s < self.next)
    }

    /// Builds a cursor over `[start, start + count)`, refusing a range that
    /// would overflow the seed domain.
    pub fn new(start: u32, count: u32) -> (r: Result<SeedCursor, ConfigError>)
        ensures
            r is Ok <==> start + count <= u32::MAX,
            r is Err ==> r->Err_0 == ConfigError::SeedRangeOverflow,
            r is Ok ==> {
                let c = r->Ok_0;
                &&& c.wf()
                &&& c.start_seed() == start
                &&& c.next_seed() == start
                &&& c.end_seed() == start + count
                &&& c.claimed_seeds() =~= Set::<u32>::empty()
            },
    {
        match start.checked_add(count) {
            Some(end) => {
                let c = SeedCursor {
                    next: start,
                    end,
                    start: Ghost(start),
                    claimed: Ghost(Set::new(|s: u32| start <= s < start)),
                };
                proof {
                    assert(c.claimed@ =~= Set::<u32>::empty());
                }
                Ok(c)
            },
            None => Err(ConfigError::SeedRangeOverflow),
        }
    }

    /// Claims the next unclaimed seed, or reports the range exhausted.
    ///
    /// A claimed seed is always fresh: it was never handed out before, and
    /// the set of claims grows by exactly that seed.
    pub fn claim(&mut self) -> (r: Option<u32>)
        requires
            old(self).wf(),
        ensures
            final(self).wf(),
            final(self).start_seed() == old(self).start_seed(),
            final(self).end_seed() == old(self).end_seed(),
            match r {
                Some(s) => {
                    &&& s == old(self).next_seed()
                    &&& old(self).start_seed() <= s < old(self).end_seed()
                    &&& !old(self).claimed_seeds().contains(s)
                    &&& final(self).claimed_seeds() == old(self).claimed_seeds().insert(s)
                    &&& final(self).next_seed() == s + 1
                },
                None => {
                    &&& old(self).next_seed() == old(self).end_seed()
                    &&& *final(self) == *old(self)
                },
            },
    {
        if self.next < self.end {
            let s = self.next;
            self.next = s + 1;
            proof {
                self.claimed@ = self.claimed@.insert(s);
                assert(self.claimed@ =~= Set::new(|x: u32| self.start@ <= x < self.next));
                assert(self.claimed@ =~= old(self).claimed@.insert(s));
            }
            Some(s)
        } else {
            None
        }
    }
}

/// Law: once the cursor is exhausted, the claimed seeds are exactly the
/// requested range — every seed in `[start, end)` was handed out, each
/// exactly once (a claim never repeats an earlier one, see `claim`).
pub proof fn lemma_claims_partition_range(c: SeedCursor)
    requires
        c.wf(),
        c.next_seed() == c.end_seed(),
    ensures
        c.claimed_seeds() =~= Set::new(|s: u32| c.start_seed() <= s < c.end_seed()),
{
}

} // verus!
