use vstd::prelude::*;

use crate::GameResult;
use crate::Winner;

verus! {

/// One row of a loss-reason histogram: how often the reason was seen and
/// the first few seeds (at most five, all distinct) that produced it.
pub struct ReasonEntry {
    pub reason: String,
    pub count: u32,
    pub examples: Vec<u32>,
}

pub open spec fn entry_wf(e: ReasonEntry) -> bool {
    &&& e.examples@.len() <= 5
    &&& forall|p: int, q: int|
        0 <= p < q < e.examples@.len() ==> e.examples@[p] != e.examples@[q]
    &&& e.examples@.len() <= e.count
}

pub open spec fn reasons_wf(s: Seq<ReasonEntry>) -> bool {
    &&& forall|i: int| 0 <= i < s.len() ==> entry_wf(#[trigger] s[i])
    &&& forall|i: int, j: int| 0 <= i < j < s.len() ==> s[i].reason@ != s[j].reason@
}

pub open spec fn counts_bounded(s: Seq<ReasonEntry>, bound: u32) -> bool {
    forall|i: int| 0 <= i < s.len() ==> (#[trigger] s[i]).count <= bound
}

/// The total of a histogram's counts.
pub open spec fn counts_sum(s: Seq<ReasonEntry>) -> int
    decreases s.len(),
{
    if s.len() == 0 {
        0
    } else {
        counts_sum(s.drop_last()) + s.last().count
    }
}

pub open spec fn has_reason(s: Seq<ReasonEntry>, reason: Seq<char>) -> bool {
    exists|i: int| 0 <= i < s.len() && (#[trigger] s[i]).reason@ == reason
}

/// The entry after another game ended with its reason: the count went up by
/// one, and the seed was added as an example only while there was room for
/// it and it was not an example already.
pub open spec fn bumped_entry(before: ReasonEntry, after: ReasonEntry, seed: u32) -> bool {
    &&& after.reason@ == before.reason@
    &&& after.count == before.count + 1
    &&& after.examples@ == if before.examples@.len() < 5 && !before.examples@.contains(seed) {
        before.examples@.push(seed)
    } else {
        before.examples@
    }
}

/// The entry a reason gets on its first occurrence.
pub open spec fn fresh_entry(e: ReasonEntry, reason: Seq<char>, seed: u32) -> bool {
    &&& e.reason@ == reason
    &&& e.count == 1
    &&& e.examples@ =~= seq![seed]
}

/// How one recording step changes a histogram: the matching entry is bumped
/// in place, or a fresh entry is appended, and no other entry moves.
pub open spec fn recorded(
    before: Seq<ReasonEntry>,
    after: Seq<ReasonEntry>,
    reason: Seq<char>,
    seed: u32,
) -> bool {
    if has_reason(before, reason) {
        &&& after.len() == before.len()
        &&& exists|i: int|
            {
                &&& 0 <= i < before.len()
                &&& (#[trigger] before[i]).reason@ == reason
                &&& bumped_entry(before[i], after[i], seed)
                &&& forall|j: int| 0 <= j < before.len() && j != i ==> after[j] == before[j]
            }
    } else {
        &&& after.len() == before.len() + 1
        &&& forall|j: int| 0 <= j < before.len() ==> after[j] == before[j]
        &&& fresh_entry(after.last(), reason, seed)
    }
}

/// Win and tie totals plus a loss-reason histogram per winning side,
/// merged one finished game at a time.
pub struct AggregateState {
    red_wins: u32,
    blue_wins: u32,
    ties: u32,
    red_reasons: Vec<ReasonEntry>,
    blue_reasons: Vec<ReasonEntry>,
    tie_reasons: Vec<ReasonEntry>,
    played: Ghost<Seq<GameResult>>,
}

impl AggregateState {
    pub closed spec fn wins_of(self, w: Winner) -> u32 {
        match w {
            Winner::Red => self.red_wins,
            Winner::Blue => self.blue_wins,
            Winner::Tie => self.ties,
        }
    }

    pub closed spec fn reasons_of(self, w: Winner) -> Seq<ReasonEntry> {
        match w {
            Winner::Red => self.red_reasons@,
            Winner::Blue => self.blue_reasons@,
            Winner::Tie => self.tie_reasons@,
        }
    }

    /// Every recorded game result, in recording order.
    pub closed spec fn games(self) -> Seq<GameResult> {
        self.played@
    }

    /// How many games have been recorded: the win totals always sum to it.
    pub open spec fn total(self) -> int {
        self.wins_of(Winner::Red) + self.wins_of(Winner::Blue) + self.wins_of(Winner::Tie)
    }

    pub open spec fn wf(self) -> bool {
        &&& reasons_wf(self.reasons_of(Winner::Red))
        &&& reasons_wf(self.reasons_of(Winner::Blue))
        &&& reasons_wf(self.reasons_of(Winner::Tie))
        &&& counts_bounded(self.reasons_of(Winner::Red), self.wins_of(Winner::Red))
        &&& counts_bounded(self.reasons_of(Winner::Blue), self.wins_of(Winner::Blue))
        &&& counts_bounded(self.reasons_of(Winner::Tie), self.wins_of(Winner::Tie))
        &&& counts_sum(self.reasons_of(Winner::Red)) == self.wins_of(Winner::Red)
        &&& counts_sum(self.reasons_of(Winner::Blue)) == self.wins_of(Winner::Blue)
        &&& counts_sum(self.reasons_of(Winner::Tie)) == self.wins_of(Winner::Tie)
    }

    /// An empty aggregate: no games recorded, no reasons seen.
    pub fn new() -> (r: AggregateState)
        ensures
            r.wf(),
            r.total() == 0,
            r.wins_of(Winner::Red) == 0,
            r.wins_of(Winner::Blue) == 0,
            r.wins_of(Winner::Tie) == 0,
            r.reasons_of(Winner::Red) =~= Seq::<ReasonEntry>::empty(),
            r.reasons_of(Winner::Blue) =~= Seq::<ReasonEntry>::empty(),
            r.reasons_of(Winner::Tie) =~= Seq::<ReasonEntry>::empty(),
            r.games() =~= Seq::<GameResult>::empty(),
    {
        AggregateState {
            red_wins: 0,
            blue_wins: 0,
            ties: 0,
            red_reasons: Vec::new(),
            blue_reasons: Vec::new(),
            tie_reasons: Vec::new(),
            played: Ghost(Seq::empty()),
        }
    }

    pub fn wins(&self, w: Winner) -> (r: u32)
        ensures
            r == self.wins_of(w),
    {
        match w {
            Winner::Red => self.red_wins,
            Winner::Blue => self.blue_wins,
            Winner::Tie => self.ties,
        }
    }

    pub fn reasons(&self, w: Winner) -> (r: &Vec<ReasonEntry>)
        ensures
            r@ == self.reasons_of(w),
    {
        match w {
            Winner::Red => &self.red_reasons,
            Winner::Blue => &self.blue_reasons,
            Winner::Tie => &self.tie_reasons,
        }
    }

    /// The number of games recorded so far, exactly the sum of the three
    /// win totals.
    pub fn total_recorded(&self) -> (r: u64)
        ensures
            r == self.total(),
    {
        self.red_wins as u64 + self.blue_wins as u64 + self.ties as u64
    }

    /// Merges one finished game into the aggregate: the winner's total goes
    /// up by one — so the grand total does too — and the winner's histogram
    /// gains this game's reason; nothing else changes.
    pub fn record(&mut self, result: &GameResult, seed: u32)
        requires
            old(self).wf(),
            old(self).total() < u32::MAX,
        ensures
            final(self).wf(),
            final(self).total() == old(self).total() + 1,
            final(self).wins_of(result.winner) == old(self).wins_of(result.winner) + 1,
            forall|w: Winner|
                w != result.winner ==> #[trigger] final(self).wins_of(w) == old(self).wins_of(w),
            forall|w: Winner|
                w != result.winner ==> #[trigger] final(self).reasons_of(w) == old(
                    self,
                ).reasons_of(w),
            recorded(
                old(self).reasons_of(result.winner),
                final(self).reasons_of(result.winner),
                result.lose_reason@,
                seed,
            ),
            final(self).games() == old(self).games().push(*result),
    {
        let ghost prev = *self;
        self.played = Ghost(self.played@.push(*result));
        match result.winner {
            Winner::Red => {
                self.red_wins = self.red_wins + 1;
                record_reason(&mut self.red_reasons, &result.lose_reason, seed);
                proof {
                    lemma_recorded_keeps_wf(
                        prev.reasons_of(Winner::Red),
                        self.reasons_of(Winner::Red),
                        result.lose_reason@,
                        seed,
                        prev.red_wins,
                    );
                }
            },
            Winner::Blue => {
                self.blue_wins = self.blue_wins + 1;
                record_reason(&mut self.blue_reasons, &result.lose_reason, seed);
                proof {
                    lemma_recorded_keeps_wf(
                        prev.reasons_of(Winner::Blue),
                        self.reasons_of(Winner::Blue),
                        result.lose_reason@,
                        seed,
                        prev.blue_wins,
                    );
                }
            },
            Winner::Tie => {
                self.ties = self.ties + 1;
                record_reason(&mut self.tie_reasons, &result.lose_reason, seed);
                proof {
                    lemma_recorded_keeps_wf(
                        prev.reasons_of(Winner::Tie),
                        self.reasons_of(Winner::Tie),
                        result.lose_reason@,
                        seed,
                        prev.ties,
                    );
                }
            },
        }
    }
}

/// Law: the recorded total is exactly the sum of the three win totals —
/// every completed game is accounted to exactly one outcome, never to an
/// invalid-competitor signal.
pub proof fn lemma_total_is_sum_of_wins(s: AggregateState)
    ensures
        s.total() == s.wins_of(Winner::Red) + s.wins_of(Winner::Blue) + s.wins_of(Winner::Tie),
{
}

/// Law: in a well-formed aggregate every example list holds at most five
/// seeds and never the same seed twice, so sorting one ascending gives a
/// strictly increasing sequence.
pub proof fn lemma_examples_bounded_and_distinct(s: AggregateState, w: Winner, i: int)
    requires
        s.wf(),
        0 <= i < s.reasons_of(w).len(),
    ensures
        s.reasons_of(w)[i].examples@.len() <= 5,
        forall|p: int, q: int|
            0 <= p < q < s.reasons_of(w)[i].examples@.len() ==> s.reasons_of(w)[i].examples@[p]
                != s.reasons_of(w)[i].examples@[q],
{
    assert(entry_wf(s.reasons_of(w)[i]));
}

/// Law: a sequence whose elements are pairwise distinct — as every example
/// list in a well-formed aggregate is — becomes strictly increasing when
/// it is sorted: sorted order plus distinctness leaves no room for equal
/// neighbours.
pub proof fn lemma_sorted_distinct_strictly_increasing(s: Seq<u32>)
    requires
        forall|p: int, q: int| 0 <= p < q < s.len() ==> s[p] <= s[q],
        forall|p: int, q: int| 0 <= p < q < s.len() ==> s[p] != s[q],
    ensures
        forall|p: int, q: int| 0 <= p < q < s.len() ==> s[p] < s[q],
{
}

/// Replacing one entry changes the count total by that entry's change.
proof fn lemma_counts_sum_update(s: Seq<ReasonEntry>, i: int, e: ReasonEntry)
    requires
        0 <= i < s.len(),
    ensures
        counts_sum(s.update(i, e)) == counts_sum(s) - s[i].count + e.count,
    decreases s.len(),
{
    if i == s.len() - 1 {
        assert(s.update(i, e).drop_last() =~= s.drop_last());
        assert(s.update(i, e).last() == e);
    } else {
        lemma_counts_sum_update(s.drop_last(), i, e);
        assert(s.update(i, e).drop_last() =~= s.drop_last().update(i, e));
        assert(s.update(i, e).last() == s.last());
    }
}

/// A recording step keeps a histogram well formed, raises its count total
/// by exactly one, and its counts stay below the winner's new total.
proof fn lemma_recorded_keeps_wf(
    before: Seq<ReasonEntry>,
    after: Seq<ReasonEntry>,
    reason: Seq<char>,
    seed: u32,
    bound: u32,
)
    requires
        reasons_wf(before),
        counts_bounded(before, bound),
        bound < u32::MAX,
        recorded(before, after, reason, seed),
    ensures
        reasons_wf(after),
        counts_bounded(after, (bound + 1) as u32),
        counts_sum(after) == counts_sum(before) + 1,
{
    if has_reason(before, reason) {
        let i = choose|i: int|
            {
                &&& 0 <= i < before.len()
                &&& (#[trigger] before[i]).reason@ == reason
                &&& bumped_entry(before[i], after[i], seed)
                &&& forall|j: int| 0 <= j < before.len() && j != i ==> after[j] == before[j]
            };
        assert(entry_wf(before[i]));
        assert(entry_wf(after[i])) by {
            if before[i].examples@.len() < 5 && !before[i].examples@.contains(seed) {
                assert(after[i].examples@ == before[i].examples@.push(seed));
                assert(forall|p: int|
                    0 <= p < before[i].examples@.len() ==> before[i].examples@[p] != seed);
            }
        }
        assert(forall|j: int| 0 <= j < after.len() ==> entry_wf(#[trigger] after[j]));
        assert(after =~= before.update(i, after[i]));
        lemma_counts_sum_update(before, i, after[i]);
    } else {
        assert(entry_wf(after.last()));
        assert(forall|j: int| 0 <= j < after.len() ==> entry_wf(#[trigger] after[j]));
        assert(forall|p: int, q: int|
            0 <= p < q < after.len() ==> after[p].reason@ != after[q].reason@) by {
            assert(forall|p: int|
                0 <= p < before.len() ==> (#[trigger] after[p]).reason@ == before[p].reason@);
        }
        assert(after.drop_last() =~= before);
        assert(counts_sum(after) == counts_sum(before) + 1);
    }
}

/// Finds the entry for a reason, if the histogram already has one.
fn find_reason(entries: &Vec<ReasonEntry>, reason: &String) -> (r: Option<usize>)
    ensures
        match r {
            Some(i) => i < entries@.len() && entries@[i as int].reason@ == reason@,
            None => !has_reason(entries@, reason@),
        },
{
    let n = entries.len();
    let mut i: usize = 0;
    while i < n
        invariant
            n == entries@.len(),
            i <= n,
            forall|j: int| 0 <= j < i ==> (#[trigger] entries@[j]).reason@ != reason@,
        decreases n - i,
    {
        if entries[i].reason == *reason {
            return Some(i);
        }
        i = i + 1;
    }
    None
}

/// Whether a seed already stands among the examples.
fn contains_seed(v: &Vec<u32>, seed: u32) -> (r: bool)
    ensures
        r == v@.contains(seed),
{
    let n = v.len();
    let mut i: usize = 0;
    while i < n
        invariant
            n == v@.len(),
            i <= n,
            forall|j: int| 0 <= j < i ==> v@[j] != seed,
        decreases n - i,
    {
        if v[i] == seed {
            return true;
        }
        i = i + 1;
    }
    false
}

/// Applies one recording step to a histogram.
fn record_reason(entries: &mut Vec<ReasonEntry>, reason: &String, seed: u32)
    requires
        forall|i: int| 0 <= i < old(entries)@.len() ==> (#[trigger] old(entries)@[i]).count
            < u32::MAX,
    ensures
        recorded(old(entries)@, final(entries)@, reason@, seed),
{
    let ghost before = entries@;
    match find_reason(entries, reason) {
        Some(i) => {
            let mut e = entries.remove(i);
            e.count = e.count + 1;
            if e.examples.len() < 5 {
                if !contains_seed(&e.examples, seed) {
                    e.examples.push(seed);
                }
            }
            entries.insert(i, e);
            proof {
                assert(entries@ =~= before.update(i as int, entries@[i as int]));
                assert(bumped_entry(before[i as int], entries@[i as int], seed));
                assert(has_reason(before, reason@));
            }
        },
        None => {
            let mut ex: Vec<u32> = Vec::new();
            ex.push(seed);
            let e = ReasonEntry { reason: reason.clone(), count: 1, examples: ex };
            entries.push(e);
            proof {
                assert(entries@.last().examples@ =~= seq![seed]);
                assert(fresh_entry(entries@.last(), reason@, seed));
            }
        },
    }
}

} // verus!
