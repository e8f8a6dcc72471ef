use vstd::prelude::*;

use crate::GameResult;
use crate::runtime::BoundaryOp;
use crate::runtime::RunError;
use crate::runtime::SnakeRuntime;
use crate::runtime::appended;
use crate::runtime::game_transcript;
use crate::runtime::ok_extraction;
use crate::seeds::SeedCursor;
use crate::stats::AggregateState;

verus! {

/// That a stretch of the boundary log is exactly `count` completed games
/// on consecutive seeds from `start`, in order, and that `results` holds
/// their outcomes: each game's transcript comes first, and its result is
/// the one the extraction predicate ties to that transcript.
pub open spec fn tournament_trace(
    t: Seq<BoundaryOp>,
    results: Seq<GameResult>,
    start: u32,
    count: nat,
) -> bool
    decreases count,
{
    if count == 0 {
        t.len() == 0 && results.len() == 0
    } else {
        &&& results.len() >= 1
        &&& exists|k: int, h: i32|
            {
                &&& 0 < k <= t.len()
                &&& #[trigger] game_transcript(t.subrange(0, k), start, h)
                &&& ok_extraction(t.subrange(0, k), results[0])
                &&& tournament_trace(
                    t.skip(k),
                    results.skip(1),
                    (start + 1) as u32,
                    (count - 1) as nat,
                )
            }
    }
}

/// Extending a run of completed games by one more game on the next seed.
proof fn lemma_trace_snoc(
    t: Seq<BoundaryOp>,
    results: Seq<GameResult>,
    start: u32,
    count: nat,
    t2: Seq<BoundaryOp>,
    g: GameResult,
    h: i32,
)
    requires
        tournament_trace(t, results, start, count),
        start + count <= u32::MAX,
        game_transcript(t2, (start + count) as u32, h),
        ok_extraction(t2, g),
    ensures
        tournament_trace(t + t2, results.push(g), start, (count + 1) as nat),
    decreases count,
{
    if count == 0 {
        assert((t + t2).subrange(0, t2.len() as int) =~= t2);
        assert((t + t2).skip(t2.len() as int) =~= Seq::<BoundaryOp>::empty());
        assert(results.push(g).skip(1) =~= Seq::<GameResult>::empty());
        assert(results.push(g)[0] == g);
        assert(game_transcript((t + t2).subrange(0, t2.len() as int), start, h));
        assert(ok_extraction((t + t2).subrange(0, t2.len() as int), results.push(g)[0]));
        assert(tournament_trace(
            (t + t2).skip(t2.len() as int),
            results.push(g).skip(1),
            (start + 1) as u32,
            0,
        ));
    } else {
        let (k, h0): (int, i32) = choose|k: int, h0: i32|
            {
                &&& 0 < k <= t.len()
                &&& #[trigger] game_transcript(t.subrange(0, k), start, h0)
                &&& ok_extraction(t.subrange(0, k), results[0])
                &&& tournament_trace(
                    t.skip(k),
                    results.skip(1),
                    (start + 1) as u32,
                    (count - 1) as nat,
                )
            };
        lemma_trace_snoc(
            t.skip(k),
            results.skip(1),
            (start + 1) as u32,
            (count - 1) as nat,
            t2,
            g,
            h,
        );
        assert((t + t2).subrange(0, k) =~= t.subrange(0, k));
        assert((t + t2).skip(k) =~= t.skip(k) + t2);
        assert(results.push(g).skip(1) =~= results.skip(1).push(g));
        assert(results.push(g)[0] == results[0]);
        assert(game_transcript((t + t2).subrange(0, k), start, h0));
        assert(ok_extraction((t + t2).subrange(0, k), results.push(g)[0]));
        assert(tournament_trace(
            (t + t2).skip(k),
            results.push(g).skip(1),
            (start + 1) as u32,
            count,
        ));
    }
}

/// One worker's whole tournament loop: claim a seed, play the game on the
/// worker's private boundary, record the outcome, until the seed range is
/// exhausted. When it returns without error, exactly the games of the
/// remaining seed range were played and recorded, in seed order: the
/// boundary log grew by one game transcript per claimed seed, the result
/// recorded for each is the one its transcript extracts to, and the
/// aggregate's total — the sum of its win counts — grew by exactly the
/// number of seeds. On an error the worker stops claiming at once; every
/// claimed seed but the failed last one was played and recorded the same
/// way.
#[verifier::loop_isolation(false)]
pub fn run_tournament(
    runtime: &mut SnakeRuntime,
    cursor: &mut SeedCursor,
    stats: &mut AggregateState,
) -> (r: Result<(), RunError>)
    requires
        old(cursor).wf(),
        old(stats).wf(),
        old(stats).total() + old(cursor).remaining() <= u32::MAX,
    ensures
        final(cursor).wf(),
        final(stats).wf(),
        final(cursor).start_seed() == old(cursor).start_seed(),
        final(cursor).end_seed() == old(cursor).end_seed(),
        old(runtime).ops().is_prefix_of(final(runtime).ops()),
        r is Ok ==> final(cursor).next_seed() == final(cursor).end_seed(),
        r is Ok ==> final(stats).total() == old(stats).total() + old(cursor).remaining(),
        r is Ok ==> tournament_trace(
            appended(old(runtime).ops(), final(runtime).ops()),
            final(stats).games().skip(old(stats).games().len() as int),
            old(cursor).next_seed(),
            old(cursor).remaining() as nat,
        ),
        r is Err ==> final(stats).total() == old(stats).total() + final(cursor).next_seed() - old(
            cursor,
        ).next_seed() - 1,
        r is Err ==> exists|k: int|
            {
                &&& 0 <= k <= appended(old(runtime).ops(), final(runtime).ops()).len()
                &&& #[trigger] tournament_trace(
                    appended(old(runtime).ops(), final(runtime).ops()).subrange(0, k),
                    final(stats).games().skip(old(stats).games().len() as int),
                    old(cursor).next_seed(),
                    (final(cursor).next_seed() - old(cursor).next_seed() - 1) as nat,
                )
            },
{
    loop
        invariant
            cursor.wf(),
            stats.wf(),
            cursor.start_seed() == old(cursor).start_seed(),
            cursor.end_seed() == old(cursor).end_seed(),
            cursor.next_seed() >= old(cursor).next_seed(),
            stats.total() == old(stats).total() + cursor.next_seed() - old(cursor).next_seed(),
            stats.games().len() == old(stats).games().len() + cursor.next_seed() - old(
                cursor,
            ).next_seed(),
            old(runtime).ops().len() <= runtime.ops().len(),
            old(runtime).ops() == runtime.ops().subrange(0, old(runtime).ops().len() as int),
            tournament_trace(
                appended(old(runtime).ops(), runtime.ops()),
                stats.games().skip(old(stats).games().len() as int),
                old(cursor).next_seed(),
                (cursor.next_seed() - old(cursor).next_seed()) as nat,
            ),
        decreases cursor.remaining(),
    {
        match cursor.claim() {
            None => {
                proof {
                    assert(old(runtime).ops().is_prefix_of(runtime.ops()));
                }
                return Ok(());
            },
            Some(seed) => {
                let ghost pre0 = old(runtime).ops();
                let ghost mid_ops = runtime.ops();
                let ghost done_games = stats.games().skip(old(stats).games().len() as int);
                let ghost done_count = (seed - old(cursor).next_seed()) as nat;
                match runtime.run_game(seed) {
                    Ok(result) => {
                        stats.record(&result, seed);
                        proof {
                            let t = appended(pre0, mid_ops);
                            let t2 = appended(mid_ops, runtime.ops());
                            let h = choose|h: i32| game_transcript(t2, seed, h);
                            assert(mid_ops == runtime.ops().subrange(0, mid_ops.len() as int));
                            assert(appended(pre0, runtime.ops()) =~= t + t2) by {
                                assert forall|i: int|
                                    0 <= i < appended(pre0, runtime.ops()).len() implies appended(
                                    pre0,
                                    runtime.ops(),
                                )[i] == (t + t2)[i] by {
                                    if i < t.len() {
                                        assert(runtime.ops()[pre0.len() + i] == runtime.ops()
                                            .subrange(0, mid_ops.len() as int)[pre0.len() + i]);
                                    }
                                }
                            }
                            lemma_trace_snoc(
                                t,
                                done_games,
                                old(cursor).next_seed(),
                                done_count,
                                t2,
                                result,
                                h,
                            );
                            assert(stats.games().skip(old(stats).games().len() as int)
                                =~= done_games.push(result));
                            assert(pre0 =~= runtime.ops().subrange(0, pre0.len() as int)) by {
                                assert forall|i: int| 0 <= i < pre0.len() implies runtime.ops()[i]
                                    == pre0[i] by {
                                    assert(runtime.ops()[i] == runtime.ops().subrange(
                                        0,
                                        mid_ops.len() as int,
                                    )[i]);
                                }
                            }
                        }
                    },
                    Err(e) => {
                        proof {
                            let app = appended(pre0, runtime.ops());
                            let kk = mid_ops.len() - pre0.len();
                            assert(mid_ops == runtime.ops().subrange(0, mid_ops.len() as int));
                            assert(app.subrange(0, kk) =~= appended(pre0, mid_ops)) by {
                                assert forall|i: int| 0 <= i < kk implies app.subrange(0, kk)[i]
                                    == appended(pre0, mid_ops)[i] by {
                                    assert(runtime.ops()[pre0.len() + i] == runtime.ops().subrange(
                                        0,
                                        mid_ops.len() as int,
                                    )[pre0.len() + i]);
                                }
                            }
                            assert(tournament_trace(
                                app.subrange(0, kk),
                                done_games,
                                old(cursor).next_seed(),
                                done_count,
                            ));
                            assert(0 <= kk <= app.len());
                            assert(done_count == (cursor.next_seed() - old(cursor).next_seed()
                                - 1) as nat);
                            assert(tournament_trace(
                                appended(old(runtime).ops(), runtime.ops()).subrange(0, kk),
                                stats.games().skip(old(stats).games().len() as int),
                                old(cursor).next_seed(),
                                (cursor.next_seed() - old(cursor).next_seed() - 1) as nat,
                            ));
                            assert(pre0 =~= runtime.ops().subrange(0, pre0.len() as int)) by {
                                assert forall|i: int| 0 <= i < pre0.len() implies runtime.ops()[i]
                                    == pre0[i] by {
                                    assert(runtime.ops()[i] == runtime.ops().subrange(
                                        0,
                                        mid_ops.len() as int,
                                    )[i]);
                                }
                            }
                            assert(pre0.is_prefix_of(runtime.ops()));
                        }
                        return Err(e);
                    },
                }
            },
        }
    }
}

} // verus!
