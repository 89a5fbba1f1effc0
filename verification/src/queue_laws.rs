//! What holds of the queue across calls.
use vstd::prelude::*;
use crate::queue::{QueueView, Repeat, all_but};

verus! {

/// Taking out an entry that is not the one playing leaves the same occurrence
/// playing, and says so.
pub proof fn law_removal_keeps_the_current_occurrence(v: QueueView, at: usize)
    requires
        v.valid(),
        v.position is Some,
        at < v.entries.len(),
        v.position != Some(at),
    ensures
        v.removed(at).0.current() == v.current(),
        !v.removed(at).1,
        v.removed(at).0.entries == v.entries.remove(at as int),
{
    let p = v.position->0;
    let w = v.removed(at).0;
    if p > at {
        assert(w.position == Some((p - 1) as usize));
        assert(v.entries.remove(at as int)[p - 1] == v.entries[p as int]);
    } else {
        assert(p < at);
        assert(w.position == Some(p));
        assert(v.entries.remove(at as int)[p as int] == v.entries[p as int]);
    }
}

/// Previous goes back to where Next came from, and answers the track that was
/// playing there: Next followed by Previous retraces what was played.
pub proof fn law_previous_retraces_next(v: QueueView, automatic: bool, clock: u64)
    requires
        v.valid(),
        v.advanced(automatic, clock).1 is Some,
        !(automatic && v.repeat == Repeat::One),
    ensures
        v.advanced(automatic, clock).0.retreated().0.position == v.position,
        v.advanced(automatic, clock).0.retreated().0.history == v.history,
        v.advanced(automatic, clock).0.retreated().1 == v.current(),
{
    let w = v.advanced(automatic, clock).0;
    assert(w.history == v.history.push(v.position->0));
    assert(w.history.drop_last() == v.history);
}

/// What has been played in a shuffled round, what is playing, and what is
/// still to be drawn are the whole queue, each position in exactly one of
/// them and none played twice.
pub open spec fn shuffle_round(v: QueueView) -> bool {
    &&& v.valid()
    &&& v.position is Some
    &&& v.history.no_duplicates()
    &&& !v.history.contains(v.position->0)
    &&& forall|x: usize| #[trigger]
        v.remaining.contains(x) ==> !v.history.contains(x) && x != v.position->0
    &&& forall|x: usize|
        x < v.entries.len() ==> #[trigger] v.history.contains(x) || x == v.position->0
            || v.remaining.contains(x)
}

/// Putting a new list in the queue, at one of its entries, starts a round in
/// which nothing has been played but that one.
pub proof fn law_a_new_queue_starts_a_round(v: QueueView, entries: Seq<usize>, at: usize)
    requires
        v.valid(),
        at < entries.len(),
        entries.len() <= usize::MAX,
    ensures
        shuffle_round(v.replaced(entries, at)),
{
    let w = v.replaced(entries, at);
    lemma_all_but_facts(entries.len(), Some(at));
    assert(w.remaining == all_but(entries.len(), Some(at)));
    assert forall|x: usize| #[trigger] w.remaining.contains(x) implies !w.history.contains(x) && x
        != w.position->0 by {
        let k = choose|k: int| 0 <= k < w.remaining.len() && w.remaining[k] == x;
    }
}

proof fn lemma_all_but_facts(n: nat, pos: Option<usize>)
    requires
        n <= usize::MAX,
    ensures
        forall|k: int| 0 <= k < all_but(n, pos).len() ==> #[trigger] all_but(n, pos)[k] < n,
        forall|k: int|
            0 <= k < all_but(n, pos).len() && pos is Some ==> #[trigger] all_but(n, pos)[k] != pos->0,
        all_but(n, pos).no_duplicates(),
        forall|x: usize| x < n && Some(x) != pos ==> #[trigger] all_but(n, pos).contains(x),
{
    let s = all_but(n, pos);
    assert forall|a: int, b: int| 0 <= a < s.len() && 0 <= b < s.len() && a != b implies s[a]
        != s[b] by {}
    assert forall|x: usize| x < n && Some(x) != pos implies #[trigger] s.contains(x) by {
        if pos is Some && pos->0 < n {
            if x < pos->0 {
                assert(s[x as int] == x);
            } else {
                assert(s[x - 1] == x);
            }
        } else {
            assert(s[x as int] == x);
        }
    }
}

/// Shuffle with repeat off plays every occurrence once: each Next draws a
/// position that has not been played in this round, and once every one has
/// been, Next answers nothing and changes nothing.
pub proof fn law_shuffle_plays_each_occurrence_once(v: QueueView, automatic: bool, clock: u64)
    requires
        shuffle_round(v),
        v.shuffle,
        v.repeat == Repeat::Off,
    ensures
        v.remaining.len() == 0 ==> v.advanced(automatic, clock) == (v, None::<usize>),
        v.remaining.len() > 0 ==> {
            let (w, r) = v.advanced(automatic, clock);
            &&& shuffle_round(w)
            &&& w.history == v.history.push(v.position->0)
            &&& !v.history.contains(w.position->0)
            &&& w.position->0 != v.position->0
            &&& v.remaining.contains(w.position->0)
            &&& r == Some(v.entries[w.position->0 as int])
        },
{
    if v.remaining.len() > 0 {
        let (w, r) = v.advanced(automatic, clock);
        let pool = v.remaining;
        let seed = xorshift_of(v, clock);
        let at = (seed as usize) as int % (pool.len() as int);
        let next = pool[at];
        let old = v.position->0;
        assert(w.position == Some(next));
        assert(pool.contains(next));
        let rest = pool.update(at, pool.last()).drop_last();
        assert(w.remaining == rest);
        assert(pool.last() == pool[pool.len() - 1]);
        // What is left of the pool is the pool without the one drawn.
        assert forall|x: usize| #[trigger] rest.contains(x) <==> pool.contains(x) && x != next by {
            if rest.contains(x) {
                let k = choose|k: int| 0 <= k < rest.len() && rest[k] == x;
                if k == at {
                    assert(pool[pool.len() - 1] == x);
                    assert(pool.len() - 1 != at);
                } else {
                    assert(pool[k] == x);
                }
            }
            if pool.contains(x) && x != next {
                let k = choose|k: int| 0 <= k < pool.len() && pool[k] == x;
                if k == pool.len() - 1 {
                    assert(rest[at] == x);
                } else {
                    assert(rest[k] == x);
                }
            }
        }
        assert(rest.no_duplicates()) by {
            assert forall|a: int, b: int| 0 <= a < rest.len() && 0 <= b < rest.len() && a != b
                implies rest[a] != rest[b] by {
                let pa = if a == at { pool.len() - 1 } else { a };
                let pb = if b == at { pool.len() - 1 } else { b };
                assert(rest[a] == pool[pa]);
                assert(rest[b] == pool[pb]);
            }
        }
        let h = v.history.push(old);
        assert(w.history == h);
        assert forall|x: usize| #[trigger] h.contains(x) <==> v.history.contains(x) || x == old by {
            if h.contains(x) && x != old {
                let k = choose|k: int| 0 <= k < h.len() && h[k] == x;
                assert(v.history[k] == x);
            }
            if v.history.contains(x) {
                let k = choose|k: int| 0 <= k < v.history.len() && v.history[k] == x;
                assert(h[k] == x);
            }
            if x == old {
                assert(h[v.history.len() as int] == x);
            }
        }
        assert(h.no_duplicates()) by {
            assert forall|a: int, b: int| 0 <= a < h.len() && 0 <= b < h.len() && a != b implies h[a]
                != h[b] by {
                if a == v.history.len() {
                    assert(v.history.contains(h[b]));
                } else if b == v.history.len() {
                    assert(v.history.contains(h[a]));
                }
            }
        }
        assert(!h.contains(next));
        assert forall|x: usize| x < w.entries.len() implies #[trigger] w.history.contains(x) || x
            == w.position->0 || w.remaining.contains(x) by {
            assert(v.history.contains(x) || x == old || v.remaining.contains(x));
        }
        assert forall|i: int| 0 <= i < w.history.len() implies #[trigger] w.history[i]
            < w.entries.len() by {
            if i < v.history.len() {
                assert(w.history[i] == v.history[i]);
            }
        }
        assert forall|i: int| 0 <= i < w.remaining.len() implies #[trigger] w.remaining[i]
            < w.entries.len() by {
            assert(rest.contains(rest[i]));
            let k = choose|k: int| 0 <= k < pool.len() && pool[k] == rest[i];
        }
    }
}

spec fn xorshift_of(v: QueueView, clock: u64) -> u64 {
    crate::queue::xorshift(v.seed_from(clock))
}

/// The queue after the end of a song, once for each reading of the clock in
/// turn.
pub open spec fn run(v: QueueView, clocks: Seq<u64>) -> QueueView
    decreases clocks.len(),
{
    if clocks.len() == 0 {
        v
    } else {
        run(v, clocks.drop_last()).advanced(true, clocks.last()).0
    }
}

/// The positions a run stands on: where it starts, and where each end of a
/// song moved it.
pub open spec fn played(v: QueueView, clocks: Seq<u64>) -> Seq<usize> {
    Seq::new(clocks.len() + 1, |i: int| run(v, clocks.take(i)).position->0)
}

/// A shuffled round with repeat off, run for as many ends of songs as it has
/// left to draw: each end answers the song at the place it moved to, the
/// places run through are what was played before and then each place it
/// stands on in turn, and a round holds together throughout.
proof fn lemma_round_run(v: QueueView, clocks: Seq<u64>)
    requires
        shuffle_round(v),
        v.shuffle,
        v.repeat == Repeat::Off,
        clocks.len() <= v.remaining.len(),
    ensures
        shuffle_round(run(v, clocks)),
        run(v, clocks).entries == v.entries,
        run(v, clocks).shuffle,
        run(v, clocks).repeat == Repeat::Off,
        run(v, clocks).history == v.history + played(v, clocks).drop_last(),
        run(v, clocks).position == Some(played(v, clocks).last()),
        run(v, clocks).remaining.len() == v.remaining.len() - clocks.len(),
        forall|i: int|
            0 <= i < clocks.len() ==> #[trigger] run(v, clocks.take(i)).advanced(true, clocks[i]) == (
            run(v, clocks.take(i + 1)),
            Some(v.entries[played(v, clocks)[i + 1] as int]),
            ),
    decreases clocks.len(),
{
    let p = played(v, clocks);
    if clocks.len() == 0 {
        assert(clocks.take(0) =~= clocks);
        assert(p.drop_last() =~= Seq::<usize>::empty());
        assert(v.history + p.drop_last() =~= v.history);
    } else {
        let c = clocks.drop_last();
        let k = c.len() as int;
        lemma_round_run(v, c);
        let u = run(v, c);
        let q = played(v, c);
        law_shuffle_plays_each_occurrence_once(u, true, clocks.last());
        let (w, r) = u.advanced(true, clocks.last());
        assert(run(v, clocks) == w);
        assert forall|i: int| 0 <= i <= k implies #[trigger] clocks.take(i) == c.take(i) by {
            assert(clocks.take(i) =~= c.take(i));
        }
        assert(clocks.take(k + 1) =~= clocks);
        assert(c.take(k) =~= c);
        assert forall|i: int| 0 <= i <= k implies #[trigger] p[i] == q[i] by {
            assert(clocks.take(i) == c.take(i));
        }
        assert(p[k + 1] == w.position->0);
        assert(p.drop_last() =~= q);
        assert(q =~= q.drop_last().push(q.last()));
        assert(w.history =~= v.history + p.drop_last());
        assert forall|i: int| 0 <= i < clocks.len() implies #[trigger] run(v, clocks.take(i)).advanced(
            true,
            clocks[i],
        ) == (run(v, clocks.take(i + 1)), Some(v.entries[p[i + 1] as int])) by {
            if i < k {
                assert(clocks[i] == c[i]);
                assert(clocks.take(i) == c.take(i));
                assert(clocks.take(i + 1) == c.take(i + 1));
                assert(p[i + 1] == q[i + 1]);
            } else {
                assert(clocks.take(i) == c);
                assert(clocks.take(i + 1) =~= clocks);
            }
        }
    }
}

/// A queue put in with shuffle on and repeat off plays every one of its
/// places exactly once when left to play itself out: the place it was put in
/// at, then, at the end of each song, a place not yet played, answering the
/// song there, for one end fewer than there are places; the next end answers
/// nothing and leaves the queue where it was. However the clock reads at
/// each end.
pub proof fn law_a_shuffled_queue_plays_every_place_once(
    u: QueueView,
    entries: Seq<usize>,
    at: usize,
    clocks: Seq<u64>,
    last: u64,
)
    requires
        u.valid(),
        u.shuffle,
        u.repeat == Repeat::Off,
        at < entries.len() <= usize::MAX,
        clocks.len() + 1 == entries.len(),
    ensures
        ({
            let v = u.replaced(entries, at);
            let p = played(v, clocks);
            &&& p[0] == at
            &&& p.len() == entries.len()
            &&& p.no_duplicates()
            &&& forall|x: usize| x < entries.len() ==> #[trigger] p.contains(x)
            &&& forall|i: int|
                0 <= i < clocks.len() ==> #[trigger] run(v, clocks.take(i)).advanced(true, clocks[i]).1
                    == Some(entries[p[i + 1] as int])
            &&& run(v, clocks).advanced(true, last) == (run(v, clocks), None::<usize>)
        }),
{
    let v = u.replaced(entries, at);
    law_a_new_queue_starts_a_round(u, entries, at);
    assert(v.remaining.len() == clocks.len());
    lemma_round_run(v, clocks);
    let w = run(v, clocks);
    let p = played(v, clocks);
    assert(clocks.take(0) =~= Seq::<u64>::empty());
    assert(v.history + p.drop_last() =~= p.drop_last());
    assert(p =~= w.history.push(w.position->0));
    law_shuffle_plays_each_occurrence_once(w, true, last);
    assert forall|x: usize| x < entries.len() implies #[trigger] p.contains(x) by {
        if w.history.contains(x) {
            let k = choose|k: int| 0 <= k < w.history.len() && w.history[k] == x;
            assert(p[k] == x);
        } else {
            assert(x == w.position->0);
            assert(p[p.len() - 1] == x);
        }
    }
    assert(p.no_duplicates()) by {
        assert forall|a: int, b: int| 0 <= a < p.len() && 0 <= b < p.len() && a != b implies p[a]
            != p[b] by {
            if a == p.len() - 1 {
                assert(w.history.contains(p[b]));
            } else if b == p.len() - 1 {
                assert(w.history.contains(p[a]));
            }
        }
    }
}

/// With repeat on, a queue that is playing never runs out: Next, or the end
/// of a song, always answers the song at the place it moved to. Where a
/// shuffled round is used up, a new one is drawn from every place but the
/// one playing, so with more than one place the queue moves on to another.
pub proof fn law_repeat_never_runs_out(v: QueueView, automatic: bool, clock: u64)
    requires
        v.valid(),
        v.position is Some,
        v.repeat != Repeat::Off,
        v.entries.len() <= usize::MAX,
    ensures
        v.advanced(automatic, clock).0.entries == v.entries,
        v.advanced(automatic, clock).0.position is Some,
        v.advanced(automatic, clock).0.position->0 < v.entries.len(),
        v.advanced(automatic, clock).1 == Some(
            v.entries[v.advanced(automatic, clock).0.position->0 as int],
        ),
        v.shuffle && v.remaining.len() == 0 && v.entries.len() > 1 && !(automatic && v.repeat
            == Repeat::One) ==> v.advanced(automatic, clock).0.position != v.position && v.advanced(
            automatic,
            clock,
        ).0.remaining.len() == v.entries.len() - 2,
{
    let n = v.entries.len();
    let p = v.position->0;
    if !(automatic && v.repeat == Repeat::One) && v.shuffle {
        let pool = if v.remaining.len() == 0 {
            all_but(n, v.position)
        } else {
            v.remaining
        };
        if v.remaining.len() == 0 {
            lemma_all_but_facts(n, v.position);
        }
        if pool.len() > 0 {
            let seed = xorshift_of(v, clock);
            let at = (seed as usize) as int % (pool.len() as int);
            assert(0 <= at < pool.len());
            assert(pool[at] < n);
        }
    }
}

/// Previous goes back to what was played before, where anything was: the
/// last place remembered, which is then forgotten. With nothing remembered it
/// goes to the place before the one playing, and at the head of the queue
/// stays there. Either way it answers the song at the place it went to.
pub proof fn law_previous_steps_back(v: QueueView)
    requires
        v.valid(),
        v.position is Some,
    ensures
        v.retreated().0.entries == v.entries,
        v.history.len() > 0 ==> v.retreated().0.position == Some(v.history.last())
            && v.retreated().0.history == v.history.drop_last(),
        v.history.len() == 0 && v.position->0 > 0 ==> v.retreated().0.position == Some(
            (v.position->0 - 1) as usize,
        ),
        v.history.len() == 0 && v.position->0 == 0 ==> v.retreated().0.position == Some(0usize),
        v.retreated().0.position->0 < v.entries.len(),
        v.retreated().1 == Some(v.entries[v.retreated().0.position->0 as int]),
{
    if v.history.len() > 0 {
        assert(v.history.last() == v.history[v.history.len() - 1]);
    }
}

} // verus!
