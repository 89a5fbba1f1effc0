//! The play queue: which occurrences of which songs are lined up, which one is
//! playing, and what Next and Previous do under shuffle and repeat.
use vstd::prelude::*;

verus! {

/// What happens when the queue runs out, and what an automatic advance does.
#[derive(Debug, Clone, Copy, PartialEq, Eq, Structural)]
pub enum Repeat {
    Off,
    All,
    One,
}

impl Repeat {
    /// The setting after this one, in the order the button steps through them.
    pub open spec fn following(self) -> Repeat {
        match self {
            Repeat::Off => Repeat::All,
            Repeat::All => Repeat::One,
            Repeat::One => Repeat::Off,
        }
    }

    pub fn cycle(self) -> (r: Repeat)
        ensures
            r == self.following(),
    {
        match self {
            Repeat::Off => Repeat::All,
            Repeat::All => Repeat::One,
            Repeat::One => Repeat::Off,
        }
    }
}

impl Default for Repeat {
    fn default() -> (r: Repeat)
        ensures
            r == Repeat::Off,
    {
        Repeat::Off
    }
}

/// Three presses of the repeat button bring it back to where it started, and
/// no fewer do.
pub proof fn law_repeat_comes_round_after_three(r: Repeat)
    ensures
        r.following().following().following() == r,
        r.following() != r,
        r.following().following() != r,
{
}

/// The mathematical state of a queue.
pub struct QueueView {
    pub entries: Seq<usize>,
    pub position: Option<usize>,
    pub shuffle: bool,
    pub repeat: Repeat,
    /// The positions played before the current one, oldest first.
    pub history: Seq<usize>,
    /// The positions a shuffle has not drawn yet.
    pub remaining: Seq<usize>,
    /// The shuffle generator's state; nought until the clock first seeds it.
    pub seed: u64,
}

/// The positions `0..n` in order, leaving out `pos` where it is one of them.
pub open spec fn all_but(n: nat, pos: Option<usize>) -> Seq<usize> {
    if pos is Some && pos->0 < n {
        Seq::new((n - 1) as nat, |k: int| if k < pos->0 { k as usize } else { (k + 1) as usize })
    } else {
        Seq::new(n, |k: int| k as usize)
    }
}

/// `s` with every occurrence of `x` taken out, the rest in order.
pub open spec fn without(s: Seq<usize>, x: usize) -> Seq<usize>
    decreases s.len(),
{
    if s.len() == 0 {
        s
    } else if s.last() == x {
        without(s.drop_last(), x)
    } else {
        without(s.drop_last(), x).push(s.last())
    }
}

/// One step of the shuffle's generator (xorshift, 13/7/17).
pub open spec fn xorshift(s: u64) -> u64 {
    let a = s ^ (s << 13u64);
    let b = a ^ (a >> 7u64);
    b ^ (b << 17u64)
}

impl QueueView {
    /// What every queue keeps true: the current position and every remembered
    /// or undrawn position name an entry, and nothing is undrawn twice.
    pub open spec fn valid(self) -> bool {
        &&& self.position is Some ==> self.position->0 < self.entries.len()
        &&& forall|i: int| 0 <= i < self.history.len() ==> #[trigger] self.history[i] < self.entries.len()
        &&& forall|i: int|
            0 <= i < self.remaining.len() ==> #[trigger] self.remaining[i] < self.entries.len()
        &&& self.remaining.no_duplicates()
    }

    /// The track at the current position.
    pub open spec fn current(self) -> Option<usize> {
        if self.position is Some && self.position->0 < self.entries.len() {
            Some(self.entries[self.position->0 as int])
        } else {
            None
        }
    }

    /// Every position but the current one is left to draw.
    pub open spec fn shuffle_reset(self) -> QueueView {
        QueueView { remaining: all_but(self.entries.len(), self.position), ..self }
    }

    pub open spec fn replaced(self, entries: Seq<usize>, at: usize) -> QueueView {
        QueueView {
            entries,
            position: if at < entries.len() { Some(at) } else { None },
            history: Seq::empty(),
            ..self
        }.shuffle_reset()
    }

    pub open spec fn appended(self, track: usize) -> QueueView {
        QueueView {
            entries: self.entries.push(track),
            remaining: self.remaining.push(self.entries.len() as usize),
            ..self
        }
    }

    pub open spec fn selected(self, position: usize) -> QueueView {
        if position < self.entries.len() {
            QueueView {
                history: if self.position is Some {
                    self.history.push(self.position->0)
                } else {
                    self.history
                },
                position: Some(position),
                remaining: without(self.remaining, position),
                ..self
            }
        } else {
            self
        }
    }

    /// Move to `next`, remembering where it came from.
    pub open spec fn moved(self, next: usize) -> (QueueView, Option<usize>) {
        let after = QueueView {
            history: self.history.push(self.position->0),
            position: Some(next),
            ..self
        };
        (after, after.current())
    }

    /// The seed a draw starts from: the one there is, or the clock's.
    pub open spec fn seed_from(self, clock: u64) -> u64 {
        if self.seed == 0 {
            clock | 1u64
        } else {
            self.seed
        }
    }

    /// Draw a position out of `pool` at random and move to it.
    pub open spec fn drawn(self, pool: Seq<usize>, clock: u64) -> (QueueView, Option<usize>) {
        if pool.len() == 0 {
            QueueView { remaining: pool, ..self }.moved(self.position->0)
        } else {
            let seed = xorshift(self.seed_from(clock));
            let at = (seed as usize) as int % (pool.len() as int);
            QueueView {
                remaining: pool.update(at, pool.last()).drop_last(),
                seed,
                ..self
            }.moved(pool[at])
        }
    }

    /// What Next (or the end of a song, when `automatic`) does, and what it
    /// answers. `clock` is only read where the shuffle has never been seeded.
    pub open spec fn advanced(self, automatic: bool, clock: u64) -> (QueueView, Option<usize>) {
        if self.position is None {
            (self, None)
        } else if automatic && self.repeat == Repeat::One {
            (self, self.current())
        } else if self.shuffle {
            if self.remaining.len() == 0 && self.repeat == Repeat::Off {
                (self, None)
            } else if self.remaining.len() == 0 {
                self.drawn(all_but(self.entries.len(), self.position), clock)
            } else {
                self.drawn(self.remaining, clock)
            }
        } else if self.position->0 + 1 < self.entries.len() {
            self.moved((self.position->0 + 1) as usize)
        } else if self.repeat != Repeat::Off {
            self.moved(0)
        } else {
            (self, None)
        }
    }

    /// Whether Next would consult the clock at all.
    pub open spec fn needs_clock(self, automatic: bool) -> bool {
        &&& self.position is Some
        &&& !(automatic && self.repeat == Repeat::One)
        &&& self.shuffle
        &&& self.seed == 0
    }

    /// What Previous does, and what it answers.
    pub open spec fn retreated(self) -> (QueueView, Option<usize>) {
        if self.position is None {
            (self, None)
        } else {
            let old = self.position->0;
            let previous: usize = if self.history.len() > 0 {
                self.history.last()
            } else if old > 0 {
                (old - 1) as usize
            } else {
                0
            };
            let history = if self.history.len() > 0 {
                self.history.drop_last()
            } else {
                self.history
            };
            let remaining = if self.shuffle && previous != old {
                let rest = without(self.remaining, previous);
                if rest.contains(old) {
                    rest
                } else {
                    rest.push(old)
                }
            } else {
                self.remaining
            };
            let after = QueueView { position: Some(previous), history, remaining, ..self };
            (after, after.current())
        }
    }

    /// Where the position goes when the entry at `at` is taken out.
    pub open spec fn position_after_removing(self, at: usize) -> Option<usize> {
        if self.position is None || self.entries.len() == 1 {
            None
        } else if self.position->0 > at {
            Some((self.position->0 - 1) as usize)
        } else if self.position->0 <= self.entries.len() - 2 {
            self.position
        } else {
            Some((self.entries.len() - 2) as usize)
        }
    }

    /// What taking out the entry at `at` does, and whether it was the one
    /// playing.
    pub open spec fn removed(self, at: usize) -> (QueueView, bool) {
        if at >= self.entries.len() {
            (self, false)
        } else {
            (
                QueueView {
                    entries: self.entries.remove(at as int),
                    position: self.position_after_removing(at),
                    history: Seq::empty(),
                    ..self
                }.shuffle_reset(),
                self.position == Some(at),
            )
        }
    }
}

/// Queue entries are library indices. A position identifies an occurrence, so
/// a song added twice remains two independently removable entries.
pub struct Queue {
    pub entries: Vec<usize>,
    pub position: Option<usize>,
    pub shuffle: bool,
    pub repeat: Repeat,
    /// The positions played before the current one, oldest first.
    pub history: Vec<usize>,
    /// The positions a shuffle has not drawn yet.
    pub remaining: Vec<usize>,
    /// The shuffle generator's state. Nought means it has never been seeded,
    /// and the clock seeds it on the first draw.
    pub seed: u64,
}

impl View for Queue {
    type V = QueueView;

    open spec fn view(&self) -> QueueView {
        QueueView {
            entries: self.entries@,
            position: self.position,
            shuffle: self.shuffle,
            repeat: self.repeat,
            history: self.history@,
            remaining: self.remaining@,
            seed: self.seed,
        }
    }
}

impl Default for Queue {
    fn default() -> (q: Queue)
        ensures
            q@ == (QueueView {
                entries: Seq::empty(),
                position: None,
                shuffle: false,
                repeat: Repeat::Off,
                history: Seq::empty(),
                remaining: Seq::empty(),
                seed: 0,
            }),
            q@.valid(),
    {
        Queue {
            entries: Vec::new(),
            position: None,
            shuffle: false,
            repeat: Repeat::Off,
            history: Vec::new(),
            remaining: Vec::new(),
            seed: 0,
        }
    }
}

/// `SystemTime::now`, read as nanoseconds since the epoch and cut to 64 bits
/// (nought for a clock set before the epoch). Nothing is promised of the
/// value: it is the time.
#[verifier::external_body]
fn clock_nanos() -> u64 {
    std::time::SystemTime::now().duration_since(std::time::UNIX_EPOCH).unwrap_or_default().as_nanos()
        as u64
}

proof fn lemma_all_but_step(i: nat, pos: Option<usize>)
    requires
        i < usize::MAX,
    ensures
        pos == Some(i as usize) ==> all_but(i + 1, pos) == all_but(i, pos),
        pos != Some(i as usize) ==> all_but(i + 1, pos) == all_but(i, pos).push(i as usize),
{
    if pos == Some(i as usize) {
        assert(pos->0 == i);
        assert(all_but(i + 1, pos) =~= all_but(i, pos));
    } else {
        assert(all_but(i + 1, pos) =~= all_but(i, pos).push(i as usize));
    }
}

proof fn lemma_contains_push(r: Seq<usize>, z: usize, y: usize)
    ensures
        r.push(z).contains(y) <==> r.contains(y) || z == y,
{
    if r.contains(y) {
        let k = choose|k: int| 0 <= k < r.len() && r[k] == y;
        assert(r.push(z)[k] == y);
    }
    if z == y {
        assert(r.push(z)[r.len() as int] == y);
    }
    if r.push(z).contains(y) && z != y {
        let k = choose|k: int| 0 <= k < r.push(z).len() && r.push(z)[k] == y;
        assert(r[k] == y);
    }
}

proof fn lemma_all_but_sound(n: nat, pos: Option<usize>)
    requires
        n <= usize::MAX,
    ensures
        forall|k: int| 0 <= k < all_but(n, pos).len() ==> #[trigger] all_but(n, pos)[k] < n,
        forall|k: int|
            0 <= k < all_but(n, pos).len() ==> #[trigger] all_but(n, pos)[k] != pos->0 || pos is None,
        all_but(n, pos).no_duplicates(),
        forall|x: usize| x < n && Some(x) != pos ==> #[trigger] all_but(n, pos).contains(x),
        all_but(n, pos).len() == if pos is Some && pos->0 < n { n - 1 } else { n as int },
{
    let s = all_but(n, pos);
    assert forall|a: int, b: int| 0 <= a < s.len() && 0 <= b < s.len() && a != b implies s[a]
        != s[b] by {}
    assert forall|x: usize| x < n && Some(x) != pos implies #[trigger] s.contains(x) by {
        if pos is Some && pos->0 < n {
            if x < pos->0 {
                assert(s[x as int] == x);
            } else {
                assert(s[x - 1] == x);
            }
        } else {
            assert(s[x as int] == x);
        }
    }
}

proof fn lemma_without(s: Seq<usize>, x: usize)
    ensures
        forall|y: usize| #[trigger] without(s, x).contains(y) <==> s.contains(y) && y != x,
        s.no_duplicates() ==> without(s, x).no_duplicates(),
        without(s, x).len() <= s.len(),
        !s.contains(x) ==> without(s, x) == s,
    decreases s.len(),
{
    if s.len() > 0 {
        lemma_without(s.drop_last(), x);
        let r = without(s.drop_last(), x);
        assert(s == s.drop_last().push(s.last()));
        assert forall|y: usize| #[trigger] without(s, x).contains(y) <==> s.contains(y) && y != x by {
            lemma_contains_push(s.drop_last(), s.last(), y);
            lemma_contains_push(r, s.last(), y);
        }
        if s.no_duplicates() && s.last() != x {
            assert(!s.drop_last().contains(s.last()));
            assert(!r.contains(s.last()));
        }
        if !s.contains(x) {
            assert(!s.drop_last().contains(x)) by {
                if s.drop_last().contains(x) {
                    let k = choose|k: int| 0 <= k < s.drop_last().len() && s.drop_last()[k] == x;
                    assert(s[k] == x);
                }
            }
            assert(s.last() != x) by {
                assert(s[s.len() - 1] == s.last());
            }
        }
    } else {
        assert(!s.contains(x) ==> without(s, x) == s);
    }
}

/// `s` with `x` taken out.
fn take_out(s: &mut Vec<usize>, x: usize)
    ensures
        final(s)@ == without(old(s)@, x),
{
    let mut out: Vec<usize> = Vec::new();
    let mut i: usize = 0;
    while i < s.len()
        invariant
            i <= s.len(),
            out@ == without(s@.take(i as int), x),
        decreases s.len() - i,
    {
        assert(s@.take(i + 1).drop_last() == s@.take(i as int));
        if s[i] != x {
            out.push(s[i]);
        }
        i = i + 1;
    }
    assert(s@.take(i as int) == s@);
    *s = out;
}

fn holds(s: &Vec<usize>, x: usize) -> (r: bool)
    ensures
        r == s@.contains(x),
{
    let mut i: usize = 0;
    while i < s.len()
        invariant
            i <= s.len(),
            forall|k: int| 0 <= k < i ==> s@[k] != x,
        decreases s.len() - i,
    {
        if s[i] == x {
            return true;
        }
        i = i + 1;
    }
    false
}

impl Queue {
    /// Switch shuffle on or off, and start a fresh round of it.
    pub fn set_shuffle(&mut self, on: bool)
        requires
            old(self)@.valid(),
        ensures
            final(self)@ == (QueueView { shuffle: on, ..old(self)@ }).shuffle_reset(),
            final(self)@.valid(),
    {
        self.shuffle = on;
        self.reset_shuffle();
    }

    pub fn set_repeat(&mut self, repeat: Repeat)
        ensures
            final(self)@ == (QueueView { repeat, ..old(self)@ }),
    {
        self.repeat = repeat;
    }

    pub fn shuffle_on(&self) -> (r: bool)
        ensures
            r == self@.shuffle,
    {
        self.shuffle
    }

    pub fn repeat_mode(&self) -> (r: Repeat)
        ensures
            r == self@.repeat,
    {
        self.repeat
    }

    /// How many entries are queued.
    pub fn len(&self) -> (r: usize)
        ensures
            r == self@.entries.len(),
    {
        self.entries.len()
    }

    /// The queued entries, in the order they play.
    pub fn entries(&self) -> (r: &Vec<usize>)
        ensures
            r@ == self@.entries,
    {
        &self.entries
    }

    pub fn current(&self) -> (r: Option<usize>)
        ensures
            r == self@.current(),
    {
        match self.position {
            Some(p) => {
                if p < self.entries.len() {
                    Some(self.entries[p])
                } else {
                    None
                }
            },
            None => None,
        }
    }

    pub fn replace(&mut self, entries: Vec<usize>, at: usize)
        requires
            old(self)@.valid(),
        ensures
            final(self)@ == old(self)@.replaced(entries@, at),
            final(self)@.valid(),
    {
        self.entries = entries;
        self.position = if at < self.entries.len() {
            Some(at)
        } else {
            None
        };
        self.history.clear();
        self.reset_shuffle();
    }

    pub fn reset_shuffle(&mut self)
        requires
            old(self)@.position is Some ==> old(self)@.position->0 < old(self)@.entries.len(),
            forall|i: int|
                0 <= i < old(self)@.history.len() ==> #[trigger] old(self)@.history[i] < old(
                    self,
                )@.entries.len(),
        ensures
            final(self)@ == old(self)@.shuffle_reset(),
            final(self)@.valid(),
    {
        let n = self.entries.len();
        let mut out: Vec<usize> = Vec::new();
        let mut i: usize = 0;
        while i < n
            invariant
                i <= n,
                n == self.entries.len(),
                out@ == all_but(i as nat, self.position),
            decreases n - i,
        {
            proof {
                lemma_all_but_step(i as nat, self.position);
            }
            let skip = match self.position {
                Some(p) => p == i,
                None => false,
            };
            if !skip {
                out.push(i);
            }
            i = i + 1;
        }
        self.remaining = out;
        proof {
            lemma_all_but_sound(n as nat, self.position);
        }
    }

    pub fn append(&mut self, track: usize)
        requires
            old(self)@.valid(),
            old(self)@.entries.len() < usize::MAX,
        ensures
            final(self)@ == old(self)@.appended(track),
            final(self)@.valid(),
    {
        let ghost before = self.remaining@;
        self.remaining.push(self.entries.len());
        self.entries.push(track);
        proof {
            assert forall|a: int, b: int|
                0 <= a < self.remaining@.len() && 0 <= b < self.remaining@.len() && a != b implies
                self.remaining@[a] != self.remaining@[b] by {
                if a == before.len() {
                    assert(before[b] < old(self)@.entries.len());
                } else if b == before.len() {
                    assert(before[a] < old(self)@.entries.len());
                }
            }
        }
    }

    pub fn select(&mut self, position: usize)
        requires
            old(self)@.valid(),
        ensures
            final(self)@ == old(self)@.selected(position),
            final(self)@.valid(),
    {
        if position < self.entries.len() {
            if let Some(old) = self.position {
                self.history.push(old);
            }
            self.position = Some(position);
            let ghost before = self.remaining@;
            take_out(&mut self.remaining, position);
            proof {
                lemma_without(before, position);
                assert forall|i: int| 0 <= i < self.remaining@.len() implies #[trigger] self.remaining@[i]
                    < self.entries@.len() by {
                    assert(self.remaining@.contains(self.remaining@[i]));
                    let k = choose|k: int| 0 <= k < before.len() && before[k] == self.remaining@[i];
                }
            }
        }
    }

    /// Move to the next position, answering the track there, or `None` where
    /// there is nowhere to go. `automatic` is the end of a song rather than a
    /// press of Next. Where the shuffle has never been seeded, the clock
    /// seeds it.
    pub fn next(&mut self, automatic: bool) -> (r: Option<usize>)
        requires
            old(self)@.valid(),
        ensures
            final(self)@.valid(),
            exists|clock: u64| (final(self)@, r) == old(self)@.advanced(automatic, clock),
            !old(self)@.needs_clock(automatic) ==> (final(self)@, r) == old(self)@.advanced(
                automatic,
                0,
            ),
    {
        let clock = if self.shuffle && self.seed == 0 {
            clock_nanos()
        } else {
            0
        };
        self.next_with_clock(automatic, clock)
    }

    /// Next, with the clock reading a shuffle that was never seeded starts
    /// from handed in.
    pub fn next_with_clock(&mut self, automatic: bool, clock: u64) -> (r: Option<usize>)
        requires
            old(self)@.valid(),
        ensures
            (final(self)@, r) == old(self)@.advanced(automatic, clock),
            final(self)@.valid(),
            old(self)@.needs_clock(automatic) || (final(self)@, r) == old(self)@.advanced(
                automatic,
                0,
            ),
    {
        let old = match self.position {
            Some(p) => p,
            None => {
                return None;
            },
        };
        let len = self.entries.len();
        if automatic && self.repeat == Repeat::One {
            return self.current();
        }
        let next = if self.shuffle {
            if self.remaining.len() == 0 {
                if self.repeat == Repeat::Off {
                    return None;
                }
                self.reset_shuffle();
            }
            if self.remaining.len() == 0 {
                old
            } else {
                if self.seed == 0 {
                    self.seed = clock | 1;
                }
                self.seed = self.seed ^ (self.seed << 13u64);
                self.seed = self.seed ^ (self.seed >> 7u64);
                self.seed = self.seed ^ (self.seed << 17u64);
                let at = (self.seed as usize) % self.remaining.len();
                let ghost pool = self.remaining@;
                let picked = self.remaining.swap_remove(at);
                proof {
                    assert(forall|i: int|
                        0 <= i < self.remaining@.len() ==> #[trigger] self.remaining@[i] == pool[i]
                            || (i == at && self.remaining@[i] == pool.last()));
                    assert(pool.last() == pool[pool.len() - 1]);
                    assert forall|a: int, b: int|
                        0 <= a < self.remaining@.len() && 0 <= b < self.remaining@.len() && a != b
                        implies self.remaining@[a] != self.remaining@[b] by {
                        let pa = if a == at { pool.len() - 1 } else { a };
                        let pb = if b == at { pool.len() - 1 } else { b };
                        assert(self.remaining@[a] == pool[pa]);
                        assert(self.remaining@[b] == pool[pb]);
                    }
                }
                picked
            }
        } else if old + 1 < len {
            old + 1
        } else if self.repeat != Repeat::Off {
            0
        } else {
            return None;
        };
        self.history.push(old);
        self.position = Some(next);
        self.current()
    }

    /// Go back to what was playing before, or to the position before this one
    /// where nothing is remembered.
    pub fn previous(&mut self) -> (r: Option<usize>)
        requires
            old(self)@.valid(),
        ensures
            (final(self)@, r) == old(self)@.retreated(),
            final(self)@.valid(),
    {
        let old = match self.position {
            Some(p) => p,
            None => {
                return None;
            },
        };
        let previous = match self.history.pop() {
            Some(h) => h,
            None => if old > 0 {
                old - 1
            } else {
                0
            },
        };
        self.position = Some(previous);
        if self.shuffle && previous != old {
            let ghost before = self.remaining@;
            take_out(&mut self.remaining, previous);
            proof {
                lemma_without(before, previous);
            }
            if !holds(&self.remaining, old) {
                self.remaining.push(old);
            }
            proof {
                let rest = without(before, previous);
                assert forall|i: int| 0 <= i < self.remaining@.len() implies #[trigger] self.remaining@[i]
                    < self.entries@.len() by {
                    if i < rest.len() {
                        assert(rest.contains(rest[i]));
                        let k = choose|k: int| 0 <= k < before.len() && before[k] == rest[i];
                    }
                }
            }
        }
        self.current()
    }

    /// Take out the entry at `at`, answering whether it was the one playing.
    /// The position stays on the occurrence it was on; where that was the one
    /// taken out, it moves to the one that took its place, or the last.
    pub fn remove(&mut self, at: usize) -> (r: bool)
        requires
            old(self)@.valid(),
        ensures
            (final(self)@, r) == old(self)@.removed(at),
            final(self)@.valid(),
    {
        if at >= self.entries.len() {
            return false;
        }
        let was_current = match self.position {
            Some(p) => p == at,
            None => false,
        };
        self.entries.remove(at);
        self.position = match self.position {
            None => None,
            Some(p) => {
                if self.entries.len() == 0 {
                    None
                } else if p > at {
                    Some(p - 1)
                } else if p <= self.entries.len() - 1 {
                    Some(p)
                } else {
                    Some(self.entries.len() - 1)
                }
            },
        };
        self.history.clear();
        self.reset_shuffle();
        was_current
    }
}

} // verus!
