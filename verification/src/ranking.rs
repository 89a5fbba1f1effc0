//! Putting things in order: words compared letter by letter, keys compared
//! part by part, and a sort that keeps equal keys in the order they came in.
use vstd::prelude::*;

verus! {

/// Where two sequences first differ, or the length of the shorter where one
/// runs out first.
pub open spec fn first_difference_from<A>(a: Seq<A>, b: Seq<A>, i: nat) -> nat
    decreases a.len() - i,
{
    if i >= a.len() || i >= b.len() || a[i as int] != b[i as int] {
        i
    } else {
        first_difference_from(a, b, i + 1)
    }
}

pub open spec fn first_difference<A>(a: Seq<A>, b: Seq<A>) -> nat {
    first_difference_from(a, b, 0)
}

/// `a` comes before `b` in the lexicographic order that `less` extends.
pub open spec fn lex_less<A>(a: Seq<A>, b: Seq<A>, less: spec_fn(A, A) -> bool) -> bool {
    let k = first_difference(a, b);
    if k < a.len() && k < b.len() {
        less(a[k as int], b[k as int])
    } else {
        a.len() < b.len()
    }
}

/// `less` is a strict total order: nothing is before itself, before is
/// transitive, and of two different things one is before the other.
pub open spec fn strict_total<A>(less: spec_fn(A, A) -> bool) -> bool {
    &&& forall|x: A| !#[trigger] less(x, x)
    &&& forall|x: A, y: A, z: A| #[trigger] less(x, y) && #[trigger] less(y, z) ==> less(x, z)
    &&& forall|x: A, y: A| x != y ==> #[trigger] less(x, y) || #[trigger] less(y, x)
}

proof fn lemma_first_difference_from<A>(a: Seq<A>, b: Seq<A>, i: nat)
    requires
        i <= a.len(),
        i <= b.len(),
        forall|j: int| 0 <= j < i ==> a[j] == b[j],
    ensures
        i <= first_difference_from(a, b, i) <= a.len(),
        first_difference_from(a, b, i) <= b.len(),
        forall|j: int| 0 <= j < first_difference_from(a, b, i) ==> a[j] == b[j],
        first_difference_from(a, b, i) < a.len() && first_difference_from(a, b, i) < b.len()
            ==> a[first_difference_from(a, b, i) as int] != b[first_difference_from(a, b, i) as int],
    decreases a.len() - i,
{
    if !(i >= a.len() || i >= b.len() || a[i as int] != b[i as int]) {
        lemma_first_difference_from(a, b, i + 1);
    }
}

/// What the first difference is: the sequences agree before it, and at it
/// one has run out or they differ. Nothing else is.
pub proof fn lemma_first_difference<A>(a: Seq<A>, b: Seq<A>)
    ensures
        first_difference(a, b) <= a.len(),
        first_difference(a, b) <= b.len(),
        forall|j: int| 0 <= j < first_difference(a, b) ==> a[j] == b[j],
        first_difference(a, b) < a.len() && first_difference(a, b) < b.len() ==> a[first_difference(
            a,
            b,
        ) as int] != b[first_difference(a, b) as int],
        first_difference(a, b) == first_difference(b, a),
        forall|k: nat|
            k <= a.len() && k <= b.len() && (forall|j: int| 0 <= j < k ==> a[j] == b[j]) && (k
                == a.len() || k == b.len() || a[k as int] != b[k as int]) ==> k == first_difference(
                a,
                b,
            ),
{
    lemma_first_difference_from(a, b, 0);
    lemma_first_difference_from(b, a, 0);
    let k1 = first_difference(a, b);
    let k2 = first_difference(b, a);
    if k1 < k2 {
        assert(b[k1 as int] == a[k1 as int]);
    }
    if k2 < k1 {
        assert(a[k2 as int] == b[k2 as int]);
    }
    assert forall|k: nat|
        k <= a.len() && k <= b.len() && (forall|j: int| 0 <= j < k ==> a[j] == b[j]) && (k
            == a.len() || k == b.len() || a[k as int] != b[k as int]) implies k
        == first_difference(a, b) by {
        if k < k1 {
            assert(a[k as int] == b[k as int]);
        }
        if k1 < k {
            assert(a[k1 as int] == b[k1 as int]);
        }
    }
}

/// Where two sequences agree up to `k` and part there, `k` is their first
/// difference.
pub proof fn lemma_first_difference_is<A>(a: Seq<A>, b: Seq<A>, k: nat)
    requires
        k <= a.len(),
        k <= b.len(),
        forall|j: int| 0 <= j < k ==> a[j] == b[j],
        k == a.len() || k == b.len() || a[k as int] != b[k as int],
    ensures
        k == first_difference(a, b),
        k == first_difference(b, a),
{
    lemma_first_difference(a, b);
    lemma_first_difference(b, a);
}

/// Extending a strict total order lexicographically gives a strict total
/// order.
pub proof fn lemma_lex_order<A>(less: spec_fn(A, A) -> bool)
    requires
        strict_total(less),
    ensures
        forall|x: Seq<A>| !#[trigger] lex_less(x, x, less),
        forall|x: Seq<A>, y: Seq<A>, z: Seq<A>| #[trigger]
            lex_less(x, y, less) && #[trigger] lex_less(y, z, less) ==> lex_less(x, z, less),
        forall|x: Seq<A>, y: Seq<A>|
            x != y ==> #[trigger] lex_less(x, y, less) || #[trigger] lex_less(y, x, less),
{
    assert forall|x: Seq<A>| !#[trigger] lex_less(x, x, less) by {
        lemma_first_difference_is(x, x, x.len());
    }
    assert forall|x: Seq<A>, y: Seq<A>, z: Seq<A>| #[trigger]
        lex_less(x, y, less) && #[trigger] lex_less(y, z, less) implies lex_less(x, z, less) by {
        lemma_lex_transitive(x, y, z, less);
    }
    assert forall|x: Seq<A>, y: Seq<A>| x != y implies #[trigger] lex_less(x, y, less)
        || #[trigger] lex_less(y, x, less) by {
        lemma_first_difference(x, y);
        lemma_first_difference(y, x);
        let k = first_difference(x, y);
        if !(k < x.len() && k < y.len()) && x.len() == y.len() {
            assert(x =~= y);
        }
    }
}

proof fn lemma_lex_transitive<A>(a: Seq<A>, b: Seq<A>, c: Seq<A>, less: spec_fn(A, A) -> bool)
    requires
        strict_total(less),
        lex_less(a, b, less),
        lex_less(b, c, less),
    ensures
        lex_less(a, c, less),
{
    lemma_first_difference(a, b);
    lemma_first_difference(b, c);
    lemma_first_difference(a, c);
    let k1 = first_difference(a, b);
    let k2 = first_difference(b, c);
    if k1 < k2 {
        assert forall|j: int| 0 <= j < k1 implies a[j] == c[j] by {
            assert(a[j] == b[j]);
            assert(b[j] == c[j]);
        }
        if k1 < a.len() && k1 < b.len() {
            assert(b[k1 as int] == c[k1 as int]);
            assert(k1 == first_difference(a, c));
        } else {
            assert(k1 == a.len());
            assert(k1 == first_difference(a, c));
        }
    } else if k2 < k1 {
        assert forall|j: int| 0 <= j < k2 implies a[j] == c[j] by {
            assert(a[j] == b[j]);
            assert(b[j] == c[j]);
        }
        assert(k2 < b.len());
        assert(a[k2 as int] == b[k2 as int]);
        if k2 < c.len() {
            assert(k2 == first_difference(a, c));
        } else {
            assert(false);
        }
    } else {
        let k = k1;
        assert forall|j: int| 0 <= j < k implies a[j] == c[j] by {
            assert(a[j] == b[j]);
            assert(b[j] == c[j]);
        }
        if k < a.len() && k < b.len() {
            assert(k < c.len());
            assert(less(a[k as int], c[k as int]));
            assert(a[k as int] != c[k as int]);
            assert(k == first_difference(a, c));
        } else {
            assert(k == a.len());
            assert(k == first_difference(a, c));
        }
    }
}

/// Letters in the order of their code points, which is the order of their
/// UTF-8 bytes and so the order in which strings compare.
pub open spec fn char_order() -> spec_fn(char, char) -> bool {
    |x: char, y: char| x < y
}

/// One word before another, letter by letter.
pub open spec fn text_less(a: Seq<char>, b: Seq<char>) -> bool {
    lex_less(a, b, char_order())
}

pub open spec fn part_order() -> spec_fn(PartView, PartView) -> bool {
    |p: PartView, q: PartView| part_less(p, q)
}

/// One part of a sort key: a word or a number, each either way up.
pub enum Part {
    Text(Vec<char>),
    TextDown(Vec<char>),
    Number(u64),
    NumberDown(u64),
}

pub enum PartView {
    Text(Seq<char>),
    TextDown(Seq<char>),
    Number(u64),
    NumberDown(u64),
}

impl View for Part {
    type V = PartView;

    open spec fn view(&self) -> PartView {
        match self {
            Part::Text(t) => PartView::Text(t@),
            Part::TextDown(t) => PartView::TextDown(t@),
            Part::Number(n) => PartView::Number(*n),
            Part::NumberDown(n) => PartView::NumberDown(*n),
        }
    }
}

pub open spec fn part_tag(p: PartView) -> int {
    match p {
        PartView::Text(_) => 0,
        PartView::TextDown(_) => 1,
        PartView::Number(_) => 2,
        PartView::NumberDown(_) => 3,
    }
}

/// One part before another: words by their letters, numbers by their size,
/// a part marked "down" the other way round.
pub open spec fn part_less(p: PartView, q: PartView) -> bool {
    match (p, q) {
        (PartView::Text(a), PartView::Text(b)) => text_less(a, b),
        (PartView::TextDown(a), PartView::TextDown(b)) => text_less(b, a),
        (PartView::Number(a), PartView::Number(b)) => a < b,
        (PartView::NumberDown(a), PartView::NumberDown(b)) => b < a,
        _ => part_tag(p) < part_tag(q),
    }
}

/// One key before another, part by part.
pub open spec fn rank_less(a: Seq<PartView>, b: Seq<PartView>) -> bool {
    lex_less(a, b, part_order())
}

pub open spec fn rank_view(r: Vec<Part>) -> Seq<PartView> {
    r@.map_values(|p: Part| p@)
}

pub open spec fn ranks_view(rs: Seq<Vec<Part>>) -> Seq<Seq<PartView>> {
    rs.map_values(|r: Vec<Part>| rank_view(r))
}

/// Item `i` comes before item `j`: its key is earlier, or the keys are the
/// same and it came in first.
pub open spec fn precedes(ranks: Seq<Seq<PartView>>, i: int, j: int) -> bool {
    rank_less(ranks[i], ranks[j]) || (ranks[i] == ranks[j] && i < j)
}

/// `perm` lists `0..n` each once, in the order `precedes` puts them.
pub open spec fn sorted_order(ranks: Seq<Seq<PartView>>, perm: Seq<usize>) -> bool {
    &&& perm.len() == ranks.len()
    &&& perm.no_duplicates()
    &&& forall|k: int| 0 <= k < perm.len() ==> #[trigger] perm[k] < ranks.len()
    &&& forall|x: usize| x < ranks.len() ==> #[trigger] perm.contains(x)
    &&& forall|a: int, b: int|
        0 <= a < b < perm.len() ==> precedes(ranks, perm[a] as int, perm[b] as int)
}

/// Words are in a strict total order.
pub proof fn lemma_text_order()
    ensures
        forall|x: Seq<char>| !#[trigger] text_less(x, x),
        forall|x: Seq<char>, y: Seq<char>, z: Seq<char>| #[trigger]
            text_less(x, y) && #[trigger] text_less(y, z) ==> text_less(x, z),
        forall|x: Seq<char>, y: Seq<char>|
            x != y ==> #[trigger] text_less(x, y) || #[trigger] text_less(y, x),
{
    let co = char_order();
    assert(strict_total(co));
    lemma_lex_order(co);
}

/// Keys are in a strict total order.
pub proof fn lemma_rank_order()
    ensures
        forall|x: Seq<PartView>| !#[trigger] rank_less(x, x),
        forall|x: Seq<PartView>, y: Seq<PartView>, z: Seq<PartView>| #[trigger]
            rank_less(x, y) && #[trigger] rank_less(y, z) ==> rank_less(x, z),
        forall|x: Seq<PartView>, y: Seq<PartView>|
            x != y ==> #[trigger] rank_less(x, y) || #[trigger] rank_less(y, x),
{
    lemma_text_order();
    let po = part_order();
    assert forall|x: PartView| !#[trigger] po(x, x) by {}
    assert forall|x: PartView, y: PartView, z: PartView| #[trigger] po(x, y) && #[trigger] po(y, z)
        implies po(x, z) by {
        match (x, y, z) {
            (PartView::Text(a), PartView::Text(b), PartView::Text(c)) => {
                assert(text_less(a, b) && text_less(b, c));
            },
            (PartView::TextDown(a), PartView::TextDown(b), PartView::TextDown(c)) => {
                assert(text_less(c, b) && text_less(b, a));
            },
            _ => {},
        }
    }
    assert forall|x: PartView, y: PartView| x != y implies #[trigger] po(x, y) || #[trigger] po(
        y,
        x,
    ) by {
        match (x, y) {
            (PartView::Text(a), PartView::Text(b)) => {
                assert(a != b);
                assert(text_less(a, b) || text_less(b, a));
            },
            (PartView::TextDown(a), PartView::TextDown(b)) => {
                assert(a != b);
                assert(text_less(a, b) || text_less(b, a));
            },
            _ => {},
        }
    }
    lemma_lex_order(po);
}

proof fn lemma_precedes_transitive(rv: Seq<Seq<PartView>>, x: int, y: int, z: int)
    requires
        precedes(rv, x, y),
        precedes(rv, y, z),
    ensures
        precedes(rv, x, z),
{
    lemma_rank_order();
    if rank_less(rv[x], rv[y]) && rank_less(rv[y], rv[z]) {
    } else if rank_less(rv[x], rv[y]) {
        assert(rv[y] == rv[z]);
    } else if rank_less(rv[y], rv[z]) {
        assert(rv[x] == rv[y]);
    } else {
    }
}

/// The answer of a three-way comparison.
#[derive(Debug, Clone, Copy, PartialEq, Eq, Structural)]
pub enum Cmp {
    Less,
    Same,
    More,
}

/// Compare two words letter by letter.
pub fn compare_text(a: &Vec<char>, b: &Vec<char>) -> (r: Cmp)
    ensures
        r == Cmp::Less <==> text_less(a@, b@),
        r == Cmp::Same <==> a@ == b@,
        r == Cmp::More <==> text_less(b@, a@),
{
    proof {
        lemma_text_order();
        lemma_first_difference(a@, b@);
    }
    let mut i: usize = 0;
    while i < a.len() && i < b.len()
        invariant
            i <= a.len(),
            i <= b.len(),
            forall|j: int| 0 <= j < i ==> a@[j] == b@[j],
        decreases a.len() - i,
    {
        let x = a[i];
        let y = b[i];
        if x < y {
            proof {
                lemma_first_difference_is(a@, b@, i as nat);
            }
            return Cmp::Less;
        }
        if y < x {
            proof {
                lemma_first_difference_is(a@, b@, i as nat);
            }
            return Cmp::More;
        }
        i = i + 1;
    }
    proof {
        lemma_first_difference_is(a@, b@, i as nat);
    }
    if a.len() < b.len() {
        Cmp::Less
    } else if b.len() < a.len() {
        Cmp::More
    } else {
        assert(a@ =~= b@);
        Cmp::Same
    }
}

fn compare_numbers(a: u64, b: u64) -> (r: Cmp)
    ensures
        r == Cmp::Less <==> a < b,
        r == Cmp::Same <==> a == b,
        r == Cmp::More <==> b < a,
{
    if a < b {
        Cmp::Less
    } else if b < a {
        Cmp::More
    } else {
        Cmp::Same
    }
}

fn tag_of(p: &Part) -> (r: u8)
    ensures
        r as int == part_tag(p@),
{
    match p {
        Part::Text(_) => 0,
        Part::TextDown(_) => 1,
        Part::Number(_) => 2,
        Part::NumberDown(_) => 3,
    }
}

/// Compare two parts of a key.
pub fn compare_part(p: &Part, q: &Part) -> (r: Cmp)
    ensures
        r == Cmp::Less <==> part_less(p@, q@),
        r == Cmp::Same <==> p@ == q@,
        r == Cmp::More <==> part_less(q@, p@),
{
    proof {
        lemma_rank_order();
        lemma_text_order();
    }
    match (p, q) {
        (Part::Text(a), Part::Text(b)) => compare_text(a, b),
        (Part::TextDown(a), Part::TextDown(b)) => compare_text(b, a),
        (Part::Number(a), Part::Number(b)) => compare_numbers(*a, *b),
        (Part::NumberDown(a), Part::NumberDown(b)) => compare_numbers(*b, *a),
        _ => {
            let x = tag_of(p);
            let y = tag_of(q);
            if x < y {
                Cmp::Less
            } else {
                assert(y < x);
                Cmp::More
            }
        },
    }
}

/// Compare two keys part by part.
pub fn compare_rank(a: &Vec<Part>, b: &Vec<Part>) -> (r: Cmp)
    ensures
        r == Cmp::Less <==> rank_less(rank_view(*a), rank_view(*b)),
        r == Cmp::Same <==> rank_view(*a) == rank_view(*b),
        r == Cmp::More <==> rank_less(rank_view(*b), rank_view(*a)),
{
    let ghost av = rank_view(*a);
    let ghost bv = rank_view(*b);
    proof {
        lemma_rank_order();
        lemma_first_difference(av, bv);
    }
    let mut i: usize = 0;
    while i < a.len() && i < b.len()
        invariant
            i <= a.len(),
            i <= b.len(),
            av.len() == a.len(),
            bv.len() == b.len(),
            forall|j: int| 0 <= j < a.len() ==> av[j] == a@[j]@,
            forall|j: int| 0 <= j < b.len() ==> bv[j] == b@[j]@,
            av == rank_view(*a),
            bv == rank_view(*b),
            forall|j: int| 0 <= j < i ==> av[j] == bv[j],
        decreases a.len() - i,
    {
        let c = compare_part(&a[i], &b[i]);
        match c {
            Cmp::Less => {
                proof {
                    lemma_first_difference_is(av, bv, i as nat);
                }
                return Cmp::Less;
            },
            Cmp::More => {
                proof {
                    lemma_first_difference_is(av, bv, i as nat);
                }
                return Cmp::More;
            },
            Cmp::Same => {},
        }
        i = i + 1;
    }
    proof {
        lemma_first_difference_is(av, bv, i as nat);
    }
    if a.len() < b.len() {
        Cmp::Less
    } else if b.len() < a.len() {
        Cmp::More
    } else {
        assert(av =~= bv);
        Cmp::Same
    }
}

/// Each item of `s` comes before the next, in the order `precedes` puts them.
pub open spec fn ascending(rv: Seq<Seq<PartView>>, s: Seq<usize>) -> bool {
    forall|a: int, b: int| 0 <= a < b < s.len() ==> precedes(rv, s[a] as int, s[b] as int)
}

/// Every item of `s` names a key.
pub open spec fn in_range(s: Seq<usize>, n: nat) -> bool {
    forall|k: int| 0 <= k < s.len() ==> #[trigger] s[k] < n
}

/// Two runs in order, made one run in order.
fn merge(ranks: &Vec<Vec<Part>>, left: Vec<usize>, right: Vec<usize>) -> (out: Vec<usize>)
    requires
        in_range(left@, ranks@.len()),
        in_range(right@, ranks@.len()),
        ascending(ranks_view(ranks@), left@),
        ascending(ranks_view(ranks@), right@),
        forall|x: usize| !(#[trigger] left@.contains(x) && right@.contains(x)),
        left.len() + right.len() <= usize::MAX,
    ensures
        out.len() == left.len() + right.len(),
        forall|x: usize| #[trigger] out@.contains(x) <==> (left@.contains(x) || right@.contains(x)),
        in_range(out@, ranks@.len()),
        ascending(ranks_view(ranks@), out@),
{
    let ghost rv = ranks_view(ranks@);
    proof {
        lemma_rank_order();
    }
    let mut out: Vec<usize> = Vec::new();
    let mut i: usize = 0;
    let mut j: usize = 0;
    while i < left.len() || j < right.len()
        invariant
            i <= left.len(),
            j <= right.len(),
            left.len() + right.len() <= usize::MAX,
            out.len() == i + j,
            rv == ranks_view(ranks@),
            rv.len() == ranks@.len(),
            in_range(left@, ranks@.len()),
            in_range(right@, ranks@.len()),
            ascending(rv, left@),
            ascending(rv, right@),
            forall|x: usize| !(#[trigger] left@.contains(x) && right@.contains(x)),
            in_range(out@, ranks@.len()),
            ascending(rv, out@),
            forall|x: usize| #[trigger] out@.contains(x) <==> (left@.take(i as int).contains(x)
                || right@.take(j as int).contains(x)),
            out.len() > 0 && i < left.len() ==> precedes(rv, out@.last() as int, left@[i as int] as int),
            out.len() > 0 && j < right.len() ==> precedes(rv, out@.last() as int, right@[j as int] as int),
        decreases left.len() + right.len() - i - j,
    {
        let take_left = if i >= left.len() {
            false
        } else if j >= right.len() {
            true
        } else {
            let a = left[i];
            let b = right[j];
            proof {
                if a == b {
                    assert(left@.contains(a) && right@.contains(a));
                }
            }
            match compare_rank(&ranks[a], &ranks[b]) {
                Cmp::Less => true,
                Cmp::Same => a < b,
                Cmp::More => false,
            }
        };
        let next = if take_left {
            left[i]
        } else {
            right[j]
        };
        let ghost before = out@;
        proof {
            if take_left && j < right.len() {
                assert(precedes(rv, left@[i as int] as int, right@[j as int] as int));
            }
            if !take_left && i < left.len() {
                assert(left@[i as int] != right@[j as int]) by {
                    if left@[i as int] == right@[j as int] {
                        assert(left@.contains(left@[i as int]) && right@.contains(left@[i as int]));
                    }
                }
                assert(precedes(rv, right@[j as int] as int, left@[i as int] as int));
            }
        }
        out.push(next);
        proof {
            assert(out@ == before.push(next));
            assert forall|a: int, b: int| 0 <= a < b < out.len() implies precedes(
                rv,
                out@[a] as int,
                out@[b] as int,
            ) by {
                if b < before.len() {
                    assert(out@[a] == before[a] && out@[b] == before[b]);
                } else {
                    assert(out@[b] == next);
                    assert(precedes(rv, before.last() as int, next as int));
                    if a < before.len() - 1 {
                        assert(out@[a] == before[a]);
                        lemma_precedes_transitive(rv, before[a] as int, before.last() as int, next as int);
                    }
                }
            }
            let ni: int = if take_left { i + 1 } else { i as int };
            let nj: int = if take_left { j as int } else { j + 1 };
            if take_left {
                assert(left@.take(i + 1) =~= left@.take(i as int).push(left@[i as int]));
                if i + 1 < left.len() {
                    assert(precedes(rv, left@[i as int] as int, left@[i + 1] as int));
                }
            } else {
                assert(right@.take(j + 1) =~= right@.take(j as int).push(right@[j as int]));
                if j + 1 < right.len() {
                    assert(precedes(rv, right@[j as int] as int, right@[j + 1] as int));
                }
            }
            assert forall|x: usize| #[trigger] out@.contains(x) <==> (left@.take(ni).contains(x)
                || right@.take(nj).contains(x)) by {
                let lt = left@.take(i as int);
                let rt = right@.take(j as int);
                if out@.contains(x) {
                    let k = choose|k: int| 0 <= k < out@.len() && out@[k] == x;
                    if k < before.len() {
                        assert(before[k] == x);
                        assert(before.contains(x));
                        if lt.contains(x) {
                            let m = choose|m: int| 0 <= m < lt.len() && lt[m] == x;
                            assert(left@.take(ni)[m] == x);
                        } else {
                            let m = choose|m: int| 0 <= m < rt.len() && rt[m] == x;
                            assert(right@.take(nj)[m] == x);
                        }
                    } else if take_left {
                        assert(left@.take(ni)[i as int] == x);
                    } else {
                        assert(right@.take(nj)[j as int] == x);
                    }
                }
                if left@.take(ni).contains(x) {
                    let m = choose|m: int| 0 <= m < left@.take(ni).len() && left@.take(ni)[m] == x;
                    if m < i {
                        assert(lt[m] == x);
                        assert(before.contains(x));
                        let k = choose|k: int| 0 <= k < before.len() && before[k] == x;
                        assert(out@[k] == x);
                    } else {
                        assert(out@[before.len() as int] == x);
                    }
                }
                if right@.take(nj).contains(x) {
                    let m = choose|m: int| 0 <= m < right@.take(nj).len() && right@.take(nj)[m] == x;
                    if m < j {
                        assert(rt[m] == x);
                        assert(before.contains(x));
                        let k = choose|k: int| 0 <= k < before.len() && before[k] == x;
                        assert(out@[k] == x);
                    } else {
                        assert(out@[before.len() as int] == x);
                    }
                }
            }
        }
        if take_left {
            i = i + 1;
        } else {
            j = j + 1;
        }
    }
    assert(left@.take(left.len() as int) =~= left@);
    assert(right@.take(right.len() as int) =~= right@);
    out
}

/// The items, each once, put in the order `precedes` puts them.
fn merge_sort(ranks: &Vec<Vec<Part>>, items: Vec<usize>) -> (out: Vec<usize>)
    requires
        in_range(items@, ranks@.len()),
        items@.no_duplicates(),
    ensures
        out.len() == items.len(),
        forall|x: usize| #[trigger] out@.contains(x) <==> items@.contains(x),
        in_range(out@, ranks@.len()),
        ascending(ranks_view(ranks@), out@),
    decreases items.len(),
{
    if items.len() <= 1 {
        return items;
    }
    let ghost all = items@;
    let mut left = items;
    let mid = left.len() / 2;
    let right = left.split_off(mid);
    proof {
        assert forall|x: usize| !(#[trigger] left@.contains(x) && right@.contains(x)) by {
            if left@.contains(x) && right@.contains(x) {
                let a = choose|a: int| 0 <= a < left@.len() && left@[a] == x;
                let b = choose|b: int| 0 <= b < right@.len() && right@[b] == x;
                assert(all[a] == all[mid + b]);
            }
        }
        assert forall|x: usize| #[trigger] all.contains(x) <==> (left@.contains(x) || right@.contains(x)) by {
            if all.contains(x) {
                let k = choose|k: int| 0 <= k < all.len() && all[k] == x;
                if k < mid {
                    assert(left@[k] == x);
                } else {
                    assert(right@[k - mid] == x);
                }
            }
            if left@.contains(x) {
                let k = choose|k: int| 0 <= k < left@.len() && left@[k] == x;
                assert(all[k] == x);
            }
            if right@.contains(x) {
                let k = choose|k: int| 0 <= k < right@.len() && right@[k] == x;
                assert(all[mid + k] == x);
            }
        }
        assert(left@.no_duplicates()) by {
            assert forall|a: int, b: int| 0 <= a < b < left@.len() implies left@[a] != left@[b] by {
                assert(left@[a] == all[a] && left@[b] == all[b]);
            }
        }
        assert(right@.no_duplicates()) by {
            assert forall|a: int, b: int| 0 <= a < b < right@.len() implies right@[a] != right@[b] by {
                assert(right@[a] == all[mid + a] && right@[b] == all[mid + b]);
            }
        }
        assert(in_range(left@, ranks@.len())) by {
            assert forall|k: int| 0 <= k < left@.len() implies #[trigger] left@[k] < ranks@.len() by {
                assert(left@[k] == all[k]);
            }
        }
        assert(in_range(right@, ranks@.len())) by {
            assert forall|k: int| 0 <= k < right@.len() implies #[trigger] right@[k] < ranks@.len() by {
                assert(right@[k] == all[mid + k]);
            }
        }
    }
    let ghost l0 = left@;
    let ghost r0 = right@;
    let sorted_left = merge_sort(ranks, left);
    let sorted_right = merge_sort(ranks, right);
    proof {
        assert forall|x: usize| !(#[trigger] sorted_left@.contains(x) && sorted_right@.contains(x)) by {
            if sorted_left@.contains(x) && sorted_right@.contains(x) {
                assert(l0.contains(x) && r0.contains(x));
            }
        }
    }
    merge(ranks, sorted_left, sorted_right)
}

/// The order that puts the items with these keys in order, equal keys in the
/// order they came in.
pub fn sort_ranked(ranks: &Vec<Vec<Part>>) -> (perm: Vec<usize>)
    ensures
        sorted_order(ranks_view(ranks@), perm@),
{
    let ghost rv = ranks_view(ranks@);
    proof {
        lemma_rank_order();
    }
    let n = ranks.len();
    let mut items: Vec<usize> = Vec::new();
    for i in 0..n
        invariant
            n == ranks.len(),
            items@ == Seq::new(i as nat, |k: int| k as usize),
    {
        items.push(i);
        assert(items@ =~= Seq::new((i + 1) as nat, |k: int| k as usize));
    }
    let ghost all = items@;
    assert(in_range(items@, ranks@.len()));
    assert(items@.no_duplicates());
    let perm = merge_sort(ranks, items);
    proof {
        assert forall|x: usize| x < rv.len() implies #[trigger] perm@.contains(x) by {
            assert(all[x as int] == x);
            assert(all.contains(x));
        }
        assert forall|a: int, b: int| 0 <= a < perm.len() && 0 <= b < perm.len() && a != b
            implies perm@[a] != perm@[b] by {
            if a < b {
                assert(precedes(rv, perm@[a] as int, perm@[b] as int));
            } else {
                assert(precedes(rv, perm@[b] as int, perm@[a] as int));
            }
        }
    }
    perm
}

} // verus!
