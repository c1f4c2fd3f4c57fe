//! Stable sorting by a key.
//!
//! A key is a number and a text; keys are compared by the number first
//! and, where the numbers are equal, by the text in lexicographic
//! order. Sorting yields the order in which to take the items: a
//! permutation of their positions, in which items with equal keys keep
//! the order they came in.

use crate::text::{
    chars_le, lemma_lex_le_total, lemma_lex_le_transitive, lex_le,
};
use crate::seqs::Duplicate;
use vstd::prelude::*;

verus! {

/// The rank of an item: a number and a text.
pub struct Rank {
    pub number: int,
    pub text: Seq<char>,
}

impl Rank {
    /// Whether `self` comes before `other` or has the same rank.
    pub open spec fn le(&self, other: &Rank) -> bool {
        self.number < other.number || (self.number == other.number && lex_le(
            self.text,
            other.text,
        ))
    }
}

/// What items are sorted by: a rank as the program holds it.
#[derive(Debug, Clone)]
pub struct SortKey {
    pub number: i128,
    pub text: Vec<char>,
}

impl SortKey {
    /// The rank that the key stands for.
    pub open spec fn rank(&self) -> Rank {
        Rank { number: self.number as int, text: self.text@ }
    }

    /// A key that is its number alone.
    pub fn of_number(number: i128) -> (r: SortKey)
        ensures
            r.rank() == (Rank { number: number as int, text: Seq::empty() }),
    {
        SortKey { number, text: Vec::new() }
    }

    /// A key that is its text alone.
    pub fn of_text(text: Vec<char>) -> (r: SortKey)
        ensures
            r.rank() == (Rank { number: 0, text: text@ }),
    {
        SortKey { number: 0, text }
    }

    /// Whether `self` comes before `other` or has the same rank.
    pub fn precedes(&self, other: &SortKey) -> (r: bool)
        ensures
            r == self.rank().le(&other.rank()),
    {
        if self.number < other.number {
            true
        } else if self.number == other.number {
            chars_le(&self.text, &other.text)
        } else {
            false
        }
    }
}

/// Of two keys one comes before the other or has the same rank.
pub proof fn lemma_key_le_total(a: Rank, b: Rank)
    ensures
        a.le(&b) || b.le(&a),
{
    lemma_lex_le_total(a.text, b.text);
}

/// The order of keys is transitive.
pub proof fn lemma_key_le_transitive(a: Rank, b: Rank, c: Rank)
    requires
        a.le(&b),
        b.le(&c),
    ensures
        a.le(&c),
{
    if a.number == b.number && b.number == c.number {
        lemma_lex_le_transitive(a.text, b.text, c.text);
    }
}

/// Where the item at position `x` goes into the sorted positions `t`:
/// before the items at the end of `t` that it comes before or ranks
/// with.
pub open spec fn insert_pos(keys: Seq<Rank>, x: int, t: Seq<usize>) -> int
    decreases t.len(),
{
    if t.len() == 0 {
        0
    } else if keys[x].le(&keys[t.last() as int]) {
        insert_pos(keys, x, t.drop_last())
    } else {
        t.len() as int
    }
}

/// The positions `k..keys.len()` in the order of their keys.
pub open spec fn sorted_from(keys: Seq<Rank>, k: nat) -> Seq<usize>
    decreases keys.len() - k,
{
    if k >= keys.len() {
        Seq::empty()
    } else {
        let t = sorted_from(keys, k + 1);
        t.insert(insert_pos(keys, k as int, t), k as usize)
    }
}

/// The order in which to take the items with the given keys: sorted by
/// key, items of the same rank in the order they came in.
pub open spec fn sort_order(keys: Seq<Rank>) -> Seq<usize> {
    sorted_from(keys, 0)
}

/// The ranks that the keys stand for.
pub open spec fn ranks(keys: Seq<SortKey>) -> Seq<Rank> {
    Seq::new(keys.len(), |i: int| keys[i].rank())
}

/// A way to rank records for sorting.
pub trait Ranked<T> {
    /// The rank of `item`.
    spec fn rank_of(&self, item: &T) -> Rank;

    /// The key that stands for the rank of `item`.
    fn key(&self, item: &T) -> (r: SortKey)
        ensures
            r.rank() == self.rank_of(item),
    ;
}

/// The ranks of the items under `k`.
pub open spec fn ranks_under<T, K: Ranked<T>>(items: Seq<T>, k: K) -> Seq<Rank> {
    Seq::new(items.len(), |i: int| k.rank_of(&items[i]))
}

/// The items sorted by their rank under `k`; items of the same rank
/// keep their order.
pub open spec fn sorted_by<T, K: Ranked<T>>(items: Seq<T>, k: K) -> Seq<T> {
    arranged(items, sort_order(ranks_under(items, k)))
}

/// The items taken in the given order.
pub open spec fn arranged<T>(items: Seq<T>, order: Seq<usize>) -> Seq<T> {
    Seq::new(order.len(), |i: int| items[order[i] as int])
}

/// Where an item is put among sorted positions: its key comes before
/// the keys of all positions behind it or is of their rank, and not
/// before the key of the position in front of it.
pub proof fn lemma_insert_pos_bounds(keys: Seq<Rank>, x: int, t: Seq<usize>)
    ensures
        0 <= insert_pos(keys, x, t) <= t.len(),
        forall|j: int|
            insert_pos(keys, x, t) <= j < t.len() ==> keys[x].le(&keys[#[trigger] t[j] as int]),
        insert_pos(keys, x, t) > 0 ==> !keys[x].le(&keys[t[insert_pos(keys, x, t) - 1] as int]),
    decreases t.len(),
{
    if t.len() > 0 && keys[x].le(&keys[t.last() as int]) {
        let u = t.drop_last();
        lemma_insert_pos_bounds(keys, x, u);
        assert forall|j: int| insert_pos(keys, x, t) <= j < t.len() implies keys[x].le(
            &keys[#[trigger] t[j] as int],
        ) by {
            if j < u.len() {
                assert(u[j] == t[j]);
            }
        }
        if insert_pos(keys, x, t) > 0 {
            assert(u[insert_pos(keys, x, u) - 1] == t[insert_pos(keys, x, t) - 1]);
        }
    }
}

/// Whether `p` holds each of the positions `k..n` exactly once.
pub open spec fn is_arrangement(p: Seq<usize>, k: nat, n: nat) -> bool {
    &&& p.len() == n - k
    &&& forall|i: int| 0 <= i < p.len() ==> k <= #[trigger] p[i] < n
    &&& forall|i: int, j: int| #![trigger p[i], p[j]] 0 <= i < j < p.len() ==> p[i] != p[j]
    &&& forall|x: usize| k <= x < n ==> #[trigger] p.contains(x)
}

/// Whether the positions `p` are in the order of their keys, positions
/// with keys of the same rank ascending.
pub open spec fn is_sorted(keys: Seq<Rank>, p: Seq<usize>) -> bool {
    forall|i: int, j: int|
        #![trigger p[i], p[j]]
        0 <= i < j < p.len() ==> {
            &&& keys[p[i] as int].le(&keys[p[j] as int])
            &&& keys[p[j] as int].le(&keys[p[i] as int]) ==> p[i] < p[j]
        }
}

/// `sorted_from` holds each position from `k` on once, in the order of
/// the keys.
pub proof fn lemma_sorted_from(keys: Seq<Rank>, k: nat)
    requires
        k <= keys.len(),
        keys.len() <= usize::MAX,
    ensures
        is_arrangement(sorted_from(keys, k), k, keys.len()),
        is_sorted(keys, sorted_from(keys, k)),
    decreases keys.len() - k,
{
    let n = keys.len();
    if k < n {
        let t = sorted_from(keys, k + 1);
        lemma_sorted_from(keys, k + 1);
        let pos = insert_pos(keys, k as int, t);
        lemma_insert_pos_bounds(keys, k as int, t);
        let p = t.insert(pos, k as usize);
        assert(p == sorted_from(keys, k));
        assert(p.len() == n - k);
        assert forall|i: int| 0 <= i < p.len() implies k <= #[trigger] p[i] < n by {
            if i < pos {
                assert(p[i] == t[i]);
            } else if i > pos {
                assert(p[i] == t[i - 1]);
            }
        }
        assert forall|i: int, j: int| #![trigger p[i], p[j]] 0 <= i < j < p.len() implies p[i]
            != p[j] by {
            let a = if i < pos {
                i
            } else {
                i - 1
            };
            let b = if j < pos {
                j
            } else {
                j - 1
            };
            if i != pos && j != pos {
                assert(p[i] == t[a] && p[j] == t[b]);
            } else if i == pos {
                assert(p[j] == t[b]);
            } else {
                assert(p[i] == t[a]);
            }
        }
        assert forall|x: usize| k <= x < n implies #[trigger] p.contains(x) by {
            if x == k {
                assert(p[pos] == x);
            } else {
                assert(t.contains(x));
                let i0 = choose|i: int| 0 <= i < t.len() && t[i] == x;
                if i0 < pos {
                    assert(p[i0] == x);
                } else {
                    assert(p[i0 + 1] == x);
                }
            }
        }
        assert forall|i: int, j: int| #![trigger p[i], p[j]] 0 <= i < j < p.len() implies {
            &&& keys[p[i] as int].le(&keys[p[j] as int])
            &&& keys[p[j] as int].le(&keys[p[i] as int]) ==> p[i] < p[j]
        } by {
            let a = if i < pos {
                i
            } else {
                i - 1
            };
            let b = if j < pos {
                j
            } else {
                j - 1
            };
            if i != pos && j != pos {
                assert(p[i] == t[a] && p[j] == t[b]);
                assert(keys[t[a] as int].le(&keys[t[b] as int]));
            } else if i == pos {
                assert(p[j] == t[b]);
                assert(p[i] == k);
                assert(keys[k as int].le(&keys[t[b] as int]));
            } else {
                // j == pos: the item before position `pos` ranks strictly first
                assert(p[i] == t[a]);
                assert(p[j] == k);
                let last = t[pos - 1] as int;
                assert(!keys[k as int].le(&keys[last]));
                lemma_key_le_total(keys[k as int], keys[last]);
                if a < pos - 1 {
                    assert(keys[t[a] as int].le(&keys[t[pos - 1] as int]));
                    lemma_key_le_transitive(keys[t[a] as int], keys[last], keys[k as int]);
                    if keys[k as int].le(&keys[t[a] as int]) {
                        lemma_key_le_transitive(keys[k as int], keys[t[a] as int], keys[last]);
                    }
                }
            }
        }
    }
}

/// The order that sorting gives holds each position once, and the keys
/// along it never descend; positions with keys of the same rank ascend.
pub proof fn lemma_sort_order(keys: Seq<Rank>)
    requires
        keys.len() <= usize::MAX,
    ensures
        is_arrangement(sort_order(keys), 0, keys.len()),
        is_sorted(keys, sort_order(keys)),
{
    lemma_sorted_from(keys, 0);
}

/// The order in which to take the items with the given keys: sorted by
/// key, items of the same rank in the order they came in.
pub fn sort_order_of(keys: &Vec<SortKey>) -> (order: Vec<usize>)
    ensures
        order@ == sort_order(ranks(keys@)),
        order@.len() == keys@.len(),
        forall|i: int| 0 <= i < order@.len() ==> #[trigger] order@[i] < keys@.len(),
{
    let n = keys.len();
    let mut order: Vec<usize> = Vec::new();
    let mut k: usize = n;
    while k > 0
        invariant
            k <= n,
            n == keys@.len(),
            order@ == sorted_from(ranks(keys@), k as nat),
            order@.len() == n - k,
            forall|i: int| 0 <= i < order@.len() ==> #[trigger] order@[i] < n,
        decreases k,
    {
        k -= 1;
        let mut p: usize = order.len();
        proof {
            assert(order@.take(p as int) =~= order@);
        }
        while p > 0 && keys[k].precedes(&keys[order[p - 1]])
            invariant
                p <= order@.len(),
                k < n,
                n == keys@.len(),
                forall|i: int| 0 <= i < order@.len() ==> #[trigger] order@[i] < n,
                insert_pos(ranks(keys@), k as int, order@) == insert_pos(
                    ranks(keys@),
                    k as int,
                    order@.take(p as int),
                ),
            decreases p,
        {
            proof {
                let t = order@.take(p as int);
                assert(t.last() == order@[p - 1]);
                assert(t.drop_last() =~= order@.take(p - 1));
            }
            p -= 1;
        }
        proof {
            let t = order@.take(p as int);
            if p > 0 {
                assert(t.last() == order@[p - 1]);
            }
            assert(insert_pos(ranks(keys@), k as int, t) == p);
        }
        let ghost before = order@;
        order.insert(p, k);
        proof {
            assert(order@ == before.insert(p as int, k));
            assert forall|i: int| 0 <= i < order@.len() implies #[trigger] order@[i] < n by {
                if i < p {
                    assert(order@[i] == before[i]);
                } else if i > p {
                    assert(order@[i] == before[i - 1]);
                }
            }
        }
    }
    order
}

/// Sorting keeps the number of items, and the ranks of the sorted
/// items never descend.
pub proof fn lemma_sorted_by<T, K: Ranked<T>>(items: Seq<T>, k: K)
    requires
        items.len() <= usize::MAX,
    ensures
        sorted_by(items, k).len() == items.len(),
        is_arrangement(sort_order(ranks_under(items, k)), 0, items.len()),
        forall|i: int, j: int|
            #![trigger sorted_by(items, k)[i], sorted_by(items, k)[j]]
            0 <= i < j < items.len() ==> k.rank_of(&sorted_by(items, k)[i]).le(
                &k.rank_of(&sorted_by(items, k)[j]),
            ),
{
    let r = ranks_under(items, k);
    lemma_sort_order(r);
    let p = sort_order(r);
    assert forall|i: int, j: int|
        #![trigger sorted_by(items, k)[i], sorted_by(items, k)[j]]
        0 <= i < j < items.len() implies k.rank_of(&sorted_by(items, k)[i]).le(
        &k.rank_of(&sorted_by(items, k)[j]),
    ) by {
        assert(r[p[i] as int].le(&r[p[j] as int]));
    }
}

/// Copies of the items, sorted by their rank under `k`; items of the
/// same rank keep their order.
pub fn sorted_copy<T: Duplicate, K: Ranked<T>>(items: &Vec<T>, k: &K) -> (r: Vec<T>)
    ensures
        r@ == sorted_by(items@, *k),
{
    let mut keys: Vec<SortKey> = Vec::new();
    let mut i: usize = 0;
    while i < items.len()
        invariant
            i <= items.len(),
            keys@.len() == i,
            forall|j: int| 0 <= j < i ==> (#[trigger] keys@[j]).rank() == k.rank_of(&items@[j]),
        decreases items.len() - i,
    {
        keys.push(k.key(&items[i]));
        i += 1;
    }
    proof {
        assert(ranks(keys@) =~= ranks_under(items@, *k));
    }
    let order = sort_order_of(&keys);
    let mut out: Vec<T> = Vec::new();
    let mut n: usize = 0;
    while n < order.len()
        invariant
            n <= order.len(),
            order@.len() == items@.len(),
            forall|j: int| 0 <= j < order@.len() ==> #[trigger] order@[j] < items@.len(),
            out@ == arranged(items@, order@).take(n as int),
        decreases order.len() - n,
    {
        out.push(items[order[n]].duplicate());
        proof {
            assert(out@ =~= arranged(items@, order@).take(n + 1));
        }
        n += 1;
    }
    proof {
        assert(out@ =~= arranged(items@, order@));
    }
    out
}

} // verus!
