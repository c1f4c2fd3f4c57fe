//! Selecting, counting and summing over the records of a document.

use vstd::prelude::*;

verus! {

/// A criterion by which records are selected.
pub trait Pick<T> {
    /// Whether the criterion selects `item`.
    spec fn picks(&self, item: &T) -> bool;

    /// Whether the criterion selects `item`.
    fn accepts(&self, item: &T) -> (r: bool)
        ensures
            r == self.picks(item),
    ;
}

/// An amount that is read off a record.
pub trait Measure<T> {
    /// The amount that `item` holds.
    spec fn amount(&self, item: &T) -> nat;

    /// The amount that `item` holds.
    fn read(&self, item: &T) -> (r: u64)
        ensures
            r == self.amount(item),
    ;
}

/// A way to turn a record into another, or to drop it.
pub trait Project<T, U> {
    /// What `item` turns into, if anything.
    spec fn image(&self, item: &T) -> Option<U>;

    /// What `item` turns into, if anything.
    fn apply(&self, item: &T) -> (r: Option<U>)
        ensures
            r == self.image(item),
    ;
}

/// Records that can be copied.
pub trait Duplicate: Sized {
    /// A copy of the record.
    fn duplicate(&self) -> (r: Self)
        ensures
            r == *self,
    ;
}

/// The projecting function of a projection.
pub open spec fn projector<T, U, J: Project<T, U>>(j: J) -> spec_fn(T) -> Option<U> {
    |x: T| j.image(&x)
}

/// What the records turn into, in their order, without those dropped.
pub open spec fn projected<T, U, J: Project<T, U>>(items: Seq<T>, j: J) -> Seq<U> {
    items.filter_map(projector(j))
}

/// The selecting function of a criterion.
pub open spec fn picker<T, P: Pick<T>>(p: P) -> spec_fn(T) -> bool {
    |x: T| p.picks(&x)
}

/// The records that `p` selects, in their order.
pub open spec fn picked<T, P: Pick<T>>(items: Seq<T>, p: P) -> Seq<T> {
    items.filter(picker(p))
}

/// The sum of the amounts of all records.
pub open spec fn total<T, M: Measure<T>>(items: Seq<T>, m: M) -> nat
    decreases items.len(),
{
    if items.len() == 0 {
        0
    } else {
        total(items.drop_last(), m) + m.amount(&items.last())
    }
}

/// A number held to what 64 bits can hold.
pub open spec fn capped(n: nat) -> u64 {
    if n > u64::MAX {
        u64::MAX
    } else {
        n as u64
    }
}

/// Selecting from one record more: the record joins the selection if
/// the criterion selects it.
pub proof fn lemma_picked_step<T, P: Pick<T>>(items: Seq<T>, p: P, i: int)
    requires
        0 <= i < items.len(),
    ensures
        picked(items.take(i + 1), p) == if p.picks(&items[i]) {
            picked(items.take(i), p).push(items[i])
        } else {
            picked(items.take(i), p)
        },
{
    reveal(Seq::filter);
    let s = items.take(i + 1);
    assert(s.drop_last() =~= items.take(i));
    assert(s.last() == items[i]);
}

/// Two selecting functions that agree on every record select the same.
pub proof fn lemma_filter_same<T>(s: Seq<T>, p: spec_fn(T) -> bool, q: spec_fn(T) -> bool)
    requires
        forall|x: T| #[trigger] p(x) == q(x),
    ensures
        s.filter(p) == s.filter(q),
    decreases s.len(),
{
    reveal(Seq::filter);
    if s.len() > 0 {
        lemma_filter_same(s.drop_last(), p, q);
    }
}

/// One record more adds its amount to the total.
pub proof fn lemma_total_push<T, M: Measure<T>>(items: Seq<T>, m: M, x: T)
    ensures
        total(items.push(x), m) == total(items, m) + m.amount(&x),
{
    assert(items.push(x).drop_last() =~= items);
}

/// Where no record meets both of two criteria, the records that meet
/// either are as many as those that meet the one and those that meet
/// the other, and so are their amounts.
pub proof fn lemma_filter_split<T, M: Measure<T>>(
    s: Seq<T>,
    m: M,
    p: spec_fn(T) -> bool,
    q: spec_fn(T) -> bool,
    either: spec_fn(T) -> bool,
)
    requires
        forall|i: int|
            0 <= i < s.len() ==> (either(#[trigger] s[i]) == (p(s[i]) || q(s[i]))) && !(p(s[i])
                && q(s[i])),
    ensures
        s.filter(either).len() == s.filter(p).len() + s.filter(q).len(),
        total(s.filter(either), m) == total(s.filter(p), m) + total(s.filter(q), m),
    decreases s.len(),
{
    reveal(Seq::filter);
    if s.len() > 0 {
        let rest = s.drop_last();
        let x = s.last();
        assert forall|i: int| 0 <= i < rest.len() implies (either(#[trigger] rest[i]) == (p(
            rest[i],
        ) || q(rest[i]))) && !(p(rest[i]) && q(rest[i])) by {
            assert(rest[i] == s[i]);
        }
        lemma_filter_split(rest, m, p, q, either);
        assert(x == s[s.len() - 1]);
        lemma_total_push(rest.filter(either), m, x);
        lemma_total_push(rest.filter(p), m, x);
        lemma_total_push(rest.filter(q), m, x);
    }
}

/// Leaving out records without an amount leaves the total as it is.
pub proof fn lemma_total_kept<T, M: Measure<T>>(s: Seq<T>, m: M, p: spec_fn(T) -> bool)
    requires
        forall|i: int| 0 <= i < s.len() && !p(#[trigger] s[i]) ==> m.amount(&s[i]) == 0,
    ensures
        total(s.filter(p), m) == total(s, m),
    decreases s.len(),
{
    reveal(Seq::filter);
    if s.len() > 0 {
        let rest = s.drop_last();
        let x = s.last();
        assert forall|i: int| 0 <= i < rest.len() && !p(#[trigger] rest[i]) implies m.amount(
            &rest[i],
        ) == 0 by {
            assert(rest[i] == s[i]);
        }
        lemma_total_kept(rest, m, p);
        assert(x == s[s.len() - 1]);
        lemma_total_push(rest.filter(p), m, x);
    }
}

/// How many records `p` selects.
pub fn count_picked<T, P: Pick<T>>(items: &Vec<T>, p: &P) -> (r: usize)
    ensures
        r == picked(items@, *p).len(),
{
    let mut n: usize = 0;
    let mut i: usize = 0;
    proof {
        reveal(Seq::filter);
        assert(items@.take(0) =~= Seq::<T>::empty());
    }
    while i < items.len()
        invariant
            i <= items.len(),
            n == picked(items@.take(i as int), *p).len(),
            n <= i,
        decreases items.len() - i,
    {
        proof {
            lemma_picked_step(items@, *p, i as int);
        }
        if p.accepts(&items[i]) {
            n += 1;
        }
        i += 1;
    }
    proof {
        assert(items@.take(i as int) =~= items@);
    }
    n
}

/// The positions of the records that `p` selects, ascending.
pub fn positions_picked<T, P: Pick<T>>(items: &Vec<T>, p: &P) -> (r: Vec<usize>)
    ensures
        r@.len() == picked(items@, *p).len(),
        forall|k: int| 0 <= k < r@.len() ==> #[trigger] r@[k] < items@.len(),
        forall|k: int|
            0 <= k < r@.len() ==> items@[#[trigger] r@[k] as int] == picked(items@, *p)[k],
        forall|j: int, k: int| 0 <= j < k < r@.len() ==> r@[j] < r@[k],
{
    let mut out: Vec<usize> = Vec::new();
    let mut i: usize = 0;
    proof {
        reveal(Seq::filter);
        assert(items@.take(0) =~= Seq::<T>::empty());
    }
    while i < items.len()
        invariant
            i <= items.len(),
            out@.len() == picked(items@.take(i as int), *p).len(),
            forall|k: int| 0 <= k < out@.len() ==> #[trigger] out@[k] < i,
            forall|k: int|
                0 <= k < out@.len() ==> items@[#[trigger] out@[k] as int] == picked(
                    items@.take(i as int),
                    *p,
                )[k],
            forall|j: int, k: int| 0 <= j < k < out@.len() ==> out@[j] < out@[k],
        decreases items.len() - i,
    {
        proof {
            lemma_picked_step(items@, *p, i as int);
        }
        if p.accepts(&items[i]) {
            out.push(i);
        }
        i += 1;
    }
    proof {
        assert(items@.take(i as int) =~= items@);
    }
    out
}

/// The sum of the amounts of the records that `p` selects, held to
/// what 64 bits can hold.
pub fn total_picked<T, P: Pick<T>, M: Measure<T>>(items: &Vec<T>, p: &P, m: &M) -> (r: u64)
    ensures
        r == capped(total(picked(items@, *p), *m)),
{
    let mut sum: u64 = 0;
    let mut i: usize = 0;
    proof {
        reveal(Seq::filter);
        assert(items@.take(0) =~= Seq::<T>::empty());
    }
    while i < items.len()
        invariant
            i <= items.len(),
            sum == capped(total(picked(items@.take(i as int), *p), *m)),
        decreases items.len() - i,
    {
        proof {
            lemma_picked_step(items@, *p, i as int);
            lemma_total_push(picked(items@.take(i as int), *p), *m, items@[i as int]);
        }
        if p.accepts(&items[i]) {
            sum = sum.saturating_add(m.read(&items[i]));
        }
        i += 1;
    }
    proof {
        assert(items@.take(i as int) =~= items@);
    }
    sum
}

/// The last record that `p` selects, if it selects any.
pub open spec fn last_picked<T, P: Pick<T>>(items: Seq<T>, p: P) -> Option<T> {
    if picked(items, p).len() == 0 {
        None
    } else {
        Some(picked(items, p).last())
    }
}

/// The position of the last record that `p` selects, if it selects any.
pub fn last_position<T, P: Pick<T>>(items: &Vec<T>, p: &P) -> (r: Option<usize>)
    ensures
        r is Some <==> picked(items@, *p).len() > 0,
        r matches Some(i) ==> i < items@.len() && p.picks(&items@[i as int]) && last_picked(
            items@,
            *p,
        ) == Some(items@[i as int]),
{
    let mut found: Option<usize> = None;
    let mut i: usize = 0;
    proof {
        reveal(Seq::filter);
        assert(items@.take(0) =~= Seq::<T>::empty());
    }
    while i < items.len()
        invariant
            i <= items.len(),
            found is Some <==> picked(items@.take(i as int), *p).len() > 0,
            found matches Some(k) ==> k < i && p.picks(&items@[k as int]) && picked(
                items@.take(i as int),
                *p,
            ).last() == items@[k as int],
        decreases items.len() - i,
    {
        proof {
            lemma_picked_step(items@, *p, i as int);
        }
        if p.accepts(&items[i]) {
            found = Some(i);
        }
        i += 1;
    }
    proof {
        assert(items@.take(i as int) =~= items@);
    }
    found
}

/// The first record that `p` selects, if it selects any.
pub open spec fn first_picked<T, P: Pick<T>>(items: Seq<T>, p: P) -> Option<T> {
    if picked(items, p).len() == 0 {
        None
    } else {
        Some(picked(items, p).first())
    }
}

/// The position of the first record that `p` selects, if it selects any.
pub fn first_position<T, P: Pick<T>>(items: &Vec<T>, p: &P) -> (r: Option<usize>)
    ensures
        r is Some <==> picked(items@, *p).len() > 0,
        r matches Some(i) ==> i < items@.len() && p.picks(&items@[i as int]) && first_picked(
            items@,
            *p,
        ) == Some(items@[i as int]),
{
    let mut found: Option<usize> = None;
    let mut i: usize = 0;
    proof {
        reveal(Seq::filter);
        assert(items@.take(0) =~= Seq::<T>::empty());
    }
    while i < items.len()
        invariant
            i <= items.len(),
            found is Some <==> picked(items@.take(i as int), *p).len() > 0,
            found matches Some(k) ==> k < i && p.picks(&items@[k as int]) && picked(
                items@.take(i as int),
                *p,
            ).first() == items@[k as int],
        decreases items.len() - i,
    {
        proof {
            lemma_picked_step(items@, *p, i as int);
        }
        if found.is_none() && p.accepts(&items[i]) {
            found = Some(i);
        }
        i += 1;
    }
    proof {
        assert(items@.take(i as int) =~= items@);
    }
    found
}

/// A projection yields no more records than it is given.
pub proof fn lemma_projected_len<T, U, J: Project<T, U>>(items: Seq<T>, j: J)
    ensures
        projected(items, j).len() <= items.len(),
    decreases items.len(),
{
    if items.len() > 0 {
        lemma_projected_len(items.drop_last(), j);
    }
}

/// Each record that a projection yields is the image of a record.
pub proof fn lemma_projected_origin<T, U, J: Project<T, U>>(items: Seq<T>, j: J, k: int)
    requires
        0 <= k < projected(items, j).len(),
    ensures
        exists|i: int| 0 <= i < items.len() && j.image(&#[trigger] items[i]) == Some(
            projected(items, j)[k],
        ),
    decreases items.len(),
{
    if items.len() > 0 {
        let rest = items.drop_last();
        let before = projected(rest, j);
        if k < before.len() {
            lemma_projected_origin(rest, j, k);
            let i = choose|i: int| 0 <= i < rest.len() && j.image(&#[trigger] rest[i]) == Some(
                before[k],
            );
            assert(items[i] == rest[i]);
        } else {
            assert(j.image(&items[items.len() - 1]) == Some(projected(items, j)[k]));
        }
    }
}

/// The keys without repetition, each at the place of its first
/// occurrence.
pub open spec fn distinct<K>(keys: Seq<K>) -> Seq<K>
    decreases keys.len(),
{
    if keys.len() == 0 {
        Seq::empty()
    } else {
        let d = distinct(keys.drop_last());
        if d.contains(keys.last()) {
            d
        } else {
            d.push(keys.last())
        }
    }
}

/// `distinct` holds every key, and none twice.
pub proof fn lemma_distinct<K>(keys: Seq<K>)
    ensures
        distinct(keys).no_duplicates(),
        forall|k: K| keys.contains(k) <==> distinct(keys).contains(k),
        distinct(keys).len() <= keys.len(),
    decreases keys.len(),
{
    if keys.len() > 0 {
        let rest = keys.drop_last();
        let last = keys.last();
        let d = distinct(rest);
        let dk = distinct(keys);
        lemma_distinct(rest);
        assert(dk == if d.contains(last) {
            d
        } else {
            d.push(last)
        });
        assert forall|k: K| keys.contains(k) implies dk.contains(k) by {
            let i = choose|i: int| 0 <= i < keys.len() && keys[i] == k;
            if i < rest.len() {
                assert(rest[i] == k);
                assert(rest.contains(k));
                assert(d.contains(k));
                let j = choose|j: int| 0 <= j < d.len() && d[j] == k;
                assert(dk[j] == k);
            } else {
                assert(k == last);
                if !d.contains(last) {
                    assert(dk[d.len() as int] == k);
                }
            }
        }
        assert forall|k: K| dk.contains(k) implies keys.contains(k) by {
            let j = choose|j: int| 0 <= j < dk.len() && dk[j] == k;
            if j < d.len() {
                assert(d[j] == k);
                assert(d.contains(k));
                assert(rest.contains(k));
                let i = choose|i: int| 0 <= i < rest.len() && rest[i] == k;
                assert(keys[i] == k);
            } else {
                assert(keys[keys.len() - 1] == k);
            }
        }
    }
}

/// Copies of the records that `p` selects, in their order.
pub fn select<T: Duplicate, P: Pick<T>>(items: &Vec<T>, p: &P) -> (r: Vec<T>)
    ensures
        r@ == picked(items@, *p),
{
    let mut out: Vec<T> = Vec::new();
    let mut i: usize = 0;
    proof {
        reveal(Seq::filter);
        assert(items@.take(0) =~= Seq::<T>::empty());
    }
    while i < items.len()
        invariant
            i <= items.len(),
            out@ == picked(items@.take(i as int), *p),
        decreases items.len() - i,
    {
        proof {
            lemma_picked_step(items@, *p, i as int);
        }
        if p.accepts(&items[i]) {
            out.push(items[i].duplicate());
        }
        i += 1;
    }
    proof {
        assert(items@.take(i as int) =~= items@);
    }
    out
}

/// What the records turn into under `j`, in their order.
pub fn project_all<T, U, J: Project<T, U>>(items: &Vec<T>, j: &J) -> (r: Vec<U>)
    ensures
        r@ == projected(items@, *j),
{
    let mut out: Vec<U> = Vec::new();
    let mut i: usize = 0;
    proof {
        assert(items@.take(0) =~= Seq::<T>::empty());
    }
    while i < items.len()
        invariant
            i <= items.len(),
            out@ == projected(items@.take(i as int), *j),
        decreases items.len() - i,
    {
        proof {
            let s = items@.take(i + 1);
            assert(s.drop_last() =~= items@.take(i as int));
            assert(s.last() == items@[i as int]);
        }
        match j.apply(&items[i]) {
            Some(u) => {
                out.push(u);
            },
            None => {},
        }
        i += 1;
    }
    proof {
        assert(items@.take(i as int) =~= items@);
    }
    out
}

} // verus!
