//! Random picks and shuffles.
//!
//! The random numbers come from the `rand` crate. Nothing is claimed about
//! which number comes out, only that it lies in the range asked for, so what
//! is proved of a pick or a shuffle holds whatever was drawn.

use std::collections::VecDeque;
use vstd::prelude::*;

verus! {

/// `rand::random_range` on the range `0..below`: some number under `below`.
/// The range may not be empty.
#[verifier::external_body]
pub(crate) fn rng(below: usize) -> (n: usize)
    requires
        below > 0,
    ensures
        n < below,
{
    rand::random_range(0..below)
}

/// A collection that hands out one of its items at random.
pub trait Pick<T> {
    /// The items, in order.
    spec fn items(&self) -> Seq<T>;

    /// One of the items. There has to be one.
    fn pick(&self) -> (item: &T)
        requires
            self.items().len() > 0,
        ensures
            self.items().contains(*item),
    ;

    /// One of the items, to be changed in place. There has to be one. The
    /// other items stay as they are.
    fn pick_mut(&mut self) -> (item: &mut T)
        requires
            old(self).items().len() > 0,
        ensures
            old(self).items().contains(*item),
            exists|i: int|
                0 <= i < old(self).items().len() && old(self).items()[i] == *item && final(self).items()
                    == #[trigger] old(self).items().update(i, *final(item)),
    ;
}

/// `VecDeque`'s `index_mut`: the item at place `i`, to be changed in place.
/// The place has to exist. The other items stay as they are.
#[verifier::external_body]
fn deque_index_mut<T>(v: &mut VecDeque<T>, i: usize) -> (item: &mut T)
    requires
        i < old(v)@.len(),
    ensures
        *item == old(v)@[i as int],
        final(v)@ == old(v)@.update(i as int, *final(item)),
{
    &mut v[i]
}

impl<T> Pick<T> for Vec<T> {
    open spec fn items(&self) -> Seq<T> {
        self@
    }

    fn pick(&self) -> (item: &T) {
        let i = rng(self.len());
        &self[i]
    }

    fn pick_mut(&mut self) -> (item: &mut T) {
        let idx = rng(self.len());
        assert(self@.contains(self@[idx as int]));
        &mut self[idx]
    }
}

impl<T> Pick<T> for VecDeque<T> {
    open spec fn items(&self) -> Seq<T> {
        self@
    }

    fn pick(&self) -> (item: &T) {
        let i = rng(self.len());
        assert(self@.contains(self@[i as int]));
        &self[i]
    }

    fn pick_mut(&mut self) -> (item: &mut T) {
        let idx = rng(self.len());
        assert(self@.contains(self@[idx as int]));
        deque_index_mut(self, idx)
    }
}

/// A collection that can be put in random order.
pub trait Shuffle<T> {
    /// The items, in order.
    spec fn order(&self) -> Seq<T>;

    /// Puts the items in random order. From the first place to the last,
    /// the item at each place changes places with the item at a place drawn
    /// at random among all places, so the items are the same, each as often
    /// as before.
    fn shuffle(&mut self)
        ensures
            exists|picks: Seq<usize>|
                valid_picks(picks, old(self).order().len()) && final(self).order()
                    == #[trigger] arranged(old(self).order(), picks),
            final(self).order().to_multiset() == old(self).order().to_multiset(),
            final(self).order().len() == old(self).order().len(),
    ;
}

/// `s` with the items at places `i` and `j` exchanged.
pub open spec fn swapped<T>(s: Seq<T>, i: int, j: int) -> Seq<T> {
    s.update(i, s[j]).update(j, s[i])
}

/// There is one pick for each of `len` items, and each pick is a place among
/// them.
pub open spec fn valid_picks(picks: Seq<usize>, len: nat) -> bool {
    &&& picks.len() == len
    &&& forall|i: int| 0 <= i < picks.len() ==> #[trigger] picks[i] < len
}

/// The place that the item at place `i` changes places with: the pick for
/// `i`, or `i` itself where there is no pick for it among `len` items.
pub open spec fn pick_at(picks: Seq<usize>, i: int, len: nat) -> int {
    if 0 <= i < picks.len() && picks[i] < len {
        picks[i] as int
    } else {
        i
    }
}

/// Exchanges the items at places `i` and `j` of a vector.
fn swap_in_vec<T>(v: &mut Vec<T>, i: usize, j: usize)
    requires
        i < old(v)@.len(),
        j < old(v)@.len(),
    ensures
        final(v)@ == swapped(old(v)@, i as int, j as int),
{
    if i == j {
        assert(v@ =~= swapped(v@, i as int, j as int));
        return ;
    }
    let lo = if i < j { i } else { j };
    let hi = if i < j { j } else { i };
    let ghost before = v@;
    let upper = v.remove(hi);
    let lower = v.remove(lo);
    v.insert(lo, upper);
    v.insert(hi, lower);
    assert(v@ =~= swapped(before, i as int, j as int));
}

/// Exchanges the items at places `i` and `j` of a deque.
fn swap_in_deque<T>(v: &mut VecDeque<T>, i: usize, j: usize)
    requires
        i < old(v)@.len(),
        j < old(v)@.len(),
    ensures
        final(v)@ == swapped(old(v)@, i as int, j as int),
{
    if i == j {
        assert(v@ =~= swapped(v@, i as int, j as int));
        return ;
    }
    let lo = if i < j { i } else { j };
    let hi = if i < j { j } else { i };
    let ghost before = v@;
    let upper = v.remove(hi);
    let lower = v.remove(lo);
    match (upper, lower) {
        (Some(upper), Some(lower)) => {
            v.insert(lo, upper);
            v.insert(hi, lower);
            assert(v@ =~= swapped(before, i as int, j as int));
        },
        _ => {
            assert(false);
        },
    }
}

impl<T> Shuffle<T> for Vec<T> {
    open spec fn order(&self) -> Seq<T> {
        self@
    }

    fn shuffle(&mut self) {
        let ghost mut picks: Seq<usize> = Seq::empty();
        let mut i: usize = 0;
        while i < self.len()
            invariant
                shuffling(self@, old(self)@, picks, i as int),
            decreases self.len() - i,
        {
            let j = rng(self.len());
            proof {
                lemma_shuffling_step(self@, old(self)@, picks, i as int, j);
                picks = picks.push(j);
            }
            swap_in_vec(self, i, j);
            i += 1;
        }
        proof { lemma_shuffled(self.order(), old(self).order(), picks); }
    }
}

impl<T> Shuffle<T> for VecDeque<T> {
    open spec fn order(&self) -> Seq<T> {
        self@
    }

    fn shuffle(&mut self) {
        let ghost mut picks: Seq<usize> = Seq::empty();
        let mut i: usize = 0;
        while i < self.len()
            invariant
                shuffling(self@, old(self)@, picks, i as int),
            decreases self.len() - i,
        {
            let j = rng(self.len());
            proof {
                lemma_shuffling_step(self@, old(self)@, picks, i as int, j);
                picks = picks.push(j);
            }
            swap_in_deque(self, i, j);
            i += 1;
        }
        proof { lemma_shuffled(self.order(), old(self).order(), picks); }
    }
}

/// `s` after its first `steps` exchanges: from the first place on, the item
/// at each place has changed places with the item at its pick.
pub open spec fn exchanged<T>(s: Seq<T>, picks: Seq<usize>, steps: int) -> Seq<T>
    decreases steps,
{
    if steps <= 0 {
        s
    } else {
        swapped(exchanged(s, picks, steps - 1), steps - 1, pick_at(picks, steps - 1, s.len()))
    }
}

/// `s` after every item, from the first place to the last, has changed
/// places with the item at its pick.
pub open spec fn arranged<T>(s: Seq<T>, picks: Seq<usize>) -> Seq<T> {
    exchanged(s, picks, s.len() as int)
}

/// A shuffle of `start` has come `i` places far with the picks drawn so far,
/// and `now` is what it has made of the items.
pub open spec fn shuffling<T>(now: Seq<T>, start: Seq<T>, picks: Seq<usize>, i: int) -> bool {
    &&& 0 <= i <= start.len()
    &&& now.len() == start.len()
    &&& valid_picks_so_far(picks, i, start.len())
    &&& now == exchanged(start, picks, i)
}

/// There is one pick for each of the first `i` places, and each pick is a
/// place among `len` items.
pub open spec fn valid_picks_so_far(picks: Seq<usize>, i: int, len: nat) -> bool {
    picks.len() == i && forall|k: int| 0 <= k < picks.len() ==> #[trigger] picks[k] < len
}


/// Exchanging two items keeps the items.
pub proof fn lemma_swapped_keeps_items<T>(s: Seq<T>, i: int, j: int)
    requires
        0 <= i < s.len(),
        0 <= j < s.len(),
    ensures
        swapped(s, i, j).to_multiset() == s.to_multiset(),
        swapped(s, i, j).len() == s.len(),
{
    broadcast use vstd::seq_lib::group_to_multiset_ensures;

    let a = s.update(i, s[j]);
    let m = s.to_multiset();
    assert(a.len() == s.len());
    assert(a[j] == s[j]);
    assert(s.contains(s[i]));
    assert(s.contains(s[j]));
    assert(m.count(s[i]) > 0);
    assert(m.count(s[j]) > 0);
    assert(a.to_multiset() == m.insert(s[j]).remove(s[i]));
    assert(swapped(s, i, j).to_multiset() == a.to_multiset().insert(s[i]).remove(a[j]));
    assert(m.insert(s[j]).remove(s[i]).insert(s[i]).remove(s[j]) =~= m);
}

/// Exchanges keep the items, each as often as before.
pub proof fn lemma_exchanged_keeps_items<T>(s: Seq<T>, picks: Seq<usize>, steps: int)
    requires
        0 <= steps <= s.len(),
    ensures
        exchanged(s, picks, steps).len() == s.len(),
        exchanged(s, picks, steps).to_multiset() == s.to_multiset(),
    decreases steps,
{
    if steps > 0 {
        lemma_exchanged_keeps_items(s, picks, steps - 1);
        lemma_swapped_keeps_items(
            exchanged(s, picks, steps - 1),
            steps - 1,
            pick_at(picks, steps - 1, s.len()),
        );
    }
}

/// The first `steps` exchanges go by the first `steps` picks alone.
pub proof fn lemma_exchanged_reads_a_prefix<T>(s: Seq<T>, a: Seq<usize>, b: Seq<usize>, steps: int)
    requires
        0 <= steps <= a.len(),
        steps <= b.len(),
        forall|i: int| 0 <= i < steps ==> a[i] == b[i],
    ensures
        exchanged(s, a, steps) == exchanged(s, b, steps),
    decreases steps,
{
    if steps > 0 {
        lemma_exchanged_reads_a_prefix(s, a, b, steps - 1);
    }
}

/// One more step of a shuffle: the item at place `i` changes places with the
/// item at the place `j` that was drawn.
pub proof fn lemma_shuffling_step<T>(now: Seq<T>, start: Seq<T>, picks: Seq<usize>, i: int, j: usize)
    requires
        shuffling(now, start, picks, i),
        i < start.len(),
        j < start.len(),
    ensures
        shuffling(swapped(now, i, j as int), start, picks.push(j), i + 1),
{
    lemma_exchanged_reads_a_prefix(start, picks, picks.push(j), i);
    assert(pick_at(picks.push(j), i, start.len()) == j);
}

/// A shuffle that has come to the end has arranged the items by its picks,
/// and has kept them, each as often as before.
pub proof fn lemma_shuffled<T>(now: Seq<T>, start: Seq<T>, picks: Seq<usize>)
    requires
        shuffling(now, start, picks, start.len() as int),
    ensures
        valid_picks(picks, start.len()),
        now == arranged(start, picks),
        now.len() == start.len(),
        now.to_multiset() == start.to_multiset(),
{
    lemma_exchanged_keeps_items(start, picks, start.len() as int);
}

/// Puts the items of `v` in the order that `picks` asks for: from the first
/// place to the last, the item at each place changes places with the item at
/// its pick. A place without a pick among the places of `v` keeps its item
/// for that step.
pub fn arrange<T>(v: &mut Vec<T>, picks: &Vec<usize>)
    ensures
        final(v)@ == arranged(old(v)@, picks@),
{
    let len = v.len();
    let mut i: usize = 0;
    while i < len
        invariant
            i <= len,
            v@.len() == len,
            len == old(v)@.len(),
            v@ == exchanged(old(v)@, picks@, i as int),
        decreases len - i,
    {
        let j = if i < picks.len() && picks[i] < len {
            picks[i]
        } else {
            i
        };
        swap_in_vec(v, i, j);
        i += 1;
    }
}

/// As [`arrange`], for a deque.
pub fn arrange_deque<T>(v: &mut VecDeque<T>, picks: &Vec<usize>)
    ensures
        final(v)@ == arranged(old(v)@, picks@),
{
    let len = v.len();
    let mut i: usize = 0;
    while i < len
        invariant
            i <= len,
            v@.len() == len,
            len == old(v)@.len(),
            v@ == exchanged(old(v)@, picks@, i as int),
        decreases len - i,
    {
        let j = if i < picks.len() && picks[i] < len {
            picks[i]
        } else {
            i
        };
        swap_in_deque(v, i, j);
        i += 1;
    }
}

} // verus!
