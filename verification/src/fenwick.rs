//! Prefix sums of energies.
//!
//! A [`PrefixSumArray`] is a Fenwick tree over energy scalars: node `i`
//! accumulates the entries of the block ending at `i`, so that a point
//! update touches `O(log n)` nodes and the running total is read back in
//! `O(log n)` additions instead of a fresh pass over all entries.  Since
//! energy addition is not associative, the node values are specified
//! operationally: each operation's contract gives the exact sequence of
//! additions it performs, in the model functions below.

use vstd::prelude::*;
use crate::energy::Energy;
use crate::energy::add_energy;
use crate::energy::sum_of;

verus! {

/// One build step: folds entry `i` into its parent node, if there is one.
pub open spec fn built_step(t: Seq<Energy>, i: usize) -> Seq<Energy> {
    let p = i | ((i + 1) as usize);
    if p < t.len() {
        t.update(p as int, sum_of(t[p as int], t[i as int]))
    } else {
        t
    }
}

/// The node values after running the build from position `i` onwards.
pub open spec fn built_from(t: Seq<Energy>, i: usize) -> Seq<Energy>
    decreases t.len() - i,
        when t.len() <= usize::MAX
{
    if i >= t.len() {
        t
    } else {
        built_from(built_step(t, i), (i + 1) as usize)
    }
}

/// The node values of the tree built over `entries`: every entry folded
/// into its parent, in index order.
pub open spec fn fenwick_built(entries: Seq<Energy>) -> Seq<Energy> {
    built_from(entries, 0)
}

/// The node values after adding `d` to every node on the update path that
/// starts at `i`.
pub open spec fn fenwick_added(t: Seq<Energy>, i: usize, d: Energy) -> Seq<Energy>
    decreases t.len() - vstd::math::min(i as int, t.len() as int),
        when t.len() <= usize::MAX
        via fenwick_added_decreases
{
    if i >= t.len() {
        t
    } else {
        fenwick_added(t.update(i as int, sum_of(t[i as int], d)), i | ((i + 1) as usize), d)
    }
}

#[via_fn]
proof fn fenwick_added_decreases(t: Seq<Energy>, i: usize, d: Energy) {
    if t.len() <= usize::MAX && i < t.len() {
        lemma_or_step(i);
    }
}

/// The accumulated sum after walking the query path that starts at `i`,
/// beginning from `acc`.
pub open spec fn fenwick_summed(t: Seq<Energy>, i: usize, acc: Energy) -> Energy
    decreases i,
        via fenwick_summed_decreases
{
    if i == 0 {
        acc
    } else {
        fenwick_summed(t, i & ((i - 1) as usize), sum_of(acc, t[i - 1]))
    }
}

#[via_fn]
proof fn fenwick_summed_decreases(t: Seq<Energy>, i: usize, acc: Energy) {
    if i > 0 {
        lemma_and_step(i);
    }
}

/// On the update path, the next node strictly follows the current one.
proof fn lemma_or_step(i: usize)
    requires
        i < usize::MAX,
    ensures
        (i | ((i + 1) as usize)) > i,
{
    assert((i | ((i + 1) as usize)) >= ((i + 1) as usize)) by (bit_vector);
}

/// On the query path, the next node strictly precedes the current one.
proof fn lemma_and_step(i: usize)
    requires
        i > 0,
    ensures
        (i & ((i - 1) as usize)) < i,
{
    assert((i & ((i - 1) as usize)) <= ((i - 1) as usize)) by (bit_vector);
}

/// Building the tree keeps the number of nodes.
pub proof fn lemma_built_from_len(t: Seq<Energy>, i: usize)
    requires
        t.len() <= usize::MAX,
    ensures
        built_from(t, i).len() == t.len(),
    decreases t.len() - i,
{
    if i < t.len() {
        lemma_built_from_len(built_step(t, i), (i + 1) as usize);
    }
}

/// A point update keeps the number of nodes.
pub proof fn lemma_fenwick_added_len(t: Seq<Energy>, i: usize, d: Energy)
    requires
        t.len() <= usize::MAX,
    ensures
        fenwick_added(t, i, d).len() == t.len(),
    decreases t.len() - vstd::math::min(i as int, t.len() as int),
{
    if i < t.len() {
        lemma_or_step(i);
        lemma_fenwick_added_len(t.update(i as int, sum_of(t[i as int], d)), i | ((i + 1) as usize), d);
    }
}

/// A Fenwick tree over energy scalars.
pub(crate) struct PrefixSumArray {
    pub(crate) values: Vec<Energy>,
}

impl View for PrefixSumArray {
    type V = Seq<Energy>;

    closed spec fn view(&self) -> Seq<Energy> {
        self.values@
    }
}

impl PrefixSumArray {
    /// Builds the tree over the given entries, folding each entry into its
    /// parent node in index order.
    pub(crate) fn from_entries(entries: Vec<Energy>) -> (r: PrefixSumArray)
        ensures
            r@ == fenwick_built(entries@),
            r@.len() == entries@.len(),
    {
        let ghost original: Seq<Energy> = entries@;
        let n = entries.len();
        let mut values = entries;
        let mut i: usize = 0;
        while i < n
            invariant
                i <= n,
                n == values@.len(),
                values@.len() <= usize::MAX,
                built_from(values@, i) == fenwick_built(original),
            decreases n - i,
        {
            let ghost before: Seq<Energy> = values@;
            let parent = i | (i + 1);
            if parent < n {
                let child = values[i];
                let node = values[parent];
                values.set(parent, add_energy(node, child));
            }
            proof {
                assert(values@ =~= built_step(before, i));
            }
            i = i + 1;
        }
        proof {
            lemma_built_from_len(original, 0);
        }
        PrefixSumArray { values }
    }

    /// The number of nodes (one per entry).
    pub(crate) fn len(&self) -> (r: usize)
        ensures
            r == self@.len(),
    {
        self.values.len()
    }

    /// Adds `diff` to every node on the update path that starts at `index`.
    pub(crate) fn add_at(&mut self, index: usize, diff: Energy)
        ensures
            final(self)@ == fenwick_added(old(self)@, index, diff),
            final(self)@.len() == old(self)@.len(),
    {
        let ghost original: Seq<Energy> = self.values@;
        let n = self.values.len();
        let mut cur = index;
        while cur < n
            invariant
                n == self.values@.len(),
                self.values@.len() <= usize::MAX,
                fenwick_added(self.values@, cur, diff) == fenwick_added(original, index, diff),
            decreases usize::MAX - cur,
        {
            let ghost before: Seq<Energy> = self.values@;
            let node = self.values[cur];
            self.values.set(cur, add_energy(node, diff));
            proof {
                assert(self.values@ =~= before.update(cur as int, sum_of(before[cur as int], diff)));
                lemma_or_step(cur);
            }
            cur = cur | (cur + 1);
        }
        proof {
            lemma_fenwick_added_len(original, index, diff);
        }
    }

    /// Accumulates, onto `init`, the nodes on the query path that starts at
    /// `index`: the prefix sum of the first `index` entries.
    pub(crate) fn prefix_sum(&self, index: usize, init: Energy) -> (r: Energy)
        requires
            index <= self@.len(),
        ensures
            r == fenwick_summed(self@, index, init),
    {
        let mut sum = init;
        let mut cur = index;
        while cur > 0
            invariant
                cur <= index <= self@.len(),
                fenwick_summed(self@, cur, sum) == fenwick_summed(self@, index, init),
            decreases cur,
        {
            sum = add_energy(sum, self.values[cur - 1]);
            proof {
                lemma_and_step(cur);
            }
            cur = cur & (cur - 1);
        }
        sum
    }
}

} // verus!
