//! Packed spin configurations.
//!
//! A [`CompactState`] is a bit-packed vector of spin values (`false` is spin
//! -1, `true` is spin +1) stored in a `fixedbitset::FixedBitSet`.  The bit
//! set itself is opaque to the verifier, so its boolean contents are named
//! by the uninterpreted [`bits_of`], and every method that touches it is a
//! trusted wrapper whose contract states, over that name, what the crate's
//! source shows.

use vstd::prelude::*;
use fixedbitset::FixedBitSet;

verus! {

#[verifier::external_type_specification]
#[verifier::external_body]
pub struct ExFixedBitSet(FixedBitSet);

/// The boolean contents of a packed bit set, one entry per bit.
pub uninterp spec fn bits_of(s: FixedBitSet) -> Seq<bool>;

/// A bit-packed spin configuration: bit `i` is `true` when spin `i` is up.
pub(crate) struct CompactState {
    pub(crate) inner: FixedBitSet,
}

impl View for CompactState {
    type V = Seq<bool>;

    closed spec fn view(&self) -> Seq<bool> {
        bits_of(self.inner)
    }
}

impl CompactState {
    /// Relies on `fixedbitset::FixedBitSet::with_capacity`: a set of `bits`
    /// bits, all unset.
    #[verifier::external_body]
    pub(crate) fn with_capacity(bits: usize) -> (r: CompactState)
        ensures
            bits_of(r.inner) == Seq::new(bits as nat, |i: int| false),
            r@ == Seq::new(bits as nat, |i: int| false),
    {
        CompactState { inner: FixedBitSet::with_capacity(bits) }
    }

    /// Relies on `fixedbitset::FixedBitSet::len`: the number of bits the set
    /// was created with.
    #[verifier::external_body]
    pub(crate) fn len(&self) -> (r: usize)
        ensures
            r == self@.len(),
    {
        self.inner.len()
    }

    /// Relies on `fixedbitset::FixedBitSet::contains`: whether bit `bit` is
    /// set (false when `bit` is out of range).
    #[verifier::external_body]
    pub(crate) fn contains(&self, bit: usize) -> (r: bool)
        ensures
            r == (bit < self@.len() && self@[bit as int]),
    {
        self.inner.contains(bit)
    }

    /// Relies on `fixedbitset::FixedBitSet::toggle`: inverts bit `bit`; the
    /// call panics out of range, so the range is required here.
    #[verifier::external_body]
    pub(crate) fn toggle(&mut self, bit: usize)
        requires
            bit < old(self)@.len(),
        ensures
            final(self)@ == old(self)@.update(bit as int, !old(self)@[bit as int]),
    {
        self.inner.toggle(bit);
    }

    /// Relies on `fixedbitset::FixedBitSet`'s `Clone`: a deep copy holding
    /// the same bits.
    #[verifier::external_body]
    pub(crate) fn duplicate(&self) -> (r: CompactState)
        ensures
            r@ == self@,
    {
        CompactState { inner: self.inner.clone() }
    }

    /// Relies on `fixedbitset::FixedBitSet`'s `PartialEq`: equal exactly
    /// when the lengths and all bits agree.
    #[verifier::external_body]
    pub(crate) fn same_bits(&self, other: &CompactState) -> (r: bool)
        ensures
            r <==> self@ == other@,
    {
        self.inner == other.inner
    }

    /// The spin configuration as a dense boolean vector.
    pub(crate) fn to_state(&self) -> (r: Vec<bool>)
        ensures
            r@ == self@,
    {
        let n = self.len();
        let mut state: Vec<bool> = Vec::new();
        let mut i: usize = 0;
        while i < n
            invariant
                i <= n,
                n == self@.len(),
                state@ == self@.subrange(0, i as int),
            decreases n - i,
        {
            state.push(self.contains(i));
            proof {
                assert(state@ =~= self@.subrange(0, i + 1 as int));
            }
            i = i + 1;
        }
        proof {
            assert(state@ =~= self@);
        }
        state
    }
}

} // verus!
