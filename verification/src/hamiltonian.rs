//! The incremental two-local Ising Hamiltonian.
//!
//! `H(s) = -sum_{i<j} J_ij s_i s_j - sum_i h_i s_i`, with spin values
//! `s_k` in `{-1, +1}` encoded as bits.  The structure keeps, for the
//! current configuration, the signed contribution of every coupling and of
//! every field entry in two Fenwick trees, so that a single spin flip costs
//! `O(n)` tree updates and the total energy is read back in `O(log n)`
//! additions.  Couplings are stored bare (unsigned by the spins); the sign
//! of a contribution is applied when it is written, which keeps every
//! stored value an exact product of the inputs.
//!
//! Every method's contract gives the exact new value of the whole structure
//! as a model function of the old one, so the solvers' outputs are pinned
//! to deterministic functions of their inputs.

use vstd::prelude::*;
use crate::bitset::CompactState;
use crate::energy::Energy;
use crate::energy::ZERO;
use crate::energy::TWO;
use crate::energy::neg_of;
use crate::energy::prod_of;
use crate::energy::sum_of;
use crate::energy::mul_energy;
use crate::energy::neg_energy;
use crate::energy::add_energy;
use crate::fenwick::PrefixSumArray;
use crate::fenwick::fenwick_built;
use crate::fenwick::fenwick_added;
use crate::fenwick::fenwick_summed;
use crate::types::IsingError;
use crate::types::Interactions;
use crate::types::ExternalMagneticField;
use crate::types::SpinIndex;
use crate::types::State;

verus! {

/// The mathematical content of a Hamiltonian: the spin configuration, the
/// bare couplings in the linearised upper-triangular layout, the field, and
/// the node values of the two prefix-sum trees.
#[verifier::ext_equal]
pub ghost struct HamiltonianView {
    pub spins: Seq<bool>,
    pub couplings: Seq<Energy>,
    pub field: Seq<Energy>,
    pub interaction_nodes: Seq<Energy>,
    pub field_nodes: Seq<Energy>,
}

/// The linearised index of the pair `i < j` in an upper-triangular matrix
/// of side `n`, stored row by row.
pub open spec fn lin_index(i: int, j: int, n: int) -> int {
    i * (2 * n - i - 1) / 2 + (j - i - 1)
}

/// A coupling's contribution under the current spins: the bare value when
/// the two spins agree, its negation when they differ.
pub open spec fn signed_term(c: Energy, same: bool) -> Energy {
    if same {
        c
    } else {
        neg_of(c)
    }
}

/// A field entry's contribution: the bare value when the spin is up, its
/// negation when the spin is down.
pub open spec fn field_term(h: Energy, up: bool) -> Energy {
    if up {
        h
    } else {
        neg_of(h)
    }
}

/// The spin configuration a Hamiltonian starts from.
pub open spec fn initial_spins(n: nat, initial: Option<Seq<bool>>) -> Seq<bool> {
    match initial {
        Some(v) => v,
        None => Seq::new(n, |i: int| false),
    }
}

/// The contents of an optional initial state.
pub open spec fn opt_view(o: Option<State>) -> Option<Seq<bool>> {
    match o {
        Some(v) => Some(v@),
        None => None,
    }
}

/// The largest spin index that appears in the interaction list, or -1 when
/// the list is empty.
pub open spec fn max_spin(inter: Seq<(SpinIndex, SpinIndex, Energy)>) -> int
    decreases inter.len(),
{
    if inter.len() == 0 {
        -1
    } else {
        let last = inter.last();
        let hi = if last.0 >= last.1 {
            last.0 as int
        } else {
            last.1 as int
        };
        let rest = max_spin(inter.drop_last());
        if hi >= rest {
            hi
        } else {
            rest
        }
    }
}

/// Every index in the interaction list is bounded by the largest one.
proof fn lemma_max_spin_bound(inter: Seq<(SpinIndex, SpinIndex, Energy)>)
    ensures
        forall|m: int|
            0 <= m < inter.len() ==> (#[trigger] inter[m]).0 as int <= max_spin(inter)
                && inter[m].1 as int <= max_spin(inter),
    decreases inter.len(),
{
    if inter.len() > 0 {
        lemma_max_spin_bound(inter.drop_last());
        assert forall|m: int|
            0 <= m < inter.len() implies (#[trigger] inter[m]).0 as int <= max_spin(inter)
            && inter[m].1 as int <= max_spin(inter) by {
            if m < inter.len() - 1 {
                assert(inter.drop_last()[m] == inter[m]);
            }
        }
    }
}

/// The per-entry field contributions for a configuration.
pub open spec fn field_terms(field: Seq<Energy>, spins: Seq<bool>) -> Seq<Energy> {
    Seq::new(field.len(), |i: int| field_term(field[i], spins[i]))
}

/// Walks the interaction list, writing each coupling and its signed
/// contribution at its linearised index; stops with an error on a
/// self-coupling or on a pair already seen.
pub open spec fn fill_terms(
    inter: Seq<(SpinIndex, SpinIndex, Energy)>,
    k: int,
    couplings: Seq<Energy>,
    contribs: Seq<Energy>,
    used: Seq<bool>,
    spins: Seq<bool>,
    n: int,
) -> Result<(Seq<Energy>, Seq<Energy>, Seq<bool>), IsingError>
    decreases inter.len() - k,
{
    if k < 0 || k >= inter.len() {
        Ok((couplings, contribs, used))
    } else {
        let (i, j, c) = inter[k];
        if i == j {
            Err(IsingError::MalformedInteraction)
        } else {
            let lo = if i < j {
                i
            } else {
                j
            };
            let hi = if i < j {
                j
            } else {
                i
            };
            let idx = lin_index(lo as int, hi as int, n);
            if used[idx] {
                Err(IsingError::MalformedInteraction)
            } else {
                fill_terms(
                    inter,
                    k + 1,
                    couplings.update(idx, c),
                    contribs.update(idx, signed_term(c, spins[i as int] == spins[j as int])),
                    used.update(idx, true),
                    spins,
                    n,
                )
            }
        }
    }
}

/// What constructing a Hamiltonian yields: the complete initial structure,
/// or the first error in the inputs.  `n` is the largest spin index plus
/// one (the field length when there are no interactions); the field, and an
/// initial state when given, must have exactly `n` entries, at least one of
/// which must exist.
pub open spec fn build_model(
    inter: Seq<(SpinIndex, SpinIndex, Energy)>,
    field: Seq<Energy>,
    initial: Option<Seq<bool>>,
) -> Result<HamiltonianView, IsingError> {
    if inter.len() == 0 && field.len() == 0 {
        Err(IsingError::EmptyProblem)
    } else if inter.len() > 0 && max_spin(inter) + 1 != field.len() {
        Err(IsingError::ShapeMismatch)
    } else if initial is Some && initial.unwrap().len() != field.len() {
        Err(IsingError::ShapeMismatch)
    } else {
        let n = field.len();
        let spins = initial_spins(n, initial);
        let tri = n * (n - 1) / 2;
        match fill_terms(
            inter,
            0,
            Seq::new(tri as nat, |i: int| ZERO),
            Seq::new(tri as nat, |i: int| ZERO),
            Seq::new(tri as nat, |i: int| false),
            spins,
            n as int,
        ) {
            Ok((couplings, contribs, used)) => Ok(
                HamiltonianView {
                    spins: spins,
                    couplings: couplings,
                    field: field,
                    interaction_nodes: fenwick_built(contribs),
                    field_nodes: fenwick_built(field_terms(field, spins)),
                },
            ),
            Err(e) => Err(e),
        }
    }
}

/// The interaction-tree node values after a flip of `spin`: for every other
/// spin `j`, the update path of the pair's linearised index receives the
/// bare coupling times the sign change, negated when spin `j` is down.
pub open spec fn flip_terms(
    nodes: Seq<Energy>,
    couplings: Seq<Energy>,
    spins: Seq<bool>,
    spin: usize,
    j: int,
    n: int,
    sc: Energy,
) -> Seq<Energy>
    decreases n - j,
{
    if j < 0 || j >= n {
        nodes
    } else {
        let nodes2 = if j != spin {
            let lo = if (spin as int) < j {
                spin as int
            } else {
                j
            };
            let hi = if (spin as int) < j {
                j
            } else {
                spin as int
            };
            let idx = lin_index(lo, hi, n);
            let delta = signed_term(prod_of(couplings[idx], sc), spins[j]);
            fenwick_added(nodes, idx as usize, delta)
        } else {
            nodes
        };
        flip_terms(nodes2, couplings, spins, spin, j + 1, n, sc)
    }
}

/// The whole structure after a flip of `spin`: the bit toggled, every
/// interaction contribution involving `spin` updated, and the field tree
/// updated by the sign change times the field entry.  A spin beyond the
/// configuration leaves the structure unchanged (`flip_spin` requires an
/// in-range spin, so this case never arises in execution).
pub open spec fn flip_model(v: HamiltonianView, spin: usize) -> HamiltonianView {
    if spin < v.spins.len() {
        let spins2 = v.spins.update(spin as int, !v.spins[spin as int]);
        let sc = if spins2[spin as int] {
            TWO
        } else {
            neg_of(TWO)
        };
        HamiltonianView {
            spins: spins2,
            couplings: v.couplings,
            field: v.field,
            interaction_nodes: flip_terms(
                v.interaction_nodes,
                v.couplings,
                spins2,
                spin,
                0,
                v.field.len() as int,
                sc,
            ),
            field_nodes: fenwick_added(v.field_nodes, spin, prod_of(sc, v.field[spin as int])),
        }
    } else {
        v
    }
}

/// The total energy read off a structure: the negated full sum of the
/// interaction tree plus the negated full sum of the field tree.
pub open spec fn energy_model(v: HamiltonianView) -> Energy {
    sum_of(
        neg_of(fenwick_summed(v.interaction_nodes, v.interaction_nodes.len() as usize, ZERO)),
        neg_of(fenwick_summed(v.field_nodes, v.field_nodes.len() as usize, ZERO)),
    )
}

/// Well-formedness: all five parts agree on the spin count `n`, the
/// triangular arrays have `n (n - 1) / 2` entries, there is at least one
/// spin, and `n (n - 1)` fits the machine word so linearised indices can be
/// computed.
pub open spec fn view_wf(v: HamiltonianView) -> bool {
    let n = v.field.len() as int;
    &&& v.spins.len() == n
    &&& v.field_nodes.len() == n
    &&& v.couplings.len() == n * (n - 1) / 2
    &&& v.interaction_nodes.len() == n * (n - 1) / 2
    &&& n >= 1
    &&& n * (n - 1) <= usize::MAX as int
}

/// Flipping the same spin twice restores the spin configuration exactly,
/// and never touches the couplings or the field.  (The tree node values
/// return to sums of the form `(x + d) + (-d)`, which floating-point
/// addition does not always collapse back to `x`; whether the energy
/// returns exactly is checked on concrete problems by the test suite.)
pub proof fn law_flip_involution_spins(v: HamiltonianView, spin: usize)
    ensures
        flip_model(flip_model(v, spin), spin).spins =~= v.spins,
        flip_model(flip_model(v, spin), spin).couplings == v.couplings,
        flip_model(flip_model(v, spin), spin).field == v.field,
{
    if spin < v.spins.len() {
        let v1 = flip_model(v, spin);
        assert(v1.spins.len() == v.spins.len()) by {
            vstd::seq::axiom_seq_update_len(v.spins, spin as int, !v.spins[spin as int]);
        }
        assert(flip_model(v1, spin).spins =~= v.spins);
    }
}

/// The incremental two-local Ising Hamiltonian.
pub struct TwoLocalHamiltonian {
    pub(crate) spins: CompactState,
    pub(crate) couplings: Vec<Energy>,
    pub(crate) external_magnetic_field: Vec<Energy>,
    pub(crate) interaction_energy: PrefixSumArray,
    pub(crate) magnetic_field_energy: PrefixSumArray,
}

impl View for TwoLocalHamiltonian {
    type V = HamiltonianView;

    closed spec fn view(&self) -> HamiltonianView {
        HamiltonianView {
            spins: self.spins@,
            couplings: self.couplings@,
            field: self.external_magnetic_field@,
            interaction_nodes: self.interaction_energy@,
            field_nodes: self.magnetic_field_energy@,
        }
    }
}

/// Inside the crate, a Hamiltonian's view is its five parts.
pub(crate) proof fn lemma_view_parts(h: &TwoLocalHamiltonian)
    ensures
        h@.spins == h.spins@,
        h@.field == h.external_magnetic_field@,
{
}

/// The linearised index is within the triangular array, and each step of
/// its computation fits the machine word.
proof fn lemma_lin_index_bounds(i: int, j: int, n: int)
    requires
        0 <= i < j < n,
        n * (n - 1) <= usize::MAX as int,
    ensures
        2 * n <= usize::MAX as int,
        0 <= i * (2 * n - i - 1),
        i * (2 * n - i - 1) <= n * (n - 1),
        0 <= lin_index(i, j, n) < n * (n - 1) / 2,
{
    assert(2 * n <= usize::MAX as int) by (nonlinear_arith)
        requires
            n * (n - 1) <= usize::MAX as int,
            2 <= n,
            usize::MAX >= 0xffff_ffff,
    ;
    assert(0 <= i * (2 * n - i - 1) && i * (2 * n - i - 1) <= n * (n - 1)) by (nonlinear_arith)
        requires
            0 <= i < j < n,
    ;
    assert(i * (2 * n - i - 1) / 2 + (j - i - 1) < n * (n - 1) / 2) by (nonlinear_arith)
        requires
            0 <= i < j < n,
    ;
}

impl TwoLocalHamiltonian {
    /// Computes the linearised upper-triangular index of the pair `i < j`.
    fn map_interaction_to_index(i: SpinIndex, j: SpinIndex, n: usize) -> (r: usize)
        requires
            i < j < n,
            (n as int) * (n as int - 1) <= usize::MAX as int,
        ensures
            r as int == lin_index(i as int, j as int, n as int),
            (r as int) < (n as int) * (n as int - 1) / 2,
    {
        proof {
            lemma_lin_index_bounds(i as int, j as int, n as int);
        }
        (i * (2 * n - i - 1) / 2) + (j - i - 1)
    }

    /// Builds the Hamiltonian for the given problem, or reports the first
    /// error in it: `EmptyProblem` when there is neither an interaction nor
    /// a field entry, `ShapeMismatch` when the field (or a supplied initial
    /// state) does not have one entry per spin, and `MalformedInteraction`
    /// on a self-coupling or a repeated pair.
    #[verifier::loop_isolation(false)]
    pub fn new(
        interactions: Interactions,
        external_magnetic_field: ExternalMagneticField,
        initial_state: Option<State>,
    ) -> (r: Result<TwoLocalHamiltonian, IsingError>)
        requires
            (external_magnetic_field@.len() as int) * (external_magnetic_field@.len() as int - 1)
                <= usize::MAX as int,
        ensures
            (match r {
                Ok(h) => build_model(
                    interactions@,
                    external_magnetic_field@,
                    opt_view(initial_state),
                ) == Ok::<HamiltonianView, IsingError>(h@) && view_wf(h@),
                Err(e) => build_model(
                    interactions@,
                    external_magnetic_field@,
                    opt_view(initial_state),
                ) == Err::<HamiltonianView, IsingError>(e),
            }),
    {
        let n_field = external_magnetic_field.len();
        if interactions.len() == 0 && n_field == 0 {
            return Err(IsingError::EmptyProblem);
        }
        if interactions.len() > 0 {
            let first = interactions[0];
            let mut max_idx: usize = if first.0 >= first.1 {
                first.0
            } else {
                first.1
            };
            let mut k: usize = 1;
            proof {
                assert(interactions@.subrange(0, 1).drop_last() =~= Seq::<(
                    SpinIndex,
                    SpinIndex,
                    Energy,
                )>::empty());
                assert(interactions@.subrange(0, 1).last() == interactions@[0]);
                assert(max_spin(Seq::<(SpinIndex, SpinIndex, Energy)>::empty()) == -1);
            }
            while k < interactions.len()
                invariant
                    1 <= k <= interactions@.len(),
                    max_idx as int == max_spin(interactions@.subrange(0, k as int)),
                decreases interactions@.len() - k,
            {
                let t = interactions[k];
                if t.0 > max_idx {
                    max_idx = t.0;
                }
                if t.1 > max_idx {
                    max_idx = t.1;
                }
                proof {
                    assert(interactions@.subrange(0, k + 1 as int).drop_last() =~= interactions@
                        .subrange(0, k as int));
                }
                k = k + 1;
            }
            proof {
                assert(interactions@.subrange(0, interactions@.len() as int) =~= interactions@);
            }
            if n_field == 0 || max_idx != n_field - 1 {
                return Err(IsingError::ShapeMismatch);
            }
            proof {
                assert(max_spin(interactions@) + 1 == n_field as int);
            }
        }
        let n = n_field;
        let mut spins = CompactState::with_capacity(n);
        match &initial_state {
            Some(init) => {
                if init.len() != n {
                    return Err(IsingError::ShapeMismatch);
                }
                let mut i: usize = 0;
                while i < n
                    invariant
                        i <= n,
                        init@.len() == n,
                        spins@ == Seq::new(n as nat, |m: int| m < i && init@[m]),
                    decreases n - i,
                {
                    if init[i] {
                        spins.toggle(i);
                    }
                    proof {
                        assert(spins@ =~= Seq::new(n as nat, |m: int| m < i + 1 && init@[m]));
                    }
                    i = i + 1;
                }
                proof {
                    assert(spins@ =~= init@);
                }
            },
            None => {},
        }
        let ghost spins_view: Seq<bool> = spins@;
        proof {
            assert(spins_view =~= initial_spins(n as nat, opt_view(initial_state)));
        }

        let mut terms: Vec<Energy> = Vec::new();
        let mut i: usize = 0;
        while i < n
            invariant
                i <= n,
                n == external_magnetic_field@.len(),
                n == spins@.len(),
                spins@ == spins_view,
                terms@ == field_terms(external_magnetic_field@, spins@).subrange(0, i as int),
            decreases n - i,
        {
            let h = external_magnetic_field[i];
            if spins.contains(i) {
                terms.push(h);
            } else {
                terms.push(neg_energy(h));
            }
            proof {
                assert(terms@ =~= field_terms(external_magnetic_field@, spins@).subrange(
                    0,
                    i + 1 as int,
                ));
            }
            i = i + 1;
        }
        proof {
            assert(terms@ =~= field_terms(external_magnetic_field@, spins_view));
        }
        let magnetic_field_energy = PrefixSumArray::from_entries(terms);

        let tri_len = n * (n - 1) / 2;
        let mut couplings: Vec<Energy> = Vec::new();
        let mut contribs: Vec<Energy> = Vec::new();
        let mut used: Vec<bool> = Vec::new();
        let mut f: usize = 0;
        while f < tri_len
            invariant
                f <= tri_len,
                couplings@ == Seq::new(f as nat, |i: int| ZERO),
                contribs@ == Seq::new(f as nat, |i: int| ZERO),
                used@ == Seq::new(f as nat, |i: int| false),
            decreases tri_len - f,
        {
            couplings.push(ZERO);
            contribs.push(ZERO);
            used.push(false);
            proof {
                assert(couplings@ =~= Seq::new((f + 1) as nat, |i: int| ZERO));
                assert(contribs@ =~= Seq::new((f + 1) as nat, |i: int| ZERO));
                assert(used@ =~= Seq::new((f + 1) as nat, |i: int| false));
            }
            f = f + 1;
        }
        let ghost zero_couplings: Seq<Energy> = couplings@;
        let ghost zero_contribs: Seq<Energy> = contribs@;
        let ghost zero_used: Seq<bool> = used@;

        proof {
            if interactions@.len() > 0 {
                lemma_max_spin_bound(interactions@);
            }
        }
        let mut k: usize = 0;
        while k < interactions.len()
            invariant
                k <= interactions@.len(),
                n == n_field,
                interactions@.len() > 0 ==> max_spin(interactions@) + 1 == n as int,
                (opt_view(initial_state) is Some) ==> opt_view(initial_state).unwrap().len()
                    == n as int,
                spins_view == initial_spins(n as nat, opt_view(initial_state)),
                n == external_magnetic_field@.len(),
                n == spins@.len(),
                spins@ == spins_view,
                (n as int) * (n as int - 1) <= usize::MAX as int,
                couplings@.len() == tri_len,
                contribs@.len() == tri_len,
                used@.len() == tri_len,
                tri_len as int == (n as int) * (n as int - 1) / 2,
                forall|m: int|
                    0 <= m < interactions@.len() ==> (#[trigger] interactions@[m]).0 < n
                        && interactions@[m].1 < n,
                fill_terms(
                    interactions@,
                    k as int,
                    couplings@,
                    contribs@,
                    used@,
                    spins_view,
                    n as int,
                ) == fill_terms(
                    interactions@,
                    0,
                    zero_couplings,
                    zero_contribs,
                    zero_used,
                    spins_view,
                    n as int,
                ),
            decreases interactions@.len() - k,
        {
            let t = interactions[k];
            let ti = t.0;
            let tj = t.1;
            let c = t.2;
            if ti == tj {
                proof {
                    assert(fill_terms(
                        interactions@,
                        k as int,
                        couplings@,
                        contribs@,
                        used@,
                        spins_view,
                        n as int,
                    ) == Err::<(Seq<Energy>, Seq<Energy>, Seq<bool>), IsingError>(
                        IsingError::MalformedInteraction,
                    ));
                }
                return Err(IsingError::MalformedInteraction);
            }
            let lo = if ti < tj {
                ti
            } else {
                tj
            };
            let hi = if ti < tj {
                tj
            } else {
                ti
            };
            let idx = Self::map_interaction_to_index(lo, hi, n);
            if used[idx] {
                proof {
                    assert(fill_terms(
                        interactions@,
                        k as int,
                        couplings@,
                        contribs@,
                        used@,
                        spins_view,
                        n as int,
                    ) == Err::<(Seq<Energy>, Seq<Energy>, Seq<bool>), IsingError>(
                        IsingError::MalformedInteraction,
                    ));
                }
                return Err(IsingError::MalformedInteraction);
            }
            let same = spins.contains(ti) == spins.contains(tj);
            couplings.set(idx, c);
            if same {
                contribs.set(idx, c);
            } else {
                contribs.set(idx, neg_energy(c));
            }
            used.set(idx, true);
            k = k + 1;
        }
        let ghost final_couplings: Seq<Energy> = couplings@;
        let interaction_energy = PrefixSumArray::from_entries(contribs);

        let result = TwoLocalHamiltonian {
            spins,
            couplings,
            external_magnetic_field,
            interaction_energy,
            magnetic_field_energy,
        };
        proof {
            assert(build_model(
                interactions@,
                result.external_magnetic_field@,
                opt_view(initial_state),
            ) == Ok::<HamiltonianView, IsingError>(result@));
        }
        Ok(result)
    }

    /// Flips one spin: toggles its bit, updates every interaction
    /// contribution that involves it, and updates its field contribution.
    /// The exact new structure is `flip_model` of the old one.
    #[verifier::loop_isolation(false)]
    pub fn flip_spin(&mut self, spin: SpinIndex)
        requires
            view_wf(old(self)@),
            spin < old(self)@.field.len(),
        ensures
            final(self)@ == flip_model(old(self)@, spin),
            view_wf(final(self)@),
    {
        let ghost orig: HamiltonianView = self@;
        self.spins.toggle(spin);
        let sign_change: Energy = if self.spins.contains(spin) {
            TWO
        } else {
            neg_energy(TWO)
        };
        let ghost spins2: Seq<bool> = self.spins@;
        let ghost sc: Energy = sign_change;
        let n = self.spins.len();
        let mut j: usize = 0;
        while j < n
            invariant
                j <= n,
                n == self.spins@.len(),
                self.spins@ == spins2,
                self.couplings@ == orig.couplings,
                self.external_magnetic_field@ == orig.field,
                self.magnetic_field_energy@ == orig.field_nodes,
                n == orig.field.len(),
                (n as int) * (n as int - 1) <= usize::MAX as int,
                orig.couplings.len() == (n as int) * (n as int - 1) / 2,
                self.interaction_energy@.len() == orig.interaction_nodes.len(),
                spin < n,
                flip_terms(
                    self.interaction_energy@,
                    orig.couplings,
                    spins2,
                    spin,
                    j as int,
                    n as int,
                    sc,
                ) == flip_terms(orig.interaction_nodes, orig.couplings, spins2, spin, 0, n as int, sc),
            decreases n - j,
        {
            let ghost nodes_before: Seq<Energy> = self.interaction_energy@;
            if j != spin {
                let lo = if spin < j {
                    spin
                } else {
                    j
                };
                let hi = if spin < j {
                    j
                } else {
                    spin
                };
                let idx = Self::map_interaction_to_index(lo, hi, n);
                let strength = self.couplings[idx];
                let scaled = mul_energy(strength, sign_change);
                if self.spins.contains(j) {
                    self.interaction_energy.add_at(idx, scaled);
                } else {
                    self.interaction_energy.add_at(idx, neg_energy(scaled));
                }
            }
            proof {
                assert(flip_terms(
                    self.interaction_energy@,
                    orig.couplings,
                    spins2,
                    spin,
                    j + 1 as int,
                    n as int,
                    sc,
                ) == flip_terms(nodes_before, orig.couplings, spins2, spin, j as int, n as int, sc));
            }
            j = j + 1;
        }
        let h = self.external_magnetic_field[spin];
        let diff = mul_energy(sign_change, h);
        self.magnetic_field_energy.add_at(spin, diff);
        proof {
            assert(self@ =~= flip_model(orig, spin));
        }
    }

    /// The total energy of the current configuration: the negated full sum
    /// of each tree, added.
    pub fn current_energy(&self) -> (r: Energy)
        requires
            view_wf(self@),
        ensures
            r == energy_model(self@),
    {
        let ilen = self.interaction_energy.len();
        let interaction_energy = self.interaction_energy.prefix_sum(ilen, ZERO);
        let flen = self.magnetic_field_energy.len();
        let external_magnetic_field_energy = self.magnetic_field_energy.prefix_sum(flen, ZERO);
        add_energy(neg_energy(interaction_energy), neg_energy(external_magnetic_field_energy))
    }
}

} // verus!
