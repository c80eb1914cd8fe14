//! The two ground-state solvers.
//!
//! The exact solver walks all `2^n` spin configurations along a Gray code,
//! so each step is a single spin flip on the incremental Hamiltonian, and
//! keeps every configuration whose energy ties (within the machine epsilon)
//! with the lowest one seen.  The simulated-annealing sampler performs a
//! fixed number of Metropolis proposals under a geometric cooling schedule,
//! drawing from a deterministically seeded generator, and keeps the set of
//! distinct best-energy configurations in insertion order.
//!
//! Both solvers' contracts pin their outputs to model functions of the
//! problem (and, for the annealer, of the configuration): runs on equal
//! inputs return equal results.

use vstd::prelude::*;
use vstd::arithmetic::power2::pow2;
use vstd::bits::lemma_usize_pow2_no_overflow;
use vstd::bits::lemma_usize_shl_is_mul;
use vstd::std_specs::bits::u64_trailing_zeros;
use vstd::std_specs::bits::axiom_u64_trailing_zeros;
use crate::bitset::CompactState;
use crate::energy::Energy;
use crate::energy::EPSILON;
use crate::energy::ONE;
use crate::energy::UNIT_SCALE;
use crate::energy::ZERO;
use crate::energy::abs_of;
use crate::energy::diff_of;
use crate::energy::exp_of;
use crate::energy::float_of;
use crate::energy::is_eq;
use crate::energy::is_le;
use crate::energy::is_lt;
use crate::energy::neg_of;
use crate::energy::pow_of;
use crate::energy::prod_of;
use crate::energy::quot_of;
use crate::energy::abs_energy;
use crate::energy::add_energy;
use crate::energy::div_energy;
use crate::energy::energy_of_u64;
use crate::energy::eq_energy;
use crate::energy::exp_energy;
use crate::energy::le_energy;
use crate::energy::lt_energy;
use crate::energy::mul_energy;
use crate::energy::neg_energy;
use crate::energy::pow_energy;
use crate::energy::sub_energy;
use crate::hamiltonian::HamiltonianView;
use crate::hamiltonian::TwoLocalHamiltonian;
use crate::hamiltonian::build_model;
use crate::hamiltonian::energy_model;
use crate::hamiltonian::flip_model;
use crate::hamiltonian::view_wf;
use crate::rng::RandomSource;
use crate::rng::pick_of;
use crate::rng::word_of;
use crate::types::Epoch;
use crate::types::ExternalMagneticField;
use crate::types::Interactions;
use crate::types::IsingError;
use crate::types::SpinIndex;
use crate::types::State;

verus! {

broadcast use vstd::seq::group_seq_axioms;

/// The Gray code of `x`: consecutive codes differ in exactly one bit.
pub open spec fn gray_spec(x: usize) -> usize {
    x ^ (x >> 1)
}

/// The position of the lowest bit in which `a` and `b` differ, if any.
pub open spec fn bit_changed(a: usize, b: usize) -> Option<u32> {
    if a == b {
        None
    } else {
        Some(u64_trailing_zeros((a as u64) ^ (b as u64)))
    }
}

/// Returns the Gray code of `n`.
pub fn gray_code(n: SpinIndex) -> (r: SpinIndex)
    ensures
        r == gray_spec(n),
{
    n ^ (n >> 1)
}

/// Returns the position of the lowest bit in which `a` and `b` differ, or
/// `None` when they are equal.
pub fn bit_position_changed(a: SpinIndex, b: SpinIndex) -> (r: Option<u32>)
    ensures
        r == bit_changed(a, b),
{
    let x = a as u64;
    let y = b as u64;
    let diff = x ^ y;
    proof {
        assert((x ^ y == 0) == (x == y)) by (bit_vector);
    }
    if diff == 0 {
        None
    } else {
        Some(diff.trailing_zeros())
    }
}

/// A Gray code stays below the enumeration bound.
proof fn lemma_gray_below(i: u64, n: u64)
    requires
        n < 64,
        i < (1u64 << n),
    ensures
        (i ^ (i >> 1u64)) < (1u64 << n),
{
    assert((i ^ (i >> 1u64)) < (1u64 << n)) by (bit_vector)
        requires
            n < 64 && i < (1u64 << n),
    ;
}

/// Consecutive Gray codes are distinct.
proof fn lemma_gray_adjacent_differ(p: u64, i: u64)
    requires
        1 <= i,
        p == i - 1,
    ensures
        (p ^ (p >> 1u64)) != (i ^ (i >> 1u64)),
{
    assert((p ^ (p >> 1u64)) != (i ^ (i >> 1u64))) by (bit_vector)
        requires
            1 <= i && p == i - 1,
    ;
}

/// The lowest set bit of a nonzero value below `2^n` sits below `n`.
proof fn lemma_trailing_zeros_below(d: u64, n: u64)
    requires
        n < 64,
        0 < d,
        d < (1u64 << n),
    ensures
        u64_trailing_zeros(d) < n,
{
    axiom_u64_trailing_zeros(d);
    let t = u64_trailing_zeros(d) as u64;
    assert(t < 64);
    assert((d >> t) & 1u64 == 1u64);
    assert(((d >> t) & 1u64 == 1u64 && d < (1u64 << n) && n < 64 && t < 64) ==> t < n)
        by (bit_vector);
}

/// The running state of the exact enumeration: the Hamiltonian, the lowest
/// energy seen, and the tied configurations kept so far, in visit order.
#[verifier::ext_equal]
pub ghost struct ExactState {
    pub ham: HamiltonianView,
    pub lowest: Energy,
    pub results: Seq<(Energy, Seq<bool>)>,
}

/// One enumeration step: flip the one bit in which the `i`th Gray code
/// differs from its predecessor, then keep the new configuration when its
/// energy ties with the lowest (strictly within the machine epsilon), or
/// restart the kept set when it is a new low.
pub open spec fn exact_step(st: ExactState, i: usize) -> ExactState {
    let prev = gray_spec((i - 1) as usize);
    let curr = gray_spec(i);
    let ham2 = match bit_changed(prev, curr) {
        Some(b) => flip_model(st.ham, b as usize),
        None => st.ham,
    };
    let e = energy_model(ham2);
    if is_lt(abs_of(diff_of(e, st.lowest)), EPSILON) {
        ExactState { ham: ham2, lowest: st.lowest, results: st.results.push((e, ham2.spins)) }
    } else if is_lt(e, st.lowest) {
        ExactState { ham: ham2, lowest: e, results: seq![(e, ham2.spins)] }
    } else {
        ExactState { ham: ham2, lowest: st.lowest, results: st.results }
    }
}

/// The enumeration state after running steps `i .. total`.
pub open spec fn exact_run(st: ExactState, i: int, total: int) -> ExactState
    decreases total - i,
{
    if i < 1 || i >= total {
        st
    } else {
        exact_run(exact_step(st, i as usize), i + 1, total)
    }
}

/// The enumeration state an exact solve starts from: the all-down
/// configuration and its energy as the only kept entry.
pub open spec fn exact_start(h0: HamiltonianView) -> ExactState {
    ExactState {
        ham: h0,
        lowest: energy_model(h0),
        results: seq![(energy_model(h0), h0.spins)],
    }
}

/// What an exact solve yields: the kept `(energy, configuration)` pairs
/// after all `2^n` configurations are visited in Gray-code order, starting
/// from the all-down configuration, or the problem's first error.
pub open spec fn exact_model(
    inter: Seq<(SpinIndex, SpinIndex, Energy)>,
    field: Seq<Energy>,
) -> Result<Seq<(Energy, Seq<bool>)>, IsingError> {
    let n = field.len();
    match build_model(inter, field, Some(Seq::new(n, |i: int| false))) {
        Err(e) => Err(e),
        Ok(h0) => Ok(exact_run(exact_start(h0), 1, pow2(n) as int).results),
    }
}

/// The kept pairs as they are stored during the run.
pub(crate) open spec fn kept_view(s: Seq<(Energy, CompactState)>) -> Seq<(Energy, Seq<bool>)> {
    Seq::new(s.len(), |i: int| (s[i].0, s[i].1@))
}

/// The output pairs of a solve, with dense configurations.
pub open spec fn output_view(s: Seq<(Energy, State)>) -> Seq<(Energy, Seq<bool>)> {
    Seq::new(s.len(), |i: int| (s[i].0, s[i].1@))
}

/// An element-wise copy of an interaction list.
fn copy_interactions(v: &Interactions) -> (r: Interactions)
    ensures
        r@ == v@,
{
    let mut r: Interactions = Vec::new();
    let mut k: usize = 0;
    while k < v.len()
        invariant
            k <= v@.len(),
            r@ == v@.subrange(0, k as int),
        decreases v@.len() - k,
    {
        r.push(v[k]);
        proof {
            assert(r@ =~= v@.subrange(0, k + 1 as int));
        }
        k = k + 1;
    }
    proof {
        assert(r@ =~= v@);
    }
    r
}

/// An element-wise copy of a field vector.
fn copy_field(v: &ExternalMagneticField) -> (r: ExternalMagneticField)
    ensures
        r@ == v@,
{
    let mut r: ExternalMagneticField = Vec::new();
    let mut k: usize = 0;
    while k < v.len()
        invariant
            k <= v@.len(),
            r@ == v@.subrange(0, k as int),
        decreases v@.len() - k,
    {
        r.push(v[k]);
        proof {
            assert(r@ =~= v@.subrange(0, k + 1 as int));
        }
        k = k + 1;
    }
    proof {
        assert(r@ =~= v@);
    }
    r
}

/// Finds all ground states of the spin glass given by `interactions` and
/// `external_magnetic_field`: every configuration whose energy ties, within
/// the machine epsilon, with the lowest energy over all `2^n`
/// configurations, in Gray-code visit order.  The result is exactly
/// `exact_model` of the problem; an invalid problem is rejected with the
/// error that `build_model` assigns to it.
#[verifier::loop_isolation(false)]
pub fn find_all_ground_states(
    interactions: &Interactions,
    external_magnetic_field: &ExternalMagneticField,
) -> (r: Result<Vec<(Energy, State)>, IsingError>)
    requires
        external_magnetic_field@.len() < usize::BITS,
        (external_magnetic_field@.len() as int) * (external_magnetic_field@.len() as int - 1)
            <= usize::MAX as int,
    ensures
        (match r {
            Ok(v) => exact_model(interactions@, external_magnetic_field@) == Ok::<
                Seq<(Energy, Seq<bool>)>,
                IsingError,
            >(output_view(v@)),
            Err(e) => exact_model(interactions@, external_magnetic_field@) == Err::<
                Seq<(Energy, Seq<bool>)>,
                IsingError,
            >(e),
        }),
{
    let n = external_magnetic_field.len();
    let mut initial: Vec<bool> = Vec::new();
    let mut z: usize = 0;
    while z < n
        invariant
            z <= n,
            initial@ == Seq::new(z as nat, |i: int| false),
        decreases n - z,
    {
        initial.push(false);
        proof {
            assert(initial@ =~= Seq::new((z + 1) as nat, |i: int| false));
        }
        z = z + 1;
    }
    let owned_interactions = copy_interactions(interactions);
    let owned_field = copy_field(external_magnetic_field);
    let mut two_local_hamiltonian = match TwoLocalHamiltonian::new(
        owned_interactions,
        owned_field,
        Some(initial),
    ) {
        Ok(h) => h,
        Err(e) => {
            return Err(e);
        },
    };

    let initial_energy = two_local_hamiltonian.current_energy();
    let mut lowest_energy = initial_energy;
    let mut ground_states: Vec<(Energy, CompactState)> = Vec::new();
    ground_states.push((initial_energy, two_local_hamiltonian.spins.duplicate()));

    proof {
        lemma_usize_pow2_no_overflow(n as nat);
        lemma_usize_shl_is_mul(1, n);
    }
    let total: usize = 1 << n;
    let ghost start: ExactState = exact_start(two_local_hamiltonian@);
    proof {
        crate::hamiltonian::lemma_view_parts(&two_local_hamiltonian);
        assert(kept_view(ground_states@) =~= start.results);
    }

    let mut i: usize = 1;
    while i < total
        invariant
            1 <= i <= total,
            view_wf(two_local_hamiltonian@),
            two_local_hamiltonian@.field.len() == n,
            exact_run(
                ExactState {
                    ham: two_local_hamiltonian@,
                    lowest: lowest_energy,
                    results: kept_view(ground_states@),
                },
                i as int,
                total as int,
            ) == exact_run(start, 1, total as int),
        decreases total - i,
    {
        let ghost st_before: ExactState = ExactState {
            ham: two_local_hamiltonian@,
            lowest: lowest_energy,
            results: kept_view(ground_states@),
        };
        let prev_gray = gray_code(i - 1);
        let curr_gray = gray_code(i);
        proof {
            lemma_usize_pow2_no_overflow(n as nat);
            vstd::bits::lemma_u64_pow2_no_overflow(n as nat);
            vstd::bits::lemma_u64_shl_is_mul(1u64, n as u64);
            lemma_u64_facts((i - 1) as u64, i as u64, n as u64);
        }
        if let Some(bit_pos) = bit_position_changed(prev_gray, curr_gray) {
            proof {
                lemma_flip_bit_in_range(i, n);
            }
            two_local_hamiltonian.flip_spin(bit_pos as usize);
        }
        let current_energy = two_local_hamiltonian.current_energy();
        let d = sub_energy(current_energy, lowest_energy);
        let a = abs_energy(d);
        if lt_energy(a, EPSILON) {
            ground_states.push((current_energy, two_local_hamiltonian.spins.duplicate()));
        } else if lt_energy(current_energy, lowest_energy) {
            lowest_energy = current_energy;
            ground_states.clear();
            ground_states.push((current_energy, two_local_hamiltonian.spins.duplicate()));
        }
        proof {
            crate::hamiltonian::lemma_view_parts(&two_local_hamiltonian);
            let st_after = ExactState {
                ham: two_local_hamiltonian@,
                lowest: lowest_energy,
                results: kept_view(ground_states@),
            };
            assert(kept_view(ground_states@) =~= exact_step(st_before, i).results);
            assert(st_after =~= exact_step(st_before, i));
        }
        i = i + 1;
    }

    let mut out: Vec<(Energy, State)> = Vec::new();
    let mut k: usize = 0;
    while k < ground_states.len()
        invariant
            k <= ground_states@.len(),
            output_view(out@) == kept_view(ground_states@).subrange(0, k as int),
            out@.len() == k,
        decreases ground_states@.len() - k,
    {
        let e = ground_states[k].0;
        let s = ground_states[k].1.to_state();
        out.push((e, s));
        proof {
            assert(output_view(out@) =~= kept_view(ground_states@).subrange(0, k + 1 as int));
        }
        k = k + 1;
    }
    proof {
        assert(output_view(out@) =~= kept_view(ground_states@));
    }
    Ok(out)
}

/// Bit pattern of the default initial temperature, `273.15`.
pub const DEFAULT_INITIAL_TEMPERATURE: Energy = 0x4388_9333;

/// Bit pattern of the default final temperature, `0.015`.
pub const DEFAULT_FINAL_TEMPERATURE: Energy = 0x3c75_c28f;

/// Parameters for simulated annealing.
/// - `initial_temperature`: temperature at the zeroth sweep
/// - `final_temperature`: temperature at the last sweep
/// - `sweeps`: number of Metropolis proposals (one is made per sweep index
///   `1 .. sweeps`)
/// - `seed`: seed of the deterministic generator, so a run is repeatable
/// - `trace`: if true, every improving or tying state is retained; if
///   false, only the currently best set is
///
/// Temperatures are energy scalars: raw bit patterns of single-precision
/// values.
#[derive(Clone, Copy, Debug, PartialEq, Eq, Structural)]
pub struct SimulatedAnnealingConfiguration {
    pub initial_temperature: Energy,
    pub final_temperature: Energy,
    pub sweeps: usize,
    pub seed: u64,
    pub trace: bool,
}

/// The default configuration: `273.15` cooling to `0.015` over 1000
/// sweeps, seed 42, no trace.
pub open spec fn default_configuration() -> SimulatedAnnealingConfiguration {
    SimulatedAnnealingConfiguration {
        initial_temperature: DEFAULT_INITIAL_TEMPERATURE,
        final_temperature: DEFAULT_FINAL_TEMPERATURE,
        sweeps: 1000,
        seed: 42,
        trace: false,
    }
}

impl Default for SimulatedAnnealingConfiguration {
    /// Returns the default configuration.
    fn default() -> (r: SimulatedAnnealingConfiguration)
        ensures
            r == default_configuration(),
    {
        SimulatedAnnealingConfiguration {
            initial_temperature: DEFAULT_INITIAL_TEMPERATURE,
            final_temperature: DEFAULT_FINAL_TEMPERATURE,
            sweeps: 1000,
            seed: 42,
            trace: false,
        }
    }
}

/// The configuration a call runs under: the override when one is given,
/// field for field, and the default otherwise.
pub open spec fn effective_configuration(
    o: Option<&SimulatedAnnealingConfiguration>,
) -> SimulatedAnnealingConfiguration {
    match o {
        Some(c) => *c,
        None => default_configuration(),
    }
}

/// Whether the kept set already holds this `(energy, configuration)` pair,
/// comparing energies as floating-point values and configurations bit for
/// bit.
pub open spec fn member(results: Seq<(Energy, Seq<bool>)>, e: Energy, s: Seq<bool>) -> bool {
    exists|k: int|
        0 <= k < results.len() && is_eq(#[trigger] results[k].0, e) && results[k].1 == s
}

/// The running state of an annealing run.
#[verifier::ext_equal]
pub ghost struct AnnealState {
    pub ham: HamiltonianView,
    pub lowest: Energy,
    pub results: Seq<(Energy, Seq<bool>)>,
    pub epochs: Seq<Epoch>,
    pub temperature: Energy,
    pub rng: int,
}

/// One Metropolis proposal: draw a spin, flip it, draw the acceptance
/// variable (unconditionally, so the stream does not depend on the energy),
/// and accept when the energy change is within the machine epsilon or the
/// Boltzmann factor `exp(-dE / T)` beats the draw.  An accepted new low
/// restarts the kept set (or extends it, under `trace`); an accepted tie is
/// inserted if not already kept; a rejected flip is undone.  The
/// temperature cools by one factor either way.
pub open spec fn anneal_step(
    st: AnnealState,
    sweep: usize,
    n: usize,
    cooling: Energy,
    trace: bool,
) -> AnnealState {
    let (j, rng1) = pick_of(st.rng, n);
    let e_old = energy_model(st.ham);
    let ham1 = flip_model(st.ham, j);
    let e_new = energy_model(ham1);
    let de = diff_of(e_new, e_old);
    let (w, rng2) = word_of(rng1);
    let u = prod_of(UNIT_SCALE, float_of((w >> 8u32) as u64));
    let p = exp_of(quot_of(neg_of(de), prod_of(ONE, st.temperature)));
    let accepted = is_le(de, EPSILON) || is_lt(u, p);
    let t2 = prod_of(st.temperature, cooling);
    if accepted {
        if is_lt(e_new, st.lowest) {
            let results2 = if trace {
                if member(st.results, e_new, ham1.spins) {
                    st.results
                } else {
                    st.results.push((e_new, ham1.spins))
                }
            } else {
                seq![(e_new, ham1.spins)]
            };
            AnnealState {
                ham: ham1,
                lowest: e_new,
                results: results2,
                epochs: st.epochs.push(sweep),
                temperature: t2,
                rng: rng2,
            }
        } else if is_le(abs_of(diff_of(e_new, st.lowest)), EPSILON) {
            if member(st.results, e_new, ham1.spins) {
                AnnealState { ham: ham1, temperature: t2, rng: rng2, ..st }
            } else {
                AnnealState {
                    ham: ham1,
                    results: st.results.push((e_new, ham1.spins)),
                    epochs: st.epochs.push(sweep),
                    temperature: t2,
                    rng: rng2,
                    ..st
                }
            }
        } else {
            AnnealState { ham: ham1, temperature: t2, rng: rng2, ..st }
        }
    } else {
        AnnealState { ham: flip_model(ham1, j), temperature: t2, rng: rng2, ..st }
    }
}

/// The annealing state after running sweeps `sweep .. sweeps`.
pub open spec fn anneal_run(
    st: AnnealState,
    sweep: int,
    sweeps: int,
    n: usize,
    cooling: Energy,
    trace: bool,
) -> AnnealState
    decreases sweeps - sweep,
{
    if sweep < 1 || sweep >= sweeps {
        st
    } else {
        anneal_run(anneal_step(st, sweep as usize, n, cooling, trace), sweep + 1, sweeps, n, cooling, trace)
    }
}

/// The annealing state a run starts from: the all-down configuration, its
/// energy as the only kept entry, epoch zero, the initial temperature, and
/// the freshly seeded generator.
pub open spec fn anneal_start(
    h0: HamiltonianView,
    cfg: SimulatedAnnealingConfiguration,
) -> AnnealState {
    AnnealState {
        ham: h0,
        lowest: energy_model(h0),
        results: seq![(energy_model(h0), h0.spins)],
        epochs: seq![0],
        temperature: cfg.initial_temperature,
        rng: cfg.seed as int,
    }
}

/// What an annealing run yields: the kept `(energy, configuration, epoch)`
/// triples in insertion order after `sweeps - 1` Metropolis proposals under
/// the geometric cooling factor `(T_final / T_initial)^(1 / sweeps)`, or
/// the problem's first error.  Without `trace`, only the last epoch per
/// kept state is reported.
pub open spec fn anneal_model(
    inter: Seq<(SpinIndex, SpinIndex, Energy)>,
    field: Seq<Energy>,
    cfg: SimulatedAnnealingConfiguration,
) -> Result<Seq<(Energy, Seq<bool>, Epoch)>, IsingError> {
    let n = field.len();
    match build_model(inter, field, Some(Seq::new(n, |i: int| false))) {
        Err(e) => Err(e),
        Ok(h0) => {
            let cooling = pow_of(
                quot_of(cfg.final_temperature, cfg.initial_temperature),
                quot_of(ONE, float_of(cfg.sweeps as u64)),
            );
            let fin = anneal_run(
                anneal_start(h0, cfg),
                1,
                cfg.sweeps as int,
                n as usize,
                cooling,
                cfg.trace,
            );
            let epochs2 = if !cfg.trace && fin.epochs.len() >= fin.results.len() {
                fin.epochs.skip(fin.epochs.len() - fin.results.len())
            } else {
                fin.epochs
            };
            Ok(Seq::new(fin.results.len(), |i: int| (fin.results[i].0, fin.results[i].1, epochs2[i])))
        },
    }
}

/// The output triples of an annealing run, with dense configurations.
pub open spec fn triples_view(s: Seq<(Energy, State, Epoch)>) -> Seq<(Energy, Seq<bool>, Epoch)> {
    Seq::new(s.len(), |i: int| (s[i].0, s[i].1@, s[i].2))
}

/// Whether the kept set already holds the pair, by a linear scan with the
/// same comparisons the model uses.
fn contains_state(results: &Vec<(Energy, CompactState)>, e: Energy, s: &CompactState) -> (r: bool)
    ensures
        r == member(kept_view(results@), e, s@),
{
    let mut k: usize = 0;
    while k < results.len()
        invariant
            k <= results@.len(),
            !member(kept_view(results@).subrange(0, k as int), e, s@),
        decreases results@.len() - k,
    {
        if eq_energy(results[k].0, e) {
            if results[k].1.same_bits(s) {
                proof {
                    assert(is_eq(kept_view(results@)[k as int].0, e) && kept_view(results@)[
                        k as int].1 == s@);
                }
                return true;
            }
        }
        proof {
            let prefix = kept_view(results@).subrange(0, k + 1 as int);
            assert forall|m: int| 0 <= m < prefix.len() implies !(is_eq(
                #[trigger] prefix[m].0,
                e,
            ) && prefix[m].1 == s@) by {
                if m < k {
                    assert(prefix[m] == kept_view(results@).subrange(0, k as int)[m]);
                }
            }
        }
        k = k + 1;
    }
    proof {
        assert(kept_view(results@).subrange(0, results@.len() as int) =~= kept_view(results@));
    }
    false
}

/// Explores the energy landscape of the spin glass given by `interactions`
/// and `external_magnetic_field` with `sweeps - 1` Metropolis proposals
/// under geometric cooling, and returns the states of lowest observed
/// energy (every improving or tying state, under `trace`), each with the
/// sweep at which it was first kept.  The result is exactly `anneal_model`
/// of the problem and the effective configuration; an invalid problem is
/// rejected with the error that `build_model` assigns to it.
#[verifier::loop_isolation(false)]
#[verifier::rlimit(30)]
pub fn simulated_annealing(
    interactions: &Interactions,
    external_magnetic_field: &ExternalMagneticField,
    configuration_override: Option<&SimulatedAnnealingConfiguration>,
) -> (r: Result<Vec<(Energy, State, Epoch)>, IsingError>)
    requires
        (external_magnetic_field@.len() as int) * (external_magnetic_field@.len() as int - 1)
            <= usize::MAX as int,
    ensures
        (match r {
            Ok(v) => anneal_model(
                interactions@,
                external_magnetic_field@,
                effective_configuration(configuration_override),
            ) == Ok::<Seq<(Energy, Seq<bool>, Epoch)>, IsingError>(triples_view(v@)),
            Err(e) => anneal_model(
                interactions@,
                external_magnetic_field@,
                effective_configuration(configuration_override),
            ) == Err::<Seq<(Energy, Seq<bool>, Epoch)>, IsingError>(e),
        }),
{
    let mut config = SimulatedAnnealingConfiguration::default();
    match configuration_override {
        Some(o) => {
            config.initial_temperature = o.initial_temperature;
            config.final_temperature = o.final_temperature;
            config.sweeps = o.sweeps;
            config.seed = o.seed;
            config.trace = o.trace;
        },
        None => {},
    }
    proof {
        assert(config == effective_configuration(configuration_override));
    }
    let mut rng = RandomSource::from_seed(config.seed);
    let sweeps_float = energy_of_u64(config.sweeps as u64);
    let cooling_rate = pow_energy(
        div_energy(config.final_temperature, config.initial_temperature),
        div_energy(ONE, sweeps_float),
    );
    let mut temperature = config.initial_temperature;

    let n = external_magnetic_field.len();
    let mut initial: Vec<bool> = Vec::new();
    let mut z: usize = 0;
    while z < n
        invariant
            z <= n,
            initial@ == Seq::new(z as nat, |i: int| false),
        decreases n - z,
    {
        initial.push(false);
        proof {
            assert(initial@ =~= Seq::new((z + 1) as nat, |i: int| false));
        }
        z = z + 1;
    }
    let owned_interactions = copy_interactions(interactions);
    let owned_field = copy_field(external_magnetic_field);
    let mut two_local_hamiltonian = match TwoLocalHamiltonian::new(
        owned_interactions,
        owned_field,
        Some(initial),
    ) {
        Ok(h) => h,
        Err(e) => {
            return Err(e);
        },
    };

    let initial_energy = two_local_hamiltonian.current_energy();
    let mut lowest_energy = initial_energy;
    let mut ground_states: Vec<(Energy, CompactState)> = Vec::new();
    ground_states.push((initial_energy, two_local_hamiltonian.spins.duplicate()));
    let mut ground_state_update_time: Vec<Epoch> = Vec::new();
    ground_state_update_time.push(0);

    let ghost start: AnnealState = anneal_start(two_local_hamiltonian@, config);
    proof {
        crate::hamiltonian::lemma_view_parts(&two_local_hamiltonian);
        assert(kept_view(ground_states@) =~= start.results);
        assert(ground_state_update_time@ =~= start.epochs);
    }

    let mut sweep: usize = 1;
    while sweep < config.sweeps
        invariant
            1 <= sweep,
            sweep <= config.sweeps || sweep == 1,
            view_wf(two_local_hamiltonian@),
            two_local_hamiltonian@.field.len() == n,
            n >= 1,
            ground_states@.len() >= 1,
            ground_state_update_time@.len() >= ground_states@.len(),
            anneal_run(
                AnnealState {
                    ham: two_local_hamiltonian@,
                    lowest: lowest_energy,
                    results: kept_view(ground_states@),
                    epochs: ground_state_update_time@,
                    temperature: temperature,
                    rng: rng.state(),
                },
                sweep as int,
                config.sweeps as int,
                n,
                cooling_rate,
                config.trace,
            ) == anneal_run(start, 1, config.sweeps as int, n, cooling_rate, config.trace),
        decreases config.sweeps - sweep,
    {
        let ghost st_before: AnnealState = AnnealState {
            ham: two_local_hamiltonian@,
            lowest: lowest_energy,
            results: kept_view(ground_states@),
            epochs: ground_state_update_time@,
            temperature: temperature,
            rng: rng.state(),
        };
        let spin_to_flip = rng.pick(n);
        let current_energy = two_local_hamiltonian.current_energy();
        two_local_hamiltonian.flip_spin(spin_to_flip);
        let new_energy = two_local_hamiltonian.current_energy();
        let delta_energy = sub_energy(new_energy, current_energy);

        let w = rng.word();
        let shifted = w >> 8;
        let not_acceptance_probability = mul_energy(UNIT_SCALE, energy_of_u64(shifted as u64));
        let acceptance_probability = exp_energy(
            div_energy(neg_energy(delta_energy), mul_energy(ONE, temperature)),
        );
        let accepted = le_energy(delta_energy, EPSILON) || lt_energy(
            not_acceptance_probability,
            acceptance_probability,
        );
        if accepted {
            if lt_energy(new_energy, lowest_energy) {
                lowest_energy = new_energy;
                if !config.trace {
                    ground_states.clear();
                    ground_states.push((new_energy, two_local_hamiltonian.spins.duplicate()));
                } else {
                    if !contains_state(&ground_states, new_energy, &two_local_hamiltonian.spins) {
                        ground_states.push((new_energy, two_local_hamiltonian.spins.duplicate()));
                    }
                }
                ground_state_update_time.push(sweep);
            } else {
                let tie = abs_energy(sub_energy(new_energy, lowest_energy));
                if le_energy(tie, EPSILON) {
                    if !contains_state(&ground_states, new_energy, &two_local_hamiltonian.spins) {
                        ground_states.push((new_energy, two_local_hamiltonian.spins.duplicate()));
                        ground_state_update_time.push(sweep);
                    }
                }
            }
        } else {
            two_local_hamiltonian.flip_spin(spin_to_flip);
        }
        temperature = mul_energy(temperature, cooling_rate);
        proof {
            crate::hamiltonian::lemma_view_parts(&two_local_hamiltonian);
            let st_step = anneal_step(st_before, sweep, n, cooling_rate, config.trace);
            assert(kept_view(ground_states@) =~= st_step.results);
            let st_after = AnnealState {
                ham: two_local_hamiltonian@,
                lowest: lowest_energy,
                results: kept_view(ground_states@),
                epochs: ground_state_update_time@,
                temperature: temperature,
                rng: rng.state(),
            };
            assert(st_after =~= st_step);
        }
        sweep = sweep + 1;
    }

    if !config.trace {
        let cut = ground_state_update_time.len() - ground_states.len();
        let mut trimmed: Vec<Epoch> = Vec::new();
        let mut t: usize = 0;
        while t < ground_states.len()
            invariant
                t <= ground_states@.len(),
                cut + ground_states@.len() == ground_state_update_time@.len(),
                trimmed@ == ground_state_update_time@.subrange(cut as int, cut + t),
            decreases ground_states@.len() - t,
        {
            trimmed.push(ground_state_update_time[cut + t]);
            proof {
                assert(trimmed@ =~= ground_state_update_time@.subrange(cut as int, cut + t + 1));
            }
            t = t + 1;
        }
        proof {
            assert(trimmed@ =~= ground_state_update_time@.skip(
                ground_state_update_time@.len() - ground_states@.len(),
            ));
        }
        ground_state_update_time = trimmed;
    }

    let mut out: Vec<(Energy, State, Epoch)> = Vec::new();
    let mut k: usize = 0;
    let ghost final_results: Seq<(Energy, Seq<bool>)> = kept_view(ground_states@);
    let ghost final_epochs: Seq<Epoch> = ground_state_update_time@;
    while k < ground_states.len()
        invariant
            k <= ground_states@.len(),
            kept_view(ground_states@) == final_results,
            ground_state_update_time@ == final_epochs,
            final_epochs.len() >= final_results.len(),
            final_results.len() == ground_states@.len(),
            out@.len() == k,
            triples_view(out@) == Seq::new(
                final_results.len(),
                |i: int| (final_results[i].0, final_results[i].1, final_epochs[i]),
            ).subrange(0, k as int),
        decreases ground_states@.len() - k,
    {
        let e = ground_states[k].0;
        let s = ground_states[k].1.to_state();
        let ep = ground_state_update_time[k];
        out.push((e, s, ep));
        proof {
            assert(triples_view(out@) =~= Seq::new(
                final_results.len(),
                |i: int| (final_results[i].0, final_results[i].1, final_epochs[i]),
            ).subrange(0, k + 1 as int));
        }
        k = k + 1;
    }
    proof {
        assert(triples_view(out@) =~= Seq::new(
            final_results.len(),
            |i: int| (final_results[i].0, final_results[i].1, final_epochs[i]),
        ));
    }
    Ok(out)
}

/// All kept configurations have one bit per spin.
pub open spec fn states_len_ok(results: Seq<(Energy, Seq<bool>)>, n: nat) -> bool {
    forall|k: int| 0 <= k < results.len() ==> (#[trigger] results[k]).1.len() == n
}

/// One exact step keeps the spin count of the Hamiltonian and of every
/// kept configuration.
proof fn lemma_exact_step_lens(st: ExactState, i: usize, n: nat)
    requires
        st.ham.spins.len() == n,
        st.ham.field.len() == n,
        states_len_ok(st.results, n),
    ensures
        exact_step(st, i).ham.spins.len() == n,
        exact_step(st, i).ham.field.len() == n,
        states_len_ok(exact_step(st, i).results, n),
{
    let prev = gray_spec((i - 1) as usize);
    let curr = gray_spec(i);
    let ham2 = match bit_changed(prev, curr) {
        Some(b) => flip_model(st.ham, b as usize),
        None => st.ham,
    };
    let e = energy_model(ham2);
    let st2 = exact_step(st, i);
    assert(ham2.spins.len() == n);
    assert forall|k: int| 0 <= k < st2.results.len() implies (#[trigger] st2.results[k]).1.len()
        == n by {
        if is_lt(abs_of(diff_of(e, st.lowest)), EPSILON) {
            if k < st.results.len() {
                assert(st2.results[k] == st.results[k]);
            } else {
                assert(st2.results[k] == (e, ham2.spins));
            }
        } else if is_lt(e, st.lowest) {
            assert(st2.results[k] == (e, ham2.spins));
        } else {
            assert(st2.results[k] == st.results[k]);
        }
    }
}

/// An exact run keeps the spin count of the Hamiltonian and of every kept
/// configuration.
pub proof fn lemma_exact_run_lens(st: ExactState, i: int, total: int, n: nat)
    requires
        st.ham.spins.len() == n,
        st.ham.field.len() == n,
        states_len_ok(st.results, n),
    ensures
        exact_run(st, i, total).ham.spins.len() == n,
        exact_run(st, i, total).ham.field.len() == n,
        states_len_ok(exact_run(st, i, total).results, n),
    decreases total - i,
{
    if 1 <= i < total {
        lemma_exact_step_lens(st, i as usize, n);
        lemma_exact_run_lens(exact_step(st, i as usize), i + 1, total, n);
    }
}

/// One annealing step keeps the spin count of the Hamiltonian and of every
/// kept configuration.
proof fn lemma_anneal_step_lens(
    st: AnnealState,
    sweep: usize,
    m: usize,
    cooling: Energy,
    trace: bool,
    n: nat,
)
    requires
        st.ham.spins.len() == n,
        st.ham.field.len() == n,
        states_len_ok(st.results, n),
    ensures
        anneal_step(st, sweep, m, cooling, trace).ham.spins.len() == n,
        anneal_step(st, sweep, m, cooling, trace).ham.field.len() == n,
        states_len_ok(anneal_step(st, sweep, m, cooling, trace).results, n),
{
    let (j, rng1) = pick_of(st.rng, m);
    let ham1 = flip_model(st.ham, j);
    let e_new = energy_model(ham1);
    let st2 = anneal_step(st, sweep, m, cooling, trace);
    assert(ham1.spins.len() == n);
    assert forall|k: int| 0 <= k < st2.results.len() implies (#[trigger] st2.results[k]).1.len()
        == n by {
        if st2.results == st.results {
            assert(st2.results[k] == st.results[k]);
        } else if st2.results == st.results.push((e_new, ham1.spins)) {
            if k < st.results.len() {
                assert(st2.results[k] == st.results[k]);
            } else {
                assert(st2.results[k] == (e_new, ham1.spins));
            }
        } else {
            assert(st2.results == seq![(e_new, ham1.spins)]);
            assert(st2.results[k] == (e_new, ham1.spins));
        }
    }
}

/// An annealing run keeps the spin count of the Hamiltonian and of every
/// kept configuration.
pub proof fn lemma_anneal_run_lens(
    st: AnnealState,
    sweep: int,
    sweeps: int,
    m: usize,
    cooling: Energy,
    trace: bool,
    n: nat,
)
    requires
        st.ham.spins.len() == n,
        st.ham.field.len() == n,
        states_len_ok(st.results, n),
    ensures
        anneal_run(st, sweep, sweeps, m, cooling, trace).ham.spins.len() == n,
        anneal_run(st, sweep, sweeps, m, cooling, trace).ham.field.len() == n,
        states_len_ok(anneal_run(st, sweep, sweeps, m, cooling, trace).results, n),
    decreases sweeps - sweep,
{
    if 1 <= sweep < sweeps {
        lemma_anneal_step_lens(st, sweep as usize, m, cooling, trace, n);
        lemma_anneal_run_lens(
            anneal_step(st, sweep as usize, m, cooling, trace),
            sweep + 1,
            sweeps,
            m,
            cooling,
            trace,
            n,
        );
    }
}

/// The Gray codes of `i - 1` and `i` stay below `2^n` when `i` does.
proof fn lemma_u64_facts(p: u64, i: u64, n: u64)
    requires
        n < 64,
        1 <= i,
        i < (1u64 << n),
        p == i - 1,
    ensures
        (p ^ (p >> 1u64)) < (1u64 << n),
        (i ^ (i >> 1u64)) < (1u64 << n),
        (p ^ (p >> 1u64)) != (i ^ (i >> 1u64)),
{
    lemma_gray_below(i, n);
    lemma_gray_below(p, n);
    lemma_gray_adjacent_differ(p, i);
}

/// The bit in which consecutive Gray codes differ addresses a spin.
proof fn lemma_flip_bit_in_range(i: usize, n: usize)
    requires
        n < usize::BITS,
        1 <= i,
        i < pow2(n as nat),
        bit_changed(gray_spec((i - 1) as usize), gray_spec(i)) is Some,
    ensures
        bit_changed(gray_spec((i - 1) as usize), gray_spec(i)).unwrap() < n,
{
    lemma_usize_pow2_no_overflow(n as nat);
    let iu = i as u64;
    let nu = n as u64;
    assert(nu < 64);
    assert(pow2(n as nat) <= u64::MAX) by {
        vstd::bits::lemma_u64_pow2_no_overflow(n as nat);
    }
    assert((1u64 << nu) == pow2(n as nat)) by {
        vstd::bits::lemma_u64_shl_is_mul(1u64, nu);
    }
    assert(iu < (1u64 << nu));
    let pu = (i - 1) as u64;
    lemma_u64_facts(pu, iu, nu);
    let a = gray_spec((i - 1) as usize);
    let b = gray_spec(i);
    assert((a as u64) == (pu ^ (pu >> 1u64)) && (b as u64) == (iu ^ (iu >> 1u64))) by {
        lemma_usize_gray_matches(i, n);
    }
    let d = (a as u64) ^ (b as u64);
    assert(d != 0) by (bit_vector)
        requires
            (a as u64) != (b as u64),
            d == (a as u64) ^ (b as u64),
    ;
    assert(d < (1u64 << nu)) by (bit_vector)
        requires
            (a as u64) < (1u64 << nu),
            (b as u64) < (1u64 << nu),
            nu < 64,
            d == (a as u64) ^ (b as u64),
    ;
    lemma_trailing_zeros_below(d, nu);
}

/// Gray codes computed on machine words match their 64-bit counterparts.
proof fn lemma_usize_gray_matches(i: usize, n: usize)
    requires
        n < usize::BITS,
        1 <= i,
        i < pow2(n as nat),
    ensures
        (gray_spec((i - 1) as usize) as u64) == (((i - 1) as u64) ^ (((i - 1) as u64) >> 1u64)),
        (gray_spec(i) as u64) == ((i as u64) ^ ((i as u64) >> 1u64)),
{
    let ip = (i - 1) as usize;
    assert((gray_spec(i) as u64) == ((i as u64) ^ ((i as u64) >> 1u64))) by (bit_vector);
    assert((gray_spec(ip) as u64) == ((ip as u64) ^ ((ip as u64) >> 1u64))) by (bit_vector);
    assert((ip as u64) == (i - 1) as u64);
}

/// Every kept pair's energy ties with the running lowest: it equals it, or
/// its absolute difference from it is strictly below the machine epsilon.
pub open spec fn exact_results_sound(st: ExactState) -> bool {
    forall|k: int|
        0 <= k < st.results.len() ==> (#[trigger] st.results[k]).0 == st.lowest || is_lt(
            abs_of(diff_of(st.results[k].0, st.lowest)),
            EPSILON,
        )
}

/// One exact step preserves soundness of the kept set.
proof fn lemma_exact_step_sound(st: ExactState, i: usize)
    requires
        exact_results_sound(st),
    ensures
        exact_results_sound(exact_step(st, i)),
{
    let prev = gray_spec((i - 1) as usize);
    let curr = gray_spec(i);
    let ham2 = match bit_changed(prev, curr) {
        Some(b) => flip_model(st.ham, b as usize),
        None => st.ham,
    };
    let e = energy_model(ham2);
    let st2 = exact_step(st, i);
    assert forall|k: int|
        0 <= k < st2.results.len() implies (#[trigger] st2.results[k]).0 == st2.lowest || is_lt(
        abs_of(diff_of(st2.results[k].0, st2.lowest)),
        EPSILON,
    ) by {
        if is_lt(abs_of(diff_of(e, st.lowest)), EPSILON) {
            if k < st.results.len() {
                assert(st2.results[k] == st.results[k]);
            } else {
                assert(st2.results[k] == (e, ham2.spins));
            }
        } else if is_lt(e, st.lowest) {
            assert(st2.results[k] == (e, ham2.spins));
        } else {
            assert(st2.results[k] == st.results[k]);
        }
    }
}

/// Exact-solver soundness: however many steps an enumeration runs, every
/// kept pair's energy equals the lowest energy the run has seen, or lies
/// strictly within the machine epsilon of it.  Applied to `exact_model`,
/// whose kept set starts sound, this pins every returned ground state to
/// the minimum the enumeration found.
pub proof fn law_exact_solver_soundness(st: ExactState, i: int, total: int)
    requires
        exact_results_sound(st),
    ensures
        exact_results_sound(exact_run(st, i, total)),
    decreases total - i,
{
    if 1 <= i < total {
        lemma_exact_step_sound(st, i as usize);
        law_exact_solver_soundness(exact_step(st, i as usize), i + 1, total);
    }
}

/// Every kept pair's energy ties with the running lowest, up to the
/// machine epsilon inclusively (the annealer's tie test).
pub open spec fn anneal_results_sound(st: AnnealState) -> bool {
    forall|k: int|
        0 <= k < st.results.len() ==> (#[trigger] st.results[k]).0 == st.lowest || is_le(
            abs_of(diff_of(st.results[k].0, st.lowest)),
            EPSILON,
        )
}

/// One Metropolis step without `trace` preserves soundness of the kept set.
proof fn lemma_anneal_step_sound(st: AnnealState, sweep: usize, m: usize, cooling: Energy)
    requires
        anneal_results_sound(st),
    ensures
        anneal_results_sound(anneal_step(st, sweep, m, cooling, false)),
{
    let (j, rng1) = pick_of(st.rng, m);
    let ham1 = flip_model(st.ham, j);
    let e_new = energy_model(ham1);
    let st2 = anneal_step(st, sweep, m, cooling, false);
    assert forall|k: int|
        0 <= k < st2.results.len() implies (#[trigger] st2.results[k]).0 == st2.lowest || is_le(
        abs_of(diff_of(st2.results[k].0, st2.lowest)),
        EPSILON,
    ) by {
        if st2.results == st.results && st2.lowest == st.lowest {
            assert(st2.results[k] == st.results[k]);
        } else if st2.lowest == e_new && st2.results == seq![(e_new, ham1.spins)] {
            assert(st2.results[k] == (e_new, ham1.spins));
        } else {
            assert(st2.results == st.results.push((e_new, ham1.spins)) && st2.lowest
                == st.lowest);
            if k < st.results.len() {
                assert(st2.results[k] == st.results[k]);
            } else {
                assert(st2.results[k] == (e_new, ham1.spins));
            }
        }
    }
}

/// Annealing soundness without `trace`: however many sweeps a run makes,
/// every kept pair's energy equals the lowest energy the run has retained,
/// or lies within the machine epsilon of it.  (With `trace`, the kept set
/// deliberately keeps the whole improving history, whose older entries lie
/// below no bound.)
pub proof fn law_annealing_soundness(
    st: AnnealState,
    sweep: int,
    sweeps: int,
    m: usize,
    cooling: Energy,
)
    requires
        anneal_results_sound(st),
    ensures
        anneal_results_sound(anneal_run(st, sweep, sweeps, m, cooling, false)),
    decreases sweeps - sweep,
{
    if 1 <= sweep < sweeps {
        lemma_anneal_step_sound(st, sweep as usize, m, cooling);
        law_annealing_soundness(
            anneal_step(st, sweep as usize, m, cooling, false),
            sweep + 1,
            sweeps,
            m,
            cooling,
        );
    }
}

/// Annealing determinism: the annealer's contract pins its output to
/// `anneal_model` of the problem and configuration alone, so two runs on
/// equal inputs yield byte-for-byte equal outputs.
pub proof fn law_annealing_determinism(
    inter1: Seq<(SpinIndex, SpinIndex, Energy)>,
    field1: Seq<Energy>,
    cfg1: SimulatedAnnealingConfiguration,
    inter2: Seq<(SpinIndex, SpinIndex, Energy)>,
    field2: Seq<Energy>,
    cfg2: SimulatedAnnealingConfiguration,
)
    requires
        inter1 == inter2,
        field1 == field2,
        cfg1 == cfg2,
    ensures
        anneal_model(inter1, field1, cfg1) == anneal_model(inter2, field2, cfg2),
{
}

/// Gray-code ordering: consecutive Gray codes differ in exactly one bit,
/// the one the enumeration flips.  So consecutive configurations the exact
/// solver visits differ in exactly one spin: each step of `exact_step` is
/// one `flip_model` at the changed position.
pub proof fn law_gray_code_single_bit(i: usize)
    requires
        1 <= i,
    ensures
        bit_changed(gray_spec((i - 1) as usize), gray_spec(i)) is Some,
        (gray_spec((i - 1) as usize) as u64) ^ (gray_spec(i) as u64) == (1u64 << (bit_changed(
            gray_spec((i - 1) as usize),
            gray_spec(i),
        ).unwrap() as u64)),
{
    let p = (i - 1) as usize;
    let pu = (i - 1) as u64;
    let iu = i as u64;
    assert((gray_spec(i) as u64) == ((i as u64) ^ ((i as u64) >> 1u64))) by (bit_vector);
    assert((gray_spec(p) as u64) == ((p as u64) ^ ((p as u64) >> 1u64))) by (bit_vector);
    assert((p as u64) == pu);
    lemma_gray_adjacent_differ(pu, iu);
    assert(gray_spec(p) != gray_spec(i)) by {
        assert((gray_spec(p) as u64) != (gray_spec(i) as u64));
    }
    let d = (gray_spec(p) as u64) ^ (gray_spec(i) as u64);
    assert(d == (pu ^ (pu >> 1u64)) ^ (iu ^ (iu >> 1u64)));
    assert(d != 0) by (bit_vector)
        requires
            d == (pu ^ (pu >> 1u64)) ^ (iu ^ (iu >> 1u64)) && pu == iu - 1 && 1 <= iu,
    ;
    axiom_u64_trailing_zeros(d);
    let t = u64_trailing_zeros(d) as u64;
    assert(d == (1u64 << t)) by (bit_vector)
        requires
            d == (pu ^ (pu >> 1u64)) ^ (iu ^ (iu >> 1u64)),
            pu == iu - 1,
            1 <= iu,
            t < 64,
            (d >> t) & 1u64 == 1u64,
            forall|q: u64| 0 <= q < t ==> #[trigger] (d >> q) & 1u64 == 0u64,
    ;
}

/// The Gray code is injective, so the exact solver visits every one of the
/// `2^n` configurations exactly once.
pub proof fn law_gray_code_injective(a: usize, b: usize)
    requires
        gray_spec(a) == gray_spec(b),
    ensures
        a == b,
{
    assert((a ^ (a >> 1) == b ^ (b >> 1)) ==> a == b) by (bit_vector);
}

/// The configuration the enumeration visits at step `t`: bit `j` of the
/// `t`th Gray code is spin `j`.
pub open spec fn code_state(t: usize, n: nat) -> Seq<bool> {
    Seq::new(n, |j: int| (gray_spec(t) >> (j as usize)) & 1 == 1)
}

/// No two kept entries hold the same configuration.
pub open spec fn results_distinct(results: Seq<(Energy, Seq<bool>)>) -> bool {
    forall|k1: int, k2: int|
        0 <= k1 < k2 < results.len() ==> (#[trigger] results[k1]).1 != (#[trigger] results[k2]).1
}

/// Every kept entry is a configuration visited before step `t`.
pub open spec fn results_visited(results: Seq<(Energy, Seq<bool>)>, t: usize, n: nat) -> bool {
    forall|k: int|
        0 <= k < results.len() ==> exists|u: usize|
            u < t && (#[trigger] results[k]).1 == #[trigger] code_state(u, n)
}

/// Values below `2^n` that differ, differ in a bit below `n`.
proof fn lemma_low_bits_differ(x: u64, y: u64, n: u64)
    requires
        n < 64,
        x < (1u64 << n),
        y < (1u64 << n),
        x != y,
    ensures
        u64_trailing_zeros(x ^ y) < n,
        ((x >> (u64_trailing_zeros(x ^ y) as u64)) & 1u64 == 1u64) != ((y >> (u64_trailing_zeros(
            x ^ y,
        ) as u64)) & 1u64 == 1u64),
{
    let d = x ^ y;
    assert(d != 0 && d < (1u64 << n)) by (bit_vector)
        requires
            n < 64 && x < (1u64 << n) && y < (1u64 << n) && x != y && d == x ^ y,
    ;
    lemma_trailing_zeros_below(d, n);
    axiom_u64_trailing_zeros(d);
    let t = u64_trailing_zeros(d) as u64;
    assert(((x >> t) & 1u64 == 1u64) != ((y >> t) & 1u64 == 1u64)) by (bit_vector)
        requires
            d == x ^ y && t < 64 && (d >> t) & 1u64 == 1u64,
    ;
}

/// A bit of a machine word reads the same through its 64-bit image.
proof fn lemma_usize_bit_matches(v: usize, j: usize)
    requires
        j < usize::BITS,
    ensures
        ((v >> j) & 1 == 1) == (((v as u64) >> (j as u64)) & 1u64 == 1u64),
{
    assert(((v >> j) & 1 == 1) == (((v as u64) >> (j as u64)) & 1u64 == 1u64)) by (bit_vector)
        requires
            j < usize::BITS,
    ;
}

/// Distinct steps of an `n`-spin enumeration visit distinct configurations.
proof fn lemma_code_states_distinct(t1: usize, t2: usize, n: nat)
    requires
        n < usize::BITS,
        t1 < pow2(n),
        t2 < pow2(n),
        t1 != t2,
    ensures
        code_state(t1, n) != code_state(t2, n),
{
    lemma_usize_pow2_no_overflow(n);
    vstd::bits::lemma_u64_pow2_no_overflow(n);
    vstd::bits::lemma_u64_shl_is_mul(1u64, n as u64);
    let x = gray_spec(t1);
    let y = gray_spec(t2);
    assert((gray_spec(t1) as u64) == ((t1 as u64) ^ ((t1 as u64) >> 1u64))) by (bit_vector);
    assert((gray_spec(t2) as u64) == ((t2 as u64) ^ ((t2 as u64) >> 1u64))) by (bit_vector);
    lemma_gray_below(t1 as u64, n as u64);
    lemma_gray_below(t2 as u64, n as u64);
    if x == y {
        law_gray_code_injective(t1, t2);
    }
    assert((x as u64) != (y as u64));
    lemma_low_bits_differ(x as u64, y as u64, n as u64);
    let t = u64_trailing_zeros((x as u64) ^ (y as u64));
    assert(t < n);
    lemma_usize_bit_matches(x, t as usize);
    lemma_usize_bit_matches(y, t as usize);
    assert(((t as usize) as u64) == (t as u64));
    assert(code_state(t1, n)[t as int] != code_state(t2, n)[t as int]);
}

/// One enumeration step carries the visited configuration from one Gray
/// code to the next, and keeps the kept set distinct and within the visited
/// configurations.
proof fn lemma_exact_step_distinct(st: ExactState, i: usize, n: nat)
    requires
        n < usize::BITS,
        1 <= i,
        i < pow2(n),
        st.ham.spins == code_state((i - 1) as usize, n),
        results_visited(st.results, i, n),
        results_distinct(st.results),
    ensures
        exact_step(st, i).ham.spins == code_state(i, n),
        results_visited(exact_step(st, i).results, (i + 1) as usize, n),
        results_distinct(exact_step(st, i).results),
{
    lemma_usize_pow2_no_overflow(n);
    let p = (i - 1) as usize;
    let prev = gray_spec(p);
    let curr = gray_spec(i);
    law_gray_code_single_bit(i);
    let b = bit_changed(prev, curr).unwrap();
    lemma_flip_bit_in_range(i, n as usize);
    assert(b < n);
    let ham2 = flip_model(st.ham, b as usize);
    assert(st.ham.spins.len() == n);
    assert(ham2.spins == st.ham.spins.update(b as usize as int, !st.ham.spins[b as usize as int]));
    assert(ham2.spins =~= code_state(i, n)) by {
        assert forall|j: int| 0 <= j < n implies ham2.spins[j] == code_state(i, n)[j] by {
            lemma_usize_bit_matches(prev, j as usize);
            lemma_usize_bit_matches(curr, j as usize);
            let ju = j as u64;
            let bu = b as u64;
            let pu = prev as u64;
            let cu = curr as u64;
            assert((ju == bu) == (j == b as int));
            assert(((cu >> ju) & 1u64 == 1u64) == (if ju == bu {
                !((pu >> ju) & 1u64 == 1u64)
            } else {
                (pu >> ju) & 1u64 == 1u64
            })) by (bit_vector)
                requires
                    (pu ^ cu) == (1u64 << bu),
                    ju < 64,
                    bu < 64,
            ;
        }
    }
    let e = energy_model(ham2);
    let st2 = exact_step(st, i);
    assert(st2.ham == ham2);

    if is_lt(abs_of(diff_of(e, st.lowest)), EPSILON) {
        assert(st2.results == st.results.push((e, ham2.spins)));
        assert forall|k: int| 0 <= k < st2.results.len() implies exists|u: usize|
            u < i + 1 && (#[trigger] st2.results[k]).1 == #[trigger] code_state(u, n) by {
            if k < st.results.len() {
                assert(st2.results[k] == st.results[k]);
                let u = choose|u: usize| u < i && st.results[k].1 == #[trigger] code_state(u, n);
                assert(u < i + 1 && st2.results[k].1 == code_state(u, n));
            } else {
                assert(st2.results[k].1 == code_state(i, n));
            }
        }
        assert forall|k1: int, k2: int|
            0 <= k1 < k2 < st2.results.len() implies (#[trigger] st2.results[k1]).1 != (
        #[trigger] st2.results[k2]).1 by {
            if k2 < st.results.len() {
                assert(st2.results[k1] == st.results[k1] && st2.results[k2] == st.results[k2]);
            } else {
                assert(st2.results[k1] == st.results[k1]);
                assert(st2.results[k2].1 == code_state(i, n));
                let u = choose|u: usize| u < i && st.results[k1].1 == #[trigger] code_state(u, n);
                lemma_code_states_distinct(u, i, n);
            }
        }
    } else if is_lt(e, st.lowest) {
        assert(st2.results == seq![(e, ham2.spins)]);
        assert forall|k: int| 0 <= k < st2.results.len() implies exists|u: usize|
            u < i + 1 && (#[trigger] st2.results[k]).1 == #[trigger] code_state(u, n) by {
            assert(st2.results[k].1 == code_state(i, n));
        }
    } else {
        assert(st2.results == st.results);
        assert forall|k: int| 0 <= k < st2.results.len() implies exists|u: usize|
            u < i + 1 && (#[trigger] st2.results[k]).1 == #[trigger] code_state(u, n) by {
            let u = choose|u: usize| u < i && st.results[k].1 == #[trigger] code_state(u, n);
            assert(u < i + 1 && st2.results[k].1 == code_state(u, n));
        }
    }
}

/// Over a whole run, the kept configurations stay distinct: together with
/// the injectivity of the Gray code, every configuration is kept at most
/// once.
proof fn lemma_exact_run_distinct(st: ExactState, i: usize, total: int, n: nat)
    requires
        n < usize::BITS,
        total == pow2(n),
        1 <= i,
        i as int <= total,
        st.ham.spins == code_state((i - 1) as usize, n),
        results_visited(st.results, i, n),
        results_distinct(st.results),
    ensures
        results_distinct(exact_run(st, i as int, total).results),
    decreases total - i,
{
    if (i as int) < total {
        lemma_usize_pow2_no_overflow(n);
        lemma_exact_step_distinct(st, i, n);
        lemma_exact_run_distinct(exact_step(st, i), (i + 1) as usize, total, n);
    }
}

/// Exact-solver uniqueness: every configuration in the output appears
/// exactly once.  (That every configuration tying with the minimum is
/// present relies on the tolerance windows of successive lows staying
/// separated, which the uninterpreted scalar comparisons cannot express;
/// the concrete scenarios in the test suite check it on real problems.)
pub proof fn law_exact_solver_states_distinct(
    inter: Seq<(SpinIndex, SpinIndex, Energy)>,
    field: Seq<Energy>,
)
    requires
        field.len() < usize::BITS,
    ensures
        (match exact_model(inter, field) {
            Ok(results) => results_distinct(results),
            Err(e) => true,
        }),
{
    let n = field.len();
    match build_model(inter, field, Some(Seq::new(n, |i: int| false))) {
        Err(e) => {
        },
        Ok(h0) => {
            let st0 = exact_start(h0);
            assert(gray_spec(0) == 0) by (bit_vector);
            assert(h0.spins =~= code_state(0, n)) by {
                assert forall|j: int| 0 <= j < n implies !code_state(0, n)[j] by {
                    let jz = j as usize;
                    assert(((0usize >> jz) & 1) == 0) by (bit_vector);
                }
            }
            assert forall|k: int| 0 <= k < st0.results.len() implies exists|u: usize|
                u < 1 && (#[trigger] st0.results[k]).1 == #[trigger] code_state(u, n) by {
                assert(st0.results[k].1 == code_state(0, n));
            }
            lemma_usize_pow2_no_overflow(n);
            vstd::arithmetic::power2::lemma_pow2_pos(n);
            lemma_exact_run_distinct(st0, 1, pow2(n) as int, n);
        },
    }
}

/// Exact-solver soundness, at the model: whenever a problem is accepted,
/// every pair the finished enumeration keeps has an energy that equals the
/// lowest energy the run found, or lies strictly within the machine epsilon
/// of it.
pub proof fn law_exact_model_soundness(
    inter: Seq<(SpinIndex, SpinIndex, Energy)>,
    field: Seq<Energy>,
)
    ensures
        (match build_model(inter, field, Some(Seq::new(field.len(), |i: int| false))) {
            Ok(h0) => exact_results_sound(
                exact_run(exact_start(h0), 1, pow2(field.len()) as int),
            ),
            Err(e) => true,
        }),
{
    match build_model(inter, field, Some(Seq::new(field.len(), |i: int| false))) {
        Ok(h0) => {
            law_exact_solver_soundness(exact_start(h0), 1, pow2(field.len()) as int);
        },
        Err(e) => {
        },
    }
}

/// Annealing soundness, at the model: whenever a problem is accepted and
/// `trace` is off, every pair the finished run keeps has an energy that
/// equals the lowest retained energy, or lies within the machine epsilon of
/// it.
pub proof fn law_anneal_model_soundness(
    inter: Seq<(SpinIndex, SpinIndex, Energy)>,
    field: Seq<Energy>,
    cfg: SimulatedAnnealingConfiguration,
)
    requires
        !cfg.trace,
    ensures
        (match build_model(inter, field, Some(Seq::new(field.len(), |i: int| false))) {
            Ok(h0) => anneal_results_sound(
                anneal_run(
                    anneal_start(h0, cfg),
                    1,
                    cfg.sweeps as int,
                    field.len() as usize,
                    pow_of(
                        quot_of(cfg.final_temperature, cfg.initial_temperature),
                        quot_of(ONE, float_of(cfg.sweeps as u64)),
                    ),
                    cfg.trace,
                ),
            ),
            Err(e) => true,
        }),
{
    match build_model(inter, field, Some(Seq::new(field.len(), |i: int| false))) {
        Ok(h0) => {
            law_annealing_soundness(
                anneal_start(h0, cfg),
                1,
                cfg.sweeps as int,
                field.len() as usize,
                pow_of(
                    quot_of(cfg.final_temperature, cfg.initial_temperature),
                    quot_of(ONE, float_of(cfg.sweeps as u64)),
                ),
            );
        },
        Err(e) => {
        },
    }
}

/// The kept set is never empty, and without `trace` its first entry always
/// carries the lowest retained energy (so the output starts at the best
/// energy and every later entry ties with it).
pub open spec fn first_is_best(st: AnnealState) -> bool {
    st.results.len() >= 1 && st.results[0].0 == st.lowest
}

/// One Metropolis step without `trace` keeps the first entry best.
proof fn lemma_anneal_step_first(st: AnnealState, sweep: usize, m: usize, cooling: Energy)
    requires
        first_is_best(st),
    ensures
        first_is_best(anneal_step(st, sweep, m, cooling, false)),
{
}

/// Without `trace`, however many sweeps a run makes, the kept set stays
/// nonempty and its first entry carries the lowest retained energy.
pub proof fn law_annealing_first_is_best(
    st: AnnealState,
    sweep: int,
    sweeps: int,
    m: usize,
    cooling: Energy,
)
    requires
        first_is_best(st),
    ensures
        first_is_best(anneal_run(st, sweep, sweeps, m, cooling, false)),
    decreases sweeps - sweep,
{
    if 1 <= sweep < sweeps {
        lemma_anneal_step_first(st, sweep as usize, m, cooling);
        law_annealing_first_is_best(
            anneal_step(st, sweep as usize, m, cooling, false),
            sweep + 1,
            sweeps,
            m,
            cooling,
        );
    }
}

/// The exact solver's kept set is never empty.
pub proof fn law_exact_solver_nonempty(st: ExactState, i: int, total: int)
    requires
        st.results.len() >= 1,
    ensures
        exact_run(st, i, total).results.len() >= 1,
    decreases total - i,
{
    if 1 <= i < total {
        law_exact_solver_nonempty(exact_step(st, i as usize), i + 1, total);
    }
}

/// No two kept entries agree both on energy (as floating-point values) and
/// on configuration: the annealer returns a set.
pub open spec fn results_deduplicated(results: Seq<(Energy, Seq<bool>)>) -> bool {
    forall|k1: int, k2: int|
        0 <= k1 < k2 < results.len() ==> !(is_eq((#[trigger] results[k1]).0, (
        #[trigger] results[k2]).0) && results[k1].1 == results[k2].1)
}

/// One Metropolis step inserts a pair only when it is not yet kept.
proof fn lemma_anneal_step_dedup(
    st: AnnealState,
    sweep: usize,
    m: usize,
    cooling: Energy,
    trace: bool,
)
    requires
        results_deduplicated(st.results),
    ensures
        results_deduplicated(anneal_step(st, sweep, m, cooling, trace).results),
{
    let (j, rng1) = pick_of(st.rng, m);
    let ham1 = flip_model(st.ham, j);
    let e_new = energy_model(ham1);
    let st2 = anneal_step(st, sweep, m, cooling, trace);
    assert forall|k1: int, k2: int|
        0 <= k1 < k2 < st2.results.len() implies !(is_eq((#[trigger] st2.results[k1]).0, (
    #[trigger] st2.results[k2]).0) && st2.results[k1].1 == st2.results[k2].1) by {
        if st2.results == st.results {
            assert(st2.results[k1] == st.results[k1] && st2.results[k2] == st.results[k2]);
        } else if st2.results == seq![(e_new, ham1.spins)] {
        } else {
            assert(st2.results == st.results.push((e_new, ham1.spins)) && !member(
                st.results,
                e_new,
                ham1.spins,
            ));
            if k2 < st.results.len() {
                assert(st2.results[k1] == st.results[k1] && st2.results[k2] == st.results[k2]);
            } else {
                assert(st2.results[k1] == st.results[k1]);
                assert(st2.results[k2] == (e_new, ham1.spins));
            }
        }
    }
}

/// However many sweeps a run makes, the kept set never holds the same
/// `(energy, configuration)` pair twice.
pub proof fn law_annealing_no_duplicates(
    st: AnnealState,
    sweep: int,
    sweeps: int,
    m: usize,
    cooling: Energy,
    trace: bool,
)
    requires
        results_deduplicated(st.results),
    ensures
        results_deduplicated(anneal_run(st, sweep, sweeps, m, cooling, trace).results),
    decreases sweeps - sweep,
{
    if 1 <= sweep < sweeps {
        lemma_anneal_step_dedup(st, sweep as usize, m, cooling, trace);
        law_annealing_no_duplicates(
            anneal_step(st, sweep as usize, m, cooling, trace),
            sweep + 1,
            sweeps,
            m,
            cooling,
            trace,
        );
    }
}

} // verus!
