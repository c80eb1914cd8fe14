//! A classical simulator of Ising spin-glass ground-state search.
//!
//! A problem is a pair of an interaction list `(i, j, J)` over spin indices
//! and a dense external magnetic field vector `h`.  The two-local Ising
//! Hamiltonian `H(s) = -sum J_ij s_i s_j - sum h_i s_i` (spin values
//! `s_k` are -1 or +1, encoded as `bool`) is kept incrementally: a single
//! spin flip touches `O(n)` interaction terms and two Fenwick trees keep the
//! running totals.  On top of the incremental Hamiltonian sit two solvers:
//! an exact enumerator that walks all `2^n` configurations along a Gray code
//! (one flip per step), and a simulated-annealing sampler with a geometric
//! cooling schedule, a deterministically seeded generator, and Metropolis
//! acceptance.  A small network builder composes problems out of logic-gate
//! patterns whose ground states realise Boolean functions.
//!
//! Energy scalars are IEEE-754 single-precision values, carried everywhere
//! as their raw 32-bit patterns (see [`energy`]); the arithmetic itself is
//! delegated to trusted wrappers and left uninterpreted in contracts, so
//! every result is pinned to an exact algebraic expression over the inputs.

pub mod bitset;
pub mod energy;
pub mod fenwick;
pub mod hamiltonian;
pub mod nodelib;
pub mod rng;
pub mod solvers;
pub mod spin_network;
pub mod types;
