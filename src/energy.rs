use vstd::prelude::*;

use itertools::Itertools;
use rand::rngs::StdRng;

use crate::particle::Particle;

verus! {

/// A contributor to the energy of the system, evaluated on the whole system or
/// on the part of it that a move touches.
///
/// `energy` follows the request rules of [`energy_request`]: an empty `indices`
/// (or all of them, in order) asks for the energy of the whole system, one
/// index for that particle against all others, two indices for the pair and
/// each of the two against all others.  `accept` is the Metropolis test on
/// the change from `old_energy` to `new_energy`, drawing from `rng`.
pub trait EnergyTerm<S> {
    type Energy;

    fn energy(&self, particles: &[Particle<S>], indices: &[usize]) -> Self::Energy;

    fn accept(&self, old_energy: &Self::Energy, new_energy: &Self::Energy, rng: &mut StdRng) -> bool;
}

/// The part of the system that an energy request covers.
#[derive(Clone, Copy, Debug, PartialEq, Eq, Structural)]
pub enum EnergyRequest {
    /// Every unordered pair of particles.
    System,
    /// The given particle against every other one.
    Particle(usize),
    /// The two particles' own pair, and each of them against every other one.
    Swap(usize, usize),
}

/// Why an energy request was refused.
#[derive(Clone, Copy, Debug, PartialEq, Eq, Structural)]
pub enum EnergyError {
    /// The number of indices is neither 0, 1, 2 nor the whole system.
    UnsupportedSubsetSize(usize),
    /// An index names no particle.
    IndexOutOfRange(usize),
    /// The two indices of a swap request are the same.
    RepeatedIndex(usize),
}

/// `indices` lists every particle index below `n` in increasing order.
pub open spec fn is_full_range(indices: Seq<usize>, n: nat) -> bool {
    indices.len() == n && forall|k: int| 0 <= k < n ==> indices[k] == k
}

/// The request that `indices` makes on a system of `n` particles.
pub open spec fn classify(indices: Seq<usize>, n: nat) -> Result<EnergyRequest, EnergyError> {
    if indices.len() == 0 {
        Ok(EnergyRequest::System)
    } else if indices.len() == 1 {
        if indices[0] < n {
            Ok(EnergyRequest::Particle(indices[0]))
        } else {
            Err(EnergyError::IndexOutOfRange(indices[0]))
        }
    } else if indices.len() == 2 {
        if indices[0] >= n {
            Err(EnergyError::IndexOutOfRange(indices[0]))
        } else if indices[1] >= n {
            Err(EnergyError::IndexOutOfRange(indices[1]))
        } else if indices[0] == indices[1] {
            Err(EnergyError::RepeatedIndex(indices[0]))
        } else {
            Ok(EnergyRequest::Swap(indices[0], indices[1]))
        }
    } else if is_full_range(indices, n) {
        Ok(EnergyRequest::System)
    } else {
        Err(EnergyError::UnsupportedSubsetSize(indices.len() as usize))
    }
}

impl EnergyRequest {
    /// The request names particles of a system of `n` only, and a swap two
    /// different ones.
    pub open spec fn fits(self, n: nat) -> bool {
        match self {
            EnergyRequest::System => true,
            EnergyRequest::Particle(i) => i < n,
            EnergyRequest::Swap(i, j) => i < n && j < n && i != j,
        }
    }

    /// The pairs, in order, whose energies make up this request on `n` particles.
    pub open spec fn pairs(self, n: nat) -> Seq<(usize, usize)> {
        match self {
            EnergyRequest::System => unordered_pairs(n),
            EnergyRequest::Particle(i) => partner_pairs(i as int, n as int),
            EnergyRequest::Swap(i, j) => swap_pairs(i as int, j as int, n as int),
        }
    }
}

/// The pairs `(x, y)` with `x < y < end`, by increasing `y`.
pub open spec fn row_pairs(x: int, end: int) -> Seq<(usize, usize)>
    decreases end - x,
{
    if end <= x + 1 {
        seq![]
    } else {
        row_pairs(x, end - 1).push((x as usize, (end - 1) as usize))
    }
}

/// The pairs `(x, y)` with `x < rows` and `x < y < n`, row after row.
pub open spec fn lex_pairs(rows: int, n: int) -> Seq<(usize, usize)>
    decreases rows,
{
    if rows <= 0 {
        seq![]
    } else {
        lex_pairs(rows - 1, n) + row_pairs(rows - 1, n)
    }
}

/// Every unordered pair of `n` particles once, as `(x, y)` with `x < y`, in
/// lexicographic order.
pub open spec fn unordered_pairs(n: nat) -> Seq<(usize, usize)> {
    lex_pairs(n as int, n as int)
}

/// The pairs `(k, i)` for every `k < end` other than `i`, by increasing `k`.
pub open spec fn partner_pairs(i: int, end: int) -> Seq<(usize, usize)>
    decreases end,
{
    if end <= 0 {
        seq![]
    } else if end - 1 == i {
        partner_pairs(i, end - 1)
    } else {
        partner_pairs(i, end - 1).push(((end - 1) as usize, i as usize))
    }
}

/// `(k, i)` then `(k, j)` for every `k < end` that is neither `i` nor `j`, by
/// increasing `k`.
pub open spec fn swap_partner_pairs(i: int, j: int, end: int) -> Seq<(usize, usize)>
    decreases end,
{
    if end <= 0 {
        seq![]
    } else if end - 1 == i || end - 1 == j {
        swap_partner_pairs(i, j, end - 1)
    } else {
        swap_partner_pairs(i, j, end - 1).push(((end - 1) as usize, i as usize)).push(
            ((end - 1) as usize, j as usize),
        )
    }
}

/// The pair `(i, j)` itself, then each of `i` and `j` against the other
/// particles below `n`.
pub open spec fn swap_pairs(i: int, j: int, n: int) -> Seq<(usize, usize)> {
    seq![(i as usize, j as usize)] + swap_partner_pairs(i, j, n)
}

/// Relies on itertools' `Itertools::combinations`: the 2-combinations of
/// `0..n` come out as `[x, y]` with `x < y`, in lexicographic order of
/// positions, each once.
#[verifier::external_body]
fn combinations_of_two(n: usize) -> (r: Vec<(usize, usize)>)
    ensures
        r@ == unordered_pairs(n as nat),
{
    (0..n).combinations(2).map(|c| (c[0], c[1])).collect()
}

/// Every unordered pair of `num_particles` particles once: the pairs of the
/// whole-system energy.
pub fn system_pairs(num_particles: usize) -> (r: Vec<(usize, usize)>)
    ensures
        r@ == unordered_pairs(num_particles as nat),
{
    combinations_of_two(num_particles)
}

/// The pairs of particle `index` with every other particle: the pairs of a
/// single-particle energy.
pub fn particle_pairs(num_particles: usize, index: usize) -> (r: Vec<(usize, usize)>)
    requires
        index < num_particles,
    ensures
        r@ == partner_pairs(index as int, num_particles as int),
{
    let mut pairs: Vec<(usize, usize)> = Vec::new();
    let mut k: usize = 0;
    while k < num_particles
        invariant
            k <= num_particles,
            pairs@ == partner_pairs(index as int, k as int),
        decreases num_particles - k,
    {
        if k != index {
            pairs.push((k, index));
        }
        k = k + 1;
    }
    pairs
}

/// The pair `(first, second)` and the pairs of each of them with every other
/// particle: the pairs of the energy that a charge swap can change.
pub fn swap_move_pairs(num_particles: usize, first: usize, second: usize) -> (r: Vec<
    (usize, usize),
>)
    requires
        first < num_particles,
        second < num_particles,
        first != second,
    ensures
        r@ == swap_pairs(first as int, second as int, num_particles as int),
{
    let mut pairs: Vec<(usize, usize)> = Vec::new();
    pairs.push((first, second));
    let mut k: usize = 0;
    while k < num_particles
        invariant
            k <= num_particles,
            pairs@ == seq![(first, second)] + swap_partner_pairs(first as int, second as int, k as int),
        decreases num_particles - k,
    {
        if k != first && k != second {
            pairs.push((k, first));
            pairs.push((k, second));
            assert(pairs@ =~= seq![(first, second)] + swap_partner_pairs(first as int, second as int, k + 1));
        }
        k = k + 1;
    }
    pairs
}

/// Reads `indices` as an energy request on `num_particles` particles.
pub fn energy_request(indices: &[usize], num_particles: usize) -> (r: Result<
    EnergyRequest,
    EnergyError,
>)
    ensures
        r == classify(indices@, num_particles as nat),
{
    let len = indices.len();
    if len == 0 {
        Ok(EnergyRequest::System)
    } else if len == 1 {
        if indices[0] < num_particles {
            Ok(EnergyRequest::Particle(indices[0]))
        } else {
            Err(EnergyError::IndexOutOfRange(indices[0]))
        }
    } else if len == 2 {
        if indices[0] >= num_particles {
            Err(EnergyError::IndexOutOfRange(indices[0]))
        } else if indices[1] >= num_particles {
            Err(EnergyError::IndexOutOfRange(indices[1]))
        } else if indices[0] == indices[1] {
            Err(EnergyError::RepeatedIndex(indices[0]))
        } else {
            Ok(EnergyRequest::Swap(indices[0], indices[1]))
        }
    } else if len != num_particles {
        Err(EnergyError::UnsupportedSubsetSize(len))
    } else {
        let mut k: usize = 0;
        while k < len
            invariant
                k <= len,
                2 < len,
                len == indices@.len(),
                forall|m: int| 0 <= m < k ==> indices@[m] == m,
            decreases len - k,
        {
            if indices[k] != k {
                assert(!is_full_range(indices@, num_particles as nat)) by {
                    assert(indices@[k as int] != k);
                }
                return Err(EnergyError::UnsupportedSubsetSize(len));
            }
            k = k + 1;
        }
        Ok(EnergyRequest::System)
    }
}

/// The pairs whose energies make up `request` on `num_particles` particles.
pub fn request_pairs(request: EnergyRequest, num_particles: usize) -> (r: Vec<(usize, usize)>)
    requires
        request.fits(num_particles as nat),
    ensures
        r@ == request.pairs(num_particles as nat),
{
    match request {
        EnergyRequest::System => system_pairs(num_particles),
        EnergyRequest::Particle(i) => particle_pairs(num_particles, i),
        EnergyRequest::Swap(i, j) => swap_move_pairs(num_particles, i, j),
    }
}

/// The pairs whose energies an energy term sums for `indices` on
/// `num_particles` particles, or why the request is refused.
pub fn interacting_pairs(num_particles: usize, indices: &[usize]) -> (r: Result<
    Vec<(usize, usize)>,
    EnergyError,
>)
    ensures
        match classify(indices@, num_particles as nat) {
            Ok(request) => r is Ok && r->Ok_0@ == request.pairs(num_particles as nat),
            Err(e) => r == Err::<Vec<(usize, usize)>, EnergyError>(e),
        },
{
    match energy_request(indices, num_particles) {
        Ok(request) => Ok(request_pairs(request, num_particles)),
        Err(e) => Err(e),
    }
}

} // verus!
