use vstd::prelude::*;

use rand::rngs::StdRng;

use crate::energy::EnergyTerm;
use crate::particle::Particle;
use crate::rng::{choose_distinct, random_index};

verus! {

/// A way of proposing a new place on the sphere for a particle, given its
/// current one.  For detailed balance the proposal must be symmetric: moving
/// from `a` to `b` as likely as from `b` to `a`.
pub trait SiteProposal<S> {
    fn propose(&self, site: &S, rng: &mut StdRng) -> S;
}

/// `before` with the charges of particles `i` and `j` exchanged, every site
/// left where it was.
pub open spec fn swapped_charges<S>(before: Seq<Particle<S>>, i: int, j: int) -> Seq<Particle<S>> {
    before.update(i, Particle { charge: before[j].charge, site: before[i].site }).update(
        j,
        Particle { charge: before[i].charge, site: before[j].site },
    )
}

/// What a displacement of particle `i` leaves behind: at most the site of
/// particle `i` differs, and a rejected move leaves everything exactly as it
/// was.
pub open spec fn displacement_outcome<S>(
    before: Seq<Particle<S>>,
    after: Seq<Particle<S>>,
    i: int,
    accepted: bool,
) -> bool {
    &&& after.len() == before.len()
    &&& after == before.update(i, Particle { charge: before[i].charge, site: after[i].site })
    &&& !accepted ==> after == before
}

/// What a charge swap of particles `i` and `j` leaves behind: equal charges
/// are accepted at once with nothing changed; otherwise an accepted swap
/// exchanges the two charges and a rejected one changes nothing.
pub open spec fn swap_outcome<S>(
    before: Seq<Particle<S>>,
    after: Seq<Particle<S>>,
    i: int,
    j: int,
    accepted: bool,
) -> bool {
    if before[i].charge == before[j].charge {
        accepted && after == before
    } else if accepted {
        after == swapped_charges(before, i, j)
    } else {
        after == before
    }
}

/// Puts `site` in place for particle `index` and hands back the site it replaces.
pub fn replace_site<S>(particles: &mut Vec<Particle<S>>, index: usize, site: S) -> (previous: S)
    requires
        index < old(particles)@.len(),
    ensures
        previous == old(particles)@[index as int].site,
        final(particles)@ == old(particles)@.update(
            index as int,
            Particle { charge: old(particles)@[index as int].charge, site },
        ),
{
    let mut site = site;
    let particle = &mut particles[index];
    std::mem::swap(&mut particle.site, &mut site);
    site
}

/// Moves one randomly chosen particle to a nearby place on the sphere.
pub struct DisplaceParticle<P> {
    /// How the new place is drawn from the old one.
    pub proposal: P,
}

impl<P> DisplaceParticle<P> {
    pub fn new(proposal: P) -> (r: Self)
        ensures
            r.proposal == proposal,
    {
        DisplaceParticle { proposal }
    }

    /// Moves particle `index` to `proposed`, and keeps it there or puts the
    /// particle back by the Metropolis test on the particle's energy against
    /// all others.
    pub fn displace_to<S, H>(
        &self,
        hamiltonian: &H,
        particles: &mut Vec<Particle<S>>,
        index: usize,
        proposed: S,
        rng: &mut StdRng,
    ) -> (accepted: bool) where H: EnergyTerm<S>
        requires
            index < old(particles)@.len(),
        ensures
            accepted ==> final(particles)@ == old(particles)@.update(
                index as int,
                Particle { charge: old(particles)@[index as int].charge, site: proposed },
            ),
            !accepted ==> final(particles)@ == old(particles)@,
    {
        let ghost before = particles@;
        let indices: Vec<usize> = vec![index];
        let old_energy = hamiltonian.energy(particles.as_slice(), indices.as_slice());
        let previous = replace_site(particles, index, proposed);
        let new_energy = hamiltonian.energy(particles.as_slice(), indices.as_slice());
        if hamiltonian.accept(&old_energy, &new_energy, rng) {
            true
        } else {
            let _rejected = replace_site(particles, index, previous);
            assert(particles@ =~= before);
            false
        }
    }

    /// Proposes a new place for particle `index` from its current one, and
    /// keeps it or puts the particle back as [`Self::displace_to`] does.
    pub fn displace_at<S, H>(
        &self,
        hamiltonian: &H,
        particles: &mut Vec<Particle<S>>,
        index: usize,
        rng: &mut StdRng,
    ) -> (accepted: bool) where P: SiteProposal<S>, H: EnergyTerm<S>
        requires
            index < old(particles)@.len(),
        ensures
            displacement_outcome(old(particles)@, final(particles)@, index as int, accepted),
    {
        let ghost before = particles@;
        let proposed = self.proposal.propose(&particles[index].site, rng);
        let accepted = self.displace_to(hamiltonian, particles, index, proposed, rng);
        assert(before.update(index as int, before[index as int]) =~= before);
        accepted
    }

    /// One displacement move on a particle drawn uniformly at random.
    pub fn do_move<S, H>(
        &self,
        hamiltonian: &H,
        particles: &mut Vec<Particle<S>>,
        rng: &mut StdRng,
    ) -> (accepted: bool) where P: SiteProposal<S>, H: EnergyTerm<S>
        requires
            old(particles)@.len() > 0,
        ensures
            exists|i: int|
                0 <= i < old(particles)@.len() && displacement_outcome(
                    old(particles)@,
                    final(particles)@,
                    i,
                    accepted,
                ),
    {
        let index = random_index(rng, particles.len());
        self.displace_at(hamiltonian, particles, index, rng)
    }
}

/// Exchanges the charges of two randomly chosen particles.
#[derive(Clone, Copy, Debug, Default)]
pub struct SwapCharges;

impl SwapCharges {
    /// Exchanges the charges of particles `first` and `second`.
    pub fn swap_charges<S>(particles: &mut Vec<Particle<S>>, first: usize, second: usize)
        requires
            first < old(particles)@.len(),
            second < old(particles)@.len(),
        ensures
            final(particles)@ == swapped_charges(old(particles)@, first as int, second as int),
    {
        let first_charge = particles[first].charge;
        let second_charge = particles[second].charge;
        let particle = &mut particles[first];
        particle.charge = second_charge;
        let particle = &mut particles[second];
        particle.charge = first_charge;
    }

    /// Two different particle indices below `num_particles`, drawn at random
    /// without replacement.
    pub fn random_indices(num_particles: usize, rng: &mut StdRng) -> (r: (usize, usize))
        requires
            num_particles >= 2,
        ensures
            r.0 < num_particles,
            r.1 < num_particles,
            r.0 != r.1,
    {
        let chosen = choose_distinct(rng, num_particles, 2);
        assert(chosen@[0] != chosen@[1]);
        (chosen[0], chosen[1])
    }

    /// Tries to exchange the charges of particles `first` and `second`: equal
    /// charges are accepted at once; otherwise the swap is kept or undone by
    /// the Metropolis test on the energy of the two particles against all
    /// others and each other.
    pub fn swap_at<S, H>(
        &self,
        hamiltonian: &H,
        particles: &mut Vec<Particle<S>>,
        first: usize,
        second: usize,
        rng: &mut StdRng,
    ) -> (accepted: bool) where H: EnergyTerm<S>
        requires
            first < old(particles)@.len(),
            second < old(particles)@.len(),
            first != second,
        ensures
            swap_outcome(old(particles)@, final(particles)@, first as int, second as int, accepted),
    {
        if particles[first].charge == particles[second].charge {
            return true;
        }
        let ghost before = particles@;
        let indices: Vec<usize> = vec![first, second];
        let old_energy = hamiltonian.energy(particles.as_slice(), indices.as_slice());
        Self::swap_charges(particles, first, second);
        let new_energy = hamiltonian.energy(particles.as_slice(), indices.as_slice());
        if hamiltonian.accept(&old_energy, &new_energy, rng) {
            true
        } else {
            Self::swap_charges(particles, first, second);
            assert(particles@ =~= before);
            false
        }
    }

    /// One charge-swap move on two different particles drawn at random.
    pub fn do_move<S, H>(
        &self,
        hamiltonian: &H,
        particles: &mut Vec<Particle<S>>,
        rng: &mut StdRng,
    ) -> (accepted: bool) where H: EnergyTerm<S>
        requires
            old(particles)@.len() >= 2,
        ensures
            exists|i: int, j: int|
                0 <= i < old(particles)@.len() && 0 <= j < old(particles)@.len() && i != j
                    && swap_outcome(old(particles)@, final(particles)@, i, j, accepted),
    {
        let (first, second) = Self::random_indices(particles.len(), rng);
        self.swap_at(hamiltonian, particles, first, second, rng)
    }
}

/// The moves a propagator can run.
pub enum MoveAlgorithm<P> {
    DisplaceParticle(DisplaceParticle<P>),
    SwapCharges(SwapCharges),
}

impl<P> MoveAlgorithm<P> {
    /// The fewest particles the move can run on.
    pub open spec fn min_particles(&self) -> nat {
        match self {
            MoveAlgorithm::DisplaceParticle(_) => 1,
            MoveAlgorithm::SwapCharges(_) => 2,
        }
    }

    /// What one run of the move may leave behind, `accepted` being its verdict.
    pub open spec fn outcome<S>(
        &self,
        before: Seq<Particle<S>>,
        after: Seq<Particle<S>>,
        accepted: bool,
    ) -> bool {
        match self {
            MoveAlgorithm::DisplaceParticle(_) => exists|i: int|
                0 <= i < before.len() && displacement_outcome(before, after, i, accepted),
            MoveAlgorithm::SwapCharges(_) => exists|i: int, j: int|
                0 <= i < before.len() && 0 <= j < before.len() && i != j && swap_outcome(
                    before,
                    after,
                    i,
                    j,
                    accepted,
                ),
        }
    }

    /// Runs the move once.
    pub fn do_move<S, H>(
        &self,
        hamiltonian: &H,
        particles: &mut Vec<Particle<S>>,
        rng: &mut StdRng,
    ) -> (accepted: bool) where P: SiteProposal<S>, H: EnergyTerm<S>
        requires
            old(particles)@.len() >= self.min_particles(),
        ensures
            self.outcome(old(particles)@, final(particles)@, accepted),
    {
        match self {
            MoveAlgorithm::DisplaceParticle(m) => m.do_move(hamiltonian, particles, rng),
            MoveAlgorithm::SwapCharges(m) => m.do_move(hamiltonian, particles, rng),
        }
    }
}

/// How many times a move was tried and how many of those were accepted.
/// Both counts stop at `u64::MAX`.
#[derive(Clone, Copy, Debug, PartialEq, Eq, Structural)]
pub struct Acceptance {
    pub accepted: u64,
    pub attempted: u64,
}

/// `n + 1`, or `n` where that does not fit.
pub open spec fn saturating_increment(n: u64) -> u64 {
    if n == u64::MAX {
        n
    } else {
        (n + 1) as u64
    }
}

impl Acceptance {
    /// No more acceptances than attempts.
    pub open spec fn wf(self) -> bool {
        self.accepted <= self.attempted
    }

    /// The counts after one more attempt with the verdict `accepted`.
    pub open spec fn recorded(self, accepted: bool) -> Acceptance {
        Acceptance {
            accepted: if accepted {
                saturating_increment(self.accepted)
            } else {
                self.accepted
            },
            attempted: saturating_increment(self.attempted),
        }
    }

    /// Counts one more attempt with the verdict `accepted`.
    pub fn record(&mut self, accepted: bool)
        ensures
            *final(self) == old(self).recorded(accepted),
            old(self).wf() ==> final(self).wf(),
    {
        self.attempted = self.attempted.saturating_add(1);
        if accepted {
            self.accepted = self.accepted.saturating_add(1);
        }
    }
}

/// A move together with its acceptance statistics.
pub struct MonteCarloMove<P> {
    pub move_algorithm: MoveAlgorithm<P>,
    pub acceptance: Acceptance,
}

impl<P> MonteCarloMove<P> {
    pub fn new(move_algorithm: MoveAlgorithm<P>) -> (r: Self)
        ensures
            r.move_algorithm == move_algorithm,
            r.acceptance == (Acceptance { accepted: 0, attempted: 0 }),
    {
        MonteCarloMove { move_algorithm, acceptance: Acceptance { accepted: 0, attempted: 0 } }
    }

    /// Runs the move once and counts the attempt and its verdict.
    pub fn do_move<S, H>(
        &mut self,
        hamiltonian: &H,
        particles: &mut Vec<Particle<S>>,
        rng: &mut StdRng,
    ) -> (accepted: bool) where P: SiteProposal<S>, H: EnergyTerm<S>
        requires
            old(particles)@.len() >= old(self).move_algorithm.min_particles(),
        ensures
            old(self).move_algorithm.outcome(old(particles)@, final(particles)@, accepted),
            final(self).move_algorithm == old(self).move_algorithm,
            final(self).acceptance == old(self).acceptance.recorded(accepted),
    {
        let accepted = self.move_algorithm.do_move(hamiltonian, particles, rng);
        self.acceptance.record(accepted);
        accepted
    }
}

/// The registered moves of a simulation; each step runs one of them, picked
/// uniformly at random.
pub struct Propagator<P> {
    moves: Vec<MonteCarloMove<P>>,
}

impl<P> View for Propagator<P> {
    type V = Seq<MonteCarloMove<P>>;

    closed spec fn view(&self) -> Seq<MonteCarloMove<P>> {
        self.moves@
    }
}

impl<P> Propagator<P> {
    /// A propagator without moves.
    pub fn new() -> (r: Self)
        ensures
            r@ == Seq::<MonteCarloMove<P>>::empty(),
            r.wf(),
    {
        Propagator { moves: Vec::new() }
    }

    /// Registers a move, with no attempts counted yet.
    pub fn push(&mut self, move_algorithm: MoveAlgorithm<P>)
        ensures
            final(self)@ == old(self)@.push(
                MonteCarloMove { move_algorithm, acceptance: Acceptance { accepted: 0, attempted: 0 } },
            ),
            old(self).wf() ==> final(self).wf(),
    {
        self.moves.push(MonteCarloMove::new(move_algorithm));
    }

    /// No move has counted more acceptances than attempts.
    pub open spec fn wf(&self) -> bool {
        forall|k: int| 0 <= k < self@.len() ==> (#[trigger] self@[k]).acceptance.wf()
    }

    /// There is a move to pick, and every move can run on `num_particles` particles.
    pub open spec fn can_run_on(&self, num_particles: nat) -> bool {
        &&& self@.len() > 0
        &&& forall|k: int|
            0 <= k < self@.len() ==> #[trigger] self@[k].move_algorithm.min_particles()
                <= num_particles
    }

    /// What running move `k` once leaves behind: the particles as that move
    /// may leave them, and its attempt counted with the verdict.
    pub open spec fn step_outcome<S>(
        before: Seq<MonteCarloMove<P>>,
        after: Seq<MonteCarloMove<P>>,
        k: int,
        particles_before: Seq<Particle<S>>,
        particles_after: Seq<Particle<S>>,
        accepted: bool,
    ) -> bool {
        &&& before[k].move_algorithm.outcome(particles_before, particles_after, accepted)
        &&& after == before.update(
            k,
            MonteCarloMove {
                move_algorithm: before[k].move_algorithm,
                acceptance: before[k].acceptance.recorded(accepted),
            },
        )
    }

    /// Runs move `k` once.
    pub fn do_move_at<S, H>(
        &mut self,
        k: usize,
        hamiltonian: &H,
        particles: &mut Vec<Particle<S>>,
        rng: &mut StdRng,
    ) -> (accepted: bool) where P: SiteProposal<S>, H: EnergyTerm<S>
        requires
            k < old(self)@.len(),
            old(self).can_run_on(old(particles)@.len()),
        ensures
            Self::step_outcome(
                old(self)@,
                final(self)@,
                k as int,
                old(particles)@,
                final(particles)@,
                accepted,
            ),
            old(self).wf() ==> final(self).wf(),
    {
        assert(old(self)@[k as int].move_algorithm.min_particles() <= old(particles)@.len());
        let ghost before = self@;
        let chosen = &mut self.moves[k];
        let accepted = chosen.do_move(hamiltonian, particles, rng);
        proof {
            assert(self@ =~= before.update(
                k as int,
                MonteCarloMove {
                    move_algorithm: before[k as int].move_algorithm,
                    acceptance: before[k as int].acceptance.recorded(accepted),
                },
            ));
            if before.len() > 0 && old(self).wf() {
                assert(before[k as int].acceptance.wf());
            }
        }
        accepted
    }

    /// One simulation step: runs a move picked uniformly at random and
    /// reports whether it was accepted.
    pub fn do_move<S, H>(
        &mut self,
        hamiltonian: &H,
        particles: &mut Vec<Particle<S>>,
        rng: &mut StdRng,
    ) -> (accepted: bool) where P: SiteProposal<S>, H: EnergyTerm<S>
        requires
            old(self).can_run_on(old(particles)@.len()),
        ensures
            exists|k: int|
                0 <= k < old(self)@.len() && Self::step_outcome(
                    old(self)@,
                    final(self)@,
                    k,
                    old(particles)@,
                    final(particles)@,
                    accepted,
                ),
            old(self).wf() ==> final(self).wf(),
    {
        let k = random_index(rng, self.moves.len());
        self.do_move_at(k, hamiltonian, particles, rng)
    }

    /// The number of registered moves.
    pub fn num_moves(&self) -> (r: usize)
        ensures
            r == self@.len(),
    {
        self.moves.len()
    }

    /// The acceptance statistics of move `k`.
    pub fn acceptance(&self, k: usize) -> (r: Acceptance)
        requires
            k < self@.len(),
        ensures
            r == self@[k as int].acceptance,
    {
        self.moves[k].acceptance
    }
}

impl<P> Default for Propagator<P> {
    fn default() -> (r: Self)
        ensures
            r@ == Seq::<MonteCarloMove<P>>::empty(),
            r.wf(),
    {
        Propagator::new()
    }
}

} // verus!
