use cppm::{
    generate_particles, interacting_pairs, replace_site, Acceptance, DisplaceParticle,
    EnergyTerm, MonteCarloMove, MoveAlgorithm, Particle, Propagator, SiteProposal, SwapCharges,
};
use rand::rngs::StdRng;
use rand::SeedableRng;

type Site = [f64; 3];

/// Coulomb energy of points in space, with a fixed verdict or the rule
/// "accept when the energy does not rise".
struct Coulomb {
    verdict: Option<bool>,
    calls: std::cell::Cell<usize>,
}

impl Coulomb {
    fn with_verdict(verdict: Option<bool>) -> Self {
        Coulomb { verdict, calls: std::cell::Cell::new(0) }
    }
}

fn distance(a: &Site, b: &Site) -> f64 {
    (0..3).map(|k| (a[k] - b[k]).powi(2)).sum::<f64>().sqrt()
}

impl EnergyTerm<Site> for Coulomb {
    type Energy = f64;

    fn energy(&self, particles: &[Particle<Site>], indices: &[usize]) -> f64 {
        self.calls.set(self.calls.get() + 1);
        interacting_pairs(particles.len(), indices)
            .unwrap()
            .iter()
            .map(|&(a, b)| {
                let (p, q) = (&particles[a], &particles[b]);
                7.0 * p.charge as f64 * q.charge as f64 / distance(&p.site, &q.site)
            })
            .sum()
    }

    fn accept(&self, old_energy: &f64, new_energy: &f64, _rng: &mut StdRng) -> bool {
        self.verdict.unwrap_or(new_energy <= old_energy)
    }
}

/// Shifts a point along x.
struct Shift(f64);

impl SiteProposal<Site> for Shift {
    fn propose(&self, site: &Site, _rng: &mut StdRng) -> Site {
        [site[0] + self.0, site[1], site[2]]
    }
}

fn line(n: usize, num_plus: usize, num_minus: usize) -> Vec<Particle<Site>> {
    let sites: Vec<Site> = (0..n).map(|k| [k as f64, 0.5 * k as f64, 0.0]).collect();
    generate_particles(sites, num_plus, num_minus).unwrap()
}

fn same(a: &[Particle<Site>], b: &[Particle<Site>]) -> bool {
    a.len() == b.len()
        && a.iter().zip(b).all(|(x, y)| {
            x.charge == y.charge && x.site.iter().zip(&y.site).all(|(u, v)| u.to_bits() == v.to_bits())
        })
}

#[test]
fn replace_site_hands_back_the_old_site() {
    let mut particles = line(3, 1, 1);
    let previous = replace_site(&mut particles, 1, [9.0, 9.0, 9.0]);
    assert_eq!(previous, [1.0, 0.5, 0.0]);
    assert_eq!(particles[1].site, [9.0, 9.0, 9.0]);
    assert_eq!(particles[1].charge, 0);
}

#[test]
fn rejected_displacement_restores_the_particle_exactly() {
    let mut rng = StdRng::seed_from_u64(1);
    let mut particles = line(5, 2, 2);
    let before = particles.clone();
    let mover = DisplaceParticle::new(Shift(0.123456789));
    let hamiltonian = Coulomb::with_verdict(Some(false));
    for index in 0..5 {
        assert!(!mover.displace_at(&hamiltonian, &mut particles, index, &mut rng));
        assert!(same(&particles, &before));
    }
    for _ in 0..20 {
        assert!(!mover.do_move(&hamiltonian, &mut particles, &mut rng));
        assert!(same(&particles, &before));
    }
    assert_eq!(hamiltonian.calls.get(), 2 * 25);
}

#[test]
fn accepted_displacement_moves_one_particle() {
    let mut rng = StdRng::seed_from_u64(2);
    let mut particles = line(4, 1, 1);
    let before = particles.clone();
    let mover = DisplaceParticle::new(Shift(0.5));
    let hamiltonian = Coulomb::with_verdict(Some(true));
    assert!(mover.displace_at(&hamiltonian, &mut particles, 2, &mut rng));
    assert_eq!(particles[2].site, [2.5, 1.0, 0.0]);
    assert_eq!(particles[2].charge, before[2].charge);
    assert!(same(&particles[..2], &before[..2]));
    assert!(same(&particles[3..], &before[3..]));
}

#[test]
fn swap_charges_exchanges_two_charges() {
    let mut particles = line(4, 1, 1);
    SwapCharges::swap_charges(&mut particles, 0, 2);
    let charges: Vec<i8> = particles.iter().map(|p| p.charge).collect();
    assert_eq!(charges, vec![0, 0, 1, -1]);
    assert_eq!(particles[0].site, [0.0, 0.0, 0.0]);
}

#[test]
fn random_indices_are_distinct_and_in_range() {
    let mut rng = StdRng::seed_from_u64(3);
    let mut seen = vec![false; 3];
    for _ in 0..200 {
        let (a, b) = SwapCharges::random_indices(3, &mut rng);
        assert!(a < 3 && b < 3 && a != b);
        seen[a] = true;
        seen[b] = true;
    }
    assert!(seen.iter().all(|&s| s));
    assert_eq!(
        {
            let (a, b) = SwapCharges::random_indices(2, &mut rng);
            a + b
        },
        1
    );
}

#[test]
fn swap_of_equal_charges_is_accepted_without_change() {
    let mut rng = StdRng::seed_from_u64(4);
    let mut particles = line(6, 2, 2);
    let before = particles.clone();
    let hamiltonian = Coulomb::with_verdict(Some(false));
    assert!(SwapCharges.swap_at(&hamiltonian, &mut particles, 0, 1, &mut rng));
    assert!(SwapCharges.swap_at(&hamiltonian, &mut particles, 2, 3, &mut rng));
    assert!(SwapCharges.swap_at(&hamiltonian, &mut particles, 4, 5, &mut rng));
    assert!(same(&particles, &before));
    assert_eq!(hamiltonian.calls.get(), 0);
    let mut neutral = line(5, 0, 0);
    let neutral_before = neutral.clone();
    for _ in 0..20 {
        assert!(SwapCharges.do_move(&hamiltonian, &mut neutral, &mut rng));
    }
    assert!(same(&neutral, &neutral_before));
}

#[test]
fn rejected_swap_restores_charges() {
    let mut rng = StdRng::seed_from_u64(5);
    let mut particles = line(4, 1, 1);
    let before = particles.clone();
    let hamiltonian = Coulomb::with_verdict(Some(false));
    assert!(!SwapCharges.swap_at(&hamiltonian, &mut particles, 0, 3, &mut rng));
    assert!(same(&particles, &before));
    assert_eq!(hamiltonian.calls.get(), 2);
}

#[test]
fn accepted_swap_keeps_exchanged_charges() {
    let mut rng = StdRng::seed_from_u64(6);
    let mut particles = line(4, 1, 1);
    let hamiltonian = Coulomb::with_verdict(Some(true));
    assert!(SwapCharges.swap_at(&hamiltonian, &mut particles, 0, 3, &mut rng));
    let charges: Vec<i8> = particles.iter().map(|p| p.charge).collect();
    assert_eq!(charges, vec![-1, 0, 0, 1]);
}

#[test]
fn acceptance_counts_saturate() {
    let mut a = Acceptance { accepted: 0, attempted: 0 };
    a.record(true);
    a.record(false);
    assert_eq!(a, Acceptance { accepted: 1, attempted: 2 });
    let mut full = Acceptance { accepted: u64::MAX, attempted: u64::MAX };
    full.record(true);
    assert_eq!(full, Acceptance { accepted: u64::MAX, attempted: u64::MAX });
}

#[test]
fn monte_carlo_move_counts_verdicts() {
    let mut rng = StdRng::seed_from_u64(7);
    let mut particles = line(4, 2, 2);
    let mut swap: MonteCarloMove<Shift> = MonteCarloMove::new(MoveAlgorithm::SwapCharges(SwapCharges));
    let hamiltonian = Coulomb::with_verdict(Some(false));
    let mut accepted = 0;
    for _ in 0..50 {
        if swap.do_move(&hamiltonian, &mut particles, &mut rng) {
            accepted += 1;
        }
    }
    assert_eq!(swap.acceptance.attempted, 50);
    assert_eq!(swap.acceptance.accepted, accepted);
    assert!(accepted > 0 && accepted < 50);
}

#[test]
fn propagator_runs_registered_moves() {
    let mut rng = StdRng::seed_from_u64(8);
    let mut particles = line(6, 2, 2);
    let mut propagator = Propagator::new();
    propagator.push(MoveAlgorithm::DisplaceParticle(DisplaceParticle::new(Shift(0.01))));
    propagator.push(MoveAlgorithm::SwapCharges(SwapCharges));
    assert_eq!(propagator.num_moves(), 2);
    let hamiltonian = Coulomb::with_verdict(None);
    for _ in 0..400 {
        propagator.do_move(&hamiltonian, &mut particles, &mut rng);
    }
    let displace = propagator.acceptance(0);
    let swap = propagator.acceptance(1);
    assert_eq!(displace.attempted + swap.attempted, 400);
    assert!(displace.attempted > 100 && swap.attempted > 100);
    assert!(displace.accepted <= displace.attempted && swap.accepted <= swap.attempted);
    let mut plus = particles.iter().filter(|p| p.charge == 1).count();
    assert_eq!(plus, 2);
    plus = particles.iter().filter(|p| p.charge == -1).count();
    assert_eq!(plus, 2);
}

#[test]
fn propagator_default_is_empty() {
    let propagator: Propagator<Shift> = Propagator::default();
    assert_eq!(propagator.num_moves(), 0);
}

#[test]
fn displace_to_installs_or_rolls_back_the_proposed_site() {
    let mut rng = StdRng::seed_from_u64(9);
    let mover = DisplaceParticle::new(Shift(0.0));
    let mut particles = line(4, 1, 1);
    let before = particles.clone();
    let keep = Coulomb::with_verdict(Some(true));
    assert!(mover.displace_to(&keep, &mut particles, 3, [7.0, -2.0, 0.25], &mut rng));
    assert_eq!(particles[3].site, [7.0, -2.0, 0.25]);
    assert_eq!(particles[3].charge, before[3].charge);
    assert!(same(&particles[..3], &before[..3]));
    assert_eq!(keep.calls.get(), 2);

    let mut particles = line(4, 1, 1);
    let refuse = Coulomb::with_verdict(Some(false));
    assert!(!mover.displace_to(&refuse, &mut particles, 0, [7.0, -2.0, 0.25], &mut rng));
    assert!(same(&particles, &before));
}
