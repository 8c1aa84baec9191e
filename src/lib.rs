//! Metropolis Monte Carlo sampling of charged particles on a sphere.
//!
//! The library holds the parts of the simulation that do not depend on how a
//! particle's place on the sphere is written down: the charges and their
//! assignment, which particle pairs an energy request covers, the moves with
//! their commit and rollback, and the propagator that picks among them.  The
//! geometry and the energies are supplied by the caller through the traits
//! [`EnergyTerm`] and [`SiteProposal`].

mod analysis;
mod decomposition;
mod energy;
mod montecarlo;
mod output;
mod particle;
mod rng;

pub use analysis::{absolute_charge, net_charge};
pub use particle::{generate_particles, ConfigError, Particle};
pub use energy::{
    energy_request, interacting_pairs, particle_pairs, request_pairs, swap_move_pairs,
    system_pairs, EnergyError, EnergyRequest, EnergyTerm,
};
pub use montecarlo::{
    replace_site, Acceptance, DisplaceParticle, MonteCarloMove, MoveAlgorithm, Propagator,
    SiteProposal, SwapCharges,
};
pub use output::{coordinate_format, deduce_atom_name, ends_with, CoordinateFormat, OutputError};
pub use decomposition::{
    lemma_particle_request_tracks_system, lemma_swap_request_tracks_system,
    lemma_system_request_covers_each_pair_once,
};
