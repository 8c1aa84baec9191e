use vstd::prelude::*;

verus! {

/// A point particle: its charge, in units of the elementary charge, and its
/// place on the sphere.
///
/// The place (`site`) is whatever the simulation uses to describe a point on
/// the sphere, angles together with the cartesian position derived from them;
/// the library moves it around as a whole and never looks inside.
#[derive(Clone, Debug)]
pub struct Particle<S> {
    pub charge: i8,
    pub site: S,
}

/// Why a particle set could not be made.
#[derive(Clone, Copy, Debug, PartialEq, Eq, Structural)]
pub enum ConfigError {
    /// More charged particles were asked for than there are particles.
    TooManyCharges { num_total: usize, num_plus: usize, num_minus: usize },
}

/// The charge that particle `k` of `num_total` gets when the first `num_plus`
/// are cations and the last `num_minus` are anions.
pub open spec fn assigned_charge(k: int, num_total: int, num_plus: int, num_minus: int) -> int {
    if k < num_plus {
        1
    } else if k >= num_total - num_minus {
        -1
    } else {
        0
    }
}

/// Builds one particle on each of `sites`, in order: the first `num_plus` get
/// charge +1, the last `num_minus` charge -1, the others are neutral.
///
/// Fails when more charged particles are asked for than there are sites.
pub fn generate_particles<S>(sites: Vec<S>, num_plus: usize, num_minus: usize) -> (r: Result<
    Vec<Particle<S>>,
    ConfigError,
>)
    ensures
        match r {
            Ok(particles) => {
                &&& num_plus + num_minus <= sites@.len()
                &&& particles@.len() == sites@.len()
                &&& forall|k: int|
                    #![trigger particles@[k]]
                    0 <= k < sites@.len() ==> particles@[k].site == sites@[k]
                        && particles@[k].charge == assigned_charge(
                        k,
                        sites@.len() as int,
                        num_plus as int,
                        num_minus as int,
                    )
            },
            Err(e) => {
                &&& num_plus + num_minus > sites@.len()
                &&& e == (ConfigError::TooManyCharges {
                    num_total: sites@.len() as usize,
                    num_plus,
                    num_minus,
                })
            },
        },
{
    let num_total = sites.len();
    if num_plus > num_total || num_minus > num_total - num_plus {
        return Err(ConfigError::TooManyCharges { num_total, num_plus, num_minus });
    }
    // Take the sites off the back, then off the back again, to keep their order.
    let ghost given = sites@;
    let mut sites = sites;
    let mut reversed: Vec<S> = Vec::new();
    while sites.len() > 0
        invariant
            sites@.len() + reversed@.len() == num_total,
            given.len() == num_total,
            forall|k: int| 0 <= k < sites@.len() ==> sites@[k] == given[k],
            forall|k: int|
                0 <= k < reversed@.len() ==> reversed@[k] == given[num_total - 1 - k],
        decreases sites@.len(),
    {
        let site = sites.pop().unwrap();
        reversed.push(site);
    }
    let mut particles: Vec<Particle<S>> = Vec::new();
    while reversed.len() > 0
        invariant
            particles@.len() + reversed@.len() == num_total,
            given.len() == num_total,
            num_plus + num_minus <= num_total,
            forall|k: int|
                0 <= k < reversed@.len() ==> reversed@[k] == given[num_total - 1 - k],
            forall|k: int|
                #![trigger particles@[k]]
                0 <= k < particles@.len() ==> particles@[k].site == given[k]
                    && particles@[k].charge == assigned_charge(
                    k,
                    num_total as int,
                    num_plus as int,
                    num_minus as int,
                ),
        decreases reversed@.len(),
    {
        let k = particles.len();
        let site = reversed.pop().unwrap();
        let charge: i8 = if k < num_plus {
            1
        } else if k >= num_total - num_minus {
            -1
        } else {
            0
        };
        particles.push(Particle { charge, site });
    }
    Ok(particles)
}

} // verus!
