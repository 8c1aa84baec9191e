use vstd::prelude::*;

use crate::particle::Particle;

verus! {

/// Sum of the charges of `particles`.
pub open spec fn charge_sum<S>(particles: Seq<Particle<S>>) -> int
    decreases particles.len(),
{
    if particles.len() == 0 {
        0
    } else {
        charge_sum(particles.drop_last()) + particles.last().charge
    }
}

/// Sum of the magnitudes of the charges of `particles`.
pub open spec fn magnitude_sum<S>(particles: Seq<Particle<S>>) -> int
    decreases particles.len(),
{
    if particles.len() == 0 {
        0
    } else {
        magnitude_sum(particles.drop_last()) + if particles.last().charge < 0 {
            -particles.last().charge
        } else {
            particles.last().charge as int
        }
    }
}

/// Total (net) charge of the particles.
pub fn net_charge<S>(particles: &[Particle<S>]) -> (r: i128)
    ensures
        r == charge_sum(particles@),
{
    let mut total: i128 = 0;
    let mut k: usize = 0;
    while k < particles.len()
        invariant
            k <= particles@.len(),
            total == charge_sum(particles@.subrange(0, k as int)),
            -128 * k <= total <= 128 * k,
        decreases particles@.len() - k,
    {
        proof {
            assert(particles@.subrange(0, k + 1).drop_last() =~= particles@.subrange(0, k as int));
        }
        total = total + particles[k].charge as i128;
        k = k + 1;
    }
    assert(particles@.subrange(0, k as int) =~= particles@);
    total
}

/// Total charge magnitude of the particles, each charge counted without its sign.
pub fn absolute_charge<S>(particles: &[Particle<S>]) -> (r: i128)
    ensures
        r == magnitude_sum(particles@),
{
    let mut total: i128 = 0;
    let mut k: usize = 0;
    while k < particles.len()
        invariant
            k <= particles@.len(),
            total == magnitude_sum(particles@.subrange(0, k as int)),
            0 <= total <= 128 * k,
        decreases particles@.len() - k,
    {
        proof {
            assert(particles@.subrange(0, k + 1).drop_last() =~= particles@.subrange(0, k as int));
        }
        let charge = particles[k].charge as i128;
        let magnitude: i128 = if charge < 0 { -charge } else { charge };
        total = total + magnitude;
        k = k + 1;
    }
    assert(particles@.subrange(0, k as int) =~= particles@);
    total
}

} // verus!
