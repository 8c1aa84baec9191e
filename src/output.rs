use vstd::prelude::*;
use vstd::string::*;

use crate::particle::Particle;

verus! {

/// The coordinate file formats the particles can be written in.
#[derive(Clone, Copy, Debug, PartialEq, Eq, Structural)]
pub enum CoordinateFormat {
    /// Atom names and positions.
    Xyz,
    /// Atom names, positions, charges and radii.
    Pqr,
}

/// Why no coordinate format could be chosen.
#[derive(Clone, Copy, Debug, PartialEq, Eq, Structural)]
pub enum OutputError {
    /// The file name ends neither in `.xyz` nor in `.pqr`.
    UnknownSuffix,
}

/// `s` ends with `suffix`.
pub open spec fn has_suffix(s: Seq<char>, suffix: Seq<char>) -> bool {
    suffix.len() <= s.len() && s.subrange(s.len() - suffix.len(), s.len() as int) == suffix
}

/// Whether `s` ends with `suffix`, compared character by character.
pub fn ends_with(s: &str, suffix: &str) -> (r: bool)
    ensures
        r == has_suffix(s@, suffix@),
{
    let len = s.unicode_len();
    let suffix_len = suffix.unicode_len();
    if suffix_len > len {
        return false;
    }
    let offset = len - suffix_len;
    let mut k: usize = 0;
    while k < suffix_len
        invariant
            len == s@.len(),
            suffix_len == suffix@.len(),
            offset == len - suffix_len,
            k <= suffix_len,
            forall|m: int| 0 <= m < k ==> s@[offset + m] == suffix@[m],
        decreases suffix_len - k,
    {
        if s.get_char(offset + k) != suffix.get_char(k) {
            assert(s@.subrange(offset as int, len as int)[k as int] != suffix@[k as int]);
            return false;
        }
        k = k + 1;
    }
    assert(s@.subrange(offset as int, len as int) =~= suffix@);
    true
}

/// The format that a coordinate file of this name is written in, read from
/// its suffix.
pub fn coordinate_format(filename: &str) -> (r: Result<CoordinateFormat, OutputError>)
    ensures
        r == (if has_suffix(filename@, ".xyz"@) {
            Ok(CoordinateFormat::Xyz)
        } else if has_suffix(filename@, ".pqr"@) {
            Ok(CoordinateFormat::Pqr)
        } else {
            Err(OutputError::UnknownSuffix)
        }),
{
    if ends_with(filename, ".xyz") {
        Ok(CoordinateFormat::Xyz)
    } else if ends_with(filename, ".pqr") {
        Ok(CoordinateFormat::Pqr)
    } else {
        Err(OutputError::UnknownSuffix)
    }
}

/// The atom name that a coordinate file gives a particle of this charge:
/// "PP" for a positive, "MP" for a negative and "NP" for a neutral one.
pub open spec fn atom_name(charge: i8) -> Seq<char> {
    if charge > 0 {
        "PP"@
    } else if charge < 0 {
        "MP"@
    } else {
        "NP"@
    }
}

/// The atom name of a particle, from the sign of its charge.
pub fn deduce_atom_name<S>(particle: &Particle<S>) -> (r: &'static str)
    ensures
        r@ == atom_name(particle.charge),
{
    if particle.charge > 0 {
        "PP"
    } else if particle.charge < 0 {
        "MP"
    } else {
        "NP"
    }
}

} // verus!
