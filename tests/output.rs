use cppm::{coordinate_format, deduce_atom_name, ends_with, CoordinateFormat, OutputError, Particle};

#[test]
fn coordinate_format_from_suffix() {
    assert_eq!(coordinate_format("confout.xyz"), Ok(CoordinateFormat::Xyz));
    assert_eq!(coordinate_format("confout.pqr"), Ok(CoordinateFormat::Pqr));
    assert_eq!(coordinate_format(".pqr"), Ok(CoordinateFormat::Pqr));
    assert_eq!(coordinate_format("confout.pdb"), Err(OutputError::UnknownSuffix));
    assert_eq!(coordinate_format("xyz"), Err(OutputError::UnknownSuffix));
    assert_eq!(coordinate_format(""), Err(OutputError::UnknownSuffix));
}

#[test]
fn ends_with_compares_characters() {
    assert!(ends_with("sphère.xyz", ".xyz"));
    assert!(ends_with("abc", ""));
    assert!(!ends_with("ab", "abc"));
    assert!(!ends_with("a.xyZ", ".xyz"));
}

#[test]
fn atom_names_follow_charge_sign() {
    assert_eq!(deduce_atom_name(&Particle { charge: 1, site: () }), "PP");
    assert_eq!(deduce_atom_name(&Particle { charge: -1, site: () }), "MP");
    assert_eq!(deduce_atom_name(&Particle { charge: 0, site: () }), "NP");
}
