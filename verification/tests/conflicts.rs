use pyconflict::conflict::{analyze, first_common, probe_versions, ConflictResult};
use pyconflict::requirement::Version;
use pyconflict::specifier::PythonPackage;

fn package(input: &str) -> PythonPackage {
    PythonPackage::parse(input).unwrap()
}

#[test]
fn test_package_conflicts() {
    // Test compatible versions
    let pkg1 = PythonPackage::parse("requests>=2.0.0").unwrap();
    let pkg2 = PythonPackage::parse("requests<3.0.0").unwrap();
    assert!(!pkg1.conflicts_with(&pkg2));

    // Test conflicting versions
    let pkg1 = PythonPackage::parse("django>=4.0.0").unwrap();
    let pkg2 = PythonPackage::parse("django<3.0.0").unwrap();
    assert!(pkg1.conflicts_with(&pkg2));

    // Test different packages (should never conflict)
    let pkg1 = PythonPackage::parse("requests>=2.0.0").unwrap();
    let pkg2 = PythonPackage::parse("flask>=2.0.0").unwrap();
    assert!(!pkg1.conflicts_with(&pkg2));

    // Test exact version requirements
    let pkg1 = PythonPackage::parse("pytest==6.0.0").unwrap();
    let pkg2 = PythonPackage::parse("pytest==6.0.0").unwrap();
    assert!(!pkg1.conflicts_with(&pkg2));

    let pkg1 = PythonPackage::parse("pytest==7.0.0").unwrap();
    let pkg2 = PythonPackage::parse("pytest==6.0.0").unwrap();
    assert!(pkg1.conflicts_with(&pkg2));
}

#[test]
fn test_version_ranges() {
    // Test overlapping ranges
    let pkg1 = PythonPackage::parse("django>=2.0.0").unwrap();
    let pkg2 = PythonPackage::parse("django<5.0.0").unwrap();
    assert!(!pkg1.conflicts_with(&pkg2));

    // Test non-overlapping ranges
    let pkg1 = PythonPackage::parse("django>=5.0.0").unwrap();
    let pkg2 = PythonPackage::parse("django<4.0.0").unwrap();
    assert!(pkg1.conflicts_with(&pkg2));

    // Test boundary cases
    let pkg1 = PythonPackage::parse("django==3.0.0").unwrap();
    let pkg2 = PythonPackage::parse("django>=3.0.0").unwrap();
    assert!(!pkg1.conflicts_with(&pkg2));
}

#[test]
fn probe_set_is_fixed() {
    let expected: Vec<Version> = [
        (0, 1, 0),
        (1, 0, 0),
        (2, 0, 0),
        (3, 0, 0),
        (4, 0, 0),
        (5, 0, 0),
        (6, 0, 0),
        (7, 0, 0),
        (1, 2, 3),
        (2, 3, 4),
        (3, 4, 5),
        (4, 5, 6),
        (5, 6, 7),
        (1, 0, 1),
        (2, 0, 1),
        (3, 0, 1),
        (4, 0, 1),
        (5, 0, 1),
    ]
    .iter()
    .map(|&(major, minor, patch)| Version { major, minor, patch })
    .collect();
    assert_eq!(probe_versions(), expected);
    assert_eq!(probe_versions().len(), 18);
}

#[test]
fn probe_set_is_what_the_literals_parse_to() {
    let literals = [
        "0.1.0", "1.0.0", "2.0.0", "3.0.0", "4.0.0", "5.0.0", "6.0.0", "7.0.0", "1.2.3", "2.3.4",
        "3.4.5", "4.5.6", "5.6.7", "1.0.1", "2.0.1", "3.0.1", "4.0.1", "5.0.1",
    ];
    let probes = probe_versions();
    assert_eq!(probes.len(), literals.len());
    for (probe, literal) in probes.iter().zip(literals.iter()) {
        let parsed = semver::Version::parse(literal).unwrap();
        assert_eq!(parsed, semver::Version::new(probe.major, probe.minor, probe.patch));
    }
}

#[test]
fn probe_acceptance_has_one_answer_per_probe() {
    let hits = package("django>=4.0.0").probe_acceptance();
    let expected = vec![
        false, false, false, false, true, true, true, true, false, false, false, true, true, false,
        false, false, true, true,
    ];
    assert_eq!(hits, expected);
    assert_eq!(package("django").probe_acceptance(), vec![true; 18]);
    assert_eq!(package("django==9.9.9").probe_acceptance(), vec![false; 18]);
}

#[test]
fn first_common_finds_the_first_shared_position() {
    assert_eq!(first_common(&vec![false, true, true], &vec![true, true, true]), Some(1));
    assert_eq!(first_common(&vec![true, false], &vec![true, true]), Some(0));
    assert_eq!(first_common(&vec![true, false], &vec![false, true]), None);
    assert_eq!(first_common(&vec![], &vec![]), None);
    assert_eq!(first_common(&vec![false, false, true], &vec![false, false]), None);
    assert_eq!(first_common(&vec![false, true], &vec![false, true, true]), Some(1));
}

#[test]
fn common_probe_is_the_first_in_probe_order() {
    let a = package("requests>=2.0.0");
    let b = package("requests<3.0.0");
    assert_eq!(a.common_probe(&b), Some(Version { major: 2, minor: 0, patch: 0 }));
    assert_eq!(b.common_probe(&a), Some(Version { major: 2, minor: 0, patch: 0 }));

    let a = package("requests>2.0.0");
    let b = package("requests<3.0.0");
    assert_eq!(a.common_probe(&b), Some(Version { major: 2, minor: 3, patch: 4 }));

    let a = package("requests");
    let b = package("requests");
    assert_eq!(a.common_probe(&b), Some(Version { major: 0, minor: 1, patch: 0 }));

    let a = package("django>=4.0.0");
    let b = package("django<3.0.0");
    assert_eq!(a.common_probe(&b), None);

    // The names play no part here.
    let a = package("requests>=5.0.1");
    let b = package("flask<=5.0.1");
    assert_eq!(a.common_probe(&b), Some(Version { major: 5, minor: 0, patch: 1 }));
}

#[test]
fn conflict_is_symmetric() {
    let inputs = [
        "django",
        "django>=2.0.0",
        "django<3.0.0",
        "django>=4.0.0",
        "django==3.0.0",
        "django==6.0.0",
        "django~=1.2",
        "django>=1.5.0,<1.6.0",
        "flask>=2.0.0",
        "flask",
    ];
    for x in inputs {
        for y in inputs {
            let a = package(x);
            let b = package(y);
            assert_eq!(a.conflicts_with(&b), b.conflicts_with(&a), "{:?} {:?}", x, y);
            assert_eq!(analyze(&a, &b), analyze(&b, &a), "{:?} {:?}", x, y);
        }
    }
}

#[test]
fn different_names_are_never_compared() {
    let cases = [
        ("requests>=2.0.0", "flask>=2.0.0"),
        ("django>=4.0.0", "flask<3.0.0"),
        ("pytest==7.0.0", "pytest-cov==6.0.0"),
        ("a", "b"),
        ("Django", "django"),
    ];
    for (x, y) in cases {
        let a = package(x);
        let b = package(y);
        assert_eq!(analyze(&a, &b), ConflictResult::DifferentPackages);
        assert!(!a.conflicts_with(&b));
    }
}

#[test]
fn findings_for_one_package() {
    assert_eq!(
        analyze(&package("requests>=2.0.0"), &package("requests<3.0.0")),
        ConflictResult::NoConflict
    );
    assert_eq!(
        analyze(&package("django>=4.0.0"), &package("django<3.0.0")),
        ConflictResult::Conflict
    );
    assert_eq!(
        analyze(&package("pytest==7.0.0"), &package("pytest==6.0.0")),
        ConflictResult::Conflict
    );
    assert_eq!(
        analyze(&package("pytest==6.0.0"), &package("pytest==6.0.0")),
        ConflictResult::NoConflict
    );
    assert_eq!(analyze(&package("pytest"), &package("pytest")), ConflictResult::NoConflict);
    assert_eq!(analyze(&package("pytest"), &package("pytest>=7.0.0")), ConflictResult::NoConflict);
}

#[test]
fn unconstrained_conflicts_only_with_what_accepts_no_probe() {
    assert!(!package("pytest").conflicts_with(&package("pytest<=0.1.0")));
    assert!(package("pytest").conflicts_with(&package("pytest==9.9.9")));
    assert!(package("pytest==9.9.9").conflicts_with(&package("pytest")));
}

#[test]
fn ranges_that_meet_outside_the_probe_set_are_reported_as_conflict() {
    // 1.5.0 satisfies both, but no probe does.
    let a = package("django>=1.5.0");
    let b = package("django<1.6.0,>1.2.3");
    assert!(a.accepts(Version { major: 1, minor: 5, patch: 0 }));
    assert!(b.accepts(Version { major: 1, minor: 5, patch: 0 }));
    assert!(a.conflicts_with(&b));
    assert_eq!(analyze(&a, &b), ConflictResult::Conflict);
    // A requirement that only versions above the probe set satisfy.
    let c = package("django>=8.0.0");
    assert!(c.conflicts_with(&c));
}

#[test]
fn a_requirement_accepts_what_each_of_its_comparators_accepts() {
    let inputs = [
        "django",
        "django*",
        "django>=2.0.0",
        "django>=2.0.0,<3.0.0",
        "django>1.0.0,<=4.5.6,~=4.5",
        "django==3.4.5",
        "django^1.2",
        "django>=1.0.0-alpha",
        "django==1.0.0-rc.1",
        "django 1.*",
    ];
    let mut versions = probe_versions();
    versions.push(Version { major: 0, minor: 0, patch: 0 });
    versions.push(Version { major: 1, minor: 9, patch: 9 });
    versions.push(Version { major: u64::MAX, minor: 0, patch: 0 });
    for input in inputs {
        let pkg = package(input);
        for version in &versions {
            let v = semver::Version::new(version.major, version.minor, version.patch);
            let each = pkg.version_req.comparators.iter().all(|c| c.matches(&v));
            assert_eq!(pkg.accepts(*version), each, "{:?} {:?}", input, version);
        }
    }
}
