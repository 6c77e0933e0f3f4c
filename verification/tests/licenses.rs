use get_license_helper::license::{
    expand_candidates, license_actions, lookup_license, LicenseAction,
};

fn candidate_names(a: LicenseAction) -> Vec<String> {
    match a {
        LicenseAction::Candidates(ns) => ns,
        _ => panic!("expected a candidate list"),
    }
}

#[test]
fn mit_maps_to_mit_names() {
    let ns = candidate_names(lookup_license("MIT"));
    assert_eq!(ns, vec!["LICENSE-MIT".to_string(), "LICENCE-MIT".to_string()]);
}

#[test]
fn apache_family_maps_to_apache_names() {
    let expected = vec![
        "LICENSE-APACHE".to_string(),
        "LICENSE-Apache".to_string(),
        "License-Apache-2.0".to_string(),
        "LICENCE-APACHE".to_string(),
        "LICENCE-Apache".to_string(),
        "Licence-Apache-2.0".to_string(),
    ];
    assert_eq!(candidate_names(lookup_license("Apache-2.0")), expected);
    assert_eq!(
        candidate_names(lookup_license("Apache-2.0 WITH LLVM-exception")),
        expected
    );
    // any other identifier beginning with Apache-2.0 falls back to the family
    assert_eq!(candidate_names(lookup_license("Apache-2.0+")), expected);
}

#[test]
fn bsd_identifiers_share_one_list() {
    let expected = vec!["LICENSE-BSD".to_string(), "LICENCE-BSD".to_string()];
    assert_eq!(candidate_names(lookup_license("BSD-3-Clause")), expected);
    assert_eq!(candidate_names(lookup_license("BSD-2-Clause")), expected);
    assert_eq!(candidate_names(lookup_license("BSD")), expected);
}

#[test]
fn remaining_known_identifiers() {
    assert_eq!(
        candidate_names(lookup_license("0BSD")),
        vec!["LICENSE-0BSD".to_string(), "LICENCE-0BSD".to_string()]
    );
    let generic = vec!["LICENSE".to_string(), "LICENCE".to_string()];
    assert_eq!(candidate_names(lookup_license("CC0-1.0")), generic);
    assert_eq!(candidate_names(lookup_license("MPL-2.0")), generic);
    assert_eq!(
        candidate_names(lookup_license("ISC")),
        vec!["LICENSE-ISC".to_string(), "LICENCE-ISC".to_string()]
    );
    assert_eq!(
        candidate_names(lookup_license("BSL-1.0")),
        vec![
            "LICENSE-BOOST".to_string(),
            "LICENSE-BST".to_string(),
            "LICENCE-BOOST".to_string(),
            "LICENCE-BST".to_string(),
        ]
    );
    assert_eq!(
        candidate_names(lookup_license("Zlib")),
        vec!["LICENSE-ZLIB".to_string(), "LICENCE-ZLIB".to_string()]
    );
}

#[test]
fn unlicense_needs_no_file() {
    // no candidate is generated and nothing is reported as a failure
    assert!(matches!(lookup_license("Unlicense"), LicenseAction::NoFileNeeded));
    let actions = license_actions("Unlicense");
    assert_eq!(actions.len(), 1);
    assert!(matches!(actions[0], LicenseAction::NoFileNeeded));
}

#[test]
fn unknown_identifier_is_reported_once() {
    let actions = license_actions("Foo-9.9");
    assert_eq!(actions.len(), 1);
    match &actions[0] {
        LicenseAction::NotImplemented(id) => assert_eq!(id, "Foo-9.9"),
        _ => panic!("expected the identifier to be reported as not implemented"),
    }
}

#[test]
fn one_fetch_per_known_alternative() {
    let actions = license_actions("MIT OR Apache-2.0");
    assert_eq!(actions.len(), 2);
    assert!(matches!(actions[0], LicenseAction::Candidates(_)));
    assert!(matches!(actions[1], LicenseAction::Candidates(_)));

    let actions = license_actions("MIT OR Apache-2.0 OR Zlib");
    assert_eq!(actions.len(), 3);
    for a in &actions {
        assert!(matches!(a, LicenseAction::Candidates(_)));
    }
}

#[test]
fn mixed_alternatives_keep_their_order() {
    let actions = license_actions("Unlicense OR MIT OR Foo-9.9");
    assert_eq!(actions.len(), 3);
    assert!(matches!(actions[0], LicenseAction::NoFileNeeded));
    assert!(matches!(actions[1], LicenseAction::Candidates(_)));
    assert!(matches!(actions[2], LicenseAction::NotImplemented(_)));
}

#[test]
fn expansion_order_is_exact() {
    let names = vec!["LICENSE-MIT".to_string(), "LICENCE-MIT".to_string()];
    let expanded = expand_candidates(&names);
    let expected: Vec<String> = [
        "LICENSE-MIT",
        "LICENSE-MIT.txt",
        "LICENSE-MIT.md",
        "license-mit",
        "license-mit.txt",
        "license-mit.md",
        "LICENCE-MIT",
        "LICENCE-MIT.txt",
        "LICENCE-MIT.md",
        "licence-mit",
        "licence-mit.txt",
        "licence-mit.md",
        "LICENSE",
        "LICENSE.txt",
        "LICENSE.md",
        "license",
        "license.txt",
        "license.md",
        "LICENCE",
        "LICENCE.txt",
        "LICENCE.md",
        "licence",
        "licence.txt",
        "licence.md",
    ]
    .iter()
    .map(|s| s.to_string())
    .collect();
    assert_eq!(expanded, expected);
}

#[test]
fn generic_list_is_not_doubled() {
    let names = vec!["LICENSE".to_string(), "LICENCE".to_string()];
    let expanded = expand_candidates(&names);
    assert_eq!(expanded.len(), 12);
    assert_eq!(expanded[0], "LICENSE");
    assert_eq!(expanded[6], "LICENCE");
}

#[test]
fn expansion_is_deterministic() {
    let names = vec!["COPYING".to_string()];
    let first = expand_candidates(&names);
    let second = expand_candidates(&names);
    assert_eq!(first, second);
    assert_eq!(first.len(), 18);
    assert_eq!(first[0], "COPYING");
    assert_eq!(first[3], "copying");
    assert_eq!(first[6], "LICENSE");
}
