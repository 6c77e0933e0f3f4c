use get_license_helper::license::LicenseAction;
use get_license_helper::plan::{
    display_repo_url, fetch_urls, output_name, plan_record, refs_for, DependencyRecord,
    RecordPlan,
};
use get_license_helper::rawurl::RawFilesURL;

fn record(
    name: &str,
    version: Option<&str>,
    repository: Option<&str>,
    license: Option<&str>,
    license_file: Option<&str>,
) -> DependencyRecord {
    DependencyRecord {
        name: name.to_string(),
        version: version.map(|s| s.to_string()),
        repository: repository.map(|s| s.to_string()),
        license: license.map(|s| s.to_string()),
        license_file: license_file.map(|s| s.to_string()),
    }
}

#[test]
fn refs_try_the_version_first() {
    let refs = refs_for(&Some("1.2.3".to_string()));
    assert_eq!(refs, vec!["1.2.3".to_string(), "master".to_string(), "main".to_string()]);
    let refs = refs_for(&None);
    assert_eq!(refs, vec!["master".to_string(), "main".to_string()]);
}

#[test]
fn output_name_joins_with_a_dash() {
    assert_eq!(output_name("serde", "LICENSE-MIT"), "serde-LICENSE-MIT");
}

#[test]
fn satisfied_dependency_makes_no_request() {
    let loc = RawFilesURL::from_repo_url("https://github.com/foo/bar.git").unwrap();
    let candidates = vec!["LICENSE-MIT".to_string()];
    let refs = vec!["master".to_string()];
    let urls = fetch_urls(&loc, true, &candidates, &refs);
    assert!(urls.is_empty());
}

#[test]
fn attempt_order_is_candidate_outer_ref_inner() {
    let loc = RawFilesURL::from_repo_url("https://github.com/foo/bar.git").unwrap();
    let candidates = vec!["LICENSE-MIT".to_string(), "LICENSE".to_string()];
    let refs = vec!["1.0.0".to_string(), "master".to_string()];
    let urls = fetch_urls(&loc, false, &candidates, &refs);
    assert_eq!(
        urls,
        vec![
            "https://raw.githubusercontent.com/foo/bar/1.0.0/LICENSE-MIT".to_string(),
            "https://raw.githubusercontent.com/foo/bar/master/LICENSE-MIT".to_string(),
            "https://raw.githubusercontent.com/foo/bar/1.0.0/LICENSE".to_string(),
            "https://raw.githubusercontent.com/foo/bar/master/LICENSE".to_string(),
        ]
    );
}

#[test]
fn missing_repository_is_unfamiliar() {
    let rec = record("lonely", None, None, Some("MIT"), None);
    assert_eq!(display_repo_url(&rec), "No repo for crate lonely!");
    assert!(matches!(plan_record(&rec), RecordPlan::Unfamiliar));
}

#[test]
fn unfamiliar_host_plans_no_fetch() {
    let rec = record(
        "elsewhere",
        None,
        Some("https://bitbucket.org/foo/bar"),
        Some("MIT"),
        None,
    );
    assert!(matches!(plan_record(&rec), RecordPlan::Unfamiliar));
}

#[test]
fn record_with_expression_plans_one_action_per_alternative() {
    let rec = record(
        "dual",
        Some("0.3.1"),
        Some("https://github.com/foo/dual"),
        Some("MIT OR Apache-2.0"),
        None,
    );
    match plan_record(&rec) {
        RecordPlan::Process { location, actions } => {
            assert_eq!(location.base, "https://raw.githubusercontent.com/foo/dual");
            assert_eq!(actions.len(), 2);
            assert!(matches!(actions[0], LicenseAction::Candidates(_)));
            assert!(matches!(actions[1], LicenseAction::Candidates(_)));
        },
        RecordPlan::Unfamiliar => panic!("expected the host to be recognized"),
    }
}

#[test]
fn explicit_license_file_is_the_single_candidate() {
    let rec = record(
        "filed",
        None,
        Some("https://github.com/foo/filed"),
        None,
        Some("COPYING"),
    );
    match plan_record(&rec) {
        RecordPlan::Process { actions, .. } => {
            assert_eq!(actions.len(), 1);
            match &actions[0] {
                LicenseAction::Candidates(ns) => assert_eq!(ns, &vec!["COPYING".to_string()]),
                _ => panic!("expected a candidate list"),
            }
        },
        RecordPlan::Unfamiliar => panic!("expected the host to be recognized"),
    }
}

#[test]
fn no_license_information_falls_back_to_generic_names() {
    let rec = record("bare", None, Some("https://github.com/foo/bare"), None, None);
    match plan_record(&rec) {
        RecordPlan::Process { actions, .. } => {
            assert_eq!(actions.len(), 1);
            match &actions[0] {
                LicenseAction::Candidates(ns) => {
                    assert_eq!(ns, &vec!["LICENSE".to_string(), "LICENCE".to_string()])
                },
                _ => panic!("expected a candidate list"),
            }
        },
        RecordPlan::Unfamiliar => panic!("expected the host to be recognized"),
    }
}
