use nexus::package::{same_identity, PackageData, PackageType};
use nexus::reconcile::{
    apply_install, display_lines, plan_hash_warnings, plan_install, plan_purge, plan_update,
    purge_survivors,
};

fn declared(name: &str, package_type: PackageType) -> PackageData {
    PackageData {
        name: name.to_string(),
        package_type,
        version: None,
        channel: None,
        hash: "hash".to_string(),
    }
}

fn run_install_pass(declared: &[PackageData], record: &mut Vec<PackageData>, outcome: bool) {
    let declared_vec = declared.to_vec();
    let plan = plan_install(&declared_vec, record);
    for (i, pkg) in declared_vec.iter().enumerate() {
        if plan[i] {
            apply_install(record, pkg, outcome);
        }
    }
}

#[test]
fn install_twice_leaves_record_unchanged() {
    let d = vec![declared("htop", PackageType::Apt), declared("jq", PackageType::Brew)];
    let mut record: Vec<PackageData> = Vec::new();
    run_install_pass(&d, &mut record, true);
    let after_first = record.clone();
    assert_eq!(after_first.len(), 2);
    run_install_pass(&d, &mut record, true);
    assert_eq!(record, after_first);
}

#[test]
fn install_never_duplicates_an_identity() {
    let d = vec![declared("htop", PackageType::Apt)];
    let mut record: Vec<PackageData> = Vec::new();
    apply_install(&mut record, &d[0], true);
    apply_install(&mut record, &d[0], true);
    assert_eq!(record.len(), 1);
}

#[test]
fn failed_install_is_not_recorded() {
    let d = vec![declared("htop", PackageType::Apt)];
    let mut record: Vec<PackageData> = Vec::new();
    run_install_pass(&d, &mut record, false);
    assert!(record.is_empty());
}

#[test]
fn install_plan_skips_already_installed_identities() {
    let d = vec![declared("htop", PackageType::Apt), declared("jq", PackageType::Brew)];
    let record = vec![declared("htop", PackageType::Apt)];
    let plan = plan_install(&d, &record);
    assert_eq!(plan, vec![false, true]);
}

#[test]
fn version_change_counts_as_a_new_identity() {
    let mut newer = declared("htop", PackageType::Apt);
    newer.version = Some("3.2".to_string());
    let record = vec![declared("htop", PackageType::Apt)];
    assert!(!same_identity(&newer, &record[0]));
    let plan = plan_install(&vec![newer], &record);
    assert_eq!(plan, vec![true]);
}

#[test]
fn update_plan_attempts_every_declared_package() {
    let d = vec![declared("htop", PackageType::Apt), declared("jq", PackageType::Brew)];
    assert_eq!(plan_update(&d), vec![true, true]);
}

#[test]
fn purge_removes_exactly_the_undeclared_entries() {
    let d = vec![declared("htop", PackageType::Apt), declared("jq", PackageType::Brew)];
    let record = vec![
        declared("old-tool", PackageType::Apt),
        declared("htop", PackageType::Apt),
        declared("stale", PackageType::Snap),
        declared("jq", PackageType::Brew),
    ];
    let plan = plan_purge(&d, &record);
    assert_eq!(plan, vec![true, false, true, false]);
    let removed = plan.clone();
    let survivors = purge_survivors(&record, &removed);
    assert_eq!(survivors, vec![record[1].clone(), record[3].clone()]);
}

#[test]
fn undeclared_package_is_purged_on_success() {
    let record = vec![declared("foo", PackageType::Apt)];
    let d: Vec<PackageData> = Vec::new();
    let plan = plan_purge(&d, &record);
    assert_eq!(plan, vec![true]);
    let survivors = purge_survivors(&record, &vec![true]);
    assert!(survivors.is_empty());
}

#[test]
fn undeclared_package_stays_recorded_when_uninstall_fails() {
    let record = vec![declared("foo", PackageType::Apt)];
    let survivors = purge_survivors(&record, &vec![false]);
    assert_eq!(survivors, record);
}

#[test]
fn changed_manifest_with_same_identity_is_flagged_not_reinstalled() {
    let recorded = declared("htop", PackageType::Apt);
    let mut edited = declared("htop", PackageType::Apt);
    edited.hash = "other-hash".to_string();
    let record = vec![recorded];
    let d = vec![edited];
    assert_eq!(plan_hash_warnings(&d, &record), vec![true]);
    assert_eq!(plan_install(&d, &record), vec![false]);
    let unchanged = vec![declared("htop", PackageType::Apt)];
    assert_eq!(plan_hash_warnings(&unchanged, &record), vec![false]);
}

#[test]
fn declared_htop_installs_via_apt_and_is_recorded_bare() {
    let htop = declared("htop", PackageType::Apt);
    let mut record: Vec<PackageData> = Vec::new();
    let plan = plan_install(&vec![htop.clone()], &record);
    assert_eq!(plan, vec![true]);
    let args = nexus::installer::installer_args(&htop);
    assert_eq!(args, vec!["apt", "install", "htop"]);
    apply_install(&mut record, &htop, true);
    assert_eq!(record.len(), 1);
    assert_eq!(record[0].name, "htop");
    assert_eq!(record[0].package_type, PackageType::Apt);
    assert_eq!(record[0].version, None);
    assert_eq!(record[0].channel, None);
}

#[test]
fn list_lines_substitute_latest_and_stable() {
    let mut pinned = declared("jq", PackageType::Brew);
    pinned.version = Some("1.7".to_string());
    pinned.channel = Some("edge".to_string());
    let items = vec![declared("htop", PackageType::Apt), pinned];
    let lines = display_lines(&items);
    assert_eq!(lines, vec!["htop: apt - latest/stable", "jq: brew - 1.7/edge"]);
}
