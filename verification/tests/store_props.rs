use nexus::package::{PackageData, PackageType};
use nexus::state::{get_installed_packages, parse_state, serialize_state};

fn store_record(
    name: &str,
    package_type: PackageType,
    version: Option<&str>,
    channel: Option<&str>,
    hash: &str,
) -> PackageData {
    PackageData {
        name: name.to_string(),
        package_type,
        version: version.map(|s| s.to_string()),
        channel: channel.map(|s| s.to_string()),
        hash: hash.to_string(),
    }
}

#[test]
fn round_trip_preserves_records_and_order() {
    let records = vec![
        store_record("htop", PackageType::Apt, None, None, "aa11"),
        store_record("jq", PackageType::Brew, Some("1.7"), None, "bb22"),
        store_record("firefox", PackageType::Snap, Some("120"), Some("edge"), "cc33"),
        store_record("ripgrep", PackageType::Winget, None, Some("stable"), "dd44"),
    ];
    let doc = serialize_state(&records);
    let loaded = parse_state(&doc).expect("the store must accept its own document");
    assert_eq!(loaded, records);
}

#[test]
fn round_trip_preserves_empty_set() {
    let records: Vec<PackageData> = Vec::new();
    let doc = serialize_state(&records);
    assert_eq!(doc, "[]");
    assert_eq!(parse_state(&doc), Some(Vec::new()));
}

#[test]
fn round_trip_escapes_quotes_and_backslashes() {
    let records = vec![store_record(
        "odd\"name\\with\nnoise",
        PackageType::Apt,
        Some("1\\2"),
        Some("a\"b"),
        "ee55",
    )];
    let doc = serialize_state(&records);
    let loaded = parse_state(&doc).expect("escaped fields must parse back");
    assert_eq!(loaded, records);
}

#[test]
fn save_after_load_is_identity_on_content() {
    let records = vec![
        store_record("htop", PackageType::Apt, None, None, "aa11"),
        store_record("jq", PackageType::Brew, Some("1.7"), None, "bb22"),
    ];
    let doc = serialize_state(&records);
    let resaved = serialize_state(&parse_state(&doc).expect("own document parses"));
    assert_eq!(resaved, doc);
}

#[test]
fn serialized_document_is_one_record_per_line() {
    let records = vec![store_record("htop", PackageType::Apt, None, None, "aa11")];
    let doc = serialize_state(&records);
    assert_eq!(
        doc,
        "[\n{\"name\":\"htop\",\"type\":\"apt\",\"version\":null,\"channel\":null,\"hash\":\"aa11\"}\n]"
    );
}

#[test]
fn missing_state_file_loads_as_empty_set() {
    let loaded = get_installed_packages(None);
    assert!(loaded.is_empty());
}

#[test]
fn corrupt_state_file_loads_as_empty_set() {
    assert!(get_installed_packages(Some("not a state document")).is_empty());
    assert!(get_installed_packages(Some("")).is_empty());
    assert!(get_installed_packages(Some("[\n{\"name\":\"truncated")).is_empty());
}

#[test]
fn unknown_type_tag_is_rejected_as_corrupt() {
    let doc = "[\n{\"name\":\"x\",\"type\":\"pacman\",\"version\":null,\"channel\":null,\"hash\":\"ff\"}\n]";
    assert_eq!(parse_state(doc), None);
}
