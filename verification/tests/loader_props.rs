use nexus::config::{filter_manifest_paths, is_manifest_path, Config};
use nexus::installer::{installer_args, os_supports, uninstaller_args, OsKind};
use nexus::manifest::{get_packages, load_manifest, make_package_data, LoadError};
use nexus::package::{parse_type, PackageData, PackageType};
use nexus::reconcile::apply_install;
use nexus::script::run_hook;

#[test]
fn manifest_paths_keep_only_lua_files() {
    let discovered = vec![
        "pkgs/htop.lua".to_string(),
        "pkgs/readme.md".to_string(),
        "pkgs/jq.lua".to_string(),
        "pkgs/.lua".to_string(),
        "pkgs/notes.txt".to_string(),
    ];
    let kept = filter_manifest_paths(&discovered);
    assert_eq!(kept, vec!["pkgs/htop.lua".to_string(), "pkgs/jq.lua".to_string()]);
}

#[test]
fn manifest_path_rules_match_extension_semantics() {
    assert!(is_manifest_path("a.lua"));
    assert!(is_manifest_path("dir/sub/tool.lua"));
    assert!(is_manifest_path("dir/a.b.lua"));
    assert!(!is_manifest_path(".lua"));
    assert!(!is_manifest_path("dir/.lua"));
    assert!(!is_manifest_path("a.luan"));
    assert!(!is_manifest_path("alua"));
    assert!(!is_manifest_path("a.txt"));
}

#[test]
fn config_keeps_root_and_filters_paths() {
    let cfg = Config::new(
        "/home/u/.config/q-pkg-manager".to_string(),
        vec!["p/x.lua".to_string(), "p/x.json".to_string()],
    );
    assert_eq!(cfg.config_dir, "/home/u/.config/q-pkg-manager");
    assert_eq!(cfg.packages, vec!["p/x.lua".to_string()]);
}

#[test]
fn minimal_manifest_loads_with_defaults_unset() {
    let lua = mlua::Lua::new();
    let source = "{ name = \"htop\", package_type = \"apt\" }";
    let pkg = load_manifest(&lua, "pkgs/htop.lua", source).expect("valid manifest must load");
    assert_eq!(pkg.package_data.name, "htop");
    assert_eq!(pkg.package_data.package_type, PackageType::Apt);
    assert_eq!(pkg.package_data.version, None);
    assert_eq!(pkg.package_data.channel, None);
    assert_eq!(pkg.package_data.hash, nexus::hashing::content_hash(source));
    assert!(pkg.pre_install.is_none());
    assert!(pkg.post_install.is_none());
}

#[test]
fn full_manifest_loads_all_fields() {
    let lua = mlua::Lua::new();
    let source = "{ name = \"firefox\", package_type = \"snap\", version = \"120\", channel = \"edge\", pre_install = function() end, post_install = function() end }";
    let pkg = load_manifest(&lua, "pkgs/firefox.lua", source).expect("valid manifest must load");
    assert_eq!(pkg.package_data.version.as_deref(), Some("120"));
    assert_eq!(pkg.package_data.channel.as_deref(), Some("edge"));
    assert!(pkg.pre_install.is_some());
    assert!(pkg.post_install.is_some());
}

#[test]
fn unparseable_manifest_fails_with_its_path() {
    let lua = mlua::Lua::new();
    let err = load_manifest(&lua, "pkgs/broken.lua", "this is not lua at all {{{")
        .err()
        .expect("a broken manifest must fail");
    match err {
        LoadError::Invalid(p) => assert_eq!(p, "pkgs/broken.lua"),
        LoadError::Io(_) => panic!("evaluation failure is Invalid, not Io"),
    }
}

#[test]
fn unknown_package_type_fails_the_manifest() {
    let lua = mlua::Lua::new();
    let source = "{ name = \"x\", package_type = \"pacman\" }";
    assert!(load_manifest(&lua, "pkgs/x.lua", source).is_err());
}

#[test]
fn missing_or_empty_name_fails_the_manifest() {
    let lua = mlua::Lua::new();
    assert!(load_manifest(&lua, "p.lua", "{ package_type = \"apt\" }").is_err());
    assert!(load_manifest(&lua, "p.lua", "{ name = \"\", package_type = \"apt\" }").is_err());
}

#[test]
fn load_is_fail_fast_across_manifests() {
    let lua = mlua::Lua::new();
    let sources = vec![
        ("a.lua".to_string(), "{ name = \"a\", package_type = \"apt\" }".to_string()),
        ("b.lua".to_string(), "nonsense((".to_string()),
        ("c.lua".to_string(), "{ name = \"c\", package_type = \"brew\" }".to_string()),
    ];
    match get_packages(&lua, &sources) {
        Ok(_) => panic!("a broken manifest must abort the load"),
        Err(LoadError::Invalid(p)) => assert_eq!(p, "b.lua"),
        Err(LoadError::Io(_)) => panic!("evaluation failure is Invalid, not Io"),
    }
}

#[test]
fn get_packages_keeps_declaration_order() {
    let lua = mlua::Lua::new();
    let sources = vec![
        ("a.lua".to_string(), "{ name = \"a\", package_type = \"apt\" }".to_string()),
        ("b.lua".to_string(), "{ name = \"b\", package_type = \"winget\" }".to_string()),
    ];
    let pkgs = get_packages(&lua, &sources).expect("both manifests are valid");
    let names: Vec<String> = pkgs.iter().map(|p| p.package_data.name.clone()).collect();
    assert_eq!(names, vec!["a".to_string(), "b".to_string()]);
}

#[test]
fn empty_manifest_set_loads_as_empty_declared_set() {
    let lua = mlua::Lua::new();
    let sources: Vec<(String, String)> = Vec::new();
    let pkgs = get_packages(&lua, &sources).expect("an empty set loads");
    assert!(pkgs.is_empty());
}

#[test]
fn manifest_script_can_compute_fields() {
    let lua = mlua::Lua::new();
    let source = "local v = 1 + 2\nreturn { name = \"tool\" .. v, package_type = \"brew\" }";
    let pkg = load_manifest(&lua, "t.lua", source).expect("script manifests are allowed");
    assert_eq!(pkg.package_data.name, "tool3");
}

#[test]
fn hooks_run_when_invoked() {
    let lua = mlua::Lua::new();
    let source = "{ name = \"h\", package_type = \"apt\", pre_install = function() hook_ran = true end }";
    let pkg = load_manifest(&lua, "h.lua", source).expect("valid manifest must load");
    run_hook(&pkg.pre_install);
    let ran: bool = lua.globals().get("hook_ran").expect("the hook sets a global");
    assert!(ran);
}

#[test]
fn failing_hook_does_not_prevent_the_action() {
    let lua = mlua::Lua::new();
    let source = "{ name = \"h\", package_type = \"apt\", pre_install = function() error(\"boom\") end, post_install = function() error(\"boom\") end }";
    let pkg = load_manifest(&lua, "h.lua", source).expect("valid manifest must load");
    let mut record: Vec<PackageData> = Vec::new();
    run_hook(&pkg.pre_install);
    apply_install(&mut record, &pkg.package_data, true);
    run_hook(&pkg.post_install);
    assert_eq!(record.len(), 1);
    assert_eq!(record[0].name, "h");
}

#[test]
fn parse_type_recognizes_exactly_the_four_tags() {
    assert_eq!(parse_type("apt"), Some(PackageType::Apt));
    assert_eq!(parse_type("snap"), Some(PackageType::Snap));
    assert_eq!(parse_type("brew"), Some(PackageType::Brew));
    assert_eq!(parse_type("winget"), Some(PackageType::Winget));
    assert_eq!(parse_type("Apt"), None);
    assert_eq!(parse_type("aptx"), None);
    assert_eq!(parse_type(""), None);
}

#[test]
fn type_tags_round_trip_through_parse() {
    for t in [PackageType::Apt, PackageType::Snap, PackageType::Brew, PackageType::Winget] {
        assert_eq!(parse_type(&t.tag()), Some(t));
    }
}

#[test]
fn make_package_data_validates_name_and_tag() {
    let ok = make_package_data(
        Some("htop".to_string()),
        Some("apt".to_string()),
        None,
        None,
        "hh".to_string(),
    )
    .expect("valid fields build a record");
    assert_eq!(ok.name, "htop");
    assert!(make_package_data(None, Some("apt".to_string()), None, None, "hh".to_string()).is_none());
    assert!(make_package_data(Some("".to_string()), Some("apt".to_string()), None, None, "hh".to_string()).is_none());
    assert!(make_package_data(Some("x".to_string()), None, None, None, "hh".to_string()).is_none());
    assert!(make_package_data(Some("x".to_string()), Some("deb".to_string()), None, None, "hh".to_string()).is_none());
}

#[test]
fn load_error_messages_name_the_path() {
    assert_eq!(LoadError::Io("a.lua".to_string()).message(), "Failed to open a.lua");
    assert_eq!(
        LoadError::Invalid("b.lua".to_string()).message(),
        "Failed to load package from b.lua"
    );
}

fn loader_record(name: &str, package_type: PackageType, version: Option<&str>, channel: Option<&str>) -> PackageData {
    PackageData {
        name: name.to_string(),
        package_type,
        version: version.map(|s| s.to_string()),
        channel: channel.map(|s| s.to_string()),
        hash: "hh".to_string(),
    }
}

#[test]
fn apt_install_args_follow_apt_conventions() {
    let bare = loader_record("htop", PackageType::Apt, None, None);
    assert_eq!(installer_args(&bare), vec!["apt", "install", "htop"]);
    let pinned = loader_record("htop", PackageType::Apt, Some("3.2"), None);
    assert_eq!(installer_args(&pinned), vec!["apt", "install", "htop=3.2"]);
}

#[test]
fn snap_install_args_follow_snap_conventions() {
    let bare = loader_record("firefox", PackageType::Snap, None, None);
    assert_eq!(installer_args(&bare), vec!["snap", "install", "firefox", "--channel=stable"]);
    let pinned = loader_record("firefox", PackageType::Snap, Some("120"), Some("edge"));
    assert_eq!(installer_args(&pinned), vec!["snap", "install", "firefox", "--channel=120/edge"]);
    let track_pinned = loader_record("firefox", PackageType::Snap, Some("120"), None);
    assert_eq!(installer_args(&track_pinned), vec!["snap", "install", "firefox", "--channel=120/stable"]);
}

#[test]
fn brew_install_args_follow_brew_conventions() {
    let bare = loader_record("jq", PackageType::Brew, None, None);
    assert_eq!(installer_args(&bare), vec!["brew", "install", "jq"]);
    let pinned = loader_record("jq", PackageType::Brew, Some("1.7"), None);
    assert_eq!(installer_args(&pinned), vec!["brew", "install", "jq@1.7"]);
}

#[test]
fn winget_install_args_pass_version_separately() {
    let bare = loader_record("ripgrep", PackageType::Winget, None, None);
    assert_eq!(installer_args(&bare), vec!["winget", "install", "ripgrep"]);
    let pinned = loader_record("ripgrep", PackageType::Winget, Some("14"), None);
    assert_eq!(installer_args(&pinned), vec!["winget", "install", "ripgrep", "--version", "14"]);
}

#[test]
fn uninstall_args_remove_by_name() {
    assert_eq!(
        uninstaller_args(&loader_record("a", PackageType::Apt, None, None)),
        vec!["apt", "remove", "a"]
    );
    assert_eq!(
        uninstaller_args(&loader_record("b", PackageType::Snap, Some("1"), None)),
        vec!["snap", "remove", "b"]
    );
    assert_eq!(
        uninstaller_args(&loader_record("c", PackageType::Brew, None, None)),
        vec!["brew", "uninstall", "c"]
    );
    assert_eq!(
        uninstaller_args(&loader_record("d", PackageType::Winget, None, None)),
        vec!["winget", "uninstall", "d"]
    );
}

#[test]
fn os_compatibility_follows_each_manager() {
    assert!(os_supports(PackageType::Apt, OsKind::Debian));
    assert!(os_supports(PackageType::Apt, OsKind::Ubuntu));
    assert!(os_supports(PackageType::Apt, OsKind::Pop));
    assert!(!os_supports(PackageType::Apt, OsKind::Macos));
    assert!(os_supports(PackageType::Snap, OsKind::Ubuntu));
    assert!(!os_supports(PackageType::Snap, OsKind::Debian));
    assert!(os_supports(PackageType::Brew, OsKind::Macos));
    assert!(!os_supports(PackageType::Brew, OsKind::Windows));
    assert!(os_supports(PackageType::Winget, OsKind::Windows));
    assert!(!os_supports(PackageType::Winget, OsKind::Other));
}
