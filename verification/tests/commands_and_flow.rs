use plugin_catalogue::address::homepage_to_show;
use plugin_catalogue::commands::{FailureAction, Install, Uninstall, Upgrade, UpgradeMode};
use plugin_catalogue::database::InProcDatabaseLocation;
use plugin_catalogue::descriptor::PluginDescriptor;
use plugin_catalogue::error::Error;
use plugin_catalogue::install::{
    begin_install, confirmation_prompt, confirmed, declined, plan_files, report_install, FileStep,
    InstallStep,
};
use plugin_catalogue::location::{ManifestLocation, PluginLookup};
use plugin_catalogue::manager::PluginManager;
use plugin_catalogue::manifest::{Architecture, Os, PluginManifest, PluginPackage, Target};
use plugin_catalogue::store::InstalledStore;
use plugin_catalogue::upgrade::{eligible_upgrades, latest_for, offer_labels};
use std::path::PathBuf;
use url::Url;

const SUM_A: &str = "aaaaaaaaaaaaaaaaaaaaaaaaaaaaaaaaaaaaaaaaaaaaaaaaaaaaaaaaaaaaaaaa";
const HOST: &str = "1.5.0";

fn linux() -> Target {
    Target { os: Os::Linux, arch: Architecture::Amd64 }
}

fn package(os: Os, url: &str) -> PluginPackage {
    PluginPackage::new(os, Architecture::Amd64, url.to_string(), SUM_A.to_string()).unwrap()
}

fn full(
    name: &str,
    version: &str,
    homepage: Option<&str>,
    description: Option<&str>,
    packages: Vec<PluginPackage>,
) -> PluginManifest {
    PluginManifest::new(
        name.to_string(),
        version.to_string(),
        "Apache-2.0".to_string(),
        homepage.map(|h| h.to_string()),
        description.map(|d| d.to_string()),
        ">=1.0.0".to_string(),
        packages,
    )
    .unwrap()
}

fn demo(version: &str) -> PluginManifest {
    full(
        "demo",
        version,
        None,
        None,
        vec![package(Os::Macos, "https://example.com/mac.tar.gz"), package(Os::Linux, "https://example.com/linux.tar.gz")],
    )
}

fn manager_with(installed: Vec<PluginManifest>) -> PluginManager {
    let mut store = InstalledStore::new();
    for m in installed {
        store.put(m);
    }
    PluginManager::new(store, linux())
}

fn install_of(name: Option<&str>, local: Option<&str>, remote: Option<&str>, version: Option<&str>) -> Install {
    Install {
        name: name.map(|n| n.to_string()),
        local_manifest_src: local.map(PathBuf::from),
        remote_manifest_src: remote.map(|r| Url::parse(r).unwrap()),
        yes_to_all: false,
        override_compatibility_check: false,
        version: version.map(|v| v.to_string()),
    }
}

fn upgrade_of(name: Option<&str>, all: bool, local: Option<&str>, remote: Option<&str>) -> Upgrade {
    Upgrade {
        name: name.map(|n| n.to_string()),
        all,
        local_manifest_src: local.map(PathBuf::from),
        remote_manifest_src: remote.map(|r| Url::parse(r).unwrap()),
        yes_to_all: false,
        override_compatibility_check: false,
        version: None,
        downgrade: false,
    }
}

#[test]
fn location_is_the_one_source_that_is_named() {
    let local = install_of(None, Some("/tmp/demo.json"), None, None).manifest_location().unwrap();
    assert!(matches!(local, ManifestLocation::Local(ref p) if p == &PathBuf::from("/tmp/demo.json")));
    let remote =
        install_of(None, None, Some("https://example.com/demo.json"), None).manifest_location().unwrap();
    assert!(matches!(remote, ManifestLocation::Remote(ref u) if u.as_str() == "https://example.com/demo.json"));
    let registry = install_of(Some("Demo"), None, None, Some("1.2.0")).manifest_location().unwrap();
    match registry {
        ManifestLocation::PluginsRepository(lookup) => {
            assert_eq!(lookup.name, "demo");
            assert_eq!(lookup.version, Some("1.2.0".to_string()));
        }
        other => panic!("unexpected location {:?}", other),
    }
}

#[test]
fn ambiguous_location_is_rejected() {
    let cases = vec![
        install_of(None, None, None, None),
        install_of(None, None, None, Some("1.0.0")),
        install_of(Some("demo"), Some("/tmp/demo.json"), None, None),
        install_of(Some("demo"), None, Some("https://example.com/demo.json"), None),
        install_of(None, Some("/tmp/demo.json"), Some("https://example.com/demo.json"), None),
        install_of(Some("demo"), Some("/tmp/d.json"), Some("https://example.com/d.json"), None),
        install_of(Some("demo"), Some("/tmp/d.json"), None, Some("1.0.0")),
    ];
    for install in cases {
        assert_eq!(install.manifest_location().err(), Some(Error::AmbiguousLocation));
    }
}

#[test]
fn version_beside_a_path_or_an_address_is_left_aside() {
    let local = install_of(None, Some("/tmp/demo.json"), None, Some("1.0.0")).manifest_location().unwrap();
    assert!(matches!(local, ManifestLocation::Local(ref p) if p == &PathBuf::from("/tmp/demo.json")));
    let remote = install_of(None, None, Some("https://example.com/demo.json"), Some("1.0.0"))
        .manifest_location()
        .unwrap();
    assert!(matches!(remote, ManifestLocation::Remote(ref u) if u.as_str() == "https://example.com/demo.json"));
    let upgrade = upgrade_of(None, false, Some("/tmp/d.json"), None);
    let upgrade = Upgrade { version: Some("2.0.0".to_string()), ..upgrade };
    assert!(matches!(upgrade.manifest_location().unwrap(), ManifestLocation::Local(_)));
}

#[test]
fn from_sources_makes_the_same_locations() {
    let r = ManifestLocation::from_sources(None, None, Some("demo".to_string()), None).unwrap();
    assert!(matches!(r, ManifestLocation::PluginsRepository(ref l) if l.name == "demo" && l.version.is_none()));
    let copy = r.clone();
    assert!(matches!(copy, ManifestLocation::PluginsRepository(ref l) if l.name == "demo"));
    let path = ManifestLocation::from_sources(Some(PathBuf::from("a.json")), None, None, None).unwrap();
    assert!(matches!(path.clone(), ManifestLocation::Local(ref p) if p == &PathBuf::from("a.json")));
    let lookup = PluginLookup::new("x", None).clone();
    assert_eq!(lookup.name, "x");
}

#[test]
fn install_never_allows_a_downgrade() {
    assert!(!install_of(Some("demo"), None, None, None).allows_downgrade());
}

#[test]
fn upgrade_mode_follows_the_options() {
    assert_eq!(upgrade_of(None, true, None, None).mode(false), UpgradeMode::NothingInstalled);
    assert_eq!(upgrade_of(Some("demo"), false, None, None).mode(false), UpgradeMode::NothingInstalled);
    assert_eq!(upgrade_of(None, true, None, None).mode(true), UpgradeMode::All);
    assert_eq!(upgrade_of(None, false, None, None).mode(true), UpgradeMode::Multiselect);
    assert_eq!(upgrade_of(Some("demo"), false, None, None).mode(true), UpgradeMode::One);
    assert_eq!(upgrade_of(None, false, Some("/tmp/d.json"), None).mode(true), UpgradeMode::One);
    assert_eq!(
        upgrade_of(None, false, None, Some("https://example.com/d.json")).mode(true),
        UpgradeMode::One
    );
}

#[test]
fn only_upgrading_everything_goes_on_after_a_failure() {
    assert_eq!(UpgradeMode::All.on_failure(), FailureAction::Skip);
    assert_eq!(UpgradeMode::One.on_failure(), FailureAction::Abort);
    assert_eq!(UpgradeMode::Multiselect.on_failure(), FailureAction::Abort);
    assert_eq!(UpgradeMode::NothingInstalled.on_failure(), FailureAction::Abort);
}

#[test]
fn upgrade_of_one_plugin_finds_its_location() {
    let local = upgrade_of(None, false, Some("/tmp/d.json"), None).manifest_location().unwrap();
    assert!(matches!(local, ManifestLocation::Local(ref p) if p == &PathBuf::from("/tmp/d.json")));
    let remote =
        upgrade_of(None, false, None, Some("https://example.com/d.json")).manifest_location().unwrap();
    assert!(matches!(remote, ManifestLocation::Remote(ref u) if u.as_str() == "https://example.com/d.json"));
    let mut named = upgrade_of(Some("Demo"), false, None, None);
    named.version = Some("2.0.0".to_string());
    match named.manifest_location().unwrap() {
        ManifestLocation::PluginsRepository(lookup) => {
            assert_eq!(lookup.name, "demo");
            assert_eq!(lookup.version, Some("2.0.0".to_string()));
        }
        other => panic!("unexpected location {:?}", other),
    }
}

#[test]
fn upgrade_with_more_than_one_source_is_ambiguous() {
    let cases = vec![
        upgrade_of(Some("demo"), false, Some("/tmp/d.json"), None),
        upgrade_of(Some("demo"), false, None, Some("https://example.com/d.json")),
        upgrade_of(None, false, Some("/tmp/d.json"), Some("https://example.com/d.json")),
        upgrade_of(Some("demo"), false, Some("/tmp/d.json"), Some("https://example.com/d.json")),
    ];
    for upgrade in cases {
        assert_eq!(upgrade.manifest_location().err(), Some(Error::AmbiguousLocation));
    }
}

#[test]
fn upgrade_without_any_source_needs_a_name() {
    assert_eq!(upgrade_of(None, false, None, None).manifest_location().err(), Some(Error::NameRequired));
    let mut versioned = upgrade_of(None, false, None, None);
    versioned.version = Some("1.0.0".to_string());
    assert_eq!(versioned.manifest_location().err(), Some(Error::NameRequired));
}

#[test]
fn uninstall_reports_what_happened() {
    let command = Uninstall { name: "demo".to_string() };
    assert_eq!(command.report(true), "Plugin demo was successfully uninstalled");
    assert_eq!(command.report(false), "Plugin demo isn't present, so no changes were made");
}

#[test]
fn install_asks_before_it_installs() {
    let manager = manager_with(vec![]);
    let step = begin_install(&manager, &demo("1.2.0"), HOST, false, false, false).unwrap();
    assert_eq!(
        step,
        InstallStep::Confirm {
            package: 1,
            prompt: "Are you sure you want to install plugin 'demo' with license Apache-2.0 from https://example.com/linux.tar.gz?"
                .to_string(),
        }
    );
}

#[test]
fn install_proceeds_when_told_yes_to_all() {
    let manager = manager_with(vec![demo("1.1.0")]);
    let step = begin_install(&manager, &demo("1.2.0"), HOST, true, false, false).unwrap();
    assert_eq!(step, InstallStep::Proceed { package: 1 });
}

#[test]
fn install_of_the_installed_version_says_so() {
    let manager = manager_with(vec![demo("1.2.0")]);
    let step = begin_install(&manager, &demo("1.2.0"), HOST, true, false, false).unwrap();
    assert_eq!(
        step,
        InstallStep::AlreadyInstalled {
            message: "Plugin 'demo' is already installed with version 1.2.0.".to_string()
        }
    );
}

#[test]
fn install_passes_the_planner_failures_on() {
    let manager = manager_with(vec![demo("1.3.0")]);
    assert_eq!(
        begin_install(&manager, &demo("1.2.0"), HOST, true, false, false).err(),
        Some(Error::DowngradeNotAllowed {
            name: "demo".to_string(),
            installed: "1.3.0".to_string(),
            candidate: "1.2.0".to_string(),
        })
    );
    assert_eq!(
        begin_install(&manager, &demo("1.2.0"), HOST, true, false, true).unwrap(),
        InstallStep::Proceed { package: 1 }
    );
    let elsewhere = full("demo", "2.0.0", None, None, vec![package(Os::Windows, "https://example.com/w.zip")]);
    assert_eq!(
        begin_install(&manager, &elsewhere, HOST, true, false, false).err(),
        Some(Error::IncompatibleError("Plugin 'demo' has no package for this platform".to_string()))
    );
    assert_eq!(
        begin_install(&manager, &elsewhere, HOST, true, true, false).err(),
        Some(Error::IncompatibleError("Plugin 'demo' has no package for this platform".to_string()))
    );
}

#[test]
fn prompt_names_plugin_license_and_source() {
    let m = demo("1.2.0");
    assert_eq!(
        confirmation_prompt(&m, &m.packages()[0]),
        "Are you sure you want to install plugin 'demo' with license Apache-2.0 from https://example.com/mac.tar.gz?"
    );
    assert_eq!(declined(&m), "Plugin 'demo' will not be installed");
}

#[test]
fn only_a_plain_yes_confirms() {
    assert!(confirmed(Some(true)));
    assert!(!confirmed(Some(false)));
    assert!(!confirmed(None));
}

#[test]
fn files_are_staged_before_they_replace_anything() {
    assert_eq!(
        plan_files(&demo("1.2.0")),
        vec![
            FileStep::WriteArtifact("demo.tmp".to_string()),
            FileStep::WriteManifest("demo.json.tmp".to_string()),
            FileStep::Replace("demo.tmp".to_string(), "demo".to_string()),
            FileStep::Replace("demo.json.tmp".to_string(), "demo.json".to_string()),
        ]
    );
}

#[test]
fn report_shows_description_and_secure_homepage() {
    let m = full("demo", "1.2.0", Some("https://example.com"), Some("A demo plugin"), vec![]);
    assert_eq!(
        report_install(&m, "demo"),
        vec![
            "Plugin 'demo' was installed successfully!",
            "\nDescription:",
            "\tA demo plugin",
            "\nHomepage:",
            "\thttps://example.com/",
        ]
    );
}

#[test]
fn report_leaves_out_what_is_missing_or_not_secure() {
    let plain = full("demo", "1.2.0", None, None, vec![]);
    assert_eq!(report_install(&plain, "demo"), vec!["Plugin 'demo' was installed successfully!"]);
    let insecure = full("demo", "1.2.0", Some("http://example.com"), None, vec![]);
    assert_eq!(report_install(&insecure, "demo"), vec!["Plugin 'demo' was installed successfully!"]);
    let broken = full("demo", "1.2.0", Some("not an address"), Some("d"), vec![]);
    assert_eq!(
        report_install(&broken, "demo"),
        vec!["Plugin 'demo' was installed successfully!", "\nDescription:", "\td"]
    );
}

#[test]
fn homepage_is_shown_in_its_parsed_form() {
    let m = full("demo", "1.2.0", Some("HTTPS://Example.COM/a/../b"), None, vec![]);
    assert_eq!(homepage_to_show(&m), Some("https://example.com/b".to_string()));
    let ftp = full("demo", "1.2.0", Some("ftp://example.com"), None, vec![]);
    assert_eq!(homepage_to_show(&ftp), None);
    assert_eq!(homepage_to_show(&demo("1.0.0")), None);
}

#[test]
fn offers_are_the_installed_plugins_with_another_version() {
    let installed = vec![
        PluginDescriptor::describe(demo("1.0.0"), true, HOST, linux()),
        PluginDescriptor::describe(full("same", "2.0.0", None, None, vec![]), true, HOST, linux()),
        PluginDescriptor::describe(full("gone", "0.1.0", None, None, vec![]), true, HOST, linux()),
        PluginDescriptor::describe(full("newer", "3.0.0", None, None, vec![]), true, HOST, linux()),
    ];
    let found = vec![
        Some(demo("1.2.0")),
        Some(full("same", "2.0.0", None, None, vec![])),
        None,
        Some(full("newer", "2.9.0", None, None, vec![])),
    ];
    let offers = eligible_upgrades(installed, &found);
    assert_eq!(offers.len(), 2);
    assert_eq!(offers[0].installed.name, "demo");
    assert_eq!(offers[0].latest.version(), "1.2.0");
    assert_eq!(offers[1].installed.name, "newer");
    assert_eq!(
        offer_labels(&offers),
        vec!["demo from version 1.0.0 to 1.2.0", "newer from version 3.0.0 to 2.9.0"]
    );
    assert!(eligible_upgrades(vec![], &vec![]).is_empty());
}

#[test]
fn every_failure_has_its_message() {
    assert_eq!(Error::NotFound("demo".to_string()).message(), "plugin 'demo' not found");
    assert_eq!(Error::ParseError("x".to_string()).message(), "malformed plugin manifest: x");
    assert_eq!(Error::IncompatibleError("because".to_string()).message(), "because");
    assert_eq!(
        Error::IncompatibleCheckFailed { name: "demo".to_string(), required: ">=2.0.0".to_string() }
            .message(),
        "plugin 'demo' requires Spin >=2.0.0"
    );
    assert_eq!(
        Error::DowngradeNotAllowed {
            name: "demo".to_string(),
            installed: "1.1.0".to_string(),
            candidate: "1.0.0".to_string(),
        }
        .message(),
        "plugin 'demo' is installed with version 1.1.0, which is newer than 1.0.0; downgrades are not allowed"
    );
    assert_eq!(
        Error::ChecksumMismatch {
            name: "demo".to_string(),
            expected: "aa".to_string(),
            actual: "bb".to_string(),
        }
        .message(),
        "checksum mismatch for plugin 'demo': expected aa, got bb"
    );
    assert_eq!(
        Error::Io { what: "demo".to_string(), reason: "timeout".to_string() }.message(),
        "transfer of 'demo' failed: timeout"
    );
    assert_eq!(
        Error::WriteError { name: "demo".to_string(), reason: "disk full".to_string() }.message(),
        "could not write plugin 'demo': disk full"
    );
    assert_eq!(Error::LockDenied.message(), "Another plugin update operation is already in progress");
    assert_eq!(
        Error::AmbiguousLocation.message(),
        "For plugin lookup, must provide exactly one of: plugin name, url to manifest, local path to manifest"
    );
    assert_eq!(Error::NameRequired.message(), "plugin name is required for upgrades");
}

#[test]
fn database_location_is_copied_as_it_is() {
    assert!(matches!(InProcDatabaseLocation::InMemory.clone(), InProcDatabaseLocation::InMemory));
    let file = InProcDatabaseLocation::Path(PathBuf::from("/tmp/db.sqlite"));
    assert!(matches!(file.clone(), InProcDatabaseLocation::Path(ref p) if p == &PathBuf::from("/tmp/db.sqlite")));
}

#[test]
fn offers_treat_a_missing_lookup_result_as_not_found() {
    let installed = vec![
        PluginDescriptor::describe(demo("1.0.0"), true, HOST, linux()),
        PluginDescriptor::describe(full("other", "2.0.0", None, None, vec![]), true, HOST, linux()),
    ];
    let offers = eligible_upgrades(installed, &vec![Some(demo("1.1.0"))]);
    assert_eq!(offers.len(), 1);
    assert_eq!(offers[0].installed.name, "demo");
}

#[test]
fn latest_for_looks_each_installed_plugin_up() {
    let registry = vec![
        demo("1.0.0"),
        demo("1.2.0"),
        full("needs", "9.0.0", None, None, vec![package(Os::Windows, "https://example.com/w.zip")]),
    ];
    let mut shouting = PluginDescriptor::describe(demo("1.0.0"), true, HOST, linux());
    shouting.name = "DEMO".to_string();
    let installed = vec![
        PluginDescriptor::describe(demo("1.0.0"), true, HOST, linux()),
        PluginDescriptor::describe(full("gone", "0.1.0", None, None, vec![]), true, HOST, linux()),
        PluginDescriptor::describe(full("needs", "1.0.0", None, None, vec![]), true, HOST, linux()),
        shouting,
    ];
    let found = latest_for(&installed, &registry, HOST, linux());
    assert_eq!(found.len(), 4);
    assert_eq!(found[0].as_ref().unwrap().version(), "1.2.0");
    assert!(found[1].is_none());
    assert!(found[2].is_none());
    assert_eq!(found[3].as_ref().unwrap().version(), "1.2.0");
    assert!(latest_for(&vec![], &registry, HOST, linux()).is_empty());
    let offers = eligible_upgrades(installed, &found);
    assert_eq!(offer_labels(&offers), vec!["demo from version 1.0.0 to 1.2.0", "DEMO from version 1.0.0 to 1.2.0"]);
}
