use plugin_catalogue::descriptor::PluginCompatibility;
use plugin_catalogue::error::Error;
use plugin_catalogue::checksum::{decode_checksum, is_valid_checksum, same_bytes, to_hex};
use plugin_catalogue::manifest::{Architecture, Os, PluginManifest, PluginPackage, Target};

const SUM_A: &str = "aaaaaaaaaaaaaaaaaaaaaaaaaaaaaaaaaaaaaaaaaaaaaaaaaaaaaaaaaaaaaaaa";
const SUM_B: &str = "0123456789abcdefABCDEF0123456789abcdefABCDEF0123456789abcdefABCD";

fn linux() -> Target {
    Target { os: Os::Linux, arch: Architecture::Amd64 }
}

fn package(os: Os, arch: Architecture, sum: &str) -> PluginPackage {
    PluginPackage::new(os, arch, "https://example.com/demo.tar.gz".to_string(), sum.to_string())
        .unwrap()
}

fn manifest(name: &str, version: &str, range: &str, packages: Vec<PluginPackage>) -> PluginManifest {
    PluginManifest::new(
        name.to_string(),
        version.to_string(),
        "MIT".to_string(),
        None,
        None,
        range.to_string(),
        packages,
    )
    .unwrap()
}

#[test]
fn checksum_has_64_hex_digits() {
    assert!(is_valid_checksum(SUM_A));
    assert!(is_valid_checksum(SUM_B));
    assert!(!is_valid_checksum(""));
    assert!(!is_valid_checksum(&SUM_A[1..]));
    assert!(!is_valid_checksum(&format!("{}a", SUM_A)));
    assert!(!is_valid_checksum(&format!("{}g", &SUM_A[1..])));
    assert!(!is_valid_checksum(&format!("{} ", &SUM_A[1..])));
}

#[test]
fn checksum_stands_for_32_bytes() {
    let bytes = decode_checksum(SUM_B).unwrap();
    assert_eq!(bytes.len(), 32);
    assert_eq!(&bytes[..6], &[0x01, 0x23, 0x45, 0x67, 0x89, 0xab]);
    assert_eq!(&bytes[6..11], &[0xcd, 0xef, 0xAB, 0xCD, 0xEF]);
    assert_eq!(decode_checksum(SUM_A), Some(vec![0xaa; 32]));
    assert_eq!(decode_checksum("abc"), None);
    assert_eq!(decode_checksum(&format!("{}x", &SUM_A[1..])), None);
    assert_eq!(package(Os::Linux, Architecture::Amd64, SUM_A).digest(), vec![0xaa; 32]);
}

#[test]
fn bytes_are_written_in_lowercase_hex() {
    assert_eq!(to_hex(&[]), "");
    assert_eq!(to_hex(&[0x00, 0x0f, 0xf0, 0xff, 0x9a]), "000ff0ff9a");
    assert_eq!(to_hex(&decode_checksum(SUM_B).unwrap()), SUM_B.to_lowercase());
}

#[test]
fn same_bytes_tells_byte_strings_apart() {
    assert!(same_bytes(&[], &[]));
    assert!(same_bytes(&[1, 2, 3], &[1, 2, 3]));
    assert!(!same_bytes(&[1, 2, 3], &[1, 2, 4]));
    assert!(!same_bytes(&[1, 2, 3], &[1, 2]));
    assert!(!same_bytes(&[], &[0]));
}

#[test]
fn package_keeps_what_it_was_made_of() {
    let p = package(Os::Macos, Architecture::Aarch64, SUM_B);
    assert_eq!(p.os(), Os::Macos);
    assert_eq!(p.arch(), Architecture::Aarch64);
    assert_eq!(p.url(), "https://example.com/demo.tar.gz");
    assert_eq!(p.sha256(), SUM_B);
}

#[test]
fn package_with_malformed_checksum_is_rejected() {
    let r = PluginPackage::new(Os::Linux, Architecture::Amd64, "u".to_string(), "abc".to_string());
    assert!(matches!(r, Err(Error::ParseError(_))));
}

#[test]
fn package_runs_on_its_own_platform_only() {
    let p = package(Os::Linux, Architecture::Amd64, SUM_A);
    assert!(p.runs_on(linux()));
    assert!(!p.runs_on(Target { os: Os::Linux, arch: Architecture::Aarch64 }));
    assert!(!p.runs_on(Target { os: Os::Windows, arch: Architecture::Amd64 }));
}

#[test]
fn manifest_keeps_what_it_was_made_of() {
    let m = PluginManifest::new(
        "demo".to_string(),
        "1.2.0".to_string(),
        "Apache-2.0".to_string(),
        Some("https://example.com".to_string()),
        Some("A demo".to_string()),
        ">=1.0.0".to_string(),
        vec![package(Os::Linux, Architecture::Amd64, SUM_A)],
    )
    .unwrap();
    assert_eq!(m.name(), "demo");
    assert_eq!(m.version(), "1.2.0");
    assert_eq!(m.license(), "Apache-2.0");
    assert_eq!(m.homepage(), &Some("https://example.com".to_string()));
    assert_eq!(m.description(), &Some("A demo".to_string()));
    assert_eq!(m.spin_compatibility(), ">=1.0.0");
    assert_eq!(m.packages().len(), 1);
    assert!(m.is_installable());
}

#[test]
fn manifest_with_empty_name_is_rejected() {
    let r = PluginManifest::new(
        String::new(),
        "1.0.0".to_string(),
        "MIT".to_string(),
        None,
        None,
        ">=1.0.0".to_string(),
        vec![],
    );
    assert!(matches!(r, Err(Error::ParseError(_))));
}

#[test]
fn manifest_with_uppercase_name_is_rejected() {
    let r = PluginManifest::new(
        "Demo".to_string(),
        "1.0.0".to_string(),
        "MIT".to_string(),
        None,
        None,
        ">=1.0.0".to_string(),
        vec![],
    );
    assert!(matches!(r, Err(Error::ParseError(_))));
}

#[test]
fn manifest_with_malformed_version_is_rejected() {
    let r = PluginManifest::new(
        "demo".to_string(),
        "1.0".to_string(),
        "MIT".to_string(),
        None,
        None,
        ">=1.0.0".to_string(),
        vec![],
    );
    assert!(matches!(r, Err(Error::ParseError(_))));
}

#[test]
fn manifest_without_packages_is_not_installable() {
    let m = manifest("demo", "1.0.0", ">=1.0.0", vec![]);
    assert!(!m.is_installable());
    assert!(!m.has_compatible_package(linux()));
    assert_eq!(m.package_index_for(linux()), None);
}

#[test]
fn first_matching_package_is_picked() {
    let m = manifest(
        "demo",
        "1.0.0",
        ">=1.0.0",
        vec![
            package(Os::Windows, Architecture::Amd64, SUM_A),
            package(Os::Linux, Architecture::Amd64, SUM_A),
            package(Os::Linux, Architecture::Amd64, SUM_B),
        ],
    );
    assert_eq!(m.package_index_for(linux()), Some(1));
    assert!(m.has_compatible_package(linux()));
    assert_eq!(
        m.package_index_for(Target { os: Os::Windows, arch: Architecture::Amd64 }),
        Some(0)
    );
    assert_eq!(m.package_index_for(Target { os: Os::Macos, arch: Architecture::Arm }), None);
}

#[test]
fn host_version_is_held_against_the_declared_range() {
    let m = manifest("demo", "1.0.0", ">=1.0.0, <2.0.0", vec![]);
    assert!(m.is_compatible_spin_version("1.4.2"));
    assert!(!m.is_compatible_spin_version("2.0.0"));
    assert!(!m.is_compatible_spin_version("0.9.0"));
}

#[test]
fn manifests_are_the_same_only_if_every_field_is() {
    let a = manifest("demo", "1.0.0", ">=1.0.0", vec![package(Os::Linux, Architecture::Amd64, SUM_A)]);
    let b = manifest("demo", "1.0.0", ">=1.0.0", vec![package(Os::Linux, Architecture::Amd64, SUM_A)]);
    let other_sum =
        manifest("demo", "1.0.0", ">=1.0.0", vec![package(Os::Linux, Architecture::Amd64, SUM_B)]);
    let other_range =
        manifest("demo", "1.0.0", ">=1.1.0", vec![package(Os::Linux, Architecture::Amd64, SUM_A)]);
    let fewer = manifest("demo", "1.0.0", ">=1.0.0", vec![]);
    assert!(a.same_as(&b));
    assert!(a.same_as(&a.clone()));
    assert!(!a.same_as(&other_sum));
    assert!(!a.same_as(&other_range));
    assert!(!a.same_as(&fewer));
    assert!(!fewer.same_as(&a));
}

#[test]
fn manifests_differ_by_optional_fields_too() {
    let plain = manifest("demo", "1.0.0", ">=1.0.0", vec![]);
    let described = PluginManifest::new(
        "demo".to_string(),
        "1.0.0".to_string(),
        "MIT".to_string(),
        None,
        Some("text".to_string()),
        ">=1.0.0".to_string(),
        vec![],
    )
    .unwrap();
    assert!(!plain.same_as(&described));
    assert!(described.same_as(&described.clone()));
}

#[test]
fn is_installed_in_looks_for_the_very_manifest() {
    let a = manifest("demo", "1.0.0", ">=1.0.0", vec![package(Os::Linux, Architecture::Amd64, SUM_A)]);
    let local =
        manifest("demo", "1.0.0", ">=1.0.0", vec![package(Os::Linux, Architecture::Amd64, SUM_B)]);
    let other = manifest("other", "1.0.0", ">=1.0.0", vec![]);
    assert!(a.is_installed_in(&vec![other.clone(), a.clone()]));
    assert!(!a.is_installed_in(&vec![other.clone(), local.clone()]));
    assert!(!a.is_installed_in(&vec![]));
}

#[test]
fn manifest_without_package_for_the_platform_is_incompatible_whatever_the_host() {
    let m = manifest(
        "demo",
        "1.0.0",
        ">=1.0.0",
        vec![package(Os::Windows, Architecture::Amd64, SUM_A)],
    );
    for host in ["0.1.0", "1.0.0", "1.5.0", "99.0.0", "not a version"] {
        assert_eq!(PluginCompatibility::for_current(&m, host, linux()), PluginCompatibility::Incompatible);
    }
    let none = manifest("demo", "1.0.0", ">=1.0.0", vec![]);
    assert_eq!(
        PluginCompatibility::for_current(&none, "1.0.0", linux()),
        PluginCompatibility::Incompatible
    );
}

#[test]
fn host_outside_the_range_is_incompatible_spin_with_the_range() {
    let m = manifest(
        "demo",
        "1.0.0",
        ">=2.0.0",
        vec![package(Os::Linux, Architecture::Amd64, SUM_A)],
    );
    assert_eq!(
        PluginCompatibility::for_current(&m, "1.5.0", linux()),
        PluginCompatibility::IncompatibleSpin(">=2.0.0".to_string())
    );
    assert_eq!(
        PluginCompatibility::for_current(&m, "garbage", linux()),
        PluginCompatibility::IncompatibleSpin(">=2.0.0".to_string())
    );
}

#[test]
fn host_in_range_with_a_package_is_compatible() {
    let m = manifest(
        "demo",
        "1.0.0",
        ">=1.0.0",
        vec![package(Os::Linux, Architecture::Amd64, SUM_A)],
    );
    let verdict = PluginCompatibility::for_current(&m, "1.5.0", linux());
    assert_eq!(verdict, PluginCompatibility::Compatible);
    assert!(verdict.is_compatible());
    assert!(!PluginCompatibility::Incompatible.is_compatible());
    assert!(!PluginCompatibility::IncompatibleSpin(">=1".to_string()).is_compatible());
}
