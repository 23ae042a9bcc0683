//! The manifest model: what a plugin is called, which version it is, which
//! host versions it runs on, and the packages it can be downloaded as.

use crate::checksum::{checksum_value, decode_checksum, is_checksum, is_valid_checksum};
use crate::error::Error;
use crate::text::{is_lowercase, is_normalized};
use crate::version::{is_semver, parses_as_version, range_satisfied, satisfies_range};
use vstd::prelude::*;
use vstd::string::*;

verus! {

/// An operating system that a package is built for.
#[derive(Clone, Copy, Debug, PartialEq, Eq, Structural)]
pub enum Os {
    Linux,
    Macos,
    Windows,
}

/// A processor architecture that a package is built for.
#[derive(Clone, Copy, Debug, PartialEq, Eq, Structural)]
pub enum Architecture {
    Amd64,
    Aarch64,
    Arm,
}

/// The platform that the host runs on.
#[derive(Clone, Copy, Debug, PartialEq, Eq, Structural)]
pub struct Target {
    pub os: Os,
    pub arch: Architecture,
}

/// What a package is, as plain values.
pub struct PackageView {
    pub os: Os,
    pub arch: Architecture,
    pub url: Seq<char>,
    pub sha256: Seq<char>,
}

/// One downloadable artifact of a plugin, built for one platform. Its
/// checksum always has the shape of a SHA-256 digest.
#[derive(Debug)]
pub struct PluginPackage {
    os: Os,
    arch: Architecture,
    url: String,
    sha256: String,
}

impl View for PluginPackage {
    type V = PackageView;

    closed spec fn view(&self) -> PackageView {
        PackageView { os: self.os, arch: self.arch, url: self.url@, sha256: self.sha256@ }
    }
}

/// Whether a package is built for `target`.
pub open spec fn package_runs_on(package: PackageView, target: Target) -> bool {
    package.os == target.os && package.arch == target.arch
}

impl PluginPackage {
    #[verifier::type_invariant]
    spec fn checksum_shaped(&self) -> bool {
        is_checksum(self.sha256@)
    }

    /// Makes a package. The checksum must have the shape of a SHA-256
    /// digest; any other is rejected as malformed.
    pub fn new(os: Os, arch: Architecture, url: String, sha256: String) -> (r: Result<Self, Error>)
        ensures
            r is Ok <==> is_checksum(sha256@),
            r matches Ok(p) ==> p@ == (PackageView { os, arch, url: url@, sha256: sha256@ }),
            r matches Err(e) ==> e is ParseError,
    {
        if is_valid_checksum(sha256.as_str()) {
            Ok(PluginPackage { os, arch, url, sha256 })
        } else {
            Err(Error::ParseError(sha256))
        }
    }

    /// The operating system that the package is built for.
    pub fn os(&self) -> (r: Os)
        ensures
            r == self@.os,
    {
        self.os
    }

    /// The architecture that the package is built for.
    pub fn arch(&self) -> (r: Architecture)
        ensures
            r == self@.arch,
    {
        self.arch
    }

    /// Where the artifact is downloaded from.
    pub fn url(&self) -> (r: &String)
        ensures
            r@ == self@.url,
    {
        &self.url
    }

    /// The artifact's checksum, which has the shape of a SHA-256 digest.
    pub fn sha256(&self) -> (r: &String)
        ensures
            r@ == self@.sha256,
            is_checksum(r@),
    {
        proof {
            use_type_invariant(self);
        }
        &self.sha256
    }

    /// The digest that the checksum stands for: 32 bytes.
    pub fn digest(&self) -> (r: Vec<u8>)
        ensures
            r@ == checksum_value(self@.sha256),
            r@.len() == 32,
    {
        proof {
            use_type_invariant(self);
        }
        match decode_checksum(self.sha256.as_str()) {
            Some(bytes) => bytes,
            None => unreached(),
        }
    }

    /// Tests whether the package is built for `target`.
    pub fn runs_on(&self, target: Target) -> (b: bool)
        ensures
            b == package_runs_on(self@, target),
    {
        self.os == target.os && self.arch == target.arch
    }

    /// Tests whether two packages are the same in every field.
    pub fn same_as(&self, other: &PluginPackage) -> (b: bool)
        ensures
            b == (self@ == other@),
    {
        self.os == other.os && self.arch == other.arch && self.url == other.url && self.sha256
            == other.sha256
    }
}

impl Clone for PluginPackage {
    fn clone(&self) -> (r: Self)
        ensures
            r@ == self@,
    {
        proof {
            use_type_invariant(self);
        }
        PluginPackage {
            os: self.os,
            arch: self.arch,
            url: self.url.clone(),
            sha256: self.sha256.clone(),
        }
    }
}

/// What an optional text holds, as plain values.
pub open spec fn optional_text(text: Option<String>) -> Option<Seq<char>> {
    match text {
        Some(t) => Some(t@),
        None => None,
    }
}

/// Tests whether two optional texts are the same.
pub fn same_optional_text(a: &Option<String>, b: &Option<String>) -> (r: bool)
    ensures
        r == (optional_text(*a) == optional_text(*b)),
{
    match (a, b) {
        (Some(x), Some(y)) => *x == *y,
        (None, None) => true,
        _ => false,
    }
}

/// Copies an optional text.
pub fn copy_optional_text(text: &Option<String>) -> (r: Option<String>)
    ensures
        optional_text(r) == optional_text(*text),
{
    match text {
        Some(t) => Some(t.clone()),
        None => None,
    }
}

/// What a list of packages holds, as plain values.
pub open spec fn package_views(packages: Seq<PluginPackage>) -> Seq<PackageView> {
    Seq::new(packages.len(), |i: int| packages[i]@)
}

/// What a manifest is, as plain values.
pub struct ManifestView {
    pub name: Seq<char>,
    pub version: Seq<char>,
    pub license: Seq<char>,
    pub homepage: Option<Seq<char>>,
    pub description: Option<Seq<char>>,
    pub spin_compatibility: Seq<char>,
    pub packages: Seq<PackageView>,
}

/// Whether a name may stand in a manifest: not empty, and in lowercase.
pub open spec fn is_plugin_name(name: Seq<char>) -> bool {
    name.len() > 0 && is_lowercase(name)
}

/// The invariant of a manifest: a name that is not empty and is in lowercase,
/// and a version that is a semantic version.
pub open spec fn manifest_wf(m: ManifestView) -> bool {
    is_plugin_name(m.name) && is_semver(m.version)
}

/// Whether some package of the manifest is built for `target`.
pub open spec fn has_package_for(m: ManifestView, target: Target) -> bool {
    exists|i: int| 0 <= i < m.packages.len() && package_runs_on(#[trigger] m.packages[i], target)
}

/// Whether `i` is the first package of the manifest that is built for
/// `target`.
pub open spec fn is_first_package_for(m: ManifestView, target: Target, i: int) -> bool {
    &&& 0 <= i < m.packages.len()
    &&& package_runs_on(m.packages[i], target)
    &&& forall|j: int| 0 <= j < i ==> !package_runs_on(#[trigger] m.packages[j], target)
}

/// A plugin manifest: an immutable description of one version of a plugin.
/// Its name is never empty and always in lowercase, and its version is always
/// a semantic version.
#[derive(Debug)]
pub struct PluginManifest {
    name: String,
    version: String,
    license: String,
    homepage: Option<String>,
    description: Option<String>,
    spin_compatibility: String,
    packages: Vec<PluginPackage>,
}

impl View for PluginManifest {
    type V = ManifestView;

    closed spec fn view(&self) -> ManifestView {
        ManifestView {
            name: self.name@,
            version: self.version@,
            license: self.license@,
            homepage: optional_text(self.homepage),
            description: optional_text(self.description),
            spin_compatibility: self.spin_compatibility@,
            packages: package_views(self.packages@),
        }
    }
}

/// Tests whether two lists of packages hold the same packages in the same
/// order.
pub fn same_packages(a: &Vec<PluginPackage>, b: &Vec<PluginPackage>) -> (r: bool)
    ensures
        r == (package_views(a@) == package_views(b@)),
{
    if a.len() != b.len() {
        assert(package_views(a@).len() != package_views(b@).len());
        return false;
    }
    let mut i: usize = 0;
    while i < a.len()
        invariant
            i <= a.len(),
            a.len() == b.len(),
            forall|j: int| 0 <= j < i ==> a@[j]@ == b@[j]@,
        decreases a.len() - i,
    {
        if !a[i].same_as(&b[i]) {
            assert(package_views(a@)[i as int] != package_views(b@)[i as int]);
            return false;
        }
        i += 1;
    }
    assert(package_views(a@) =~= package_views(b@));
    true
}

/// Copies a list of packages.
pub fn copy_packages(packages: &Vec<PluginPackage>) -> (r: Vec<PluginPackage>)
    ensures
        package_views(r@) == package_views(packages@),
{
    let mut out: Vec<PluginPackage> = Vec::new();
    let mut i: usize = 0;
    while i < packages.len()
        invariant
            i <= packages.len(),
            out.len() == i,
            forall|j: int| 0 <= j < i ==> out@[j]@ == packages@[j]@,
        decreases packages.len() - i,
    {
        out.push(packages[i].clone());
        i += 1;
    }
    assert(package_views(out@) =~= package_views(packages@));
    out
}

impl PluginManifest {
    #[verifier::type_invariant]
    spec fn well_formed(&self) -> bool {
        is_plugin_name(self.name@) && is_semver(self.version@)
    }

    /// Makes a manifest. The name must be non-empty and in lowercase, and the
    /// version a semantic version; anything else is rejected as malformed.
    pub fn new(
        name: String,
        version: String,
        license: String,
        homepage: Option<String>,
        description: Option<String>,
        spin_compatibility: String,
        packages: Vec<PluginPackage>,
    ) -> (r: Result<Self, Error>)
        ensures
            r is Ok <==> (is_plugin_name(name@) && is_semver(version@)),
            r matches Ok(m) ==> manifest_wf(m@) && m@ == (ManifestView {
                name: name@,
                version: version@,
                license: license@,
                homepage: optional_text(homepage),
                description: optional_text(description),
                spin_compatibility: spin_compatibility@,
                packages: package_views(packages@),
            }),
            r matches Err(e) ==> e is ParseError,
    {
        if name.as_str().unicode_len() == 0 || !is_normalized(name.as_str()) {
            return Err(Error::ParseError(name));
        }
        if !parses_as_version(version.as_str()) {
            return Err(Error::ParseError(version));
        }
        Ok(
            PluginManifest {
                name,
                version,
                license,
                homepage,
                description,
                spin_compatibility,
                packages,
            },
        )
    }

    /// The plugin's name: not empty, in lowercase.
    pub fn name(&self) -> (r: &String)
        ensures
            r@ == self@.name,
            is_plugin_name(r@),
    {
        proof {
            use_type_invariant(self);
        }
        &self.name
    }

    /// The plugin's version: a semantic version.
    pub fn version(&self) -> (r: &String)
        ensures
            r@ == self@.version,
            is_semver(r@),
    {
        proof {
            use_type_invariant(self);
        }
        &self.version
    }

    /// The plugin's license.
    pub fn license(&self) -> (r: &String)
        ensures
            r@ == self@.license,
    {
        &self.license
    }

    /// The plugin's homepage, where it names one.
    pub fn homepage(&self) -> (r: &Option<String>)
        ensures
            optional_text(*r) == self@.homepage,
    {
        &self.homepage
    }

    /// The plugin's description, where it has one.
    pub fn description(&self) -> (r: &Option<String>)
        ensures
            optional_text(*r) == self@.description,
    {
        &self.description
    }

    /// The range of host versions that the plugin declares it runs on.
    pub fn spin_compatibility(&self) -> (r: &String)
        ensures
            r@ == self@.spin_compatibility,
    {
        &self.spin_compatibility
    }

    /// The plugin's packages, in the manifest's order.
    pub fn packages(&self) -> (r: &Vec<PluginPackage>)
        ensures
            package_views(r@) == self@.packages,
    {
        &self.packages
    }

    /// Tests whether the manifest can be installed at all: whether it has at
    /// least one package.
    pub fn is_installable(&self) -> (b: bool)
        ensures
            b == (self@.packages.len() > 0),
    {
        self.packages.len() > 0
    }

    /// Finds the first package that is built for `target`.
    pub fn package_index_for(&self, target: Target) -> (r: Option<usize>)
        ensures
            r is Some <==> has_package_for(self@, target),
            r matches Some(i) ==> is_first_package_for(self@, target, i as int),
    {
        let mut i: usize = 0;
        while i < self.packages.len()
            invariant
                i <= self.packages.len(),
                forall|j: int| 0 <= j < i ==> !package_runs_on(#[trigger] self@.packages[j], target),
            decreases self.packages.len() - i,
        {
            if self.packages[i].runs_on(target) {
                assert(package_runs_on(self@.packages[i as int], target));
                return Some(i);
            }
            i += 1;
        }
        None
    }

    /// Tests whether some package is built for `target`.
    pub fn has_compatible_package(&self, target: Target) -> (b: bool)
        ensures
            b == has_package_for(self@, target),
    {
        self.package_index_for(target).is_some()
    }

    /// Tests whether the host version satisfies the range that the manifest
    /// declares.
    pub fn is_compatible_spin_version(&self, host_version: &str) -> (b: bool)
        ensures
            b == range_satisfied(self@.spin_compatibility, host_version@),
    {
        satisfies_range(self.spin_compatibility.as_str(), host_version)
    }

    /// Tests whether two manifests are the same in every field, packages
    /// included.
    pub fn same_as(&self, other: &PluginManifest) -> (b: bool)
        ensures
            b == (self@ == other@),
    {
        self.name == other.name && self.version == other.version && self.license == other.license
            && same_optional_text(&self.homepage, &other.homepage) && same_optional_text(
            &self.description,
            &other.description,
        ) && self.spin_compatibility == other.spin_compatibility && same_packages(
            &self.packages,
            &other.packages,
        )
    }

    /// Tests whether this very manifest is among the installed ones.
    pub fn is_installed_in(&self, installed: &Vec<PluginManifest>) -> (b: bool)
        ensures
            b == exists|i: int| 0 <= i < installed.len() && #[trigger] installed@[i]@ == self@,
    {
        let mut i: usize = 0;
        while i < installed.len()
            invariant
                i <= installed.len(),
                forall|j: int| 0 <= j < i ==> #[trigger] installed@[j]@ != self@,
            decreases installed.len() - i,
        {
            if installed[i].same_as(self) {
                return true;
            }
            i += 1;
        }
        false
    }
}

impl Clone for PluginManifest {
    fn clone(&self) -> (r: Self)
        ensures
            r@ == self@,
    {
        proof {
            use_type_invariant(self);
        }
        PluginManifest {
            name: self.name.clone(),
            version: self.version.clone(),
            license: self.license.clone(),
            homepage: copy_optional_text(&self.homepage),
            description: copy_optional_text(&self.description),
            spin_compatibility: self.spin_compatibility.clone(),
            packages: copy_packages(&self.packages),
        }
    }
}

} // verus!
