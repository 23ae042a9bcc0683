//! Compatibility of a manifest with the running host, and the descriptor that
//! a listing shows for one plugin.

use crate::manifest::{has_package_for, ManifestView, PluginManifest, Target};
use crate::text::{compare_text, text_order, Order};
use crate::version::{compare_versions, range_satisfied, version_order};
use vstd::prelude::*;
use vstd::string::*;

verus! {

/// The three-way verdict on a manifest, as plain values.
pub enum CompatibilityView {
    Compatible,
    IncompatibleSpin(Seq<char>),
    Incompatible,
}

/// Whether the running host can use a plugin.
#[derive(Debug, PartialEq, Eq)]
pub enum PluginCompatibility {
    /// A package matches the platform and the host version is in range.
    Compatible,
    /// A package matches the platform, but the host version is outside the
    /// range that the manifest declares; the text is that range.
    IncompatibleSpin(String),
    /// No package matches the platform.
    Incompatible,
}

impl View for PluginCompatibility {
    type V = CompatibilityView;

    open spec fn view(&self) -> CompatibilityView {
        match self {
            PluginCompatibility::Compatible => CompatibilityView::Compatible,
            PluginCompatibility::IncompatibleSpin(range) => CompatibilityView::IncompatibleSpin(
                range@,
            ),
            PluginCompatibility::Incompatible => CompatibilityView::Incompatible,
        }
    }
}

/// The verdict on manifest `m` for a host of version `host` on platform
/// `target`.
pub open spec fn classify(m: ManifestView, host: Seq<char>, target: Target) -> CompatibilityView {
    if !has_package_for(m, target) {
        CompatibilityView::Incompatible
    } else if range_satisfied(m.spin_compatibility, host) {
        CompatibilityView::Compatible
    } else {
        CompatibilityView::IncompatibleSpin(m.spin_compatibility)
    }
}

/// A manifest without a package for the platform is incompatible, whatever
/// the host version.
pub proof fn lemma_no_package_is_incompatible(m: ManifestView, host: Seq<char>, target: Target)
    requires
        !has_package_for(m, target),
    ensures
        classify(m, host, target) == CompatibilityView::Incompatible,
{
}

/// A manifest with a package for the platform, on a host whose version is
/// outside the declared range, is incompatible with that host version, and
/// the verdict carries the declared range.
pub proof fn lemma_outside_range_is_incompatible_spin(
    m: ManifestView,
    host: Seq<char>,
    target: Target,
)
    requires
        has_package_for(m, target),
        !range_satisfied(m.spin_compatibility, host),
    ensures
        classify(m, host, target) == CompatibilityView::IncompatibleSpin(m.spin_compatibility),
{
}

/// The verdict is compatible exactly when a package matches the platform and
/// the host version is in range.
pub proof fn lemma_compatible_iff(m: ManifestView, host: Seq<char>, target: Target)
    ensures
        classify(m, host, target) == CompatibilityView::Compatible <==> (has_package_for(m, target)
            && range_satisfied(m.spin_compatibility, host)),
{
}

impl PluginCompatibility {
    /// Classifies a manifest against the host's version and platform.
    pub fn for_current(manifest: &PluginManifest, host_version: &str, target: Target) -> (r: Self)
        ensures
            r@ == classify(manifest@, host_version@, target),
    {
        if manifest.has_compatible_package(target) {
            if manifest.is_compatible_spin_version(host_version) {
                PluginCompatibility::Compatible
            } else {
                PluginCompatibility::IncompatibleSpin(manifest.spin_compatibility().clone())
            }
        } else {
            PluginCompatibility::Incompatible
        }
    }

    /// Tests whether the verdict is `Compatible`.
    pub fn is_compatible(&self) -> (b: bool)
        ensures
            b == (self@ == CompatibilityView::Compatible),
    {
        match self {
            PluginCompatibility::Compatible => true,
            _ => false,
        }
    }
}

impl Clone for PluginCompatibility {
    fn clone(&self) -> (r: Self)
        ensures
            r@ == self@,
    {
        match self {
            PluginCompatibility::Compatible => PluginCompatibility::Compatible,
            PluginCompatibility::IncompatibleSpin(range) => PluginCompatibility::IncompatibleSpin(
                range.clone(),
            ),
            PluginCompatibility::Incompatible => PluginCompatibility::Incompatible,
        }
    }
}

/// What a descriptor is, as plain values.
pub struct DescriptorView {
    pub name: Seq<char>,
    pub version: Seq<char>,
    pub compatibility: CompatibilityView,
    pub installed: bool,
    pub manifest: ManifestView,
}

/// One line of a plugin listing: a plugin version, whether it is installed,
/// and whether the host can use it.
#[derive(Debug)]
pub struct PluginDescriptor {
    pub name: String,
    pub version: String,
    pub compatibility: PluginCompatibility,
    pub installed: bool,
    pub manifest: PluginManifest,
}

impl View for PluginDescriptor {
    type V = DescriptorView;

    open spec fn view(&self) -> DescriptorView {
        DescriptorView {
            name: self.name@,
            version: self.version@,
            compatibility: self.compatibility@,
            installed: self.installed,
            manifest: self.manifest@,
        }
    }
}

/// The descriptor of manifest `m`, installed or not, for a host of version
/// `host` on platform `target`.
pub open spec fn described(
    m: ManifestView,
    installed: bool,
    host: Seq<char>,
    target: Target,
) -> DescriptorView {
    DescriptorView {
        name: m.name,
        version: m.version,
        compatibility: classify(m, host, target),
        installed,
        manifest: m,
    }
}

/// The listing order of two descriptors: by name in raw lexical order, then
/// by version in version order.
pub open spec fn descriptor_order(a: DescriptorView, b: DescriptorView) -> Order {
    match text_order(a.name, b.name) {
        Order::Equal => version_order(a.version, b.version),
        o => o,
    }
}

/// The suffix that a listing line carries for a verdict.
pub open spec fn compatibility_suffix(c: CompatibilityView) -> Seq<char> {
    match c {
        CompatibilityView::Compatible => Seq::empty(),
        CompatibilityView::IncompatibleSpin(range) => " [requires Spin "@ + range + "]"@,
        CompatibilityView::Incompatible => " [incompatible]"@,
    }
}

/// The listing line of a descriptor: name, version, then the marks for
/// installed and for the verdict.
pub open spec fn listing_line(d: DescriptorView) -> Seq<char> {
    d.name + " "@ + d.version + (if d.installed {
        " [installed]"@
    } else {
        Seq::empty()
    }) + compatibility_suffix(d.compatibility)
}

impl PluginDescriptor {
    /// Describes a manifest for a listing.
    pub fn describe(manifest: PluginManifest, installed: bool, host_version: &str, target: Target) -> (r:
        Self)
        ensures
            r@ == described(manifest@, installed, host_version@, target),
    {
        let compatibility = PluginCompatibility::for_current(&manifest, host_version, target);
        PluginDescriptor {
            name: manifest.name().clone(),
            version: manifest.version().clone(),
            compatibility,
            installed,
            manifest,
        }
    }

    /// Compares two descriptors in listing order.
    pub fn compare(&self, other: &PluginDescriptor) -> (o: Order)
        ensures
            o == descriptor_order(self@, other@),
    {
        match compare_text(self.name.as_str(), other.name.as_str()) {
            Order::Equal => compare_versions(self.version.as_str(), other.version.as_str()),
            o => o,
        }
    }

    /// Formats the descriptor as one line of a listing.
    pub fn line(&self) -> (r: String)
        ensures
            r@ == listing_line(self@),
    {
        let mut out = self.name.clone();
        out.append(" ");
        out.append(self.version.as_str());
        if self.installed {
            out.append(" [installed]");
        }
        match &self.compatibility {
            PluginCompatibility::Compatible => {},
            PluginCompatibility::IncompatibleSpin(range) => {
                out.append(" [requires Spin ");
                out.append(range.as_str());
                out.append("]");
            },
            PluginCompatibility::Incompatible => {
                out.append(" [incompatible]");
            },
        }
        assert(out@ =~= listing_line(self@));
        out
    }
}

impl Clone for PluginDescriptor {
    fn clone(&self) -> (r: Self)
        ensures
            r@ == self@,
    {
        PluginDescriptor {
            name: self.name.clone(),
            version: self.version.clone(),
            compatibility: self.compatibility.clone(),
            installed: self.installed,
            manifest: self.manifest.clone(),
        }
    }
}

} // verus!
