//! The install planner and the installer's bookkeeping: what to do with a
//! candidate manifest, given what is installed, and how the installed set
//! changes when an install completes.

use crate::checksum::{
    artifact_has_checksum, hex_text, same_bytes, sha256, sha256_of, to_hex,
};
use crate::descriptor::{classify, CompatibilityView, PluginCompatibility};
use crate::error::Error;
use crate::location::ManifestLocation;
use crate::manifest::{
    has_package_for, is_first_package_for, package_views, ManifestView, PluginManifest,
    PluginPackage, Target,
};
use crate::store::InstalledStore;
use crate::text::Order;
use crate::version::{compare_versions, lemma_version_order_reflexive, version_order};
use vstd::prelude::*;
use vstd::string::*;

verus! {

/// What an install should do with a candidate manifest.
#[derive(Clone, Debug, PartialEq, Eq)]
pub enum InstallAction {
    /// Install the candidate.
    Install,
    /// Nothing to do: this version of the plugin is installed already.
    NoAction { name: String, version: String },
}

/// The planner's decision on a candidate.
pub enum Plan {
    /// The candidate is to be installed.
    Install,
    /// The candidate's version is the installed one.
    NoAction,
    /// The candidate fails the compatibility gate.
    Incompatible,
    /// The candidate is older than what is installed, and downgrades are not
    /// allowed.
    DowngradeNotAllowed,
}

/// The planner's decision on `candidate`, given the installed manifest of the
/// same name, if there is one.
///
/// Unless the compatibility check is overridden, a candidate that is not
/// compatible with the host is refused before anything else is looked at.
/// A plugin that is not installed is installed. Otherwise the candidate's
/// version is held against the installed one in version order: a greater one
/// is installed, an equal one needs no action, and a lesser one is installed
/// only where downgrades are allowed.
pub open spec fn plan(
    installed: Option<ManifestView>,
    candidate: ManifestView,
    host: Seq<char>,
    target: Target,
    override_compatibility_check: bool,
    allow_downgrade: bool,
) -> Plan {
    if !override_compatibility_check && classify(candidate, host, target)
        != CompatibilityView::Compatible {
        Plan::Incompatible
    } else {
        match installed {
            None => Plan::Install,
            Some(current) => match version_order(candidate.version, current.version) {
                Order::Greater => Plan::Install,
                Order::Equal => Plan::NoAction,
                Order::Less => if allow_downgrade {
                    Plan::Install
                } else {
                    Plan::DowngradeNotAllowed
                },
            },
        }
    }
}

/// The manifest that the installed set holds under `name`, if any.
pub open spec fn installed_manifest(
    installed: Map<Seq<char>, ManifestView>,
    name: Seq<char>,
) -> Option<ManifestView> {
    if installed.contains_key(name) {
        Some(installed[name])
    } else {
        None
    }
}

/// Why the host cannot use a manifest, in words for the user: the plugin's
/// name, and either the host-version range that it requires or that it has no
/// package for the platform.
pub open spec fn incompatibility_reason(m: ManifestView, verdict: CompatibilityView) -> Seq<char> {
    match verdict {
        CompatibilityView::IncompatibleSpin(range) => "Plugin '"@ + m.name + "' requires Spin "@
            + range,
        _ => "Plugin '"@ + m.name + "' has no package for this platform"@,
    }
}

/// Planning the install of a manifest that was just installed needs no
/// action: where the planner says to install a candidate, it says to do
/// nothing once the installed set holds that candidate.
pub proof fn lemma_install_then_no_action(
    installed: Map<Seq<char>, ManifestView>,
    candidate: ManifestView,
    host: Seq<char>,
    target: Target,
    override_compatibility_check: bool,
    allow_downgrade: bool,
)
    requires
        plan(
            installed_manifest(installed, candidate.name),
            candidate,
            host,
            target,
            override_compatibility_check,
            allow_downgrade,
        ) == Plan::Install,
    ensures
        plan(
            installed_manifest(installed.insert(candidate.name, candidate), candidate.name),
            candidate,
            host,
            target,
            override_compatibility_check,
            allow_downgrade,
        ) == Plan::NoAction,
{
    lemma_version_order_reflexive(candidate.version);
}

/// A candidate that passes the compatibility gate and is older than the
/// installed version is refused without the downgrade flag, and installed
/// with it.
pub proof fn lemma_downgrade_gate(
    installed: ManifestView,
    candidate: ManifestView,
    host: Seq<char>,
    target: Target,
    override_compatibility_check: bool,
)
    requires
        version_order(candidate.version, installed.version) == Order::Less,
        override_compatibility_check || classify(candidate, host, target)
            == CompatibilityView::Compatible,
    ensures
        plan(Some(installed), candidate, host, target, override_compatibility_check, false)
            == Plan::DowngradeNotAllowed,
        plan(Some(installed), candidate, host, target, override_compatibility_check, true)
            == Plan::Install,
{
}

/// An incompatible candidate is refused whatever is installed and whatever
/// the downgrade flag says, unless the check is overridden.
pub proof fn lemma_gate_comes_first(
    installed: Option<ManifestView>,
    candidate: ManifestView,
    host: Seq<char>,
    target: Target,
    allow_downgrade: bool,
)
    requires
        classify(candidate, host, target) != CompatibilityView::Compatible,
    ensures
        plan(installed, candidate, host, target, false, allow_downgrade) == Plan::Incompatible,
{
}

/// Puts the reason why the host cannot use a manifest into words.
pub fn describe_incompatibility(manifest: &PluginManifest, verdict: &PluginCompatibility) -> (r:
    String)
    ensures
        r@ == incompatibility_reason(manifest@, verdict@),
{
    let mut out = String::from_str("Plugin '");
    out.append(manifest.name().as_str());
    match verdict {
        PluginCompatibility::IncompatibleSpin(range) => {
            out.append("' requires Spin ");
            out.append(range.as_str());
        },
        _ => {
            out.append("' has no package for this platform");
        },
    }
    assert(out@ =~= incompatibility_reason(manifest@, verdict@));
    out
}

/// Picks the package of the manifest that is built for the platform: the
/// first such package. A manifest without one is refused as incompatible.
pub fn get_package(manifest: &PluginManifest, target: Target) -> (r: Result<&PluginPackage, Error>)
    ensures
        r is Ok <==> has_package_for(manifest@, target),
        r matches Ok(p) ==> exists|i: int|
            is_first_package_for(manifest@, target, i) && p@ == manifest@.packages[i],
        r matches Err(e) ==> (e matches Error::IncompatibleError(reason) && reason@
            == incompatibility_reason(manifest@, CompatibilityView::Incompatible)),
{
    match manifest.package_index_for(target) {
        Some(i) => {
            let packages = manifest.packages();
            assert(package_views(packages@)[i as int] == packages@[i as int]@);
            Ok(&packages[i])
        },
        None => Err(
            Error::IncompatibleError(
                describe_incompatibility(manifest, &PluginCompatibility::Incompatible),
            ),
        ),
    }
}

/// The plugin manager: the installed set, and the platform that the host
/// runs on.
#[derive(Debug)]
pub struct PluginManager {
    store: InstalledStore,
    target: Target,
}

/// What a plugin manager is, as plain values.
pub struct ManagerView {
    pub installed: Map<Seq<char>, ManifestView>,
    pub target: Target,
}

impl View for PluginManager {
    type V = ManagerView;

    closed spec fn view(&self) -> ManagerView {
        ManagerView { installed: self.store@, target: self.target }
    }
}

impl PluginManager {
    /// A manager for a host on `target`, with what is installed.
    pub fn new(store: InstalledStore, target: Target) -> (r: Self)
        ensures
            r@ == (ManagerView { installed: store@, target }),
    {
        PluginManager { store, target }
    }

    /// The installed set.
    pub fn store(&self) -> (r: &InstalledStore)
        ensures
            r@ == self@.installed,
    {
        &self.store
    }

    /// The platform that the host runs on.
    pub fn target(&self) -> (r: Target)
        ensures
            r == self@.target,
    {
        self.target
    }

    /// Decides what an install should do with `candidate`: install it, do
    /// nothing because that version is installed, or fail because the
    /// candidate is incompatible or would be a downgrade that is not allowed.
    /// Nothing is changed.
    pub fn check_manifest(
        &self,
        candidate: &PluginManifest,
        host_version: &str,
        override_compatibility_check: bool,
        allow_downgrade: bool,
    ) -> (r: Result<InstallAction, Error>)
        ensures
            match plan(
                installed_manifest(self@.installed, candidate@.name),
                candidate@,
                host_version@,
                self@.target,
                override_compatibility_check,
                allow_downgrade,
            ) {
                Plan::Install => r matches Ok(InstallAction::Install),
                Plan::NoAction => {
                    &&& r matches Ok(InstallAction::NoAction { name, version })
                    &&& name@ == candidate@.name
                    &&& version@ == self@.installed[candidate@.name].version
                },
                Plan::Incompatible => {
                    &&& r matches Err(Error::IncompatibleError(reason))
                    &&& reason@ == incompatibility_reason(
                        candidate@,
                        classify(candidate@, host_version@, self@.target),
                    )
                },
                Plan::DowngradeNotAllowed => {
                    &&& r matches Err(Error::DowngradeNotAllowed { name, installed, candidate: wanted })
                    &&& name@ == candidate@.name
                    &&& installed@ == self@.installed[candidate@.name].version
                    &&& wanted@ == candidate@.version
                },
            },
    {
        if !override_compatibility_check {
            let verdict = PluginCompatibility::for_current(candidate, host_version, self.target);
            if !verdict.is_compatible() {
                return Err(Error::IncompatibleError(describe_incompatibility(candidate, &verdict)));
            }
        }
        match self.store.find(candidate.name().as_str()) {
            None => Ok(InstallAction::Install),
            Some(current) => {
                match compare_versions(candidate.version().as_str(), current.version().as_str()) {
                    Order::Greater => Ok(InstallAction::Install),
                    Order::Equal => Ok(
                        InstallAction::NoAction {
                            name: candidate.name().clone(),
                            version: current.version().clone(),
                        },
                    ),
                    Order::Less => {
                        if allow_downgrade {
                            Ok(InstallAction::Install)
                        } else {
                            Err(
                                Error::DowngradeNotAllowed {
                                    name: candidate.name().clone(),
                                    installed: current.version().clone(),
                                    candidate: candidate.version().clone(),
                                },
                            )
                        }
                    },
                }
            },
        }
    }

    /// Completes an install: checks the downloaded artifact against the
    /// package's checksum and, if it has that checksum, records the manifest
    /// as the installed one of its plugin, in place of any earlier one.
    /// Returns the plugin's name. On a mismatch nothing is changed, and the
    /// failure names the plugin and carries the checksum that was expected
    /// and the digest that was found, in hexadecimal. Where the manifest was
    /// found, `source`, matters to the transfer of the artifact alone: the
    /// outcome is the same for every source.
    pub fn install(
        &mut self,
        manifest: &PluginManifest,
        package: &PluginPackage,
        source: &ManifestLocation,
        artifact: &[u8],
    ) -> (r: Result<String, Error>)
        ensures
            final(self)@.target == old(self)@.target,
            artifact_has_checksum(artifact@, package@.sha256) ==> {
                &&& r matches Ok(name)
                &&& name@ == manifest@.name
                &&& final(self)@.installed == old(self)@.installed.insert(
                    manifest@.name,
                    manifest@,
                )
            },
            !artifact_has_checksum(artifact@, package@.sha256) ==> {
                &&& r matches Err(Error::ChecksumMismatch { name, expected, actual })
                &&& name@ == manifest@.name
                &&& expected@ == package@.sha256
                &&& actual@ == hex_text(sha256_of(artifact@))
                &&& final(self)@.installed == old(self)@.installed
            },
    {
        let found = sha256(artifact);
        let expected = package.digest();
        if !same_bytes(found.as_slice(), expected.as_slice()) {
            return Err(
                Error::ChecksumMismatch {
                    name: manifest.name().clone(),
                    expected: package.sha256().clone(),
                    actual: to_hex(found.as_slice()),
                },
            );
        }
        self.store.put(manifest.clone());
        Ok(manifest.name().clone())
    }

    /// Uninstalls the plugin `name`. Returns whether it was installed.
    pub fn uninstall(&mut self, name: &str) -> (was_installed: bool)
        ensures
            was_installed == old(self)@.installed.contains_key(name@),
            final(self)@.installed == old(self)@.installed.remove(name@),
            final(self)@.target == old(self)@.target,
    {
        self.store.remove(name)
    }
}

} // verus!
