//! The plugin commands and what each of them decides before anything is
//! fetched, written or printed.

use crate::descriptor::{listing_line, DescriptorView, PluginDescriptor};
use crate::error::Error;
use crate::listing::{
    catalogue_listing, descriptor_views, filter_by_name, installed_listing, is_ordered,
    lemma_filter_keeps_matching_names, lemma_filter_keeps_order, lemma_listing_order_elements,
    lemma_listing_order_sorts,
    list_catalogue_and_installed_plugins, list_installed_plugins, listing_order, manifest_views,
    merged, named_like, sort_plugins,
};
use crate::location::{exactly_one, ManifestLocation};
use crate::manifest::{copy_optional_text, optional_text, PluginManifest, Target};
use crate::text::{lowercased, text_contains, text_views};
use std::path::PathBuf;
use url::Url;
use vstd::prelude::*;
use vstd::string::*;

verus! {

/// Install a plugin from a manifest.
#[derive(Debug)]
pub struct Install {
    /// Name of the plugin, for a lookup in the registry.
    pub name: Option<String>,
    /// Path to a local plugin manifest.
    pub local_manifest_src: Option<PathBuf>,
    /// Address of a remote plugin manifest.
    pub remote_manifest_src: Option<Url>,
    /// Skips the prompt that asks whether to install.
    pub yes_to_all: bool,
    /// Overrides a failed compatibility check.
    pub override_compatibility_check: bool,
    /// The version to install from the registry.
    pub version: Option<String>,
}

/// Remove a plugin.
#[derive(Debug)]
pub struct Uninstall {
    /// Name of the plugin.
    pub name: String,
}

/// Upgrade one or all plugins.
#[derive(Debug)]
pub struct Upgrade {
    /// Name of the plugin to upgrade.
    pub name: Option<String>,
    /// Upgrade all installed plugins.
    pub all: bool,
    /// Path to a local plugin manifest.
    pub local_manifest_src: Option<PathBuf>,
    /// Address of a remote plugin manifest.
    pub remote_manifest_src: Option<Url>,
    /// Skips the prompt that asks whether to install.
    pub yes_to_all: bool,
    /// Overrides a failed compatibility check.
    pub override_compatibility_check: bool,
    /// The version to upgrade to, from the registry.
    pub version: Option<String>,
    /// Allows the upgrade to install an older version.
    pub downgrade: bool,
}

/// List available or installed plugins.
#[derive(Debug)]
pub struct List {
    /// List only installed plugins.
    pub installed: bool,
    /// List only plugins whose name contains this text.
    pub filter: Option<String>,
}

/// Search for plugins by name.
#[derive(Debug)]
pub struct Search {
    /// The text to search for. Without it, all plugins are listed.
    pub filter: Option<String>,
}

/// The plugin commands.
#[derive(Debug)]
pub enum PluginCommands {
    Install(Install),
    List(List),
    Search(Search),
    Uninstall(Uninstall),
    Upgrade(Upgrade),
    Update,
}

/// Which way an upgrade goes.
#[derive(Clone, Copy, Debug, PartialEq, Eq, Structural)]
pub enum UpgradeMode {
    /// Nothing is installed, so there is nothing to upgrade.
    NothingInstalled,
    /// Every installed plugin is upgraded to the latest version.
    All,
    /// The user picks from the installed plugins that have a newer version.
    Multiselect,
    /// One plugin is upgraded.
    One,
}

/// What a bulk operation does when one candidate fails.
#[derive(Clone, Copy, Debug, PartialEq, Eq, Structural)]
pub enum FailureAction {
    /// Report the failure and go on with the next candidate.
    Skip,
    /// Stop and report the failure.
    Abort,
}

impl UpgradeMode {
    /// What to do when a candidate fails: upgrading everything goes on with
    /// the other candidates, every other way stops at once.
    pub fn on_failure(self) -> (r: FailureAction)
        ensures
            r == (if self == UpgradeMode::All {
                FailureAction::Skip
            } else {
                FailureAction::Abort
            }),
    {
        match self {
            UpgradeMode::All => FailureAction::Skip,
            _ => FailureAction::Abort,
        }
    }
}

impl Install {
    /// The location that the command names: the one source among a local
    /// path, a remote address and a plugin name. A command that names none or
    /// more than one of them is rejected as ambiguous. The version goes with
    /// a plugin name.
    pub fn manifest_location(self) -> (r: Result<ManifestLocation, Error>)
        ensures
            (self.local_manifest_src is Some && self.remote_manifest_src is None && self.name
                is None) ==> r == Ok::<ManifestLocation, Error>(
                ManifestLocation::Local(self.local_manifest_src->0),
            ),
            (self.local_manifest_src is None && self.remote_manifest_src is Some && self.name
                is None) ==> r == Ok::<ManifestLocation, Error>(
                ManifestLocation::Remote(self.remote_manifest_src->0),
            ),
            (self.local_manifest_src is None && self.remote_manifest_src is None && self.name
                is Some) ==> (r matches Ok(ManifestLocation::PluginsRepository(lookup))
                && lookup.name@ == lowercased(self.name->0@) && lookup.version == self.version),
            r is Ok <==> exactly_one(
                self.local_manifest_src is Some,
                self.remote_manifest_src is Some,
                self.name is Some,
            ),
            r is Err ==> r == Err::<ManifestLocation, Error>(Error::AmbiguousLocation),
    {
        ManifestLocation::from_sources(
            self.local_manifest_src,
            self.remote_manifest_src,
            self.name,
            self.version,
        )
    }

    /// Whether an install may put an older version in place of a newer one:
    /// it may not. Downgrades go through the upgrade command.
    pub fn allows_downgrade(&self) -> (b: bool)
        ensures
            !b,
    {
        false
    }
}

impl Upgrade {
    /// Which way the upgrade goes: nothing to do where nothing is installed,
    /// all plugins where that is asked for, the user's pick where the command
    /// names no plugin and no manifest, else the one plugin named.
    pub fn mode(&self, anything_installed: bool) -> (r: UpgradeMode)
        ensures
            r == (if !anything_installed {
                UpgradeMode::NothingInstalled
            } else if self.all {
                UpgradeMode::All
            } else if self.name is None && self.local_manifest_src is None
                && self.remote_manifest_src is None {
                UpgradeMode::Multiselect
            } else {
                UpgradeMode::One
            }),
    {
        if !anything_installed {
            UpgradeMode::NothingInstalled
        } else if self.all {
            UpgradeMode::All
        } else if self.name.is_none() && self.local_manifest_src.is_none()
            && self.remote_manifest_src.is_none() {
            UpgradeMode::Multiselect
        } else {
            UpgradeMode::One
        }
    }

    /// The location of the manifest for an upgrade of one plugin: the one
    /// source among a local path, a remote address and a plugin name. A
    /// command that names more than one of them is rejected as ambiguous, and
    /// one that names none is told that a plugin name is required. The version
    /// goes with a plugin name.
    pub fn manifest_location(self) -> (r: Result<ManifestLocation, Error>)
        ensures
            (self.local_manifest_src is Some && self.remote_manifest_src is None && self.name
                is None) ==> r == Ok::<ManifestLocation, Error>(
                ManifestLocation::Local(self.local_manifest_src->0),
            ),
            (self.local_manifest_src is None && self.remote_manifest_src is Some && self.name
                is None) ==> r == Ok::<ManifestLocation, Error>(
                ManifestLocation::Remote(self.remote_manifest_src->0),
            ),
            (self.local_manifest_src is None && self.remote_manifest_src is None && self.name
                is Some) ==> (r matches Ok(ManifestLocation::PluginsRepository(lookup))
                && lookup.name@ == lowercased(self.name->0@) && lookup.version == self.version),
            r is Ok <==> exactly_one(
                self.local_manifest_src is Some,
                self.remote_manifest_src is Some,
                self.name is Some,
            ),
            (self.local_manifest_src is None && self.remote_manifest_src is None && self.name
                is None) ==> r == Err::<ManifestLocation, Error>(Error::NameRequired),
            (r is Err && !(self.local_manifest_src is None && self.remote_manifest_src is None
                && self.name is None)) ==> r == Err::<ManifestLocation, Error>(
                Error::AmbiguousLocation,
            ),
    {
        if self.local_manifest_src.is_none() && self.remote_manifest_src.is_none()
            && self.name.is_none() {
            Err(Error::NameRequired)
        } else {
            ManifestLocation::from_sources(
                self.local_manifest_src,
                self.remote_manifest_src,
                self.name,
                self.version,
            )
        }
    }
}

/// The first line of a report on an uninstall.
pub open spec fn uninstall_report(name: Seq<char>, uninstalled: bool) -> Seq<char> {
    if uninstalled {
        "Plugin "@ + name + " was successfully uninstalled"@
    } else {
        "Plugin "@ + name + " isn't present, so no changes were made"@
    }
}

impl Uninstall {
    /// What to tell the user once the store has been asked to remove the
    /// plugin.
    pub fn report(&self, uninstalled: bool) -> (r: String)
        ensures
            r@ == uninstall_report(self.name@, uninstalled),
    {
        let mut out = String::from_str("Plugin ");
        out.append(self.name.as_str());
        if uninstalled {
            out.append(" was successfully uninstalled");
        } else {
            out.append(" isn't present, so no changes were made");
        }
        assert(out@ =~= uninstall_report(self.name@, uninstalled));
        out
    }
}

impl Search {
    /// A search is a listing of the catalogue and the installed plugins with
    /// the search text as its filter.
    pub fn as_list(&self) -> (r: List)
        ensures
            !r.installed,
            optional_text(r.filter) == optional_text(self.filter),
    {
        List { installed: false, filter: copy_optional_text(&self.filter) }
    }
}

/// What the filter leaves of a listing: the descriptors whose name contains
/// the filter's text, or all of them where there is no filter.
pub open spec fn filtered(
    sorted: Seq<DescriptorView>,
    filter: Option<Seq<char>>,
) -> Seq<DescriptorView> {
    match filter {
        Some(text) => named_like(sorted, text),
        None => sorted,
    }
}

/// What the filter leaves of an ordered listing is in order, holds only
/// descriptors of the listing, and under a filter only those whose name
/// contains the filter's text.
pub proof fn lemma_filtered_is_ordered_and_matching(
    sorted: Seq<DescriptorView>,
    filter: Option<Seq<char>>,
)
    requires
        is_ordered(sorted),
    ensures
        is_ordered(filtered(sorted, filter)),
        filter is Some ==> forall|i: int|
            0 <= i < filtered(sorted, filter).len() ==> text_contains(
                (#[trigger] filtered(sorted, filter)[i]).name,
                filter->0,
            ),
        forall|i: int|
            0 <= i < filtered(sorted, filter).len() ==> sorted.contains(
                #[trigger] filtered(sorted, filter)[i],
            ),
{
    match filter {
        Some(text) => {
            lemma_filter_keeps_order(sorted, text);
            lemma_filter_keeps_matching_names(sorted, text);
        },
        None => {},
    }
}

/// What a listing command shows of a listing is in order, holds only
/// descriptors of the listing, and under a filter only those whose name
/// contains the filter's text.
pub proof fn lemma_selection_is_ordered_and_matching(
    plugins: Seq<DescriptorView>,
    filter: Option<Seq<char>>,
)
    ensures
        is_ordered(filtered(listing_order(plugins), filter)),
        filter is Some ==> forall|i: int|
            0 <= i < filtered(listing_order(plugins), filter).len() ==> text_contains(
                (#[trigger] filtered(listing_order(plugins), filter)[i]).name,
                filter->0,
            ),
        forall|i: int|
            0 <= i < filtered(listing_order(plugins), filter).len() ==> plugins.contains(
                #[trigger] filtered(listing_order(plugins), filter)[i],
            ),
{
    let sorted = listing_order(plugins);
    let shown = filtered(sorted, filter);
    lemma_listing_order_sorts(plugins);
    lemma_listing_order_elements(plugins);
    lemma_filtered_is_ordered_and_matching(sorted, filter);
    assert forall|i: int| 0 <= i < shown.len() implies plugins.contains(#[trigger] shown[i]) by {
        let k = choose|k: int| 0 <= k < sorted.len() && sorted[k] == shown[i];
        assert(plugins.contains(sorted[k]));
    }
}

/// The lines that show a listing: one per descriptor, or a single line that
/// says that there are none.
pub open spec fn listing_lines(list: Seq<DescriptorView>) -> Seq<Seq<char>> {
    if list.len() == 0 {
        seq!["No plugins found"@]
    } else {
        Seq::new(list.len(), |i: int| listing_line(list[i]))
    }
}

impl List {
    /// Keeps of a listing what the filter asks for: the descriptors whose
    /// name contains the filter's text, in their order, or all of them where
    /// there is no filter.
    pub fn keep(&self, plugins: Vec<PluginDescriptor>) -> (r: Vec<PluginDescriptor>)
        ensures
            descriptor_views(r@) == filtered(descriptor_views(plugins@), optional_text(self.filter)),
    {
        match &self.filter {
            Some(text) => filter_by_name(plugins, text.as_str()),
            None => plugins,
        }
    }

    /// Puts a listing in the order in which it is shown, and keeps what the
    /// filter asks for: the listing is sorted by name, then by version, and
    /// from the sorted listing the descriptors whose name contains the filter
    /// are kept, in their order.
    pub fn select(&self, plugins: Vec<PluginDescriptor>) -> (r: Vec<PluginDescriptor>)
        ensures
            descriptor_views(r@) == filtered(
                listing_order(descriptor_views(plugins@)),
                optional_text(self.filter),
            ),
    {
        self.keep(sort_plugins(plugins))
    }

    /// The listing that the command shows, from the manifests of the
    /// catalogue and the installed manifests: the installed plugins alone, in
    /// order, where only those are asked for, else the merge of the catalogue
    /// with them; of that, what the filter asks for.
    pub fn plugins(
        &self,
        catalogue: &Vec<PluginManifest>,
        installed: &Vec<PluginManifest>,
        host_version: &str,
        target: Target,
    ) -> (r: Vec<PluginDescriptor>)
        ensures
            descriptor_views(r@) == filtered(
                if self.installed {
                    listing_order(
                        installed_listing(manifest_views(installed@), host_version@, target),
                    )
                } else {
                    merged(
                        catalogue_listing(
                            manifest_views(catalogue@),
                            manifest_views(installed@),
                            host_version@,
                            target,
                        ),
                        installed_listing(manifest_views(installed@), host_version@, target),
                    )
                },
                optional_text(self.filter),
            ),
    {
        let sorted = if self.installed {
            sort_plugins(list_installed_plugins(installed, host_version, target))
        } else {
            list_catalogue_and_installed_plugins(catalogue, installed, host_version, target)
        };
        self.keep(sorted)
    }

    /// Formats a listing as the lines to print.
    pub fn render(plugins: &Vec<PluginDescriptor>) -> (r: Vec<String>)
        ensures
            text_views(r@) == listing_lines(descriptor_views(plugins@)),
    {
        let mut lines: Vec<String> = Vec::new();
        if plugins.len() == 0 {
            lines.push(String::from_str("No plugins found"));
            assert(text_views(lines@) =~= listing_lines(descriptor_views(plugins@)));
            return lines;
        }
        let mut i: usize = 0;
        while i < plugins.len()
            invariant
                i <= plugins.len(),
                lines.len() == i,
                forall|j: int| 0 <= j < i ==> (#[trigger] lines@[j])@ == listing_line(plugins@[j]@),
            decreases plugins.len() - i,
        {
            lines.push(plugins[i].line());
            i += 1;
        }
        assert(text_views(lines@) =~= listing_lines(descriptor_views(plugins@)));
        lines
    }
}

} // verus!
