//! Picking the installed plugins that an upgrade offers to the user.

use crate::descriptor::{DescriptorView, PluginDescriptor};
use crate::listing::{descriptor_views, manifest_views};
use crate::location::PluginLookup;
use crate::lookup::{resolution, Resolution};
use crate::manifest::{ManifestView, PluginManifest, Target};
use crate::text::{lowercased, same_text, text_views};
use vstd::prelude::*;
use vstd::string::*;

verus! {

/// An installed plugin together with the manifest that an upgrade would
/// install for it.
#[derive(Debug)]
pub struct UpgradeOffer {
    pub installed: PluginDescriptor,
    pub latest: PluginManifest,
}

/// What an upgrade offer is, as plain values.
pub struct OfferView {
    pub installed: DescriptorView,
    pub latest: ManifestView,
}

impl View for UpgradeOffer {
    type V = OfferView;

    open spec fn view(&self) -> OfferView {
        OfferView { installed: self.installed@, latest: self.latest@ }
    }
}

/// What a list of offers holds, as plain values.
pub open spec fn offer_views(offers: Seq<UpgradeOffer>) -> Seq<OfferView> {
    Seq::new(offers.len(), |i: int| offers[i]@)
}

/// What a list of lookup results holds, as plain values.
pub open spec fn lookup_views(found: Seq<Option<PluginManifest>>) -> Seq<Option<ManifestView>> {
    Seq::new(
        found.len(),
        |i: int|
            match found[i] {
                Some(m) => Some(m@),
                None => None,
            },
    )
}

/// What the registry offers for an installed plugin: the manifest that a
/// lookup of the plugin's name, in lowercase, without a version and with the
/// compatibility check on, finds, if it finds one.
pub open spec fn latest_found(
    installed: DescriptorView,
    registry: Seq<ManifestView>,
    host: Seq<char>,
    target: Target,
) -> Option<ManifestView> {
    match resolution(registry, lowercased(installed.name), None, false, host, target) {
        Resolution::Found(i) => Some(registry[i]),
        _ => None,
    }
}

/// Looks each installed plugin up in the registry, by name, without a
/// version and with the compatibility check on. Returns one result for each
/// plugin, in their order: the manifest that the lookup found, or nothing
/// where it failed.
pub fn latest_for(
    installed: &Vec<PluginDescriptor>,
    registry: &Vec<PluginManifest>,
    host_version: &str,
    target: Target,
) -> (r: Vec<Option<PluginManifest>>)
    ensures
        lookup_views(r@) == Seq::new(
            installed@.len(),
            |i: int| latest_found(installed@[i]@, manifest_views(registry@), host_version@, target),
        ),
{
    let mut found: Vec<Option<PluginManifest>> = Vec::new();
    let mut i: usize = 0;
    while i < installed.len()
        invariant
            i <= installed.len(),
            found.len() == i,
            forall|j: int|
                0 <= j < i ==> (#[trigger] lookup_views(found@)[j]) == latest_found(
                    installed@[j]@,
                    manifest_views(registry@),
                    host_version@,
                    target,
                ),
        decreases installed.len() - i,
    {
        let lookup = PluginLookup::new(installed[i].name.as_str(), None);
        let result = match lookup.resolve_manifest(registry, false, host_version, target) {
            Ok(manifest) => Some(manifest),
            Err(_) => None,
        };
        proof {
            let before = lookup_views(found@);
            let after = lookup_views(found@.push(result));
            assert forall|j: int| 0 <= j < i implies after[j] == before[j] by {}
            assert(manifest_views(registry@).len() == registry@.len());
        }
        found.push(result);
        i += 1;
    }
    assert(lookup_views(found@) =~= Seq::new(
        installed@.len(),
        |i: int| latest_found(installed@[i]@, manifest_views(registry@), host_version@, target),
    ));
    found
}

/// Whether the registry's manifest is an upgrade to offer for an installed
/// plugin: its version is not the installed one.
pub open spec fn is_offer(installed: DescriptorView, latest: ManifestView) -> bool {
    installed.version != latest.version
}

/// The offers among the first `n` installed plugins: each plugin for which
/// the registry lookup found a manifest whose version is not the installed
/// one, with that manifest, in the order of the plugins. A plugin without a
/// lookup result counts as not found.
pub open spec fn offers(
    installed: Seq<DescriptorView>,
    found: Seq<Option<ManifestView>>,
    n: int,
) -> Seq<OfferView>
    decreases n,
{
    if n <= 0 {
        Seq::empty()
    } else {
        let before = offers(installed, found, n - 1);
        if n - 1 < found.len() && found[n - 1] is Some && is_offer(
            installed[n - 1],
            found[n - 1]->0,
        ) {
            before.push(OfferView { installed: installed[n - 1], latest: found[n - 1]->0 })
        } else {
            before
        }
    }
}

/// The line that offers an upgrade to the user.
pub open spec fn offer_label(offer: OfferView) -> Seq<char> {
    offer.installed.name + " from version "@ + offer.installed.version + " to "@
        + offer.latest.version
}

/// Pairs each installed plugin with the manifest that the registry lookup
/// found for it, `found` holding the results in the order of the plugins,
/// and keeps the pairs that are upgrades to offer.
pub fn eligible_upgrades(
    installed: Vec<PluginDescriptor>,
    found: &Vec<Option<PluginManifest>>,
) -> (r: Vec<UpgradeOffer>)
    ensures
        offer_views(r@) == offers(
            descriptor_views(installed@),
            lookup_views(found@),
            installed.len() as int,
        ),
{
    let ghost all = installed@;
    let ghost views = descriptor_views(all);
    let ghost results = lookup_views(found@);
    let total: usize = installed.len();
    let mut out: Vec<UpgradeOffer> = Vec::new();
    let mut position: usize = 0;
    assert(offer_views(out@) =~= offers(views, results, 0));
    for descriptor in it: installed
        invariant
            it.seq() == all,
            views == descriptor_views(all),
            results == lookup_views(found@),
            total == all.len(),
            position == it.index(),
            offer_views(out@) == offers(views, results, it.index() as int),
    {
        assert(position < total);
        assert(views[position as int] == descriptor@);
        if position < found.len() {
            match &found[position] {
                Some(latest) => {
                    assert(results[position as int] == Some(latest@));
                    if !same_text(descriptor.version.as_str(), latest.version().as_str()) {
                        let offer = UpgradeOffer { installed: descriptor, latest: latest.clone() };
                        assert(offer_views(out@.push(offer)) =~= offer_views(out@).push(offer@));
                        out.push(offer);
                    }
                },
                None => {
                    assert(results[position as int] is None);
                },
            }
        }
        position += 1;
    }
    out
}

/// The lines that offer the upgrades to the user, one per offer.
pub fn offer_labels(offers: &Vec<UpgradeOffer>) -> (r: Vec<String>)
    ensures
        text_views(r@) == Seq::new(offers@.len(), |i: int| offer_label(offers@[i]@)),
{
    let mut labels: Vec<String> = Vec::new();
    let mut i: usize = 0;
    while i < offers.len()
        invariant
            i <= offers.len(),
            labels.len() == i,
            forall|j: int| 0 <= j < i ==> (#[trigger] labels@[j])@ == offer_label(offers@[j]@),
        decreases offers.len() - i,
    {
        let offer = &offers[i];
        let mut label = offer.installed.name.clone();
        label.append(" from version ");
        label.append(offer.installed.version.as_str());
        label.append(" to ");
        label.append(offer.latest.version().as_str());
        assert(label@ =~= offer_label(offer@));
        labels.push(label);
        i += 1;
    }
    assert(text_views(labels@) =~= Seq::new(offers@.len(), |i: int| offer_label(offers@[i]@)));
    labels
}

} // verus!
