//! Where a manifest is looked up: a local file, a remote address, or the
//! mirrored registry.

use crate::error::Error;
use crate::manifest::{copy_optional_text, optional_text};
use crate::text::{lowercased, to_lowercase};
use std::path::PathBuf;
use url::Url;
use vstd::prelude::*;

verus! {

/// A path of the local filesystem, carried through as it is.
#[verifier::external_type_specification]
#[verifier::external_body]
pub struct ExPathBuf(PathBuf);

/// A parsed address, carried through as it is.
#[verifier::external_type_specification]
#[verifier::external_body]
pub struct ExUrl(Url);

/// `Clone::clone` of `std::path::PathBuf` returns a path equal to the one it
/// was called on.
pub assume_specification[ <PathBuf as Clone>::clone ](path: &PathBuf) -> (r: PathBuf)
    ensures
        r == *path,
;

/// `Clone::clone` of `url::Url`, which the crate derives, returns an address
/// equal to the one it was called on.
pub assume_specification[ <Url as Clone>::clone ](address: &Url) -> (r: Url)
    ensures
        r == *address,
;

/// A request to the mirrored registry: a plugin name in lowercase, and the
/// version asked for, if one was.
#[derive(Debug)]
pub struct PluginLookup {
    pub name: String,
    pub version: Option<String>,
}

impl Clone for PluginLookup {
    fn clone(&self) -> (r: Self)
        ensures
            r.name@ == self.name@,
            optional_text(r.version) == optional_text(self.version),
    {
        PluginLookup { name: self.name.clone(), version: copy_optional_text(&self.version) }
    }
}

impl PluginLookup {
    /// A request for the plugin `name`, at `version` if one is given. The name
    /// is put in lowercase, as the names of manifests are.
    pub fn new(name: &str, version: Option<String>) -> (r: Self)
        ensures
            r.name@ == lowercased(name@),
            r.version == version,
    {
        PluginLookup { name: to_lowercase(name), version }
    }
}

/// The one place that a lookup reads a manifest from.
#[derive(Debug)]
pub enum ManifestLocation {
    /// A manifest file of the local filesystem.
    Local(PathBuf),
    /// A manifest at a remote address.
    Remote(Url),
    /// An entry of the mirrored registry.
    PluginsRepository(PluginLookup),
}

/// Whether two locations name the same source.
pub open spec fn same_location(a: ManifestLocation, b: ManifestLocation) -> bool {
    match (a, b) {
        (ManifestLocation::Local(x), ManifestLocation::Local(y)) => x == y,
        (ManifestLocation::Remote(x), ManifestLocation::Remote(y)) => x == y,
        (ManifestLocation::PluginsRepository(x), ManifestLocation::PluginsRepository(y)) => x.name@
            == y.name@ && optional_text(x.version) == optional_text(y.version),
        _ => false,
    }
}

impl Clone for ManifestLocation {
    fn clone(&self) -> (r: Self)
        ensures
            same_location(r, *self),
    {
        match self {
            ManifestLocation::Local(path) => ManifestLocation::Local(path.clone()),
            ManifestLocation::Remote(address) => ManifestLocation::Remote(address.clone()),
            ManifestLocation::PluginsRepository(lookup) => ManifestLocation::PluginsRepository(
                lookup.clone(),
            ),
        }
    }
}

/// Whether exactly one of three sources is given.
pub open spec fn exactly_one(local: bool, remote: bool, name: bool) -> bool {
    (local && !remote && !name) || (!local && remote && !name) || (!local && !remote && name)
}

impl ManifestLocation {
    /// Makes the location that a request names. A request names exactly one
    /// source: a local path, a remote address, or a plugin name. A request
    /// that names none or more than one is ambiguous and is rejected. The
    /// version goes with a plugin name; with a path or an address it says
    /// nothing and is left aside.
    pub fn from_sources(
        local: Option<PathBuf>,
        remote: Option<Url>,
        name: Option<String>,
        version: Option<String>,
    ) -> (r: Result<ManifestLocation, Error>)
        ensures
            (local is Some && remote is None && name is None) ==> r == Ok::<
                ManifestLocation,
                Error,
            >(ManifestLocation::Local(local->0)),
            (local is None && remote is Some && name is None) ==> r == Ok::<
                ManifestLocation,
                Error,
            >(ManifestLocation::Remote(remote->0)),
            (local is None && remote is None && name is Some) ==> (r matches Ok(
                ManifestLocation::PluginsRepository(lookup),
            ) && lookup.name@ == lowercased(name->0@) && lookup.version == version),
            r is Ok <==> exactly_one(local is Some, remote is Some, name is Some),
            r is Err ==> r == Err::<ManifestLocation, Error>(Error::AmbiguousLocation),
    {
        match (local, remote, name) {
            (Some(path), None, None) => Ok(ManifestLocation::Local(path)),
            (None, Some(address), None) => Ok(ManifestLocation::Remote(address)),
            (None, None, Some(plugin)) => Ok(
                ManifestLocation::PluginsRepository(PluginLookup::new(plugin.as_str(), version)),
            ),
            _ => Err(Error::AmbiguousLocation),
        }
    }
}

} // verus!
