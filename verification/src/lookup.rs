//! Resolving a plugin name, and a version where one is asked for, to one
//! manifest of the mirrored registry.

use crate::descriptor::{classify, CompatibilityView, PluginCompatibility};
use crate::error::Error;
use crate::listing::manifest_views;
use crate::location::PluginLookup;
use crate::manifest::{ManifestView, PluginManifest, Target};
use crate::text::Order;
use crate::version::{compare_versions, lemma_version_order_reflexive, version_order};
use vstd::prelude::*;

verus! {

/// What a lookup asks of a registry entry.
pub struct Query {
    /// The plugin's name.
    pub name: Seq<char>,
    /// The version asked for, if one is.
    pub version: Option<Seq<char>>,
    /// Whether only entries that the host can run will do.
    pub compatible_only: bool,
    /// The host's version.
    pub host: Seq<char>,
    /// The host's platform.
    pub target: Target,
}

/// Whether the registry entry `m` answers the query.
pub open spec fn answers(m: ManifestView, q: Query) -> bool {
    &&& m.name == q.name
    &&& (q.version is Some ==> m.version == q.version->0)
    &&& (q.compatible_only ==> classify(m, q.host, q.target) == CompatibilityView::Compatible)
}

/// Whether some entry of the registry answers the query.
pub open spec fn has_answer(registry: Seq<ManifestView>, q: Query) -> bool {
    exists|i: int| 0 <= i < registry.len() && answers(#[trigger] registry[i], q)
}

/// Whether entry `i` is the first of the registry that answers the query.
pub open spec fn is_first_answer(registry: Seq<ManifestView>, q: Query, i: int) -> bool {
    &&& 0 <= i < registry.len()
    &&& answers(registry[i], q)
    &&& forall|j: int| 0 <= j < i ==> !answers(#[trigger] registry[j], q)
}

/// The first entry of the registry that answers the query.
pub open spec fn first_answer(registry: Seq<ManifestView>, q: Query) -> int {
    choose|i: int| is_first_answer(registry, q, i)
}

/// Among the first `n` entries of the registry, the answer with the highest
/// version: each later answer replaces the one held only if its version is
/// strictly greater in version order, so of answers with equal versions the
/// first is kept.
pub open spec fn best_answer(registry: Seq<ManifestView>, q: Query, n: int) -> Option<int>
    decreases n,
{
    if n <= 0 {
        None
    } else {
        let before = best_answer(registry, q, n - 1);
        if !answers(registry[n - 1], q) {
            before
        } else {
            match before {
                None => Some(n - 1),
                Some(b) => if version_order(registry[n - 1].version, registry[b].version)
                    == Order::Greater {
                    Some(n - 1)
                } else {
                    Some(b)
                },
            }
        }
    }
}

/// How a lookup in the registry ends.
pub enum Resolution {
    /// The entry at this position is the manifest.
    Found(int),
    /// No entry has the name, or none has the name and the version asked for.
    NotFound,
    /// Entries were found, but none that the host can run; the text is the
    /// host-version range that the preferred entry declares.
    Incompatible(Seq<char>),
}

/// The outcome of looking up `name` in the registry.
///
/// With a version, the entries with that name and that very version are the
/// candidates, and the first candidate that the host can run is taken (the
/// first candidate of all, if the compatibility check is skipped). Without a
/// version, the entries with that name are the candidates, and of those that
/// the host can run the one with the highest version is taken (of all, if the
/// check is skipped). Without candidates nothing is found. With candidates
/// but none that the host can run, the lookup fails and names the range that
/// the preferred candidate declares.
pub open spec fn resolution(
    registry: Seq<ManifestView>,
    name: Seq<char>,
    version: Option<Seq<char>>,
    skip_compatibility_check: bool,
    host: Seq<char>,
    target: Target,
) -> Resolution {
    let any = Query { name, version, compatible_only: false, host, target };
    let usable = Query { name, version, compatible_only: !skip_compatibility_check, host, target };
    if version is Some {
        if !has_answer(registry, any) {
            Resolution::NotFound
        } else if has_answer(registry, usable) {
            Resolution::Found(first_answer(registry, usable))
        } else {
            Resolution::Incompatible(registry[first_answer(registry, any)].spin_compatibility)
        }
    } else {
        match best_answer(registry, any, registry.len() as int) {
            None => Resolution::NotFound,
            Some(preferred) => match best_answer(registry, usable, registry.len() as int) {
                Some(i) => Resolution::Found(i),
                None => Resolution::Incompatible(registry[preferred].spin_compatibility),
            },
        }
    }
}

/// The best answer is an answer, and there is one exactly when some entry
/// answers.
pub proof fn lemma_best_answer_answers(registry: Seq<ManifestView>, q: Query, n: int)
    requires
        0 <= n <= registry.len(),
    ensures
        best_answer(registry, q, n) matches Some(b) ==> 0 <= b < n && answers(registry[b], q),
        best_answer(registry, q, n) is None ==> forall|j: int|
            0 <= j < n ==> !answers(#[trigger] registry[j], q),
    decreases n,
{
    if n > 0 {
        lemma_best_answer_answers(registry, q, n - 1);
    }
}

/// What a lookup finds with the compatibility check on has the name that was
/// asked for, has the version that was asked for, if one was, and is
/// compatible with the host.
pub proof fn lemma_found_is_compatible(
    registry: Seq<ManifestView>,
    name: Seq<char>,
    version: Option<Seq<char>>,
    host: Seq<char>,
    target: Target,
    i: int,
)
    requires
        resolution(registry, name, version, false, host, target) == Resolution::Found(i),
    ensures
        0 <= i < registry.len(),
        registry[i].name == name,
        version is Some ==> registry[i].version == version->0,
        classify(registry[i], host, target) == CompatibilityView::Compatible,
{
    let usable = Query { name, version, compatible_only: true, host, target };
    if version is Some {
        assert(has_answer(registry, usable));
        let k = choose|k: int| 0 <= k < registry.len() && answers(#[trigger] registry[k], usable);
        lemma_first_answer_exists(registry, usable, k);
        assert(is_first_answer(registry, usable, first_answer(registry, usable)));
    } else {
        lemma_best_answer_answers(registry, usable, registry.len() as int);
    }
}

/// Where some entry answers, there is a first one that does.
proof fn lemma_first_answer_exists(registry: Seq<ManifestView>, q: Query, k: int)
    requires
        0 <= k < registry.len(),
        answers(registry[k], q),
    ensures
        exists|i: int| is_first_answer(registry, q, i),
    decreases k,
{
    if forall|j: int| 0 <= j < k ==> !answers(#[trigger] registry[j], q) {
        assert(is_first_answer(registry, q, k));
    } else {
        let j = choose|j: int| 0 <= j < k && answers(#[trigger] registry[j], q);
        lemma_first_answer_exists(registry, q, j);
    }
}

/// Whether version order behaves as a total order on the versions of the
/// entries that answer the query: "not greater" is transitive, and of two
/// versions at most one is greater than the other.
pub open spec fn orders_consistently(registry: Seq<ManifestView>, q: Query) -> bool {
    &&& forall|x: int, y: int, z: int|
        #![trigger registry[x], registry[y], registry[z]]
        0 <= x < registry.len() && 0 <= y < registry.len() && 0 <= z < registry.len() && answers(
            registry[x],
            q,
        ) && answers(registry[y], q) && answers(registry[z], q) && version_order(
            registry[x].version,
            registry[y].version,
        ) != Order::Greater && version_order(registry[y].version, registry[z].version)
            != Order::Greater ==> version_order(registry[x].version, registry[z].version)
            != Order::Greater
    &&& forall|x: int, y: int|
        #![trigger registry[x], registry[y]]
        0 <= x < registry.len() && 0 <= y < registry.len() && answers(registry[x], q) && answers(
            registry[y],
            q,
        ) && version_order(registry[x].version, registry[y].version) == Order::Greater
            ==> version_order(registry[y].version, registry[x].version) != Order::Greater
}

/// Where version order behaves as a total order on the answers, no answer has
/// a version greater than that of the best answer.
pub proof fn lemma_best_answer_is_highest(registry: Seq<ManifestView>, q: Query, n: int, j: int)
    requires
        0 <= n <= registry.len(),
        orders_consistently(registry, q),
        0 <= j < n,
        answers(registry[j], q),
    ensures
        best_answer(registry, q, n) matches Some(b) && version_order(
            registry[j].version,
            registry[b].version,
        ) != Order::Greater,
    decreases n,
{
    lemma_best_answer_answers(registry, q, n);
    lemma_best_answer_answers(registry, q, n - 1);
    let b = best_answer(registry, q, n)->0;
    let last = n - 1;
    if j < last {
        lemma_best_answer_is_highest(registry, q, last, j);
        let before = best_answer(registry, q, last)->0;
        if b != before {
            assert(b == last);
            assert(version_order(registry[last].version, registry[before].version)
                == Order::Greater);
            let _ = (registry[last], registry[before]);
            let _ = (registry[j], registry[before], registry[last]);
        }
    } else if b == last {
        lemma_version_order_reflexive(registry[last].version);
    }
}

/// Tests whether a registry entry answers a query.
fn entry_answers(
    m: &PluginManifest,
    name: &str,
    version: &Option<String>,
    compatible_only: bool,
    host_version: &str,
    target: Target,
) -> (b: bool)
    ensures
        b == answers(
            m@,
            Query {
                name: name@,
                version: crate::manifest::optional_text(*version),
                compatible_only,
                host: host_version@,
                target,
            },
        ),
{
    if !crate::text::same_text(m.name().as_str(), name) {
        return false;
    }
    match version {
        Some(v) => {
            if !crate::text::same_text(m.version().as_str(), v.as_str()) {
                return false;
            }
        },
        None => {},
    }
    !compatible_only || PluginCompatibility::for_current(m, host_version, target).is_compatible()
}

/// Finds the first entry of the registry that answers a query.
fn find_first(
    registry: &Vec<PluginManifest>,
    name: &str,
    version: &Option<String>,
    compatible_only: bool,
    host_version: &str,
    target: Target,
) -> (r: Option<usize>)
    ensures
        ({
            let q = Query {
                name: name@,
                version: crate::manifest::optional_text(*version),
                compatible_only,
                host: host_version@,
                target,
            };
            &&& r is Some <==> has_answer(manifest_views(registry@), q)
            &&& r matches Some(i) ==> i as int == first_answer(manifest_views(registry@), q)
                && i < registry.len()
        }),
{
    let ghost q = Query {
        name: name@,
        version: crate::manifest::optional_text(*version),
        compatible_only,
        host: host_version@,
        target,
    };
    let ghost views = manifest_views(registry@);
    let mut i: usize = 0;
    while i < registry.len()
        invariant
            i <= registry.len(),
            views == manifest_views(registry@),
            q == (Query {
                name: name@,
                version: crate::manifest::optional_text(*version),
                compatible_only,
                host: host_version@,
                target,
            }),
            forall|j: int| 0 <= j < i ==> !answers(#[trigger] views[j], q),
        decreases registry.len() - i,
    {
        if entry_answers(&registry[i], name, version, compatible_only, host_version, target) {
            proof {
                assert(answers(views[i as int], q));
                assert(is_first_answer(views, q, i as int));
                let chosen = first_answer(views, q);
                assert(is_first_answer(views, q, chosen));
                assert(chosen == i) by {
                    if chosen < i {
                        assert(!answers(views[chosen], q));
                    } else if chosen > i {
                        assert(!answers(views[i as int], q));
                    }
                }
            }
            return Some(i);
        }
        i += 1;
    }
    None
}

/// Finds the answer with the highest version.
fn find_best(
    registry: &Vec<PluginManifest>,
    name: &str,
    compatible_only: bool,
    host_version: &str,
    target: Target,
) -> (r: Option<usize>)
    ensures
        ({
            let q = Query {
                name: name@,
                version: None,
                compatible_only,
                host: host_version@,
                target,
            };
            let best = best_answer(manifest_views(registry@), q, registry.len() as int);
            &&& r is Some <==> best is Some
            &&& r matches Some(i) ==> best == Some(i as int) && i < registry.len()
        }),
{
    let ghost q = Query { name: name@, version: None, compatible_only, host: host_version@, target };
    let ghost views = manifest_views(registry@);
    let no_version: Option<String> = None;
    let mut best: Option<usize> = None;
    let mut i: usize = 0;
    while i < registry.len()
        invariant
            i <= registry.len(),
            no_version is None,
            views == manifest_views(registry@),
            q == (Query {
                name: name@,
                version: None,
                compatible_only,
                host: host_version@,
                target,
            }),
            best is Some <==> best_answer(views, q, i as int) is Some,
            best matches Some(b) ==> best_answer(views, q, i as int) == Some(b as int) && b < i,
        decreases registry.len() - i,
    {
        if entry_answers(&registry[i], name, &no_version, compatible_only, host_version, target) {
            match best {
                None => {
                    best = Some(i);
                },
                Some(b) => {
                    match compare_versions(
                        registry[i].version().as_str(),
                        registry[b].version().as_str(),
                    ) {
                        Order::Greater => {
                            best = Some(i);
                        },
                        _ => {},
                    }
                },
            }
        }
        i += 1;
    }
    best
}

/// What reading a manifest from a local path or a remote address gave.
#[derive(Debug)]
pub enum ReadOutcome {
    /// Nothing is there: the path does not exist, or the server has no such
    /// document.
    Missing,
    /// The transfer failed; the text says how.
    TransferFailed(String),
    /// Something was read, but it is no manifest; the text says why.
    Malformed(String),
    /// The manifest that was read.
    Read(PluginManifest),
}

/// Settles a lookup at a local path or a remote address, written `place`,
/// from what reading it gave: the manifest, or the failure that stands for
/// what went wrong.
pub fn manifest_from_read(place: &str, outcome: ReadOutcome) -> (r: Result<PluginManifest, Error>)
    ensures
        match outcome {
            ReadOutcome::Missing => {
                &&& r matches Err(Error::NotFound(what))
                &&& what@ == place@
            },
            ReadOutcome::TransferFailed(how) => {
                &&& r matches Err(Error::Io { what, reason })
                &&& what@ == place@
                &&& reason@ == how@
            },
            ReadOutcome::Malformed(why) => {
                &&& r matches Err(Error::ParseError(text))
                &&& text@ == why@
            },
            ReadOutcome::Read(manifest) => r == Ok::<PluginManifest, Error>(manifest),
        },
{
    match outcome {
        ReadOutcome::Missing => Err(Error::NotFound(place.to_owned())),
        ReadOutcome::TransferFailed(how) => Err(Error::Io { what: place.to_owned(), reason: how }),
        ReadOutcome::Malformed(why) => Err(Error::ParseError(why)),
        ReadOutcome::Read(manifest) => Ok(manifest),
    }
}

impl PluginLookup {
    /// Resolves the request against the manifests of the mirrored registry.
    /// Returns a copy of the manifest that the lookup settles on, or says why
    /// there is none.
    pub fn resolve_manifest(
        &self,
        registry: &Vec<PluginManifest>,
        skip_compatibility_check: bool,
        host_version: &str,
        target: Target,
    ) -> (r: Result<PluginManifest, Error>)
        ensures
            match resolution(
                manifest_views(registry@),
                self.name@,
                crate::manifest::optional_text(self.version),
                skip_compatibility_check,
                host_version@,
                target,
            ) {
                Resolution::Found(i) => {
                    &&& 0 <= i < registry.len()
                    &&& r matches Ok(m)
                    &&& m@ == registry@[i]@
                },
                Resolution::NotFound => {
                    &&& r matches Err(Error::NotFound(what))
                    &&& what@ == self.name@
                },
                Resolution::Incompatible(range) => {
                    &&& r matches Err(Error::IncompatibleCheckFailed { name, required })
                    &&& name@ == self.name@
                    &&& required@ == range
                },
            },
    {
        let name = self.name.as_str();
        let compatible_only = !skip_compatibility_check;
        let preferred = if self.version.is_some() {
            find_first(registry, name, &self.version, false, host_version, target)
        } else {
            find_best(registry, name, false, host_version, target)
        };
        let preferred_index = match preferred {
            None => {
                return Err(Error::NotFound(self.name.clone()));
            },
            Some(p) => p,
        };
        let usable = if self.version.is_some() {
            find_first(registry, name, &self.version, compatible_only, host_version, target)
        } else {
            find_best(registry, name, compatible_only, host_version, target)
        };
        match usable {
            Some(i) => Ok(registry[i].clone()),
            None => Err(
                Error::IncompatibleCheckFailed {
                    name: self.name.clone(),
                    required: registry[preferred_index].spin_compatibility().clone(),
                },
            ),
        }
    }
}

} // verus!
