//! The installed set: the manifests of the plugins that are installed, one
//! per plugin name.

use crate::listing::manifest_views;
use crate::manifest::{ManifestView, PluginManifest};
use crate::text::same_text;
use vstd::prelude::*;

verus! {

/// The manifests of the installed plugins. No two of them have the same
/// name: installing a plugin again overwrites its entry in place.
#[derive(Debug)]
pub struct InstalledStore {
    entries: Vec<PluginManifest>,
}

/// Whether no two manifests of the list have the same name.
pub open spec fn names_distinct(list: Seq<ManifestView>) -> bool {
    forall|i: int, j: int|
        0 <= i < j < list.len() ==> (#[trigger] list[i]).name != (#[trigger] list[j]).name
}

/// Whether some manifest of the list has the name.
pub open spec fn has_name(list: Seq<ManifestView>, name: Seq<char>) -> bool {
    exists|i: int| 0 <= i < list.len() && (#[trigger] list[i]).name == name
}

/// The position of a manifest with the name.
pub open spec fn position_of(list: Seq<ManifestView>, name: Seq<char>) -> int {
    choose|i: int| 0 <= i < list.len() && (#[trigger] list[i]).name == name
}

/// The list as a map from each name to the manifest of that name.
pub open spec fn by_name(list: Seq<ManifestView>) -> Map<Seq<char>, ManifestView> {
    Map::new(|name: Seq<char>| has_name(list, name), |name: Seq<char>| list[position_of(list, name)])
}

/// In a list of distinct names, each manifest is what the map holds under its
/// name.
pub proof fn lemma_by_name_at(list: Seq<ManifestView>, i: int)
    requires
        names_distinct(list),
        0 <= i < list.len(),
    ensures
        by_name(list).contains_key(list[i].name),
        by_name(list)[list[i].name] == list[i],
{
    let name = list[i].name;
    assert(has_name(list, name));
    let p = position_of(list, name);
    if p < i {
        assert(list[p].name != list[i].name);
    } else if i < p {
        assert(list[i].name != list[p].name);
    }
}

proof fn lemma_by_name_push(list: Seq<ManifestView>, m: ManifestView)
    requires
        names_distinct(list),
        !has_name(list, m.name),
    ensures
        names_distinct(list.push(m)),
        by_name(list.push(m)) == by_name(list).insert(m.name, m),
{
    let next = list.push(m);
    assert forall|i: int, j: int| 0 <= i < j < next.len() implies (#[trigger] next[i]).name != (
    #[trigger] next[j]).name by {
        if j == list.len() {
            assert(list[i].name != m.name);
        } else {
            assert(list[i].name != list[j].name);
        }
    }
    assert forall|name: Seq<char>| has_name(next, name) <==> (has_name(list, name) || name
        == m.name) by {
        if has_name(list, name) {
            let p = position_of(list, name);
            assert(next[p].name == name);
        }
        if name == m.name {
            assert(next[list.len() as int].name == name);
        }
        if has_name(next, name) {
            let p = position_of(next, name);
            if p < list.len() {
                assert(list[p].name == name);
            }
        }
    }
    assert forall|name: Seq<char>| has_name(next, name) implies by_name(next)[name] == by_name(
        list,
    ).insert(m.name, m)[name] by {
        let p = position_of(next, name);
        lemma_by_name_at(next, p);
        if name != m.name {
            let q = position_of(list, name);
            lemma_by_name_at(list, q);
            lemma_by_name_at(next, q);
        } else {
            lemma_by_name_at(next, list.len() as int);
        }
    }
    assert(by_name(next) =~= by_name(list).insert(m.name, m));
}

proof fn lemma_by_name_update(list: Seq<ManifestView>, at: int, m: ManifestView)
    requires
        names_distinct(list),
        0 <= at < list.len(),
        list[at].name == m.name,
    ensures
        names_distinct(list.update(at, m)),
        by_name(list.update(at, m)) == by_name(list).insert(m.name, m),
{
    let next = list.update(at, m);
    assert forall|i: int, j: int| 0 <= i < j < next.len() implies (#[trigger] next[i]).name != (
    #[trigger] next[j]).name by {
        assert(list[i].name != list[j].name);
    }
    assert forall|name: Seq<char>| has_name(next, name) <==> has_name(list, name) by {
        if has_name(list, name) {
            let p = position_of(list, name);
            assert(next[p].name == name);
        }
        if has_name(next, name) {
            let p = position_of(next, name);
            assert(list[p].name == name);
        }
    }
    assert(has_name(list, m.name)) by {
        assert(list[at].name == m.name);
    }
    assert forall|name: Seq<char>| has_name(next, name) implies by_name(next)[name] == by_name(
        list,
    ).insert(m.name, m)[name] by {
        let p = position_of(next, name);
        lemma_by_name_at(next, p);
        if name != m.name {
            let q = position_of(list, name);
            lemma_by_name_at(list, q);
            lemma_by_name_at(next, q);
        } else {
            lemma_by_name_at(next, at);
        }
    }
    assert(by_name(next) =~= by_name(list).insert(m.name, m));
}

proof fn lemma_by_name_remove(list: Seq<ManifestView>, at: int)
    requires
        names_distinct(list),
        0 <= at < list.len(),
    ensures
        names_distinct(list.remove(at)),
        by_name(list.remove(at)) == by_name(list).remove(list[at].name),
{
    let next = list.remove(at);
    let gone = list[at].name;
    assert forall|i: int, j: int| 0 <= i < j < next.len() implies (#[trigger] next[i]).name != (
    #[trigger] next[j]).name by {
        let x = if i < at { i } else { i + 1 };
        let y = if j < at { j } else { j + 1 };
        assert(list[x].name != list[y].name);
    }
    assert forall|name: Seq<char>| has_name(next, name) <==> (has_name(list, name) && name
        != gone) by {
        if has_name(list, name) && name != gone {
            let p = position_of(list, name);
            let q = if p < at { p } else { p - 1 };
            assert(next[q].name == name);
        }
        if has_name(next, name) {
            let p = position_of(next, name);
            let q = if p < at { p } else { p + 1 };
            assert(list[q].name == name);
            if q < at {
                assert(list[q].name != list[at].name);
            } else {
                assert(list[at].name != list[q].name);
            }
        }
    }
    assert forall|name: Seq<char>| has_name(next, name) implies by_name(next)[name] == by_name(
        list,
    ).remove(gone)[name] by {
        let p = position_of(next, name);
        lemma_by_name_at(next, p);
        let q = if p < at { p } else { p + 1 };
        assert(list[q] == next[p]);
        lemma_by_name_at(list, q);
    }
    assert(by_name(next) =~= by_name(list).remove(gone));
}

impl View for InstalledStore {
    type V = Map<Seq<char>, ManifestView>;

    closed spec fn view(&self) -> Map<Seq<char>, ManifestView> {
        by_name(manifest_views(self.entries@))
    }
}

impl InstalledStore {
    #[verifier::type_invariant]
    spec fn one_per_name(&self) -> bool {
        names_distinct(manifest_views(self.entries@))
    }

    /// A store with nothing installed.
    pub fn new() -> (r: Self)
        ensures
            r@ == Map::<Seq<char>, ManifestView>::empty(),
    {
        let r = InstalledStore { entries: Vec::new() };
        assert(r@ =~= Map::<Seq<char>, ManifestView>::empty());
        r
    }

    /// Finds the position of the manifest with the name.
    fn position(&self, name: &str) -> (r: Option<usize>)
        ensures
            r is Some <==> has_name(manifest_views(self.entries@), name@),
            r matches Some(i) ==> i < self.entries.len() && self.entries@[i as int]@.name == name@,
    {
        let mut i: usize = 0;
        while i < self.entries.len()
            invariant
                i <= self.entries.len(),
                forall|j: int|
                    0 <= j < i ==> (#[trigger] manifest_views(self.entries@)[j]).name != name@,
            decreases self.entries.len() - i,
        {
            if same_text(self.entries[i].name().as_str(), name) {
                assert(manifest_views(self.entries@)[i as int].name == name@);
                return Some(i);
            }
            i += 1;
        }
        None
    }

    /// The installed manifest of the plugin `name`, if it is installed.
    pub fn find(&self, name: &str) -> (r: Option<&PluginManifest>)
        ensures
            r is Some <==> self@.contains_key(name@),
            r matches Some(m) ==> m@ == self@[name@] && m@.name == name@,
    {
        proof {
            use_type_invariant(self);
        }
        match self.position(name) {
            Some(i) => {
                proof {
                    lemma_by_name_at(manifest_views(self.entries@), i as int);
                }
                Some(&self.entries[i])
            },
            None => None,
        }
    }

    /// Tests whether the plugin `name` is installed.
    pub fn is_installed(&self, name: &str) -> (b: bool)
        ensures
            b == self@.contains_key(name@),
    {
        self.position(name).is_some()
    }

    /// Records `manifest` as the installed manifest of its plugin, in place of
    /// the one that was installed under that name, if any.
    pub fn put(&mut self, manifest: PluginManifest)
        ensures
            final(self)@ == old(self)@.insert(manifest@.name, manifest@),
    {
        proof {
            use_type_invariant(&*self);
        }
        let ghost before = manifest_views(self.entries@);
        let found = self.position(manifest.name().as_str());
        let mut entries: Vec<PluginManifest> = Vec::new();
        assert(manifest_views(entries@) =~= Seq::<ManifestView>::empty());
        std::mem::swap(&mut self.entries, &mut entries);
        match found {
            Some(i) => {
                proof {
                    lemma_by_name_update(before, i as int, manifest@);
                    assert(manifest_views(entries@.update(i as int, manifest)) =~= before.update(
                        i as int,
                        manifest@,
                    ));
                }
                entries.set(i, manifest);
            },
            None => {
                proof {
                    lemma_by_name_push(before, manifest@);
                    assert(manifest_views(entries@.push(manifest)) =~= before.push(manifest@));
                }
                entries.push(manifest);
            },
        }
        std::mem::swap(&mut self.entries, &mut entries);
    }

    /// Forgets the installed manifest of the plugin `name`. Returns whether
    /// the plugin was installed.
    pub fn remove(&mut self, name: &str) -> (was_installed: bool)
        ensures
            was_installed == old(self)@.contains_key(name@),
            final(self)@ == old(self)@.remove(name@),
    {
        proof {
            use_type_invariant(&*self);
        }
        let ghost before = manifest_views(self.entries@);
        match self.position(name) {
            Some(i) => {
                let mut entries: Vec<PluginManifest> = Vec::new();
                assert(manifest_views(entries@) =~= Seq::<ManifestView>::empty());
                std::mem::swap(&mut self.entries, &mut entries);
                proof {
                    lemma_by_name_remove(before, i as int);
                    assert(manifest_views(entries@.remove(i as int)) =~= before.remove(i as int));
                }
                let _ = entries.remove(i);
                std::mem::swap(&mut self.entries, &mut entries);
                true
            },
            None => {
                assert(self@.remove(name@) =~= self@);
                false
            },
        }
    }

    /// The installed manifests, one per plugin name: exactly the manifests
    /// that the store maps the names to.
    pub fn manifests(&self) -> (r: &Vec<PluginManifest>)
        ensures
            names_distinct(manifest_views(r@)),
            self@ == by_name(manifest_views(r@)),
    {
        proof {
            use_type_invariant(self);
        }
        &self.entries
    }
}

} // verus!
