//! Listings of plugins: merging the catalogue with what is installed,
//! ordering, filtering by name, and picking entries by position.

use crate::descriptor::{
    described, descriptor_order, CompatibilityView, DescriptorView, PluginDescriptor,
};
use crate::manifest::{ManifestView, PluginManifest, Target};
use crate::text::{
    contains_text, lemma_text_order_equal, lemma_text_order_mirror, lemma_text_order_transitive,
    text_contains, text_order, Order,
};
use vstd::prelude::*;
use vstd::seq_lib::*;

verus! {

/// The elements of `source` whose position is listed in `indexes`, in the
/// order of `source`. A position that is listed twice counts once, and a
/// listed position beyond the end of `source` selects nothing.
pub open spec fn selected<T>(source: Seq<T>, indexes: Seq<usize>) -> Seq<T>
    decreases source.len(),
{
    if source.len() == 0 {
        Seq::empty()
    } else {
        let before = selected(source.drop_last(), indexes);
        if indexes.contains((source.len() - 1) as usize) {
            before.push(source.last())
        } else {
            before
        }
    }
}

/// Tests whether `index` is listed in `indexes`.
pub fn is_listed(indexes: &Vec<usize>, index: usize) -> (b: bool)
    ensures
        b == indexes@.contains(index),
{
    let mut k: usize = 0;
    while k < indexes.len()
        invariant
            k <= indexes.len(),
            forall|j: int| 0 <= j < k ==> indexes@[j] != index,
        decreases indexes.len() - k,
    {
        if indexes[k] == index {
            return true;
        }
        k += 1;
    }
    false
}

/// Keeps the elements of `source` whose position is listed in `indexes`, in
/// the order in which `source` holds them.
pub fn elements_at<T>(source: Vec<T>, indexes: Vec<usize>) -> (r: Vec<T>)
    ensures
        r@ == selected(source@, indexes@),
{
    let mut out: Vec<T> = Vec::new();
    let ghost all = source@;
    let total: usize = source.len();
    let mut position: usize = 0;
    for item in it: source
        invariant
            it.seq() == all,
            total == all.len(),
            position == it.index(),
            out@ == selected(all.take(it.index() as int), indexes@),
    {
        proof {
            let next = all.take(it.index() + 1);
            assert(next.drop_last() =~= all.take(it.index() as int));
            assert(next.last() == item);
            assert(position < total);
        }
        if is_listed(&indexes, position) {
            out.push(item);
        }
        position += 1;
    }
    assert(all.take(all.len() as int) =~= all);
    out
}

/// What a list of descriptors holds, as plain values.
pub open spec fn descriptor_views(list: Seq<PluginDescriptor>) -> Seq<DescriptorView> {
    Seq::new(list.len(), |i: int| list[i]@)
}

/// What a list of manifests holds, as plain values.
pub open spec fn manifest_views(list: Seq<PluginManifest>) -> Seq<ManifestView> {
    Seq::new(list.len(), |i: int| list[i]@)
}

proof fn lemma_views_push(list: Seq<PluginDescriptor>, d: PluginDescriptor)
    ensures
        descriptor_views(list.push(d)) == descriptor_views(list).push(d@),
{
    assert(descriptor_views(list.push(d)) =~= descriptor_views(list).push(d@));
}

proof fn lemma_views_take_next(list: Seq<PluginDescriptor>, k: int)
    requires
        0 <= k < list.len(),
    ensures
        descriptor_views(list.take(k + 1)) == descriptor_views(list.take(k)).push(list[k]@),
        descriptor_views(list.take(k + 1)).drop_last() == descriptor_views(list.take(k)),
        descriptor_views(list.take(k + 1)).last() == list[k]@,
{
    assert(descriptor_views(list.take(k + 1)) =~= descriptor_views(list.take(k)).push(list[k]@));
    assert(descriptor_views(list.take(k + 1)).drop_last() =~= descriptor_views(list.take(k)));
}

proof fn lemma_views_take_all(list: Seq<PluginDescriptor>)
    ensures
        descriptor_views(list.take(list.len() as int)) == descriptor_views(list),
{
    assert(list.take(list.len() as int) =~= list);
}

/// Whether some descriptor of `list` carries the manifest `m`.
pub open spec fn lists_manifest(list: Seq<DescriptorView>, m: ManifestView) -> bool {
    exists|i: int| 0 <= i < list.len() && (#[trigger] list[i]).manifest == m
}

/// Whether no two descriptors of the list carry the same manifest.
pub open spec fn manifests_distinct(list: Seq<DescriptorView>) -> bool {
    forall|i: int, j: int|
        0 <= i < j < list.len() ==> (#[trigger] list[i]).manifest != (#[trigger] list[j]).manifest
}

/// The list without its duplicates: of any two descriptors with the same
/// manifest the first is kept. Two descriptors are the same entry only if
/// their manifests are equal in every field; equal name and version are not
/// enough.
pub open spec fn deduplicated(list: Seq<DescriptorView>) -> Seq<DescriptorView>
    decreases list.len(),
{
    if list.len() == 0 {
        Seq::empty()
    } else {
        let before = deduplicated(list.drop_last());
        if lists_manifest(before, list.last().manifest) {
            before
        } else {
            before.push(list.last())
        }
    }
}

/// The catalogue listing `a` merged with the installed listing `b`: the
/// descriptors of `a`, then those of `b`, without duplicates, in the order in
/// which a listing is shown: by name, then by version.
pub open spec fn merged(a: Seq<DescriptorView>, b: Seq<DescriptorView>) -> Seq<DescriptorView> {
    listing_order(deduplicated(a + b))
}

/// Tests whether some descriptor of `list` carries the manifest `m`.
pub fn has_manifest(list: &Vec<PluginDescriptor>, m: &PluginManifest) -> (b: bool)
    ensures
        b == lists_manifest(descriptor_views(list@), m@),
{
    let mut i: usize = 0;
    while i < list.len()
        invariant
            i <= list.len(),
            forall|j: int| 0 <= j < i ==> (#[trigger] descriptor_views(list@)[j]).manifest != m@,
        decreases list.len() - i,
    {
        if list[i].manifest.same_as(m) {
            assert(descriptor_views(list@)[i as int].manifest == m@);
            return true;
        }
        i += 1;
    }
    false
}

/// Drops the duplicates of a listing: of any two descriptors with the same
/// manifest the first is kept.
pub fn deduplicate(list: Vec<PluginDescriptor>) -> (r: Vec<PluginDescriptor>)
    ensures
        descriptor_views(r@) == deduplicated(descriptor_views(list@)),
{
    let ghost all = list@;
    let mut result: Vec<PluginDescriptor> = Vec::new();
    assert(descriptor_views(result@) =~= deduplicated(descriptor_views(all.take(0))));
    for descriptor in it: list
        invariant
            it.seq() == all,
            descriptor_views(result@) == deduplicated(descriptor_views(all.take(it.index() as int))),
    {
        proof {
            lemma_views_take_next(all, it.index() as int);
            lemma_views_push(result@, descriptor);
        }
        let already_got = has_manifest(&result, &descriptor.manifest);
        if !already_got {
            result.push(descriptor);
        }
    }
    proof {
        lemma_views_take_all(all);
    }
    result
}

/// Merges the catalogue listing with the installed listing into one listing
/// without duplicates, sorted by name, then by version.
pub fn merge_plugin_lists(a: Vec<PluginDescriptor>, b: Vec<PluginDescriptor>) -> (r: Vec<
    PluginDescriptor,
>)
    ensures
        descriptor_views(r@) == merged(descriptor_views(a@), descriptor_views(b@)),
{
    let mut all = a;
    let mut rest = b;
    assert(descriptor_views(all@ + rest@) =~= descriptor_views(all@) + descriptor_views(rest@));
    all.append(&mut rest);
    sort_plugins(deduplicate(all))
}

/// Every entry of a list without its duplicates is an entry of the list.
pub proof fn lemma_deduplicated_elements(list: Seq<DescriptorView>)
    ensures
        deduplicated(list).len() <= list.len(),
        forall|i: int|
            0 <= i < deduplicated(list).len() ==> list.contains(#[trigger] deduplicated(list)[i]),
    decreases list.len(),
{
    if list.len() > 0 {
        let rest = list.drop_last();
        lemma_deduplicated_elements(rest);
        let before = deduplicated(rest);
        assert forall|i: int| 0 <= i < deduplicated(list).len() implies list.contains(
            #[trigger] deduplicated(list)[i],
        ) by {
            if i < before.len() {
                let k = choose|k: int| 0 <= k < rest.len() && rest[k] == before[i];
                assert(list[k] == before[i]);
            } else {
                assert(list[list.len() - 1] == deduplicated(list)[i]);
            }
        }
    }
}

/// A list without its duplicates holds no manifest twice.
pub proof fn lemma_deduplicated_is_distinct(list: Seq<DescriptorView>)
    ensures
        manifests_distinct(deduplicated(list)),
    decreases list.len(),
{
    if list.len() > 0 {
        lemma_deduplicated_is_distinct(list.drop_last());
        let before = deduplicated(list.drop_last());
        let next = deduplicated(list);
        assert forall|i: int, j: int| 0 <= i < j < next.len() implies (#[trigger] next[i]).manifest
            != (#[trigger] next[j]).manifest by {
            if j < before.len() {
                assert(before[i].manifest != before[j].manifest);
            } else {
                assert(next[i] == before[i]);
            }
        }
    }
}

/// Every manifest of a list is still listed in the list without its
/// duplicates.
pub proof fn lemma_deduplicated_lists_every_manifest(list: Seq<DescriptorView>, j: int)
    requires
        0 <= j < list.len(),
    ensures
        lists_manifest(deduplicated(list), list[j].manifest),
    decreases list.len(),
{
    let before = deduplicated(list.drop_last());
    let next = deduplicated(list);
    if j < list.len() - 1 {
        assert(list.drop_last()[j] == list[j]);
        lemma_deduplicated_lists_every_manifest(list.drop_last(), j);
        let i = choose|i: int|
            0 <= i < before.len() && (#[trigger] before[i]).manifest == list[j].manifest;
        assert(next[i].manifest == list[j].manifest);
    } else if lists_manifest(before, list[j].manifest) {
        let i = choose|i: int|
            0 <= i < before.len() && (#[trigger] before[i]).manifest == list[j].manifest;
        assert(next[i].manifest == list[j].manifest);
    } else {
        assert(next[before.len() as int].manifest == list[j].manifest);
    }
}

/// A descriptor whose manifest differs from every manifest before it in the
/// list is an entry of the list without its duplicates.
pub proof fn lemma_deduplicated_keeps_first(list: Seq<DescriptorView>, j: int)
    requires
        0 <= j < list.len(),
        forall|k: int| 0 <= k < j ==> (#[trigger] list[k]).manifest != list[j].manifest,
    ensures
        deduplicated(list).contains(list[j]),
    decreases list.len(),
{
    let rest = list.drop_last();
    let before = deduplicated(rest);
    if j < list.len() - 1 {
        assert(rest[j] == list[j]);
        assert forall|k: int| 0 <= k < j implies (#[trigger] rest[k]).manifest
            != rest[j].manifest by {
            assert(rest[k] == list[k]);
        }
        lemma_deduplicated_keeps_first(rest, j);
        let i = choose|i: int| 0 <= i < before.len() && before[i] == list[j];
        assert(deduplicated(list)[i] == list[j]);
    } else {
        lemma_deduplicated_elements(rest);
        if lists_manifest(before, list[j].manifest) {
            let i = choose|i: int|
                0 <= i < before.len() && (#[trigger] before[i]).manifest == list[j].manifest;
            let k = choose|k: int| 0 <= k < rest.len() && rest[k] == before[i];
            assert(list[k].manifest == list[j].manifest);
        }
        assert(deduplicated(list)[before.len() as int] == list[j]);
    }
}

/// The listing order holds exactly the entries of the listing.
pub proof fn lemma_listing_order_elements(list: Seq<DescriptorView>)
    ensures
        forall|i: int|
            0 <= i < listing_order(list).len() ==> list.contains(#[trigger] listing_order(list)[i]),
        forall|i: int| 0 <= i < list.len() ==> listing_order(list).contains(#[trigger] list[i]),
{
    let sorted = listing_order(list);
    lemma_listing_order_sorts(list);
    sorted.to_multiset_ensures();
    list.to_multiset_ensures();
    assert forall|i: int| 0 <= i < sorted.len() implies list.contains(#[trigger] sorted[i]) by {
        assert(sorted.contains(sorted[i]));
        assert(sorted.to_multiset().count(sorted[i]) > 0);
        assert(list.to_multiset().count(sorted[i]) > 0);
    }
    assert forall|i: int| 0 <= i < list.len() implies sorted.contains(#[trigger] list[i]) by {
        assert(list.contains(list[i]));
        assert(list.to_multiset().count(list[i]) > 0);
        assert(sorted.to_multiset().count(list[i]) > 0);
    }
}

/// Putting a listing in order leaves it without duplicates if it had none.
pub proof fn lemma_listing_order_keeps_distinct(list: Seq<DescriptorView>)
    requires
        manifests_distinct(list),
    ensures
        manifests_distinct(listing_order(list)),
    decreases list.len(),
{
    if list.len() > 0 {
        let rest = list.drop_last();
        let d = list.last();
        let before = listing_order(rest);
        assert(manifests_distinct(rest)) by {
            assert forall|i: int, j: int| 0 <= i < j < rest.len() implies (#[trigger] rest[i]).manifest
                != (#[trigger] rest[j]).manifest by {
                assert(list[i].manifest != list[j].manifest);
            }
        }
        lemma_listing_order_keeps_distinct(rest);
        lemma_listing_order_elements(rest);
        lemma_listing_order_sorts(rest);
        lemma_insertion_point_exists(before, d, before.len() as int);
        let at = insertion_index(before, d);
        let next = before.insert(at, d);
        assert forall|k: int| 0 <= k < before.len() implies (#[trigger] before[k]).manifest
            != d.manifest by {
            let p = choose|p: int| 0 <= p < rest.len() && rest[p] == before[k];
            assert(list[p].manifest != list[list.len() - 1].manifest);
        }
        assert forall|i: int, j: int| 0 <= i < j < next.len() implies (#[trigger] next[i]).manifest
            != (#[trigger] next[j]).manifest by {
            let x = if i < at { i } else { i - 1 };
            let y = if j < at { j } else { j - 1 };
            if i == at {
                assert(next[j] == before[y]);
            } else if j == at {
                assert(next[i] == before[x]);
            } else {
                assert(next[i] == before[x]);
                assert(next[j] == before[y]);
                assert(before[x].manifest != before[y].manifest);
            }
        }
    }
}

/// What the merge of two listings is: a listing in which each descriptor may
/// stand before its successor, which holds no manifest twice, whose entries
/// all come from one of the two listings, and which lists every manifest of
/// both.
pub proof fn lemma_merged_is_ordered_and_distinct(a: Seq<DescriptorView>, b: Seq<DescriptorView>)
    ensures
        is_ordered(merged(a, b)),
        manifests_distinct(merged(a, b)),
        merged(a, b).to_multiset() == deduplicated(a + b).to_multiset(),
        forall|i: int|
            0 <= i < merged(a, b).len() ==> a.contains(#[trigger] merged(a, b)[i]) || b.contains(
                merged(a, b)[i],
            ),
        forall|i: int| 0 <= i < a.len() ==> lists_manifest(merged(a, b), (#[trigger] a[i]).manifest),
        forall|i: int| 0 <= i < b.len() ==> lists_manifest(merged(a, b), (#[trigger] b[i]).manifest),
{
    let all = a + b;
    let unique = deduplicated(all);
    let shown = merged(a, b);
    lemma_listing_order_sorts(unique);
    lemma_deduplicated_is_distinct(all);
    lemma_listing_order_keeps_distinct(unique);
    lemma_deduplicated_elements(all);
    lemma_listing_order_elements(unique);
    assert forall|i: int| 0 <= i < shown.len() implies a.contains(#[trigger] shown[i])
        || b.contains(shown[i]) by {
        let k = choose|k: int| 0 <= k < unique.len() && unique[k] == shown[i];
        let p = choose|p: int| 0 <= p < all.len() && all[p] == unique[k];
        if p < a.len() {
            assert(a[p] == shown[i]);
        } else {
            assert(b[p - a.len()] == shown[i]);
        }
    }
    assert forall|p: int| 0 <= p < all.len() implies lists_manifest(
        shown,
        (#[trigger] all[p]).manifest,
    ) by {
        lemma_deduplicated_lists_every_manifest(all, p);
        let k = choose|k: int|
            0 <= k < unique.len() && (#[trigger] unique[k]).manifest == all[p].manifest;
        let i = choose|i: int| 0 <= i < shown.len() && shown[i] == unique[k];
        assert(shown[i].manifest == all[p].manifest);
    }
    assert forall|i: int| 0 <= i < a.len() implies lists_manifest(
        shown,
        (#[trigger] a[i]).manifest,
    ) by {
        assert(all[i] == a[i]);
    }
    assert forall|i: int| 0 <= i < b.len() implies lists_manifest(
        shown,
        (#[trigger] b[i]).manifest,
    ) by {
        assert(all[a.len() + i] == b[i]);
    }
}

/// A descriptor of either listing whose manifest differs from every manifest
/// before it, the catalogue listing counted first, is an entry of the merge.
pub proof fn lemma_merged_keeps_distinct_manifest(
    a: Seq<DescriptorView>,
    b: Seq<DescriptorView>,
    j: int,
)
    requires
        0 <= j < (a + b).len(),
        forall|k: int| 0 <= k < j ==> (#[trigger] (a + b)[k]).manifest != (a + b)[j].manifest,
    ensures
        merged(a, b).contains((a + b)[j]),
{
    let all = a + b;
    lemma_deduplicated_keeps_first(all, j);
    let unique = deduplicated(all);
    let k = choose|k: int| 0 <= k < unique.len() && unique[k] == all[j];
    lemma_listing_order_elements(unique);
    assert(listing_order(unique).contains(unique[k]));
}

/// A catalogue entry and an installed entry with the same name and the same
/// version, but manifests that differ, are both entries of the merge, the
/// catalogue entry first.
pub proof fn lemma_same_name_and_version_both_listed(x: DescriptorView, y: DescriptorView)
    requires
        x.name == y.name,
        x.version == y.version,
        x.manifest != y.manifest,
    ensures
        merged(seq![x], seq![y]) == seq![x, y],
{
    let all = seq![x] + seq![y];
    let none = Seq::<DescriptorView>::empty();
    assert(all =~= seq![x, y]);
    assert(all.drop_last() =~= seq![x]);
    assert(seq![x].drop_last() =~= none);
    assert(deduplicated(none) =~= none);
    assert(!lists_manifest(none, x.manifest));
    assert(deduplicated(seq![x]) =~= seq![x]);
    assert(!lists_manifest(seq![x], y.manifest));
    assert(deduplicated(all) =~= seq![x, y]);
    assert(listing_order(none) =~= none);
    assert(is_insertion_point(none, x, 0));
    lemma_insertion_point_unique(none, x, 0);
    assert(none.insert(0, x) =~= seq![x]);
    assert(listing_order(seq![x]) =~= seq![x]);
    lemma_text_order_equal(y.name, x.name);
    crate::version::lemma_version_order_reflexive(x.version);
    assert(!precedes(y, x));
    assert(is_insertion_point(seq![x], y, 1));
    lemma_insertion_point_unique(seq![x], y, 1);
    assert(seq![x].insert(1, y) =~= seq![x, y]);
    assert(seq![x, y].drop_last() =~= seq![x]);
    assert(listing_order(seq![x, y]) =~= seq![x, y]);
}

/// Whether `a` comes strictly before `b` in listing order.
pub open spec fn precedes(a: DescriptorView, b: DescriptorView) -> bool {
    descriptor_order(a, b) == Order::Less
}

/// Whether `a` may stand directly before `b` in a listing: `b` does not come
/// strictly before `a`, or `a` comes strictly before `b`. Where the listing
/// order is a total order, this says that `a` is at most `b`.
pub open spec fn in_order(a: DescriptorView, b: DescriptorView) -> bool {
    !precedes(b, a) || precedes(a, b)
}

/// Whether each descriptor of the list may stand before its successor.
pub open spec fn is_ordered(list: Seq<DescriptorView>) -> bool {
    forall|i: int, j: int|
        0 <= i && j == i + 1 && j < list.len() ==> in_order(#[trigger] list[i], #[trigger] list[j])
}

proof fn lemma_views_insert(list: Seq<PluginDescriptor>, at: int, d: PluginDescriptor)
    requires
        0 <= at <= list.len(),
    ensures
        descriptor_views(list.insert(at, d)) == descriptor_views(list).insert(at, d@),
{
    assert(descriptor_views(list.insert(at, d)) =~= descriptor_views(list).insert(at, d@));
}

proof fn lemma_insert_keeps_order(list: Seq<DescriptorView>, at: int, d: DescriptorView)
    requires
        is_ordered(list),
        0 <= at <= list.len(),
        at > 0 ==> !precedes(d, list[at - 1]),
        at < list.len() ==> precedes(d, list[at]),
    ensures
        is_ordered(list.insert(at, d)),
{
    let next = list.insert(at, d);
    assert forall|i: int, j: int| 0 <= i && j == i + 1 && j < next.len() implies in_order(
        #[trigger] next[i],
        #[trigger] next[j],
    ) by {
        if j < at {
            assert(in_order(list[i], list[j]));
        } else if j == at {
            assert(next[i] == list[at - 1]);
        } else if i == at {
            assert(next[j] == list[at]);
        } else {
            assert(next[i] == list[i - 1]);
            assert(next[j] == list[j - 1]);
            assert(in_order(list[i - 1], list[j - 1]));
        }
    }
}

/// Whether `at` is the place of `d` in `list`: directly behind the last entry
/// that `d` does not strictly precede, so that `d` strictly precedes every
/// entry from `at` on.
pub open spec fn is_insertion_point(list: Seq<DescriptorView>, d: DescriptorView, at: int) -> bool {
    &&& 0 <= at <= list.len()
    &&& (at > 0 ==> !precedes(d, list[at - 1]))
    &&& forall|m: int| at <= m < list.len() ==> precedes(d, #[trigger] list[m])
}

/// The place of `d` in `list`.
pub open spec fn insertion_index(list: Seq<DescriptorView>, d: DescriptorView) -> int {
    choose|at: int| is_insertion_point(list, d, at)
}

/// The listing in the order in which it is shown: by name, then by version.
/// Each descriptor in turn is put in its place among those before it, so
/// descriptors that compare equal keep the order in which they came.
pub open spec fn listing_order(list: Seq<DescriptorView>) -> Seq<DescriptorView>
    decreases list.len(),
{
    if list.len() == 0 {
        Seq::empty()
    } else {
        let before = listing_order(list.drop_last());
        before.insert(insertion_index(before, list.last()), list.last())
    }
}

proof fn lemma_insertion_point_exists(list: Seq<DescriptorView>, d: DescriptorView, k: int)
    requires
        0 <= k <= list.len(),
        forall|m: int| k <= m < list.len() ==> precedes(d, #[trigger] list[m]),
    ensures
        exists|at: int| is_insertion_point(list, d, at),
    decreases k,
{
    if k == 0 || !precedes(d, list[k - 1]) {
        assert(is_insertion_point(list, d, k));
    } else {
        lemma_insertion_point_exists(list, d, k - 1);
    }
}

/// Every descriptor has exactly one place in a list.
pub proof fn lemma_insertion_point_unique(list: Seq<DescriptorView>, d: DescriptorView, at: int)
    requires
        is_insertion_point(list, d, at),
    ensures
        insertion_index(list, d) == at,
{
    let other = insertion_index(list, d);
    assert(is_insertion_point(list, d, other));
    if other < at {
        assert(precedes(d, list[at - 1]));
    } else if at < other {
        assert(precedes(d, list[other - 1]));
    }
}

/// The listing order holds the same descriptors as the listing, and each of
/// them may stand before its successor.
pub proof fn lemma_listing_order_sorts(list: Seq<DescriptorView>)
    ensures
        is_ordered(listing_order(list)),
        listing_order(list).to_multiset() == list.to_multiset(),
        listing_order(list).len() == list.len(),
    decreases list.len(),
{
    if list.len() == 0 {
        assert(list =~= Seq::<DescriptorView>::empty());
    } else {
        let rest = list.drop_last();
        let before = listing_order(rest);
        let d = list.last();
        lemma_listing_order_sorts(rest);
        lemma_insertion_point_exists(before, d, before.len() as int);
        let at = insertion_index(before, d);
        lemma_insert_keeps_order(before, at, d);
        to_multiset_insert(before, at, d);
        to_multiset_build(rest, d);
        assert(rest.push(d) =~= list);
    }
}

/// Finds the place of `item` in the list `sorted`.
fn insertion_point(sorted: &Vec<PluginDescriptor>, item: &PluginDescriptor) -> (at: usize)
    ensures
        is_insertion_point(descriptor_views(sorted@), item@, at as int),
{
    let mut at: usize = sorted.len();
    while at > 0
        invariant
            at <= sorted.len(),
            forall|m: int|
                at <= m < sorted.len() ==> precedes(item@, #[trigger] descriptor_views(sorted@)[m]),
        decreases at,
    {
        match item.compare(&sorted[at - 1]) {
            Order::Less => {
                at -= 1;
            },
            _ => {
                assert(!precedes(item@, descriptor_views(sorted@)[at - 1]));
                return at;
            },
        }
    }
    at
}

/// Sorts a listing by name, then by version. The result holds the same
/// descriptors, each of them may stand before its successor, and descriptors
/// that compare equal keep their order.
pub fn sort_plugins(plugins: Vec<PluginDescriptor>) -> (r: Vec<PluginDescriptor>)
    ensures
        descriptor_views(r@) == listing_order(descriptor_views(plugins@)),
        is_ordered(descriptor_views(r@)),
        descriptor_views(r@).to_multiset() == descriptor_views(plugins@).to_multiset(),
{
    let ghost all = plugins@;
    let mut out: Vec<PluginDescriptor> = Vec::new();
    assert(descriptor_views(out@) =~= listing_order(descriptor_views(all.take(0))));
    for item in it: plugins
        invariant
            it.seq() == all,
            descriptor_views(out@) == listing_order(descriptor_views(all.take(it.index() as int))),
    {
        let at = insertion_point(&out, &item);
        proof {
            lemma_views_insert(out@, at as int, item);
            lemma_insertion_point_unique(descriptor_views(out@), item@, at as int);
            lemma_views_take_next(all, it.index() as int);
        }
        out.insert(at, item);
    }
    proof {
        lemma_views_take_all(all);
        lemma_listing_order_sorts(descriptor_views(all));
    }
    out
}

/// The descriptors of `list` whose name contains `filter`, in their order.
pub open spec fn named_like(list: Seq<DescriptorView>, filter: Seq<char>) -> Seq<DescriptorView> {
    list.filter(|d: DescriptorView| text_contains(d.name, filter))
}

/// Keeps the descriptors whose name contains `filter`, in their order.
pub fn filter_by_name(plugins: Vec<PluginDescriptor>, filter: &str) -> (r: Vec<PluginDescriptor>)
    ensures
        descriptor_views(r@) == named_like(descriptor_views(plugins@), filter@),
{
    let ghost all = plugins@;
    let ghost wanted = |d: DescriptorView| text_contains(d.name, filter@);
    let mut out: Vec<PluginDescriptor> = Vec::new();
    assert(descriptor_views(all.take(0)) =~= Seq::<DescriptorView>::empty());
    assert(descriptor_views(out@) =~= Seq::<DescriptorView>::empty());
    for item in it: plugins
        invariant
            it.seq() == all,
            wanted == |d: DescriptorView| text_contains(d.name, filter@),
            descriptor_views(out@) == descriptor_views(all.take(it.index() as int)).filter(wanted),
    {
        proof {
            lemma_views_take_next(all, it.index() as int);
            lemma_views_push(out@, item);
            descriptor_views(all.take(it.index() as int)).lemma_filter_push(item@, wanted);
        }
        if contains_text(item.name.as_str(), filter) {
            out.push(item);
        }
    }
    proof {
        lemma_views_take_all(all);
    }
    out
}

/// In a listing where each descriptor may stand before its successor, the
/// names never go down in raw lexical order.
pub proof fn lemma_names_do_not_decrease(list: Seq<DescriptorView>, i: int, j: int)
    requires
        is_ordered(list),
        0 <= i <= j < list.len(),
    ensures
        text_order(list[i].name, list[j].name) != Order::Greater,
    decreases j - i,
{
    if i == j {
        lemma_text_order_equal(list[i].name, list[i].name);
    } else {
        lemma_names_do_not_decrease(list, i, j - 1);
        assert(in_order(list[j - 1], list[j]));
        lemma_text_order_mirror(list[j - 1].name, list[j].name);
        lemma_text_order_transitive(list[i].name, list[j - 1].name, list[j].name);
    }
}

proof fn lemma_last_kept(list: Seq<DescriptorView>, wanted: spec_fn(DescriptorView) -> bool)
    requires
        list.filter(wanted).len() > 0,
    ensures
        exists|i: int|
            0 <= i < list.len() && #[trigger] list[i] == list.filter(wanted).last() && wanted(
                list[i],
            ) && forall|m: int| i < m < list.len() ==> !wanted(#[trigger] list[m]),
    decreases list.len(),
{
    if list.len() == 0 {
        reveal(Seq::filter);
    } else {
        let rest = list.drop_last();
        let d = list.last();
        assert(rest.push(d) =~= list);
        rest.lemma_filter_push(d, wanted);
        if wanted(d) {
            assert(list[list.len() - 1] == list.filter(wanted).last());
        } else {
            lemma_last_kept(rest, wanted);
            let i = choose|i: int|
                0 <= i < rest.len() && #[trigger] rest[i] == rest.filter(wanted).last() && wanted(
                    rest[i],
                ) && forall|m: int| i < m < rest.len() ==> !wanted(#[trigger] rest[m]);
            assert(list[i] == rest[i]);
            assert forall|m: int| i < m < list.len() implies !wanted(#[trigger] list[m]) by {
                if m < rest.len() {
                    assert(list[m] == rest[m]);
                }
            }
        }
    }
}

/// Filtering by name keeps a listing in order: in what is left of a listing
/// where each descriptor may stand before its successor, each descriptor may
/// still stand before its successor.
pub proof fn lemma_filter_keeps_order(list: Seq<DescriptorView>, filter: Seq<char>)
    requires
        is_ordered(list),
    ensures
        is_ordered(named_like(list, filter)),
    decreases list.len(),
{
    let wanted = |d: DescriptorView| text_contains(d.name, filter);
    if list.len() == 0 {
        reveal(Seq::filter);
    } else {
        let rest = list.drop_last();
        let d = list.last();
        let last = list.len() - 1;
        assert(rest.push(d) =~= list);
        rest.lemma_filter_push(d, wanted);
        assert(is_ordered(rest)) by {
            assert forall|i: int, j: int| 0 <= i && j == i + 1 && j < rest.len() implies in_order(
                #[trigger] rest[i],
                #[trigger] rest[j],
            ) by {
                assert(in_order(list[i], list[j]));
            }
        }
        lemma_filter_keeps_order(rest, filter);
        let kept = rest.filter(wanted);
        if wanted(d) && kept.len() > 0 {
            lemma_last_kept(rest, wanted);
            let i = choose|i: int|
                0 <= i < rest.len() && #[trigger] rest[i] == kept.last() && wanted(rest[i])
                    && forall|m: int| i < m < rest.len() ==> !wanted(#[trigger] rest[m]);
            assert(list[i] == rest[i]);
            assert(in_order(kept.last(), d)) by {
                lemma_names_do_not_decrease(list, i, last);
                if text_order(list[i].name, d.name) == Order::Equal {
                    lemma_text_order_equal(list[i].name, d.name);
                    if i + 1 < last {
                        let m = i + 1;
                        assert(rest[m] == list[m]);
                        lemma_names_do_not_decrease(list, i, m);
                        lemma_names_do_not_decrease(list, m, last);
                        lemma_text_order_mirror(list[i].name, list[m].name);
                        lemma_text_order_equal(list[i].name, list[m].name);
                        assert(wanted(list[m]));
                    } else {
                        assert(in_order(list[i], list[last]));
                    }
                }
            }
            let next = kept.push(d);
            assert forall|a: int, b: int| 0 <= a && b == a + 1 && b < next.len() implies in_order(
                #[trigger] next[a],
                #[trigger] next[b],
            ) by {
                if b < kept.len() {
                    assert(in_order(kept[a], kept[b]));
                }
            }
        } else if wanted(d) {
            assert(kept.push(d).len() == 1);
        }
    }
}

/// What a filtered listing holds: descriptors of the listing, and only those
/// whose name contains the filter's text, each as often as the listing holds
/// it.
pub proof fn lemma_filter_keeps_matching_names(list: Seq<DescriptorView>, filter: Seq<char>)
    ensures
        forall|i: int|
            0 <= i < named_like(list, filter).len() ==> text_contains(
                (#[trigger] named_like(list, filter)[i]).name,
                filter,
            ) && list.contains(named_like(list, filter)[i]),
        forall|i: int|
            0 <= i < list.len() && text_contains((#[trigger] list[i]).name, filter)
                ==> named_like(list, filter).contains(list[i]),
{
    let wanted = |d: DescriptorView| text_contains(d.name, filter);
    broadcast use vstd::seq_lib::group_filter_ensures;

    assert forall|i: int| 0 <= i < named_like(list, filter).len() implies text_contains(
        (#[trigger] named_like(list, filter)[i]).name,
        filter,
    ) && list.contains(named_like(list, filter)[i]) by {
        list.lemma_filter_pred(wanted, i);
        list.lemma_filter_contains_rev(wanted, list.filter(wanted)[i]);
    }
    assert forall|i: int|
        0 <= i < list.len() && text_contains((#[trigger] list[i]).name, filter) implies named_like(
        list,
        filter,
    ).contains(list[i]) by {
        list.lemma_filter_contains(wanted, i);
    }
}

/// Whether the catalogue lists the very manifest of `d` as compatible.
pub open spec fn listed_compatible(catalogue: Seq<DescriptorView>, d: DescriptorView) -> bool {
    exists|i: int|
        0 <= i < catalogue.len() && (#[trigger] catalogue[i]).manifest == d.manifest
            && catalogue[i].compatibility == CompatibilityView::Compatible
}

/// Tests whether the catalogue lists the very manifest of `d` as compatible.
pub fn is_listed_compatible(catalogue: &Vec<PluginDescriptor>, d: &PluginDescriptor) -> (b: bool)
    ensures
        b == listed_compatible(descriptor_views(catalogue@), d@),
{
    let mut i: usize = 0;
    while i < catalogue.len()
        invariant
            i <= catalogue.len(),
            forall|j: int|
                0 <= j < i ==> !((#[trigger] descriptor_views(catalogue@)[j]).manifest == d@.manifest
                    && descriptor_views(catalogue@)[j].compatibility
                    == CompatibilityView::Compatible),
        decreases catalogue.len() - i,
    {
        if catalogue[i].compatibility.is_compatible() && catalogue[i].manifest.same_as(&d.manifest) {
            assert(descriptor_views(catalogue@)[i as int].manifest == d@.manifest);
            return true;
        }
        i += 1;
    }
    false
}

/// The installed descriptors that the catalogue lists, manifest for manifest,
/// as compatible: the ones that an upgrade may look at.
pub open spec fn in_catalogue(
    installed: Seq<DescriptorView>,
    catalogue: Seq<DescriptorView>,
) -> Seq<DescriptorView> {
    installed.filter(|d: DescriptorView| listed_compatible(catalogue, d))
}

/// Keeps the installed descriptors whose very manifest the catalogue lists as
/// compatible.
pub fn installed_in_catalogue(
    installed: Vec<PluginDescriptor>,
    catalogue: &Vec<PluginDescriptor>,
) -> (r: Vec<PluginDescriptor>)
    ensures
        descriptor_views(r@) == in_catalogue(
            descriptor_views(installed@),
            descriptor_views(catalogue@),
        ),
{
    let ghost all = installed@;
    let ghost wanted = |d: DescriptorView| listed_compatible(descriptor_views(catalogue@), d);
    let mut out: Vec<PluginDescriptor> = Vec::new();
    assert(descriptor_views(all.take(0)) =~= Seq::<DescriptorView>::empty());
    assert(descriptor_views(out@) =~= Seq::<DescriptorView>::empty());
    for item in it: installed
        invariant
            it.seq() == all,
            wanted == |d: DescriptorView| listed_compatible(descriptor_views(catalogue@), d),
            descriptor_views(out@) == descriptor_views(all.take(it.index() as int)).filter(wanted),
    {
        proof {
            lemma_views_take_next(all, it.index() as int);
            lemma_views_push(out@, item);
            descriptor_views(all.take(it.index() as int)).lemma_filter_push(item@, wanted);
        }
        if is_listed_compatible(catalogue, &item) {
            out.push(item);
        }
    }
    proof {
        lemma_views_take_all(all);
    }
    out
}

/// The listing of the installed manifests: each described as installed.
pub open spec fn installed_listing(
    installed: Seq<ManifestView>,
    host: Seq<char>,
    target: Target,
) -> Seq<DescriptorView> {
    Seq::new(installed.len(), |i: int| described(installed[i], true, host, target))
}

/// The listing of the catalogue: each manifest described, and marked as
/// installed where that very manifest is among the installed ones.
pub open spec fn catalogue_listing(
    catalogue: Seq<ManifestView>,
    installed: Seq<ManifestView>,
    host: Seq<char>,
    target: Target,
) -> Seq<DescriptorView> {
    Seq::new(
        catalogue.len(),
        |i: int| described(catalogue[i], installed.contains(catalogue[i]), host, target),
    )
}

/// Describes the installed manifests.
pub fn list_installed_plugins(
    installed: &Vec<PluginManifest>,
    host_version: &str,
    target: Target,
) -> (r: Vec<PluginDescriptor>)
    ensures
        descriptor_views(r@) == installed_listing(manifest_views(installed@), host_version@, target),
{
    let mut out: Vec<PluginDescriptor> = Vec::new();
    let mut i: usize = 0;
    while i < installed.len()
        invariant
            i <= installed.len(),
            out.len() == i,
            forall|j: int|
                0 <= j < i ==> (#[trigger] out@[j])@ == described(
                    installed@[j]@,
                    true,
                    host_version@,
                    target,
                ),
        decreases installed.len() - i,
    {
        out.push(PluginDescriptor::describe(installed[i].clone(), true, host_version, target));
        i += 1;
    }
    assert(descriptor_views(out@) =~= installed_listing(
        manifest_views(installed@),
        host_version@,
        target,
    ));
    out
}

/// Describes the manifests of the catalogue, given the installed ones.
pub fn list_catalogue_plugins(
    catalogue: &Vec<PluginManifest>,
    installed: &Vec<PluginManifest>,
    host_version: &str,
    target: Target,
) -> (r: Vec<PluginDescriptor>)
    ensures
        descriptor_views(r@) == catalogue_listing(
            manifest_views(catalogue@),
            manifest_views(installed@),
            host_version@,
            target,
        ),
{
    let mut out: Vec<PluginDescriptor> = Vec::new();
    let mut i: usize = 0;
    while i < catalogue.len()
        invariant
            i <= catalogue.len(),
            out.len() == i,
            forall|j: int|
                0 <= j < i ==> (#[trigger] out@[j])@ == described(
                    catalogue@[j]@,
                    manifest_views(installed@).contains(catalogue@[j]@),
                    host_version@,
                    target,
                ),
        decreases catalogue.len() - i,
    {
        let is_installed = catalogue[i].is_installed_in(installed);
        proof {
            let views = manifest_views(installed@);
            let m = catalogue@[i as int]@;
            if is_installed {
                let k = choose|k: int| 0 <= k < installed.len() && #[trigger] installed@[k]@ == m;
                assert(views[k] == m);
            } else if views.contains(m) {
                let k = choose|k: int| 0 <= k < views.len() && views[k] == m;
                assert(installed@[k]@ == m);
            }
        }
        out.push(PluginDescriptor::describe(catalogue[i].clone(), is_installed, host_version, target));
        i += 1;
    }
    assert(descriptor_views(out@) =~= catalogue_listing(
        manifest_views(catalogue@),
        manifest_views(installed@),
        host_version@,
        target,
    ));
    out
}

/// Describes the catalogue and the installed manifests as one listing: the
/// catalogue's descriptors, then the installed ones whose manifest the
/// listing does not hold yet.
pub fn list_catalogue_and_installed_plugins(
    catalogue: &Vec<PluginManifest>,
    installed: &Vec<PluginManifest>,
    host_version: &str,
    target: Target,
) -> (r: Vec<PluginDescriptor>)
    ensures
        descriptor_views(r@) == merged(
            catalogue_listing(
                manifest_views(catalogue@),
                manifest_views(installed@),
                host_version@,
                target,
            ),
            installed_listing(manifest_views(installed@), host_version@, target),
        ),
{
    let from_catalogue = list_catalogue_plugins(catalogue, installed, host_version, target);
    let from_store = list_installed_plugins(installed, host_version, target);
    merge_plugin_lists(from_catalogue, from_store)
}

} // verus!
