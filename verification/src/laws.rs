//! What holds of entities and collections whatever they are used for.
//!
//! Each law is a proof about the mathematical values of the crate, those in
//! which the contracts of its functions are stated.

use vstd::prelude::*;
use crate::collection::CollectionView;
use crate::entity::EntityView;

verus! {

/// The days on which the sightings of `seen` were made.
pub open spec fn days_of(seen: Seq<EntityView>) -> Set<int> {
    Set::new(|day: int| exists|i: int| 0 <= i < seen.len() && (#[trigger] seen[i]).created_at == day)
}

/// The names of all the sightings of `seen`.
pub open spec fn names_of(seen: Seq<EntityView>) -> Set<Seq<char>> {
    Set::new(
        |name: Seq<char>| exists|i: int| 0 <= i < seen.len() && (#[trigger] seen[i]).names.contains(name),
    )
}

/// The labels of all the sightings of `seen`.
pub open spec fn labels_of(seen: Seq<EntityView>) -> Set<Seq<char>> {
    Set::new(
        |label: Seq<char>|
            exists|i: int| 0 <= i < seen.len() && (#[trigger] seen[i]).labels.contains(label),
    )
}

/// Whether `day` is the earliest of `days`.
pub open spec fn is_earliest(day: int, days: Set<int>) -> bool {
    days.contains(day) && forall|other: int| days.contains(other) ==> day <= other
}

/// An entity into which sightings were folded knows every day on which
/// the page was seen, by it or by one of the sightings: `created_at` is the
/// earliest of them, `updated_at` holds all the others, and the names and
/// labels are those of the entity and of all the sightings. Its URL is
/// unchanged.
pub proof fn law_merge_all(first: EntityView, seen: Seq<EntityView>)
    requires
        first.wf(),
    ensures
        ({
            let last = first.merge_all(seen);
            let days = first.dates().union(days_of(seen));
            &&& last.url == first.url
            &&& is_earliest(last.created_at, days)
            &&& last.updated_at == days.remove(last.created_at)
            &&& last.names == first.names.union(names_of(seen))
            &&& last.labels == first.labels.union(labels_of(seen))
            &&& (forall|i: int| 0 <= i < seen.len() ==> (#[trigger] seen[i]).wf()) ==> last.wf()
        }),
    decreases seen.len(),
{
    let last = first.merge_all(seen);
    let days = first.dates().union(days_of(seen));
    if seen.len() == 0 {
        assert(days =~= first.dates());
        assert(last.updated_at =~= days.remove(last.created_at));
        assert(last.names =~= first.names.union(names_of(seen)));
        assert(last.labels =~= first.labels.union(labels_of(seen)));
    } else {
        let front = seen.drop_last();
        let one = seen.last();
        let mid = first.merge_all(front);
        law_merge_all(first, front);
        let mid_days = first.dates().union(days_of(front));
        assert(days =~= mid_days.insert(one.created_at)) by {
            assert forall|day: int| days.contains(day) implies mid_days.insert(
                one.created_at,
            ).contains(day) by {
                if days_of(seen).contains(day) {
                    let i = choose|i: int| 0 <= i < seen.len() && (#[trigger] seen[i]).created_at == day;
                    if i < front.len() {
                        assert(front[i].created_at == day);
                    }
                }
            }
            assert forall|day: int| mid_days.insert(one.created_at).contains(day) implies days.contains(
                day,
            ) by {
                if day == one.created_at {
                    assert(seen[seen.len() - 1].created_at == day);
                } else if days_of(front).contains(day) {
                    let i = choose|i: int|
                        0 <= i < front.len() && (#[trigger] front[i]).created_at == day;
                    assert(seen[i].created_at == day);
                }
            }
        }
        assert(mid.dates() =~= mid_days);
        assert(last.updated_at =~= days.remove(last.created_at));
        assert(last.names =~= first.names.union(names_of(seen))) by {
            assert forall|name: Seq<char>| names_of(seen).contains(name) implies names_of(
                front,
            ).contains(name) || one.names.contains(name) by {
                let i = choose|i: int| 0 <= i < seen.len() && (#[trigger] seen[i]).names.contains(name);
                if i < front.len() {
                    assert(front[i].names.contains(name));
                }
            }
            assert forall|name: Seq<char>|
                names_of(front).contains(name) || one.names.contains(name) implies names_of(
                seen,
            ).contains(name) by {
                if one.names.contains(name) {
                    assert(seen[seen.len() - 1].names.contains(name));
                } else {
                    let i = choose|i: int|
                        0 <= i < front.len() && (#[trigger] front[i]).names.contains(name);
                    assert(seen[i].names.contains(name));
                }
            }
        }
        assert(last.labels =~= first.labels.union(labels_of(seen))) by {
            assert forall|label: Seq<char>| labels_of(seen).contains(label) implies labels_of(
                front,
            ).contains(label) || one.labels.contains(label) by {
                let i = choose|i: int|
                    0 <= i < seen.len() && (#[trigger] seen[i]).labels.contains(label);
                if i < front.len() {
                    assert(front[i].labels.contains(label));
                }
            }
            assert forall|label: Seq<char>|
                labels_of(front).contains(label) || one.labels.contains(label) implies labels_of(
                seen,
            ).contains(label) by {
                if one.labels.contains(label) {
                    assert(seen[seen.len() - 1].labels.contains(label));
                } else {
                    let i = choose|i: int|
                        0 <= i < front.len() && (#[trigger] front[i]).labels.contains(label);
                    assert(seen[i].labels.contains(label));
                }
            }
        }
        if forall|i: int| 0 <= i < seen.len() ==> (#[trigger] seen[i]).wf() {
            assert forall|i: int| 0 <= i < front.len() implies (#[trigger] front[i]).wf() by {
                assert(seen[i].wf());
            }
            assert(seen[seen.len() - 1].wf());
            mid.lemma_merge_wf(one);
        }
    }
}

/// Folding sightings in, each of which saw the page on one day, into the
/// first of them gives an entity whose `created_at` is the earliest of their
/// days, whose `updated_at` holds all their other days, and whose names and
/// labels are those of all of them.
pub proof fn law_merge_sightings(seen: Seq<EntityView>)
    requires
        seen.len() > 0,
        seen[0].wf(),
        seen[0].updated_at == Set::<int>::empty(),
    ensures
        ({
            let last = seen[0].merge_all(seen.drop_first());
            &&& is_earliest(last.created_at, days_of(seen))
            &&& last.updated_at == days_of(seen).remove(last.created_at)
            &&& last.names == names_of(seen)
            &&& last.labels == labels_of(seen)
        }),
{
    let first = seen[0];
    let rest = seen.drop_first();
    let last = first.merge_all(rest);
    law_merge_all(first, rest);
    assert(first.dates().union(days_of(rest)) =~= days_of(seen)) by {
        assert forall|day: int| days_of(seen).contains(day) implies first.dates().union(
            days_of(rest),
        ).contains(day) by {
            let i = choose|i: int| 0 <= i < seen.len() && (#[trigger] seen[i]).created_at == day;
            if i > 0 {
                assert(rest[i - 1].created_at == day);
            }
        }
        assert forall|day: int| first.dates().union(days_of(rest)).contains(day) implies days_of(
            seen,
        ).contains(day) by {
            if day == first.created_at {
                assert(seen[0].created_at == day);
            } else {
                let i = choose|i: int| 0 <= i < rest.len() && (#[trigger] rest[i]).created_at == day;
                assert(seen[i + 1].created_at == day);
            }
        }
    }
    assert(first.names.union(names_of(rest)) =~= names_of(seen)) by {
        assert forall|name: Seq<char>| names_of(seen).contains(name) implies first.names.union(
            names_of(rest),
        ).contains(name) by {
            let i = choose|i: int| 0 <= i < seen.len() && (#[trigger] seen[i]).names.contains(name);
            if i > 0 {
                assert(rest[i - 1].names.contains(name));
            }
        }
        assert forall|name: Seq<char>| first.names.union(names_of(rest)).contains(name) implies names_of(
            seen,
        ).contains(name) by {
            if first.names.contains(name) {
                assert(seen[0].names.contains(name));
            } else {
                let i = choose|i: int| 0 <= i < rest.len() && (#[trigger] rest[i]).names.contains(name);
                assert(seen[i + 1].names.contains(name));
            }
        }
    }
    assert(first.labels.union(labels_of(rest)) =~= labels_of(seen)) by {
        assert forall|label: Seq<char>| labels_of(seen).contains(label) implies first.labels.union(
            labels_of(rest),
        ).contains(label) by {
            let i = choose|i: int| 0 <= i < seen.len() && (#[trigger] seen[i]).labels.contains(label);
            if i > 0 {
                assert(rest[i - 1].labels.contains(label));
            }
        }
        assert forall|label: Seq<char>|
            first.labels.union(labels_of(rest)).contains(label) implies labels_of(seen).contains(
            label,
        ) by {
            if first.labels.contains(label) {
                assert(seen[0].labels.contains(label));
            } else {
                let i = choose|i: int|
                    0 <= i < rest.len() && (#[trigger] rest[i]).labels.contains(label);
                assert(seen[i + 1].labels.contains(label));
            }
        }
    }
}

/// After an entity was added, its URL is known under the identifier that
/// the entity was given. The same holds after an entity was merged, whether
/// its URL was known before or not; and where it was not, the merge is an
/// addition.
pub proof fn law_added_is_found(collection: CollectionView, entity: EntityView)
    ensures
        collection.add(entity).urls.contains_key(entity.url),
        collection.add(entity).id(entity.url) == Some(collection.nodes.len()),
        collection.merge(entity).urls.contains_key(entity.url),
        collection.merge(entity).id(entity.url) == Some(collection.merge_id(entity)),
        !collection.urls.contains_key(entity.url) ==> collection.merge(entity) == collection.add(
            entity,
        ) && collection.merge_id(entity) == collection.nodes.len(),
{
}

/// Merging an entity whose URL is known leaves the number of entities as
/// it is, and returns the identifier under which the URL is known.
pub proof fn law_merge_known(collection: CollectionView, entity: EntityView)
    requires
        collection.wf(),
        collection.urls.contains_key(entity.url),
    ensures
        collection.merge(entity).nodes.len() == collection.nodes.len(),
        collection.merge_id(entity) == collection.urls[entity.url],
        collection.merge(entity).urls == collection.urls,
        collection.merge(entity).edges == collection.edges,
{
}

/// Adding a link twice is adding it once, and the list of the links that
/// leave `from` then holds `to` exactly once.
pub proof fn law_add_edge_twice(collection: CollectionView, from: nat, to: nat)
    requires
        collection.wf(),
        collection.has(from),
        collection.has(to),
    ensures
        ({
            let once = collection.add_edge(from, to);
            let twice = once.add_edge(from, to);
            let targets = twice.edges[from as int];
            &&& twice == once
            &&& exists|k: int|
                0 <= k < targets.len() && #[trigger] targets[k] == to && forall|other: int|
                    0 <= other < targets.len() && targets[other] == to ==> other == k
        }),
{
    let once = collection.add_edge(from, to);
    let twice = once.add_edge(from, to);
    let before = collection.edges[from as int];
    let targets = once.edges[from as int];
    collection.lemma_add_edge_wf(from, to);
    if before.contains(to) {
        assert(targets == before);
    } else {
        assert(targets[before.len() as int] == to);
    }
    assert(targets.contains(to));
    assert(twice.edges =~= once.edges);
    let k = choose|k: int| 0 <= k < targets.len() && targets[k] == to;
    assert(targets[k] == to);
}

/// Whether `after` holds everything that `before` holds, where `before`
/// holds it: every entity of `before` is at its position and has its URL,
/// every URL known to `before` is known under the same identifier, and the
/// links of `before` are there.
pub open spec fn keeps(before: CollectionView, after: CollectionView) -> bool {
    &&& before.nodes.len() <= after.nodes.len()
    &&& forall|i: int|
        0 <= i < before.nodes.len() ==> (#[trigger] after.nodes[i]).url == before.nodes[i].url
    &&& forall|i: int| 0 <= i < before.edges.len() ==> (#[trigger] after.edges[i]) == before.edges[i]
    &&& forall|url: Seq<char>| #[trigger]
        before.urls.contains_key(url) ==> after.urls.contains_key(url) && after.urls[url]
            == before.urls[url]
}

/// Merging keeps a collection well formed and moves nothing: the
/// identifiers it has handed out name the entities they named, with the
/// URLs they had.
pub proof fn law_merge_keeps(collection: CollectionView, entity: EntityView)
    requires
        collection.wf(),
        entity.wf(),
    ensures
        collection.merge(entity).wf(),
        keeps(collection, collection.merge(entity)),
{
    collection.lemma_merge_wf(entity);
}

/// Merging any entities, one after another, keeps a collection well formed
/// and moves nothing.
pub proof fn law_merge_all_keeps(collection: CollectionView, seen: Seq<EntityView>)
    requires
        collection.wf(),
        forall|i: int| 0 <= i < seen.len() ==> (#[trigger] seen[i]).wf(),
    ensures
        collection.merge_all(seen).wf(),
        keeps(collection, collection.merge_all(seen)),
    decreases seen.len(),
{
    if seen.len() > 0 {
        let front = seen.drop_last();
        assert forall|i: int| 0 <= i < front.len() implies (#[trigger] front[i]).wf() by {
            assert(seen[i].wf());
        }
        assert(seen[seen.len() - 1].wf());
        law_merge_all_keeps(collection, front);
        law_merge_keeps(collection.merge_all(front), seen.last());
    }
}

/// Adding an entity moves nothing either, but for the URL of the entity
/// where it was known: that URL is known under the new identifier from then
/// on. Every entity stays as it is, at its position, with its links.
pub proof fn law_add_keeps(collection: CollectionView, entity: EntityView)
    requires
        collection.wf(),
        entity.wf(),
    ensures
        collection.add(entity).wf(),
        !collection.urls.contains_key(entity.url) ==> keeps(collection, collection.add(entity)),
        forall|i: int|
            0 <= i < collection.nodes.len() ==> (#[trigger] collection.add(entity).nodes[i])
                == collection.nodes[i] && collection.add(entity).edges[i] == collection.edges[i],
        forall|url: Seq<char>| #[trigger]
            collection.urls.contains_key(url) && url != entity.url ==> collection.add(entity).id(url)
                == collection.id(url),
{
    collection.lemma_add_wf(entity);
}

/// Adding a link keeps a collection well formed and moves nothing: every
/// entity and every known URL stays as it is, and every link that was there
/// is there, at its place in its list.
pub proof fn law_add_edge_keeps(collection: CollectionView, from: nat, to: nat)
    requires
        collection.wf(),
        collection.has(from),
        collection.has(to),
    ensures
        ({
            let after = collection.add_edge(from, to);
            &&& after.wf()
            &&& after.nodes == collection.nodes
            &&& after.urls == collection.urls
            &&& after.edges.len() == collection.edges.len()
            &&& after.edges[from as int].contains(to)
            &&& forall|i: int|
                0 <= i < collection.edges.len() && i != from ==> (#[trigger] after.edges[i])
                    == collection.edges[i]
            &&& forall|k: int|
                0 <= k < collection.edges[from as int].len() ==> (
                #[trigger] after.edges[from as int][k]) == collection.edges[from as int][k]
        }),
{
    let after = collection.add_edge(from, to);
    let before = collection.edges[from as int];
    collection.lemma_add_edge_wf(from, to);
    if !before.contains(to) {
        assert(after.edges[from as int][before.len() as int] == to);
    }
}

/// One call that hands an entity to a collection.
pub enum Call {
    /// The entity is added.
    Add(EntityView),
    /// The entity is merged.
    Merge(EntityView),
}

impl Call {
    /// The entity that the call hands over.
    pub open spec fn entity(self) -> EntityView {
        match self {
            Call::Add(entity) => entity,
            Call::Merge(entity) => entity,
        }
    }

    /// Whether the call makes a new entity of `collection`: an addition
    /// always does, a merge where the URL is unknown.
    pub open spec fn makes_new(self, collection: CollectionView) -> bool {
        match self {
            Call::Add(_) => true,
            Call::Merge(entity) => !collection.urls.contains_key(entity.url),
        }
    }

    /// The identifier that the call returns.
    pub open spec fn id(self, collection: CollectionView) -> nat {
        match self {
            Call::Add(_) => collection.nodes.len(),
            Call::Merge(entity) => collection.merge_id(entity),
        }
    }

    /// The collection after the call.
    pub open spec fn after(self, collection: CollectionView) -> CollectionView {
        match self {
            Call::Add(entity) => collection.add(entity),
            Call::Merge(entity) => collection.merge(entity),
        }
    }
}

/// The collection after `calls`, one after another.
pub open spec fn after_calls(collection: CollectionView, calls: Seq<Call>) -> CollectionView
    decreases calls.len(),
{
    if calls.len() == 0 {
        collection
    } else {
        calls.last().after(after_calls(collection, calls.drop_last()))
    }
}

/// The number of `calls` that make a new entity.
pub open spec fn new_entities(collection: CollectionView, calls: Seq<Call>) -> nat
    decreases calls.len(),
{
    if calls.len() == 0 {
        0
    } else {
        let made = new_entities(collection, calls.drop_last());
        if calls.last().makes_new(after_calls(collection, calls.drop_last())) {
            made + 1
        } else {
            made
        }
    }
}

/// Additions and merges, in whatever order, keep a collection well formed
/// and every entity at its position, with its URL and its links. The
/// collection grows by the number of calls that make a new entity.
pub proof fn law_calls_keep(collection: CollectionView, calls: Seq<Call>)
    requires
        collection.wf(),
        forall|i: int| 0 <= i < calls.len() ==> (#[trigger] calls[i]).entity().wf(),
    ensures
        ({
            let after = after_calls(collection, calls);
            &&& after.wf()
            &&& after.nodes.len() == collection.nodes.len() + new_entities(collection, calls)
            &&& forall|i: int|
                0 <= i < collection.nodes.len() ==> (#[trigger] after.nodes[i]).url
                    == collection.nodes[i].url && after.edges[i] == collection.edges[i]
        }),
    decreases calls.len(),
{
    if calls.len() > 0 {
        let front = calls.drop_last();
        let mid = after_calls(collection, front);
        assert forall|i: int| 0 <= i < front.len() implies (#[trigger] front[i]).entity().wf() by {
            assert(calls[i].entity().wf());
        }
        assert(calls[calls.len() - 1].entity().wf());
        law_calls_keep(collection, front);
        match calls.last() {
            Call::Add(entity) => {
                law_add_keeps(mid, entity);
            },
            Call::Merge(entity) => {
                law_merge_keeps(mid, entity);
            },
        }
    }
}

/// The identifiers of new entities count up from the number of entities:
/// a call that makes a new entity returns the number of entities that the
/// collection had at first, plus the number of earlier calls that made one.
/// In a collection that was empty these identifiers are 0, 1, 2 and so on,
/// in the order of the calls. Any other call returns an identifier that was
/// returned before, or that the collection had at first.
pub proof fn law_new_ids_count_up(collection: CollectionView, calls: Seq<Call>, k: int)
    requires
        collection.wf(),
        forall|i: int| 0 <= i < calls.len() ==> (#[trigger] calls[i]).entity().wf(),
        0 <= k < calls.len(),
    ensures
        ({
            let before = after_calls(collection, calls.take(k));
            let made = new_entities(collection, calls.take(k));
            if calls[k].makes_new(before) {
                calls[k].id(before) == collection.nodes.len() + made
            } else {
                calls[k].id(before) < collection.nodes.len() + made
            }
        }),
{
    let earlier = calls.take(k);
    assert forall|i: int| 0 <= i < earlier.len() implies (#[trigger] earlier[i]).entity().wf() by {
        assert(calls[i].entity().wf());
    }
    law_calls_keep(collection, earlier);
}

/// Where sightings of one URL are merged one after another, one entity
/// holds them all, under the identifier that the first merge returns: where
/// the URL was known, the entity that had it, with all the sightings folded
/// in; where it was not, the first sighting, with the others folded in. The
/// number of entities changes with the first merge at most.
pub proof fn law_merge_one_url(collection: CollectionView, seen: Seq<EntityView>)
    requires
        collection.wf(),
        seen.len() > 0,
        forall|i: int| 0 <= i < seen.len() ==> (#[trigger] seen[i]).wf(),
        forall|i: int| 0 <= i < seen.len() ==> (#[trigger] seen[i]).url == seen[0].url,
    ensures
        ({
            let after = collection.merge_all(seen);
            let id = collection.merge_id(seen[0]);
            &&& after.wf()
            &&& after.id(seen[0].url) == Some(id)
            &&& after.nodes.len() == collection.merge(seen[0]).nodes.len()
            &&& after.nodes[id as int] == if collection.urls.contains_key(seen[0].url) {
                collection.nodes[id as int].merge_all(seen)
            } else {
                seen[0].merge_all(seen.drop_first())
            }
        }),
    decreases seen.len(),
{
    let id = collection.merge_id(seen[0]);
    collection.lemma_merge_wf(seen[0]);
    if seen.len() == 1 {
        assert(seen.drop_last() =~= Seq::empty());
        assert(collection.merge_all(seen.drop_last()) == collection);
        assert(seen.drop_first() =~= Seq::empty());
        assert(collection.nodes[id as int].merge_all(seen.drop_last()) == collection.nodes[id as int]);
    } else {
        let front = seen.drop_last();
        let one = seen.last();
        let mid = collection.merge_all(front);
        assert forall|i: int| 0 <= i < front.len() implies (#[trigger] front[i]).wf() && front[i].url
            == front[0].url by {
            assert(seen[i].wf());
            assert(seen[0].url == seen[i].url);
        }
        law_merge_one_url(collection, front);
        assert(one == seen[seen.len() - 1]);
        assert(seen.drop_first().drop_last() =~= front.drop_first());
        assert(seen.drop_first().last() == one);
        mid.lemma_merge_wf(one);
    }
}

/// Where sightings of one URL that the collection does not know, each of
/// which saw the page on one day, are merged one after another, the
/// collection gets one new entity. Its `created_at` is the earliest of the
/// days of the sightings, its `updated_at` holds all their other days, and
/// its names and labels are those of all the sightings.
pub proof fn law_merge_sightings_of_new_url(collection: CollectionView, seen: Seq<EntityView>)
    requires
        collection.wf(),
        seen.len() > 0,
        forall|i: int| 0 <= i < seen.len() ==> (#[trigger] seen[i]).wf(),
        forall|i: int| 0 <= i < seen.len() ==> (#[trigger] seen[i]).url == seen[0].url,
        !collection.urls.contains_key(seen[0].url),
        seen[0].updated_at == Set::<int>::empty(),
    ensures
        ({
            let after = collection.merge_all(seen);
            let entity = after.nodes[collection.nodes.len() as int];
            &&& after.nodes.len() == collection.nodes.len() + 1
            &&& after.id(seen[0].url) == Some(collection.nodes.len())
            &&& entity.url == seen[0].url
            &&& is_earliest(entity.created_at, days_of(seen))
            &&& entity.updated_at == days_of(seen).remove(entity.created_at)
            &&& entity.names == names_of(seen)
            &&& entity.labels == labels_of(seen)
        }),
{
    law_merge_one_url(collection, seen);
    law_merge_sightings(seen);
    law_merge_all(seen[0], seen.drop_first());
}

/// Merging keeps the URLs of a collection distinct, and so does adding an
/// entity with an unknown URL. While they are distinct, the URL of each
/// entity is known under the identifier of that entity.
pub proof fn law_distinct_urls(collection: CollectionView, entity: EntityView)
    requires
        collection.wf(),
        collection.distinct_urls(),
    ensures
        collection.merge(entity).distinct_urls(),
        !collection.urls.contains_key(entity.url) ==> collection.add(entity).distinct_urls(),
        forall|i: int|
            0 <= i < collection.nodes.len() ==> collection.id((#[trigger] collection.nodes[i]).url)
                == Some(i as nat),
{
    collection.lemma_merge_distinct(entity);
    if !collection.urls.contains_key(entity.url) {
        collection.lemma_add_distinct(entity);
    }
    assert forall|i: int| 0 <= i < collection.nodes.len() implies collection.id(
        (#[trigger] collection.nodes[i]).url,
    ) == Some(i as nat) by {
        collection.lemma_distinct(i as nat);
    }
}

} // verus!
