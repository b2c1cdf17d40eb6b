//! The collection: entities, the links between them, and the index of
//! their URLs.

use vstd::prelude::*;
use vstd::hash_map::StringHashMap;
use crate::entity::{Entity, EntityView};
use crate::id::{positions, Id};
use crate::set::with_item;
use crate::text::PageUrl;

verus! {

/// Mapping a function over a sequence after one element was replaced is
/// replacing the element's image in the mapped sequence.
broadcast proof fn lemma_update_map_values<A, B>(seq: Seq<A>, at: int, item: A, f: spec_fn(A) -> B)
    requires
        0 <= at < seq.len(),
    ensures
        #[trigger] seq.update(at, item).map_values(f) == seq.map_values(f).update(at, f(item)),
{
    assert(seq.update(at, item).map_values(f) =~= seq.map_values(f).update(at, f(item)));
}

/// The targets of the links that leave one entity.
pub type Edges = Vec<Id>;

/// The mathematical value of a [`Collection`].
pub struct CollectionView {
    /// The entities; the identifier of an entity is its position here.
    pub nodes: Seq<EntityView>,
    /// For each entity, the positions of the entities it links to, in the
    /// order in which the links were first added.
    pub edges: Seq<Seq<nat>>,
    /// The position under which each URL is known.
    pub urls: Map<Seq<char>, nat>,
}

impl CollectionView {
    /// The collection without entities.
    pub open spec fn empty() -> CollectionView {
        CollectionView { nodes: Seq::empty(), edges: Seq::empty(), urls: Map::empty() }
    }

    /// Whether `id` is the position of an entity of the collection.
    pub open spec fn has(self, id: nat) -> bool {
        id < self.nodes.len()
    }

    /// Whether an entity of the collection has the URL `url`.
    pub open spec fn holds(self, url: Seq<char>) -> bool {
        exists|i: int| 0 <= i < self.nodes.len() && (#[trigger] self.nodes[i]).url == url
    }

    /// The position under which `url` is known, if it is.
    pub open spec fn id(self, url: Seq<char>) -> Option<nat> {
        if self.urls.contains_key(url) {
            Some(self.urls[url])
        } else {
            None
        }
    }

    /// The value is that of a collection:
    /// - every entity has its list of links, and is well formed;
    /// - a list of links names entities of the collection, none twice;
    /// - the URL of every entity is known, and a URL is known under the
    ///   position of an entity that has it.
    pub open spec fn wf(self) -> bool {
        &&& self.edges.len() == self.nodes.len()
        &&& forall|i: int| 0 <= i < self.nodes.len() ==> (#[trigger] self.nodes[i]).wf()
        &&& forall|i: int| 0 <= i < self.edges.len() ==> (#[trigger] self.edges[i]).no_duplicates()
        &&& forall|i: int, j: int|
            0 <= i < self.edges.len() && 0 <= j < self.edges[i].len() ==> self.has(
                #[trigger] self.edges[i][j],
            )
        &&& forall|i: int|
            0 <= i < self.nodes.len() ==> self.urls.contains_key((#[trigger] self.nodes[i]).url)
        &&& forall|url: Seq<char>| #[trigger]
            self.urls.contains_key(url) ==> self.has(self.urls[url]) && self.nodes[self.urls[url] as int].url
                == url
    }

    /// No two entities have the same URL.
    pub open spec fn distinct_urls(self) -> bool {
        forall|i: int, j: int|
            0 <= i < j < self.nodes.len() ==> (#[trigger] self.nodes[i]).url != (
            #[trigger] self.nodes[j]).url
    }

    /// The value with `entity` in the place of the entity at position `id`.
    pub open spec fn replace(self, id: nat, entity: EntityView) -> CollectionView {
        CollectionView { nodes: self.nodes.update(id as int, entity), ..self }
    }

    /// The value after `entity` was appended as a new entity: it takes the
    /// next position, has no links, and its URL is known under its position
    /// from now on.
    pub open spec fn add(self, entity: EntityView) -> CollectionView {
        CollectionView {
            nodes: self.nodes.push(entity),
            edges: self.edges.push(Seq::empty()),
            urls: self.urls.insert(entity.url, self.nodes.len()),
        }
    }

    /// The position of the entity that holds `entity` after a merge: that
    /// under which its URL is known, or else the next position.
    pub open spec fn merge_id(self, entity: EntityView) -> nat {
        match self.id(entity.url) {
            Some(id) => id,
            None => self.nodes.len(),
        }
    }

    /// The value after `entity` was merged: folded into the entity under
    /// which its URL is known, or else appended.
    pub open spec fn merge(self, entity: EntityView) -> CollectionView {
        match self.id(entity.url) {
            Some(id) => self.replace(id, self.nodes[id as int].merge(entity)),
            None => self.add(entity),
        }
    }

    /// The value after the entities of `seen` were merged, one after
    /// another.
    pub open spec fn merge_all(self, seen: Seq<EntityView>) -> CollectionView
        decreases seen.len(),
    {
        if seen.len() == 0 {
            self
        } else {
            self.merge_all(seen.drop_last()).merge(seen.last())
        }
    }

    /// The value after a link from `from` to `to` was added, unless it was
    /// there already.
    pub open spec fn add_edge(self, from: nat, to: nat) -> CollectionView {
        CollectionView {
            edges: self.edges.update(from as int, with_item(self.edges[from as int], to)),
            ..self
        }
    }

    /// In a well-formed collection a URL is known exactly when an entity
    /// has it, and it is known under the position of such an entity.
    pub proof fn lemma_known(self, url: Seq<char>)
        requires
            self.wf(),
        ensures
            self.urls.contains_key(url) <==> self.holds(url),
            self.urls.contains_key(url) ==> self.has(self.urls[url]) && self.nodes[self.urls[url] as int].url
                == url,
    {
        if self.urls.contains_key(url) {
            assert(self.nodes[self.urls[url] as int].url == url);
        }
    }

    /// Appending a well-formed entity keeps a collection well formed.
    pub proof fn lemma_add_wf(self, entity: EntityView)
        requires
            self.wf(),
            entity.wf(),
        ensures
            self.add(entity).wf(),
    {
        let after = self.add(entity);
        assert forall|i: int| 0 <= i < after.nodes.len() implies (#[trigger] after.nodes[i]).wf()
            && after.urls.contains_key(after.nodes[i].url) by {
            if i < self.nodes.len() {
                assert(after.nodes[i] == self.nodes[i]);
            }
        }
        assert forall|i: int, j: int|
            0 <= i < after.edges.len() && 0 <= j < after.edges[i].len() implies after.has(
            #[trigger] after.edges[i][j],
        ) by {
            assert(after.edges[i] == self.edges[i]);
            assert(self.has(self.edges[i][j]));
        }
        assert forall|i: int| 0 <= i < after.edges.len() implies (
        #[trigger] after.edges[i]).no_duplicates() by {
            if i < self.edges.len() {
                assert(after.edges[i] == self.edges[i]);
            }
        }
    }

    /// Replacing an entity by a well-formed one with the same URL keeps a
    /// collection well formed.
    pub proof fn lemma_replace_wf(self, id: nat, entity: EntityView)
        requires
            self.wf(),
            self.has(id),
            entity.wf(),
            entity.url == self.nodes[id as int].url,
        ensures
            self.replace(id, entity).wf(),
    {
        let after = self.replace(id, entity);
        assert forall|i: int| 0 <= i < after.nodes.len() implies (#[trigger] after.nodes[i]).wf()
            && after.urls.contains_key(after.nodes[i].url) && after.nodes[i].url
            == self.nodes[i].url by {
            if i != id {
                assert(after.nodes[i] == self.nodes[i]);
            }
        }
    }

    /// Merging a well-formed entity keeps a collection well formed.
    pub proof fn lemma_merge_wf(self, entity: EntityView)
        requires
            self.wf(),
            entity.wf(),
        ensures
            self.merge(entity).wf(),
    {
        match self.id(entity.url) {
            Some(id) => {
                self.nodes[id as int].lemma_merge_wf(entity);
                self.lemma_replace_wf(id, self.nodes[id as int].merge(entity));
            },
            None => {
                self.lemma_add_wf(entity);
            },
        }
    }

    /// Adding an entity with an unknown URL keeps the URLs distinct.
    pub proof fn lemma_add_distinct(self, entity: EntityView)
        requires
            self.wf(),
            self.distinct_urls(),
            !self.urls.contains_key(entity.url),
        ensures
            self.add(entity).distinct_urls(),
    {
        let after = self.add(entity);
        assert forall|i: int, j: int| 0 <= i < j < after.nodes.len() implies (
        #[trigger] after.nodes[i]).url != (#[trigger] after.nodes[j]).url by {
            assert(after.nodes[i] == self.nodes[i]);
            if j == self.nodes.len() {
                assert(self.urls.contains_key(self.nodes[i].url));
            } else {
                assert(after.nodes[j] == self.nodes[j]);
            }
        }
    }

    /// Merging keeps the URLs distinct.
    pub proof fn lemma_merge_distinct(self, entity: EntityView)
        requires
            self.wf(),
            self.distinct_urls(),
        ensures
            self.merge(entity).distinct_urls(),
    {
        let after = self.merge(entity);
        match self.id(entity.url) {
            Some(id) => {
                assert forall|i: int, j: int| 0 <= i < j < after.nodes.len() implies (
                #[trigger] after.nodes[i]).url != (#[trigger] after.nodes[j]).url by {
                    assert(after.nodes[i].url == self.nodes[i].url);
                    assert(after.nodes[j].url == self.nodes[j].url);
                }
            },
            None => {
                self.lemma_add_distinct(entity);
            },
        }
    }

    /// While the URLs are distinct, the URL of each entity is known under
    /// the position of that entity.
    pub proof fn lemma_distinct(self, id: nat)
        requires
            self.wf(),
            self.distinct_urls(),
            self.has(id),
        ensures
            self.id(self.nodes[id as int].url) == Some(id),
    {
        let url = self.nodes[id as int].url;
        assert(self.urls.contains_key(url));
        let k = self.urls[url] as int;
        assert(self.nodes[k].url == url);
        if k < id {
            assert(self.nodes[k].url != self.nodes[id as int].url);
        } else if id < k {
            assert(self.nodes[id as int].url != self.nodes[k].url);
        }
    }

    /// Adding a link between two entities of a collection keeps it well
    /// formed.
    pub proof fn lemma_add_edge_wf(self, from: nat, to: nat)
        requires
            self.wf(),
            self.has(from),
            self.has(to),
        ensures
            self.add_edge(from, to).wf(),
    {
        let after = self.add_edge(from, to);
        assert forall|i: int| 0 <= i < after.edges.len() implies (
        #[trigger] after.edges[i]).no_duplicates() by {
            if i != from {
                assert(after.edges[i] == self.edges[i]);
            }
        }
        assert forall|i: int, j: int|
            0 <= i < after.edges.len() && 0 <= j < after.edges[i].len() implies after.has(
            #[trigger] after.edges[i][j],
        ) by {
            if i != from || j < self.edges[i].len() {
                assert(after.edges[i][j] == self.edges[i][j]);
                assert(self.has(self.edges[i][j]));
            }
        }
    }
}

/// A collection of entities and of the links between them.
///
/// The entities are the nodes of a graph, held in the order in which they
/// were added; the links are its edges, held as one list of targets for each
/// entity. An index finds the entity of a URL.
pub struct Collection {
    nodes: Vec<Entity>,
    edges: Vec<Edges>,
    urls: StringHashMap<Id>,
}

impl View for Collection {
    type V = CollectionView;

    closed spec fn view(&self) -> CollectionView {
        CollectionView {
            nodes: self.nodes@.map_values(|entity: Entity| entity@),
            edges: self.edges@.map_values(|list: Edges| positions(list@)),
            urls: self.urls@.map_values(|id: Id| id@),
        }
    }
}

impl Collection {
    /// The collection is well formed: its value is, and so is each of its
    /// entities.
    pub closed spec fn wf(&self) -> bool {
        &&& self@.wf()
        &&& forall|i: int| 0 <= i < self.nodes.len() ==> (#[trigger] self.nodes[i]).wf()
    }

    /// A well-formed collection has a well-formed value.
    pub broadcast proof fn lemma_wf(&self)
        requires
            #[trigger] self.wf(),
        ensures
            self@.wf(),
    {
    }

    /// The collection without entities.
    pub fn new() -> (collection: Collection)
        ensures
            collection.wf(),
            collection@ == CollectionView::empty(),
            collection@.distinct_urls(),
    {
        let nodes = Vec::new();
        let edges = Vec::new();
        let urls = StringHashMap::new();
        let collection = Collection { nodes, edges, urls };
        proof {
            assert(collection@.nodes =~= Seq::empty());
            assert(collection@.edges =~= Seq::empty());
            assert(collection@.urls =~= Map::empty());
        }
        collection
    }

    /// The number of entities.
    pub fn len(&self) -> (len: usize)
        ensures
            len == self@.nodes.len(),
            self.wf() ==> len == self@.edges.len(),
    {
        self.nodes.len()
    }

    /// Whether the collection has no entity.
    pub fn is_empty(&self) -> (empty: bool)
        ensures
            empty == (self@.nodes.len() == 0),
    {
        self.nodes.len() == 0
    }

    /// Whether `url` is known: in a well-formed collection, whether an
    /// entity has it.
    pub fn contains(&self, url: &PageUrl) -> (known: bool)
        ensures
            known == self@.urls.contains_key(url@),
            self.wf() ==> known == self@.holds(url@),
    {
        proof {
            if self.wf() {
                self.lemma_wf();
                self@.lemma_known(url@);
            }
        }
        self.urls.contains_key(url.as_str())
    }

    /// The identifier under which `url` is known, if it is: in a
    /// well-formed collection, that of an entity that has it.
    pub fn id(&self, url: &PageUrl) -> (found: Option<Id>)
        ensures
            match found {
                Some(id) => self@.id(url@) == Some(id@),
                None => self@.id(url@).is_none(),
            },
            self.wf() ==> match found {
                Some(id) => self@.has(id@) && self@.nodes[id@ as int].url == url@,
                None => !self@.holds(url@),
            },
    {
        proof {
            if self.wf() {
                self.lemma_wf();
                self@.lemma_known(url@);
            }
        }
        match self.urls.get(url.as_str()) {
            Some(id) => Some(*id),
            None => None,
        }
    }

    /// Appends `entity` as a new entity and returns its identifier, the
    /// next one. The URL of `entity` is known under that identifier from now
    /// on, whether or not it was known before.
    pub fn add(&mut self, entity: Entity) -> (id: Id)
        requires
            old(self).wf(),
            entity.wf(),
        ensures
            final(self).wf(),
            id@ == old(self)@.nodes.len(),
            final(self)@ == old(self)@.add(entity@),
            final(self)@.id(entity@.url) == Some(id@),
            old(self)@.distinct_urls() && !old(self)@.urls.contains_key(entity@.url)
                ==> final(self)@.distinct_urls(),
    {
        let id = Id::new(self.len());
        let url = entity.url().as_str().to_owned();
        self.nodes.push(entity);
        self.edges.push(Vec::new());
        self.urls.insert(url, id);
        proof {
            let before = old(self)@;
            let after = before.add(entity@);
            assert(self@.nodes =~= after.nodes);
            assert(self@.edges =~~= after.edges);
            assert(self@.urls =~= after.urls);
            entity.lemma_wf();
            before.lemma_add_wf(entity@);
            if before.distinct_urls() && !before.urls.contains_key(entity@.url) {
                before.lemma_add_distinct(entity@);
            }
        }
        id
    }

    /// Merges `other`: folds it into the entity under which its URL is
    /// known, or else appends it. Returns the identifier of the entity that
    /// holds it.
    pub fn merge(&mut self, other: Entity) -> (id: Id)
        requires
            old(self).wf(),
            other.wf(),
        ensures
            final(self).wf(),
            id@ == old(self)@.merge_id(other@),
            final(self)@ == old(self)@.merge(other@),
            final(self)@.id(other@.url) == Some(id@),
            old(self)@.urls.contains_key(other@.url) ==> final(self)@.nodes.len() == old(self)@.nodes.len(),
            old(self)@.distinct_urls() ==> final(self)@.distinct_urls(),
    {
        let id = match self.id(other.url()) {
            Some(id) => id,
            None => {
                return self.add(other);
            },
        };
        let at = usize::from(id);
        proof {
            id.lemma_view();
        }
        self.nodes[at].merge(other);
        proof {
            let before = old(self)@;
            let after = before.merge(other@);
            assert(self@.nodes =~= after.nodes);
            other.lemma_wf();
            before.lemma_merge_wf(other@);
            if before.distinct_urls() {
                before.lemma_merge_distinct(other@);
            }
        }
        id
    }

    /// Adds a link from `from` to `to`, unless it is there already.
    pub fn add_edge(&mut self, from: Id, to: Id)
        requires
            old(self).wf(),
            old(self)@.has(from@),
            old(self)@.has(to@),
        ensures
            final(self).wf(),
            final(self)@ == old(self)@.add_edge(from@, to@),
    {
        broadcast use Id::lemma_view;

        let at = usize::from(from);
        let ghost targets = self@.edges[at as int];
        let mut j: usize = 0;
        while j < self.edges[at].len()
            invariant
                *self == *old(self),
                self.wf(),
                at == from@,
                at < self.edges.len(),
                targets == self@.edges[at as int],
                j <= self.edges[at as int].len(),
                forall|k: int| 0 <= k < j ==> targets[k] != to@,
            decreases self.edges[at as int].len() - j,
        {
            if self.edges[at][j] == to {
                proof {
                    assert(targets[j as int] == to@);
                    assert(self@.edges =~= self@.add_edge(from@, to@).edges);
                }
                return;
            }
            proof {
                to.lemma_view();
            }
            j += 1;
        }
        self.edges[at].push(to);
        proof {
            let before = old(self)@;
            let after = before.add_edge(from@, to@);
            assert(self@.nodes =~= after.nodes);
            assert(self@.edges[at as int] =~= targets.push(to@));
            assert(self@.edges =~= after.edges);
            before.lemma_add_edge_wf(from@, to@);
        }
    }

    /// The entity that `id` names.
    pub fn entity(&self, id: Id) -> (entity: &Entity)
        requires
            self.wf(),
            self@.has(id@),
        ensures
            entity.wf(),
            entity@ == self@.nodes[id@ as int],
    {
        broadcast use Id::lemma_view;

        &self.nodes[usize::from(id)]
    }

    /// The entity that `id` names, to be changed in place. The collection
    /// stays well formed as long as the entity does and keeps its URL.
    pub fn entity_mut(&mut self, id: Id) -> (entity: &mut Entity)
        requires
            old(self).wf(),
            old(self)@.has(id@),
        ensures
            entity.wf(),
            entity@ == old(self)@.nodes[id@ as int],
            final(self)@ == old(self)@.replace(id@, final(entity)@),
            final(entity).wf() && final(entity)@.url == entity@.url ==> final(self).wf(),
    {
        broadcast use Id::lemma_view;

        broadcast use {lemma_update_map_values, Entity::lemma_wf};

        proof {
            let before = self@;
            assert forall|entity: EntityView|
                entity.wf() && entity.url == before.nodes[id@ as int].url implies (CollectionView {
                nodes: #[trigger] before.nodes.update(id@ as int, entity),
                ..before
            }).wf() by {
                before.lemma_replace_wf(id@, entity);
            }
        }
        &mut self.nodes[usize::from(id)]
    }

    /// The targets of the links that leave the entity that `id` names, in
    /// the order in which the links were first added.
    pub fn edges(&self, id: Id) -> (targets: &[Id])
        requires
            self.wf(),
            self@.has(id@),
        ensures
            positions(targets@) == self@.edges[id@ as int],
    {
        broadcast use Id::lemma_view;

        self.edges[usize::from(id)].as_slice()
    }
}

impl Default for Collection {
    fn default() -> (collection: Collection)
        ensures
            collection.wf(),
            collection@ == CollectionView::empty(),
    {
        Collection::new()
    }
}

} // verus!
