//! Entities: what is known of one page.

use vstd::prelude::*;
use vstd::std_specs::cmp::PartialEqSpecImpl;
use crate::date::Date;
use crate::set::{ItemSet, Member};
use crate::text::{Label, Name, PageUrl};

verus! {

/// The mathematical value of an [`Entity`].
pub struct EntityView {
    /// The text of the URL.
    pub url: Seq<char>,
    /// The earliest day on which the page was seen, as a Julian day number.
    pub created_at: int,
    /// Every other day on which the page was seen.
    pub updated_at: Set<int>,
    /// The text of every name the page was seen with.
    pub names: Set<Seq<char>>,
    /// The text of every label the page was seen with.
    pub labels: Set<Seq<char>>,
}

/// The earlier of two days.
pub open spec fn earlier(a: int, b: int) -> int {
    if b < a {
        b
    } else {
        a
    }
}

impl EntityView {
    /// The value is that of an entity: its sets are finite, and every day in
    /// `updated_at` comes after `created_at`.
    pub open spec fn wf(self) -> bool {
        &&& self.updated_at.finite()
        &&& self.names.finite()
        &&& self.labels.finite()
        &&& forall|day: int| self.updated_at.contains(day) ==> self.created_at < day
    }

    /// Every day on which the page was seen.
    pub open spec fn dates(self) -> Set<int> {
        self.updated_at.insert(self.created_at)
    }

    /// The value of a page seen once, on `date`, under `name` if there is
    /// one, with `labels`.
    pub open spec fn seen_once(
        url: Seq<char>,
        date: int,
        name: Option<Seq<char>>,
        labels: Set<Seq<char>>,
    ) -> EntityView {
        EntityView {
            url,
            created_at: date,
            updated_at: Set::empty(),
            names: match name {
                Some(name) => Set::empty().insert(name),
                None => Set::empty(),
            },
            labels,
        }
    }

    /// The value after the page was seen once more, on `date`, with `names`
    /// and `labels`: `date` joins the days, the earliest of which is
    /// `created_at`, and the names and labels join those already known.
    pub open spec fn update(
        self,
        date: int,
        names: Set<Seq<char>>,
        labels: Set<Seq<char>>,
    ) -> EntityView {
        EntityView {
            url: self.url,
            created_at: earlier(self.created_at, date),
            updated_at: self.dates().insert(date).remove(earlier(self.created_at, date)),
            names: self.names.union(names),
            labels: self.labels.union(labels),
        }
    }

    /// The value after `other`, a sighting of the same page, was folded in.
    /// Of the days of `other` only its `created_at` counts.
    pub open spec fn merge(self, other: EntityView) -> EntityView {
        self.update(other.created_at, other.names, other.labels)
    }

    /// The value after the sightings `seen` were folded in, one after
    /// another.
    pub open spec fn merge_all(self, seen: Seq<EntityView>) -> EntityView
        decreases seen.len(),
    {
        if seen.len() == 0 {
            self
        } else {
            self.merge_all(seen.drop_last()).merge(seen.last())
        }
    }

    /// Seeing a page once more keeps its value well formed.
    pub proof fn lemma_update_wf(self, date: int, names: Set<Seq<char>>, labels: Set<Seq<char>>)
        requires
            self.wf(),
            names.finite(),
            labels.finite(),
        ensures
            self.update(date, names, labels).wf(),
    {
    }

    /// Folding a sighting in keeps the value of an entity well formed.
    pub proof fn lemma_merge_wf(self, other: EntityView)
        requires
            self.wf(),
            other.wf(),
        ensures
            self.merge(other).wf(),
    {
        self.lemma_update_wf(other.created_at, other.names, other.labels);
    }
}

/// What is known of one page: its URL, the days on which it was seen, and
/// the names and labels it was seen with.
#[derive(Debug, Clone)]
pub struct Entity {
    url: PageUrl,
    created_at: Date,
    updated_at: ItemSet<Date>,
    names: ItemSet<Name>,
    labels: ItemSet<Label>,
}

impl View for Entity {
    type V = EntityView;

    closed spec fn view(&self) -> EntityView {
        EntityView {
            url: self.url@,
            created_at: self.created_at@,
            updated_at: self.updated_at@,
            names: self.names@,
            labels: self.labels@,
        }
    }
}

impl Entity {
    /// The entity is well formed: none of its sets holds a member twice, and
    /// its value is well formed.
    pub closed spec fn wf(&self) -> bool {
        &&& self.updated_at.wf()
        &&& self.names.wf()
        &&& self.labels.wf()
        &&& self@.wf()
    }

    /// A well-formed entity has a well-formed value.
    pub broadcast proof fn lemma_wf(&self)
        requires
            #[trigger] self.wf(),
        ensures
            self@.wf(),
    {
    }

    /// The entity of a page seen once: on `created_at`, under `maybe_name`
    /// if there is one, with `labels`.
    pub fn new(url: PageUrl, created_at: Date, maybe_name: Option<Name>, labels: ItemSet<Label>) -> (entity: Entity)
        requires
            labels.wf(),
        ensures
            entity.wf(),
            entity@ == EntityView::seen_once(
                url@,
                created_at@,
                match maybe_name {
                    Some(name) => Some(name@),
                    None => None,
                },
                labels@,
            ),
    {
        let updated_at = ItemSet::new();
        let mut names = ItemSet::new();
        if let Some(name) = maybe_name {
            names.insert(name);
        }
        Entity { url, created_at, updated_at, names, labels }
    }

    /// Records that the page was seen once more, on `updated_at`, with
    /// `names` and `labels`.
    pub fn update(&mut self, updated_at: Date, names: ItemSet<Name>, labels: ItemSet<Label>) -> (entity: &mut Entity)
        requires
            old(self).wf(),
        ensures
            entity.wf(),
            entity@ == old(self)@.update(updated_at@, names@, labels@),
            *final(self) == *final(entity),
    {
        if updated_at.is_before(&self.created_at) {
            self.updated_at.insert(self.created_at);
            self.created_at = updated_at;
        } else if self.created_at.is_before(&updated_at) {
            self.updated_at.insert(updated_at);
        }
        self.names.extend(names);
        self.labels.extend(labels);
        proof {
            assert(self.updated_at@ =~= old(self)@.update(updated_at@, names@, labels@).updated_at);
        }
        self
    }

    /// Folds `other`, a sighting of the same page, into the entity. Of the
    /// days of `other` only its `created_at` counts.
    pub fn merge(&mut self, other: Entity) -> (entity: &mut Entity)
        requires
            old(self).wf(),
        ensures
            entity.wf(),
            entity@ == old(self)@.merge(other@),
            *final(self) == *final(entity),
    {
        self.update(other.created_at, other.names, other.labels)
    }

    /// The URL of the page.
    pub fn url(&self) -> (url: &PageUrl)
        ensures
            url@ == self@.url,
    {
        &self.url
    }

    /// The earliest day on which the page was seen.
    pub fn created_at(&self) -> (date: &Date)
        ensures
            date@ == self@.created_at,
    {
        &self.created_at
    }

    /// Every other day on which the page was seen.
    pub fn updated_at(&self) -> (dates: &ItemSet<Date>)
        ensures
            dates@ == self@.updated_at,
            self.wf() ==> dates.wf(),
    {
        &self.updated_at
    }

    /// The names the page was seen with.
    pub fn names(&self) -> (names: &ItemSet<Name>)
        ensures
            names@ == self@.names,
            self.wf() ==> names.wf(),
    {
        &self.names
    }

    /// The labels the page was seen with.
    pub fn labels(&self) -> (labels: &ItemSet<Label>)
        ensures
            labels@ == self@.labels,
            self.wf() ==> labels.wf(),
    {
        &self.labels
    }
}

impl PartialEq for Entity {
    /// Two entities are equal when they have the same value.
    fn eq(&self, other: &Entity) -> (equal: bool) {
        self.url == other.url && self.created_at.same(&other.created_at) && self.updated_at
            == other.updated_at && self.names == other.names && self.labels == other.labels
    }
}

impl Eq for Entity {}

impl PartialEqSpecImpl for Entity {
    open spec fn obeys_eq_spec() -> bool {
        true
    }

    open spec fn eq_spec(&self, other: &Entity) -> bool {
        self@ == other@
    }
}

} // verus!
