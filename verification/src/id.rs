//! Identifiers of the entities of a collection.

use vstd::prelude::*;
use vstd::std_specs::convert::FromSpecImpl;

verus! {

/// The handle of one entity of a [`Collection`](crate::Collection): the
/// position of the entity among the collection's nodes.
///
/// Only a collection makes identifiers, so one that a collection has handed
/// out always names one of its entities.
#[derive(Debug, Clone, Copy, PartialEq, Eq, Structural, PartialOrd, Ord)]
pub struct Id(usize);

impl View for Id {
    type V = nat;

    /// The position that the identifier names.
    closed spec fn view(&self) -> nat {
        self.0 as nat
    }
}

impl Id {
    /// The identifier of position `index`.
    pub(crate) fn new(index: usize) -> (id: Id)
        ensures
            id@ == index,
    {
        Id(index)
    }

    /// The position that the identifier names, as a machine integer.
    pub closed spec fn index(self) -> usize {
        self.0
    }

    /// An identifier is its position: the position fits a machine integer,
    /// and two identifiers of one position are equal.
    pub broadcast proof fn lemma_view(self)
        ensures
            (#[trigger] self@) == self.index(),
            forall|other: Id| other@ == self@ ==> other == self,
    {
    }
}

/// The positions that the identifiers of `ids` name, in the same order.
pub open spec fn positions(ids: Seq<Id>) -> Seq<nat> {
    Seq::new(ids.len(), |k: int| ids[k]@)
}

impl From<Id> for usize {
    fn from(id: Id) -> (index: usize) {
        id.0
    }
}

impl FromSpecImpl<Id> for usize {
    open spec fn obeys_from_spec() -> bool {
        true
    }

    open spec fn from_spec(id: Id) -> usize {
        id.index()
    }
}

} // verus!
