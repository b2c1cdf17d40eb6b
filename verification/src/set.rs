//! Sets that remember the order in which their members arrived.

use vstd::prelude::*;
use vstd::std_specs::cmp::PartialEqSpecImpl;

verus! {

/// A value that can be a member of an [`ItemSet`]: it has a mathematical
/// view, and two values can be tested for having the same view.
pub trait Member: View + Sized {
    /// Whether `self` and `other` stand for the same mathematical value.
    fn same(&self, other: &Self) -> (same: bool)
        ensures
            same == (self@ == other@),
    ;
}

/// The sequence `seq`, with `item` appended unless it is already there.
pub open spec fn with_item<K>(seq: Seq<K>, item: K) -> Seq<K> {
    if seq.contains(item) {
        seq
    } else {
        seq.push(item)
    }
}

/// The sequence `seq`, followed by the items of `more` that it lacks, each
/// once, in the order of their first occurrence in `more`.
pub open spec fn with_items<K>(seq: Seq<K>, more: Seq<K>) -> Seq<K>
    decreases more.len(),
{
    if more.len() == 0 {
        seq
    } else {
        with_item(with_items(seq, more.drop_last()), more.last())
    }
}

/// A finite set of values of type `T`, none of which occurs twice.
///
/// Two members are the same when their views are equal. The set keeps its
/// members in the order in which they were first inserted, and finds a
/// member by going through them: it is meant for the few names, labels and
/// days of one page.
#[derive(Debug, Clone)]
pub struct ItemSet<T: Member> {
    items: Vec<T>,
}

impl<T: Member> View for ItemSet<T> {
    type V = Set<T::V>;

    /// The views of the members.
    open spec fn view(&self) -> Set<T::V> {
        self.order().to_set()
    }
}

impl<T: Member> ItemSet<T> {
    /// The views of the members, in the order of their first insertion.
    pub closed spec fn order(&self) -> Seq<T::V> {
        self.items@.map_values(|item: T| item@)
    }

    /// No member occurs twice.
    pub open spec fn wf(&self) -> bool {
        self.order().no_duplicates()
    }

    /// The empty set.
    pub fn new() -> (set: Self)
        ensures
            set.wf(),
            set.order() == Seq::<T::V>::empty(),
            set@ == Set::<T::V>::empty(),
    {
        let set = ItemSet { items: Vec::new() };
        assert(set.order() =~= Seq::<T::V>::empty());
        assert(set@ =~= Set::<T::V>::empty());
        set
    }

    /// The number of members.
    pub fn len(&self) -> (len: usize)
        ensures
            len == self.order().len(),
            self.wf() ==> len == self@.len(),
    {
        proof {
            if self.wf() {
                self.order().unique_seq_to_set();
            }
        }
        self.items.len()
    }

    /// Whether the set has no member.
    pub fn is_empty(&self) -> (empty: bool)
        ensures
            empty == (self.order().len() == 0),
            empty == (self@ == Set::<T::V>::empty()),
    {
        proof {
            if self.order().len() == 0 {
                assert(self@ =~= Set::<T::V>::empty());
            } else {
                assert(self@.contains(self.order()[0]));
            }
        }
        self.items.len() == 0
    }

    /// Whether a member of the set has the view of `item`.
    pub fn contains(&self, item: &T) -> (found: bool)
        ensures
            found == self@.contains(item@),
    {
        let mut i: usize = 0;
        while i < self.items.len()
            invariant
                i <= self.items.len(),
                forall|j: int| 0 <= j < i ==> self.order()[j] != item@,
            decreases self.items.len() - i,
        {
            if self.items[i].same(item) {
                assert(self.order()[i as int] == item@);
                return true;
            }
            i += 1;
        }
        false
    }

    /// The member at position `at` of the order of first insertion.
    pub fn get(&self, at: usize) -> (item: &T)
        requires
            at < self.order().len(),
        ensures
            item@ == self.order()[at as int],
    {
        &self.items[at]
    }

    /// Inserts `item` unless the set already has a member with its view, and
    /// says whether it did.
    pub fn insert(&mut self, item: T) -> (fresh: bool)
        requires
            old(self).wf(),
        ensures
            final(self).wf(),
            fresh == !old(self)@.contains(item@),
            final(self).order() == with_item(old(self).order(), item@),
            final(self)@ == old(self)@.insert(item@),
    {
        if self.contains(&item) {
            assert(self@ =~= self@.insert(item@));
            false
        } else {
            self.items.push(item);
            proof {
                assert(self.order() =~= old(self).order().push(item@));
                old(self).order().lemma_push_to_set_commute(item@);
            }
            true
        }
    }

    /// Inserts each member of `more` that the set lacks, in the order in
    /// which `more` holds them.
    pub fn extend(&mut self, more: ItemSet<T>)
        requires
            old(self).wf(),
        ensures
            final(self).wf(),
            final(self).order() == with_items(old(self).order(), more.order()),
            final(self)@ == old(self)@.union(more@),
    {
        let ghost all = more.order();
        for item in it: more.items.into_iter()
            invariant
                self.wf(),
                it.seq().map_values(|item: T| item@) == all,
                self.order() == with_items(old(self).order(), all.take(it.index())),
                self@ == old(self)@.union(all.take(it.index()).to_set()),
        {
            let ghost i = it.index();
            proof {
                assert(item@ == all[i]);
                assert(all.take(i + 1) =~= all.take(i).push(item@));
                assert(all.take(i + 1).drop_last() =~= all.take(i));
                all.take(i).lemma_push_to_set_commute(item@);
            }
            self.insert(item);
            assert(self@ =~= old(self)@.union(all.take(i + 1).to_set()));
        }
        assert(all.take(all.len() as int) =~= all);
    }

    /// Whether every member of the set is a member of `other`.
    pub fn is_subset(&self, other: &ItemSet<T>) -> (subset: bool)
        ensures
            subset == self@.subset_of(other@),
    {
        let mut i: usize = 0;
        while i < self.items.len()
            invariant
                i <= self.items.len(),
                forall|j: int| 0 <= j < i ==> other@.contains(self.order()[j]),
            decreases self.items.len() - i,
        {
            if !other.contains(&self.items[i]) {
                assert(self@.contains(self.order()[i as int]));
                return false;
            }
            i += 1;
        }
        true
    }
}

impl<T: Member> PartialEq for ItemSet<T> {
    /// Two sets are equal when they have the same members, in whatever
    /// order.
    fn eq(&self, other: &ItemSet<T>) -> (equal: bool) {
        let equal = self.is_subset(other) && other.is_subset(self);
        assert(equal == (self@ =~= other@));
        equal
    }
}

impl<T: Member> Eq for ItemSet<T> {}

impl<T: Member> PartialEqSpecImpl for ItemSet<T> {
    open spec fn obeys_eq_spec() -> bool {
        true
    }

    open spec fn eq_spec(&self, other: &ItemSet<T>) -> bool {
        self@ == other@
    }
}

} // verus!
