//! Sets of artifact identifiers, and the records that tests report.

use crate::identifier::ArtifactIdentifier;
use crate::names::NameSet;
use crate::text::ascending;
use vstd::prelude::*;

verus! {

/// A finite set of artifact identifiers, each held once, in ascending order.
#[derive(Debug)]
pub struct ArtifactSet {
    names: NameSet,
}

impl Clone for ArtifactSet {
    fn clone(&self) -> (r: ArtifactSet)
        ensures
            r@ == self@,
            r.order() == self.order(),
    {
        ArtifactSet { names: self.names.clone() }
    }
}

impl View for ArtifactSet {
    type V = Set<Seq<char>>;

    closed spec fn view(&self) -> Set<Seq<char>> {
        self.names@
    }
}

impl ArtifactSet {
    /// The identifiers in ascending order.
    pub closed spec fn order(&self) -> Seq<Seq<char>> {
        self.names.order()
    }

    /// The empty set.
    pub fn new() -> (r: ArtifactSet)
        ensures
            r@ == Set::<Seq<char>>::empty(),
            r.order() == Seq::<Seq<char>>::empty(),
    {
        ArtifactSet { names: NameSet::new() }
    }

    /// Whether `id` is a member.
    pub fn contains(&self, id: &ArtifactIdentifier) -> (r: bool)
        ensures
            r == self@.contains(id@),
    {
        self.names.contains(id.name())
    }

    /// Adds `id`. Returns whether it was new.
    pub fn insert(&mut self, id: ArtifactIdentifier) -> (r: bool)
        ensures
            final(self)@ == old(self)@.insert(id@),
            r == !old(self)@.contains(id@),
            !r ==> final(self).order() == old(self).order(),
            ascending(final(self).order()),
            final(self).order().to_set() == final(self)@,
    {
        self.names.insert(id.into_name())
    }

    /// Adds every identifier of `other`.
    pub fn extend_from(&mut self, other: &ArtifactSet)
        ensures
            final(self)@ == old(self)@.union(other@),
    {
        let n = other.len();
        let mut i: usize = 0;
        while i < n
            invariant
                i <= n,
                n == other.order().len(),
                other.order().to_set() == other@,
                self@ == old(self)@.union(other.order().take(i as int).to_set()),
            decreases n - i,
        {
            let id = other.get(i);
            self.insert(id);
            proof {
                let taken = other.order().take(i as int);
                assert(other.order().take(i + 1) =~= taken.push(other.order()[i as int]));
                taken.lemma_push_to_set_commute(other.order()[i as int]);
                assert(self@ =~= old(self)@.union(other.order().take(i + 1).to_set()));
            }
            i += 1;
        }
        proof {
            assert(other.order().take(n as int) =~= other.order());
        }
    }

    /// How many identifiers the set holds.
    pub fn len(&self) -> (r: usize)
        ensures
            self@.finite(),
            r == self@.len(),
            r == self.order().len(),
            ascending(self.order()),
            self.order().no_duplicates(),
            self.order().to_set() == self@,
    {
        self.names.len()
    }

    /// The `i`-th identifier in ascending order.
    pub fn get(&self, i: usize) -> (r: ArtifactIdentifier)
        requires
            i < self.order().len(),
        ensures
            r@ == self.order()[i as int],
            self@.contains(r@),
    {
        ArtifactIdentifier::new(self.names.get(i).clone())
    }
}

/// What one test reports of itself: its name, the artifacts it cannot run
/// without, and those it uses where they exist.
#[derive(Clone, Debug)]
pub struct TestRecord {
    pub name: String,
    pub required: ArtifactSet,
    pub optional: ArtifactSet,
}

/// The view of a [`TestRecord`].
pub struct RecordView {
    pub name: Seq<char>,
    pub required: Set<Seq<char>>,
    pub optional: Set<Seq<char>>,
}

impl View for TestRecord {
    type V = RecordView;

    open spec fn view(&self) -> RecordView {
        RecordView { name: self.name@, required: self.required@, optional: self.optional@ }
    }
}

/// The views of a sequence of records.
pub open spec fn record_views(records: Seq<TestRecord>) -> Seq<RecordView> {
    records.map_values(|r: TestRecord| r@)
}

} // verus!
