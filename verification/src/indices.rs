//! A list of section numbers, which is short as a rule and then takes no allocation.
use smallvec::SmallVec;
use vstd::prelude::*;

verus! {

/// A list of section numbers.
///
/// The list is a `smallvec::SmallVec`.
#[verifier::external_body]
pub struct SectionIndices {
    inner: SmallVec<[u64; 2]>,
}

/// The numbers in a list.
pub uninterp spec fn indices(list: SectionIndices) -> Seq<u64>;

impl View for SectionIndices {
    type V = Set<int>;

    /// The numbers in the list, as a set.
    open spec fn view(&self) -> Set<int> {
        Set::new(|n: int| exists|i: int| 0 <= i < indices(*self).len() && indices(*self)[i] == n)
    }
}

/// The set of the numbers grows with the list.
pub(crate) proof fn lemma_push(list: SectionIndices, longer: SectionIndices, index: u64)
    requires
        indices(longer) == indices(list).push(index),
    ensures
        longer@ == list@.insert(index as int),
{
    assert forall|n: int| #[trigger] longer@.contains(n) <==> list@.contains(n) || n == index by {
        if list@.contains(n) {
            let i = choose|i: int| 0 <= i < indices(list).len() && indices(list)[i] == n;
            assert(indices(longer)[i] == n);
        }
        assert(indices(longer)[indices(list).len() as int] == index);
        if longer@.contains(n) && n != index {
            let i = choose|i: int| 0 <= i < indices(longer).len() && indices(longer)[i] == n;
        }
    }
}

impl SectionIndices {
    /// `smallvec::SmallVec::new`: a list without any numbers.
    #[verifier::external_body]
    pub(crate) fn new() -> (res: SectionIndices)
        ensures
            indices(res) == Seq::<u64>::empty(),
    {
        SectionIndices { inner: SmallVec::new() }
    }

    /// `smallvec::SmallVec::push`, which adds a number at the end.
    #[verifier::external_body]
    pub(crate) fn push(&mut self, index: u64)
        ensures
            indices(*final(self)) == indices(*old(self)).push(index),
    {
        self.inner.push(index);
    }

    /// `contains` of the slice to which `smallvec::SmallVec` dereferences.
    #[verifier::external_body]
    pub(crate) fn contains(&self, index: u64) -> (res: bool)
        ensures
            res == indices(*self).contains(index),
    {
        self.inner.contains(&index)
    }
}

} // verus!
