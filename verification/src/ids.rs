//! Small vectors of bracket-family ids and the subset test between them.

use smallvec::SmallVec;
use vstd::prelude::*;

verus! {

/// The ids of the bracket families that a subtree refers to, or that are
/// open at some point of a scan. The ids are kept in a
/// `smallvec::SmallVec<[usize; 4]>`, which stores up to four of them inline.
/// Verus does not look inside: what it knows of the ids is what the
/// functions `small_vec_*` below state of `id_seq`.
#[verifier::external_body]
#[derive(Debug)]
pub struct BracketIds {
    ids: SmallVec<[usize; 4]>,
}

/// The ids that the small vector inside `ids` holds, in storage order.
pub uninterp spec fn id_seq(ids: BracketIds) -> Seq<usize>;

impl View for BracketIds {
    type V = Seq<usize>;

    open spec fn view(&self) -> Seq<usize> {
        id_seq(*self)
    }
}

/// Calls `SmallVec::new`. Taken on trust: the new vector holds no id.
#[verifier::external_body]
fn small_vec_new() -> (ids: BracketIds)
    ensures
        id_seq(ids) == Seq::<usize>::empty(),
{
    BracketIds { ids: SmallVec::new() }
}

/// Calls `SmallVec::from_slice`. Taken on trust: the new vector holds the
/// elements of `slice`, in the same order.
#[verifier::external_body]
fn small_vec_from_slice(slice: &[usize]) -> (ids: BracketIds)
    ensures
        id_seq(ids) == slice@,
{
    BracketIds { ids: SmallVec::from_slice(slice) }
}

/// Calls `SmallVec::clone`. Taken on trust: the new vector holds the
/// elements of the source, in the same order.
#[verifier::external_body]
fn small_vec_clone(source: &BracketIds) -> (ids: BracketIds)
    ensures
        id_seq(ids) == id_seq(*source),
{
    BracketIds { ids: source.ids.clone() }
}

/// Calls `SmallVec::as_slice`. Taken on trust: the slice holds the elements
/// of the vector, all of them and in storage order.
#[verifier::external_body]
fn small_vec_as_slice(ids: &BracketIds) -> (slice: &[usize])
    ensures
        slice@ == id_seq(*ids),
{
    ids.ids.as_slice()
}

/// Every id of `missing` occurs in `open`.
pub open spec fn all_open(missing: Seq<usize>, open: Seq<usize>) -> bool {
    forall|id: usize| missing.contains(id) ==> open.contains(id)
}

/// Whether `id` occurs in `ids`.
fn slice_contains(ids: &[usize], id: usize) -> (found: bool)
    ensures
        found == ids@.contains(id),
{
    let mut i: usize = 0;
    while i < ids.len()
        invariant
            i <= ids.len(),
            forall|j: int| 0 <= j < i ==> ids@[j] != id,
        decreases ids.len() - i,
    {
        if ids[i] == id {
            return true;
        }
        i += 1;
    }
    false
}

impl BracketIds {
    /// The empty id vector.
    pub fn new() -> (ids: BracketIds)
        ensures
            ids@ == Seq::<usize>::empty(),
    {
        small_vec_new()
    }

    /// The id vector that holds the ids of `slice`, in the same order.
    pub fn from_slice(slice: &[usize]) -> (ids: BracketIds)
        ensures
            ids@ == slice@,
    {
        small_vec_from_slice(slice)
    }

    /// The ids, in storage order.
    pub fn as_slice(&self) -> (slice: &[usize])
        ensures
            slice@ == self@,
    {
        small_vec_as_slice(self)
    }

    /// Whether `id` is one of the ids.
    pub fn contains(&self, id: usize) -> (found: bool)
        ensures
            found == self@.contains(id),
    {
        slice_contains(small_vec_as_slice(self), id)
    }

    /// Whether every id of `self` is among `open`.
    pub fn all_in(&self, open: &BracketIds) -> (all: bool)
        ensures
            all == all_open(self@, open@),
    {
        let ids = small_vec_as_slice(self);
        let mut i: usize = 0;
        while i < ids.len()
            invariant
                i <= ids.len(),
                ids@ == self@,
                forall|j: int| 0 <= j < i ==> open@.contains(#[trigger] ids@[j]),
            decreases ids.len() - i,
        {
            if !open.contains(ids[i]) {
                return false;
            }
            i += 1;
        }
        true
    }
}

impl Clone for BracketIds {
    fn clone(&self) -> (ids: BracketIds)
        ensures
            ids@ == self@,
    {
        small_vec_clone(self)
    }
}

} // verus!
