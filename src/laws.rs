use vstd::prelude::*;

use crate::error::Error;
use crate::model::VecCellView;
use crate::state::{lemma_exclusive_total_positive, lemma_shared_holders_bounded, BorrowState};

verus! {

/// Two distinct free elements can be held exclusively at the same time, and
/// writes through the two guards each reach their own element and no other.
pub proof fn lemma_disjoint_exclusive<T>(m: VecCellView<T>, i: int, j: int, a: T, b: T)
    requires
        m.wf(),
        i != j,
        m.exclusive_error(i) is None,
        m.exclusive_error(j) is None,
    ensures
        m.acquire_exclusive(i).exclusive_error(j) is None,
        m.acquire_exclusive(i).acquire_exclusive(j).is_exclusive(i),
        m.acquire_exclusive(i).acquire_exclusive(j).is_exclusive(j),
        ({
            let w = m.acquire_exclusive(i).acquire_exclusive(j).write(i, a).write(j, b);
            &&& w.elems[i] == a
            &&& w.elems[j] == b
            &&& forall|k: int| 0 <= k < m.len() && k != i && k != j ==> w.elems[k] == m.elems[k]
        }),
{
}

/// While any guard is outstanding on an element, an exclusive borrow of that
/// element fails with `Aliasing`; in particular right after either kind of
/// borrow of it succeeded.
pub proof fn lemma_exclusive_refused_while_held<T>(m: VecCellView<T>, i: int)
    requires
        m.wf(),
        0 <= i < m.len(),
    ensures
        !m.is_free(i) ==> m.exclusive_error(i) == Some(Error::Aliasing),
        m.exclusive_error(i) is None ==> m.acquire_exclusive(i).exclusive_error(i) == Some(
            Error::Aliasing,
        ),
        m.shared_error(i) is None ==> m.acquire_shared(i).exclusive_error(i) == Some(
            Error::Aliasing,
        ),
{
}

/// Both kinds of borrow fail with `OutOfBounds` at any index from the length on.
pub proof fn lemma_out_of_bounds<T>(m: VecCellView<T>, i: int)
    requires
        i >= m.len(),
    ensures
        m.shared_error(i) == Some(Error::OutOfBounds),
        m.exclusive_error(i) == Some(Error::OutOfBounds),
{
}

/// Releasing the only guard on an element frees it, so that it can be
/// borrowed exclusively again; a borrow followed by its release leaves the
/// container as it was.
pub proof fn lemma_release_frees<T>(m: VecCellView<T>, i: int)
    requires
        m.wf(),
        0 <= i < m.len(),
        m.shared_count() < usize::MAX,
    ensures
        m.is_exclusive(i) ==> m.release_exclusive(i).is_free(i) && m.release_exclusive(
            i,
        ).exclusive_error(i) is None,
        m.states[i] == BorrowState::Shared(1) ==> m.release_shared(i).is_free(i)
            && m.release_shared(i).exclusive_error(i) is None,
        m.is_free(i) ==> m.acquire_exclusive(i).release_exclusive(i) == m,
        m.shared_error(i) is None ==> m.acquire_shared(i).release_shared(i) == m,
{
    lemma_shared_holders_bounded(m.states, i);
    if m.is_free(i) {
        assert(m.acquire_exclusive(i).release_exclusive(i).states =~= m.states);
    }
    if m.shared_error(i) is None {
        assert(m.acquire_shared(i).release_shared(i).states =~= m.states);
    }
}

/// Whole-container shared iteration fails with `Aliasing` exactly when some
/// element is held exclusively, and fails in no other way.
pub proof fn lemma_iter_refused_iff_exclusive_held<T>(m: VecCellView<T>)
    requires
        m.wf(),
    ensures
        m.iter_error() == Some(Error::Aliasing) <==> exists|i: int| #[trigger] m.is_exclusive(i),
        m.iter_error() is None <==> forall|i: int| !#[trigger] m.is_exclusive(i),
{
    lemma_exclusive_total_positive(m.states);
    if m.exclusive_count() > 0 {
        let k = choose|k: int| 0 <= k < m.states.len() && #[trigger] m.states[k] is Exclusive;
        assert(m.is_exclusive(k));
    }
    if exists|i: int| #[trigger] m.is_exclusive(i) {
        let k = choose|k: int| #[trigger] m.is_exclusive(k);
        assert(m.states[k] is Exclusive);
    }
}

} // verus!
