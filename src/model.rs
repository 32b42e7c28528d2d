use vstd::prelude::*;

use crate::error::Error;
use crate::state::{exclusive_total, shared_total, BorrowState};

verus! {

/// The abstract value of a container: its elements and, index for index, the
/// borrow state of each.
pub struct VecCellView<T> {
    pub elems: Seq<T>,
    pub states: Seq<BorrowState>,
}

impl<T> VecCellView<T> {
    /// The container with no elements.
    pub open spec fn empty() -> Self {
        VecCellView { elems: Seq::empty(), states: Seq::empty() }
    }

    pub open spec fn len(self) -> nat {
        self.elems.len()
    }

    /// One state per element, and no shared state that counts zero guards.
    pub open spec fn wf(self) -> bool {
        &&& self.states.len() == self.elems.len()
        &&& forall|i: int|
            0 <= i < self.states.len() ==> #[trigger] self.states[i] != BorrowState::Shared(0)
    }

    /// Shared guards outstanding anywhere in the container.
    pub open spec fn shared_count(self) -> nat {
        shared_total(self.states)
    }

    /// Exclusive guards outstanding anywhere in the container.
    pub open spec fn exclusive_count(self) -> nat {
        exclusive_total(self.states)
    }

    /// No guard of either kind is outstanding.
    pub open spec fn no_guards(self) -> bool {
        self.shared_count() == 0 && self.exclusive_count() == 0
    }

    pub open spec fn is_free(self, i: int) -> bool {
        0 <= i < self.len() && self.states[i] is Free
    }

    pub open spec fn is_shared(self, i: int) -> bool {
        0 <= i < self.len() && self.states[i] is Shared
    }

    pub open spec fn is_exclusive(self, i: int) -> bool {
        0 <= i < self.len() && self.states[i] is Exclusive
    }

    /// The error a shared borrow of index `i` meets, if any.
    pub open spec fn shared_error(self, i: int) -> Option<Error> {
        if !(0 <= i < self.len()) {
            Some(Error::OutOfBounds)
        } else if self.states[i] is Exclusive {
            Some(Error::Aliasing)
        } else {
            None
        }
    }

    /// The error an exclusive borrow of index `i` meets, if any.
    pub open spec fn exclusive_error(self, i: int) -> Option<Error> {
        if !(0 <= i < self.len()) {
            Some(Error::OutOfBounds)
        } else if !(self.states[i] is Free) {
            Some(Error::Aliasing)
        } else {
            None
        }
    }

    /// The error whole-container shared iteration meets, if any.
    pub open spec fn iter_error(self) -> Option<Error> {
        if self.exclusive_count() > 0 {
            Some(Error::Aliasing)
        } else {
            None
        }
    }

    /// One more shared guard on index `i`.
    pub open spec fn acquire_shared(self, i: int) -> Self {
        let next = match self.states[i] {
            BorrowState::Shared(n) => BorrowState::Shared((n + 1) as usize),
            _ => BorrowState::Shared(1),
        };
        VecCellView { states: self.states.update(i, next), ..self }
    }

    /// An exclusive guard on index `i`.
    pub open spec fn acquire_exclusive(self, i: int) -> Self {
        VecCellView { states: self.states.update(i, BorrowState::Exclusive), ..self }
    }

    /// One shared guard on index `i` fewer; the last one frees the index.
    pub open spec fn release_shared(self, i: int) -> Self {
        let next = match self.states[i] {
            BorrowState::Shared(n) => if n > 1 {
                BorrowState::Shared((n - 1) as usize)
            } else {
                BorrowState::Free
            },
            _ => BorrowState::Free,
        };
        VecCellView { states: self.states.update(i, next), ..self }
    }

    /// The exclusive guard on index `i` is gone.
    pub open spec fn release_exclusive(self, i: int) -> Self {
        VecCellView { states: self.states.update(i, BorrowState::Free), ..self }
    }

    /// Element `i` replaced by `v`; the borrow states stay.
    pub open spec fn write(self, i: int, v: T) -> Self {
        VecCellView { elems: self.elems.update(i, v), ..self }
    }

    /// `v` appended, with a free state.
    pub open spec fn push(self, v: T) -> Self {
        VecCellView { elems: self.elems.push(v), states: self.states.push(BorrowState::Free) }
    }

    /// The last element and its state removed.
    pub open spec fn pop(self) -> Self {
        VecCellView { elems: self.elems.drop_last(), states: self.states.drop_last() }
    }
}

} // verus!
