use vstd::prelude::*;

use crate::error::Error;
use crate::model::VecCellView;
use crate::state::{
    exclusive_total, lemma_exclusive_total_bounded, lemma_exclusive_total_update,
    lemma_shared_holders_bounded, lemma_shared_total_update, lemma_totals_push, shared_total,
    BorrowState,
};

verus! {

/// A vector whose elements are borrowed one at a time through guards.
///
/// Each element carries a borrow state; `get` and `get_mut` check and update
/// it, and releasing a guard reverts it. Two counters hold the number of
/// shared and exclusive guards outstanding over the whole container.
pub struct VecCell<T> {
    elems: Vec<T>,
    borrows: Vec<BorrowState>,
    shared_count: usize,
    exclusive_count: usize,
}

/// A shared borrow of one element, handed out by [`VecCell::get`].
///
/// The guard holds the element's index; reading through it needs the
/// container, and [`Ref::release`] hands the borrow back to it.
pub struct Ref {
    index: usize,
}

/// An exclusive borrow of one element, handed out by [`VecCell::get_mut`].
///
/// The guard holds the element's index; reading or writing through it needs
/// the container, and [`RefMut::release`] hands the borrow back to it.
pub struct RefMut {
    index: usize,
}

impl<T> View for VecCell<T> {
    type V = VecCellView<T>;

    closed spec fn view(&self) -> VecCellView<T> {
        VecCellView { elems: self.elems@, states: self.borrows@ }
    }
}

impl<T> VecCell<T> {
    /// The model is well formed and the counters agree with the states.
    pub closed spec fn wf(&self) -> bool {
        &&& self@.wf()
        &&& self.shared_count == self@.shared_count()
        &&& self.exclusive_count == self@.exclusive_count()
    }

    /// Borrows element `index` shared.
    ///
    /// Fails with `OutOfBounds` past the end and with `Aliasing` where the
    /// element is held exclusively; otherwise the element gains one shared
    /// guard and the guard is returned.
    pub fn get(&mut self, index: usize) -> (r: Result<Ref, Error>)
        requires
            old(self).wf(),
            old(self)@.shared_count() < usize::MAX,
        ensures
            final(self).wf(),
            match r {
                Ok(g) => {
                    &&& old(self)@.shared_error(index as int) is None
                    &&& g.index() == index
                    &&& final(self)@ == old(self)@.acquire_shared(index as int)
                    &&& final(self)@.shared_count() == old(self)@.shared_count() + 1
                    &&& final(self)@.exclusive_count() == old(self)@.exclusive_count()
                },
                Err(e) => {
                    &&& old(self)@.shared_error(index as int) == Some(e)
                    &&& final(self)@ == old(self)@
                },
            },
    {
        if index >= self.borrows.len() {
            return Err(Error::OutOfBounds);
        }
        let next = match self.borrows[index] {
            BorrowState::Exclusive => {
                return Err(Error::Aliasing);
            },
            BorrowState::Shared(n) => {
                proof {
                    lemma_shared_holders_bounded(self.borrows@, index as int);
                }
                BorrowState::Shared(n + 1)
            },
            BorrowState::Free => BorrowState::Shared(1),
        };
        proof {
            lemma_shared_total_update(self.borrows@, index as int, next);
            lemma_exclusive_total_update(self.borrows@, index as int, next);
        }
        self.borrows.set(index, next);
        self.shared_count = self.shared_count + 1;
        assert(self@ == old(self)@.acquire_shared(index as int));
        Ok(Ref { index })
    }

    /// Borrows element `index` exclusively.
    ///
    /// Fails with `OutOfBounds` past the end and with `Aliasing` where the
    /// element is borrowed in any way; otherwise the element becomes
    /// exclusively held and the guard is returned.
    pub fn get_mut(&mut self, index: usize) -> (r: Result<RefMut, Error>)
        requires
            old(self).wf(),
        ensures
            final(self).wf(),
            match r {
                Ok(g) => {
                    &&& old(self)@.exclusive_error(index as int) is None
                    &&& g.index() == index
                    &&& final(self)@ == old(self)@.acquire_exclusive(index as int)
                    &&& final(self)@.shared_count() == old(self)@.shared_count()
                    &&& final(self)@.exclusive_count() == old(self)@.exclusive_count() + 1
                },
                Err(e) => {
                    &&& old(self)@.exclusive_error(index as int) == Some(e)
                    &&& final(self)@ == old(self)@
                },
            },
    {
        if index >= self.borrows.len() {
            return Err(Error::OutOfBounds);
        }
        if self.borrows[index] != BorrowState::Free {
            return Err(Error::Aliasing);
        }
        proof {
            lemma_exclusive_total_bounded(self.borrows@, index as int);
            lemma_shared_total_update(self.borrows@, index as int, BorrowState::Exclusive);
            lemma_exclusive_total_update(self.borrows@, index as int, BorrowState::Exclusive);
        }
        self.borrows.set(index, BorrowState::Exclusive);
        self.exclusive_count = self.exclusive_count + 1;
        assert(self@ == old(self)@.acquire_exclusive(index as int));
        Ok(RefMut { index })
    }

    /// An empty container.
    pub fn new() -> (r: Self)
        ensures
            r.wf(),
            r@ == VecCellView::<T>::empty(),
            r@.no_guards(),
    {
        Self::with_capacity(0)
    }

    /// An empty container with room reserved for `capacity` elements.
    pub fn with_capacity(capacity: usize) -> (r: Self)
        ensures
            r.wf(),
            r@ == VecCellView::<T>::empty(),
            r@.no_guards(),
    {
        let r = VecCell {
            elems: Vec::with_capacity(capacity),
            borrows: Vec::with_capacity(capacity),
            shared_count: 0,
            exclusive_count: 0,
        };
        assert(r@ =~= VecCellView::<T>::empty());
        r
    }

    /// A container holding `elems` in order, every element free.
    pub fn from_vec(elems: Vec<T>) -> (r: Self)
        ensures
            r.wf(),
            r@.elems == elems@,
            r@.states == Seq::new(elems@.len(), |i: int| BorrowState::Free),
            r@.no_guards(),
    {
        let len = elems.len();
        let mut borrows: Vec<BorrowState> = Vec::with_capacity(len);
        let mut i: usize = 0;
        while i < len
            invariant
                i <= len,
                len == elems@.len(),
                borrows@ =~= Seq::new(i as nat, |j: int| BorrowState::Free),
                shared_total(borrows@) == 0,
                exclusive_total(borrows@) == 0,
            decreases len - i,
        {
            proof {
                lemma_totals_push(borrows@, BorrowState::Free);
            }
            borrows.push(BorrowState::Free);
            i = i + 1;
        }
        VecCell { elems, borrows, shared_count: 0, exclusive_count: 0 }
    }

    /// The number of elements.
    pub fn len(&self) -> (r: usize)
        requires
            self.wf(),
        ensures
            r == self@.len(),
    {
        self.elems.len()
    }

    /// Whether there are no elements.
    pub fn is_empty(&self) -> (r: bool)
        requires
            self.wf(),
        ensures
            r == (self@.len() == 0),
    {
        self.len() == 0
    }

    /// Appends `v`, free. No guard may be outstanding.
    pub fn push(&mut self, v: T)
        requires
            old(self).wf(),
            old(self)@.no_guards(),
        ensures
            final(self).wf(),
            final(self)@ == old(self)@.push(v),
            final(self)@.no_guards(),
    {
        proof {
            lemma_totals_push(self.borrows@, BorrowState::Free);
        }
        self.elems.push(v);
        self.borrows.push(BorrowState::Free);
        assert(self@ == old(self)@.push(v));
    }

    /// Removes and returns the last element, or `None` when there is none.
    /// No guard may be outstanding.
    pub fn pop(&mut self) -> (r: Option<T>)
        requires
            old(self).wf(),
            old(self)@.no_guards(),
        ensures
            final(self).wf(),
            match r {
                Some(v) => {
                    &&& old(self)@.len() > 0
                    &&& v == old(self)@.elems.last()
                    &&& final(self)@ == old(self)@.pop()
                },
                None => old(self)@.len() == 0 && final(self)@ == old(self)@,
            },
            final(self)@.no_guards(),
    {
        if self.borrows.len() == 0 {
            return None;
        }
        proof {
            let states = self.borrows@;
            lemma_totals_push(states.drop_last(), states.last());
            assert(states.drop_last().push(states.last()) =~= states);
        }
        self.borrows.pop();
        let r = self.elems.pop();
        assert(self@ =~= old(self)@.pop());
        r
    }

    /// All elements in order, for reading, unless some element is held
    /// exclusively, which fails with `Aliasing`.
    pub fn try_iter(&self) -> (r: Result<&[T], Error>)
        requires
            self.wf(),
        ensures
            match r {
                Ok(s) => self@.iter_error() is None && s@ == self@.elems,
                Err(e) => self@.iter_error() == Some(e),
            },
    {
        if self.exclusive_count != 0 {
            return Err(Error::Aliasing);
        }
        Ok(self.elems.as_slice())
    }

    /// All elements in order, for writing. No guard may be outstanding.
    ///
    /// The container stays well formed as long as the slice keeps its length,
    /// which writes through it (by index) do.
    pub fn iter_mut(&mut self) -> (r: &mut [T])
        requires
            old(self).wf(),
            old(self)@.no_guards(),
        ensures
            r@ == old(self)@.elems,
            final(r)@.len() == r@.len() ==> final(self).wf(),
            final(self)@.elems == final(r)@,
            final(self)@.states == old(self)@.states,
    {
        self.elems.as_mut_slice()
    }

    /// The elements in order, by value; the container is consumed.
    pub fn into_vec(self) -> (r: Vec<T>)
        requires
            self.wf(),
        ensures
            r@ == self@.elems,
    {
        self.elems
    }

    /// Shared guards outstanding over the whole container.
    pub fn shared_borrow_count(&self) -> (r: usize)
        requires
            self.wf(),
        ensures
            r == self@.shared_count(),
    {
        self.shared_count
    }

    /// Exclusive guards outstanding over the whole container.
    pub fn exclusive_borrow_count(&self) -> (r: usize)
        requires
            self.wf(),
        ensures
            r == self@.exclusive_count(),
    {
        self.exclusive_count
    }

    /// The borrow state of element `index`, or `None` past the end.
    pub fn state(&self, index: usize) -> (r: Option<BorrowState>)
        requires
            self.wf(),
        ensures
            index < self@.len() ==> r == Some(self@.states[index as int]),
            index >= self@.len() ==> r is None,
    {
        if index < self.borrows.len() {
            Some(self.borrows[index])
        } else {
            None
        }
    }
}

impl<T> Default for VecCell<T> {
    fn default() -> (r: Self)
        ensures
            r.wf(),
            r@ == VecCellView::<T>::empty(),
            r@.no_guards(),
    {
        Self::new()
    }
}

impl Ref {
    pub closed spec fn spec_index(&self) -> usize {
        self.index
    }

    /// The index of the borrowed element.
    #[verifier::when_used_as_spec(spec_index)]
    pub fn index(&self) -> (r: usize)
        ensures
            r == self.spec_index(),
    {
        self.index
    }

    /// The borrowed element.
    pub fn deref<'a, T>(&self, vec: &'a VecCell<T>) -> (r: &'a T)
        requires
            vec.wf(),
            vec@.is_shared(self.index() as int),
        ensures
            *r == vec@.elems[self.index() as int],
    {
        &vec.elems[self.index]
    }

    /// Gives the borrow back: one shared guard fewer on the element, which
    /// is free again once its last shared guard is released.
    pub fn release<T>(self, vec: &mut VecCell<T>)
        requires
            old(vec).wf(),
            old(vec)@.is_shared(self.index() as int),
        ensures
            final(vec).wf(),
            final(vec)@ == old(vec)@.release_shared(self.index() as int),
            final(vec)@.shared_count() == old(vec)@.shared_count() - 1,
            final(vec)@.exclusive_count() == old(vec)@.exclusive_count(),
    {
        let i = self.index;
        let next = match vec.borrows[i] {
            BorrowState::Shared(n) => if n > 1 {
                BorrowState::Shared(n - 1)
            } else {
                BorrowState::Free
            },
            _ => BorrowState::Free,
        };
        proof {
            lemma_shared_total_update(vec.borrows@, i as int, next);
            lemma_exclusive_total_update(vec.borrows@, i as int, next);
        }
        vec.borrows.set(i, next);
        vec.shared_count = vec.shared_count - 1;
        assert(vec@ == old(vec)@.release_shared(i as int));
    }
}

impl RefMut {
    pub closed spec fn spec_index(&self) -> usize {
        self.index
    }

    /// The index of the borrowed element.
    #[verifier::when_used_as_spec(spec_index)]
    pub fn index(&self) -> (r: usize)
        ensures
            r == self.spec_index(),
    {
        self.index
    }

    /// The borrowed element.
    pub fn deref<'a, T>(&self, vec: &'a VecCell<T>) -> (r: &'a T)
        requires
            vec.wf(),
            vec@.is_exclusive(self.index() as int),
        ensures
            *r == vec@.elems[self.index() as int],
    {
        &vec.elems[self.index]
    }

    /// The borrowed element, for writing; nothing else of the container
    /// changes through it.
    pub fn deref_mut<'a, T>(&self, vec: &'a mut VecCell<T>) -> (r: &'a mut T)
        requires
            old(vec).wf(),
            old(vec)@.is_exclusive(self.index() as int),
        ensures
            *r == old(vec)@.elems[self.index() as int],
            final(vec).wf(),
            final(vec)@ == old(vec)@.write(self.index() as int, *final(r)),
    {
        &mut vec.elems[self.index]
    }

    /// Gives the borrow back: the element is free again.
    pub fn release<T>(self, vec: &mut VecCell<T>)
        requires
            old(vec).wf(),
            old(vec)@.is_exclusive(self.index() as int),
        ensures
            final(vec).wf(),
            final(vec)@ == old(vec)@.release_exclusive(self.index() as int),
            final(vec)@.shared_count() == old(vec)@.shared_count(),
            final(vec)@.exclusive_count() == old(vec)@.exclusive_count() - 1,
    {
        let i = self.index;
        proof {
            lemma_shared_total_update(vec.borrows@, i as int, BorrowState::Free);
            lemma_exclusive_total_update(vec.borrows@, i as int, BorrowState::Free);
        }
        vec.borrows.set(i, BorrowState::Free);
        vec.exclusive_count = vec.exclusive_count - 1;
        assert(vec@ == old(vec)@.release_exclusive(i as int));
    }
}

} // verus!
