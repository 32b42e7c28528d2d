use vec_cell::{BorrowState, Error, VecCell};

#[test]
fn two_exclusive_borrows_mutate_independently() {
    let mut v = VecCell::from_vec(vec![1, 2]);
    let a = v.get_mut(0).unwrap();
    let b = v.get_mut(1).unwrap();
    *a.deref_mut(&mut v) += 1;
    *b.deref_mut(&mut v) += 1;
    assert_eq!(*a.deref(&v), 2);
    assert_eq!(*b.deref(&v), 3);
    assert_eq!(v.get_mut(0).err(), Some(Error::Aliasing));
}

#[test]
fn iteration_refused_while_exclusive_held() {
    let mut v = VecCell::from_vec(vec![1, 2]);
    assert_eq!(v.try_iter().unwrap(), &[1, 2]);
    let a = v.get_mut(0).unwrap();
    assert_eq!(v.try_iter().err(), Some(Error::Aliasing));
    a.release(&mut v);
    assert_eq!(v.try_iter().unwrap(), &[1, 2]);
}

#[test]
fn push_twice_pop_once() {
    let mut v: VecCell<i32> = VecCell::new();
    v.push(10);
    v.push(20);
    assert_eq!(v.pop(), Some(20));
    assert_eq!(v.len(), 1);
    let g = v.get(0).unwrap();
    assert_eq!(*g.deref(&v), 10);
}

#[test]
fn exclusive_refused_while_shared_held() {
    let mut v = VecCell::from_vec(vec![5, 6, 7]);
    let g = v.get(1).unwrap();
    assert_eq!(v.get_mut(1).err(), Some(Error::Aliasing));
    assert_eq!(*g.deref(&v), 6);
    g.release(&mut v);
    assert!(v.get_mut(1).is_ok());
}

#[test]
fn shared_refused_while_exclusive_held() {
    let mut v = VecCell::from_vec(vec![5, 6, 7]);
    let g = v.get_mut(2).unwrap();
    assert_eq!(v.get(2).err(), Some(Error::Aliasing));
    assert!(v.get(1).is_ok());
    g.release(&mut v);
    assert!(v.get(2).is_ok());
}

#[test]
fn out_of_bounds_for_both_borrows() {
    let mut v = VecCell::from_vec(vec![1, 2]);
    assert_eq!(v.get(2).err(), Some(Error::OutOfBounds));
    assert_eq!(v.get_mut(2).err(), Some(Error::OutOfBounds));
    assert_eq!(v.get(usize::MAX).err(), Some(Error::OutOfBounds));
    assert_eq!(v.get_mut(usize::MAX).err(), Some(Error::OutOfBounds));
    let mut e: VecCell<u8> = VecCell::new();
    assert_eq!(e.get(0).err(), Some(Error::OutOfBounds));
    assert_eq!(e.get_mut(0).err(), Some(Error::OutOfBounds));
}

#[test]
fn out_of_bounds_checked_before_aliasing() {
    let mut v = VecCell::from_vec(vec![1]);
    let _g = v.get_mut(0).unwrap();
    assert_eq!(v.get_mut(1).err(), Some(Error::OutOfBounds));
    assert_eq!(v.get(1).err(), Some(Error::OutOfBounds));
}

#[test]
fn release_restores_free() {
    let mut v = VecCell::from_vec(vec![1, 2]);
    let a = v.get_mut(0).unwrap();
    assert_eq!(v.state(0), Some(BorrowState::Exclusive));
    a.release(&mut v);
    assert_eq!(v.state(0), Some(BorrowState::Free));
    let s = v.get(1).unwrap();
    assert_eq!(v.state(1), Some(BorrowState::Shared(1)));
    s.release(&mut v);
    assert_eq!(v.state(1), Some(BorrowState::Free));
    assert!(v.get_mut(0).is_ok());
    assert!(v.get_mut(1).is_ok());
}

#[test]
fn shared_guards_on_different_elements_release_independently() {
    let mut v = VecCell::from_vec(vec![1, 2]);
    let a = v.get(0).unwrap();
    let b = v.get(1).unwrap();
    a.release(&mut v);
    assert_eq!(v.state(0), Some(BorrowState::Free));
    assert!(v.get_mut(0).is_ok());
    assert_eq!(*b.deref(&v), 2);
    assert_eq!(v.get_mut(1).err(), Some(Error::Aliasing));
}

#[test]
fn shared_guards_on_one_element_stack() {
    let mut v = VecCell::from_vec(vec![4]);
    let a = v.get(0).unwrap();
    let b = v.get(0).unwrap();
    assert_eq!(v.state(0), Some(BorrowState::Shared(2)));
    assert_eq!(v.shared_borrow_count(), 2);
    a.release(&mut v);
    assert_eq!(v.state(0), Some(BorrowState::Shared(1)));
    assert_eq!(v.get_mut(0).err(), Some(Error::Aliasing));
    assert_eq!(*b.deref(&v), 4);
    b.release(&mut v);
    assert_eq!(v.state(0), Some(BorrowState::Free));
    assert_eq!(v.shared_borrow_count(), 0);
}

#[test]
fn shared_borrows_allow_iteration() {
    let mut v = VecCell::from_vec(vec![1, 2, 3]);
    let _a = v.get(0).unwrap();
    let _b = v.get(2).unwrap();
    assert_eq!(v.try_iter().unwrap(), &[1, 2, 3]);
}

#[test]
fn exclusive_on_any_element_blocks_iteration() {
    let mut v = VecCell::from_vec(vec![1, 2, 3]);
    let c = v.get_mut(2).unwrap();
    assert_eq!(v.exclusive_borrow_count(), 1);
    assert_eq!(v.try_iter().err(), Some(Error::Aliasing));
    c.release(&mut v);
    assert_eq!(v.exclusive_borrow_count(), 0);
    assert!(v.try_iter().is_ok());
}

#[test]
fn counters_follow_guards() {
    let mut v = VecCell::from_vec(vec![1, 2, 3]);
    let a = v.get(0).unwrap();
    let b = v.get_mut(1).unwrap();
    let c = v.get_mut(2).unwrap();
    assert_eq!(v.shared_borrow_count(), 1);
    assert_eq!(v.exclusive_borrow_count(), 2);
    b.release(&mut v);
    c.release(&mut v);
    a.release(&mut v);
    assert_eq!(v.shared_borrow_count(), 0);
    assert_eq!(v.exclusive_borrow_count(), 0);
}

#[test]
fn guard_reports_its_index() {
    let mut v = VecCell::from_vec(vec![1, 2, 3]);
    assert_eq!(v.get(2).unwrap().index(), 2);
    assert_eq!(v.get_mut(1).unwrap().index(), 1);
}

#[test]
fn iter_mut_writes_all() {
    let mut v = VecCell::from_vec(vec![1, 2, 3]);
    for x in v.iter_mut() {
        *x *= 10;
    }
    assert_eq!(v.try_iter().unwrap(), &[10, 20, 30]);
}

#[test]
fn into_vec_keeps_order() {
    let mut v = VecCell::with_capacity(4);
    v.push('a');
    v.push('b');
    v.push('c');
    assert_eq!(v.into_vec(), vec!['a', 'b', 'c']);
}

#[test]
fn pop_on_empty_is_none() {
    let mut v: VecCell<u32> = VecCell::default();
    assert!(v.is_empty());
    assert_eq!(v.pop(), None);
    assert_eq!(v.len(), 0);
}

#[test]
fn from_vec_starts_free() {
    let v = VecCell::from_vec(vec![3, 1, 2]);
    assert_eq!(v.len(), 3);
    assert!(!v.is_empty());
    assert_eq!(v.state(0), Some(BorrowState::Free));
    assert_eq!(v.state(2), Some(BorrowState::Free));
    assert_eq!(v.state(3), None);
    assert_eq!(v.shared_borrow_count(), 0);
    assert_eq!(v.exclusive_borrow_count(), 0);
}

#[test]
fn error_messages() {
    assert_eq!(Error::OutOfBounds.message(), "Out of bounds index");
    assert_eq!(Error::Aliasing.message(), "Borrow would lead to illegal aliasing");
}

#[test]
fn writes_through_guard_touch_only_its_element() {
    let mut v = VecCell::from_vec(vec![1, 2, 3]);
    let b = v.get_mut(1).unwrap();
    *b.deref_mut(&mut v) = 9;
    b.release(&mut v);
    assert_eq!(v.try_iter().unwrap(), &[1, 9, 3]);
}
