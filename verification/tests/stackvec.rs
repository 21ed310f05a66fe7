use gbaemu_core::stackvec::{StackVec, ToStackVec};

#[test]
fn init() {
    let s = [1, 2, 3].to_stack_vec();
    let mut it = s.into_iter();
    while let Some(v) = it.next() {
        println!("{v}");
    }
}

#[test]
fn stack_vec_push_and_index() {
    let mut s: StackVec<u8, 3> = StackVec::new();
    assert_eq!(s.push(7), Ok(1));
    assert_eq!(s.push(9), Ok(2));
    assert_eq!(s.len(), 2);
    assert_eq!(s.capacity(), 3);
    assert_eq!(s.index(0), 7);
    assert_eq!(s.index(1), 9);
    assert!(s.contains(9));
    assert!(!s.contains(8));
}

#[test]
fn stack_vec_iterates_in_order() {
    let s = [4u32, 5, 6].to_stack_vec();
    let mut it = s.into_iter();
    assert_eq!(it.next(), Some(4));
    assert_eq!(it.next(), Some(5));
    assert_eq!(it.next(), Some(6));
    assert_eq!(it.next(), None);
    assert_eq!(it.next(), None);
}

#[test]
fn stack_vec_push_onto_full_is_refused() {
    let mut s: StackVec<u8, 2> = StackVec::new();
    assert_eq!(s.push(1), Ok(1));
    assert_eq!(s.push(2), Ok(2));
    assert_eq!(s.push(3), Err(()));
    assert_eq!(s.len(), 2);
    assert_eq!(s.index(1), 2);
}
