use fixed_bump::{DynamicBump, Layout, Rc, RcBump};

#[test]
fn rc_empty() {
    RcBump::<16, 1>::new();
}

#[test]
fn rc_shared_handles() {
    let rc = RcBump::<16, 1>::new();
    let rc2 = rc.clone();
    let l = Layout::from_size_align(8, 8).unwrap();
    assert!(rc.get().can_allocate(l));
    assert!(rc2.get().can_allocate(l));
    assert_eq!(rc.get().chunk_count(), 0);
    assert_eq!(rc2.get().chunk_count(), 0);
}

#[test]
fn rc_wraps_engine() {
    let shape = Layout::from_size_align(4, 1).unwrap();
    let rc = Rc::new(DynamicBump::new(shape));
    let rc2 = rc.clone();
    assert_eq!(rc.get().layout(), shape);
    assert_eq!(rc2.get().layout(), shape);
}
