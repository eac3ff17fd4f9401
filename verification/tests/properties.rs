use fixed_bump::{Bump, DynamicBump, Layout, Region};

#[test]
fn fresh_engine_grants_within_shape() {
    let mut d = DynamicBump::new(Layout::from_size_align(16, 4).unwrap());
    assert!(d.allocate(Layout::from_size_align(16, 8).unwrap()).is_some());
    let mut d2 = DynamicBump::new(Layout::from_size_align(16, 4).unwrap());
    assert!(d2.allocate(Layout::from_size_align(1, 1).unwrap()).is_some());
}

#[test]
fn oversize_always_fails() {
    let mut d = DynamicBump::new(Layout::from_size_align(16, 1).unwrap());
    assert!(d.allocate(Layout::from_size_align(20, 1).unwrap()).is_none());
    assert_eq!(d.chunk_count(), 0);
    let r = d.allocate(Layout::from_size_align(16, 1).unwrap());
    assert_eq!(r, Some(Region { chunk: 0, start: 0, len: 16 }));
    assert!(d.allocate(Layout::from_size_align(17, 1).unwrap()).is_none());
    assert_eq!(d.chunk_count(), 1);
}

#[test]
fn overalign_always_fails() {
    let mut d = DynamicBump::new(Layout::from_size_align(16, 1).unwrap());
    assert!(d.allocate(Layout::from_size_align(1, 16).unwrap()).is_none());
    assert_eq!(d.chunk_count(), 0);
    assert!(d.allocate(Layout::from_size_align(1, 8).unwrap()).is_some());
}

#[test]
fn carve_rounds_down_and_keeps_slack() {
    let mut d = DynamicBump::new(Layout::from_size_align(16, 8).unwrap());
    let r1 = d.allocate(Layout::from_size_align(3, 4).unwrap()).unwrap();
    assert_eq!(r1, Region { chunk: 0, start: 12, len: 4 });
    let r2 = d.allocate(Layout::from_size_align(1, 1).unwrap()).unwrap();
    assert_eq!(r2, Region { chunk: 0, start: 11, len: 1 });
    let r3 = d.allocate(Layout::from_size_align(8, 8).unwrap()).unwrap();
    assert_eq!(r3, Region { chunk: 0, start: 0, len: 11 });
}

#[test]
fn zero_size_request() {
    let mut d = DynamicBump::new(Layout::from_size_align(4, 1).unwrap());
    let r = d.allocate(Layout::from_size_align(0, 1).unwrap()).unwrap();
    assert_eq!(r, Region { chunk: 0, start: 4, len: 0 });
}

#[test]
fn chunk_accounting() {
    let mut bump = Bump::<2, 1>::new();
    assert_eq!(bump.chunk_count(), 0);
    let _ = bump.alloc_value(1_u8);
    assert_eq!(bump.chunk_count(), 1);
    let _ = bump.alloc_value(2_u8);
    assert_eq!(bump.chunk_count(), 1);
    let _ = bump.alloc_value(3_u8);
    assert_eq!(bump.chunk_count(), 2);
    let _ = bump.alloc_value(4_u8);
    assert_eq!(bump.chunk_count(), 2);
    let _ = bump.alloc_value(5_u8);
    assert_eq!(bump.chunk_count(), 3);
}

#[test]
fn teardown_releases_every_chunk() {
    let empty = Bump::<16, 1>::new();
    assert_eq!(empty.teardown(), 0);
    let mut bump = Bump::<2, 1>::new();
    for i in 0..5_u8 {
        let _ = bump.alloc_value(i);
    }
    assert_eq!(bump.teardown(), 3);
}

#[test]
fn regions_stay_disjoint() {
    let mut d = DynamicBump::new(Layout::from_size_align(8, 8).unwrap());
    let a = d.alloc_value(0x1122_3344_u32);
    let b = d.alloc_value(0x55_u8);
    let c = d.alloc_value(0x6677_u16);
    let e = d.alloc_value(0x8899_aabb_ccdd_eeff_u64);
    let spans = [
        (a.chunk, a.start, a.start + a.len),
        (b.chunk, b.start, b.start + b.len),
        (c.chunk, c.start, c.start + c.len),
        (e.chunk, e.start, e.start + e.len),
    ];
    for i in 0..spans.len() {
        for j in 0..spans.len() {
            if i != j {
                let (ci, si, ei) = spans[i];
                let (cj, sj, ej) = spans[j];
                assert!(ci != cj || ei <= sj || ej <= si);
            }
        }
    }
    assert_eq!(d.read_value(&a), 0x1122_3344_u32);
    assert_eq!(d.read_value(&b), 0x55_u8);
    assert_eq!(d.read_value(&c), 0x6677_u16);
    assert_eq!(d.read_value(&e), 0x8899_aabb_ccdd_eeff_u64);
}

#[test]
fn try_alloc_value_returns_value_on_failure() {
    let mut bump = Bump::<2, 1>::new();
    match bump.try_alloc_value(7_u32) {
        Ok(_) => panic!("a four-byte value cannot fit a two-byte chunk"),
        Err(v) => assert_eq!(v, 7_u32),
    }
    assert_eq!(bump.chunk_count(), 0);
}

#[test]
fn can_allocate_matches_shape() {
    let bump = Bump::<16, 1>::new();
    assert!(bump.can_allocate(Layout::from_size_align(16, 1).unwrap()));
    assert!(bump.can_allocate(Layout::from_size_align(16, 8).unwrap()));
    assert!(!bump.can_allocate(Layout::from_size_align(17, 1).unwrap()));
    assert!(!bump.can_allocate(Layout::from_size_align(1, 16).unwrap()));
}

#[test]
fn layout_rejects_bad_alignment() {
    assert!(Layout::from_size_align(5, 3).is_none());
    assert!(Layout::from_size_align(5, 0).is_none());
    assert!(Layout::from_size_align(5, 6).is_none());
    assert!(Layout::from_size_align(5, 4).is_some());
}

#[test]
fn values_survive_later_allocations() {
    let mut bump = Bump::<8, 8>::new();
    let h1 = bump.alloc_value(0xdead_beef_u32);
    let mut handles = Vec::new();
    for i in 0..20_u64 {
        handles.push(bump.alloc_value(i * 3 + 1));
    }
    assert_eq!(bump.read_value(&h1), 0xdead_beef_u32);
    for (i, h) in handles.iter().enumerate() {
        assert_eq!(bump.read_value(h), (i as u64) * 3 + 1);
    }
}
