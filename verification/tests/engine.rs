use fixed_bump::Bump;

#[test]
fn mod_empty() {
    Bump::<16, 1>::new();
}

#[test]
fn mod_basic() {
    let mut bump = Bump::<16, 1>::new();
    let item1 = bump.alloc_value(1_u8);
    let item2 = bump.alloc_value(2_u8);
    let item3 = bump.alloc_value(3_u8);
    assert_eq!(bump.read_value(&item1), 1_u8);
    assert_eq!(bump.read_value(&item2), 2_u8);
    assert_eq!(bump.read_value(&item3), 3_u8);
}

#[test]
fn mod_multiple_chunks() {
    let mut bump = Bump::<2, 1>::new();
    let item1 = bump.alloc_value(1_u8);
    let item2 = bump.alloc_value(2_u8);
    let item3 = bump.alloc_value(3_u8);
    let item4 = bump.alloc_value(4_u8);
    let item5 = bump.alloc_value(5_u8);
    assert_eq!(bump.read_value(&item1), 1_u8);
    assert_eq!(bump.read_value(&item2), 2_u8);
    assert_eq!(bump.read_value(&item3), 3_u8);
    assert_eq!(bump.read_value(&item4), 4_u8);
    assert_eq!(bump.read_value(&item5), 5_u8);
}

#[test]
fn multiple_types() {
    let mut bump = Bump::<16, 8>::new();
    let item1 = bump.alloc_value(1_u8);
    let item2 = bump.alloc_value(2_u32);
    let item3 = bump.alloc_value(3_u64);
    let item4 = bump.alloc_value(4_u64);
    let item5 = bump.alloc_value(5_u16);
    let item6 = bump.alloc_value(6_u8);
    let item7 = bump.alloc_value(7_u32);
    let item8 = bump.alloc_value(8_u32);
    let item9 = bump.alloc_value(9_u8);
    let item10 = bump.alloc_value(10_u64);
    let item11 = bump.alloc_value(11_u64);
    assert_eq!(bump.read_value(&item1), 1);
    assert_eq!(bump.read_value(&item2), 2);
    assert_eq!(bump.read_value(&item3), 3);
    assert_eq!(bump.read_value(&item4), 4);
    assert_eq!(bump.read_value(&item5), 5);
    assert_eq!(bump.read_value(&item6), 6);
    assert_eq!(bump.read_value(&item7), 7);
    assert_eq!(bump.read_value(&item8), 8);
    assert_eq!(bump.read_value(&item9), 9);
    assert_eq!(bump.read_value(&item10), 10);
    assert_eq!(bump.read_value(&item11), 11);
}

#[test]
#[should_panic]
fn zero_chunk_size() {
    let mut bump = Bump::<0, 1>::new();
    for i in 0..4_u32 {
        let _ = bump.alloc_value(i);
    }
}
