use unsafe_cell_slice::UnsafeCellSlice;

#[test]
fn empty() {
    {
        let data: Vec<u8> = vec![];
        let data = UnsafeCellSlice::new(data);
        assert!(data.is_empty());
    }
    {
        let data: Vec<u8> = vec![1];
        let data = UnsafeCellSlice::new(data);
        assert!(!data.is_empty());
    }
}

#[test]
fn length_reported_matches_region() {
    let view: UnsafeCellSlice<u32> = UnsafeCellSlice::new(vec![]);
    assert_eq!(view.len(), 0);
    assert!(view.is_empty());

    let view = UnsafeCellSlice::new(vec![9u32]);
    assert_eq!(view.len(), 1);
    assert!(!view.is_empty());

    let view = UnsafeCellSlice::new(vec![1u32, 2, 3, 4, 5]);
    assert_eq!(view.len(), 5);
    assert!(!view.is_empty());
}

#[test]
fn accessors_reach_the_same_location_as_ordinary_indexing() {
    let region = vec![5u8, 6, 7];
    let mut view = UnsafeCellSlice::new(region.clone());
    assert_eq!(*view.index_mut(1), 6);
    assert_eq!(*view.get_mut(1).unwrap(), 6);

    *view.get_mut(1).unwrap() = 60;
    let out = view.into_region();
    assert_eq!(out[0], region[0]);
    assert_eq!(out[1], 60);
    assert_eq!(out[2], region[2]);
}

#[test]
fn out_of_bounds_position_is_absent() {
    let mut view = UnsafeCellSlice::new(vec![1u8, 2, 3]);
    assert!(view.get_mut(3).is_none());
    assert!(view.get_mut(4).is_none());
    assert!(view.get_mut(usize::MAX).is_none());
    assert!(view.get_mut(2).is_some());
}

#[test]
fn disjoint_writes_are_independent() {
    let mut view = UnsafeCellSlice::new(vec![0u8, 0, 0, 0]);
    *view.index_mut(0) = 10;
    *view.index_mut(3) = 20;
    let out = view.into_region();
    assert_eq!(out, vec![10, 0, 0, 20]);
}

#[test]
fn simultaneously_live_references_to_disjoint_positions() {
    let mut view = UnsafeCellSlice::new(vec![1u8, 2, 3, 4]);
    let (a, b) = view.index_pair_mut(3, 1);
    assert_eq!(*a, 4);
    assert_eq!(*b, 2);
    *a = 40;
    *b = 20;
    assert_eq!(*a, 40);
    assert_eq!(*b, 20);
    assert_eq!(view.into_region(), vec![1, 20, 3, 40]);
}

#[test]
fn empty_region_scenario() {
    let mut view: UnsafeCellSlice<u8> = UnsafeCellSlice::new(vec![]);
    assert!(view.is_empty());
    assert!(view.get_mut(0).is_none());
}

#[test]
fn region_reverts_to_owner_unchanged_without_writes() {
    let region = vec![3u16, 1, 4, 1, 5];
    let view = UnsafeCellSlice::new(region.clone());
    assert_eq!(view.into_region(), region);
}
