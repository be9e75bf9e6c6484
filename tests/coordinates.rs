use lemerk::data::{checked_pow2, DepthOffset, Index};
use lemerk::error::IndexError;

#[test]
fn root_coordinate_is_position_one() {
    let i = Index::try_from(DepthOffset { depth: 0, offset: 0 }).unwrap();
    assert_eq!(i, Index(1));
}

#[test]
fn depth_offset_to_index_exact_values() {
    assert_eq!(Index::try_from(DepthOffset { depth: 1, offset: 0 }), Ok(Index(2)));
    assert_eq!(Index::try_from(DepthOffset { depth: 1, offset: 1 }), Ok(Index(3)));
    assert_eq!(Index::try_from(DepthOffset { depth: 3, offset: 5 }), Ok(Index(13)));
}

#[test]
fn offset_out_of_level_is_bad_offset() {
    assert_eq!(
        Index::try_from(DepthOffset { depth: 2, offset: 4 }),
        Err(IndexError::IndexBadOffset)
    );
    assert_eq!(
        Index::try_from(DepthOffset { depth: 0, offset: 1 }),
        Err(IndexError::IndexBadOffset)
    );
}

#[test]
fn position_past_usize_is_overflow() {
    assert_eq!(
        Index::try_from(DepthOffset { depth: usize::BITS as usize, offset: 0 }),
        Err(IndexError::IndexOverflow)
    );
    assert_eq!(
        Index::try_from(DepthOffset { depth: 200, offset: 3 }),
        Err(IndexError::IndexOverflow)
    );
}

#[test]
fn deepest_level_that_fits() {
    let d = usize::BITS as usize - 1;
    let last = Index::try_from(DepthOffset { depth: d, offset: (1usize << d) - 1 });
    assert_eq!(last, Ok(Index(usize::MAX)));
}

#[test]
fn index_to_depth_offset_exact_values() {
    assert_eq!(DepthOffset::try_from(Index(1)), Ok(DepthOffset { depth: 0, offset: 0 }));
    assert_eq!(DepthOffset::try_from(Index(3)), Ok(DepthOffset { depth: 1, offset: 1 }));
    assert_eq!(DepthOffset::try_from(Index(13)), Ok(DepthOffset { depth: 3, offset: 5 }));
    assert_eq!(
        DepthOffset::try_from(Index(usize::MAX)),
        Ok(DepthOffset { depth: usize::BITS as usize - 1, offset: (1usize << (usize::BITS - 1)) - 1 })
    );
}

#[test]
fn position_zero_has_no_coordinate() {
    assert_eq!(DepthOffset::try_from(Index(0)), Err(IndexError::IndexNoDepthOffset));
}

#[test]
fn index_round_trips_through_depth_offset() {
    for i in 1usize..300 {
        let d = DepthOffset::try_from(Index(i)).unwrap();
        assert_eq!(Index::try_from(d), Ok(Index(i)));
    }
    let top = DepthOffset::try_from(Index(usize::MAX)).unwrap();
    assert_eq!(Index::try_from(top), Ok(Index(usize::MAX)));
}

#[test]
fn depth_offset_round_trips_through_index() {
    for depth in 0usize..6 {
        for offset in 0usize..(1usize << depth) {
            let d = DepthOffset { depth, offset };
            let i = Index::try_from(d).unwrap();
            assert_eq!(DepthOffset::try_from(i), Ok(d));
        }
    }
}

#[test]
fn index_from_and_get_index() {
    let i = Index::from(42);
    assert_eq!(i.get_index(), 42);
}

#[test]
fn checked_pow2_values() {
    assert_eq!(checked_pow2(0), Some(1));
    assert_eq!(checked_pow2(10), Some(1024));
    assert_eq!(checked_pow2(usize::BITS as usize - 1), Some(1usize << (usize::BITS - 1)));
    assert_eq!(checked_pow2(usize::BITS as usize), None);
}
