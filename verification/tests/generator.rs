use chronos::error::TsoError;
use chronos::runtime::generator::Generator;
use chronos::tso::{encode_tso, SEQUENCE_CAPACITY};

#[test]
fn allocate_after_splits_ranges_across_physical_boundaries() {
    let mut generator = Generator::new(7);

    let ranges = generator
        .allocate_after(SEQUENCE_CAPACITY + 1, None, 5, 2, 0, None)
        .expect("allocation should succeed");

    assert_eq!(ranges.len(), 2);
    assert_eq!(ranges[0].start_tso, encode_tso(5, 7, 0).unwrap());
    assert_eq!(
        ranges[0].end_tso,
        encode_tso(5, 7, SEQUENCE_CAPACITY - 1).unwrap()
    );
    assert_eq!(ranges[1].start_tso, encode_tso(6, 7, 0).unwrap());
    assert_eq!(ranges[1].end_tso, encode_tso(6, 7, 0).unwrap());
}

#[test]
fn allocate_after_respects_floor_cursor() {
    let mut generator = Generator::new(3);
    let floor = encode_tso(8, 3, 9).unwrap();

    let ranges = generator
        .allocate_after(2, Some(floor), 1, 10, 0, None)
        .expect("allocation should honor floor");

    assert_eq!(ranges.len(), 1);
    assert_eq!(ranges[0].start_tso, encode_tso(8, 3, 10).unwrap());
    assert_eq!(ranges[0].end_tso, encode_tso(8, 3, 11).unwrap());
}

#[test]
fn allocate_after_rejects_clock_rewind_beyond_limit() {
    let mut generator = Generator::new(5);
    generator.next_index = SEQUENCE_CAPACITY as u64 * 10;

    let error = generator
        .allocate_after(1, None, 5, 0, 2, None)
        .expect_err("rewind beyond limit should fail");

    assert_eq!(error, TsoError::ClockBackwards { delta_ms: 5 });
}

#[test]
fn allocate_after_rejects_future_borrow_beyond_limit() {
    let mut generator = Generator::new(4);

    let error = generator
        .allocate_after(1, Some(encode_tso(20, 4, 0).unwrap()), 1, 0, 0, None)
        .expect_err("future borrow beyond limit should fail");

    assert_eq!(
        error,
        TsoError::FutureBorrowExceeded {
            requested_physical_ms: 20,
            allowed_physical_ms: 1,
        }
    );
}

#[test]
fn allocate_after_rejects_requests_beyond_issued_upper_bound() {
    let mut generator = Generator::new(6);
    let upper_bound = encode_tso(3, 6, 1).unwrap();

    let error = generator
        .allocate_after(3, None, 3, 0, 0, Some(upper_bound))
        .expect_err("upper bound should cap allocation");

    assert_eq!(
        error,
        TsoError::IssuedUpperBoundExceeded {
            requested_end_tso: encode_tso(3, 6, 2).unwrap(),
            issued_upper_bound: upper_bound,
        }
    );
}
