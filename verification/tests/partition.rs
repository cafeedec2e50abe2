use xcopr::partition::batch_bounds;
use xcopr::partition::count_batches;
use xcopr::XcoprError;

#[test]
fn counts_round_up() {
    assert_eq!(count_batches(3, 2), Ok(2));
    assert_eq!(count_batches(4, 2), Ok(2));
    assert_eq!(count_batches(5, 2), Ok(3));
    assert_eq!(count_batches(5, 1), Ok(5));
    assert_eq!(count_batches(1, 10), Ok(1));
    assert_eq!(count_batches(10, 10), Ok(1));
    assert_eq!(count_batches(11, 10), Ok(2));
}

#[test]
fn no_lines_make_no_batch() {
    assert_eq!(count_batches(0, 1), Ok(0));
    assert_eq!(count_batches(0, 7), Ok(0));
    assert_eq!(batch_bounds(0, 7, 0), Ok(None));
}

#[test]
fn zero_batch_size_is_refused() {
    assert_eq!(count_batches(3, 0), Err(XcoprError::InvalidBatchSize));
    assert_eq!(count_batches(0, 0), Err(XcoprError::InvalidBatchSize));
    assert_eq!(batch_bounds(3, 0, 0), Err(XcoprError::InvalidBatchSize));
}

#[test]
fn bounds_of_three_lines_in_twos() {
    assert_eq!(batch_bounds(3, 2, 0), Ok(Some((0, 2))));
    assert_eq!(batch_bounds(3, 2, 1), Ok(Some((2, 3))));
    assert_eq!(batch_bounds(3, 2, 2), Ok(None));
    assert_eq!(batch_bounds(3, 2, usize::MAX), Ok(None));
}

#[test]
fn bounds_near_the_largest_numbers() {
    assert_eq!(count_batches(usize::MAX, usize::MAX), Ok(1));
    assert_eq!(count_batches(usize::MAX, 1), Ok(usize::MAX));
    assert_eq!(batch_bounds(usize::MAX, usize::MAX, 0), Ok(Some((0, usize::MAX))));
    assert_eq!(
        batch_bounds(usize::MAX, 1, usize::MAX - 1),
        Ok(Some((usize::MAX - 1, usize::MAX)))
    );
    assert_eq!(batch_bounds(usize::MAX, usize::MAX - 1, 1), Ok(Some((usize::MAX - 1, usize::MAX))));
}

#[test]
fn every_batch_but_the_last_is_full() {
    for line_count in 1usize..60 {
        for batch_size in 1usize..12 {
            let count: usize = count_batches(line_count, batch_size).unwrap();
            assert_eq!(count, (line_count + batch_size - 1) / batch_size);
            let mut next: usize = 0;
            for index in 0..count {
                let (start, end) = batch_bounds(line_count, batch_size, index).unwrap().unwrap();
                assert_eq!(start, next);
                if index + 1 < count {
                    assert_eq!(end - start, batch_size);
                } else {
                    assert!(end - start >= 1 && end - start <= batch_size);
                    assert_eq!(end, line_count);
                }
                next = end;
            }
            assert_eq!(next, line_count);
            assert_eq!(batch_bounds(line_count, batch_size, count), Ok(None));
        }
    }
}
