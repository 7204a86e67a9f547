use tablefmt::utils::evenly_split_width;

#[test]
fn test_evently_split_width() {
    assert_eq!(evenly_split_width(20, 2), vec![10, 10]);
    assert_eq!(evenly_split_width(19, 2), vec![9, 10]);
    assert_eq!(evenly_split_width(19, 4), vec![4, 5, 5, 5]);
    assert_eq!(evenly_split_width(18, 4), vec![4, 5, 4, 5]);
}

#[test]
fn split_zero_columns_is_empty() {
    assert_eq!(evenly_split_width(17, 0), Vec::<usize>::new());
}

#[test]
fn split_zero_width() {
    assert_eq!(evenly_split_width(0, 3), vec![0, 0, 0]);
}

#[test]
fn split_sums_and_spread() {
    for width in 0..60usize {
        for cols in 1..12usize {
            let parts = evenly_split_width(width, cols);
            assert_eq!(parts.len(), cols);
            assert_eq!(parts.iter().sum::<usize>(), width);
            let max = *parts.iter().max().unwrap();
            let min = *parts.iter().min().unwrap();
            assert!(max - min <= 1);
        }
    }
}

#[test]
fn split_single_column_takes_all() {
    assert_eq!(evenly_split_width(7, 1), vec![7]);
}
