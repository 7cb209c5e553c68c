use blackbird::order::processing_order;

#[test]
fn identifiers_come_out_ascending() {
    assert_eq!(processing_order(&vec![7, 3, 12, 1]), vec![1, 3, 7, 12]);
}

#[test]
fn sorted_and_reversed_input() {
    assert_eq!(processing_order(&vec![1, 2, 3]), vec![1, 2, 3]);
    assert_eq!(processing_order(&vec![3, 2, 1]), vec![1, 2, 3]);
}

#[test]
fn empty_and_single() {
    assert_eq!(processing_order(&vec![]), Vec::<u32>::new());
    assert_eq!(processing_order(&vec![5]), vec![5]);
}

#[test]
fn repeated_identifier_counts_once() {
    assert_eq!(processing_order(&vec![4, 2, 4, 2, 4]), vec![2, 4]);
}

#[test]
fn extremes_of_the_range() {
    assert_eq!(processing_order(&vec![u32::MAX, 0, 1]), vec![0, 1, u32::MAX]);
}

#[test]
fn order_agrees_with_sort_and_dedup() {
    let mut seed: u32 = 12345;
    for round in 0..50 {
        let mut ids = Vec::new();
        for _ in 0..round {
            seed = seed.wrapping_mul(1664525).wrapping_add(1013904223);
            ids.push((seed >> 16) % 40);
        }
        let mut expected = ids.clone();
        expected.sort();
        expected.dedup();
        assert_eq!(processing_order(&ids), expected);
    }
}
