use table_digest::partition::partition_round_robin;

#[test]
fn round_robin_by_index() {
    let parts = partition_round_robin(vec![0, 1, 2, 3, 4, 5, 6], 3);
    assert_eq!(parts, vec![vec![0, 3, 6], vec![1, 4], vec![2, 5]]);
}

#[test]
fn one_worker_gets_everything() {
    let parts = partition_round_robin(vec!["a", "b", "c"], 1);
    assert_eq!(parts, vec![vec!["a", "b", "c"]]);
}

#[test]
fn more_workers_than_items() {
    let parts = partition_round_robin(vec![10, 20], 4);
    assert_eq!(parts, vec![vec![10], vec![20], vec![], vec![]]);
}

#[test]
fn empty_list() {
    let parts = partition_round_robin(Vec::<u8>::new(), 3);
    assert_eq!(parts, vec![Vec::<u8>::new(), Vec::new(), Vec::new()]);
}

#[test]
fn complete_and_balanced() {
    for n in 0..40usize {
        for k in 1..9usize {
            let items: Vec<usize> = (0..n).collect();
            let parts = partition_round_robin(items.clone(), k);
            assert_eq!(parts.len(), k);
            let mut all: Vec<usize> = parts.iter().flatten().copied().collect();
            all.sort();
            assert_eq!(all, items);
            let max = parts.iter().map(|p| p.len()).max().unwrap();
            let min = parts.iter().map(|p| p.len()).min().unwrap();
            assert!(max - min <= 1);
            for (i, item) in items.iter().enumerate() {
                assert_eq!(parts[i % k][i / k], *item);
            }
        }
    }
}

#[test]
fn items_need_not_be_cloneable() {
    struct Token(u8);
    let parts = partition_round_robin(vec![Token(1), Token(2), Token(3)], 2);
    assert_eq!(parts[0].len(), 2);
    assert_eq!(parts[0][1].0, 3);
    assert_eq!(parts[1][0].0, 2);
}
