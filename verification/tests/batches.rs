use zkm_prove::batches::{chunk_vec, make_batches};

#[test]
fn chunks_are_cut_in_order() {
    assert_eq!(chunk_vec(vec![1, 2, 3, 4, 5], 2), vec![vec![1, 2], vec![3, 4], vec![5]]);
    assert_eq!(chunk_vec(vec![1, 2, 3, 4], 2), vec![vec![1, 2], vec![3, 4]]);
    assert_eq!(chunk_vec(vec![1, 2, 3], 3), vec![vec![1, 2, 3]]);
    assert_eq!(chunk_vec(vec![1, 2, 3], 10), vec![vec![1, 2, 3]]);
    assert_eq!(chunk_vec(vec![1, 2, 3], 1), vec![vec![1], vec![2], vec![3]]);
}

#[test]
fn nothing_makes_no_chunk() {
    assert_eq!(chunk_vec(Vec::<u8>::new(), 4), Vec::<Vec<u8>>::new());
    assert_eq!(chunk_vec(Vec::<u8>::new(), 0), Vec::<Vec<u8>>::new());
}

#[test]
fn chunks_concatenate_to_the_items() {
    for size in 1..8 {
        let items: Vec<usize> = (0..7).collect();
        let cut = chunk_vec(items.clone(), size);
        assert_eq!(cut.len(), (7 + size - 1) / size);
        for chunk in cut.iter().take(cut.len() - 1) {
            assert_eq!(chunk.len(), size);
        }
        assert_eq!(cut.concat(), items);
    }
}

#[test]
fn batches_pair_records_with_their_traces() {
    let batches = make_batches(vec![1, 2, 3, 4, 5], vec!["a", "b", "c", "d", "e"], 2);
    assert_eq!(
        batches,
        vec![
            (vec![1, 2], vec!["a", "b"]),
            (vec![3, 4], vec!["c", "d"]),
            (vec![5], vec!["e"]),
        ]
    );
}

#[test]
fn batches_end_with_the_shorter_side() {
    let batches = make_batches(vec![1, 2, 3, 4, 5], vec!["a", "b", "c"], 2);
    assert_eq!(batches, vec![(vec![1, 2], vec!["a", "b"]), (vec![3, 4], vec!["c"])]);
    let none = make_batches(Vec::<u8>::new(), vec!["a"], 2);
    assert_eq!(none, Vec::<(Vec<u8>, Vec<&str>)>::new());
}
