use zkm_prove::execution_report::ExecutionReport;

fn report(opcode_counts: Vec<u64>, syscall_counts: Vec<u64>, touched: u64) -> ExecutionReport {
    ExecutionReport { opcode_counts, syscall_counts, touched_memory_addresses: touched }
}

#[test]
fn a_new_report_counts_nothing() {
    let empty = ExecutionReport::new(3, 2);
    assert_eq!(empty.opcode_counts, vec![0, 0, 0]);
    assert_eq!(empty.syscall_counts, vec![0, 0]);
    assert_eq!(empty.touched_memory_addresses, 0);
    assert_eq!(empty.total_instruction_count(), Some(0));
    assert_eq!(empty.total_syscall_count(), Some(0));
}

#[test]
fn reports_are_merged_count_by_count() {
    let mut total = report(vec![1, 2, 3], vec![4, 5], 6);
    let other = report(vec![10, 0, 30], vec![40, 0], 60);
    assert!(total.can_merge(&other));
    total.merge(&other);
    assert_eq!(total.opcode_counts, vec![11, 2, 33]);
    assert_eq!(total.syscall_counts, vec![44, 5]);
    assert_eq!(total.touched_memory_addresses, 66);
    assert_eq!(total.total_instruction_count(), Some(46));
    assert_eq!(total.total_syscall_count(), Some(49));
}

#[test]
fn the_order_of_merging_does_not_matter() {
    let a = report(vec![1, 2], vec![3], 4);
    let b = report(vec![50, 60], vec![70], 80);
    let mut left = ExecutionReport::new(2, 1);
    left.merge(&a);
    left.merge(&b);
    let mut right = ExecutionReport::new(2, 1);
    right.merge(&b);
    right.merge(&a);
    assert_eq!(left.opcode_counts, right.opcode_counts);
    assert_eq!(left.syscall_counts, right.syscall_counts);
    assert_eq!(left.touched_memory_addresses, right.touched_memory_addresses);
}

#[test]
fn reports_are_merged_only_if_they_fit() {
    let total = report(vec![u64::MAX, 0], vec![7], 0);
    assert!(!total.can_merge(&report(vec![1, 0], vec![0], 0)));
    assert!(total.can_merge(&report(vec![0, u64::MAX], vec![0], 0)));
    assert!(!total.can_merge(&report(vec![0, 0], vec![u64::MAX], 0)));
    assert!(!total.can_merge(&report(vec![0], vec![0], 0)));
    assert!(!total.can_merge(&report(vec![0, 0], vec![0, 0], 0)));
    let touched = report(vec![0, 0], vec![0], 1);
    assert!(!touched.can_merge(&report(vec![0, 0], vec![0], u64::MAX)));
    assert!(touched.can_merge(&report(vec![0, 0], vec![0], u64::MAX - 1)));
}

#[test]
fn a_total_is_given_only_if_it_fits() {
    assert_eq!(report(vec![u64::MAX - 1, 1], vec![], 0).total_instruction_count(), Some(u64::MAX));
    assert_eq!(report(vec![u64::MAX, 1], vec![], 0).total_instruction_count(), None);
    assert_eq!(report(vec![], vec![u64::MAX, 1], 0).total_syscall_count(), None);
}
