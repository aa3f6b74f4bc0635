use zkm_prove::outcome::{checked_output, checked_proof, shape_agrees, MachineProof};
use zkm_prove::setup::maximal_shapes_log2;
use zkm_prove::turns::TurnBasedSync;

#[test]
fn shapes_are_limited_by_the_shard_size() {
    assert_eq!(maximal_shapes_log2(true, 1), Some(0));
    assert_eq!(maximal_shapes_log2(true, 2), Some(1));
    assert_eq!(maximal_shapes_log2(true, 3), Some(1));
    assert_eq!(maximal_shapes_log2(true, 1 << 22), Some(22));
    assert_eq!(maximal_shapes_log2(true, (1 << 22) - 1), Some(21));
    assert_eq!(maximal_shapes_log2(true, usize::MAX), Some(usize::BITS as usize - 1));
    assert_eq!(maximal_shapes_log2(false, 1 << 22), None);
    assert_eq!(maximal_shapes_log2(false, 0), None);
}

#[test]
fn turns_come_one_by_one() {
    let mut sync = TurnBasedSync::new();
    assert!(sync.is_turn(0));
    assert!(!sync.is_turn(1));
    sync.advance_turn();
    assert!(!sync.is_turn(0));
    assert!(sync.is_turn(1));
}

#[test]
fn proofs_are_collected_in_order() {
    let mut proof = MachineProof::new();
    proof.extend(vec![1, 2]);
    proof.extend(Vec::new());
    proof.extend(vec![3]);
    assert_eq!(proof.shard_proofs, vec![1, 2, 3]);
}

#[test]
fn a_bad_proof_is_not_handed_back() {
    let good = MachineProof { shard_proofs: vec![1] };
    let bad = MachineProof { shard_proofs: vec![2] };
    assert_eq!(checked_proof::<_, &str>(good, Ok(())).ok().unwrap().shard_proofs, vec![1]);
    assert_eq!(checked_proof(bad, Err("wrong")).err(), Some("wrong"));
}

#[test]
fn output_is_handed_back_if_the_run_is_good() {
    let proof = MachineProof { shard_proofs: vec![1] };
    assert_eq!(checked_output::<_, _, &str>(vec![9], Ok(proof)), Ok(vec![9]));
    assert_eq!(checked_output::<_, u8, _>(vec![9], Err("wrong")), Err("wrong"));
}

#[test]
fn shapes_agree_chip_by_chip() {
    let proof = vec![("Cpu".to_string(), 22), ("Program".to_string(), 19)];
    let same = vec![("Cpu".to_string(), 22u32), ("Program".to_string(), 19)];
    let higher = vec![("Cpu".to_string(), 22u32), ("Program".to_string(), 20)];
    let other = vec![("Cpu".to_string(), 22u32), ("Byte".to_string(), 19)];
    let fewer = vec![("Cpu".to_string(), 22u32)];
    assert!(shape_agrees(&proof, &None));
    assert!(shape_agrees(&proof, &Some(same)));
    assert!(!shape_agrees(&proof, &Some(higher)));
    assert!(!shape_agrees(&proof, &Some(other)));
    assert!(!shape_agrees(&proof, &Some(fewer)));
}
