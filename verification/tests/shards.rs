use zkm_prove::coordinator::Coordinator;
use zkm_prove::shards::{
    close_execution_shard, number_shards, stamp_deferred_shards, stamp_execution_shards,
};
use zkm_prove::values::{Layout, PublicValues, Record};

struct Words;

impl Layout for Words {
    type CommittedDigest = [u32; 2];
    type DeferredDigest = [u32; 2];
    type AddrBits = u32;
    type Rest = u8;
}

fn values(seed: u32) -> PublicValues<Words> {
    PublicValues {
        shard: 1000 + seed,
        execution_shard: seed,
        start_pc: 4 * seed,
        next_pc: 4 * seed + 4,
        committed_value_digest: [seed, 1],
        deferred_proofs_digest: [seed, 2],
        previous_init_addr_bits: 10 * seed,
        last_init_addr_bits: 10 * seed + 1,
        previous_finalize_addr_bits: 10 * seed + 2,
        last_finalize_addr_bits: 10 * seed + 3,
        rest: seed as u8,
    }
}

fn record(seed: u32) -> Record<Words, u32> {
    Record { public_values: values(seed), events: seed }
}

fn zero() -> PublicValues<Words> {
    PublicValues { shard: 0, ..values(0) }
}

#[test]
fn records_of_a_simple_run_are_numbered_from_one() {
    let mut records = vec![record(5), record(6), record(7)];
    number_shards(&mut records);
    for (i, record) in records.iter().enumerate() {
        let seed = 5 + i as u32;
        assert_eq!(record.public_values.shard, i as u32 + 1);
        assert_eq!(record.public_values.execution_shard, seed);
        assert_eq!(record.public_values.next_pc, 4 * seed + 4);
        assert_eq!(record.public_values.rest, seed as u8);
        assert_eq!(record.events, seed);
    }
}

#[test]
fn execution_shards_keep_their_execution() {
    let mut state = PublicValues { shard: 7, ..values(50) };
    let mut records = vec![record(1), record(2)];
    stamp_execution_shards(&mut state, &mut records);
    for (i, record) in records.iter().enumerate() {
        let seed = 1 + i as u32;
        let stamped = record.public_values;
        assert_eq!(stamped.shard, 8 + i as u32);
        assert_eq!(stamped.execution_shard, seed);
        assert_eq!(stamped.start_pc, 4 * seed);
        assert_eq!(stamped.next_pc, 4 * seed + 4);
        assert_eq!(stamped.committed_value_digest, [seed, 1]);
        assert_eq!(stamped.deferred_proofs_digest, [seed, 2]);
        assert_eq!(stamped.previous_init_addr_bits, 500);
        assert_eq!(stamped.last_init_addr_bits, 501);
        assert_eq!(stamped.previous_finalize_addr_bits, 502);
        assert_eq!(stamped.last_finalize_addr_bits, 503);
        assert_eq!(stamped.rest, 50);
        assert_eq!(record.events, seed);
    }
    assert_eq!(state.shard, 9);
    assert_eq!(state.next_pc, 12);
}

#[test]
fn deferred_shards_execute_nothing() {
    let mut state = PublicValues { shard: 7, ..values(50) };
    let mut records = vec![record(1), record(2)];
    stamp_deferred_shards(&mut state, &mut records);
    for (i, record) in records.iter().enumerate() {
        let seed = 1 + i as u32;
        let stamped = record.public_values;
        assert_eq!(stamped.shard, 8 + i as u32);
        assert_eq!(stamped.execution_shard, 50);
        assert_eq!(stamped.start_pc, 204);
        assert_eq!(stamped.next_pc, 204);
        assert_eq!(stamped.committed_value_digest, [50, 1]);
        assert_eq!(stamped.deferred_proofs_digest, [50, 2]);
        assert_eq!(stamped.previous_init_addr_bits, 10 * seed);
        assert_eq!(stamped.last_init_addr_bits, 10 * seed + 1);
        assert_eq!(stamped.previous_finalize_addr_bits, 10 * seed + 2);
        assert_eq!(stamped.last_finalize_addr_bits, 10 * seed + 3);
        assert_eq!(stamped.rest, 50);
        assert_eq!(record.events, seed);
    }
    assert_eq!(state.shard, 9);
    assert_eq!(state.last_init_addr_bits, 21);
}

#[test]
fn no_shards_leave_the_state_alone() {
    let mut state = values(3);
    let mut records: Vec<Record<Words, u32>> = Vec::new();
    stamp_execution_shards(&mut state, &mut records);
    stamp_deferred_shards(&mut state, &mut records);
    assert_eq!(state.shard, 1003);
    assert_eq!(state.start_pc, 12);
    assert!(records.is_empty());
}

#[test]
fn an_execution_shard_is_counted_unless_the_program_has_ended() {
    let mut state = values(3);
    close_execution_shard(&mut state, true);
    assert_eq!(state.execution_shard, 3);
    close_execution_shard(&mut state, false);
    assert_eq!(state.execution_shard, 4);
}

#[test]
fn checkpoint_shards_follow_one_another() {
    let mut shared = Coordinator::new(zero());
    assert!(shared.is_record_turn(0));
    assert!(!shared.is_record_turn(1));
    assert!(!shared.is_trace_turn(0));
    let stamped = shared.stamp_execution(0, vec![record(1), record(2)]);
    assert!(!shared.is_record_turn(0));
    assert!(shared.is_closing_turn(0));
    let closed = shared.close(0, false, stamped, vec![record(8)]);
    assert!(shared.is_finishing_turn(0));
    let numbers: Vec<u32> = closed.iter().map(|r| r.public_values.shard).collect();
    assert_eq!(numbers, vec![1, 2, 3]);
    assert_eq!(closed[2].public_values.execution_shard, 3);
    assert_eq!(closed[2].public_values.start_pc, closed[1].public_values.next_pc);
    shared.finish_records(0);
    assert!(shared.is_record_turn(1));
    assert!(shared.is_trace_turn(0));
    shared.finish_traces(0);
    assert!(!shared.is_trace_turn(0));
    let stamped = shared.stamp_execution(1, vec![record(3)]);
    let closed = shared.close(1, true, stamped, vec![record(9)]);
    let numbers: Vec<u32> = closed.iter().map(|r| r.public_values.shard).collect();
    assert_eq!(numbers, vec![4, 5]);
    assert_eq!(closed[0].public_values.last_init_addr_bits, 81);
    assert_eq!(closed[1].public_values.execution_shard, 3);
}

#[test]
fn room_ends_with_the_numbers() {
    let shared = Coordinator::new(PublicValues { shard: u32::MAX - 2, ..values(0) });
    assert!(shared.has_room(2));
    assert!(!shared.has_room(3));
    assert!(!shared.has_room(usize::MAX));
}
