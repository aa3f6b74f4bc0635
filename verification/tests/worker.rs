use zkm_prove::coordinator::Coordinator;
use zkm_prove::execution_report::ExecutionReport;
use zkm_prove::outcome::MachineProof;
use zkm_prove::values::{Layout, PublicValues, Record};
use zkm_prove::worker::{Worker, WorkerAction, WorkerEvent};

struct Words;

impl Layout for Words {
    type CommittedDigest = u32;
    type DeferredDigest = u32;
    type AddrBits = u32;
    type Rest = ();
}

type Rec = Record<Words, Vec<u32>>;

fn values() -> PublicValues<Words> {
    PublicValues {
        shard: 0,
        execution_shard: 0,
        start_pc: 0,
        next_pc: 0,
        committed_value_digest: 0,
        deferred_proofs_digest: 0,
        previous_init_addr_bits: 0,
        last_init_addr_bits: 0,
        previous_finalize_addr_bits: 0,
        last_finalize_addr_bits: 0,
        rest: (),
    }
}

const LAST: usize = 3;

/// The records of a checkpoint: three of them for an even number, one for an odd one.
fn trace(index: usize) -> Vec<Rec> {
    let count = if index % 2 == 0 { 3 } else { 1 };
    (0..count)
        .map(|i| Record {
            public_values: PublicValues {
                execution_shard: (10 * index + i) as u32,
                start_pc: (100 * index + i) as u32,
                next_pc: (100 * index + i + 1) as u32,
                ..values()
            },
            events: vec![(100 * index + i) as u32, 7],
        })
        .collect()
}

/// The report of a checkpoint.
fn report(index: usize) -> ExecutionReport {
    ExecutionReport {
        opcode_counts: vec![10, index as u64],
        syscall_counts: vec![1],
        touched_memory_addresses: 100 * index as u64,
    }
}

/// Workers, which take turns in an order that the seed decides.
struct Harness {
    shared: Coordinator<Words>,
    workers: Vec<Option<(Worker<Words, Vec<u32>, String>, WorkerAction<Words, Vec<u32>, String>)>>,
    current: Vec<usize>,
    next_checkpoint: usize,
    held: Vec<u32>,
    report: ExecutionReport,
    fix_shapes: bool,
    proof: MachineProof<String>,
}

impl Harness {
    fn new(workers: usize) -> Harness {
        Harness {
            shared: Coordinator::new(values()),
            workers: (0..workers).map(|_| Some((Worker::new(), WorkerAction::Receive))).collect(),
            current: vec![0; workers],
            next_checkpoint: 0,
            held: Vec::new(),
            report: ExecutionReport::new(2, 1),
            fix_shapes: false,
            proof: MachineProof::new(),
        }
    }

    /// Takes one step of worker `w`, and says whether it is still there.
    fn step(&mut self, w: usize, batch_size: usize) -> bool {
        let (worker, action) = match self.workers[w].take() {
            Some(pair) => pair,
            None => return false,
        };
        let event = match action {
            WorkerAction::Receive => {
                if self.next_checkpoint <= LAST {
                    let index = self.next_checkpoint;
                    self.next_checkpoint += 1;
                    self.current[w] = index;
                    WorkerEvent::Received { index, done: index == LAST }
                } else {
                    WorkerEvent::Disconnected
                }
            }
            WorkerAction::Trace => {
                let report = report(self.current[w]);
                assert!(self.report.can_merge(&report));
                self.report.merge(&report);
                WorkerEvent::Traced { records: trace(self.current[w]) }
            }
            WorkerAction::Wait => WorkerEvent::Woken,
            WorkerAction::DeferAndSplit { done, mut records } => {
                for record in records.iter_mut() {
                    self.held.push(record.events.pop().unwrap());
                }
                let mut deferred = Vec::new();
                while self.held.len() >= 3 || (done && !self.held.is_empty()) {
                    let size = std::cmp::min(3, self.held.len());
                    deferred.push(Record {
                        public_values: PublicValues { last_init_addr_bits: 55, ..values() },
                        events: self.held.drain(..size).collect(),
                    });
                }
                WorkerEvent::Split { records, deferred }
            }
            WorkerAction::AddDependencies { records } => {
                WorkerEvent::DependenciesAdded { records }
            }
            WorkerAction::GenerateTraces { fix_shapes, mut records } => {
                if fix_shapes {
                    for record in records.iter_mut() {
                        record.events.push(0);
                    }
                }
                let traces = records.iter().map(|r| format!("{:?}", r.events)).collect();
                WorkerEvent::TracesGenerated { records, traces }
            }
            WorkerAction::Send { records, traces } => {
                self.proof.extend(
                    records
                        .iter()
                        .zip(traces.iter())
                        .map(|(r, t)| {
                            let v = r.public_values;
                            format!("{}/{}/{}/{}", v.shard, v.execution_shard, v.start_pc, t)
                        })
                        .collect(),
                );
                WorkerEvent::BatchSent
            }
            WorkerAction::Stop => return false,
        };
        assert!(worker.can_step(&self.shared, &event, batch_size));
        self.workers[w] = Some(worker.step(&mut self.shared, event, batch_size, self.fix_shapes));
        true
    }

    fn run(self, seed: u64, batch_size: usize) -> Vec<String> {
        self.finish(seed, batch_size).proof.shard_proofs
    }

    fn finish(mut self, seed: u64, batch_size: usize) -> Harness {
        let mut random = seed;
        let mut left = self.workers.len();
        while left > 0 {
            random = random.wrapping_mul(6364136223846793005).wrapping_add(1442695040888963407);
            let w = (random >> 33) as usize % self.workers.len();
            if self.workers[w].is_some() && !self.step(w, batch_size) {
                left -= 1;
            }
        }
        self
    }
}

fn expected() -> Vec<String> {
    vec![
        "1/0/0/[0]".to_string(),
        "2/1/1/[1]".to_string(),
        "3/2/2/[2]".to_string(),
        "4/3/3/[7, 7, 7]".to_string(),
        "5/10/100/[100]".to_string(),
        "6/20/200/[200]".to_string(),
        "7/21/201/[201]".to_string(),
        "8/22/202/[202]".to_string(),
        "9/23/203/[7, 7, 7]".to_string(),
        "10/30/300/[300]".to_string(),
        "11/30/301/[7, 7]".to_string(),
    ]
}

#[test]
fn one_worker_proves_shard_after_shard() {
    assert_eq!(Harness::new(1).run(0, 2), expected());
}

#[test]
fn the_proof_does_not_depend_on_the_schedule() {
    for seed in 0..200 {
        assert_eq!(Harness::new(4).run(seed, 2), expected());
        assert_eq!(Harness::new(2).run(seed, 2), expected());
    }
}

#[test]
fn the_proof_does_not_depend_on_the_batch_size() {
    for batch_size in 1..6 {
        assert_eq!(Harness::new(3).run(9, batch_size), expected());
    }
}

#[test]
fn the_report_does_not_depend_on_the_schedule() {
    for seed in 0..50 {
        for workers in 1..5 {
            let end = Harness::new(workers).finish(seed, 2);
            assert_eq!(end.report.opcode_counts, vec![40, 6]);
            assert_eq!(end.report.syscall_counts, vec![4]);
            assert_eq!(end.report.touched_memory_addresses, 600);
            assert_eq!(end.report.total_instruction_count(), Some(46));
        }
    }
}

#[test]
fn nothing_is_held_back_when_all_checkpoints_are_done() {
    for seed in 0..50 {
        assert!(Harness::new(3).finish(seed, 2).held.is_empty());
    }
}

#[test]
fn shapes_are_fixed_if_they_are_to_be() {
    let mut harness = Harness::new(2);
    harness.fix_shapes = true;
    let proof = harness.run(5, 2);
    assert_eq!(proof[0], "1/0/0/[0, 0]");
    assert_eq!(proof[3], "4/3/3/[7, 7, 7, 0]");
    assert_eq!(proof.len(), 11);
    for fix in [false, true] {
        let mut shared = Coordinator::new(values());
        let records = shared.stamp_execution(0, trace(0));
        let closed = shared.close(0, true, records, Vec::new());
        let worker: Worker<Words, Vec<u32>, String> = Worker::AddingDependencies { index: 0 };
        let event = WorkerEvent::DependenciesAdded { records: closed };
        let (_, action) = worker.step(&mut shared, event, 1, fix);
        assert!(matches!(
            action,
            WorkerAction::GenerateTraces { fix_shapes, records }
                if fix_shapes == fix && records.len() == 3
        ));
    }
}

#[test]
fn a_worker_waits_for_its_turn() {
    let mut shared = Coordinator::new(values());
    let worker: Worker<Words, Vec<u32>, String> = Worker::new();
    let (worker, action) = worker.step(&mut shared, WorkerEvent::Received { index: 1, done: true }, 1, false);
    assert!(matches!(action, WorkerAction::Trace));
    let (worker, action) = worker.step(&mut shared, WorkerEvent::Traced { records: trace(1) }, 1, false);
    assert!(matches!(action, WorkerAction::Wait));
    assert!(matches!(worker, Worker::AwaitingRecords { index: 1, done: true, .. }));
    let (worker, action) = worker.step(&mut shared, WorkerEvent::Woken, 1, false);
    assert!(matches!(action, WorkerAction::Wait));
    assert!(matches!(worker, Worker::AwaitingRecords { index: 1, .. }));
    assert!(shared.is_record_turn(0));
    assert!(!worker.is_due(&shared));
    let stamped = shared.stamp_execution(0, trace(0));
    shared.close(0, false, stamped, Vec::new());
    assert!(!worker.is_due(&shared));
    shared.finish_records(0);
    assert!(worker.is_due(&shared));
    let (worker, action) = worker.step(&mut shared, WorkerEvent::Woken, 1, false);
    assert!(worker.is_due(&shared));
    assert!(matches!(action, WorkerAction::DeferAndSplit { done: true, records } if records.len() == 1));
}

#[test]
fn a_worker_stops_when_there_are_no_more_checkpoints() {
    let mut shared = Coordinator::new(values());
    let worker: Worker<Words, Vec<u32>, String> = Worker::new();
    assert!(!worker.can_step(&shared, &WorkerEvent::Woken, 1));
    let (worker, action) = worker.step(&mut shared, WorkerEvent::Disconnected, 1, false);
    assert!(matches!(worker, Worker::Stopped));
    assert!(matches!(action, WorkerAction::Stop));
}

#[test]
fn a_worker_cannot_go_on_without_numbers() {
    let shared = Coordinator::new(PublicValues { shard: u32::MAX - 2, ..values() });
    let worker: Worker<Words, Vec<u32>, String> = Worker::Tracing { index: 0, done: true };
    assert!(!worker.can_step(&shared, &WorkerEvent::Traced { records: trace(0) }, 1));
    assert!(worker.can_step(&shared, &WorkerEvent::Traced { records: trace(1) }, 1));
    let generating: Worker<Words, Vec<u32>, String> = Worker::Generating { index: 0 };
    let event = WorkerEvent::TracesGenerated { records: trace(1), traces: vec!["t".to_string()] };
    assert!(!generating.can_step(&shared, &event, 0));
    let event = WorkerEvent::TracesGenerated { records: Vec::new(), traces: Vec::new() };
    assert!(generating.can_step(&shared, &event, 0));
}
