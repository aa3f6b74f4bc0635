use zkm_prove::checkpoints::{CheckpointGenerator, GeneratorEvent};
use zkm_prove::error::ZKMCoreProverError;

fn run(events: Vec<GeneratorEvent>) -> CheckpointGenerator {
    let mut generator = CheckpointGenerator::new();
    for event in events {
        assert!(generator.can_take(&event));
        generator = generator.next(event);
    }
    generator
}

#[test]
fn generator_numbers_checkpoints_until_the_last() {
    let generator = run(vec![
        GeneratorEvent::Executed { done: false },
        GeneratorEvent::Saved,
        GeneratorEvent::Sent,
        GeneratorEvent::Executed { done: false },
        GeneratorEvent::Saved,
    ]);
    assert!(matches!(generator, CheckpointGenerator::Sending { index: 1, done: false }));
    let generator = generator.next(GeneratorEvent::Sent);
    assert!(matches!(generator, CheckpointGenerator::Executing { index: 2 }));
    let generator = generator.next(GeneratorEvent::Executed { done: true });
    assert!(matches!(generator, CheckpointGenerator::Saving { index: 2, done: true }));
    let generator = generator.next(GeneratorEvent::Saved).next(GeneratorEvent::Sent);
    assert!(matches!(generator, CheckpointGenerator::Finished { last: 2 }));
    assert!(matches!(generator.outcome(vec![7, 8]), Ok(stream) if stream == vec![7, 8]));
}

#[test]
fn generator_fails_with_the_execution() {
    let generator = run(vec![GeneratorEvent::ExecutionFailed("trap".to_string())]);
    match generator.outcome(vec![1]) {
        Err(ZKMCoreProverError::ExecutionError(cause)) => assert_eq!(cause, "trap"),
        _ => panic!("the execution error is lost"),
    }
}

#[test]
fn generator_fails_with_the_disk() {
    let generator = run(vec![
        GeneratorEvent::Executed { done: true },
        GeneratorEvent::IoFailed("disk full".to_string()),
    ]);
    match generator.outcome(vec![1]) {
        Err(ZKMCoreProverError::IoError(cause)) => assert_eq!(cause, "disk full"),
        _ => panic!("the io error is lost"),
    }
}

#[test]
fn generator_takes_only_what_it_asked_for() {
    let generator = CheckpointGenerator::new();
    assert!(!generator.can_take(&GeneratorEvent::Saved));
    assert!(!generator.can_take(&GeneratorEvent::Sent));
    assert!(!generator.can_take(&GeneratorEvent::IoFailed("late".to_string())));
    assert!(generator.can_take(&GeneratorEvent::ExecutionFailed("trap".to_string())));
    let last = CheckpointGenerator::Sending { index: usize::MAX, done: true };
    assert!(last.can_take(&GeneratorEvent::Sent));
    let full = CheckpointGenerator::Sending { index: usize::MAX, done: false };
    assert!(!full.can_take(&GeneratorEvent::Sent));
}
