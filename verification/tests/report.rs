use zkm_prove::error::ZKMCoreProverError;
use zkm_prove::report::{simple_summary_line, summary_line, table_line_level, Level};

#[test]
fn summary_line_joins_its_parts() {
    assert_eq!(
        summary_line("10", "3s", "3.33", "4096"),
        "summary: cycles=10, e2e=3s, khz=3.33, proofSize=4096"
    );
}

#[test]
fn simple_summary_line_writes_the_size_with_a_unit() {
    assert_eq!(
        simple_summary_line("10", "3", "3.33", 1_340_249),
        "summary: cycles=10, e2e=3, khz=3.33, proofSize=1.28 MiB"
    );
    assert_eq!(
        simple_summary_line("0", "1", "0.00", 1),
        "summary: cycles=0, e2e=1, khz=0.00, proofSize=1 byte"
    );
    assert_eq!(
        simple_summary_line("0", "1", "0.00", 200),
        "summary: cycles=0, e2e=1, khz=0.00, proofSize=200 bytes"
    );
}

#[test]
fn only_counts_above_zero_are_prominent() {
    assert_eq!(table_line_level(0), Level::Debug);
    assert_eq!(table_line_level(1), Level::Info);
    assert_eq!(table_line_level(u64::MAX), Level::Info);
}

#[test]
fn messages_name_what_failed() {
    assert_eq!(
        ZKMCoreProverError::ExecutionError("exit code 1".to_string()).message(),
        "failed to execute program: exit code 1"
    );
    assert_eq!(
        ZKMCoreProverError::IoError("disk full".to_string()).message(),
        "io error: disk full"
    );
    assert_eq!(
        ZKMCoreProverError::SerializationError("bad tag".to_string()).message(),
        "serialization error: bad tag"
    );
}
