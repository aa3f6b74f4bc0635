//! What a run reports about itself.
use vstd::prelude::*;

verus! {

/// How prominent a line of the report is.
#[derive(Clone, Copy, PartialEq, Eq, Debug, Structural)]
pub enum Level {
    Info,
    Debug,
}

/// What counts nothing is of interest for debugging only.
pub fn table_line_level(count: u64) -> (level: Level)
    ensures
        level == if count > 0 {
            Level::Info
        } else {
            Level::Debug
        },
{
    if count > 0 {
        Level::Info
    } else {
        Level::Debug
    }
}

/// What `size::Size` writes for a number of bytes, with a unit that suits it.
pub uninterp spec fn size_text(bytes: nat) -> Seq<char>;

/// Writes a number of bytes: `size::Size::from_bytes` takes the number and `size::Size::to_string`
/// writes it. The text depends on the number alone. What it is takes a table of units and the
/// rounding of a quotient, and is not stated.
#[verifier::external_body]
fn write_size(bytes: usize) -> (text: String)
    ensures
        text@ == size_text(bytes as nat),
{
    size::Size::from_bytes(bytes).to_string()
}

/// The line that sums a run up.
pub open spec fn summary(
    cycles: Seq<char>,
    e2e: Seq<char>,
    khz: Seq<char>,
    proof_size: Seq<char>,
) -> Seq<char> {
    "summary: cycles="@ + cycles + ", e2e="@ + e2e + ", khz="@ + khz + ", proofSize="@ + proof_size
}

/// Sums a run up: how many cycles it proved, how long it took end to end, how many thousand cycles
/// it proved in a second, and how large the proof is.
pub fn summary_line(cycles: &str, e2e: &str, khz: &str, proof_size: &str) -> (line: String)
    ensures
        line@ == summary(cycles@, e2e@, khz@, proof_size@),
        line@ == "summary: cycles="@ + cycles@ + ", e2e="@ + e2e@ + ", khz="@ + khz@
            + ", proofSize="@ + proof_size@,
{
    "summary: cycles=".to_string().concat(cycles).concat(", e2e=").concat(e2e).concat(
        ", khz=",
    ).concat(khz).concat(", proofSize=").concat(proof_size)
}

/// Sums a run up whose proof takes `nb_bytes` bytes, with the size in a unit that suits it.
pub fn simple_summary_line(cycles: &str, e2e: &str, khz: &str, nb_bytes: usize) -> (line: String)
    ensures
        line@ == summary(cycles@, e2e@, khz@, size_text(nb_bytes as nat)),
        line@ == "summary: cycles="@ + cycles@ + ", e2e="@ + e2e@ + ", khz="@ + khz@
            + ", proofSize="@ + size_text(nb_bytes as nat),
{
    summary_line(cycles, e2e, khz, write_size(nb_bytes).as_str())
}

/// The line that sums a run up has every part once, in its place and behind its label, and nothing
/// else.
pub proof fn law_summary_parts(
    cycles: Seq<char>,
    e2e: Seq<char>,
    khz: Seq<char>,
    proof_size: Seq<char>,
)
    ensures
        ({
            let line = summary(cycles, e2e, khz, proof_size);
            let a = 16 + cycles.len() as int;
            let b = a + 6 + e2e.len() as int;
            let c = b + 6 + khz.len() as int;
            &&& line.subrange(0, 16) == "summary: cycles="@
            &&& line.subrange(16, a) == cycles
            &&& line.subrange(a, a + 6) == ", e2e="@
            &&& line.subrange(a + 6, b) == e2e
            &&& line.subrange(b, b + 6) == ", khz="@
            &&& line.subrange(b + 6, c) == khz
            &&& line.subrange(c, c + 12) == ", proofSize="@
            &&& line.subrange(c + 12, line.len() as int) == proof_size
            &&& line.len() == c + 12 + proof_size.len()
        }),
{
    reveal_strlit("summary: cycles=");
    reveal_strlit(", e2e=");
    reveal_strlit(", khz=");
    reveal_strlit(", proofSize=");
    let line = summary(cycles, e2e, khz, proof_size);
    let a = 16 + cycles.len() as int;
    let b = a + 6 + e2e.len() as int;
    let c = b + 6 + khz.len() as int;
    assert(line.subrange(0, 16) =~= "summary: cycles="@);
    assert(line.subrange(16, a) =~= cycles);
    assert(line.subrange(a, a + 6) =~= ", e2e="@);
    assert(line.subrange(a + 6, b) =~= e2e);
    assert(line.subrange(b, b + 6) =~= ", khz="@);
    assert(line.subrange(b + 6, c) =~= khz);
    assert(line.subrange(c, c + 12) =~= ", proofSize="@);
    assert(line.subrange(c + 12, line.len() as int) =~= proof_size);
}

} // verus!
