//! What was executed, counted.
use vstd::prelude::*;

verus! {

/// How often each opcode and each system call was executed, and how many memory addresses were
/// touched. The kinds of opcodes and of system calls are numbered from zero.
pub struct ExecutionReport {
    pub opcode_counts: Vec<u64>,
    pub syscall_counts: Vec<u64>,
    pub touched_memory_addresses: u64,
}

/// The model of an `ExecutionReport`.
#[verifier::ext_equal]
pub struct ReportView {
    pub opcode_counts: Seq<nat>,
    pub syscall_counts: Seq<nat>,
    pub touched_memory_addresses: nat,
}

/// The counts as numbers without a limit.
pub open spec fn numbers(counts: Seq<u64>) -> Seq<nat> {
    Seq::new(counts.len(), |i: int| counts[i] as nat)
}

/// The sum of counts.
pub open spec fn sum(counts: Seq<nat>) -> nat
    decreases counts.len(),
{
    if counts.len() == 0 {
        0
    } else {
        sum(counts.drop_last()) + counts.last()
    }
}

/// The counts of `left`, each with the count of the same kind of `right` added.
pub open spec fn added(left: Seq<nat>, right: Seq<nat>) -> Seq<nat> {
    Seq::new(left.len(), |i: int| left[i] + right[i])
}

/// The sums of the counts of each kind have room in a count.
pub open spec fn sums_fit(left: Seq<nat>, right: Seq<nat>) -> bool {
    &&& left.len() == right.len()
    &&& forall|i: int| 0 <= i < left.len() ==> #[trigger] left[i] + right[i] <= u64::MAX
}

impl View for ExecutionReport {
    type V = ReportView;

    open spec fn view(&self) -> ReportView {
        ReportView {
            opcode_counts: numbers(self.opcode_counts@),
            syscall_counts: numbers(self.syscall_counts@),
            touched_memory_addresses: self.touched_memory_addresses as nat,
        }
    }
}

impl ReportView {
    /// The report of no execution, for so many kinds of opcodes and of system calls.
    pub open spec fn empty(opcodes: nat, syscalls: nat) -> ReportView {
        ReportView {
            opcode_counts: Seq::new(opcodes, |i: int| 0),
            syscall_counts: Seq::new(syscalls, |i: int| 0),
            touched_memory_addresses: 0,
        }
    }

    /// Whether the report counts so many kinds of opcodes and of system calls.
    pub open spec fn counts(self, opcodes: nat, syscalls: nat) -> bool {
        self.opcode_counts.len() == opcodes && self.syscall_counts.len() == syscalls
    }

    /// The report of both executions.
    pub open spec fn merged(self, other: ReportView) -> ReportView {
        ReportView {
            opcode_counts: added(self.opcode_counts, other.opcode_counts),
            syscall_counts: added(self.syscall_counts, other.syscall_counts),
            touched_memory_addresses: self.touched_memory_addresses
                + other.touched_memory_addresses,
        }
    }

    /// Whether both reports count the same kinds, and their sums have room.
    pub open spec fn may_merge(self, other: ReportView) -> bool {
        &&& sums_fit(self.opcode_counts, other.opcode_counts)
        &&& sums_fit(self.syscall_counts, other.syscall_counts)
        &&& self.touched_memory_addresses + other.touched_memory_addresses <= u64::MAX
    }

    /// Whether every number has room in a count.
    pub open spec fn fits(self) -> bool {
        &&& forall|i: int|
            0 <= i < self.opcode_counts.len() ==> #[trigger] self.opcode_counts[i] <= u64::MAX
        &&& forall|i: int|
            0 <= i < self.syscall_counts.len() ==> #[trigger] self.syscall_counts[i] <= u64::MAX
        &&& self.touched_memory_addresses <= u64::MAX
    }

    /// How many instructions were executed.
    pub open spec fn total_instruction_count(self) -> nat {
        sum(self.opcode_counts)
    }

    /// How many system calls were executed.
    pub open spec fn total_syscall_count(self) -> nat {
        sum(self.syscall_counts)
    }
}

/// So many counts of nothing.
fn zeros(len: usize) -> (counts: Vec<u64>)
    ensures
        numbers(counts@) == Seq::new(len as nat, |i: int| 0nat),
        counts@.len() == len,
        forall|i: int| 0 <= i < len ==> #[trigger] counts@[i] == 0,
{
    let mut counts: Vec<u64> = Vec::new();
    while counts.len() < len
        invariant
            counts@.len() <= len,
            forall|i: int| 0 <= i < counts@.len() ==> #[trigger] counts@[i] == 0,
        decreases len - counts.len(),
    {
        counts.push(0);
    }
    counts
}

fn fit(left: &Vec<u64>, right: &Vec<u64>) -> (fit: bool)
    ensures
        fit == sums_fit(numbers(left@), numbers(right@)),
        fit == (left@.len() == right@.len() && forall|i: int|
            0 <= i < left@.len() ==> #[trigger] left@[i] + right@[i] <= u64::MAX),
{
    if left.len() != right.len() {
        return false;
    }
    let mut i: usize = 0;
    while i < left.len()
        invariant
            i <= left@.len(),
            left@.len() == right@.len(),
            forall|j: int| 0 <= j < i ==> #[trigger] left@[j] + right@[j] <= u64::MAX,
        decreases left.len() - i,
    {
        if left[i] > u64::MAX - right[i] {
            assert(numbers(left@)[i as int] + numbers(right@)[i as int] > u64::MAX);
            return false;
        }
        i = i + 1;
    }
    true
}

fn add_counts(left: &mut Vec<u64>, right: &Vec<u64>)
    requires
        sums_fit(numbers(old(left)@), numbers(right@)),
    ensures
        numbers(final(left)@) == added(numbers(old(left)@), numbers(right@)),
        final(left)@.len() == old(left)@.len(),
        forall|i: int|
            0 <= i < old(left)@.len() ==> #[trigger] final(left)@[i] == old(left)@[i] + right@[i],
{
    let ghost before = left@;
    let mut i: usize = 0;
    while i < left.len()
        invariant
            before == old(left)@,
            i <= left@.len(),
            left@.len() == before.len(),
            before.len() == right@.len(),
            sums_fit(numbers(before), numbers(right@)),
            forall|j: int| 0 <= j < i ==> #[trigger] left@[j] == before[j] + right@[j],
            forall|j: int| i <= j < left@.len() ==> #[trigger] left@[j] == before[j],
        decreases left.len() - i,
    {
        assert(numbers(before)[i as int] + numbers(right@)[i as int] <= u64::MAX);
        let count: u64 = left[i] + right[i];
        left.set(i, count);
        i = i + 1;
    }
}

/// A part of counts has no more than all of them.
proof fn lemma_sum_grows(counts: Seq<nat>, len: int)
    requires
        0 <= len <= counts.len(),
    ensures
        sum(counts.take(len)) <= sum(counts),
    decreases counts.len(),
{
    if len == counts.len() {
        assert(counts.take(len) =~= counts);
    } else {
        assert(counts.drop_last().take(len) =~= counts.take(len));
        lemma_sum_grows(counts.drop_last(), len);
    }
}

/// The sum of counts, if it has room in a count.
fn checked_sum(counts: &Vec<u64>) -> (total: Option<u64>)
    ensures
        total == if sum(numbers(counts@)) <= u64::MAX {
            Some(sum(numbers(counts@)) as u64)
        } else {
            None
        },
{
    let ghost all = numbers(counts@);
    let mut total: u64 = 0;
    let mut i: usize = 0;
    while i < counts.len()
        invariant
            all == numbers(counts@),
            i <= counts@.len(),
            total == sum(all.take(i as int)),
        decreases counts.len() - i,
    {
        proof {
            assert(all.take(i + 1).drop_last() =~= all.take(i as int));
            lemma_sum_grows(all, i + 1);
        }
        if counts[i] > u64::MAX - total {
            return None;
        }
        total = total + counts[i];
        i = i + 1;
    }
    assert(all.take(i as int) =~= all);
    Some(total)
}

impl ExecutionReport {
    /// The report of no execution, for so many kinds of opcodes and of system calls.
    pub fn new(opcodes: usize, syscalls: usize) -> (report: Self)
        ensures
            report@ == ReportView::empty(opcodes as nat, syscalls as nat),
            report.opcode_counts@.len() == opcodes,
            report.syscall_counts@.len() == syscalls,
            forall|i: int| 0 <= i < opcodes ==> #[trigger] report.opcode_counts@[i] == 0,
            forall|i: int| 0 <= i < syscalls ==> #[trigger] report.syscall_counts@[i] == 0,
            report.touched_memory_addresses == 0,
    {
        ExecutionReport {
            opcode_counts: zeros(opcodes),
            syscall_counts: zeros(syscalls),
            touched_memory_addresses: 0,
        }
    }

    /// Whether `other` counts the same kinds, and the sums have room.
    pub fn can_merge(&self, other: &ExecutionReport) -> (can: bool)
        ensures
            can == self@.may_merge(other@),
            can == {
                &&& self.opcode_counts@.len() == other.opcode_counts@.len()
                &&& self.syscall_counts@.len() == other.syscall_counts@.len()
                &&& forall|i: int|
                    0 <= i < self.opcode_counts@.len() ==> #[trigger] self.opcode_counts@[i]
                        + other.opcode_counts@[i] <= u64::MAX
                &&& forall|i: int|
                    0 <= i < self.syscall_counts@.len() ==> #[trigger] self.syscall_counts@[i]
                        + other.syscall_counts@[i] <= u64::MAX
                &&& self.touched_memory_addresses + other.touched_memory_addresses <= u64::MAX
            },
    {
        fit(&self.opcode_counts, &other.opcode_counts) && fit(
            &self.syscall_counts,
            &other.syscall_counts,
        ) && self.touched_memory_addresses <= u64::MAX - other.touched_memory_addresses
    }

    /// Adds another execution to the report.
    pub fn merge(&mut self, other: &ExecutionReport)
        requires
            old(self)@.may_merge(other@),
        ensures
            final(self)@ == old(self)@.merged(other@),
            final(self).opcode_counts@.len() == old(self).opcode_counts@.len(),
            final(self).syscall_counts@.len() == old(self).syscall_counts@.len(),
            forall|i: int|
                0 <= i < old(self).opcode_counts@.len() ==> #[trigger] final(self).opcode_counts@[i]
                    == old(self).opcode_counts@[i] + other.opcode_counts@[i],
            forall|i: int|
                0 <= i < old(self).syscall_counts@.len() ==> #[trigger] final(self).syscall_counts@[i]
                    == old(self).syscall_counts@[i] + other.syscall_counts@[i],
            final(self).touched_memory_addresses == old(self).touched_memory_addresses
                + other.touched_memory_addresses,
    {
        add_counts(&mut self.opcode_counts, &other.opcode_counts);
        add_counts(&mut self.syscall_counts, &other.syscall_counts);
        self.touched_memory_addresses =
        self.touched_memory_addresses + other.touched_memory_addresses;
    }

    /// How many instructions were executed, or `None` if the number does not fit.
    pub fn total_instruction_count(&self) -> (total: Option<u64>)
        ensures
            total == if self@.total_instruction_count() <= u64::MAX {
                Some(self@.total_instruction_count() as u64)
            } else {
                None
            },
    {
        checked_sum(&self.opcode_counts)
    }

    /// How many system calls were executed, or `None` if the number does not fit.
    pub fn total_syscall_count(&self) -> (total: Option<u64>)
        ensures
            total == if self@.total_syscall_count() <= u64::MAX {
                Some(self@.total_syscall_count() as u64)
            } else {
                None
            },
    {
        checked_sum(&self.syscall_counts)
    }
}

/// The model of a report holds its counts, kind by kind.
pub proof fn law_report_view(report: ExecutionReport)
    ensures
        report@.opcode_counts.len() == report.opcode_counts@.len(),
        report@.syscall_counts.len() == report.syscall_counts@.len(),
        forall|i: int|
            0 <= i < report.opcode_counts@.len() ==> #[trigger] report@.opcode_counts[i]
                == report.opcode_counts@[i],
        forall|i: int|
            0 <= i < report.syscall_counts@.len() ==> #[trigger] report@.syscall_counts[i]
                == report.syscall_counts@[i],
        report@.touched_memory_addresses == report.touched_memory_addresses,
{
}

proof fn lemma_sum_updated(counts: Seq<nat>, i: int, n: nat)
    requires
        0 <= i < counts.len(),
    ensures
        sum(counts.update(i, n)) + counts[i] == sum(counts) + n,
    decreases counts.len(),
{
    if i == counts.len() - 1 {
        assert(counts.update(i, n).drop_last() =~= counts.drop_last());
    } else {
        lemma_sum_updated(counts.drop_last(), i, n);
        assert(counts.update(i, n).drop_last() =~= counts.drop_last().update(i, n));
    }
}

/// Every opcode counts: a report in which the count of any one of them is another has a total that
/// differs by as much.
pub proof fn law_every_opcode_counts(report: ReportView, i: int, n: nat)
    requires
        0 <= i < report.opcode_counts.len(),
    ensures
        ({
            let other = ReportView {
                opcode_counts: report.opcode_counts.update(i, n),
                ..report
            };
            &&& other.total_instruction_count() + report.opcode_counts[i]
                == report.total_instruction_count() + n
            &&& other.total_syscall_count() == report.total_syscall_count()
        }),
{
    lemma_sum_updated(report.opcode_counts, i, n);
}

/// Every system call counts: a report in which the count of any one of them is another has a total
/// that differs by as much.
pub proof fn law_every_syscall_counts(report: ReportView, i: int, n: nat)
    requires
        0 <= i < report.syscall_counts.len(),
    ensures
        ({
            let other = ReportView {
                syscall_counts: report.syscall_counts.update(i, n),
                ..report
            };
            &&& other.total_syscall_count() + report.syscall_counts[i]
                == report.total_syscall_count() + n
            &&& other.total_instruction_count() == report.total_instruction_count()
        }),
{
    lemma_sum_updated(report.syscall_counts, i, n);
}

/// A report in which one opcode was executed, and it alone, has the count of that opcode as its
/// total.
pub proof fn law_one_opcode(report: ReportView, i: int)
    requires
        0 <= i < report.opcode_counts.len(),
        forall|j: int|
            0 <= j < report.opcode_counts.len() && j != i ==> #[trigger] report.opcode_counts[j]
                == 0,
    ensures
        report.total_instruction_count() == report.opcode_counts[i],
{
    let zeros = Seq::new(report.opcode_counts.len(), |j: int| 0nat);
    lemma_sum_zeros(report.opcode_counts.len());
    lemma_sum_updated(zeros, i, report.opcode_counts[i]);
    assert(zeros.update(i, report.opcode_counts[i]) =~= report.opcode_counts);
}

/// A report in which one system call was executed, and it alone, has the count of that system call
/// as its total.
pub proof fn law_one_syscall(report: ReportView, i: int)
    requires
        0 <= i < report.syscall_counts.len(),
        forall|j: int|
            0 <= j < report.syscall_counts.len() && j != i ==> #[trigger] report.syscall_counts[j]
                == 0,
    ensures
        report.total_syscall_count() == report.syscall_counts[i],
{
    let zeros = Seq::new(report.syscall_counts.len(), |j: int| 0nat);
    lemma_sum_zeros(report.syscall_counts.len());
    lemma_sum_updated(zeros, i, report.syscall_counts[i]);
    assert(zeros.update(i, report.syscall_counts[i]) =~= report.syscall_counts);
}

proof fn lemma_sum_folds(counts: Seq<nat>)
    ensures
        sum(counts) == counts.fold_left(0nat, |total: nat, count: nat| total + count),
    decreases counts.len(),
{
    if counts.len() > 0 {
        lemma_sum_folds(counts.drop_last());
    }
}

/// The totals are what adding count after count to nothing comes to.
pub proof fn law_totals(report: ReportView)
    ensures
        report.total_instruction_count() == report.opcode_counts.fold_left(
            0nat,
            |total: nat, count: nat| total + count,
        ),
        report.total_syscall_count() == report.syscall_counts.fold_left(
            0nat,
            |total: nat, count: nat| total + count,
        ),
{
    lemma_sum_folds(report.opcode_counts);
    lemma_sum_folds(report.syscall_counts);
}

/// The report of two executions counts what both count, kind by kind.
pub proof fn law_merged_counts(a: ReportView, b: ReportView)
    requires
        a.opcode_counts.len() == b.opcode_counts.len(),
        a.syscall_counts.len() == b.syscall_counts.len(),
    ensures
        a.merged(b).opcode_counts.len() == a.opcode_counts.len(),
        a.merged(b).syscall_counts.len() == a.syscall_counts.len(),
        forall|i: int|
            0 <= i < a.opcode_counts.len() ==> #[trigger] a.merged(b).opcode_counts[i]
                == a.opcode_counts[i] + b.opcode_counts[i],
        forall|i: int|
            0 <= i < a.syscall_counts.len() ==> #[trigger] a.merged(b).syscall_counts[i]
                == a.syscall_counts[i] + b.syscall_counts[i],
        a.merged(b).touched_memory_addresses == a.touched_memory_addresses
            + b.touched_memory_addresses,
        a.merged(b) == b.merged(a),
{
    assert(a.merged(b) =~= b.merged(a));
}

/// Two reports can be merged just when they count the same kinds and what comes of it can be
/// counted.
pub proof fn law_may_merge(a: ReportView, b: ReportView)
    ensures
        a.may_merge(b) <==> {
            &&& a.opcode_counts.len() == b.opcode_counts.len()
            &&& a.syscall_counts.len() == b.syscall_counts.len()
            &&& forall|i: int|
                0 <= i < a.opcode_counts.len() ==> #[trigger] a.merged(b).opcode_counts[i]
                    <= u64::MAX
            &&& forall|i: int|
                0 <= i < a.syscall_counts.len() ==> #[trigger] a.merged(b).syscall_counts[i]
                    <= u64::MAX
            &&& a.merged(b).touched_memory_addresses <= u64::MAX
        },
{
    let left = a.merged(b);
    if a.opcode_counts.len() == b.opcode_counts.len() && a.syscall_counts.len()
        == b.syscall_counts.len() {
        assert(forall|i: int|
            0 <= i < a.opcode_counts.len() ==> #[trigger] a.opcode_counts[i] + b.opcode_counts[i]
                == left.opcode_counts[i]);
        assert(forall|i: int|
            0 <= i < a.syscall_counts.len() ==> #[trigger] a.syscall_counts[i]
                + b.syscall_counts[i] == left.syscall_counts[i]);
    }
}

/// It does not matter in which order two executions are added to a report.
pub proof fn law_merge_order(report: ReportView, a: ReportView, b: ReportView)
    ensures
        report.merged(a).merged(b) == report.merged(b).merged(a),
{
    assert(report.merged(a).merged(b) =~= report.merged(b).merged(a));
}

proof fn lemma_sum_added(left: Seq<nat>, right: Seq<nat>)
    requires
        left.len() == right.len(),
    ensures
        sum(added(left, right)) == sum(left) + sum(right),
    decreases left.len(),
{
    if left.len() > 0 {
        lemma_sum_added(left.drop_last(), right.drop_last());
        assert(added(left, right).drop_last() =~= added(left.drop_last(), right.drop_last()));
    }
}

/// The report of two executions counts as many instructions and system calls as both reports
/// together.
pub proof fn law_totals_add(a: ReportView, b: ReportView)
    requires
        b.counts(a.opcode_counts.len(), a.syscall_counts.len()),
    ensures
        a.merged(b).total_instruction_count() == a.total_instruction_count()
            + b.total_instruction_count(),
        a.merged(b).total_syscall_count() == a.total_syscall_count() + b.total_syscall_count(),
{
    lemma_sum_added(a.opcode_counts, b.opcode_counts);
    lemma_sum_added(a.syscall_counts, b.syscall_counts);
}

proof fn lemma_sum_zeros(len: nat)
    ensures
        sum(Seq::new(len, |i: int| 0nat)) == 0,
    decreases len,
{
    if len > 0 {
        let less = (len - 1) as nat;
        lemma_sum_zeros(less);
        assert(Seq::new(len, |i: int| 0nat).drop_last() =~= Seq::new(less, |i: int| 0nat));
    }
}

/// The report of no execution counts nothing.
pub proof fn law_empty_counts_nothing(opcodes: nat, syscalls: nat)
    ensures
        ReportView::empty(opcodes, syscalls).total_instruction_count() == 0,
        ReportView::empty(opcodes, syscalls).total_syscall_count() == 0,
{
    lemma_sum_zeros(opcodes);
    lemma_sum_zeros(syscalls);
    assert(ReportView::empty(opcodes, syscalls).opcode_counts =~= Seq::new(opcodes, |i: int| 0nat));
    assert(ReportView::empty(opcodes, syscalls).syscall_counts =~= Seq::new(
        syscalls,
        |i: int| 0nat,
    ));
}

} // verus!
