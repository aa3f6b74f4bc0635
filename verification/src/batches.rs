//! Grouping shards into the batches that are proved together.
use vstd::math::min;
use vstd::prelude::*;

verus! {

/// `items` cut into runs of `size`: the first `size` of them, and then the runs of the others. There
/// are no runs of size zero: `items` is one run then.
pub open spec fn chunks<T>(items: Seq<T>, size: nat) -> Seq<Seq<T>>
    decreases items.len(),
{
    if items.len() == 0 {
        seq![]
    } else if size == 0 || items.len() <= size {
        seq![items]
    } else {
        seq![items.take(size as int)] + chunks(items.skip(size as int), size)
    }
}

/// The sequences that a vector of vectors holds.
pub open spec fn contents<T>(items: Seq<Vec<T>>) -> Seq<Seq<T>> {
    Seq::new(items.len(), |i: int| items[i]@)
}

/// The pairs of the items at the same place, as many as the shorter sequence has.
pub open spec fn paired<A, B>(left: Seq<A>, right: Seq<B>) -> Seq<(A, B)> {
    Seq::new(
        if left.len() <= right.len() {
            left.len()
        } else {
            right.len()
        },
        |i: int| (left[i], right[i]),
    )
}

/// Cuts `items` into runs of `chunk_size`, in order; the last run may be shorter.
pub fn chunk_vec<T>(items: Vec<T>, chunk_size: usize) -> (result: Vec<Vec<T>>)
    requires
        chunk_size > 0 || items@.len() == 0,
    ensures
        contents(result@) == chunks(items@, chunk_size as nat),
        items@.len() == 0 ==> result@.len() == 0,
        chunk_size > 0 ==> result@.len() == (items@.len() + chunk_size - 1) / chunk_size as int,
        forall|i: int|
            0 <= i < result@.len() ==> (#[trigger] result@[i])@ == items@.subrange(
                i * chunk_size,
                min((i + 1) * chunk_size, items@.len() as int),
            ),
{
    let mut rest: Vec<T> = items;
    let mut result: Vec<Vec<T>> = Vec::new();
    while rest.len() > chunk_size
        invariant
            chunk_size > 0 || rest@.len() == 0,
            contents(result@) + chunks(rest@, chunk_size as nat) == chunks(
                items@,
                chunk_size as nat,
            ),
        decreases rest.len(),
    {
        let ghost before = result@;
        let ghost left = rest@;
        let tail: Vec<T> = rest.split_off(chunk_size);
        result.push(rest);
        rest = tail;
        proof {
            assert(contents(result@) =~= contents(before).push(left.take(chunk_size as int)));
            assert(rest@ =~= left.skip(chunk_size as int));
            assert(contents(result@) + chunks(rest@, chunk_size as nat) =~= contents(before)
                + chunks(left, chunk_size as nat));
        }
    }
    let ghost before = result@;
    let ghost left = rest@;
    if rest.len() > 0 {
        result.push(rest);
        assert(contents(result@) =~= contents(before).push(left));
    }
    assert(contents(result@) =~= contents(before) + chunks(left, chunk_size as nat));
    proof {
        assert(result@.len() == contents(result@).len());
        if chunk_size > 0 {
            law_chunk_sizes(items@, chunk_size as nat);
        }
        assert forall|i: int| 0 <= i < result@.len() implies (#[trigger] result@[i])@
            == items@.subrange(
            i * chunk_size,
            min((i + 1) * chunk_size, items@.len() as int),
        ) by {
            assert(result@[i]@ == contents(result@)[i]);
            law_chunk_in_place(items@, chunk_size as nat, i);
        }
    }
    result
}

/// The items in the opposite order.
fn reversed<T>(items: Vec<T>) -> (result: Vec<T>)
    ensures
        result@ == items@.reverse(),
{
    let mut rest: Vec<T> = items;
    let mut result: Vec<T> = Vec::new();
    while rest.len() > 0
        invariant
            rest@ == items@.take(rest@.len() as int),
            rest@.len() + result@.len() == items@.len(),
            forall|j: int|
                0 <= j < result@.len() ==> #[trigger] result@[j] == items@[items@.len() - 1 - j],
        decreases rest.len(),
    {
        if let Some(item) = rest.pop() {
            result.push(item);
        }
    }
    result
}

/// Pairs the items at the same place, as `Iterator::zip` does.
fn zip<A, B>(left: Vec<A>, right: Vec<B>) -> (result: Vec<(A, B)>)
    ensures
        result@ == paired(left@, right@),
{
    let mut lefts: Vec<A> = reversed(left);
    let mut rights: Vec<B> = reversed(right);
    let mut result: Vec<(A, B)> = Vec::new();
    while lefts.len() > 0 && rights.len() > 0
        invariant
            lefts@.len() + result@.len() == left@.len(),
            rights@.len() + result@.len() == right@.len(),
            lefts@ == left@.reverse().take(lefts@.len() as int),
            rights@ == right@.reverse().take(rights@.len() as int),
            forall|j: int|
                0 <= j < result@.len() ==> #[trigger] result@[j] == (left@[j], right@[j]),
        decreases lefts.len(),
    {
        if let Some(a) = lefts.pop() {
            if let Some(b) = rights.pop() {
                result.push((a, b));
            }
        }
    }
    result
}

/// The batches of a checkpoint: its records and their traces, `size` at a time.
pub open spec fn batched<R, T>(records: Seq<R>, traces: Seq<T>, size: nat) -> Seq<
    (Seq<R>, Seq<T>),
> {
    paired(chunks(records, size), chunks(traces, size))
}

/// The batches that a vector of pairs of vectors holds.
pub open spec fn batch_contents<R, T>(batches: Seq<(Vec<R>, Vec<T>)>) -> Seq<(Seq<R>, Seq<T>)> {
    Seq::new(batches.len(), |i: int| (batches[i].0@, batches[i].1@))
}

/// Groups the records of a checkpoint with their traces into batches of `batch_size` shards.
pub fn make_batches<R, T>(records: Vec<R>, traces: Vec<T>, batch_size: usize) -> (batches: Vec<
    (Vec<R>, Vec<T>),
>)
    requires
        batch_size > 0 || (records@.len() == 0 && traces@.len() == 0),
    ensures
        batch_contents(batches@) == batched(records@, traces@, batch_size as nat),
        records@.len() == 0 || traces@.len() == 0 ==> batches@.len() == 0,
        batch_size > 0 ==> batches@.len() == min(
            (records@.len() + batch_size - 1) / batch_size as int,
            (traces@.len() + batch_size - 1) / batch_size as int,
        ),
        forall|i: int|
            0 <= i < batches@.len() ==> {
                &&& (#[trigger] batches@[i]).0@ == records@.subrange(
                    i * batch_size,
                    min((i + 1) * batch_size, records@.len() as int),
                )
                &&& batches@[i].1@ == traces@.subrange(
                    i * batch_size,
                    min((i + 1) * batch_size, traces@.len() as int),
                )
            },
{
    let chunked_records: Vec<Vec<R>> = chunk_vec(records, batch_size);
    let chunked_traces: Vec<Vec<T>> = chunk_vec(traces, batch_size);
    let batches: Vec<(Vec<R>, Vec<T>)> = zip(chunked_records, chunked_traces);
    assert(batch_contents(batches@) =~= paired(
        contents(chunked_records@),
        contents(chunked_traces@),
    ));
    batches
}

/// The runs put one after the other are the items again: none is lost, doubled or moved.
pub proof fn law_chunks_concatenate<T>(items: Seq<T>, size: nat)
    ensures
        chunks(items, size).flatten() == items,
    decreases items.len(),
{
    let cut = chunks(items, size);
    if items.len() == 0 {
        assert(cut.flatten() =~= items);
    } else if size == 0 || items.len() <= size {
        assert(cut.drop_first() =~= seq![]);
        assert(cut.drop_first().flatten() =~= seq![]);
        assert(cut.flatten() =~= items);
    } else {
        let rest = items.skip(size as int);
        law_chunks_concatenate(rest, size);
        assert(cut.drop_first() =~= chunks(rest, size));
        assert(cut.first() == items.take(size as int));
        assert(cut.flatten() =~= items);
    }
}

/// The run at `i` holds the items at `i * size` and after, `size` of them or as many as there are.
pub proof fn law_chunk_in_place<T>(items: Seq<T>, size: nat, i: int)
    requires
        size > 0,
        0 <= i < chunks(items, size).len(),
    ensures
        i * size < items.len(),
        chunks(items, size)[i] == items.subrange(
            i * size,
            min((i + 1) * size, items.len() as int),
        ),
    decreases items.len(),
{
    let cut = chunks(items, size);
    let n = size as int;
    assert((i + 1) * n == i * n + n) by (nonlinear_arith);
    if i == 0 {
        assert(0 * n == 0);
        assert(cut[0] =~= items.subrange(0, min(n, items.len() as int)));
    } else {
        let rest = items.skip(n);
        law_chunk_in_place(rest, size, i - 1);
        assert(cut[i] == chunks(rest, size)[i - 1]);
        assert((i - 1) * n == i * n - n && (i - 1) * n >= 0) by (nonlinear_arith)
            requires
                i >= 1,
                n > 0,
        ;
        assert((i - 1 + 1) * n == i * n);
        assert(cut[i] =~= items.subrange(i * n, min((i + 1) * n, items.len() as int)));
    }
}

/// Every run has `size` items but the last one, which has at least one and at most `size`.
pub proof fn law_chunk_sizes<T>(items: Seq<T>, size: nat)
    requires
        size > 0,
    ensures
        chunks(items, size).len() == (items.len() + size - 1) / size as int,
        forall|i: int|
            0 <= i < chunks(items, size).len() - 1 ==> (#[trigger] chunks(items, size)[i]).len()
                == size,
        items.len() > 0 ==> 0 < chunks(items, size).last().len() <= size,
    decreases items.len(),
{
    let cut = chunks(items, size);
    let len = items.len() as int;
    let n = size as int;
    if items.len() == 0 {
        assert((n - 1) / n == 0) by (nonlinear_arith)
            requires
                n > 0,
        ;
    } else if items.len() <= size {
        assert((len + n - 1) / n == 1) by (nonlinear_arith)
            requires
                0 < len <= n,
        ;
    } else {
        let rest = items.skip(size as int);
        law_chunk_sizes(rest, size);
        assert(cut =~= seq![items.take(n)] + chunks(rest, size));
        assert((len + n - 1) / n == (len - n + n - 1) / n + 1) by (nonlinear_arith)
            requires
                n > 0,
        ;
        assert forall|i: int| 0 <= i < cut.len() - 1 implies (#[trigger] cut[i]).len() == size by {
            if i > 0 {
                assert(cut[i] == chunks(rest, size)[i - 1]);
            }
        }
    }
}

/// Records and as many traces make one batch for every `size` of them or part of it. A batch has as
/// many traces as records: `size`, or what is left for the last one.
pub proof fn law_batch_sizes<R, T>(records: Seq<R>, traces: Seq<T>, size: nat)
    requires
        size > 0,
        records.len() == traces.len(),
    ensures
        batched(records, traces, size).len() == (records.len() + size - 1) / size as int,
        forall|i: int|
            0 <= i < batched(records, traces, size).len() ==> {
                let batch = #[trigger] batched(records, traces, size)[i];
                &&& batch.0.len() == batch.1.len()
                &&& 0 < batch.0.len() <= size
                &&& i + 1 < batched(records, traces, size).len() ==> batch.0.len() == size
            },
{
    law_chunk_sizes(records, size);
    law_chunk_sizes(traces, size);
    assert forall|i: int| 0 <= i < batched(records, traces, size).len() implies {
        let batch = #[trigger] batched(records, traces, size)[i];
        &&& batch.0.len() == batch.1.len()
        &&& 0 < batch.0.len() <= size
        &&& i + 1 < batched(records, traces, size).len() ==> batch.0.len() == size
    } by {
        law_chunk_in_place(records, size, i);
        law_chunk_in_place(traces, size, i);
        assert((i + 1) * size == i * size + size && i * size >= 0) by (nonlinear_arith)
            requires
                i >= 0,
                size > 0,
        ;
        assert(batched(records, traces, size)[i] == (
            chunks(records, size)[i],
            chunks(traces, size)[i],
        ));
    }
}

/// The batch at `i` holds the records and the traces at `i * size` and after, `size` of each or as
/// many as there are. There are as many batches as both the records and the traces suffice for.
pub proof fn law_batch_in_place<R, T>(records: Seq<R>, traces: Seq<T>, size: nat, i: int)
    requires
        size > 0,
        0 <= i,
    ensures
        i < batched(records, traces, size).len() <==> i * size < records.len() && i * size
            < traces.len(),
        i < batched(records, traces, size).len() ==> batched(records, traces, size)[i] == (
            records.subrange(i * size, min((i + 1) * size, records.len() as int)),
            traces.subrange(i * size, min((i + 1) * size, traces.len() as int)),
        ),
{
    law_chunk_sizes(records, size);
    law_chunk_sizes(traces, size);
    lemma_rounds_up(records.len() as int, size as int, i);
    lemma_rounds_up(traces.len() as int, size as int, i);
    if i < batched(records, traces, size).len() {
        law_chunk_in_place(records, size, i);
        law_chunk_in_place(traces, size, i);
    }
}

proof fn lemma_rounds_up(len: int, size: int, i: int)
    requires
        size > 0,
        len >= 0,
        i >= 0,
    ensures
        i < (len + size - 1) / size <==> i * size < len,
{
    let rounded = (len + size - 1) / size;
    assert(rounded * size <= len + size - 1 < rounded * size + size) by (nonlinear_arith)
        requires
            size > 0,
            rounded == (len + size - 1) / size,
    ;
    if i < rounded {
        assert(i * size <= rounded * size - size) by (nonlinear_arith)
            requires
                i + 1 <= rounded,
                size > 0,
        ;
    } else {
        assert(i * size >= rounded * size) by (nonlinear_arith)
            requires
                i >= rounded,
                size > 0,
        ;
    }
}

/// The records of batches, each with its trace, one batch after the other.
pub open spec fn unbatched<R, T>(batches: Seq<(Seq<R>, Seq<T>)>) -> Seq<(R, T)>
    decreases batches.len(),
{
    if batches.len() == 0 {
        seq![]
    } else {
        paired(batches.first().0, batches.first().1) + unbatched(batches.drop_first())
    }
}

/// Batching loses nothing: taken batch by batch, every record comes in its place and with its own
/// trace.
pub proof fn law_batches_keep_pairs<R, T>(records: Seq<R>, traces: Seq<T>, size: nat)
    requires
        records.len() == traces.len(),
    ensures
        unbatched(batched(records, traces, size)) == paired(records, traces),
    decreases records.len(),
{
    let batches = batched(records, traces, size);
    if records.len() == 0 {
        assert(unbatched(batches) =~= paired(records, traces));
    } else if size == 0 || records.len() <= size {
        assert(batches =~= seq![(records, traces)]);
        assert(batches.drop_first() =~= seq![]);
        assert(unbatched(batches.drop_first()) =~= seq![]);
        assert(unbatched(batches) =~= paired(records, traces));
    } else {
        let n = size as int;
        law_batches_keep_pairs(records.skip(n), traces.skip(n), size);
        assert(batches.drop_first() =~= batched(records.skip(n), traces.skip(n), size));
        assert(batches.first() == (records.take(n), traces.take(n)));
        assert(unbatched(batches) =~= paired(records, traces));
    }
}

} // verus!
