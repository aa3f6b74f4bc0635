//! What a run hands back.
use vstd::prelude::*;

verus! {

/// The proof of a run: the proofs of its shards, in order.
pub struct MachineProof<F> {
    pub shard_proofs: Vec<F>,
}

impl<F> View for MachineProof<F> {
    type V = Seq<F>;

    open spec fn view(&self) -> Seq<F> {
        self.shard_proofs@
    }
}

impl<F> MachineProof<F> {
    /// The proof of no shard.
    pub fn new() -> (proof: Self)
        ensures
            proof@ == Seq::<F>::empty(),
            proof.shard_proofs@.len() == 0,
    {
        MachineProof { shard_proofs: Vec::new() }
    }

    /// Puts the proofs of the next batch behind those that are there.
    pub fn extend(&mut self, batch: Vec<F>)
        ensures
            final(self)@ == old(self)@ + batch@,
            final(self).shard_proofs@ == old(self).shard_proofs@ + batch@,
    {
        let mut proofs: Vec<F> = batch;
        self.shard_proofs.append(&mut proofs);
    }
}

/// What a run hands back once the verifier has looked at its proof: the proof if it was found good,
/// and otherwise what is wrong with it.
pub fn checked_proof<F, E>(
    proof: MachineProof<F>,
    verified: Result<(), E>,
) -> (result: Result<MachineProof<F>, E>)
    ensures
        result == match verified {
            Ok(_) => Ok(proof),
            Err(error) => Err(error),
        },
{
    match verified {
        Ok(_) => Ok(proof),
        Err(error) => Err(error),
    }
}

/// What a run for its output hands back: the public values that the program wrote, unless the run
/// failed.
pub fn checked_output<V, F, E>(
    public_values: V,
    core: Result<MachineProof<F>, E>,
) -> (result: Result<V, E>)
    ensures
        result == match core {
            Ok(_) => Ok(public_values),
            Err(error) => Err(error),
        },
{
    match core {
        Ok(_) => Ok(public_values),
        Err(error) => Err(error),
    }
}

/// Whether a proof has the shape that its record was fixed to: the same chips, each with the same
/// height. Both shapes list the chips in the order in which a proof lists them. A record whose shape
/// was not fixed agrees with any proof.
pub open spec fn agrees_with(
    proof_shape: Seq<(String, usize)>,
    record_shape: Option<Seq<(String, u32)>>,
) -> bool {
    match record_shape {
        None => true,
        Some(shape) => {
            &&& proof_shape.len() == shape.len()
            &&& forall|i: int|
                0 <= i < shape.len() ==> (#[trigger] proof_shape[i]).0@ == shape[i].0@
                    && proof_shape[i].1 == shape[i].1
        },
    }
}

/// Whether a proof has the shape that its record was fixed to, if it was.
pub fn shape_agrees(
    proof_shape: &Vec<(String, usize)>,
    record_shape: &Option<Vec<(String, u32)>>,
) -> (agrees: bool)
    ensures
        agrees == agrees_with(
            proof_shape@,
            match record_shape {
                Some(shape) => Some(shape@),
                None => None,
            },
        ),
        agrees == match record_shape {
            None => true,
            Some(shape) => proof_shape@.len() == shape@.len() && forall|i: int|
                0 <= i < shape@.len() ==> (#[trigger] proof_shape@[i]).0@ == shape@[i].0@
                    && proof_shape@[i].1 == shape@[i].1,
        },
{
    match record_shape {
        None => true,
        Some(shape) => {
            if proof_shape.len() != shape.len() {
                return false;
            }
            let mut i: usize = 0;
            while i < shape.len()
                invariant
                    record_shape == Some(*shape),
                    i <= shape@.len(),
                    proof_shape@.len() == shape@.len(),
                    forall|j: int|
                        0 <= j < i ==> (#[trigger] proof_shape@[j]).0@ == shape@[j].0@
                            && proof_shape@[j].1 == shape@[j].1,
                decreases shape.len() - i,
            {
                let same_chip: bool = proof_shape[i].0 == shape[i].0;
                if !same_chip || proof_shape[i].1 as u64 != shape[i].1 as u64 {
                    return false;
                }
                i = i + 1;
            }
            true
        },
    }
}

/// A proof agrees with the shape of a record just when both list the same chips with the same heights
/// in the same order. So two proofs that agree with one shape have the same shape, and changing any
/// chip or height of one of them, or leaving one out, ends the agreement.
pub proof fn law_shapes_agree(
    left: Seq<(String, usize)>,
    right: Seq<(String, usize)>,
    shape: Seq<(String, u32)>,
)
    requires
        agrees_with(left, Some(shape)),
    ensures
        agrees_with(left, None),
        left.len() == shape.len(),
        agrees_with(right, Some(shape)) <==> {
            &&& right.len() == left.len()
            &&& forall|i: int|
                0 <= i < left.len() ==> (#[trigger] right[i]).0@ == left[i].0@ && right[i].1
                    == left[i].1
        },
{
    if agrees_with(right, Some(shape)) {
        assert forall|i: int| 0 <= i < left.len() implies (#[trigger] right[i]).0@ == left[i].0@
            && right[i].1 == left[i].1 by {
            assert(left[i].0@ == shape[i].0@);
        }
    } else if right.len() == left.len() {
        let i = choose|i: int|
            0 <= i < shape.len() && !((#[trigger] right[i]).0@ == shape[i].0@ && right[i].1
                == shape[i].1);
        assert(left[i].0@ == shape[i].0@);
    }
}

/// A proof that lists the chips of a record, each with the height that the record gives it, agrees
/// with the record, and one that agrees with it lists them.
pub proof fn law_shape_is_listed(proof_shape: Seq<(String, usize)>, shape: Seq<(String, u32)>)
    ensures
        agrees_with(proof_shape, Some(shape)) <==> proof_shape.map_values(
            |chip: (String, usize)| (chip.0@, chip.1 as int),
        ) == shape.map_values(|chip: (String, u32)| (chip.0@, chip.1 as int)),
{
    let listed = proof_shape.map_values(|chip: (String, usize)| (chip.0@, chip.1 as int));
    let fixed = shape.map_values(|chip: (String, u32)| (chip.0@, chip.1 as int));
    if agrees_with(proof_shape, Some(shape)) {
        assert(listed =~= fixed);
    }
    if listed == fixed {
        assert(listed.len() == proof_shape.len() && fixed.len() == shape.len());
        assert forall|i: int| 0 <= i < shape.len() implies (#[trigger] proof_shape[i]).0@
            == shape[i].0@ && proof_shape[i].1 == shape[i].1 by {
            assert(listed[i] == (proof_shape[i].0@, proof_shape[i].1 as int));
            assert(fixed[i] == (shape[i].0@, shape[i].1 as int));
        }
    }
}

} // verus!
