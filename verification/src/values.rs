//! The public values that every shard carries, and the records that carry them.
use vstd::prelude::*;

verus! {

/// What fixes the representation of the parts of the public values that a proving run copies from
/// shard to shard without looking inside.
pub trait Layout {
    /// The digest of the values that the program has committed.
    type CommittedDigest: Copy;

    /// The digest of the deferred proofs that the program has witnessed.
    type DeferredDigest: Copy;

    /// An address, bit by bit.
    type AddrBits: Copy;

    /// Everything else in the public values.
    type Rest: Copy;
}

/// The public values of one shard. The same type is the running state of the prover: the public
/// values of the shard that was numbered last.
pub struct PublicValues<L: Layout> {
    /// The number of the shard among all shards of the run.
    pub shard: u32,
    /// The number of the shard among those that hold executed instructions.
    pub execution_shard: u32,
    /// The program counter at which the shard starts.
    pub start_pc: u32,
    /// The program counter at which the next shard starts.
    pub next_pc: u32,
    pub committed_value_digest: L::CommittedDigest,
    pub deferred_proofs_digest: L::DeferredDigest,
    /// The last address initialised before the shard.
    pub previous_init_addr_bits: L::AddrBits,
    /// The last address initialised within the shard.
    pub last_init_addr_bits: L::AddrBits,
    /// The last address finalised before the shard.
    pub previous_finalize_addr_bits: L::AddrBits,
    /// The last address finalised within the shard.
    pub last_finalize_addr_bits: L::AddrBits,
    pub rest: L::Rest,
}

impl<L: Layout> Copy for PublicValues<L> {

}

impl<L: Layout> Clone for PublicValues<L> {
    fn clone(&self) -> (values: Self)
        ensures
            values == *self,
    {
        *self
    }
}

/// One shard's record: its public values, and the events from which its trace is generated.
pub struct Record<L: Layout, P> {
    pub public_values: PublicValues<L>,
    pub events: P,
}

} // verus!
