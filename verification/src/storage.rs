//! Hologram storage over an NVMe backend.
//!
//! A record of at most `MAXIMUM_RECORD_BLOCKS` pinned DMA blocks is written
//! to, or read from, consecutive logical blocks; each block's completion is
//! kept in the caller's completion table.

use vstd::prelude::*;

verus! {

pub const HOLOGRAM_BLOCK_BYTES: usize = 4096;
pub const MAXIMUM_RECORD_BLOCKS: usize = 64;

/// One encoded block of a hologram record.
pub struct HologramBlock {
    pub interference_pattern: Vec<u8>,
}

impl HologramBlock {
    pub fn zeroed() -> (r: HologramBlock)
        ensures
            r.interference_pattern@.len() == HOLOGRAM_BLOCK_BYTES,
            forall|i: int| 0 <= i < HOLOGRAM_BLOCK_BYTES ==> #[trigger] r.interference_pattern@[i]
                == 0,
    {
        let mut pattern: Vec<u8> = Vec::new();
        let mut i: usize = 0;
        while i < HOLOGRAM_BLOCK_BYTES
            invariant
                i <= HOLOGRAM_BLOCK_BYTES,
                pattern@.len() == i,
                forall|k: int| 0 <= k < i ==> #[trigger] pattern@[k] == 0,
            decreases HOLOGRAM_BLOCK_BYTES - i,
        {
            pattern.push(0);
            i = i + 1;
        }
        HologramBlock { interference_pattern: pattern }
    }
}

#[derive(Clone, Copy, Debug, PartialEq, Eq, Structural)]
pub enum StorageError {
    InvalidRecord,
    OutputTooSmall,
    CodecFailure,
    CapabilityRevoked,
    QueueFull,
    BackendUnavailable,
}

/// Codec contract for erasure or transform coding.
pub trait HologramCodec {
    fn encode(&self, raw_data: &[u8], output: &mut Vec<HologramBlock>) -> Result<usize, StorageError>;

    fn decode(&self, blocks: &[HologramBlock], output: &mut Vec<u8>) -> Result<usize, StorageError>;
}

/// A storage capability from the kernel broker; never the null handle.
#[derive(Clone, Copy, Debug, PartialEq, Eq, Structural)]
pub struct StorageCapability {
    raw: u64,
}

impl StorageCapability {
    pub closed spec fn spec_raw(&self) -> u64 {
        self.raw
    }

    pub fn from_kernel(raw: u64) -> (r: Option<StorageCapability>)
        ensures
            raw == 0 ==> r is None,
            raw != 0 ==> r is Some && r->Some_0.spec_raw() == raw,
    {
        if raw == 0 {
            None
        } else {
            Some(StorageCapability { raw })
        }
    }
}

/// A pinned 4 KiB DMA lease of one mapping generation.
#[derive(Clone, Copy, Debug, PartialEq, Eq, Structural)]
pub struct DmaBlockLease {
    raw: u64,
    generation: u32,
}

impl DmaBlockLease {
    pub closed spec fn spec_raw(&self) -> u64 {
        self.raw
    }

    pub closed spec fn spec_generation(&self) -> u32 {
        self.generation
    }

    pub fn from_kernel(raw: u64, generation: u32) -> (r: Option<DmaBlockLease>)
        ensures
            raw == 0 || generation == 0 ==> r is None,
            raw != 0 && generation != 0 ==> r is Some && r->Some_0.spec_raw() == raw
                && r->Some_0.spec_generation() == generation,
    {
        if raw == 0 || generation == 0 {
            None
        } else {
            Some(DmaBlockLease { raw, generation })
        }
    }
}

#[derive(Clone, Copy, Debug, PartialEq, Eq, Structural)]
pub struct StorageCompletion {
    pub token: u64,
}

/// The device queue a drive submits to.
///
/// An implementation says what each submission does through `wrote` and
/// `read`: the relation between the queue before a submission, the queue
/// after it, what was handed over and what came back.
pub trait NvmeBackend: Sized {
    /// Submitting a write of `block` to `logical_block` under `capability`
    /// took the queue from `self` to `after` and answered `r`.
    spec fn wrote(
        &self,
        after: &Self,
        capability: StorageCapability,
        block: DmaBlockLease,
        logical_block: u64,
        r: Result<StorageCompletion, StorageError>,
    ) -> bool;

    /// Submitting a read of `logical_block` into `block` under `capability`
    /// took the queue from `self` to `after` and answered `r`.
    spec fn read(
        &self,
        after: &Self,
        capability: StorageCapability,
        block: DmaBlockLease,
        logical_block: u64,
        r: Result<StorageCompletion, StorageError>,
    ) -> bool;

    fn submit_write(
        &mut self,
        capability: StorageCapability,
        block: DmaBlockLease,
        logical_block: u64,
    ) -> (r: Result<StorageCompletion, StorageError>)
        ensures
            old(self).wrote(&*final(self), capability, block, logical_block, r),
    ;

    fn submit_read(
        &mut self,
        capability: StorageCapability,
        block: DmaBlockLease,
        logical_block: u64,
    ) -> (r: Result<StorageCompletion, StorageError>)
        ensures
            old(self).read(&*final(self), capability, block, logical_block, r),
    ;
}

/// One submission of a record: a write when `write`, else a read.
pub open spec fn submission<B: NvmeBackend>(
    write: bool,
    before: B,
    after: B,
    capability: StorageCapability,
    block: DmaBlockLease,
    logical_block: int,
    r: Result<StorageCompletion, StorageError>,
) -> bool {
    if write {
        before.wrote(&after, capability, block, logical_block as u64, r)
    } else {
        before.read(&after, capability, block, logical_block as u64, r)
    }
}

/// The first `k` blocks of a record were submitted in order, block `i` to
/// logical block `first + i`, each through queue state `states[i]` to
/// `states[i + 1]`, and each answered with completion `done[i]`.
pub open spec fn record_chain<B: NvmeBackend>(
    write: bool,
    capability: StorageCapability,
    first: u64,
    blocks: Seq<DmaBlockLease>,
    done: Seq<StorageCompletion>,
    states: Seq<B>,
    k: nat,
) -> bool
    decreases k,
{
    if k == 0 {
        true
    } else {
        &&& record_chain(write, capability, first, blocks, done, states, (k - 1) as nat)
        &&& submission(
            write,
            states[k - 1],
            states[k as int],
            capability,
            blocks[k - 1],
            first + k - 1,
            Ok(done[k - 1]),
        )
    }
}

/// What submitting a well-shaped record did: the first `k` blocks were
/// submitted and answered as `record_chain` says, their completions are in
/// `after[..k]` and the rest of the table is untouched; then either every
/// block went through and the answer is the block count, or block `k`'s
/// logical block overflowed (`InvalidRecord`, nothing submitted for it), or
/// block `k`'s submission answered the error that is returned.
pub open spec fn record_outcome<B: NvmeBackend>(
    write: bool,
    capability: StorageCapability,
    first: u64,
    blocks: Seq<DmaBlockLease>,
    before: Seq<StorageCompletion>,
    after: Seq<StorageCompletion>,
    backend_before: B,
    backend_after: B,
    states: Seq<B>,
    k: nat,
    r: Result<usize, StorageError>,
) -> bool {
    &&& k <= blocks.len()
    &&& states.len() == k + 1
    &&& states[0] == backend_before
    &&& record_chain(write, capability, first, blocks, after, states, k)
    &&& forall|i: int| k <= i < before.len() ==> #[trigger] after[i] == before[i]
    &&& first + k - 1 <= u64::MAX
    &&& match r {
        Ok(n) => n == blocks.len() && k == blocks.len() && backend_after == states[k as int],
        Err(e) => k < blocks.len() && (if first + k > u64::MAX {
            e == StorageError::InvalidRecord && backend_after == states[k as int]
        } else {
            submission(
                write,
                states[k as int],
                backend_after,
                capability,
                blocks[k as int],
                first + k,
                Err(e),
            )
        }),
    }
}

/// A witness of a record's outcome shows that one exists.
proof fn lemma_outcome_exists<B: NvmeBackend>(
    write: bool,
    capability: StorageCapability,
    first: u64,
    blocks: Seq<DmaBlockLease>,
    before: Seq<StorageCompletion>,
    after: Seq<StorageCompletion>,
    backend_before: B,
    backend_after: B,
    states: Seq<B>,
    k: nat,
    r: Result<usize, StorageError>,
)
    requires
        record_outcome(write, capability, first, blocks, before, after, backend_before, backend_after, states, k, r),
    ensures
        exists|st: Seq<B>, j: nat|
            #![trigger record_chain(write, capability, first, blocks, after, st, j)]
            record_outcome(write, capability, first, blocks, before, after, backend_before, backend_after, st, j, r),
{
    assert(record_chain(write, capability, first, blocks, after, states, k));
}

/// `record_chain` reads only the first `k + 1` states and `k` completions.
proof fn lemma_record_chain_prefix<B: NvmeBackend>(
    write: bool,
    capability: StorageCapability,
    first: u64,
    blocks: Seq<DmaBlockLease>,
    done: Seq<StorageCompletion>,
    done2: Seq<StorageCompletion>,
    states: Seq<B>,
    states2: Seq<B>,
    k: nat,
)
    requires
        forall|i: int| 0 <= i <= k ==> states[i] == states2[i],
        forall|i: int| 0 <= i < k ==> done[i] == done2[i],
    ensures
        record_chain(write, capability, first, blocks, done, states, k) == record_chain(
            write,
            capability,
            first,
            blocks,
            done2,
            states2,
            k,
        ),
    decreases k,
{
    if k > 0 {
        lemma_record_chain_prefix(
            write,
            capability,
            first,
            blocks,
            done,
            done2,
            states,
            states2,
            (k - 1) as nat,
        );
    }
}

/// A record's shape is acceptable: one to `MAXIMUM_RECORD_BLOCKS` blocks
/// and room for a completion per block.
pub open spec fn record_shape_ok(blocks: nat, completions: nat) -> bool {
    0 < blocks <= MAXIMUM_RECORD_BLOCKS && completions >= blocks
}

pub struct AkashicDrive<Backend> {
    capability: StorageCapability,
    backend: Backend,
}

impl<Backend: NvmeBackend> AkashicDrive<Backend> {
    pub closed spec fn spec_capability(&self) -> StorageCapability {
        self.capability
    }

    pub closed spec fn spec_backend(&self) -> Backend {
        self.backend
    }

    pub fn new(capability: StorageCapability, backend: Backend) -> (r: AkashicDrive<Backend>)
        ensures
            r.spec_capability() == capability,
            r.spec_backend() == backend,
    {
        AkashicDrive { capability, backend }
    }

    /// Submits a bounded record of already encoded, pinned blocks: block `i`
    /// is written to logical block `first_logical_block + i`, in order, and
    /// its completion kept in `completions[i]`; the first refusal of the
    /// backend, or the first logical block past `u64::MAX`, ends the record.
    pub fn inscribe_hologram(
        &mut self,
        first_logical_block: u64,
        blocks: &[DmaBlockLease],
        completions: &mut [StorageCompletion],
    ) -> (r: Result<usize, StorageError>)
        ensures
            final(completions)@.len() == old(completions)@.len(),
            final(self).spec_capability() == old(self).spec_capability(),
            !record_shape_ok(blocks@.len(), old(completions)@.len()) ==> r == Err::<
                usize,
                StorageError,
            >(StorageError::InvalidRecord) && final(completions)@ == old(completions)@
                && final(self).spec_backend() == old(self).spec_backend(),
            record_shape_ok(blocks@.len(), old(completions)@.len()) ==> exists|
                states: Seq<Backend>,
                k: nat,
            |
                #![trigger record_chain(true, old(self).spec_capability(), first_logical_block, blocks@, final(completions)@, states, k)]
                record_outcome(
                    true,
                    old(self).spec_capability(),
                    first_logical_block,
                    blocks@,
                    old(completions)@,
                    final(completions)@,
                    old(self).spec_backend(),
                    final(self).spec_backend(),
                    states,
                    k,
                    r,
                ),
    {
        self.submit_record(first_logical_block, blocks, completions, true)
    }

    /// Reads a bounded record of pinned blocks: block `i` is read from
    /// logical block `first_logical_block + i`, in order, and its
    /// completion kept in `completions[i]`; the first refusal of the
    /// backend, or the first logical block past `u64::MAX`, ends the record.
    pub fn recall_hologram(
        &mut self,
        first_logical_block: u64,
        blocks: &[DmaBlockLease],
        completions: &mut [StorageCompletion],
    ) -> (r: Result<usize, StorageError>)
        ensures
            final(completions)@.len() == old(completions)@.len(),
            final(self).spec_capability() == old(self).spec_capability(),
            !record_shape_ok(blocks@.len(), old(completions)@.len()) ==> r == Err::<
                usize,
                StorageError,
            >(StorageError::InvalidRecord) && final(completions)@ == old(completions)@
                && final(self).spec_backend() == old(self).spec_backend(),
            record_shape_ok(blocks@.len(), old(completions)@.len()) ==> exists|
                states: Seq<Backend>,
                k: nat,
            |
                #![trigger record_chain(false, old(self).spec_capability(), first_logical_block, blocks@, final(completions)@, states, k)]
                record_outcome(
                    false,
                    old(self).spec_capability(),
                    first_logical_block,
                    blocks@,
                    old(completions)@,
                    final(completions)@,
                    old(self).spec_backend(),
                    final(self).spec_backend(),
                    states,
                    k,
                    r,
                ),
    {
        self.submit_record(first_logical_block, blocks, completions, false)
    }

    fn submit_record(
        &mut self,
        first_logical_block: u64,
        blocks: &[DmaBlockLease],
        completions: &mut [StorageCompletion],
        write: bool,
    ) -> (r: Result<usize, StorageError>)
        ensures
            final(completions)@.len() == old(completions)@.len(),
            final(self).spec_capability() == old(self).spec_capability(),
            !record_shape_ok(blocks@.len(), old(completions)@.len()) ==> r == Err::<
                usize,
                StorageError,
            >(StorageError::InvalidRecord) && final(completions)@ == old(completions)@
                && final(self).spec_backend() == old(self).spec_backend(),
            record_shape_ok(blocks@.len(), old(completions)@.len()) ==> exists|
                states: Seq<Backend>,
                k: nat,
            |
                #![trigger record_chain(write, old(self).spec_capability(), first_logical_block, blocks@, final(completions)@, states, k)]
                record_outcome(
                    write,
                    old(self).spec_capability(),
                    first_logical_block,
                    blocks@,
                    old(completions)@,
                    final(completions)@,
                    old(self).spec_backend(),
                    final(self).spec_backend(),
                    states,
                    k,
                    r,
                ),
    {
        if blocks.len() == 0 || blocks.len() > MAXIMUM_RECORD_BLOCKS || completions.len()
            < blocks.len() {
            return Err(StorageError::InvalidRecord);
        }
        let ghost cap = self.capability;
        let ghost mut states: Seq<Backend> = seq![self.backend];
        let mut index: usize = 0;
        while index < blocks.len()
            invariant
                index <= blocks@.len() <= MAXIMUM_RECORD_BLOCKS,
                blocks@.len() <= completions@.len(),
                completions@.len() == old(completions)@.len(),
                record_shape_ok(blocks@.len(), old(completions)@.len()),
                first_logical_block + index - 1 <= u64::MAX,
                self.capability == cap,
                cap == old(self).capability,
                states.len() == index + 1,
                states[0] == old(self).backend,
                states[index as int] == self.backend,
                record_chain(write, cap, first_logical_block, blocks@, completions@, states, index as nat),
                forall|i: int|
                    index <= i < completions@.len() ==> #[trigger] completions@[i] == old(
                        completions,
                    )@[i],
            decreases blocks@.len() - index,
        {
            let lba = match first_logical_block.checked_add(index as u64) {
                Some(v) => v,
                None => {
                    proof {
                        lemma_outcome_exists(
                            write,
                            old(self).spec_capability(),
                            first_logical_block,
                            blocks@,
                            old(completions)@,
                            completions@,
                            old(self).spec_backend(),
                            self.spec_backend(),
                            states,
                            index as nat,
                            Err::<usize, StorageError>(StorageError::InvalidRecord),
                        );
                    }
                    return Err(StorageError::InvalidRecord);
                },
            };
            let block = blocks[index];
            let ghost before = self.backend;
            let completion = if write {
                self.backend.submit_write(self.capability, block, lba)
            } else {
                self.backend.submit_read(self.capability, block, lba)
            };
            assert(submission(write, before, self.backend, cap, blocks@[index as int], first_logical_block + index, completion));
            match completion {
                Ok(c) => {
                    let ghost done_before = completions@;
                    completions[index] = c;
                    proof {
                        let next = states.push(self.backend);
                        lemma_record_chain_prefix(
                            write,
                            cap,
                            first_logical_block,
                            blocks@,
                            done_before,
                            completions@,
                            states,
                            next,
                            index as nat,
                        );
                        states = next;
                    }
                },
                Err(e) => {
                    proof {
                        lemma_outcome_exists(
                            write,
                            old(self).spec_capability(),
                            first_logical_block,
                            blocks@,
                            old(completions)@,
                            completions@,
                            old(self).spec_backend(),
                            self.spec_backend(),
                            states,
                            index as nat,
                            Err::<usize, StorageError>(e),
                        );
                    }
                    return Err(e);
                },
            }
            index = index + 1;
        }
        proof {
            lemma_outcome_exists(
                write,
                old(self).spec_capability(),
                first_logical_block,
                blocks@,
                old(completions)@,
                completions@,
                old(self).spec_backend(),
                self.spec_backend(),
                states,
                index as nat,
                Ok::<usize, StorageError>(blocks.len()),
            );
        }
        Ok(blocks.len())
    }
}

} // verus!
