//! Plain value types shared by the whole prover: identifiers of compute units and
//! cores, epoch parameters, nonces, hashes and proofs.

use std::collections::HashMap;
use vstd::prelude::*;

verus! {

/// Identifier of a physical CPU core.
pub type PhysicalCoreId = u32;

/// Identifier of a logical CPU core (a hardware thread).
pub type LogicalCoreId = u32;

/// Compares two 32-byte arrays element by element.
pub fn bytes32_eq(a: &[u8; 32], b: &[u8; 32]) -> (r: bool)
    ensures
        r == (*a == *b),
{
    let mut i: usize = 0;
    while i < 32
        invariant
            0 <= i <= 32,
            forall|j: int| 0 <= j < i ==> a@[j] == b@[j],
        decreases 32 - i,
    {
        if a[i] != b[i] {
            return false;
        }
        i = i + 1;
    }
    proof {
        assert(*a =~= *b);
    }
    true
}

/// Compute unit identifier: 32 opaque bytes assigned by the network.
#[derive(Clone, Copy, Debug, Hash)]
pub struct CUID(pub [u8; 32]);

/// Global nonce of an epoch, chosen by the network.
#[derive(Clone, Copy, Debug, Hash)]
pub struct GlobalNonce(pub [u8; 32]);

/// The difficulty of an epoch: a result hash below it is a proof.
#[derive(Clone, Copy, Debug, Hash)]
pub struct Difficulty(pub [u8; 32]);

/// A nonce chosen by a proving thread; its first eight bytes are a little-endian counter.
#[derive(Clone, Copy, Debug, Hash)]
pub struct LocalNonce(pub [u8; 32]);

/// The output of a RandomX hash computation.
#[derive(Clone, Copy, Debug, Hash)]
pub struct ResultHash(pub [u8; 32]);

impl CUID {
    pub fn new(bytes: [u8; 32]) -> (r: Self)
        ensures
            r.0 == bytes,
    {
        CUID(bytes)
    }
}

impl GlobalNonce {
    pub fn new(bytes: [u8; 32]) -> (r: Self)
        ensures
            r.0 == bytes,
    {
        GlobalNonce(bytes)
    }
}

impl Difficulty {
    pub fn new(bytes: [u8; 32]) -> (r: Self)
        ensures
            r.0 == bytes,
    {
        Difficulty(bytes)
    }
}

impl LocalNonce {
    pub fn new(bytes: [u8; 32]) -> (r: Self)
        ensures
            r.0 == bytes,
    {
        LocalNonce(bytes)
    }
}

impl ResultHash {
    pub fn new(bytes: [u8; 32]) -> (r: Self)
        ensures
            r.0 == bytes,
    {
        ResultHash(bytes)
    }
}

impl PartialEq for CUID {
    fn eq(&self, other: &Self) -> (r: bool) {
        bytes32_eq(&self.0, &other.0)
    }
}

impl vstd::std_specs::cmp::PartialEqSpecImpl for CUID {
    open spec fn obeys_eq_spec() -> bool {
        true
    }

    open spec fn eq_spec(&self, other: &Self) -> bool {
        *self == *other
    }
}

impl Eq for CUID {}

impl PartialEq for GlobalNonce {
    fn eq(&self, other: &Self) -> (r: bool) {
        bytes32_eq(&self.0, &other.0)
    }
}

impl vstd::std_specs::cmp::PartialEqSpecImpl for GlobalNonce {
    open spec fn obeys_eq_spec() -> bool {
        true
    }

    open spec fn eq_spec(&self, other: &Self) -> bool {
        *self == *other
    }
}

impl Eq for GlobalNonce {}

impl PartialEq for Difficulty {
    fn eq(&self, other: &Self) -> (r: bool) {
        bytes32_eq(&self.0, &other.0)
    }
}

impl vstd::std_specs::cmp::PartialEqSpecImpl for Difficulty {
    open spec fn obeys_eq_spec() -> bool {
        true
    }

    open spec fn eq_spec(&self, other: &Self) -> bool {
        *self == *other
    }
}

impl Eq for Difficulty {}

impl PartialEq for LocalNonce {
    fn eq(&self, other: &Self) -> (r: bool) {
        bytes32_eq(&self.0, &other.0)
    }
}

impl vstd::std_specs::cmp::PartialEqSpecImpl for LocalNonce {
    open spec fn obeys_eq_spec() -> bool {
        true
    }

    open spec fn eq_spec(&self, other: &Self) -> bool {
        *self == *other
    }
}

impl Eq for LocalNonce {}

impl PartialEq for ResultHash {
    fn eq(&self, other: &Self) -> (r: bool) {
        bytes32_eq(&self.0, &other.0)
    }
}

impl vstd::std_specs::cmp::PartialEqSpecImpl for ResultHash {
    open spec fn obeys_eq_spec() -> bool {
        true
    }

    open spec fn eq_spec(&self, other: &Self) -> bool {
        *self == *other
    }
}

impl Eq for ResultHash {}

/// Parameters of an epoch: a proof is valid only for the epoch it was found in.
#[derive(Clone, Copy, Debug, Hash)]
pub struct EpochParameters {
    pub global_nonce: GlobalNonce,
    pub difficulty: Difficulty,
}

impl EpochParameters {
    pub fn new(global_nonce: GlobalNonce, difficulty: Difficulty) -> (r: Self)
        ensures
            r.global_nonce == global_nonce,
            r.difficulty == difficulty,
    {
        EpochParameters { global_nonce, difficulty }
    }
}

impl PartialEq for EpochParameters {
    fn eq(&self, other: &Self) -> (r: bool) {
        self.global_nonce == other.global_nonce && self.difficulty == other.difficulty
    }
}

impl vstd::std_specs::cmp::PartialEqSpecImpl for EpochParameters {
    open spec fn obeys_eq_spec() -> bool {
        true
    }

    open spec fn eq_spec(&self, other: &Self) -> bool {
        *self == *other
    }
}

impl Eq for EpochParameters {}

/// Which compute unit each physical core has to prove.
pub type CUAllocation = HashMap<PhysicalCoreId, CUID>;

/// Index of a proof within an epoch; proofs are stored in files named after it.
#[derive(Clone, Copy, Debug, Hash, PartialEq, Eq, Structural)]
pub struct ProofIdx(pub u64);

impl ProofIdx {
    pub fn zero() -> (r: Self)
        ensures
            r.0 == 0,
    {
        ProofIdx(0)
    }

    /// Moves to the next index.
    pub fn increment(&mut self)
        requires
            old(self).0 < u64::MAX,
        ensures
            final(self).0 == old(self).0 + 1,
    {
        self.0 = self.0 + 1;
    }

    /// Whether this index comes strictly before `other`.
    pub fn is_before(&self, other: &ProofIdx) -> (r: bool)
        ensures
            r == (self.0 < other.0),
    {
        self.0 < other.0
    }
}

/// Identifies a proof: the epoch it belongs to and its index within the epoch.
#[derive(Clone, Copy, Debug)]
pub struct CCProofId {
    pub global_nonce: GlobalNonce,
    pub difficulty: Difficulty,
    pub idx: ProofIdx,
}

impl CCProofId {
    pub fn new(global_nonce: GlobalNonce, difficulty: Difficulty, idx: ProofIdx) -> (r: Self)
        ensures
            r.global_nonce == global_nonce,
            r.difficulty == difficulty,
            r.idx == idx,
    {
        CCProofId { global_nonce, difficulty, idx }
    }
}

/// A proof of capacity as it is stored and handed to the network.
#[derive(Clone, Copy, Debug)]
pub struct CCProof {
    pub id: CCProofId,
    pub local_nonce: LocalNonce,
    pub cu_id: CUID,
    pub result_hash: ResultHash,
}

impl CCProof {
    pub fn new(id: CCProofId, local_nonce: LocalNonce, cu_id: CUID, result_hash: ResultHash) -> (r:
        Self)
        ensures
            r.id == id,
            r.local_nonce == local_nonce,
            r.cu_id == cu_id,
            r.result_hash == result_hash,
    {
        CCProof { id, local_nonce, cu_id, result_hash }
    }
}

/// A proof as a proving thread finds it, before it is given an index.
#[derive(Clone, Copy, Debug)]
pub struct RawProof {
    pub epoch: EpochParameters,
    pub local_nonce: LocalNonce,
    pub cu_id: CUID,
    pub result_hash: ResultHash,
}

impl RawProof {
    pub fn new(
        epoch: EpochParameters,
        local_nonce: LocalNonce,
        cu_id: CUID,
        result_hash: ResultHash,
    ) -> (r: Self)
        ensures
            r.epoch == epoch,
            r.local_nonce == local_nonce,
            r.cu_id == cu_id,
            r.result_hash == result_hash,
    {
        RawProof { epoch, local_nonce, cu_id, result_hash }
    }
}

/// Byte-wise lexicographic order on 32-byte strings: `a` comes strictly before `b`.
pub open spec fn bytes_less(a: Seq<u8>, b: Seq<u8>) -> bool {
    exists|k: int|
        0 <= k < a.len() && k < b.len() && a[k] < b[k] && (forall|j: int|
            0 <= j < k ==> a[j] == b[j])
}

/// A result hash meets the difficulty when it is lexicographically smaller than it.
pub fn meet_difficulty(hash: &ResultHash, difficulty: &Difficulty) -> (r: bool)
    ensures
        r == bytes_less(hash.0@, difficulty.0@),
{
    let mut i: usize = 0;
    while i < 32
        invariant
            0 <= i <= 32,
            forall|j: int| 0 <= j < i ==> hash.0@[j] == difficulty.0@[j],
        decreases 32 - i,
    {
        if hash.0[i] < difficulty.0[i] {
            assert(bytes_less(hash.0@, difficulty.0@)) by {
                assert(forall|j: int| 0 <= j < i ==> hash.0@[j] == difficulty.0@[j]);
            }
            return true;
        }
        if hash.0[i] > difficulty.0[i] {
            assert(!bytes_less(hash.0@, difficulty.0@)) by {
                if bytes_less(hash.0@, difficulty.0@) {
                    let k = choose|k: int|
                        0 <= k < hash.0@.len() && k < difficulty.0@.len() && hash.0@[k]
                            < difficulty.0@[k] && (forall|j: int|
                            0 <= j < k ==> hash.0@[j] == difficulty.0@[j]);
                    if k < i {
                    } else if k > i {
                        assert(hash.0@[i as int] == difficulty.0@[i as int]);
                    }
                }
            }
            return false;
        }
        i = i + 1;
    }
    assert(!bytes_less(hash.0@, difficulty.0@));
    false
}

} // verus!
