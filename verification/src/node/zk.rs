use vstd::prelude::*;
use std::time::SystemTime;

verus! {

/// A zero-knowledge proof; it carries nothing yet.
#[derive(Debug, Default, Clone, Copy, PartialEq, Eq)]
pub struct ZkProof {}

/// A Merkle inclusion proof; it carries nothing yet.
#[derive(Debug, Default, Clone, Copy, PartialEq, Eq)]
pub struct MerkleProof {}

/// The result of a proven write.
#[derive(Debug)]
pub struct WriteResult {
    pub proof: ZkProof,
    pub timestamp: SystemTime,
}

/// What is known of a storage region; nothing yet.
#[derive(Debug, Clone, Copy, PartialEq, Eq)]
pub struct RegionInfo {}

/// A Halo2 prover; it holds nothing yet.
#[derive(Debug, Clone, Copy, PartialEq, Eq)]
pub struct Halo2Prover {}

impl Halo2Prover {
    pub fn new() -> (r: Self)
        ensures
            r == (Halo2Prover {}),
    {
        Halo2Prover {}
    }
}

/// A Poseidon hasher; it holds nothing yet.
#[derive(Debug, Clone, Copy, PartialEq, Eq)]
pub struct PoseidonHasher {}

impl PoseidonHasher {
    pub fn new() -> (r: Self)
        ensures
            r == (PoseidonHasher {}),
    {
        PoseidonHasher {}
    }
}

/// Proves writes; no proof is computed yet.
#[derive(Debug)]
pub struct ZkProver {
    pub halo2: Halo2Prover,
    pub poseidon: PoseidonHasher,
}

impl ZkProver {
    pub fn new() -> (r: Self)
        ensures
            r.halo2 == (Halo2Prover {}),
            r.poseidon == (PoseidonHasher {}),
    {
        ZkProver { halo2: Halo2Prover::new(), poseidon: PoseidonHasher::new() }
    }

    /// The proof of a write of `value` under `key`; an empty proof yet.
    pub fn generate_proof(&self, _key: &[u8], _value: &[u8], _merkle_proof: &MerkleProof) -> (r: Result<ZkProof, ()>)
        ensures
            r == Ok::<ZkProof, ()>(ZkProof {}),
    {
        Ok(ZkProof {})
    }
}

/// A Merkle tree over Poseidon; only its root is kept yet.
#[derive(Debug)]
pub struct PoseidonMerkleTree {
    root: [u8; 32],
}

impl PoseidonMerkleTree {
    /// The tree's root.
    pub closed spec fn root(&self) -> Seq<u8> {
        self.root@
    }

    /// An empty tree: its root is 32 zero bytes.
    pub fn new() -> (r: Self)
        ensures
            r.root() == Seq::new(32, |i: int| 0u8),
    {
        let r = PoseidonMerkleTree { root: [0u8; 32] };
        assert(r.root@ =~= Seq::new(32, |i: int| 0u8));
        r
    }

    /// Inserts a key; the tree is not updated yet, and an empty proof is returned.
    pub fn insert(&mut self, _key: &[u8], _value: &[u8]) -> (r: Result<MerkleProof, ()>)
        ensures
            r == Ok::<MerkleProof, ()>(MerkleProof {}),
            final(self).root() == old(self).root(),
    {
        Ok(MerkleProof {})
    }
}

} // verus!
