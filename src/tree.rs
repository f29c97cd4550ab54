use vstd::prelude::*;
use crate::digest::{sha256, sha256_of};
use crate::note::{NoteCommitment, Root};
use crate::le::{push_u64, u64_le};

verus! {

broadcast use crate::le::lemma_u64_le_len;

/// The append-only tree of note commitments, held as its leaves in order.
pub struct NoteCommitmentTree {
    pub leaves: Vec<NoteCommitment>,
}

/// Canonical bytes of a list of leaves.
pub open spec fn enc_leaves(s: Seq<NoteCommitment>) -> Seq<u8>
    decreases s.len(),
{
    if s.len() == 0 {
        Seq::empty()
    } else {
        enc_leaves(s.drop_last()) + u64_le(s.last())
    }
}

/// The number whose little-endian bytes are the first eight of `b`.
pub open spec fn le_u64(b: Seq<u8>) -> int {
    b[0] + 0x100 * b[1] + 0x1_0000 * b[2] + 0x100_0000 * b[3] + 0x1_0000_0000 * b[4]
        + 0x100_0000_0000 * b[5] + 0x1_0000_0000_0000 * b[6] + 0x100_0000_0000_0000 * b[7]
}

/// The root of a tree with the given leaves: the first eight bytes of the
/// digest of the leaves, read little-endian.
pub open spec fn tree_root(leaves: Seq<NoteCommitment>) -> int {
    le_u64(sha256_of(enc_leaves(leaves)))
}

impl NoteCommitmentTree {
    /// An empty tree.
    pub fn new() -> (r: NoteCommitmentTree)
        ensures
            r.leaves@.len() == 0,
    {
        NoteCommitmentTree { leaves: Vec::new() }
    }

    /// A copy of this tree.
    pub fn copy(&self) -> (r: NoteCommitmentTree)
        ensures
            r.leaves@ == self.leaves@,
    {
        let mut leaves: Vec<NoteCommitment> = Vec::new();
        let n = self.leaves.len();
        let mut i: usize = 0;
        while i < n
            invariant
                n == self.leaves@.len(),
                i <= n,
                leaves@ =~= self.leaves@.subrange(0, i as int),
            decreases n - i,
        {
            leaves.push(self.leaves[i]);
            i = i + 1;
        }
        NoteCommitmentTree { leaves }
    }

    /// Appends a commitment and returns the position it took.
    pub fn append(&mut self, cm: NoteCommitment) -> (r: u64)
        ensures
            final(self).leaves@ == old(self).leaves@.push(cm),
            r as int == old(self).leaves@.len(),
    {
        let p = self.leaves.len() as u64;
        self.leaves.push(cm);
        p
    }

    /// The current root.
    pub fn root(&self) -> (r: Root)
        ensures
            r as int == tree_root(self.leaves@),
    {
        let mut bytes: Vec<u8> = Vec::new();
        let n = self.leaves.len();
        let mut i: usize = 0;
        while i < n
            invariant
                n == self.leaves@.len(),
                i <= n,
                bytes@ == enc_leaves(self.leaves@.subrange(0, i as int)),
            decreases n - i,
        {
            push_u64(&mut bytes, self.leaves[i]);
            assert(self.leaves@.subrange(0, i + 1).drop_last() =~= self.leaves@.subrange(0, i as int));
            i = i + 1;
        }
        assert(self.leaves@.subrange(0, n as int) =~= self.leaves@);
        let d = sha256(bytes.as_slice());
        (d[0] as u64) + 0x100 * (d[1] as u64) + 0x1_0000 * (d[2] as u64) + 0x100_0000 * (d[3] as u64)
            + 0x1_0000_0000 * (d[4] as u64) + 0x100_0000_0000 * (d[5] as u64) + 0x1_0000_0000_0000 * (
        d[6] as u64) + 0x100_0000_0000_0000 * (d[7] as u64)
    }
}

} // verus!
