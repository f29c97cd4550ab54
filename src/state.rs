use vstd::prelude::*;
use crate::note::{AssetId, NoteCommitment, Nullifier, Root};
use crate::pending_block::{PendingBlock, PositionedNoteData};
use crate::tree::{tree_root, NoteCommitmentTree};
use crate::validator::Validator;

verus! {

/// A committed block: its height and the application hash after it.
#[derive(Debug, Clone, Copy, PartialEq, Eq, Structural)]
pub struct BlockRow {
    pub height: u64,
    pub app_hash: Root,
}

/// The committed chain state.
pub struct State {
    /// Every revealed nullifier with the height of the block that revealed it.
    pub nullifiers: Vec<(Nullifier, u64)>,
    /// Committed blocks, oldest first.
    pub blocks: Vec<BlockRow>,
    pub note_commitment_tree: NoteCommitmentTree,
    /// Every committed note with its position and payload.
    pub notes: Vec<(NoteCommitment, PositionedNoteData)>,
    pub assets: Vec<(AssetId, String)>,
    /// Length of an epoch in blocks, from the genesis configuration.
    pub epoch_duration: u64,
    /// The asset fees are paid in.
    pub fee_asset: AssetId,
    /// The chain id from genesis.
    pub chain_id: String,
    /// The initial validator set from genesis.
    pub validators: Vec<Validator>,
}

/// `nf` was revealed in a committed block.
pub open spec fn has_nullifier(s: Seq<(Nullifier, u64)>, nf: Nullifier) -> bool {
    exists|k: int| 0 <= k < s.len() && #[trigger] s[k].0 == nf
}

/// The spent nullifiers of a block, each with its height.
pub open spec fn with_height(nfs: Seq<Nullifier>, h: u64) -> Seq<(Nullifier, u64)> {
    Seq::new(nfs.len(), |k: int| (nfs[k], h))
}

/// The last `n` block hashes, newest first.
pub open spec fn newest_hashes(blocks: Seq<BlockRow>, n: nat) -> Seq<Root> {
    let m: nat = if blocks.len() < n {
        blocks.len()
    } else {
        n
    };
    Seq::new(m, |k: int| blocks[blocks.len() - 1 - k].app_hash)
}

impl State {
    /// An empty store whose epochs last `epoch_duration` blocks and whose
    /// fees are paid in `fee_asset`.
    pub fn new(epoch_duration: u64, fee_asset: AssetId) -> (r: State)
        ensures
            r.nullifiers@.len() == 0,
            r.blocks@.len() == 0,
            r.note_commitment_tree.leaves@.len() == 0,
            r.notes@.len() == 0,
            r.assets@.len() == 0,
            r.epoch_duration == epoch_duration,
            r.fee_asset == fee_asset,
            r.validators@.len() == 0,
    {
        State {
            nullifiers: Vec::new(),
            blocks: Vec::new(),
            note_commitment_tree: NoteCommitmentTree::new(),
            notes: Vec::new(),
            assets: Vec::new(),
            epoch_duration,
            fee_asset,
            chain_id: String::new(),
            validators: Vec::new(),
        }
    }

    /// The height of the block that revealed `nf`, if one did.
    pub fn nullifier(&self, nf: Nullifier) -> (r: Option<u64>)
        ensures
            r is Some <==> has_nullifier(self.nullifiers@, nf),
            r is Some ==> self.nullifiers@.contains((nf, r->0)),
    {
        let n = self.nullifiers.len();
        let mut i: usize = 0;
        while i < n
            invariant
                n == self.nullifiers@.len(),
                i <= n,
                forall|k: int| 0 <= k < i ==> #[trigger] self.nullifiers@[k].0 != nf,
            decreases n - i,
        {
            if self.nullifiers[i].0 == nf {
                assert(self.nullifiers@[i as int] == (nf, self.nullifiers@[i as int].1));
                return Some(self.nullifiers[i].1);
            }
            i = i + 1;
        }
        None
    }

    /// The newest committed block, if any.
    pub fn latest_block_info(&self) -> (r: Option<BlockRow>)
        ensures
            self.blocks@.len() == 0 ==> r is None,
            self.blocks@.len() > 0 ==> r == Some(self.blocks@.last()),
    {
        let n = self.blocks.len();
        if n == 0 {
            None
        } else {
            Some(self.blocks[n - 1])
        }
    }

    /// The application hash after the newest block, or zero before the first.
    pub fn app_hash(&self) -> (r: Root)
        ensures
            self.blocks@.len() == 0 ==> r == 0,
            self.blocks@.len() > 0 ==> r == self.blocks@.last().app_hash,
    {
        match self.latest_block_info() {
            Some(b) => b.app_hash,
            None => 0,
        }
    }

    /// The hashes of the last `n` blocks, newest first.
    pub fn recent_anchors(&self, n: usize) -> (r: Vec<Root>)
        ensures
            r@ == newest_hashes(self.blocks@, n as nat),
    {
        let len = self.blocks.len();
        let m = if len < n {
            len
        } else {
            n
        };
        let mut out: Vec<Root> = Vec::new();
        let mut i: usize = 0;
        while i < m
            invariant
                len == self.blocks@.len(),
                m <= len,
                m == (if len < n { len } else { n }),
                i <= m,
                out@ =~= Seq::new(i as nat, |k: int| self.blocks@[len - 1 - k].app_hash),
            decreases m - i,
        {
            out.push(self.blocks[len - 1 - i].app_hash);
            i = i + 1;
        }
        out
    }

    /// A copy of the committed note commitment tree.
    pub fn note_commitment_tree(&self) -> (r: NoteCommitmentTree)
        ensures
            r.leaves@ == self.note_commitment_tree.leaves@,
    {
        self.note_commitment_tree.copy()
    }

    /// Records a block: its nullifiers, notes, assets and tree, and a block
    /// row whose application hash is the new tree root.
    pub fn commit_block(&mut self, pending: PendingBlock)
        requires
            pending.height is Some,
        ensures
            final(self).nullifiers@ == old(self).nullifiers@ + with_height(
                pending.spent_nullifiers@,
                pending.height->0,
            ),
            final(self).notes@ == old(self).notes@ + pending.notes@,
            final(self).assets@ == old(self).assets@ + pending.new_assets@,
            final(self).note_commitment_tree.leaves@ == pending.note_commitment_tree.leaves@,
            final(self).blocks@ == old(self).blocks@.push(
                BlockRow {
                    height: pending.height->0,
                    app_hash: tree_root(pending.note_commitment_tree.leaves@) as u64,
                },
            ),
            final(self).epoch_duration == old(self).epoch_duration,
            final(self).fee_asset == old(self).fee_asset,
            final(self).chain_id == old(self).chain_id,
            final(self).validators == old(self).validators,
    {
        let PendingBlock { height, note_commitment_tree, mut notes, spent_nullifiers, mut new_assets, .. } =
            pending;
        let h = match height {
            Some(h) => h,
            None => 0,
        };
        let ghost old_nfs = self.nullifiers@;
        let n = spent_nullifiers.len();
        let mut i: usize = 0;
        while i < n
            invariant
                n == spent_nullifiers@.len(),
                i <= n,
                self.nullifiers@ =~= old_nfs + with_height(spent_nullifiers@.subrange(0, i as int), h),
                self.notes == old(self).notes,
                self.assets == old(self).assets,
                self.blocks == old(self).blocks,
                self.epoch_duration == old(self).epoch_duration,
                self.fee_asset == old(self).fee_asset,
                self.chain_id == old(self).chain_id,
                self.validators == old(self).validators,
            decreases n - i,
        {
            self.nullifiers.push((spent_nullifiers[i], h));
            i = i + 1;
        }
        assert(spent_nullifiers@.subrange(0, n as int) =~= spent_nullifiers@);
        self.notes.append(&mut notes);
        self.assets.append(&mut new_assets);
        let app_hash = note_commitment_tree.root();
        self.note_commitment_tree = note_commitment_tree;
        self.blocks.push(BlockRow { height: h, app_hash });
    }
}

} // verus!
