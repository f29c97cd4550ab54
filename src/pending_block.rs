use vstd::prelude::*;
use crate::epoch::Epoch;
use crate::note::{AssetId, NoteCommitment, Nullifier};
use crate::tree::NoteCommitmentTree;
use crate::verify::VerifiedTransaction;

verus! {

/// A new note's position in the tree and its encrypted payload.
#[derive(Debug, Clone, Copy, PartialEq, Eq, Structural)]
pub struct PositionedNoteData {
    pub position: u64,
    pub data: u64,
}

/// State changes staged for one block.
pub struct PendingBlock {
    pub height: Option<u64>,
    /// Working copy of the note commitment tree.
    pub note_commitment_tree: NoteCommitmentTree,
    /// The block's new notes, in the order they were appended.
    pub notes: Vec<(NoteCommitment, PositionedNoteData)>,
    /// Nullifiers spent in this block, in the order they were delivered.
    pub spent_nullifiers: Vec<Nullifier>,
    /// Assets first seen in this block, with their denominations.
    pub new_assets: Vec<(AssetId, String)>,
    pub epoch: Option<Epoch>,
    /// Length of an epoch in blocks.
    pub epoch_duration: u64,
}

/// The notes a transaction adds to a tree that held `base` leaves, with their positions.
pub open spec fn positioned(new_notes: Seq<(NoteCommitment, u64)>, base: int) -> Seq<
    (NoteCommitment, PositionedNoteData),
> {
    Seq::new(
        new_notes.len(),
        |k: int| (new_notes[k].0, PositionedNoteData { position: (base + k) as u64, data: new_notes[k].1 }),
    )
}

/// The commitments of a list of new notes.
pub open spec fn commitments(new_notes: Seq<(NoteCommitment, u64)>) -> Seq<NoteCommitment> {
    Seq::new(new_notes.len(), |k: int| new_notes[k].0)
}

impl PendingBlock {
    /// A block with nothing staged yet, working on `note_commitment_tree`.
    pub fn new(note_commitment_tree: NoteCommitmentTree, epoch_duration: u64) -> (r: PendingBlock)
        ensures
            r.height is None,
            r.note_commitment_tree.leaves@ == note_commitment_tree.leaves@,
            r.notes@.len() == 0,
            r.spent_nullifiers@.len() == 0,
            r.new_assets@.len() == 0,
            r.epoch is None,
            r.epoch_duration == epoch_duration,
    {
        PendingBlock {
            height: None,
            note_commitment_tree,
            notes: Vec::new(),
            spent_nullifiers: Vec::new(),
            new_assets: Vec::new(),
            epoch: None,
            epoch_duration,
        }
    }

    /// Sets the block height and the epoch it falls in.
    pub fn set_height(&mut self, height: u64) -> (r: Epoch)
        requires
            old(self).epoch_duration >= 1,
        ensures
            r.index == height / old(self).epoch_duration,
            r.duration == old(self).epoch_duration,
            final(self).height == Some(height),
            final(self).epoch == Some(r),
            final(self).note_commitment_tree == old(self).note_commitment_tree,
            final(self).notes == old(self).notes,
            final(self).spent_nullifiers == old(self).spent_nullifiers,
            final(self).new_assets == old(self).new_assets,
            final(self).epoch_duration == old(self).epoch_duration,
    {
        self.height = Some(height);
        let epoch = Epoch::from_blockheight(height, self.epoch_duration);
        self.epoch = Some(epoch);
        epoch
    }

    /// Stages a verified transaction: its new notes go onto the tree in
    /// order, and its nullifiers join the block's spent nullifiers.
    pub fn add_transaction(&mut self, transaction: VerifiedTransaction)
        ensures
            final(self).note_commitment_tree.leaves@ == old(self).note_commitment_tree.leaves@
                + commitments(transaction.new_notes@),
            final(self).notes@ == old(self).notes@ + positioned(
                transaction.new_notes@,
                old(self).note_commitment_tree.leaves@.len() as int,
            ),
            final(self).spent_nullifiers@ == old(self).spent_nullifiers@
                + transaction.spent_nullifiers@,
            final(self).height == old(self).height,
            final(self).epoch == old(self).epoch,
            final(self).new_assets == old(self).new_assets,
            final(self).epoch_duration == old(self).epoch_duration,
    {
        let ghost base = self.note_commitment_tree.leaves@.len() as int;
        let n = transaction.new_notes.len();
        let mut i: usize = 0;
        while i < n
            invariant
                n == transaction.new_notes@.len(),
                i <= n,
                base == old(self).note_commitment_tree.leaves@.len(),
                self.note_commitment_tree.leaves@ =~= old(self).note_commitment_tree.leaves@
                    + commitments(transaction.new_notes@.subrange(0, i as int)),
                self.notes@ =~= old(self).notes@ + positioned(
                    transaction.new_notes@.subrange(0, i as int),
                    base,
                ),
                self.spent_nullifiers == old(self).spent_nullifiers,
                self.height == old(self).height,
                self.epoch == old(self).epoch,
                self.new_assets == old(self).new_assets,
                self.epoch_duration == old(self).epoch_duration,
            decreases n - i,
        {
            let (cm, data) = transaction.new_notes[i];
            let position = self.note_commitment_tree.append(cm);
            self.notes.push((cm, PositionedNoteData { position, data }));
            i = i + 1;
        }
        assert(transaction.new_notes@.subrange(0, n as int) =~= transaction.new_notes@);
        let m = transaction.spent_nullifiers.len();
        let mut j: usize = 0;
        while j < m
            invariant
                m == transaction.spent_nullifiers@.len(),
                j <= m,
                self.spent_nullifiers@ =~= old(self).spent_nullifiers@
                    + transaction.spent_nullifiers@.subrange(0, j as int),
                self.note_commitment_tree.leaves@ == old(self).note_commitment_tree.leaves@
                    + commitments(transaction.new_notes@),
                self.notes@ == old(self).notes@ + positioned(transaction.new_notes@, base),
                self.height == old(self).height,
                self.epoch == old(self).epoch,
                self.new_assets == old(self).new_assets,
                self.epoch_duration == old(self).epoch_duration,
            decreases m - j,
        {
            self.spent_nullifiers.push(transaction.spent_nullifiers[j]);
            j = j + 1;
        }
    }
}

} // verus!
