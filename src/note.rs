use vstd::prelude::*;

verus! {

/// An asset identifier.
pub type AssetId = u64;

/// A nullifier: revealed exactly when the note it belongs to is spent.
pub type Nullifier = u64;

/// A hiding commitment to a note's contents.
pub type NoteCommitment = u64;

/// A root of the note commitment tree, cited by spends as their anchor.
pub type Root = u64;

/// An amount of one asset.
#[derive(Debug, Clone, Copy, PartialEq, Eq, Structural)]
pub struct Value {
    pub amount: u64,
    pub asset_id: AssetId,
}

/// A value commitment `amount * G_asset + blinding * H`, held by its coefficients.
///
/// Commitments add coefficient-wise, which is the homomorphism the balance
/// checks rely on.
#[derive(Debug, Clone, Copy, PartialEq, Eq, Structural)]
pub struct ValueCommitment {
    pub value: Value,
    pub blinding: u64,
}

impl Value {
    /// Commits to this value with the given blinding factor.
    pub fn commit(&self, blinding: u64) -> (r: ValueCommitment)
        ensures
            r.value == *self,
            r.blinding == blinding,
    {
        ValueCommitment { value: *self, blinding }
    }
}

} // verus!
