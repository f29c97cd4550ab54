use vstd::prelude::*;
use crate::digest::{sha512, sha512_of};
use vstd::utf8::encode_utf8;
use crate::le::{push_u64, u64_le};
use crate::note::{NoteCommitment, Nullifier, Root, ValueCommitment};

verus! {

broadcast use crate::le::lemma_u64_le_len;

/// The public part of a spend.
#[derive(Debug, Clone, Copy, PartialEq, Eq, Structural)]
pub struct SpendBody {
    pub nullifier: Nullifier,
    /// Randomized verification key of the spend authorization.
    pub rk: u64,
    pub value_commitment: ValueCommitment,
    /// The tree root the spend's proof refers to.
    pub anchor: Root,
    pub proof: u64,
}

/// A spend together with its authorization signature.
#[derive(Debug, Clone, Copy, PartialEq, Eq, Structural)]
pub struct Spend {
    pub body: SpendBody,
    pub auth_sig: u64,
}

/// The public part of an output.
#[derive(Debug, Clone, Copy, PartialEq, Eq, Structural)]
pub struct OutputBody {
    pub note_commitment: NoteCommitment,
    pub ephemeral_key: u64,
    pub encrypted_note: u64,
    pub value_commitment: ValueCommitment,
}

/// An output with its encrypted memo and the key wrapped to the sender's outgoing viewing key.
#[derive(Debug, Clone, Copy, PartialEq, Eq, Structural)]
pub struct Output {
    pub body: OutputBody,
    pub encrypted_memo: u64,
    pub ovk_wrapped_key: u64,
}

/// One unit of a transaction.
#[derive(Debug, Clone, Copy, PartialEq, Eq, Structural)]
pub enum Action {
    Spend(Spend),
    Output(Output),
}

/// Everything a transaction says, apart from its binding signature.
pub struct TransactionBody {
    pub actions: Vec<Action>,
    pub merkle_root: Root,
    pub expiry_height: u32,
    pub chain_id: String,
    pub fee: u64,
}

/// A transaction: its body and the binding signature over its sighash.
pub struct Transaction {
    pub transaction_body: TransactionBody,
    pub binding_sig: u64,
}

/// Canonical bytes of a value commitment.
pub open spec fn enc_commitment(c: ValueCommitment) -> Seq<u8> {
    u64_le(c.value.amount) + u64_le(c.value.asset_id) + u64_le(c.blinding)
}

/// Canonical bytes of an action: a tag, 0 for a spend and 1 for an output,
/// then its fields. A spend's authorization signature is not part of it.
pub open spec fn enc_action(a: Action) -> Seq<u8> {
    match a {
        Action::Spend(s) => seq![0u8] + u64_le(s.body.nullifier) + u64_le(s.body.rk)
            + enc_commitment(s.body.value_commitment) + u64_le(s.body.anchor) + u64_le(
            s.body.proof,
        ),
        Action::Output(o) => seq![1u8] + u64_le(o.body.note_commitment) + u64_le(
            o.body.ephemeral_key,
        ) + u64_le(o.body.encrypted_note) + enc_commitment(o.body.value_commitment) + u64_le(
            o.encrypted_memo,
        ) + u64_le(o.ovk_wrapped_key),
    }
}

/// Canonical bytes of a list of actions, one after the other.
pub open spec fn enc_actions(s: Seq<Action>) -> Seq<u8>
    decreases s.len(),
{
    if s.len() == 0 {
        Seq::empty()
    } else {
        enc_actions(s.drop_last()) + enc_action(s.last())
    }
}

/// Canonical bytes of a transaction body: the number of actions, the actions,
/// the anchor, the expiry height, the length-prefixed chain id and the fee.
pub open spec fn enc_body(b: &TransactionBody) -> Seq<u8> {
    u64_le(b.actions@.len() as u64) + enc_actions(b.actions@) + u64_le(b.merkle_root) + u64_le(
        b.expiry_height as u64,
    ) + u64_le(encode_utf8(b.chain_id@).len() as u64) + encode_utf8(b.chain_id@) + u64_le(b.fee)
}

/// The domain tag that precedes a body's bytes in its sighash.
pub const SIGHASH_DOMAIN: u64 = 0x6873_6148_6769_5350;

/// The sighash of a body: the digest of the domain tag and its canonical bytes.
pub open spec fn sighash_of(b: &TransactionBody) -> Seq<u8> {
    sha512_of(u64_le(SIGHASH_DOMAIN) + enc_body(b))
}

/// The spend authorization signature an action carries, if it is a spend.
pub open spec fn auth_sig_of(a: Action) -> Option<u64> {
    match a {
        Action::Spend(s) => Some(s.auth_sig),
        Action::Output(_) => None,
    }
}

/// The same action with its authorization signature, if any, set to `sig`.
pub open spec fn with_auth_sig(a: Action, sig: u64) -> Action {
    match a {
        Action::Spend(s) => Action::Spend(Spend { auth_sig: sig, ..s }),
        Action::Output(o) => Action::Output(o),
    }
}

fn push_commitment(out: &mut Vec<u8>, c: &ValueCommitment)
    ensures
        final(out)@ == old(out)@ + enc_commitment(*c),
{
    push_u64(out, c.value.amount);
    push_u64(out, c.value.asset_id);
    push_u64(out, c.blinding);
    assert(final(out)@ =~= old(out)@ + enc_commitment(*c));
}

/// Appends the canonical bytes of an action.
pub fn encode_action(out: &mut Vec<u8>, a: &Action)
    ensures
        final(out)@ == old(out)@ + enc_action(*a),
{
    match a {
        Action::Spend(s) => {
            out.push(0u8);
            push_u64(out, s.body.nullifier);
            push_u64(out, s.body.rk);
            push_commitment(out, &s.body.value_commitment);
            push_u64(out, s.body.anchor);
            push_u64(out, s.body.proof);
        },
        Action::Output(o) => {
            out.push(1u8);
            push_u64(out, o.body.note_commitment);
            push_u64(out, o.body.ephemeral_key);
            push_u64(out, o.body.encrypted_note);
            push_commitment(out, &o.body.value_commitment);
            push_u64(out, o.encrypted_memo);
            push_u64(out, o.ovk_wrapped_key);
        },
    }
    assert(final(out)@ =~= old(out)@ + enc_action(*a));
}

impl TransactionBody {
    /// The canonical bytes of this body, over which the sighash is taken.
    pub fn encode(&self) -> (r: Vec<u8>)
        ensures
            r@ == enc_body(self),
    {
        let mut out: Vec<u8> = Vec::new();
        push_u64(&mut out, self.actions.len() as u64);
        let n = self.actions.len();
        let mut i: usize = 0;
        while i < n
            invariant
                n == self.actions@.len(),
                i <= n,
                out@ == u64_le(n as u64) + enc_actions(self.actions@.subrange(0, i as int)),
            decreases n - i,
        {
            encode_action(&mut out, &self.actions[i]);
            assert(self.actions@.subrange(0, i + 1).drop_last() =~= self.actions@.subrange(
                0,
                i as int,
            ));
            i = i + 1;
        }
        assert(self.actions@.subrange(0, n as int) =~= self.actions@);
        push_u64(&mut out, self.merkle_root);
        push_u64(&mut out, self.expiry_height as u64);
        let cid = self.chain_id.as_str().as_bytes();
        push_u64(&mut out, cid.len() as u64);
        let mut j: usize = 0;
        while j < cid.len()
            invariant
                out@ == u64_le(n as u64) + enc_actions(self.actions@) + u64_le(self.merkle_root)
                    + u64_le(self.expiry_height as u64) + u64_le(cid@.len() as u64) + cid@.subrange(
                    0,
                    j as int,
                ),
                j <= cid@.len(),
            decreases cid@.len() - j,
        {
            out.push(cid[j]);
            assert(cid@.subrange(0, j + 1) =~= cid@.subrange(0, j as int).push(cid@[j as int]));
            j = j + 1;
        }
        push_u64(&mut out, self.fee);
        out
    }

    /// The sighash of this body, under the domain tag, with every spend
    /// authorization signature left out.
    pub fn sighash(&self) -> (r: Vec<u8>)
        ensures
            r@ == sighash_of(self),
            r@.len() == 64,
    {
        let mut bytes: Vec<u8> = Vec::new();
        push_u64(&mut bytes, SIGHASH_DOMAIN);
        let mut body = self.encode();
        bytes.append(&mut body);
        sha512(bytes.as_slice())
    }
}

proof fn lemma_enc_actions_ignore_auth_sigs(s: Seq<Action>, t: Seq<Action>)
    requires
        s.len() == t.len(),
        forall|k: int| 0 <= k < s.len() ==> with_auth_sig(#[trigger] s[k], 0) == with_auth_sig(t[k], 0),
    ensures
        enc_actions(s) == enc_actions(t),
    decreases s.len(),
{
    if s.len() > 0 {
        lemma_enc_actions_ignore_auth_sigs(s.drop_last(), t.drop_last());
        assert(with_auth_sig(s[s.len() - 1], 0) == with_auth_sig(t[t.len() - 1], 0));
    }
}

/// The sighash does not cover authorization signatures: two bodies that
/// differ only in them have the same sighash.
pub proof fn lemma_sighash_ignores_auth_sigs(b1: &TransactionBody, b2: &TransactionBody)
    requires
        b1.actions@.len() == b2.actions@.len(),
        forall|k: int|
            0 <= k < b1.actions@.len() ==> with_auth_sig(#[trigger] b1.actions@[k], 0)
                == with_auth_sig(b2.actions@[k], 0),
        b1.merkle_root == b2.merkle_root,
        b1.expiry_height == b2.expiry_height,
        b1.chain_id@ == b2.chain_id@,
        b1.fee == b2.fee,
    ensures
        sighash_of(b1) == sighash_of(b2),
{
    lemma_enc_actions_ignore_auth_sigs(b1.actions@, b2.actions@);
}

} // verus!
