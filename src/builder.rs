use vstd::prelude::*;
use vstd::arithmetic::div_mod::{lemma_add_mod_noop_right, lemma_sub_mod_noop};
use crate::note::{AssetId, NoteCommitment, Nullifier, Root, Value, ValueCommitment};
use crate::sum::{
    lemma_sum_zero,
    lemma_shuffle_steps_len, lemma_shuffle_steps_sum, lemma_sum_concat, lemma_sum_map, shuffle,
    shuffled, sum_of,
};
use crate::transaction::{sighash_of, with_auth_sig, Action, Transaction, Output, OutputBody, Spend, SpendBody, TransactionBody};

verus! {

/// The order of the scalar ring in which blinding factors are added.
pub const SCALAR_MODULUS: u128 = 0x1_0000_0000_0000_0000;

/// Why a transaction could not be built.
#[derive(Debug, Clone, Copy, PartialEq, Eq, Structural)]
pub enum Error {
    NoChainID,
    FeeNotSet,
    NonZeroValueBalance,
}

/// A shielded note: a value, its destination address and its secret randomness.
#[derive(Debug, Clone, Copy, PartialEq, Eq, Structural)]
pub struct Note {
    pub value: Value,
    pub dest: u64,
    pub rseed: u64,
}

impl Note {
    /// A fresh note of `value` for `dest`, with the randomness `rseed`.
    pub fn generate(dest: u64, value: Value, rseed: u64) -> (r: Note)
        ensures
            r == (Note { value, dest, rseed }),
    {
        Note { value, dest, rseed }
    }
}

/// What a spend takes from the spending key, the note and the proof system.
#[derive(Debug, Clone, Copy, PartialEq, Eq, Structural)]
pub struct SpendInputs {
    pub note: Note,
    pub nullifier: Nullifier,
    /// The randomized spend authorization signing key.
    pub rsk: u64,
    /// Its verification key.
    pub rk: u64,
    pub proof: u64,
}

/// What an output takes from key agreement and encryption.
#[derive(Debug, Clone, Copy, PartialEq, Eq, Structural)]
pub struct OutputInputs {
    pub note_commitment: NoteCommitment,
    pub ephemeral_key: u64,
    pub encrypted_note: u64,
    pub encrypted_memo: u64,
    pub ovk_wrapped_key: u64,
}

/// Assembles a transaction from spends and outputs.
pub struct Builder {
    /// Each spend with the key that will sign for it.
    pub spends: Vec<(u64, SpendBody)>,
    pub outputs: Vec<Output>,
    /// Transaction fee. None if unset.
    pub fee: Option<u64>,
    /// The asset fees are paid in.
    pub fee_asset: AssetId,
    /// Sum of the blinding factors of the value commitments, spends counted
    /// positive and outputs negative.
    pub synthetic_blinding_factor: u64,
    /// The root of the note commitment tree that spends cite.
    pub merkle_root: Root,
    pub expiry_height: Option<u32>,
    pub chain_id: Option<String>,
}

/// A finalized transaction body, with the keys its signatures are still to come from.
pub struct UnsignedTransaction {
    pub transaction_body: TransactionBody,
    /// The spends in the order of the body's first actions, with their signing keys.
    pub spends: Vec<(u64, SpendBody)>,
    pub sighash: Vec<u8>,
    pub synthetic_blinding_factor: u64,
    pub fee_asset: AssetId,
}

/// How much of `asset` an action adds: a spend's amount counts positive, an output's negative.
pub open spec fn action_value(asset: AssetId) -> spec_fn(Action) -> int {
    |a: Action|
        match a {
            Action::Spend(s) => if s.body.value_commitment.value.asset_id == asset {
                s.body.value_commitment.value.amount as int
            } else {
                0
            },
            Action::Output(o) => if o.body.value_commitment.value.asset_id == asset {
                -(o.body.value_commitment.value.amount as int)
            } else {
                0
            },
        }
}

/// An action's blinding factor, spends positive and outputs negative.
pub open spec fn action_blinding() -> spec_fn(Action) -> int {
    |a: Action|
        match a {
            Action::Spend(s) => s.body.value_commitment.blinding as int,
            Action::Output(o) => -(o.body.value_commitment.blinding as int),
        }
}

/// The action a planned spend becomes, before it is signed.
pub open spec fn spend_action(p: (u64, SpendBody)) -> Action {
    Action::Spend(Spend { body: p.1, auth_sig: 0 })
}

/// The actions of a transaction: its spends, then its outputs.
pub open spec fn actions_of(sp: Seq<(u64, SpendBody)>, outs: Seq<Output>) -> Seq<Action> {
    Seq::new(sp.len(), |k: int| spend_action(sp[k])) + Seq::new(
        outs.len(),
        |k: int| Action::Output(outs[k]),
    )
}

pub open spec fn spend_value(asset: AssetId) -> spec_fn((u64, SpendBody)) -> int {
    |p: (u64, SpendBody)| action_value(asset)(spend_action(p))
}

pub open spec fn output_value(asset: AssetId) -> spec_fn(Output) -> int {
    |o: Output| action_value(asset)(Action::Output(o))
}

pub open spec fn spend_blinding() -> spec_fn((u64, SpendBody)) -> int {
    |p: (u64, SpendBody)| action_blinding()(spend_action(p))
}

pub open spec fn output_blinding() -> spec_fn(Output) -> int {
    |o: Output| action_blinding()(Action::Output(o))
}

/// The part of a fee of `fee` in `fee_asset` that is in `asset`.
pub open spec fn fee_part(fee: u64, fee_asset: AssetId, asset: AssetId) -> int {
    if asset == fee_asset {
        fee as int
    } else {
        0
    }
}

/// Net value of `asset` in a list of actions, after a fee.
pub open spec fn actions_net(actions: Seq<Action>, fee: u64, fee_asset: AssetId, asset: AssetId) -> int {
    sum_of(actions, action_value(asset)) - fee_part(fee, fee_asset, asset)
}

impl Builder {
    /// Net value of `asset`: spent, less output, less the fee if it is set.
    pub open spec fn net(&self, asset: AssetId) -> int {
        sum_of(self.spends@, spend_value(asset)) + sum_of(self.outputs@, output_value(asset))
            - match self.fee {
            Some(f) => fee_part(f, self.fee_asset, asset),
            None => 0,
        }
    }

    /// Every asset nets to zero.
    pub open spec fn balanced(&self) -> bool {
        forall|a: AssetId| #[trigger] self.net(a) == 0
    }

    pub open spec fn blinding_total(&self) -> int {
        sum_of(self.spends@, spend_blinding()) + sum_of(self.outputs@, output_blinding())
    }

    /// The synthetic blinding factor is the sum of the blinding factors.
    pub open spec fn wf(&self) -> bool {
        self.synthetic_blinding_factor as int == self.blinding_total() % (SCALAR_MODULUS as int)
    }

    /// What a successful `finalize` with the draws `sd` and `od` hands back.
    pub open spec fn built(&self, sd: Seq<u64>, od: Seq<u64>, u: &UnsignedTransaction) -> bool {
        &&& u.spends@ == shuffled(self.spends@, sd)
        &&& u.transaction_body.actions@ == actions_of(u.spends@, shuffled(self.outputs@, od))
        &&& u.transaction_body.merkle_root == self.merkle_root
        &&& u.transaction_body.expiry_height == match self.expiry_height {
            Some(h) => h,
            None => 0,
        }
        &&& self.chain_id is Some && u.transaction_body.chain_id@ == self.chain_id->0@
        &&& self.fee is Some && u.transaction_body.fee == self.fee->0
        &&& u.sighash@ == sighash_of(&u.transaction_body)
        &&& u.synthetic_blinding_factor == self.synthetic_blinding_factor
        &&& u.fee_asset == self.fee_asset
    }

    /// An empty builder whose spends cite `merkle_root` and whose fee is paid in `fee_asset`.
    pub fn new(merkle_root: Root, fee_asset: AssetId) -> (r: Builder)
        ensures
            r.wf(),
            r.spends@.len() == 0,
            r.outputs@.len() == 0,
            r.fee is None,
            r.fee_asset == fee_asset,
            r.merkle_root == merkle_root,
            r.expiry_height is None,
            r.chain_id is None,
            r.synthetic_blinding_factor == 0,
    {
        Builder {
            spends: Vec::new(),
            outputs: Vec::new(),
            fee: None,
            fee_asset,
            synthetic_blinding_factor: 0,
            merkle_root,
            expiry_height: None,
            chain_id: None,
        }
    }

    /// Adds a spend of `inputs.note`, committing to its value with the blinding factor `v_blinding`.
    pub fn add_spend(self, v_blinding: u64, inputs: SpendInputs) -> (r: Builder)
        requires
            self.wf(),
        ensures
            r.wf(),
            r.spends@ == self.spends@.push(
                (
                    inputs.rsk,
                    SpendBody {
                        nullifier: inputs.nullifier,
                        rk: inputs.rk,
                        value_commitment: ValueCommitment {
                            value: inputs.note.value,
                            blinding: v_blinding,
                        },
                        anchor: self.merkle_root,
                        proof: inputs.proof,
                    },
                ),
            ),
            r.outputs@ == self.outputs@,
            r.fee == self.fee,
            r.fee_asset == self.fee_asset,
            r.merkle_root == self.merkle_root,
            r.expiry_height == self.expiry_height,
            r.chain_id == self.chain_id,
            r.synthetic_blinding_factor as int == (self.synthetic_blinding_factor as int
                + v_blinding as int) % (SCALAR_MODULUS as int),
    {
        let mut b = self;
        let value_commitment = inputs.note.value.commit(v_blinding);
        let body = SpendBody {
            nullifier: inputs.nullifier,
            rk: inputs.rk,
            value_commitment,
            anchor: b.merkle_root,
            proof: inputs.proof,
        };
        let ghost old_spends = b.spends@;
        b.synthetic_blinding_factor = ((b.synthetic_blinding_factor as u128 + v_blinding as u128)
            % SCALAR_MODULUS) as u64;
        b.spends.push((inputs.rsk, body));
        proof {
            assert(b.spends@.drop_last() =~= old_spends);
            let m = SCALAR_MODULUS as int;
            let t = self.blinding_total();
            lemma_add_mod_noop_right(v_blinding as int, t, m);
            assert(b.blinding_total() == t + v_blinding as int);
        }
        b
    }

    /// Adds an output of `note`, committing to its value with the blinding
    /// factor `v_blinding`, and hands the note back.
    pub fn add_output_producing_note(self, note: Note, v_blinding: u64, inputs: OutputInputs) -> (r: (
        Note,
        Builder,
    ))
        requires
            self.wf(),
        ensures
            r.0 == note,
            r.1.wf(),
            r.1.outputs@ == self.outputs@.push(
                Output {
                    body: OutputBody {
                        note_commitment: inputs.note_commitment,
                        ephemeral_key: inputs.ephemeral_key,
                        encrypted_note: inputs.encrypted_note,
                        value_commitment: ValueCommitment { value: note.value, blinding: v_blinding },
                    },
                    encrypted_memo: inputs.encrypted_memo,
                    ovk_wrapped_key: inputs.ovk_wrapped_key,
                },
            ),
            r.1.spends@ == self.spends@,
            r.1.fee == self.fee,
            r.1.fee_asset == self.fee_asset,
            r.1.merkle_root == self.merkle_root,
            r.1.expiry_height == self.expiry_height,
            r.1.chain_id == self.chain_id,
            r.1.synthetic_blinding_factor as int == (self.synthetic_blinding_factor as int
                - v_blinding as int) % (SCALAR_MODULUS as int),
    {
        let mut b = self;
        let value_commitment = note.value.commit(v_blinding);
        let output = Output {
            body: OutputBody {
                note_commitment: inputs.note_commitment,
                ephemeral_key: inputs.ephemeral_key,
                encrypted_note: inputs.encrypted_note,
                value_commitment,
            },
            encrypted_memo: inputs.encrypted_memo,
            ovk_wrapped_key: inputs.ovk_wrapped_key,
        };
        let ghost old_outputs = b.outputs@;
        b.synthetic_blinding_factor = ((b.synthetic_blinding_factor as u128 + SCALAR_MODULUS
            - v_blinding as u128) % SCALAR_MODULUS) as u64;
        b.outputs.push(output);
        proof {
            assert(b.outputs@.drop_last() =~= old_outputs);
            let m = SCALAR_MODULUS as int;
            let t = self.blinding_total();
            let s = self.synthetic_blinding_factor as int;
            lemma_sub_mod_noop(t, v_blinding as int, m);
            lemma_sub_mod_noop(s, v_blinding as int, m);
            assert(b.blinding_total() == t - v_blinding as int);
            assert((s + m - v_blinding) % m == (s - v_blinding) % m) by {
                vstd::arithmetic::div_mod::lemma_mod_add_multiples_vanish(s - v_blinding, m);
            }
        }
        (note, b)
    }

    /// Adds an output of `note`, committing to its value with the blinding factor `v_blinding`.
    pub fn add_output(self, note: Note, v_blinding: u64, inputs: OutputInputs) -> (r: Builder)
        requires
            self.wf(),
        ensures
            r.wf(),
            r.outputs@ == self.outputs@.push(
                Output {
                    body: OutputBody {
                        note_commitment: inputs.note_commitment,
                        ephemeral_key: inputs.ephemeral_key,
                        encrypted_note: inputs.encrypted_note,
                        value_commitment: ValueCommitment { value: note.value, blinding: v_blinding },
                    },
                    encrypted_memo: inputs.encrypted_memo,
                    ovk_wrapped_key: inputs.ovk_wrapped_key,
                },
            ),
            r.spends@ == self.spends@,
            r.fee == self.fee,
            r.fee_asset == self.fee_asset,
            r.merkle_root == self.merkle_root,
            r.expiry_height == self.expiry_height,
            r.chain_id == self.chain_id,
            r.synthetic_blinding_factor as int == (self.synthetic_blinding_factor as int
                - v_blinding as int) % (SCALAR_MODULUS as int),
    {
        self.add_output_producing_note(note, v_blinding, inputs).1
    }

    /// Sets the fee, an implicit output in the fee asset with a zero blinding factor.
    pub fn set_fee(self, fee: u64) -> (r: Builder)
        requires
            self.wf(),
        ensures
            r.wf(),
            r.fee == Some(fee),
            r.spends@ == self.spends@,
            r.outputs@ == self.outputs@,
            r.fee_asset == self.fee_asset,
            r.merkle_root == self.merkle_root,
            r.expiry_height == self.expiry_height,
            r.chain_id == self.chain_id,
            r.synthetic_blinding_factor == self.synthetic_blinding_factor,
    {
        let mut b = self;
        b.fee = Some(fee);
        b
    }

    /// Sets the expiry height.
    pub fn set_expiry_height(self, expiry_height: u32) -> (r: Builder)
        requires
            self.wf(),
        ensures
            r.wf(),
            r.expiry_height == Some(expiry_height),
            r.spends@ == self.spends@,
            r.outputs@ == self.outputs@,
            r.fee == self.fee,
            r.fee_asset == self.fee_asset,
            r.merkle_root == self.merkle_root,
            r.chain_id == self.chain_id,
            r.synthetic_blinding_factor == self.synthetic_blinding_factor,
    {
        let mut b = self;
        b.expiry_height = Some(expiry_height);
        b
    }

    /// Sets the chain id.
    pub fn set_chain_id(self, chain_id: String) -> (r: Builder)
        requires
            self.wf(),
        ensures
            r.wf(),
            r.chain_id == Some(chain_id),
            r.spends@ == self.spends@,
            r.outputs@ == self.outputs@,
            r.fee == self.fee,
            r.fee_asset == self.fee_asset,
            r.merkle_root == self.merkle_root,
            r.expiry_height == self.expiry_height,
            r.synthetic_blinding_factor == self.synthetic_blinding_factor,
    {
        let mut b = self;
        b.chain_id = Some(chain_id);
        b
    }

    /// Spent amount of `asset`.
    fn spent_amount(&self, asset: AssetId) -> (r: u128)
        ensures
            r as int == sum_of(self.spends@, spend_value(asset)),
    {
        let n = self.spends.len();
        let mut total: u128 = 0;
        let mut i: usize = 0;
        while i < n
            invariant
                n == self.spends@.len(),
                i <= n,
                total as int == sum_of(self.spends@.subrange(0, i as int), spend_value(asset)),
                total <= i as int * 0xffff_ffff_ffff_ffff,
            decreases n - i,
        {
            assert(self.spends@.subrange(0, i + 1).drop_last() =~= self.spends@.subrange(0, i as int));
            let v = self.spends[i].1.value_commitment.value;
            assert(i as int <= 0xffff_ffff_ffff_ffff);
            if v.asset_id == asset {
                total = total + v.amount as u128;
            }
            i = i + 1;
        }
        assert(self.spends@.subrange(0, n as int) =~= self.spends@);
        total
    }

    /// Output amount of `asset`.
    fn output_amount(&self, asset: AssetId) -> (r: u128)
        ensures
            r as int == -sum_of(self.outputs@, output_value(asset)),
            r <= 0xffff_ffff_ffff_ffff * 0xffff_ffff_ffff_ffff,
    {
        let n = self.outputs.len();
        let mut total: u128 = 0;
        let mut i: usize = 0;
        while i < n
            invariant
                n == self.outputs@.len(),
                i <= n,
                total as int == -sum_of(self.outputs@.subrange(0, i as int), output_value(asset)),
                total <= i as int * 0xffff_ffff_ffff_ffff,
            decreases n - i,
        {
            assert(self.outputs@.subrange(0, i + 1).drop_last() =~= self.outputs@.subrange(0, i as int));
            let v = self.outputs[i].body.value_commitment.value;
            assert(i as int <= 0xffff_ffff_ffff_ffff);
            if v.asset_id == asset {
                total = total + v.amount as u128;
            }
            i = i + 1;
        }
        assert(self.outputs@.subrange(0, n as int) =~= self.outputs@);
        assert(n as int * 0xffff_ffff_ffff_ffff <= 0xffff_ffff_ffff_ffff * 0xffff_ffff_ffff_ffff)
            by (nonlinear_arith)
            requires
                n <= 0xffff_ffff_ffff_ffff,
        ;
        total
    }

    /// Whether `asset` nets to zero.
    fn nets_to_zero(&self, asset: AssetId) -> (r: bool)
        ensures
            r == (self.net(asset) == 0),
    {
        let spent = self.spent_amount(asset);
        let out = self.output_amount(asset);
        let fee: u128 = match self.fee {
            Some(f) => if asset == self.fee_asset {
                f as u128
            } else {
                0
            },
            None => 0,
        };
        spent == out + fee
    }

    /// Whether every asset nets to zero.
    pub fn is_balanced(&self) -> (r: bool)
        ensures
            r == self.balanced(),
    {
        let n = self.spends.len();
        let mut i: usize = 0;
        while i < n
            invariant
                n == self.spends@.len(),
                i <= n,
                forall|k: int| 0 <= k < i ==> self.net(#[trigger] self.spends@[k].1.value_commitment.value.asset_id) == 0,
            decreases n - i,
        {
            if !self.nets_to_zero(self.spends[i].1.value_commitment.value.asset_id) {
                return false;
            }
            i = i + 1;
        }
        let m = self.outputs.len();
        let mut j: usize = 0;
        while j < m
            invariant
                m == self.outputs@.len(),
                j <= m,
                forall|k: int| 0 <= k < j ==> self.net(#[trigger] self.outputs@[k].body.value_commitment.value.asset_id) == 0,
            decreases m - j,
        {
            if !self.nets_to_zero(self.outputs[j].body.value_commitment.value.asset_id) {
                return false;
            }
            j = j + 1;
        }
        if !self.nets_to_zero(self.fee_asset) {
            return false;
        }
        proof {
            assert forall|a: AssetId| #[trigger] self.net(a) == 0 by {
                if !(exists|k: int| 0 <= k < n && self.spends@[k].1.value_commitment.value.asset_id == a)
                    && !(exists|k: int| 0 <= k < m && self.outputs@[k].body.value_commitment.value.asset_id == a)
                    && a != self.fee_asset {
                    lemma_sum_zero(self.spends@, spend_value(a));
                    lemma_sum_zero(self.outputs@, output_value(a));
                }
            }
        }
        true
    }

    /// The binding signing key: the synthetic blinding factor. Its
    /// verification key is the sum of the value commitments exactly when the
    /// builder balances: the blinding parts of the commitments always sum to
    /// it, and their value parts cancel only when every asset nets to zero.
    pub fn compute_binding_sig(&self) -> (r: u64)
        requires
            self.wf(),
            self.balanced(),
        ensures
            r == self.synthetic_blinding_factor,
            r as int == self.blinding_total() % (SCALAR_MODULUS as int),
    {
        self.synthetic_blinding_factor
    }

    /// Builds the transaction: spends and outputs are each shuffled with their
    /// draws, spends come first with blank authorization signatures, and the
    /// sighash is taken over the resulting body.
    pub fn finalize(self, spend_draws: &Vec<u64>, output_draws: &Vec<u64>) -> (r: Result<
        UnsignedTransaction,
        Error,
    >)
        requires
            self.wf(),
        ensures
            self.chain_id is None ==> r == Err::<UnsignedTransaction, Error>(Error::NoChainID),
            self.chain_id is Some && self.fee is None ==> r == Err::<UnsignedTransaction, Error>(
                Error::FeeNotSet,
            ),
            self.chain_id is Some && self.fee is Some && !self.balanced() ==> r == Err::<
                UnsignedTransaction,
                Error,
            >(Error::NonZeroValueBalance),
            self.chain_id is Some && self.fee is Some && self.balanced() ==> r is Ok && self.built(
                spend_draws@,
                output_draws@,
                &r->Ok_0,
            ),
    {
        if self.chain_id.is_none() {
            return Err(Error::NoChainID);
        }
        if self.fee.is_none() {
            return Err(Error::FeeNotSet);
        }
        if !self.is_balanced() {
            return Err(Error::NonZeroValueBalance);
        }
        let ghost b = self;
        let Builder {
            mut spends,
            mut outputs,
            fee,
            fee_asset,
            synthetic_blinding_factor,
            merkle_root,
            expiry_height,
            chain_id,
        } = self;
        shuffle(&mut spends, spend_draws);
        shuffle(&mut outputs, output_draws);
        let mut actions: Vec<Action> = Vec::new();
        let ns = spends.len();
        let mut i: usize = 0;
        while i < ns
            invariant
                ns == spends@.len(),
                i <= ns,
                actions@ =~= Seq::new(i as nat, |k: int| spend_action(spends@[k])),
            decreases ns - i,
        {
            actions.push(Action::Spend(Spend { body: spends[i].1, auth_sig: 0 }));
            i = i + 1;
        }
        let no = outputs.len();
        let mut j: usize = 0;
        while j < no
            invariant
                no == outputs@.len(),
                ns == spends@.len(),
                j <= no,
                actions@ =~= Seq::new(ns as nat, |k: int| spend_action(spends@[k])) + Seq::new(
                    j as nat,
                    |k: int| Action::Output(outputs@[k]),
                ),
            decreases no - j,
        {
            actions.push(Action::Output(outputs[j]));
            j = j + 1;
        }
        let expiry = match expiry_height {
            Some(h) => h,
            None => 0,
        };
        let fee_amount = match fee {
            Some(f) => f,
            None => 0,
        };
        let cid = match chain_id {
            Some(c) => c,
            None => String::new(),
        };
        let transaction_body = TransactionBody {
            actions,
            merkle_root,
            expiry_height: expiry,
            chain_id: cid,
            fee: fee_amount,
        };
        let sighash = transaction_body.sighash();
        Ok(UnsignedTransaction {
            transaction_body,
            spends,
            sighash,
            synthetic_blinding_factor,
            fee_asset,
        })
    }
}

impl UnsignedTransaction {
    /// The first actions are the spends, one for each signing key.
    pub open spec fn wf(&self) -> bool {
        &&& self.spends@.len() <= self.transaction_body.actions@.len()
        &&& forall|k: int|
            0 <= k < self.spends@.len() ==> #[trigger] self.transaction_body.actions@[k] is Spend
    }

    /// Fills in the spend authorization signatures, the `k`-th into the `k`-th
    /// action, and attaches the binding signature.
    pub fn authorize(self, auth_sigs: &Vec<u64>, binding_sig: u64) -> (r: Transaction)
        requires
            self.wf(),
            auth_sigs@.len() == self.spends@.len(),
        ensures
            r.transaction_body.actions@ == Seq::new(
                self.transaction_body.actions@.len(),
                |k: int|
                    if k < auth_sigs@.len() {
                        with_auth_sig(self.transaction_body.actions@[k], auth_sigs@[k])
                    } else {
                        self.transaction_body.actions@[k]
                    },
            ),
            r.transaction_body.merkle_root == self.transaction_body.merkle_root,
            r.transaction_body.expiry_height == self.transaction_body.expiry_height,
            r.transaction_body.chain_id == self.transaction_body.chain_id,
            r.transaction_body.fee == self.transaction_body.fee,
            r.binding_sig == binding_sig,
    {
        let UnsignedTransaction { transaction_body, spends, .. } = self;
        let TransactionBody { actions, merkle_root, expiry_height, chain_id, fee } = transaction_body;
        let ghost old_actions = actions@;
        let mut signed: Vec<Action> = Vec::new();
        let n = actions.len();
        let mut i: usize = 0;
        while i < n
            invariant
                n == old_actions.len(),
                actions@ == old_actions,
                i <= n,
                auth_sigs@.len() <= n,
                signed@ =~= Seq::new(
                    i as nat,
                    |k: int|
                        if k < auth_sigs@.len() {
                            with_auth_sig(old_actions[k], auth_sigs@[k])
                        } else {
                            old_actions[k]
                        },
                ),
            decreases n - i,
        {
            let a = actions[i];
            if i < auth_sigs.len() {
                match a {
                    Action::Spend(sp) => signed.push(
                        Action::Spend(Spend { body: sp.body, auth_sig: auth_sigs[i] }),
                    ),
                    Action::Output(o) => signed.push(Action::Output(o)),
                }
            } else {
                signed.push(a);
            }
            i = i + 1;
        }
        Transaction {
            transaction_body: TransactionBody { actions: signed, merkle_root, expiry_height, chain_id, fee },
            binding_sig,
        }
    }
}

proof fn lemma_actions_sum(
    bs: Seq<(u64, SpendBody)>,
    bo: Seq<Output>,
    sd: Seq<u64>,
    od: Seq<u64>,
    f: spec_fn(Action) -> int,
)
    ensures
        sum_of(actions_of(shuffled(bs, sd), shuffled(bo, od)), f) == sum_of(
            bs,
            |p: (u64, SpendBody)| f(spend_action(p)),
        ) + sum_of(bo, |o: Output| f(Action::Output(o))),
{
    let sp = shuffled(bs, sd);
    let outs = shuffled(bo, od);
    let s1 = Seq::new(sp.len(), |k: int| spend_action(sp[k]));
    let s2 = Seq::new(outs.len(), |k: int| Action::Output(outs[k]));
    lemma_sum_concat(s1, s2, f);
    let gs = |p: (u64, SpendBody)| spend_action(p);
    let go = |o: Output| Action::Output(o);
    lemma_sum_map(sp, gs, f);
    lemma_sum_map(outs, go, f);
    assert(s1 =~= Seq::new(sp.len(), |k: int| gs(sp[k])));
    assert(s2 =~= Seq::new(outs.len(), |k: int| go(outs[k])));
    let fs = |p: (u64, SpendBody)| f(spend_action(p));
    let fo = |o: Output| f(Action::Output(o));
    assert((|a: (u64, SpendBody)| f(gs(a))) =~= fs);
    assert((|a: Output| f(go(a))) =~= fo);
    lemma_shuffle_steps_sum(bs, sd, bs.len(), fs);
    lemma_shuffle_steps_sum(bo, od, bo.len(), fo);
}

/// Value balance: in a transaction that `finalize` built, every asset's
/// spends less its outputs less the fee come to zero, and the blinding
/// factors of the actions sum to the synthetic blinding factor.
pub proof fn lemma_value_balance(b: &Builder, sd: Seq<u64>, od: Seq<u64>, u: &UnsignedTransaction)
    requires
        b.wf(),
        b.balanced(),
        b.built(sd, od, u),
    ensures
        forall|asset: AssetId|
            #[trigger] actions_net(u.transaction_body.actions@, u.transaction_body.fee, u.fee_asset, asset) == 0,
        sum_of(u.transaction_body.actions@, action_blinding()) % (SCALAR_MODULUS as int)
            == u.synthetic_blinding_factor as int,
{
    assert forall|asset: AssetId|
        #[trigger] actions_net(u.transaction_body.actions@, u.transaction_body.fee, u.fee_asset, asset) == 0 by {
        let f = action_value(asset);
        lemma_actions_sum(b.spends@, b.outputs@, sd, od, f);
        assert((|p: (u64, SpendBody)| f(spend_action(p))) =~= spend_value(asset));
        assert((|o: Output| f(Action::Output(o))) =~= output_value(asset));
        assert(b.net(asset) == 0);
    }
    let f = action_blinding();
    lemma_actions_sum(b.spends@, b.outputs@, sd, od, f);
    assert((|p: (u64, SpendBody)| f(spend_action(p))) =~= spend_blinding());
    assert((|o: Output| f(Action::Output(o))) =~= output_blinding());
}

/// Action order: a built transaction lists all spends before all outputs,
/// and holds exactly the builder's spends and exactly its outputs, each
/// group reordered only by the shuffle.
pub proof fn lemma_action_order(b: &Builder, sd: Seq<u64>, od: Seq<u64>, u: &UnsignedTransaction)
    requires
        b.built(sd, od, u),
    ensures
        u.wf(),
        u.spends@.to_multiset() == b.spends@.to_multiset(),
        shuffled(b.outputs@, od).to_multiset() == b.outputs@.to_multiset(),
        u.transaction_body.actions@.len() == b.spends@.len() + b.outputs@.len(),
        forall|k: int|
            0 <= k < b.spends@.len() ==> #[trigger] u.transaction_body.actions@[k] == spend_action(
                u.spends@[k],
            ),
        forall|k: int|
            b.spends@.len() <= k < u.transaction_body.actions@.len()
                ==> #[trigger] u.transaction_body.actions@[k] is Output,
{
    lemma_shuffle_steps_sum(b.spends@, sd, b.spends@.len(), |p: (u64, SpendBody)| 0int);
    lemma_shuffle_steps_sum(b.outputs@, od, b.outputs@.len(), |o: Output| 0int);
    lemma_shuffle_steps_len(b.spends@, sd, b.spends@.len());
    lemma_shuffle_steps_len(b.outputs@, od, b.outputs@.len());
}

} // verus!
