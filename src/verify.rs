use vstd::prelude::*;
use crate::builder::{action_value, actions_net};
use crate::note::{AssetId, NoteCommitment, Nullifier, Root};
use crate::sum::{lemma_sum_zero, sum_of};
use crate::transaction::{Action, Transaction};
use crate::wire::DecodeError;

verus! {

/// Why a transaction was turned away.
#[derive(Debug, Clone, Copy, PartialEq, Eq, Structural)]
pub enum VerifyError {
    /// The value commitments do not balance, so no binding signature can hold.
    ValueBalanceMismatch,
    /// A spend cites an anchor outside the recent-anchors window.
    UnknownAnchor,
    /// The nullifier is held by a transaction already in the mempool.
    NullifierInMempool(Nullifier),
    /// The nullifier was revealed in a committed block.
    NullifierInDatabase(Nullifier),
    /// The nullifier was revealed earlier in the current block.
    NullifierSpentInBlock(Nullifier),
    /// The bytes are not a transaction.
    Malformed(DecodeError),
}

/// The message logged for an error.
pub open spec fn error_log(e: VerifyError) -> Seq<char> {
    match e {
        VerifyError::ValueBalanceMismatch => "value commitments do not balance"@,
        VerifyError::UnknownAnchor => "unknown anchor"@,
        VerifyError::NullifierInMempool(_) => "nullifier already present in mempool"@,
        VerifyError::NullifierInDatabase(_) => "nullifier already present in database"@,
        VerifyError::NullifierSpentInBlock(_) => "nullifier was already spent in this block"@,
        VerifyError::Malformed(_) => "malformed transaction"@,
    }
}

impl VerifyError {
    /// The message logged for this error.
    pub fn log(&self) -> (r: &'static str)
        ensures
            r@ == error_log(*self),
    {
        match self {
            VerifyError::ValueBalanceMismatch => "value commitments do not balance",
            VerifyError::UnknownAnchor => "unknown anchor",
            VerifyError::NullifierInMempool(_) => "nullifier already present in mempool",
            VerifyError::NullifierInDatabase(_) => "nullifier already present in database",
            VerifyError::NullifierSpentInBlock(_) => "nullifier was already spent in this block",
            VerifyError::Malformed(_) => "malformed transaction",
        }
    }
}

/// A transaction that passed the checks that need no chain state.
pub struct PendingTransaction {
    /// New note commitments in order, each with its encrypted payload.
    pub new_notes: Vec<(NoteCommitment, u64)>,
    pub spent_nullifiers: Vec<Nullifier>,
    /// The anchors its spends cite.
    pub anchors: Vec<Root>,
}

/// A transaction that passed every check, reduced to its effect on the chain.
pub struct VerifiedTransaction {
    pub new_notes: Vec<(NoteCommitment, u64)>,
    pub spent_nullifiers: Vec<Nullifier>,
}

/// The nullifiers the spends among `actions` reveal, in order.
pub open spec fn nullifiers_of(actions: Seq<Action>) -> Seq<Nullifier>
    decreases actions.len(),
{
    if actions.len() == 0 {
        Seq::empty()
    } else {
        nullifiers_of(actions.drop_last()) + match actions.last() {
            Action::Spend(s) => seq![s.body.nullifier],
            Action::Output(_) => Seq::empty(),
        }
    }
}

/// The anchors the spends among `actions` cite, in order.
pub open spec fn anchors_of(actions: Seq<Action>) -> Seq<Root>
    decreases actions.len(),
{
    if actions.len() == 0 {
        Seq::empty()
    } else {
        anchors_of(actions.drop_last()) + match actions.last() {
            Action::Spend(s) => seq![s.body.anchor],
            Action::Output(_) => Seq::empty(),
        }
    }
}

/// The notes the outputs among `actions` create, in order.
pub open spec fn notes_of(actions: Seq<Action>) -> Seq<(NoteCommitment, u64)>
    decreases actions.len(),
{
    if actions.len() == 0 {
        Seq::empty()
    } else {
        notes_of(actions.drop_last()) + match actions.last() {
            Action::Spend(_) => Seq::empty(),
            Action::Output(o) => seq![(o.body.note_commitment, o.body.encrypted_note)],
        }
    }
}

/// Every asset nets to zero over the actions and the fee.
pub open spec fn value_balances(tx: &Transaction, fee_asset: AssetId) -> bool {
    forall|asset: AssetId|
        #[trigger] actions_net(tx.transaction_body.actions@, tx.transaction_body.fee, fee_asset, asset)
            == 0
}

/// The net amount of `asset` over `actions` and the fee is zero.
fn nets_to_zero(actions: &Vec<Action>, fee: u64, fee_asset: AssetId, asset: AssetId) -> (r: bool)
    ensures
        r == (actions_net(actions@, fee, fee_asset, asset) == 0),
{
    let n = actions.len();
    let mut pos: u128 = 0;
    let mut neg: u128 = 0;
    let mut i: usize = 0;
    while i < n
        invariant
            n == actions@.len(),
            i <= n,
            pos - neg == sum_of(actions@.subrange(0, i as int), action_value(asset)),
            pos <= i as int * 0xffff_ffff_ffff_ffff,
            neg <= i as int * 0xffff_ffff_ffff_ffff,
        decreases n - i,
    {
        assert(actions@.subrange(0, i + 1).drop_last() =~= actions@.subrange(0, i as int));
        assert(i as int <= 0xffff_ffff_ffff_ffff);
        match actions[i] {
            Action::Spend(s) => {
                if s.body.value_commitment.value.asset_id == asset {
                    pos = pos + s.body.value_commitment.value.amount as u128;
                }
            },
            Action::Output(o) => {
                if o.body.value_commitment.value.asset_id == asset {
                    neg = neg + o.body.value_commitment.value.amount as u128;
                }
            },
        }
        i = i + 1;
    }
    assert(actions@.subrange(0, n as int) =~= actions@);
    assert(n as int * 0xffff_ffff_ffff_ffff <= 0xffff_ffff_ffff_ffff * 0xffff_ffff_ffff_ffff)
        by (nonlinear_arith)
        requires
            n <= 0xffff_ffff_ffff_ffff,
    ;
    let f: u128 = if asset == fee_asset {
        fee as u128
    } else {
        0
    };
    pos == neg + f
}

/// The asset of an action's value commitment.
pub open spec fn asset_of(a: Action) -> AssetId {
    match a {
        Action::Spend(s) => s.body.value_commitment.value.asset_id,
        Action::Output(o) => o.body.value_commitment.value.asset_id,
    }
}

/// Whether every asset nets to zero over the transaction's actions and fee.
pub fn check_value_balance(tx: &Transaction, fee_asset: AssetId) -> (r: bool)
    ensures
        r == value_balances(tx, fee_asset),
{
    let actions = &tx.transaction_body.actions;
    let fee = tx.transaction_body.fee;
    let n = actions.len();
    let mut i: usize = 0;
    while i < n
        invariant
            n == actions@.len(),
            actions@ == tx.transaction_body.actions@,
            fee == tx.transaction_body.fee,
            i <= n,
            forall|k: int|
                0 <= k < i ==> actions_net(actions@, fee, fee_asset, #[trigger] asset_of(actions@[k])) == 0,
        decreases n - i,
    {
        let asset = match actions[i] {
            Action::Spend(s) => s.body.value_commitment.value.asset_id,
            Action::Output(o) => o.body.value_commitment.value.asset_id,
        };
        if !nets_to_zero(actions, fee, fee_asset, asset) {
            assert(actions_net(tx.transaction_body.actions@, fee, fee_asset, asset) != 0);
            return false;
        }
        i = i + 1;
    }
    if !nets_to_zero(actions, fee, fee_asset, fee_asset) {
        assert(actions_net(tx.transaction_body.actions@, fee, fee_asset, fee_asset) != 0);
        return false;
    }
    proof {
        assert forall|a: AssetId| #[trigger] actions_net(actions@, fee, fee_asset, a) == 0 by {
            if !(exists|k: int| 0 <= k < n && asset_of(actions@[k]) == a) && a != fee_asset {
                assert forall|k: int| 0 <= k < n implies action_value(a)(#[trigger] actions@[k]) == 0 by {
                    assert(asset_of(actions@[k]) != a);
                }
                lemma_sum_zero(actions@, action_value(a));
            }
        }
    }
    true
}

/// Checks that need no chain state: the value commitments must balance,
/// which is what the binding signature attests.
pub fn verify_stateless(tx: &Transaction, fee_asset: AssetId) -> (r: Result<PendingTransaction, VerifyError>)
    ensures
        r is Ok <==> value_balances(tx, fee_asset),
        !value_balances(tx, fee_asset) ==> r == Err::<PendingTransaction, VerifyError>(
            VerifyError::ValueBalanceMismatch,
        ),
        r is Ok ==> {
            &&& r->Ok_0.new_notes@ == notes_of(tx.transaction_body.actions@)
            &&& r->Ok_0.spent_nullifiers@ == nullifiers_of(tx.transaction_body.actions@)
            &&& r->Ok_0.anchors@ == anchors_of(tx.transaction_body.actions@)
        },
{
    if !check_value_balance(tx, fee_asset) {
        return Err(VerifyError::ValueBalanceMismatch);
    }
    let actions = &tx.transaction_body.actions;
    let mut new_notes: Vec<(NoteCommitment, u64)> = Vec::new();
    let mut spent_nullifiers: Vec<Nullifier> = Vec::new();
    let mut anchors: Vec<Root> = Vec::new();
    let n = actions.len();
    let mut i: usize = 0;
    while i < n
        invariant
            n == actions@.len(),
            actions@ == tx.transaction_body.actions@,
            i <= n,
            new_notes@ == notes_of(actions@.subrange(0, i as int)),
            spent_nullifiers@ == nullifiers_of(actions@.subrange(0, i as int)),
            anchors@ == anchors_of(actions@.subrange(0, i as int)),
        decreases n - i,
    {
        assert(actions@.subrange(0, i + 1).drop_last() =~= actions@.subrange(0, i as int));
        match actions[i] {
            Action::Spend(s) => {
                spent_nullifiers.push(s.body.nullifier);
                anchors.push(s.body.anchor);
                assert(new_notes@ =~= notes_of(actions@.subrange(0, i + 1)));
            },
            Action::Output(o) => {
                new_notes.push((o.body.note_commitment, o.body.encrypted_note));
                assert(spent_nullifiers@ =~= nullifiers_of(actions@.subrange(0, i + 1)));
                assert(anchors@ =~= anchors_of(actions@.subrange(0, i + 1)));
            },
        }
        i = i + 1;
    }
    assert(actions@.subrange(0, n as int) =~= actions@);
    Ok(PendingTransaction { new_notes, spent_nullifiers, anchors })
}

/// Whether `x` is among the items of `v`.
pub fn contains_u64(v: &Vec<u64>, x: u64) -> (r: bool)
    ensures
        r == v@.contains(x),
{
    let n = v.len();
    let mut i: usize = 0;
    while i < n
        invariant
            n == v@.len(),
            i <= n,
            forall|k: int| 0 <= k < i ==> v@[k] != x,
        decreases n - i,
    {
        if v[i] == x {
            return true;
        }
        i = i + 1;
    }
    false
}

/// Every anchor in `anchors` is one of `recent`.
pub open spec fn anchors_known(anchors: Seq<Root>, recent: Seq<Root>) -> bool {
    forall|k: int| 0 <= k < anchors.len() ==> recent.contains(#[trigger] anchors[k])
}

impl PendingTransaction {
    /// Checks against chain state: every spend must cite a recent anchor.
    pub fn verify_stateful(self, recent_anchors: &Vec<Root>) -> (r: Result<VerifiedTransaction, VerifyError>)
        ensures
            anchors_known(self.anchors@, recent_anchors@) ==> r is Ok && r->Ok_0.new_notes@
                == self.new_notes@ && r->Ok_0.spent_nullifiers@ == self.spent_nullifiers@,
            !anchors_known(self.anchors@, recent_anchors@) ==> r == Err::<
                VerifiedTransaction,
                VerifyError,
            >(VerifyError::UnknownAnchor),
    {
        let n = self.anchors.len();
        let mut i: usize = 0;
        while i < n
            invariant
                n == self.anchors@.len(),
                i <= n,
                forall|k: int| 0 <= k < i ==> recent_anchors@.contains(#[trigger] self.anchors@[k]),
            decreases n - i,
        {
            if !contains_u64(recent_anchors, self.anchors[i]) {
                return Err(VerifyError::UnknownAnchor);
            }
            i = i + 1;
        }
        Ok(VerifiedTransaction { new_notes: self.new_notes, spent_nullifiers: self.spent_nullifiers })
    }
}

} // verus!
