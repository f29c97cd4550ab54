use vstd::prelude::*;
use crate::note::{AssetId, NoteCommitment, Nullifier, Root};
use crate::pending_block::{commitments, positioned, PendingBlock};
use crate::state::{has_nullifier, newest_hashes, with_height, BlockRow, State};
use crate::validator::{keyed_set, validator_set, Validator};
use crate::transaction::Transaction;
use crate::wire::wire_tx;
use crate::tree::{tree_root, NoteCommitmentTree};
use crate::request_ext::Request;
use crate::verify::{error_log, 
    anchors_known, anchors_of, contains_u64, notes_of, nullifiers_of, value_balances, verify_stateless,
    VerifiedTransaction, VerifyError,
};

verus! {

/// How many recent tree roots spends may cite.
pub const NUM_RECENT_ANCHORS: usize = 64;

/// Whether a mempool check is for a new transaction or a recheck of one already admitted.
#[derive(Debug, Clone, Copy, PartialEq, Eq, Structural)]
pub enum CheckTxKind {
    New,
    Recheck,
}

/// One genesis allocation, with the note that carries it.
pub struct Allocation {
    pub amount: u64,
    pub denom: String,
    pub address: u64,
    pub asset_id: AssetId,
    pub note_commitment: NoteCommitment,
    pub encrypted_note: u64,
}

/// The genesis document.
pub struct AppState {
    pub allocations: Vec<Allocation>,
    /// The initial validators; those the consensus engine proposes are ignored.
    pub validators: Vec<Validator>,
    pub epoch_duration: u64,
}

/// The consensus-side application.
pub struct App {
    pub state: State,
    /// The committed note commitment tree.
    pub note_commitment_tree: NoteCommitmentTree,
    /// Recent roots of the tree, newest first.
    pub recent_anchors: Vec<Root>,
    /// Nullifiers of transactions in the mempool.
    pub mempool_nullifiers: Vec<Nullifier>,
    /// Staged changes of the current block, between its beginning and its commit.
    pub pending_block: Option<PendingBlock>,
    pub epoch_duration: u64,
    /// The asset fees are paid in.
    pub fee_asset: AssetId,
}

/// `anchors` after `root` is pushed to the front and the window is cut back to its size.
pub open spec fn push_anchor(anchors: Seq<Root>, root: Root) -> Seq<Root> {
    let b = seq![root] + anchors;
    if b.len() > NUM_RECENT_ANCHORS {
        b.take(NUM_RECENT_ANCHORS as int)
    } else {
        b
    }
}

/// Some nullifier of `nfs` is already in the mempool, or earlier in `nfs`.
pub open spec fn mempool_conflict(mempool: Seq<Nullifier>, nfs: Seq<Nullifier>) -> bool {
    exists|k: int|
        0 <= k < nfs.len() && (mempool.contains(#[trigger] nfs[k]) || nfs.take(k).contains(nfs[k]))
}

/// Some nullifier of `nfs` was revealed in a committed block.
pub open spec fn db_conflict(committed: Seq<(Nullifier, u64)>, nfs: Seq<Nullifier>) -> bool {
    exists|k: int| 0 <= k < nfs.len() && has_nullifier(committed, #[trigger] nfs[k])
}

/// Some nullifier of `nfs` was spent earlier in the block.
pub open spec fn block_conflict(spent: Seq<Nullifier>, nfs: Seq<Nullifier>) -> bool {
    exists|k: int| 0 <= k < nfs.len() && spent.contains(#[trigger] nfs[k])
}

/// What `check_tx` does: `pre` and `post` are the application before and after.
pub open spec fn checked(pre: App, post: App, tx: Transaction, kind: CheckTxKind, r: Result<(), VerifyError>) -> bool {
    &&& pre.wf() ==> post.wf()
    &&& ({
        let acts = tx.transaction_body.actions@;
        let nfs = nullifiers_of(acts);
        let bal = value_balances(&tx, pre.fee_asset);
        let mc = kind == CheckTxKind::New && mempool_conflict(pre.mempool_nullifiers@, nfs);
        let dc = db_conflict(pre.state.nullifiers@, nfs);
        let ak = anchors_known(anchors_of(acts), pre.recent_anchors@);
        &&& (r is Ok <==> bal && !mc && !dc && ak)
        &&& (!bal ==> r == Err::<(), VerifyError>(VerifyError::ValueBalanceMismatch))
        &&& (bal && mc ==> r is Err && r->Err_0 is NullifierInMempool)
        &&& (bal && !mc && dc ==> r is Err && r->Err_0 is NullifierInDatabase)
        &&& (bal && !mc && !dc && !ak ==> r == Err::<(), VerifyError>(VerifyError::UnknownAnchor))
        &&& (r is Ok && kind == CheckTxKind::New ==> post.mempool_nullifiers@
            == pre.mempool_nullifiers@ + nfs)
        &&& (!(r is Ok && kind == CheckTxKind::New) ==> post.mempool_nullifiers
            == pre.mempool_nullifiers)
    })
    &&& post.state == pre.state
    &&& post.note_commitment_tree == pre.note_commitment_tree
    &&& post.recent_anchors == pre.recent_anchors
    &&& post.pending_block == pre.pending_block
    &&& post.epoch_duration == pre.epoch_duration
    &&& post.fee_asset == pre.fee_asset
}

/// What `deliver_tx` does: `pre` and `post` are the application before and after.
pub open spec fn delivered(pre: App, post: App, tx: Transaction, r: Result<(), VerifyError>) -> bool {
    &&& pre.wf() ==> post.wf()
    &&& ({
        let acts = tx.transaction_body.actions@;
        let nfs = nullifiers_of(acts);
        let pb = pre.pending_block->0;
        let bal = value_balances(&tx, pre.fee_asset);
        let dc = db_conflict(pre.state.nullifiers@, nfs);
        let bc = block_conflict(pb.spent_nullifiers@, nfs);
        let ak = anchors_known(anchors_of(acts), pre.recent_anchors@);
        &&& (r is Ok <==> bal && !dc && !bc && ak)
        &&& (!bal ==> r == Err::<(), VerifyError>(VerifyError::ValueBalanceMismatch))
        &&& (bal && (dc || bc) ==> r is Err && (r->Err_0 is NullifierInDatabase
            || r->Err_0 is NullifierSpentInBlock))
        &&& (bal && !dc && !bc && !ak ==> r == Err::<(), VerifyError>(VerifyError::UnknownAnchor))
        &&& (r is Err ==> post.pending_block == pre.pending_block)
        &&& (r is Ok ==> {
            let npb = post.pending_block->0;
            &&& post.pending_block is Some
            &&& npb.note_commitment_tree.leaves@ == pb.note_commitment_tree.leaves@
                + commitments(notes_of(acts))
            &&& npb.notes@ == pb.notes@ + positioned(
                notes_of(acts),
                pb.note_commitment_tree.leaves@.len() as int,
            )
            &&& npb.spent_nullifiers@ == pb.spent_nullifiers@ + nfs
            &&& npb.height == pb.height
            &&& npb.epoch == pb.epoch
            &&& npb.new_assets == pb.new_assets
            &&& npb.epoch_duration == pb.epoch_duration
        })
    })
    &&& post.state == pre.state
    &&& post.note_commitment_tree == pre.note_commitment_tree
    &&& post.recent_anchors == pre.recent_anchors
    &&& post.mempool_nullifiers == pre.mempool_nullifiers
    &&& post.epoch_duration == pre.epoch_duration
    &&& post.fee_asset == pre.fee_asset
}

/// What `begin_block` does.
pub open spec fn begun(pre: App, post: App) -> bool {
    &&& pre.wf() ==> post.wf()
    &&& post.pending_block is Some
    &&& post.pending_block->0.note_commitment_tree.leaves@
        == pre.note_commitment_tree.leaves@
    &&& post.pending_block->0.notes@.len() == 0
    &&& post.pending_block->0.spent_nullifiers@.len() == 0
    &&& post.pending_block->0.new_assets@.len() == 0
    &&& post.pending_block->0.height is None
    &&& post.pending_block->0.epoch is None
    &&& post.pending_block->0.epoch_duration == pre.epoch_duration
    &&& post.state == pre.state
    &&& post.note_commitment_tree == pre.note_commitment_tree
    &&& post.recent_anchors == pre.recent_anchors
    &&& post.mempool_nullifiers == pre.mempool_nullifiers
    &&& post.epoch_duration == pre.epoch_duration
    &&& post.fee_asset == pre.fee_asset
}

/// What `end_block` does.
pub open spec fn ended(pre: App, post: App, height: u64, r: bool) -> bool {
    &&& pre.wf() ==> post.wf()
    &&& ({
        let pb = pre.pending_block->0;
        let npb = post.pending_block->0;
        &&& post.pending_block is Some
        &&& npb.height == Some(height)
        &&& npb.epoch is Some
        &&& npb.epoch->0.index == height / pb.epoch_duration
        &&& npb.epoch->0.duration == pb.epoch_duration
        &&& npb.note_commitment_tree == pb.note_commitment_tree
        &&& npb.notes == pb.notes
        &&& npb.spent_nullifiers == pb.spent_nullifiers
        &&& npb.new_assets == pb.new_assets
        &&& npb.epoch_duration == pb.epoch_duration
        &&& r == (height % pb.epoch_duration == 0)
    })
    &&& post.state == pre.state
    &&& post.note_commitment_tree == pre.note_commitment_tree
    &&& post.recent_anchors == pre.recent_anchors
    &&& post.mempool_nullifiers == pre.mempool_nullifiers
    &&& post.epoch_duration == pre.epoch_duration
    &&& post.fee_asset == pre.fee_asset
}

/// What `commit` does.
pub open spec fn committed(pre: App, post: App, r: Root) -> bool {
    &&& ({
        let pb = pre.pending_block->0;
        &&& post.wf()
        &&& post.pending_block is None
        &&& r as int == tree_root(pb.note_commitment_tree.leaves@)
        &&& post.note_commitment_tree.leaves@ == pb.note_commitment_tree.leaves@
        &&& post.recent_anchors@ == push_anchor(pre.recent_anchors@, r)
        &&& forall|nf: Nullifier|
            #[trigger] post.mempool_nullifiers@.contains(nf) <==> (
            pre.mempool_nullifiers@.contains(nf) && !pb.spent_nullifiers@.contains(nf))
        &&& post.state.nullifiers@ == pre.state.nullifiers@ + with_height(
            pb.spent_nullifiers@,
            pb.height->0,
        )
        &&& post.state.notes@ == pre.state.notes@ + pb.notes@
        &&& post.state.assets@ == pre.state.assets@ + pb.new_assets@
        &&& post.state.note_commitment_tree.leaves@ == pb.note_commitment_tree.leaves@
        &&& post.state.blocks@ == pre.state.blocks@.push(BlockRow { height: pb.height->0, app_hash: r })
    })
    &&& post.state.chain_id == pre.state.chain_id
    &&& post.state.validators == pre.state.validators
    &&& post.epoch_duration == pre.epoch_duration
    &&& post.fee_asset == pre.fee_asset
}

/// The notes the allocations create, each with its payload.
pub open spec fn genesis_notes(allocations: Seq<Allocation>) -> Seq<(NoteCommitment, u64)> {
    Seq::new(allocations.len(), |k: int| (allocations[k].note_commitment, allocations[k].encrypted_note))
}

/// What `init_genesis` does.
pub open spec fn started(pre: App, post: App, chain_id: String, app_state: AppState, r: (Root, Vec<Validator>)) -> bool {
    let n = app_state.allocations@.len();
    &&& post.wf()
    &&& post.epoch_duration == app_state.epoch_duration
    &&& post.pending_block is None
    &&& post.note_commitment_tree.leaves@ == Seq::new(n, |k: int| app_state.allocations@[k].note_commitment)
    &&& r.0 as int == tree_root(post.note_commitment_tree.leaves@)
    &&& post.recent_anchors@ == push_anchor(pre.recent_anchors@, r.0)
    &&& post.state.blocks@ == pre.state.blocks@.push(BlockRow { height: 0, app_hash: r.0 })
    &&& post.state.notes@ == pre.state.notes@ + positioned(genesis_notes(app_state.allocations@), 0)
    &&& post.state.nullifiers@ == pre.state.nullifiers@
    &&& post.state.assets@ == pre.state.assets@ + Seq::new(
        n,
        |k: int| (app_state.allocations@[k].asset_id, app_state.allocations@[k].denom),
    )
    &&& post.state.chain_id == chain_id
    &&& keyed_set(r.1@, app_state.validators@)
    &&& post.state.validators@ == r.1@
}

/// What `check_tx_bytes` does: bytes that encode a transaction are checked
/// as that transaction; other bytes are turned away as malformed.
pub open spec fn checked_bytes(pre: App, post: App, tx_bytes: Seq<u8>, kind: CheckTxKind, r: Result<(), VerifyError>) -> bool {
    if exists|t: Transaction| wire_tx(&t) == tx_bytes {
        exists|t: Transaction| wire_tx(&t) == tx_bytes && #[trigger] checked(pre, post, t, kind, r)
    } else {
        r is Err && r->Err_0 is Malformed && post == pre
    }
}

/// What `deliver_tx_bytes` does: bytes that encode a transaction are
/// delivered as that transaction; other bytes are turned away as malformed.
pub open spec fn delivered_bytes(pre: App, post: App, tx_bytes: Seq<u8>, r: Result<(), VerifyError>) -> bool {
    if exists|t: Transaction| wire_tx(&t) == tx_bytes {
        exists|t: Transaction| wire_tx(&t) == tx_bytes && #[trigger] delivered(pre, post, t, r)
    } else {
        r is Err && r->Err_0 is Malformed && post == pre
    }
}

/// The answer to a request of the consensus engine.
#[allow(inconsistent_fields)]
pub enum Response {
    Info { data: &'static str, app_version: u64, last_block_height: u64, last_block_app_hash: Root },
    Query,
    /// Code 0 admits the transaction; otherwise the log says why it was not.
    CheckTx { code: u32, log: &'static str },
    BeginBlock,
    /// Code 0 accepts the transaction; otherwise the log says why it was not.
    DeliverTx { code: u32, log: &'static str },
    EndBlock,
    Commit { data: Root, retain_height: u64 },
    InitChain { app_hash: Root, validators: Vec<Validator> },
    Flush,
    Echo,
    ListSnapshots,
    OfferSnapshot,
    LoadSnapshotChunk,
    ApplySnapshotChunk,
}

/// The code and log that report the outcome `res` of a transaction.
pub open spec fn reports(res: Result<(), VerifyError>, code: u32, log: Seq<char>) -> bool {
    match res {
        Ok(()) => code == 0 && log == Seq::<char>::empty(),
        Err(e) => code == 1 && log == error_log(e),
    }
}

/// The code and log for the outcome of a transaction.
fn tx_result(res: Result<(), VerifyError>) -> (r: (u32, &'static str))
    ensures
        reports(res, r.0, r.1@),
{
    match res {
        Ok(()) => {
            let log = "";
            proof {
                reveal_strlit("");
                assert(log@ =~= Seq::<char>::empty());
            }
            (0, log)
        },
        Err(e) => (1, e.log()),
    }
}

/// Whether `req` may be handed to `call` on `app`: the requests inside a
/// block need a block in progress, an end of block needs epochs of at least
/// one block, a commit needs the block's height, and genesis needs epochs of
/// at least one block.
pub open spec fn callable(app: App, req: Request) -> bool {
    &&& app.wf()
    &&& match req {
        Request::DeliverTx { .. } => app.pending_block is Some,
        Request::EndBlock { .. } => app.pending_block is Some && app.pending_block->0.epoch_duration >= 1,
        Request::Commit => app.pending_block is Some && app.pending_block->0.height is Some,
        Request::InitChain { app_state, .. } => app_state.epoch_duration >= 1,
        _ => true,
    }
}

/// What `call` does with each request.
pub open spec fn answered(pre: App, post: App, req: Request, r: Response) -> bool {
    match req {
        Request::Info => post == pre && match r {
            Response::Info { data, app_version, last_block_height, last_block_app_hash } => data@
                == "penumbra"@ && app_version == 1 && if pre.state.blocks@.len() == 0 {
                last_block_height == 0 && last_block_app_hash == 0
            } else {
                last_block_height == pre.state.blocks@.last().height && last_block_app_hash
                    == pre.state.blocks@.last().app_hash
            },
            _ => false,
        },
        Request::CheckTx { kind, tx } => match r {
            Response::CheckTx { code, log } => exists|res: Result<(), VerifyError>|
                #[trigger] checked_bytes(pre, post, tx@, kind, res) && reports(res, code, log@),
            _ => false,
        },
        Request::DeliverTx { tx } => match r {
            Response::DeliverTx { code, log } => exists|res: Result<(), VerifyError>|
                #[trigger] delivered_bytes(pre, post, tx@, res) && reports(res, code, log@),
            _ => false,
        },
        Request::BeginBlock { .. } => r is BeginBlock && begun(pre, post),
        Request::EndBlock { height } => r is EndBlock && exists|b: bool| #[trigger] ended(pre, post, height, b),
        Request::Commit => match r {
            Response::Commit { data, retain_height } => retain_height == 0 && committed(pre, post, data),
            _ => false,
        },
        Request::InitChain { chain_id, app_state } => match r {
            Response::InitChain { app_hash, validators } => started(pre, post, chain_id, app_state, (app_hash, validators)),
            _ => false,
        },
        Request::Query { .. } => r is Query && post == pre,
        Request::Flush => r is Flush && post == pre,
        Request::Echo => r is Echo && post == pre,
        Request::ListSnapshots => r is ListSnapshots && post == pre,
        Request::OfferSnapshot => r is OfferSnapshot && post == pre,
        Request::LoadSnapshotChunk => r is LoadSnapshotChunk && post == pre,
        Request::ApplySnapshotChunk => r is ApplySnapshotChunk && post == pre,
    }
}

/// A copy of a list of validators.
fn copy_validators(v: &Vec<Validator>) -> (r: Vec<Validator>)
    ensures
        r@ == v@,
{
    let mut out: Vec<Validator> = Vec::new();
    let n = v.len();
    let mut i: usize = 0;
    while i < n
        invariant
            n == v@.len(),
            i <= n,
            out@ =~= v@.take(i as int),
        decreases n - i,
    {
        out.push(v[i]);
        i = i + 1;
    }
    assert(v@.take(n as int) =~= v@);
    out
}

/// Whether `x` is among the first `end` items of `v`.
fn contains_before(v: &Vec<u64>, end: usize, x: u64) -> (r: bool)
    requires
        end <= v@.len(),
    ensures
        r == v@.take(end as int).contains(x),
{
    let mut i: usize = 0;
    while i < end
        invariant
            end <= v@.len(),
            i <= end,
            forall|k: int| 0 <= k < i ==> v@[k] != x,
        decreases end - i,
    {
        if v[i] == x {
            assert(v@.take(end as int)[i as int] == x);
            return true;
        }
        i = i + 1;
    }
    false
}

impl App {
    /// The window of recent anchors is within its size, and the mempool
    /// holds each nullifier once.
    pub open spec fn wf(&self) -> bool {
        &&& self.recent_anchors@.len() <= NUM_RECENT_ANCHORS
        &&& self.mempool_nullifiers@.no_duplicates()
    }

    /// The application over a committed state.
    pub fn new(state: State) -> (r: App)
        ensures
            r.wf(),
            r.note_commitment_tree.leaves@ == state.note_commitment_tree.leaves@,
            r.recent_anchors@ == newest_hashes(state.blocks@, NUM_RECENT_ANCHORS as nat),
            r.mempool_nullifiers@.len() == 0,
            r.pending_block is None,
            r.epoch_duration == state.epoch_duration,
            r.fee_asset == state.fee_asset,
            r.state == state,
    {
        let note_commitment_tree = state.note_commitment_tree();
        let recent_anchors = state.recent_anchors(NUM_RECENT_ANCHORS);
        let epoch_duration = state.epoch_duration;
        let fee_asset = state.fee_asset;
        App {
            state,
            note_commitment_tree,
            recent_anchors,
            mempool_nullifiers: Vec::new(),
            pending_block: None,
            epoch_duration,
            fee_asset,
        }
    }

    /// Starts a block: its pending state works on a copy of the committed tree.
    pub fn begin_block(&mut self)
        ensures
            begun(*old(self), *final(self)),
    {
        let tree = self.note_commitment_tree.copy();
        self.pending_block = Some(PendingBlock::new(tree, self.epoch_duration));
    }

    /// Admission to the mempool. The transaction must balance; a new one must
    /// not share a nullifier with the mempool or repeat one of its own; no
    /// nullifier may be committed already; every anchor must be recent. A new
    /// transaction that passes reserves its nullifiers in the mempool.
    pub fn check_tx(&mut self, tx: &Transaction, kind: CheckTxKind) -> (r: Result<(), VerifyError>)
        ensures
            checked(*old(self), *final(self), *tx, kind, r),
    {
        let pending = match verify_stateless(tx, self.fee_asset) {
            Ok(p) => p,
            Err(e) => {
                return Err(e);
            },
        };
        let ghost nfs = nullifiers_of(tx.transaction_body.actions@);
        let n = pending.spent_nullifiers.len();
        if kind == CheckTxKind::New {
            let mut i: usize = 0;
            while i < n
                invariant
                    n == nfs.len(),
                    pending.spent_nullifiers@ == nfs,
                    pending.anchors@ == anchors_of(tx.transaction_body.actions@),
                    nfs == nullifiers_of(tx.transaction_body.actions@),
                    value_balances(tx, old(self).fee_asset),
                    kind == CheckTxKind::New,
                    *self == *old(self),
                    i <= n,
                    forall|k: int|
                        0 <= k < i ==> !(self.mempool_nullifiers@.contains(#[trigger] nfs[k])
                            || nfs.take(k).contains(nfs[k])),
                decreases n - i,
            {
                let nf = pending.spent_nullifiers[i];
                if contains_u64(&self.mempool_nullifiers, nf) || contains_before(
                    &pending.spent_nullifiers,
                    i,
                    nf,
                ) {
                    assert(nfs[i as int] == nf);
                    assert(mempool_conflict(old(self).mempool_nullifiers@, nfs));
                    return Err(VerifyError::NullifierInMempool(nf));
                }
                i = i + 1;
            }
        }
        let mut j: usize = 0;
        while j < n
            invariant
                n == nfs.len(),
                pending.spent_nullifiers@ == nfs,
                pending.anchors@ == anchors_of(tx.transaction_body.actions@),
                nfs == nullifiers_of(tx.transaction_body.actions@),
                value_balances(tx, old(self).fee_asset),
                *self == *old(self),
                kind == CheckTxKind::New ==> !mempool_conflict(old(self).mempool_nullifiers@, nfs),
                j <= n,
                forall|k: int| 0 <= k < j ==> !has_nullifier(self.state.nullifiers@, #[trigger] nfs[k]),
            decreases n - j,
        {
            let nf = pending.spent_nullifiers[j];
            if self.state.nullifier(nf).is_some() {
                assert(nfs[j as int] == nf);
                assert(db_conflict(old(self).state.nullifiers@, nfs));
                return Err(VerifyError::NullifierInDatabase(nf));
            }
            j = j + 1;
        }
        let verified = match pending.verify_stateful(&self.recent_anchors) {
            Ok(v) => v,
            Err(e) => {
                return Err(e);
            },
        };
        if kind == CheckTxKind::New {
            let mut k: usize = 0;
            while k < n
                invariant
                    n == nfs.len(),
                    verified.spent_nullifiers@ == nfs,
                    k <= n,
                    self.mempool_nullifiers@ =~= old(self).mempool_nullifiers@ + nfs.take(k as int),
                    self.state == old(self).state,
                    self.note_commitment_tree == old(self).note_commitment_tree,
                    self.recent_anchors == old(self).recent_anchors,
                    self.pending_block == old(self).pending_block,
                    self.epoch_duration == old(self).epoch_duration,
                    self.fee_asset == old(self).fee_asset,
                decreases n - k,
            {
                self.mempool_nullifiers.push(verified.spent_nullifiers[k]);
                k = k + 1;
            }
            assert(nfs.take(n as int) =~= nfs);
        }
        Ok(())
    }

    /// Delivery of a transaction in the current block. Everything is checked
    /// again: the transaction must balance, none of its nullifiers may be
    /// committed or spent earlier in the block, and every anchor must be
    /// recent. A transaction that passes is staged in the pending block.
    pub fn deliver_tx(&mut self, tx: &Transaction) -> (r: Result<(), VerifyError>)
        requires
            old(self).pending_block is Some,
        ensures
            delivered(*old(self), *final(self), *tx, r),
    {
        let pending = match verify_stateless(tx, self.fee_asset) {
            Ok(p) => p,
            Err(e) => {
                return Err(e);
            },
        };
        let ghost nfs = nullifiers_of(tx.transaction_body.actions@);
        let ghost spent = self.pending_block->0.spent_nullifiers@;
        let n = pending.spent_nullifiers.len();
        let mut i: usize = 0;
        while i < n
            invariant
                n == nfs.len(),
                pending.spent_nullifiers@ == nfs,
                pending.anchors@ == anchors_of(tx.transaction_body.actions@),
                nfs == nullifiers_of(tx.transaction_body.actions@),
                value_balances(tx, old(self).fee_asset),
                *self == *old(self),
                self.pending_block is Some,
                spent == self.pending_block->0.spent_nullifiers@,
                i <= n,
                forall|k: int|
                    0 <= k < i ==> !has_nullifier(self.state.nullifiers@, #[trigger] nfs[k])
                        && !spent.contains(nfs[k]),
            decreases n - i,
        {
            let nf = pending.spent_nullifiers[i];
            if self.state.nullifier(nf).is_some() {
                assert(nfs[i as int] == nf);
                assert(db_conflict(old(self).state.nullifiers@, nfs));
                return Err(VerifyError::NullifierInDatabase(nf));
            }
            let in_block = match &self.pending_block {
                Some(pb) => contains_u64(&pb.spent_nullifiers, nf),
                None => false,
            };
            if in_block {
                assert(nfs[i as int] == nf);
                assert(block_conflict(spent, nfs));
                return Err(VerifyError::NullifierSpentInBlock(nf));
            }
            i = i + 1;
        }
        let verified = match pending.verify_stateful(&self.recent_anchors) {
            Ok(v) => v,
            Err(e) => {
                return Err(e);
            },
        };
        let mut pb = self.pending_block.take().unwrap();
        pb.add_transaction(verified);
        self.pending_block = Some(pb);
        Ok(())
    }

    /// Mempool admission of a transaction given by its wire bytes: bytes that
    /// are no transaction are turned away, else the transaction they encode
    /// is checked as by `check_tx`.
    pub fn check_tx_bytes(&mut self, tx_bytes: &[u8], kind: CheckTxKind) -> (r: Result<(), VerifyError>)
        ensures
            checked_bytes(*old(self), *final(self), tx_bytes@, kind, r),
    {
        match Transaction::decode(tx_bytes) {
            Ok(t) => {
                let r = self.check_tx(&t, kind);
                assert(checked(*old(self), *self, t, kind, r));
                r
            },
            Err(e) => Err(VerifyError::Malformed(e)),
        }
    }

    /// Delivery of a transaction given by its wire bytes: bytes that are no
    /// transaction are turned away, else the transaction they encode is
    /// delivered as by `deliver_tx`.
    pub fn deliver_tx_bytes(&mut self, tx_bytes: &[u8]) -> (r: Result<(), VerifyError>)
        requires
            old(self).pending_block is Some,
        ensures
            delivered_bytes(*old(self), *final(self), tx_bytes@, r),
    {
        match Transaction::decode(tx_bytes) {
            Ok(t) => {
                let r = self.deliver_tx(&t);
                assert(delivered(*old(self), *self, t, r));
                r
            },
            Err(e) => Err(VerifyError::Malformed(e)),
        }
    }

    /// Ends a block at `height`: the pending block takes the height and its
    /// epoch. Returns whether `height` starts a new epoch.
    pub fn end_block(&mut self, height: u64) -> (r: bool)
        requires
            old(self).pending_block is Some,
            old(self).pending_block->0.epoch_duration >= 1,
        ensures
            ended(*old(self), *final(self), height, r),
    {
        let mut pb = self.pending_block.take().unwrap();
        let epoch = pb.set_height(height);
        self.pending_block = Some(pb);
        proof {
            vstd::arithmetic::div_mod::lemma_fundamental_div_mod(height as int, epoch.duration as int);
        }
        height == epoch.start_height()
    }

    /// Commits the pending block: its nullifiers leave the mempool, its tree
    /// becomes the committed tree, the new root joins the recent anchors,
    /// and the block is recorded. Returns the new application hash.
    pub fn commit(&mut self) -> (r: Root)
        requires
            old(self).wf(),
            old(self).pending_block is Some,
            old(self).pending_block->0.height is Some,
        ensures
            committed(*old(self), *final(self), r),
    {
        let pb = self.pending_block.take().unwrap();
        let ghost old_mempool = self.mempool_nullifiers@;
        let mut kept: Vec<Nullifier> = Vec::new();
        let n = self.mempool_nullifiers.len();
        let mut i: usize = 0;
        while i < n
            invariant
                n == old_mempool.len(),
                self.mempool_nullifiers@ == old_mempool,
                old_mempool.no_duplicates(),
                kept@.no_duplicates(),
                i <= n,
                forall|nf: Nullifier|
                    #[trigger] kept@.contains(nf) <==> (old_mempool.take(i as int).contains(nf)
                        && !pb.spent_nullifiers@.contains(nf)),
            decreases n - i,
        {
            let nf = self.mempool_nullifiers[i];
            let ghost before = kept@;
            if !contains_u64(&pb.spent_nullifiers, nf) {
                proof {
                    if before.contains(nf) {
                        let m = choose|m: int| 0 <= m < i && old_mempool.take(i as int)[m] == nf;
                        assert(old_mempool[m] == old_mempool[i as int]);
                    }
                }
                kept.push(nf);
            }
            assert(old_mempool.take(i + 1) =~= old_mempool.take(i as int).push(nf));
            let ghost t1 = old_mempool.take(i + 1);
            let ghost t0 = old_mempool.take(i as int);
            assert(t1[i as int] == nf);
            assert forall|x: Nullifier| #[trigger] kept@.contains(x) <==> (t1.contains(x)
                && !pb.spent_nullifiers@.contains(x)) by {
                if kept@.contains(x) {
                    let k = choose|k: int| 0 <= k < kept@.len() && kept@[k] == x;
                    if k < before.len() {
                        assert(before[k] == x);
                        assert(before.contains(x));
                        let m = choose|m: int| 0 <= m < t0.len() && t0[m] == x;
                        assert(t1[m] == x);
                    } else {
                        assert(x == nf);
                    }
                }
                if t1.contains(x) && !pb.spent_nullifiers@.contains(x) {
                    let m = choose|m: int| 0 <= m < t1.len() && t1[m] == x;
                    if m < i {
                        assert(t0[m] == x);
                        assert(before.contains(x));
                        let k = choose|k: int| 0 <= k < before.len() && before[k] == x;
                        assert(kept@[k] == x);
                    } else {
                        assert(kept@[kept@.len() - 1] == x);
                    }
                }
            }
            i = i + 1;
        }
        assert(old_mempool.take(n as int) =~= old_mempool);
        self.mempool_nullifiers = kept;
        self.note_commitment_tree = pb.note_commitment_tree.copy();
        let anchor = self.note_commitment_tree.root();
        let ghost old_anchors = self.recent_anchors@;
        self.recent_anchors.insert(0, anchor);
        assert(self.recent_anchors@ =~= seq![anchor] + old_anchors);
        if self.recent_anchors.len() > NUM_RECENT_ANCHORS {
            self.recent_anchors.pop();
            assert(self.recent_anchors@ =~= (seq![anchor] + old_anchors).take(NUM_RECENT_ANCHORS as int));
        }
        self.state.commit_block(pb);
        self.state.app_hash()
    }

    /// Answers one request of the consensus engine.
    pub fn call(&mut self, req: Request) -> (r: Response)
        requires
            callable(*old(self), req),
        ensures
            answered(*old(self), *final(self), req, r),
    {
        let ghost req0 = req;
        match req {
            Request::Info => {
                let (last_block_height, last_block_app_hash) = self.info();
                let data = "penumbra";
                proof {
                    reveal_strlit("penumbra");
                }
                Response::Info { data, app_version: 1, last_block_height, last_block_app_hash }
            },
            Request::Query { .. } => Response::Query,
            Request::CheckTx { kind, tx } => {
                let res = self.check_tx_bytes(tx.as_slice(), kind);
                let (code, log) = tx_result(res);
                assert(checked_bytes(*old(self), *self, tx@, kind, res));
                Response::CheckTx { code, log }
            },
            Request::BeginBlock { .. } => {
                self.begin_block();
                Response::BeginBlock
            },
            Request::DeliverTx { tx } => {
                let res = self.deliver_tx_bytes(tx.as_slice());
                let (code, log) = tx_result(res);
                assert(delivered_bytes(*old(self), *self, tx@, res));
                Response::DeliverTx { code, log }
            },
            Request::EndBlock { height } => {
                let b = self.end_block(height);
                assert(ended(*old(self), *self, height, b));
                Response::EndBlock
            },
            Request::Commit => {
                let data = self.commit();
                Response::Commit { data, retain_height: 0 }
            },
            Request::InitChain { chain_id, app_state } => {
                let (app_hash, validators) = self.init_genesis(chain_id, &app_state);
                Response::InitChain { app_hash, validators }
            },
            Request::Flush => Response::Flush,
            Request::Echo => Response::Echo,
            Request::ListSnapshots => Response::ListSnapshots,
            Request::OfferSnapshot => Response::OfferSnapshot,
            Request::LoadSnapshotChunk => Response::LoadSnapshotChunk,
            Request::ApplySnapshotChunk => Response::ApplySnapshotChunk,
        }
    }

    /// The newest block's height and application hash; height zero and hash zero before any block.
    pub fn info(&self) -> (r: (u64, Root))
        ensures
            self.state.blocks@.len() == 0 ==> r == (0u64, 0u64),
            self.state.blocks@.len() > 0 ==> r == (
                self.state.blocks@.last().height,
                self.state.blocks@.last().app_hash,
            ),
    {
        match self.state.latest_block_info() {
            Some(b) => (b.height, b.app_hash),
            None => (0, 0),
        }
    }

    /// Starts the chain from its genesis document: one note per allocation,
    /// each allocation's asset registered, all staged in a block of height
    /// zero and committed. Returns the application hash.
    pub fn init_genesis(&mut self, chain_id: String, app_state: &AppState) -> (r: (Root, Vec<Validator>))
        requires
            old(self).wf(),
            app_state.epoch_duration >= 1,
        ensures
            started(*old(self), *final(self), chain_id, *app_state, r),
    {
        self.epoch_duration = app_state.epoch_duration;
        let mut genesis_block = PendingBlock::new(NoteCommitmentTree::new(), app_state.epoch_duration);
        genesis_block.set_height(0);
        let mut new_notes: Vec<(NoteCommitment, u64)> = Vec::new();
        let n = app_state.allocations.len();
        let mut i: usize = 0;
        while i < n
            invariant
                n == app_state.allocations@.len(),
                i <= n,
                new_notes@ =~= genesis_notes(app_state.allocations@).take(i as int),
                genesis_block.new_assets@ =~= Seq::new(
                    i as nat,
                    |k: int| (app_state.allocations@[k].asset_id, app_state.allocations@[k].denom),
                ),
                genesis_block.note_commitment_tree.leaves@.len() == 0,
                genesis_block.notes@.len() == 0,
                genesis_block.spent_nullifiers@.len() == 0,
                genesis_block.height == Some(0u64),
                genesis_block.epoch_duration == app_state.epoch_duration,
            decreases n - i,
        {
            let a = &app_state.allocations[i];
            new_notes.push((a.note_commitment, a.encrypted_note));
            genesis_block.new_assets.push((a.asset_id, a.denom.clone()));
            i = i + 1;
        }
        assert(genesis_notes(app_state.allocations@).take(n as int) =~= genesis_notes(app_state.allocations@));
        let ghost new_notes_all = new_notes@;
        genesis_block.add_transaction(VerifiedTransaction { new_notes, spent_nullifiers: Vec::new() });
        assert(genesis_block.note_commitment_tree.leaves@ =~= Seq::new(
            app_state.allocations@.len(),
            |k: int| app_state.allocations@[k].note_commitment,
        ));
        assert(new_notes_all =~= genesis_notes(app_state.allocations@));
        assert(genesis_block.notes@ =~= positioned(genesis_notes(app_state.allocations@), 0));
        assert(with_height(genesis_block.spent_nullifiers@, 0) =~= Seq::<(Nullifier, u64)>::empty());
        let ghost before_commit = self.state.nullifiers@;
        self.pending_block = Some(genesis_block);
        let app_hash = self.commit();
        assert(self.state.nullifiers@ =~= before_commit);
        let validators = validator_set(&app_state.validators);
        self.state.chain_id = chain_id;
        self.state.validators = copy_validators(&validators);
        proof {
            let a = *old(self);
            let b = *self;
            assert(b.state.notes@ == a.state.notes@ + positioned(genesis_notes(app_state.allocations@), 0));
            assert(b.state.blocks@ == a.state.blocks@.push(BlockRow { height: 0, app_hash: app_hash }));
            assert(b.state.nullifiers@ == a.state.nullifiers@);
            assert(b.state.assets@ == a.state.assets@ + Seq::new(
                app_state.allocations@.len(),
                |k: int| (app_state.allocations@[k].asset_id, app_state.allocations@[k].denom),
            ));
            assert(b.recent_anchors@ == push_anchor(a.recent_anchors@, app_hash));
        }
        (app_hash, validators)
    }
}

/// One commit's effect on the anchor window: the new root comes first, the
/// others follow in order, and only the oldest leaves, once the window is full.
pub proof fn lemma_anchor_push(anchors: Seq<Root>, root: Root)
    requires
        anchors.len() <= NUM_RECENT_ANCHORS,
    ensures
        push_anchor(anchors, root).len() == if anchors.len() + 1 < NUM_RECENT_ANCHORS {
            (anchors.len() + 1) as int
        } else {
            NUM_RECENT_ANCHORS as int
        },
        push_anchor(anchors, root)[0] == root,
        forall|i: int|
            0 < i < push_anchor(anchors, root).len() ==> #[trigger] push_anchor(anchors, root)[i]
                == anchors[i - 1],
{
}

/// `anchors` after each of `roots` is pushed in turn.
pub open spec fn push_anchors(anchors: Seq<Root>, roots: Seq<Root>) -> Seq<Root>
    decreases roots.len(),
{
    if roots.len() == 0 {
        anchors
    } else {
        push_anchor(push_anchors(anchors, roots.drop_last()), roots.last())
    }
}

/// Anchor window: after a run of commits whose roots are `roots`, the window
/// holds `min(before + commits, 64)` anchors, the newest first.
pub proof fn lemma_anchor_window(anchors: Seq<Root>, roots: Seq<Root>)
    requires
        anchors.len() <= NUM_RECENT_ANCHORS,
    ensures
        push_anchors(anchors, roots).len() == if anchors.len() + roots.len() < NUM_RECENT_ANCHORS {
            (anchors.len() + roots.len()) as int
        } else {
            NUM_RECENT_ANCHORS as int
        },
        forall|k: int|
            0 <= k < roots.len() && k < NUM_RECENT_ANCHORS ==> #[trigger] push_anchors(anchors, roots)[k]
                == roots[roots.len() - 1 - k],
    decreases roots.len(),
{
    if roots.len() > 0 {
        let prev = roots.drop_last();
        lemma_anchor_window(anchors, prev);
        let p = push_anchors(anchors, prev);
        assert forall|k: int|
            0 <= k < roots.len() && k < NUM_RECENT_ANCHORS implies #[trigger] push_anchors(anchors, roots)[k]
                == roots[roots.len() - 1 - k] by {
            if k > 0 {
                assert(p[k - 1] == prev[prev.len() - 1 - (k - 1)]);
            }
        }
    }
}

/// Non-replay within a block: once a transaction's nullifiers join the
/// block's spent set, any transaction revealing one of them conflicts.
pub proof fn lemma_replay_in_block(spent: Seq<Nullifier>, nfs1: Seq<Nullifier>, nfs2: Seq<Nullifier>, nf: Nullifier)
    requires
        nfs1.contains(nf),
        nfs2.contains(nf),
    ensures
        block_conflict(spent + nfs1, nfs2),
{
    let k = choose|k: int| 0 <= k < nfs2.len() && nfs2[k] == nf;
    let j = choose|j: int| 0 <= j < nfs1.len() && nfs1[j] == nf;
    assert((spent + nfs1)[spent.len() + j] == nf);
    assert(nfs2[k] == nf);
}

/// Non-replay across blocks: once a block revealing a nullifier is
/// committed, whatever else is committed later, any transaction revealing
/// it conflicts with the committed set.
pub proof fn lemma_replay_across_blocks(
    committed: Seq<(Nullifier, u64)>,
    spent: Seq<Nullifier>,
    height: u64,
    later: Seq<(Nullifier, u64)>,
    nfs2: Seq<Nullifier>,
    nf: Nullifier,
)
    requires
        spent.contains(nf),
        nfs2.contains(nf),
    ensures
        db_conflict(committed + with_height(spent, height) + later, nfs2),
{
    let k = choose|k: int| 0 <= k < nfs2.len() && nfs2[k] == nf;
    let j = choose|j: int| 0 <= j < spent.len() && spent[j] == nf;
    let all = committed + with_height(spent, height) + later;
    assert(all[committed.len() + j].0 == nf);
    assert(has_nullifier(all, nfs2[k]));
}

/// Non-replay in the mempool: once a new transaction's nullifiers are
/// reserved, a new transaction revealing one of them conflicts.
pub proof fn lemma_replay_in_mempool(mempool: Seq<Nullifier>, nfs1: Seq<Nullifier>, nfs2: Seq<Nullifier>, nf: Nullifier)
    requires
        nfs1.contains(nf),
        nfs2.contains(nf),
    ensures
        mempool_conflict(mempool + nfs1, nfs2),
{
    let k = choose|k: int| 0 <= k < nfs2.len() && nfs2[k] == nf;
    let j = choose|j: int| 0 <= j < nfs1.len() && nfs1[j] == nf;
    assert((mempool + nfs1)[mempool.len() + j] == nf);
    assert((mempool + nfs1).contains(nfs2[k]));
}

/// The commitments of the new notes of the transactions whose delivery
/// succeeded, in order of delivery.
pub open spec fn block_commitments(txs: Seq<Transaction>, rs: Seq<Result<(), VerifyError>>) -> Seq<
    NoteCommitment,
>
    decreases txs.len(),
{
    if txs.len() == 0 || rs.len() != txs.len() {
        Seq::empty()
    } else {
        block_commitments(txs.drop_last(), rs.drop_last()) + if rs.last() is Ok {
            commitments(notes_of(txs.last().transaction_body.actions@))
        } else {
            Seq::empty()
        }
    }
}

/// Tree append order: over a run of deliveries within a block, the pending
/// tree grows by the new-note commitments of exactly the deliveries that
/// succeeded, in the order they arrived.
pub proof fn lemma_tree_append_order(apps: Seq<App>, txs: Seq<Transaction>, rs: Seq<Result<(), VerifyError>>)
    requires
        apps.len() == txs.len() + 1,
        rs.len() == txs.len(),
        apps[0].pending_block is Some,
        forall|k: int| 0 <= k < txs.len() ==> #[trigger] delivered(apps[k], apps[k + 1], txs[k], rs[k]),
    ensures
        apps.last().pending_block is Some,
        apps.last().pending_block->0.note_commitment_tree.leaves@
            == apps[0].pending_block->0.note_commitment_tree.leaves@ + block_commitments(txs, rs),
    decreases txs.len(),
{
    if txs.len() == 0 {
        assert(apps[0].pending_block->0.note_commitment_tree.leaves@ + block_commitments(txs, rs)
            =~= apps[0].pending_block->0.note_commitment_tree.leaves@);
    } else {
        let m = txs.len() - 1;
        let prev = apps.drop_last();
        assert forall|k: int| 0 <= k < txs.drop_last().len() implies #[trigger] delivered(
            prev[k],
            prev[k + 1],
            txs.drop_last()[k],
            rs.drop_last()[k],
        ) by {
            assert(delivered(apps[k], apps[k + 1], txs[k], rs[k]));
        }
        lemma_tree_append_order(prev, txs.drop_last(), rs.drop_last());
        assert(delivered(apps[m], apps[m + 1], txs[m], rs[m]));
        assert(prev.last() == apps[m]);
        let base = apps[0].pending_block->0.note_commitment_tree.leaves@;
        let earlier = block_commitments(txs.drop_last(), rs.drop_last());
        if rs[m] is Ok {
            assert(base + block_commitments(txs, rs) =~= base + earlier + commitments(
                notes_of(txs[m].transaction_body.actions@),
            ));
        } else {
            assert(base + block_commitments(txs, rs) =~= base + earlier);
        }
    }
}

} // verus!
