use vstd::prelude::*;
use crate::app::{AppState, CheckTxKind};
use crate::digest::{hex_encode, hex_of, sha256, sha256_of};

verus! {

/// A request from the consensus engine, with the fields the context records.
pub enum Request {
    Info,
    Query { path: String, height: u64, prove: bool },
    CheckTx { kind: CheckTxKind, tx: Vec<u8> },
    BeginBlock { height: u64, hash: Vec<u8> },
    DeliverTx { tx: Vec<u8> },
    EndBlock { height: u64 },
    Commit,
    InitChain { chain_id: String, app_state: AppState },
    Flush,
    Echo,
    ListSnapshots,
    OfferSnapshot,
    LoadSnapshotChunk,
    ApplySnapshotChunk,
}

/// The context of one request: its name and what identifies it.
pub struct RequestSpan {
    /// The span all requests share.
    pub parent: &'static str,
    pub name: &'static str,
    /// Hex of the SHA-256 digest of the transaction, for transaction requests.
    pub txid: Option<String>,
    /// Hex of the block hash, for the start of a block.
    pub hash: Option<String>,
    pub height: Option<u64>,
}

/// The name of a request.
pub open spec fn request_name(r: &Request) -> Seq<char> {
    match r {
        Request::Info => "Info"@,
        Request::Query { .. } => "Query"@,
        Request::CheckTx { .. } => "CheckTx"@,
        Request::BeginBlock { .. } => "BeginBlock"@,
        Request::DeliverTx { .. } => "DeliverTx"@,
        Request::EndBlock { .. } => "EndBlock"@,
        Request::Commit => "Commit"@,
        Request::InitChain { .. } => "InitChain"@,
        Request::Flush => "Flush"@,
        Request::Echo => "Echo"@,
        Request::ListSnapshots => "ListSnapshots"@,
        Request::OfferSnapshot => "OfferSnapshot"@,
        Request::LoadSnapshotChunk => "LoadSnapshotChunk"@,
        Request::ApplySnapshotChunk => "ApplySnapshotChunk"@,
    }
}

/// The context of `req`: under the shared parent, its name, the transaction id of a
/// transaction request, the hash and height of a new block, the height of a
/// query or of the end of a block.
pub open spec fn span_of(req: &Request, r: &RequestSpan) -> bool {
    &&& r.parent@ == "abci"@
    &&& r.name@ == request_name(req)
    &&& match req {
        Request::CheckTx { tx, .. } => r.txid is Some && r.txid->0@ == hex_of(sha256_of(tx@)),
        Request::DeliverTx { tx } => r.txid is Some && r.txid->0@ == hex_of(sha256_of(tx@)),
        _ => r.txid is None,
    }
    &&& match req {
        Request::BeginBlock { hash, .. } => r.hash is Some && r.hash->0@ == hex_of(hash@),
        _ => r.hash is None,
    }
    &&& match req {
        Request::Query { height, .. } => r.height == Some(*height),
        Request::BeginBlock { height, .. } => r.height == Some(*height),
        Request::EndBlock { height } => r.height == Some(*height),
        _ => r.height is None,
    }
}

/// Builds the context of a request.
pub trait RequestExt {
    fn create_span(&self) -> RequestSpan;
}

/// Hex of the SHA-256 digest of a transaction.
pub fn txid(tx: &Vec<u8>) -> (r: String)
    ensures
        r@ == hex_of(sha256_of(tx@)),
{
    let d = sha256(tx.as_slice());
    hex_encode(d.as_slice())
}

impl Request {
    /// The name of the request.
    pub fn name(&self) -> (r: &'static str)
        ensures
            r@ == request_name(self),
    {
        match self {
            Request::Info => "Info",
            Request::Query { .. } => "Query",
            Request::CheckTx { .. } => "CheckTx",
            Request::BeginBlock { .. } => "BeginBlock",
            Request::DeliverTx { .. } => "DeliverTx",
            Request::EndBlock { .. } => "EndBlock",
            Request::Commit => "Commit",
            Request::InitChain { .. } => "InitChain",
            Request::Flush => "Flush",
            Request::Echo => "Echo",
            Request::ListSnapshots => "ListSnapshots",
            Request::OfferSnapshot => "OfferSnapshot",
            Request::LoadSnapshotChunk => "LoadSnapshotChunk",
            Request::ApplySnapshotChunk => "ApplySnapshotChunk",
        }
    }

    /// The context of this request: its name, the transaction id of a
    /// transaction request, the hash and height of a new block, the height
    /// of a query or of the end of a block.
    pub fn span(&self) -> (r: RequestSpan)
        ensures
            span_of(self, &r),
    {
        let name = self.name();
        proof {
            reveal_strlit("abci");
        }
        match self {
            Request::CheckTx { tx, .. } => RequestSpan { parent: "abci", name, txid: Some(txid(tx)), hash: None, height: None },
            Request::DeliverTx { tx } => RequestSpan { parent: "abci", name, txid: Some(txid(tx)), hash: None, height: None },
            Request::BeginBlock { height, hash } => RequestSpan {
                parent: "abci",
                name,
                txid: None,
                hash: Some(hex_encode(hash.as_slice())),
                height: Some(*height),
            },
            Request::Query { height, .. } => RequestSpan { parent: "abci", name, txid: None, hash: None, height: Some(*height) },
            Request::EndBlock { height } => RequestSpan { parent: "abci", name, txid: None, hash: None, height: Some(*height) },
            _ => RequestSpan { parent: "abci", name, txid: None, hash: None, height: None },
        }
    }
}

impl RequestExt for Request {
    fn create_span(&self) -> (r: RequestSpan)
        ensures
            span_of(self, &r),
    {
        self.span()
    }
}

} // verus!
