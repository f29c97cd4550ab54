use penumbra_node::app::{Allocation, App, AppState, CheckTxKind, Response};
use penumbra_node::builder::{Builder, Error, Note, OutputInputs, SpendInputs, UnsignedTransaction};
use penumbra_node::epoch::Epoch;
use penumbra_node::note::Value;
use penumbra_node::pending_block::PositionedNoteData;
use penumbra_node::request_ext::{Request, RequestExt};
use penumbra_node::state::State;
use penumbra_node::transaction::{Action, Transaction};
use penumbra_node::verify::VerifyError;
use penumbra_node::validator::Validator;
use penumbra_node::wallet::WalletApp;
use penumbra_node::wire::DecodeError;

const UPENUMBRA: u64 = 0;
const ADDRESS_A: u64 = 1;
const ADDRESS_B: u64 = 2;
const GENESIS_NOTE: u64 = 1001;
const GENESIS_NULLIFIER: u64 = 5001;

fn genesis_state() -> AppState {
    AppState {
        allocations: vec![Allocation {
            amount: 1_000_000,
            denom: "upenumbra".to_string(),
            address: ADDRESS_A,
            asset_id: UPENUMBRA,
            note_commitment: GENESIS_NOTE,
            encrypted_note: 77,
        }],
        validators: vec![
            Validator { pub_key: 9, voting_power: 5 },
            Validator { pub_key: 3, voting_power: 7 },
            Validator { pub_key: 9, voting_power: 6 },
        ],
        epoch_duration: 10,
    }
}

fn genesis_app() -> App {
    let mut app = App::new(State::new(10, UPENUMBRA));
    app.init_genesis("penumbra-test".to_string(), &genesis_state());
    app
}

fn output_inputs(cm: u64) -> OutputInputs {
    OutputInputs {
        note_commitment: cm,
        ephemeral_key: cm + 1,
        encrypted_note: cm + 2,
        encrypted_memo: cm + 3,
        ovk_wrapped_key: cm + 4,
    }
}

fn spend_genesis_note(anchor: u64) -> Builder {
    Builder::new(anchor, UPENUMBRA).add_spend(
        5,
        SpendInputs {
            note: Note::generate(ADDRESS_A, Value { amount: 1_000_000, asset_id: UPENUMBRA }, 9),
            nullifier: GENESIS_NULLIFIER,
            rsk: 11,
            rk: 12,
            proof: 13,
        },
    )
}

fn send_builder(anchor: u64) -> Builder {
    spend_genesis_note(anchor)
        .add_output(
            Note::generate(ADDRESS_B, Value { amount: 500_000, asset_id: UPENUMBRA }, 21),
            3,
            output_inputs(2001),
        )
        .add_output(
            Note::generate(ADDRESS_A, Value { amount: 499_900, asset_id: UPENUMBRA }, 22),
            2,
            output_inputs(2002),
        )
        .set_fee(100)
        .set_chain_id("penumbra-test".to_string())
}

fn sign(u: UnsignedTransaction) -> Transaction {
    let sigs: Vec<u64> = u.spends.iter().map(|s| s.0 + 1000).collect();
    u.authorize(&sigs, 55)
}

fn send_tx(anchor: u64) -> Transaction {
    sign(send_builder(anchor).finalize(&vec![7], &vec![3, 4]).unwrap())
}

fn filler_tx(anchor: u64, cm: u64) -> Transaction {
    let u = Builder::new(anchor, UPENUMBRA)
        .add_output(Note::generate(ADDRESS_B, Value { amount: 0, asset_id: UPENUMBRA }, cm), 0, output_inputs(cm))
        .set_fee(0)
        .set_chain_id("penumbra-test".to_string())
        .finalize(&vec![], &vec![])
        .unwrap();
    sign(u)
}

fn run_block(app: &mut App, height: u64, txs: &[Transaction]) -> u64 {
    app.begin_block();
    for tx in txs {
        app.deliver_tx(tx).unwrap();
    }
    app.end_block(height);
    app.commit()
}

#[test]
fn genesis_allocation_committed() {
    let app = genesis_app();
    let (height, app_hash) = app.info();
    assert_eq!(height, 0);
    assert_ne!(app_hash, 0);
    assert_eq!(app.state.notes[0], (GENESIS_NOTE, PositionedNoteData { position: 0, data: 77 }));
    assert_eq!(app.note_commitment_tree.leaves, vec![GENESIS_NOTE]);
    assert_eq!(app.recent_anchors.len(), 1);
    assert_eq!(app.state.assets, vec![(UPENUMBRA, "upenumbra".to_string())]);
    assert_eq!(app.fee_asset, UPENUMBRA);
    assert_eq!(app.state.chain_id, "penumbra-test");
    assert_eq!(app.state.validators.len(), 2);
    assert_eq!(app.state.blocks.len(), 1);
    assert_eq!(app.state.blocks[0].app_hash, app_hash);
}

#[test]
fn info_before_genesis() {
    let app = App::new(State::new(10, UPENUMBRA));
    assert_eq!(app.info(), (0, 0));
}

#[test]
fn send_is_delivered_and_committed() {
    let mut app = genesis_app();
    let anchor = app.recent_anchors[0];
    let tx_bytes = send_tx(anchor).to_bytes();
    app.begin_block();
    assert_eq!(app.deliver_tx_bytes(&tx_bytes), Ok(()));
    assert!(!app.end_block(1));
    app.commit();
    assert_eq!(app.state.nullifier(GENESIS_NULLIFIER), Some(1));
    let leaves = &app.note_commitment_tree.leaves;
    assert_eq!(leaves.len(), 3);
    assert_eq!(leaves[0], GENESIS_NOTE);
    assert!(leaves[1..].contains(&2001));
    assert!(leaves[1..].contains(&2002));
    assert_eq!(app.info().0, 1);
}

#[test]
fn double_spend_in_mempool() {
    let mut app = genesis_app();
    let anchor = app.recent_anchors[0];
    let first = send_tx(anchor);
    let second = sign(
        spend_genesis_note(anchor)
            .add_output(
                Note::generate(ADDRESS_B, Value { amount: 999_000, asset_id: UPENUMBRA }, 31),
                4,
                output_inputs(3001),
            )
            .set_fee(1000)
            .set_chain_id("penumbra-test".to_string())
            .finalize(&vec![], &vec![])
            .unwrap(),
    );
    assert_eq!(app.check_tx(&first, CheckTxKind::New), Ok(()));
    assert_eq!(app.mempool_nullifiers, vec![GENESIS_NULLIFIER]);
    let err = app.check_tx(&second, CheckTxKind::New).unwrap_err();
    assert_eq!(err, VerifyError::NullifierInMempool(GENESIS_NULLIFIER));
    assert!(err.log().contains("already present in mempool"));
    assert_eq!(app.check_tx(&first, CheckTxKind::Recheck), Ok(()));
}

#[test]
fn mempool_nullifier_evicted_on_commit() {
    let mut app = genesis_app();
    let anchor = app.recent_anchors[0];
    let tx = send_tx(anchor);
    assert_eq!(app.check_tx(&tx, CheckTxKind::New), Ok(()));
    run_block(&mut app, 1, &[tx]);
    assert!(app.mempool_nullifiers.is_empty());
}

#[test]
fn double_spend_across_blocks() {
    let mut app = genesis_app();
    let anchor = app.recent_anchors[0];
    run_block(&mut app, 1, &[send_tx(anchor)]);
    app.begin_block();
    let err = app.deliver_tx(&send_tx(anchor)).unwrap_err();
    assert_eq!(err, VerifyError::NullifierInDatabase(GENESIS_NULLIFIER));
    let pending = app.pending_block.as_ref().unwrap();
    assert!(pending.spent_nullifiers.is_empty());
    assert_eq!(pending.note_commitment_tree.leaves.len(), 3);
    assert!(pending.notes.is_empty());
}

#[test]
fn double_spend_in_one_block() {
    let mut app = genesis_app();
    let anchor = app.recent_anchors[0];
    app.begin_block();
    assert_eq!(app.deliver_tx(&send_tx(anchor)), Ok(()));
    let err = app.deliver_tx(&send_tx(anchor)).unwrap_err();
    assert_eq!(err, VerifyError::NullifierSpentInBlock(GENESIS_NULLIFIER));
    assert!(err.log().contains("already spent in this block"));
}

#[test]
fn stale_anchor_rejected() {
    let mut app = genesis_app();
    let genesis_anchor = app.recent_anchors[0];
    for h in 1..=65u64 {
        let anchor = app.recent_anchors[0];
        run_block(&mut app, h, &[filler_tx(anchor, 10_000 + h)]);
    }
    assert!(!app.recent_anchors.contains(&genesis_anchor));
    let tx = send_tx(genesis_anchor);
    app.begin_block();
    let err = app.deliver_tx(&tx).unwrap_err();
    assert_eq!(err, VerifyError::UnknownAnchor);
    assert!(err.log().contains("unknown anchor"));
    assert_eq!(app.check_tx(&tx, CheckTxKind::New), Err(VerifyError::UnknownAnchor));
}

#[test]
fn anchor_window_is_bounded_and_newest_first() {
    let mut app = genesis_app();
    assert_eq!(app.recent_anchors.len(), 1);
    let mut roots = vec![app.recent_anchors[0]];
    for h in 1..=70u64 {
        let anchor = app.recent_anchors[0];
        let root = run_block(&mut app, h, &[filler_tx(anchor, 20_000 + h)]);
        roots.push(root);
        let expected = std::cmp::min(h as usize + 1, 64);
        assert_eq!(app.recent_anchors.len(), expected);
        assert_eq!(app.recent_anchors[0], root);
    }
    let newest: Vec<u64> = roots.iter().rev().take(64).cloned().collect();
    assert_eq!(app.recent_anchors, newest);
}

#[test]
fn unbalanced_builder_fails() {
    let x = 7u64;
    let r = Builder::new(0, UPENUMBRA)
        .add_spend(
            1,
            SpendInputs {
                note: Note::generate(ADDRESS_A, Value { amount: 100, asset_id: x }, 1),
                nullifier: 1,
                rsk: 2,
                rk: 3,
                proof: 4,
            },
        )
        .add_output(Note::generate(ADDRESS_B, Value { amount: 99, asset_id: x }, 2), 1, output_inputs(50))
        .set_fee(0)
        .set_chain_id("penumbra-test".to_string())
        .finalize(&vec![], &vec![]);
    assert_eq!(r.err(), Some(Error::NonZeroValueBalance));
}

#[test]
fn builder_needs_chain_id_then_fee() {
    let r = send_builder(0);
    let no_chain = Builder::new(0, UPENUMBRA).set_fee(0).finalize(&vec![], &vec![]);
    assert_eq!(no_chain.err(), Some(Error::NoChainID));
    let no_fee = Builder::new(0, UPENUMBRA).set_chain_id("c".to_string()).finalize(&vec![], &vec![]);
    assert_eq!(no_fee.err(), Some(Error::FeeNotSet));
    assert!(r.finalize(&vec![], &vec![]).is_ok());
}

#[test]
fn synthetic_blinding_sums_blindings() {
    let b = send_builder(0);
    // 5 from the spend, less 3 and 2 from the outputs.
    assert_eq!(b.synthetic_blinding_factor, 0);
    let b = Builder::new(0, UPENUMBRA).add_output(
        Note::generate(ADDRESS_B, Value { amount: 1, asset_id: UPENUMBRA }, 1),
        1,
        output_inputs(1),
    );
    assert_eq!(b.synthetic_blinding_factor, u64::MAX);
}

#[test]
fn spends_precede_outputs_and_are_shuffled() {
    let mut b = Builder::new(0, UPENUMBRA);
    for i in 0..3u64 {
        b = b.add_spend(
            0,
            SpendInputs {
                note: Note::generate(ADDRESS_A, Value { amount: 10, asset_id: UPENUMBRA }, i),
                nullifier: 100 + i,
                rsk: i,
                rk: i,
                proof: i,
            },
        );
    }
    for i in 0..3u64 {
        b = b.add_output(Note::generate(ADDRESS_B, Value { amount: 10, asset_id: UPENUMBRA }, i), 0, output_inputs(200 + i));
    }
    let u = b.set_fee(0).set_chain_id("c".to_string()).finalize(&vec![0, 0, 0], &vec![0, 1, 0]).unwrap();
    let actions = &u.transaction_body.actions;
    assert_eq!(actions.len(), 6);
    // Spends: step 1 swaps 0 and 1, step 2 swaps 2 and 0.
    let nullifiers: Vec<u64> = actions[..3]
        .iter()
        .map(|a| match a {
            Action::Spend(s) => s.body.nullifier,
            Action::Output(_) => panic!("spend expected"),
        })
        .collect();
    assert_eq!(nullifiers, vec![102, 100, 101]);
    // Outputs: step 1 keeps the order (1 % 2 = 1), step 2 swaps 2 and 0.
    let cms: Vec<u64> = actions[3..]
        .iter()
        .map(|a| match a {
            Action::Output(o) => o.body.note_commitment,
            Action::Spend(_) => panic!("output expected"),
        })
        .collect();
    assert_eq!(cms, vec![202, 201, 200]);
}

#[test]
fn sighash_ignores_auth_sigs() {
    let u = send_builder(0).finalize(&vec![], &vec![]).unwrap();
    let unsigned = u.sighash.clone();
    assert_eq!(unsigned.len(), 64);
    let tx = sign(u);
    match tx.transaction_body.actions[0] {
        Action::Spend(s) => assert_eq!(s.auth_sig, 1011),
        Action::Output(_) => panic!("spend expected"),
    }
    assert_eq!(tx.transaction_body.sighash(), unsigned);
}

#[test]
fn sighash_covers_the_fee() {
    let a = send_builder(0).finalize(&vec![], &vec![]).unwrap();
    let mut tx = sign(a);
    let before = tx.transaction_body.sighash();
    tx.transaction_body.fee = 101;
    assert_ne!(tx.transaction_body.sighash(), before);
}

#[test]
fn body_encoding_layout() {
    let u = Builder::new(0x0103, UPENUMBRA)
        .set_fee(0)
        .set_expiry_height(5)
        .set_chain_id("ab".to_string())
        .finalize(&vec![], &vec![])
        .unwrap();
    let bytes = u.transaction_body.encode();
    let mut expected = vec![0u8; 8];
    expected.extend_from_slice(&[3, 1, 0, 0, 0, 0, 0, 0]);
    expected.extend_from_slice(&[5, 0, 0, 0, 0, 0, 0, 0]);
    expected.extend_from_slice(&[2, 0, 0, 0, 0, 0, 0, 0]);
    expected.extend_from_slice(b"ab");
    expected.extend_from_slice(&[0; 8]);
    assert_eq!(bytes, expected);
}

#[test]
fn unbalanced_transaction_rejected_by_verification() {
    let mut app = genesis_app();
    let anchor = app.recent_anchors[0];
    let mut tx = send_tx(anchor);
    tx.transaction_body.fee = 99;
    assert_eq!(app.check_tx(&tx, CheckTxKind::New), Err(VerifyError::ValueBalanceMismatch));
    assert!(app.mempool_nullifiers.is_empty());
}

#[test]
fn epoch_derivation() {
    let e = Epoch::from_blockheight(25, 10);
    assert_eq!(e.index, 2);
    assert_eq!(e.start_height(), 20);
    assert_eq!(Epoch::from_blockheight(0, 1).start_height(), 0);
    let mut app = genesis_app();
    app.begin_block();
    assert!(app.end_block(20));
    assert_eq!(app.pending_block.as_ref().unwrap().epoch, Some(Epoch { index: 2, duration: 10 }));
}

#[test]
fn request_span_txid() {
    let span = Request::DeliverTx { tx: b"abc".to_vec() }.create_span();
    assert_eq!(span.parent, "abci");
    assert_eq!(span.name, "DeliverTx");
    assert_eq!(
        span.txid.as_deref(),
        Some("ba7816bf8f01cfea414140de5dae2223b00361a396177a9cb410ff61f20015ad")
    );
    let span = Request::BeginBlock { height: 4, hash: vec![0xab, 0x01] }.create_span();
    assert_eq!(span.hash.as_deref(), Some("ab01"));
    assert_eq!(span.height, Some(4));
    assert_eq!(Request::Commit.create_span().name, "Commit");
}

#[test]
fn wallet_block_range() {
    let mut app = genesis_app();
    for h in 1..=3u64 {
        let anchor = app.recent_anchors[0];
        run_block(&mut app, h, &[filler_tx(anchor, 30_000 + h)]);
    }
    let wallet = WalletApp::new(app.state);
    assert_eq!(wallet.end_height(0), 3);
    assert_eq!(wallet.end_height(2), 2);
    assert_eq!(wallet.end_height(9), 3);
    let heights: Vec<u64> = wallet.compact_block_range(1, 0).iter().map(|b| b.height).collect();
    assert_eq!(heights, vec![1, 2, 3]);
    assert_eq!(wallet.asset_lookup(UPENUMBRA), Some("upenumbra".to_string()));
    assert_eq!(wallet.asset_lookup(5), None);
}

#[test]
fn wire_round_trip() {
    let tx = send_tx(42);
    let bytes = tx.to_bytes();
    assert_eq!(bytes.len(), 8 + 3 * 65 + 24 + "penumbra-test".len() + 16);
    let back = Transaction::decode(&bytes).unwrap();
    assert_eq!(back.transaction_body.actions, tx.transaction_body.actions);
    assert_eq!(back.transaction_body.merkle_root, 42);
    assert_eq!(back.transaction_body.chain_id, "penumbra-test");
    assert_eq!(back.transaction_body.fee, 100);
    assert_eq!(back.binding_sig, 55);
    assert_eq!(back.to_bytes(), bytes);
}

#[test]
fn wire_decode_errors() {
    let bytes = send_tx(42).to_bytes();
    assert_eq!(Transaction::decode(&bytes[..5]).err(), Some(DecodeError::Truncated));
    assert_eq!(Transaction::decode(&bytes[..bytes.len() - 1]).err(), Some(DecodeError::Truncated));
    let mut longer = bytes.clone();
    longer.push(0);
    assert_eq!(Transaction::decode(&longer).err(), Some(DecodeError::TrailingBytes));
    let mut bad_tag = bytes.clone();
    bad_tag[8] = 2;
    assert_eq!(Transaction::decode(&bad_tag).err(), Some(DecodeError::UnknownActionTag));
    let chain_at = 8 + 3 * 65 + 24;
    let mut bad_chain = bytes.clone();
    bad_chain[chain_at] = 0xff;
    assert_eq!(Transaction::decode(&bad_chain).err(), Some(DecodeError::InvalidChainId));
    let mut bad_expiry = bytes.clone();
    bad_expiry[8 + 3 * 65 + 8 + 4] = 1;
    assert_eq!(Transaction::decode(&bad_expiry).err(), Some(DecodeError::InvalidExpiryHeight));
}

#[test]
fn malformed_bytes_leave_state_alone() {
    let mut app = genesis_app();
    let err = app.check_tx_bytes(&[1, 2, 3], CheckTxKind::New).unwrap_err();
    assert_eq!(err, VerifyError::Malformed(DecodeError::Truncated));
    assert_eq!(err.log(), "malformed transaction");
    assert!(app.mempool_nullifiers.is_empty());
    let anchor = app.recent_anchors[0];
    let bytes = send_tx(anchor).to_bytes();
    assert_eq!(app.check_tx_bytes(&bytes, CheckTxKind::New), Ok(()));
    assert_eq!(
        app.check_tx_bytes(&bytes, CheckTxKind::New),
        Err(VerifyError::NullifierInMempool(GENESIS_NULLIFIER))
    );
}

#[test]
fn binding_key_is_synthetic_blinding() {
    let b = send_builder(0);
    assert!(b.is_balanced());
    assert_eq!(b.compute_binding_sig(), 0);
    let b = spend_genesis_note(0).set_fee(0);
    assert!(!b.is_balanced());
    let b = spend_genesis_note(0).set_fee(1_000_000);
    assert!(b.is_balanced());
    assert_eq!(b.compute_binding_sig(), 5);
}

#[test]
fn requests_through_call() {
    let mut app = App::new(State::new(10, UPENUMBRA));
    let genesis = app.call(Request::InitChain { chain_id: "penumbra-test".to_string(), app_state: genesis_state() });
    let genesis_hash = match genesis {
        Response::InitChain { app_hash, validators } => {
            assert_eq!(
                validators,
                vec![Validator { pub_key: 3, voting_power: 7 }, Validator { pub_key: 9, voting_power: 6 }]
            );
            app_hash
        }
        _ => panic!("init chain response expected"),
    };
    match app.call(Request::Info) {
        Response::Info { data, app_version, last_block_height, last_block_app_hash } => {
            assert_eq!(data, "penumbra");
            assert_eq!(app_version, 1);
            assert_eq!(last_block_height, 0);
            assert_eq!(last_block_app_hash, genesis_hash);
        }
        _ => panic!("info response expected"),
    }
    let tx = send_tx(app.recent_anchors[0]).to_bytes();
    match app.call(Request::CheckTx { kind: CheckTxKind::New, tx: tx.clone() }) {
        Response::CheckTx { code, log } => {
            assert_eq!(code, 0);
            assert_eq!(log, "");
        }
        _ => panic!("check response expected"),
    }
    match app.call(Request::CheckTx { kind: CheckTxKind::New, tx: tx.clone() }) {
        Response::CheckTx { code, log } => {
            assert_eq!(code, 1);
            assert!(log.contains("already present in mempool"));
        }
        _ => panic!("check response expected"),
    }
    assert!(matches!(app.call(Request::BeginBlock { height: 1, hash: vec![1] }), Response::BeginBlock));
    match app.call(Request::DeliverTx { tx }) {
        Response::DeliverTx { code, .. } => assert_eq!(code, 0),
        _ => panic!("deliver response expected"),
    }
    match app.call(Request::DeliverTx { tx: vec![9, 9] }) {
        Response::DeliverTx { code, log } => {
            assert_eq!(code, 1);
            assert_eq!(log, "malformed transaction");
        }
        _ => panic!("deliver response expected"),
    }
    assert!(matches!(app.call(Request::EndBlock { height: 1 }), Response::EndBlock));
    match app.call(Request::Commit) {
        Response::Commit { data, retain_height } => {
            assert_eq!(retain_height, 0);
            assert_eq!(data, app.state.app_hash());
            assert_ne!(data, genesis_hash);
        }
        _ => panic!("commit response expected"),
    }
    assert!(app.mempool_nullifiers.is_empty());
    assert!(matches!(app.call(Request::Flush), Response::Flush));
}
