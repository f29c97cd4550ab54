use vstd::prelude::*;
use vstd::utf8::{decode_utf8, encode_utf8, valid_utf8};
use crate::note::{Value, ValueCommitment};
use crate::le::{push_u64, u64_le};
use crate::transaction::{
    enc_action, encode_action, Action, Output, OutputBody, Spend, SpendBody,
    Transaction, TransactionBody,
};

verus! {

broadcast use crate::le::lemma_u64_le_len;

/// Relies on String::from_utf8: it succeeds exactly on valid UTF-8, with the
/// string those bytes encode.
#[verifier::external_body]
fn string_from_utf8(b: Vec<u8>) -> (r: Option<String>)
    ensures
        r is Some <==> valid_utf8(b@),
        r is Some ==> r->0@ == decode_utf8(b@),
{
    String::from_utf8(b).ok()
}

proof fn lemma_le_bytes(b0: u8, b1: u8, b2: u8, b3: u8, b4: u8, b5: u8, b6: u8, b7: u8, x: u64)
    by (bit_vector)
    requires
        x == (b0 as u64) | ((b1 as u64) << 8u64) | ((b2 as u64) << 16u64) | ((b3 as u64) << 24u64)
            | ((b4 as u64) << 32u64) | ((b5 as u64) << 40u64) | ((b6 as u64) << 48u64) | ((b7 as u64)
            << 56u64),
    ensures
        x % 0x100 == b0 as u64,
        (x / 0x100) % 0x100 == b1 as u64,
        (x / 0x1_0000) % 0x100 == b2 as u64,
        (x / 0x100_0000) % 0x100 == b3 as u64,
        (x / 0x1_0000_0000) % 0x100 == b4 as u64,
        (x / 0x100_0000_0000) % 0x100 == b5 as u64,
        (x / 0x1_0000_0000_0000) % 0x100 == b6 as u64,
        (x / 0x100_0000_0000_0000) % 0x100 == b7 as u64,
{
}

/// Reads the `u64` whose little-endian bytes start at `pos`.
fn read_u64(b: &[u8], pos: usize) -> (r: Option<u64>)
    ensures
        r is Some <==> pos + 8 <= b@.len(),
        r is Some ==> u64_le(r->0) == b@.subrange(pos as int, pos + 8),
{
    if pos > b.len() || b.len() - pos < 8 {
        return None;
    }
    let x: u64 = (b[pos] as u64) | ((b[pos + 1] as u64) << 8u64) | ((b[pos + 2] as u64) << 16u64)
        | ((b[pos + 3] as u64) << 24u64) | ((b[pos + 4] as u64) << 32u64) | ((b[pos + 5] as u64)
        << 40u64) | ((b[pos + 6] as u64) << 48u64) | ((b[pos + 7] as u64) << 56u64);
    proof {
        reveal(u64_le);
        lemma_le_bytes(
            b[pos as int],
            b[pos + 1],
            b[pos + 2],
            b[pos + 3],
            b[pos + 4],
            b[pos + 5],
            b[pos + 6],
            b[pos + 7],
            x,
        );
        assert(u64_le(x) =~= b@.subrange(pos as int, pos + 8));
    }
    Some(x)
}

/// Why bytes are not a transaction.
#[derive(Debug, Clone, Copy, PartialEq, Eq, Structural)]
pub enum DecodeError {
    /// The bytes end inside a field.
    Truncated,
    /// An action's tag is neither 0 (spend) nor 1 (output).
    UnknownActionTag,
    /// The expiry height does not fit in 32 bits.
    InvalidExpiryHeight,
    /// The chain id is not UTF-8.
    InvalidChainId,
    /// Bytes follow the binding signature.
    TrailingBytes,
}

/// Wire bytes of an action: its canonical bytes, then a spend's authorization signature.
pub open spec fn wire_action(a: Action) -> Seq<u8> {
    enc_action(a) + match a {
        Action::Spend(s) => u64_le(s.auth_sig),
        Action::Output(_) => Seq::empty(),
    }
}

/// Wire bytes of a list of actions, one after the other.
pub open spec fn wire_actions(s: Seq<Action>) -> Seq<u8>
    decreases s.len(),
{
    if s.len() == 0 {
        Seq::empty()
    } else {
        wire_actions(s.drop_last()) + wire_action(s.last())
    }
}

/// Wire bytes of a transaction: the number of actions, the actions, the
/// anchor, the expiry height, the length-prefixed chain id, the fee and the
/// binding signature, integers as eight little-endian bytes.
pub open spec fn wire_tx(t: &Transaction) -> Seq<u8> {
    let b = &t.transaction_body;
    u64_le(b.actions@.len() as u64) + wire_actions(b.actions@) + u64_le(b.merkle_root) + u64_le(
        b.expiry_height as u64,
    ) + u64_le(encode_utf8(b.chain_id@).len() as u64) + encode_utf8(b.chain_id@) + u64_le(b.fee)
        + u64_le(t.binding_sig)
}

/// The little-endian bytes of each number, one after the other.
pub open spec fn concat_le(s: Seq<u64>) -> Seq<u8>
    decreases s.len(),
{
    if s.len() == 0 {
        Seq::empty()
    } else {
        concat_le(s.drop_last()) + u64_le(s.last())
    }
}

proof fn lemma_concat_le_8(fs: Seq<u64>)
    requires
        fs.len() == 8,
    ensures
        concat_le(fs) == u64_le(fs[0]) + u64_le(fs[1]) + u64_le(fs[2]) + u64_le(fs[3]) + u64_le(fs[4])
            + u64_le(fs[5]) + u64_le(fs[6]) + u64_le(fs[7]),
{
    let s1 = fs.take(1);
    let s2 = fs.take(2);
    let s3 = fs.take(3);
    let s4 = fs.take(4);
    let s5 = fs.take(5);
    let s6 = fs.take(6);
    let s7 = fs.take(7);
    assert(s1.drop_last() =~= Seq::<u64>::empty());
    assert(s2.drop_last() =~= s1);
    assert(s3.drop_last() =~= s2);
    assert(s4.drop_last() =~= s3);
    assert(s5.drop_last() =~= s4);
    assert(s6.drop_last() =~= s5);
    assert(s7.drop_last() =~= s6);
    assert(fs.drop_last() =~= s7);
    assert(concat_le(Seq::<u64>::empty()) =~= Seq::<u8>::empty());
    assert(concat_le(s1) =~= u64_le(fs[0]));
    assert(concat_le(s2) == concat_le(s1) + u64_le(fs[1]));
    assert(concat_le(s3) == concat_le(s2) + u64_le(fs[2]));
    assert(concat_le(s4) == concat_le(s3) + u64_le(fs[3]));
    assert(concat_le(s5) == concat_le(s4) + u64_le(fs[4]));
    assert(concat_le(s6) == concat_le(s5) + u64_le(fs[5]));
    assert(concat_le(s7) == concat_le(s6) + u64_le(fs[6]));
    assert(concat_le(fs) == concat_le(s7) + u64_le(fs[7]));
}

#[verifier::rlimit(50)]
proof fn lemma_spend_wire(a: Action, fs: Seq<u64>)
    requires
        fs.len() == 8,
        a == Action::Spend(
            Spend {
                body: SpendBody {
                    nullifier: fs[0],
                    rk: fs[1],
                    value_commitment: ValueCommitment {
                        value: Value { amount: fs[2], asset_id: fs[3] },
                        blinding: fs[4],
                    },
                    anchor: fs[5],
                    proof: fs[6],
                },
                auth_sig: fs[7],
            },
        ),
    ensures
        wire_action(a) == seq![0u8] + concat_le(fs),
{
    lemma_concat_le_8(fs);
    assert(wire_action(a) =~= seq![0u8] + concat_le(fs));
}

#[verifier::rlimit(50)]
proof fn lemma_output_wire(a: Action, fs: Seq<u64>)
    requires
        fs.len() == 8,
        a == Action::Output(
            Output {
                body: OutputBody {
                    note_commitment: fs[0],
                    ephemeral_key: fs[1],
                    encrypted_note: fs[2],
                    value_commitment: ValueCommitment {
                        value: Value { amount: fs[3], asset_id: fs[4] },
                        blinding: fs[5],
                    },
                },
                encrypted_memo: fs[6],
                ovk_wrapped_key: fs[7],
            },
        ),
    ensures
        wire_action(a) == seq![1u8] + concat_le(fs),
{
    lemma_concat_le_8(fs);
    assert(wire_action(a) =~= seq![1u8] + concat_le(fs));
}

proof fn lemma_concat_le_push(s: Seq<u64>, x: u64)
    ensures
        concat_le(s.push(x)) == concat_le(s) + u64_le(x),
{
    assert(s.push(x).drop_last() =~= s);
}

proof fn lemma_subrange_split(b: Seq<u8>, i: int, j: int, k: int)
    requires
        0 <= i <= j <= k <= b.len(),
    ensures
        b.subrange(i, k) == b.subrange(i, j) + b.subrange(j, k),
{
    assert(b.subrange(i, k) =~= b.subrange(i, j) + b.subrange(j, k));
}

/// Reads eight numbers starting at `pos`.
#[verifier::rlimit(100)]
fn read_fields(b: &[u8], pos: usize) -> (r: Option<Vec<u64>>)
    requires
        pos <= b@.len(),
    ensures
        pos + 64 <= b@.len() ==> r is Some,
        r is Some ==> r->0@.len() == 8 && pos + 64 <= b@.len() && concat_le(r->0@) == b@.subrange(
            pos as int,
            pos + 64,
        ),
{
    let mut f: Vec<u64> = Vec::new();
    let mut p: usize = pos;
    assert(b@.subrange(pos as int, pos as int) =~= Seq::<u8>::empty());
    assert(concat_le(f@) =~= Seq::<u8>::empty());
    let blen = b.len();
    while f.len() < 8
        invariant
            blen == b@.len(),
            pos <= p <= b@.len(),
            p == pos + 8 * f@.len(),
            f@.len() <= 8,
            concat_le(f@) == b@.subrange(pos as int, p as int),
        decreases 8 - f@.len(),
    {
        let rx = read_u64(b, p);
        if rx.is_none() {
            return None;
        }
        let x = rx.unwrap();
        assert(p + 8 <= b@.len());
        let ghost before = f@;
        f.push(x);
        proof {
            lemma_concat_le_push(before, x);
            lemma_subrange_split(b@, pos as int, p as int, p + 8);
        }
        p = p + 8;
    }
    Some(f)
}

/// Reads one action starting at `pos`; returns it and the position after it.
fn read_action(b: &[u8], pos: usize) -> (r: Result<(Action, usize), DecodeError>)
    ensures
        pos + 65 <= b@.len() && b@[pos as int] <= 1 ==> r is Ok,
        r is Ok ==> r->Ok_0.1 == pos + 65,
        r is Ok ==> pos < r->Ok_0.1 <= b@.len() && wire_action(r->Ok_0.0) == b@.subrange(
            pos as int,
            r->Ok_0.1 as int,
        ),
{
    if pos >= b.len() {
        return Err(DecodeError::Truncated);
    }
    let tag = b[pos];
    if tag > 1 {
        return Err(DecodeError::UnknownActionTag);
    }
    let f = match read_fields(b, pos + 1) {
        Some(f) => f,
        None => {
            return Err(DecodeError::Truncated);
        },
    };
    let a = if tag == 0 {
        Action::Spend(
            Spend {
                body: SpendBody {
                    nullifier: f[0],
                    rk: f[1],
                    value_commitment: ValueCommitment {
                        value: Value { amount: f[2], asset_id: f[3] },
                        blinding: f[4],
                    },
                    anchor: f[5],
                    proof: f[6],
                },
                auth_sig: f[7],
            },
        )
    } else {
        Action::Output(
            Output {
                body: OutputBody {
                    note_commitment: f[0],
                    ephemeral_key: f[1],
                    encrypted_note: f[2],
                    value_commitment: ValueCommitment {
                        value: Value { amount: f[3], asset_id: f[4] },
                        blinding: f[5],
                    },
                },
                encrypted_memo: f[6],
                ovk_wrapped_key: f[7],
            },
        )
    };
    proof {
        let fs = f@;
        if tag == 0 {
            lemma_spend_wire(a, fs);
        } else {
            lemma_output_wire(a, fs);
        }
        assert(b@.subrange(pos as int, pos + 65) =~= seq![tag] + b@.subrange(pos + 1, pos + 65));
    }
    Ok((a, pos + 65))
}

proof fn lemma_u64_le_injective(x: u64, y: u64)
    requires
        u64_le(x) == u64_le(y),
    ensures
        x == y,
{
    reveal(u64_le);
    assert(u64_le(x)[0] == u64_le(y)[0]);
    assert(u64_le(x)[1] == u64_le(y)[1]);
    assert(u64_le(x)[2] == u64_le(y)[2]);
    assert(u64_le(x)[3] == u64_le(y)[3]);
    assert(u64_le(x)[4] == u64_le(y)[4]);
    assert(u64_le(x)[5] == u64_le(y)[5]);
    assert(u64_le(x)[6] == u64_le(y)[6]);
    assert(u64_le(x)[7] == u64_le(y)[7]);
    assert(x == y) by (bit_vector)
        requires
            x % 0x100 == y % 0x100,
            (x / 0x100) % 0x100 == (y / 0x100) % 0x100,
            (x / 0x1_0000) % 0x100 == (y / 0x1_0000) % 0x100,
            (x / 0x100_0000) % 0x100 == (y / 0x100_0000) % 0x100,
            (x / 0x1_0000_0000) % 0x100 == (y / 0x1_0000_0000) % 0x100,
            (x / 0x100_0000_0000) % 0x100 == (y / 0x100_0000_0000) % 0x100,
            (x / 0x1_0000_0000_0000) % 0x100 == (y / 0x1_0000_0000_0000) % 0x100,
            (x / 0x100_0000_0000_0000) % 0x100 == (y / 0x100_0000_0000_0000) % 0x100,
    ;
}

proof fn lemma_wire_action_shape(a: Action)
    ensures
        wire_action(a).len() == 65,
        wire_action(a)[0] <= 1,
{
}

proof fn lemma_wire_actions_index(s: Seq<Action>, i: int)
    requires
        0 <= i < s.len(),
    ensures
        wire_actions(s).len() == 65 * s.len(),
        wire_actions(s)[65 * i] == wire_action(s[i])[0],
    decreases s.len(),
{
    lemma_wire_actions_len(s);
    lemma_wire_action_shape(s.last());
    if i < s.len() - 1 {
        lemma_wire_actions_index(s.drop_last(), i);
    }
}

proof fn lemma_wire_actions_len(s: Seq<Action>)
    ensures
        wire_actions(s).len() == 65 * s.len(),
    decreases s.len(),
{
    if s.len() > 0 {
        lemma_wire_actions_len(s.drop_last());
        lemma_wire_action_shape(s.last());
    }
}

/// Where each field of a transaction lies in its wire bytes.
proof fn lemma_wire_tx_parts(t: &Transaction)
    ensures
        ({
            let body = &t.transaction_body;
            let a = body.actions@;
            let c = encode_utf8(body.chain_id@);
            let w = wire_actions(a);
            let bytes = wire_tx(t);
            let o1 = 8 + w.len() as int;
            let o4 = o1 + 24;
            let o5 = o4 + c.len() as int;
            &&& w.len() == 65 * a.len()
            &&& bytes.len() == o5 + 16
            &&& bytes.subrange(0, 8) == u64_le(a.len() as u64)
            &&& forall|i: int| 0 <= i < a.len() ==> #[trigger] bytes[8 + 65 * i] <= 1
            &&& bytes.subrange(o1, o1 + 8) == u64_le(body.merkle_root)
            &&& bytes.subrange(o1 + 8, o1 + 16) == u64_le(body.expiry_height as u64)
            &&& bytes.subrange(o1 + 16, o4) == u64_le(c.len() as u64)
            &&& bytes.subrange(o4, o5) == c
            &&& bytes.subrange(o5, o5 + 8) == u64_le(body.fee)
            &&& bytes.subrange(o5 + 8, o5 + 16) == u64_le(t.binding_sig)
        }),
{
    let body = &t.transaction_body;
    let a = body.actions@;
    let c = encode_utf8(body.chain_id@);
    let w = wire_actions(a);
    let bytes = wire_tx(t);
    let o1 = 8 + w.len() as int;
    let o4 = o1 + 24;
    let o5 = o4 + c.len() as int;
    lemma_wire_actions_len(a);
    assert(bytes.subrange(0, 8) =~= u64_le(a.len() as u64));
    assert forall|i: int| 0 <= i < a.len() implies #[trigger] bytes[8 + 65 * i] <= 1 by {
        lemma_wire_actions_index(a, i);
        lemma_wire_action_shape(a[i]);
        assert(bytes[8 + 65 * i] == w[65 * i]);
    }
    assert(bytes.subrange(o1, o1 + 8) =~= u64_le(body.merkle_root));
    assert(bytes.subrange(o1 + 8, o1 + 16) =~= u64_le(body.expiry_height as u64));
    assert(bytes.subrange(o1 + 16, o4) =~= u64_le(c.len() as u64));
    assert(bytes.subrange(o4, o5) =~= c);
    assert(bytes.subrange(o5, o5 + 8) =~= u64_le(body.fee));
    assert(bytes.subrange(o5 + 8, o5 + 16) =~= u64_le(t.binding_sig));
}

/// Reads `n` actions that follow the eight bytes of `n`; returns them and the position after them.
fn read_actions(b: &[u8], n: u64) -> (r: Result<(Vec<Action>, usize), DecodeError>)
    requires
        8 <= b@.len(),
        u64_le(n) == b@.subrange(0, 8),
    ensures
        r is Ok ==> r->Ok_0.0@.len() == n && r->Ok_0.1 == 8 + 65 * n && r->Ok_0.1 <= b@.len()
            && u64_le(n) + wire_actions(r->Ok_0.0@) == b@.subrange(0, r->Ok_0.1 as int),
        8 + 65 * n <= b@.len() && (forall|k: int| 0 <= k < n ==> #[trigger] b@[8 + 65 * k] <= 1)
            ==> r is Ok,
{
    let blen = b.len();
    let mut pos: usize = 8;
    let mut actions: Vec<Action> = Vec::new();
    let mut i: u64 = 0;
    assert(wire_actions(actions@) =~= Seq::<u8>::empty());
    assert(u64_le(n) + wire_actions(actions@) =~= b@.subrange(0, 8));
    while i < n
        invariant
            blen == b@.len(),
            8 <= pos <= blen,
            actions@.len() == i,
            i <= n,
            pos == 8 + 65 * i,
            u64_le(n) + wire_actions(actions@) == b@.subrange(0, pos as int),
        decreases n - i,
    {
        let (a, p2) = match read_action(b, pos) {
            Ok(x) => x,
            Err(e) => {
                assert(!(8 + 65 * n <= b@.len() && b@[8 + 65 * (i as int)] <= 1));
                return Err(e);
            },
        };
        let ghost before = actions@;
        actions.push(a);
        proof {
            assert(actions@.drop_last() =~= before);
            lemma_subrange_split(b@, 0, pos as int, p2 as int);
            assert(u64_le(n) + wire_actions(actions@) =~= u64_le(n) + wire_actions(before)
                + wire_action(a));
        }
        pos = p2;
        i = i + 1;
    }
    Ok((actions, pos))
}

/// The `len` bytes from `pos`.
fn copy_bytes(b: &[u8], pos: usize, len: usize) -> (r: Vec<u8>)
    requires
        pos + len <= b@.len(),
    ensures
        r@ == b@.subrange(pos as int, pos + len),
{
    let mut out: Vec<u8> = Vec::new();
    let mut j: usize = 0;
    let blen = b.len();
    while j < len
        invariant
            blen == b@.len(),
            pos + len <= b@.len(),
            j <= len,
            out@ =~= b@.subrange(pos as int, pos + j),
        decreases len - j,
    {
        out.push(b[pos + j]);
        j = j + 1;
    }
    out
}

/// Appends the wire bytes of an action.
fn push_wire_action(out: &mut Vec<u8>, a: &Action)
    ensures
        final(out)@ == old(out)@ + wire_action(*a),
{
    encode_action(out, a);
    match a {
        Action::Spend(s) => {
            push_u64(out, s.auth_sig);
        },
        Action::Output(_) => {},
    }
    assert(final(out)@ =~= old(out)@ + wire_action(*a));
}

/// Reads the number at `pos`.
fn next_u64(b: &[u8], pos: usize) -> (r: Result<u64, DecodeError>)
    ensures
        r is Ok <==> pos + 8 <= b@.len(),
        r is Ok ==> u64_le(r->Ok_0) == b@.subrange(pos as int, pos + 8),
        r is Err ==> r == Err::<u64, DecodeError>(DecodeError::Truncated),
{
    match read_u64(b, pos) {
        Some(x) => Ok(x),
        None => Err(DecodeError::Truncated),
    }
}

impl Transaction {
    /// The wire bytes of this transaction.
    pub fn to_bytes(&self) -> (r: Vec<u8>)
        ensures
            r@ == wire_tx(self),
    {
        let body = &self.transaction_body;
        let mut out: Vec<u8> = Vec::new();
        let n = body.actions.len();
        push_u64(&mut out, n as u64);
        let mut i: usize = 0;
        while i < n
            invariant
                n == body.actions@.len(),
                body == &self.transaction_body,
                i <= n,
                out@ == u64_le(n as u64) + wire_actions(body.actions@.subrange(0, i as int)),
            decreases n - i,
        {
            push_wire_action(&mut out, &body.actions[i]);
            assert(body.actions@.subrange(0, i + 1).drop_last() =~= body.actions@.subrange(0, i as int));
            i = i + 1;
        }
        assert(body.actions@.subrange(0, n as int) =~= body.actions@);
        push_u64(&mut out, body.merkle_root);
        push_u64(&mut out, body.expiry_height as u64);
        let cid = body.chain_id.as_str().as_bytes();
        push_u64(&mut out, cid.len() as u64);
        let mut j: usize = 0;
        while j < cid.len()
            invariant
                out@ == u64_le(n as u64) + wire_actions(body.actions@) + u64_le(body.merkle_root)
                    + u64_le(body.expiry_height as u64) + u64_le(cid@.len() as u64) + cid@.subrange(
                    0,
                    j as int,
                ),
                j <= cid@.len(),
            decreases cid@.len() - j,
        {
            out.push(cid[j]);
            assert(cid@.subrange(0, j + 1) =~= cid@.subrange(0, j as int).push(cid@[j as int]));
            j = j + 1;
        }
        assert(cid@.subrange(0, cid@.len() as int) =~= cid@);
        push_u64(&mut out, body.fee);
        push_u64(&mut out, self.binding_sig);
        out
    }

    /// Reads a transaction from its wire bytes; the transaction read has
    /// exactly those bytes as its wire bytes.
    pub fn decode(b: &[u8]) -> (r: Result<Transaction, DecodeError>)
        ensures
            r is Ok ==> wire_tx(&r->Ok_0) == b@,
            (exists|t: Transaction| wire_tx(&t) == b@) ==> r is Ok,
            b@.len() < 8 ==> r == Err::<Transaction, DecodeError>(DecodeError::Truncated),
    {
        let blen = b.len();
        let ghost has = exists|t: Transaction| wire_tx(&t) == b@;
        let ghost t0 = choose|t: Transaction| wire_tx(&t) == b@;
        let ghost a0 = t0.transaction_body.actions@;
        let ghost c0 = encode_utf8(t0.transaction_body.chain_id@);
        let ghost o1: int = 8 + 65 * a0.len() as int;
        let ghost o4: int = o1 + 24;
        let ghost o5: int = o4 + c0.len() as int;
        proof {
            if has {
                lemma_wire_tx_parts(&t0);
            }
        }
        let n = match next_u64(b, 0) {
            Ok(x) => x,
            Err(e) => {
                return Err(e);
            },
        };
        proof {
            if has {
                lemma_u64_le_injective(n, a0.len() as u64);
            }
        }
        let (actions, p) = match read_actions(b, n) {
            Ok(x) => x,
            Err(e) => {
                return Err(e);
            },
        };
        let mut pos = p;
        let merkle_root = match next_u64(b, pos) {
            Ok(x) => x,
            Err(e) => {
                return Err(e);
            },
        };
        proof {
            lemma_subrange_split(b@, 0, pos as int, pos + 8);
        }
        pos = pos + 8;
        let expiry = match next_u64(b, pos) {
            Ok(x) => x,
            Err(e) => {
                return Err(e);
            },
        };
        proof {
            lemma_subrange_split(b@, 0, pos as int, pos + 8);
        }
        pos = pos + 8;
        proof {
            if has {
                lemma_u64_le_injective(expiry, t0.transaction_body.expiry_height as u64);
            }
        }
        if expiry > 0xffff_ffff {
            return Err(DecodeError::InvalidExpiryHeight);
        }
        let chain_len = match next_u64(b, pos) {
            Ok(x) => x,
            Err(e) => {
                return Err(e);
            },
        };
        proof {
            lemma_subrange_split(b@, 0, pos as int, pos + 8);
        }
        pos = pos + 8;
        proof {
            if has {
                lemma_u64_le_injective(chain_len, c0.len() as u64);
            }
        }
        if chain_len > (blen - pos) as u64 {
            return Err(DecodeError::Truncated);
        }
        let cl = chain_len as usize;
        let cid = copy_bytes(b, pos, cl);
        let ghost cid_bytes = cid@;
        proof {
            if has {
                assert(cid_bytes =~= c0);
                vstd::utf8::encode_utf8_valid_utf8(t0.transaction_body.chain_id@);
            }
        }
        let chain_id = match string_from_utf8(cid) {
            Some(c) => c,
            None => {
                return Err(DecodeError::InvalidChainId);
            },
        };
        proof {
            vstd::utf8::decode_utf8_encode_utf8(cid_bytes);
            lemma_subrange_split(b@, 0, pos as int, pos + cl);
        }
        pos = pos + cl;
        let fee = match next_u64(b, pos) {
            Ok(x) => x,
            Err(e) => {
                return Err(e);
            },
        };
        proof {
            lemma_subrange_split(b@, 0, pos as int, pos + 8);
        }
        pos = pos + 8;
        let binding_sig = match next_u64(b, pos) {
            Ok(x) => x,
            Err(e) => {
                return Err(e);
            },
        };
        proof {
            lemma_subrange_split(b@, 0, pos as int, pos + 8);
        }
        pos = pos + 8;
        if pos != blen {
            return Err(DecodeError::TrailingBytes);
        }
        let t = Transaction {
            transaction_body: TransactionBody {
                actions,
                merkle_root,
                expiry_height: expiry as u32,
                chain_id,
                fee,
            },
            binding_sig,
        };
        proof {
            assert(b@.subrange(0, blen as int) =~= b@);
            assert(encode_utf8(t.transaction_body.chain_id@) == cid_bytes);
            assert(wire_tx(&t) =~= b@);
        }
        Ok(t)
    }
}

} // verus!
