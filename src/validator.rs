use vstd::prelude::*;

verus! {

/// A validator: its consensus public key and its voting power.
#[derive(Debug, Clone, Copy, PartialEq, Eq, Structural)]
pub struct Validator {
    pub pub_key: u64,
    pub voting_power: u64,
}

/// The voting power the last entry for `key` in `vs` gives, if any does.
pub open spec fn last_power(vs: Seq<Validator>, key: u64) -> Option<u64>
    decreases vs.len(),
{
    if vs.len() == 0 {
        None
    } else if vs.last().pub_key == key {
        Some(vs.last().voting_power)
    } else {
        last_power(vs.drop_last(), key)
    }
}

/// `r` is the validator set `vs` declares: one entry per key, in increasing
/// order of key, each with the power of the last entry for that key.
pub open spec fn keyed_set(r: Seq<Validator>, vs: Seq<Validator>) -> bool {
    &&& forall|i: int, j: int| 0 <= i < j < r.len() ==> r[i].pub_key < r[j].pub_key
    &&& forall|i: int| 0 <= i < r.len() ==> last_power(vs, #[trigger] r[i].pub_key) == Some(r[i].voting_power)
    &&& forall|k: u64| #[trigger] last_power(vs, k) is Some ==> exists|i: int| 0 <= i < r.len() && r[i].pub_key == k
}

/// The validator set that `vs` declares, keyed and ordered by public key.
pub fn validator_set(vs: &Vec<Validator>) -> (r: Vec<Validator>)
    ensures
        keyed_set(r@, vs@),
{
    let mut out: Vec<Validator> = Vec::new();
    let n = vs.len();
    let mut i: usize = 0;
    assert(vs@.take(0) =~= Seq::<Validator>::empty());
    while i < n
        invariant
            n == vs@.len(),
            i <= n,
            keyed_set(out@, vs@.take(i as int)),
        decreases n - i,
    {
        let v = vs[i];
        let ghost pre = vs@.take(i as int);
        let ghost post = vs@.take(i + 1);
        assert(post.drop_last() =~= pre);
        assert(post.last() == v);
        let m = out.len();
        let mut j: usize = 0;
        while j < m && out[j].pub_key < v.pub_key
            invariant
                m == out@.len(),
                j <= m,
                forall|k: int| 0 <= k < j ==> out@[k].pub_key < v.pub_key,
            decreases m - j,
        {
            j = j + 1;
        }
        let ghost before = out@;
        if j < m && out[j].pub_key == v.pub_key {
            out.set(j, v);
            proof {
                assert forall|a: int, b: int| 0 <= a < b < out@.len() implies out@[a].pub_key < out@[b].pub_key by {
                    assert(before[a].pub_key < before[b].pub_key);
                }
                assert forall|a: int| 0 <= a < out@.len() implies last_power(post, #[trigger] out@[a].pub_key)
                    == Some(out@[a].voting_power) by {
                    if a != j {
                        assert(before[a].pub_key != v.pub_key) by {
                            if a < j {
                                assert(before[a].pub_key < before[j as int].pub_key);
                            } else {
                                assert(before[j as int].pub_key < before[a].pub_key);
                            }
                        }
                        assert(last_power(pre, before[a].pub_key) == Some(before[a].voting_power));
                    }
                }
                assert forall|k: u64| #[trigger] last_power(post, k) is Some implies exists|a: int|
                    0 <= a < out@.len() && out@[a].pub_key == k by {
                    if k == v.pub_key {
                        assert(out@[j as int].pub_key == k);
                    } else {
                        assert(last_power(pre, k) is Some);
                        let a = choose|a: int| 0 <= a < before.len() && before[a].pub_key == k;
                        assert(out@[a].pub_key == k);
                    }
                }
            }
        } else {
            out.insert(j, v);
            proof {
                assert(forall|k: int| j <= k < before.len() ==> v.pub_key < before[k].pub_key) by {
                    assert forall|k: int| j <= k < before.len() implies v.pub_key < before[k].pub_key by {
                        if j < before.len() {
                            assert(before[j as int].pub_key > v.pub_key);
                            if k > j {
                                assert(before[j as int].pub_key < before[k].pub_key);
                            }
                        }
                    }
                }
                assert forall|a: int, b: int| 0 <= a < b < out@.len() implies out@[a].pub_key < out@[b].pub_key by {
                    if b < j {
                        assert(before[a].pub_key < before[b].pub_key);
                    } else if b == j {
                    } else if a < j {
                        assert(out@[b] == before[b - 1]);
                    } else if a == j {
                        assert(out@[b] == before[b - 1]);
                    } else {
                        assert(before[a - 1].pub_key < before[b - 1].pub_key);
                    }
                }
                assert forall|a: int| 0 <= a < out@.len() implies last_power(post, #[trigger] out@[a].pub_key)
                    == Some(out@[a].voting_power) by {
                    if a != j {
                        let c = if a < j { a } else { a - 1 };
                        assert(out@[a] == before[c]);
                        assert(before[c].pub_key != v.pub_key);
                        assert(last_power(pre, before[c].pub_key) == Some(before[c].voting_power));
                    }
                }
                assert forall|k: u64| #[trigger] last_power(post, k) is Some implies exists|a: int|
                    0 <= a < out@.len() && out@[a].pub_key == k by {
                    if k == v.pub_key {
                        assert(out@[j as int].pub_key == k);
                    } else {
                        assert(last_power(pre, k) is Some);
                        let c = choose|c: int| 0 <= c < before.len() && before[c].pub_key == k;
                        if c < j {
                            assert(out@[c].pub_key == k);
                        } else {
                            assert(out@[c + 1].pub_key == k);
                        }
                    }
                }
            }
        }
        i = i + 1;
    }
    assert(vs@.take(n as int) =~= vs@);
    out
}

} // verus!
