use vstd::prelude::*;

verus! {

/// The sum of `f` over the items of `s`.
pub open spec fn sum_of<A>(s: Seq<A>, f: spec_fn(A) -> int) -> int
    decreases s.len(),
{
    if s.len() == 0 {
        0
    } else {
        sum_of(s.drop_last(), f) + f(s.last())
    }
}

/// `s` with the items at `i` and `j` exchanged.
pub open spec fn swap<A>(s: Seq<A>, i: int, j: int) -> Seq<A> {
    s.update(i, s[j]).update(j, s[i])
}

/// The index that the draw for step `k` selects among `0..=k`.
pub open spec fn pick(d: Seq<u64>, k: int) -> int {
    if k < d.len() {
        (d[k] as int) % (k + 1)
    } else {
        k
    }
}

/// The first `i` steps of the shuffle: step `k` (from 1) exchanges item `k`
/// with the item its draw selects among `0..=k`.
pub open spec fn shuffle_steps<A>(s: Seq<A>, d: Seq<u64>, i: nat) -> Seq<A>
    decreases i,
{
    if i <= 1 {
        s
    } else {
        let k = i - 1;
        swap(shuffle_steps(s, d, (i - 1) as nat), k, pick(d, k))
    }
}

/// `s` shuffled with the draws `d`.
pub open spec fn shuffled<A>(s: Seq<A>, d: Seq<u64>) -> Seq<A> {
    shuffle_steps(s, d, s.len())
}

pub proof fn lemma_shuffle_steps_len<A>(s: Seq<A>, d: Seq<u64>, i: nat)
    requires
        i <= s.len(),
    ensures
        shuffle_steps(s, d, i).len() == s.len(),
    decreases i,
{
    if i > 1 {
        lemma_shuffle_steps_len(s, d, (i - 1) as nat);
    }
}

pub proof fn lemma_sum_update<A>(s: Seq<A>, i: int, x: A, f: spec_fn(A) -> int)
    requires
        0 <= i < s.len(),
    ensures
        sum_of(s.update(i, x), f) == sum_of(s, f) - f(s[i]) + f(x),
    decreases s.len(),
{
    if i == s.len() - 1 {
        assert(s.update(i, x).drop_last() =~= s.drop_last());
    } else {
        assert(s.update(i, x).drop_last() =~= s.drop_last().update(i, x));
        lemma_sum_update(s.drop_last(), i, x, f);
    }
}

pub proof fn lemma_sum_swap<A>(s: Seq<A>, i: int, j: int, f: spec_fn(A) -> int)
    requires
        0 <= i < s.len(),
        0 <= j < s.len(),
    ensures
        sum_of(swap(s, i, j), f) == sum_of(s, f),
        swap(s, i, j).to_multiset() == s.to_multiset(),
{
    let p = s.update(i, s[j]);
    lemma_sum_update(s, i, s[j], f);
    lemma_sum_update(p, j, s[i], f);
    broadcast use
        vstd::seq_lib::to_multiset_update,
        vstd::seq_lib::to_multiset_contains,
        vstd::multiset::group_multiset_axioms,
    ;

    if i == j {
        assert(swap(s, i, j) =~= s);
    } else {
        assert(s.contains(s[i]));
        assert(p[j] == s[j]);
        assert(p.to_multiset() == s.to_multiset().insert(s[j]).remove(s[i]));
        assert(swap(s, i, j).to_multiset() == p.to_multiset().insert(s[i]).remove(s[j]));
        assert(swap(s, i, j).to_multiset() =~= s.to_multiset());
    }
}

/// Shuffling keeps every sum and the multiset of items.
pub proof fn lemma_shuffle_steps_sum<A>(s: Seq<A>, d: Seq<u64>, i: nat, f: spec_fn(A) -> int)
    requires
        i <= s.len(),
    ensures
        sum_of(shuffle_steps(s, d, i), f) == sum_of(s, f),
        shuffle_steps(s, d, i).to_multiset() == s.to_multiset(),
    decreases i,
{
    if i > 1 {
        lemma_shuffle_steps_sum(s, d, (i - 1) as nat, f);
        lemma_shuffle_steps_len(s, d, (i - 1) as nat);
        let k = i - 1;
        lemma_sum_swap(shuffle_steps(s, d, (i - 1) as nat), k, pick(d, k), f);
    }
}

pub proof fn lemma_sum_concat<A>(s: Seq<A>, t: Seq<A>, f: spec_fn(A) -> int)
    ensures
        sum_of(s + t, f) == sum_of(s, f) + sum_of(t, f),
    decreases t.len(),
{
    if t.len() == 0 {
        assert(s + t =~= s);
    } else {
        assert((s + t).drop_last() =~= s + t.drop_last());
        lemma_sum_concat(s, t.drop_last(), f);
    }
}

/// Summing over a sequence built item by item from `s` is summing the composed function over `s`.
pub proof fn lemma_sum_map<A, B>(s: Seq<A>, g: spec_fn(A) -> B, f: spec_fn(B) -> int)
    ensures
        sum_of(Seq::new(s.len(), |k: int| g(s[k])), f) == sum_of(s, |a: A| f(g(a))),
    decreases s.len(),
{
    if s.len() > 0 {
        assert(Seq::new(s.len(), |k: int| g(s[k])).drop_last() =~= Seq::new(
            s.drop_last().len(),
            |k: int| g(s.drop_last()[k]),
        ));
        lemma_sum_map(s.drop_last(), g, f);
    }
}

pub proof fn lemma_sum_zero<A>(s: Seq<A>, f: spec_fn(A) -> int)
    requires
        forall|k: int| 0 <= k < s.len() ==> f(#[trigger] s[k]) == 0,
    ensures
        sum_of(s, f) == 0,
    decreases s.len(),
{
    if s.len() > 0 {
        lemma_sum_zero(s.drop_last(), f);
    }
}

/// Shuffles `v` in place with the draws `d`.
pub fn shuffle<T: Copy>(v: &mut Vec<T>, d: &Vec<u64>)
    ensures
        final(v)@ == shuffled(old(v)@, d@),
{
    let n = v.len();
    if n <= 1 {
        return;
    }
    let mut i: usize = 1;
    while i < n
        invariant
            1 <= i <= n,
            n == old(v)@.len(),
            v@ == shuffle_steps(old(v)@, d@, i as nat),
        decreases n - i,
    {
        proof {
            lemma_shuffle_steps_len(old(v)@, d@, i as nat);
        }
        let j: usize = if i < d.len() {
            (d[i] % ((i as u64) + 1)) as usize
        } else {
            i
        };
        let a = v[i];
        let b = v[j];
        v.set(i, b);
        v.set(j, a);
        assert(v@ =~= swap(shuffle_steps(old(v)@, d@, i as nat), i as int, j as int));
        i = i + 1;
    }
}

} // verus!
