use vstd::prelude::*;
use vstd::seq_lib::lemma_multiset_commutative;
use crate::device::{DeviceType, rank_of};

verus! {

/// One graphics adapter as the graphics API reports it.
pub struct Adapter {
    pub name: String,
    pub vendor: String,
    pub vram: u64,
    pub device_type: DeviceType,
}

/// The adapters of `s` whose device type has rank `r`, in their order in `s`.
pub open spec fn bucket(s: Seq<Adapter>, r: nat) -> Seq<Adapter>
    decreases s.len(),
{
    if s.len() == 0 {
        Seq::empty()
    } else {
        let p = bucket(s.drop_last(), r);
        if rank_of(s.last().device_type) == r {
            p.push(s.last())
        } else {
            p
        }
    }
}

/// The adapters of `s` whose device type is `t`, in their order in `s`.
pub open spec fn of_type(s: Seq<Adapter>, t: DeviceType) -> Seq<Adapter>
    decreases s.len(),
{
    if s.len() == 0 {
        Seq::empty()
    } else {
        let p = of_type(s.drop_last(), t);
        if s.last().device_type == t {
            p.push(s.last())
        } else {
            p
        }
    }
}

/// `s` stably sorted by ascending rank: all adapters of rank 0 in their
/// order of input, then those of rank 1, and so on.
pub open spec fn ranked(s: Seq<Adapter>) -> Seq<Adapter> {
    bucket(s, 0) + bucket(s, 1) + bucket(s, 2) + bucket(s, 3) + bucket(s, 4)
}

/// The ranks never decrease along `s`.
pub open spec fn sorted_by_rank(s: Seq<Adapter>) -> bool {
    forall|i: int, j: int|
        0 <= i < j < s.len() ==> rank_of(#[trigger] s[i].device_type) <= rank_of(
            #[trigger] s[j].device_type,
        )
}

/// Orders the adapters by ascending rank of their device type; adapters of
/// equal rank keep their relative order.
pub fn rank_adapters(adapters: Vec<Adapter>) -> (r: Vec<Adapter>)
    ensures
        r@ == ranked(adapters@),
        r@.to_multiset() == adapters@.to_multiset(),
        r@.len() == adapters@.len(),
        sorted_by_rank(r@),
        forall|t: DeviceType| #[trigger] of_type(r@, t) == of_type(adapters@, t),
{
    let ghost orig = adapters@;
    assert(orig.len() == adapters.len());
    let mut rest = adapters;
    let mut b0: Vec<Adapter> = Vec::new();
    let mut b1: Vec<Adapter> = Vec::new();
    let mut b2: Vec<Adapter> = Vec::new();
    let mut b3: Vec<Adapter> = Vec::new();
    let mut b4: Vec<Adapter> = Vec::new();
    let mut k: usize = 0;
    while rest.len() > 0
        invariant
            k <= orig.len() <= usize::MAX,
            rest@ == orig.subrange(k as int, orig.len() as int),
            b0@ == bucket(orig.subrange(0, k as int), 0),
            b1@ == bucket(orig.subrange(0, k as int), 1),
            b2@ == bucket(orig.subrange(0, k as int), 2),
            b3@ == bucket(orig.subrange(0, k as int), 3),
            b4@ == bucket(orig.subrange(0, k as int), 4),
        decreases rest.len(),
    {
        let ghost done = orig.subrange(0, k as int + 1);
        assert(done.drop_last() =~= orig.subrange(0, k as int));
        let a = rest.remove(0);
        assert(done.last() == a);
        let r = a.device_type.rank();
        if r == 0 {
            b0.push(a);
        } else if r == 1 {
            b1.push(a);
        } else if r == 2 {
            b2.push(a);
        } else if r == 3 {
            b3.push(a);
        } else {
            b4.push(a);
        }
        k = k + 1;
        assert(rest@ =~= orig.subrange(k as int, orig.len() as int));
    }
    assert(orig.subrange(0, k as int) =~= orig);
    let mut out = b0;
    out.append(&mut b1);
    out.append(&mut b2);
    out.append(&mut b3);
    out.append(&mut b4);
    proof {
        lemma_ranked_permutation(orig);
        lemma_ranked_sorted(orig);
        assert forall|t: DeviceType| #[trigger] of_type(ranked(orig), t) == of_type(orig, t) by {
            lemma_ranked_stable(orig, t);
        }
    }
    out
}

proof fn lemma_bucket_ranks(s: Seq<Adapter>, r: nat)
    ensures
        forall|i: int| 0 <= i < bucket(s, r).len() ==> rank_of(#[trigger] bucket(s, r)[i].device_type) == r,
    decreases s.len(),
{
    if s.len() > 0 {
        lemma_bucket_ranks(s.drop_last(), r);
    }
}

proof fn lemma_sorted_extend(a: Seq<Adapter>, b: Seq<Adapter>, k: nat)
    requires
        sorted_by_rank(a),
        forall|i: int| 0 <= i < a.len() ==> rank_of(#[trigger] a[i].device_type) <= k,
        forall|i: int| 0 <= i < b.len() ==> rank_of(#[trigger] b[i].device_type) == k,
    ensures
        sorted_by_rank(a + b),
        forall|i: int| 0 <= i < (a + b).len() ==> rank_of(#[trigger] (a + b)[i].device_type) <= k,
{
    let c = a + b;
    assert forall|i: int, j: int| 0 <= i < j < c.len() implies rank_of(
        #[trigger] c[i].device_type,
    ) <= rank_of(#[trigger] c[j].device_type) by {
        if j < a.len() {
            assert(c[i] == a[i] && c[j] == a[j]);
        } else if i < a.len() {
            assert(c[i] == a[i] && c[j] == b[j - a.len()]);
        } else {
            assert(c[i] == b[i - a.len()] && c[j] == b[j - a.len()]);
        }
    }
    assert forall|i: int| 0 <= i < c.len() implies rank_of(#[trigger] c[i].device_type) <= k by {
        if i < a.len() {
            assert(c[i] == a[i]);
        } else {
            assert(c[i] == b[i - a.len()]);
        }
    }
}

/// Ranking orders the adapters by ascending rank: in particular the first
/// adapter, the primary one, has a rank no greater than any other.
pub proof fn lemma_ranked_sorted(s: Seq<Adapter>)
    ensures
        sorted_by_rank(ranked(s)),
        forall|j: int|
            0 <= j < ranked(s).len() ==> rank_of(ranked(s)[0].device_type) <= rank_of(
                #[trigger] ranked(s)[j].device_type,
            ),
{
    lemma_bucket_ranks(s, 0);
    lemma_bucket_ranks(s, 1);
    lemma_bucket_ranks(s, 2);
    lemma_bucket_ranks(s, 3);
    lemma_bucket_ranks(s, 4);
    let b0 = bucket(s, 0);
    lemma_sorted_extend(Seq::empty(), b0, 0);
    assert(Seq::empty() + b0 =~= b0);
    lemma_sorted_extend(b0, bucket(s, 1), 1);
    lemma_sorted_extend(b0 + bucket(s, 1), bucket(s, 2), 2);
    lemma_sorted_extend(b0 + bucket(s, 1) + bucket(s, 2), bucket(s, 3), 3);
    lemma_sorted_extend(b0 + bucket(s, 1) + bucket(s, 2) + bucket(s, 3), bucket(s, 4), 4);
    let r = ranked(s);
    assert forall|j: int| 0 <= j < r.len() implies rank_of(r[0].device_type) <= rank_of(
        #[trigger] r[j].device_type,
    ) by {
        if 0 < j {
            assert(rank_of(r[0].device_type) <= rank_of(r[j].device_type));
        }
    }
}

/// Ranking neither drops nor duplicates an adapter: the output is a
/// permutation of the input, of the same length.
pub proof fn lemma_ranked_permutation(s: Seq<Adapter>)
    ensures
        ranked(s).to_multiset() == s.to_multiset(),
        ranked(s).len() == s.len(),
    decreases s.len(),
{
    broadcast use lemma_multiset_commutative;
    broadcast use vstd::multiset::group_multiset_axioms;
    broadcast use vstd::seq_lib::group_to_multiset_ensures;

    if s.len() == 0 {
        assert(ranked(s) =~= s);
    } else {
        let p = s.drop_last();
        let x = s.last();
        lemma_ranked_permutation(p);
        assert(p.push(x) =~= s);
        let mp = bucket(p, 0).to_multiset().add(bucket(p, 1).to_multiset()).add(
            bucket(p, 2).to_multiset(),
        ).add(bucket(p, 3).to_multiset()).add(bucket(p, 4).to_multiset());
        let ms = bucket(s, 0).to_multiset().add(bucket(s, 1).to_multiset()).add(
            bucket(s, 2).to_multiset(),
        ).add(bucket(s, 3).to_multiset()).add(bucket(s, 4).to_multiset());
        assert(ranked(p).to_multiset() =~= mp);
        assert(ranked(s).to_multiset() =~= ms);
        assert(ms =~= mp.insert(x));
        assert(s.to_multiset() =~= p.to_multiset().insert(x));
    }
    assert(ranked(s).len() == ranked(s).to_multiset().len());
}

proof fn lemma_of_type_append(a: Seq<Adapter>, b: Seq<Adapter>, t: DeviceType)
    ensures
        of_type(a + b, t) == of_type(a, t) + of_type(b, t),
    decreases b.len(),
{
    if b.len() == 0 {
        assert(a + b =~= a);
        assert(of_type(a, t) + of_type(b, t) =~= of_type(a, t));
    } else {
        lemma_of_type_append(a, b.drop_last(), t);
        assert((a + b).drop_last() =~= a + b.drop_last());
        assert((a + b).last() == b.last());
        if b.last().device_type == t {
            assert(of_type(a, t) + of_type(b, t) =~= (of_type(a, t) + of_type(b.drop_last(), t)).push(
                b.last(),
            ));
        }
    }
}

proof fn lemma_of_type_bucket(s: Seq<Adapter>, r: nat, t: DeviceType)
    ensures
        of_type(bucket(s, r), t) == (if rank_of(t) == r {
            of_type(s, t)
        } else {
            Seq::empty()
        }),
    decreases s.len(),
{
    if s.len() > 0 {
        lemma_of_type_bucket(s.drop_last(), r, t);
        let p = bucket(s.drop_last(), r);
        if rank_of(s.last().device_type) == r {
            assert(p.push(s.last()).drop_last() =~= p);
        }
    }
}

/// Ranking is stable: the adapters of any one device type come out in the
/// same relative order as they went in.
pub proof fn lemma_ranked_stable(s: Seq<Adapter>, t: DeviceType)
    ensures
        of_type(ranked(s), t) == of_type(s, t),
{
    let b0 = bucket(s, 0);
    let b1 = bucket(s, 1);
    let b2 = bucket(s, 2);
    let b3 = bucket(s, 3);
    let b4 = bucket(s, 4);
    lemma_of_type_bucket(s, 0, t);
    lemma_of_type_bucket(s, 1, t);
    lemma_of_type_bucket(s, 2, t);
    lemma_of_type_bucket(s, 3, t);
    lemma_of_type_bucket(s, 4, t);
    lemma_of_type_append(b0, b1, t);
    lemma_of_type_append(b0 + b1, b2, t);
    lemma_of_type_append(b0 + b1 + b2, b3, t);
    lemma_of_type_append(b0 + b1 + b2 + b3, b4, t);
    let e = Seq::<Adapter>::empty();
    let o = of_type(s, t);
    assert(e + o =~= o);
    assert(o + e =~= o);
    assert(e + e =~= e);
}

} // verus!
