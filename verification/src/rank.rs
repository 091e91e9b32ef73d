//! Ranking collected failures by size.
//!
//! No shrinking is performed: the runner only orders the failures it already
//! sampled.  The ranking is a stable ascending sort by size, computed here
//! over collection indices so that ties demonstrably keep their original
//! order.

use vstd::prelude::*;
use vstd::multiset::Multiset;

verus! {

/// Every index in `s` is below `b`.
pub open spec fn all_below(s: Seq<usize>, b: nat) -> bool {
    forall|p: int| 0 <= p < s.len() ==> (#[trigger] s[p] as nat) < b
}

/// No index occurs twice in `s`.
pub open spec fn distinct(s: Seq<usize>) -> bool {
    forall|p: int, q: int| 0 <= p < q < s.len() ==> s[p] != s[q]
}

/// Index `a` comes no later than index `b`: its size is strictly smaller, or
/// the sizes are equal and `a` was collected no later.
pub open spec fn rank_le(sizes: Seq<usize>, a: usize, b: usize) -> bool {
    ||| sizes[a as int] < sizes[b as int]
    ||| (sizes[a as int] == sizes[b as int] && a <= b)
}

/// The index list `s` is ordered by `rank_le`.
pub open spec fn ranked(sizes: Seq<usize>, s: Seq<usize>) -> bool {
    forall|p: int, q: int| 0 <= p < q < s.len() ==> rank_le(sizes, s[p], s[q])
}

/// Insert index `j` into the ranked index list `s`: `j` goes before exactly
/// the indices whose size is strictly larger.
pub open spec fn insert_ranked(s: Seq<usize>, sizes: Seq<usize>, j: usize) -> Seq<usize>
    decreases s.len(),
{
    if s.len() == 0 {
        seq![j]
    } else if sizes[j as int] < sizes[s.last() as int] {
        insert_ranked(s.drop_last(), sizes, j).push(s.last())
    } else {
        s.push(j)
    }
}

/// The first `n` collection indices of `sizes`, ranked.
pub open spec fn rank_prefix(sizes: Seq<usize>, n: nat) -> Seq<usize>
    decreases n,
{
    if n == 0 {
        Seq::empty()
    } else {
        insert_ranked(rank_prefix(sizes, (n - 1) as nat), sizes, (n - 1) as usize)
    }
}

/// All collection indices of `sizes`, ranked ascending by size; equal sizes
/// keep their collection order.
pub open spec fn rank_spec(sizes: Seq<usize>) -> Seq<usize> {
    rank_prefix(sizes, sizes.len())
}

proof fn lemma_insert_props(s: Seq<usize>, sizes: Seq<usize>, j: usize)
    requires
        (j as nat) < sizes.len(),
        all_below(s, j as nat),
        ranked(sizes, s),
        distinct(s),
    ensures
        insert_ranked(s, sizes, j).len() == s.len() + 1,
        all_below(insert_ranked(s, sizes, j), j as nat + 1),
        ranked(sizes, insert_ranked(s, sizes, j)),
        distinct(insert_ranked(s, sizes, j)),
        insert_ranked(s, sizes, j).to_multiset() == s.to_multiset().insert(j),
    decreases s.len(),
{
    broadcast use vstd::seq_lib::group_to_multiset_ensures;

    let out = insert_ranked(s, sizes, j);
    if s.len() == 0 {
        assert(out =~= Seq::empty().push(j));
        assert(s.to_multiset() =~= Multiset::empty());
    } else {
        let last = s.last();
        let rest = s.drop_last();
        assert(forall|p: int| 0 <= p < rest.len() ==> rest[p] == s[p]);
        assert(ranked(sizes, rest));
        assert(distinct(rest));
        if sizes[j as int] < sizes[last as int] {
            lemma_insert_props(rest, sizes, j);
            let ins = insert_ranked(rest, sizes, j);
            assert(out == ins.push(last));
            // each earlier entry ranks no later than the re-appended last
            assert forall|p: int| 0 <= p < ins.len() implies rank_le(
                sizes,
                ins[p],
                last,
            ) by {
                let x = ins[p];
                assert(ins.contains(x));
                if x == j {
                    assert(sizes[j as int] < sizes[last as int]);
                } else {
                    assert(ins.to_multiset().count(x) > 0);
                    assert(rest.to_multiset().count(x) > 0);
                    assert(rest.contains(x));
                    let q = choose|q: int| 0 <= q < rest.len() && rest[q] == x;
                    assert(s[q] == x);
                    assert(rank_le(sizes, s[q], s[s.len() - 1]));
                }
            }
            assert(ranked(sizes, out));
            // the last element cannot already stand in the inserted list
            assert(last != j);
            assert(!rest.contains(last)) by {
                if rest.contains(last) {
                    let q = choose|q: int| 0 <= q < rest.len() && rest[q] == last;
                    assert(s[q] == s[s.len() - 1]);
                }
            }
            assert(!ins.contains(last)) by {
                if ins.contains(last) {
                    assert(ins.to_multiset().count(last) > 0);
                    assert(rest.to_multiset().count(last) > 0);
                    assert(rest.contains(last));
                }
            }
            assert(distinct(out)) by {
                assert(forall|p: int| 0 <= p < ins.len() ==> out[p] == ins[p]);
                assert(forall|p: int| 0 <= p < ins.len() ==> ins[p] != last) by {
                    assert(forall|p: int| 0 <= p < ins.len() ==> ins.contains(#[trigger] ins[p]));
                }
            }
            assert(out.to_multiset() =~= s.to_multiset().insert(j)) by {
                assert(ins.to_multiset() == rest.to_multiset().insert(j));
                assert(out.to_multiset() =~= ins.to_multiset().insert(last));
                assert(s =~= rest.push(last));
                assert(s.to_multiset() =~= rest.to_multiset().insert(last));
                assert(rest.to_multiset().insert(j).insert(last) =~= rest.to_multiset().insert(
                    last,
                ).insert(j));
            }
        } else {
            assert(out == s.push(j));
            assert forall|p: int| 0 <= p < s.len() implies rank_le(sizes, s[p], j) by {
                assert(rank_le(sizes, s[p], s[s.len() - 1]));
                assert((s[p] as nat) < j as nat);
            }
            assert(ranked(sizes, out));
            assert(!s.contains(j)) by {
                if s.contains(j) {
                    let q = choose|q: int| 0 <= q < s.len() && s[q] == j;
                    assert((s[q] as nat) < j as nat);
                }
            }
            assert(distinct(out)) by {
                assert(forall|p: int| 0 <= p < s.len() ==> out[p] == s[p]);
                assert(forall|p: int| 0 <= p < s.len() ==> s[p] != j) by {
                    assert(forall|p: int| 0 <= p < s.len() ==> (#[trigger] s[p] as nat) < j as nat);
                }
            }
        }
    }
}

/// The collection indices `0, 1, ..., n - 1`, in order.
pub open spec fn index_seq(n: nat) -> Seq<usize> {
    Seq::new(n, |i: int| i as usize)
}

proof fn lemma_rank_prefix(sizes: Seq<usize>, n: nat)
    requires
        n <= sizes.len(),
        sizes.len() <= usize::MAX,
    ensures
        rank_prefix(sizes, n).len() == n,
        all_below(rank_prefix(sizes, n), n),
        ranked(sizes, rank_prefix(sizes, n)),
        distinct(rank_prefix(sizes, n)),
        rank_prefix(sizes, n).to_multiset() == index_seq(n).to_multiset(),
    decreases n,
{
    broadcast use vstd::seq_lib::group_to_multiset_ensures;

    if n == 0 {
        assert(rank_prefix(sizes, n) =~= Seq::<usize>::empty());
        assert(index_seq(0) =~= Seq::<usize>::empty());
        assert(rank_prefix(sizes, n).to_multiset() =~= index_seq(n).to_multiset());
    } else {
        let m = (n - 1) as nat;
        lemma_rank_prefix(sizes, m);
        lemma_insert_props(rank_prefix(sizes, m), sizes, m as usize);
        assert(rank_prefix(sizes, n) == insert_ranked(rank_prefix(sizes, m), sizes, m as usize));
        assert(index_seq(n) =~= index_seq(m).push(m as usize));
        assert(index_seq(n).to_multiset() =~= index_seq(m).to_multiset().insert(m as usize));
    }
}

/// The ranking is well-formed: one entry per collected failure, each a valid
/// collection index, and no index repeated.
pub proof fn lemma_rank_wf(sizes: Seq<usize>)
    requires
        sizes.len() <= usize::MAX,
    ensures
        rank_spec(sizes).len() == sizes.len(),
        all_below(rank_spec(sizes), sizes.len()),
        distinct(rank_spec(sizes)),
{
    lemma_rank_prefix(sizes, sizes.len());
}

/// The ranking only reorders the collection indices: as a multiset it is
/// exactly `0, 1, ..., sizes.len() - 1`.
pub proof fn lemma_rank_permutes(sizes: Seq<usize>)
    requires
        sizes.len() <= usize::MAX,
    ensures
        rank_spec(sizes).to_multiset() == index_seq(sizes.len()).to_multiset(),
{
    lemma_rank_prefix(sizes, sizes.len());
}

/// The ranking sorts ascending by size.
pub proof fn lemma_rank_sorted(sizes: Seq<usize>)
    requires
        sizes.len() <= usize::MAX,
    ensures
        forall|p: int, q: int|
            0 <= p < q < rank_spec(sizes).len() ==> sizes[rank_spec(sizes)[p] as int]
                <= sizes[rank_spec(sizes)[q] as int],
{
    lemma_rank_prefix(sizes, sizes.len());
    assert forall|p: int, q: int| 0 <= p < q < rank_spec(sizes).len() implies sizes[rank_spec(
        sizes,
    )[p] as int] <= sizes[rank_spec(sizes)[q] as int] by {
        assert(rank_le(sizes, rank_spec(sizes)[p], rank_spec(sizes)[q]));
    }
}

/// The ranking is stable: failures of equal size keep their collection order.
pub proof fn lemma_rank_stable(sizes: Seq<usize>)
    requires
        sizes.len() <= usize::MAX,
    ensures
        forall|p: int, q: int|
            0 <= p < q < rank_spec(sizes).len()
                && sizes[rank_spec(sizes)[p] as int] == sizes[rank_spec(sizes)[q] as int]
                ==> rank_spec(sizes)[p] < rank_spec(sizes)[q],
{
    lemma_rank_prefix(sizes, sizes.len());
    assert forall|p: int, q: int|
        0 <= p < q < rank_spec(sizes).len() && sizes[rank_spec(sizes)[p] as int] == sizes[rank_spec(
            sizes,
        )[q] as int] implies rank_spec(sizes)[p] < rank_spec(sizes)[q] by {
        assert(rank_le(sizes, rank_spec(sizes)[p], rank_spec(sizes)[q]));
        assert(rank_spec(sizes)[p] != rank_spec(sizes)[q]);
    }
}

fn insert_index(r: Vec<usize>, sizes: &Vec<usize>, j: usize) -> (out: Vec<usize>)
    requires
        (j as nat) < sizes@.len(),
        all_below(r@, sizes@.len()),
    ensures
        out@ == insert_ranked(r@, sizes@, j),
    decreases r@.len(),
{
    let ghost r0 = r@;
    if r.len() == 0 {
        let mut out: Vec<usize> = Vec::new();
        out.push(j);
        assert(out@ =~= insert_ranked(r0, sizes@, j));
        out
    } else {
        let last = r[r.len() - 1];
        assert((last as nat) < sizes@.len());
        if sizes[j] < sizes[last] {
            let mut shorter = r;
            shorter.pop();
            assert(shorter@ =~= r0.drop_last());
            let mut out = insert_index(shorter, sizes, j);
            out.push(last);
            assert(out@ =~= insert_ranked(r0, sizes@, j));
            out
        } else {
            let mut out = r;
            out.push(j);
            assert(out@ =~= insert_ranked(r0, sizes@, j));
            out
        }
    }
}

/// Rank the collection indices of `sizes` ascending by size; equal sizes keep
/// their collection order.
pub fn rank_indices(sizes: &Vec<usize>) -> (r: Vec<usize>)
    ensures
        r@ == rank_spec(sizes@),
        r@.len() == sizes@.len(),
        all_below(r@, sizes@.len()),
{
    let mut r: Vec<usize> = Vec::new();
    let mut j: usize = 0;
    assert(r@ =~= rank_prefix(sizes@, 0));
    while j < sizes.len()
        invariant
            j <= sizes@.len(),
            r@ == rank_prefix(sizes@, j as nat),
        decreases sizes@.len() - j,
    {
        proof {
            lemma_rank_prefix(sizes@, j as nat);
        }
        r = insert_index(r, sizes, j);
        assert(r@ == rank_prefix(sizes@, j as nat + 1));
        j += 1;
    }
    proof {
        lemma_rank_wf(sizes@);
    }
    r
}

} // verus!
