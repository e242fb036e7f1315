use vstd::multiset::{lemma_multiset_empty_len, Multiset};
use vstd::prelude::*;
use vstd::seq_lib::{lemma_multiset_commutative, to_multiset_contains, to_multiset_len};

use crate::reply::{cluster_view, contribution, gathered, PeerOutcome};

verus! {

/// The entries that a sequence of peer outcomes adds, counted with their
/// multiplicity and without regard to order.
pub open spec fn gathered_bag<N, T, PE>(s: Seq<PeerOutcome<N, T, PE>>) -> Multiset<T>
    decreases s.len(),
{
    if s.len() == 0 {
        Multiset::empty()
    } else {
        gathered_bag(s.drop_last()).add(contribution(s.last()).to_multiset())
    }
}

/// What two runs of outcomes add, one after the other, is what the first adds
/// followed by what the second adds.
pub proof fn lemma_gathered_append<N, T, PE>(a: Seq<PeerOutcome<N, T, PE>>, b: Seq<PeerOutcome<N, T, PE>>)
    ensures
        gathered(a + b) == gathered(a) + gathered(b),
    decreases b.len(),
{
    if b.len() == 0 {
        assert(a + b =~= a);
        assert(gathered(a) + gathered(b) =~= gathered(a));
    } else {
        assert((a + b).drop_last() =~= a + b.drop_last());
        assert((a + b).last() == b.last());
        lemma_gathered_append(a, b.drop_last());
        assert(gathered(a + b) =~= gathered(a) + gathered(b));
    }
}

/// A single outcome adds exactly its own contribution.
pub proof fn lemma_gathered_single<N, T, PE>(o: PeerOutcome<N, T, PE>)
    ensures
        gathered(seq![o]) == contribution(o),
{
    let e = Seq::<PeerOutcome<N, T, PE>>::empty();
    assert(seq![o].drop_last() =~= e);
    assert(gathered(e) == Seq::<T>::empty());
    assert(gathered(seq![o]) =~= contribution(o));
}

/// Taken as a multiset, what the outcomes add is the sum of every peer's
/// contribution.
pub proof fn lemma_gathered_bag<N, T, PE>(s: Seq<PeerOutcome<N, T, PE>>)
    ensures
        gathered(s).to_multiset() == gathered_bag(s),
    decreases s.len(),
{
    if s.len() == 0 {
        to_multiset_len(gathered(s));
        lemma_multiset_empty_len(gathered(s).to_multiset());
    } else {
        lemma_gathered_bag(s.drop_last());
        lemma_multiset_commutative(gathered(s.drop_last()), contribution(s.last()));
    }
}

/// The answer of a lookup is, as a multiset, the union of the local matches
/// and the contribution of every peer; a peer that failed, or that answered
/// with another reply kind, contributes nothing.
pub proof fn lemma_lookup_is_union<N, T, PE>(local: Seq<T>, s: Seq<PeerOutcome<N, T, PE>>)
    ensures
        cluster_view(local, s).to_multiset() == local.to_multiset().add(gathered_bag(s)),
        forall|i: int|
            0 <= i < s.len() && !(#[trigger] s[i].1 is Ok && s[i].1->Ok_0 is Retains)
                ==> contribution(s[i]).len() == 0,
{
    lemma_multiset_commutative(local, gathered(s));
    lemma_gathered_bag(s);
}

/// Splits what the outcomes add around the outcome at `i`.
proof fn lemma_gathered_around<N, T, PE>(s: Seq<PeerOutcome<N, T, PE>>, i: int)
    requires
        0 <= i < s.len(),
    ensures
        gathered(s) == gathered(s.take(i)) + contribution(s[i]) + gathered(s.skip(i + 1)),
{
    assert(s =~= s.take(i) + seq![s[i]] + s.skip(i + 1));
    lemma_gathered_append(s.take(i) + seq![s[i]], s.skip(i + 1));
    lemma_gathered_append(s.take(i), seq![s[i]]);
    lemma_gathered_single(s[i]);
}

/// When one peer fails instead of answering, the answer loses exactly that
/// peer's contribution: the local matches and every other peer's entries stay
/// as they were, in their places.
pub proof fn lemma_failure_isolated<N, T, PE>(local: Seq<T>, s: Seq<PeerOutcome<N, T, PE>>, i: int, e: PE)
    requires
        0 <= i < s.len(),
    ensures
        cluster_view(local, s) == local + gathered(s.take(i)) + contribution(s[i])
            + gathered(s.skip(i + 1)),
        cluster_view(local, s.update(i, (s[i].0, Err(e)))) == local + gathered(s.take(i))
            + gathered(s.skip(i + 1)),
{
    let t = s.update(i, (s[i].0, Err(e)));
    lemma_gathered_around(s, i);
    lemma_gathered_around(t, i);
    assert(t.take(i) =~= s.take(i));
    assert(t.skip(i + 1) =~= s.skip(i + 1));
    assert(contribution(t[i]) =~= Seq::<T>::empty());
    assert(cluster_view(local, s) =~= local + gathered(s.take(i)) + contribution(s[i])
        + gathered(s.skip(i + 1)));
    assert(cluster_view(local, t) =~= local + gathered(s.take(i)) + gathered(s.skip(i + 1)));
}

/// An entry that two peers both report appears in the answer once for each
/// of them, on top of its local copies: nothing is deduplicated.
pub proof fn lemma_duplicates_kept<N, T, PE>(local: Seq<T>, s: Seq<PeerOutcome<N, T, PE>>, i: int, j: int, x: T)
    requires
        0 <= i < j < s.len(),
        contribution(s[i]).contains(x),
        contribution(s[j]).contains(x),
    ensures
        cluster_view(local, s).to_multiset().count(x) >= local.to_multiset().count(x) + 2,
{
    let a = s.take(j);
    lemma_gathered_around(s, j);
    lemma_gathered_around(a, i);
    assert(a[i] == s[i]);
    let p = gathered(a.take(i));
    let q = gathered(a.skip(i + 1));
    let ci = contribution(s[i]);
    let cj = contribution(s[j]);
    let z = gathered(s.skip(j + 1));
    assert(cluster_view(local, s) =~= local + (p + ci) + (q + cj) + z);
    lemma_multiset_commutative(local + (p + ci) + (q + cj), z);
    lemma_multiset_commutative(local + (p + ci), q + cj);
    lemma_multiset_commutative(local, p + ci);
    lemma_multiset_commutative(p, ci);
    lemma_multiset_commutative(q, cj);
    to_multiset_contains(ci, x);
    to_multiset_contains(cj, x);
}

} // verus!
