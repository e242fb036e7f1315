use vstd::prelude::*;

verus! {

/// What a peer answered to a retained-message query, once the transport
/// delivered it.
pub enum PeerReply<T> {
    /// The reply kind that answers a retained-message query: the peer's
    /// matching (topic, retain) entries.
    Retains(Vec<T>),
    /// Any other reply kind; it carries nothing for this query.
    Other,
}

/// One peer's outcome in a fan-out: its node id and either its reply or the
/// communication error that the transport reported for it.
pub type PeerOutcome<N, T, PE> = (N, Result<PeerReply<T>, PE>);

/// The entries that one peer's outcome adds to a lookup: its list when it
/// answered with the expected reply kind, nothing otherwise.
pub open spec fn contribution<N, T, PE>(o: PeerOutcome<N, T, PE>) -> Seq<T> {
    match o.1 {
        Ok(PeerReply::Retains(v)) => v@,
        _ => Seq::empty(),
    }
}

/// The entries that a sequence of peer outcomes adds, in the order of the
/// outcomes.
pub open spec fn gathered<N, T, PE>(s: Seq<PeerOutcome<N, T, PE>>) -> Seq<T>
    decreases s.len(),
{
    if s.len() == 0 {
        Seq::empty()
    } else {
        gathered(s.drop_last()) + contribution(s.last())
    }
}

/// The peers that failed, with their errors, in the order of the outcomes.
pub open spec fn failed<N, T, PE>(s: Seq<PeerOutcome<N, T, PE>>) -> Seq<(N, PE)>
    decreases s.len(),
{
    if s.len() == 0 {
        Seq::empty()
    } else {
        match s.last().1 {
            Err(e) => failed(s.drop_last()).push((s.last().0, e)),
            Ok(_) => failed(s.drop_last()),
        }
    }
}

/// The answer of a cluster-wide lookup: the local matches first, then every
/// peer's contribution in the order the outcomes were collected.
pub open spec fn cluster_view<N, T, PE>(local: Seq<T>, s: Seq<PeerOutcome<N, T, PE>>) -> Seq<T> {
    local + gathered(s)
}

/// Appends to the local matches the entries of every peer that answered with
/// the expected reply kind, and hands back the peers that failed so that the
/// caller can report them. A failed peer contributes nothing and fails nothing.
pub fn merge_replies<N, T, PE>(local: Vec<T>, replies: Vec<PeerOutcome<N, T, PE>>) -> (r: (
    Vec<T>,
    Vec<(N, PE)>,
))
    ensures
        r.0@ == cluster_view(local@, replies@),
        r.1@ == failed(replies@),
{
    let mut merged = local;
    let mut failures: Vec<(N, PE)> = Vec::new();
    let mut rest = replies;
    let ghost all = replies@;
    let ghost n = replies@.len();
    while rest.len() > 0
        invariant
            n == all.len(),
            rest@.len() <= n,
            rest@ == all.skip(n - rest@.len()),
            merged@ == local@ + gathered(all.take(n - rest@.len())),
            failures@ == failed(all.take(n - rest@.len())),
        decreases rest@.len(),
    {
        let ghost i: int = n - rest@.len();
        let ghost before = merged@;
        assert(all.take(i + 1).drop_last() =~= all.take(i));
        assert(all.take(i + 1).last() == all[i]);
        assert(rest@[0] == all[i]);
        let (node, outcome) = rest.remove(0);
        assert(rest@ =~= all.skip(i + 1));
        match outcome {
            Ok(PeerReply::Retains(mut found)) => {
                if found.len() > 0 {
                    merged.append(&mut found);
                } else {
                    assert(found@ =~= Seq::<T>::empty());
                    assert(merged@ =~= before + found@);
                }
            },
            Ok(PeerReply::Other) => {
                assert(merged@ =~= before + Seq::<T>::empty());
            },
            Err(e) => {
                failures.push((node, e));
                assert(merged@ =~= before + Seq::<T>::empty());
            },
        }
        assert(merged@ =~= local@ + gathered(all.take(i + 1)));
    }
    assert(all.take(n as int) =~= all);
    (merged, failures)
}

} // verus!
