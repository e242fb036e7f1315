use vstd::prelude::*;

use crate::reply::{cluster_view, failed, merge_replies, PeerOutcome};

verus! {

/// The kind tag that a node attaches to the requests it sends to its peers.
pub type MessageType = u64;

/// The cluster-aware front of a node's retained-message store. It holds the
/// local store and the request kind it uses when it asks peers; both are
/// fixed when it is built.
pub struct Retainer<S> {
    inner: S,
    pub message_type: MessageType,
}

/// What a lookup asks for next, or its answer.
pub enum GetStep<T, E> {
    /// Ask for the current peer set; the local matches are held meanwhile.
    ListPeers(Vec<T>),
    /// Send a retained-message query with this request kind to every peer and
    /// wait for all of their outcomes; the local matches are held meanwhile.
    Broadcast(MessageType, Vec<T>),
    /// Answer the caller with this result.
    Finish(Result<Vec<T>, E>),
}

impl<S> Retainer<S> {
    /// The local store this front was built over.
    pub closed spec fn store(&self) -> S {
        self.inner
    }

    /// The request kind this front was built with.
    pub closed spec fn request_kind(&self) -> MessageType {
        self.message_type
    }

    /// Builds the front over `inner`, tagging its peer requests with
    /// `message_type`.
    pub fn new(inner: S, message_type: MessageType) -> (r: Self)
        ensures
            r.store() == inner,
            r.request_kind() == message_type,
    {
        Retainer { inner, message_type }
    }

    /// The local store that writes, counts and local lookups go to.
    pub fn inner(&self) -> (r: &S)
        ensures
            *r == self.store(),
    {
        &self.inner
    }

    /// First step of a lookup, once the local store has answered: a local
    /// failure is the answer, and no peer is asked; otherwise the peer set is
    /// needed next.
    pub fn on_local<T, E>(&self, local: Result<Vec<T>, E>) -> (r: GetStep<T, E>)
        ensures
            match local {
                Err(e) => r == GetStep::<T, E>::Finish(Err(e)),
                Ok(v) => r is ListPeers && r->ListPeers_0@ == v@,
            },
    {
        match local {
            Err(e) => GetStep::Finish(Err(e)),
            Ok(v) => GetStep::ListPeers(v),
        }
    }

    /// Second step of a lookup, once the peer set is known: with no peer the
    /// local matches are the answer, as they are; otherwise every peer is
    /// asked with this front's request kind.
    pub fn on_peers<T, E>(&self, held: Vec<T>, peer_count: usize) -> (r: GetStep<T, E>)
        ensures
            peer_count == 0 ==> r is Finish && r->Finish_0 is Ok && r->Finish_0->Ok_0@ == held@,
            peer_count > 0 ==> r is Broadcast && r->Broadcast_0 == self.request_kind()
                && r->Broadcast_1@ == held@,
    {
        if peer_count == 0 {
            GetStep::Finish(Ok(held))
        } else {
            GetStep::Broadcast(self.message_type, held)
        }
    }

    /// Last step of a lookup, once every peer has an outcome: the answer is
    /// the local matches followed by every peer's contribution, and never an
    /// error; the failed peers are handed back so that they can be reported.
    pub fn on_replies<N, T, E, PE>(&self, held: Vec<T>, replies: Vec<PeerOutcome<N, T, PE>>) -> (r: (
        Result<Vec<T>, E>,
        Vec<(N, PE)>,
    ))
        ensures
            r.0 is Ok,
            r.0->Ok_0@ == cluster_view(held@, replies@),
            r.1@ == failed(replies@),
    {
        let (merged, failures) = merge_replies(held, replies);
        (Ok(merged), failures)
    }
}

} // verus!
