//! The session store that topologies live in.

use crate::control::topology::{Mutation, MutationView, Topology, TopologySnapshot};
use vstd::prelude::*;

verus! {

/// Identifies a mutation that a store has applied.
pub type MutationId = u64;

/// Errors of a session store.
#[derive(Debug, Clone, PartialEq, Eq)]
pub enum StoreError {
    /// The mutation is not valid.
    InvalidMutation(String),
    /// The mutation could not be made durable.
    Persistence(String),
    /// The store does not support the operation.
    Unimplemented(&'static str),
}

/// The contents of a [`StoreError`].
pub enum StoreErrorView {
    /// See [`StoreError::InvalidMutation`].
    InvalidMutation(Seq<char>),
    /// See [`StoreError::Persistence`].
    Persistence(Seq<char>),
    /// See [`StoreError::Unimplemented`].
    Unimplemented(Seq<char>),
}

impl View for StoreError {
    type V = StoreErrorView;

    open spec fn view(&self) -> StoreErrorView {
        match self {
            StoreError::InvalidMutation(m) => StoreErrorView::InvalidMutation(m@),
            StoreError::Persistence(m) => StoreErrorView::Persistence(m@),
            StoreError::Unimplemented(m) => StoreErrorView::Unimplemented(m@),
        }
    }
}

/// The contents of a store's answer to a mutation.
pub open spec fn answer_view(r: Result<MutationId, StoreError>) -> Result<
    MutationId,
    StoreErrorView,
> {
    match r {
        Ok(id) => Ok(id),
        Err(e) => Err(e@),
    }
}

/// A mutation that a store was asked to apply.
pub struct Request {
    /// The mutation.
    pub mutation: MutationView,
    /// Whether the store applied it; otherwise it refused.
    pub applied: bool,
}

/// What a store has been asked for.
#[verifier::ext_equal]
pub struct Requests {
    /// The requests, the oldest first.
    pub made: Seq<Request>,
}

impl Requests {
    /// The requests with one more.
    pub open spec fn with(self, mutation: MutationView, applied: bool) -> Requests {
        Requests { made: self.made.push(Request { mutation, applied }) }
    }

    /// The requests with several more, all of them applied.
    pub open spec fn with_all(self, more: Seq<MutationView>) -> Requests {
        Requests {
            made: self.made + more.map_values(
                |mutation: MutationView| Request { mutation, applied: true },
            ),
        }
    }

    /// Whether a request was refused since there were only the requests `before`.
    pub open spec fn refused_since(self, before: Requests) -> bool {
        exists|i: int|
            before.made.len() <= i < self.made.len() && !(#[trigger] self.made[i]).applied
    }
}

/// A store that holds the topology of a session.
pub trait SessionStore: Sized {
    /// The topology that the store holds.
    spec fn topology(&self) -> Topology;

    /// What the store answers, in its present state, when it is asked to apply
    /// a mutation.
    spec fn answer(&self, m: MutationView) -> Result<MutationId, StoreErrorView>;

    /// Whether the store, having refused a mutation in its present state, can stand
    /// as `after`.
    spec fn refuses(&self, m: MutationView, after: Self) -> bool;

    /// What the store has been asked for so far.
    spec fn requests(&self) -> Requests;

    /// Whether the store applies every mutation that it is given, now and later.
    spec fn applies_all(&self) -> bool;

    /// A copy of the topology.
    fn get_topology(&self) -> (t: TopologySnapshot)
        ensures
            t@ == self.topology(),
    ;

    /// Asks the store to apply a mutation. A mutation that it answers with an id
    /// has been applied.
    fn apply_mutation(&mut self, mutation: Mutation) -> (r: Result<MutationId, StoreError>)
        ensures
            answer_view(r) == old(self).answer(mutation@),
            final(self).requests() == old(self).requests().with(mutation@, r is Ok),
            r is Err ==> old(self).refuses(mutation@, *final(self)),
            r is Ok ==> final(self).topology() == old(self).topology().after(mutation@),
            old(self).applies_all() ==> r is Ok && final(self).applies_all(),
    ;
}

/// A store in memory. It applies every mutation and numbers them from 1.
pub struct InMemoryStore {
    topology: TopologySnapshot,
    next: MutationId,
    requests: Ghost<Requests>,
}

impl InMemoryStore {
    /// The id that the next mutation gets.
    pub closed spec fn next_id(self) -> MutationId {
        self.next
    }

    /// A store with an empty topology.
    pub fn new() -> (s: Self)
        ensures
            s.topology() == Topology::empty(),
            s.next_id() == 1,
            s.requests().made == Seq::<Request>::empty(),
            s.applies_all(),
    {
        InMemoryStore {
            topology: TopologySnapshot::new(),
            next: 1,
            requests: Ghost(Requests { made: Seq::empty() }),
        }
    }
}

impl SessionStore for InMemoryStore {
    closed spec fn topology(&self) -> Topology {
        self.topology@
    }

    open spec fn answer(&self, m: MutationView) -> Result<MutationId, StoreErrorView> {
        Ok(self.next_id())
    }

    open spec fn refuses(&self, m: MutationView, after: Self) -> bool {
        false
    }

    closed spec fn requests(&self) -> Requests {
        self.requests@
    }

    open spec fn applies_all(&self) -> bool {
        true
    }

    fn get_topology(&self) -> (t: TopologySnapshot) {
        self.topology.clone()
    }

    fn apply_mutation(&mut self, mutation: Mutation) -> (r: Result<MutationId, StoreError>)
        ensures
            final(self).next_id() == old(self).next_id().wrapping_add(1),
    {
        let id: MutationId = self.next;
        self.requests = Ghost(self.requests@.with(mutation@, true));
        self.next = id.wrapping_add(1);
        self.topology.apply(&mutation);
        Ok(id)
    }
}

/// A request is noted behind those that were made before, and so are several, all of them
/// as applied.
pub proof fn law_requests_are_noted_in_order(
    requests: Requests,
    m: MutationView,
    applied: bool,
    more: Seq<MutationView>,
    i: int,
)
    ensures
        requests.with(m, applied).made == requests.made.push(Request { mutation: m, applied }),
        requests.with_all(more).made.len() == requests.made.len() + more.len(),
        0 <= i < requests.made.len() ==> requests.with_all(more).made[i] == requests.made[i],
        0 <= i < more.len() ==> requests.with_all(more).made[requests.made.len() + i] == (Request {
            mutation: more[i],
            applied: true,
        }),
{
}

} // verus!
