//! State-based replicated data types: the capability trait, the lattice laws
//! that every implementation proves, and what follows from them for a cluster
//! that gossips full states.

use crate::message::{BodyView, MsgBody};
use vstd::prelude::*;

verus! {

/// A replicated value that converges by merging full states.
///
/// `State` is the mathematical state; `join` is what `merge` computes on it.
/// An implementation proves that `join` is idempotent, commutative and
/// associative, so that a snapshot may arrive late, twice or out of order.
pub trait CRDT: Sized {
    type Element;

    type Value;

    type State;

    /// The mathematical state of the value.
    spec fn state(&self) -> Self::State;

    /// The representation invariant.
    spec fn wf(&self) -> bool;

    /// The state that every replica starts from.
    spec fn initial() -> Self::State;

    /// Whether `val` can be added without a count leaving its machine type.
    spec fn addable(s: Self::State, val: Self::Element) -> bool;

    /// The state after `val` has been added.
    spec fn added(s: Self::State, val: Self::Element) -> Self::State;

    /// The state that holds what either state holds.
    spec fn join(a: Self::State, b: Self::State) -> Self::State;

    /// Whether the value of `s` fits the machine type of `Value`.
    spec fn readable(s: Self::State) -> bool;

    /// `v` is the value that a state `s` reads as.
    spec fn shows(s: Self::State, v: Self::Value) -> bool;

    /// The state that a body carries in its wire field, if it has one.
    spec fn carried(body: BodyView) -> Option<Self::State>;

    /// The body without the wire field of the state.
    spec fn stripped(body: BodyView) -> BodyView;

    /// The wire field of the body holds every part of a state once.
    spec fn concise(body: BodyView) -> bool;

    /// A replica in the initial state.
    fn init() -> (res: Self)
        ensures
            res.wf(),
            res.state() == Self::initial(),
    ;

    /// Adds `val` locally.
    fn add(&mut self, val: Self::Element)
        requires
            old(self).wf(),
            Self::addable(old(self).state(), val),
        ensures
            final(self).wf(),
            final(self).state() == Self::added(old(self).state(), val),
    ;

    /// The value of the current state. Nothing is waited for: what other
    /// replicas hold and have not sent yet does not show.
    fn read(&self) -> (res: Self::Value)
        requires
            self.wf(),
            Self::readable(self.state()),
        ensures
            Self::shows(self.state(), res),
    ;

    /// Joins the state of `other` into this one.
    fn merge(&mut self, other: &Self)
        requires
            old(self).wf(),
            other.wf(),
        ensures
            final(self).wf(),
            final(self).state() == Self::join(old(self).state(), other.state()),
    ;

    /// The replica that a body carries.
    fn from_msg_body(mb: &MsgBody) -> (res: Self)
        requires
            Self::carried(mb@) is Some,
        ensures
            res.wf(),
            Self::carried(mb@) == Some(res.state()),
    ;

    /// A body of no kind that carries the state and nothing else.
    fn into_msg_body(&self) -> (res: MsgBody)
        requires
            self.wf(),
        ensures
            Self::carried(res@) == Some(self.state()),
            Self::concise(res@),
            Self::stripped(res@) == BodyView::of_kind(Seq::<char>::empty()),
    ;

    /// Whether `mb` carries a state.
    fn carries(mb: &MsgBody) -> (res: bool)
        ensures
            res == (Self::carried(mb@) is Some),
    ;

    /// What a body carries does not depend on its kind or its identifier,
    /// and these are not part of the wire field.
    proof fn lemma_carried_by_field(body: BodyView, typ: Seq<char>, msg_id: Option<u64>)
        ensures
            Self::carried(BodyView { typ, msg_id, ..body }) == Self::carried(body),
            Self::concise(BodyView { typ, msg_id, ..body }) == Self::concise(body),
            Self::stripped(BodyView { typ, msg_id, ..body }) == (BodyView {
                typ,
                msg_id,
                ..Self::stripped(body)
            }),
    ;

    /// Merging a state with itself changes nothing.
    proof fn lemma_join_idempotent(a: Self::State)
        ensures
            Self::join(a, a) == a,
    ;

    /// It does not matter which of two states is merged into which.
    proof fn lemma_join_commutative(a: Self::State, b: Self::State)
        ensures
            Self::join(a, b) == Self::join(b, a),
    ;

    /// It does not matter in which grouping three states are merged.
    proof fn lemma_join_associative(a: Self::State, b: Self::State, c: Self::State)
        ensures
            Self::join(Self::join(a, b), c) == Self::join(a, Self::join(b, c)),
    ;
}

/// Merging the same snapshot a second time changes nothing.
pub proof fn lemma_merge_twice<C: CRDT>(a: C::State, b: C::State)
    ensures
        C::join(C::join(a, b), b) == C::join(a, b),
{
    C::lemma_join_associative(a, b, b);
    C::lemma_join_idempotent(b);
}

/// `a` holds nothing that `b` lacks.
pub open spec fn within<C: CRDT>(a: C::State, b: C::State) -> bool {
    C::join(a, b) == b
}

/// What is within a state is within every state that this one is within.
pub proof fn lemma_within_transitive<C: CRDT>(a: C::State, b: C::State, c: C::State)
    requires
        within::<C>(a, b),
        within::<C>(b, c),
    ensures
        within::<C>(a, c),
{
    C::lemma_join_associative(a, b, c);
}

/// Two states that are within each other are one state.
pub proof fn lemma_within_antisymmetric<C: CRDT>(a: C::State, b: C::State)
    requires
        within::<C>(a, b),
        within::<C>(b, a),
    ensures
        a == b,
{
    C::lemma_join_commutative(a, b);
}

/// Both states are within their join.
pub proof fn lemma_join_upper<C: CRDT>(a: C::State, b: C::State)
    ensures
        within::<C>(a, C::join(a, b)),
        within::<C>(b, C::join(a, b)),
{
    C::lemma_join_associative(a, a, b);
    C::lemma_join_idempotent(a);
    C::lemma_join_commutative(a, b);
    C::lemma_join_associative(b, b, a);
    C::lemma_join_idempotent(b);
}

/// The join of two states is within every state that both are within.
pub proof fn lemma_join_least<C: CRDT>(a: C::State, b: C::State, c: C::State)
    requires
        within::<C>(a, c),
        within::<C>(b, c),
    ensures
        within::<C>(C::join(a, b), c),
{
    C::lemma_join_associative(a, b, c);
}

/// The join of all states of a non-empty cluster.
pub open spec fn join_all<C: CRDT>(states: Seq<C::State>) -> C::State
    decreases states.len(),
{
    if states.len() <= 1 {
        states[0]
    } else {
        C::join(join_all::<C>(states.drop_last()), states.last())
    }
}

/// The state of every node is within the join of all.
pub proof fn lemma_join_all_upper<C: CRDT>(states: Seq<C::State>, k: int)
    requires
        0 <= k < states.len(),
    ensures
        within::<C>(states[k], join_all::<C>(states)),
    decreases states.len(),
{
    if states.len() <= 1 {
        C::lemma_join_idempotent(states[0]);
    } else {
        let rest = states.drop_last();
        lemma_join_upper::<C>(join_all::<C>(rest), states.last());
        if k < states.len() - 1 {
            lemma_join_all_upper::<C>(rest, k);
            lemma_within_transitive::<C>(states[k], join_all::<C>(rest), join_all::<C>(states));
        }
    }
}

/// The join of all states is within every state that each of them is within.
pub proof fn lemma_join_all_least<C: CRDT>(states: Seq<C::State>, c: C::State)
    requires
        states.len() > 0,
        forall|k: int| 0 <= k < states.len() ==> within::<C>(#[trigger] states[k], c),
    ensures
        within::<C>(join_all::<C>(states), c),
    decreases states.len(),
{
    if states.len() > 1 {
        let rest = states.drop_last();
        assert forall|k: int| 0 <= k < rest.len() implies within::<C>(#[trigger] rest[k], c) by {
            assert(rest[k] == states[k]);
        }
        lemma_join_all_least::<C>(rest, c);
        lemma_join_least::<C>(join_all::<C>(rest), states.last(), c);
    }
}

/// What can happen in a simulated cluster: a node adds an element, or a
/// snapshot of one node's state reaches another node and is merged there.
pub enum Event<E> {
    Add { node: int, element: E },
    Deliver { from: int, to: int },
}

/// The states of the cluster after one event. An event that names a node
/// outside the cluster changes nothing.
pub open spec fn after<C: CRDT>(states: Seq<C::State>, event: Event<C::Element>) -> Seq<C::State> {
    match event {
        Event::Add { node, element } => if 0 <= node < states.len() {
            states.update(node, C::added(states[node], element))
        } else {
            states
        },
        Event::Deliver { from, to } => if 0 <= from < states.len() && 0 <= to < states.len() {
            states.update(to, C::join(states[to], states[from]))
        } else {
            states
        },
    }
}

/// The states of the cluster after a sequence of events.
pub open spec fn after_all<C: CRDT>(states: Seq<C::State>, events: Seq<Event<C::Element>>) -> Seq<
    C::State,
>
    decreases events.len(),
{
    if events.len() == 0 {
        states
    } else {
        after::<C>(after_all::<C>(states, events.drop_last()), events.last())
    }
}

/// The events are deliveries only.
pub open spec fn gossip_only<E>(events: Seq<Event<E>>) -> bool {
    forall|k: int| 0 <= k < events.len() ==> #[trigger] events[k] is Deliver
}

/// Among the events is a delivery of a snapshot of `from` to `to`.
pub open spec fn delivered<E>(events: Seq<Event<E>>, from: int, to: int) -> bool {
    exists|k: int|
        0 <= k < events.len() && #[trigger] events[k] == (Event::<E>::Deliver { from, to })
}

/// Every node of a cluster of `n` hears from every other node.
pub open spec fn all_pairs_delivered<E>(events: Seq<Event<E>>, n: int) -> bool {
    forall|a: int, b: int|
        0 <= a < n && 0 <= b < n && a != b ==> #[trigger] delivered(events, a, b)
}

/// Events after events: the second sequence goes on where the first ended.
pub proof fn lemma_after_all_concat<C: CRDT>(
    states: Seq<C::State>,
    first: Seq<Event<C::Element>>,
    then: Seq<Event<C::Element>>,
)
    ensures
        after_all::<C>(states, first + then) == after_all::<C>(
            after_all::<C>(states, first),
            then,
        ),
    decreases then.len(),
{
    if then.len() == 0 {
        assert(first + then =~= first);
    } else {
        lemma_after_all_concat::<C>(states, first, then.drop_last());
        assert((first + then).drop_last() =~= first + then.drop_last());
        assert((first + then).last() == then.last());
    }
}

/// Under gossip a node's state only grows, and never beyond the join of the
/// states that the cluster started with.
pub proof fn lemma_gossip_bounds<C: CRDT>(
    states: Seq<C::State>,
    events: Seq<Event<C::Element>>,
    k: int,
)
    requires
        gossip_only(events),
        0 <= k < states.len(),
    ensures
        after_all::<C>(states, events).len() == states.len(),
        within::<C>(states[k], after_all::<C>(states, events)[k]),
        within::<C>(after_all::<C>(states, events)[k], join_all::<C>(states)),
    decreases events.len(),
{
    if events.len() == 0 {
        C::lemma_join_idempotent(states[k]);
        lemma_join_all_upper::<C>(states, k);
    } else {
        let earlier = events.drop_last();
        assert(gossip_only(earlier)) by {
            assert forall|i: int| 0 <= i < earlier.len() implies #[trigger] earlier[i]
                is Deliver by {
                assert(events[i] is Deliver);
            }
        }
        lemma_gossip_bounds::<C>(states, earlier, k);
        let before = after_all::<C>(states, earlier);
        assert(events[events.len() - 1] is Deliver);
        match events.last() {
            Event::Deliver { from, to } => {
                if 0 <= from < before.len() && 0 <= to < before.len() && to == k {
                    lemma_gossip_bounds::<C>(states, earlier, from);
                    lemma_join_upper::<C>(before[to], before[from]);
                    lemma_within_transitive::<C>(
                        states[k],
                        before[k],
                        C::join(before[to], before[from]),
                    );
                    lemma_join_least::<C>(before[to], before[from], join_all::<C>(states));
                }
            },
            Event::Add { .. } => {},
        }
    }
}

/// Once a snapshot of `from` has been delivered to `to`, the state of `to`
/// holds everything that `from` started with.
pub proof fn lemma_gossip_delivered<C: CRDT>(
    states: Seq<C::State>,
    events: Seq<Event<C::Element>>,
    at: int,
    from: int,
    to: int,
)
    requires
        gossip_only(events),
        0 <= from < states.len(),
        0 <= to < states.len(),
        0 <= at < events.len(),
        events[at] == (Event::<C::Element>::Deliver { from, to }),
    ensures
        within::<C>(states[from], after_all::<C>(states, events)[to]),
    decreases events.len(),
{
    let earlier = events.drop_last();
    assert(gossip_only(earlier)) by {
        assert forall|i: int| 0 <= i < earlier.len() implies #[trigger] earlier[i] is Deliver by {
            assert(events[i] is Deliver);
        }
    }
    let before = after_all::<C>(states, earlier);
    lemma_gossip_bounds::<C>(states, earlier, from);
    lemma_gossip_bounds::<C>(states, earlier, to);
    if at == events.len() - 1 {
        lemma_join_upper::<C>(before[to], before[from]);
        lemma_within_transitive::<C>(states[from], before[from], C::join(before[to], before[from]));
    } else {
        lemma_gossip_delivered::<C>(states, earlier, at, from, to);
        assert(events[events.len() - 1] is Deliver);
        match events.last() {
            Event::Deliver { from: f, to: t } => {
                if 0 <= f < before.len() && t == to {
                    lemma_join_upper::<C>(before[to], before[f]);
                    lemma_within_transitive::<C>(
                        states[from],
                        before[to],
                        C::join(before[to], before[f]),
                    );
                }
            },
            Event::Add { .. } => {},
        }
    }
}

/// After gossip in which every node has heard from every other node, in any
/// order and with any repetition, every node holds the join of the states that
/// the cluster started with.
pub proof fn lemma_gossip_reaches_join<C: CRDT>(
    states: Seq<C::State>,
    rounds: Seq<Event<C::Element>>,
    k: int,
)
    requires
        gossip_only(rounds),
        all_pairs_delivered(rounds, states.len() as int),
        0 <= k < states.len(),
    ensures
        after_all::<C>(states, rounds).len() == states.len(),
        after_all::<C>(states, rounds)[k] == join_all::<C>(states),
{
    let end = after_all::<C>(states, rounds);
    lemma_gossip_bounds::<C>(states, rounds, k);
    assert forall|a: int| 0 <= a < states.len() implies within::<C>(
        #[trigger] states[a],
        end[k],
    ) by {
        if a != k {
            assert(delivered(rounds, a, k));
            let at = choose|at: int|
                0 <= at < rounds.len() && #[trigger] rounds[at] == (Event::<C::Element>::Deliver {
                    from: a,
                    to: k,
                });
            lemma_gossip_delivered::<C>(states, rounds, at, a, k);
        }
    }
    lemma_join_all_least::<C>(states, end[k]);
    lemma_within_antisymmetric::<C>(end[k], join_all::<C>(states));
}

/// No event adds a node to the cluster or takes one away.
pub proof fn lemma_after_all_len<C: CRDT>(states: Seq<C::State>, events: Seq<Event<C::Element>>)
    ensures
        after_all::<C>(states, events).len() == states.len(),
    decreases events.len(),
{
    if events.len() > 0 {
        lemma_after_all_len::<C>(states, events.drop_last());
    }
}

/// Convergence: whatever adds and deliveries happened, in whatever
/// interleaving, once they are followed by gossip in which every node hears
/// from every other node, any two nodes hold the same state, the join of the
/// states that they had when the gossip began, and so read the same value.
pub proof fn lemma_convergence<C: CRDT>(
    states: Seq<C::State>,
    history: Seq<Event<C::Element>>,
    rounds: Seq<Event<C::Element>>,
    i: int,
    j: int,
)
    requires
        gossip_only(rounds),
        all_pairs_delivered(rounds, states.len() as int),
        0 <= i < states.len(),
        0 <= j < states.len(),
    ensures
        after_all::<C>(states, history + rounds)[i] == after_all::<C>(states, history + rounds)[j],
        after_all::<C>(states, history + rounds)[i] == join_all::<C>(
            after_all::<C>(states, history),
        ),
        forall|v: C::Value|
            C::shows(after_all::<C>(states, history + rounds)[i], v) <==> C::shows(
                after_all::<C>(states, history + rounds)[j],
                v,
            ),
{
    lemma_after_all_concat::<C>(states, history, rounds);
    lemma_after_all_len::<C>(states, history);
    let settled = after_all::<C>(states, history);
    lemma_gossip_reaches_join::<C>(settled, rounds, i);
    lemma_gossip_reaches_join::<C>(settled, rounds, j);
}

} // verus!
