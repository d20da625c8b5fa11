//! The node that keeps one replicated value: handshake, local adds, merges of
//! remote snapshots, reads, and the snapshots of the anti-entropy task.

use crate::crdt::{after, Event, CRDT};
use crate::message::{reply, reply_to, BodyView, Message, MessageView, MsgBody};
use crate::node::{
    effects_of, meets, next_id, others, others_of, Effect, EffectView, Fault, MessageIdGenerator,
    REPLICATION_INTERVAL_MS,
};
use crate::value::{Value, ValueView};
use vstd::prelude::*;

verus! {

/// A node and its replicated value.
pub struct Replica<C: CRDT> {
    pub node_id: String,
    /// The other nodes of the cluster.
    pub peers: Vec<String>,
    pub crdt: C,
    pub ids: MessageIdGenerator,
    /// Whether the handshake has happened.
    pub initialized: bool,
}

/// The mathematical content of a [`Replica`].
pub struct ReplicaView<S> {
    pub node_id: Seq<char>,
    pub peers: Seq<Seq<char>>,
    pub state: S,
    pub next_id: u64,
    pub initialized: bool,
}

/// The body of the response of kind `typ` that carries the identifier `id`.
pub open spec fn ack_to(origin: MessageView, typ: Seq<char>, id: u64) -> MessageView {
    reply_to(origin, BodyView::request(typ, id))
}

/// A handshake request names the node and the nodes of the cluster.
pub open spec fn is_handshake(body: BodyView) -> bool {
    body.msg_id is Some && body.node_id is Some && body.node_ids is Some
}

/// What the handshake does to a node, and what the node answers. Only the
/// first handshake sets the identity and starts replication.
pub open spec fn handshake_outcome<S>(node: ReplicaView<S>, msg: MessageView) -> Result<
    (ReplicaView<S>, Seq<EffectView>),
    Fault,
> {
    if !is_handshake(msg.body) {
        Err(Fault::Malformed)
    } else {
        let ack = EffectView::Send(ack_to(msg, "init_ok"@, node.next_id));
        if node.initialized {
            Ok((ReplicaView { next_id: next_id(node.next_id), ..node }, seq![ack]))
        } else {
            Ok(
                (
                    ReplicaView {
                        node_id: msg.body.node_id.unwrap(),
                        peers: others(msg.body.node_ids.unwrap(), msg.body.node_id.unwrap()),
                        state: node.state,
                        next_id: next_id(node.next_id),
                        initialized: true,
                    },
                    seq![
                        EffectView::StartReplication { interval_ms: REPLICATION_INTERVAL_MS },
                        ack,
                    ],
                ),
            )
        }
    }
}

/// What a valid `add` does: the element is added and the request acknowledged.
pub open spec fn add_outcome<S>(node: ReplicaView<S>, msg: MessageView, state: S) -> Result<
    (ReplicaView<S>, Seq<EffectView>),
    Fault,
> {
    if msg.body.msg_id is None {
        Err(Fault::Malformed)
    } else {
        Ok(
            (
                ReplicaView { state, next_id: next_id(node.next_id), ..node },
                seq![EffectView::Send(ack_to(msg, "add_ok"@, node.next_id))],
            ),
        )
    }
}

/// What `replicate` does: the snapshot is merged and nothing is answered.
pub open spec fn merge_outcome<C: CRDT>(node: ReplicaView<C::State>, msg: MessageView) -> Result<
    (ReplicaView<C::State>, Seq<EffectView>),
    Fault,
> {
    match C::carried(msg.body) {
        Some(snapshot) => Ok(
            (
                ReplicaView { state: C::join(node.state, snapshot), ..node },
                Seq::<EffectView>::empty(),
            ),
        ),
        None => Err(Fault::Malformed),
    }
}

/// What a valid `read` does: the value is shown and the node is unchanged but
/// for the identifier that the response took.
pub open spec fn read_outcome<S>(node: ReplicaView<S>, msg: MessageView, value: ValueView) -> Result<
    (ReplicaView<S>, Seq<EffectView>),
    Fault,
> {
    if msg.body.msg_id is None {
        Err(Fault::Malformed)
    } else {
        Ok(
            (
                ReplicaView { next_id: next_id(node.next_id), ..node },
                seq![EffectView::Send(reading_reply(msg, node.next_id, value))],
            ),
        )
    }
}

/// The `read_ok` response that shows `value`.
pub open spec fn reading_reply(origin: MessageView, id: u64, value: ValueView) -> MessageView {
    reply_to(origin, BodyView { value: Some(value), ..BodyView::request("read_ok"@, id) })
}

/// The states of the replicas of a cluster.
pub open spec fn states_of<S>(nodes: Seq<ReplicaView<S>>) -> Seq<S> {
    nodes.map_values(|node: ReplicaView<S>| node.state)
}

/// A snapshot of one replica that another replica handles as `replicate`
/// does to the cluster what the delivery of the one to the other does, and
/// nothing is answered.
pub proof fn lemma_replicate_is_delivery<C: CRDT>(
    nodes: Seq<ReplicaView<C::State>>,
    from: int,
    to: int,
    msg: MessageView,
)
    requires
        0 <= from < nodes.len(),
        0 <= to < nodes.len(),
        C::carried(msg.body) == Some(nodes[from].state),
    ensures
        merge_outcome::<C>(nodes[to], msg) matches Ok((node, effects)) && effects.len() == 0
            && states_of(nodes.update(to, node)) == after::<C>(
            states_of(nodes),
            Event::Deliver { from, to },
        ),
{
    let node = merge_outcome::<C>(nodes[to], msg).unwrap().0;
    assert(states_of(nodes.update(to, node)) =~= after::<C>(
        states_of(nodes),
        Event::Deliver { from, to },
    ));
}

/// An element that a replica adds on request does to the cluster what the
/// add of that node does.
pub proof fn lemma_add_is_event<C: CRDT>(
    nodes: Seq<ReplicaView<C::State>>,
    at: int,
    msg: MessageView,
    element: C::Element,
)
    requires
        0 <= at < nodes.len(),
        msg.body.msg_id is Some,
    ensures
        add_outcome(nodes[at], msg, C::added(nodes[at].state, element)) matches Ok((node, _))
            && states_of(nodes.update(at, node)) == after::<C>(
            states_of(nodes),
            Event::Add { node: at, element },
        ),
{
    let node = add_outcome(nodes[at], msg, C::added(nodes[at].state, element)).unwrap().0;
    assert(states_of(nodes.update(at, node)) =~= after::<C>(
        states_of(nodes),
        Event::Add { node: at, element },
    ));
}

impl<C: CRDT> View for Replica<C> {
    type V = ReplicaView<C::State>;

    open spec fn view(&self) -> ReplicaView<C::State> {
        ReplicaView {
            node_id: self.node_id@,
            peers: self.peers.deep_view(),
            state: self.crdt.state(),
            next_id: self.ids@,
            initialized: self.initialized,
        }
    }
}

impl<C: CRDT> Replica<C> {
    /// The representation invariant: that of the replicated value.
    pub open spec fn wf(&self) -> bool {
        self.crdt.wf()
    }

    /// A node before its handshake: no identity, no peers, the initial value.
    pub fn new() -> (res: Self)
        ensures
            res.wf(),
            res@ == (ReplicaView {
                node_id: Seq::<char>::empty(),
                peers: Seq::<Seq<char>>::empty(),
                state: C::initial(),
                next_id: 0,
                initialized: false,
            }),
    {
        let res = Replica {
            node_id: String::new(),
            peers: Vec::new(),
            crdt: C::init(),
            ids: MessageIdGenerator::new(),
            initialized: false,
        };
        proof {
            assert(res.peers.deep_view() =~= Seq::<Seq<char>>::empty());
        }
        res
    }

    /// Handles `init`.
    pub fn on_init(&mut self, msg: &Message) -> (res: Result<Vec<Effect>, Fault>)
        requires
            old(self).wf(),
        ensures
            final(self).wf(),
            meets(old(self)@, final(self)@, effects_of(res), handshake_outcome(old(self)@, msg@)),
    {
        if msg.body.msg_id.is_none() {
            return Err(Fault::Malformed);
        }
        let mut effects: Vec<Effect> = Vec::new();
        match (&msg.body.node_id, &msg.body.node_ids) {
            (Some(node_id), Some(node_ids)) => {
                if !self.initialized {
                    self.peers = others_of(node_ids, node_id);
                    self.node_id = node_id.clone();
                    self.initialized = true;
                    effects.push(Effect::StartReplication { interval_ms: REPLICATION_INTERVAL_MS });
                }
            },
            _ => {
                return Err(Fault::Malformed);
            },
        }
        let id = self.ids.fresh();
        effects.push(Effect::Send(reply(msg, MsgBody::request("init_ok", id))));
        proof {
            let wanted = handshake_outcome(old(self)@, msg@).unwrap().1;
            assert(effects.deep_view() =~= wanted);
        }
        Ok(effects)
    }

    /// Adds `element` on behalf of the request `msg` and acknowledges it.
    pub fn apply(&mut self, msg: &Message, element: C::Element) -> (res: Result<Vec<Effect>, Fault>)
        requires
            old(self).wf(),
            C::addable(old(self).crdt.state(), element),
        ensures
            final(self).wf(),
            meets(
                old(self)@,
                final(self)@,
                effects_of(res),
                add_outcome(old(self)@, msg@, C::added(old(self)@.state, element)),
            ),
    {
        if msg.body.msg_id.is_none() {
            return Err(Fault::Malformed);
        }
        self.crdt.add(element);
        let id = self.ids.fresh();
        let mut effects: Vec<Effect> = Vec::new();
        effects.push(Effect::Send(reply(msg, MsgBody::request("add_ok", id))));
        proof {
            assert(effects.deep_view() =~= seq![
                EffectView::Send(ack_to(msg@, "add_ok"@, old(self)@.next_id)),
            ]);
        }
        Ok(effects)
    }

    /// Handles `replicate`: merges the snapshot that `msg` carries. Nothing is
    /// answered.
    pub fn absorb(&mut self, msg: &Message) -> (res: Result<Vec<Effect>, Fault>)
        requires
            old(self).wf(),
        ensures
            final(self).wf(),
            meets(old(self)@, final(self)@, effects_of(res), merge_outcome::<C>(old(self)@, msg@)),
    {
        if !C::carries(&msg.body) {
            return Err(Fault::Malformed);
        }
        let other = C::from_msg_body(&msg.body);
        self.crdt.merge(&other);
        let effects: Vec<Effect> = Vec::new();
        proof {
            assert(effects.deep_view() =~= Seq::<EffectView>::empty());
        }
        Ok(effects)
    }

    /// Answers the `read` request `msg` with `value`.
    pub fn answer(&mut self, msg: &Message, value: Value) -> (res: Result<Vec<Effect>, Fault>)
        requires
            old(self).wf(),
        ensures
            final(self).wf(),
            meets(old(self)@, final(self)@, effects_of(res), read_outcome(old(self)@, msg@, value@)),
    {
        if msg.body.msg_id.is_none() {
            return Err(Fault::Malformed);
        }
        let id = self.ids.fresh();
        let mut body = MsgBody::request("read_ok", id);
        body.value = Some(value);
        let mut effects: Vec<Effect> = Vec::new();
        effects.push(Effect::Send(reply(msg, body)));
        proof {
            assert(effects.deep_view() =~= seq![
                EffectView::Send(reading_reply(msg@, old(self)@.next_id, value@)),
            ]);
        }
        Ok(effects)
    }

    /// One round of anti-entropy: for every peer, in order, a `replicate`
    /// message that carries the full state and nothing else, not even an
    /// identifier. Nothing is acknowledged or sent again; the next round
    /// ships the state anew.
    pub fn snapshots(&self) -> (res: Vec<Message>)
        requires
            self.wf(),
        ensures
            res.len() == self@.peers.len(),
            forall|i: int|
                0 <= i < res.len() ==> {
                    &&& (#[trigger] res[i])@.src == self@.node_id
                    &&& res[i]@.dest == self@.peers[i]
                    &&& C::stripped(res[i]@.body) == BodyView::of_kind("replicate"@)
                    &&& C::carried(res[i]@.body) == Some(self@.state)
                    &&& C::concise(res[i]@.body)
                },
    {
        let mut res: Vec<Message> = Vec::new();
        let mut i: usize = 0;
        while i < self.peers.len()
            invariant
                i <= self.peers.len(),
                self.wf(),
                res.len() == i,
                forall|j: int|
                    0 <= j < i ==> {
                        &&& (#[trigger] res[j])@.src == self@.node_id
                        &&& res[j]@.dest == self.peers[j]@
                        &&& C::stripped(res[j]@.body) == BodyView::of_kind("replicate"@)
                        &&& C::carried(res[j]@.body) == Some(self@.state)
                        &&& C::concise(res[j]@.body)
                    },
            decreases self.peers.len() - i,
        {
            let mut body = self.crdt.into_msg_body();
            let ghost bare = body@;
            body.typ = "replicate".to_owned();
            proof {
                C::lemma_carried_by_field(bare, bare.typ, bare.msg_id);
                assert(bare == BodyView { typ: bare.typ, msg_id: bare.msg_id, ..bare });
                C::lemma_carried_by_field(bare, "replicate"@, None);
                assert(body@ == BodyView { typ: "replicate"@, msg_id: None, ..bare });
            }
            res.push(Message { src: self.node_id.clone(), dest: self.peers[i].clone(), body });
            i += 1;
        }
        res
    }
}

} // verus!
