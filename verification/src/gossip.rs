//! The broadcast workload: every new payload is handed to one retry task per
//! neighbor, which sends it until it is acknowledged; a payload that was
//! delivered before is acknowledged and goes no further.

use crate::gset::elements;
use crate::message::{reply, reply_to, BodyView, Message, MessageView, MsgBody};
use crate::node::{
    copy_ids, effects_of, id_after, meets, next_id, others, others_of, Effect, EffectView, Fault,
    MessageIdGenerator, RESEND_INTERVAL_MS,
};
use crate::replica::{ack_to, is_handshake};
use crate::value::{Value, ValueView};
use std::collections::{HashMap, HashSet};
use vstd::prelude::*;

verus! {

broadcast use vstd::std_specs::hash::group_hash_axioms;

/// Where a retry task stands. A task starts `Idle`, is `Sending` from its
/// start until it is acknowledged, and ends `Idle`.
#[derive(Clone, Copy, Debug, PartialEq, Eq, Structural)]
pub enum RetryPhase {
    Idle,
    Sending,
}

/// What a retry task is told.
#[derive(Clone, Copy, Debug, PartialEq, Eq, Structural)]
pub enum RetrySignal {
    /// The task is started.
    Start,
    /// The resend interval has passed without an acknowledgment.
    Timeout,
    /// The acknowledgment has arrived: the task is cancelled.
    Ack,
}

/// What a retry task does next.
#[derive(Clone, Copy, Debug, PartialEq, Eq, Structural)]
pub enum RetryOrder {
    /// Send the message, then wait for the acknowledgment for `wait_ms`.
    Transmit { wait_ms: u64 },
    /// Send nothing more.
    Stop,
}

/// One step of a retry task.
pub open spec fn retry_step(phase: RetryPhase, signal: RetrySignal) -> (RetryPhase, RetryOrder) {
    match (phase, signal) {
        (_, RetrySignal::Start) => (
            RetryPhase::Sending,
            RetryOrder::Transmit { wait_ms: RESEND_INTERVAL_MS },
        ),
        (RetryPhase::Sending, RetrySignal::Timeout) => (
            RetryPhase::Sending,
            RetryOrder::Transmit { wait_ms: RESEND_INTERVAL_MS },
        ),
        (RetryPhase::Idle, RetrySignal::Timeout) => (RetryPhase::Idle, RetryOrder::Stop),
        (_, RetrySignal::Ack) => (RetryPhase::Idle, RetryOrder::Stop),
    }
}

/// The phase of a task after a sequence of signals.
pub open spec fn retry_phase(phase: RetryPhase, signals: Seq<RetrySignal>) -> RetryPhase
    decreases signals.len(),
{
    if signals.len() == 0 {
        phase
    } else {
        retry_step(retry_phase(phase, signals.drop_last()), signals.last()).0
    }
}

/// The orders that a task gives in answer to a sequence of signals.
pub open spec fn retry_orders(phase: RetryPhase, signals: Seq<RetrySignal>) -> Seq<RetryOrder>
    decreases signals.len(),
{
    if signals.len() == 0 {
        Seq::empty()
    } else {
        retry_orders(phase, signals.drop_last()).push(
            retry_step(retry_phase(phase, signals.drop_last()), signals.last()).1,
        )
    }
}

/// The task of sending one gossip message to one neighbor until it is
/// acknowledged.
#[derive(Debug)]
pub struct RetryTask {
    pub phase: RetryPhase,
}

impl RetryTask {
    /// A task that has not been started.
    pub fn new() -> (res: RetryTask)
        ensures
            res.phase == RetryPhase::Idle,
    {
        RetryTask { phase: RetryPhase::Idle }
    }

    /// Takes one signal and says what to do next.
    pub fn step(&mut self, signal: RetrySignal) -> (order: RetryOrder)
        ensures
            (final(self).phase, order) == retry_step(old(self).phase, signal),
    {
        match (self.phase, signal) {
            (_, RetrySignal::Start) => {
                self.phase = RetryPhase::Sending;
                RetryOrder::Transmit { wait_ms: RESEND_INTERVAL_MS }
            },
            (RetryPhase::Sending, RetrySignal::Timeout) => RetryOrder::Transmit {
                wait_ms: RESEND_INTERVAL_MS,
            },
            (RetryPhase::Idle, RetrySignal::Timeout) => RetryOrder::Stop,
            (_, RetrySignal::Ack) => {
                self.phase = RetryPhase::Idle;
                RetryOrder::Stop
            },
        }
    }
}

/// Without an acknowledgment a started task goes on for ever: after the
/// start and any number of timeouts it is still sending, and it has ordered
/// one transmission for the start and one for each timeout, each followed by
/// a wait of the fixed interval.
pub proof fn lemma_retry_resends(signals: Seq<RetrySignal>)
    requires
        signals.len() > 0,
        signals[0] == RetrySignal::Start,
        forall|k: int| 1 <= k < signals.len() ==> signals[k] == RetrySignal::Timeout,
    ensures
        retry_phase(RetryPhase::Idle, signals) == RetryPhase::Sending,
        retry_orders(RetryPhase::Idle, signals).len() == signals.len(),
        forall|k: int|
            0 <= k < signals.len() ==> retry_orders(RetryPhase::Idle, signals)[k] == (
            RetryOrder::Transmit { wait_ms: RESEND_INTERVAL_MS }),
    decreases signals.len(),
{
    if signals.len() == 1 {
        assert(signals.drop_last() =~= Seq::empty());
        assert(retry_phase(RetryPhase::Idle, signals.drop_last()) == RetryPhase::Idle);
        assert(retry_orders(RetryPhase::Idle, signals.drop_last()) =~= Seq::empty());
    } else {
        lemma_retry_resends(signals.drop_last());
    }
}

/// What a task does on one sequence of signals after another.
pub proof fn lemma_retry_in_turn(phase: RetryPhase, first: Seq<RetrySignal>, then: Seq<RetrySignal>)
    ensures
        retry_phase(phase, first + then) == retry_phase(retry_phase(phase, first), then),
        retry_orders(phase, first + then) == retry_orders(phase, first) + retry_orders(
            retry_phase(phase, first),
            then,
        ),
    decreases then.len(),
{
    if then.len() == 0 {
        assert(first + then =~= first);
        assert(retry_orders(phase, first) + Seq::<RetryOrder>::empty() =~= retry_orders(
            phase,
            first,
        ));
    } else {
        lemma_retry_in_turn(phase, first, then.drop_last());
        assert((first + then).drop_last() =~= first + then.drop_last());
        assert((first + then).last() == then.last());
        assert(retry_orders(phase, first + then) =~= retry_orders(phase, first) + retry_orders(
            retry_phase(phase, first),
            then,
        ));
    }
}

/// A task that is idle and is not started orders no transmission.
pub proof fn lemma_retry_stays_stopped(signals: Seq<RetrySignal>)
    requires
        forall|k: int| 0 <= k < signals.len() ==> signals[k] != RetrySignal::Start,
    ensures
        retry_phase(RetryPhase::Idle, signals) == RetryPhase::Idle,
        retry_orders(RetryPhase::Idle, signals).len() == signals.len(),
        forall|k: int|
            0 <= k < signals.len() ==> retry_orders(RetryPhase::Idle, signals)[k]
                == RetryOrder::Stop,
    decreases signals.len(),
{
    if signals.len() > 0 {
        lemma_retry_stays_stopped(signals.drop_last());
    }
}

/// The acknowledgment ends a task, whatever came before it: the task is
/// ordered to stop and, unless it is started anew, it orders no
/// transmission ever after.
pub proof fn lemma_retry_ack_stops(
    phase: RetryPhase,
    before: Seq<RetrySignal>,
    after: Seq<RetrySignal>,
)
    requires
        forall|k: int| 0 <= k < after.len() ==> after[k] != RetrySignal::Start,
    ensures
        retry_phase(phase, before.push(RetrySignal::Ack) + after) == RetryPhase::Idle,
        retry_orders(phase, before.push(RetrySignal::Ack) + after).len() == before.len() + 1
            + after.len(),
        forall|k: int|
            before.len() <= k < before.len() + 1 + after.len() ==> retry_orders(
                phase,
                before.push(RetrySignal::Ack) + after,
            )[k] == RetryOrder::Stop,
{
    let acked = before.push(RetrySignal::Ack);
    assert(acked.drop_last() =~= before);
    lemma_retry_orders_len(phase, before);
    lemma_retry_in_turn(phase, acked, after);
    lemma_retry_stays_stopped(after);
}

/// A task gives one order for every signal.
pub proof fn lemma_retry_orders_len(phase: RetryPhase, signals: Seq<RetrySignal>)
    ensures
        retry_orders(phase, signals).len() == signals.len(),
    decreases signals.len(),
{
    if signals.len() > 0 {
        lemma_retry_orders_len(phase, signals.drop_last());
    }
}

/// A broadcast node.
pub struct GossipNode {
    pub node_id: String,
    /// The other nodes of the cluster.
    pub peers: Vec<String>,
    /// The nodes that this node gossips to.
    pub neighbors: Vec<String>,
    /// The payloads that were delivered to this node.
    pub messages: HashSet<u64>,
    /// The gossip messages that await their acknowledgment, by identifier,
    /// each with its payload.
    pub gossiping: HashMap<u64, u64>,
    pub ids: MessageIdGenerator,
    /// Whether the handshake has happened.
    pub initialized: bool,
}

/// The mathematical content of a [`GossipNode`].
pub struct GossipView {
    pub node_id: Seq<char>,
    pub peers: Seq<Seq<char>>,
    pub neighbors: Seq<Seq<char>>,
    pub delivered: Set<u64>,
    pub pending: Map<u64, u64>,
    pub next_id: u64,
    pub initialized: bool,
}

impl View for GossipNode {
    type V = GossipView;

    open spec fn view(&self) -> GossipView {
        GossipView {
            node_id: self.node_id@,
            peers: self.peers.deep_view(),
            neighbors: self.neighbors.deep_view(),
            delivered: self.messages@,
            pending: self.gossiping@,
            next_id: self.ids@,
            initialized: self.initialized,
        }
    }
}

/// The gossip message that carries `payload` from `src` to `dest` under `id`.
pub open spec fn gossip_message(src: Seq<char>, dest: Seq<char>, id: u64, payload: u64) -> MessageView {
    MessageView {
        src,
        dest,
        body: BodyView {
            message: Some(ValueView::Unsigned(payload)),
            ..BodyView::request("broadcast"@, id)
        },
    }
}

/// The retry tasks that a new payload starts: one for every neighbor other
/// than the sender, in the order of the neighbors, each under an identifier
/// of its own, counted from `first`.
pub open spec fn fan_out(
    node_id: Seq<char>,
    neighbors: Seq<Seq<char>>,
    sender: Seq<char>,
    payload: u64,
    first: u64,
) -> Seq<EffectView>
    decreases neighbors.len(),
{
    if neighbors.len() == 0 {
        Seq::empty()
    } else {
        let before = fan_out(node_id, neighbors.drop_last(), sender, payload, first);
        if neighbors.last() == sender {
            before
        } else {
            before.push(
                EffectView::StartRetry {
                    id: id_after(first, before.len()),
                    message: gossip_message(
                        node_id,
                        neighbors.last(),
                        id_after(first, before.len()),
                        payload,
                    ),
                    interval_ms: RESEND_INTERVAL_MS,
                },
            )
        }
    }
}

/// The pending gossip after `count` messages that carry `payload` were
/// recorded under the identifiers counted from `first`.
pub open spec fn pending_with(pending: Map<u64, u64>, first: u64, count: nat, payload: u64) -> Map<
    u64,
    u64,
>
    decreases count,
{
    if count == 0 {
        pending
    } else {
        pending_with(pending, first, (count - 1) as nat, payload).insert(
            id_after(first, (count - 1) as nat),
            payload,
        )
    }
}

/// The payload that a `broadcast` request carries.
pub open spec fn payload_of(body: BodyView) -> Option<u64> {
    match body.message {
        Some(message) => message.as_u64(),
        None => None,
    }
}

/// The neighbors that a topology lists for `me`, if it lists any.
pub open spec fn neighbors_in(topology: Seq<(Seq<char>, Seq<Seq<char>>)>, me: Seq<char>) -> Option<
    Seq<Seq<char>>,
>
    decreases topology.len(),
{
    if topology.len() == 0 {
        None
    } else if topology.first().0 == me {
        Some(topology.first().1)
    } else {
        neighbors_in(topology.drop_first(), me)
    }
}

/// What the handshake does to a broadcast node. Only the first handshake
/// sets the identity.
pub open spec fn init_outcome(node: GossipView, msg: MessageView) -> Result<
    (GossipView, Seq<EffectView>),
    Fault,
> {
    if !is_handshake(msg.body) {
        Err(Fault::Malformed)
    } else {
        let ack = seq![EffectView::Send(ack_to(msg, "init_ok"@, node.next_id))];
        if node.initialized {
            Ok((GossipView { next_id: next_id(node.next_id), ..node }, ack))
        } else {
            Ok(
                (
                    GossipView {
                        node_id: msg.body.node_id.unwrap(),
                        peers: others(msg.body.node_ids.unwrap(), msg.body.node_id.unwrap()),
                        next_id: next_id(node.next_id),
                        initialized: true,
                        ..node
                    },
                    ack,
                ),
            )
        }
    }
}

/// What `topology` does: the node's neighbors are those that the topology
/// lists for it, or all its peers where it lists none.
pub open spec fn topology_outcome(node: GossipView, msg: MessageView) -> Result<
    (GossipView, Seq<EffectView>),
    Fault,
> {
    if msg.body.msg_id is None {
        Err(Fault::Malformed)
    } else {
        let listed = match msg.body.topology {
            Some(topology) => neighbors_in(topology, node.node_id),
            None => None,
        };
        let neighbors = match listed {
            Some(neighbors) => neighbors,
            None => node.peers,
        };
        Ok(
            (
                GossipView { neighbors, next_id: next_id(node.next_id), ..node },
                seq![EffectView::Send(ack_to(msg, "topology_ok"@, node.next_id))],
            ),
        )
    }
}

/// What `broadcast` does. A payload that was delivered before is
/// acknowledged and nothing else happens. A new payload is recorded, one
/// retry task per neighbor other than the sender is started and recorded as
/// pending, and the payload is acknowledged.
pub open spec fn broadcast_outcome(node: GossipView, msg: MessageView) -> Result<
    (GossipView, Seq<EffectView>),
    Fault,
> {
    match payload_of(msg.body) {
        None => Err(Fault::Malformed),
        Some(payload) => if msg.body.msg_id is None {
            Err(Fault::Malformed)
        } else if node.delivered.contains(payload) {
            Ok(
                (
                    GossipView { next_id: next_id(node.next_id), ..node },
                    seq![EffectView::Send(ack_to(msg, "broadcast_ok"@, node.next_id))],
                ),
            )
        } else {
            let tasks = fan_out(node.node_id, node.neighbors, msg.src, payload, node.next_id);
            let ack_id = id_after(node.next_id, tasks.len());
            Ok(
                (
                    GossipView {
                        delivered: node.delivered.insert(payload),
                        pending: pending_with(node.pending, node.next_id, tasks.len(), payload),
                        next_id: next_id(ack_id),
                        ..node
                    },
                    tasks.push(EffectView::Send(ack_to(msg, "broadcast_ok"@, ack_id))),
                ),
            )
        },
    }
}

/// What `broadcast_ok` does: the retry task that awaits it is cancelled and
/// is pending no more. An acknowledgment that nothing awaits is ignored.
pub open spec fn ack_outcome(node: GossipView, msg: MessageView) -> Result<
    (GossipView, Seq<EffectView>),
    Fault,
> {
    match msg.body.in_reply_to {
        None => Err(Fault::Malformed),
        Some(id) => if node.pending.dom().contains(id) {
            Ok(
                (
                    GossipView { pending: node.pending.remove(id), ..node },
                    seq![EffectView::CancelRetry { id }],
                ),
            )
        } else {
            Ok((node, Seq::<EffectView>::empty()))
        },
    }
}

/// The `read_ok` response that lists the delivered payloads as `items`.
pub open spec fn listing_reply(origin: MessageView, id: u64, items: Seq<u64>) -> MessageView {
    reply_to(
        origin,
        BodyView {
            messages: Some(items.map_values(|item: u64| ValueView::Unsigned(item))),
            ..BodyView::request("read_ok"@, id)
        },
    )
}

/// What `read` does, given the order in which the payloads are listed.
pub open spec fn read_outcome(node: GossipView, msg: MessageView, items: Seq<u64>) -> Result<
    (GossipView, Seq<EffectView>),
    Fault,
> {
    if msg.body.msg_id is None {
        Err(Fault::Malformed)
    } else {
        Ok(
            (
                GossipView { next_id: next_id(node.next_id), ..node },
                seq![EffectView::Send(listing_reply(msg, node.next_id, items))],
            ),
        )
    }
}

/// What a broadcast node does with a message. `read` lists every delivered
/// payload once, in no particular order; a message of an unknown kind is a
/// fault.
pub open spec fn handled(
    before: GossipView,
    msg: MessageView,
    after: GossipView,
    res: Result<Seq<EffectView>, Fault>,
) -> bool {
    if msg.body.typ == "init"@ {
        meets(before, after, res, init_outcome(before, msg))
    } else if msg.body.typ == "topology"@ {
        meets(before, after, res, topology_outcome(before, msg))
    } else if msg.body.typ == "broadcast"@ {
        meets(before, after, res, broadcast_outcome(before, msg))
    } else if msg.body.typ == "broadcast_ok"@ {
        meets(before, after, res, ack_outcome(before, msg))
    } else if msg.body.typ == "read"@ {
        exists|items: Seq<u64>|
            items.no_duplicates() && items.to_set() == before.delivered && meets(
                before,
                after,
                res,
                #[trigger] read_outcome(before, msg, items),
            )
    } else {
        meets(before, after, res, Err(Fault::UnknownKind))
    }
}

/// Whether an effect starts a retry task.
pub open spec fn starts_retry(effect: EffectView) -> bool {
    effect is StartRetry
}

/// No storm: whoever sends it, a payload that is delivered to a node a second
/// time is acknowledged and nothing else: no retry task is started, and the
/// delivered payloads and the pending gossip stay as they are.
pub proof fn lemma_redelivery_is_quiet(node: GossipView, first: MessageView, second: MessageView)
    requires
        payload_of(first.body) is Some,
        payload_of(second.body) == payload_of(first.body),
        first.body.msg_id is Some,
        second.body.msg_id is Some,
    ensures
        broadcast_outcome(node, first) is Ok,
        ({
            let once = broadcast_outcome(node, first).unwrap().0;
            let again = broadcast_outcome(once, second);
            &&& again is Ok
            &&& again.unwrap().1 == seq![
                EffectView::Send(ack_to(second, "broadcast_ok"@, once.next_id)),
            ]
            &&& forall|k: int|
                0 <= k < again.unwrap().1.len() ==> !starts_retry(#[trigger] again.unwrap().1[k])
            &&& again.unwrap().0 == GossipView { next_id: next_id(once.next_id), ..once }
        }),
{
}

/// A payload is in the delivered set once it has been broadcast to the node.
pub proof fn lemma_broadcast_delivers(node: GossipView, msg: MessageView)
    requires
        broadcast_outcome(node, msg) is Ok,
    ensures
        broadcast_outcome(node, msg).unwrap().0.delivered == node.delivered.insert(
            payload_of(msg.body).unwrap(),
        ),
{
    let payload = payload_of(msg.body).unwrap();
    if node.delivered.contains(payload) {
        assert(node.delivered.insert(payload) =~= node.delivered);
    }
}

/// A fan-out starts at most one task per neighbor, and none towards the
/// sender.
pub proof fn lemma_fan_out_shape(
    node_id: Seq<char>,
    neighbors: Seq<Seq<char>>,
    sender: Seq<char>,
    payload: u64,
    first: u64,
)
    ensures
        fan_out(node_id, neighbors, sender, payload, first).len() <= neighbors.len(),
        forall|k: int|
            0 <= k < fan_out(node_id, neighbors, sender, payload, first).len() ==> {
                let effect = #[trigger] fan_out(node_id, neighbors, sender, payload, first)[k];
                &&& effect matches EffectView::StartRetry { id, message, interval_ms }
                &&& id == id_after(first, k as nat)
                &&& interval_ms == RESEND_INTERVAL_MS
                &&& message.src == node_id
                &&& message.dest != sender
                &&& neighbors.contains(message.dest)
                &&& message.body.msg_id == Some(id)
                &&& payload_of(message.body) == Some(payload)
            },
    decreases neighbors.len(),
{
    if neighbors.len() > 0 {
        lemma_fan_out_shape(node_id, neighbors.drop_last(), sender, payload, first);
        let before = fan_out(node_id, neighbors.drop_last(), sender, payload, first);
        let all = fan_out(node_id, neighbors, sender, payload, first);
        assert forall|k: int| 0 <= k < all.len() implies {
            let effect = #[trigger] all[k];
            &&& effect matches EffectView::StartRetry { id, message, interval_ms }
            &&& id == id_after(first, k as nat)
            &&& interval_ms == RESEND_INTERVAL_MS
            &&& message.src == node_id
            &&& message.dest != sender
            &&& neighbors.contains(message.dest)
            &&& message.body.msg_id == Some(id)
            &&& payload_of(message.body) == Some(payload)
        } by {
            if k < before.len() {
                let effect = before[k];
                assert(all[k] == effect);
                let dest = effect->StartRetry_message.dest;
                assert(neighbors.drop_last().contains(dest));
                let at = choose|at: int|
                    0 <= at < neighbors.drop_last().len() && neighbors.drop_last()[at] == dest;
                assert(neighbors[at] == dest);
            } else {
                assert(neighbors[neighbors.len() - 1] == neighbors.last());
            }
        }
    }
}

/// Looks up the neighbors that `topology` lists for `me`.
pub fn find_neighbors<'a>(topology: &'a Vec<(String, Vec<String>)>, me: &String) -> (res: Option<
    &'a Vec<String>,
>)
    ensures
        res.deep_view() == neighbors_in(topology.deep_view(), me@),
{
    let ghost t = topology.deep_view();
    let mut i: usize = 0;
    proof {
        assert(t.skip(0) =~= t);
    }
    while i < topology.len()
        invariant
            i <= topology.len(),
            t == topology.deep_view(),
            neighbors_in(t, me@) == neighbors_in(t.skip(i as int), me@),
        decreases topology.len() - i,
    {
        proof {
            assert(t.skip(i as int).first() == t[i as int]);
            assert(t.skip(i as int).drop_first() =~= t.skip(i + 1));
        }
        if topology[i].0 == *me {
            return Some(&topology[i].1);
        }
        i += 1;
    }
    None
}

impl GossipNode {
    /// A node before its handshake.
    pub fn new() -> (res: GossipNode)
        ensures
            res@ == (GossipView {
                node_id: Seq::<char>::empty(),
                peers: Seq::<Seq<char>>::empty(),
                neighbors: Seq::<Seq<char>>::empty(),
                delivered: Set::<u64>::empty(),
                pending: Map::<u64, u64>::empty(),
                next_id: 0,
                initialized: false,
            }),
    {
        let res = GossipNode {
            node_id: String::new(),
            peers: Vec::new(),
            neighbors: Vec::new(),
            messages: HashSet::new(),
            gossiping: HashMap::new(),
            ids: MessageIdGenerator::new(),
            initialized: false,
        };
        proof {
            assert(res.peers.deep_view() =~= Seq::<Seq<char>>::empty());
            assert(res.neighbors.deep_view() =~= Seq::<Seq<char>>::empty());
        }
        res
    }

    /// Handles `init`.
    pub fn on_init(&mut self, msg: &Message) -> (res: Result<Vec<Effect>, Fault>)
        ensures
            meets(old(self)@, final(self)@, effects_of(res), init_outcome(old(self)@, msg@)),
    {
        if msg.body.msg_id.is_none() {
            return Err(Fault::Malformed);
        }
        match (&msg.body.node_id, &msg.body.node_ids) {
            (Some(node_id), Some(node_ids)) => {
                if !self.initialized {
                    self.peers = others_of(node_ids, node_id);
                    self.node_id = node_id.clone();
                    self.initialized = true;
                }
            },
            _ => {
                return Err(Fault::Malformed);
            },
        }
        let id = self.ids.fresh();
        let mut effects: Vec<Effect> = Vec::new();
        effects.push(Effect::Send(reply(msg, MsgBody::request("init_ok", id))));
        proof {
            assert(effects.deep_view() =~= seq![
                EffectView::Send(ack_to(msg@, "init_ok"@, old(self)@.next_id)),
            ]);
        }
        Ok(effects)
    }

    /// Handles `topology`.
    pub fn on_topology(&mut self, msg: &Message) -> (res: Result<Vec<Effect>, Fault>)
        ensures
            meets(old(self)@, final(self)@, effects_of(res), topology_outcome(old(self)@, msg@)),
    {
        if msg.body.msg_id.is_none() {
            return Err(Fault::Malformed);
        }
        let listed = match &msg.body.topology {
            Some(topology) => find_neighbors(topology, &self.node_id),
            None => None,
        };
        self.neighbors = match listed {
            Some(neighbors) => copy_ids(neighbors),
            None => copy_ids(&self.peers),
        };
        let id = self.ids.fresh();
        let mut effects: Vec<Effect> = Vec::new();
        effects.push(Effect::Send(reply(msg, MsgBody::request("topology_ok", id))));
        proof {
            assert(effects.deep_view() =~= seq![
                EffectView::Send(ack_to(msg@, "topology_ok"@, old(self)@.next_id)),
            ]);
        }
        Ok(effects)
    }

    /// Handles `broadcast`.
    pub fn on_broadcast(&mut self, msg: &Message) -> (res: Result<Vec<Effect>, Fault>)
        ensures
            meets(old(self)@, final(self)@, effects_of(res), broadcast_outcome(old(self)@, msg@)),
    {
        let payload = match &msg.body.message {
            Some(message) => message.as_u64(),
            None => None,
        };
        let payload = match payload {
            Some(payload) => payload,
            None => {
                return Err(Fault::Malformed);
            },
        };
        if msg.body.msg_id.is_none() {
            return Err(Fault::Malformed);
        }
        let mut effects: Vec<Effect> = Vec::new();
        let ghost first = self.ids@;
        let ghost pending = self.gossiping@;
        let ghost neighbors = self.neighbors.deep_view();
        proof {
            assert(effects.deep_view() =~= Seq::<EffectView>::empty());
        }
        if self.messages.insert(payload) {
            let mut i: usize = 0;
            proof {
                assert(neighbors.take(0) =~= Seq::<Seq<char>>::empty());
            }
            while i < self.neighbors.len()
                invariant
                    i <= self.neighbors.len(),
                    neighbors == self.neighbors.deep_view(),
                    self@ == (GossipView {
                        delivered: old(self)@.delivered.insert(payload),
                        pending: pending_with(pending, first, effects.len() as nat, payload),
                        next_id: id_after(first, effects.len() as nat),
                        ..old(self)@
                    }),
                    effects.deep_view() == fan_out(
                        self.node_id@,
                        neighbors.take(i as int),
                        msg.src@,
                        payload,
                        first,
                    ),
                decreases self.neighbors.len() - i,
            {
                let ghost started = effects.deep_view();
                proof {
                    assert(neighbors.take(i + 1).drop_last() =~= neighbors.take(i as int));
                    assert(neighbors.take(i + 1).last() == self.neighbors[i as int]@);
                }
                if self.neighbors[i] != msg.src {
                    let id = self.ids.fresh();
                    let mut body = MsgBody::request("broadcast", id);
                    body.message = Some(Value::Unsigned(payload));
                    let message = Message {
                        src: self.node_id.clone(),
                        dest: self.neighbors[i].clone(),
                        body,
                    };
                    self.gossiping.insert(id, payload);
                    effects.push(
                        Effect::StartRetry { id, message, interval_ms: RESEND_INTERVAL_MS },
                    );
                    proof {
                        assert(effects.deep_view() =~= started.push(
                            EffectView::StartRetry {
                                id,
                                message: gossip_message(
                                    self.node_id@,
                                    self.neighbors[i as int]@,
                                    id,
                                    payload,
                                ),
                                interval_ms: RESEND_INTERVAL_MS,
                            },
                        ));
                    }
                }
                i += 1;
            }
            proof {
                assert(neighbors.take(i as int) =~= neighbors);
            }
        }
        let ghost tasks = effects.deep_view();
        let id = self.ids.fresh();
        effects.push(Effect::Send(reply(msg, MsgBody::request("broadcast_ok", id))));
        proof {
            assert(effects.deep_view() =~= tasks.push(
                EffectView::Send(ack_to(msg@, "broadcast_ok"@, id)),
            ));
            if old(self)@.delivered.contains(payload) {
                assert(self.messages@ =~= old(self).messages@);
                assert(effects.deep_view() =~= seq![
                    EffectView::Send(ack_to(msg@, "broadcast_ok"@, id)),
                ]);
            }
        }
        Ok(effects)
    }

    /// Handles `broadcast_ok`.
    pub fn on_broadcast_ok(&mut self, msg: &Message) -> (res: Result<Vec<Effect>, Fault>)
        ensures
            meets(old(self)@, final(self)@, effects_of(res), ack_outcome(old(self)@, msg@)),
    {
        let id = match msg.body.in_reply_to {
            Some(id) => id,
            None => {
                return Err(Fault::Malformed);
            },
        };
        let mut effects: Vec<Effect> = Vec::new();
        proof {
            assert(effects.deep_view() =~= Seq::<EffectView>::empty());
        }
        if self.gossiping.remove(&id).is_some() {
            effects.push(Effect::CancelRetry { id });
            proof {
                assert(effects.deep_view() =~= seq![EffectView::CancelRetry { id }]);
            }
        } else {
            proof {
                assert(self.gossiping@ =~= old(self).gossiping@);
            }
        }
        Ok(effects)
    }

    /// Handles `read`.
    pub fn on_read(&mut self, msg: &Message) -> (res: Result<Vec<Effect>, Fault>)
        ensures
            exists|items: Seq<u64>|
                items.no_duplicates() && items.to_set() == old(self)@.delivered && meets(
                    old(self)@,
                    final(self)@,
                    effects_of(res),
                    #[trigger] read_outcome(old(self)@, msg@, items),
                ),
    {
        let items = elements(&self.messages);
        if msg.body.msg_id.is_none() {
            proof {
                assert(meets(
                    old(self)@,
                    self@,
                    Err(Fault::Malformed),
                    read_outcome(old(self)@, msg@, items@),
                ));
            }
            return Err(Fault::Malformed);
        }
        let mut listed: Vec<Value> = Vec::new();
        let mut i: usize = 0;
        while i < items.len()
            invariant
                i <= items.len(),
                listed.len() == i,
                forall|j: int| 0 <= j < i ==> listed[j]@ == ValueView::Unsigned(items[j]),
            decreases items.len() - i,
        {
            listed.push(Value::Unsigned(items[i]));
            i += 1;
        }
        proof {
            assert(listed.deep_view() =~= items@.map_values(
                |item: u64| ValueView::Unsigned(item),
            ));
        }
        let id = self.ids.fresh();
        let mut body = MsgBody::request("read_ok", id);
        body.messages = Some(listed);
        let mut effects: Vec<Effect> = Vec::new();
        effects.push(Effect::Send(reply(msg, body)));
        proof {
            assert(effects.deep_view() =~= seq![
                EffectView::Send(listing_reply(msg@, old(self)@.next_id, items@)),
            ]);
            assert(meets(
                old(self)@,
                self@,
                effects_of(Ok::<Vec<Effect>, Fault>(effects)),
                read_outcome(old(self)@, msg@, items@),
            ));
        }
        Ok(effects)
    }

    /// Handles one message.
    pub fn handle(&mut self, msg: &Message) -> (res: Result<Vec<Effect>, Fault>)
        ensures
            handled(old(self)@, msg@, final(self)@, effects_of(res)),
    {
        if msg.body.is_kind("init") {
            self.on_init(msg)
        } else if msg.body.is_kind("topology") {
            self.on_topology(msg)
        } else if msg.body.is_kind("broadcast") {
            self.on_broadcast(msg)
        } else if msg.body.is_kind("broadcast_ok") {
            self.on_broadcast_ok(msg)
        } else if msg.body.is_kind("read") {
            self.on_read(msg)
        } else {
            Err(Fault::UnknownKind)
        }
    }
}

} // verus!
