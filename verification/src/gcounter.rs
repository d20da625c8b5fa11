//! The grow-only counter: every node counts its own increments, the value is
//! the sum over all nodes, and merge takes the higher count per node.

use crate::counts;
use crate::counts::{count_of, distinct_nodes, entries_map, total, NodeCounts};
use crate::crdt::CRDT;
use crate::message::{BodyView, Message, MessageView, MsgBody};
use crate::node::{effects_of, meets, Effect, EffectView, Fault};
use crate::replica::{
    add_outcome, handshake_outcome, merge_outcome, read_outcome, Replica, ReplicaView,
};
use crate::value::{Value, ValueView};
use vstd::prelude::*;

verus! {

/// The counts after `node` has counted `incr` more.
pub open spec fn bumped(s: Map<Seq<char>, u64>, node: Seq<char>, incr: u64) -> Map<Seq<char>, u64> {
    s.insert(node, (count_of(s, node) + incr) as u64)
}

/// A grow-only counter.
pub struct GCounter(pub NodeCounts);

impl CRDT for GCounter {
    /// The node that counts, and its increment.
    type Element = (String, u64);

    type Value = u64;

    type State = Map<Seq<char>, u64>;

    open spec fn state(&self) -> Map<Seq<char>, u64> {
        self.0@
    }

    open spec fn wf(&self) -> bool {
        self.0.wf()
    }

    open spec fn initial() -> Map<Seq<char>, u64> {
        Map::empty()
    }

    open spec fn addable(s: Map<Seq<char>, u64>, val: (String, u64)) -> bool {
        count_of(s, val.0@) + val.1 <= u64::MAX
    }

    open spec fn added(s: Map<Seq<char>, u64>, val: (String, u64)) -> Map<Seq<char>, u64> {
        bumped(s, val.0@, val.1)
    }

    open spec fn join(a: Map<Seq<char>, u64>, b: Map<Seq<char>, u64>) -> Map<Seq<char>, u64> {
        counts::join(a, b)
    }

    open spec fn readable(s: Map<Seq<char>, u64>) -> bool {
        total(s) <= u64::MAX
    }

    open spec fn shows(s: Map<Seq<char>, u64>, v: u64) -> bool {
        v == total(s)
    }

    open spec fn carried(body: BodyView) -> Option<Map<Seq<char>, u64>> {
        match body.counters {
            Some(entries) => Some(entries_map(entries)),
            None => None,
        }
    }

    open spec fn concise(body: BodyView) -> bool {
        body.counters matches Some(entries) && distinct_nodes(entries)
    }

    open spec fn stripped(body: BodyView) -> BodyView {
        BodyView { counters: None, ..body }
    }

    fn init() -> (res: Self) {
        GCounter(NodeCounts::new())
    }

    fn add(&mut self, val: (String, u64)) {
        let (node, incr) = val;
        let count = match self.0.get(&node) {
            Some(count) => count,
            None => 0,
        };
        self.0.set(&node, count + incr);
    }

    fn read(&self) -> (res: u64) {
        self.0.total()
    }

    fn merge(&mut self, other: &Self) {
        self.0.merge(&other.0);
    }

    fn from_msg_body(mb: &MsgBody) -> (res: Self) {
        match &mb.counters {
            Some(entries) => GCounter(NodeCounts::from_entries(entries)),
            None => GCounter(NodeCounts::new()),
        }
    }

    fn into_msg_body(&self) -> (res: MsgBody) {
        let mut body = MsgBody::of_kind("");
        body.counters = Some(self.0.to_entries());
        proof {
            reveal_strlit("");
            assert(""@ =~= Seq::<char>::empty());
        }
        body
    }

    fn carries(mb: &MsgBody) -> (res: bool) {
        mb.counters.is_some()
    }

    proof fn lemma_carried_by_field(body: BodyView, typ: Seq<char>, msg_id: Option<u64>) {
    }

    proof fn lemma_join_idempotent(a: Map<Seq<char>, u64>) {
        counts::lemma_join_idempotent(a);
    }

    proof fn lemma_join_commutative(a: Map<Seq<char>, u64>, b: Map<Seq<char>, u64>) {
        counts::lemma_join_commutative(a, b);
    }

    proof fn lemma_join_associative(
        a: Map<Seq<char>, u64>,
        b: Map<Seq<char>, u64>,
        c: Map<Seq<char>, u64>,
    ) {
        counts::lemma_join_associative(a, b, c);
    }
}

/// The increment that an `add` request names.
pub open spec fn requested_increment(body: BodyView) -> Option<u64> {
    match body.delta {
        Some(delta) => delta.as_u64(),
        None => None,
    }
}

/// What a grow-only-counter node does with a message. `add` counts the
/// increment under the node's own identifier, `replicate` merges a peer's
/// counts, `read` shows the sum; a message of any other kind is a fault, and
/// so is a count or a sum beyond `u64::MAX`.
pub open spec fn handled(
    before: ReplicaView<Map<Seq<char>, u64>>,
    msg: MessageView,
    after: ReplicaView<Map<Seq<char>, u64>>,
    res: Result<Seq<EffectView>, Fault>,
) -> bool {
    if msg.body.typ == "init"@ {
        meets(before, after, res, handshake_outcome(before, msg))
    } else if msg.body.typ == "add"@ {
        match requested_increment(msg.body) {
            Some(incr) => if msg.body.msg_id is Some && count_of(before.state, before.node_id)
                + incr > u64::MAX {
                meets(before, after, res, Err(Fault::Overflow))
            } else {
                meets(
                    before,
                    after,
                    res,
                    add_outcome(before, msg, bumped(before.state, before.node_id, incr)),
                )
            },
            None => meets(before, after, res, Err(Fault::Malformed)),
        }
    } else if msg.body.typ == "replicate"@ {
        meets(before, after, res, merge_outcome::<GCounter>(before, msg))
    } else if msg.body.typ == "read"@ {
        if msg.body.msg_id is Some && total(before.state) > u64::MAX {
            meets(before, after, res, Err(Fault::Overflow))
        } else {
            meets(
                before,
                after,
                res,
                read_outcome(before, msg, ValueView::Unsigned(total(before.state) as u64)),
            )
        }
    } else {
        meets(before, after, res, Err(Fault::UnknownKind))
    }
}

impl Replica<GCounter> {
    /// Handles one message.
    pub fn handle(&mut self, msg: &Message) -> (res: Result<Vec<Effect>, Fault>)
        requires
            old(self).wf(),
        ensures
            final(self).wf(),
            handled(old(self)@, msg@, final(self)@, effects_of(res)),
    {
        if msg.body.is_kind("init") {
            self.on_init(msg)
        } else if msg.body.is_kind("add") {
            let incr = match &msg.body.delta {
                Some(delta) => delta.as_u64(),
                None => None,
            };
            match incr {
                Some(incr) => {
                    if msg.body.msg_id.is_none() {
                        return Err(Fault::Malformed);
                    }
                    let count = match self.crdt.0.get(&self.node_id) {
                        Some(count) => count,
                        None => 0,
                    };
                    if incr > u64::MAX - count {
                        return Err(Fault::Overflow);
                    }
                    let element = (self.node_id.clone(), incr);
                    self.apply(msg, element)
                },
                None => Err(Fault::Malformed),
            }
        } else if msg.body.is_kind("replicate") {
            self.absorb(msg)
        } else if msg.body.is_kind("read") {
            if msg.body.msg_id.is_none() {
                return Err(Fault::Malformed);
            }
            match self.crdt.0.checked_total() {
                Some(sum) => self.answer(msg, Value::Unsigned(sum)),
                None => Err(Fault::Overflow),
            }
        } else {
            Err(Fault::UnknownKind)
        }
    }
}

} // verus!
