//! The positive-negative counter: one grow-only count map for increments and
//! one for decrements, merged independently; the value is their difference.

use crate::counts;
use crate::counts::{count_of, distinct_nodes, entries_map, total, NodeCounts};
use crate::crdt::CRDT;
use crate::message::{BodyView, Message, MessageView, MsgBody};
use crate::node::{effects_of, meets, Effect, EffectView, Fault};
use crate::replica::{
    add_outcome, handshake_outcome, merge_outcome, read_outcome, Replica, ReplicaView,
};
use crate::value::{Value, ValueView};
use vstd::prelude::*;

verus! {

/// The size of a change, whatever its direction.
pub open spec fn magnitude(delta: i64) -> u64 {
    if delta >= 0 {
        delta as u64
    } else {
        (-delta) as u64
    }
}

/// Computes [`magnitude`].
pub fn magnitude_of(delta: i64) -> (res: u64)
    ensures
        res == magnitude(delta),
{
    if delta >= 0 {
        delta as u64
    } else if delta == i64::MIN {
        9223372036854775808u64
    } else {
        (-delta) as u64
    }
}

/// Whether `node` can count the change `delta` without a count leaving `u64`.
pub open spec fn can_shift(
    s: (Map<Seq<char>, u64>, Map<Seq<char>, u64>),
    node: Seq<char>,
    delta: i64,
) -> bool {
    if delta > 0 {
        count_of(s.0, node) + magnitude(delta) <= u64::MAX
    } else {
        count_of(s.1, node) + magnitude(delta) <= u64::MAX
    }
}

/// The counts after `node` has counted the change `delta`: a positive change
/// among the increments, any other among the decrements.
pub open spec fn shifted(
    s: (Map<Seq<char>, u64>, Map<Seq<char>, u64>),
    node: Seq<char>,
    delta: i64,
) -> (Map<Seq<char>, u64>, Map<Seq<char>, u64>) {
    if delta > 0 {
        (s.0.insert(node, (count_of(s.0, node) + magnitude(delta)) as u64), s.1)
    } else {
        (s.0, s.1.insert(node, (count_of(s.1, node) + magnitude(delta)) as u64))
    }
}

/// A counter that can go up and down.
pub struct PNCounter {
    pub inc: NodeCounts,
    pub dec: NodeCounts,
}

impl CRDT for PNCounter {
    /// The node that counts, and its change: a positive change is an
    /// increment, any other a decrement by its magnitude.
    type Element = (String, i64);

    type Value = i64;

    /// The increments and the decrements.
    type State = (Map<Seq<char>, u64>, Map<Seq<char>, u64>);

    open spec fn state(&self) -> (Map<Seq<char>, u64>, Map<Seq<char>, u64>) {
        (self.inc@, self.dec@)
    }

    open spec fn wf(&self) -> bool {
        self.inc.wf() && self.dec.wf()
    }

    open spec fn initial() -> (Map<Seq<char>, u64>, Map<Seq<char>, u64>) {
        (Map::empty(), Map::empty())
    }

    open spec fn addable(s: (Map<Seq<char>, u64>, Map<Seq<char>, u64>), val: (String, i64)) -> bool {
        can_shift(s, val.0@, val.1)
    }

    open spec fn added(s: (Map<Seq<char>, u64>, Map<Seq<char>, u64>), val: (String, i64)) -> (
        Map<Seq<char>, u64>,
        Map<Seq<char>, u64>,
    ) {
        shifted(s, val.0@, val.1)
    }

    open spec fn join(
        a: (Map<Seq<char>, u64>, Map<Seq<char>, u64>),
        b: (Map<Seq<char>, u64>, Map<Seq<char>, u64>),
    ) -> (Map<Seq<char>, u64>, Map<Seq<char>, u64>) {
        (counts::join(a.0, b.0), counts::join(a.1, b.1))
    }

    open spec fn readable(s: (Map<Seq<char>, u64>, Map<Seq<char>, u64>)) -> bool {
        total(s.0) <= i64::MAX && total(s.1) <= i64::MAX
    }

    open spec fn shows(s: (Map<Seq<char>, u64>, Map<Seq<char>, u64>), v: i64) -> bool {
        v == total(s.0) - total(s.1)
    }

    open spec fn carried(body: BodyView) -> Option<(Map<Seq<char>, u64>, Map<Seq<char>, u64>)> {
        match body.pn_counters {
            Some(pair) => Some((entries_map(pair.0), entries_map(pair.1))),
            None => None,
        }
    }

    open spec fn concise(body: BodyView) -> bool {
        body.pn_counters matches Some(pair) && distinct_nodes(pair.0) && distinct_nodes(pair.1)
    }

    open spec fn stripped(body: BodyView) -> BodyView {
        BodyView { pn_counters: None, ..body }
    }

    fn init() -> (res: Self) {
        PNCounter { inc: NodeCounts::new(), dec: NodeCounts::new() }
    }

    fn add(&mut self, val: (String, i64)) {
        let (node, delta) = val;
        let size = magnitude_of(delta);
        if delta > 0 {
            let count = match self.inc.get(&node) {
                Some(count) => count,
                None => 0,
            };
            self.inc.set(&node, count + size);
        } else {
            let count = match self.dec.get(&node) {
                Some(count) => count,
                None => 0,
            };
            self.dec.set(&node, count + size);
        }
    }

    fn read(&self) -> (res: i64) {
        let up = self.inc.total();
        let down = self.dec.total();
        (up as i64) - (down as i64)
    }

    fn merge(&mut self, other: &Self) {
        self.inc.merge(&other.inc);
        self.dec.merge(&other.dec);
    }

    fn from_msg_body(mb: &MsgBody) -> (res: Self) {
        match &mb.pn_counters {
            Some(pair) => PNCounter {
                inc: NodeCounts::from_entries(&pair.0),
                dec: NodeCounts::from_entries(&pair.1),
            },
            None => PNCounter { inc: NodeCounts::new(), dec: NodeCounts::new() },
        }
    }

    fn into_msg_body(&self) -> (res: MsgBody) {
        let mut body = MsgBody::of_kind("");
        body.pn_counters = Some((self.inc.to_entries(), self.dec.to_entries()));
        proof {
            reveal_strlit("");
            assert(""@ =~= Seq::<char>::empty());
        }
        body
    }

    fn carries(mb: &MsgBody) -> (res: bool) {
        mb.pn_counters.is_some()
    }

    proof fn lemma_carried_by_field(body: BodyView, typ: Seq<char>, msg_id: Option<u64>) {
    }

    proof fn lemma_join_idempotent(a: (Map<Seq<char>, u64>, Map<Seq<char>, u64>)) {
        counts::lemma_join_idempotent(a.0);
        counts::lemma_join_idempotent(a.1);
    }

    proof fn lemma_join_commutative(
        a: (Map<Seq<char>, u64>, Map<Seq<char>, u64>),
        b: (Map<Seq<char>, u64>, Map<Seq<char>, u64>),
    ) {
        counts::lemma_join_commutative(a.0, b.0);
        counts::lemma_join_commutative(a.1, b.1);
    }

    proof fn lemma_join_associative(
        a: (Map<Seq<char>, u64>, Map<Seq<char>, u64>),
        b: (Map<Seq<char>, u64>, Map<Seq<char>, u64>),
        c: (Map<Seq<char>, u64>, Map<Seq<char>, u64>),
    ) {
        counts::lemma_join_associative(a.0, b.0, c.0);
        counts::lemma_join_associative(a.1, b.1, c.1);
    }
}

/// The change that an `add` request names.
pub open spec fn requested_change(body: BodyView) -> Option<i64> {
    match body.delta {
        Some(delta) => delta.as_i64(),
        None => None,
    }
}

/// What a positive-negative-counter node does with a message. `add` counts
/// the change under the node's own identifier, `replicate` merges a peer's
/// counts, `read` shows increments less decrements; a message of any other
/// kind is a fault, and so is a count beyond `u64::MAX` or a sum beyond
/// `i64::MAX`.
pub open spec fn handled(
    before: ReplicaView<(Map<Seq<char>, u64>, Map<Seq<char>, u64>)>,
    msg: MessageView,
    after: ReplicaView<(Map<Seq<char>, u64>, Map<Seq<char>, u64>)>,
    res: Result<Seq<EffectView>, Fault>,
) -> bool {
    if msg.body.typ == "init"@ {
        meets(before, after, res, handshake_outcome(before, msg))
    } else if msg.body.typ == "add"@ {
        match requested_change(msg.body) {
            Some(delta) => if msg.body.msg_id is Some && !can_shift(
                before.state,
                before.node_id,
                delta,
            ) {
                meets(before, after, res, Err(Fault::Overflow))
            } else {
                meets(
                    before,
                    after,
                    res,
                    add_outcome(before, msg, shifted(before.state, before.node_id, delta)),
                )
            },
            None => meets(before, after, res, Err(Fault::Malformed)),
        }
    } else if msg.body.typ == "replicate"@ {
        meets(before, after, res, merge_outcome::<PNCounter>(before, msg))
    } else if msg.body.typ == "read"@ {
        if msg.body.msg_id is Some && (total(before.state.0) > i64::MAX || total(before.state.1)
            > i64::MAX) {
            meets(before, after, res, Err(Fault::Overflow))
        } else {
            meets(
                before,
                after,
                res,
                read_outcome(
                    before,
                    msg,
                    ValueView::of_i64((total(before.state.0) - total(before.state.1)) as i64),
                ),
            )
        }
    } else {
        meets(before, after, res, Err(Fault::UnknownKind))
    }
}

impl Replica<PNCounter> {
    /// Handles one message.
    pub fn handle(&mut self, msg: &Message) -> (res: Result<Vec<Effect>, Fault>)
        requires
            old(self).wf(),
        ensures
            final(self).wf(),
            handled(old(self)@, msg@, final(self)@, effects_of(res)),
    {
        if msg.body.is_kind("init") {
            self.on_init(msg)
        } else if msg.body.is_kind("add") {
            let delta = match &msg.body.delta {
                Some(delta) => delta.as_i64(),
                None => None,
            };
            match delta {
                Some(delta) => {
                    if msg.body.msg_id.is_none() {
                        return Err(Fault::Malformed);
                    }
                    let counted = if delta > 0 {
                        self.crdt.inc.get(&self.node_id)
                    } else {
                        self.crdt.dec.get(&self.node_id)
                    };
                    let count = match counted {
                        Some(count) => count,
                        None => 0,
                    };
                    if magnitude_of(delta) > u64::MAX - count {
                        return Err(Fault::Overflow);
                    }
                    let element = (self.node_id.clone(), delta);
                    self.apply(msg, element)
                },
                None => Err(Fault::Malformed),
            }
        } else if msg.body.is_kind("replicate") {
            self.absorb(msg)
        } else if msg.body.is_kind("read") {
            if msg.body.msg_id.is_none() {
                return Err(Fault::Malformed);
            }
            let up = self.crdt.inc.checked_total();
            let down = self.crdt.dec.checked_total();
            match (up, down) {
                (Some(up), Some(down)) => {
                    if up > i64::MAX as u64 || down > i64::MAX as u64 {
                        return Err(Fault::Overflow);
                    }
                    let value = (up as i64) - (down as i64);
                    self.answer(msg, Value::from_i64(value))
                },
                _ => Err(Fault::Overflow),
            }
        } else {
            Err(Fault::UnknownKind)
        }
    }
}

} // verus!
