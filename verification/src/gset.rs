//! The grow-only set: elements are only ever added, and merge is set union.

use crate::crdt::CRDT;
use crate::message::{BodyView, Message, MessageView, MsgBody};
use crate::node::{effects_of, meets, Effect, EffectView, Fault};
use crate::replica::{
    add_outcome, handshake_outcome, merge_outcome, read_outcome, Replica, ReplicaView,
};
use crate::value::{Value, ValueView};
use std::collections::HashSet;
use vstd::prelude::*;
use vstd::std_specs::iter::IteratorSpec;

verus! {

broadcast use vstd::std_specs::hash::group_hash_axioms;

/// Adds every element of `source` to `target`.
pub fn insert_all(target: &mut HashSet<u64>, source: &HashSet<u64>)
    ensures
        final(target)@ == old(target)@.union(source@),
{
    let ghost keys = source.iter().remaining().unref();
    let ghost start = target@;
    let ghost mut done: int = 0;
    proof {
        assert(start.union(keys.take(0).to_set()) =~= start);
    }
    for x in it: source.iter()
        invariant
            it.seq().unref() == keys,
            done == it.index(),
            target@ == start.union(keys.take(done).to_set()),
    {
        target.insert(*x);
        proof {
            assert(keys.take(done + 1) =~= keys.take(done).push(*x));
            keys.take(done).lemma_push_to_set_commute(*x);
            assert(target@ =~= start.union(keys.take(done + 1).to_set()));
            done = done + 1;
        }
    }
    proof {
        assert(keys.take(done) =~= keys);
    }
}

/// The elements of `source`, each once, in no particular order.
pub fn elements(source: &HashSet<u64>) -> (res: Vec<u64>)
    ensures
        res@.to_set() == source@,
        res@.no_duplicates(),
{
    let mut res: Vec<u64> = Vec::new();
    let ghost keys = source.iter().remaining().unref();
    for x in it: source.iter()
        invariant
            it.seq().unref() == keys,
            res@.len() == it.index(),
            res@ == keys.take(res@.len() as int),
    {
        res.push(*x);
    }
    assert(res@ == keys);
    res
}

/// The set that holds the items of `items`.
pub fn collect(items: &Vec<u64>) -> (res: HashSet<u64>)
    ensures
        res@ == items@.to_set(),
{
    let mut res: HashSet<u64> = HashSet::new();
    let mut i: usize = 0;
    proof {
        assert(items@.take(0).to_set() =~= Set::empty());
    }
    while i < items.len()
        invariant
            i <= items.len(),
            res@ == items@.take(i as int).to_set(),
        decreases items.len() - i,
    {
        res.insert(items[i]);
        proof {
            assert(items@.take(i + 1) =~= items@.take(i as int).push(items@[i as int]));
            items@.take(i as int).lemma_push_to_set_commute(items@[i as int]);
        }
        i += 1;
    }
    proof {
        assert(items@.take(i as int) =~= items@);
    }
    res
}

/// A grow-only set of `u64` values.
pub struct GSet(pub HashSet<u64>);

impl CRDT for GSet {
    type Element = u64;

    type Value = HashSet<u64>;

    type State = Set<u64>;

    open spec fn state(&self) -> Set<u64> {
        self.0@
    }

    open spec fn wf(&self) -> bool {
        true
    }

    open spec fn initial() -> Set<u64> {
        Set::empty()
    }

    open spec fn addable(s: Set<u64>, val: u64) -> bool {
        true
    }

    open spec fn added(s: Set<u64>, val: u64) -> Set<u64> {
        s.insert(val)
    }

    open spec fn join(a: Set<u64>, b: Set<u64>) -> Set<u64> {
        a.union(b)
    }

    open spec fn readable(s: Set<u64>) -> bool {
        true
    }

    open spec fn shows(s: Set<u64>, v: HashSet<u64>) -> bool {
        v@ == s
    }

    open spec fn carried(body: BodyView) -> Option<Set<u64>> {
        match body.value {
            Some(ValueView::List(items)) => Some(items.to_set()),
            _ => None,
        }
    }

    open spec fn concise(body: BodyView) -> bool {
        body.value matches Some(ValueView::List(items)) && items.no_duplicates()
    }

    open spec fn stripped(body: BodyView) -> BodyView {
        BodyView { value: None, ..body }
    }

    fn init() -> (res: Self) {
        GSet(HashSet::new())
    }

    fn add(&mut self, val: u64) {
        self.0.insert(val);
    }

    fn read(&self) -> (res: HashSet<u64>) {
        let mut res: HashSet<u64> = HashSet::new();
        insert_all(&mut res, &self.0);
        assert(res@ =~= self.0@);
        res
    }

    fn merge(&mut self, other: &Self) {
        insert_all(&mut self.0, &other.0);
    }

    fn from_msg_body(mb: &MsgBody) -> (res: Self) {
        match &mb.value {
            Some(Value::List(items)) => GSet(collect(items)),
            _ => GSet(HashSet::new()),
        }
    }

    fn into_msg_body(&self) -> (res: MsgBody) {
        let mut body = MsgBody::of_kind("");
        body.value = Some(Value::List(elements(&self.0)));
        proof {
            reveal_strlit("");
            assert(""@ =~= Seq::<char>::empty());
        }
        body
    }

    fn carries(mb: &MsgBody) -> (res: bool) {
        match &mb.value {
            Some(Value::List(_)) => true,
            _ => false,
        }
    }

    proof fn lemma_carried_by_field(body: BodyView, typ: Seq<char>, msg_id: Option<u64>) {
    }

    proof fn lemma_join_idempotent(a: Set<u64>) {
        assert(a.union(a) =~= a);
    }

    proof fn lemma_join_commutative(a: Set<u64>, b: Set<u64>) {
        assert(a.union(b) =~= b.union(a));
    }

    proof fn lemma_join_associative(a: Set<u64>, b: Set<u64>, c: Set<u64>) {
        assert(a.union(b).union(c) =~= a.union(b.union(c)));
    }
}

/// The element that an `add` request names.
pub open spec fn requested_element(body: BodyView) -> Option<u64> {
    match body.element {
        Some(element) => element.as_u64(),
        None => None,
    }
}

/// What a grow-only-set node does with a message. `add` inserts the element,
/// `replicate` merges a peer's set, `read` shows every element once, in no
/// particular order; a message of any other kind is a fault.
pub open spec fn handled(
    before: ReplicaView<Set<u64>>,
    msg: MessageView,
    after: ReplicaView<Set<u64>>,
    res: Result<Seq<EffectView>, Fault>,
) -> bool {
    if msg.body.typ == "init"@ {
        meets(before, after, res, handshake_outcome(before, msg))
    } else if msg.body.typ == "add"@ {
        match requested_element(msg.body) {
            Some(element) => meets(
                before,
                after,
                res,
                add_outcome(before, msg, before.state.insert(element)),
            ),
            None => meets(before, after, res, Err(Fault::Malformed)),
        }
    } else if msg.body.typ == "replicate"@ {
        meets(before, after, res, merge_outcome::<GSet>(before, msg))
    } else if msg.body.typ == "read"@ {
        exists|items: Seq<u64>|
            items.no_duplicates() && items.to_set() == before.state && meets(
                before,
                after,
                res,
                #[trigger] read_outcome(before, msg, ValueView::List(items)),
            )
    } else {
        meets(before, after, res, Err(Fault::UnknownKind))
    }
}

impl Replica<GSet> {
    /// Handles one message.
    pub fn handle(&mut self, msg: &Message) -> (res: Result<Vec<Effect>, Fault>)
        ensures
            handled(old(self)@, msg@, final(self)@, effects_of(res)),
    {
        if msg.body.is_kind("init") {
            self.on_init(msg)
        } else if msg.body.is_kind("add") {
            let element = match &msg.body.element {
                Some(element) => element.as_u64(),
                None => None,
            };
            match element {
                Some(element) => self.apply(msg, element),
                None => Err(Fault::Malformed),
            }
        } else if msg.body.is_kind("replicate") {
            self.absorb(msg)
        } else if msg.body.is_kind("read") {
            let items = elements(&self.crdt.0);
            let ghost shown = items@;
            let res = self.answer(msg, Value::List(items));
            proof {
                assert(meets(
                    old(self)@,
                    self@,
                    effects_of(res),
                    read_outcome(old(self)@, msg@, ValueView::List(shown)),
                ));
            }
            res
        } else {
            Err(Fault::UnknownKind)
        }
    }
}

} // verus!
