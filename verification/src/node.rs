//! What every node shares: its identity, its message identifiers, the faults
//! that end a node, and the effects that a handler asks its driver to perform.

use crate::message::{Message, MessageView};
use vstd::prelude::*;

verus! {

/// Why a node cannot go on. Each of these is fatal: the driver ends the process.
#[derive(Clone, Copy, Debug, PartialEq, Eq, Structural)]
pub enum Fault {
    /// The message is of a kind that this node does not handle.
    UnknownKind,
    /// A field that the kind requires is absent or of the wrong shape.
    Malformed,
    /// A count has left its machine type.
    Overflow,
    /// A message arrived that only makes sense in another phase of an exchange.
    OutOfTurn,
}

/// The interval of the anti-entropy task, in milliseconds.
pub const REPLICATION_INTERVAL_MS: u64 = 2000;

/// The interval after which an unacknowledged gossip message is sent again,
/// in milliseconds.
pub const RESEND_INTERVAL_MS: u64 = 500;

/// What a handler asks the driver of the node to do, in order.
#[derive(Debug, PartialEq, Eq)]
pub enum Effect {
    /// Write the message as one line to the protocol stream.
    Send(Message),
    /// Start the periodic task that ships the full state to every peer.
    StartReplication { interval_ms: u64 },
    /// Start a retry task that sends `message` now and again after every
    /// `interval_ms`, until it is cancelled.
    StartRetry { id: u64, message: Message, interval_ms: u64 },
    /// Cancel the retry task that was started under `id`.
    CancelRetry { id: u64 },
}

/// The mathematical content of an [`Effect`].
pub enum EffectView {
    Send(MessageView),
    StartReplication { interval_ms: u64 },
    StartRetry { id: u64, message: MessageView, interval_ms: u64 },
    CancelRetry { id: u64 },
}

impl View for Effect {
    type V = EffectView;

    open spec fn view(&self) -> EffectView {
        match self {
            Effect::Send(m) => EffectView::Send(m@),
            Effect::StartReplication { interval_ms } => EffectView::StartReplication {
                interval_ms: *interval_ms,
            },
            Effect::StartRetry { id, message, interval_ms } => EffectView::StartRetry {
                id: *id,
                message: message@,
                interval_ms: *interval_ms,
            },
            Effect::CancelRetry { id } => EffectView::CancelRetry { id: *id },
        }
    }
}

impl DeepView for Effect {
    type V = EffectView;

    open spec fn deep_view(&self) -> EffectView {
        self@
    }
}

/// What a handler returned, as mathematical content.
pub open spec fn effects_of(res: Result<Vec<Effect>, Fault>) -> Result<Seq<EffectView>, Fault> {
    match res {
        Ok(effects) => Ok(effects.deep_view()),
        Err(fault) => Err(fault),
    }
}

/// A handler met its specification: on success the node is in the state and
/// has returned the effects that `expected` names; on a fault it has returned
/// that fault and the node is as it was.
pub open spec fn meets<N>(
    before: N,
    after: N,
    res: Result<Seq<EffectView>, Fault>,
    expected: Result<(N, Seq<EffectView>), Fault>,
) -> bool {
    match expected {
        Ok((node, effects)) => after == node && res == Ok::<Seq<EffectView>, Fault>(effects),
        Err(fault) => after == before && res == Err::<Seq<EffectView>, Fault>(fault),
    }
}

/// The identifier that follows `id`. After `u64::MAX` the count starts over.
pub open spec fn next_id(id: u64) -> u64 {
    if id == u64::MAX {
        0
    } else {
        (id + 1) as u64
    }
}

/// The identifier issued `k` steps after `start`.
pub open spec fn id_after(start: u64, k: nat) -> u64
    decreases k,
{
    if k == 0 {
        start
    } else {
        next_id(id_after(start, (k - 1) as nat))
    }
}

/// Identifiers count up modulo 2^64.
pub proof fn lemma_id_after(start: u64, k: nat)
    ensures
        id_after(start, k) as int == (start + k) % 0x1_0000_0000_0000_0000,
    decreases k,
{
    if k > 0 {
        lemma_id_after(start, (k - 1) as nat);
    }
}

/// No identifier is issued twice, as long as fewer than 2^64 were issued.
pub proof fn lemma_ids_unique(start: u64, i: nat, j: nat)
    requires
        i < j < 0x1_0000_0000_0000_0000,
    ensures
        id_after(start, i) != id_after(start, j),
{
    lemma_id_after(start, i);
    lemma_id_after(start, j);
}

/// The source of message identifiers of one node: a counter that every
/// producer of the node draws from.
#[derive(Debug)]
pub struct MessageIdGenerator {
    next: u64,
}

impl View for MessageIdGenerator {
    type V = u64;

    closed spec fn view(&self) -> u64 {
        self.next
    }
}

impl MessageIdGenerator {
    /// A generator that starts at zero.
    pub fn new() -> (res: MessageIdGenerator)
        ensures
            res@ == 0,
    {
        MessageIdGenerator { next: 0 }
    }

    /// Issues the next identifier.
    pub fn fresh(&mut self) -> (id: u64)
        ensures
            id == old(self)@,
            final(self)@ == next_id(old(self)@),
    {
        let id = self.next;
        self.next = if id == u64::MAX {
            0
        } else {
            id + 1
        };
        id
    }
}

/// Issues the identifier held in `next_id` and moves on to the one after it.
pub fn gen_msg_id(next_id: &mut u64) -> (id: u64)
    requires
        *old(next_id) < u64::MAX,
    ensures
        id == *old(next_id),
        *final(next_id) == id + 1,
{
    let cp = *next_id;
    *next_id += 1;
    cp
}

/// The identifiers in `ids` other than `me`, in their order.
pub open spec fn others(ids: Seq<Seq<char>>, me: Seq<char>) -> Seq<Seq<char>>
    decreases ids.len(),
{
    if ids.len() == 0 {
        Seq::empty()
    } else if ids.last() == me {
        others(ids.drop_last(), me)
    } else {
        others(ids.drop_last(), me).push(ids.last())
    }
}

/// Computes [`others`].
pub fn others_of(ids: &Vec<String>, me: &String) -> (res: Vec<String>)
    ensures
        res.deep_view() == others(ids.deep_view(), me@),
{
    let ghost s = ids.deep_view();
    let mut res: Vec<String> = Vec::new();
    let mut i: usize = 0;
    proof {
        assert(s.take(0) =~= Seq::empty());
        assert(res.deep_view() =~= Seq::empty());
    }
    while i < ids.len()
        invariant
            i <= ids.len(),
            s == ids.deep_view(),
            res.deep_view() == others(s.take(i as int), me@),
        decreases ids.len() - i,
    {
        let ghost before = res.deep_view();
        proof {
            assert(s.take(i + 1).drop_last() =~= s.take(i as int));
            assert(s.take(i + 1).last() == ids[i as int]@);
        }
        if ids[i] != *me {
            res.push(ids[i].clone());
            proof {
                assert(res.deep_view() =~= before.push(ids[i as int]@));
            }
        }
        i += 1;
    }
    proof {
        assert(s.take(i as int) =~= s);
    }
    res
}

/// A copy of a list of identifiers.
pub fn copy_ids(ids: &Vec<String>) -> (res: Vec<String>)
    ensures
        res.deep_view() == ids.deep_view(),
{
    let mut res: Vec<String> = Vec::new();
    let mut i: usize = 0;
    while i < ids.len()
        invariant
            i <= ids.len(),
            res.len() == i,
            forall|j: int| 0 <= j < i ==> res[j]@ == ids[j]@,
        decreases ids.len() - i,
    {
        res.push(ids[i].clone());
        i += 1;
    }
    proof {
        assert(res.deep_view() =~= ids.deep_view());
    }
    res
}

} // verus!
