//! Transactions under per-key optimistic concurrency control: every key is a
//! document of its own in the key-value service.
//!
//! Each micro-operation is an exchange of its own. An append reads the list
//! of its key and swaps it for the longer one; a read passes the stored list
//! on; a verify compares it. Keys do not wait for each other, and a
//! transaction is not atomic across keys: when a later micro-operation
//! fails, the appends that were swapped in before it stay in the service.

use crate::message::{BodyView, Message, MessageView, MsgBody};
use crate::node::{next_id, Fault, MessageIdGenerator};
use crate::occ::{
    abort_message, abort_reply, commit_message, commit_reply, correlated, respond, response_to,
    step_of, stray, swap_accepted, Caller, CallerView, Step, StepView, CALL_TIMEOUT_MS,
};
use crate::txn::{ops_of, result_of, same_list, Op, OpView};
use crate::value::{Value, ValueView};
use vstd::prelude::*;

verus! {

/// A transaction in progress.
#[derive(Debug, PartialEq, Eq)]
pub struct KeyedPending {
    pub caller: Caller,
    /// The identifier of the call that is under way.
    pub call_id: u64,
    pub ops: Vec<Op>,
    /// The micro-operation that the call belongs to.
    pub at: usize,
    /// The result triples of the micro-operations before it.
    pub results: Vec<Vec<Value>>,
    /// Whether the call is the swap of an append rather than a read.
    pub swapping: bool,
}

/// The mathematical content of a [`KeyedPending`].
pub struct KeyedPendingView {
    pub caller: CallerView,
    pub call_id: u64,
    pub ops: Seq<OpView>,
    pub at: nat,
    pub results: Seq<Seq<ValueView>>,
    pub swapping: bool,
}

impl View for KeyedPending {
    type V = KeyedPendingView;

    open spec fn view(&self) -> KeyedPendingView {
        KeyedPendingView {
            caller: self.caller@,
            call_id: self.call_id,
            ops: self.ops.deep_view(),
            at: self.at as nat,
            results: self.results.deep_view(),
            swapping: self.swapping,
        }
    }
}

impl DeepView for KeyedPending {
    type V = KeyedPendingView;

    open spec fn deep_view(&self) -> KeyedPendingView {
        self@
    }
}

/// A transaction node that keeps every key as a document of its own.
pub struct KeyedTxnNode {
    pub node_id: String,
    pub ids: MessageIdGenerator,
    /// Whether the handshake has happened.
    pub initialized: bool,
    /// The transaction in progress, if there is one.
    pub pending: Option<KeyedPending>,
}

/// The mathematical content of a [`KeyedTxnNode`].
pub struct KeyedNodeView {
    pub node_id: Seq<char>,
    pub next_id: u64,
    pub initialized: bool,
    pub pending: Option<KeyedPendingView>,
}

impl View for KeyedTxnNode {
    type V = KeyedNodeView;

    open spec fn view(&self) -> KeyedNodeView {
        KeyedNodeView {
            node_id: self.node_id@,
            next_id: self.ids@,
            initialized: self.initialized,
            pending: self.pending.deep_view(),
        }
    }
}

/// A step met its specification: on success the node is in the state and
/// has returned the step that `expected` names; on a fault it has returned
/// that fault and the node is as it was.
pub open spec fn follows(
    before: KeyedNodeView,
    after: KeyedNodeView,
    res: Result<StepView, Fault>,
    expected: Result<(KeyedNodeView, StepView), Fault>,
) -> bool {
    match expected {
        Ok((node, step)) => after == node && res == Ok::<StepView, Fault>(step),
        Err(fault) => after == before && res == Err::<StepView, Fault>(fault),
    }
}

/// The key that a micro-operation works on.
pub open spec fn key_of(op: OpView) -> u64 {
    match op {
        OpView::Append(key, _) => key,
        OpView::Read(key) => key,
        OpView::Verify(key, _) => key,
    }
}

/// The request for the list of `key`.
pub open spec fn key_read_request(node_id: Seq<char>, id: u64, key: u64) -> MessageView {
    MessageView {
        src: node_id,
        dest: "lin-kv"@,
        body: BodyView { key: Some(ValueView::Unsigned(key)), ..BodyView::request("read"@, id) },
    }
}

/// The request to swap the list `from` of `key` for the list `to`, or to
/// create it where the service has none.
pub open spec fn key_cas_request(
    node_id: Seq<char>,
    id: u64,
    key: u64,
    from: Seq<u64>,
    to: Seq<u64>,
) -> MessageView {
    MessageView {
        src: node_id,
        dest: "lin-kv"@,
        body: BodyView {
            key: Some(ValueView::Unsigned(key)),
            from: Some(ValueView::List(from)),
            to: Some(ValueView::List(to)),
            create_if_not_exists: Some(true),
            ..BodyView::request("cas"@, id)
        },
    }
}

/// The node after the exchange has ended with the response `reply`.
pub open spec fn ended(node: KeyedNodeView, reply: MessageView) -> Result<
    (KeyedNodeView, StepView),
    Fault,
> {
    Ok(
        (
            KeyedNodeView { next_id: next_id(node.next_id), pending: None, ..node },
            StepView::Reply(reply),
        ),
    )
}

/// What follows once the micro-operations before `at` are done with the
/// results `results`: the read for the next one, or the `txn_ok` after the
/// last.
pub open spec fn proceed(
    node: KeyedNodeView,
    caller: CallerView,
    ops: Seq<OpView>,
    at: nat,
    results: Seq<Seq<ValueView>>,
) -> Result<(KeyedNodeView, StepView), Fault> {
    if at >= ops.len() {
        ended(node, commit_reply(caller, node.next_id, results))
    } else {
        Ok(
            (
                KeyedNodeView {
                    next_id: next_id(node.next_id),
                    pending: Some(
                        KeyedPendingView {
                            caller,
                            call_id: node.next_id,
                            ops,
                            at,
                            results,
                            swapping: false,
                        },
                    ),
                    ..node
                },
                StepView::Call {
                    request: key_read_request(node.node_id, node.next_id, key_of(ops[at as int])),
                    timeout_ms: CALL_TIMEOUT_MS,
                },
            ),
        )
    }
}

/// What a node does with a message from a client. `init` is acknowledged;
/// `txn` starts with the read for its first micro-operation.
pub open spec fn begin_outcome(node: KeyedNodeView, msg: MessageView) -> Result<
    (KeyedNodeView, StepView),
    Fault,
> {
    if msg.body.typ == "init"@ {
        if msg.body.msg_id is None || msg.body.node_id is None {
            Err(Fault::Malformed)
        } else {
            let caller = CallerView {
                client: msg.src,
                node: msg.dest,
                msg_id: msg.body.msg_id.unwrap(),
            };
            Ok(
                (
                    KeyedNodeView {
                        node_id: if node.initialized {
                            node.node_id
                        } else {
                            msg.body.node_id.unwrap()
                        },
                        initialized: true,
                        next_id: next_id(node.next_id),
                        ..node
                    },
                    StepView::Reply(
                        response_to(caller, BodyView::request("init_ok"@, node.next_id)),
                    ),
                ),
            )
        }
    } else if msg.body.typ == "txn"@ {
        if node.pending is Some {
            Err(Fault::OutOfTurn)
        } else if msg.body.msg_id is None || msg.body.txn is None {
            Err(Fault::Malformed)
        } else {
            match ops_of(msg.body.txn.unwrap()) {
                None => Err(Fault::Malformed),
                Some(ops) => proceed(
                    node,
                    CallerView { client: msg.src, node: msg.dest, msg_id: msg.body.msg_id.unwrap() },
                    ops,
                    0,
                    Seq::empty(),
                ),
            }
        }
    } else {
        Err(Fault::UnknownKind)
    }
}

/// The list that the response to a read holds: none where the service has
/// no list for the key. The outer `None` is a stored value that is no list.
pub open spec fn stored_list(body: BodyView) -> Option<Option<Seq<u64>>> {
    match body.value {
        None => Some(None),
        Some(ValueView::List(list)) => Some(Some(list)),
        Some(_) => None,
    }
}

/// The database of one key that holds what a read has found.
pub open spec fn found(key: u64, list: Option<Seq<u64>>) -> Map<u64, Seq<u64>> {
    match list {
        Some(list) => Map::<u64, Seq<u64>>::empty().insert(key, list),
        None => Map::empty(),
    }
}

/// What a node does once the read for the micro-operation `at` has been
/// answered, or the time allowed has passed without an answer. Without a
/// response the rest of the transaction is aborted. An append asks for the
/// swap of the list that was read, or of the empty list where there is
/// none, for the list with the value at its end; a read passes the list on;
/// a verify compares it and aborts the rest of the transaction where it
/// differs.
pub open spec fn read_outcome(
    node: KeyedNodeView,
    pending: KeyedPendingView,
    response: Option<MessageView>,
) -> Result<(KeyedNodeView, StepView), Fault> {
    let op = pending.ops[pending.at as int];
    match correlated(pending.call_id, response) {
        None => ended(node, abort_reply(pending.caller, node.next_id, "read failed"@)),
        Some(body) => match stored_list(body) {
            None => Err(Fault::Malformed),
            Some(list) => match op {
                OpView::Append(key, value) => {
                    let from = match list {
                        Some(list) => list,
                        None => Seq::empty(),
                    };
                    Ok(
                        (
                            KeyedNodeView {
                                next_id: next_id(node.next_id),
                                pending: Some(
                                    KeyedPendingView {
                                        call_id: node.next_id,
                                        swapping: true,
                                        ..pending
                                    },
                                ),
                                ..node
                            },
                            StepView::Call {
                                request: key_cas_request(
                                    node.node_id,
                                    node.next_id,
                                    key,
                                    from,
                                    from.push(value),
                                ),
                                timeout_ms: CALL_TIMEOUT_MS,
                            },
                        ),
                    )
                },
                OpView::Read(key) => proceed(
                    node,
                    pending.caller,
                    pending.ops,
                    pending.at + 1,
                    pending.results.push(result_of(found(key, list), op)),
                ),
                OpView::Verify(key, expected) => if list == Some(expected) {
                    proceed(
                        node,
                        pending.caller,
                        pending.ops,
                        pending.at + 1,
                        pending.results.push(result_of(found(key, list), op)),
                    )
                } else {
                    ended(node, abort_reply(pending.caller, node.next_id, "verify failed"@))
                },
            },
        },
    }
}

/// What a node does once the swap of the append `at` has been answered, or
/// the time allowed has passed without an answer: it goes on where the
/// service has accepted the swap, and aborts the rest of the transaction
/// otherwise. The node does not try again, and what earlier appends have
/// swapped in stays.
pub open spec fn swap_outcome(
    node: KeyedNodeView,
    pending: KeyedPendingView,
    response: Option<MessageView>,
) -> Result<(KeyedNodeView, StepView), Fault> {
    if swap_accepted(pending.call_id, response) {
        proceed(
            node,
            pending.caller,
            pending.ops,
            pending.at + 1,
            pending.results.push(result_of(Map::empty(), pending.ops[pending.at as int])),
        )
    } else {
        ended(node, abort_reply(pending.caller, node.next_id, "CAS failed"@))
    }
}

/// A transaction in progress is at one of its micro-operations, and only an
/// append is ever swapping.
pub open spec fn in_order(pending: KeyedPendingView) -> bool {
    pending.at < pending.ops.len() && (pending.swapping ==> pending.ops[pending.at as int]
        is Append)
}

/// What a node does with what came while a call is under way: the message
/// that was read next, or nothing where the time allowed has passed.
///
/// A message that is not the response to the call changes nothing: the node
/// goes on waiting for the response, and the message is left to be handled
/// after the exchange. Only the response itself, or the end of the time
/// allowed, moves the exchange on.
pub open spec fn resume_outcome(node: KeyedNodeView, response: Option<MessageView>) -> Result<
    (KeyedNodeView, StepView),
    Fault,
> {
    match node.pending {
        None => Err(Fault::OutOfTurn),
        Some(pending) => if !in_order(pending) {
            Err(Fault::OutOfTurn)
        } else if stray(pending.call_id, response) {
            Ok((node, StepView::Wait))
        } else if pending.swapping {
            swap_outcome(node, pending, response)
        } else {
            read_outcome(node, pending, response)
        },
    }
}

/// Builds the request for the list of `key`.
pub fn key_read_message(node_id: &String, id: u64, key: u64) -> (res: Message)
    ensures
        res@ == key_read_request(node_id@, id, key),
{
    let mut body = MsgBody::request("read", id);
    body.key = Some(Value::Unsigned(key));
    Message { src: node_id.clone(), dest: "lin-kv".to_owned(), body }
}

/// Builds the request to swap the list `from` of `key` for the list `to`.
pub fn key_cas_message(node_id: &String, id: u64, key: u64, from: Vec<u64>, to: Vec<u64>) -> (res:
    Message)
    ensures
        res@ == key_cas_request(node_id@, id, key, from@, to@),
{
    let mut body = MsgBody::request("cas", id);
    body.key = Some(Value::Unsigned(key));
    body.from = Some(Value::List(from));
    body.to = Some(Value::List(to));
    body.create_if_not_exists = Some(true);
    Message { src: node_id.clone(), dest: "lin-kv".to_owned(), body }
}

/// The key that a micro-operation works on.
pub fn op_key(op: &Op) -> (res: u64)
    ensures
        res == key_of(op@),
{
    match op {
        Op::Append(key, _) => *key,
        Op::Read(key) => *key,
        Op::Verify(key, _) => *key,
    }
}

/// The values of a list that was found, if one was.
pub open spec fn values_of(list: Option<&Vec<u64>>) -> Option<Seq<u64>> {
    match list {
        Some(list) => Some(list@),
        None => None,
    }
}

/// The result triple of a read or a verify that has passed, from the list
/// that was found for its key.
pub fn result_from(op: &Op, list: Option<&Vec<u64>>) -> (res: Vec<Value>)
    requires
        !(op@ is Append),
    ensures
        res.deep_view() == result_of(found(key_of(op@), values_of(list)), op@),
{
    let mut triple: Vec<Value> = Vec::new();
    triple.push(Value::Text("r".to_owned()));
    triple.push(Value::Unsigned(op_key(op)));
    match op {
        Op::Verify(_, expected) => {
            triple.push(Value::List(expected.clone()));
        },
        _ => {
            match list {
                Some(list) => {
                    triple.push(Value::List(list.clone()));
                },
                None => {
                    triple.push(Value::Null);
                },
            }
        },
    }
    proof {
        assert(triple.deep_view() =~= result_of(found(key_of(op@), values_of(list)), op@));
    }
    triple
}

/// The result triple of an append.
pub fn append_result(key: u64, value: u64) -> (res: Vec<Value>)
    ensures
        res.deep_view() == result_of(Map::empty(), OpView::Append(key, value)),
{
    let mut triple: Vec<Value> = Vec::new();
    triple.push(Value::Text("append".to_owned()));
    triple.push(Value::Unsigned(key));
    triple.push(Value::Unsigned(value));
    proof {
        assert(triple.deep_view() =~= result_of(Map::empty(), OpView::Append(key, value)));
    }
    triple
}

impl KeyedTxnNode {
    /// A node before its handshake, with no transaction in progress.
    pub fn new() -> (res: KeyedTxnNode)
        ensures
            res@ == (KeyedNodeView {
                node_id: Seq::<char>::empty(),
                next_id: 0,
                initialized: false,
                pending: None,
            }),
    {
        KeyedTxnNode {
            node_id: String::new(),
            ids: MessageIdGenerator::new(),
            initialized: false,
            pending: None,
        }
    }

    /// Goes on after the micro-operations before `at`: asks for the read of
    /// the next one, or answers the client after the last.
    fn proceed(
        &mut self,
        caller: Caller,
        ops: Vec<Op>,
        at: usize,
        results: Vec<Vec<Value>>,
    ) -> (res: Result<Step, Fault>)
        ensures
            follows(
                KeyedNodeView { pending: None, ..old(self)@ },
                final(self)@,
                step_of(res),
                proceed(
                    KeyedNodeView { pending: None, ..old(self)@ },
                    caller@,
                    ops.deep_view(),
                    at as nat,
                    results.deep_view(),
                ),
            ),
            res is Ok,
    {
        let id = self.ids.fresh();
        if at >= ops.len() {
            self.pending = None;
            Ok(Step::Reply(commit_message(&caller, id, results)))
        } else {
            let request = key_read_message(&self.node_id, id, op_key(&ops[at]));
            self.pending = Some(
                KeyedPending { caller, call_id: id, ops, at, results, swapping: false },
            );
            Ok(Step::Call { request, timeout_ms: CALL_TIMEOUT_MS })
        }
    }

    /// Handles a message from a client.
    pub fn handle(&mut self, msg: &Message) -> (res: Result<Step, Fault>)
        ensures
            follows(old(self)@, final(self)@, step_of(res), begin_outcome(old(self)@, msg@)),
    {
        if msg.body.is_kind("init") {
            let msg_id = match msg.body.msg_id {
                Some(msg_id) => msg_id,
                None => {
                    return Err(Fault::Malformed);
                },
            };
            match &msg.body.node_id {
                Some(node_id) => {
                    if !self.initialized {
                        self.node_id = node_id.clone();
                        self.initialized = true;
                    }
                },
                None => {
                    return Err(Fault::Malformed);
                },
            }
            let caller = Caller { client: msg.src.clone(), node: msg.dest.clone(), msg_id };
            let id = self.ids.fresh();
            Ok(Step::Reply(respond(&caller, MsgBody::request("init_ok", id))))
        } else if msg.body.is_kind("txn") {
            if self.pending.is_some() {
                return Err(Fault::OutOfTurn);
            }
            let msg_id = match msg.body.msg_id {
                Some(msg_id) => msg_id,
                None => {
                    return Err(Fault::Malformed);
                },
            };
            let ops = match &msg.body.txn {
                Some(txn) => match Op::parse_all(txn) {
                    Some(ops) => ops,
                    None => {
                        return Err(Fault::Malformed);
                    },
                },
                None => {
                    return Err(Fault::Malformed);
                },
            };
            let caller = Caller { client: msg.src.clone(), node: msg.dest.clone(), msg_id };
            let results: Vec<Vec<Value>> = Vec::new();
            proof {
                assert(results.deep_view() =~= Seq::<Seq<ValueView>>::empty());
            }
            self.proceed(caller, ops, 0, results)
        } else {
            Err(Fault::UnknownKind)
        }
    }

    /// Takes what came while the call is under way: the message that was
    /// read next, or `None` where the time allowed has passed.
    pub fn resume(&mut self, response: Option<&Message>) -> (res: Result<Step, Fault>)
        ensures
            follows(
                old(self)@,
                final(self)@,
                step_of(res),
                resume_outcome(old(self)@, response.deep_view()),
            ),
    {
        let body = match &self.pending {
            None => {
                return Err(Fault::OutOfTurn);
            },
            Some(pending) => {
                if pending.at >= pending.ops.len() {
                    return Err(Fault::OutOfTurn);
                }
                let is_append = match &pending.ops[pending.at] {
                    Op::Append(_, _) => true,
                    _ => false,
                };
                if pending.swapping && !is_append {
                    return Err(Fault::OutOfTurn);
                }
                let body = match response {
                    Some(message) => if message.body.in_reply_to == Some(pending.call_id) {
                        Some(&message.body)
                    } else {
                        return Ok(Step::Wait);
                    },
                    None => None,
                };
                if !pending.swapping {
                    match body {
                        Some(body) => match &body.value {
                            None => {},
                            Some(Value::List(_)) => {},
                            Some(_) => {
                                return Err(Fault::Malformed);
                            },
                        },
                        None => {},
                    }
                }
                body
            },
        };
        let pending = match self.pending.take() {
            Some(pending) => pending,
            None => {
                return Err(Fault::OutOfTurn);
            },
        };
        let KeyedPending { caller, call_id, ops, at, results, swapping } = pending;
        let ghost shown = results.deep_view();
        let mut results = results;
        if swapping {
            let accepted = match body {
                Some(body) => body.is_kind("cas_ok"),
                None => false,
            };
            if !accepted {
                let id = self.ids.fresh();
                return Ok(Step::Reply(abort_message(&caller, id, "CAS failed")));
            }
            match &ops[at] {
                Op::Append(key, value) => {
                    let triple = append_result(*key, *value);
                    results.push(triple);
                    proof {
                        assert(results.deep_view() =~= shown.push(triple.deep_view()));
                    }
                },
                _ => {},
            }
            self.proceed(caller, ops, at + 1, results)
        } else {
            let body = match body {
                Some(body) => body,
                None => {
                    let id = self.ids.fresh();
                    return Ok(Step::Reply(abort_message(&caller, id, "read failed")));
                },
            };
            let list: Option<&Vec<u64>> = match &body.value {
                Some(Value::List(list)) => Some(list),
                _ => None,
            };
            match &ops[at] {
                Op::Append(key, value) => {
                    let from = match list {
                        Some(list) => list.clone(),
                        None => Vec::new(),
                    };
                    let mut to = from.clone();
                    to.push(*value);
                    let id = self.ids.fresh();
                    let request = key_cas_message(&self.node_id, id, *key, from, to);
                    self.pending = Some(
                        KeyedPending { caller, call_id: id, ops, at, results, swapping: true },
                    );
                    Ok(Step::Call { request, timeout_ms: CALL_TIMEOUT_MS })
                },
                Op::Read(_) => {
                    let triple = result_from(&ops[at], list);
                    results.push(triple);
                    proof {
                        assert(results.deep_view() =~= shown.push(triple.deep_view()));
                    }
                    self.proceed(caller, ops, at + 1, results)
                },
                Op::Verify(_, expected) => {
                    let matches = match list {
                        Some(list) => same_list(list, expected),
                        None => false,
                    };
                    if !matches {
                        let id = self.ids.fresh();
                        return Ok(Step::Reply(abort_message(&caller, id, "verify failed")));
                    }
                    let triple = result_from(&ops[at], list);
                    results.push(triple);
                    proof {
                        assert(results.deep_view() =~= shown.push(triple.deep_view()));
                    }
                    self.proceed(caller, ops, at + 1, results)
                },
            }
        }
    }
}

} // verus!
