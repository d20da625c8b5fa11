//! Transactions under whole-document optimistic concurrency control: the
//! whole database is one document in the key-value service, read once at the
//! start of a transaction and swapped by one compare-and-swap at its end.
//!
//! The node decides; its driver performs the calls. A step either answers
//! the client or asks for a call to the service, whose response, or the lack
//! of one within the time allowed, is handed to the next step.

use crate::document::{decode, document_of, document_text, encode};
use crate::message::{BodyView, Message, MessageView, MsgBody};
use crate::node::{next_id, Fault, MessageIdGenerator};
use crate::txn::{
    appended_key, commit_outcome, lemma_appended_key, ops_of, same_list, Database, Op, OpView,
};
use crate::value::{Value, ValueView};
use vstd::prelude::*;

verus! {

/// The error code of a transaction that was aborted.
pub const TXN_CONFLICT: u64 = 30;

/// How long a call to the key-value service may take, in milliseconds.
pub const CALL_TIMEOUT_MS: u64 = 500;

/// Whom a transaction is answered to: the request's source, its destination
/// and its identifier.
#[derive(Debug, PartialEq, Eq)]
pub struct Caller {
    pub client: String,
    pub node: String,
    pub msg_id: u64,
}

/// The mathematical content of a [`Caller`].
pub struct CallerView {
    pub client: Seq<char>,
    pub node: Seq<char>,
    pub msg_id: u64,
}

impl View for Caller {
    type V = CallerView;

    open spec fn view(&self) -> CallerView {
        CallerView { client: self.client@, node: self.node@, msg_id: self.msg_id }
    }
}

/// What a transaction in progress waits for.
#[derive(Debug, PartialEq, Eq)]
pub enum Phase {
    /// The document was asked for; these micro-operations are to be applied.
    Reading(Vec<Op>),
    /// The swap was asked for; these results are to be returned.
    Swapping(Vec<Vec<Value>>),
}

/// The mathematical content of a [`Phase`].
pub enum PhaseView {
    Reading(Seq<OpView>),
    Swapping(Seq<Seq<ValueView>>),
}

impl View for Phase {
    type V = PhaseView;

    open spec fn view(&self) -> PhaseView {
        match self {
            Phase::Reading(ops) => PhaseView::Reading(ops.deep_view()),
            Phase::Swapping(results) => PhaseView::Swapping(results.deep_view()),
        }
    }
}

/// A transaction in progress.
#[derive(Debug, PartialEq, Eq)]
pub struct Pending {
    pub caller: Caller,
    /// The identifier of the call that is under way.
    pub call_id: u64,
    pub phase: Phase,
}

/// The mathematical content of a [`Pending`].
pub struct PendingView {
    pub caller: CallerView,
    pub call_id: u64,
    pub phase: PhaseView,
}

impl View for Pending {
    type V = PendingView;

    open spec fn view(&self) -> PendingView {
        PendingView { caller: self.caller@, call_id: self.call_id, phase: self.phase@ }
    }
}

impl DeepView for Pending {
    type V = PendingView;

    open spec fn deep_view(&self) -> PendingView {
        self@
    }
}

/// What the driver does after a step.
#[derive(Debug, PartialEq, Eq)]
pub enum Step {
    /// Send the response to the client; the exchange is over.
    Reply(Message),
    /// Send the request to the key-value service and wait for its response
    /// for `timeout_ms`.
    Call { request: Message, timeout_ms: u64 },
    /// The message is not the response to the call under way. Keep it, to be
    /// handled once the exchange is over, and go on waiting for the rest of
    /// the time allowed; the request is not sent again.
    Wait,
}

/// The mathematical content of a [`Step`].
pub enum StepView {
    Reply(MessageView),
    Call { request: MessageView, timeout_ms: u64 },
    Wait,
}

impl View for Step {
    type V = StepView;

    open spec fn view(&self) -> StepView {
        match self {
            Step::Reply(message) => StepView::Reply(message@),
            Step::Call { request, timeout_ms } => StepView::Call {
                request: request@,
                timeout_ms: *timeout_ms,
            },
            Step::Wait => StepView::Wait,
        }
    }
}

/// What a step returned, as mathematical content.
pub open spec fn step_of(res: Result<Step, Fault>) -> Result<StepView, Fault> {
    match res {
        Ok(step) => Ok(step@),
        Err(fault) => Err(fault),
    }
}

/// A transaction node.
pub struct TxnNode {
    pub node_id: String,
    pub ids: MessageIdGenerator,
    /// Whether the handshake has happened.
    pub initialized: bool,
    /// The transaction in progress, if there is one.
    pub pending: Option<Pending>,
}

/// The mathematical content of a [`TxnNode`].
pub struct TxnNodeView {
    pub node_id: Seq<char>,
    pub next_id: u64,
    pub initialized: bool,
    pub pending: Option<PendingView>,
}

impl View for TxnNode {
    type V = TxnNodeView;

    open spec fn view(&self) -> TxnNodeView {
        TxnNodeView {
            node_id: self.node_id@,
            next_id: self.ids@,
            initialized: self.initialized,
            pending: self.pending.deep_view(),
        }
    }
}

/// A step met its specification: on success the node is in the state and
/// has returned the step that `expected` names; on a fault it has returned
/// that fault and the node is as it was.
pub open spec fn follows(
    before: TxnNodeView,
    after: TxnNodeView,
    res: Result<StepView, Fault>,
    expected: Result<(TxnNodeView, StepView), Fault>,
) -> bool {
    match expected {
        Ok((node, step)) => after == node && res == Ok::<StepView, Fault>(step),
        Err(fault) => after == before && res == Err::<StepView, Fault>(fault),
    }
}

/// The response to `caller` that carries `body`.
pub open spec fn response_to(caller: CallerView, body: BodyView) -> MessageView {
    MessageView {
        src: caller.node,
        dest: caller.client,
        body: BodyView { in_reply_to: Some(caller.msg_id), ..body },
    }
}

/// The request for the whole document.
pub open spec fn read_request(node_id: Seq<char>, id: u64) -> MessageView {
    MessageView {
        src: node_id,
        dest: "lin-kv"@,
        body: BodyView { key: Some(ValueView::Text("db"@)), ..BodyView::request("read"@, id) },
    }
}

/// The request to swap the document `from` for the document `to`, or to
/// create it where the service has none.
pub open spec fn cas_request(node_id: Seq<char>, id: u64, from: Seq<char>, to: Seq<char>) -> MessageView {
    MessageView {
        src: node_id,
        dest: "lin-kv"@,
        body: BodyView {
            key: Some(ValueView::Text("db"@)),
            from: Some(ValueView::Text(from)),
            to: Some(ValueView::Text(to)),
            create_if_not_exists: Some(true),
            ..BodyView::request("cas"@, id)
        },
    }
}

/// The `txn_ok` response with the result triples of the transaction.
pub open spec fn commit_reply(caller: CallerView, id: u64, results: Seq<Seq<ValueView>>) -> MessageView {
    response_to(caller, BodyView { txn: Some(results), ..BodyView::request("txn_ok"@, id) })
}

/// The `error` response of an aborted transaction.
pub open spec fn abort_reply(caller: CallerView, id: u64, text: Seq<char>) -> MessageView {
    response_to(
        caller,
        BodyView { code: Some(TXN_CONFLICT), text: Some(text), ..BodyView::request("error"@, id) },
    )
}

/// A message came that is not the response to the call `call_id`.
pub open spec fn stray(call_id: u64, response: Option<MessageView>) -> bool {
    response matches Some(message) && message.body.in_reply_to != Some(call_id)
}

/// The body of the response that belongs to the call `call_id`, if one came
/// in time.
pub open spec fn correlated(call_id: u64, response: Option<MessageView>) -> Option<BodyView> {
    match response {
        Some(message) => if message.body.in_reply_to == Some(call_id) {
            Some(message.body)
        } else {
            None
        },
        None => None,
    }
}

/// The database that the response to the read holds: the empty one where
/// the service has no document yet, none where what it has is no document.
pub open spec fn pre_image(body: BodyView) -> Option<Map<u64, Seq<u64>>> {
    match body.value {
        None => Some(Map::empty()),
        Some(ValueView::Text(text)) => document_of(text),
        Some(_) => None,
    }
}

/// What a node does with a message from a client. `init` is acknowledged;
/// `txn` starts an exchange with a read of the whole document.
pub open spec fn begin_outcome(node: TxnNodeView, msg: MessageView) -> Result<
    (TxnNodeView, StepView),
    Fault,
> {
    if msg.body.typ == "init"@ {
        if msg.body.msg_id is None || msg.body.node_id is None {
            Err(Fault::Malformed)
        } else {
            let caller = CallerView {
                client: msg.src,
                node: msg.dest,
                msg_id: msg.body.msg_id.unwrap(),
            };
            Ok(
                (
                    TxnNodeView {
                        node_id: if node.initialized {
                            node.node_id
                        } else {
                            msg.body.node_id.unwrap()
                        },
                        initialized: true,
                        next_id: next_id(node.next_id),
                        ..node
                    },
                    StepView::Reply(
                        response_to(caller, BodyView::request("init_ok"@, node.next_id)),
                    ),
                ),
            )
        }
    } else if msg.body.typ == "txn"@ {
        if node.pending is Some {
            Err(Fault::OutOfTurn)
        } else if msg.body.msg_id is None || msg.body.txn is None {
            Err(Fault::Malformed)
        } else {
            match ops_of(msg.body.txn.unwrap()) {
                None => Err(Fault::Malformed),
                Some(ops) => Ok(
                    (
                        TxnNodeView {
                            next_id: next_id(node.next_id),
                            pending: Some(
                                PendingView {
                                    caller: CallerView {
                                        client: msg.src,
                                        node: msg.dest,
                                        msg_id: msg.body.msg_id.unwrap(),
                                    },
                                    call_id: node.next_id,
                                    phase: PhaseView::Reading(ops),
                                },
                            ),
                            ..node
                        },
                        StepView::Call {
                            request: read_request(node.node_id, node.next_id),
                            timeout_ms: CALL_TIMEOUT_MS,
                        },
                    ),
                ),
            }
        }
    } else {
        Err(Fault::UnknownKind)
    }
}

/// The node after an exchange has ended with the response `reply`.
pub open spec fn ended(node: TxnNodeView, reply: MessageView) -> Result<
    (TxnNodeView, StepView),
    Fault,
> {
    Ok((TxnNodeView { next_id: next_id(node.next_id), pending: None, ..node }, StepView::Reply(reply)))
}

/// The list that a database has for `key`, if it has one.
pub open spec fn list_at(db: Map<u64, Seq<u64>>, key: u64) -> Option<Seq<u64>> {
    if db.dom().contains(key) {
        Some(db[key])
    } else {
        None
    }
}

/// Both texts are documents, and they read back with different lists for
/// `key`.
pub open spec fn reads_differently(from: Seq<char>, to: Seq<char>, key: u64) -> bool {
    match (document_of(from), document_of(to)) {
        (Some(before), Some(after)) => list_at(before, key) != list_at(after, key),
        _ => false,
    }
}

/// The swap shows what the transaction does: where the transaction appends,
/// the two documents read back differently at the key of its first append.
/// A swap of a document for one that reads alike would be accepted beside
/// any other swap from the same document.
pub open spec fn change_shows(from: Seq<char>, to: Seq<char>, ops: Seq<OpView>) -> bool {
    match appended_key(ops) {
        Some(key) => reads_differently(from, to, key),
        None => true,
    }
}

/// What a node does once the read has been answered, or the time allowed
/// has passed without an answer.
///
/// Without a response the transaction is aborted. Otherwise the
/// micro-operations are applied to a copy of the database that was read; if
/// they pass, the swap of the document that was read for the new one is
/// asked for. Nothing was written before that swap is. A swap that would not
/// show the change of the transaction is not asked for: the node ends.
pub open spec fn read_outcome(
    node: TxnNodeView,
    pending: PendingView,
    ops: Seq<OpView>,
    response: Option<MessageView>,
) -> Result<(TxnNodeView, StepView), Fault> {
    match correlated(pending.call_id, response) {
        None => ended(node, abort_reply(pending.caller, node.next_id, "read failed"@)),
        Some(body) => match pre_image(body) {
            None => Err(Fault::Malformed),
            Some(db) => match commit_outcome(db, ops) {
                Err(_) => ended(node, abort_reply(pending.caller, node.next_id, "verify failed"@)),
                Ok((changed, results)) => match (document_text(db), document_text(changed)) {
                    (Some(from), Some(to)) => if !change_shows(from, to, ops) {
                        Err(Fault::Malformed)
                    } else {
                        Ok(
                            (
                                TxnNodeView {
                                    next_id: next_id(node.next_id),
                                    pending: Some(
                                        PendingView {
                                            caller: pending.caller,
                                            call_id: node.next_id,
                                            phase: PhaseView::Swapping(results),
                                        },
                                    ),
                                    ..node
                                },
                                StepView::Call {
                                    request: cas_request(node.node_id, node.next_id, from, to),
                                    timeout_ms: CALL_TIMEOUT_MS,
                                },
                            ),
                        )
                    },
                    _ => Err(Fault::Malformed),
                },
            },
        },
    }
}

/// Whether the service has accepted the swap.
pub open spec fn swap_accepted(call_id: u64, response: Option<MessageView>) -> bool {
    match correlated(call_id, response) {
        Some(body) => body.typ == "cas_ok"@,
        None => false,
    }
}

/// What a node does once the swap has been answered, or the time allowed
/// has passed without an answer: the results are returned if the service has
/// accepted the swap, and the transaction is aborted otherwise. The node
/// does not try again.
pub open spec fn swap_outcome(
    node: TxnNodeView,
    pending: PendingView,
    results: Seq<Seq<ValueView>>,
    response: Option<MessageView>,
) -> Result<(TxnNodeView, StepView), Fault> {
    if swap_accepted(pending.call_id, response) {
        ended(node, commit_reply(pending.caller, node.next_id, results))
    } else {
        ended(node, abort_reply(pending.caller, node.next_id, "CAS failed"@))
    }
}

/// What a node does with what came while a call is under way: the message
/// that was read next, or nothing where the time allowed has passed.
///
/// A message that is not the response to the call changes nothing: the node
/// goes on waiting for the response, and the message is left to be handled
/// after the exchange. Only the response itself, or the end of the time
/// allowed, moves the exchange on.
pub open spec fn resume_outcome(node: TxnNodeView, response: Option<MessageView>) -> Result<
    (TxnNodeView, StepView),
    Fault,
> {
    match node.pending {
        None => Err(Fault::OutOfTurn),
        Some(pending) => if stray(pending.call_id, response) {
            Ok((node, StepView::Wait))
        } else {
            match pending.phase {
                PhaseView::Reading(ops) => read_outcome(node, pending, ops, response),
                PhaseView::Swapping(results) => swap_outcome(node, pending, results, response),
            }
        },
    }
}

/// The compare-and-swap of the key-value service on one key: what it holds
/// afterwards, and whether it has accepted the swap. It accepts where it
/// holds `from`, and where it holds nothing and is asked to create.
pub open spec fn service_cas(
    stored: Option<ValueView>,
    from: ValueView,
    to: ValueView,
    create: bool,
) -> (Option<ValueView>, bool) {
    match stored {
        Some(value) => if value == from {
            (Some(to), true)
        } else {
            (stored, false)
        },
        None => if create {
            (Some(to), true)
        } else {
            (stored, false)
        },
    }
}

/// The service's compare-and-swap for a request.
pub open spec fn service_swap(stored: Option<ValueView>, request: MessageView) -> (
    Option<ValueView>,
    bool,
) {
    service_cas(
        stored,
        request.body.from.unwrap(),
        request.body.to.unwrap(),
        request.body.create_if_not_exists == Some(true),
    )
}

/// `response` is what the service answers to `request` when it has, or has
/// not, accepted it.
pub open spec fn answers(response: MessageView, request: MessageView, accepted: bool) -> bool {
    response.body.in_reply_to == request.body.msg_id && (response.body.typ == "cas_ok"@)
        == accepted
}

/// What a node that was reading does when its read leads to a swap: the
/// swap starts from the document that was read, may create it, and is the
/// call that the node then waits for. Where the transaction appends, the
/// swap changes the document.
pub proof fn lemma_read_leads_to_swap(node: TxnNodeView, read: MessageView)
    requires
        node.pending matches Some(p) && p.phase is Reading,
        resume_outcome(node, Some(read)) matches Ok((_, StepView::Call { .. })),
    ensures
        ({
            let ops = node.pending.unwrap().phase->Reading_0;
            let after = resume_outcome(node, Some(read)).unwrap().0;
            let swap = resume_outcome(node, Some(read)).unwrap().1->request;
            &&& pre_image(read.body) matches Some(db) && swap.body.from == Some(
                ValueView::Text(document_text(db).unwrap()),
            )
            &&& swap.body.to is Some
            &&& swap.body.create_if_not_exists == Some(true)
            &&& after.pending matches Some(p) && p.phase is Swapping && swap.body.msg_id == Some(
                p.call_id,
            ) && p.caller == node.pending.unwrap().caller
            &&& appended_key(ops) is Some ==> swap.body.to != swap.body.from
        }),
{
}

/// Of two swaps from the same document the service accepts the one that
/// reaches it first and, if that one changes the document, refuses the
/// other and keeps the document of the first. The service holds the document
/// that both swaps start from, or none yet.
pub proof fn lemma_later_swap_is_refused(
    stored: Option<ValueView>,
    first: MessageView,
    second: MessageView,
)
    requires
        first.body.from is Some,
        first.body.to is Some,
        first.body.create_if_not_exists == Some(true),
        second.body.from == first.body.from,
        second.body.to is Some,
        second.body.create_if_not_exists == Some(true),
        stored is None || stored == first.body.from,
        first.body.to != first.body.from,
    ensures
        service_swap(stored, first) == (first.body.to, true),
        service_swap(first.body.to, second) == (first.body.to, false),
{
}

/// Atomicity of the whole document: two nodes read the same document, and
/// both transactions reach their swap. The transaction of `first` appends,
/// and its swap reaches the service first. Then the service accepts the swap
/// of `first` and refuses that of `second`; `first` answers its client
/// `txn_ok` with its results, `second` answers its client the conflict
/// error, and the service keeps the document of `first`.
///
/// `stored` is what the service holds when the swaps arrive: the document
/// that the nodes have read, as they write it, or nothing yet. `accept` and
/// `reject` are what the service answers to the two swaps.
pub proof fn lemma_racing_transactions(
    stored: Option<ValueView>,
    first: TxnNodeView,
    read_first: MessageView,
    at: int,
    second: TxnNodeView,
    read_second: MessageView,
    accept: MessageView,
    reject: MessageView,
)
    requires
        first.pending matches Some(p) && p.phase matches PhaseView::Reading(ops) && 0 <= at
            < ops.len() && ops[at] is Append,
        second.pending matches Some(p) && p.phase is Reading,
        read_first.body.value == read_second.body.value,
        resume_outcome(first, Some(read_first)) matches Ok((_, StepView::Call { .. })),
        resume_outcome(second, Some(read_second)) matches Ok((_, StepView::Call { .. })),
        ({
            let swap_first = resume_outcome(first, Some(read_first)).unwrap().1->request;
            let swap_second = resume_outcome(second, Some(read_second)).unwrap().1->request;
            &&& stored is None || stored == swap_first.body.from
            &&& answers(accept, swap_first, service_swap(stored, swap_first).1)
            &&& answers(
                reject,
                swap_second,
                service_swap(service_swap(stored, swap_first).0, swap_second).1,
            )
        }),
    ensures
        ({
            let waiting_first = resume_outcome(first, Some(read_first)).unwrap().0;
            let waiting_second = resume_outcome(second, Some(read_second)).unwrap().0;
            let swap_first = resume_outcome(first, Some(read_first)).unwrap().1->request;
            let swap_second = resume_outcome(second, Some(read_second)).unwrap().1->request;
            &&& service_swap(stored, swap_first) == (swap_first.body.to, true)
            &&& service_swap(swap_first.body.to, swap_second) == (swap_first.body.to, false)
            &&& resume_outcome(waiting_first, Some(accept)) == ended(
                waiting_first,
                commit_reply(
                    first.pending.unwrap().caller,
                    waiting_first.next_id,
                    waiting_first.pending.unwrap().phase->Swapping_0,
                ),
            )
            &&& resume_outcome(waiting_second, Some(reject)) == ended(
                waiting_second,
                abort_reply(
                    second.pending.unwrap().caller,
                    waiting_second.next_id,
                    "CAS failed"@,
                ),
            )
            &&& abort_reply(
                second.pending.unwrap().caller,
                waiting_second.next_id,
                "CAS failed"@,
            ).body.code == Some(30u64)
        }),
{
    lemma_appended_key(first.pending.unwrap().phase->Reading_0, at);
    lemma_read_leads_to_swap(first, read_first);
    lemma_read_leads_to_swap(second, read_second);
    let swap_first = resume_outcome(first, Some(read_first)).unwrap().1->request;
    let swap_second = resume_outcome(second, Some(read_second)).unwrap().1->request;
    lemma_later_swap_is_refused(stored, swap_first, swap_second);
}

/// Builds the response to `caller` around `body`.
pub fn respond(caller: &Caller, body: MsgBody) -> (res: Message)
    ensures
        res@ == response_to(caller@, body@),
{
    let mut body = body;
    body.in_reply_to = Some(caller.msg_id);
    Message { src: caller.node.clone(), dest: caller.client.clone(), body }
}

/// Builds the `error` response of an aborted transaction.
pub fn abort_message(caller: &Caller, id: u64, text: &str) -> (res: Message)
    ensures
        res@ == abort_reply(caller@, id, text@),
{
    let mut body = MsgBody::request("error", id);
    body.code = Some(TXN_CONFLICT);
    body.text = Some(text.to_owned());
    respond(caller, body)
}

/// Builds the `txn_ok` response with the result triples `results`.
pub fn commit_message(caller: &Caller, id: u64, results: Vec<Vec<Value>>) -> (res: Message)
    ensures
        res@ == commit_reply(caller@, id, results.deep_view()),
{
    let mut body = MsgBody::request("txn_ok", id);
    body.txn = Some(results);
    respond(caller, body)
}

/// Whether both texts are documents that read back with different lists
/// for `key`.
pub fn differ_at(from: &str, to: &str, key: u64) -> (res: bool)
    ensures
        res == reads_differently(from@, to@, key),
{
    match (decode(from), decode(to)) {
        (Some(before), Some(after)) => {
            let old_list = before.get(key);
            let new_list = after.get(key);
            match (old_list, new_list) {
                (Some(old_list), Some(new_list)) => {
                    proof {
                        assert(old_list.deep_view() =~= old_list@);
                        assert(new_list.deep_view() =~= new_list@);
                    }
                    !same_list(old_list, new_list)
                },
                (None, None) => false,
                _ => true,
            }
        },
        _ => false,
    }
}

/// Builds the request for the whole document.
pub fn read_message(node_id: &String, id: u64) -> (res: Message)
    ensures
        res@ == read_request(node_id@, id),
{
    let mut body = MsgBody::request("read", id);
    body.key = Some(Value::Text("db".to_owned()));
    Message { src: node_id.clone(), dest: "lin-kv".to_owned(), body }
}

/// Builds the request to swap the document `from` for the document `to`.
pub fn cas_message(node_id: &String, id: u64, from: String, to: String) -> (res: Message)
    ensures
        res@ == cas_request(node_id@, id, from@, to@),
{
    let mut body = MsgBody::request("cas", id);
    body.key = Some(Value::Text("db".to_owned()));
    body.from = Some(Value::Text(from));
    body.to = Some(Value::Text(to));
    body.create_if_not_exists = Some(true);
    Message { src: node_id.clone(), dest: "lin-kv".to_owned(), body }
}

/// A copy of result triples.
pub fn copy_results(results: &Vec<Vec<Value>>) -> (res: Vec<Vec<Value>>)
    ensures
        res.deep_view() == results.deep_view(),
{
    let mut res: Vec<Vec<Value>> = Vec::new();
    let mut i: usize = 0;
    while i < results.len()
        invariant
            i <= results.len(),
            res.len() == i,
            forall|j: int| 0 <= j < i ==> res[j].deep_view() == results[j].deep_view(),
        decreases results.len() - i,
    {
        let mut triple: Vec<Value> = Vec::new();
        let mut k: usize = 0;
        while k < results[i].len()
            invariant
                i < results.len(),
                k <= results[i as int].len(),
                triple.len() == k,
                forall|j: int| 0 <= j < k ==> triple[j]@ == results[i as int][j]@,
            decreases results[i as int].len() - k,
        {
            triple.push(results[i][k].clone());
            k += 1;
        }
        proof {
            assert(triple.deep_view() =~= results[i as int].deep_view());
        }
        res.push(triple);
        i += 1;
    }
    proof {
        assert(res.deep_view() =~= results.deep_view());
    }
    res
}

impl TxnNode {
    /// A node before its handshake, with no transaction in progress.
    pub fn new() -> (res: TxnNode)
        ensures
            res@ == (TxnNodeView {
                node_id: Seq::<char>::empty(),
                next_id: 0,
                initialized: false,
                pending: None,
            }),
    {
        TxnNode {
            node_id: String::new(),
            ids: MessageIdGenerator::new(),
            initialized: false,
            pending: None,
        }
    }

    /// Handles a message from a client.
    pub fn handle(&mut self, msg: &Message) -> (res: Result<Step, Fault>)
        ensures
            follows(old(self)@, final(self)@, step_of(res), begin_outcome(old(self)@, msg@)),
    {
        if msg.body.is_kind("init") {
            let msg_id = match msg.body.msg_id {
                Some(msg_id) => msg_id,
                None => {
                    return Err(Fault::Malformed);
                },
            };
            match &msg.body.node_id {
                Some(node_id) => {
                    if !self.initialized {
                        self.node_id = node_id.clone();
                        self.initialized = true;
                    }
                },
                None => {
                    return Err(Fault::Malformed);
                },
            }
            let caller = Caller { client: msg.src.clone(), node: msg.dest.clone(), msg_id };
            let id = self.ids.fresh();
            Ok(Step::Reply(respond(&caller, MsgBody::request("init_ok", id))))
        } else if msg.body.is_kind("txn") {
            if self.pending.is_some() {
                return Err(Fault::OutOfTurn);
            }
            let msg_id = match msg.body.msg_id {
                Some(msg_id) => msg_id,
                None => {
                    return Err(Fault::Malformed);
                },
            };
            let ops = match &msg.body.txn {
                Some(txn) => match Op::parse_all(txn) {
                    Some(ops) => ops,
                    None => {
                        return Err(Fault::Malformed);
                    },
                },
                None => {
                    return Err(Fault::Malformed);
                },
            };
            let caller = Caller { client: msg.src.clone(), node: msg.dest.clone(), msg_id };
            let call_id = self.ids.fresh();
            self.pending = Some(Pending { caller, call_id, phase: Phase::Reading(ops) });
            Ok(Step::Call { request: read_message(&self.node_id, call_id), timeout_ms: CALL_TIMEOUT_MS })
        } else {
            Err(Fault::UnknownKind)
        }
    }

    /// Takes what came while the call is under way: the message that was
    /// read next, or `None` where the time allowed has passed.
    pub fn resume(&mut self, response: Option<&Message>) -> (res: Result<Step, Fault>)
        ensures
            follows(
                old(self)@,
                final(self)@,
                step_of(res),
                resume_outcome(old(self)@, response.deep_view()),
            ),
    {
        let pending = match &self.pending {
            Some(pending) => pending,
            None => {
                return Err(Fault::OutOfTurn);
            },
        };
        let body = match response {
            Some(message) => if message.body.in_reply_to == Some(pending.call_id) {
                Some(&message.body)
            } else {
                return Ok(Step::Wait);
            },
            None => None,
        };
        match &pending.phase {
            Phase::Reading(ops) => {
                let body = match body {
                    Some(body) => body,
                    None => {
                        let id = self.ids.fresh();
                        let reply = abort_message(&pending.caller, id, "read failed");
                        self.pending = None;
                        return Ok(Step::Reply(reply));
                    },
                };
                let db = match &body.value {
                    None => Database::new(),
                    Some(Value::Text(text)) => match decode(text.as_str()) {
                        Some(db) => db,
                        None => {
                            return Err(Fault::Malformed);
                        },
                    },
                    Some(_) => {
                        return Err(Fault::Malformed);
                    },
                };
                let mut changed = Database(db.0.clone());
                proof {
                    assert(changed@ =~= db@);
                }
                match changed.commit(ops) {
                    Err(_) => {
                        let id = self.ids.fresh();
                        let reply = abort_message(&pending.caller, id, "verify failed");
                        self.pending = None;
                        Ok(Step::Reply(reply))
                    },
                    Ok(results) => match (encode(&db), encode(&changed)) {
                        (Some(from), Some(to)) => {
                            let shown = match Op::first_append(ops) {
                                Some(key) => differ_at(from.as_str(), to.as_str(), key),
                                None => true,
                            };
                            if !shown {
                                return Err(Fault::Malformed);
                            }
                            let call_id = self.ids.fresh();
                            let request = cas_message(&self.node_id, call_id, from, to);
                            let caller = Caller {
                                client: pending.caller.client.clone(),
                                node: pending.caller.node.clone(),
                                msg_id: pending.caller.msg_id,
                            };
                            self.pending = Some(
                                Pending { caller, call_id, phase: Phase::Swapping(results) },
                            );
                            Ok(Step::Call { request, timeout_ms: CALL_TIMEOUT_MS })
                        },
                        _ => Err(Fault::Malformed),
                    },
                }
            },
            Phase::Swapping(results) => {
                let accepted = match body {
                    Some(body) => body.is_kind("cas_ok"),
                    None => false,
                };
                let id = self.ids.fresh();
                let reply = if accepted {
                    commit_message(&pending.caller, id, copy_results(results))
                } else {
                    abort_message(&pending.caller, id, "CAS failed")
                };
                self.pending = None;
                Ok(Step::Reply(reply))
            },
        }
    }
}

} // verus!
