//! The wire data model: an addressed message with a body that carries a kind
//! and the optional fields of every workload.

use crate::value::{Value, ValueView};
use vstd::prelude::*;

verus! {

/// Per-node counts as they travel on the wire: one entry per node.
pub type CounterEntries = Vec<(String, u64)>;

/// One JSON object per line: `{src, dest, body}`.
#[derive(Debug, PartialEq, Eq)]
pub struct Message {
    pub src: String,
    pub dest: String,
    pub body: MsgBody,
}

/// A message body. `typ` is the message kind; requests carry `msg_id`,
/// responses carry `in_reply_to`; the other fields belong to single workloads
/// and are absent elsewhere.
#[derive(Debug, PartialEq, Eq)]
pub struct MsgBody {
    pub typ: String,
    pub msg_id: Option<u64>,
    pub in_reply_to: Option<u64>,
    // init
    pub node_id: Option<String>,
    pub node_ids: Option<Vec<String>>,
    // echo
    pub echo: Option<Value>,
    // broadcast
    pub topology: Option<Vec<(String, Vec<String>)>>,
    pub message: Option<Value>,
    pub messages: Option<Vec<Value>>,
    // g-set
    pub element: Option<Value>,
    pub value: Option<Value>,
    pub set: Option<Vec<u64>>,
    // g-counter
    pub delta: Option<Value>,
    pub counters: Option<CounterEntries>,
    // pn-counter
    pub pn_counters: Option<(CounterEntries, CounterEntries)>,
    // txn-list-append: a transaction is a list of micro-operations, each
    // `[function, key, value]`
    pub txn: Option<Vec<Vec<Value>>>,
    // lin-kv
    pub key: Option<Value>,
    pub from: Option<Value>,
    pub to: Option<Value>,
    pub create_if_not_exists: Option<bool>,
    // error
    pub code: Option<u64>,
    pub text: Option<String>,
}

/// The mathematical content of a [`MsgBody`].
pub struct BodyView {
    pub typ: Seq<char>,
    pub msg_id: Option<u64>,
    pub in_reply_to: Option<u64>,
    pub node_id: Option<Seq<char>>,
    pub node_ids: Option<Seq<Seq<char>>>,
    pub echo: Option<ValueView>,
    pub topology: Option<Seq<(Seq<char>, Seq<Seq<char>>)>>,
    pub message: Option<ValueView>,
    pub messages: Option<Seq<ValueView>>,
    pub element: Option<ValueView>,
    pub value: Option<ValueView>,
    pub set: Option<Seq<u64>>,
    pub delta: Option<ValueView>,
    pub counters: Option<Seq<(Seq<char>, u64)>>,
    pub pn_counters: Option<(Seq<(Seq<char>, u64)>, Seq<(Seq<char>, u64)>)>,
    pub txn: Option<Seq<Seq<ValueView>>>,
    pub key: Option<ValueView>,
    pub from: Option<ValueView>,
    pub to: Option<ValueView>,
    pub create_if_not_exists: Option<bool>,
    pub code: Option<u64>,
    pub text: Option<Seq<char>>,
}

/// The mathematical content of a [`Message`].
pub struct MessageView {
    pub src: Seq<char>,
    pub dest: Seq<char>,
    pub body: BodyView,
}

impl BodyView {
    /// The body of kind `typ` with every other field absent.
    pub open spec fn of_kind(typ: Seq<char>) -> BodyView {
        BodyView {
            typ,
            msg_id: None,
            in_reply_to: None,
            node_id: None,
            node_ids: None,
            echo: None,
            topology: None,
            message: None,
            messages: None,
            element: None,
            value: None,
            set: None,
            delta: None,
            counters: None,
            pn_counters: None,
            txn: None,
            key: None,
            from: None,
            to: None,
            create_if_not_exists: None,
            code: None,
            text: None,
        }
    }

    /// The body of kind `typ` that carries the identifier `id` and nothing else.
    pub open spec fn request(typ: Seq<char>, id: u64) -> BodyView {
        BodyView { msg_id: Some(id), ..BodyView::of_kind(typ) }
    }
}

impl View for MsgBody {
    type V = BodyView;

    open spec fn view(&self) -> BodyView {
        BodyView {
            typ: self.typ@,
            msg_id: self.msg_id,
            in_reply_to: self.in_reply_to,
            node_id: self.node_id.deep_view(),
            node_ids: self.node_ids.deep_view(),
            echo: self.echo.deep_view(),
            topology: self.topology.deep_view(),
            message: self.message.deep_view(),
            messages: self.messages.deep_view(),
            element: self.element.deep_view(),
            value: self.value.deep_view(),
            set: self.set.deep_view(),
            delta: self.delta.deep_view(),
            counters: self.counters.deep_view(),
            pn_counters: self.pn_counters.deep_view(),
            txn: self.txn.deep_view(),
            key: self.key.deep_view(),
            from: self.from.deep_view(),
            to: self.to.deep_view(),
            create_if_not_exists: self.create_if_not_exists,
            code: self.code,
            text: self.text.deep_view(),
        }
    }
}

impl DeepView for MsgBody {
    type V = BodyView;

    open spec fn deep_view(&self) -> BodyView {
        self@
    }
}

impl View for Message {
    type V = MessageView;

    open spec fn view(&self) -> MessageView {
        MessageView { src: self.src@, dest: self.dest@, body: self.body@ }
    }
}

impl DeepView for Message {
    type V = MessageView;

    open spec fn deep_view(&self) -> MessageView {
        self@
    }
}

impl MsgBody {
    /// A body of kind `typ` with every other field absent.
    pub fn of_kind(typ: &str) -> (res: MsgBody)
        ensures
            res@ == BodyView::of_kind(typ@),
    {
        MsgBody {
            typ: typ.to_owned(),
            msg_id: None,
            in_reply_to: None,
            node_id: None,
            node_ids: None,
            echo: None,
            topology: None,
            message: None,
            messages: None,
            element: None,
            value: None,
            set: None,
            delta: None,
            counters: None,
            pn_counters: None,
            txn: None,
            key: None,
            from: None,
            to: None,
            create_if_not_exists: None,
            code: None,
            text: None,
        }
    }

    /// A body of kind `typ` that carries the identifier `id`.
    pub fn request(typ: &str, id: u64) -> (res: MsgBody)
        ensures
            res@ == BodyView::request(typ@, id),
    {
        let mut body = MsgBody::of_kind(typ);
        body.msg_id = Some(id);
        body
    }

    /// Whether the body is of kind `typ`.
    pub fn is_kind(&self, typ: &str) -> (res: bool)
        ensures
            res == (self@.typ == typ@),
    {
        let wanted = typ.to_owned();
        self.typ == wanted
    }
}

/// The response to `origin` that carries `body`: addressed back to the
/// requester, from the request's destination, with `in_reply_to` set to the
/// request's identifier.
pub open spec fn reply_to(origin: MessageView, body: BodyView) -> MessageView {
    MessageView {
        src: origin.dest,
        dest: origin.src,
        body: BodyView { in_reply_to: origin.body.msg_id, ..body },
    }
}

/// Builds the response to `origin` around `resp_body`. The request is left
/// untouched; the response is a new message.
pub fn reply(origin: &Message, resp_body: MsgBody) -> (res: Message)
    requires
        origin@.body.msg_id is Some,
    ensures
        res@ == reply_to(origin@, resp_body@),
        res@.body.in_reply_to == origin@.body.msg_id,
{
    let mut body = resp_body;
    body.in_reply_to = origin.body.msg_id;
    Message { src: origin.dest.clone(), dest: origin.src.clone(), body }
}

} // verus!
