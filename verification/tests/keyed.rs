use maelstrom::keyed::{
    append_result, key_cas_message, key_read_message, op_key, result_from, KeyedTxnNode,
};
use maelstrom::message::{Message, MsgBody};
use maelstrom::node::Fault;
use maelstrom::occ::Step;
use maelstrom::txn::Op;
use maelstrom::value::Value;
use std::collections::BTreeMap;

fn word(s: &str) -> Value {
    Value::Text(s.to_string())
}

fn append_op(key: u64, value: u64) -> Vec<Value> {
    vec![word("append"), Value::Unsigned(key), Value::Unsigned(value)]
}

fn read_op(key: u64) -> Vec<Value> {
    vec![word("r"), Value::Unsigned(key), Value::Null]
}

fn verify_op(key: u64, expected: &[u64]) -> Vec<Value> {
    vec![word("r"), Value::Unsigned(key), Value::List(expected.to_vec())]
}

fn shown(key: u64, list: &[u64]) -> Vec<Value> {
    vec![word("r"), Value::Unsigned(key), Value::List(list.to_vec())]
}

fn request(client: &str, id: u64, txn: Vec<Vec<Value>>) -> Message {
    let mut msg =
        Message { src: client.to_string(), dest: "n1".to_string(), body: MsgBody::request("txn", id) };
    msg.body.txn = Some(txn);
    msg
}

fn ready(name: &str) -> KeyedTxnNode {
    let mut node = KeyedTxnNode::new();
    let mut init =
        Message { src: "c0".to_string(), dest: name.to_string(), body: MsgBody::request("init", 1) };
    init.body.node_id = Some(name.to_string());
    match node.handle(&init).unwrap() {
        Step::Reply(message) => {
            assert_eq!(message.body.typ, "init_ok");
            assert_eq!(message.body.in_reply_to, Some(1));
            assert_eq!(message.dest, "c0");
        }
        other => panic!("expected a reply, got {:?}", other),
    }
    assert_eq!(node.node_id, name);
    node
}

/// A key-value service with a list per key, as far as these tests need it.
struct Lists {
    lists: BTreeMap<u64, Vec<u64>>,
}

fn serve_key(service: &mut Lists, call: &Message) -> Message {
    let key = call.body.key.as_ref().unwrap().as_u64().unwrap();
    let mut body = MsgBody::of_kind("error");
    body.in_reply_to = call.body.msg_id;
    if call.body.typ == "read" {
        match service.lists.get(&key) {
            Some(list) => {
                body.typ = "read_ok".to_string();
                body.value = Some(Value::List(list.clone()));
            }
            None => body.code = Some(20),
        }
    } else if call.body.typ == "cas" {
        let from = match &call.body.from {
            Some(Value::List(list)) => list.clone(),
            other => panic!("expected a list, got {:?}", other),
        };
        let to = match &call.body.to {
            Some(Value::List(list)) => list.clone(),
            other => panic!("expected a list, got {:?}", other),
        };
        let accepted = match service.lists.get(&key) {
            Some(list) => *list == from,
            None => call.body.create_if_not_exists == Some(true),
        };
        if accepted {
            service.lists.insert(key, to);
            body.typ = "cas_ok".to_string();
        } else {
            body.code = Some(22);
        }
    }
    Message { src: "lin-kv".to_string(), dest: call.src.clone(), body }
}

/// Drives a transaction to its end against the service.
fn run(node: &mut KeyedTxnNode, service: &mut Lists, msg: &Message) -> Message {
    let mut step = node.handle(msg).unwrap();
    loop {
        match step {
            Step::Reply(message) => return message,
            Step::Call { request, timeout_ms } => {
                assert_eq!(timeout_ms, 500);
                assert_eq!(request.dest, "lin-kv");
                let answer = serve_key(service, &request);
                step = node.resume(Some(&answer)).unwrap();
            }
            Step::Wait => panic!("the response was taken for another message"),
        }
    }
}

#[test]
fn keyed_messages_to_the_service() {
    let read = key_read_message(&"n1".to_string(), 3, 7);
    assert_eq!(read.src, "n1");
    assert_eq!(read.dest, "lin-kv");
    assert_eq!(read.body.typ, "read");
    assert_eq!(read.body.msg_id, Some(3));
    assert_eq!(read.body.key, Some(Value::Unsigned(7)));
    let cas = key_cas_message(&"n1".to_string(), 4, 7, vec![1], vec![1, 2]);
    assert_eq!(cas.body.typ, "cas");
    assert_eq!(cas.body.msg_id, Some(4));
    assert_eq!(cas.body.key, Some(Value::Unsigned(7)));
    assert_eq!(cas.body.from, Some(Value::List(vec![1])));
    assert_eq!(cas.body.to, Some(Value::List(vec![1, 2])));
    assert_eq!(cas.body.create_if_not_exists, Some(true));
}

#[test]
fn keyed_result_triples() {
    assert_eq!(op_key(&Op::Append(3, 4)), 3);
    assert_eq!(op_key(&Op::Read(5)), 5);
    assert_eq!(op_key(&Op::Verify(6, vec![])), 6);
    assert_eq!(append_result(3, 4), append_op(3, 4));
    assert_eq!(result_from(&Op::Read(5), Some(&vec![1, 2])), shown(5, &[1, 2]));
    assert_eq!(result_from(&Op::Read(5), None), read_op(5));
    assert_eq!(result_from(&Op::Verify(5, vec![9]), Some(&vec![9])), shown(5, &[9]));
}

#[test]
fn keyed_transaction_on_an_empty_store_commits() {
    let mut service = Lists { lists: BTreeMap::new() };
    let mut node = ready("n1");
    let reply = run(&mut node, &mut service, &request("c1", 5, vec![append_op(1, 10), read_op(1)]));
    assert_eq!(reply.src, "n1");
    assert_eq!(reply.dest, "c1");
    assert_eq!(reply.body.typ, "txn_ok");
    assert_eq!(reply.body.in_reply_to, Some(5));
    assert_eq!(reply.body.txn, Some(vec![append_op(1, 10), shown(1, &[10])]));
    assert_eq!(service.lists.get(&1), Some(&vec![10]));
    assert!(node.pending.is_none());
}

#[test]
fn keyed_steps_read_then_swap() {
    let mut service = Lists { lists: BTreeMap::new() };
    service.lists.insert(1, vec![10]);
    let mut node = ready("n1");
    let read = match node.handle(&request("c1", 5, vec![append_op(1, 11), read_op(2)])).unwrap() {
        Step::Call { request, .. } => request,
        other => panic!("expected a call, got {:?}", other),
    };
    assert_eq!(read.body.typ, "read");
    assert_eq!(read.body.key, Some(Value::Unsigned(1)));
    let answer = serve_key(&mut service, &read);
    let cas = match node.resume(Some(&answer)).unwrap() {
        Step::Call { request, .. } => request,
        other => panic!("expected a call, got {:?}", other),
    };
    assert_eq!(cas.body.typ, "cas");
    assert_eq!(cas.body.from, Some(Value::List(vec![10])));
    assert_eq!(cas.body.to, Some(Value::List(vec![10, 11])));
    assert!(node.pending.as_ref().unwrap().swapping);
    let answer = serve_key(&mut service, &cas);
    let next = match node.resume(Some(&answer)).unwrap() {
        Step::Call { request, .. } => request,
        other => panic!("expected a call, got {:?}", other),
    };
    assert_eq!(next.body.typ, "read");
    assert_eq!(next.body.key, Some(Value::Unsigned(2)));
    assert_eq!(node.pending.as_ref().unwrap().at, 1);
    let answer = serve_key(&mut service, &next);
    match node.resume(Some(&answer)).unwrap() {
        Step::Reply(message) => {
            assert_eq!(message.body.txn, Some(vec![append_op(1, 11), read_op(2)]));
        }
        other => panic!("expected a reply, got {:?}", other),
    }
}

#[test]
fn keyed_empty_transaction_is_answered_at_once() {
    let mut node = ready("n1");
    match node.handle(&request("c1", 5, vec![])).unwrap() {
        Step::Reply(message) => {
            assert_eq!(message.body.typ, "txn_ok");
            assert_eq!(message.body.txn, Some(vec![]));
            assert_eq!(message.body.in_reply_to, Some(5));
        }
        other => panic!("expected a reply, got {:?}", other),
    }
}

#[test]
fn keyed_conflict_aborts_and_earlier_appends_stay() {
    let mut service = Lists { lists: BTreeMap::new() };
    let mut node = ready("n1");
    let msg = request("c1", 5, vec![append_op(1, 10), append_op(2, 20)]);
    let mut step = node.handle(&msg).unwrap();
    let mut swaps = 0;
    let reply = loop {
        match step {
            Step::Wait => panic!("the response was taken for another message"),
            Step::Reply(message) => break message,
            Step::Call { request, .. } => {
                if request.body.typ == "cas" {
                    swaps += 1;
                    if swaps == 2 {
                        // another writer gets in before the second swap
                        service.lists.insert(2, vec![99]);
                    }
                }
                let answer = serve_key(&mut service, &request);
                step = node.resume(Some(&answer)).unwrap();
            }
        }
    };
    assert_eq!(reply.body.typ, "error");
    assert_eq!(reply.body.code, Some(30));
    assert_eq!(reply.body.text, Some("CAS failed".to_string()));
    assert_eq!(reply.body.in_reply_to, Some(5));
    // no atomicity across keys: the first append is in the service
    assert_eq!(service.lists.get(&1), Some(&vec![10]));
    assert_eq!(service.lists.get(&2), Some(&vec![99]));
    assert!(node.pending.is_none());
}

#[test]
fn keyed_verify_compares_the_stored_list() {
    let mut service = Lists { lists: BTreeMap::new() };
    service.lists.insert(1, vec![1, 2]);
    let mut node = ready("n1");
    let reply = run(&mut node, &mut service, &request("c1", 5, vec![verify_op(1, &[1, 2])]));
    assert_eq!(reply.body.typ, "txn_ok");
    assert_eq!(reply.body.txn, Some(vec![shown(1, &[1, 2])]));
    let reply = run(&mut node, &mut service, &request("c1", 6, vec![verify_op(1, &[1])]));
    assert_eq!(reply.body.typ, "error");
    assert_eq!(reply.body.code, Some(30));
    assert_eq!(reply.body.text, Some("verify failed".to_string()));
    let reply = run(&mut node, &mut service, &request("c1", 7, vec![verify_op(9, &[])]));
    assert_eq!(reply.body.typ, "error");
}

#[test]
fn keyed_timeouts_abort() {
    let mut service = Lists { lists: BTreeMap::new() };
    let mut node = ready("n1");
    node.handle(&request("c1", 5, vec![read_op(1)])).unwrap();
    match node.resume(None).unwrap() {
        Step::Reply(message) => {
            assert_eq!(message.body.typ, "error");
            assert_eq!(message.body.code, Some(30));
            assert_eq!(message.body.text, Some("read failed".to_string()));
        }
        other => panic!("expected a reply, got {:?}", other),
    }
    let read = match node.handle(&request("c1", 6, vec![append_op(1, 1)])).unwrap() {
        Step::Call { request, .. } => request,
        other => panic!("expected a call, got {:?}", other),
    };
    let answer = serve_key(&mut service, &read);
    node.resume(Some(&answer)).unwrap();
    match node.resume(None).unwrap() {
        Step::Reply(message) => {
            assert_eq!(message.body.text, Some("CAS failed".to_string()));
        }
        other => panic!("expected a reply, got {:?}", other),
    }
    assert!(node.pending.is_none());
}

#[test]
fn keyed_other_messages_are_waited_past() {
    let mut service = Lists { lists: BTreeMap::new() };
    let mut node = ready("n1");
    let read = match node.handle(&request("c1", 5, vec![append_op(1, 10)])).unwrap() {
        Step::Call { request, .. } => request,
        other => panic!("expected a call, got {:?}", other),
    };
    let call_id = node.pending.as_ref().unwrap().call_id;
    let other = request("c2", 77, vec![read_op(1)]);
    assert_eq!(node.resume(Some(&other)), Ok(Step::Wait));
    let mut late = serve_key(&mut service, &read);
    late.body.in_reply_to = Some(999);
    assert_eq!(node.resume(Some(&late)), Ok(Step::Wait));
    assert_eq!(node.pending.as_ref().unwrap().call_id, call_id);
    assert!(!node.pending.as_ref().unwrap().swapping);
    let answer = serve_key(&mut service, &read);
    let cas = match node.resume(Some(&answer)).unwrap() {
        Step::Call { request, .. } => request,
        other => panic!("expected a call, got {:?}", other),
    };
    assert_eq!(cas.body.msg_id, Some(call_id + 1));
    assert_eq!(node.resume(Some(&other)), Ok(Step::Wait));
    assert!(node.pending.as_ref().unwrap().swapping);
    let done = serve_key(&mut service, &cas);
    match node.resume(Some(&done)).unwrap() {
        Step::Reply(message) => {
            assert_eq!(message.body.typ, "txn_ok");
            assert_eq!(message.body.in_reply_to, Some(5));
        }
        other => panic!("expected a reply, got {:?}", other),
    }
    assert_eq!(service.lists.get(&1), Some(&vec![10]));
    // the request that was set aside can be handled now
    assert!(matches!(node.handle(&other), Ok(Step::Call { .. })));
}

#[test]
fn keyed_faults() {
    let mut node = ready("n1");
    assert_eq!(node.resume(None), Err(Fault::OutOfTurn));
    let mut other = request("c1", 5, vec![]);
    other.body.typ = "add".to_string();
    assert_eq!(node.handle(&other), Err(Fault::UnknownKind));
    assert_eq!(node.handle(&request("c1", 5, vec![vec![]])), Err(Fault::Malformed));
    let read = match node.handle(&request("c1", 5, vec![read_op(1)])).unwrap() {
        Step::Call { request, .. } => request,
        other => panic!("expected a call, got {:?}", other),
    };
    assert_eq!(node.handle(&request("c1", 6, vec![])), Err(Fault::OutOfTurn));
    let mut answer = Message {
        src: "lin-kv".to_string(),
        dest: "n1".to_string(),
        body: MsgBody::of_kind("read_ok"),
    };
    answer.body.in_reply_to = read.body.msg_id;
    answer.body.value = Some(Value::Unsigned(3));
    assert_eq!(node.resume(Some(&answer)), Err(Fault::Malformed));
    assert!(node.pending.is_some());
}
