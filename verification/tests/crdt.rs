use maelstrom::counts::NodeCounts;
use maelstrom::crdt::CRDT;
use maelstrom::gcounter::GCounter;
use maelstrom::gset::{collect, elements, insert_all, GSet};
use maelstrom::message::{Message, MsgBody};
use maelstrom::node::{Effect, Fault};
use maelstrom::pncounter::{magnitude_of, PNCounter};
use maelstrom::replica::Replica;
use maelstrom::value::Value;
use std::collections::HashSet;

fn node(name: &str) -> String {
    name.to_string()
}

fn set_of(items: &[u64]) -> HashSet<u64> {
    items.iter().copied().collect()
}

fn sorted_entries(counts: &NodeCounts) -> Vec<(String, u64)> {
    let mut entries = counts.to_entries();
    entries.sort();
    entries
}

fn client_request(typ: &str, id: u64) -> Message {
    Message { src: node("c1"), dest: node("n1"), body: MsgBody::request(typ, id) }
}

fn init_request(id: u64, me: &str, all: &[&str]) -> Message {
    let mut msg = client_request("init", id);
    msg.body.node_id = Some(node(me));
    msg.body.node_ids = Some(all.iter().map(|n| n.to_string()).collect());
    msg
}

fn add_request(id: u64, delta: Value) -> Message {
    let mut msg = client_request("add", id);
    msg.body.delta = Some(delta);
    msg
}

fn only_reply(effects: Vec<Effect>) -> Message {
    assert_eq!(effects.len(), 1);
    match effects.into_iter().next() {
        Some(Effect::Send(message)) => message,
        other => panic!("expected one message, got {:?}", other),
    }
}

#[test]
fn counts_get_and_set() {
    let mut counts = NodeCounts::new();
    assert_eq!(counts.get(&node("n1")), None);
    counts.set(&node("n1"), 3);
    counts.set(&node("n2"), 5);
    assert_eq!(counts.get(&node("n1")), Some(3));
    assert_eq!(counts.get(&node("n2")), Some(5));
    counts.set(&node("n1"), 9);
    assert_eq!(counts.get(&node("n1")), Some(9));
    assert_eq!(sorted_entries(&counts), vec![(node("n1"), 9), (node("n2"), 5)]);
}

#[test]
fn counts_total_is_the_sum() {
    let mut counts = NodeCounts::new();
    assert_eq!(counts.total(), 0);
    assert_eq!(counts.checked_total(), Some(0));
    counts.set(&node("n1"), 3);
    counts.set(&node("n2"), 4);
    counts.set(&node("n3"), 10);
    assert_eq!(counts.total(), 17);
    assert_eq!(counts.checked_total(), Some(17));
}

#[test]
fn counts_checked_total_sees_overflow() {
    let mut counts = NodeCounts::new();
    counts.set(&node("n1"), u64::MAX);
    assert_eq!(counts.checked_total(), Some(u64::MAX));
    counts.set(&node("n2"), 1);
    assert_eq!(counts.checked_total(), None);
}

#[test]
fn counts_merge_takes_the_higher_count_per_node() {
    let mut ours = NodeCounts::from_entries(&vec![(node("n1"), 3), (node("n2"), 8)]);
    let theirs = NodeCounts::from_entries(&vec![(node("n2"), 5), (node("n1"), 7), (node("n3"), 1)]);
    ours.merge(&theirs);
    assert_eq!(
        sorted_entries(&ours),
        vec![(node("n1"), 7), (node("n2"), 8), (node("n3"), 1)]
    );
}

#[test]
fn counts_from_entries_lets_the_later_entry_count() {
    let counts = NodeCounts::from_entries(&vec![(node("n1"), 3), (node("n1"), 2)]);
    assert_eq!(counts.get(&node("n1")), Some(2));
    assert_eq!(counts.to_entries().len(), 1);
}

#[test]
fn set_helpers_copy_and_collect() {
    let mut target = set_of(&[1, 2]);
    insert_all(&mut target, &set_of(&[2, 3]));
    assert_eq!(target, set_of(&[1, 2, 3]));
    let mut listed = elements(&target);
    listed.sort();
    assert_eq!(listed, vec![1, 2, 3]);
    assert_eq!(collect(&vec![4, 4, 5]), set_of(&[4, 5]));
}

#[test]
fn gset_add_read_merge() {
    let mut a = GSet::init();
    assert_eq!(a.read(), set_of(&[]));
    a.add(1);
    a.add(2);
    a.add(1);
    assert_eq!(a.read(), set_of(&[1, 2]));
    let mut b = GSet::init();
    b.add(2);
    b.add(3);
    a.merge(&b);
    assert_eq!(a.read(), set_of(&[1, 2, 3]));
    assert_eq!(b.read(), set_of(&[2, 3]));
}

#[test]
fn gset_merge_is_idempotent_and_commutative() {
    let a = GSet(set_of(&[1, 5]));
    let b = GSet(set_of(&[5, 9]));
    let mut ab = GSet(set_of(&[1, 5]));
    ab.merge(&b);
    let mut ba = GSet(set_of(&[5, 9]));
    ba.merge(&a);
    assert_eq!(ab.read(), ba.read());
    let once = ab.read();
    ab.merge(&b);
    assert_eq!(ab.read(), once);
}

#[test]
fn gset_wire_round_trip() {
    let a = GSet(set_of(&[4, 6]));
    let body = a.into_msg_body();
    assert_eq!(body.typ, "");
    assert_eq!(body.msg_id, None);
    assert!(GSet::carries(&body));
    match &body.value {
        Some(Value::List(items)) => {
            let mut items = items.clone();
            items.sort();
            assert_eq!(items, vec![4, 6]);
        }
        other => panic!("expected a list, got {:?}", other),
    }
    assert_eq!(GSet::from_msg_body(&body).read(), set_of(&[4, 6]));
    assert!(!GSet::carries(&MsgBody::of_kind("replicate")));
}

#[test]
fn gcounter_add_read_merge() {
    let mut a = GCounter::init();
    assert_eq!(a.read(), 0);
    a.add((node("n1"), 3));
    a.add((node("n1"), 4));
    assert_eq!(a.read(), 7);
    let mut b = GCounter::init();
    b.add((node("n2"), 2));
    a.merge(&b);
    assert_eq!(a.read(), 9);
    assert_eq!(sorted_entries(&a.0), vec![(node("n1"), 7), (node("n2"), 2)]);
}

#[test]
fn gcounter_merge_is_idempotent_and_commutative() {
    let a = GCounter(NodeCounts::from_entries(&vec![(node("n1"), 7), (node("n2"), 1)]));
    let b = GCounter(NodeCounts::from_entries(&vec![(node("n2"), 4), (node("n3"), 2)]));
    let mut ab = GCounter(NodeCounts::from_entries(&a.0.to_entries()));
    ab.merge(&b);
    let mut ba = GCounter(NodeCounts::from_entries(&b.0.to_entries()));
    ba.merge(&a);
    assert_eq!(sorted_entries(&ab.0), sorted_entries(&ba.0));
    assert_eq!(ab.read(), 13);
    assert_eq!(ba.read(), 13);
    let once = sorted_entries(&ab.0);
    ab.merge(&b);
    assert_eq!(sorted_entries(&ab.0), once);
}

#[test]
fn gcounter_wire_round_trip() {
    let a = GCounter(NodeCounts::from_entries(&vec![(node("n1"), 7), (node("n2"), 1)]));
    let body = a.into_msg_body();
    assert_eq!(body.typ, "");
    assert!(GCounter::carries(&body));
    assert!(body.value.is_none());
    let back = GCounter::from_msg_body(&body);
    assert_eq!(sorted_entries(&back.0), vec![(node("n1"), 7), (node("n2"), 1)]);
    assert!(!GCounter::carries(&MsgBody::of_kind("replicate")));
}

#[test]
fn pncounter_add_read_merge() {
    let mut a = PNCounter::init();
    a.add((node("n1"), 5));
    a.add((node("n1"), -2));
    assert_eq!(a.read(), 3);
    assert_eq!(sorted_entries(&a.inc), vec![(node("n1"), 5)]);
    assert_eq!(sorted_entries(&a.dec), vec![(node("n1"), 2)]);
    let mut b = PNCounter::init();
    b.add((node("n2"), -10));
    a.merge(&b);
    assert_eq!(a.read(), -7);
}

#[test]
fn pncounter_counts_zero_among_the_decrements() {
    let mut a = PNCounter::init();
    a.add((node("n1"), 0));
    assert_eq!(a.read(), 0);
    assert_eq!(sorted_entries(&a.inc), vec![]);
    assert_eq!(sorted_entries(&a.dec), vec![(node("n1"), 0)]);
}

#[test]
fn pncounter_merge_is_idempotent_and_commutative() {
    let mut a = PNCounter::init();
    a.add((node("n1"), 5));
    a.add((node("n1"), -1));
    let mut b = PNCounter::init();
    b.add((node("n2"), -4));
    b.add((node("n1"), 2));
    let mut ab = PNCounter::from_msg_body(&a.into_msg_body());
    ab.merge(&b);
    let mut ba = PNCounter::from_msg_body(&b.into_msg_body());
    ba.merge(&a);
    assert_eq!(sorted_entries(&ab.inc), sorted_entries(&ba.inc));
    assert_eq!(sorted_entries(&ab.dec), sorted_entries(&ba.dec));
    assert_eq!(ab.read(), 0);
    let before = (sorted_entries(&ab.inc), sorted_entries(&ab.dec));
    ab.merge(&b);
    assert_eq!((sorted_entries(&ab.inc), sorted_entries(&ab.dec)), before);
}

#[test]
fn magnitude_covers_every_change() {
    assert_eq!(magnitude_of(5), 5);
    assert_eq!(magnitude_of(-5), 5);
    assert_eq!(magnitude_of(0), 0);
    assert_eq!(magnitude_of(i64::MAX), 9223372036854775807);
    assert_eq!(magnitude_of(i64::MIN), 9223372036854775808);
}

#[test]
fn handshake_sets_identity_once_and_starts_replication() {
    let mut replica = Replica::<GCounter>::new();
    assert!(!replica.initialized);
    let effects = replica.handle(&init_request(1, "n1", &["n1", "n2", "n3"])).unwrap();
    assert_eq!(effects.len(), 2);
    assert_eq!(effects[0], Effect::StartReplication { interval_ms: 2000 });
    match &effects[1] {
        Effect::Send(message) => {
            assert_eq!(message.src, "n1");
            assert_eq!(message.dest, "c1");
            assert_eq!(message.body.typ, "init_ok");
            assert_eq!(message.body.in_reply_to, Some(1));
            assert_eq!(message.body.msg_id, Some(0));
        }
        other => panic!("expected a message, got {:?}", other),
    }
    assert_eq!(replica.node_id, "n1");
    assert_eq!(replica.peers, vec![node("n2"), node("n3")]);
    assert!(replica.initialized);
    // a second handshake is acknowledged and changes nothing
    let again = only_reply(replica.handle(&init_request(2, "n7", &["n7"])).unwrap());
    assert_eq!(again.body.typ, "init_ok");
    assert_eq!(again.body.in_reply_to, Some(2));
    assert_eq!(again.body.msg_id, Some(1));
    assert_eq!(replica.node_id, "n1");
    assert_eq!(replica.peers, vec![node("n2"), node("n3")]);
}

#[test]
fn handshake_without_its_fields_is_malformed() {
    let mut replica = Replica::<GSet>::new();
    let mut msg = client_request("init", 1);
    assert_eq!(replica.handle(&msg), Err(Fault::Malformed));
    msg.body.node_id = Some(node("n1"));
    assert_eq!(replica.handle(&msg), Err(Fault::Malformed));
    msg.body.node_ids = Some(vec![node("n1")]);
    msg.body.msg_id = None;
    assert_eq!(replica.handle(&msg), Err(Fault::Malformed));
    assert!(!replica.initialized);
}

#[test]
fn unknown_kind_is_a_fault() {
    let mut set = Replica::<GSet>::new();
    assert_eq!(set.handle(&client_request("echo", 1)), Err(Fault::UnknownKind));
    let mut counter = Replica::<GCounter>::new();
    assert_eq!(counter.handle(&client_request("txn", 1)), Err(Fault::UnknownKind));
    let mut pn = Replica::<PNCounter>::new();
    assert_eq!(pn.handle(&client_request("broadcast", 1)), Err(Fault::UnknownKind));
}

#[test]
fn gcounter_node_adds_reads_and_merges() {
    let mut replica = Replica::<GCounter>::new();
    replica.handle(&init_request(1, "n1", &["n1", "n2"])).unwrap();
    let ack = only_reply(replica.handle(&add_request(2, Value::Unsigned(3))).unwrap());
    assert_eq!(ack.body.typ, "add_ok");
    assert_eq!(ack.body.in_reply_to, Some(2));
    replica.handle(&add_request(3, Value::Unsigned(4))).unwrap();
    let shown = only_reply(replica.handle(&client_request("read", 4)).unwrap());
    assert_eq!(shown.body.typ, "read_ok");
    assert_eq!(shown.body.in_reply_to, Some(4));
    assert_eq!(shown.body.value, Some(Value::Unsigned(7)));

    let mut peer = Replica::<GCounter>::new();
    peer.handle(&init_request(1, "n2", &["n1", "n2"])).unwrap();
    peer.handle(&add_request(2, Value::Unsigned(2))).unwrap();
    let snapshots = peer.snapshots();
    assert_eq!(snapshots.len(), 1);
    assert_eq!(snapshots[0].src, "n2");
    assert_eq!(snapshots[0].dest, "n1");
    assert_eq!(snapshots[0].body.typ, "replicate");
    assert_eq!(snapshots[0].body.msg_id, None);
    assert_eq!(snapshots[0].body.counters, Some(vec![(node("n2"), 2)]));

    assert_eq!(replica.handle(&snapshots[0]).unwrap(), Vec::new());
    let shown = only_reply(replica.handle(&client_request("read", 5)).unwrap());
    assert_eq!(shown.body.value, Some(Value::Unsigned(9)));
    // the same snapshot again changes nothing
    replica.handle(&snapshots[0]).unwrap();
    let shown = only_reply(replica.handle(&client_request("read", 6)).unwrap());
    assert_eq!(shown.body.value, Some(Value::Unsigned(9)));
}

#[test]
fn gcounter_node_rejects_bad_adds() {
    let mut replica = Replica::<GCounter>::new();
    replica.handle(&init_request(1, "n1", &["n1"])).unwrap();
    assert_eq!(replica.handle(&client_request("add", 2)), Err(Fault::Malformed));
    assert_eq!(replica.handle(&add_request(2, Value::Signed(-1))), Err(Fault::Malformed));
    assert_eq!(replica.handle(&add_request(2, Value::Text("3".to_string()))), Err(Fault::Malformed));
    replica.handle(&add_request(3, Value::Unsigned(u64::MAX))).unwrap();
    assert_eq!(replica.handle(&add_request(4, Value::Unsigned(1))), Err(Fault::Overflow));
    assert_eq!(replica.crdt.read(), u64::MAX);
    assert_eq!(replica.handle(&client_request("replicate", 5)), Err(Fault::Malformed));
}

#[test]
fn gcounter_node_read_sees_overflow() {
    let mut replica = Replica::<GCounter>::new();
    replica.handle(&init_request(1, "n1", &["n1", "n2"])).unwrap();
    replica.handle(&add_request(2, Value::Unsigned(u64::MAX))).unwrap();
    let mut snapshot = client_request("replicate", 0);
    snapshot.body.counters = Some(vec![(node("n2"), 1)]);
    replica.handle(&snapshot).unwrap();
    assert_eq!(replica.handle(&client_request("read", 3)), Err(Fault::Overflow));
}

#[test]
fn pncounter_node_adds_and_reads() {
    let mut replica = Replica::<PNCounter>::new();
    replica.handle(&init_request(1, "n1", &["n1", "n2"])).unwrap();
    replica.handle(&add_request(2, Value::Unsigned(5))).unwrap();
    replica.handle(&add_request(3, Value::Signed(-2))).unwrap();
    let shown = only_reply(replica.handle(&client_request("read", 4)).unwrap());
    assert_eq!(shown.body.typ, "read_ok");
    assert_eq!(shown.body.value, Some(Value::Unsigned(3)));
    replica.handle(&add_request(5, Value::Signed(-7))).unwrap();
    let shown = only_reply(replica.handle(&client_request("read", 6)).unwrap());
    assert_eq!(shown.body.value, Some(Value::Signed(-4)));
    assert_eq!(replica.handle(&add_request(7, Value::Null)), Err(Fault::Malformed));
    assert_eq!(replica.handle(&add_request(7, Value::Unsigned(u64::MAX))), Err(Fault::Malformed));
}

#[test]
fn pncounter_node_snapshot_carries_both_maps() {
    let mut replica = Replica::<PNCounter>::new();
    replica.handle(&init_request(1, "n1", &["n1", "n2", "n3"])).unwrap();
    replica.handle(&add_request(2, Value::Unsigned(5))).unwrap();
    replica.handle(&add_request(3, Value::Signed(-2))).unwrap();
    let snapshots = replica.snapshots();
    assert_eq!(snapshots.len(), 2);
    assert_eq!(snapshots[0].dest, "n2");
    assert_eq!(snapshots[1].dest, "n3");
    for snapshot in snapshots.iter() {
        assert_eq!(snapshot.src, "n1");
        assert_eq!(snapshot.body.typ, "replicate");
        assert_eq!(
            snapshot.body.pn_counters,
            Some((vec![(node("n1"), 5)], vec![(node("n1"), 2)]))
        );
    }
}

#[test]
fn gset_node_adds_reads_and_merges() {
    let mut replica = Replica::<GSet>::new();
    replica.handle(&init_request(1, "n1", &["n1", "n2"])).unwrap();
    let mut add = client_request("add", 2);
    add.body.element = Some(Value::Unsigned(8));
    let ack = only_reply(replica.handle(&add).unwrap());
    assert_eq!(ack.body.typ, "add_ok");
    let mut snapshot = client_request("replicate", 0);
    snapshot.body.value = Some(Value::List(vec![8, 9, 9]));
    assert_eq!(replica.handle(&snapshot).unwrap(), Vec::new());
    let shown = only_reply(replica.handle(&client_request("read", 3)).unwrap());
    match shown.body.value {
        Some(Value::List(mut items)) => {
            items.sort();
            assert_eq!(items, vec![8, 9]);
        }
        other => panic!("expected a list, got {:?}", other),
    }
    assert_eq!(replica.handle(&client_request("add", 4)), Err(Fault::Malformed));
    assert_eq!(replica.handle(&client_request("replicate", 5)), Err(Fault::Malformed));
}

#[test]
fn three_nodes_converge_after_all_pairs_gossip() {
    let names = ["n1", "n2", "n3"];
    let mut nodes: Vec<Replica<GCounter>> = Vec::new();
    for name in names.iter() {
        let mut replica = Replica::<GCounter>::new();
        replica.handle(&init_request(1, name, &names)).unwrap();
        nodes.push(replica);
    }
    nodes[0].handle(&add_request(2, Value::Unsigned(3))).unwrap();
    nodes[1].handle(&add_request(2, Value::Unsigned(4))).unwrap();
    nodes[2].handle(&add_request(2, Value::Unsigned(10))).unwrap();
    nodes[0].handle(&add_request(3, Value::Unsigned(1))).unwrap();
    // every node hears from every other node, in an odd order, some twice
    let order = [(2, 0), (0, 1), (1, 2), (2, 1), (0, 2), (1, 0), (0, 1)];
    for (from, to) in order.iter() {
        let snapshots = nodes[*from].snapshots();
        for snapshot in snapshots.iter() {
            if snapshot.dest == names[*to] {
                nodes[*to].handle(snapshot).unwrap();
            }
        }
    }
    for replica in nodes.iter_mut() {
        let shown = only_reply(replica.handle(&client_request("read", 9)).unwrap());
        assert_eq!(shown.body.value, Some(Value::Unsigned(18)));
    }
}
