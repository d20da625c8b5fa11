use maelstrom::message::{reply, Message, MsgBody};
use maelstrom::node::{gen_msg_id, others_of, MessageIdGenerator};
use maelstrom::value::Value;

fn request_from(src: &str, dest: &str, typ: &str, id: u64) -> Message {
    Message { src: src.to_string(), dest: dest.to_string(), body: MsgBody::request(typ, id) }
}

#[test]
fn body_of_kind_has_only_its_kind() {
    let body = MsgBody::of_kind("read");
    assert_eq!(body.typ, "read");
    assert_eq!(body.msg_id, None);
    assert_eq!(body.in_reply_to, None);
    assert_eq!(body.node_id, None);
    assert_eq!(body.value, None);
    assert_eq!(body.txn, None);
    assert_eq!(body.code, None);
    assert!(body.is_kind("read"));
    assert!(!body.is_kind("read_ok"));
}

#[test]
fn reply_swaps_addresses_and_correlates() {
    let origin = request_from("c1", "n1", "read", 41);
    let response = reply(&origin, MsgBody::request("read_ok", 7));
    assert_eq!(response.src, "n1");
    assert_eq!(response.dest, "c1");
    assert_eq!(response.body.typ, "read_ok");
    assert_eq!(response.body.msg_id, Some(7));
    assert_eq!(response.body.in_reply_to, Some(41));
    // the request is untouched
    assert_eq!(origin.src, "c1");
    assert_eq!(origin.body.in_reply_to, None);
}

#[test]
fn reply_overwrites_a_stale_correlation() {
    let origin = request_from("c9", "n3", "add", 5);
    let mut body = MsgBody::request("add_ok", 1);
    body.in_reply_to = Some(999);
    let response = reply(&origin, body);
    assert_eq!(response.body.in_reply_to, Some(5));
}

#[test]
fn identifiers_count_up_from_zero() {
    let mut ids = MessageIdGenerator::new();
    assert_eq!(ids.fresh(), 0);
    assert_eq!(ids.fresh(), 1);
    assert_eq!(ids.fresh(), 2);
}

#[test]
fn gen_msg_id_returns_then_advances() {
    let mut next = 10u64;
    assert_eq!(gen_msg_id(&mut next), 10);
    assert_eq!(next, 11);
    assert_eq!(gen_msg_id(&mut next), 11);
    assert_eq!(next, 12);
}

#[test]
fn others_leaves_out_the_node_itself() {
    let ids = vec!["n1".to_string(), "n2".to_string(), "n3".to_string()];
    assert_eq!(others_of(&ids, &"n2".to_string()), vec!["n1".to_string(), "n3".to_string()]);
    assert_eq!(others_of(&ids, &"n9".to_string()), ids);
    assert_eq!(others_of(&Vec::new(), &"n1".to_string()), Vec::<String>::new());
}

#[test]
fn value_reads_integers_by_sign() {
    assert_eq!(Value::Unsigned(7).as_u64(), Some(7));
    assert_eq!(Value::Unsigned(7).as_i64(), Some(7));
    assert_eq!(Value::Unsigned(u64::MAX).as_i64(), None);
    assert_eq!(Value::Signed(-3).as_u64(), None);
    assert_eq!(Value::Signed(-3).as_i64(), Some(-3));
    assert_eq!(Value::Signed(4).as_u64(), Some(4));
    assert_eq!(Value::Null.as_u64(), None);
    assert_eq!(Value::Text("7".to_string()).as_u64(), None);
    assert_eq!(Value::List(vec![7]).as_i64(), None);
    assert_eq!(Value::Other.as_u64(), None);
    assert!(Value::Null.is_null());
    assert!(!Value::Unsigned(0).is_null());
}

#[test]
fn value_of_integer_keeps_sign_apart() {
    assert_eq!(Value::from_i64(3), Value::Unsigned(3));
    assert_eq!(Value::from_i64(0), Value::Unsigned(0));
    assert_eq!(Value::from_i64(-2), Value::Signed(-2));
    assert_eq!(Value::from_i64(i64::MIN), Value::Signed(i64::MIN));
}

#[test]
fn value_clone_is_equal() {
    let values = vec![
        Value::Null,
        Value::Unsigned(1),
        Value::Signed(-1),
        Value::Text("db".to_string()),
        Value::List(vec![1, 2, 3]),
        Value::Other,
    ];
    for value in values.iter() {
        assert_eq!(&value.clone(), value);
    }
}
