use omnipaxos_kv::database::Database;
use omnipaxos_kv::kv::KVCommand;
use omnipaxos_kv::maelstrom::{
    error_body, reply_message, value_of_word, word_of, Body, Exchange, JsonValue, Message, Node,
    NodeStep, ShimRequest, ShimResponse,
};
use omnipaxos_kv::workload::{
    generate_op, op_outcome, op_request, operation_from_draws, Operation, Outcome,
};

fn body(msg_type: &str) -> Body {
    Body {
        msg_type: msg_type.to_string(),
        msg_id: None,
        in_reply_to: None,
        node_id: None,
        node_ids: None,
        key: None,
        value: None,
        from: None,
        to: None,
        code: None,
        text: None,
    }
}

fn text(s: &str) -> JsonValue {
    JsonValue::Text(s.to_string())
}

fn message(body: Body) -> Message {
    Message { src: "c1".to_string(), dest: "n1".to_string(), body }
}

fn init() -> Message {
    message(Body { msg_id: Some(1), node_id: Some("n1".to_string()), ..body("init") })
}

fn read(key: JsonValue) -> Message {
    message(Body { msg_id: Some(2), key: Some(key), ..body("read") })
}

fn write(key: JsonValue, value: JsonValue) -> Message {
    message(Body { msg_id: Some(3), key: Some(key), value: Some(value), ..body("write") })
}

fn cas(key: JsonValue, from: JsonValue, to: JsonValue) -> Message {
    message(Body { msg_id: Some(4), key: Some(key), from: Some(from), to: Some(to), ..body("cas") })
}

fn started() -> Node {
    let mut node = Node::new();
    node.handle(&init());
    node
}

fn answered(ok: bool, value: Option<&str>, error: Option<&str>) -> Exchange {
    Exchange::Answered(ShimResponse {
        ok,
        value: value.map(|s| s.to_string()),
        error: error.map(|s| s.to_string()),
    })
}

fn reply(b: Body) -> Message {
    Message { src: "n1".to_string(), dest: "c1".to_string(), body: b }
}

fn error(in_reply_to: u64, code: u32, text: &str) -> Message {
    reply(error_body(Some(in_reply_to), code, text.to_string()))
}

#[test]
fn error_body_has_code_and_text() {
    assert_eq!(
        error_body(Some(7), 20, "gone".to_string()),
        Body { in_reply_to: Some(7), code: Some(20), text: Some("gone".to_string()), ..body("error") }
    );
}

#[test]
fn reply_goes_to_the_sender() {
    assert_eq!(reply_message("n1", &read(text("k")), body("x")), reply(body("x")));
}

#[test]
fn init_is_answered_at_once() {
    let mut node = Node::new();
    match node.handle(&init()) {
        NodeStep::Reply(m) => assert_eq!(m, reply(Body { in_reply_to: Some(1), ..body("init_ok") })),
        _ => panic!("no reply"),
    }
}

#[test]
fn read_asks_the_gateway() {
    match started().handle(&read(JsonValue::Integer(5))) {
        NodeStep::Ask(r) => assert_eq!(r, ShimRequest::Get { url: "http://127.0.0.1:8080/kv/get/5".to_string() }),
        _ => panic!("no request"),
    }
}

#[test]
fn write_asks_the_gateway() {
    match started().handle(&write(text("k"), JsonValue::Integer(-3))) {
        NodeStep::Ask(r) => assert_eq!(
            r,
            ShimRequest::Put {
                url: "http://127.0.0.1:8080/kv/put".to_string(),
                key: "k".to_string(),
                value: "-3".to_string(),
            }
        ),
        _ => panic!("no request"),
    }
}

#[test]
fn cas_asks_the_gateway() {
    match started().handle(&cas(JsonValue::Integer(1), JsonValue::Integer(2), JsonValue::Integer(3))) {
        NodeStep::Ask(r) => assert_eq!(
            r,
            ShimRequest::Cas {
                url: "http://127.0.0.1:8080/kv/cas".to_string(),
                key: "1".to_string(),
                expected: "2".to_string(),
                new_value: "3".to_string(),
            }
        ),
        _ => panic!("no request"),
    }
}

#[test]
fn unknown_messages_are_left_alone() {
    assert!(matches!(started().handle(&message(body("topology"))), NodeStep::Unknown));
}

#[test]
fn incomplete_messages_are_not_accepted() {
    assert!(Node::accepts(&init()));
    assert!(Node::accepts(&read(text("k"))));
    assert!(Node::accepts(&write(text("k"), text("v"))));
    assert!(Node::accepts(&cas(text("k"), text("v"), text("w"))));
    assert!(Node::accepts(&message(body("topology"))));
    assert!(!Node::accepts(&message(body("init"))));
    assert!(!Node::accepts(&message(body("read"))));
    assert!(!Node::accepts(&message(body("write"))));
    assert!(!Node::accepts(&message(Body { key: Some(text("k")), ..body("write") })));
    assert!(!Node::accepts(&message(Body { key: Some(text("k")), from: Some(text("v")), ..body("cas") })));
}

#[test]
fn read_is_answered_with_the_value() {
    let node = started();
    let m = read(text("k"));
    assert_eq!(
        node.finish(&m, answered(true, Some("17"), None)),
        reply(Body { in_reply_to: Some(2), value: Some(JsonValue::Integer(17)), ..body("read_ok") })
    );
    assert_eq!(
        node.finish(&m, answered(true, Some("seventeen"), None)),
        reply(Body { in_reply_to: Some(2), value: Some(text("seventeen")), ..body("read_ok") })
    );
}

#[test]
fn read_errors() {
    let node = started();
    let m = read(text("k"));
    assert_eq!(node.finish(&m, answered(true, None, None)), error(2, 20, "key not found"));
    assert_eq!(node.finish(&m, answered(false, Some("1"), Some("x"))), error(2, 20, "not found"));
    assert_eq!(node.finish(&m, Exchange::BadAnswer("eof".to_string())), error(2, 13, "eof"));
    assert_eq!(node.finish(&m, Exchange::SendFailed("refused".to_string())), error(2, 11, "refused"));
    assert_eq!(node.finish(&m, Exchange::TimedOut), error(2, 11, "timeout"));
}

#[test]
fn write_replies() {
    let node = started();
    let m = write(text("k"), text("v"));
    assert_eq!(
        node.finish(&m, answered(true, None, None)),
        reply(Body { in_reply_to: Some(3), ..body("write_ok") })
    );
    assert_eq!(node.finish(&m, answered(false, None, Some("full"))), error(3, 14, "full"));
    assert_eq!(node.finish(&m, answered(false, None, None)), error(3, 14, "write failed"));
    assert_eq!(node.finish(&m, Exchange::BadAnswer("eof".to_string())), error(3, 13, "eof"));
    assert_eq!(node.finish(&m, Exchange::SendFailed("refused".to_string())), error(3, 11, "refused"));
    assert_eq!(node.finish(&m, Exchange::TimedOut), error(3, 11, "timeout"));
}

#[test]
fn cas_replies() {
    let node = started();
    let m = cas(text("k"), text("v"), text("w"));
    assert_eq!(
        node.finish(&m, answered(true, None, None)),
        reply(Body { in_reply_to: Some(4), ..body("cas_ok") })
    );
    assert_eq!(node.finish(&m, answered(false, None, Some("no match"))), error(4, 22, "no match"));
    assert_eq!(node.finish(&m, answered(false, None, None)), error(4, 22, "cas failed"));
    assert_eq!(node.finish(&m, Exchange::TimedOut), error(4, 11, "timeout"));
}

#[test]
fn words_are_json_text_without_outer_quotes() {
    let strings = ["", "plain", "two words", "\"", "a\"", "\"a", "tab\there", "back\\slash", "\u{1}", "\u{20ac}", "5"];
    for s in strings {
        let expected = serde_json::Value::String(s.to_string()).to_string();
        assert_eq!(word_of(&text(s)), expected.trim_matches('"'), "{s:?}");
    }
    assert_eq!(word_of(&text("a\nb")), "a\\nb");
    assert_eq!(word_of(&text("a\"")), "a\\");
    assert_eq!(word_of(&text("\u{0}\u{8}\u{9}\u{a}\u{c}\u{d}\u{1f}\u{7f}")), "\\u0000\\b\\t\\n\\f\\r\\u001f\u{7f}");
    for n in [0i64, -1, 42, i64::MIN, i64::MAX] {
        assert_eq!(word_of(&JsonValue::Integer(n)), serde_json::Value::from(n).to_string());
    }
    assert_eq!(word_of(&JsonValue::Other("[1,\"a\"]".to_string())), "[1,\"a\"]");
    assert_eq!(word_of(&JsonValue::Other("true".to_string())), "true");
}

#[test]
fn words_stand_for_integers_where_they_read_as_such() {
    assert_eq!(value_of_word("12".to_string()), JsonValue::Integer(12));
    assert_eq!(value_of_word("+12".to_string()), JsonValue::Integer(12));
    assert_eq!(value_of_word("12x".to_string()), text("12x"));
    assert_eq!(value_of_word("9223372036854775808".to_string()), text("9223372036854775808"));
    assert_eq!(value_of_word("".to_string()), text(""));
}

#[test]
fn written_values_are_read_back() {
    for (key, value) in [
        (JsonValue::Integer(1), JsonValue::Integer(i64::MIN)),
        (text("k"), text("some text")),
        (JsonValue::Other("null".to_string()), JsonValue::Integer(7)),
    ] {
        let mut node = started();
        let mut store = Database::new("db.json".to_string(), None);
        let expected = JsonValue::Integer(0);
        let wanted = match &value {
            JsonValue::Integer(n) => JsonValue::Integer(*n),
            JsonValue::Text(s) => text(s),
            JsonValue::Other(_) => expected,
        };
        let put_key = word_of(&key);
        match node.handle(&write(key, value)) {
            NodeStep::Ask(ShimRequest::Put { key, value, .. }) => {
                store.handle_command(KVCommand::Put(key, value));
            }
            _ => panic!("no put"),
        }
        let found = store.handle_command(KVCommand::Get(put_key)).answer.unwrap();
        let m = read(text("k"));
        assert_eq!(
            node.finish(&m, answered(true, found.as_deref(), None)).body.value,
            Some(wanted)
        );
    }
}

#[test]
fn draws_make_operations() {
    assert_eq!(operation_from_draws(3, 50, 0), Operation::Read("3".to_string()));
    assert_eq!(operation_from_draws(3, 50, 2), Operation::Read("3".to_string()));
    assert_eq!(operation_from_draws(3, 50, 3), Operation::Write("3".to_string(), "50".to_string()));
    assert_eq!(operation_from_draws(5, 100, 9), Operation::Write("5".to_string(), "100".to_string()));
}

#[test]
fn random_operations_stay_in_range() {
    let mut reads = 0;
    let mut keys = std::collections::BTreeSet::new();
    let mut values = std::collections::BTreeSet::new();
    for _ in 0..2000 {
        match generate_op() {
            Operation::Read(key) => {
                reads += 1;
                keys.insert(key);
            }
            Operation::Write(key, value) => {
                keys.insert(key);
                let n: u32 = value.parse().unwrap();
                assert!((1..=100).contains(&n));
                values.insert(n);
            }
        }
    }
    assert_eq!(keys.into_iter().collect::<Vec<_>>(), vec!["1", "2", "3", "4", "5"]);
    assert!(values.len() > 50);
    assert!(reads > 300 && reads < 900);
}

#[test]
fn operations_make_requests() {
    assert_eq!(
        op_request(&Operation::Read("2".to_string()), "http://h"),
        ShimRequest::Get { url: "http://h/kv/get/2".to_string() }
    );
    assert_eq!(
        op_request(&Operation::Write("2".to_string(), "9".to_string()), "http://h"),
        ShimRequest::Put { url: "http://h/kv/put".to_string(), key: "2".to_string(), value: "9".to_string() }
    );
}

#[test]
fn outcomes_of_operations() {
    let read = Operation::Read("1".to_string());
    let write = Operation::Write("1".to_string(), "2".to_string());
    assert_eq!(op_outcome(&read, answered(true, Some("7"), None)), Outcome::ReadOk("7".to_string()));
    assert_eq!(op_outcome(&read, answered(true, None, None)), Outcome::ReadOk(String::new()));
    assert_eq!(op_outcome(&read, answered(false, None, Some("x"))), Outcome::NotFound);
    assert_eq!(op_outcome(&write, answered(true, None, None)), Outcome::WriteOk);
    assert_eq!(op_outcome(&write, answered(false, None, Some("x"))), Outcome::Failed("x".to_string()));
    assert_eq!(op_outcome(&write, answered(false, None, None)), Outcome::Failed(String::new()));
    for op in [read, write] {
        assert_eq!(op_outcome(&op, Exchange::BadAnswer("e".to_string())), Outcome::Failed("e".to_string()));
        assert_eq!(op_outcome(&op, Exchange::SendFailed("e".to_string())), Outcome::Indeterminate);
        assert_eq!(op_outcome(&op, Exchange::TimedOut), Outcome::Indeterminate);
    }
}
